use conservation_enforcer::fetch::policy_is_trap_free;
use conservation_enforcer::ConservationEnforcer;

const HALT: u8 = 0x80;
const MOVI: u8 = 0x2B;

fn enforcer(policy: Vec<u8>, budget: i64) -> ConservationEnforcer {
    ConservationEnforcer::new(policy, budget, None, false, None).unwrap()
}

#[test]
fn two_cycle_policy_within_budget() {
    let mut e = enforcer(vec![MOVI, 0, 42, 0, HALT], 2);
    let r = e.enforce("q", "answer");
    assert!(r.allowed);
    assert_eq!(r.cycles, 2);
    assert_eq!(r.output, "answer");
}

#[test]
fn two_cycle_policy_over_budget() {
    let mut e = enforcer(vec![MOVI, 0, 42, 0, HALT], 1);
    let r = e.enforce("q", "answer");
    assert!(!r.allowed);
    assert_eq!(r.cycles, 2);
    let v = r.violation.unwrap();
    assert_eq!(v.code, 1);
    assert_eq!(v.reason, "cycle budget exceeded: 2 > 1");
}

#[test]
fn default_template_carries_reason() {
    let mut e = enforcer(vec![], -1);
    let r = e.enforce("Hello", "Hello world");
    assert_eq!(
        r.output,
        "⚠️ This response was blocked by a conservation law: cycle budget exceeded: 0 > -1. Please try again with a more conserved response."
    );
}

#[test]
fn custom_template_is_used() {
    let mut e = ConservationEnforcer::new(
        vec![MOVI, 0, 1, 0, HALT],
        0,
        Some("Blocked ({reason})".to_string()),
        false,
        None,
    )
    .unwrap();
    let r = e.enforce("q", "a");
    assert_eq!(r.output, "Blocked (cycle budget exceeded: 2 > 0)");
}

#[test]
fn invalid_opcode_reported() {
    let mut e = enforcer(vec![0xFF], 1000);
    let r = e.enforce("q", "a");
    assert!(!r.allowed);
    let v = r.violation.unwrap();
    assert_eq!(v.code, 3);
    assert_eq!(v.reason, "policy VM error: InvalidOpcode(255)");
}

#[test]
fn float_division_by_zero_reported() {
    // FDIV F2, F0, F1 with both registers at 0.0.
    let mut e = enforcer(vec![0x43, 2, 0, 1, HALT], 1000);
    let r = e.enforce("q", "a");
    assert_eq!(r.cycles, 1);
    let v = r.violation.unwrap();
    assert_eq!(v.code, 3);
    assert_eq!(v.reason, "policy VM error: DivisionByZero");
}

#[test]
fn trapping_opcodes_are_detected_where_fetched() {
    assert!(policy_is_trap_free(&vec![]));
    assert!(policy_is_trap_free(&vec![MOVI, 0, 42, 0, HALT]));
    for op in [0x02u8, 0x03, 0x0B, 0x0C, 0x0D] {
        // As an operand the byte is never fetched.
        assert!(policy_is_trap_free(&vec![MOVI, 0, op, 0, HALT]));
        assert!(policy_is_trap_free(&vec![MOVI, op, 5, 0, HALT]));
        // As an opcode it is.
        assert!(!policy_is_trap_free(&vec![op, 0, 1, 2, HALT]));
        assert!(!policy_is_trap_free(&vec![MOVI, 0, 1, 0, op, 0, 1, 2, HALT]));
        // After HALT it is not reached.
        assert!(policy_is_trap_free(&vec![HALT, op, 0, 1, 2]));
    }
}

#[test]
fn jumps_are_followed() {
    // JMP +1 skips an IDIV byte and lands on HALT.
    assert!(policy_is_trap_free(&vec![0x04, 0, 1, 0, 0x0B, HALT]));
    // JMP +0 lands on the IDIV.
    assert!(!policy_is_trap_free(&vec![0x04, 0, 0, 0, 0x0B, 0, 1, 2, HALT]));
    // JZ may fall through onto the IDIV, or jump past it.
    assert!(!policy_is_trap_free(&vec![0x05, 0, 4, 0, 0x0B, 0, 1, 2, HALT]));
    // A backward jump to the start stays clear of the IDIV after HALT.
    assert!(policy_is_trap_free(&vec![0x2E, 0, 0xFC, 0xFF, HALT, 0x0B]));
    // TELL with a 1-byte payload holding an IDIV byte.
    assert!(policy_is_trap_free(&vec![0x60, 1, 0, 0x0B, HALT]));
}

#[test]
fn return_falls_back_to_every_byte() {
    // A reachable RET could land anywhere: then no byte may trap.
    assert!(policy_is_trap_free(&vec![0x28, 0, 0, HALT]));
    assert!(!policy_is_trap_free(&vec![0x28, 0, 0, HALT, 0x0B]));
}

#[test]
fn operand_bytes_that_look_like_traps_are_enforced() {
    // MOVI R2, 5; HALT: 0x02 is a register operand.
    let mut e = enforcer(vec![MOVI, 2, 5, 0, HALT], 10);
    let r = e.enforce("q", "answer");
    assert!(r.allowed);
    assert_eq!(r.cycles, 2);
}

#[test]
fn stack_underflow_reported() {
    let mut e = enforcer(vec![0x21, 0], 1000);
    let v = e.enforce("q", "a").violation.unwrap();
    assert_eq!(v.reason, "policy VM error: StackUnderflow");
}

#[test]
fn endless_policy_hits_cycle_ceiling() {
    // JMP back to the start, forever.
    let mut e = enforcer(vec![0x04, 0, 0xFC, 0xFF], i64::MAX);
    let r = e.enforce("q", "a");
    assert!(!r.allowed);
    assert_eq!(r.cycles, 10_000_000);
    let v = r.violation.unwrap();
    assert_eq!(v.code, 2);
    assert_eq!(v.reason, "cycle limit exceeded at 10000000 cycles");
}

#[test]
fn enforce_keeps_budget_and_verdict() {
    let mut e = enforcer(vec![MOVI, 0, 42, 0, HALT], 5);
    let first = e.enforce("q", "same");
    let second = e.enforce("q", "same");
    assert_eq!(first, second);
    assert_eq!(e.remaining_budget(), 5);
    assert_eq!(e.call_count(), 2);
}

#[test]
fn reset_undoes_replenish_after_enforcing() {
    let mut e = enforcer(vec![], 100);
    e.replenish_budget(50);
    e.enforce("q", "a");
    e.replenish_budget(25);
    assert_eq!(e.remaining_budget(), 175);
    e.reset_budget();
    assert_eq!(e.remaining_budget(), 100);
    e.reset_budget();
    assert_eq!(e.remaining_budget(), 100);
}

#[test]
fn configuration_is_kept() {
    let mut e = ConservationEnforcer::new(
        vec![HALT],
        10,
        Some("T {reason}".to_string()),
        true,
        Some("audit.jsonl".to_string()),
    )
    .unwrap();
    e.enforce("q", "a");
    e.replenish_budget(3);
    e.reset_budget();
    assert_eq!(e.policy, vec![HALT]);
    assert_eq!(e.correction_template, "T {reason}");
    assert!(e.enable_audit);
    assert_eq!(e.audit_path.as_deref(), Some("audit.jsonl"));
    assert_eq!(e.budget, 10);
}

#[test]
fn replenish_accumulates() {
    let mut a = enforcer(vec![], 1);
    a.replenish_budget(20);
    a.replenish_budget(22);
    let mut b = enforcer(vec![], 1);
    b.replenish_budget(42);
    assert_eq!(a.remaining_budget(), b.remaining_budget());
}

#[test]
fn replenish_zero_changes_nothing() {
    let mut e = enforcer(vec![], 7);
    e.replenish_budget(0);
    assert_eq!(e.remaining_budget(), 7);
}
