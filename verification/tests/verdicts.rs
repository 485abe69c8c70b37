use conservation_enforcer::verdict::judge_run;
use conservation_enforcer::vm::PolicyRun;
use conservation_enforcer::VmFault;

fn finished(cycles: u64) -> PolicyRun {
    PolicyRun { result: Ok(cycles), cycles }
}

fn stopped(fault: VmFault, cycles: u64) -> PolicyRun {
    PolicyRun { result: Err(fault), cycles }
}

#[test]
fn finished_within_budget_is_allowed() {
    let r = judge_run(&finished(3), 10, "T {reason}", "the answer");
    assert!(r.allowed);
    assert_eq!(r.output, "the answer");
    assert_eq!(r.cycles, 3);
    assert!(r.violation.is_none());
}

#[test]
fn finished_exactly_at_budget_is_allowed() {
    let r = judge_run(&finished(10), 10, "T", "ok");
    assert!(r.allowed);
}

#[test]
fn finished_over_budget_is_blocked_with_code_one() {
    let r = judge_run(&finished(5), 4, "X{reason}Y", "the answer");
    assert!(!r.allowed);
    assert_eq!(r.cycles, 5);
    let v = r.violation.unwrap();
    assert_eq!(v.code, 1);
    assert_eq!(v.reason, "cycle budget exceeded: 5 > 4");
    assert_eq!(r.output, "Xcycle budget exceeded: 5 > 4Y");
}

#[test]
fn negative_budget_is_rendered_with_sign() {
    let r = judge_run(&finished(0), -1, "{reason}", "a");
    assert_eq!(r.output, "cycle budget exceeded: 0 > -1");
    assert_eq!(r.cycles, 0);
}

#[test]
fn cycle_ceiling_is_blocked_with_code_two() {
    let run = stopped(VmFault::CycleBudgetExceeded(10_000_000), 10_000_000);
    let r = judge_run(&run, 1 << 40, "[{reason}]", "a");
    assert!(!r.allowed);
    assert_eq!(r.cycles, 10_000_000);
    let v = r.violation.unwrap();
    assert_eq!(v.code, 2);
    assert_eq!(v.reason, "cycle limit exceeded at 10000000 cycles");
    assert_eq!(r.output, "[cycle limit exceeded at 10000000 cycles]");
}

#[test]
fn vm_error_is_blocked_with_code_three() {
    let r = judge_run(&stopped(VmFault::DivisionByZero, 4), 1000, "{reason}", "a");
    assert!(!r.allowed);
    assert_eq!(r.cycles, 4);
    let v = r.violation.unwrap();
    assert_eq!(v.code, 3);
    assert_eq!(v.reason, "policy VM error: DivisionByZero");
}

#[test]
fn huge_cycle_count_is_over_any_small_budget() {
    let r = judge_run(&finished(u64::MAX), 0, "{reason}", "through");
    assert!(!r.allowed);
    assert_eq!(r.output, "cycle budget exceeded: 18446744073709551615 > 0");
}

#[test]
fn more_budget_keeps_allowed_verdict() {
    let a = judge_run(&finished(7), 7, "{reason}", "out");
    let b = judge_run(&finished(7), 1_000, "{reason}", "out");
    assert!(a.allowed && b.allowed);
    assert_eq!(a, b);
}

#[test]
fn blocked_output_is_template_with_reason() {
    let r = judge_run(&stopped(VmFault::StackUnderflow, 1), 5, "before {reason} after", "x");
    let v = r.violation.clone().unwrap();
    assert_eq!(r.output, format!("before {} after", v.reason));
}
