use conservation_enforcer::{ConservationEnforcer, EnforcementResult};

#[test]
fn new_stores_policy_and_budget() {
    let enforcer =
        ConservationEnforcer::new(vec![0, 1, 2, 3], 1000, None, false, None).unwrap();
    assert_eq!(enforcer.budget, 1000);
    assert_eq!(enforcer.policy, vec![0, 1, 2, 3]);
    assert_eq!(enforcer.call_count(), 0);
}

#[test]
fn call_count_increments_on_enforce() {
    let mut enforcer = ConservationEnforcer::new(vec![], 1000, None, false, None).unwrap();
    enforcer.enforce("hi", "hello");
    enforcer.enforce("hi", "world");
    assert_eq!(enforcer.call_count(), 2);
}

#[test]
fn remaining_budget_tracks_state() {
    let mut enforcer = ConservationEnforcer::new(vec![], 500, None, false, None).unwrap();
    assert_eq!(enforcer.remaining_budget(), 500);
    enforcer.replenish_budget(200);
    assert_eq!(enforcer.remaining_budget(), 700);
    enforcer.reset_budget();
    assert_eq!(enforcer.remaining_budget(), 500);
}

#[test]
fn blocked_keeps_correction_template() {
    let r = EnforcementResult::blocked("corrected".into(), "out of budget".into(), 42);
    assert!(!r.allowed);
    assert_eq!(r.output, "corrected");
    let v = r.violation.unwrap();
    assert_eq!(v.reason, "out of budget");
    assert_eq!(v.code, 42);
}

#[test]
fn allowed_has_no_violation() {
    let r = EnforcementResult::allowed("keep".into());
    assert!(r.allowed);
    assert_eq!(r.output, "keep");
    assert!(r.violation.is_none());
}

#[test]
fn empty_policy_with_high_budget_allows() {
    let mut enforcer = ConservationEnforcer::new(vec![], 10_000, None, false, None).unwrap();
    let result = enforcer.enforce("Hello", "Hello world");
    assert!(result.allowed, "empty policy should allow short output");
    assert_eq!(result.output, "Hello world");
}

#[test]
fn empty_policy_with_zero_budget_denies() {
    let mut enforcer = ConservationEnforcer::new(vec![], -1, None, false, None).unwrap();
    let result = enforcer.enforce("Hello", "Hello world");
    // Empty policy still executes the VM, which burns cycles (0 or more).
    // With negative budget, any non-negative cycle count exceeds the budget.
    assert!(!result.allowed, "negative budget should deny output");
    assert!(result.output.contains("cycle"), "blocked output should mention cycle");
    assert!(result.violation.is_some(), "denied result should have a violation");
}
