use conservation_enforcer::text::{fill_reason_marker, render_signed, render_unsigned};
use conservation_enforcer::vm::describe_fault;
use conservation_enforcer::VmFault;

#[test]
fn unsigned_numerals() {
    assert_eq!(render_unsigned(0), "0");
    assert_eq!(render_unsigned(7), "7");
    assert_eq!(render_unsigned(10), "10");
    assert_eq!(render_unsigned(1234567890), "1234567890");
    assert_eq!(render_unsigned(u64::MAX), u64::MAX.to_string());
}

#[test]
fn signed_numerals() {
    assert_eq!(render_signed(0), "0");
    assert_eq!(render_signed(-1), "-1");
    assert_eq!(render_signed(250), "250");
    assert_eq!(render_signed(i64::MIN), i64::MIN.to_string());
    assert_eq!(render_signed(i64::MAX), i64::MAX.to_string());
}

#[test]
fn marker_replaced_everywhere() {
    assert_eq!(fill_reason_marker("a {reason} b {reason}", "X"), "a X b X");
    assert_eq!(fill_reason_marker("{reason}", "why"), "why");
    assert_eq!(fill_reason_marker("{{reason}}", "X"), "{X}");
}

#[test]
fn template_without_marker_unchanged() {
    assert_eq!(fill_reason_marker("no marker here", "X"), "no marker here");
    assert_eq!(fill_reason_marker("{reaso}", "X"), "{reaso}");
    assert_eq!(fill_reason_marker("", "X"), "");
    assert_eq!(fill_reason_marker("{reason", "X"), "{reason");
}

#[test]
fn marker_fill_agrees_with_std_replace() {
    let templates = [
        "⚠️ blocked: {reason}. Retry.",
        "{reason}{reason}",
        "x{reason}y{reason}z",
        "ünïcödé {reason} ✓",
    ];
    for t in templates {
        assert_eq!(fill_reason_marker(t, "r"), t.replace("{reason}", "r"));
    }
}

#[test]
fn faults_render_as_debug() {
    let faults = vec![
        VmFault::InvalidOpcode(255),
        VmFault::InvalidRegister(3),
        VmFault::TruncatedInstruction { opcode: 1, expected: 2, got: 0 },
        VmFault::StackOverflow,
        VmFault::StackUnderflow,
        VmFault::DivisionByZero,
        VmFault::CycleBudgetExceeded(10_000_000),
    ];
    for f in &faults {
        assert_eq!(describe_fault(f), format!("{:?}", f));
    }
    assert_eq!(describe_fault(&VmFault::InvalidOpcode(255)), "InvalidOpcode(255)");
    assert_eq!(
        describe_fault(&VmFault::TruncatedInstruction { opcode: 1, expected: 2, got: 0 }),
        "TruncatedInstruction { opcode: 1, expected: 2, got: 0 }"
    );
}
