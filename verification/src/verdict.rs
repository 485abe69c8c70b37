//! Verdicts: what `enforce` hands back, and the rule that turns a policy run
//! into one.

use crate::text::{decimal, fill_reason, fill_reason_marker, render_signed, render_unsigned, signed_decimal};
use crate::vm::{describe_fault, fault_text, PolicyRun, VmFault};
use vstd::prelude::*;

verus! {

/// Violation code: the policy finished but used more cycles than the budget.
pub const OVER_BUDGET_CODE: i32 = 1;

/// Violation code: the VM stopped the policy at its own cycle ceiling.
pub const CYCLE_LIMIT_CODE: i32 = 2;

/// Violation code: the VM stopped the policy on any other error.
pub const VM_ERROR_CODE: i32 = 3;

/// One concrete violation of a conservation law.
#[derive(Debug, Clone, PartialEq, Eq)]
pub struct Violation {
    /// Human-readable reason (e.g. "cycle budget exceeded: 12 > 10").
    pub reason: String,
    /// Numeric code of the kind of violation.
    pub code: i32,
}

/// Verdict returned by `ConservationEnforcer::enforce`.
#[derive(Debug, Clone, PartialEq, Eq)]
pub struct EnforcementResult {
    /// Whether the LLM output is allowed through.
    pub allowed: bool,
    /// The (possibly corrected) text to hand back to the caller.
    pub output: String,
    /// Set when the output was blocked: the reason and its code.
    pub violation: Option<Violation>,
    /// Number of FLUX VM cycles the most recent `enforce` call consumed.
    pub cycles: u64,
}

/// A violation, with its reason as a sequence of characters.
pub struct ViolationView {
    pub reason: Seq<char>,
    pub code: i32,
}

/// A verdict, with its texts as sequences of characters.
pub struct VerdictView {
    pub allowed: bool,
    pub output: Seq<char>,
    pub violation: Option<ViolationView>,
    pub cycles: u64,
}

impl View for Violation {
    type V = ViolationView;

    open spec fn view(&self) -> ViolationView {
        ViolationView { reason: self.reason@, code: self.code }
    }
}

impl View for EnforcementResult {
    type V = VerdictView;

    open spec fn view(&self) -> VerdictView {
        VerdictView {
            allowed: self.allowed,
            output: self.output@,
            violation: match self.violation {
                Some(v) => Some(v@),
                None => None,
            },
            cycles: self.cycles,
        }
    }
}

/// The verdict that lets `output` through.
pub open spec fn allowed_view(output: Seq<char>, cycles: u64) -> VerdictView {
    VerdictView { allowed: true, output, violation: None, cycles }
}

/// The verdict that blocks, handing back `output` in place of the answer.
pub open spec fn blocked_view(
    output: Seq<char>,
    reason: Seq<char>,
    code: i32,
    cycles: u64,
) -> VerdictView {
    VerdictView { allowed: false, output, violation: Some(ViolationView { reason, code }), cycles }
}

/// Reason for a run that finished over budget.
pub open spec fn over_budget_reason(cycles: u64, budget: i64) -> Seq<char> {
    "cycle budget exceeded: "@ + decimal(cycles as nat) + " > "@ + signed_decimal(budget as int)
}

/// Reason for a run that the VM stopped at its cycle ceiling.
pub open spec fn cycle_limit_reason(cycles: u64) -> Seq<char> {
    "cycle limit exceeded at "@ + decimal(cycles as nat) + " cycles"@
}

/// Reason for a run that stopped on any other VM error.
pub open spec fn vm_error_reason(fault: VmFault) -> Seq<char> {
    "policy VM error: "@ + fault_text(fault)
}

/// Whether a run lets the output through: it finished, within the budget.
pub open spec fn run_passes(run: PolicyRun, budget: i64) -> bool {
    run.result matches Ok(cycles) && cycles <= budget
}

/// The reason and code of a run that does not pass.
pub open spec fn run_violation(run: Result<u64, VmFault>, budget: i64) -> (Seq<char>, i32) {
    match run {
        Ok(cycles) => (over_budget_reason(cycles, budget), OVER_BUDGET_CODE),
        Err(VmFault::CycleBudgetExceeded(cycles)) => (cycle_limit_reason(cycles), CYCLE_LIMIT_CODE),
        Err(fault) => (vm_error_reason(fault), VM_ERROR_CODE),
    }
}

/// The verdict on a run: the LLM output when it passes, otherwise the
/// correction template with the reason filled in; either way, the cycles the
/// run consumed.
pub open spec fn verdict_for(
    run: PolicyRun,
    budget: i64,
    template: Seq<char>,
    llm_output: Seq<char>,
) -> VerdictView {
    if run_passes(run, budget) {
        allowed_view(llm_output, run.cycles)
    } else {
        let (reason, code) = run_violation(run.result, budget);
        blocked_view(fill_reason(template, reason), reason, code, run.cycles)
    }
}

impl EnforcementResult {
    /// Build an "allowed" verdict carrying the LLM output through unchanged.
    pub fn allowed(output: String) -> (r: Self)
        ensures
            r@ == allowed_view(output@, 0),
    {
        EnforcementResult { allowed: true, output, violation: None, cycles: 0 }
    }

    /// Build a "blocked" verdict with a correction string and a code.
    pub fn blocked(output: String, reason: String, code: i32) -> (r: Self)
        ensures
            r@ == blocked_view(output@, reason@, code, 0),
    {
        EnforcementResult {
            allowed: false,
            output,
            violation: Some(Violation { reason, code }),
            cycles: 0,
        }
    }
}

fn concat3(a: &str, b: &str, c: &str) -> (s: String)
    ensures
        s@ == a@ + b@ + c@,
{
    let mut s = String::from_str(a);
    s.append(b);
    s.append(c);
    s
}

/// The reason and code of a run that does not pass, rendered.
fn describe_violation(run: &Result<u64, VmFault>, budget: i64) -> (r: (String, i32))
    requires
        run matches Err(fault) ==> !(fault is InvalidBytecode),
    ensures
        r.0@ == run_violation(*run, budget).0,
        r.1 == run_violation(*run, budget).1,
{
    match run {
        Ok(cycles) => {
            let head = concat3(
                "cycle budget exceeded: ",
                render_unsigned(*cycles).as_str(),
                " > ",
            );
            let mut reason = head;
            reason.append(render_signed(budget).as_str());
            (reason, OVER_BUDGET_CODE)
        },
        Err(VmFault::CycleBudgetExceeded(cycles)) => {
            let reason = concat3(
                "cycle limit exceeded at ",
                render_unsigned(*cycles).as_str(),
                " cycles",
            );
            (reason, CYCLE_LIMIT_CODE)
        },
        Err(fault) => {
            let mut reason = String::from_str("policy VM error: ");
            reason.append(describe_fault(fault).as_str());
            (reason, VM_ERROR_CODE)
        },
    }
}

/// Turns a policy run into a verdict, under the given budget and correction
/// template.
pub fn judge_run(
    run: &PolicyRun,
    budget: i64,
    correction_template: &str,
    llm_output: &str,
) -> (r: EnforcementResult)
    requires
        run.result matches Err(fault) ==> !(fault is InvalidBytecode),
    ensures
        r@ == verdict_for(*run, budget, correction_template@, llm_output@),
{
    match &run.result {
        Ok(cycles) => {
            if budget >= 0 && *cycles <= budget as u64 {
                return EnforcementResult {
                    allowed: true,
                    output: String::from_str(llm_output),
                    violation: None,
                    cycles: run.cycles,
                };
            }
        },
        Err(_) => {},
    }
    let (reason, code) = describe_violation(&run.result, budget);
    let correction = fill_reason_marker(correction_template, reason.as_str());
    let mut verdict = EnforcementResult::blocked(correction, reason, code);
    verdict.cycles = run.cycles;
    verdict
}

/// An allowed verdict carries the LLM output with no violation; a blocked
/// one carries the correction template with the reason filled in, and a
/// violation; both carry the cycles the run consumed.
pub proof fn law_verdict_shape(
    run: PolicyRun,
    budget: i64,
    template: Seq<char>,
    llm_output: Seq<char>,
)
    ensures
        ({
            let v = verdict_for(run, budget, template, llm_output);
            &&& v.allowed <==> v.violation is None
            &&& v.cycles == run.cycles
            &&& v.allowed ==> v.output == llm_output && run.result is Ok
            &&& !v.allowed ==> v.output == fill_reason(template, v.violation->Some_0.reason)
        }),
{
}

/// A run that finishes within the budget is allowed; a run that finishes
/// over it, or does not finish, is blocked.
pub proof fn law_allowed_iff_within_budget(
    run: PolicyRun,
    budget: i64,
    template: Seq<char>,
    llm_output: Seq<char>,
)
    ensures
        verdict_for(run, budget, template, llm_output).allowed <==> (run.result matches Ok(
            cycles,
        ) && cycles <= budget),
{
}

/// The violation code tells the cause apart: the budget, the VM's cycle
/// ceiling, or another VM error.
pub proof fn law_code_names_cause(
    run: PolicyRun,
    budget: i64,
    template: Seq<char>,
    llm_output: Seq<char>,
)
    requires
        !verdict_for(run, budget, template, llm_output).allowed,
    ensures
        ({
            let code = verdict_for(run, budget, template, llm_output).violation->Some_0.code;
            &&& code == OVER_BUDGET_CODE <==> run.result is Ok
            &&& code == CYCLE_LIMIT_CODE <==> (run.result matches Err(f)
                && f is CycleBudgetExceeded)
            &&& code == VM_ERROR_CODE <==> (run.result matches Err(f)
                && !(f is CycleBudgetExceeded))
        }),
{
}

/// Raising the budget never turns an allowed verdict into a blocked one,
/// and leaves an allowed verdict as it was.
pub proof fn law_more_budget_still_allows(
    run: PolicyRun,
    budget: i64,
    larger: i64,
    template: Seq<char>,
    llm_output: Seq<char>,
)
    requires
        budget <= larger,
        verdict_for(run, budget, template, llm_output).allowed,
    ensures
        verdict_for(run, larger, template, llm_output) == verdict_for(
            run,
            budget,
            template,
            llm_output,
        ),
{
}

} // verus!
