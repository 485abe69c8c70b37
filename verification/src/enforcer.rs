//! The enforcer: the policy, the conservation budget and the call counter,
//! and the rule that every call to `enforce` runs the policy once.

use crate::verdict::{judge_run, verdict_for, EnforcementResult, VerdictView};
use crate::fetch::{policy_is_trap_free, trap_free};
use crate::vm::{execute_policy, flux_execution, run_facts};
use std::convert::Infallible;
use vstd::prelude::*;

verus! {

/// The main enforcer. Holds the policy bytecode and runs it against
/// every LLM candidate output. Owns its own call counter and budget.
pub struct ConservationEnforcer {
    /// Raw FLUX policy bytecode, executed on every `enforce` call.
    pub policy: Vec<u8>,
    /// Current conservation budget (cycle allowance remaining).
    pub budget: i64,
    /// Snapshot of the budget at construction, used by `reset_budget`.
    initial_budget: i64,
    /// Replacement string handed back when output is blocked.
    pub correction_template: String,
    /// When true, every `enforce` call is meant to be appended to `audit_path`.
    pub enable_audit: bool,
    /// JSONL file path for audit logs.
    pub audit_path: Option<String>,
    /// Number of times `enforce` has been called.
    pub call_count: u64,
}

/// The state of an enforcer, with its texts as sequences of characters.
pub struct EnforcerView {
    pub policy: Seq<u8>,
    pub budget: i64,
    pub initial_budget: i64,
    pub correction_template: Seq<char>,
    pub enable_audit: bool,
    pub audit_path: Option<Seq<char>>,
    pub call_count: u64,
}

/// The correction template used when none is given.
pub open spec fn default_template() -> Seq<char> {
    "⚠️ This response was blocked by a conservation law: {reason}. Please try again with a more conserved response."@
}

impl EnforcerView {
    /// Whether `amount` may be added to the budget: it is not negative, and
    /// the sum fits in an `i64`.
    pub open spec fn can_replenish(self, amount: i64) -> bool {
        0 <= amount && self.budget + amount <= i64::MAX
    }

    /// The state after adding `amount` to the budget.
    pub open spec fn replenished(self, amount: i64) -> EnforcerView {
        EnforcerView { budget: (self.budget + amount) as i64, ..self }
    }

    /// The state after restoring the budget to its initial value.
    pub open spec fn reset(self) -> EnforcerView {
        EnforcerView { budget: self.initial_budget, ..self }
    }

    /// The state after one call to `enforce`.
    pub open spec fn enforced(self) -> EnforcerView {
        EnforcerView { call_count: (self.call_count + 1) as u64, ..self }
    }

    /// The verdict that `enforce` gives on `llm_output` in this state, for
    /// a policy run that returns.
    pub open spec fn verdict_on(self, llm_output: Seq<char>) -> VerdictView {
        verdict_for(
            flux_execution(self.policy),
            self.budget,
            self.correction_template,
            llm_output,
        )
    }
}

impl View for ConservationEnforcer {
    type V = EnforcerView;

    closed spec fn view(&self) -> EnforcerView {
        EnforcerView {
            policy: self.policy@,
            budget: self.budget,
            initial_budget: self.initial_budget,
            correction_template: self.correction_template@,
            enable_audit: self.enable_audit,
            audit_path: self.audit_path.deep_view(),
            call_count: self.call_count,
        }
    }
}

impl ConservationEnforcer {
    /// Construct a new enforcer. The policy bytecode is stored verbatim;
    /// it is not dry-run at construction time. Errors during later
    /// enforcement are reported in `EnforcementResult::violation`.
    pub fn new(
        policy: Vec<u8>,
        budget: i64,
        correction_template: Option<String>,
        enable_audit: bool,
        audit_path: Option<String>,
    ) -> (r: Result<Self, Infallible>)
        ensures
            r matches Ok(e) && e@ == (EnforcerView {
                policy: policy@,
                budget,
                initial_budget: budget,
                correction_template: match correction_template {
                    Some(t) => t@,
                    None => default_template(),
                },
                enable_audit,
                audit_path: audit_path.deep_view(),
                call_count: 0,
            }),
    {
        let template = match correction_template {
            Some(t) => t,
            None => String::from_str(
                "⚠️ This response was blocked by a conservation law: {reason}. Please try again with a more conserved response.",
            ),
        };
        Ok(ConservationEnforcer {
            policy,
            budget,
            initial_budget: budget,
            correction_template: template,
            enable_audit,
            audit_path,
            call_count: 0,
        })
    }

    /// Number of times `enforce` has been called on this enforcer.
    pub fn call_count(&self) -> (n: u64)
        ensures
            n == self@.call_count,
    {
        self.call_count
    }

    /// Remaining conservation budget (in cycles).
    pub fn remaining_budget(&self) -> (b: i64)
        ensures
            b == self@.budget,
    {
        self.budget
    }

    /// Add cycles back to the budget (e.g. after a cooldown). The amount
    /// must not be negative.
    pub fn replenish_budget(&mut self, amount: i64)
        requires
            old(self)@.can_replenish(amount),
        ensures
            final(self)@ == old(self)@.replenished(amount),
            final(self)@.budget == old(self)@.budget + amount,
    {
        self.budget = self.budget + amount;
    }

    /// Whether the FLUX VM runs this enforcer's policy without panicking,
    /// which `enforce` requires.
    pub fn policy_is_trap_free(&self) -> (b: bool)
        ensures
            b == trap_free(self@.policy),
    {
        policy_is_trap_free(&self.policy)
    }

    /// Restore the budget to its initial value.
    pub fn reset_budget(&mut self)
        ensures
            final(self)@ == old(self)@.reset(),
    {
        self.budget = self.initial_budget;
    }

    /// Run the LLM output through the FLUX policy VM.
    ///
    /// `_user_input` is the user's prompt (not used by the policy today,
    /// but kept for forward compatibility with policies that tokenize or
    /// compute entropy across both input and output).
    ///
    /// Allowed outputs carry the LLM text unchanged; blocked outputs carry
    /// the configured correction template with the reason filled in.
    /// The policy must be one that the VM runs without panicking
    /// (`trap_free`; the method `policy_is_trap_free` tests it).
    pub fn enforce(&mut self, _user_input: &str, llm_output: &str) -> (verdict: EnforcementResult)
        requires
            old(self)@.call_count < u64::MAX,
            trap_free(old(self)@.policy),
        ensures
            final(self)@ == old(self)@.enforced(),
            verdict@ == old(self)@.verdict_on(llm_output@),
            run_facts(old(self)@.policy, flux_execution(old(self)@.policy)),
    {
        self.call_count = self.call_count + 1;
        let run = execute_policy(&self.policy);
        judge_run(&run, self.budget, self.correction_template.as_str(), llm_output)
    }
}

/// One operation on an enforcer, for stating what a sequence of them does.
pub enum Step {
    Replenish(i64),
    Reset,
    Enforce,
}

/// The state after one operation.
pub open spec fn apply_step(s: EnforcerView, step: Step) -> EnforcerView {
    match step {
        Step::Replenish(amount) => s.replenished(amount),
        Step::Reset => s.reset(),
        Step::Enforce => s.enforced(),
    }
}

/// The state after a sequence of operations, first to last.
pub open spec fn apply_steps(s: EnforcerView, steps: Seq<Step>) -> EnforcerView
    decreases steps.len(),
{
    if steps.len() == 0 {
        s
    } else {
        apply_steps(apply_step(s, steps[0]), steps.skip(1))
    }
}

/// How many of `steps` are calls to `enforce`.
pub open spec fn enforce_calls(steps: Seq<Step>) -> nat
    decreases steps.len(),
{
    if steps.len() == 0 {
        0
    } else {
        (if steps[0] is Enforce {
            1nat
        } else {
            0nat
        }) + enforce_calls(steps.skip(1))
    }
}

/// Whatever operations follow, the policy, the correction template, the
/// audit settings and the initial budget stay as they were, and
/// `reset_budget` brings back the initial budget.
pub proof fn law_configuration_is_kept(s: EnforcerView, steps: Seq<Step>)
    ensures
        apply_steps(s, steps).policy == s.policy,
        apply_steps(s, steps).correction_template == s.correction_template,
        apply_steps(s, steps).enable_audit == s.enable_audit,
        apply_steps(s, steps).audit_path == s.audit_path,
        apply_steps(s, steps).initial_budget == s.initial_budget,
        apply_steps(s, steps).reset().budget == s.initial_budget,
    decreases steps.len(),
{
    if steps.len() > 0 {
        law_configuration_is_kept(apply_step(s, steps[0]), steps.skip(1));
    }
}

/// The call counter grows by exactly the number of `enforce` calls.
pub proof fn law_call_count_counts_enforce_calls(s: EnforcerView, steps: Seq<Step>)
    requires
        s.call_count + enforce_calls(steps) <= u64::MAX,
    ensures
        apply_steps(s, steps).call_count == s.call_count + enforce_calls(steps),
    decreases steps.len(),
{
    if steps.len() > 0 {
        law_call_count_counts_enforce_calls(apply_step(s, steps[0]), steps.skip(1));
    }
}

/// Replenishing adds the amount to the budget, whatever its sign before,
/// and changes nothing else.
pub proof fn law_replenish_adds(s: EnforcerView, amount: i64)
    requires
        s.can_replenish(amount),
    ensures
        s.replenished(amount).budget == s.budget + amount,
        s.replenished(amount).budget >= s.budget,
        s.replenished(amount).reset() == s.reset(),
        s.replenished(amount).enforced() == s.enforced().replenished(amount),
{
}

/// `enforce` judges against the current budget, replenishments and resets
/// included, with the enforcer's own policy and template.
pub proof fn law_verdict_uses_current_budget(s: EnforcerView, amount: i64, llm_output: Seq<char>)
    requires
        s.can_replenish(amount),
    ensures
        s.replenished(amount).verdict_on(llm_output) == verdict_for(
            flux_execution(s.policy),
            (s.budget + amount) as i64,
            s.correction_template,
            llm_output,
        ),
        s.reset().verdict_on(llm_output) == verdict_for(
            flux_execution(s.policy),
            s.initial_budget,
            s.correction_template,
            llm_output,
        ),
{
}

/// Replenishing twice adds both amounts, when their sum is itself an
/// `i64` amount.
pub proof fn law_replenish_accumulates(s: EnforcerView, a: i64, b: i64)
    requires
        s.can_replenish(a),
        s.replenished(a).can_replenish(b),
        a + b <= i64::MAX,
    ensures
        s.can_replenish((a + b) as i64),
        s.replenished(a).replenished(b) == s.replenished((a + b) as i64),
{
}

/// Resetting undoes any replenishing, and resetting twice is resetting once.
pub proof fn law_reset_undoes_replenish(s: EnforcerView, amount: i64)
    ensures
        s.replenished(amount).reset() == s.reset(),
        s.reset().reset() == s.reset(),
{
}

/// A call to `enforce` changes nothing that decides later verdicts: the next
/// call on the same output gives the same verdict, and the budget is spent
/// by nothing.
pub proof fn law_enforce_is_repeatable(s: EnforcerView, llm_output: Seq<char>)
    ensures
        s.enforced().verdict_on(llm_output) == s.verdict_on(llm_output),
        s.enforced().budget == s.budget,
{
}

} // verus!
