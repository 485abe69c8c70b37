# conservation_enforcer

Conservation-law enforcement for LLM outputs, backed by a FLUX VM policy
(`fluxvm`), written in Verus.

- `src/enforcer.rs`: `ConservationEnforcer`, its budget and call counter, and
  the laws that hold over any sequence of its operations.
- `src/verdict.rs`: `EnforcementResult`, `Violation`, and `judge_run`, the rule
  that turns a policy run into a verdict, with its laws.
- `src/fetch.rs`: a verified walk over the policy bytecode that tells the
  policies on which the VM cannot panic, which `enforce` requires.
- `src/vm.rs`: the one call into `fluxvm` (a trusted wrapper) and the
  rendering of VM faults.
- `src/text.rs`: decimal numerals and the `{reason}` substitution in
  correction templates.
- `app/lib.rs`: policy files, the JSONL audit log and the serde forms of the
  verdict types.
