//! Conservation-law enforcement for LLM outputs, backed by a FLUX VM policy.
//!
//! The policy bytecode is stored verbatim and executed on every call of
//! `ConservationEnforcer::enforce`. A run that finishes within the current
//! cycle budget lets the candidate output through; a run that burns more
//! cycles than the budget, or that stops on a VM error, blocks the output and
//! hands back the correction template with the reason filled in.

pub mod enforcer;
pub mod fetch;
pub mod text;
pub mod verdict;
pub mod vm;

pub use enforcer::ConservationEnforcer;
pub use verdict::{EnforcementResult, Violation};
pub use vm::VmFault;
