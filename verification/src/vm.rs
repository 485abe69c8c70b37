//! The policy run: one execution of the policy bytecode on a fresh FLUX VM,
//! and the text that names a VM fault in a verdict.

use crate::fetch::trap_free;
use crate::text::{decimal, render_unsigned};
use fluxvm::error::FluxError as Flux;
use fluxvm::vm::Interpreter;
use VmFault as F;
use vstd::prelude::*;

verus! {

/// Why a policy run stopped without finishing: one variant for each error
/// that the FLUX VM can report, with the same fields.
#[derive(Debug, Clone, PartialEq, Eq)]
pub enum VmFault {
    InvalidOpcode(u8),
    InvalidRegister(u8),
    TruncatedInstruction { opcode: u8, expected: usize, got: usize },
    StackOverflow,
    StackUnderflow,
    DivisionByZero,
    CycleBudgetExceeded(u64),
    InvalidBytecode(String),
}

/// The cycle ceiling of the FLUX VM: no run goes past it.
pub const FLUX_CYCLE_CEILING: u64 = 10_000_000;

/// One run of a policy: what `execute` returned (the cycles taken, or the
/// fault the run stopped on), and how many cycles the VM counted.
#[derive(Debug, PartialEq, Eq)]
pub struct PolicyRun {
    pub result: Result<u64, VmFault>,
    pub cycles: u64,
}

/// The faults that `execute` reports.
pub open spec fn reported_by_execute(f: VmFault) -> bool {
    f is InvalidOpcode || f is StackUnderflow || f is DivisionByZero || f is CycleBudgetExceeded
}

/// What holds of every run of `policy`: an empty policy finishes in 0
/// cycles; the count never passes the ceiling; a finished run reports its
/// count, below the ceiling; a stop at the ceiling reports the ceiling; and
/// the only faults are those that `execute` reports.
pub open spec fn run_facts(policy: Seq<u8>, run: PolicyRun) -> bool {
    &&& policy.len() == 0 ==> run == (PolicyRun { result: Ok(0), cycles: 0 })
    &&& run.cycles <= FLUX_CYCLE_CEILING
    &&& run.result matches Ok(c) ==> c < FLUX_CYCLE_CEILING && run.cycles == c
    &&& run.result matches Err(VmFault::CycleBudgetExceeded(c)) ==> c == FLUX_CYCLE_CEILING
        && run.cycles == c
    &&& run.result matches Err(f) ==> reported_by_execute(f)
}

/// The outcome of running a policy on a fresh FLUX VM.
pub uninterp spec fn flux_execution(policy: Seq<u8>) -> PolicyRun;

/// Runs `policy` through `fluxvm::vm::Interpreter::new` and
/// `Interpreter::execute`, and hands back the result, error for error, with
/// the interpreter's `cycle_count` after the run.
///
/// The contract claims that the run depends on the bytecode alone, and what
/// `execute`'s source shows in a few lines (`run_facts`): an empty policy
/// finishes in 0 cycles; the count never passes the ceiling of
/// `DEFAULT_MAX_CYCLES`; a finished run reports its count; a stop at the
/// ceiling reports the ceiling; and the only errors are `InvalidOpcode`,
/// `StackUnderflow`, `DivisionByZero` and `CycleBudgetExceeded`. It says
/// nothing more of which outcome a given bytecode has.
///
/// It admits only `trap_free` policies. `execute` fetches opcodes only at
/// the positions that `crate::fetch` walks (RET aside, which the walk does
/// not accept), so on those policies it never fetches LOAD, STORE, IDIV,
/// IMOD or INEG, the only instructions that can panic, unless no byte of the
/// policy is one of them; and a policy of at most `u32::MAX` bytes keeps its
/// `u32` program counter from overflowing.
#[verifier::external_body]
pub(crate) fn execute_policy(policy: &Vec<u8>) -> (run: PolicyRun)
    requires
        trap_free(policy@),
    ensures
        run == flux_execution(policy@),
        run_facts(policy@, run),
{
    let mut vm = Interpreter::new(policy);
    let result = match vm.execute() {
        Ok(c) => Ok(c),
        Err(Flux::InvalidOpcode(b)) => Err(F::InvalidOpcode(b)),
        Err(Flux::InvalidRegister(r)) => Err(F::InvalidRegister(r)),
        Err(Flux::TruncatedInstruction { opcode, expected, got }) => Err(F::TruncatedInstruction { opcode, expected, got }),
        Err(Flux::StackOverflow) => Err(F::StackOverflow),
        Err(Flux::StackUnderflow) => Err(F::StackUnderflow),
        Err(Flux::DivisionByZero) => Err(F::DivisionByZero),
        Err(Flux::CycleBudgetExceeded(c)) => Err(F::CycleBudgetExceeded(c)),
        Err(Flux::InvalidBytecode(m)) => Err(F::InvalidBytecode(m)),
    };
    PolicyRun { result, cycles: vm.cycle_count }
}

/// The `{:?}` rendering of a fault. `InvalidBytecode`, whose rendering
/// escapes its message, is left without a meaning here: no policy run
/// reports it.
pub open spec fn fault_text(fault: VmFault) -> Seq<char> {
    match fault {
        VmFault::InvalidOpcode(b) => "InvalidOpcode("@ + decimal(b as nat) + ")"@,
        VmFault::InvalidRegister(r) => "InvalidRegister("@ + decimal(r as nat) + ")"@,
        VmFault::TruncatedInstruction { opcode, expected, got } => "TruncatedInstruction { opcode: "@
            + decimal(opcode as nat) + ", expected: "@ + decimal(expected as nat) + ", got: "@
            + decimal(got as nat) + " }"@,
        VmFault::StackOverflow => "StackOverflow"@,
        VmFault::StackUnderflow => "StackUnderflow"@,
        VmFault::DivisionByZero => "DivisionByZero"@,
        VmFault::CycleBudgetExceeded(c) => "CycleBudgetExceeded("@ + decimal(c as nat) + ")"@,
        VmFault::InvalidBytecode(_) => Seq::empty(),
    }
}

fn wrapped_number(name: &str, n: u64) -> (s: String)
    ensures
        s@ == name@ + decimal(n as nat) + ")"@,
{
    let mut s = String::from_str(name);
    let digits = render_unsigned(n);
    s.append(digits.as_str());
    s.append(")");
    s
}

/// Renders a fault as `{:?}` does.
pub fn describe_fault(fault: &VmFault) -> (s: String)
    requires
        !(fault is InvalidBytecode),
    ensures
        s@ == fault_text(*fault),
{
    match fault {
        VmFault::InvalidOpcode(b) => wrapped_number("InvalidOpcode(", *b as u64),
        VmFault::InvalidRegister(r) => wrapped_number("InvalidRegister(", *r as u64),
        VmFault::TruncatedInstruction { opcode, expected, got } => {
            let mut s = String::from_str("TruncatedInstruction { opcode: ");
            s.append(render_unsigned(*opcode as u64).as_str());
            s.append(", expected: ");
            s.append(render_unsigned(*expected as u64).as_str());
            s.append(", got: ");
            s.append(render_unsigned(*got as u64).as_str());
            s.append(" }");
            s
        },
        VmFault::StackOverflow => String::from_str("StackOverflow"),
        VmFault::StackUnderflow => String::from_str("StackUnderflow"),
        VmFault::DivisionByZero => String::from_str("DivisionByZero"),
        VmFault::CycleBudgetExceeded(c) => wrapped_number("CycleBudgetExceeded(", *c),
        VmFault::InvalidBytecode(_) => String::new(),
    }
}

} // verus!
