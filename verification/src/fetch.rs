//! Which opcodes the FLUX VM can fetch from a policy: a static walk over the
//! bytecode, from offset 0 along fall-through and jump edges, that tells the
//! policies on which the VM cannot panic.
//!
//! The VM fetches an opcode only at a position inside the policy. After an
//! instruction it goes on at the position just past its operands, or at the
//! target of a jump; a position at or past the end stops the run. Only RET
//! moves to a position taken from the stack, which the walk cannot follow.

use vstd::prelude::*;

verus! {

/// Opcodes whose execution can panic inside the VM: LOAD and STORE (on a
/// negative address), IDIV and IMOD (on `i32::MIN` by -1), INEG (on
/// `i32::MIN`, with overflow checks).
pub open spec fn may_trap(op: u8) -> bool {
    op == 0x02 || op == 0x03 || op == 0x0B || op == 0x0C || op == 0x0D
}

/// RET: continues at a position popped from the stack.
pub open spec fn is_return(op: u8) -> bool {
    op == 0x28
}

/// An opcode that the walk accepts where the VM can fetch it.
pub open spec fn safe_op(op: u8) -> bool {
    !may_trap(op) && !is_return(op)
}

/// The length of a fixed-length instruction, opcode included; 0 for HALT,
/// for the variable-length A2A instructions, and for bytes that are no
/// opcode.
pub open spec fn op_width(op: u8) -> int {
    if op == 0x00 || op == 0x22 || op == 0x81 {
        1
    } else if op == 0x0E || op == 0x0F || op == 0x20 || op == 0x21 {
        2
    } else if op == 0x01 || op == 0x02 || op == 0x03 || op == 0x0D || op == 0x13 || op == 0x28
        || op == 0x2D {
        3
    } else if (0x04 <= op <= 0x0C) || (0x10 <= op <= 0x12) || op == 0x14 || op == 0x15 || op
        == 0x2B || op == 0x2E || op == 0x2F || (0x40 <= op <= 0x43) {
        4
    } else {
        0
    }
}

/// JMP, JZ, JNZ, CALL, JE, JNE: a register byte, then a 16-bit offset.
pub open spec fn is_jump(op: u8) -> bool {
    (0x04 <= op <= 0x07) || op == 0x2E || op == 0x2F
}

/// JMP and CALL always jump; the others may fall through.
pub open spec fn always_jumps(op: u8) -> bool {
    op == 0x04 || op == 0x07
}

/// TELL, ASK, DELEGATE, BROADCAST: a 16-bit length, then that many bytes.
pub open spec fn is_a2a(op: u8) -> bool {
    op == 0x60 || op == 0x61 || op == 0x62 || op == 0x66
}

/// The little-endian 16-bit value at `p`, unsigned.
pub open spec fn u16_at(policy: Seq<u8>, p: int) -> int {
    policy[p] + 256 * policy[p + 1]
}

/// The little-endian 16-bit value at `p`, signed.
pub open spec fn i16_at(policy: Seq<u8>, p: int) -> int {
    if u16_at(policy, p) >= 0x8000 {
        u16_at(policy, p) - 0x1_0000
    } else {
        u16_at(policy, p)
    }
}

/// A position taken modulo 2^32, as the VM's `u32` program counter does,
/// for `-2^32 < t < 2^33`.
pub open spec fn wrap_pc(t: int) -> int {
    if t < 0 {
        t + 0x1_0000_0000
    } else if t >= 0x1_0000_0000 {
        t - 0x1_0000_0000
    } else {
        t
    }
}

/// The positions at which the VM goes on after the instruction at `p`;
/// positions at or past the end stop the run.
pub open spec fn next_fetches(policy: Seq<u8>, p: int) -> Seq<int> {
    let op = policy[p];
    if is_a2a(op) {
        if p + 3 <= policy.len() {
            seq![p + 3 + u16_at(policy, p + 1)]
        } else {
            seq![]
        }
    } else {
        let fall = if op_width(op) > 0 && !always_jumps(op) {
            seq![p + op_width(op)]
        } else {
            seq![]
        };
        let jump = if is_jump(op) && p + 4 <= policy.len() {
            seq![wrap_pc(p + 4 + i16_at(policy, p + 2))]
        } else {
            seq![]
        };
        fall + jump
    }
}

/// The instruction at `p` is safe, and every position that follows it
/// inside the policy is in `fetched`.
pub open spec fn closed_at(policy: Seq<u8>, fetched: Set<int>, p: int) -> bool {
    &&& safe_op(policy[p])
    &&& forall|x: int| #[trigger]
        next_fetches(policy, p).contains(x) && 0 <= x < policy.len() ==> fetched.contains(x)
}

/// `fetched` holds offset 0 and is closed under the walk, with only safe
/// opcodes: the VM fetches opcodes nowhere else.
pub open spec fn closed_fetch_set(policy: Seq<u8>, fetched: Set<int>) -> bool {
    &&& policy.len() > 0 ==> fetched.contains(0)
    &&& forall|p: int| #[trigger]
        fetched.contains(p) ==> 0 <= p < policy.len() && closed_at(policy, fetched, p)
}

/// No byte of the policy is an opcode that may trap.
pub open spec fn no_trap_bytes(policy: Seq<u8>) -> bool {
    forall|i: int| 0 <= i < policy.len() ==> !may_trap(#[trigger] policy[i])
}

/// Whether the VM runs `policy` without panicking: the `u32` program counter
/// cannot overflow, and either no byte may trap, or the walk from offset 0
/// reaches neither a trapping opcode nor a RET.
pub open spec fn trap_free(policy: Seq<u8>) -> bool {
    &&& policy.len() <= u32::MAX
    &&& no_trap_bytes(policy) || exists|fetched: Set<int>| closed_fetch_set(policy, fetched)
}

/// A policy whose first instruction leads only to a HALT at `w` is run
/// safely: the walk fetches at 0 and at `w`, nowhere else.
proof fn lemma_one_step_then_halt(policy: Seq<u8>, w: int)
    requires
        0 < w < u32::MAX,
        policy.len() == w + 1,
        policy[w] == 0x80,
        safe_op(policy[0]),
        forall|x: int|
            next_fetches(policy, 0).contains(x) && 0 <= x < policy.len() ==> x == w,
    ensures
        trap_free(policy),
{
    let fetched = set![0int, w];
    assert(next_fetches(policy, w) =~= Seq::<int>::empty());
    assert forall|p: int| #[trigger] fetched.contains(p) implies 0 <= p < policy.len()
        && closed_at(policy, fetched, p) by {
        if p == w {
            assert forall|x: int| #[trigger]
                next_fetches(policy, p).contains(x) && 0 <= x < policy.len() implies fetched.contains(
                x,
            ) by {
                assert(next_fetches(policy, p).len() == 0);
            }
        }
    }
    assert(closed_fetch_set(policy, fetched));
}

/// Where the next fetch after the instruction at 0 is the single position
/// `w`, the walk goes to `w` and nowhere else.
proof fn lemma_single_next(policy: Seq<u8>, w: int)
    requires
        next_fetches(policy, 0) == seq![w],
    ensures
        forall|x: int| next_fetches(policy, 0).contains(x) ==> x == w,
{
    assert forall|x: int| next_fetches(policy, 0).contains(x) implies x == w by {
        let i = choose|i: int| 0 <= i < next_fetches(policy, 0).len() && next_fetches(policy, 0)[i]
            == x;
        assert(i == 0);
    }
}

/// NOP, DUP and YIELD take no operand: whatever follows them is the next
/// instruction, so `op; HALT` runs safely.
pub proof fn law_no_operand_instructions(op: u8)
    requires
        op == 0x00 || op == 0x22 || op == 0x81,
    ensures
        trap_free(seq![op, 0x80]),
{
    let policy = seq![op, 0x80u8];
    assert(next_fetches(policy, 0) =~= seq![1int]);
    lemma_single_next(policy, 1);
    lemma_one_step_then_halt(policy, 1);
}

/// INC, DEC, PUSH and POP take one register byte, which is never fetched as
/// an opcode: `op r; HALT` runs safely for every byte `r`.
pub proof fn law_one_operand_instructions(op: u8, r: u8)
    requires
        op == 0x0E || op == 0x0F || op == 0x20 || op == 0x21,
    ensures
        trap_free(seq![op, r, 0x80]),
{
    let policy = seq![op, r, 0x80u8];
    assert(next_fetches(policy, 0) =~= seq![2int]);
    lemma_single_next(policy, 2);
    lemma_one_step_then_halt(policy, 2);
}

/// MOV, INOT and CMP take two register bytes: `op a b; HALT` runs safely
/// for all bytes `a`, `b`.
pub proof fn law_two_operand_instructions(op: u8, a: u8, b: u8)
    requires
        op == 0x01 || op == 0x13 || op == 0x2D,
    ensures
        trap_free(seq![op, a, b, 0x80]),
{
    let policy = seq![op, a, b, 0x80u8];
    assert(next_fetches(policy, 0) =~= seq![3int]);
    lemma_single_next(policy, 3);
    lemma_one_step_then_halt(policy, 3);
}

/// The integer and float arithmetic that cannot trap (IADD, ISUB, IMUL,
/// IAND, IOR, IXOR, ISHL, ISHR, FADD, FSUB, FMUL, FDIV) takes three register
/// bytes, and MOVI a register byte and a 16-bit immediate: `op a b c; HALT`
/// runs safely for all bytes `a`, `b`, `c`.
pub proof fn law_three_operand_instructions(op: u8, a: u8, b: u8, c: u8)
    requires
        op == 0x08 || op == 0x09 || op == 0x0A || op == 0x10 || op == 0x11 || op == 0x12 || op
            == 0x14 || op == 0x15 || op == 0x2B || (0x40 <= op <= 0x43),
    ensures
        trap_free(seq![op, a, b, c, 0x80]),
{
    let policy = seq![op, a, b, c, 0x80u8];
    assert(next_fetches(policy, 0) =~= seq![4int]);
    lemma_single_next(policy, 4);
    lemma_one_step_then_halt(policy, 4);
}

/// A jump or branch (JMP, JZ, JNZ, CALL, JE, JNE) with offset 0 goes on just
/// past its register byte and offset, taken or not: `op r 0 0; HALT` runs
/// safely for every byte `r`.
pub proof fn law_jumps_with_zero_offset(op: u8, r: u8)
    requires
        is_jump(op),
    ensures
        trap_free(seq![op, r, 0, 0, 0x80]),
{
    let policy = seq![op, r, 0u8, 0u8, 0x80u8];
    assert(i16_at(policy, 2) == 0);
    if always_jumps(op) {
        assert(next_fetches(policy, 0) =~= seq![4int]);
    } else {
        assert(next_fetches(policy, 0) =~= seq![4int, 4int]);
    }
    assert forall|x: int| next_fetches(policy, 0).contains(x) implies x == 4 by {
        let i = choose|i: int| 0 <= i < next_fetches(policy, 0).len() && next_fetches(policy, 0)[i]
            == x;
    }
    lemma_one_step_then_halt(policy, 4);
}

/// JMP and CALL go to their target and nowhere else: jumping forward over
/// any bytes at all (`skipped`, fewer than 2^15) onto a HALT runs safely.
pub proof fn law_jump_skips_bytes(op: u8, r: u8, lo: u8, hi: u8, skipped: Seq<u8>)
    requires
        op == 0x04 || op == 0x07,
        hi < 0x80,
        lo + 256 * hi == skipped.len(),
    ensures
        trap_free(seq![op, r, lo, hi] + skipped + seq![0x80]),
{
    let policy = seq![op, r, lo, hi] + skipped + seq![0x80u8];
    let w: int = 4 + skipped.len() as int;
    assert(policy[2] == lo && policy[3] == hi);
    assert(i16_at(policy, 2) == skipped.len());
    assert(policy[w] == 0x80);
    assert(next_fetches(policy, 0) =~= seq![w]);
    lemma_single_next(policy, w);
    lemma_one_step_then_halt(policy, w);
}

/// TELL, ASK, DELEGATE and BROADCAST carry a 16-bit length and that many
/// payload bytes, none of which is fetched: any payload followed by HALT
/// runs safely.
pub proof fn law_message_payload_is_skipped(op: u8, lo: u8, hi: u8, payload: Seq<u8>)
    requires
        is_a2a(op),
        lo + 256 * hi == payload.len(),
    ensures
        trap_free(seq![op, lo, hi] + payload + seq![0x80]),
{
    let policy = seq![op, lo, hi] + payload + seq![0x80u8];
    let w: int = 3 + payload.len() as int;
    assert(policy[1] == lo && policy[2] == hi);
    assert(policy[w] == 0x80);
    assert(next_fetches(policy, 0) =~= seq![w]);
    lemma_single_next(policy, w);
    lemma_one_step_then_halt(policy, w);
}

/// A policy that starts with LOAD, STORE, IDIV, IMOD or INEG is refused,
/// whatever follows: the VM fetches that opcode first.
pub proof fn law_trapping_start_is_refused(op: u8, rest: Seq<u8>)
    requires
        may_trap(op),
    ensures
        !trap_free(seq![op] + rest),
{
    let policy = seq![op] + rest;
    assert(policy[0] == op);
    assert(!no_trap_bytes(policy));
    assert forall|f: Set<int>| !closed_fetch_set(policy, f) by {
        if closed_fetch_set(policy, f) {
            assert(f.contains(0));
        }
    }
}

/// Where the walk goes from 0 to a trapping opcode at `w`, the policy is
/// refused.
proof fn lemma_fetched_trap_refuses(policy: Seq<u8>, w: int)
    requires
        0 <= w < policy.len(),
        may_trap(policy[w]),
        next_fetches(policy, 0).contains(w),
    ensures
        !trap_free(policy),
{
    assert(!no_trap_bytes(policy));
    assert forall|f: Set<int>| !closed_fetch_set(policy, f) by {
        if closed_fetch_set(policy, f) {
            assert(f.contains(0));
            assert(closed_at(policy, f, 0));
            assert(f.contains(w));
        }
    }
}

/// Where the instruction at 0 is safe and leads nowhere inside the policy,
/// the policy is run safely.
proof fn lemma_stops_at_start(policy: Seq<u8>)
    requires
        0 < policy.len() <= u32::MAX,
        safe_op(policy[0]),
        forall|x: int| next_fetches(policy, 0).contains(x) ==> !(0 <= x < policy.len()),
    ensures
        trap_free(policy),
{
    let fetched = set![0int];
    assert forall|p: int| #[trigger] fetched.contains(p) implies 0 <= p < policy.len()
        && closed_at(policy, fetched, p) by {}
    assert(closed_fetch_set(policy, fetched));
}

/// A fixed-length instruction is as long as the VM reads it: the byte just
/// past its operands is fetched next, so a trapping opcode there is refused
/// (compare the laws that accept a HALT there).
pub proof fn law_next_instruction_is_fetched(op: u8, operands: Seq<u8>, t: u8, rest: Seq<u8>)
    requires
        ((op == 0x00 || op == 0x22 || op == 0x81) && operands.len() == 0) || ((op == 0x0E || op
            == 0x0F || op == 0x20 || op == 0x21) && operands.len() == 1) || ((op == 0x01 || op
            == 0x13 || op == 0x2D) && operands.len() == 2) || ((op == 0x08 || op == 0x09 || op
            == 0x0A || op == 0x10 || op == 0x11 || op == 0x12 || op == 0x14 || op == 0x15 || op
            == 0x2B || (0x40 <= op <= 0x43)) && operands.len() == 3),
        may_trap(t),
    ensures
        !trap_free(seq![op] + operands + seq![t] + rest),
{
    let policy = seq![op] + operands + seq![t] + rest;
    let w: int = 1 + operands.len() as int;
    assert(policy[0] == op);
    assert(policy[w] == t);
    assert(next_fetches(policy, 0) =~= seq![w]);
    assert(next_fetches(policy, 0)[0] == w);
    lemma_fetched_trap_refuses(policy, w);
}

/// A jump or branch reaches its target: a trapping opcode there is refused,
/// whatever the jump skips.
pub proof fn law_jump_target_is_fetched(
    op: u8,
    r: u8,
    lo: u8,
    hi: u8,
    skipped: Seq<u8>,
    t: u8,
    rest: Seq<u8>,
)
    requires
        is_jump(op),
        hi < 0x80,
        lo + 256 * hi == skipped.len(),
        may_trap(t),
    ensures
        !trap_free(seq![op, r, lo, hi] + skipped + seq![t] + rest),
{
    let policy = seq![op, r, lo, hi] + skipped + seq![t] + rest;
    let w: int = 4 + skipped.len() as int;
    assert(policy[0] == op && policy[2] == lo && policy[3] == hi);
    assert(policy[w] == t);
    assert(i16_at(policy, 2) == skipped.len());
    let n = next_fetches(policy, 0);
    assert(n[n.len() - 1] == w);
    lemma_fetched_trap_refuses(policy, w);
}

/// JZ, JNZ, JE and JNE may not jump: the instruction after them is fetched,
/// wherever they jump to.
pub proof fn law_branch_may_fall_through(op: u8, r: u8, lo: u8, hi: u8, t: u8, rest: Seq<u8>)
    requires
        op == 0x05 || op == 0x06 || op == 0x2E || op == 0x2F,
        may_trap(t),
    ensures
        !trap_free(seq![op, r, lo, hi, t] + rest),
{
    let policy = seq![op, r, lo, hi, t] + rest;
    assert(policy[0] == op && policy[4] == t);
    assert(next_fetches(policy, 0)[0] == 4);
    lemma_fetched_trap_refuses(policy, 4);
}

/// The instruction just past a message's payload is fetched.
pub proof fn law_message_is_followed(
    op: u8,
    lo: u8,
    hi: u8,
    payload: Seq<u8>,
    t: u8,
    rest: Seq<u8>,
)
    requires
        is_a2a(op),
        lo + 256 * hi == payload.len(),
        may_trap(t),
    ensures
        !trap_free(seq![op, lo, hi] + payload + seq![t] + rest),
{
    let policy = seq![op, lo, hi] + payload + seq![t] + rest;
    let w: int = 3 + payload.len() as int;
    assert(policy[0] == op && policy[1] == lo && policy[2] == hi);
    assert(policy[w] == t);
    assert(next_fetches(policy, 0) =~= seq![w]);
    assert(next_fetches(policy, 0)[0] == w);
    lemma_fetched_trap_refuses(policy, w);
}

/// A RET that the VM reaches may continue anywhere: then a trapping byte
/// anywhere in the policy refuses it.
pub proof fn law_reached_return_needs_clean_bytes(a: u8, b: u8, rest: Seq<u8>, i: int)
    requires
        0 <= i < rest.len(),
        may_trap(rest[i]),
    ensures
        !trap_free(seq![0x28, a, b] + rest),
{
    let policy = seq![0x28u8, a, b] + rest;
    assert(policy[0] == 0x28);
    assert(policy[3 + i] == rest[i]);
    assert(!no_trap_bytes(policy));
    assert forall|f: Set<int>| !closed_fetch_set(policy, f) by {
        if closed_fetch_set(policy, f) {
            assert(f.contains(0));
        }
    }
}

/// HALT ends the run: nothing after it is fetched.
pub proof fn law_halt_ends_the_walk(rest: Seq<u8>)
    requires
        rest.len() < u32::MAX,
    ensures
        trap_free(seq![0x80] + rest),
{
    let policy = seq![0x80u8] + rest;
    assert(policy[0] == 0x80);
    assert(next_fetches(policy, 0) =~= Seq::<int>::empty());
    lemma_stops_at_start(policy);
}

/// A byte that is no opcode stops the run with an error: nothing after it
/// is fetched.
pub proof fn law_unknown_byte_ends_the_walk(op: u8, rest: Seq<u8>)
    requires
        !(op <= 0x15 || (0x20 <= op <= 0x22) || op == 0x28 || op == 0x2B || (0x2D <= op <= 0x2F)
            || (0x40 <= op <= 0x43) || (0x60 <= op <= 0x62) || op == 0x66 || op == 0x80 || op
            == 0x81),
        rest.len() < u32::MAX,
    ensures
        trap_free(seq![op] + rest),
{
    let policy = seq![op] + rest;
    assert(policy[0] == op);
    assert(next_fetches(policy, 0) =~= Seq::<int>::empty());
    lemma_stops_at_start(policy);
}

fn has_no_trap_bytes(policy: &Vec<u8>) -> (b: bool)
    ensures
        b == no_trap_bytes(policy@),
{
    let mut i: usize = 0;
    while i < policy.len()
        invariant
            i <= policy.len(),
            forall|j: int| 0 <= j < i ==> !may_trap(#[trigger] policy@[j]),
        decreases policy.len() - i,
    {
        let op = policy[i];
        if op == 0x02 || op == 0x03 || op == 0x0B || op == 0x0C || op == 0x0D {
            return false;
        }
        i = i + 1;
    }
    true
}

fn width_of(op: u8) -> (w: u64)
    ensures
        w == op_width(op),
{
    if op == 0x00 || op == 0x22 || op == 0x81 {
        1
    } else if op == 0x0E || op == 0x0F || op == 0x20 || op == 0x21 {
        2
    } else if op == 0x01 || op == 0x02 || op == 0x03 || op == 0x0D || op == 0x13 || op == 0x28
        || op == 0x2D {
        3
    } else if (0x04 <= op && op <= 0x0C) || (0x10 <= op && op <= 0x12) || op == 0x14 || op
        == 0x15 || op == 0x2B || op == 0x2E || op == 0x2F || (0x40 <= op && op <= 0x43) {
        4
    } else {
        0
    }
}

/// The positions inside the policy at which the VM goes on after the
/// instruction at `p`.
fn next_fetches_inside(policy: &Vec<u8>, p: usize) -> (r: Vec<usize>)
    requires
        p < policy.len(),
        policy.len() <= u32::MAX,
    ensures
        forall|i: int|
            0 <= i < r.len() ==> r@[i] < policy.len() && next_fetches(policy@, p as int).contains(
                r@[i] as int,
            ),
        forall|x: int|
            next_fetches(policy@, p as int).contains(x) && 0 <= x < policy.len() ==> r@.contains(
                x as usize,
            ),
{
    let ghost s = next_fetches(policy@, p as int);
    let len = policy.len() as u64;
    let at = p as u64;
    let op = policy[p];
    let mut r: Vec<usize> = Vec::new();
    if op == 0x60 || op == 0x61 || op == 0x62 || op == 0x66 {
        if at + 3 <= len {
            let n = policy[p + 1] as u64 + 256 * (policy[p + 2] as u64);
            let t = at + 3 + n;
            assert(s =~= seq![t as int]);
            assert(s[0] == t as int);
            assert forall|x: int| s.contains(x) implies x == t as int by {
                let i = choose|i: int| 0 <= i < s.len() && s[i] == x;
                assert(i == 0);
            }
            if t < len {
                r.push(t as usize);
                assert(r@[0] == t as usize);
            }
        } else {
            assert(s =~= Seq::<int>::empty());
        }
        return r;
    }
    let w = width_of(op);
    let has_fall = w > 0 && op != 0x04 && op != 0x07;
    let fall_to: u64 = at + w;
    let has_jump = ((0x04 <= op && op <= 0x07) || op == 0x2E || op == 0x2F) && at + 4 <= len;
    let mut jump_to: u64 = 0;
    if has_jump {
        let lo = policy[p + 2] as i64;
        let hi = policy[p + 3] as i64;
        let v = lo + 256 * hi;
        let off = if v >= 0x8000 {
            v - 0x1_0000
        } else {
            v
        };
        let raw = at as i64 + 4 + off;
        let t = if raw < 0 {
            raw + 0x1_0000_0000
        } else if raw >= 0x1_0000_0000 {
            raw - 0x1_0000_0000
        } else {
            raw
        };
        jump_to = t as u64;
        assert(jump_to as int == wrap_pc(p + 4 + i16_at(policy@, p + 2)));
    }
    let ghost fall: Seq<int> = if has_fall {
        seq![fall_to as int]
    } else {
        Seq::empty()
    };
    let ghost jump: Seq<int> = if has_jump {
        seq![jump_to as int]
    } else {
        Seq::empty()
    };
    assert(s =~= fall + jump);
    if has_fall && fall_to < len {
        r.push(fall_to as usize);
    }
    let ghost r_fall = r@;
    if has_jump && jump_to < len {
        r.push(jump_to as usize);
    }
    proof {
        assert forall|x: int| s.contains(x) implies (has_fall && x == fall_to) || (has_jump && x
            == jump_to) by {
            let i = choose|i: int| 0 <= i < s.len() && s[i] == x;
            if has_fall && i == 0 {
                assert(s[0] == fall_to);
            } else if has_fall {
                assert(s[1] == jump_to);
            } else {
                assert(s[0] == jump_to);
            }
        }
        if has_fall {
            assert(s[0] == fall_to as int);
        }
        if has_jump {
            assert(s[s.len() - 1] == jump_to as int);
        }
        if has_fall && fall_to < len {
            assert(r@[0] == fall_to as usize);
        }
        if has_jump && jump_to < len {
            assert(r@[r@.len() - 1] == jump_to as usize);
        }
        assert forall|i: int| 0 <= i < r.len() implies r@[i] < policy.len() && s.contains(
            r@[i] as int,
        ) by {
            if has_fall && fall_to < len && i == 0 {
                assert(r@[i] == fall_to as usize);
            } else {
                assert(r@[i] == jump_to as usize);
            }
        }
    }
    r
}

/// Tests whether the VM runs `policy` without panicking (see `trap_free`).
pub fn policy_is_trap_free(policy: &Vec<u8>) -> (b: bool)
    ensures
        b == trap_free(policy@),
{
    if policy.len() > 0xFFFF_FFFF {
        return false;
    }
    if has_no_trap_bytes(policy) {
        return true;
    }
    let len = policy.len();
    if len == 0 {
        return true;
    }
    let ghost pol = policy@;
    let mut seen: Vec<bool> = Vec::new();
    let mut k: usize = 0;
    while k < len
        invariant
            k <= len,
            len == policy.len(),
            seen@.len() == k,
            forall|i: int| 0 <= i < k ==> !seen@[i],
        decreases len - k,
    {
        seen.push(false);
        k = k + 1;
    }
    seen.set(0, true);
    let ghost mut seen_set: Set<int> = set![0int];
    let mut num_seen: usize = 1;
    let mut work: Vec<usize> = Vec::new();
    work.push(0);
    assert(work@[0] == 0usize);
    proof {
        vstd::set_lib::lemma_int_range(0, len as int);
        vstd::set_lib::lemma_len_subset(seen_set, vstd::set_lib::set_int_range(0, len as int));
    }
    while work.len() > 0
        invariant
            pol == policy@,
            len == policy.len(),
            0 < len <= u32::MAX,
            !no_trap_bytes(pol),
            seen@.len() == len,
            forall|i: int| 0 <= i < len ==> (seen@[i] <==> seen_set.contains(i)),
            forall|q: int| seen_set.contains(q) ==> 0 <= q < len,
            seen_set.finite(),
            num_seen == seen_set.len(),
            num_seen <= len,
            seen_set.contains(0),
            forall|j: int| 0 <= j < work.len() ==> seen_set.contains(#[trigger] work@[j] as int),
            forall|q: int|
                #[trigger] seen_set.contains(q) && !work@.contains(q as usize) ==> closed_at(
                    pol,
                    seen_set,
                    q,
                ),
            forall|f: Set<int>, q: int|
                closed_fetch_set(pol, f) && seen_set.contains(q) ==> #[trigger] f.contains(q),
        decreases 2 * (len - num_seen) + work.len(),
    {
        let ghost work_before_pop = work@;
        let p = work.pop().unwrap();
        proof {
            assert(work_before_pop =~= work@.push(p));
            assert forall|q: int|
                #[trigger] seen_set.contains(q) && !work@.contains(q as usize) && q != p
                    implies closed_at(pol, seen_set, q) by {
                if work_before_pop.contains(q as usize) {
                    let i = choose|i: int|
                        0 <= i < work_before_pop.len() && work_before_pop[i] == q as usize;
                    if i < work@.len() {
                        assert(work@[i] == q as usize);
                    }
                }
            }
        }
        let op = policy[p];
        if op == 0x02 || op == 0x03 || op == 0x0B || op == 0x0C || op == 0x0D || op == 0x28 {
            proof {
                assert forall|f: Set<int>| !closed_fetch_set(pol, f) by {
                    if closed_fetch_set(pol, f) {
                        assert(f.contains(p as int));
                    }
                }
            }
            return false;
        }
        let next = next_fetches_inside(policy, p);
        let ghost before = seen_set;
        let ghost work_after_pop = work.len() as int;
        let mut j: usize = 0;
        while j < next.len()
            invariant
                pol == policy@,
                len == policy.len(),
                0 < len <= u32::MAX,
                p < len,
                safe_op(pol[p as int]),
                before.contains(p as int),
                forall|i: int|
                    0 <= i < next.len() ==> next@[i] < len && next_fetches(pol, p as int).contains(
                        next@[i] as int,
                    ),
                forall|x: int|
                    next_fetches(pol, p as int).contains(x) && 0 <= x < len ==> next@.contains(
                        x as usize,
                    ),
                j <= next.len(),
                seen@.len() == len,
                forall|i: int| 0 <= i < len ==> (seen@[i] <==> seen_set.contains(i)),
                forall|q: int| seen_set.contains(q) ==> 0 <= q < len,
                seen_set.finite(),
                num_seen == seen_set.len(),
                num_seen <= len,
                before.subset_of(seen_set),
                forall|i: int| 0 <= i < j ==> seen_set.contains(#[trigger] next@[i] as int),
                forall|j2: int| 0 <= j2 < work.len() ==> seen_set.contains(#[trigger] work@[j2] as int),
                forall|q: int|
                    #[trigger] seen_set.contains(q) && !work@.contains(q as usize) && q != p
                        ==> closed_at(pol, seen_set, q),
                forall|f: Set<int>, q: int|
                    closed_fetch_set(pol, f) && seen_set.contains(q) ==> #[trigger] f.contains(q),
                2 * (len - num_seen) + work.len() <= 2 * (len - before.len()) + work_after_pop,
            decreases next.len() - j,
        {
            let r = next[j];
            if !seen[r] {
                proof {
                    assert forall|f: Set<int>| closed_fetch_set(pol, f) implies f.contains(
                        r as int,
                    ) by {
                        assert(f.contains(p as int));
                        assert(next_fetches(pol, p as int).contains(r as int));
                    }
                    vstd::set_lib::lemma_int_range(0, len as int);
                    vstd::set_lib::lemma_len_subset(
                        seen_set.insert(r as int),
                        vstd::set_lib::set_int_range(0, len as int),
                    );
                }
                let ghost old_set = seen_set;
                let ghost old_work = work@;
                seen.set(r, true);
                proof {
                    seen_set = seen_set.insert(r as int);
                }
                num_seen = num_seen + 1;
                work.push(r);
                proof {
                    assert(work@ =~= old_work.push(r));
                    assert(work@[work@.len() - 1] == r);
                    assert forall|q: int|
                        #[trigger] seen_set.contains(q) && !work@.contains(q as usize) && q != p
                            implies closed_at(pol, seen_set, q) by {
                        if q != r as int {
                            assert(old_set.contains(q));
                            if old_work.contains(q as usize) {
                                let i = choose|i: int|
                                    0 <= i < old_work.len() && old_work[i] == q as usize;
                                assert(work@[i] == q as usize);
                            }
                            assert(closed_at(pol, old_set, q));
                        }
                    }
                    assert forall|j2: int| 0 <= j2 < work.len() implies seen_set.contains(
                        #[trigger] work@[j2] as int,
                    ) by {
                        if j2 < old_work.len() {
                            assert(work@[j2] == old_work[j2]);
                        }
                    }
                }
            }
            j = j + 1;
        }
    }
    proof {
        assert(closed_fetch_set(pol, seen_set));
    }
    true
}

} // verus!
