//! Branches, as they run.

use crate::ast::{BinOp, TypedExpr};
use crate::builder::FState;
use crate::control::{lower_cond_as_bool_spec, lower_scoped_cond_spec, lower_short_circuit_spec};
use crate::ctx::{Lower, St};
use crate::ir::{BasicBlock, BlockId, Incoming, Instruction, Temp, Terminator};
use crate::list::two;
use crate::looping::{halves_stand, part_stands};
use crate::run::{
    Oracle, Run, Value, after_instr, comes_further, comes_one_step, comes_to, current, emitted_runs,
    incoming_from, instrs, is_at, is_here, is_open, local_adds_up, same_below, stays_local, step,
};
use crate::sense::{
    Sense, cond_local, cond_runs, exprs_mean, scoped_cond_local, scoped_cond_runs, suits,
};
use crate::types::Type;
use vstd::prelude::*;

verus! {

// Two blocks, the second of which is where code comes together again.

/// Where the first of two new blocks starts, and the numbers of the two.
pub open spec fn forked(
    b: FState,
    first: &'static str,
    second: &'static str,
    cond: Temp,
    holds: bool,
) -> (FState, BlockId, BlockId) {
    let (b1, x) = b.alloc_block(first);
    let (b2, y) = b1.alloc_block(second);
    let term = if holds {
        Terminator::CondJump { cond, then_block: x, else_block: y }
    } else {
        Terminator::CondJump { cond, then_block: y, else_block: x }
    };
    (b2.terminate(term).switch_to(x), x, y)
}

/// The code of the first block is emitted up to `b2`; then code goes on in the second.
pub open spec fn met_again(b2: FState, y: BlockId) -> FState {
    b2.terminate(Terminator::Jump(y)).switch_to(y)
}

/// How the two blocks lie.
proof fn fork_lies(
    b: FState,
    first: &'static str,
    second: &'static str,
    cond: Temp,
    holds: bool,
    b2: FState,
)
    requires
        is_open(b),
        b.blocks.len() + 2 < u32::MAX,
        b2.blocks.len() < u32::MAX,
        b2.temp_types.len() < u32::MAX,
        stays_local(forked(b, first, second, cond, holds).0, b2),
    ensures
        ({
            let (b1, x, y) = forked(b, first, second, cond, holds);
            let b3 = met_again(b2, y);
            let n = b.blocks.len() as int;
            let k = b.env.current_block.0 as int;
            let e = b2.env.current_block.0 as int;
            &&& x.0 == n && y.0 == n + 1
            &&& is_open(b1) && b1.env.current_block == x && current(b1) =~= Seq::empty()
            &&& b1.temp_types == b.temp_types && b1.blocks.len() == n + 2
            &&& b3.temp_types == b2.temp_types
            &&& is_open(b2) && e != k && e != y.0
            &&& is_open(b3) && b3.env.current_block == y && current(b3) =~= Seq::empty()
            &&& b3.blocks.len() == b2.blocks.len()
            &&& b3.blocks[k].code == b.blocks[k].code
            &&& b3.blocks[k].term == if holds {
                Terminator::CondJump { cond, then_block: x, else_block: y }
            } else {
                Terminator::CondJump { cond, then_block: y, else_block: x }
            }
            &&& b3.blocks[e].code == b2.blocks[e].code
            &&& b3.blocks[e].term == Terminator::Jump(y)
            &&& forall|j: int|
                0 <= j < b2.blocks.len() && j != e ==> #[trigger] b3.blocks[j] == b2.blocks[j]
            &&& stays_local(b, b3)
        }),
{
    reveal(FState::alloc_block);
    reveal(FState::terminate);
    reveal(FState::switch_to);
    let (b1, x, y) = forked(b, first, second, cond, holds);
    let n = b.blocks.len() as int;
    let k = b.env.current_block.0 as int;
    assert(is_open(b1));
    assert(b2.blocks[k] == b1.blocks[k]);
    assert(b2.blocks[n + 1] == b1.blocks[n + 1]);
}

/// The code of the first block stands where the whole does.
proof fn fork_stands(
    b: FState,
    first: &'static str,
    second: &'static str,
    cond: Temp,
    holds: bool,
    b2: FState,
    code: Seq<BasicBlock>,
)
    requires
        is_open(b),
        b.blocks.len() + 2 < u32::MAX,
        b2.blocks.len() < u32::MAX,
        b2.temp_types.len() < u32::MAX,
        stays_local(forked(b, first, second, cond, holds).0, b2),
        part_stands(b, met_again(b2, forked(b, first, second, cond, holds).2), code),
    ensures
        ({
            let (b1, x, y) = forked(b, first, second, cond, holds);
            let k = b.env.current_block.0 as int;
            let e = b2.env.current_block.0 as int;
            &&& part_stands(b1, b2, code)
            &&& code[k] == met_again(b2, y).blocks[k]
            &&& code[e].term == Terminator::Jump(y)
            &&& instrs(&code[e].code) == current(b2)
        }),
{
    fork_lies(b, first, second, cond, holds, b2);
    let (b1, x, y) = forked(b, first, second, cond, holds);
    let b3 = met_again(b2, y);
    let k = b.env.current_block.0 as int;
    let e = b2.env.current_block.0 as int;
    assert(code[k] == b3.blocks[k]);
    assert(code[e] == b3.blocks[e]);
    assert forall|j: int|
        0 <= j < b2.blocks.len() && j != e && (j == b1.env.current_block.0 || b1.blocks.len()
            <= j) implies #[trigger] code[j] == b2.blocks[j] by {
        assert(code[j] == b3.blocks[j]);
    }
}

// Conjunction and disjunction.

/// The room that a branch needs.
proof fn fork_adds(b: FState, first: &'static str, second: &'static str, cond: Temp, holds: bool)
    ensures
        ({
            let b1 = forked(b, first, second, cond, holds).0;
            &&& b.blocks.len() <= b1.blocks.len()
            &&& b1.blocks.len() < u32::MAX ==> b1.blocks.len() == b.blocks.len() + 2
            &&& b1.temp_types == b.temp_types
        }),
{
    reveal(FState::alloc_block);
    reveal(FState::terminate);
    reveal(FState::switch_to);
}

/// A run of what `and` and `or` are lowered to gives the conjunction or the disjunction of the
/// truth values of the operands. The right operand is evaluated where the left one leaves the
/// result open, and nowhere else: for `and` where the left one holds, for `or` where it does not.
pub proof fn short_circuit_runs(
    l: Lower,
    left: &TypedExpr,
    op: BinOp,
    right: &TypedExpr,
    result_type: &Type,
    s: St,
    code: Seq<BasicBlock>,
    sem: Oracle,
    w: Sense,
    x: bool,
    y: bool,
    r: Run,
) -> (r2: Run)
    requires
        exprs_mean(l, code, sem, w),
        (w.known)(*left),
        (w.known)(*right),
        suits(w, s.b, r),
        op == BinOp::And || op == BinOp::Or,
        is_open(s.b),
        ({
            let s2 = lower_short_circuit_spec(l, left, op, right, result_type, s).0;
            &&& s2.b.blocks.len() < u32::MAX
            &&& s2.b.temp_types.len() < u32::MAX
            &&& part_stands(s.b, s2.b, code)
        }),
        is_at(s.b, r),
        (w.value)(*left, r.mem) == Value::Truth(x),
        (w.value)(*right, (w.effect)(*left, r.mem)) == Value::Truth(y),
    ensures
        ({
            let (s2, t) = lower_short_circuit_spec(l, left, op, right, result_type, s);
            let after = (w.effect)(*left, r.mem);
            &&& comes_to(code, sem, r, r2)
            &&& is_at(s2.b, r2)
            &&& same_below(s.b, r, r2)
            &&& op == BinOp::And ==> r2.vals[t] == Value::Truth(x && y)
            &&& op == BinOp::And ==> r2.mem == if x {
                (w.effect)(*right, after)
            } else {
                after
            }
            &&& op == BinOp::Or ==> r2.vals[t] == Value::Truth(x || y)
            &&& op == BinOp::Or ==> r2.mem == if x {
                after
            } else {
                (w.effect)(*right, after)
            }
        }),
{
    reveal(lower_short_circuit_spec);
    let (s2, t) = lower_short_circuit_spec(l, left, op, right, result_type, s);
    let (s1, lhs) = lower_cond_as_bool_spec(l, left, s);
    let holds = op == BinOp::And;
    let (b1, rhs_block, merge) = forked(s1.b, "sc_rhs", "sc_merge", lhs, holds);
    let from = St { b: b1, c: s1.c };
    let (s3, rhs) = lower_scoped_cond_spec(l, right, from);
    let b4 = met_again(s3.b, merge);
    let phi = Instruction::Phi {
        dst: t,
        ty: *result_type,
        incomings: two(
            Incoming { val: lhs, pred: s1.b.env.current_block },
            Incoming { val: rhs, pred: s3.b.env.current_block },
        ),
    };
    let b5 = b4.alloc_temp(*result_type).0;
    assert(s2.b == b5.emit(phi));
    cond_local(l, left, s, code, sem, w);
    scoped_cond_local(l, right, from, code, sem, w);
    fork_adds(s1.b, "sc_rhs", "sc_merge", lhs, holds);
    assert(s2.b.blocks.len() == s3.b.blocks.len() && s3.b.temp_types.len()
        <= s2.b.temp_types.len() && b4.temp_types == s3.b.temp_types && b4.blocks.len()
        == s3.b.blocks.len() && s3.b.temp_types.len() < u32::MAX && t.0 == s3.b.temp_types.len())
        by {
        reveal(FState::terminate);
        reveal(FState::switch_to);
        reveal(FState::alloc_temp);
        reveal(FState::emit);
    }
    assert(is_open(s1.b));
    fork_lies(s1.b, "sc_rhs", "sc_merge", lhs, holds, s3.b);
    assert(stays_local(b4, s2.b)) by {
        reveal(FState::alloc_temp);
        reveal(FState::emit);
        reveal_with_fuel(instrs, 2);
    }
    local_adds_up(s1.b, b4, s2.b);
    halves_stand(s.b, s1.b, s2.b, code);
    halves_stand(s1.b, b4, s2.b, code);
    fork_stands(s1.b, "sc_rhs", "sc_merge", lhs, holds, s3.b, code);
    let r1 = cond_runs(l, left, s, code, sem, w, r);
    let r3 = step(code, sem, r1);
    comes_one_step(code, sem, r1);
    comes_further(code, sem, r, r1, r3);
    let r5 = if x == holds {
        let r4 = scoped_cond_runs(l, right, from, code, sem, w, r3);
        comes_further(code, sem, r, r3, r4);
        let r5 = step(code, sem, r4);
        comes_one_step(code, sem, r4);
        comes_further(code, sem, r, r4, r5);
        r5
    } else {
        r3
    };
    assert(is_at(b5, r5) && is_open(b5) && is_here(b5.emit(phi), code)) by {
        reveal(FState::alloc_temp);
    }
    emitted_runs(b5, phi, code, sem, r5);
    let r6 = after_instr(sem, phi, r5);
    comes_further(code, sem, r, r5, r6);
    reveal_with_fuel(incoming_from, 3);
    r6
}

} // verus!
