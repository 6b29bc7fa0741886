//! Operators and array literals, as they run.

use crate::ast::{BinOp, TypedExpr, UnaryOp};
use crate::builder::FState;
use crate::coerce::{coerce_to_slot_type_spec, free_box_shells_spec};
use crate::control::lower_cond_as_bool_spec;
use crate::counting::operations_add;
use crate::ctx::{Lower, St, low};
use crate::direct::alike;
use crate::expr::{
    arithmetic_type, box_operand_spec, is_arithmetic, lower_binary_spec, lower_unary_spec,
    match_operands_spec, open_operand_spec,
};
use crate::fusion::{coerce_local, emit_local};
use crate::ir::{BasicBlock, Instruction, IrUnaryOp, Temp};
use crate::list::List;
use crate::looping::{halves_stand, part_stands};
use crate::run::{
    Oracle, Run, Value, after_instr, comes_further, comes_to, comes_to_itself, conversion_runs,
    emitted_runs, instrs, is_at, is_open, local_adds_up, made_runs, operator_runs, same_below,
    stays_local, value_of_op,
};
use crate::sense::{Sense, cond_local, cond_runs, expr_local, expr_runs, exprs_mean, suits};
use crate::types::{Type, json};
use vstd::prelude::*;

verus! {

/// From `a` to `b` a value was converted, or nothing happened; `t` holds the value of `x`.
pub open spec fn carries(a: FState, x: Temp, b: FState, t: Temp) -> bool {
    ||| b == a && t == x
    ||| exists|from: Type, to: Type|
        #![trigger a.coerce(x, &from, &to)]
        b == a.coerce(x, &from, &to).0 && t == a.coerce(x, &from, &to).1
}

/// What carries a value stays local.
pub(crate) proof fn carried_local(a: FState, x: Temp, b: FState, t: Temp)
    requires
        carries(a, x, b, t),
    ensures
        stays_local(a, b),
{
    if !(b == a && t == x) {
        let (from, to) = choose|from: Type, to: Type|
            #![trigger a.coerce(x, &from, &to)]
            b == a.coerce(x, &from, &to).0 && t == a.coerce(x, &from, &to).1;
        coerce_local(a, x, &from, &to);
    }
}

/// What carries a value runs.
pub(crate) proof fn carried_runs(
    a: FState,
    x: Temp,
    b: FState,
    t: Temp,
    code: Seq<BasicBlock>,
    sem: Oracle,
    r: Run,
) -> (r2: Run)
    requires
        carries(a, x, b, t),
        is_open(a),
        b.temp_types.len() < u32::MAX,
        part_stands(a, b, code),
        is_at(a, r),
        x.0 < a.temp_types.len(),
    ensures
        comes_to(code, sem, r, r2),
        is_at(b, r2),
        same_below(a, r, r2),
        r2.vals[t] == r.vals[x],
        t.0 < b.temp_types.len(),
        r2.mem == r.mem,
{
    if b == a && t == x {
        comes_to_itself(code, sem, r);
        r
    } else {
        let (from, to) = choose|from: Type, to: Type|
            #![trigger a.coerce(x, &from, &to)]
            b == a.coerce(x, &from, &to).0 && t == a.coerce(x, &from, &to).1;
        operations_add();
        conversion_runs(a, x, &from, &to, code, sem, r);
        after_instr(sem, Instruction::Coerce { dst: t, src: x, from_ty: from, to_ty: to }, r)
    }
}

/// The operands as the operator takes them carry the values of the operands.
proof fn operands_carry(
    op: BinOp,
    lhs: Temp,
    rhs: Temp,
    left_ty: &Type,
    right_ty: &Type,
    b: FState,
) -> (mid: FState)
    ensures
        ({
            let (b2, o) = match_operands_spec(op, lhs, rhs, left_ty, right_ty, b);
            carries(b, lhs, mid, o.lhs) && carries(mid, rhs, b2, o.rhs)
        }),
{
    reveal(match_operands_spec);
    reveal(box_operand_spec);
    reveal(open_operand_spec);
    reveal(coerce_to_slot_type_spec);
    let (b2, o) = match_operands_spec(op, lhs, rhs, left_ty, right_ty, b);
    if !is_arithmetic(op) {
        b
    } else if (left_ty is TypeVar) || (right_ty is TypeVar) {
        let (mid, x) = box_operand_spec(lhs, left_ty, b);
        let (b3, y) = box_operand_spec(rhs, right_ty, mid);
        assert(carries(b, lhs, mid, x.temp)) by {
            let j = json();
            let e = b.coerce(lhs, left_ty, &j);
        }
        assert(carries(mid, rhs, b3, y.temp)) by {
            let j = json();
            let e = mid.coerce(rhs, right_ty, &j);
        }
        mid
    } else {
        let ty = arithmetic_type(left_ty, right_ty);
        let (mid, x) = open_operand_spec(lhs, left_ty, &ty, b);
        let (b3, y) = open_operand_spec(rhs, right_ty, &ty, mid);
        assert(carries(b, lhs, mid, x)) by {
            let e = b.coerce(lhs, left_ty, &ty);
        }
        assert(carries(mid, rhs, b3, y)) by {
            let e = mid.coerce(rhs, right_ty, &ty);
        }
        mid
    }
}

/// Freeing shells stays local.
pub(crate) proof fn shells_local(shells: &List<Temp>, b: FState)
    ensures
        stays_local(b, free_box_shells_spec(shells, b)),
        free_box_shells_spec(shells, b).temp_types == b.temp_types,
        free_box_shells_spec(shells, b).blocks.len() == b.blocks.len(),
    decreases shells,
{
    reveal(free_box_shells_spec);
    match shells {
        List::Nil => {},
        List::Cons(n) => {
            let i = Instruction::FreeBoxShell { val: n.head };
            emit_local(b, i);
            shells_local(&n.tail, b.emit(i));
            local_adds_up(b, b.emit(i), free_box_shells_spec(shells, b));
            reveal(FState::emit);
        },
    }
}

/// Freeing shells changes nothing that counts here.
pub(crate) proof fn shells_run(
    shells: &List<Temp>,
    b: FState,
    code: Seq<BasicBlock>,
    sem: Oracle,
    r: Run,
) -> (r2: Run)
    requires
        is_open(b),
        free_box_shells_spec(shells, b).blocks.len() < u32::MAX,
        free_box_shells_spec(shells, b).temp_types.len() < u32::MAX,
        part_stands(b, free_box_shells_spec(shells, b), code),
        is_at(b, r),
    ensures
        comes_to(code, sem, r, r2),
        is_at(free_box_shells_spec(shells, b), r2),
        r2.vals == r.vals,
        r2.mem == r.mem,
    decreases shells,
{
    reveal(free_box_shells_spec);
    match shells {
        List::Nil => {
            comes_to_itself(code, sem, r);
            r
        },
        List::Cons(n) => {
            let i = Instruction::FreeBoxShell { val: n.head };
            let b1 = b.emit(i);
            emit_local(b, i);
            shells_local(&n.tail, b1);
            halves_stand(b, b1, free_box_shells_spec(shells, b), code);
            emitted_runs(b, i, code, sem, r);
            let r1 = after_instr(sem, i, r);
            let r2 = shells_run(&n.tail, b1, code, sem, r1);
            comes_further(code, sem, r, r1, r2);
            r2
        },
    }
}

/// A run of what a binary operation is lowered to, other than `and` and `or`: the left operand is
/// evaluated, then the right one, each once, and the result is what the operator makes of the left
/// value and the right value, in this order.
pub proof fn operation_runs_on_both(
    l: Lower,
    left: &TypedExpr,
    op: BinOp,
    right: &TypedExpr,
    result_type: &Type,
    s: St,
    code: Seq<BasicBlock>,
    sem: Oracle,
    w: Sense,
    r: Run,
) -> (r2: Run)
    requires
        exprs_mean(l, code, sem, w),
        (w.known)(*left),
        (w.known)(*right),
        suits(w, s.b, r),
        op != BinOp::And && op != BinOp::Or,
        is_open(s.b),
        ({
            let s2 = lower_binary_spec(l, left, op, right, result_type, s).0;
            &&& s2.b.blocks.len() < u32::MAX
            &&& s2.b.temp_types.len() < u32::MAX
            &&& part_stands(s.b, s2.b, code)
        }),
        is_at(s.b, r),
    ensures
        ({
            let (s2, t) = lower_binary_spec(l, left, op, right, result_type, s);
            let after = (w.effect)(*left, r.mem);
            &&& comes_to(code, sem, r, r2)
            &&& is_at(s2.b, r2)
            &&& same_below(s.b, r, r2)
            &&& r2.vals[t] == value_of_op(op, (w.value)(*left, r.mem), (w.value)(*right, after))
            &&& r2.mem == (w.effect)(*right, after)
        }),
{
    reveal(lower_binary_spec);
    let (s4, t) = lower_binary_spec(l, left, op, right, result_type, s);
    let (s1, lhs) = low(l, left, s);
    let (s2, rhs) = low(l, right, s1);
    let (b3, o) = match_operands_spec(op, lhs, rhs, &left.ty(), &right.ty(), s2.b);
    let mid = operands_carry(op, lhs, rhs, &left.ty(), &right.ty(), s2.b);
    let (b4, dst) = b3.binary(op, o.lhs, o.rhs, &o.ty, result_type);
    let b5 = free_box_shells_spec(&o.shells, b4);
    assert(alike(s4.b, b5) && t == dst) by {
        reveal(FState::register_owned);
    }
    expr_local(l, left, s, code, sem, w);
    expr_local(l, right, s1, code, sem, w);
    carried_local(s2.b, lhs, mid, o.lhs);
    carried_local(mid, rhs, b3, o.rhs);
    assert(stays_local(b3, b4)) by {
        reveal(FState::binary);
        reveal(FState::alloc_temp);
        reveal(FState::emit);
        reveal_with_fuel(instrs, 2);
    }
    shells_local(&o.shells, b4);
    operations_add();
    local_adds_up(b3, b4, b5);
    local_adds_up(mid, b3, b5);
    local_adds_up(s2.b, mid, b5);
    local_adds_up(s1.b, s2.b, b5);
    assert(part_stands(s.b, b5, code));
    halves_stand(s.b, s1.b, b5, code);
    halves_stand(s1.b, s2.b, b5, code);
    halves_stand(s2.b, mid, b5, code);
    halves_stand(mid, b3, b5, code);
    halves_stand(b3, b4, b5, code);
    let r1 = expr_runs(l, left, s, code, sem, w, r);
    let r2 = expr_runs(l, right, s1, code, sem, w, r1);
    comes_further(code, sem, r, r1, r2);
    let r3 = carried_runs(s2.b, lhs, mid, o.lhs, code, sem, r2);
    comes_further(code, sem, r, r2, r3);
    let r4 = carried_runs(mid, rhs, b3, o.rhs, code, sem, r3);
    comes_further(code, sem, r, r3, r4);
    operator_runs(b3, op, o.lhs, o.rhs, &o.ty, result_type, code, sem, r4);
    let i = Instruction::Binary {
        dst,
        op,
        lhs: o.lhs,
        rhs: o.rhs,
        operand_ty: o.ty,
        ty: *result_type,
    };
    let r5 = after_instr(sem, i, r4);
    comes_further(code, sem, r, r4, r5);
    let r6 = shells_run(&o.shells, b4, code, sem, r5);
    comes_further(code, sem, r, r5, r6);
    assert(r4.vals[o.lhs] == r1.vals[lhs] && r4.vals[o.rhs] == r2.vals[rhs]);
    r6
}

/// A run of what a negation is lowered to gives the negation of the truth value of the operand.
pub proof fn negation_runs_to_the_opposite(
    l: Lower,
    operand: &TypedExpr,
    result_type: &Type,
    s: St,
    code: Seq<BasicBlock>,
    sem: Oracle,
    w: Sense,
    truth: bool,
    r: Run,
) -> (r2: Run)
    requires
        exprs_mean(l, code, sem, w),
        (w.known)(*operand),
        suits(w, s.b, r),
        is_open(s.b),
        ({
            let s2 = lower_unary_spec(l, UnaryOp::Not, operand, result_type, s).0;
            &&& s2.b.blocks.len() < u32::MAX
            &&& s2.b.temp_types.len() < u32::MAX
            &&& part_stands(s.b, s2.b, code)
        }),
        is_at(s.b, r),
        (w.value)(*operand, r.mem) == Value::Truth(truth),
    ensures
        ({
            let (s2, t) = lower_unary_spec(l, UnaryOp::Not, operand, result_type, s);
            &&& comes_to(code, sem, r, r2)
            &&& is_at(s2.b, r2)
            &&& same_below(s.b, r, r2)
            &&& r2.vals[t] == Value::Truth(!truth)
            &&& r2.mem == (w.effect)(*operand, r.mem)
        }),
{
    reveal(lower_unary_spec);
    let (s2, t) = lower_unary_spec(l, UnaryOp::Not, operand, result_type, s);
    let plain = operand.ty() is Bool;
    let (s1, src) = if plain {
        low(l, operand, s)
    } else {
        lower_cond_as_bool_spec(l, operand, s)
    };
    let i = Instruction::Unary { dst: t, op: IrUnaryOp::Not, operand: src, ty: *result_type };
    assert(s2.b == s1.b.alloc_temp(*result_type).0.emit(i));
    expr_local(l, operand, s, code, sem, w);
    cond_local(l, operand, s, code, sem, w);
    assert(stays_local(s1.b, s2.b) && s1.b.temp_types.len() < u32::MAX && t.0
        == s1.b.temp_types.len()) by {
        reveal(FState::alloc_temp);
        reveal(FState::emit);
        reveal_with_fuel(instrs, 2);
    }
    halves_stand(s.b, s1.b, s2.b, code);
    let r1 = if plain {
        expr_runs(l, operand, s, code, sem, w, r)
    } else {
        cond_runs(l, operand, s, code, sem, w, r)
    };
    made_runs(s1.b, *result_type, i, code, sem, r1);
    let r2 = after_instr(sem, i, r1);
    comes_further(code, sem, r, r1, r2);
    r2
}

} // verus!
