//! Expressions, as they run: what each kind of expression makes of the expressions in it.

use crate::arrays::{
    array_literal_runs_to_its_elements, effects_in_turn, exprs_known, values_in_turn,
};
use crate::ast::{BinOp, TypedExpr, UnaryOp};
use crate::branching::short_circuit_runs;
use crate::builder::FState;
use crate::choosing::{if_runs_one_branch, if_states};
use crate::counting::operations_add;
use crate::ctx::{Lower, St};
use crate::direct::alike;
use crate::expr::{lower_binary_spec, lower_expr_inner_spec};
use crate::ir::{BasicBlock, Const, Instruction, Temp};
use crate::looping::part_stands;
use crate::operating::{negation_runs_to_the_opposite, operation_runs_on_both};
use crate::repr::is_sealed_scalar_array;
use crate::run::{
    Mem, Oracle, Run, Value, after_instr, comes_to, constant_runs, is_at, is_open, same_below,
    value_of_op,
};
use crate::sense::{Sense, exprs_mean, suits};
use crate::strings::{
    concatenated, interpolation_runs_to_all_parts, part_texts, parts_effect, parts_known, shown,
};
use crate::text::Text;
use crate::types::dup_str;
use vstd::prelude::*;

verus! {

/// The expressions in `e` are known, and where a truth value is wanted they give one.
pub open spec fn composed(w: Sense, e: &TypedExpr, mem: Mem) -> bool {
    match e {
        TypedExpr::IntLit(_, _, _) => true,
        TypedExpr::StringLit(_, _, _) => true,
        TypedExpr::BoolLit(_, _) => true,
        TypedExpr::NullLit(_) => true,
        TypedExpr::BinaryOp { left, op, right, .. } => {
            &&& (w.known)(**left) && (w.known)(**right)
            &&& *op == BinOp::And || *op == BinOp::Or ==> (w.value)(**left, mem) is Truth
                && (w.value)(**right, (w.effect)(**left, mem)) is Truth
        },
        TypedExpr::UnaryOp { op, operand, .. } => {
            *op == UnaryOp::Not && (w.known)(**operand) && (w.value)(**operand, mem) is Truth
        },
        TypedExpr::If { cond, then_br, else_br, .. } => {
            &&& (w.known)(**cond) && (w.known)(**then_br) && (w.known)(**else_br)
            &&& (w.value)(**cond, mem) is Truth
        },
        TypedExpr::StringInterp { parts, .. } => parts_known(parts, w),
        TypedExpr::MakeArray { elements, ty, .. } => {
            exprs_known(elements, w) && !is_sealed_scalar_array(ty)
        },
        _ => false,
    }
}

/// The value of an expression and what it changes, in terms of the expressions in it. A literal is
/// its value; `and` and `or` evaluate the right operand only where the left one leaves the result
/// open; other operators evaluate both operands, the left one first; `if` evaluates one branch; an
/// interpolated string is the texts of its parts; an array literal is the values of its elements.
pub open spec fn comes_out(
    w: Sense,
    shows: spec_fn(Value) -> Seq<char>,
    e: &TypedExpr,
    mem: Mem,
) -> (Value, Mem) {
    match e {
        TypedExpr::IntLit(v, _, _) => (Value::Number(*v as int), mem),
        TypedExpr::StringLit(text, _, _) => (Value::Text(text@), mem),
        TypedExpr::BoolLit(v, _) => (Value::Truth(*v), mem),
        TypedExpr::NullLit(_) => (Value::Null, mem),
        TypedExpr::BinaryOp { left, op, right, .. } => {
            let x = (w.value)(**left, mem);
            let after = (w.effect)(**left, mem);
            if *op == BinOp::And && x == Value::Truth(false) {
                (Value::Truth(false), after)
            } else if *op == BinOp::Or && x == Value::Truth(true) {
                (Value::Truth(true), after)
            } else if *op == BinOp::And || *op == BinOp::Or {
                ((w.value)(**right, after), (w.effect)(**right, after))
            } else {
                (value_of_op(*op, x, (w.value)(**right, after)), (w.effect)(**right, after))
            }
        },
        TypedExpr::UnaryOp { operand, .. } => (
            Value::Truth((w.value)(**operand, mem) == Value::Truth(false)),
            (w.effect)(**operand, mem),
        ),
        TypedExpr::If { cond, then_br, else_br, .. } => {
            let after = (w.effect)(**cond, mem);
            if (w.value)(**cond, mem) == Value::Truth(true) {
                ((w.value)(**then_br, after), (w.effect)(**then_br, after))
            } else {
                ((w.value)(**else_br, after), (w.effect)(**else_br, after))
            }
        },
        TypedExpr::StringInterp { parts, .. } => (
            Value::Text(concatenated(part_texts(parts, w, shows, mem))),
            parts_effect(parts, w, mem),
        ),
        TypedExpr::MakeArray { elements, .. } => (
            Value::Items(values_in_turn(elements, w, mem)),
            effects_in_turn(elements, w, mem),
        ),
        _ => (Value::Null, mem),
    }
}

/// There is room for the code of `e`.
pub open spec fn has_room(l: Lower, e: &TypedExpr, s: St) -> bool {
    match e {
        TypedExpr::If { cond, then_br, else_br, result_type, .. } => {
            let p = if_states(l, cond, then_br, else_br, result_type, s);
            p.meet.blocks.len() < u32::MAX && p.meet.temp_types.len() < u32::MAX
        },
        _ => true,
    }
}

/// A run of what an expression is lowered to gives what the expressions in it come to when they are
/// put together as the expression says, with their effects in this order.
pub proof fn expression_runs_to_what_it_says(
    l: Lower,
    e: &TypedExpr,
    s: St,
    code: Seq<BasicBlock>,
    sem: Oracle,
    w: Sense,
    shows: spec_fn(Value) -> Seq<char>,
    r: Run,
) -> (r2: Run)
    requires
        exprs_mean(l, code, sem, w),
        shown(sem, shows),
        composed(w, e, r.mem),
        has_room(l, e, s),
        suits(w, s.b, r),
        is_open(s.b),
        lower_expr_inner_spec(l, e, s).0.b.blocks.len() < u32::MAX,
        lower_expr_inner_spec(l, e, s).0.b.temp_types.len() < u32::MAX,
        part_stands(s.b, lower_expr_inner_spec(l, e, s).0.b, code),
        is_at(s.b, r),
    ensures
        ({
            let (s2, t) = lower_expr_inner_spec(l, e, s);
            &&& comes_to(code, sem, r, r2)
            &&& is_at(s2.b, r2)
            &&& same_below(s.b, r, r2)
            &&& (r2.vals[t], r2.mem) == comes_out(w, shows, e, r.mem)
        }),
{
    reveal(lower_expr_inner_spec);
    let (s2, t) = lower_expr_inner_spec(l, e, s);
    match e {
        TypedExpr::IntLit(v, ty, _) => literal_runs(
            Const::Int(*v, *ty),
            s2.b,
            s.b,
            t,
            code,
            sem,
            r,
        ),
        TypedExpr::StringLit(text, _, _) => {
            let c = Const::Str(Text::Owned(dup_str(text)));
            assert(alike(s2.b, s.b.const_temp(c).0)) by {
                reveal(FState::register_owned);
            }
            literal_runs(c, s2.b, s.b, t, code, sem, r)
        },
        TypedExpr::BoolLit(v, _) => literal_runs(Const::Bool(*v), s2.b, s.b, t, code, sem, r),
        TypedExpr::NullLit(_) => literal_runs(Const::Null, s2.b, s.b, t, code, sem, r),
        TypedExpr::BinaryOp { left, op, right, result_type, .. } => {
            if *op == BinOp::And || *op == BinOp::Or {
                reveal(lower_binary_spec);
                let x = (w.value)(**left, r.mem) == Value::Truth(true);
                let y = (w.value)(**right, (w.effect)(**left, r.mem)) == Value::Truth(true);
                short_circuit_runs(l, left, *op, right, result_type, s, code, sem, w, x, y, r)
            } else {
                operation_runs_on_both(l, left, *op, right, result_type, s, code, sem, w, r)
            }
        },
        TypedExpr::UnaryOp { op, operand, result_type, .. } => {
            let truth = (w.value)(**operand, r.mem) == Value::Truth(true);
            negation_runs_to_the_opposite(l, operand, result_type, s, code, sem, w, truth, r)
        },
        TypedExpr::If { cond, then_br, else_br, result_type, .. } => {
            let truth = (w.value)(**cond, r.mem) == Value::Truth(true);
            if_runs_one_branch(l, cond, then_br, else_br, result_type, s, code, sem, w, truth, r)
        },
        TypedExpr::StringInterp { parts, .. } => {
            interpolation_runs_to_all_parts(l, parts, s, code, sem, w, shows, r)
        },
        TypedExpr::MakeArray { elements, ty, .. } => {
            array_literal_runs_to_its_elements(l, elements, ty, s, code, sem, w, r)
        },
        _ => r,
    }
}

/// A literal is its value.
proof fn literal_runs(
    c: Const,
    b2: FState,
    b: FState,
    t: Temp,
    code: Seq<BasicBlock>,
    sem: Oracle,
    r: Run,
) -> (r2: Run)
    requires
        alike(b2, b.const_temp(c).0),
        t == b.const_temp(c).1,
        is_open(b),
        b2.temp_types.len() < u32::MAX,
        part_stands(b, b2, code),
        is_at(b, r),
    ensures
        comes_to(code, sem, r, r2),
        is_at(b2, r2),
        same_below(b, r, r2),
        r2.mem == r.mem,
        c matches Const::Int(v, _) ==> r2.vals[t] == Value::Number(v as int),
        c matches Const::Bool(v) ==> r2.vals[t] == Value::Truth(v),
        c matches Const::Null ==> r2.vals[t] == Value::Null,
        c matches Const::Str(text) ==> r2.vals[t] == Value::Text(text@),
{
    operations_add();
    constant_runs(b, c, code, sem, r);
    after_instr(sem, Instruction::Const { dst: t, value: c }, r)
}

} // verus!
