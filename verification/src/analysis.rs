//! Questions about the source tree that lowering asks before it emits code.

use crate::ast::{
    BoundField, Capture, ComputedField, FieldInit, MatchArm, TypedExpr, TypedStmt, TypedStringPart,
};
use crate::list::List;
use crate::repr::needs_owning;
use std::collections::HashSet;
use std::rc::Rc;
use vstd::prelude::*;

verus! {

broadcast use vstd::std_specs::hash::group_hash_axioms;

/// The value of the expression is freshly made, so that its reference can be handed on.
pub open spec fn expr_is_fresh_alloc_spec(expr: &TypedExpr) -> bool
    decreases expr,
{
    match expr {
        TypedExpr::Call { .. } => true,
        TypedExpr::MakeArray { .. } => true,
        TypedExpr::MakeObject { .. } => true,
        TypedExpr::StringLit(_, _, _) => true,
        TypedExpr::StringInterp { .. } => true,
        TypedExpr::Function { .. } => true,
        TypedExpr::If { then_br, else_br, .. } => {
            expr_is_fresh_alloc(then_br) && expr_is_fresh_alloc(else_br)
        },
        TypedExpr::Match { arms, .. } => !arms.is_empty() && arms_fresh(arms),
        TypedExpr::Block { expr, .. } => expr_is_fresh_alloc(expr),
        TypedExpr::Coerce { expr, .. } => expr_is_fresh_alloc(expr),
        _ => false,
    }
}

/// Whether the expression makes its value afresh: a literal that allocates, a function, a
/// call, or a branching expression all of whose branches do.
#[verifier::when_used_as_spec(expr_is_fresh_alloc_spec)]
pub fn expr_is_fresh_alloc(expr: &TypedExpr) -> (r: bool)
    ensures
        r == expr_is_fresh_alloc_spec(expr),
    decreases expr,
{
    match expr {
        TypedExpr::Call { .. } => true,
        TypedExpr::MakeArray { .. } => true,
        TypedExpr::MakeObject { .. } => true,
        TypedExpr::StringLit(_, _, _) => true,
        TypedExpr::StringInterp { .. } => true,
        TypedExpr::Function { .. } => true,
        TypedExpr::If { then_br, else_br, .. } => expr_is_fresh_alloc(then_br)
            && expr_is_fresh_alloc(else_br),
        TypedExpr::Match { arms, .. } => !arms.is_empty() && arms_fresh(arms),
        TypedExpr::Block { expr, .. } => expr_is_fresh_alloc(expr),
        TypedExpr::Coerce { expr, .. } => expr_is_fresh_alloc(expr),
        _ => false,
    }
}

/// The value of every arm is freshly made.
pub open spec fn arms_fresh_spec(arms: &List<MatchArm>) -> bool
    decreases arms,
{
    match arms {
        List::Nil => true,
        List::Cons(n) => expr_is_fresh_alloc(&n.head.body) && arms_fresh(&n.tail),
    }
}

/// Whether the value of every arm is freshly made.
#[verifier::when_used_as_spec(arms_fresh_spec)]
pub fn arms_fresh(arms: &List<MatchArm>) -> (r: bool)
    ensures
        r == arms_fresh_spec(arms),
    decreases arms,
{
    match arms {
        List::Nil => true,
        List::Cons(n) => expr_is_fresh_alloc(&n.head.body) && arms_fresh(&n.tail),
    }
}

/// The statement binds the slot.
pub open spec fn stmt_defines_slot_spec(stmt: &TypedStmt, slot: usize) -> bool {
    match stmt {
        TypedStmt::Val { slot: s, .. } => *s == slot,
        TypedStmt::Var { slot: s, .. } => *s == slot,
        TypedStmt::Destructure { obj_slot, fields, .. } => {
            *obj_slot == slot || binds_slot(fields, slot)
        },
        _ => false,
    }
}

/// Whether the statement binds the slot.
#[verifier::when_used_as_spec(stmt_defines_slot_spec)]
pub fn stmt_defines_slot(stmt: &TypedStmt, slot: usize) -> (r: bool)
    ensures
        r == stmt_defines_slot_spec(stmt, slot),
{
    match stmt {
        TypedStmt::Val { slot: s, .. } => *s == slot,
        TypedStmt::Var { slot: s, .. } => *s == slot,
        TypedStmt::Destructure { obj_slot, fields, .. } => *obj_slot == slot
            || binds_slot(fields, slot),
        _ => false,
    }
}

/// One of the fields is bound to the slot.
pub open spec fn binds_slot_spec(fields: &List<BoundField>, slot: usize) -> bool
    decreases fields,
{
    match fields {
        List::Nil => false,
        List::Cons(n) => n.head.slot == slot || binds_slot(&n.tail, slot),
    }
}

/// Whether one of the fields is bound to the slot.
#[verifier::when_used_as_spec(binds_slot_spec)]
pub fn binds_slot(fields: &List<BoundField>, slot: usize) -> (r: bool)
    ensures
        r == binds_slot_spec(fields, slot),
    decreases fields,
{
    match fields {
        List::Nil => false,
        List::Cons(n) => n.head.slot == slot || binds_slot(&n.tail, slot),
    }
}

/// One of the statements binds the slot.
pub open spec fn stmts_define_slot_spec(stmts: &List<TypedStmt>, slot: usize) -> bool
    decreases stmts,
{
    match stmts {
        List::Nil => false,
        List::Cons(n) => stmt_defines_slot(&n.head, slot) || stmts_define_slot(&n.tail, slot),
    }
}

/// Whether one of the statements binds the slot.
#[verifier::when_used_as_spec(stmts_define_slot_spec)]
pub fn stmts_define_slot(stmts: &List<TypedStmt>, slot: usize) -> (r: bool)
    ensures
        r == stmts_define_slot_spec(stmts, slot),
    decreases stmts,
{
    match stmts {
        List::Nil => false,
        List::Cons(n) => stmt_defines_slot(&n.head, slot) || stmts_define_slot(&n.tail, slot),
    }
}

/// The function captures the variable.
pub open spec fn names_capture_spec(captures: &List<Capture>, slot: usize) -> bool
    decreases captures,
{
    match captures {
        List::Nil => false,
        List::Cons(n) => n.head.outer_slot == slot || names_capture(&n.tail, slot),
    }
}

/// Whether the function captures the variable.
#[verifier::when_used_as_spec(names_capture_spec)]
pub fn names_capture(captures: &List<Capture>, slot: usize) -> (r: bool)
    ensures
        r == names_capture_spec(captures, slot),
    decreases captures,
{
    match captures {
        List::Nil => false,
        List::Cons(n) => n.head.outer_slot == slot || names_capture(&n.tail, slot),
    }
}

/// The function captures the variable and may assign to it.
pub open spec fn captures_mutably(captures: &List<Capture>, slot: usize) -> bool
    decreases captures,
{
    match captures {
        List::Nil => false,
        List::Cons(n) => (n.head.outer_slot == slot && n.head.is_mutable) || captures_mutably(
            &n.tail,
            slot,
        ),
    }
}

/// The expression assigns to the slot somewhere inside, nested functions apart.
pub open spec fn expr_reassigns_slot_spec(expr: &TypedExpr, slot: usize) -> bool
    decreases expr,
{
    match expr {
        TypedExpr::LocalSet { slot: s, value, .. } => {
            *s == slot || expr_reassigns_slot(value, slot)
        },
        TypedExpr::Function { .. } => false,
        TypedExpr::BinaryOp { left, right, .. } => {
            expr_reassigns_slot(left, slot) || expr_reassigns_slot(right, slot)
        },
        TypedExpr::UnaryOp { operand, .. } => expr_reassigns_slot(operand, slot),
        TypedExpr::Coerce { expr, .. } => expr_reassigns_slot(expr, slot),
        TypedExpr::Call { func, args, .. } => {
            expr_reassigns_slot(func, slot) || reassigns_slot_list(args, slot)
        },
        TypedExpr::If { cond, then_br, else_br, .. } => {
            expr_reassigns_slot(cond, slot)
                || expr_reassigns_slot(then_br, slot)
                || expr_reassigns_slot(else_br, slot)
        },
        TypedExpr::FromJson { value, .. } => expr_reassigns_slot(value, slot),
        TypedExpr::Match { scrutinee, arms, .. } => {
            expr_reassigns_slot(scrutinee, slot) || reassigns_slot_arms(arms, slot)
        },
        TypedExpr::Block { stmts, expr, .. } => {
            reassigns_slot_stmts(stmts, slot) || expr_reassigns_slot(expr, slot)
        },
        TypedExpr::MakeObject { fields, spreads, computed_fields, .. } => {
            reassigns_slot_fields(fields, slot)
                || reassigns_slot_list(spreads, slot)
                || reassigns_slot_computed(computed_fields, slot)
        },
        TypedExpr::MakeArray { elements, .. } => reassigns_slot_list(elements, slot),
        TypedExpr::Index { object, key, .. } => {
            expr_reassigns_slot(object, slot) || expr_reassigns_slot(key, slot)
        },
        TypedExpr::IndexSet { object, key, value, .. } => {
            expr_reassigns_slot(object, slot)
                || expr_reassigns_slot(key, slot)
                || expr_reassigns_slot(value, slot)
        },
        TypedExpr::FieldGet { object, .. } => expr_reassigns_slot(object, slot),
        TypedExpr::StringInterp { parts, .. } => reassigns_slot_parts(parts, slot),
        TypedExpr::Is { expr, .. } => expr_reassigns_slot(expr, slot),
        TypedExpr::Has { expr, .. } => expr_reassigns_slot(expr, slot),
        _ => false,
    }
}

/// Whether the expression assigns to the slot somewhere inside, nested functions apart.
#[verifier::when_used_as_spec(expr_reassigns_slot_spec)]
pub fn expr_reassigns_slot(expr: &TypedExpr, slot: usize) -> (r: bool)
    ensures
        r == expr_reassigns_slot_spec(expr, slot),
    decreases expr,
{
    match expr {
        TypedExpr::LocalSet { slot: s, value, .. } => *s == slot
            || expr_reassigns_slot(value, slot),
        TypedExpr::Function { .. } => false,
        TypedExpr::BinaryOp { left, right, .. } => expr_reassigns_slot(left, slot)
            || expr_reassigns_slot(right, slot),
        TypedExpr::UnaryOp { operand, .. } => expr_reassigns_slot(operand, slot),
        TypedExpr::Coerce { expr, .. } => expr_reassigns_slot(expr, slot),
        TypedExpr::Call { func, args, .. } => expr_reassigns_slot(func, slot)
            || reassigns_slot_list(args, slot),
        TypedExpr::If { cond, then_br, else_br, .. } => expr_reassigns_slot(cond, slot)
            || expr_reassigns_slot(then_br, slot)
            || expr_reassigns_slot(else_br, slot),
        TypedExpr::FromJson { value, .. } => expr_reassigns_slot(value, slot),
        TypedExpr::Match { scrutinee, arms, .. } => expr_reassigns_slot(scrutinee, slot)
            || reassigns_slot_arms(arms, slot),
        TypedExpr::Block { stmts, expr, .. } => reassigns_slot_stmts(stmts, slot)
            || expr_reassigns_slot(expr, slot),
        TypedExpr::MakeObject {
            fields,
            spreads,
            computed_fields,
            ..
        } => reassigns_slot_fields(fields, slot)
            || reassigns_slot_list(spreads, slot)
            || reassigns_slot_computed(computed_fields, slot),
        TypedExpr::MakeArray { elements, .. } => reassigns_slot_list(elements, slot),
        TypedExpr::Index { object, key, .. } => expr_reassigns_slot(object, slot)
            || expr_reassigns_slot(key, slot),
        TypedExpr::IndexSet { object, key, value, .. } => expr_reassigns_slot(object, slot)
            || expr_reassigns_slot(key, slot)
            || expr_reassigns_slot(value, slot),
        TypedExpr::FieldGet { object, .. } => expr_reassigns_slot(object, slot),
        TypedExpr::StringInterp { parts, .. } => reassigns_slot_parts(parts, slot),
        TypedExpr::Is { expr, .. } => expr_reassigns_slot(expr, slot),
        TypedExpr::Has { expr, .. } => expr_reassigns_slot(expr, slot),
        _ => false,
    }
}

/// The statement assigns to the slot somewhere inside, nested functions apart.
pub open spec fn stmt_reassigns_slot_spec(stmt: &TypedStmt, slot: usize) -> bool
    decreases stmt,
{
    match stmt {
        TypedStmt::Val { value, .. } => expr_reassigns_slot(value, slot),
        TypedStmt::Var { value, .. } => expr_reassigns_slot(value, slot),
        TypedStmt::Expr(e) => expr_reassigns_slot(e, slot),
        TypedStmt::Destructure { value, .. } => expr_reassigns_slot(value, slot),
        TypedStmt::ArrayDestructure { value, .. } => expr_reassigns_slot(value, slot),
        _ => false,
    }
}

/// Whether the statement assigns to the slot somewhere inside, nested functions apart.
#[verifier::when_used_as_spec(stmt_reassigns_slot_spec)]
pub fn stmt_reassigns_slot(stmt: &TypedStmt, slot: usize) -> (r: bool)
    ensures
        r == stmt_reassigns_slot_spec(stmt, slot),
    decreases stmt,
{
    match stmt {
        TypedStmt::Val { value, .. } => expr_reassigns_slot(value, slot),
        TypedStmt::Var { value, .. } => expr_reassigns_slot(value, slot),
        TypedStmt::Expr(e) => expr_reassigns_slot(e, slot),
        TypedStmt::Destructure { value, .. } => expr_reassigns_slot(value, slot),
        TypedStmt::ArrayDestructure { value, .. } => expr_reassigns_slot(value, slot),
        _ => false,
    }
}

/// One of the statements assigns to the slot.
pub open spec fn reassigns_slot_stmts_spec(items: &List<TypedStmt>, slot: usize) -> bool
    decreases items,
{
    match items {
        List::Nil => false,
        List::Cons(n) => stmt_reassigns_slot(&n.head, slot) || reassigns_slot_stmts(&n.tail, slot),
    }
}

/// Whether one of the statements assigns to the slot.
#[verifier::when_used_as_spec(reassigns_slot_stmts_spec)]
pub fn reassigns_slot_stmts(items: &List<TypedStmt>, slot: usize) -> (r: bool)
    ensures
        r == reassigns_slot_stmts_spec(items, slot),
    decreases items,
{
    match items {
        List::Nil => false,
        List::Cons(n) => stmt_reassigns_slot(&n.head, slot) || reassigns_slot_stmts(&n.tail, slot),
    }
}

/// One of the expressions assigns to the slot.
pub open spec fn reassigns_slot_list_spec(items: &List<TypedExpr>, slot: usize) -> bool
    decreases items,
{
    match items {
        List::Nil => false,
        List::Cons(n) => expr_reassigns_slot(&n.head, slot) || reassigns_slot_list(&n.tail, slot),
    }
}

/// Whether one of the expressions assigns to the slot.
#[verifier::when_used_as_spec(reassigns_slot_list_spec)]
pub fn reassigns_slot_list(items: &List<TypedExpr>, slot: usize) -> (r: bool)
    ensures
        r == reassigns_slot_list_spec(items, slot),
    decreases items,
{
    match items {
        List::Nil => false,
        List::Cons(n) => expr_reassigns_slot(&n.head, slot) || reassigns_slot_list(&n.tail, slot),
    }
}

/// One of the fields assigns to the slot.
pub open spec fn reassigns_slot_fields_spec(items: &List<FieldInit>, slot: usize) -> bool
    decreases items,
{
    match items {
        List::Nil => false,
        List::Cons(n) => {
            expr_reassigns_slot(&n.head.value, slot) || reassigns_slot_fields(&n.tail, slot)
        },
    }
}

/// Whether one of the fields assigns to the slot.
#[verifier::when_used_as_spec(reassigns_slot_fields_spec)]
pub fn reassigns_slot_fields(items: &List<FieldInit>, slot: usize) -> (r: bool)
    ensures
        r == reassigns_slot_fields_spec(items, slot),
    decreases items,
{
    match items {
        List::Nil => false,
        List::Cons(n) => expr_reassigns_slot(&n.head.value, slot)
            || reassigns_slot_fields(&n.tail, slot),
    }
}

/// One of the computed fields assigns to the slot.
pub open spec fn reassigns_slot_computed_spec(items: &List<ComputedField>, slot: usize) -> bool
    decreases items,
{
    match items {
        List::Nil => false,
        List::Cons(n) => {
            (expr_reassigns_slot(&n.head.key, slot) || expr_reassigns_slot(&n.head.value, slot))
                || reassigns_slot_computed(&n.tail, slot)
        },
    }
}

/// Whether one of the computed fields assigns to the slot.
#[verifier::when_used_as_spec(reassigns_slot_computed_spec)]
pub fn reassigns_slot_computed(items: &List<ComputedField>, slot: usize) -> (r: bool)
    ensures
        r == reassigns_slot_computed_spec(items, slot),
    decreases items,
{
    match items {
        List::Nil => false,
        List::Cons(n) => (
            expr_reassigns_slot(&n.head.key, slot) || expr_reassigns_slot(&n.head.value, slot)
        )
            || reassigns_slot_computed(&n.tail, slot),
    }
}

/// One of the parts assigns to the slot.
pub open spec fn reassigns_slot_parts_spec(items: &List<TypedStringPart>, slot: usize) -> bool
    decreases items,
{
    match items {
        List::Nil => false,
        List::Cons(n) => reassigns_slot_part(&n.head, slot) || reassigns_slot_parts(&n.tail, slot),
    }
}

/// Whether one of the parts assigns to the slot.
#[verifier::when_used_as_spec(reassigns_slot_parts_spec)]
pub fn reassigns_slot_parts(items: &List<TypedStringPart>, slot: usize) -> (r: bool)
    ensures
        r == reassigns_slot_parts_spec(items, slot),
    decreases items,
{
    match items {
        List::Nil => false,
        List::Cons(n) => reassigns_slot_part(&n.head, slot) || reassigns_slot_parts(&n.tail, slot),
    }
}

/// The part assigns to the slot.
pub open spec fn reassigns_slot_part_spec(part: &TypedStringPart, slot: usize) -> bool
    decreases part,
{
    match part {
        TypedStringPart::Expr(e) => expr_reassigns_slot(e, slot),
        TypedStringPart::Literal(_) => false,
    }
}

/// Whether the part assigns to the slot.
#[verifier::when_used_as_spec(reassigns_slot_part_spec)]
pub fn reassigns_slot_part(part: &TypedStringPart, slot: usize) -> (r: bool)
    ensures
        r == reassigns_slot_part_spec(part, slot),
    decreases part,
{
    match part {
        TypedStringPart::Expr(e) => expr_reassigns_slot(e, slot),
        TypedStringPart::Literal(_) => false,
    }
}

/// One of the arms assigns to the slot.
pub open spec fn reassigns_slot_arms_spec(items: &List<MatchArm>, slot: usize) -> bool
    decreases items,
{
    match items {
        List::Nil => false,
        List::Cons(n) => {
            (reassigns_slot_guard(&n.head.guard, slot) || expr_reassigns_slot(&n.head.body, slot))
                || reassigns_slot_arms(&n.tail, slot)
        },
    }
}

/// Whether one of the arms assigns to the slot.
#[verifier::when_used_as_spec(reassigns_slot_arms_spec)]
pub fn reassigns_slot_arms(items: &List<MatchArm>, slot: usize) -> (r: bool)
    ensures
        r == reassigns_slot_arms_spec(items, slot),
    decreases items,
{
    match items {
        List::Nil => false,
        List::Cons(n) => (
            reassigns_slot_guard(&n.head.guard, slot) || expr_reassigns_slot(&n.head.body, slot)
        )
            || reassigns_slot_arms(&n.tail, slot),
    }
}

/// The guard, if there is one, assigns to the slot.
pub open spec fn reassigns_slot_guard_spec(guard: &Option<Rc<TypedExpr>>, slot: usize) -> bool
    decreases guard,
{
    match guard {
        Some(g) => expr_reassigns_slot(g, slot),
        None => false,
    }
}

/// Whether the guard, if there is one, assigns to the slot.
#[verifier::when_used_as_spec(reassigns_slot_guard_spec)]
pub fn reassigns_slot_guard(guard: &Option<Rc<TypedExpr>>, slot: usize) -> (r: bool)
    ensures
        r == reassigns_slot_guard_spec(guard, slot),
    decreases guard,
{
    match guard {
        Some(g) => expr_reassigns_slot(g, slot),
        None => false,
    }
}

/// Every use of the variable is a read of a field whose name is fixed.
pub open spec fn elem_used_only_for_scalar_fields_spec(expr: &TypedExpr, slot: usize) -> bool
    decreases expr,
{
    match expr {
        TypedExpr::LocalSet { value, .. } => elem_used_only_for_scalar_fields(value, slot),
        TypedExpr::Function { body, captures, .. } => {
            !names_capture(captures, slot) && elem_used_only_for_scalar_fields(body, slot)
        },
        TypedExpr::BinaryOp { left, right, .. } => {
            elem_used_only_for_scalar_fields(left, slot)
                && elem_used_only_for_scalar_fields(right, slot)
        },
        TypedExpr::UnaryOp { operand, .. } => elem_used_only_for_scalar_fields(operand, slot),
        TypedExpr::Coerce { expr, .. } => elem_used_only_for_scalar_fields(expr, slot),
        TypedExpr::Call { func, args, .. } => {
            elem_used_only_for_scalar_fields(func, slot) && elem_use_ok_list(args, slot)
        },
        TypedExpr::If { cond, then_br, else_br, .. } => {
            elem_used_only_for_scalar_fields(cond, slot)
                && elem_used_only_for_scalar_fields(then_br, slot)
                && elem_used_only_for_scalar_fields(else_br, slot)
        },
        TypedExpr::FromJson { value, .. } => elem_used_only_for_scalar_fields(value, slot),
        TypedExpr::Match { scrutinee, arms, .. } => {
            elem_used_only_for_scalar_fields(scrutinee, slot) && elem_use_ok_arms(arms, slot)
        },
        TypedExpr::Block { stmts, expr, .. } => {
            elem_use_ok_stmts(stmts, slot) && elem_used_only_for_scalar_fields(expr, slot)
        },
        TypedExpr::MakeObject { fields, spreads, computed_fields, .. } => {
            elem_use_ok_fields(fields, slot)
                && elem_use_ok_list(spreads, slot)
                && elem_use_ok_computed(computed_fields, slot)
        },
        TypedExpr::MakeArray { elements, .. } => elem_use_ok_list(elements, slot),
        TypedExpr::Index { object, key, .. } => if is_local(object, slot) {
            is_string_literal(key)
        } else {
            elem_used_only_for_scalar_fields(object, slot)
                && elem_used_only_for_scalar_fields(key, slot)
        },
        TypedExpr::IndexSet { object, key, value, .. } => {
            elem_used_only_for_scalar_fields(object, slot)
                && elem_used_only_for_scalar_fields(key, slot)
                && elem_used_only_for_scalar_fields(value, slot)
        },
        TypedExpr::FieldGet { object, .. } => {
            is_local(object, slot) || elem_used_only_for_scalar_fields(object, slot)
        },
        TypedExpr::StringInterp { parts, .. } => elem_use_ok_parts(parts, slot),
        TypedExpr::Is { expr, .. } => elem_used_only_for_scalar_fields(expr, slot),
        TypedExpr::Has { expr, .. } => elem_used_only_for_scalar_fields(expr, slot),
        TypedExpr::LocalGet { slot: s, .. } => *s != slot,
        _ => true,
    }
}

/// Whether the variable is used only as the object of a read of a field whose name is
/// fixed, so that no whole value of it is needed. A function that captures it needs one.
#[verifier::when_used_as_spec(elem_used_only_for_scalar_fields_spec)]
pub fn elem_used_only_for_scalar_fields(expr: &TypedExpr, slot: usize) -> (r: bool)
    ensures
        r == elem_used_only_for_scalar_fields_spec(expr, slot),
    decreases expr,
{
    match expr {
        TypedExpr::LocalSet { value, .. } => elem_used_only_for_scalar_fields(value, slot),
        TypedExpr::Function { body, captures, .. } => !names_capture(captures, slot)
            && elem_used_only_for_scalar_fields(body, slot),
        TypedExpr::BinaryOp { left, right, .. } => elem_used_only_for_scalar_fields(left, slot)
            && elem_used_only_for_scalar_fields(right, slot),
        TypedExpr::UnaryOp { operand, .. } => elem_used_only_for_scalar_fields(operand, slot),
        TypedExpr::Coerce { expr, .. } => elem_used_only_for_scalar_fields(expr, slot),
        TypedExpr::Call { func, args, .. } => elem_used_only_for_scalar_fields(func, slot)
            && elem_use_ok_list(args, slot),
        TypedExpr::If { cond, then_br, else_br, .. } => elem_used_only_for_scalar_fields(cond, slot)
            && elem_used_only_for_scalar_fields(then_br, slot)
            && elem_used_only_for_scalar_fields(else_br, slot),
        TypedExpr::FromJson { value, .. } => elem_used_only_for_scalar_fields(value, slot),
        TypedExpr::Match {
            scrutinee,
            arms,
            ..
        } => elem_used_only_for_scalar_fields(scrutinee, slot)
            && elem_use_ok_arms(arms, slot),
        TypedExpr::Block { stmts, expr, .. } => elem_use_ok_stmts(stmts, slot)
            && elem_used_only_for_scalar_fields(expr, slot),
        TypedExpr::MakeObject {
            fields,
            spreads,
            computed_fields,
            ..
        } => elem_use_ok_fields(fields, slot)
            && elem_use_ok_list(spreads, slot)
            && elem_use_ok_computed(computed_fields, slot),
        TypedExpr::MakeArray { elements, .. } => elem_use_ok_list(elements, slot),
        TypedExpr::Index { object, key, .. } => if is_local(object, slot) {
            is_string_literal(key)
        } else {
            elem_used_only_for_scalar_fields(object, slot)
                && elem_used_only_for_scalar_fields(key, slot)
        },
        TypedExpr::IndexSet {
            object,
            key,
            value,
            ..
        } => elem_used_only_for_scalar_fields(object, slot)
            && elem_used_only_for_scalar_fields(key, slot)
            && elem_used_only_for_scalar_fields(value, slot),
        TypedExpr::FieldGet { object, .. } => is_local(object, slot)
            || elem_used_only_for_scalar_fields(object, slot),
        TypedExpr::StringInterp { parts, .. } => elem_use_ok_parts(parts, slot),
        TypedExpr::Is { expr, .. } => elem_used_only_for_scalar_fields(expr, slot),
        TypedExpr::Has { expr, .. } => elem_used_only_for_scalar_fields(expr, slot),
        TypedExpr::LocalGet { slot: s, .. } => *s != slot,
        _ => true,
    }
}

/// The statement uses the variable only to read fields of fixed names.
pub open spec fn elem_use_ok_stmt_spec(stmt: &TypedStmt, slot: usize) -> bool
    decreases stmt,
{
    match stmt {
        TypedStmt::Val { value, .. } => elem_used_only_for_scalar_fields(value, slot),
        TypedStmt::Var { value, .. } => elem_used_only_for_scalar_fields(value, slot),
        TypedStmt::Expr(e) => elem_used_only_for_scalar_fields(e, slot),
        TypedStmt::Destructure { value, .. } => elem_used_only_for_scalar_fields(value, slot),
        TypedStmt::ArrayDestructure { value, .. } => elem_used_only_for_scalar_fields(value, slot),
        _ => true,
    }
}

/// Whether the statement uses the variable only to read fields of fixed names.
#[verifier::when_used_as_spec(elem_use_ok_stmt_spec)]
pub fn elem_use_ok_stmt(stmt: &TypedStmt, slot: usize) -> (r: bool)
    ensures
        r == elem_use_ok_stmt_spec(stmt, slot),
    decreases stmt,
{
    match stmt {
        TypedStmt::Val { value, .. } => elem_used_only_for_scalar_fields(value, slot),
        TypedStmt::Var { value, .. } => elem_used_only_for_scalar_fields(value, slot),
        TypedStmt::Expr(e) => elem_used_only_for_scalar_fields(e, slot),
        TypedStmt::Destructure { value, .. } => elem_used_only_for_scalar_fields(value, slot),
        TypedStmt::ArrayDestructure { value, .. } => elem_used_only_for_scalar_fields(value, slot),
        _ => true,
    }
}

/// All statements use the variable only to read fields of fixed names.
pub open spec fn elem_use_ok_stmts_spec(items: &List<TypedStmt>, slot: usize) -> bool
    decreases items,
{
    match items {
        List::Nil => true,
        List::Cons(n) => elem_use_ok_stmt(&n.head, slot) && elem_use_ok_stmts(&n.tail, slot),
    }
}

/// Whether all statements use the variable only to read fields of fixed names.
#[verifier::when_used_as_spec(elem_use_ok_stmts_spec)]
pub fn elem_use_ok_stmts(items: &List<TypedStmt>, slot: usize) -> (r: bool)
    ensures
        r == elem_use_ok_stmts_spec(items, slot),
    decreases items,
{
    match items {
        List::Nil => true,
        List::Cons(n) => elem_use_ok_stmt(&n.head, slot) && elem_use_ok_stmts(&n.tail, slot),
    }
}

/// All expressions use the variable only to read fields of fixed names.
pub open spec fn elem_use_ok_list_spec(items: &List<TypedExpr>, slot: usize) -> bool
    decreases items,
{
    match items {
        List::Nil => true,
        List::Cons(n) => {
            elem_used_only_for_scalar_fields(&n.head, slot) && elem_use_ok_list(&n.tail, slot)
        },
    }
}

/// Whether all expressions use the variable only to read fields of fixed names.
#[verifier::when_used_as_spec(elem_use_ok_list_spec)]
pub fn elem_use_ok_list(items: &List<TypedExpr>, slot: usize) -> (r: bool)
    ensures
        r == elem_use_ok_list_spec(items, slot),
    decreases items,
{
    match items {
        List::Nil => true,
        List::Cons(n) => elem_used_only_for_scalar_fields(&n.head, slot)
            && elem_use_ok_list(&n.tail, slot),
    }
}

/// All fields use the variable only to read fields of fixed names.
pub open spec fn elem_use_ok_fields_spec(items: &List<FieldInit>, slot: usize) -> bool
    decreases items,
{
    match items {
        List::Nil => true,
        List::Cons(n) => {
            elem_used_only_for_scalar_fields(&n.head.value, slot)
                && elem_use_ok_fields(&n.tail, slot)
        },
    }
}

/// Whether all fields use the variable only to read fields of fixed names.
#[verifier::when_used_as_spec(elem_use_ok_fields_spec)]
pub fn elem_use_ok_fields(items: &List<FieldInit>, slot: usize) -> (r: bool)
    ensures
        r == elem_use_ok_fields_spec(items, slot),
    decreases items,
{
    match items {
        List::Nil => true,
        List::Cons(n) => elem_used_only_for_scalar_fields(&n.head.value, slot)
            && elem_use_ok_fields(&n.tail, slot),
    }
}

/// All computed fields use the variable only to read fields of fixed names.
pub open spec fn elem_use_ok_computed_spec(items: &List<ComputedField>, slot: usize) -> bool
    decreases items,
{
    match items {
        List::Nil => true,
        List::Cons(n) => {
            (
                elem_used_only_for_scalar_fields(&n.head.key, slot)
                    && elem_used_only_for_scalar_fields(&n.head.value, slot)
            )
                && elem_use_ok_computed(&n.tail, slot)
        },
    }
}

/// Whether all computed fields use the variable only to read fields of fixed names.
#[verifier::when_used_as_spec(elem_use_ok_computed_spec)]
pub fn elem_use_ok_computed(items: &List<ComputedField>, slot: usize) -> (r: bool)
    ensures
        r == elem_use_ok_computed_spec(items, slot),
    decreases items,
{
    match items {
        List::Nil => true,
        List::Cons(n) => (
            elem_used_only_for_scalar_fields(&n.head.key, slot)
                && elem_used_only_for_scalar_fields(&n.head.value, slot)
        )
            && elem_use_ok_computed(&n.tail, slot),
    }
}

/// All parts use the variable only to read fields of fixed names.
pub open spec fn elem_use_ok_parts_spec(items: &List<TypedStringPart>, slot: usize) -> bool
    decreases items,
{
    match items {
        List::Nil => true,
        List::Cons(n) => elem_use_ok_part(&n.head, slot) && elem_use_ok_parts(&n.tail, slot),
    }
}

/// Whether all parts use the variable only to read fields of fixed names.
#[verifier::when_used_as_spec(elem_use_ok_parts_spec)]
pub fn elem_use_ok_parts(items: &List<TypedStringPart>, slot: usize) -> (r: bool)
    ensures
        r == elem_use_ok_parts_spec(items, slot),
    decreases items,
{
    match items {
        List::Nil => true,
        List::Cons(n) => elem_use_ok_part(&n.head, slot) && elem_use_ok_parts(&n.tail, slot),
    }
}

/// The part uses the variable only to read fields of fixed names.
pub open spec fn elem_use_ok_part_spec(part: &TypedStringPart, slot: usize) -> bool
    decreases part,
{
    match part {
        TypedStringPart::Expr(e) => elem_used_only_for_scalar_fields(e, slot),
        TypedStringPart::Literal(_) => true,
    }
}

/// Whether the part uses the variable only to read fields of fixed names.
#[verifier::when_used_as_spec(elem_use_ok_part_spec)]
pub fn elem_use_ok_part(part: &TypedStringPart, slot: usize) -> (r: bool)
    ensures
        r == elem_use_ok_part_spec(part, slot),
    decreases part,
{
    match part {
        TypedStringPart::Expr(e) => elem_used_only_for_scalar_fields(e, slot),
        TypedStringPart::Literal(_) => true,
    }
}

/// All arms use the variable only to read fields of fixed names.
pub open spec fn elem_use_ok_arms_spec(items: &List<MatchArm>, slot: usize) -> bool
    decreases items,
{
    match items {
        List::Nil => true,
        List::Cons(n) => {
            (
                elem_use_ok_guard(&n.head.guard, slot)
                    && elem_used_only_for_scalar_fields(&n.head.body, slot)
            )
                && elem_use_ok_arms(&n.tail, slot)
        },
    }
}

/// Whether all arms use the variable only to read fields of fixed names.
#[verifier::when_used_as_spec(elem_use_ok_arms_spec)]
pub fn elem_use_ok_arms(items: &List<MatchArm>, slot: usize) -> (r: bool)
    ensures
        r == elem_use_ok_arms_spec(items, slot),
    decreases items,
{
    match items {
        List::Nil => true,
        List::Cons(n) => (
            elem_use_ok_guard(&n.head.guard, slot)
                && elem_used_only_for_scalar_fields(&n.head.body, slot)
        )
            && elem_use_ok_arms(&n.tail, slot),
    }
}

/// The guard uses the variable only to read fields of fixed names.
pub open spec fn elem_use_ok_guard_spec(guard: &Option<Rc<TypedExpr>>, slot: usize) -> bool
    decreases guard,
{
    match guard {
        Some(g) => elem_used_only_for_scalar_fields(g, slot),
        None => true,
    }
}

/// Whether the guard, if there is one, uses the variable only to read fields of fixed
/// names.
#[verifier::when_used_as_spec(elem_use_ok_guard_spec)]
pub fn elem_use_ok_guard(guard: &Option<Rc<TypedExpr>>, slot: usize) -> (r: bool)
    ensures
        r == elem_use_ok_guard_spec(guard, slot),
    decreases guard,
{
    match guard {
        Some(g) => elem_used_only_for_scalar_fields(g, slot),
        None => true,
    }
}

/// The expression is the variable.
pub open spec fn is_local_spec(expr: &TypedExpr, slot: usize) -> bool {
    match expr {
        TypedExpr::LocalGet { slot: s, .. } => *s == slot,
        _ => false,
    }
}

/// Whether the expression is the variable.
#[verifier::when_used_as_spec(is_local_spec)]
pub fn is_local(expr: &TypedExpr, slot: usize) -> (r: bool)
    ensures
        r == is_local_spec(expr, slot),
{
    match expr {
        TypedExpr::LocalGet { slot: s, .. } => *s == slot,
        _ => false,
    }
}

/// The expression is a string literal.
pub open spec fn is_string_literal_spec(expr: &TypedExpr) -> bool {
    match expr {
        TypedExpr::StringLit(_, _, _) => true,
        _ => false,
    }
}

/// Whether the expression is a string literal.
#[verifier::when_used_as_spec(is_string_literal_spec)]
pub fn is_string_literal(expr: &TypedExpr) -> (r: bool)
    ensures
        r == is_string_literal_spec(expr),
{
    match expr {
        TypedExpr::StringLit(_, _, _) => true,
        _ => false,
    }
}

/// A function inside the expression, at any depth, captures the variable and may assign to it.
pub open spec fn captured_mutably(expr: &TypedExpr, slot: usize) -> bool
    decreases expr,
{
    match expr {
        TypedExpr::LocalSet { value, .. } => captured_mutably(value, slot),
        TypedExpr::Function { body, captures, .. } => captures_mutably(captures, slot)
            || captured_mutably(body, slot),
        TypedExpr::BinaryOp { left, right, .. } => captured_mutably(left, slot)
            || captured_mutably(right, slot),
        TypedExpr::UnaryOp { operand, .. } => captured_mutably(operand, slot),
        TypedExpr::Coerce { expr, .. } => captured_mutably(expr, slot),
        TypedExpr::Call { func, args, .. } => captured_mutably(func, slot)
            || captured_mutably_list(args, slot),
        TypedExpr::If { cond, then_br, else_br, .. } => captured_mutably(cond, slot)
            || captured_mutably(then_br, slot)
            || captured_mutably(else_br, slot),
        TypedExpr::FromJson { value, .. } => captured_mutably(value, slot),
        TypedExpr::Match { scrutinee, arms, .. } => captured_mutably(scrutinee, slot)
            || captured_mutably_arms(arms, slot),
        TypedExpr::Block { stmts, expr, .. } => captured_mutably_stmts(stmts, slot)
            || captured_mutably(expr, slot),
        TypedExpr::MakeObject {
            fields,
            spreads,
            computed_fields,
            ..
        } => captured_mutably_fields(fields, slot)
            || captured_mutably_list(spreads, slot)
            || captured_mutably_computed(computed_fields, slot),
        TypedExpr::MakeArray { elements, .. } => captured_mutably_list(elements, slot),
        TypedExpr::Index { object, key, .. } => captured_mutably(object, slot)
            || captured_mutably(key, slot),
        TypedExpr::IndexSet { object, key, value, .. } => captured_mutably(object, slot)
            || captured_mutably(key, slot)
            || captured_mutably(value, slot),
        TypedExpr::FieldGet { object, .. } => captured_mutably(object, slot),
        TypedExpr::StringInterp { parts, .. } => captured_mutably_parts(parts, slot),
        TypedExpr::Is { expr, .. } => captured_mutably(expr, slot),
        TypedExpr::Has { expr, .. } => captured_mutably(expr, slot),
        _ => false,
    }
}

/// A function inside the statement captures the variable and may assign to it.
pub open spec fn captured_mutably_stmt(stmt: &TypedStmt, slot: usize) -> bool
    decreases stmt,
{
    match stmt {
        TypedStmt::Val { value, .. } => captured_mutably(value, slot),
        TypedStmt::Var { value, .. } => captured_mutably(value, slot),
        TypedStmt::Expr(e) => captured_mutably(e, slot),
        TypedStmt::Destructure { value, .. } => captured_mutably(value, slot),
        TypedStmt::ArrayDestructure { value, .. } => captured_mutably(value, slot),
        _ => false,
    }
}

/// A function inside one of the statements captures the variable and may assign to it.
pub open spec fn captured_mutably_stmts(items: &List<TypedStmt>, slot: usize) -> bool
    decreases items,
{
    match items {
        List::Nil => false,
        List::Cons(n) => captured_mutably_stmt(&n.head, slot)
            || captured_mutably_stmts(&n.tail, slot),
    }
}

/// A function inside one of the expressions captures the variable and may assign to it.
pub open spec fn captured_mutably_list(items: &List<TypedExpr>, slot: usize) -> bool
    decreases items,
{
    match items {
        List::Nil => false,
        List::Cons(n) => captured_mutably(&n.head, slot) || captured_mutably_list(&n.tail, slot),
    }
}

/// A function inside one of the fields captures the variable and may assign to it.
pub open spec fn captured_mutably_fields(items: &List<FieldInit>, slot: usize) -> bool
    decreases items,
{
    match items {
        List::Nil => false,
        List::Cons(n) => captured_mutably(&n.head.value, slot)
            || captured_mutably_fields(&n.tail, slot),
    }
}

/// A function inside one of the computed fields captures the variable and may assign to it.
pub open spec fn captured_mutably_computed(items: &List<ComputedField>, slot: usize) -> bool
    decreases items,
{
    match items {
        List::Nil => false,
        List::Cons(n) => (
            captured_mutably(&n.head.key, slot) || captured_mutably(&n.head.value, slot)
        )
            || captured_mutably_computed(&n.tail, slot),
    }
}

/// A function inside one of the parts captures the variable and may assign to it.
pub open spec fn captured_mutably_parts(items: &List<TypedStringPart>, slot: usize) -> bool
    decreases items,
{
    match items {
        List::Nil => false,
        List::Cons(n) => captured_mutably_part(&n.head, slot)
            || captured_mutably_parts(&n.tail, slot),
    }
}

/// A function inside the part captures the variable and may assign to it.
pub open spec fn captured_mutably_part(part: &TypedStringPart, slot: usize) -> bool
    decreases part,
{
    match part {
        TypedStringPart::Expr(e) => captured_mutably(e, slot),
        TypedStringPart::Literal(_) => false,
    }
}

/// A function inside one of the arms captures the variable and may assign to it.
pub open spec fn captured_mutably_arms(items: &List<MatchArm>, slot: usize) -> bool
    decreases items,
{
    match items {
        List::Nil => false,
        List::Cons(n) => (
            captured_mutably_guard(&n.head.guard, slot) || captured_mutably(&n.head.body, slot)
        )
            || captured_mutably_arms(&n.tail, slot),
    }
}

/// A function inside the guard captures the variable and may assign to it.
pub open spec fn captured_mutably_guard(guard: &Option<Rc<TypedExpr>>, slot: usize) -> bool
    decreases guard,
{
    match guard {
        Some(g) => captured_mutably(g, slot),
        None => false,
    }
}

/// Adds to `out` the variables that a function inside the expression, at any depth,
/// captures and may assign to.
pub fn collect_mutable_capture_slots_expr(expr: &TypedExpr, out: &mut HashSet<usize>)
    ensures
        forall|slot: usize| #[trigger] final(out)@.contains(slot)
            <==> old(out)@.contains(slot) || captured_mutably(expr, slot),
    decreases expr,
{
    match expr {
        TypedExpr::Function { captures, body, .. } => {
            collect_mutable_capture_slots_captures(captures, out);
            collect_mutable_capture_slots_expr(body, out);
        },
        TypedExpr::LocalSet { value, .. } => {
            collect_mutable_capture_slots_expr(value, out);
        },
        TypedExpr::BinaryOp { left, right, .. } => {
            collect_mutable_capture_slots_expr(left, out);
            collect_mutable_capture_slots_expr(right, out);
        },
        TypedExpr::UnaryOp { operand, .. } => {
            collect_mutable_capture_slots_expr(operand, out);
        },
        TypedExpr::Coerce { expr, .. } => {
            collect_mutable_capture_slots_expr(expr, out);
        },
        TypedExpr::Call { func, args, .. } => {
            collect_mutable_capture_slots_expr(func, out);
            collect_mutable_capture_slots_list(args, out);
        },
        TypedExpr::If { cond, then_br, else_br, .. } => {
            collect_mutable_capture_slots_expr(cond, out);
            collect_mutable_capture_slots_expr(then_br, out);
            collect_mutable_capture_slots_expr(else_br, out);
        },
        TypedExpr::FromJson { value, .. } => {
            collect_mutable_capture_slots_expr(value, out);
        },
        TypedExpr::Match { scrutinee, arms, .. } => {
            collect_mutable_capture_slots_expr(scrutinee, out);
            collect_mutable_capture_slots_arms(arms, out);
        },
        TypedExpr::Block { stmts, expr, .. } => {
            collect_mutable_capture_slots_stmts(stmts, out);
            collect_mutable_capture_slots_expr(expr, out);
        },
        TypedExpr::MakeObject { fields, spreads, computed_fields, .. } => {
            collect_mutable_capture_slots_fields(fields, out);
            collect_mutable_capture_slots_list(spreads, out);
            collect_mutable_capture_slots_computed(computed_fields, out);
        },
        TypedExpr::MakeArray { elements, .. } => {
            collect_mutable_capture_slots_list(elements, out);
        },
        TypedExpr::Index { object, key, .. } => {
            collect_mutable_capture_slots_expr(object, out);
            collect_mutable_capture_slots_expr(key, out);
        },
        TypedExpr::IndexSet { object, key, value, .. } => {
            collect_mutable_capture_slots_expr(object, out);
            collect_mutable_capture_slots_expr(key, out);
            collect_mutable_capture_slots_expr(value, out);
        },
        TypedExpr::FieldGet { object, .. } => {
            collect_mutable_capture_slots_expr(object, out);
        },
        TypedExpr::StringInterp { parts, .. } => {
            collect_mutable_capture_slots_parts(parts, out);
        },
        TypedExpr::Is { expr, .. } => {
            collect_mutable_capture_slots_expr(expr, out);
        },
        TypedExpr::Has { expr, .. } => {
            collect_mutable_capture_slots_expr(expr, out);
        },
        _ => {},
    }
}

/// Adds to `out` the variables that a function inside the statement, at any depth,
/// captures and may assign to.
pub fn collect_mutable_capture_slots_stmt(stmt: &TypedStmt, out: &mut HashSet<usize>)
    ensures
        forall|slot: usize| #[trigger] final(out)@.contains(slot)
            <==> old(out)@.contains(slot) || captured_mutably_stmt(stmt, slot),
    decreases stmt,
{
    match stmt {
        TypedStmt::Val { value, .. } => {
            collect_mutable_capture_slots_expr(value, out);
        },
        TypedStmt::Var { value, .. } => {
            collect_mutable_capture_slots_expr(value, out);
        },
        TypedStmt::Destructure { value, .. } => {
            collect_mutable_capture_slots_expr(value, out);
        },
        TypedStmt::ArrayDestructure { value, .. } => {
            collect_mutable_capture_slots_expr(value, out);
        },
        TypedStmt::Expr(e) => {
            collect_mutable_capture_slots_expr(e, out);
        },
        _ => {},
    }
}

/// Adds to `out` the variables that functions inside the statements capture and may assign to.
pub fn collect_mutable_capture_slots_stmts(items: &List<TypedStmt>, out: &mut HashSet<usize>)
    ensures
        forall|slot: usize| #[trigger] final(out)@.contains(slot)
            <==> old(out)@.contains(slot) || captured_mutably_stmts(items, slot),
    decreases items,
{
    match items {
        List::Nil => {},
        List::Cons(n) => {
            collect_mutable_capture_slots_stmt(&n.head, out);
            collect_mutable_capture_slots_stmts(&n.tail, out);
        },
    }
}

/// Adds to `out` the variables that functions inside the expressions capture and may assign to.
pub fn collect_mutable_capture_slots_list(items: &List<TypedExpr>, out: &mut HashSet<usize>)
    ensures
        forall|slot: usize| #[trigger] final(out)@.contains(slot)
            <==> old(out)@.contains(slot) || captured_mutably_list(items, slot),
    decreases items,
{
    match items {
        List::Nil => {},
        List::Cons(n) => {
            collect_mutable_capture_slots_expr(&n.head, out);
            collect_mutable_capture_slots_list(&n.tail, out);
        },
    }
}

/// Adds to `out` the variables that functions inside the fields capture and may assign to.
pub fn collect_mutable_capture_slots_fields(items: &List<FieldInit>, out: &mut HashSet<usize>)
    ensures
        forall|slot: usize| #[trigger] final(out)@.contains(slot)
            <==> old(out)@.contains(slot) || captured_mutably_fields(items, slot),
    decreases items,
{
    match items {
        List::Nil => {},
        List::Cons(n) => {
            collect_mutable_capture_slots_expr(&n.head.value, out);
            collect_mutable_capture_slots_fields(&n.tail, out);
        },
    }
}

/// Adds to `out` the variables that functions inside the computed fields capture and may assign to.
pub fn collect_mutable_capture_slots_computed(items: &List<ComputedField>, out: &mut HashSet<usize>)
    ensures
        forall|slot: usize| #[trigger] final(out)@.contains(slot)
            <==> old(out)@.contains(slot) || captured_mutably_computed(items, slot),
    decreases items,
{
    match items {
        List::Nil => {},
        List::Cons(n) => {
            collect_mutable_capture_slots_expr(&n.head.key, out);
            collect_mutable_capture_slots_expr(&n.head.value, out);
            collect_mutable_capture_slots_computed(&n.tail, out);
        },
    }
}

/// Adds to `out` the variables that functions inside the parts capture and may assign to.
pub fn collect_mutable_capture_slots_parts(items: &List<TypedStringPart>, out: &mut HashSet<usize>)
    ensures
        forall|slot: usize| #[trigger] final(out)@.contains(slot)
            <==> old(out)@.contains(slot) || captured_mutably_parts(items, slot),
    decreases items,
{
    match items {
        List::Nil => {},
        List::Cons(n) => {
            collect_mutable_capture_slots_part(&n.head, out);
            collect_mutable_capture_slots_parts(&n.tail, out);
        },
    }
}

/// Adds to `out` the variables that functions inside the arms capture and may assign to.
pub fn collect_mutable_capture_slots_arms(items: &List<MatchArm>, out: &mut HashSet<usize>)
    ensures
        forall|slot: usize| #[trigger] final(out)@.contains(slot)
            <==> old(out)@.contains(slot) || captured_mutably_arms(items, slot),
    decreases items,
{
    match items {
        List::Nil => {},
        List::Cons(n) => {
            collect_mutable_capture_slots_guard(&n.head.guard, out);
            collect_mutable_capture_slots_expr(&n.head.body, out);
            collect_mutable_capture_slots_arms(&n.tail, out);
        },
    }
}

/// Adds to `out` the variables that functions inside the part capture and may assign to.
pub fn collect_mutable_capture_slots_part(part: &TypedStringPart, out: &mut HashSet<usize>)
    ensures
        forall|slot: usize| #[trigger] final(out)@.contains(slot)
            <==> old(out)@.contains(slot) || captured_mutably_part(part, slot),
    decreases part,
{
    match part {
        TypedStringPart::Expr(e) => {
            collect_mutable_capture_slots_expr(e, out);
        },
        TypedStringPart::Literal(_) => {},
    }
}

/// Adds to `out` the variables that functions inside the guard capture and may assign to.
pub fn collect_mutable_capture_slots_guard(guard: &Option<Rc<TypedExpr>>, out: &mut HashSet<usize>)
    ensures
        forall|slot: usize| #[trigger] final(out)@.contains(slot)
            <==> old(out)@.contains(slot) || captured_mutably_guard(guard, slot),
    decreases guard,
{
    match guard {
        Some(g) => {
            collect_mutable_capture_slots_expr(g, out);
        },
        None => {},
    }
}

/// Adds to `out` the variables that a function captures and may assign to.
pub fn collect_mutable_capture_slots_captures(items: &List<Capture>, out: &mut HashSet<usize>)
    ensures
        forall|slot: usize| #[trigger] final(out)@.contains(slot)
            <==> old(out)@.contains(slot) || captures_mutably(items, slot),
    decreases items,
{
    match items {
        List::Nil => {},
        List::Cons(n) => {
            if n.head.is_mutable {
                out.insert(n.head.outer_slot);
            }
            collect_mutable_capture_slots_captures(&n.tail, out);
        },
    }
}

/// The variables seen so far whose values are counted, and those of them that are assigned
/// to inside a branch.
pub struct BranchVars {
    pub owning: Set<usize>,
    pub found: Set<usize>,
}

/// Goes on with an expression. A function inside is not gone into: its variables are its own.
pub open spec fn branch_vars(expr: &TypedExpr, in_branch: bool, v: BranchVars) -> BranchVars
    decreases expr,
{
    match expr {
        TypedExpr::LocalSet { slot, value, .. } => {
            let v = if in_branch && v.owning.contains(*slot) {
                BranchVars { owning: v.owning, found: v.found.insert(*slot) }
            } else {
                v
            };
            branch_vars(value, in_branch, v)
        },
        TypedExpr::BinaryOp { left, right, .. } => {
            let v = branch_vars(left, in_branch, v);
            branch_vars(right, in_branch, v)
        },
        TypedExpr::UnaryOp { operand, .. } => branch_vars(operand, in_branch, v),
        TypedExpr::Coerce { expr, .. } => branch_vars(expr, in_branch, v),
        TypedExpr::Call { func, args, .. } => {
            let v = branch_vars(func, in_branch, v);
            branch_vars_list(args, in_branch, v)
        },
        TypedExpr::If { cond, then_br, else_br, .. } => {
            let v = branch_vars(cond, in_branch, v);
            let v = branch_vars(then_br, true, v);
            branch_vars(else_br, true, v)
        },
        TypedExpr::FromJson { value, .. } => branch_vars(value, in_branch, v),
        TypedExpr::Match { scrutinee, arms, .. } => {
            let v = branch_vars(scrutinee, in_branch, v);
            branch_vars_arms(arms, true, v)
        },
        TypedExpr::Block { stmts, expr, .. } => {
            let v = branch_vars_stmts(stmts, in_branch, v);
            branch_vars(expr, in_branch, v)
        },
        TypedExpr::MakeObject { fields, spreads, computed_fields, .. } => {
            let v = branch_vars_fields(fields, in_branch, v);
            let v = branch_vars_list(spreads, in_branch, v);
            branch_vars_computed(computed_fields, in_branch, v)
        },
        TypedExpr::MakeArray { elements, .. } => branch_vars_list(elements, in_branch, v),
        TypedExpr::Index { object, key, .. } => {
            let v = branch_vars(object, in_branch, v);
            branch_vars(key, in_branch, v)
        },
        TypedExpr::IndexSet { object, key, value, .. } => {
            let v = branch_vars(object, in_branch, v);
            let v = branch_vars(key, in_branch, v);
            branch_vars(value, in_branch, v)
        },
        TypedExpr::FieldGet { object, .. } => branch_vars(object, in_branch, v),
        TypedExpr::StringInterp { parts, .. } => branch_vars_parts(parts, in_branch, v),
        TypedExpr::Is { expr, .. } => branch_vars(expr, in_branch, v),
        TypedExpr::Has { expr, .. } => branch_vars(expr, in_branch, v),
        _ => v,
    }
}

/// Adds to `out` the variables with counted values that the expression assigns to inside a
/// branch of an `if` or `match`, and to `owning_vars` those that it declares. A function
/// inside is not gone into: its body is looked through where it is lowered, and a variable
/// outside that it assigns to is one that it captures.
pub fn collect_branch_reassigned_var_slots_expr(
    expr: &TypedExpr,
    in_branch: bool,
    owning_vars: &mut HashSet<usize>,
    out: &mut HashSet<usize>,
)
    ensures
        (BranchVars { owning: final(owning_vars)@, found: final(out)@ })
            == branch_vars(
                expr,
                in_branch,
                (BranchVars { owning: old(owning_vars)@, found: old(out)@ }),
            ),
    decreases expr,
{
    match expr {
        TypedExpr::LocalSet { slot, value, .. } => {
            if in_branch && owning_vars.contains(slot) {
                out.insert(*slot);
            }
            collect_branch_reassigned_var_slots_expr(value, in_branch, owning_vars, out);
        },
        TypedExpr::BinaryOp { left, right, .. } => {
            collect_branch_reassigned_var_slots_expr(left, in_branch, owning_vars, out);
            collect_branch_reassigned_var_slots_expr(right, in_branch, owning_vars, out);
        },
        TypedExpr::UnaryOp { operand, .. } => {
            collect_branch_reassigned_var_slots_expr(operand, in_branch, owning_vars, out);
        },
        TypedExpr::Coerce { expr, .. } => {
            collect_branch_reassigned_var_slots_expr(expr, in_branch, owning_vars, out);
        },
        TypedExpr::Call { func, args, .. } => {
            collect_branch_reassigned_var_slots_expr(func, in_branch, owning_vars, out);
            collect_branch_reassigned_var_slots_list(args, in_branch, owning_vars, out);
        },
        TypedExpr::If { cond, then_br, else_br, .. } => {
            collect_branch_reassigned_var_slots_expr(cond, in_branch, owning_vars, out);
            collect_branch_reassigned_var_slots_expr(then_br, true, owning_vars, out);
            collect_branch_reassigned_var_slots_expr(else_br, true, owning_vars, out);
        },
        TypedExpr::FromJson { value, .. } => {
            collect_branch_reassigned_var_slots_expr(value, in_branch, owning_vars, out);
        },
        TypedExpr::Match { scrutinee, arms, .. } => {
            collect_branch_reassigned_var_slots_expr(scrutinee, in_branch, owning_vars, out);
            collect_branch_reassigned_var_slots_arms(arms, true, owning_vars, out);
        },
        TypedExpr::Block { stmts, expr, .. } => {
            collect_branch_reassigned_var_slots_stmts(stmts, in_branch, owning_vars, out);
            collect_branch_reassigned_var_slots_expr(expr, in_branch, owning_vars, out);
        },
        TypedExpr::MakeObject { fields, spreads, computed_fields, .. } => {
            collect_branch_reassigned_var_slots_fields(fields, in_branch, owning_vars, out);
            collect_branch_reassigned_var_slots_list(spreads, in_branch, owning_vars, out);
            collect_branch_reassigned_var_slots_computed(
                computed_fields,
                in_branch,
                owning_vars,
                out,
            );
        },
        TypedExpr::MakeArray { elements, .. } => {
            collect_branch_reassigned_var_slots_list(elements, in_branch, owning_vars, out);
        },
        TypedExpr::Index { object, key, .. } => {
            collect_branch_reassigned_var_slots_expr(object, in_branch, owning_vars, out);
            collect_branch_reassigned_var_slots_expr(key, in_branch, owning_vars, out);
        },
        TypedExpr::IndexSet { object, key, value, .. } => {
            collect_branch_reassigned_var_slots_expr(object, in_branch, owning_vars, out);
            collect_branch_reassigned_var_slots_expr(key, in_branch, owning_vars, out);
            collect_branch_reassigned_var_slots_expr(value, in_branch, owning_vars, out);
        },
        TypedExpr::FieldGet { object, .. } => {
            collect_branch_reassigned_var_slots_expr(object, in_branch, owning_vars, out);
        },
        TypedExpr::StringInterp { parts, .. } => {
            collect_branch_reassigned_var_slots_parts(parts, in_branch, owning_vars, out);
        },
        TypedExpr::Is { expr, .. } => {
            collect_branch_reassigned_var_slots_expr(expr, in_branch, owning_vars, out);
        },
        TypedExpr::Has { expr, .. } => {
            collect_branch_reassigned_var_slots_expr(expr, in_branch, owning_vars, out);
        },
        _ => {},
    }
}

/// Goes on with a statement.
pub open spec fn branch_vars_stmt(stmt: &TypedStmt, in_branch: bool, v: BranchVars) -> BranchVars
    decreases stmt,
{
    match stmt {
        TypedStmt::Var { slot, ty, value, .. } => {
            let v = if needs_owning(ty) {
                BranchVars { owning: v.owning.insert(*slot), found: v.found }
            } else {
                v
            };
            branch_vars(value, in_branch, v)
        },
        TypedStmt::Val { value, .. } => branch_vars(value, in_branch, v),
        TypedStmt::Destructure { value, .. } => branch_vars(value, in_branch, v),
        TypedStmt::ArrayDestructure { value, .. } => branch_vars(value, in_branch, v),
        TypedStmt::Expr(e) => branch_vars(e, in_branch, v),
        _ => v,
    }
}

/// Adds to `out` the variables with counted values that the statement assigns to inside a
/// branch, and to `owning_vars` those that it declares.
pub fn collect_branch_reassigned_var_slots_stmt(
    stmt: &TypedStmt,
    in_branch: bool,
    owning_vars: &mut HashSet<usize>,
    out: &mut HashSet<usize>,
)
    ensures
        (BranchVars { owning: final(owning_vars)@, found: final(out)@ })
            == branch_vars_stmt(
                stmt,
                in_branch,
                (BranchVars { owning: old(owning_vars)@, found: old(out)@ }),
            ),
    decreases stmt,
{
    match stmt {
        TypedStmt::Var { slot, ty, value, .. } => {
            if needs_owning(ty) {
                owning_vars.insert(*slot);
            }
            collect_branch_reassigned_var_slots_expr(value, in_branch, owning_vars, out);
        },
        TypedStmt::Val { value, .. } => {
            collect_branch_reassigned_var_slots_expr(value, in_branch, owning_vars, out);
        },
        TypedStmt::Destructure { value, .. } => {
            collect_branch_reassigned_var_slots_expr(value, in_branch, owning_vars, out);
        },
        TypedStmt::ArrayDestructure { value, .. } => {
            collect_branch_reassigned_var_slots_expr(value, in_branch, owning_vars, out);
        },
        TypedStmt::Expr(e) => {
            collect_branch_reassigned_var_slots_expr(e, in_branch, owning_vars, out);
        },
        _ => {},
    }
}

/// Goes on with the statements.
pub open spec fn branch_vars_stmts(
    items: &List<TypedStmt>,
    in_branch: bool,
    v: BranchVars,
) -> BranchVars
    decreases items,
{
    match items {
        List::Nil => v,
        List::Cons(n) => {
            let v = branch_vars_stmt(&n.head, in_branch, v);
            branch_vars_stmts(&n.tail, in_branch, v)
        },
    }
}

/// As for one expression, for the statements in order.
pub fn collect_branch_reassigned_var_slots_stmts(
    items: &List<TypedStmt>,
    in_branch: bool,
    owning_vars: &mut HashSet<usize>,
    out: &mut HashSet<usize>,
)
    ensures
        (BranchVars { owning: final(owning_vars)@, found: final(out)@ })
            == branch_vars_stmts(
                items,
                in_branch,
                (BranchVars { owning: old(owning_vars)@, found: old(out)@ }),
            ),
    decreases items,
{
    match items {
        List::Nil => {},
        List::Cons(n) => {
            collect_branch_reassigned_var_slots_stmt(&n.head, in_branch, owning_vars, out);
            collect_branch_reassigned_var_slots_stmts(&n.tail, in_branch, owning_vars, out);
        },
    }
}

/// Goes on with the expressions.
pub open spec fn branch_vars_list(
    items: &List<TypedExpr>,
    in_branch: bool,
    v: BranchVars,
) -> BranchVars
    decreases items,
{
    match items {
        List::Nil => v,
        List::Cons(n) => {
            let v = branch_vars(&n.head, in_branch, v);
            branch_vars_list(&n.tail, in_branch, v)
        },
    }
}

/// As for one expression, for the expressions in order.
pub fn collect_branch_reassigned_var_slots_list(
    items: &List<TypedExpr>,
    in_branch: bool,
    owning_vars: &mut HashSet<usize>,
    out: &mut HashSet<usize>,
)
    ensures
        (BranchVars { owning: final(owning_vars)@, found: final(out)@ })
            == branch_vars_list(
                items,
                in_branch,
                (BranchVars { owning: old(owning_vars)@, found: old(out)@ }),
            ),
    decreases items,
{
    match items {
        List::Nil => {},
        List::Cons(n) => {
            collect_branch_reassigned_var_slots_expr(&n.head, in_branch, owning_vars, out);
            collect_branch_reassigned_var_slots_list(&n.tail, in_branch, owning_vars, out);
        },
    }
}

/// Goes on with the fields.
pub open spec fn branch_vars_fields(
    items: &List<FieldInit>,
    in_branch: bool,
    v: BranchVars,
) -> BranchVars
    decreases items,
{
    match items {
        List::Nil => v,
        List::Cons(n) => {
            let v = branch_vars(&n.head.value, in_branch, v);
            branch_vars_fields(&n.tail, in_branch, v)
        },
    }
}

/// As for one expression, for the fields in order.
pub fn collect_branch_reassigned_var_slots_fields(
    items: &List<FieldInit>,
    in_branch: bool,
    owning_vars: &mut HashSet<usize>,
    out: &mut HashSet<usize>,
)
    ensures
        (BranchVars { owning: final(owning_vars)@, found: final(out)@ })
            == branch_vars_fields(
                items,
                in_branch,
                (BranchVars { owning: old(owning_vars)@, found: old(out)@ }),
            ),
    decreases items,
{
    match items {
        List::Nil => {},
        List::Cons(n) => {
            collect_branch_reassigned_var_slots_expr(&n.head.value, in_branch, owning_vars, out);
            collect_branch_reassigned_var_slots_fields(&n.tail, in_branch, owning_vars, out);
        },
    }
}

/// Goes on with the computed fields.
pub open spec fn branch_vars_computed(
    items: &List<ComputedField>,
    in_branch: bool,
    v: BranchVars,
) -> BranchVars
    decreases items,
{
    match items {
        List::Nil => v,
        List::Cons(n) => {
            let v = branch_vars(&n.head.key, in_branch, v);
            let v = branch_vars(&n.head.value, in_branch, v);
            branch_vars_computed(&n.tail, in_branch, v)
        },
    }
}

/// As for one expression, for the computed fields in order.
pub fn collect_branch_reassigned_var_slots_computed(
    items: &List<ComputedField>,
    in_branch: bool,
    owning_vars: &mut HashSet<usize>,
    out: &mut HashSet<usize>,
)
    ensures
        (BranchVars { owning: final(owning_vars)@, found: final(out)@ })
            == branch_vars_computed(
                items,
                in_branch,
                (BranchVars { owning: old(owning_vars)@, found: old(out)@ }),
            ),
    decreases items,
{
    match items {
        List::Nil => {},
        List::Cons(n) => {
            collect_branch_reassigned_var_slots_expr(&n.head.key, in_branch, owning_vars, out);
            collect_branch_reassigned_var_slots_expr(&n.head.value, in_branch, owning_vars, out);
            collect_branch_reassigned_var_slots_computed(&n.tail, in_branch, owning_vars, out);
        },
    }
}

/// Goes on with the parts.
pub open spec fn branch_vars_parts(
    items: &List<TypedStringPart>,
    in_branch: bool,
    v: BranchVars,
) -> BranchVars
    decreases items,
{
    match items {
        List::Nil => v,
        List::Cons(n) => {
            let v = match n.head {
                TypedStringPart::Expr(e) => branch_vars(&e, in_branch, v),
                TypedStringPart::Literal(_) => v,
            };
            branch_vars_parts(&n.tail, in_branch, v)
        },
    }
}

/// As for one expression, for the parts in order.
pub fn collect_branch_reassigned_var_slots_parts(
    items: &List<TypedStringPart>,
    in_branch: bool,
    owning_vars: &mut HashSet<usize>,
    out: &mut HashSet<usize>,
)
    ensures
        (BranchVars { owning: final(owning_vars)@, found: final(out)@ })
            == branch_vars_parts(
                items,
                in_branch,
                (BranchVars { owning: old(owning_vars)@, found: old(out)@ }),
            ),
    decreases items,
{
    match items {
        List::Nil => {},
        List::Cons(n) => {
            if let TypedStringPart::Expr(e) = &n.head {
                collect_branch_reassigned_var_slots_expr(e, in_branch, owning_vars, out);
            }
            collect_branch_reassigned_var_slots_parts(&n.tail, in_branch, owning_vars, out);
        },
    }
}

/// Goes on with the arms.
pub open spec fn branch_vars_arms(
    items: &List<MatchArm>,
    in_branch: bool,
    v: BranchVars,
) -> BranchVars
    decreases items,
{
    match items {
        List::Nil => v,
        List::Cons(n) => {
            let v = match n.head.guard {
                Some(g) => branch_vars(&g, in_branch, v),
                None => v,
            };
            let v = branch_vars(&n.head.body, in_branch, v);
            branch_vars_arms(&n.tail, in_branch, v)
        },
    }
}

/// As for one expression, for the arms in order.
pub fn collect_branch_reassigned_var_slots_arms(
    items: &List<MatchArm>,
    in_branch: bool,
    owning_vars: &mut HashSet<usize>,
    out: &mut HashSet<usize>,
)
    ensures
        (BranchVars { owning: final(owning_vars)@, found: final(out)@ })
            == branch_vars_arms(
                items,
                in_branch,
                (BranchVars { owning: old(owning_vars)@, found: old(out)@ }),
            ),
    decreases items,
{
    match items {
        List::Nil => {},
        List::Cons(n) => {
            if let Some(g) = &n.head.guard {
                collect_branch_reassigned_var_slots_expr(g, in_branch, owning_vars, out);
            }
            collect_branch_reassigned_var_slots_expr(&n.head.body, in_branch, owning_vars, out);
            collect_branch_reassigned_var_slots_arms(&n.tail, in_branch, owning_vars, out);
        },
    }
}

} // verus!
