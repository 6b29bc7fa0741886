//! Lowering of expressions.

use crate::analysis::expr_is_fresh_alloc;
use crate::ast::{BinOp, ComputedField, FieldInit, NamedDef, Span, TypedExpr, UnaryOp};
use crate::builder::{Env, FState, FuncBuilder, grown};
use crate::call::{lower_call, lower_call_spec};
use crate::coerce::{
    anon_object_slot_repr_differs, box_shell_reclaim, box_to_json, box_to_json_spec,
    coerce_and_own_store, coerce_and_own_store_spec, coerce_to_slot_type, coerce_to_slot_type_spec,
    free_box_shells, free_box_shells_spec, index_result_is_owned, nested_sealed_repr_change,
    own_for_read, own_for_read_spec, own_for_store, own_for_store_spec,
};
use crate::control::{
    lower_block, lower_block_spec, lower_cond_as_bool, lower_cond_as_bool_spec, lower_has,
    lower_has_spec, lower_if, lower_if_spec, lower_is, lower_is_spec, lower_match, lower_match_spec,
    lower_short_circuit, lower_short_circuit_spec,
};
use crate::ctx::{CState, CtxEnv, Lower, LowerCtx, St, low, on, on_b, ran, st, valid};
use crate::func::{
    lower_function_expr, lower_function_expr_spec, lower_string_interp, lower_string_interp_spec,
    materialize_packed, materialize_packed_spec,
};
use crate::ir::{
    CallTarget, Const, FuncId, Incoming, Instruction, Intrinsic, IrUnaryOp, KeyedTemp, NamedTemp,
    Temp, Terminator,
};
use crate::list::{List, one, prepend, two};
use crate::literal::{
    SumScrutinee, has_field, literal_string, lower_base, lower_base_spec,
    lower_container_base_borrowed_check, lower_container_base_borrowed_check_spec, lower_place,
    lower_place_spec, lower_sum_scrutinee_raw, lower_sum_scrutinee_raw_spec, lower_value_into_slot,
    lower_value_into_slot_spec, try_lower_elem_field, try_lower_elem_field_spec,
    try_lower_sealed_literal, try_lower_sealed_literal_spec,
};
use crate::loops::TypedTemp;
use crate::repr::{
    is_nullable_sealed_record, is_rc_type, is_sealed_scalar_array, is_sealed_scalar_repr,
    is_union_ty, needs_owning, sealed_fields, sum_recursive_child_field_ty,
    sum_recursive_child_field_ty_spec, sum_type_eligible, type_repr_differs,
};
use crate::text::Text;
use crate::types::{Type, dup_str, json};
use crate::valid::{
    array_elems_ok, assignment_ok, boxed_operand_ok, group_valid, keyed_ok, named_ok, operands_ok,
    otemp_ok, sum_scrutinee_ok, temp_ok, temps_ok, typed_temp_ok,
};
use vstd::prelude::*;

verus! {

broadcast use group_valid;

/// An expression that is nested too deeply is not lowered: its value is undefined, and the
/// context records that.
pub open spec fn give_up(e: TypedExpr, s: St) -> (St, Temp) {
    let c = CState { env: CtxEnv { too_deep: true, ..s.c.env }, ..s.c };
    let (b, t) = s.b.alloc_temp(e.ty());
    (St { b, c }, t)
}

/// Code that is emitted stands for `span`.
pub open spec fn at_span(s: St, span: Option<Span>) -> St {
    St { b: FState { env: Env { current_span: span, ..s.b.env }, ..s.b }, c: s.c }
}

/// How expressions are lowered where `d` more levels of nesting can be.
#[verifier::opaque]
pub open spec fn lower_at(d: nat) -> Lower
    decreases d,
{
    |e: TypedExpr, s: St|
        if d == 0 {
            give_up(e, s)
        } else {
            let (s1, t) = lower_expr_inner_spec(
                lower_at((d - 1) as nat),
                &e,
                at_span(s, Some(e.span())),
            );
            (at_span(s1, s.b.env.current_span), t)
        }
}

/// Lowers an expression and returns the temporary that holds its value. The instructions
/// stand for the source text of the expression; afterwards the source text that code stands
/// for is what it was.
pub fn lower_expr(expr: &TypedExpr, b: &mut FuncBuilder, ctx: &mut LowerCtx) -> (r: Temp)
    ensures
        (st(final(b), final(ctx)), r) == low(
            lower_at(old(ctx).room.left()),
            expr,
            st(old(b), old(ctx)),
        ),
        ran(*old(b), *old(ctx), *final(b), *final(ctx)),
        valid(st(old(b), old(ctx))) ==> valid(st(final(b), final(ctx))) && temp_ok(
            r,
            final(b)@.temp_types.len(),
        ),
    decreases old(ctx).room.left(), 0nat, 0nat,
{
    reveal(lower_at);
    reveal(FState::jumps_ok);
    reveal(FState::code_valid);
    reveal(FState::phis_valid);
    reveal(FState::defs);
    reveal(FState::single);
    if !ctx.room.descend() {
        ctx.env.too_deep = true;
        return b.alloc_temp(expr.ty());
    }
    let saved_span = b.env.current_span;
    b.env.current_span = Some(expr.span());
    let ghost before = b@;
    let t = lower_expr_inner(expr, b, ctx);
    let ghost after = b@;
    b.env.current_span = saved_span;
    assert forall|t: Temp| #[trigger] b@.defs(t) == after.defs(t) by {}
    assert forall|t: Temp| #[trigger] before.defs(t) == old(b)@.defs(t) by {}
    ctx.room.ascend();
    t
}

/// What `read_global_var` does to the function under construction.
#[verifier::opaque]
pub open spec fn read_global_var_spec(
    slot: usize,
    gty: &Type,
    ty: &Type,
    b: FState,
) -> (FState, Temp) {
    let (b, dst) = b.alloc_temp(gty.dup());
    let b = b.emit(Instruction::GlobalValGet { dst, slot, ty: gty.dup(), immutable: false });
    if narrows(gty, ty) {
        let (b, d) = b.coerce(dst, gty, ty);
        own_for_read_spec(d, ty, b)
    } else {
        own_for_read_spec(dst, gty, b)
    }
}

/// Reads the value that a global variable holds, in its own type or narrowed to the type of
/// the expression, and gives it a reference of its own.
pub fn read_global_var(slot: usize, gty: &Type, ty: &Type, b: &mut FuncBuilder) -> (r: Temp)
    ensures
        (final(b)@, r) == read_global_var_spec(slot, gty, ty, old(b)@),
        grown(old(b)@, final(b)@, 0),
        old(b)@.wf() ==> final(b)@.wf() && temp_ok(r, final(b)@.temp_types.len()),
{
    reveal(read_global_var_spec);
    let dst = b.alloc_temp(gty.dup());
    b.emit(Instruction::GlobalValGet { dst, slot, ty: gty.dup(), immutable: false });
    if narrows(gty, ty) {
        let d = b.coerce(dst, gty, ty);
        return own_for_read(d, ty, b);
    }
    own_for_read(dst, gty, b)
}

/// A box is narrowed to a plain value.
pub open spec fn narrows_box_spec(stored_ty: &Type, ty: &Type) -> bool {
    is_union_ty(stored_ty) && !is_union_ty(ty)
}

/// Whether a box is narrowed to a plain value.
#[verifier::when_used_as_spec(narrows_box_spec)]
pub fn narrows_box(stored_ty: &Type, ty: &Type) -> (r: bool)
    ensures
        r == narrows_box_spec(stored_ty, ty),
{
    is_union_ty(stored_ty) && !is_union_ty(ty)
}

/// A nullable packed record is narrowed to the record.
pub open spec fn narrows_nullable_spec(stored_ty: &Type, ty: &Type) -> bool {
    is_nullable_sealed_record(stored_ty) && is_sealed_scalar_repr(ty)
}

/// Whether a nullable packed record is narrowed to the record.
#[verifier::when_used_as_spec(narrows_nullable_spec)]
pub fn narrows_nullable(stored_ty: &Type, ty: &Type) -> (r: bool)
    ensures
        r == narrows_nullable_spec(stored_ty, ty),
{
    is_nullable_sealed_record(stored_ty) && is_sealed_scalar_repr(ty)
}

/// A stored value is narrowed to the type in which it is read.
pub open spec fn narrows_spec(stored_ty: &Type, ty: &Type) -> bool {
    narrows_box(stored_ty, ty) || narrows_nullable(stored_ty, ty)
}

/// Whether a stored value is narrowed to the type in which it is read.
#[verifier::when_used_as_spec(narrows_spec)]
pub fn narrows(stored_ty: &Type, ty: &Type) -> (r: bool)
    ensures
        r == narrows_spec(stored_ty, ty),
{
    narrows_box(stored_ty, ty) || narrows_nullable(stored_ty, ty)
}

/// What `read_local` does to the function under construction.
#[verifier::opaque]
pub open spec fn read_local_spec(t0: Temp, ty: &Type, b: FState) -> (FState, Temp) {
    let stored_ty = b.temp_ty_or(t0, ty.dup());
    let (b, t) = if narrows(&stored_ty, ty) {
        b.coerce(t0, &stored_ty, ty)
    } else {
        (b, t0)
    };
    let b = if narrows_box(&stored_ty, ty) && is_sealed_scalar_repr(ty) {
        b.register_owned(t, ty.dup())
    } else if narrows_nullable(&stored_ty, ty) || is_rc_type(ty) {
        let b = b.emit(Instruction::Retain { val: t, ty: ty.dup() });
        b.register_owned(t, ty.dup())
    } else {
        b
    };
    (b, t)
}

/// Reads a variable that a temporary holds, narrowed to the type of the expression. A counted
/// pointer gets a reference of its own; a packed record that is taken out of a box is fresh.
pub fn read_local(t0: Temp, ty: &Type, b: &mut FuncBuilder) -> (r: Temp)
    ensures
        (final(b)@, r) == read_local_spec(t0, ty, old(b)@),
        grown(old(b)@, final(b)@, 0),
        old(b)@.wf() && temp_ok(t0, old(b)@.temp_types.len())
            ==> final(b)@.wf() && temp_ok(r, final(b)@.temp_types.len()),
{
    reveal(read_local_spec);
    let stored_ty = b.temp_ty_or(t0, ty.dup());
    let t = if narrows(&stored_ty, ty) {
        b.coerce(t0, &stored_ty, ty)
    } else {
        t0
    };
    if narrows_box(&stored_ty, ty) && is_sealed_scalar_repr(ty) {
        b.register_owned(t, ty.dup());
    } else if narrows_nullable(&stored_ty, ty) || is_rc_type(ty) {
        b.emit(Instruction::Retain { val: t, ty: ty.dup() });
        b.register_owned(t, ty.dup());
    }
    t
}

/// What `imported_closure` does to the function under construction.
#[verifier::opaque]
pub open spec fn imported_closure_spec(sym: &String, ty: &Type, b: FState) -> (FState, Temp) {
    let (b, dst) = b.alloc_temp(ty.dup());
    let b = b.emit(
        Instruction::MakeNamedClosure { dst, sym: Text::Owned(dup_str(sym)), ty: ty.dup() },
    );
    let b = b.register_owned(dst, ty.dup());
    (b, dst)
}

/// Makes the closure of a function of another module.
pub fn imported_closure(sym: &String, ty: &Type, b: &mut FuncBuilder) -> (r: Temp)
    ensures
        (final(b)@, r) == imported_closure_spec(sym, ty, old(b)@),
        grown(old(b)@, final(b)@, 0),
        old(b)@.wf() ==> final(b)@.wf() && temp_ok(r, final(b)@.temp_types.len()),
{
    reveal(imported_closure_spec);
    let dst = b.alloc_temp(ty.dup());
    b.emit(Instruction::MakeNamedClosure { dst, sym: Text::Owned(dup_str(sym)), ty: ty.dup() });
    b.register_owned(dst, ty.dup());
    dst
}

/// What `global_closure` does to the function under construction.
#[verifier::opaque]
pub open spec fn global_closure_spec(fid: FuncId, ty: &Type, b: FState) -> (FState, Temp) {
    let (b, dst) = b.alloc_temp(ty.dup());
    let b = b.emit(
        Instruction::MakeClosure {
            dst,
            func: fid,
            captures: List::Nil,
            capture_kinds: List::Nil,
            ret_ty: ty.dup(),
        },
    );
    let b = b.register_owned(dst, ty.dup());
    (b, dst)
}

/// Makes the closure of a function of this module.
pub fn global_closure(fid: FuncId, ty: &Type, b: &mut FuncBuilder) -> (r: Temp)
    ensures
        (final(b)@, r) == global_closure_spec(fid, ty, old(b)@),
        grown(old(b)@, final(b)@, 0),
        old(b)@.wf() ==> final(b)@.wf() && temp_ok(r, final(b)@.temp_types.len()),
{
    reveal(global_closure_spec);
    let dst = b.alloc_temp(ty.dup());
    b.emit(
        Instruction::MakeClosure {
            dst,
            func: fid,
            captures: List::Nil,
            capture_kinds: List::Nil,
            ret_ty: ty.dup(),
        },
    );
    b.register_owned(dst, ty.dup());
    dst
}

/// What `lower_local_get` does to the state, where `l` lowers the expressions inside.
#[verifier::opaque]
pub open spec fn lower_local_get_spec(l: Lower, slot: usize, ty: &Type, s: St) -> (St, Temp) {
    match s.c.packed(slot) {
        Some(p) => on(s, materialize_packed_spec(&p, s.b)),
        None => if s.c.is_global_var(slot) {
            let gty = match s.c.global_val(slot) {
                Some(t) => t,
                None => ty.dup(),
            };
            on(s, read_global_var_spec(slot, &gty, ty, s.b))
        } else {
            match (s.b.cell_slot(slot), s.b.slot(slot)) {
                (Some(cell_ty), Some(cell)) => {
                    let (s, dst) = on(s, s.b.cell_get(cell, &cell_ty));
                    on(s, own_for_read_spec(dst, &cell_ty, s.b))
                },
                (None, Some(t)) => on(s, read_local_spec(t, ty, s.b)),
                _ => match s.c.import_fn(slot) {
                    Some(f) => on(s, imported_closure_spec(&f.sym, ty, s.b)),
                    None => match s.c.import_val(slot) {
                        Some(v) => {
                            let (s, dst) = on(
                                s,
                                s.b.call(
                                    CallTarget::Named(Text::Owned(dup_str(&v.wrapper))),
                                    List::Nil,
                                    &v.ty,
                                ),
                            );
                            let s = if is_rc_type(&v.ty) {
                                on_b(s, s.b.register_owned(dst, v.ty.dup()))
                            } else {
                                s
                            };
                            (s, dst)
                        },
                        None => match s.c.global_val(slot) {
                            Some(gty) => {
                                let (s, dst) = on(s, s.b.alloc_temp(gty.dup()));
                                let s = on_b(
                                    s,
                                    s.b.emit(
                                        Instruction::GlobalValGet {
                                            dst,
                                            slot,
                                            ty: gty.dup(),
                                            immutable: true,
                                        },
                                    ),
                                );
                                on(s, own_for_read_spec(dst, &gty, s.b))
                            },
                            None => match s.c.global_fn(slot) {
                                Some(fid) => on(s, global_closure_spec(fid, ty, s.b)),
                                None => on(s, s.b.alloc_temp(ty.dup())),
                            },
                        },
                    },
                },
            }
        },
    }
}

/// Lowers a read of a variable. In this order: an element of a packed array is made; a global
/// variable, a heap cell and a local variable are read; a name of another module or of this
/// one becomes a closure or a value. A variable that nothing holds is undefined.
pub fn lower_local_get(slot: usize, ty: &Type, b: &mut FuncBuilder, ctx: &mut LowerCtx) -> (r: Temp)
    ensures
        (st(final(b), final(ctx)), r) == lower_local_get_spec(
            lower_at(old(ctx).room.left()),
            slot,
            ty,
            st(old(b), old(ctx)),
        ),
        ran(*old(b), *old(ctx), *final(b), *final(ctx)),
        valid(st(old(b), old(ctx)))
            ==> valid(st(final(b), final(ctx))) && temp_ok(r, final(b)@.temp_types.len()),
    decreases old(ctx).room.left(), 1nat, 0nat,
{
    reveal(lower_local_get_spec);
    match ctx.packed(slot) {
        Some(p) => {
            return materialize_packed(&p, b);
        },
        None => {},
    }
    if ctx.is_global_var(slot) {
        let gty = match ctx.global_val(slot) {
            Some(t) => t,
            None => ty.dup(),
        };
        return read_global_var(slot, &gty, ty, b);
    }
    match (b.cell_slot(slot), b.slot(slot)) {
        (Some(cell_ty), Some(cell)) => {
            let dst = b.cell_get(cell, &cell_ty);
            return own_for_read(dst, &cell_ty, b);
        },
        (None, Some(t)) => {
            return read_local(t, ty, b);
        },
        _ => {},
    }
    match ctx.import_fn(slot) {
        Some(f) => {
            return imported_closure(&f.sym, ty, b);
        },
        None => {},
    }
    match ctx.import_val(slot) {
        Some(v) => {
            let dst = b.call(CallTarget::Named(Text::Owned(dup_str(&v.wrapper))), List::Nil, &v.ty);
            if is_rc_type(&v.ty) {
                b.register_owned(dst, v.ty.dup());
            }
            return dst;
        },
        None => {},
    }
    match ctx.global_val(slot) {
        Some(gty) => {
            let dst = b.alloc_temp(gty.dup());
            b.emit(Instruction::GlobalValGet { dst, slot, ty: gty.dup(), immutable: true });
            return own_for_read(dst, &gty, b);
        },
        None => {},
    }
    match ctx.global_fn(slot) {
        Some(fid) => global_closure(fid, ty, b),
        None => b.alloc_temp(ty.dup()),
    }
}

/// What `assigned_value` does to the function under construction.
#[verifier::opaque]
pub open spec fn assigned_value_spec(
    v: Temp,
    store_ty: &Type,
    made_fresh_box: bool,
    b: FState,
) -> (FState, Temp) {
    if needs_owning(store_ty) {
        let (b, result) = own_for_read_spec(v, store_ty, b);
        let b = if made_fresh_box {
            b.emit(Instruction::FreeBoxShell { val: v })
        } else {
            b
        };
        (b, result)
    } else {
        (b, v)
    }
}

/// The value of an assignment to a cell or a global: the stored value with a reference of
/// its own, where it is counted. The shell of a box that was made for the store is freed.
pub fn assigned_value(
    v: Temp,
    store_ty: &Type,
    made_fresh_box: bool,
    b: &mut FuncBuilder,
) -> (r: Temp)
    ensures
        (final(b)@, r) == assigned_value_spec(v, store_ty, made_fresh_box, old(b)@),
        grown(old(b)@, final(b)@, 0),
        old(b)@.wf() && temp_ok(v, old(b)@.temp_types.len())
            ==> final(b)@.wf() && temp_ok(r, final(b)@.temp_types.len()),
{
    reveal(assigned_value_spec);
    if needs_owning(store_ty) {
        let result = own_for_read(v, store_ty, b);
        if made_fresh_box {
            b.emit(Instruction::FreeBoxShell { val: v });
        }
        return result;
    }
    v
}

/// What `lower_local_set` does to the state, where `l` lowers the expressions inside.
#[verifier::opaque]
pub open spec fn lower_local_set_spec(
    l: Lower,
    slot: usize,
    value: &TypedExpr,
    ty: &Type,
    s: St,
) -> (St, Temp) {
    let (s, val_temp) = low(l, value, s);
    match (s.b.cell_slot(slot), s.b.slot(slot)) {
        (Some(cell_ty), Some(cell)) => {
            let (s, v) = on(s, coerce_to_slot_type_spec(val_temp, &value.ty(), &cell_ty, s.b));
            let (s, stored) = on(s, own_for_store_spec(v, &cell_ty, s.b));
            let s = on_b(
                s,
                s.b.emit(Instruction::CellSet { cell, value: stored, ty: cell_ty.dup() }),
            );
            on(
                s,
                assigned_value_spec(
                    v,
                    &cell_ty,
                    box_shell_reclaim(
                        &value.ty(),
                        &cell_ty,
                        type_repr_differs(&value.ty(), &cell_ty),
                    ),
                    s.b,
                ),
            )
        },
        _ => match s.c.global_val(slot) {
            Some(gty) => {
                let (s, v) = on(s, coerce_to_slot_type_spec(val_temp, &value.ty(), &gty, s.b));
                let (s, stored) = on(s, own_for_store_spec(v, &gty, s.b));
                let s = on_b(
                    s,
                    s.b.emit(
                        Instruction::GlobalValSet {
                            slot,
                            value: stored,
                            ty: gty.dup(),
                            immutable: false,
                        },
                    ),
                );
                let s = on_b(s, s.b.set_slot(slot, v));
                on(
                    s,
                    assigned_value_spec(
                        v,
                        &gty,
                        box_shell_reclaim(&value.ty(), &gty, type_repr_differs(&value.ty(), &gty)),
                        s.b,
                    ),
                )
            },
            None => if needs_owning(ty) {
                let (s, stored) = on(s, coerce_and_own_store_spec(val_temp, &value.ty(), ty, s.b));
                let s = on_b(s, s.b.register_owned(stored, ty.dup()));
                let s = on_b(s, s.b.set_slot(slot, stored));
                (s, stored)
            } else {
                let (s, v) = on(s, coerce_to_slot_type_spec(val_temp, &value.ty(), ty, s.b));
                let s = on_b(s, s.b.set_slot(slot, v));
                (s, v)
            },
        },
    }
}

/// Lowers an assignment to a variable, which may live in a heap cell or be global.
pub fn lower_local_set(
    slot: usize,
    value: &TypedExpr,
    ty: &Type,
    b: &mut FuncBuilder,
    ctx: &mut LowerCtx,
) -> (r: Temp)
    ensures
        (st(final(b), final(ctx)), r) == lower_local_set_spec(
            lower_at(old(ctx).room.left()),
            slot,
            value,
            ty,
            st(old(b), old(ctx)),
        ),
        ran(*old(b), *old(ctx), *final(b), *final(ctx)),
        valid(st(old(b), old(ctx)))
            ==> valid(st(final(b), final(ctx))) && temp_ok(r, final(b)@.temp_types.len()),
    decreases old(ctx).room.left(), 1nat, 0nat,
{
    reveal(lower_local_set_spec);
    let val_temp = lower_expr(value, b, ctx);
    match (b.cell_slot(slot), b.slot(slot)) {
        (Some(cell_ty), Some(cell)) => {
            let v = coerce_to_slot_type(val_temp, &value.ty(), &cell_ty, b);
            let stored = own_for_store(v, &cell_ty, b);
            b.emit(Instruction::CellSet { cell, value: stored, ty: cell_ty.dup() });
            return assigned_value(
                v,
                &cell_ty,
                box_shell_reclaim(&value.ty(), &cell_ty, type_repr_differs(&value.ty(), &cell_ty)),
                b,
            );
        },
        _ => {},
    }
    match ctx.global_val(slot) {
        Some(gty) => {
            let v = coerce_to_slot_type(val_temp, &value.ty(), &gty, b);
            let stored = own_for_store(v, &gty, b);
            b.emit(
                Instruction::GlobalValSet { slot, value: stored, ty: gty.dup(), immutable: false },
            );
            b.set_slot(slot, v);
            return assigned_value(
                v,
                &gty,
                box_shell_reclaim(&value.ty(), &gty, type_repr_differs(&value.ty(), &gty)),
                b,
            );
        },
        None => {},
    }
    if needs_owning(ty) {
        let stored = coerce_and_own_store(val_temp, &value.ty(), ty, b);
        b.register_owned(stored, ty.dup());
        b.set_slot(slot, stored);
        return stored;
    }
    let v = coerce_to_slot_type(val_temp, &value.ty(), ty, b);
    b.set_slot(slot, v);
    v
}

/// The operator computes with numbers or bits.
pub open spec fn is_arithmetic_spec(op: BinOp) -> bool {
    matches!(
        op,
        BinOp::Add | BinOp::Sub | BinOp::Mul | BinOp::Div | BinOp::Mod | BinOp::BAnd | BinOp::BOr
            | BinOp::BXor | BinOp::Shl | BinOp::Shr,
    )
}

/// Whether the operator computes with numbers or bits.
#[verifier::when_used_as_spec(is_arithmetic_spec)]
pub fn is_arithmetic(op: BinOp) -> (r: bool)
    ensures
        r == is_arithmetic_spec(op),
{
    matches!(
        op,
        BinOp::Add | BinOp::Sub | BinOp::Mul | BinOp::Div | BinOp::Mod | BinOp::BAnd | BinOp::BOr
            | BinOp::BXor | BinOp::Shl | BinOp::Shr,
    )
}

/// The operands of a binary operation in the type in which it is done, and the boxes made
/// for them.
pub struct Operands {
    pub lhs: Temp,
    pub rhs: Temp,
    pub ty: Type,
    pub shells: List<Temp>,
}

/// An operand that was boxed, and the box where one was made.
pub struct BoxedOperand {
    pub temp: Temp,
    pub shells: List<Temp>,
}

/// What `box_operand` does to the function under construction.
#[verifier::opaque]
pub open spec fn box_operand_spec(t: Temp, ty: &Type, b: FState) -> (FState, BoxedOperand) {
    if matches!(ty, Type::TypeVar(_)) {
        (b, BoxedOperand { temp: t, shells: List::Nil })
    } else {
        let (b, boxed) = coerce_to_slot_type_spec(t, ty, &json(), b);
        (b, if boxed != t {
            BoxedOperand { temp: boxed, shells: one(boxed) }
        } else {
            BoxedOperand { temp: boxed, shells: List::Nil }
        })
    }
}

/// Boxes an operand unless it is dynamic.
pub fn box_operand(t: Temp, ty: &Type, b: &mut FuncBuilder) -> (r: BoxedOperand)
    ensures
        (final(b)@, r) == box_operand_spec(t, ty, old(b)@),
        grown(old(b)@, final(b)@, 0),
        old(b)@.wf() && temp_ok(t, old(b)@.temp_types.len())
            ==> final(b)@.wf() && boxed_operand_ok(&r, final(b)@.temp_types.len()),
{
    reveal(box_operand_spec);
    if matches!(ty, Type::TypeVar(_)) {
        return BoxedOperand { temp: t, shells: List::Nil };
    }
    let boxed = coerce_to_slot_type(t, ty, &json(), b);
    if boxed != t {
        BoxedOperand { temp: boxed, shells: one(boxed) }
    } else {
        BoxedOperand { temp: boxed, shells: List::Nil }
    }
}

/// The item of the first list, if there is one, in front of the second.
pub open spec fn join_shells_spec(first: &List<Temp>, rest: List<Temp>) -> List<Temp> {
    match first {
        List::Nil => rest,
        List::Cons(n) => prepend(n.head, rest),
    }
}

/// The two lists in a row, the first of which holds at most one item.
#[verifier::when_used_as_spec(join_shells_spec)]
pub fn join_shells(first: &List<Temp>, rest: List<Temp>) -> (r: List<Temp>)
    ensures
        r == join_shells_spec(first, rest),
        forall|n: nat| temps_ok(first, n) && temps_ok(&rest, n) ==> #[trigger] temps_ok(&r, n),
{
    match first {
        List::Nil => rest,
        List::Cons(n) => prepend(n.head, rest),
    }
}

/// The type in which an arithmetic operation is done.
pub open spec fn arithmetic_type_spec(left_ty: &Type, right_ty: &Type) -> Type {
    if is_union_ty(left_ty) && !is_union_ty(right_ty) {
        right_ty.dup()
    } else {
        left_ty.dup()
    }
}

/// The type in which an arithmetic operation on two types is done, neither being dynamic: the
/// left one unless it is a box and the right one is not.
#[verifier::when_used_as_spec(arithmetic_type_spec)]
pub fn arithmetic_type(left_ty: &Type, right_ty: &Type) -> (r: Type)
    ensures
        r == arithmetic_type_spec(left_ty, right_ty),
{
    if is_union_ty(left_ty) && !is_union_ty(right_ty) {
        right_ty.dup()
    } else {
        left_ty.dup()
    }
}

/// What `open_operand` does to the function under construction.
#[verifier::opaque]
pub open spec fn open_operand_spec(
    t: Temp,
    ty: &Type,
    operand_ty: &Type,
    b: FState,
) -> (FState, Temp) {
    if is_union_ty(ty) && !is_union_ty(operand_ty) {
        coerce_to_slot_type_spec(t, ty, operand_ty, b)
    } else {
        (b, t)
    }
}

/// Opens an operand that is a box where the operation is done on plain values.
pub fn open_operand(t: Temp, ty: &Type, operand_ty: &Type, b: &mut FuncBuilder) -> (r: Temp)
    ensures
        (final(b)@, r) == open_operand_spec(t, ty, operand_ty, old(b)@),
        grown(old(b)@, final(b)@, 0),
        old(b)@.wf() && temp_ok(t, old(b)@.temp_types.len())
            ==> final(b)@.wf() && temp_ok(r, final(b)@.temp_types.len()),
{
    reveal(open_operand_spec);
    if is_union_ty(ty) && !is_union_ty(operand_ty) {
        return coerce_to_slot_type(t, ty, operand_ty, b);
    }
    t
}

/// What `match_operands` does to the function under construction.
#[verifier::opaque]
pub open spec fn match_operands_spec(
    op: BinOp,
    lhs: Temp,
    rhs: Temp,
    left_ty: &Type,
    right_ty: &Type,
    b: FState,
) -> (FState, Operands) {
    if !is_arithmetic(op) {
        (b, Operands { lhs, rhs, ty: left_ty.dup(), shells: List::Nil })
    } else {
        if matches!(left_ty, Type::TypeVar(_)) || matches!(right_ty, Type::TypeVar(_)) {
            let (b, x) = box_operand_spec(lhs, left_ty, b);
            let (b, y) = box_operand_spec(rhs, right_ty, b);
            (
                b,
                Operands {
                    lhs: x.temp,
                    rhs: y.temp,
                    ty: json(),
                    shells: join_shells(&x.shells, y.shells),
                },
            )
        } else {
            let ty = arithmetic_type(left_ty, right_ty);
            let (b, x) = open_operand_spec(lhs, left_ty, &ty, b);
            let (b, y) = open_operand_spec(rhs, right_ty, &ty, b);
            (b, Operands { lhs: x, rhs: y, ty, shells: List::Nil })
        }
    }
}

/// Brings the operands of a binary operation to one type. Where one is dynamic, the other is
/// boxed; where one is a box, it is opened.
pub fn match_operands(
    op: BinOp,
    lhs: Temp,
    rhs: Temp,
    left_ty: &Type,
    right_ty: &Type,
    b: &mut FuncBuilder,
) -> (r: Operands)
    ensures
        (final(b)@, r) == match_operands_spec(op, lhs, rhs, left_ty, right_ty, old(b)@),
        grown(old(b)@, final(b)@, 0),
        old(b)@.wf()
            && temp_ok(lhs, old(b)@.temp_types.len())
            && temp_ok(rhs, old(b)@.temp_types.len())
            ==> final(b)@.wf() && operands_ok(&r, final(b)@.temp_types.len()),
{
    reveal(match_operands_spec);
    if !is_arithmetic(op) {
        return Operands { lhs, rhs, ty: left_ty.dup(), shells: List::Nil };
    }
    if matches!(left_ty, Type::TypeVar(_)) || matches!(right_ty, Type::TypeVar(_)) {
        let x = box_operand(lhs, left_ty, b);
        let y = box_operand(rhs, right_ty, b);
        return Operands {
            lhs: x.temp,
            rhs: y.temp,
            ty: json(),
            shells: join_shells(&x.shells, y.shells),
        };
    }
    let ty = arithmetic_type(left_ty, right_ty);
    let x = open_operand(lhs, left_ty, &ty, b);
    let y = open_operand(rhs, right_ty, &ty, b);
    Operands { lhs: x, rhs: y, ty, shells: List::Nil }
}

/// What `lower_binary` does to the state, where `l` lowers the expressions inside.
#[verifier::opaque]
pub open spec fn lower_binary_spec(
    l: Lower,
    left: &TypedExpr,
    op: BinOp,
    right: &TypedExpr,
    result_type: &Type,
    s: St,
) -> (St, Temp) {
    if op == BinOp::And || op == BinOp::Or {
        lower_short_circuit_spec(l, left, op, right, result_type, s)
    } else {
        let (s, lhs) = low(l, left, s);
        let (s, rhs) = low(l, right, s);
        let (s, operands) = on(s, match_operands_spec(op, lhs, rhs, &left.ty(), &right.ty(), s.b));
        let (s, dst) = on(s, s.b.binary(op, operands.lhs, operands.rhs, &operands.ty, result_type));
        let s = on_b(s, free_box_shells_spec(&operands.shells, s.b));
        let s = if is_union_ty(result_type) {
            on_b(s, s.b.register_owned(dst, result_type.dup()))
        } else {
            s
        };
        (s, dst)
    }
}

/// Lowers a binary operation. `and` and `or` run the right operand only where it is needed.
pub fn lower_binary(
    left: &TypedExpr,
    op: BinOp,
    right: &TypedExpr,
    result_type: &Type,
    b: &mut FuncBuilder,
    ctx: &mut LowerCtx,
) -> (r: Temp)
    ensures
        (st(final(b), final(ctx)), r) == lower_binary_spec(
            lower_at(old(ctx).room.left()),
            left,
            op,
            right,
            result_type,
            st(old(b), old(ctx)),
        ),
        ran(*old(b), *old(ctx), *final(b), *final(ctx)),
        valid(st(old(b), old(ctx)))
            ==> valid(st(final(b), final(ctx))) && temp_ok(r, final(b)@.temp_types.len()),
    decreases old(ctx).room.left(), 4nat, 0nat,
{
    reveal(lower_binary_spec);
    if op == BinOp::And || op == BinOp::Or {
        return lower_short_circuit(left, op, right, result_type, b, ctx);
    }
    let lhs = lower_expr(left, b, ctx);
    let rhs = lower_expr(right, b, ctx);
    let operands = match_operands(op, lhs, rhs, &left.ty(), &right.ty(), b);
    let dst = b.binary(op, operands.lhs, operands.rhs, &operands.ty, result_type);
    free_box_shells(&operands.shells, b);
    if is_union_ty(result_type) {
        b.register_owned(dst, result_type.dup());
    }
    dst
}

/// What `lower_unary` does to the state, where `l` lowers the expressions inside.
#[verifier::opaque]
pub open spec fn lower_unary_spec(
    l: Lower,
    op: UnaryOp,
    operand: &TypedExpr,
    result_type: &Type,
    s: St,
) -> (St, Temp) {
    let (s, src) = if op == UnaryOp::Not && !matches!(operand.ty(), Type::Bool) {
        lower_cond_as_bool_spec(l, operand, s)
    } else {
        low(l, operand, s)
    };
    let (s, dst) = on(s, s.b.alloc_temp(result_type.dup()));
    let s = on_b(
        s,
        s.b.emit(
            Instruction::Unary { dst, op: IrUnaryOp::Not, operand: src, ty: result_type.dup() },
        ),
    );
    (s, dst)
}

/// Lowers a unary operation. The operand of a logical negation becomes a truth value first.
pub fn lower_unary(
    op: UnaryOp,
    operand: &TypedExpr,
    result_type: &Type,
    b: &mut FuncBuilder,
    ctx: &mut LowerCtx,
) -> (r: Temp)
    ensures
        (st(final(b), final(ctx)), r) == lower_unary_spec(
            lower_at(old(ctx).room.left()),
            op,
            operand,
            result_type,
            st(old(b), old(ctx)),
        ),
        ran(*old(b), *old(ctx), *final(b), *final(ctx)),
        valid(st(old(b), old(ctx)))
            ==> valid(st(final(b), final(ctx))) && temp_ok(r, final(b)@.temp_types.len()),
    decreases old(ctx).room.left(), 2nat, 0nat,
{
    reveal(lower_unary_spec);
    let src = if op == UnaryOp::Not && !matches!(operand.ty(), Type::Bool) {
        lower_cond_as_bool(operand, b, ctx)
    } else {
        lower_expr(operand, b, ctx)
    };
    let dst = b.alloc_temp(result_type.dup());
    b.emit(Instruction::Unary { dst, op: IrUnaryOp::Not, operand: src, ty: result_type.dup() });
    dst
}

/// A conversion makes a value that the scope has to own.
pub open spec fn coerce_makes_owned_spec(from: &Type, to: &Type) -> bool {
    is_sealed_scalar_repr(to)
        || (
            (
                is_sealed_scalar_array(from)
                    || is_sealed_scalar_array(to)
                    || nested_sealed_repr_change(from, to)
            )
                && needs_owning(to)
        )
}

/// Whether a conversion makes a value that the scope has to own.
#[verifier::when_used_as_spec(coerce_makes_owned_spec)]
pub fn coerce_makes_owned(from: &Type, to: &Type) -> (r: bool)
    ensures
        r == coerce_makes_owned_spec(from, to),
{
    is_sealed_scalar_repr(to)
        || (
            (
                is_sealed_scalar_array(from)
                    || is_sealed_scalar_array(to)
                    || nested_sealed_repr_change(from, to)
            )
                && needs_owning(to)
        )
}

/// What `lower_coerce` does to the state, where `l` lowers the expressions inside.
#[verifier::opaque]
pub open spec fn lower_coerce_spec(
    l: Lower,
    expr: &TypedExpr,
    from: &Type,
    to: &Type,
    s: St,
) -> (St, Temp) {
    let (s, lit) = try_lower_sealed_literal_spec(l, expr, to, s);
    match lit {
        Some(t) => (s, t),
        None => {
            let (s, src) = low(l, expr, s);
            let (s, dst) = on(s, s.b.coerce(src, from, to));
            let s = if coerce_makes_owned(from, to) {
                on_b(s, s.b.register_owned(dst, to.dup()))
            } else {
                s
            };
            (s, dst)
        },
    }
}

/// Lowers a conversion. A record literal becomes a packed record straight away.
pub fn lower_coerce(
    expr: &TypedExpr,
    from: &Type,
    to: &Type,
    b: &mut FuncBuilder,
    ctx: &mut LowerCtx,
) -> (r: Temp)
    ensures
        (st(final(b), final(ctx)), r) == lower_coerce_spec(
            lower_at(old(ctx).room.left()),
            expr,
            from,
            to,
            st(old(b), old(ctx)),
        ),
        ran(*old(b), *old(ctx), *final(b), *final(ctx)),
        valid(st(old(b), old(ctx)))
            ==> valid(st(final(b), final(ctx))) && temp_ok(r, final(b)@.temp_types.len()),
    decreases old(ctx).room.left(), 3nat, 0nat,
{
    reveal(lower_coerce_spec);
    let lit = try_lower_sealed_literal(expr, to, b, ctx);
    match lit {
        Some(t) => {
            return t;
        },
        None => {},
    }
    let src = lower_expr(expr, b, ctx);
    let dst = b.coerce(src, from, to);
    if coerce_makes_owned(from, to) {
        b.register_owned(dst, to.dup());
    }
    dst
}

/// What `lower_from_json` does to the state, where `l` lowers the expressions inside.
#[verifier::opaque]
pub open spec fn lower_from_json_spec(
    l: Lower,
    target: &Type,
    value: &TypedExpr,
    result_type: &Type,
    named_defs: &List<NamedDef>,
    s: St,
) -> (St, Temp) {
    let (s, value_temp) = low(l, value, s);
    let (s, boxed) = on(s, box_to_json_spec(value_temp, &value.ty(), s.b));
    let (s, dst) = on(
        s,
        s.b.call_intrinsic(
            Intrinsic::FromJson { target: target.dup(), named_defs: named_defs.dup() },
            one(boxed),
            result_type,
        ),
    );
    let s = on_b(s, s.b.register_owned(dst, result_type.dup()));
    (s, dst)
}

/// Lowers a check of a dynamic value against a type.
pub fn lower_from_json(
    target: &Type,
    value: &TypedExpr,
    result_type: &Type,
    named_defs: &List<NamedDef>,
    b: &mut FuncBuilder,
    ctx: &mut LowerCtx,
) -> (r: Temp)
    ensures
        (st(final(b), final(ctx)), r) == lower_from_json_spec(
            lower_at(old(ctx).room.left()),
            target,
            value,
            result_type,
            named_defs,
            st(old(b), old(ctx)),
        ),
        ran(*old(b), *old(ctx), *final(b), *final(ctx)),
        valid(st(old(b), old(ctx)))
            ==> valid(st(final(b), final(ctx))) && temp_ok(r, final(b)@.temp_types.len()),
    decreases old(ctx).room.left(), 1nat, 0nat,
{
    reveal(lower_from_json_spec);
    let value_temp = lower_expr(value, b, ctx);
    let boxed = box_to_json(value_temp, &value.ty(), b);
    let dst = b.call_intrinsic(
        Intrinsic::FromJson { target: target.dup(), named_defs: named_defs.dup() },
        one(boxed),
        result_type,
    );
    b.register_owned(dst, result_type.dup());
    dst
}

/// What `open_record` does to the function under construction.
#[verifier::opaque]
pub open spec fn open_record_spec(t: Temp, ty: &Type, b: FState) -> (FState, Temp) {
    match sealed_fields(ty) {
        Some(fields) => {
            let to = Type::object(fields);
            let (b, dst) = b.coerce(t, ty, &to);
            let b = b.register_owned(dst, to.dup());
            (b, dst)
        },
        None => (b, t),
    }
}

/// Turns a packed record into an open one, which the scope owns; leaves another value alone.
pub fn open_record(t: Temp, ty: &Type, b: &mut FuncBuilder) -> (r: Temp)
    ensures
        (final(b)@, r) == open_record_spec(t, ty, old(b)@),
        grown(old(b)@, final(b)@, 0),
        old(b)@.wf() && temp_ok(t, old(b)@.temp_types.len())
            ==> final(b)@.wf() && temp_ok(r, final(b)@.temp_types.len()),
{
    reveal(open_record_spec);
    match sealed_fields(ty) {
        Some(fields) => {
            let to = Type::object(fields);
            let dst = b.coerce(t, ty, &to);
            b.register_owned(dst, to.dup());
            dst
        },
        None => t,
    }
}

/// What `lower_open_fields` does to the state, where `l` lowers the expressions inside.
#[verifier::opaque]
pub open spec fn lower_open_fields_spec(
    l: Lower,
    fields: &List<FieldInit>,
    s: St,
) -> (St, List<NamedTemp>)
    decreases fields,
{
    match fields {
        List::Nil => (s, List::Nil),
        List::Cons(n) => {
            let (s, t) = low(l, &n.head.value, s);
            let (s, temp) = on(s, open_record_spec(t, &n.head.value.ty(), s.b));
            let (s, rest) = lower_open_fields_spec(l, &n.tail, s);
            (s, prepend(NamedTemp { name: dup_str(&n.head.name), temp }, rest))
        },
    }
}

/// Lowers the fields of an open record literal in order.
pub fn lower_open_fields(
    fields: &List<FieldInit>,
    b: &mut FuncBuilder,
    ctx: &mut LowerCtx,
) -> (r: List<NamedTemp>)
    ensures
        (st(final(b), final(ctx)), r) == lower_open_fields_spec(
            lower_at(old(ctx).room.left()),
            fields,
            st(old(b), old(ctx)),
        ),
        ran(*old(b), *old(ctx), *final(b), *final(ctx)),
        valid(st(old(b), old(ctx)))
            ==> valid(st(final(b), final(ctx))) && named_ok(&r, final(b)@.temp_types.len()),
    decreases old(ctx).room.left(), 1nat, fields.len(),
{
    reveal(lower_open_fields_spec);
    match fields {
        List::Nil => List::Nil,
        List::Cons(n) => {
            let t = lower_expr(&n.head.value, b, ctx);
            let temp = open_record(t, &n.head.value.ty(), b);
            let rest = lower_open_fields(&n.tail, b, ctx);
            prepend(NamedTemp { name: dup_str(&n.head.name), temp }, rest)
        },
    }
}

/// What `lower_spreads` does to the state, where `l` lowers the expressions inside.
#[verifier::opaque]
pub open spec fn lower_spreads_spec(l: Lower, spreads: &List<TypedExpr>, s: St) -> (St, List<Temp>)
    decreases spreads,
{
    match spreads {
        List::Nil => (s, List::Nil),
        List::Cons(n) => {
            let (s, t) = low(l, &n.head, s);
            let (s, temp) = on(s, open_record_spec(t, &n.head.ty(), s.b));
            let (s, rest) = lower_spreads_spec(l, &n.tail, s);
            (s, prepend(temp, rest))
        },
    }
}

/// Lowers the records that a literal spreads, in order.
pub fn lower_spreads(
    spreads: &List<TypedExpr>,
    b: &mut FuncBuilder,
    ctx: &mut LowerCtx,
) -> (r: List<Temp>)
    ensures
        (st(final(b), final(ctx)), r) == lower_spreads_spec(
            lower_at(old(ctx).room.left()),
            spreads,
            st(old(b), old(ctx)),
        ),
        ran(*old(b), *old(ctx), *final(b), *final(ctx)),
        valid(st(old(b), old(ctx)))
            ==> valid(st(final(b), final(ctx))) && temps_ok(&r, final(b)@.temp_types.len()),
    decreases old(ctx).room.left(), 1nat, spreads.len(),
{
    reveal(lower_spreads_spec);
    match spreads {
        List::Nil => List::Nil,
        List::Cons(n) => {
            let t = lower_expr(&n.head, b, ctx);
            let temp = open_record(t, &n.head.ty(), b);
            let rest = lower_spreads(&n.tail, b, ctx);
            prepend(temp, rest)
        },
    }
}

/// What `lower_computed` does to the state, where `l` lowers the expressions inside.
#[verifier::opaque]
pub open spec fn lower_computed_spec(
    l: Lower,
    fields: &List<ComputedField>,
    s: St,
) -> (St, List<KeyedTemp>)
    decreases fields,
{
    match fields {
        List::Nil => (s, List::Nil),
        List::Cons(n) => {
            let (s, key) = low(l, &n.head.key, s);
            let (s, value) = low(l, &n.head.value, s);
            let (s, rest) = lower_computed_spec(l, &n.tail, s);
            (s, prepend(KeyedTemp { key, value }, rest))
        },
    }
}

/// Lowers the computed fields of a literal in order, each name before its value.
pub fn lower_computed(
    fields: &List<ComputedField>,
    b: &mut FuncBuilder,
    ctx: &mut LowerCtx,
) -> (r: List<KeyedTemp>)
    ensures
        (st(final(b), final(ctx)), r) == lower_computed_spec(
            lower_at(old(ctx).room.left()),
            fields,
            st(old(b), old(ctx)),
        ),
        ran(*old(b), *old(ctx), *final(b), *final(ctx)),
        valid(st(old(b), old(ctx)))
            ==> valid(st(final(b), final(ctx))) && keyed_ok(&r, final(b)@.temp_types.len()),
    decreases old(ctx).room.left(), 1nat, fields.len(),
{
    reveal(lower_computed_spec);
    match fields {
        List::Nil => List::Nil,
        List::Cons(n) => {
            let key = lower_expr(&n.head.key, b, ctx);
            let value = lower_expr(&n.head.value, b, ctx);
            let rest = lower_computed(&n.tail, b, ctx);
            prepend(KeyedTemp { key, value }, rest)
        },
    }
}

/// What `lower_make_object` does to the state, where `l` lowers the expressions inside.
#[verifier::opaque]
pub open spec fn lower_make_object_spec(
    l: Lower,
    fields: &List<FieldInit>,
    spreads: &List<TypedExpr>,
    computed: &List<ComputedField>,
    ty: &Type,
    s: St,
) -> (St, Temp) {
    let (s, lowered_fields) = lower_open_fields_spec(l, fields, s);
    let (s, lowered_spreads) = lower_spreads_spec(l, spreads, s);
    let (s, lowered_computed) = lower_computed_spec(l, computed, s);
    let (s, dst) = on(s, s.b.alloc_temp(ty.dup()));
    let s = on_b(
        s,
        s.b.emit(
            Instruction::MakeObject {
                dst,
                fields: lowered_fields,
                spreads: lowered_spreads,
                computed_fields: lowered_computed,
                ty: ty.dup(),
                stack: false,
            },
        ),
    );
    let s = on_b(s, s.b.register_owned(dst, ty.dup()));
    (s, dst)
}

/// Lowers a record literal.
pub fn lower_make_object(
    fields: &List<FieldInit>,
    spreads: &List<TypedExpr>,
    computed: &List<ComputedField>,
    ty: &Type,
    b: &mut FuncBuilder,
    ctx: &mut LowerCtx,
) -> (r: Temp)
    ensures
        (st(final(b), final(ctx)), r) == lower_make_object_spec(
            lower_at(old(ctx).room.left()),
            fields,
            spreads,
            computed,
            ty,
            st(old(b), old(ctx)),
        ),
        ran(*old(b), *old(ctx), *final(b), *final(ctx)),
        valid(st(old(b), old(ctx)))
            ==> valid(st(final(b), final(ctx))) && temp_ok(r, final(b)@.temp_types.len()),
    decreases old(ctx).room.left(), 2nat, 0nat,
{
    reveal(lower_make_object_spec);
    let lowered_fields = lower_open_fields(fields, b, ctx);
    let lowered_spreads = lower_spreads(spreads, b, ctx);
    let lowered_computed = lower_computed(computed, b, ctx);
    let dst = b.alloc_temp(ty.dup());
    b.emit(
        Instruction::MakeObject {
            dst,
            fields: lowered_fields,
            spreads: lowered_spreads,
            computed_fields: lowered_computed,
            ty: ty.dup(),
            stack: false,
        },
    );
    b.register_owned(dst, ty.dup());
    dst
}

/// The type in which the elements of an array literal are stored.
pub open spec fn array_literal_elem_type_spec(ty: &Type) -> Type {
    match ty {
        Type::Array(inner) => if is_sealed_scalar_array(ty) {
            inner.dup()
        } else {
            match sealed_fields(inner) {
                Some(fields) => Type::object(fields),
                None => if sum_type_eligible(inner) {
                    json()
                } else {
                    inner.dup()
                },
            }
        },
        Type::FixedArray(_) => json(),
        _ => Type::Null,
    }
}

/// The type in which the elements of an array literal are stored: packed records in a packed
/// array, open records where packed ones would not be, boxes for nodes of sum types.
#[verifier::when_used_as_spec(array_literal_elem_type_spec)]
pub fn array_literal_elem_type(ty: &Type) -> (r: Type)
    ensures
        r == array_literal_elem_type_spec(ty),
{
    match ty {
        Type::Array(inner) => if is_sealed_scalar_array(ty) {
            inner.dup()
        } else {
            match sealed_fields(inner) {
                Some(fields) => Type::object(fields),
                None => if sum_type_eligible(inner) {
                    json()
                } else {
                    inner.dup()
                },
            }
        },
        Type::FixedArray(_) => json(),
        _ => Type::Null,
    }
}

/// The elements of an array literal, and the boxes made for them.
pub struct ArrayElems {
    pub temps: List<Temp>,
    pub shells: List<Temp>,
}

/// What `store_element` does to the function under construction.
#[verifier::opaque]
pub open spec fn store_element_spec(
    t0: Temp,
    e: &TypedExpr,
    elem_ty: &Type,
    b: FState,
) -> (FState, BoxedOperand) {
    let projects = anon_object_slot_repr_differs(&e.ty(), elem_ty);
    let (b, t) = if projects {
        b.coerce(t0, &e.ty(), elem_ty)
    } else {
        (b, t0)
    };
    let ety = if projects {
        elem_ty.dup()
    } else {
        e.ty()
    };
    let materializes = is_sealed_scalar_repr(&ety) && !is_sealed_scalar_repr(elem_ty);
    let b = if !materializes && !projects {
        b.transfer_into_container(t, e, true)
    } else {
        b
    };
    let (b, boxed) = coerce_to_slot_type_spec(t, &ety, elem_ty, b);
    (b, if is_union_ty(elem_ty) && !is_union_ty(&ety) && boxed != t {
        BoxedOperand { temp: boxed, shells: one(boxed) }
    } else {
        BoxedOperand { temp: boxed, shells: List::Nil }
    })
}

/// Converts an element of an array literal that is not packed, and lets the array take over
/// its reference.
pub fn store_element(
    t0: Temp,
    e: &TypedExpr,
    elem_ty: &Type,
    b: &mut FuncBuilder,
) -> (r: BoxedOperand)
    ensures
        (final(b)@, r) == store_element_spec(t0, e, elem_ty, old(b)@),
        grown(old(b)@, final(b)@, 0),
        old(b)@.wf() && temp_ok(t0, old(b)@.temp_types.len())
            ==> final(b)@.wf() && boxed_operand_ok(&r, final(b)@.temp_types.len()),
{
    reveal(store_element_spec);
    let projects = anon_object_slot_repr_differs(&e.ty(), elem_ty);
    let t = if projects {
        b.coerce(t0, &e.ty(), elem_ty)
    } else {
        t0
    };
    let ety = if projects {
        elem_ty.dup()
    } else {
        e.ty()
    };
    let materializes = is_sealed_scalar_repr(&ety) && !is_sealed_scalar_repr(elem_ty);
    if !materializes && !projects {
        b.transfer_into_container(t, e, true);
    }
    let boxed = coerce_to_slot_type(t, &ety, elem_ty, b);
    if is_union_ty(elem_ty) && !is_union_ty(&ety) && boxed != t {
        BoxedOperand { temp: boxed, shells: one(boxed) }
    } else {
        BoxedOperand { temp: boxed, shells: List::Nil }
    }
}

/// What `lower_elements` does to the state, where `l` lowers the expressions inside.
#[verifier::opaque]
pub open spec fn lower_elements_spec(
    l: Lower,
    elements: &List<TypedExpr>,
    elem_ty: &Type,
    sealed_arr: bool,
    s: St,
) -> (St, ArrayElems)
    decreases elements,
{
    match elements {
        List::Nil => (s, ArrayElems { temps: List::Nil, shells: List::Nil }),
        List::Cons(n) => {
            let (s, elem) = if sealed_arr {
                let (s, t) = lower_value_into_slot_spec(l, &n.head, elem_ty, s);
                (s, BoxedOperand { temp: t, shells: List::Nil })
            } else {
                let (s, t) = low(l, &n.head, s);
                on(s, store_element_spec(t, &n.head, elem_ty, s.b))
            };
            let (s, rest) = lower_elements_spec(l, &n.tail, elem_ty, sealed_arr, s);
            (
                s,
                ArrayElems {
                    temps: prepend(elem.temp, rest.temps),
                    shells: join_shells(&elem.shells, rest.shells),
                },
            )
        },
    }
}

/// Lowers the elements of an array literal in order.
pub fn lower_elements(
    elements: &List<TypedExpr>,
    elem_ty: &Type,
    sealed_arr: bool,
    b: &mut FuncBuilder,
    ctx: &mut LowerCtx,
) -> (r: ArrayElems)
    ensures
        (st(final(b), final(ctx)), r) == lower_elements_spec(
            lower_at(old(ctx).room.left()),
            elements,
            elem_ty,
            sealed_arr,
            st(old(b), old(ctx)),
        ),
        ran(*old(b), *old(ctx), *final(b), *final(ctx)),
        valid(st(old(b), old(ctx)))
            ==> valid(st(final(b), final(ctx))) && array_elems_ok(&r, final(b)@.temp_types.len()),
    decreases old(ctx).room.left(), 6nat, elements.len(),
{
    reveal(lower_elements_spec);
    match elements {
        List::Nil => ArrayElems { temps: List::Nil, shells: List::Nil },
        List::Cons(n) => {
            let elem = if sealed_arr {
                let t = lower_value_into_slot(&n.head, elem_ty, b, ctx);
                BoxedOperand { temp: t, shells: List::Nil }
            } else {
                let t = lower_expr(&n.head, b, ctx);
                store_element(t, &n.head, elem_ty, b)
            };
            let rest = lower_elements(&n.tail, elem_ty, sealed_arr, b, ctx);
            ArrayElems {
                temps: prepend(elem.temp, rest.temps),
                shells: join_shells(&elem.shells, rest.shells),
            }
        },
    }
}

/// What `lower_make_array` does to the state, where `l` lowers the expressions inside.
#[verifier::opaque]
pub open spec fn lower_make_array_spec(
    l: Lower,
    elements: &List<TypedExpr>,
    ty: &Type,
    s: St,
) -> (St, Temp) {
    let elem_ty = array_literal_elem_type(ty);
    let (s, elems) = lower_elements_spec(l, elements, &elem_ty, is_sealed_scalar_array(ty), s);
    let (s, dst) = on(s, s.b.alloc_temp(ty.dup()));
    let s = on_b(
        s,
        s.b.emit(
            Instruction::MakeArray {
                dst,
                elements: elems.temps,
                elem_ty,
                inline: false,
                columnar: false,
            },
        ),
    );
    let s = on_b(s, free_box_shells_spec(&elems.shells, s.b));
    let s = on_b(s, s.b.register_owned(dst, ty.dup()));
    (s, dst)
}

/// Lowers an array literal. The shells of the boxes made for its elements are freed.
pub fn lower_make_array(
    elements: &List<TypedExpr>,
    ty: &Type,
    b: &mut FuncBuilder,
    ctx: &mut LowerCtx,
) -> (r: Temp)
    ensures
        (st(final(b), final(ctx)), r) == lower_make_array_spec(
            lower_at(old(ctx).room.left()),
            elements,
            ty,
            st(old(b), old(ctx)),
        ),
        ran(*old(b), *old(ctx), *final(b), *final(ctx)),
        valid(st(old(b), old(ctx)))
            ==> valid(st(final(b), final(ctx))) && temp_ok(r, final(b)@.temp_types.len()),
    decreases old(ctx).room.left(), 7nat, 0nat,
{
    reveal(lower_make_array_spec);
    let elem_ty = array_literal_elem_type(ty);
    let elems = lower_elements(elements, &elem_ty, is_sealed_scalar_array(ty), b, ctx);
    let dst = b.alloc_temp(ty.dup());
    b.emit(
        Instruction::MakeArray {
            dst,
            elements: elems.temps,
            elem_ty,
            inline: false,
            columnar: false,
        },
    );
    free_box_shells(&elems.shells, b);
    b.register_owned(dst, ty.dup());
    dst
}

/// A field of a node of a sum type is read straight off the node.
pub open spec fn reads_node_field_spec(obj_ty: &Type, recursive: bool) -> bool {
    recursive || matches!(obj_ty, Type::Object { .. })
}

/// Whether a field of a node of a sum type is read straight off the node: one that holds a
/// node of the same type, or of a variant that is known, a plain or a counted one.
#[verifier::when_used_as_spec(reads_node_field_spec)]
pub fn reads_node_field(obj_ty: &Type, recursive: bool) -> (r: bool)
    ensures
        r == reads_node_field_spec(obj_ty, recursive),
{
    recursive || matches!(obj_ty, Type::Object { .. })
}

/// The type of a field through which a sum type contains itself.
#[verifier::inline]
pub open spec fn recursive_field_type_spec(obj_ty: &Type, name: &String) -> Option<Type> {
    sum_recursive_child_field_ty_spec(obj_ty, name@)
}

/// The type of a field through which a sum type contains itself.
#[verifier::when_used_as_spec(recursive_field_type_spec)]
pub fn recursive_field_type(obj_ty: &Type, name: &String) -> (r: Option<Type>)
    ensures
        r == sum_recursive_child_field_ty_spec(obj_ty, name@),
{
    sum_recursive_child_field_ty(obj_ty, name)
}

/// What `read_node_field` does to the function under construction.
#[verifier::opaque]
pub open spec fn read_node_field_spec(
    node: &SumScrutinee,
    name: &String,
    obj_ty: &Type,
    result_type: &Type,
    b: FState,
) -> (FState, Temp) {
    match recursive_field_type(obj_ty, name) {
        Some(child_ty) => {
            let (b, dst) = b.alloc_temp(child_ty.dup());
            let b = b.emit(
                Instruction::FieldGet {
                    dst,
                    object: node.temp,
                    field: dup_str(name),
                    obj_ty: node.sum_ty.dup(),
                    result_ty: child_ty.dup(),
                },
            );
            (b, dst)
        },
        None => {
            let (b, dst) = b.alloc_temp(result_type.dup());
            let b = b.emit(
                Instruction::FieldGet {
                    dst,
                    object: node.temp,
                    field: dup_str(name),
                    obj_ty: obj_ty.dup(),
                    result_ty: result_type.dup(),
                },
            );
            let b = if is_rc_type(result_type) {
                let b = b.emit(Instruction::Retain { val: dst, ty: result_type.dup() });
                b.register_owned(dst, result_type.dup())
            } else {
                b
            };
            (b, dst)
        },
    }
}

/// Reads a field of a node of a sum type off the node itself. A field that holds a node of
/// the same type is borrowed; a counted one gets a reference of its own.
pub fn read_node_field(
    node: &SumScrutinee,
    name: &String,
    obj_ty: &Type,
    result_type: &Type,
    b: &mut FuncBuilder,
) -> (r: Temp)
    ensures
        (final(b)@, r) == read_node_field_spec(node, name, obj_ty, result_type, old(b)@),
        grown(old(b)@, final(b)@, 0),
        old(b)@.wf() && sum_scrutinee_ok(node, old(b)@.temp_types.len())
            ==> final(b)@.wf() && temp_ok(r, final(b)@.temp_types.len()),
{
    reveal(read_node_field_spec);
    match recursive_field_type(obj_ty, name) {
        Some(child_ty) => {
            let dst = b.alloc_temp(child_ty.dup());
            b.emit(
                Instruction::FieldGet {
                    dst,
                    object: node.temp,
                    field: dup_str(name),
                    obj_ty: node.sum_ty.dup(),
                    result_ty: child_ty.dup(),
                },
            );
            dst
        },
        None => {
            let dst = b.alloc_temp(result_type.dup());
            b.emit(
                Instruction::FieldGet {
                    dst,
                    object: node.temp,
                    field: dup_str(name),
                    obj_ty: obj_ty.dup(),
                    result_ty: result_type.dup(),
                },
            );
            if is_rc_type(result_type) {
                b.emit(Instruction::Retain { val: dst, ty: result_type.dup() });
                b.register_owned(dst, result_type.dup());
            }
            dst
        },
    }
}

/// What `try_lower_node_field` does to the state, where `l` lowers the expressions inside.
#[verifier::opaque]
pub open spec fn try_lower_node_field_spec(
    l: Lower,
    object: &TypedExpr,
    name: &String,
    result_type: &Type,
    s: St,
) -> (St, Option<Temp>) {
    let obj_ty = object.ty();
    match (
        reads_node_field(&obj_ty, recursive_field_type(&obj_ty, name).is_some()),
        lower_sum_scrutinee_raw_spec(object, s),
    ) {
        (true, Some(node)) => {
            let (s, t) = on(s, read_node_field_spec(&node, name, &obj_ty, result_type, s.b));
            (s, Some(t))
        },
        _ => (s, None),
    }
}

/// Lowers a read of a field of fixed name off a node of a sum type. `None`, with nothing
/// emitted, where the object is no node or the field cannot be read off it.
pub fn try_lower_node_field(
    object: &TypedExpr,
    name: &String,
    result_type: &Type,
    b: &mut FuncBuilder,
    ctx: &mut LowerCtx,
) -> (r: Option<Temp>)
    ensures
        (st(final(b), final(ctx)), r) == try_lower_node_field_spec(
            lower_at(old(ctx).room.left()),
            object,
            name,
            result_type,
            st(old(b), old(ctx)),
        ),
        ran(*old(b), *old(ctx), *final(b), *final(ctx)),
        valid(st(old(b), old(ctx)))
            ==> valid(st(final(b), final(ctx))) && otemp_ok(r, final(b)@.temp_types.len()),
    decreases old(ctx).room.left(), 1nat, 0nat,
{
    reveal(try_lower_node_field_spec);
    let obj_ty = object.ty();
    match (
        reads_node_field(&obj_ty, recursive_field_type(&obj_ty, name).is_some()),
        lower_sum_scrutinee_raw(object, b, ctx),
    ) {
        (true, Some(node)) => {
            let t = read_node_field(&node, name, &obj_ty, result_type, b);
            Some(t)
        },
        _ => None,
    }
}

/// What `lower_sealed_field` does to the state, where `l` lowers the expressions inside.
#[verifier::opaque]
pub open spec fn lower_sealed_field_spec(
    l: Lower,
    object: &TypedExpr,
    name: &String,
    result_type: &Type,
    s: St,
) -> (St, Temp) {
    let obj_ty = object.ty();
    let (s, obj_temp) = low(l, object, s);
    if !has_field(&obj_ty, name) {
        on(s, s.b.const_temp(Const::Null))
    } else {
        let (s, dst) = on(s, s.b.alloc_temp(result_type.dup()));
        let s = on_b(
            s,
            s.b.emit(
                Instruction::FieldGet {
                    dst,
                    object: obj_temp,
                    field: dup_str(name),
                    obj_ty: obj_ty.dup(),
                    result_ty: result_type.dup(),
                },
            ),
        );
        let s = if is_rc_type(result_type) {
            let s = on_b(s, s.b.emit(Instruction::Retain { val: dst, ty: result_type.dup() }));
            on_b(s, s.b.register_owned(dst, result_type.dup()))
        } else {
            s
        };
        (s, dst)
    }
}

/// Lowers a read of a field of fixed name of a packed record. A field that the record does
/// not have is null; the record is lowered all the same.
pub fn lower_sealed_field(
    object: &TypedExpr,
    name: &String,
    result_type: &Type,
    b: &mut FuncBuilder,
    ctx: &mut LowerCtx,
) -> (r: Temp)
    ensures
        (st(final(b), final(ctx)), r) == lower_sealed_field_spec(
            lower_at(old(ctx).room.left()),
            object,
            name,
            result_type,
            st(old(b), old(ctx)),
        ),
        ran(*old(b), *old(ctx), *final(b), *final(ctx)),
        valid(st(old(b), old(ctx)))
            ==> valid(st(final(b), final(ctx))) && temp_ok(r, final(b)@.temp_types.len()),
    decreases old(ctx).room.left(), 1nat, 0nat,
{
    reveal(lower_sealed_field_spec);
    let obj_ty = object.ty();
    let obj_temp = lower_expr(object, b, ctx);
    if !has_field(&obj_ty, name) {
        return b.const_temp(Const::Null);
    }
    let dst = b.alloc_temp(result_type.dup());
    b.emit(
        Instruction::FieldGet {
            dst,
            object: obj_temp,
            field: dup_str(name),
            obj_ty: obj_ty.dup(),
            result_ty: result_type.dup(),
        },
    );
    if is_rc_type(result_type) {
        b.emit(Instruction::Retain { val: dst, ty: result_type.dup() });
        b.register_owned(dst, result_type.dup());
    }
    dst
}

/// What `own_element` does to the function under construction.
#[verifier::opaque]
pub open spec fn own_element_spec(
    dst: Temp,
    obj_ty: &Type,
    key_ty: &Type,
    result_type: &Type,
    b: FState,
) -> (FState, Temp) {
    let fresh = index_result_is_owned(obj_ty, key_ty);
    let projected = (is_sealed_scalar_repr(obj_ty) && is_union_ty(result_type))
        || sum_type_eligible(result_type);
    if projected || (fresh && (is_union_ty(result_type) || is_sealed_scalar_repr(result_type))) {
        let b = b.register_owned(dst, result_type.dup());
        (b, dst)
    } else {
        own_for_read_spec(dst, result_type, b)
    }
}

/// Gives an element that was read a reference of its own, unless the read gave it one.
pub fn own_element(
    dst: Temp,
    obj_ty: &Type,
    key_ty: &Type,
    result_type: &Type,
    b: &mut FuncBuilder,
) -> (r: Temp)
    ensures
        (final(b)@, r) == own_element_spec(dst, obj_ty, key_ty, result_type, old(b)@),
        grown(old(b)@, final(b)@, 0),
        old(b)@.wf() && temp_ok(dst, old(b)@.temp_types.len())
            ==> final(b)@.wf() && temp_ok(r, final(b)@.temp_types.len()),
{
    reveal(own_element_spec);
    let fresh = index_result_is_owned(obj_ty, key_ty);
    let projected = (is_sealed_scalar_repr(obj_ty) && is_union_ty(result_type))
        || sum_type_eligible(result_type);
    if projected || (fresh && (is_union_ty(result_type) || is_sealed_scalar_repr(result_type))) {
        b.register_owned(dst, result_type.dup());
        return dst;
    }
    own_for_read(dst, result_type, b)
}

/// What `lower_element_read` does to the state, where `l` lowers the expressions inside.
#[verifier::opaque]
pub open spec fn lower_element_read_spec(
    l: Lower,
    object: &TypedExpr,
    key: &TypedExpr,
    result_type: &Type,
    s: St,
) -> (St, Temp) {
    let (s, place) = lower_place_spec(l, object, key, s);
    let nonneg = s.b.is_nonneg(place.key);
    let (s, dst) = on(
        s,
        s.b.index(place.object, place.key, &object.ty(), &key.ty(), result_type, nonneg),
    );
    on(s, own_element_spec(dst, &object.ty(), &key.ty(), result_type, s.b))
}

/// Lowers a read of an element, or of a field whose name is computed.
pub fn lower_element_read(
    object: &TypedExpr,
    key: &TypedExpr,
    result_type: &Type,
    b: &mut FuncBuilder,
    ctx: &mut LowerCtx,
) -> (r: Temp)
    ensures
        (st(final(b), final(ctx)), r) == lower_element_read_spec(
            lower_at(old(ctx).room.left()),
            object,
            key,
            result_type,
            st(old(b), old(ctx)),
        ),
        ran(*old(b), *old(ctx), *final(b), *final(ctx)),
        valid(st(old(b), old(ctx)))
            ==> valid(st(final(b), final(ctx))) && temp_ok(r, final(b)@.temp_types.len()),
    decreases old(ctx).room.left(), 4nat, 0nat,
{
    reveal(lower_element_read_spec);
    let place = lower_place(object, key, b, ctx);
    let nonneg = b.is_nonneg(place.key);
    let dst = b.index(place.object, place.key, &object.ty(), &key.ty(), result_type, nonneg);
    own_element(dst, &object.ty(), &key.ty(), result_type, b)
}

/// What `try_lower_fixed_field` does to the state, where `l` lowers the expressions inside.
#[verifier::opaque]
pub open spec fn try_lower_fixed_field_spec(
    l: Lower,
    object: &TypedExpr,
    name: &String,
    result_type: &Type,
    s: St,
) -> (St, Option<Temp>) {
    let (s, elem) = try_lower_elem_field_spec(l, object, name, result_type, s);
    match elem {
        Some(t) => (s, Some(t)),
        None => {
            let (s, node) = try_lower_node_field_spec(l, object, name, result_type, s);
            match node {
                Some(t) => (s, Some(t)),
                None => if is_sealed_scalar_repr(&object.ty()) {
                    let (s, t) = lower_sealed_field_spec(l, object, name, result_type, s);
                    (s, Some(t))
                } else {
                    (s, None)
                },
            }
        },
    }
}

/// Lowers a read of a field of fixed name without a general read, where one of the special
/// ways applies.
pub fn try_lower_fixed_field(
    object: &TypedExpr,
    name: &String,
    result_type: &Type,
    b: &mut FuncBuilder,
    ctx: &mut LowerCtx,
) -> (r: Option<Temp>)
    ensures
        (st(final(b), final(ctx)), r) == try_lower_fixed_field_spec(
            lower_at(old(ctx).room.left()),
            object,
            name,
            result_type,
            st(old(b), old(ctx)),
        ),
        ran(*old(b), *old(ctx), *final(b), *final(ctx)),
        valid(st(old(b), old(ctx)))
            ==> valid(st(final(b), final(ctx))) && otemp_ok(r, final(b)@.temp_types.len()),
    decreases old(ctx).room.left(), 6nat, 0nat,
{
    reveal(try_lower_fixed_field_spec);
    let elem = try_lower_elem_field(object, name, result_type, b, ctx);
    match elem {
        Some(t) => {
            return Some(t);
        },
        None => {},
    }
    let node = try_lower_node_field(object, name, result_type, b, ctx);
    match node {
        Some(t) => {
            return Some(t);
        },
        None => {},
    }
    if is_sealed_scalar_repr(&object.ty()) {
        let t = lower_sealed_field(object, name, result_type, b, ctx);
        return Some(t);
    }
    None
}

/// What `lower_index` does to the state, where `l` lowers the expressions inside.
#[verifier::opaque]
pub open spec fn lower_index_spec(
    l: Lower,
    object: &TypedExpr,
    key: &TypedExpr,
    result_type: &Type,
    s: St,
) -> (St, Temp) {
    let (s, fixed) = match literal_string(key) {
        Some(name) => try_lower_fixed_field_spec(l, object, &name, result_type, s),
        None => (s, None),
    };
    match fixed {
        Some(t) => (s, t),
        None => lower_element_read_spec(l, object, key, result_type, s),
    }
}

/// Lowers an index expression.
pub fn lower_index(
    object: &TypedExpr,
    key: &TypedExpr,
    result_type: &Type,
    b: &mut FuncBuilder,
    ctx: &mut LowerCtx,
) -> (r: Temp)
    ensures
        (st(final(b), final(ctx)), r) == lower_index_spec(
            lower_at(old(ctx).room.left()),
            object,
            key,
            result_type,
            st(old(b), old(ctx)),
        ),
        ran(*old(b), *old(ctx), *final(b), *final(ctx)),
        valid(st(old(b), old(ctx)))
            ==> valid(st(final(b), final(ctx))) && temp_ok(r, final(b)@.temp_types.len()),
    decreases old(ctx).room.left(), 7nat, 0nat,
{
    reveal(lower_index_spec);
    let fixed = match literal_string(key) {
        Some(name) => try_lower_fixed_field(object, &name, result_type, b, ctx),
        None => None,
    };
    match fixed {
        Some(t) => {
            return t;
        },
        None => {},
    }
    lower_element_read(object, key, result_type, b, ctx)
}

/// What `lower_field_get` does to the state, where `l` lowers the expressions inside.
#[verifier::opaque]
pub open spec fn lower_field_get_spec(
    l: Lower,
    object: &TypedExpr,
    field: &String,
    result_type: &Type,
    s: St,
) -> (St, Temp) {
    let (s, elem) = try_lower_elem_field_spec(l, object, field, result_type, s);
    match elem {
        Some(t) => (s, t),
        None => {
            let (s, obj_temp) = low(l, object, s);
            let (s, dst) = on(s, s.b.alloc_temp(result_type.dup()));
            let s = on_b(
                s,
                s.b.emit(
                    Instruction::FieldGet {
                        dst,
                        object: obj_temp,
                        field: dup_str(field),
                        obj_ty: object.ty(),
                        result_ty: result_type.dup(),
                    },
                ),
            );
            on(s, own_for_read_spec(dst, result_type, s.b))
        },
    }
}

/// Lowers a field access.
pub fn lower_field_get(
    object: &TypedExpr,
    field: &String,
    result_type: &Type,
    b: &mut FuncBuilder,
    ctx: &mut LowerCtx,
) -> (r: Temp)
    ensures
        (st(final(b), final(ctx)), r) == lower_field_get_spec(
            lower_at(old(ctx).room.left()),
            object,
            field,
            result_type,
            st(old(b), old(ctx)),
        ),
        ran(*old(b), *old(ctx), *final(b), *final(ctx)),
        valid(st(old(b), old(ctx)))
            ==> valid(st(final(b), final(ctx))) && temp_ok(r, final(b)@.temp_types.len()),
    decreases old(ctx).room.left(), 6nat, 0nat,
{
    reveal(lower_field_get_spec);
    let elem = try_lower_elem_field(object, field, result_type, b, ctx);
    match elem {
        Some(t) => {
            return t;
        },
        None => {},
    }
    let obj_temp = lower_expr(object, b, ctx);
    let dst = b.alloc_temp(result_type.dup());
    b.emit(
        Instruction::FieldGet {
            dst,
            object: obj_temp,
            field: dup_str(field),
            obj_ty: object.ty(),
            result_ty: result_type.dup(),
        },
    );
    own_for_read(dst, result_type, b)
}

/// The only dictionary type among the types, all others being null.
pub open spec fn only_dict_spec(members: &List<Type>, found: Option<Type>) -> Option<Type>
    decreases members,
{
    match members {
        List::Nil => found,
        List::Cons(n) => match (&n.head, found) {
            (Type::Null, f) => only_dict(&n.tail, f),
            (Type::Dict { .. }, None) => only_dict(&n.tail, Some(n.head.dup())),
            _ => None,
        },
    }
}

/// The only dictionary type among the types, all others being null; `found` is one that was
/// seen before.
#[verifier::when_used_as_spec(only_dict_spec)]
pub fn only_dict(members: &List<Type>, found: Option<Type>) -> (r: Option<Type>)
    ensures
        r == only_dict_spec(members, found),
    decreases members,
{
    match members {
        List::Nil => found,
        List::Cons(n) => match (&n.head, found) {
            (Type::Null, f) => only_dict(&n.tail, f),
            (Type::Dict { .. }, None) => only_dict(&n.tail, Some(n.head.dup())),
            _ => None,
        },
    }
}

/// The dictionary type that a type is, null apart.
pub open spec fn as_map_ty_spec(ty: &Type) -> Option<Type> {
    match ty {
        Type::Dict { .. } => Some(ty.dup()),
        Type::Union(members) => only_dict(members, None),
        _ => None,
    }
}

/// The dictionary type that a type is, null apart.
#[verifier::when_used_as_spec(as_map_ty_spec)]
pub fn as_map_ty(ty: &Type) -> (r: Option<Type>)
    ensures
        r == as_map_ty_spec(ty),
{
    match ty {
        Type::Dict { .. } => Some(ty.dup()),
        Type::Union(members) => only_dict(members, None),
        _ => None,
    }
}

/// The type of the dictionaries in a dictionary.
pub open spec fn vivifiable_level_map_ty_spec(parent_ty: &Type) -> Option<Type> {
    match as_map_ty(parent_ty) {
        Some(Type::Dict { value }) => if as_map_ty(&value).is_some() {
            Some(value.dup())
        } else {
            None
        },
        _ => None,
    }
}

/// The type of the dictionaries in a dictionary, where it holds dictionaries, null apart.
#[verifier::when_used_as_spec(vivifiable_level_map_ty_spec)]
pub fn vivifiable_level_map_ty(parent_ty: &Type) -> (r: Option<Type>)
    ensures
        r == vivifiable_level_map_ty_spec(parent_ty),
{
    match as_map_ty(parent_ty) {
        Some(Type::Dict { value }) => if as_map_ty(&value).is_some() {
            Some(value.dup())
        } else {
            None
        },
        _ => None,
    }
}

/// How many reads of elements are nested in an expression as containers.
pub open spec fn index_depth(e: &TypedExpr) -> nat
    decreases e,
{
    match e {
        TypedExpr::Index { object, .. } => 1 + index_depth(object),
        _ => 0,
    }
}

/// What `create_level` does to the state, where `l` lowers the expressions inside.
#[verifier::opaque]
pub open spec fn create_level_spec(
    l: Lower,
    parent: Temp,
    parent_ty: &Type,
    key: &TypedExpr,
    level_ty: &Type,
    read_ty: &Type,
    s: St,
) -> (St, Temp) {
    let (s, fresh) = on(s, s.b.alloc_temp(level_ty.dup()));
    let s = on_b(
        s,
        s.b.emit(
            Instruction::MakeObject {
                dst: fresh,
                fields: List::Nil,
                spreads: List::Nil,
                computed_fields: List::Nil,
                ty: level_ty.dup(),
                stack: false,
            },
        ),
    );
    let s = on_b(s, s.b.register_owned(fresh, level_ty.dup()));
    let s = on_b(s, s.b.emit(Instruction::Retain { val: fresh, ty: level_ty.dup() }));
    let (s, store_key) = low(l, key, s);
    let s = on_b(
        s,
        s.b.emit(
            Instruction::IndexSet {
                object: parent,
                key: store_key,
                value: fresh,
                obj_ty: parent_ty.dup(),
                key_ty: key.ty(),
                val_ty: level_ty.dup(),
            },
        ),
    );
    let (s, boxed) = on(s, coerce_to_slot_type_spec(fresh, level_ty, read_ty, s.b));
    let s = if boxed != fresh {
        on_b(s, s.b.unregister_owned(fresh))
    } else {
        s
    };
    let s = on_b(s, s.b.register_owned(boxed, read_ty.dup()));
    (s, boxed)
}

/// Makes an empty dictionary, stores it under the key of its parent, and returns it in the
/// type in which it is read.
pub fn create_level(
    parent: Temp,
    parent_ty: &Type,
    key: &TypedExpr,
    level_ty: &Type,
    read_ty: &Type,
    b: &mut FuncBuilder,
    ctx: &mut LowerCtx,
) -> (r: Temp)
    ensures
        (st(final(b), final(ctx)), r) == create_level_spec(
            lower_at(old(ctx).room.left()),
            parent,
            parent_ty,
            key,
            level_ty,
            read_ty,
            st(old(b), old(ctx)),
        ),
        ran(*old(b), *old(ctx), *final(b), *final(ctx)),
        valid(st(old(b), old(ctx))) && temp_ok(parent, old(b)@.temp_types.len())
            ==> valid(st(final(b), final(ctx))) && temp_ok(r, final(b)@.temp_types.len()),
    decreases old(ctx).room.left(), 1nat, 0nat,
{
    reveal(create_level_spec);
    let fresh = b.alloc_temp(level_ty.dup());
    b.emit(
        Instruction::MakeObject {
            dst: fresh,
            fields: List::Nil,
            spreads: List::Nil,
            computed_fields: List::Nil,
            ty: level_ty.dup(),
            stack: false,
        },
    );
    b.register_owned(fresh, level_ty.dup());
    b.emit(Instruction::Retain { val: fresh, ty: level_ty.dup() });
    let store_key = lower_expr(key, b, ctx);
    b.emit(
        Instruction::IndexSet {
            object: parent,
            key: store_key,
            value: fresh,
            obj_ty: parent_ty.dup(),
            key_ty: key.ty(),
            val_ty: level_ty.dup(),
        },
    );
    let boxed = coerce_to_slot_type(fresh, level_ty, read_ty, b);
    if boxed != fresh {
        b.unregister_owned(fresh);
    }
    b.register_owned(boxed, read_ty.dup());
    boxed
}

/// What `get_or_create_level` does to the state, where `l` lowers the expressions inside.
#[verifier::opaque]
pub open spec fn get_or_create_level_spec(
    l: Lower,
    base: &TypedTemp,
    key: &TypedExpr,
    level_ty: &Type,
    s: St,
) -> (St, TypedTemp) {
    let read_ty = Type::Union(two(level_ty.dup(), Type::Null));
    let (s, key_temp) = low(l, key, s);
    let nonneg = s.b.is_nonneg(key_temp);
    let (s, cur) = on(s, s.b.index(base.temp, key_temp, &base.ty, &key.ty(), &read_ty, nonneg));
    let (s, null_c) = on(s, s.b.const_temp(Const::Null));
    let (s, is_null) = on(s, s.b.binary(BinOp::Eq, cur, null_c, &read_ty, &Type::Bool));
    let (s, create_block) = on(s, s.b.alloc_block("viv_create"));
    let (s, have_block) = on(s, s.b.alloc_block("viv_have"));
    let (s, merge_block) = on(s, s.b.alloc_block("viv_merge"));
    let s = on_b(
        s,
        s.b.terminate(
            Terminator::CondJump {
                cond: is_null,
                then_block: create_block,
                else_block: have_block,
            },
        ),
    );
    let (s, dst) = on(s, s.b.alloc_temp(read_ty.dup()));
    let s = on_b(s, s.b.switch_to(create_block));
    let s = on_b(s, s.b.push_scope());
    let (s, create_val) = create_level_spec(l, base.temp, &base.ty, key, level_ty, &read_ty, s);
    let s = on_b(s, s.b.pop_scope_releasing_keep(&one(create_val)));
    let create_pred = s.b.env.current_block;
    let s = on_b(s, s.b.terminate(Terminator::Jump(merge_block)));
    let s = on_b(s, s.b.switch_to(have_block));
    let s = on_b(s, s.b.push_scope());
    let (s, have_val) = on(s, s.b.clone_box(cur, &read_ty));
    let s = on_b(s, s.b.register_owned(have_val, read_ty.dup()));
    let s = on_b(s, s.b.pop_scope_releasing_keep(&one(have_val)));
    let have_pred = s.b.env.current_block;
    let s = on_b(s, s.b.terminate(Terminator::Jump(merge_block)));
    let s = on_b(s, s.b.switch_to(merge_block));
    let s = on_b(
        s,
        s.b.emit(
            Instruction::Phi {
                dst,
                ty: read_ty.dup(),
                incomings: two(
                    Incoming { val: create_val, pred: create_pred },
                    Incoming { val: have_val, pred: have_pred },
                ),
            },
        ),
    );
    let s = on_b(s, s.b.register_owned(dst, read_ty.dup()));
    (s, TypedTemp { temp: dst, ty: read_ty })
}

/// Reads a dictionary out of its parent, and makes it where it is not there.
pub fn get_or_create_level(
    base: &TypedTemp,
    key: &TypedExpr,
    level_ty: &Type,
    b: &mut FuncBuilder,
    ctx: &mut LowerCtx,
) -> (r: TypedTemp)
    ensures
        (st(final(b), final(ctx)), r) == get_or_create_level_spec(
            lower_at(old(ctx).room.left()),
            base,
            key,
            level_ty,
            st(old(b), old(ctx)),
        ),
        ran(*old(b), *old(ctx), *final(b), *final(ctx)),
        valid(st(old(b), old(ctx))) && typed_temp_ok(base, old(b)@.temp_types.len())
            ==> valid(st(final(b), final(ctx))) && typed_temp_ok(&r, final(b)@.temp_types.len()),
    decreases old(ctx).room.left(), 2nat, 0nat,
{
    reveal(get_or_create_level_spec);
    let read_ty = Type::Union(two(level_ty.dup(), Type::Null));
    let key_temp = lower_expr(key, b, ctx);
    let nonneg = b.is_nonneg(key_temp);
    let cur = b.index(base.temp, key_temp, &base.ty, &key.ty(), &read_ty, nonneg);
    let null_c = b.const_temp(Const::Null);
    let is_null = b.binary(BinOp::Eq, cur, null_c, &read_ty, &Type::Bool);
    let create_block = b.alloc_block("viv_create");
    let have_block = b.alloc_block("viv_have");
    let merge_block = b.alloc_block("viv_merge");
    b.terminate(
        Terminator::CondJump { cond: is_null, then_block: create_block, else_block: have_block },
    );
    let dst = b.alloc_temp(read_ty.dup());
    b.switch_to(create_block);
    b.push_scope();
    let create_val = create_level(base.temp, &base.ty, key, level_ty, &read_ty, b, ctx);
    b.pop_scope_releasing_keep(&one(create_val));
    let create_pred = b.env.current_block;
    b.terminate(Terminator::Jump(merge_block));
    b.switch_to(have_block);
    b.push_scope();
    let have_val = b.clone_box(cur, &read_ty);
    b.register_owned(have_val, read_ty.dup());
    b.pop_scope_releasing_keep(&one(have_val));
    let have_pred = b.env.current_block;
    b.terminate(Terminator::Jump(merge_block));
    b.switch_to(merge_block);
    b.emit(
        Instruction::Phi {
            dst,
            ty: read_ty.dup(),
            incomings: two(
                Incoming { val: create_val, pred: create_pred },
                Incoming { val: have_val, pred: have_pred },
            ),
        },
    );
    b.register_owned(dst, read_ty.dup());
    TypedTemp { temp: dst, ty: read_ty }
}

/// What `lower_index_get_or_create` does to the state, where `l` lowers the expressions inside.
#[verifier::opaque]
pub open spec fn lower_index_get_or_create_spec(
    l: Lower,
    object: &TypedExpr,
    s: St,
) -> (St, Option<TypedTemp>)
    decreases object,
{
    match object {
        TypedExpr::Index { object: parent, key, .. } => {
            match vivifiable_level_map_ty(&parent.ty()) {
                None => (s, None),
                Some(level_ty) => {
                    let (s, made) = lower_index_get_or_create_spec(l, parent, s);
                    let (s, base) = match made {
                        Some(t) => (s, t),
                        None => {
                            let (s, t) = lower_base_spec(l, parent, s);
                            (s, TypedTemp { temp: t, ty: parent.ty() })
                        },
                    };
                    let (s, level) = get_or_create_level_spec(l, &base, key, &level_ty, s);
                    (s, Some(level))
                },
            }
        },
        _ => (s, None),
    }
}

/// Lowers the container of a nested assignment: reads a dictionary out of its parent and
/// makes it where it is not there, and so for the parent. `None`, with nothing emitted, where
/// the container is not an element of a dictionary of dictionaries.
pub fn lower_index_get_or_create(
    object: &TypedExpr,
    b: &mut FuncBuilder,
    ctx: &mut LowerCtx,
) -> (r: Option<TypedTemp>)
    ensures
        (st(final(b), final(ctx)), r) == lower_index_get_or_create_spec(
            lower_at(old(ctx).room.left()),
            object,
            st(old(b), old(ctx)),
        ),
        ran(*old(b), *old(ctx), *final(b), *final(ctx)),
        valid(st(old(b), old(ctx)))
            ==> valid(st(final(b), final(ctx)))
                && (r is Some ==> typed_temp_ok(&r->0, final(b)@.temp_types.len())),
    decreases old(ctx).room.left(), 3nat, index_depth(object),
{
    reveal(lower_index_get_or_create_spec);
    match object {
        TypedExpr::Index { object: parent, key, .. } => {
            match vivifiable_level_map_ty(&parent.ty()) {
                None => None,
                Some(level_ty) => {
                    let made = lower_index_get_or_create(parent, b, ctx);
                    let base = match made {
                        Some(t) => t,
                        None => {
                            let t = lower_base(parent, b, ctx);
                            TypedTemp { temp: t, ty: parent.ty() }
                        },
                    };
                    let level = get_or_create_level(&base, key, &level_ty, b, ctx);
                    Some(level)
                },
            }
        },
        _ => None,
    }
}

/// The container, the key and the value of an assignment, and the type of the container.
pub struct Assignment {
    pub object: Temp,
    pub key: Temp,
    pub value: Temp,
    pub obj_ty: Type,
}

/// What `lower_assignment` does to the state, where `l` lowers the expressions inside.
#[verifier::opaque]
pub open spec fn lower_assignment_spec(
    l: Lower,
    object: &TypedExpr,
    key: &TypedExpr,
    value: &TypedExpr,
    obj_ty: &Type,
    s: St,
) -> (St, Assignment) {
    if lower_container_base_borrowed_check_spec(object, s.c) {
        let (s, key_temp) = low(l, key, s);
        let (s, val_temp) = low(l, value, s);
        let (s, obj_temp) = lower_base_spec(l, object, s);
        (s, Assignment { object: obj_temp, key: key_temp, value: val_temp, obj_ty: obj_ty.dup() })
    } else {
        let (s, made) = lower_index_get_or_create_spec(l, object, s);
        let (s, base) = match made {
            Some(t) => (s, t),
            None => {
                let (s, t) = low(l, object, s);
                (s, TypedTemp { temp: t, ty: obj_ty.dup() })
            },
        };
        let (s, key_temp) = low(l, key, s);
        let (s, val_temp) = low(l, value, s);
        (s, Assignment { object: base.temp, key: key_temp, value: val_temp, obj_ty: base.ty })
    }
}

/// Lowers the container, the key and the value of an assignment. A container that is used
/// without a reference of its own is lowered last; a dictionary in a dictionary is made where
/// it is not there.
pub fn lower_assignment(
    object: &TypedExpr,
    key: &TypedExpr,
    value: &TypedExpr,
    obj_ty: &Type,
    b: &mut FuncBuilder,
    ctx: &mut LowerCtx,
) -> (r: Assignment)
    ensures
        (st(final(b), final(ctx)), r) == lower_assignment_spec(
            lower_at(old(ctx).room.left()),
            object,
            key,
            value,
            obj_ty,
            st(old(b), old(ctx)),
        ),
        ran(*old(b), *old(ctx), *final(b), *final(ctx)),
        valid(st(old(b), old(ctx)))
            ==> valid(st(final(b), final(ctx))) && assignment_ok(&r, final(b)@.temp_types.len()),
    decreases old(ctx).room.left(), 4nat, 0nat,
{
    reveal(lower_assignment_spec);
    if lower_container_base_borrowed_check(object, ctx) {
        let key_temp = lower_expr(key, b, ctx);
        let val_temp = lower_expr(value, b, ctx);
        let obj_temp = lower_base(object, b, ctx);
        Assignment { object: obj_temp, key: key_temp, value: val_temp, obj_ty: obj_ty.dup() }
    } else {
        let made = lower_index_get_or_create(object, b, ctx);
        let base = match made {
            Some(t) => t,
            None => {
                let t = lower_expr(object, b, ctx);
                TypedTemp { temp: t, ty: obj_ty.dup() }
            },
        };
        let key_temp = lower_expr(key, b, ctx);
        let val_temp = lower_expr(value, b, ctx);
        Assignment { object: base.temp, key: key_temp, value: val_temp, obj_ty: base.ty }
    }
}

/// What `project_stored` does to the function under construction.
#[verifier::opaque]
pub open spec fn project_stored_spec(
    val: Temp,
    val_ty: &Type,
    obj_ty: &Type,
    b: FState,
) -> (FState, TypedTemp) {
    match obj_ty {
        Type::Dict { value } => if anon_object_slot_repr_differs(val_ty, value) {
            let (b, proj) = b.coerce(val, val_ty, value);
            let b = b.register_owned(proj, value.dup());
            let b = b.unregister_owned(proj);
            (b, TypedTemp { temp: proj, ty: value.dup() })
        } else {
            (b, TypedTemp { temp: val, ty: val_ty.dup() })
        },
        _ => (b, TypedTemp { temp: val, ty: val_ty.dup() }),
    }
}

/// Projects an open record that is stored in a dictionary of open records of another type.
pub fn project_stored(
    val: Temp,
    val_ty: &Type,
    obj_ty: &Type,
    b: &mut FuncBuilder,
) -> (r: TypedTemp)
    ensures
        (final(b)@, r) == project_stored_spec(val, val_ty, obj_ty, old(b)@),
        grown(old(b)@, final(b)@, 0),
        old(b)@.wf() && temp_ok(val, old(b)@.temp_types.len())
            ==> final(b)@.wf() && typed_temp_ok(&r, final(b)@.temp_types.len()),
{
    reveal(project_stored_spec);
    match obj_ty {
        Type::Dict { value } => if anon_object_slot_repr_differs(val_ty, value) {
            let proj = b.coerce(val, val_ty, value);
            b.register_owned(proj, value.dup());
            b.unregister_owned(proj);
            return TypedTemp { temp: proj, ty: value.dup() };
        },
        _ => {},
    }
    TypedTemp { temp: val, ty: val_ty.dup() }
}

/// The container is an array.
pub open spec fn is_array_type_spec(ty: &Type) -> bool {
    matches!(ty, Type::Array(_) | Type::FixedArray(_))
}

/// Whether the container is an array.
#[verifier::when_used_as_spec(is_array_type_spec)]
pub fn is_array_type(ty: &Type) -> (r: bool)
    ensures
        r == is_array_type_spec(ty),
{
    matches!(ty, Type::Array(_) | Type::FixedArray(_))
}

/// What `lower_index_set` does to the state, where `l` lowers the expressions inside.
#[verifier::opaque]
pub open spec fn lower_index_set_spec(
    l: Lower,
    object: &TypedExpr,
    key: &TypedExpr,
    value: &TypedExpr,
    obj_ty: &Type,
    s: St,
) -> (St, Temp) {
    match (is_sealed_scalar_repr(obj_ty), literal_string(key)) {
        (true, Some(name)) => if has_field(obj_ty, &name) {
            let (s, obj_temp) = low(l, object, s);
            let (s, val_temp) = low(l, value, s);
            let s = on_b(
                s,
                s.b.emit(
                    Instruction::FieldSet {
                        object: obj_temp,
                        field: name,
                        value: val_temp,
                        obj_ty: obj_ty.dup(),
                        val_ty: value.ty(),
                    },
                ),
            );
            (s, val_temp)
        } else {
            let (s, a) = lower_assignment_spec(l, object, key, value, obj_ty, s);
            let (s, stored) = on(s, project_stored_spec(a.value, &value.ty(), &a.obj_ty, s.b));
            let consumes = is_array_type(&a.obj_ty);
            let projected = stored.temp != a.value;
            let s = if !projected
                && !is_sealed_scalar_array(&a.obj_ty)
                && !is_sealed_scalar_repr(&stored.ty) {
                on_b(s, s.b.transfer_into_container(stored.temp, value, consumes))
            } else {
                s
            };
            let s = on_b(
                s,
                s.b.emit(
                    Instruction::IndexSet {
                        object: a.object,
                        key: a.key,
                        value: stored.temp,
                        obj_ty: a.obj_ty.dup(),
                        key_ty: key.ty(),
                        val_ty: stored.ty.dup(),
                    },
                ),
            );
            let (s, result) = on(s, own_for_read_spec(stored.temp, &stored.ty, s.b));
            let s = if consumes && is_union_ty(&stored.ty) && expr_is_fresh_alloc(value) {
                on_b(s, s.b.emit(Instruction::FreeBoxShell { val: stored.temp }))
            } else {
                s
            };
            (s, result)
        },
        _ => {
            let (s, a) = lower_assignment_spec(l, object, key, value, obj_ty, s);
            let (s, stored) = on(s, project_stored_spec(a.value, &value.ty(), &a.obj_ty, s.b));
            let consumes = is_array_type(&a.obj_ty);
            let projected = stored.temp != a.value;
            let s = if !projected
                && !is_sealed_scalar_array(&a.obj_ty)
                && !is_sealed_scalar_repr(&stored.ty) {
                on_b(s, s.b.transfer_into_container(stored.temp, value, consumes))
            } else {
                s
            };
            let s = on_b(
                s,
                s.b.emit(
                    Instruction::IndexSet {
                        object: a.object,
                        key: a.key,
                        value: stored.temp,
                        obj_ty: a.obj_ty.dup(),
                        key_ty: key.ty(),
                        val_ty: stored.ty.dup(),
                    },
                ),
            );
            let (s, result) = on(s, own_for_read_spec(stored.temp, &stored.ty, s.b));
            let s = if consumes && is_union_ty(&stored.ty) && expr_is_fresh_alloc(value) {
                on_b(s, s.b.emit(Instruction::FreeBoxShell { val: stored.temp }))
            } else {
                s
            };
            (s, result)
        },
    }
}

/// Lowers an assignment to an element or a field. A field of a packed record is set in place;
/// otherwise the container takes over the reference of the value. A record that is projected
/// for the store is fresh, and a packed one is copied: those are not counted once more. The
/// value of the assignment is the value that was assigned.
pub fn lower_index_set(
    object: &TypedExpr,
    key: &TypedExpr,
    value: &TypedExpr,
    obj_ty: &Type,
    b: &mut FuncBuilder,
    ctx: &mut LowerCtx,
) -> (r: Temp)
    ensures
        (st(final(b), final(ctx)), r) == lower_index_set_spec(
            lower_at(old(ctx).room.left()),
            object,
            key,
            value,
            obj_ty,
            st(old(b), old(ctx)),
        ),
        ran(*old(b), *old(ctx), *final(b), *final(ctx)),
        valid(st(old(b), old(ctx)))
            ==> valid(st(final(b), final(ctx))) && temp_ok(r, final(b)@.temp_types.len()),
    decreases old(ctx).room.left(), 5nat, 0nat,
{
    reveal(lower_index_set_spec);
    match (is_sealed_scalar_repr(obj_ty), literal_string(key)) {
        (true, Some(name)) => if has_field(obj_ty, &name) {
            let obj_temp = lower_expr(object, b, ctx);
            let val_temp = lower_expr(value, b, ctx);
            b.emit(
                Instruction::FieldSet {
                    object: obj_temp,
                    field: name,
                    value: val_temp,
                    obj_ty: obj_ty.dup(),
                    val_ty: value.ty(),
                },
            );
            return val_temp;
        },
        _ => {},
    }
    let a = lower_assignment(object, key, value, obj_ty, b, ctx);
    let stored = project_stored(a.value, &value.ty(), &a.obj_ty, b);
    let consumes = is_array_type(&a.obj_ty);
    let projected = stored.temp != a.value;
    if !projected && !is_sealed_scalar_array(&a.obj_ty) && !is_sealed_scalar_repr(&stored.ty) {
        b.transfer_into_container(stored.temp, value, consumes);
    }
    b.emit(
        Instruction::IndexSet {
            object: a.object,
            key: a.key,
            value: stored.temp,
            obj_ty: a.obj_ty.dup(),
            key_ty: key.ty(),
            val_ty: stored.ty.dup(),
        },
    );
    let result = own_for_read(stored.temp, &stored.ty, b);
    if consumes && is_union_ty(&stored.ty) && expr_is_fresh_alloc(value) {
        b.emit(Instruction::FreeBoxShell { val: stored.temp });
    }
    result
}

/// What `lower_expr_inner` does to the state, where `l` lowers the expressions inside.
#[verifier::opaque]
pub open spec fn lower_expr_inner_spec(l: Lower, expr: &TypedExpr, s: St) -> (St, Temp) {
    match expr {
        TypedExpr::IntLit(v, ty, _) => on(s, s.b.const_temp(Const::Int(*v, ty.dup()))),
        TypedExpr::FloatLit(v, ty, _) => on(s, s.b.const_temp(Const::Float(*v, ty.dup()))),
        TypedExpr::StringLit(text, _, _) => {
            let (s, t) = on(s, s.b.const_temp(Const::Str(Text::Owned(dup_str(text)))));
            let s = on_b(s, s.b.register_owned(t, Type::Str));
            (s, t)
        },
        TypedExpr::BoolLit(v, _) => on(s, s.b.const_temp(Const::Bool(*v))),
        TypedExpr::NullLit(_) => on(s, s.b.const_temp(Const::Null)),
        TypedExpr::LocalGet { slot, ty, .. } => lower_local_get_spec(l, *slot, ty, s),
        TypedExpr::LocalSet { slot, value, ty, .. } => lower_local_set_spec(l, *slot, value, ty, s),
        TypedExpr::BinaryOp { left, op, right, result_type, .. } => {
            lower_binary_spec(l, left, *op, right, result_type, s)
        },
        TypedExpr::UnaryOp { op, operand, result_type, .. } => {
            lower_unary_spec(l, *op, operand, result_type, s)
        },
        TypedExpr::Coerce { expr: inner, from, to, .. } => lower_coerce_spec(l, inner, from, to, s),
        TypedExpr::Call { func, args, result_type, is_tail, partial, .. } => {
            lower_call_spec(l, func, args, result_type, *is_tail, *partial, s)
        },
        TypedExpr::If { cond, then_br, else_br, result_type, .. } => {
            lower_if_spec(l, cond, then_br, else_br, result_type, s)
        },
        TypedExpr::FromJson { target, value, result_type, named_defs, .. } => {
            lower_from_json_spec(l, target, value, result_type, named_defs, s)
        },
        TypedExpr::Match { scrutinee, arms, result_type, .. } => {
            lower_match_spec(l, scrutinee, arms, result_type, s)
        },
        TypedExpr::Block { stmts, expr: last, .. } => lower_block_spec(l, stmts, last, s),
        TypedExpr::Function { name, params, body, ret_type, captures, .. } => {
            lower_function_expr_spec(l, name, params, body, ret_type, captures, s)
        },
        TypedExpr::MakeObject { fields, spreads, computed_fields, ty, .. } => {
            lower_make_object_spec(l, fields, spreads, computed_fields, ty, s)
        },
        TypedExpr::MakeArray { elements, ty, .. } => lower_make_array_spec(l, elements, ty, s),
        TypedExpr::Index { object, key, result_type, .. } => {
            lower_index_spec(l, object, key, result_type, s)
        },
        TypedExpr::FieldGet { object, field, result_type, .. } => {
            lower_field_get_spec(l, object, field, result_type, s)
        },
        TypedExpr::StringInterp { parts, .. } => lower_string_interp_spec(l, parts, s),
        TypedExpr::Is { expr: inner, pattern, .. } => lower_is_spec(l, inner, pattern, s),
        TypedExpr::Has { expr: inner, pattern, .. } => lower_has_spec(l, inner, pattern, s),
        TypedExpr::IndexSet { object, key, value, obj_ty, .. } => {
            lower_index_set_spec(l, object, key, value, obj_ty, s)
        },
    }
}

/// Lowers an expression according to its form.
pub fn lower_expr_inner(expr: &TypedExpr, b: &mut FuncBuilder, ctx: &mut LowerCtx) -> (r: Temp)
    ensures
        (st(final(b), final(ctx)), r) == lower_expr_inner_spec(
            lower_at(old(ctx).room.left()),
            expr,
            st(old(b), old(ctx)),
        ),
        ran(*old(b), *old(ctx), *final(b), *final(ctx)),
        valid(st(old(b), old(ctx)))
            ==> valid(st(final(b), final(ctx))) && temp_ok(r, final(b)@.temp_types.len()),
    decreases old(ctx).room.left(), 15nat, 0nat,
{
    reveal(lower_expr_inner_spec);
    match expr {
        TypedExpr::IntLit(v, ty, _) => b.const_temp(Const::Int(*v, ty.dup())),
        TypedExpr::FloatLit(v, ty, _) => b.const_temp(Const::Float(*v, ty.dup())),
        TypedExpr::StringLit(text, _, _) => {
            let t = b.const_temp(Const::Str(Text::Owned(dup_str(text))));
            b.register_owned(t, Type::Str);
            t
        },
        TypedExpr::BoolLit(v, _) => b.const_temp(Const::Bool(*v)),
        TypedExpr::NullLit(_) => b.const_temp(Const::Null),
        TypedExpr::LocalGet { slot, ty, .. } => lower_local_get(*slot, ty, b, ctx),
        TypedExpr::LocalSet { slot, value, ty, .. } => lower_local_set(*slot, value, ty, b, ctx),
        TypedExpr::BinaryOp { left, op, right, result_type, .. } => {
            lower_binary(left, *op, right, result_type, b, ctx)
        },
        TypedExpr::UnaryOp { op, operand, result_type, .. } => {
            lower_unary(*op, operand, result_type, b, ctx)
        },
        TypedExpr::Coerce { expr: inner, from, to, .. } => lower_coerce(inner, from, to, b, ctx),
        TypedExpr::Call { func, args, result_type, is_tail, partial, .. } => {
            lower_call(func, args, result_type, *is_tail, *partial, b, ctx)
        },
        TypedExpr::If { cond, then_br, else_br, result_type, .. } => {
            lower_if(cond, then_br, else_br, result_type, b, ctx)
        },
        TypedExpr::FromJson { target, value, result_type, named_defs, .. } => {
            lower_from_json(target, value, result_type, named_defs, b, ctx)
        },
        TypedExpr::Match { scrutinee, arms, result_type, .. } => {
            lower_match(scrutinee, arms, result_type, b, ctx)
        },
        TypedExpr::Block { stmts, expr: last, .. } => lower_block(stmts, last, b, ctx),
        TypedExpr::Function { name, params, body, ret_type, captures, .. } => {
            lower_function_expr(name, params, body, ret_type, captures, b, ctx)
        },
        TypedExpr::MakeObject { fields, spreads, computed_fields, ty, .. } => {
            lower_make_object(fields, spreads, computed_fields, ty, b, ctx)
        },
        TypedExpr::MakeArray { elements, ty, .. } => lower_make_array(elements, ty, b, ctx),
        TypedExpr::Index { object, key, result_type, .. } => {
            lower_index(object, key, result_type, b, ctx)
        },
        TypedExpr::FieldGet { object, field, result_type, .. } => {
            lower_field_get(object, field, result_type, b, ctx)
        },
        TypedExpr::StringInterp { parts, .. } => lower_string_interp(parts, b, ctx),
        TypedExpr::Is { expr: inner, pattern, .. } => lower_is(inner, pattern, b, ctx),
        TypedExpr::Has { expr: inner, pattern, .. } => lower_has(inner, pattern, b, ctx),
        TypedExpr::IndexSet { object, key, value, obj_ty, .. } => {
            lower_index_set(object, key, value, obj_ty, b, ctx)
        },
    }
}

} // verus!
