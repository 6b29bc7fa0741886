//! Lowering of functions and interpolated strings.

use crate::ast::{Capture, Span, TypedExpr, TypedParam, TypedStringPart, function_type};
use crate::builder::{Cell, Entry, FState, FuncBuilder, grown};
use crate::coerce::{
    anon_object_slot_repr_differs, flat_scalar_array_repr_differs, int_width_repr_differs,
    scalar_numeric_repr_differs,
};
use crate::control::cell_type;
use crate::ctx::{
    Lower, LowerCtx, PackedElem, St, ctx_kept, low, on, on_b, on_c, on_ctx, ran, st, valid,
};
use crate::expr::{lower_at, lower_expr};
use crate::ir::{
    BlockId, CallTarget, CaptureRelease, Const, FuncId, Instruction, Intrinsic, IrParam, Temp,
    Terminator,
};
use crate::list::{List, one, prepend, two};
use crate::literal::{
    try_lower_sealed_literal, try_lower_sealed_literal_spec, try_lower_sum_literal,
    try_lower_sum_literal_spec,
};
use crate::loops::{free_new_cells, free_new_cells_spec};
use crate::repr::{
    is_rc_type, is_sealed_scalar_array, is_sealed_scalar_repr, is_union_ty, needs_owning,
    sum_type_eligible, type_is_streamish_ir, type_repr_differs,
};
use crate::text::Text;
use crate::types::{Type, dup_str, json};
use crate::valid::{
    capture_temp_ok, capture_temps_ok, group_valid, otemp_ok, packed_elem_ok, string_parts_ok,
    temp_ok, temps_ok, temps_tail,
};
use std::rc::Rc;
use vstd::prelude::*;

verus! {

broadcast use group_valid;

/// The number behind `n`.
pub open spec fn next_number_spec(n: u32) -> u32 {
    if n < u32::MAX {
        (n + 1) as u32
    } else {
        n
    }
}

/// The number behind `n`; the largest one has none.
#[verifier::when_used_as_spec(next_number_spec)]
pub fn next_number(n: u32) -> (r: u32)
    ensures
        r == next_number_spec(n),
{
    if n < u32::MAX {
        n + 1
    } else {
        n
    }
}

/// What `alloc_params` does to the function under construction.
#[verifier::opaque]
pub open spec fn alloc_params_spec(params: &List<TypedParam>, b: FState) -> (FState, List<IrParam>)
    decreases params,
{
    match params {
        List::Nil => (b, List::Nil),
        List::Cons(n) => {
            let (b, temp) = b.alloc_temp(n.head.ty.dup());
            let b = b.set_slot(n.head.slot, temp);
            let (b, rest) = alloc_params_spec(&n.tail, b);
            (b, prepend(IrParam { temp, ty: n.head.ty.dup() }, rest))
        },
    }
}

/// Makes a temporary for each parameter and binds its variable to it.
pub fn alloc_params(params: &List<TypedParam>, b: &mut FuncBuilder) -> (r: List<IrParam>)
    ensures
        (final(b)@, r) == alloc_params_spec(params, old(b)@),
        grown(old(b)@, final(b)@, 0),
        old(b)@.wf() ==> final(b)@.wf(),
    decreases params,
{
    reveal(alloc_params_spec);
    match params {
        List::Nil => List::Nil,
        List::Cons(n) => {
            let temp = b.alloc_temp(n.head.ty.dup());
            b.set_slot(n.head.slot, temp);
            let rest = alloc_params(&n.tail, b);
            prepend(IrParam { temp, ty: n.head.ty.dup() }, rest)
        },
    }
}

/// What `begin_params` does to the function under construction.
#[verifier::opaque]
pub open spec fn begin_params_spec(
    params: &List<TypedParam>,
    is_closure: bool,
    b: FState,
) -> (FState, Option<Temp>) {
    if is_closure {
        let (b, env) = b.alloc_temp(Type::Null);
        let (b, rest) = alloc_params_spec(params, b);
        let b = b.set_params(prepend(IrParam { temp: env, ty: Type::Null }, rest));
        (b, Some(env))
    } else {
        let (b, all) = alloc_params_spec(params, b);
        let b = b.set_params(all);
        (b, None)
    }
}

/// Makes the parameters of a function, the environment of a closure first. Returns the
/// temporary of the environment.
pub fn begin_params(
    params: &List<TypedParam>,
    is_closure: bool,
    b: &mut FuncBuilder,
) -> (r: Option<Temp>)
    ensures
        (final(b)@, r) == begin_params_spec(params, is_closure, old(b)@),
        grown(old(b)@, final(b)@, 0),
        old(b)@.wf() ==> final(b)@.wf() && otemp_ok(r, final(b)@.temp_types.len()),
{
    reveal(begin_params_spec);
    if is_closure {
        let env = b.alloc_temp(Type::Null);
        let rest = alloc_params(params, b);
        b.set_params(prepend(IrParam { temp: env, ty: Type::Null }, rest));
        Some(env)
    } else {
        let all = alloc_params(params, b);
        b.set_params(all);
        None
    }
}

/// What `read_captures` does to the function under construction.
#[verifier::opaque]
pub open spec fn read_captures_spec(
    captures: &List<Capture>,
    env: Temp,
    index: u32,
    b: FState,
) -> FState
    decreases captures,
{
    match captures {
        List::Nil => b,
        List::Cons(n) => {
            let cap_ty = if n.head.is_mutable {
                json()
            } else {
                n.head.ty.dup()
            };
            let (b, t) = b.alloc_temp(cap_ty.dup());
            let b = b.emit(Instruction::EnvCapture { dst: t, env, index, ty: cap_ty });
            let b = b.set_slot(n.head.outer_slot, t);
            let b = if n.head.is_mutable {
                b.set_cell_slot(n.head.outer_slot, cell_type(&n.head.ty))
            } else {
                b
            };
            read_captures_spec(&n.tail, env, next_number(index), b)
        },
    }
}

/// Reads the captured variables, from number `index` on, out of the environment. One that
/// may be assigned to is a heap cell.
pub fn read_captures(captures: &List<Capture>, env: Temp, index: u32, b: &mut FuncBuilder)
    ensures
        final(b)@ == read_captures_spec(captures, env, index, old(b)@),
        grown(old(b)@, final(b)@, 0),
        old(b)@.wf() && temp_ok(env, old(b)@.temp_types.len()) ==> final(b)@.wf(),
    decreases captures,
{
    reveal(read_captures_spec);
    match captures {
        List::Nil => {},
        List::Cons(n) => {
            let cap_ty = if n.head.is_mutable {
                json()
            } else {
                n.head.ty.dup()
            };
            let t = b.alloc_temp(cap_ty.dup());
            b.emit(Instruction::EnvCapture { dst: t, env, index, ty: cap_ty });
            b.set_slot(n.head.outer_slot, t);
            if n.head.is_mutable {
                b.set_cell_slot(n.head.outer_slot, cell_type(&n.head.ty));
            }
            read_captures(&n.tail, env, next_number(index), b);
        },
    }
}

/// What `own_function_params` does to the function under construction.
#[verifier::opaque]
pub open spec fn own_function_params_spec(params: &List<TypedParam>, b: FState) -> FState
    decreases params,
{
    match params {
        List::Nil => b,
        List::Cons(n) => {
            let b = match (n.head.ty.is_function(), b.slot(n.head.slot)) {
                (true, Some(t)) => b.register_owned(t, n.head.ty.dup()),
                _ => b,
            };
            own_function_params_spec(&n.tail, b)
        },
    }
}

/// Lets the scope own the parameters that are functions.
pub fn own_function_params(params: &List<TypedParam>, b: &mut FuncBuilder)
    ensures
        final(b)@ == own_function_params_spec(params, old(b)@),
        grown(old(b)@, final(b)@, 0),
        old(b)@.wf() ==> final(b)@.wf(),
    decreases params,
{
    reveal(own_function_params_spec);
    match params {
        List::Nil => {},
        List::Cons(n) => {
            match (n.head.ty.is_function(), b.slot(n.head.slot)) {
                (true, Some(t)) => {
                    b.register_owned(t, n.head.ty.dup());
                },
                _ => {},
            }
            own_function_params(&n.tail, b);
        },
    }
}

/// What `declare_params` does to the function under construction.
#[verifier::opaque]
pub open spec fn declare_params_spec(
    params: &List<TypedParam>,
    no: u32,
    span: Span,
    b: FState,
) -> FState
    decreases params,
{
    match params {
        List::Nil => b,
        List::Cons(n) => {
            let b = match b.slot(n.head.slot) {
                Some(temp) => {
                    b.emit(
                        Instruction::DebugDeclare {
                            temp,
                            name: n.head.name.dup(),
                            ty: n.head.ty.dup(),
                            param_no: Some(no),
                            span,
                        },
                    )
                },
                None => b,
            };
            declare_params_spec(&n.tail, next_number(no), span, b)
        },
    }
}

/// Names the parameters, from number `no` on, for a debugger.
pub fn declare_params(params: &List<TypedParam>, no: u32, span: Span, b: &mut FuncBuilder)
    ensures
        final(b)@ == declare_params_spec(params, no, span, old(b)@),
        grown(old(b)@, final(b)@, 0),
        old(b)@.wf() ==> final(b)@.wf(),
    decreases params,
{
    reveal(declare_params_spec);
    match params {
        List::Nil => {},
        List::Cons(n) => {
            match b.slot(n.head.slot) {
                Some(temp) => {
                    b.emit(
                        Instruction::DebugDeclare {
                            temp,
                            name: n.head.name.dup(),
                            ty: n.head.ty.dup(),
                            param_no: Some(no),
                            span,
                        },
                    );
                },
                None => {},
            }
            declare_params(&n.tail, next_number(no), span, b);
        },
    }
}

/// A function of this result type returns nothing.
pub open spec fn returns_nothing_spec(ret_type: &Type) -> bool {
    matches!(ret_type, Type::Null | Type::Never)
}

/// Whether a function of this result type returns nothing.
#[verifier::when_used_as_spec(returns_nothing_spec)]
pub fn returns_nothing(ret_type: &Type) -> (r: bool)
    ensures
        r == returns_nothing_spec(ret_type),
{
    matches!(ret_type, Type::Null | Type::Never)
}

/// The type in which a function returns its result.
pub open spec fn effective_return_spec(
    forced_ret: Option<&Type>,
    anonymous: bool,
    ret_type: &Type,
) -> Type {
    match forced_ret {
        Some(t) => t.dup(),
        None => if anonymous && !returns_nothing(ret_type) {
            json()
        } else {
            ret_type.dup()
        },
    }
}

/// The type in which a function returns its result: the forced one; else, of a function that
/// is known only as a value, a box; else its own.
#[verifier::when_used_as_spec(effective_return_spec)]
pub fn effective_return(forced_ret: Option<&Type>, anonymous: bool, ret_type: &Type) -> (r: Type)
    ensures
        r == effective_return_spec(forced_ret, anonymous, ret_type),
{
    match forced_ret {
        Some(t) => t.dup(),
        None => if anonymous && !returns_nothing(ret_type) {
            json()
        } else {
            ret_type.dup()
        },
    }
}

/// What `lower_body_value` does to the state, where `l` lowers the expressions inside.
#[verifier::opaque]
pub open spec fn lower_body_value_spec(
    l: Lower,
    body: &TypedExpr,
    effective_ret: &Type,
    s: St,
) -> (St, Temp) {
    if sum_type_eligible(effective_ret) {
        let (s, lit) = try_lower_sum_literal_spec(l, body, effective_ret, s);
        match lit {
            Some(t) => (s, t),
            None => low(l, body, s),
        }
    } else if is_sealed_scalar_repr(effective_ret) {
        let (s, lit) = try_lower_sealed_literal_spec(l, body, effective_ret, s);
        match lit {
            Some(t) => (s, t),
            None => low(l, body, s),
        }
    } else {
        low(l, body, s)
    }
}

/// Lowers the body of a function: a record literal straight into the representation in which
/// the function returns it.
pub fn lower_body_value(
    body: &TypedExpr,
    effective_ret: &Type,
    b: &mut FuncBuilder,
    ctx: &mut LowerCtx,
) -> (r: Temp)
    ensures
        (st(final(b), final(ctx)), r) == lower_body_value_spec(
            lower_at(old(ctx).room.left()),
            body,
            effective_ret,
            st(old(b), old(ctx)),
        ),
        ran(*old(b), *old(ctx), *final(b), *final(ctx)),
        valid(st(old(b), old(ctx)))
            ==> valid(st(final(b), final(ctx))) && temp_ok(r, final(b)@.temp_types.len()),
    decreases old(ctx).room.left(), 5nat, 0nat,
{
    reveal(lower_body_value_spec);
    if sum_type_eligible(effective_ret) {
        let lit = try_lower_sum_literal(body, effective_ret, b, ctx);
        match lit {
            Some(t) => t,
            None => lower_expr(body, b, ctx),
        }
    } else if is_sealed_scalar_repr(effective_ret) {
        let lit = try_lower_sealed_literal(body, effective_ret, b, ctx);
        match lit {
            Some(t) => t,
            None => lower_expr(body, b, ctx),
        }
    } else {
        lower_expr(body, b, ctx)
    }
}

/// What `own_returned_box` does to the function under construction.
#[verifier::opaque]
pub open spec fn own_returned_box_spec(raw: Temp, body_ty: &Type, b: FState) -> (FState, Temp) {
    if !b.is_terminated() && is_union_ty(body_ty) && !b.is_owned_in_scope(raw) {
        let (b, dst) = b.clone_box(raw, body_ty);
        let b = b.register_owned(dst, body_ty.dup());
        (b, dst)
    } else {
        (b, raw)
    }
}

/// Gives a box that is returned a reference of its own, where the function does not own it.
pub fn own_returned_box(raw: Temp, body_ty: &Type, b: &mut FuncBuilder) -> (r: Temp)
    ensures
        (final(b)@, r) == own_returned_box_spec(raw, body_ty, old(b)@),
        grown(old(b)@, final(b)@, 0),
        old(b)@.wf() && temp_ok(raw, old(b)@.temp_types.len())
            ==> final(b)@.wf() && temp_ok(r, final(b)@.temp_types.len()),
{
    reveal(own_returned_box_spec);
    if !b.is_current_block_terminated() && is_union_ty(body_ty) && !b.is_owned_in_scope(raw) {
        let dst = b.clone_box(raw, body_ty);
        b.register_owned(dst, body_ty.dup());
        return dst;
    }
    raw
}

/// The result of a body has to be converted to be returned.
pub open spec fn return_differs_spec(body_ty: &Type, effective_ret: &Type) -> bool {
    type_repr_differs(body_ty, effective_ret)
        || scalar_numeric_repr_differs(body_ty, effective_ret)
        || int_width_repr_differs(body_ty, effective_ret)
        || flat_scalar_array_repr_differs(body_ty, effective_ret)
        || anon_object_slot_repr_differs(body_ty, effective_ret)
}

/// Whether the result of a body has to be converted to be returned.
#[verifier::when_used_as_spec(return_differs_spec)]
pub fn return_differs(body_ty: &Type, effective_ret: &Type) -> (r: bool)
    ensures
        r == return_differs_spec(body_ty, effective_ret),
{
    type_repr_differs(body_ty, effective_ret)
        || scalar_numeric_repr_differs(body_ty, effective_ret)
        || int_width_repr_differs(body_ty, effective_ret)
        || flat_scalar_array_repr_differs(body_ty, effective_ret)
        || anon_object_slot_repr_differs(body_ty, effective_ret)
}

/// The conversion of the result leaves the value before it to be given back.
pub open spec fn return_copies_spec(body_ty: &Type, effective_ret: &Type) -> bool {
    if is_union_ty(body_ty) {
        (!is_union_ty(effective_ret) && !is_rc_type(effective_ret))
            || is_sealed_scalar_array(effective_ret)
    } else {
        is_rc_type(body_ty)
            && (
                is_sealed_scalar_repr(effective_ret)
                    || anon_object_slot_repr_differs(body_ty, effective_ret)
            )
    }
}

/// Whether the conversion of the result leaves the value before it to be given back: a
/// scalar is taken out of a box, a record is projected, or a packed array is made of a box.
#[verifier::when_used_as_spec(return_copies_spec)]
pub fn return_copies(body_ty: &Type, effective_ret: &Type) -> (r: bool)
    ensures
        r == return_copies_spec(body_ty, effective_ret),
{
    if is_union_ty(body_ty) {
        (!is_union_ty(effective_ret) && !is_rc_type(effective_ret))
            || is_sealed_scalar_array(effective_ret)
    } else {
        is_rc_type(body_ty)
            && (
                is_sealed_scalar_repr(effective_ret)
                    || anon_object_slot_repr_differs(body_ty, effective_ret)
            )
    }
}

/// The conversion of the result opens a box and takes over its contents.
pub open spec fn return_opens_box_spec(body_ty: &Type, effective_ret: &Type) -> bool {
    is_union_ty(body_ty)
        && !is_union_ty(effective_ret)
        && is_rc_type(effective_ret)
        && !is_sealed_scalar_array(effective_ret)
}

/// Whether the conversion of the result opens a box and takes over its contents, so that the
/// shell has to be freed.
#[verifier::when_used_as_spec(return_opens_box_spec)]
pub fn return_opens_box(body_ty: &Type, effective_ret: &Type) -> (r: bool)
    ensures
        r == return_opens_box_spec(body_ty, effective_ret),
{
    is_union_ty(body_ty)
        && !is_union_ty(effective_ret)
        && is_rc_type(effective_ret)
        && !is_sealed_scalar_array(effective_ret)
}

/// What `finish_body` does to the function under construction.
#[verifier::opaque]
pub open spec fn finish_body_spec(
    raw0: Temp,
    body_ty: &Type,
    effective_ret: &Type,
    void_ret: bool,
    b: FState,
) -> FState {
    let (b, raw) = own_returned_box_spec(raw0, body_ty, b);
    let coerced = !b.is_terminated() && return_differs(body_ty, effective_ret);
    let (b, ret_temp) = if coerced {
        b.coerce(raw, body_ty, effective_ret)
    } else {
        (b, raw)
    };
    let keep = if void_ret {
        List::Nil
    } else if coerced && return_copies(body_ty, effective_ret) {
        one(ret_temp)
    } else {
        two(ret_temp, raw)
    };
    let b = if !b.is_terminated() {
        let cells = b.env.created_cells.dup();
        free_new_cells_spec(&cells, 0, BlockId(0), &keep, b)
    } else {
        b
    };
    let b = b.pop_scope_releasing_keep(&keep);
    let b = b.pop_scope_releasing_keep(&keep);
    if !b.is_terminated() {
        let b = if coerced && return_opens_box(body_ty, effective_ret) && raw != ret_temp {
            b.emit(Instruction::FreeBoxShell { val: raw })
        } else {
            b
        };
        if void_ret {
            b.terminate(Terminator::Return(None))
        } else {
            b.terminate(Terminator::Return(Some(ret_temp)))
        }
    } else {
        b
    }
}

/// Ends a function: converts the result, frees the heap cells that do not outlive the
/// function, ends the two scopes and returns. The block in which it ends is ended.
pub fn finish_body(
    raw0: Temp,
    body_ty: &Type,
    effective_ret: &Type,
    void_ret: bool,
    b: &mut FuncBuilder,
)
    ensures
        final(b)@ == finish_body_spec(raw0, body_ty, effective_ret, void_ret, old(b)@),
        old(b)@.env.scopes.len() >= 2 ==> grown(old(b)@, final(b)@, -2),
        old(b)@.wf() && temp_ok(raw0, old(b)@.temp_types.len())
            ==> final(b)@.wf() && final(b)@.is_terminated(),
{
    reveal(finish_body_spec);
    proof {
        reveal(FState::terminate);
        reveal(FState::is_terminated);
    }
    let raw = own_returned_box(raw0, body_ty, b);
    let coerced = !b.is_current_block_terminated() && return_differs(body_ty, effective_ret);
    let ret_temp = if coerced {
        b.coerce(raw, body_ty, effective_ret)
    } else {
        raw
    };
    let keep = if void_ret {
        List::Nil
    } else if coerced && return_copies(body_ty, effective_ret) {
        one(ret_temp)
    } else {
        two(ret_temp, raw)
    };
    if !b.is_current_block_terminated() {
        let cells = b.env.created_cells.dup();
        free_new_cells(&cells, 0, BlockId(0), &keep, b);
    }
    b.pop_scope_releasing_keep(&keep);
    b.pop_scope_releasing_keep(&keep);
    if !b.is_current_block_terminated() {
        if coerced && return_opens_box(body_ty, effective_ret) && raw != ret_temp {
            b.emit(Instruction::FreeBoxShell { val: raw });
        }
        if void_ret {
            b.terminate(Terminator::Return(None));
        } else {
            b.terminate(Terminator::Return(Some(ret_temp)));
        }
    }
}

/// What a closure captures, and how its environment gives it up.
pub struct CaptureTemp {
    pub temp: Temp,
    pub kind: CaptureRelease,
}

/// How the environment of a closure gives up a counted pointer.
pub open spec fn release_kind_spec(ty: &Type) -> CaptureRelease {
    match ty {
        Type::Str => CaptureRelease::Str,
        Type::StrLit(_) => CaptureRelease::Str,
        Type::Array(_) => CaptureRelease::Array,
        Type::FixedArray(_) => CaptureRelease::Array,
        Type::Object { .. } => if is_sealed_scalar_repr(ty) {
            CaptureRelease::Sealed
        } else {
            CaptureRelease::Object
        },
        Type::Function { .. } => CaptureRelease::Closure,
        _ => CaptureRelease::Plain,
    }
}

/// How the environment of a closure gives up a counted pointer.
#[verifier::when_used_as_spec(release_kind_spec)]
pub fn release_kind(ty: &Type) -> (r: CaptureRelease)
    ensures
        r == release_kind_spec(ty),
{
    match ty {
        Type::Str => CaptureRelease::Str,
        Type::StrLit(_) => CaptureRelease::Str,
        Type::Array(_) => CaptureRelease::Array,
        Type::FixedArray(_) => CaptureRelease::Array,
        Type::Object { .. } => if is_sealed_scalar_repr(ty) {
            CaptureRelease::Sealed
        } else {
            CaptureRelease::Object
        },
        Type::Function { .. } => CaptureRelease::Closure,
        _ => CaptureRelease::Plain,
    }
}

/// What `capture_base` does to the state, where `l` lowers the expressions inside.
#[verifier::opaque]
pub open spec fn capture_base_spec(l: Lower, cap: &Capture, s: St) -> (St, Temp) {
    match s.b.slot(cap.outer_slot) {
        Some(t) => (s, t),
        None => match s.c.packed(cap.outer_slot) {
            Some(p) => on(s, materialize_packed_spec(&p, s.b)),
            None => on(s, s.b.alloc_temp(cap.ty.dup())),
        },
    }
}

/// The temporary that holds a captured variable. An element of a packed array is made; a
/// variable that nothing holds is undefined.
pub fn capture_base(cap: &Capture, b: &mut FuncBuilder, ctx: &mut LowerCtx) -> (r: Temp)
    ensures
        (st(final(b), final(ctx)), r) == capture_base_spec(
            lower_at(old(ctx).room.left()),
            cap,
            st(old(b), old(ctx)),
        ),
        ran(*old(b), *old(ctx), *final(b), *final(ctx)),
        valid(st(old(b), old(ctx)))
            ==> valid(st(final(b), final(ctx))) && temp_ok(r, final(b)@.temp_types.len()),
        *final(ctx) == *old(ctx),
    decreases old(ctx).room.left(), 1nat, 0nat,
{
    reveal(capture_base_spec);
    match b.slot(cap.outer_slot) {
        Some(t) => t,
        None => match ctx.packed(cap.outer_slot) {
            Some(p) => materialize_packed(&p, b),
            None => b.alloc_temp(cap.ty.dup()),
        },
    }
}

/// What `materialize_packed` does to the function under construction.
#[verifier::opaque]
pub open spec fn materialize_packed_spec(p: &PackedElem, b: FState) -> (FState, Temp) {
    let (b, dst) = b.index(
        p.array,
        p.index,
        &Type::Array(Rc::new(p.elem_ty.dup())),
        &Type::Int64,
        &p.elem_ty,
        false,
    );
    let b = b.register_owned(dst, p.elem_ty.dup());
    (b, dst)
}

/// Makes the element of a packed array, which the scope owns.
pub fn materialize_packed(p: &PackedElem, b: &mut FuncBuilder) -> (r: Temp)
    ensures
        (final(b)@, r) == materialize_packed_spec(p, old(b)@),
        grown(old(b)@, final(b)@, 0),
        old(b)@.wf() && packed_elem_ok(p, old(b)@.temp_types.len())
            ==> final(b)@.wf() && temp_ok(r, final(b)@.temp_types.len()),
{
    reveal(materialize_packed_spec);
    let dst = b.index(
        p.array,
        p.index,
        &Type::Array(Rc::new(p.elem_ty.dup())),
        &Type::Int64,
        &p.elem_ty,
        false,
    );
    b.register_owned(dst, p.elem_ty.dup());
    dst
}

/// What `lower_capture` does to the state, where `l` lowers the expressions inside.
#[verifier::opaque]
pub open spec fn lower_capture_spec(l: Lower, cap: &Capture, s: St) -> (St, CaptureTemp) {
    let (s, base) = capture_base_spec(l, cap, s);
    if cap.is_mutable || !needs_owning(&cap.ty) {
        (s, CaptureTemp { temp: base, kind: CaptureRelease::Plain })
    } else {
        if type_is_streamish_ir(&cap.ty) {
            let s = on_b(s, s.b.unregister_owned(base));
            (s, CaptureTemp { temp: base, kind: CaptureRelease::Move })
        } else {
            if is_union_ty(&cap.ty) {
                let (s, owned) = on(s, s.b.clone_box(base, &cap.ty));
                (s, CaptureTemp { temp: owned, kind: CaptureRelease::Tagged })
            } else {
                let s = on_b(s, s.b.emit(Instruction::Retain { val: base, ty: cap.ty.dup() }));
                (s, CaptureTemp { temp: base, kind: release_kind(&cap.ty) })
            }
        }
    }
}

/// Captures a variable. A variable that may be assigned to is captured with its cell; a
/// stream moves; a box is copied; a counted pointer is counted once more.
pub fn lower_capture(cap: &Capture, b: &mut FuncBuilder, ctx: &mut LowerCtx) -> (r: CaptureTemp)
    ensures
        (st(final(b), final(ctx)), r) == lower_capture_spec(
            lower_at(old(ctx).room.left()),
            cap,
            st(old(b), old(ctx)),
        ),
        ran(*old(b), *old(ctx), *final(b), *final(ctx)),
        valid(st(old(b), old(ctx)))
            ==> valid(st(final(b), final(ctx))) && capture_temp_ok(&r, final(b)@.temp_types.len()),
        *final(ctx) == *old(ctx),
    decreases old(ctx).room.left(), 2nat, 0nat,
{
    reveal(lower_capture_spec);
    let base = capture_base(cap, b, ctx);
    if cap.is_mutable || !needs_owning(&cap.ty) {
        return CaptureTemp { temp: base, kind: CaptureRelease::Plain };
    }
    if type_is_streamish_ir(&cap.ty) {
        b.unregister_owned(base);
        return CaptureTemp { temp: base, kind: CaptureRelease::Move };
    }
    if is_union_ty(&cap.ty) {
        let owned = b.clone_box(base, &cap.ty);
        return CaptureTemp { temp: owned, kind: CaptureRelease::Tagged };
    }
    b.emit(Instruction::Retain { val: base, ty: cap.ty.dup() });
    CaptureTemp { temp: base, kind: release_kind(&cap.ty) }
}

/// The captured values of a closure, and how each is given up.
pub struct CaptureTemps {
    pub temps: List<Temp>,
    pub kinds: List<CaptureRelease>,
}

/// What `lower_captures` does to the state, where `l` lowers the expressions inside.
#[verifier::opaque]
pub open spec fn lower_captures_spec(
    l: Lower,
    captures: &List<Capture>,
    s: St,
) -> (St, CaptureTemps)
    decreases captures,
{
    match captures {
        List::Nil => (s, CaptureTemps { temps: List::Nil, kinds: List::Nil }),
        List::Cons(n) => {
            let (s, c) = lower_capture_spec(l, &n.head, s);
            let (s, rest) = lower_captures_spec(l, &n.tail, s);
            (
                s,
                CaptureTemps {
                    temps: prepend(c.temp, rest.temps),
                    kinds: prepend(c.kind, rest.kinds),
                },
            )
        },
    }
}

/// Captures the variables in order.
pub fn lower_captures(
    captures: &List<Capture>,
    b: &mut FuncBuilder,
    ctx: &mut LowerCtx,
) -> (r: CaptureTemps)
    ensures
        (st(final(b), final(ctx)), r) == lower_captures_spec(
            lower_at(old(ctx).room.left()),
            captures,
            st(old(b), old(ctx)),
        ),
        ran(*old(b), *old(ctx), *final(b), *final(ctx)),
        valid(st(old(b), old(ctx)))
            ==> valid(st(final(b), final(ctx))) && capture_temps_ok(&r, final(b)@.temp_types.len()),
        *final(ctx) == *old(ctx),
    decreases old(ctx).room.left(), 3nat, captures.len(),
{
    reveal(lower_captures_spec);
    match captures {
        List::Nil => CaptureTemps { temps: List::Nil, kinds: List::Nil },
        List::Cons(n) => {
            let c = lower_capture(&n.head, b, ctx);
            let rest = lower_captures(&n.tail, b, ctx);
            CaptureTemps { temps: prepend(c.temp, rest.temps), kinds: prepend(c.kind, rest.kinds) }
        },
    }
}

/// The temporary is a heap cell that the function made.
pub open spec fn is_created_cell_spec(cells: &List<Cell>, t: Temp) -> bool
    decreases cells,
{
    match cells {
        List::Nil => false,
        List::Cons(n) => n.head.temp == t || is_created_cell(&n.tail, t),
    }
}

/// Whether the temporary is a heap cell that the function made.
#[verifier::when_used_as_spec(is_created_cell_spec)]
pub fn is_created_cell(cells: &List<Cell>, t: Temp) -> (r: bool)
    ensures
        r == is_created_cell_spec(cells, t),
    decreases cells,
{
    match cells {
        List::Nil => false,
        List::Cons(n) => n.head.temp == t || is_created_cell(&n.tail, t),
    }
}

/// What `mark_captured_cells` does to the function under construction.
#[verifier::opaque]
pub open spec fn mark_captured_cells_spec(temps: &List<Temp>, b: FState) -> FState
    decreases temps,
{
    match temps {
        List::Nil => b,
        List::Cons(n) => {
            let b = if is_created_cell(&b.env.created_cells, n.head) {
                b.mark_escaping(n.head)
            } else {
                b
            };
            mark_captured_cells_spec(&n.tail, b)
        },
    }
}

/// Records of the captured heap cells that they outlive the function.
pub fn mark_captured_cells(temps: &List<Temp>, b: &mut FuncBuilder)
    ensures
        final(b)@ == mark_captured_cells_spec(temps, old(b)@),
        grown(old(b)@, final(b)@, 0),
        old(b)@.wf() && temps_ok(temps, old(b)@.temp_types.len()) ==> final(b)@.wf(),
    decreases temps,
{
    reveal(mark_captured_cells_spec);
    proof {
        temps_tail(temps, old(b)@.temp_types.len());
    }
    match temps {
        List::Nil => {},
        List::Cons(n) => {
            if is_created_cell(&b.env.created_cells, n.head) {
                b.mark_escaping(n.head);
            }
            mark_captured_cells(&n.tail, b);
        },
    }
}

/// What `lower_function_expr_with_id` does to the state, where `l` lowers the expressions inside.
#[verifier::opaque]
pub open spec fn lower_function_expr_with_id_spec(
    l: Lower,
    forced_fid: Option<FuncId>,
    forced_ret: Option<&Type>,
    name: Option<Text>,
    params: &List<TypedParam>,
    body: &TypedExpr,
    ret_type: &Type,
    captures: &List<Capture>,
    s: St,
) -> (St, Temp) {
    let (s, fid) = match forced_fid {
        Some(f) => (s, f),
        None => on_ctx(s, s.c.alloc_func_id()),
    };
    let (s, outer) = on(
        s,
        s.b.enter_function(fid, name, !captures.is_empty(), ret_type.dup(), body.span()),
    );
    let effective_ret = effective_return(forced_ret, forced_fid.is_none(), ret_type);
    let (s, saved_packed) = lower_function_body_spec(
        l,
        params,
        body,
        &effective_ret,
        returns_nothing(ret_type),
        captures,
        s,
    );
    let exhausted = s.b.env.exhausted;
    let (s, inner_fn) = on(s, s.b.leave_function(outer, effective_ret));
    let s = on_c(s, s.c.push_pending(inner_fn));
    let s = on_c(s, s.c.note_exhausted(exhausted));
    let s = on_c(s, s.c.restore_packed(saved_packed));
    let (s, caps) = lower_captures_spec(l, captures, s);
    let s = if !s.c.env.in_safe_callback {
        on_b(s, mark_captured_cells_spec(&caps.temps, s.b))
    } else {
        s
    };
    let closure_ty = function_type(params, ret_type);
    let (s, dst) = on(s, s.b.alloc_temp(closure_ty.dup()));
    let s = on_b(
        s,
        s.b.emit(
            Instruction::MakeClosure {
                dst,
                func: fid,
                captures: caps.temps,
                capture_kinds: caps.kinds,
                ret_ty: closure_ty.dup(),
            },
        ),
    );
    let s = on_b(s, s.b.register_owned(dst, closure_ty.dup()));
    (s, dst)
}

/// Lowers a function literal: its body as a function of its own, and here the closure.
///
/// With `forced_fid` the function has that number and is known under its own name; without,
/// it is known only as a value and returns a box, unless `forced_ret` says otherwise.
pub fn lower_function_expr_with_id(
    forced_fid: Option<FuncId>,
    forced_ret: Option<&Type>,
    name: Option<Text>,
    params: &List<TypedParam>,
    body: &TypedExpr,
    ret_type: &Type,
    captures: &List<Capture>,
    b: &mut FuncBuilder,
    ctx: &mut LowerCtx,
) -> (r: Temp)
    ensures
        (st(final(b), final(ctx)), r) == lower_function_expr_with_id_spec(
            lower_at(old(ctx).room.left()),
            forced_fid,
            forced_ret,
            name,
            params,
            body,
            ret_type,
            captures,
            st(old(b), old(ctx)),
        ),
        ran(*old(b), *old(ctx), *final(b), *final(ctx)),
        valid(st(old(b), old(ctx)))
            ==> valid(st(final(b), final(ctx))) && temp_ok(r, final(b)@.temp_types.len()),
        final(ctx).env.packed_elem_slots == old(ctx).env.packed_elem_slots,
    decreases old(ctx).room.left(), 7nat, 0nat,
{
    reveal(lower_function_expr_with_id_spec);
    let fid = match forced_fid {
        Some(f) => f,
        None => ctx.alloc_func_id(),
    };
    let outer = b.enter_function(fid, name, !captures.is_empty(), ret_type.dup(), body.span());
    let effective_ret = effective_return(forced_ret, forced_fid.is_none(), ret_type);
    let saved_packed = lower_function_body(
        params,
        body,
        &effective_ret,
        returns_nothing(ret_type),
        captures,
        b,
        ctx,
    );
    let exhausted = b.env.exhausted;
    let inner_fn = b.leave_function(outer, effective_ret);
    ctx.push_pending(inner_fn);
    ctx.note_exhausted(exhausted);
    ctx.restore_packed(saved_packed);
    let caps = lower_captures(captures, b, ctx);
    if !ctx.env.in_safe_callback {
        mark_captured_cells(&caps.temps, b);
    }
    let closure_ty = function_type(params, ret_type);
    let dst = b.alloc_temp(closure_ty.dup());
    b.emit(
        Instruction::MakeClosure {
            dst,
            func: fid,
            captures: caps.temps,
            capture_kinds: caps.kinds,
            ret_ty: closure_ty.dup(),
        },
    );
    b.register_owned(dst, closure_ty.dup());
    dst
}

/// What `lower_function_body` does to the state, where `l` lowers the expressions inside.
#[verifier::opaque]
pub open spec fn lower_function_body_spec(
    l: Lower,
    params: &List<TypedParam>,
    body: &TypedExpr,
    effective_ret: &Type,
    void_ret: bool,
    captures: &List<Capture>,
    s: St,
) -> (St, List<Entry<PackedElem>>) {
    let (s, env) = on(s, begin_params_spec(params, !captures.is_empty(), s.b));
    let s = match env {
        Some(env_temp) => on_b(s, read_captures_spec(captures, env_temp, 0, s.b)),
        None => s,
    };
    let s = on_b(s, s.b.push_scope());
    let s = on_b(s, own_function_params_spec(params, s.b));
    let s = on_b(s, s.b.push_scope());
    let s = on_b(s, declare_params_spec(params, 1, body.span(), s.b));
    let (s, prologue) = on_ctx(s, s.c.take_prologue());
    let s = match prologue {
        Some(sym) => {
            let (s, _) = on(s, s.b.call(CallTarget::Named(sym), List::Nil, &Type::Null));
            s
        },
        None => s,
    };
    let (s, saved_packed) = on_ctx(s, s.c.take_packed());
    let s = on_b(s, s.b.scan_body(body));
    let (s, raw) = lower_body_value_spec(l, body, effective_ret, s);
    let body_ty = s.b.temp_ty_or(raw, body.ty());
    let s = on_b(s, finish_body_spec(raw, &body_ty, effective_ret, void_ret, s.b));
    (s, saved_packed)
}

/// Lowers the parameters and the body of a function that has just been begun. The variables
/// outside it that stand for elements of packed arrays do not do so in it; they are returned.
pub fn lower_function_body(
    params: &List<TypedParam>,
    body: &TypedExpr,
    effective_ret: &Type,
    void_ret: bool,
    captures: &List<Capture>,
    b: &mut FuncBuilder,
    ctx: &mut LowerCtx,
) -> (r: List<Entry<PackedElem>>)
    ensures
        (st(final(b), final(ctx)), r) == lower_function_body_spec(
            lower_at(old(ctx).room.left()),
            params,
            body,
            effective_ret,
            void_ret,
            captures,
            st(old(b), old(ctx)),
        ),
        grown(old(b)@, final(b)@, 0),
        ctx_kept(*old(ctx), *final(ctx)),
        r == old(ctx).env.packed_elem_slots,
        old(b)@.wf() && old(ctx)@.functions_ok() ==> final(b)@.wf() && final(ctx)@.functions_ok(),
    decreases old(ctx).room.left(), 6nat, 0nat,
{
    reveal(lower_function_body_spec);
    let env = begin_params(params, !captures.is_empty(), b);
    match env {
        Some(env_temp) => {
            read_captures(captures, env_temp, 0, b);
        },
        None => {},
    }
    b.push_scope();
    own_function_params(params, b);
    b.push_scope();
    declare_params(params, 1, body.span(), b);
    let prologue = ctx.take_prologue();
    match prologue {
        Some(sym) => {
            b.call(CallTarget::Named(sym), List::Nil, &Type::Null);
        },
        None => {},
    }
    let saved_packed = ctx.take_packed();
    b.scan_body(body);
    let raw = lower_body_value(body, effective_ret, b, ctx);
    let body_ty = b.temp_ty_or(raw, body.ty());
    finish_body(raw, &body_ty, effective_ret, void_ret, b);
    saved_packed
}

/// The name of a function literal.
pub open spec fn text_name_spec(name: &Option<String>) -> Option<Text> {
    match name {
        Some(n) => Some(Text::Owned(dup_str(n))),
        None => None,
    }
}

/// The name of a function literal.
#[verifier::when_used_as_spec(text_name_spec)]
pub fn text_name(name: &Option<String>) -> (r: Option<Text>)
    ensures
        r == text_name_spec(name),
{
    match name {
        Some(n) => Some(Text::Owned(dup_str(n))),
        None => None,
    }
}

/// What `lower_function_expr` does to the state, where `l` lowers the expressions inside.
#[verifier::opaque]
pub open spec fn lower_function_expr_spec(
    l: Lower,
    name: &Option<String>,
    params: &List<TypedParam>,
    body: &TypedExpr,
    ret_type: &Type,
    captures: &List<Capture>,
    s: St,
) -> (St, Temp) {
    lower_function_expr_with_id_spec(
        l,
        None,
        None,
        text_name(name),
        params,
        body,
        ret_type,
        captures,
        s,
    )
}

/// Lowers a function literal that is known only as a value.
pub fn lower_function_expr(
    name: &Option<String>,
    params: &List<TypedParam>,
    body: &TypedExpr,
    ret_type: &Type,
    captures: &List<Capture>,
    b: &mut FuncBuilder,
    ctx: &mut LowerCtx,
) -> (r: Temp)
    ensures
        (st(final(b), final(ctx)), r) == lower_function_expr_spec(
            lower_at(old(ctx).room.left()),
            name,
            params,
            body,
            ret_type,
            captures,
            st(old(b), old(ctx)),
        ),
        ran(*old(b), *old(ctx), *final(b), *final(ctx)),
        valid(st(old(b), old(ctx)))
            ==> valid(st(final(b), final(ctx))) && temp_ok(r, final(b)@.temp_types.len()),
    decreases old(ctx).room.left(), 8nat, 0nat,
{
    reveal(lower_function_expr_spec);
    lower_function_expr_with_id(
        None,
        None,
        text_name(name),
        params,
        body,
        ret_type,
        captures,
        b,
        ctx,
    )
}

/// What `lower_callback_arg` does to the state, where `l` lowers the expressions inside.
#[verifier::opaque]
pub open spec fn lower_callback_arg_spec(
    l: Lower,
    forced_ret: &Type,
    name: &Option<String>,
    params: &List<TypedParam>,
    body: &TypedExpr,
    ret_type: &Type,
    captures: &List<Capture>,
    s: St,
) -> (St, Temp) {
    lower_function_expr_with_id_spec(
        l,
        None,
        Some(forced_ret),
        text_name(name),
        params,
        body,
        ret_type,
        captures,
        s,
    )
}

/// Lowers a function literal that is passed where a function with the result type
/// `forced_ret` is expected.
pub fn lower_callback_arg(
    forced_ret: &Type,
    name: &Option<String>,
    params: &List<TypedParam>,
    body: &TypedExpr,
    ret_type: &Type,
    captures: &List<Capture>,
    b: &mut FuncBuilder,
    ctx: &mut LowerCtx,
) -> (r: Temp)
    ensures
        (st(final(b), final(ctx)), r) == lower_callback_arg_spec(
            lower_at(old(ctx).room.left()),
            forced_ret,
            name,
            params,
            body,
            ret_type,
            captures,
            st(old(b), old(ctx)),
        ),
        ran(*old(b), *old(ctx), *final(b), *final(ctx)),
        valid(st(old(b), old(ctx)))
            ==> valid(st(final(b), final(ctx))) && temp_ok(r, final(b)@.temp_types.len()),
    decreases old(ctx).room.left(), 8nat, 0nat,
{
    reveal(lower_callback_arg_spec);
    lower_function_expr_with_id(
        None,
        Some(forced_ret),
        text_name(name),
        params,
        body,
        ret_type,
        captures,
        b,
        ctx,
    )
}

/// The pieces of an interpolated string, and those of them that were made for it.
pub struct StringParts {
    pub temps: List<Temp>,
    pub owned: List<Temp>,
}

/// What `lower_string_parts` does to the state, where `l` lowers the expressions inside.
#[verifier::opaque]
pub open spec fn lower_string_parts_spec(
    l: Lower,
    parts: &List<TypedStringPart>,
    s: St,
) -> (St, StringParts)
    decreases parts,
{
    match parts {
        List::Nil => (s, StringParts { temps: List::Nil, owned: List::Nil }),
        List::Cons(n) => match &n.head {
            TypedStringPart::Literal(text) => {
                let (s, t) = on(s, s.b.const_temp(Const::Str(Text::Owned(dup_str(text)))));
                let (s, rest) = lower_string_parts_spec(l, &n.tail, s);
                (s, StringParts { temps: prepend(t, rest.temps), owned: rest.owned })
            },
            TypedStringPart::Expr(e) => {
                let (s, val) = low(l, e, s);
                let (s, t) = on(s, s.b.call_intrinsic(Intrinsic::ToString, one(val), &Type::Str));
                let (s, rest) = lower_string_parts_spec(l, &n.tail, s);
                (s, StringParts { temps: prepend(t, rest.temps), owned: prepend(t, rest.owned) })
            },
        },
    }
}

/// Lowers the pieces of an interpolated string in order; values are turned to strings.
pub fn lower_string_parts(
    parts: &List<TypedStringPart>,
    b: &mut FuncBuilder,
    ctx: &mut LowerCtx,
) -> (r: StringParts)
    ensures
        (st(final(b), final(ctx)), r) == lower_string_parts_spec(
            lower_at(old(ctx).room.left()),
            parts,
            st(old(b), old(ctx)),
        ),
        ran(*old(b), *old(ctx), *final(b), *final(ctx)),
        valid(st(old(b), old(ctx)))
            ==> valid(st(final(b), final(ctx))) && string_parts_ok(&r, final(b)@.temp_types.len()),
    decreases old(ctx).room.left(), 1nat, parts.len(),
{
    reveal(lower_string_parts_spec);
    match parts {
        List::Nil => StringParts { temps: List::Nil, owned: List::Nil },
        List::Cons(n) => match &n.head {
            TypedStringPart::Literal(text) => {
                let t = b.const_temp(Const::Str(Text::Owned(dup_str(text))));
                let rest = lower_string_parts(&n.tail, b, ctx);
                StringParts { temps: prepend(t, rest.temps), owned: rest.owned }
            },
            TypedStringPart::Expr(e) => {
                let val = lower_expr(e, b, ctx);
                let t = b.call_intrinsic(Intrinsic::ToString, one(val), &Type::Str);
                let rest = lower_string_parts(&n.tail, b, ctx);
                StringParts { temps: prepend(t, rest.temps), owned: prepend(t, rest.owned) }
            },
        },
    }
}

/// What `release_strings` does to the function under construction.
#[verifier::opaque]
pub open spec fn release_strings_spec(temps: &List<Temp>, b: FState) -> FState
    decreases temps,
{
    match temps {
        List::Nil => b,
        List::Cons(n) => {
            let b = b.emit(Instruction::Release { val: n.head, ty: Type::Str });
            release_strings_spec(&n.tail, b)
        },
    }
}

/// Releases strings.
pub fn release_strings(temps: &List<Temp>, b: &mut FuncBuilder)
    ensures
        final(b)@ == release_strings_spec(temps, old(b)@),
        grown(old(b)@, final(b)@, 0),
        old(b)@.wf() && temps_ok(temps, old(b)@.temp_types.len()) ==> final(b)@.wf(),
    decreases temps,
{
    reveal(release_strings_spec);
    proof {
        temps_tail(temps, old(b)@.temp_types.len());
    }
    match temps {
        List::Nil => {},
        List::Cons(n) => {
            b.emit(Instruction::Release { val: n.head, ty: Type::Str });
            release_strings(&n.tail, b);
        },
    }
}

/// The one piece of a string that is a single literal.
pub open spec fn single_literal_spec(parts: &StringParts) -> Option<Temp> {
    match &parts.temps {
        List::Nil => None,
        List::Cons(n) => if n.tail.is_empty() && parts.owned.is_empty() {
            Some(n.head)
        } else {
            None
        },
    }
}

/// The one piece of a string that is a single literal.
#[verifier::when_used_as_spec(single_literal_spec)]
pub fn single_literal(parts: &StringParts) -> (r: Option<Temp>)
    ensures
        r == single_literal_spec(parts),
        forall|n: nat| #[trigger] string_parts_ok(parts, n) ==> otemp_ok(r, n),
{
    match &parts.temps {
        List::Nil => None,
        List::Cons(n) => if n.tail.is_empty() && parts.owned.is_empty() {
            Some(n.head)
        } else {
            None
        },
    }
}

/// What `lower_string_interp` does to the state, where `l` lowers the expressions inside.
#[verifier::opaque]
pub open spec fn lower_string_interp_spec(
    l: Lower,
    parts: &List<TypedStringPart>,
    s: St,
) -> (St, Temp) {
    if parts.is_empty() {
        on(s, s.b.const_temp(Const::Str(Text::Fixed(""))))
    } else {
        let (s, pieces) = lower_string_parts_spec(l, parts, s);
        match single_literal(&pieces) {
            Some(t) => (s, t),
            None => {
                let (s, dst) = on(
                    s,
                    s.b.call_intrinsic(Intrinsic::StringBuildN, pieces.temps.dup(), &Type::Str),
                );
                let s = on_b(s, release_strings_spec(&pieces.owned, s.b));
                let s = on_b(s, s.b.register_owned(dst, Type::Str));
                (s, dst)
            },
        }
    }
}

/// Lowers an interpolated string. A string without pieces is the empty constant, a single
/// literal is itself; otherwise the pieces are put together, and those that were made for it
/// are released.
pub fn lower_string_interp(
    parts: &List<TypedStringPart>,
    b: &mut FuncBuilder,
    ctx: &mut LowerCtx,
) -> (r: Temp)
    ensures
        (st(final(b), final(ctx)), r) == lower_string_interp_spec(
            lower_at(old(ctx).room.left()),
            parts,
            st(old(b), old(ctx)),
        ),
        ran(*old(b), *old(ctx), *final(b), *final(ctx)),
        valid(st(old(b), old(ctx)))
            ==> valid(st(final(b), final(ctx))) && temp_ok(r, final(b)@.temp_types.len()),
    decreases old(ctx).room.left(), 2nat, 0nat,
{
    reveal(lower_string_interp_spec);
    if parts.is_empty() {
        return b.const_temp(Const::Str(Text::Fixed("")));
    }
    let pieces = lower_string_parts(parts, b, ctx);
    match single_literal(&pieces) {
        Some(t) => {
            return t;
        },
        None => {},
    }
    let dst = b.call_intrinsic(Intrinsic::StringBuildN, pieces.temps.dup(), &Type::Str);
    release_strings(&pieces.owned, b);
    b.register_owned(dst, Type::Str);
    dst
}

} // verus!
