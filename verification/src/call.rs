//! Lowering of calls.

use crate::analysis::expr_is_fresh_alloc;
use crate::ast::TypedExpr;
use crate::builder::{FState, FuncBuilder, Owned, grown};
use crate::coerce::{
    anon_object_slot_repr_differs, free_arg_box_shells, free_arg_box_shells_spec, hand_over_closure,
    hand_over_closure_spec, lower_coerce_arg, lower_coerce_arg_spec, move_streamish_arg,
    move_streamish_arg_spec, retain_call_arg, retain_call_arg_spec,
};
use crate::collect::{
    first_type, later_types, lower_filter, lower_filter_spec, lower_flatmap_terminal,
    lower_flatmap_terminal_spec, lower_map, lower_map_spec, lower_reduce, lower_reduce_spec,
    lower_sort, lower_sort_spec,
};
use crate::combinator::{
    lower_entries_inline, lower_entries_inline_spec, lower_every, lower_every_spec, lower_find,
    lower_find_spec, lower_for, lower_for_spec, lower_iter, lower_iter_spec, lower_range,
    lower_range_spec, lower_some, lower_some_spec, lower_while, lower_while_spec,
    lower_zero_arg_while, lower_zero_arg_while_spec,
};
use crate::ctx::{
    CState, ImportFn, Lower, LowerCtx, St, low, on, on_b, on_c, on_ctx, ran, st, valid,
};
use crate::expr::{lower_at, lower_expr};
use crate::func::{lower_callback_arg, lower_callback_arg_spec, returns_nothing};
use crate::ir::{CallTarget, FuncId, Instruction, Intrinsic, Temp, Terminator};
use crate::list::{List, prepend};
use crate::literal::{gives_all_fields, try_lower_sealed_literal, try_lower_sealed_literal_spec};
use crate::loops::{count, lower_exprs, lower_exprs_spec};
use crate::names::{Builtin, builtin_of, sym_starts};
use crate::recognize::{
    array_op_intrinsic_name, callee_is_flatmap, callee_is_flatmap_spec,
    concrete_array_shortcircuit_intrinsic_name, concrete_array_shortcircuit_intrinsic_name_for_spec,
    fn_params, one_arg, packed_array_combinator_intrinsic_name, range_for_bounds,
    range_for_bounds_spec, stream_combinator_intrinsic_name, two_args,
};
use crate::repr::{
    arg_box_is_caller_owned_scalar_shell, arg_box_is_caller_owned_shell, is_nullable_sealed_record,
    is_rc_type, is_sealed_scalar_repr, is_union_ty, sealed_array_arg_materialized, sealed_fields,
    sealed_record_arg_materialized, sum_type_eligible,
};
use crate::text::{Text, is_str, join};
use crate::types::{Field, Type, all_sealed_fields, dup_str, json};
use crate::valid::{
    callee_ok, group_valid, lowered_args_ok, otemp_ok, owned_ok, owned_tail, temp_ok, temps_ok,
    temps_tail, tracked_arg_ok,
};
use vstd::prelude::*;

verus! {

broadcast use group_valid;

/// Every type is held without a box.
pub open spec fn no_boxes_spec(params: &List<Type>) -> bool
    decreases params,
{
    match params {
        List::Nil => true,
        List::Cons(n) => !is_union_ty(&n.head) && no_boxes(&n.tail),
    }
}

/// Whether every type is held without a box.
#[verifier::when_used_as_spec(no_boxes_spec)]
pub fn no_boxes(params: &List<Type>) -> (r: bool)
    ensures
        r == no_boxes_spec(params),
    decreases params,
{
    match params {
        List::Nil => true,
        List::Cons(n) => !is_union_ty(&n.head) && no_boxes(&n.tail),
    }
}

/// The result type in which a function literal that is passed has to return.
pub open spec fn native_callback_ret_spec<'a>(param_ty: Option<&'a Type>) -> Option<&'a Type> {
    match param_ty {
        Some(Type::Function { params, ret, .. }) => {
            if no_boxes(params) && !is_union_ty(ret) && !returns_nothing(ret) {
                Some(&**ret)
            } else {
                None
            }
        },
        _ => None,
    }
}

/// The result type in which a function literal that is passed for a parameter has to return:
/// that of the parameter, where neither it nor a parameter of it is a box.
#[verifier::when_used_as_spec(native_callback_ret_spec)]
pub fn native_callback_ret<'a>(param_ty: Option<&'a Type>) -> (r: Option<&'a Type>)
    ensures
        r == native_callback_ret_spec(param_ty),
{
    match param_ty {
        Some(Type::Function { params, ret, .. }) => if no_boxes(params)
            && !is_union_ty(ret)
            && !returns_nothing(ret) {
            Some(&**ret)
        } else {
            None
        },
        _ => None,
    }
}

/// Every field is a scalar, a truth value or a string.
pub open spec fn scalar_or_string_fields_spec(fields: &List<Field>) -> bool
    decreases fields,
{
    match fields {
        List::Nil => true,
        List::Cons(n) => {
            (
                n.head.ty.is_flat_scalar()
                    || n.head.ty.is_string_ish()
                    || matches!(n.head.ty, Type::Bool)
            )
                && scalar_or_string_fields(&n.tail)
        },
    }
}

/// Whether every field is a scalar, a truth value or a string.
#[verifier::when_used_as_spec(scalar_or_string_fields_spec)]
pub fn scalar_or_string_fields(fields: &List<Field>) -> (r: bool)
    ensures
        r == scalar_or_string_fields_spec(fields),
    decreases fields,
{
    match fields {
        List::Nil => true,
        List::Cons(n) => (
            n.head.ty.is_flat_scalar()
                || n.head.ty.is_string_ish()
                || matches!(n.head.ty, Type::Bool)
        )
            && scalar_or_string_fields(&n.tail),
    }
}

/// The type of a parameter that takes packed records of scalars and strings.
pub open spec fn scalar_record_param_spec<'a>(param_ty: Option<&'a Type>) -> Option<&'a Type> {
    match param_ty {
        Some(pt) => match sealed_fields(pt) {
            Some(fields) => if scalar_or_string_fields(&fields) {
                Some(pt)
            } else {
                None
            },
            None => None,
        },
        None => None,
    }
}

/// The type of a parameter that takes packed records of scalars and strings.
#[verifier::when_used_as_spec(scalar_record_param_spec)]
pub fn scalar_record_param<'a>(param_ty: Option<&'a Type>) -> (r: Option<&'a Type>)
    ensures
        r == scalar_record_param_spec(param_ty),
{
    match param_ty {
        Some(pt) => match sealed_fields(pt) {
            Some(fields) => if scalar_or_string_fields(&fields) {
                Some(pt)
            } else {
                None
            },
            None => None,
        },
        None => None,
    }
}

/// What `lower_call_arg` does to the state, where `l` lowers the expressions inside.
#[verifier::opaque]
pub open spec fn lower_call_arg_spec(
    l: Lower,
    a: &TypedExpr,
    param_ty: Option<&Type>,
    s: St,
) -> (St, Temp) {
    match (a, native_callback_ret(param_ty)) {
        (TypedExpr::Function { name, params, body, ret_type, captures, .. }, Some(cb_ret)) => {
            lower_callback_arg_spec(l, cb_ret, name, params, body, ret_type, captures, s)
        },
        _ => {
            let (s, lit) = match scalar_record_param(param_ty) {
                Some(pt) => try_lower_sealed_literal_spec(l, a, pt, s),
                None => (s, None),
            };
            match lit {
                Some(t) => (s, t),
                None => {
                    let (s, t) = low(l, a, s);
                    let (s, coerced) = on(s, lower_coerce_arg_spec(t, &a.ty(), param_ty, s.b));
                    let s = on_b(s, move_streamish_arg_spec(&a.ty(), coerced, s.b));
                    (s, coerced)
                },
            }
        },
    }
}

/// Lowers a call argument and converts it to the type of the parameter. A function literal
/// returns as the parameter expects; a record literal becomes a packed record straight away.
pub fn lower_call_arg(
    a: &TypedExpr,
    param_ty: Option<&Type>,
    b: &mut FuncBuilder,
    ctx: &mut LowerCtx,
) -> (r: Temp)
    ensures
        (st(final(b), final(ctx)), r) == lower_call_arg_spec(
            lower_at(old(ctx).room.left()),
            a,
            param_ty,
            st(old(b), old(ctx)),
        ),
        ran(*old(b), *old(ctx), *final(b), *final(ctx)),
        valid(st(old(b), old(ctx)))
            ==> valid(st(final(b), final(ctx))) && temp_ok(r, final(b)@.temp_types.len()),
    decreases old(ctx).room.left(), 9nat, 0nat,
{
    reveal(lower_call_arg_spec);
    match (a, native_callback_ret(param_ty)) {
        (TypedExpr::Function { name, params, body, ret_type, captures, .. }, Some(cb_ret)) => {
            return lower_callback_arg(cb_ret, name, params, body, ret_type, captures, b, ctx);
        },
        _ => {},
    }
    let lit = match scalar_record_param(param_ty) {
        Some(pt) => try_lower_sealed_literal(a, pt, b, ctx),
        None => None,
    };
    match lit {
        Some(t) => {
            return t;
        },
        None => {},
    }
    let t = lower_expr(a, b, ctx);
    let coerced = lower_coerce_arg(t, &a.ty(), param_ty, b);
    move_streamish_arg(&a.ty(), coerced, b);
    coerced
}

/// What `try_lower_sealed_literal_into_named` does to the state, where `l` lowers the expressions
/// inside.
#[verifier::opaque]
pub open spec fn try_lower_sealed_literal_into_named_spec(
    l: Lower,
    a: &TypedExpr,
    param_ty: Option<&Type>,
    s: St,
) -> (St, Option<Temp>) {
    match (param_ty, a, &a.ty()) {
        (
            Some(Type::Named(_)),
            TypedExpr::MakeObject { fields, spreads, .. },
            Type::Object { fields: afields, .. },
        ) => {
            if !spreads.is_empty()
                || afields.is_empty()
                || !all_sealed_fields(afields)
                || !gives_all_fields(afields, fields) {
                (s, None)
            } else {
                try_lower_sealed_literal_spec(l, a, &Type::sealed_object(afields.dup()), s)
            }
        },
        _ => (s, None),
    }
}

/// Lowers a record literal that is passed for a parameter of a named type into a packed
/// record, where its fields may all be packed. `None`, with nothing emitted, otherwise.
pub fn try_lower_sealed_literal_into_named(
    a: &TypedExpr,
    param_ty: Option<&Type>,
    b: &mut FuncBuilder,
    ctx: &mut LowerCtx,
) -> (r: Option<Temp>)
    ensures
        (st(final(b), final(ctx)), r) == try_lower_sealed_literal_into_named_spec(
            lower_at(old(ctx).room.left()),
            a,
            param_ty,
            st(old(b), old(ctx)),
        ),
        ran(*old(b), *old(ctx), *final(b), *final(ctx)),
        valid(st(old(b), old(ctx)))
            ==> valid(st(final(b), final(ctx))) && otemp_ok(r, final(b)@.temp_types.len()),
    decreases old(ctx).room.left(), 3nat, 0nat,
{
    reveal(try_lower_sealed_literal_into_named_spec);
    match (param_ty, a, &a.ty()) {
        (
            Some(Type::Named(_)),
            TypedExpr::MakeObject { fields, spreads, .. },
            Type::Object { fields: afields, .. },
        ) => {
            if !spreads.is_empty()
                || afields.is_empty()
                || !all_sealed_fields(afields)
                || !gives_all_fields(afields, fields) {
                return None;
            }
            try_lower_sealed_literal(a, &Type::sealed_object(afields.dup()), b, ctx)
        },
        _ => None,
    }
}

/// A lowered argument, and the value before it was boxed where the box is a fresh shell
/// around a fresh value.
pub struct TrackedArg {
    pub temp: Temp,
    pub raw: Option<Temp>,
}

/// What `lower_call_arg_tracked` does to the state, where `l` lowers the expressions inside.
#[verifier::opaque]
pub open spec fn lower_call_arg_tracked_spec(
    l: Lower,
    a: &TypedExpr,
    param_ty: Option<&Type>,
    is_callback: bool,
    s: St,
) -> (St, TrackedArg) {
    let (s, named) = try_lower_sealed_literal_into_named_spec(l, a, param_ty, s);
    match named {
        Some(t) => (s, TrackedArg { temp: t, raw: None }),
        None => if arg_box_is_caller_owned_shell(&a.ty(), param_ty) && expr_is_fresh_alloc(a) {
            let (s, raw) = low(l, a, s);
            let (s, coerced) = on(s, lower_coerce_arg_spec(raw, &a.ty(), param_ty, s.b));
            let s = on_b(s, move_streamish_arg_spec(&a.ty(), coerced, s.b));
            if coerced != raw {
                (s, TrackedArg { temp: coerced, raw: Some(raw) })
            } else {
                (s, TrackedArg { temp: coerced, raw: None })
            }
        } else {
            if is_callback {
                let (s, before) = on_ctx(s, s.c.enter_safe());
                let (s, t) = lower_call_arg_spec(l, a, param_ty, s);
                let s = on_c(s, s.c.leave_safe(before));
                (s, TrackedArg { temp: t, raw: None })
            } else {
                let (s, t) = lower_call_arg_spec(l, a, param_ty, s);
                (s, TrackedArg { temp: t, raw: None })
            }
        },
    }
}

/// Lowers a call argument; `is_callback` says that it is a callback that does not escape.
pub fn lower_call_arg_tracked(
    a: &TypedExpr,
    param_ty: Option<&Type>,
    is_callback: bool,
    b: &mut FuncBuilder,
    ctx: &mut LowerCtx,
) -> (r: TrackedArg)
    ensures
        (st(final(b), final(ctx)), r) == lower_call_arg_tracked_spec(
            lower_at(old(ctx).room.left()),
            a,
            param_ty,
            is_callback,
            st(old(b), old(ctx)),
        ),
        ran(*old(b), *old(ctx), *final(b), *final(ctx)),
        valid(st(old(b), old(ctx)))
            ==> valid(st(final(b), final(ctx))) && tracked_arg_ok(&r, final(b)@.temp_types.len()),
    decreases old(ctx).room.left(), 10nat, 0nat,
{
    reveal(lower_call_arg_tracked_spec);
    let named = try_lower_sealed_literal_into_named(a, param_ty, b, ctx);
    match named {
        Some(t) => {
            return TrackedArg { temp: t, raw: None };
        },
        None => {},
    }
    if arg_box_is_caller_owned_shell(&a.ty(), param_ty) && expr_is_fresh_alloc(a) {
        let raw = lower_expr(a, b, ctx);
        let coerced = lower_coerce_arg(raw, &a.ty(), param_ty, b);
        move_streamish_arg(&a.ty(), coerced, b);
        if coerced != raw {
            return TrackedArg { temp: coerced, raw: Some(raw) };
        }
        return TrackedArg { temp: coerced, raw: None };
    }
    if is_callback {
        let before = ctx.enter_safe();
        let t = lower_call_arg(a, param_ty, b, ctx);
        ctx.leave_safe(before);
        return TrackedArg { temp: t, raw: None };
    }
    let t = lower_call_arg(a, param_ty, b, ctx);
    TrackedArg { temp: t, raw: None }
}

/// The lowered arguments of a call: the values, the boxes of which the shell is freed after
/// the call, and the values that are released after it.
pub struct LoweredArgs {
    pub args: List<Temp>,
    pub shells: List<Temp>,
    pub releases: List<Owned>,
}

/// The argument is copied into a value that is released after the call.
pub open spec fn arg_is_materialized_spec(arg_ty: &Type, param_ty: Option<&Type>) -> bool {
    match param_ty {
        Some(p) => {
            sealed_array_arg_materialized(arg_ty, p) || sealed_record_arg_materialized(arg_ty, p)
        },
        None => false,
    }
}

/// Whether the argument is copied into a value that is released after the call.
#[verifier::when_used_as_spec(arg_is_materialized_spec)]
pub fn arg_is_materialized(arg_ty: &Type, param_ty: Option<&Type>) -> (r: bool)
    ensures
        r == arg_is_materialized_spec(arg_ty, param_ty),
{
    match param_ty {
        Some(p) => sealed_array_arg_materialized(arg_ty, p)
            || sealed_record_arg_materialized(arg_ty, p),
        None => false,
    }
}

/// The type, or null where there is none.
pub open spec fn type_or_null_spec(ty: Option<&Type>) -> Type {
    match ty {
        Some(t) => t.dup(),
        None => Type::Null,
    }
}

/// The type, or null where there is none.
#[verifier::when_used_as_spec(type_or_null_spec)]
pub fn type_or_null(ty: Option<&Type>) -> (r: Type)
    ensures
        r == type_or_null_spec(ty),
{
    match ty {
        Some(t) => t.dup(),
        None => Type::Null,
    }
}

/// The position of the callback among the later arguments.
pub open spec fn later_position_spec(cb: Option<usize>) -> Option<usize> {
    match cb {
        Some(n) => if n == 0 {
            None
        } else {
            Some((n - 1) as usize)
        },
        None => None,
    }
}

/// The position of the callback among the later arguments.
#[verifier::when_used_as_spec(later_position_spec)]
pub fn later_position(cb: Option<usize>) -> (r: Option<usize>)
    ensures
        r == later_position_spec(cb),
{
    match cb {
        Some(n) => if n == 0 {
            None
        } else {
            Some(n - 1)
        },
        None => None,
    }
}

/// The callback is in front.
pub open spec fn is_front_spec(cb: Option<usize>) -> bool {
    match cb {
        Some(n) => n == 0,
        None => false,
    }
}

/// Whether the callback is in front.
#[verifier::when_used_as_spec(is_front_spec)]
pub fn is_front(cb: Option<usize>) -> (r: bool)
    ensures
        r == is_front_spec(cb),
{
    match cb {
        Some(n) => n == 0,
        None => false,
    }
}

/// What `project_arg` does to the function under construction.
#[verifier::opaque]
pub open spec fn project_arg_spec(
    arg: Temp,
    arg_ty: &Type,
    param_ty: Option<&Type>,
    b: FState,
) -> (FState, Temp) {
    match param_ty {
        Some(p) => if anon_object_slot_repr_differs(arg_ty, p) {
            let (b, proj) = b.coerce(arg, arg_ty, p);
            let b = b.register_owned(proj, p.dup());
            (b, proj)
        } else {
            (b, arg)
        },
        None => (b, arg),
    }
}

/// Projects an open record argument to the record type of the parameter, where they differ.
pub fn project_arg(
    arg: Temp,
    arg_ty: &Type,
    param_ty: Option<&Type>,
    b: &mut FuncBuilder,
) -> (r: Temp)
    ensures
        (final(b)@, r) == project_arg_spec(arg, arg_ty, param_ty, old(b)@),
        grown(old(b)@, final(b)@, 0),
        old(b)@.wf() && temp_ok(arg, old(b)@.temp_types.len())
            ==> final(b)@.wf() && temp_ok(r, final(b)@.temp_types.len()),
{
    reveal(project_arg_spec);
    match param_ty {
        Some(p) => if anon_object_slot_repr_differs(arg_ty, p) {
            let proj = b.coerce(arg, arg_ty, p);
            b.register_owned(proj, p.dup());
            return proj;
        },
        None => {},
    }
    arg
}

/// A lowered argument is freshly made, and its reference can be handed over.
pub open spec fn arg_is_fresh_spec(
    a: &TypedExpr,
    arg: Temp,
    param_ty: Option<&Type>,
    b: FState,
) -> bool {
    let boxed = match param_ty {
        Some(p) => is_union_ty(p),
        None => false,
    };
    expr_is_fresh_alloc(a) && (boxed || b.is_owned_in_scope(arg))
}

/// Whether a lowered argument is freshly made, and its reference is one that the scope can
/// hand over; of a box only the box is passed on, and the reference inside stays where it is.
pub fn arg_is_fresh(a: &TypedExpr, arg: Temp, param_ty: Option<&Type>, b: &FuncBuilder) -> (r: bool)
    ensures
        r == arg_is_fresh_spec(a, arg, param_ty, b@),
{
    let boxed = match param_ty {
        Some(p) => is_union_ty(p),
        None => false,
    };
    expr_is_fresh_alloc(a) && (boxed || b.is_owned_in_scope(arg))
}

/// What `lower_args` does to the state, where `l` lowers the expressions inside.
#[verifier::opaque]
pub open spec fn lower_args_spec(
    l: Lower,
    args: &List<TypedExpr>,
    param_tys: &List<Type>,
    cb: Option<usize>,
    project: bool,
    s: St,
) -> (St, LoweredArgs)
    decreases args,
{
    match args {
        List::Nil => (s, LoweredArgs { args: List::Nil, shells: List::Nil, releases: List::Nil }),
        List::Cons(n) => {
            let a = &n.head;
            let param_ty = first_type(param_tys);
            let (s, lowered_arg) = lower_call_arg_tracked_spec(l, a, param_ty, is_front(cb), s);
            let arg = lowered_arg.temp;
            let fresh = arg_is_fresh_spec(a, arg, param_ty, s.b);
            let s = on_b(s, retain_call_arg_spec(arg, &a.ty(), fresh, s.b));
            let s = on_b(s, hand_over_closure_spec(arg, &a.ty(), fresh, s.b));
            let (s, passed) = if project {
                on(s, project_arg_spec(arg, &a.ty(), param_ty, s.b))
            } else {
                (s, arg)
            };
            let (s, rest) = lower_args_spec(
                l,
                &n.tail,
                &later_types(param_tys),
                later_position(cb),
                project,
                s,
            );
            let args_out = prepend(passed, rest.args);
            (s, if arg_is_materialized(&a.ty(), param_ty) {
                LoweredArgs {
                    args: args_out,
                    shells: rest.shells,
                    releases: prepend(
                        Owned { temp: arg, ty: type_or_null(param_ty) },
                        rest.releases,
                    ),
                }
            } else if arg_box_is_caller_owned_shell(&a.ty(), param_ty)
                || arg_box_is_caller_owned_scalar_shell(&a.ty(), param_ty) {
                LoweredArgs {
                    args: args_out,
                    shells: prepend(arg, rest.shells),
                    releases: rest.releases,
                }
            } else {
                LoweredArgs { args: args_out, shells: rest.shells, releases: rest.releases }
            })
        },
    }
}

/// Lowers the arguments of a call in order. `cb` is the position of a callback that does not
/// escape; with `project`, open records are projected to the types of the parameters.
pub fn lower_args(
    args: &List<TypedExpr>,
    param_tys: &List<Type>,
    cb: Option<usize>,
    project: bool,
    b: &mut FuncBuilder,
    ctx: &mut LowerCtx,
) -> (r: LoweredArgs)
    ensures
        (st(final(b), final(ctx)), r) == lower_args_spec(
            lower_at(old(ctx).room.left()),
            args,
            param_tys,
            cb,
            project,
            st(old(b), old(ctx)),
        ),
        ran(*old(b), *old(ctx), *final(b), *final(ctx)),
        valid(st(old(b), old(ctx)))
            ==> valid(st(final(b), final(ctx))) && lowered_args_ok(&r, final(b)@.temp_types.len()),
    decreases old(ctx).room.left(), 11nat, args.len(),
{
    reveal(lower_args_spec);
    match args {
        List::Nil => LoweredArgs { args: List::Nil, shells: List::Nil, releases: List::Nil },
        List::Cons(n) => {
            let a = &n.head;
            let param_ty = first_type(param_tys);
            let lowered_arg = lower_call_arg_tracked(a, param_ty, is_front(cb), b, ctx);
            let arg = lowered_arg.temp;
            let fresh = arg_is_fresh(a, arg, param_ty, b);
            retain_call_arg(arg, &a.ty(), fresh, b);
            hand_over_closure(arg, &a.ty(), fresh, b);
            let passed = if project {
                project_arg(arg, &a.ty(), param_ty, b)
            } else {
                arg
            };
            let rest = lower_args(
                &n.tail,
                &later_types(param_tys),
                later_position(cb),
                project,
                b,
                ctx,
            );
            let args_out = prepend(passed, rest.args);
            if arg_is_materialized(&a.ty(), param_ty) {
                LoweredArgs {
                    args: args_out,
                    shells: rest.shells,
                    releases: prepend(
                        Owned { temp: arg, ty: type_or_null(param_ty) },
                        rest.releases,
                    ),
                }
            } else if arg_box_is_caller_owned_shell(&a.ty(), param_ty)
                || arg_box_is_caller_owned_scalar_shell(&a.ty(), param_ty) {
                LoweredArgs {
                    args: args_out,
                    shells: prepend(arg, rest.shells),
                    releases: rest.releases,
                }
            } else {
                LoweredArgs { args: args_out, shells: rest.shells, releases: rest.releases }
            }
        },
    }
}

/// What `release_owned_list` does to the function under construction.
#[verifier::opaque]
pub open spec fn release_owned_list_spec(l: &List<Owned>, b: FState) -> FState
    decreases l,
{
    match l {
        List::Nil => b,
        List::Cons(n) => {
            let b = b.emit(Instruction::Release { val: n.head.temp, ty: n.head.ty.dup() });
            release_owned_list_spec(&n.tail, b)
        },
    }
}

/// Releases the values in the list.
pub fn release_owned_list(l: &List<Owned>, b: &mut FuncBuilder)
    ensures
        final(b)@ == release_owned_list_spec(l, old(b)@),
        grown(old(b)@, final(b)@, 0),
        old(b)@.wf() && owned_ok(l, old(b)@.temp_types.len()) ==> final(b)@.wf(),
    decreases l,
{
    reveal(release_owned_list_spec);
    proof {
        owned_tail(l, old(b)@.temp_types.len());
    }
    match l {
        List::Nil => {},
        List::Cons(n) => {
            b.emit(Instruction::Release { val: n.head.temp, ty: n.head.ty.dup() });
            release_owned_list(&n.tail, b);
        },
    }
}

/// What `emit_call` does to the function under construction.
#[verifier::opaque]
pub open spec fn emit_call_spec(
    callee: CallTarget,
    lowered: &LoweredArgs,
    ret_ty: &Type,
    b: FState,
) -> (FState, Temp) {
    let (b, dst) = b.call(callee, lowered.args.dup(), ret_ty);
    let b = free_arg_box_shells_spec(&lowered.shells, dst, b);
    let b = release_owned_list_spec(&lowered.releases, b);
    (b, dst)
}

/// Emits a call with lowered arguments and gives back what was made for them.
pub fn emit_call(
    callee: CallTarget,
    lowered: &LoweredArgs,
    ret_ty: &Type,
    b: &mut FuncBuilder,
) -> (r: Temp)
    ensures
        (final(b)@, r) == emit_call_spec(callee, lowered, ret_ty, old(b)@),
        grown(old(b)@, final(b)@, 0),
        old(b)@.wf()
            && callee_ok(&callee, old(b)@.temp_types.len())
            && lowered_args_ok(lowered, old(b)@.temp_types.len())
            ==> final(b)@.wf() && temp_ok(r, final(b)@.temp_types.len()),
{
    reveal(emit_call_spec);
    let dst = b.call(callee, lowered.args.dup(), ret_ty);
    free_arg_box_shells(&lowered.shells, dst, b);
    release_owned_list(&lowered.releases, b);
    dst
}

/// There are fewer arguments than parameters.
pub open spec fn fewer_args_spec(args: &List<TypedExpr>, params: &List<Type>) -> bool
    decreases args,
{
    match (args, params) {
        (List::Nil, List::Cons(_)) => true,
        (List::Cons(a), List::Cons(p)) => fewer_args(&a.tail, &p.tail),
        _ => false,
    }
}

/// Whether there are fewer arguments than parameters.
#[verifier::when_used_as_spec(fewer_args_spec)]
pub fn fewer_args(args: &List<TypedExpr>, params: &List<Type>) -> (r: bool)
    ensures
        r == fewer_args_spec(args, params),
    decreases args,
{
    match (args, params) {
        (List::Nil, List::Cons(_)) => true,
        (List::Cons(a), List::Cons(p)) => fewer_args(&a.tail, &p.tail),
        _ => false,
    }
}

/// Defaults stand for the arguments that a call leaves out.
pub open spec fn fills_defaults_spec(
    func: &TypedExpr,
    args: &List<TypedExpr>,
    partial: bool,
) -> bool {
    !partial && fewer_args(args, &fn_params(&func.ty()))
}

/// Whether defaults stand for the arguments that a call leaves out.
#[verifier::when_used_as_spec(fills_defaults_spec)]
pub fn fills_defaults(func: &TypedExpr, args: &List<TypedExpr>, partial: bool) -> (r: bool)
    ensures
        r == fills_defaults_spec(func, args, partial),
{
    !partial && fewer_args(args, &fn_params(&func.ty()))
}

/// The symbol of the adapter of a function for a number of arguments.
pub open spec fn default_symbol_spec(sym: Text, arity: usize) -> Text {
    join(join(sym, Text::Fixed("$default")), Text::Number(arity))
}

/// The symbol of the adapter of a function for a number of arguments.
#[verifier::when_used_as_spec(default_symbol_spec)]
pub fn default_symbol(sym: Text, arity: usize) -> (r: Text)
    ensures
        r == default_symbol_spec(sym, arity),
{
    join(join(sym, Text::Fixed("$default")), Text::Number(arity))
}

/// What `retain_shells` does to the function under construction.
#[verifier::opaque]
pub open spec fn retain_shells_spec(shells: &List<Temp>, b: FState) -> FState
    decreases shells,
{
    match shells {
        List::Nil => b,
        List::Cons(n) => {
            let ty = b.temp_ty_or(n.head, Type::Null);
            let b = b.emit(Instruction::Retain { val: n.head, ty });
            retain_shells_spec(&n.tail, b)
        },
    }
}

/// Counts every box once more, since a tail call hands it on.
pub fn retain_shells(shells: &List<Temp>, b: &mut FuncBuilder)
    ensures
        final(b)@ == retain_shells_spec(shells, old(b)@),
        grown(old(b)@, final(b)@, 0),
        old(b)@.wf() && temps_ok(shells, old(b)@.temp_types.len()) ==> final(b)@.wf(),
    decreases shells,
{
    reveal(retain_shells_spec);
    proof {
        temps_tail(shells, old(b)@.temp_types.len());
    }
    match shells {
        List::Nil => {},
        List::Cons(n) => {
            let ty = b.temp_ty_or(n.head, Type::Null);
            b.emit(Instruction::Retain { val: n.head, ty });
            retain_shells(&n.tail, b);
        },
    }
}

/// What `emit_tail_call` does to the function under construction.
#[verifier::opaque]
pub open spec fn emit_tail_call_spec(
    args: &List<Temp>,
    result_type: &Type,
    b: FState,
) -> (FState, Temp) {
    let b = b.release_owned_for_tail_call(args);
    let b = b.terminate(Terminator::TailCall { args: args.dup() });
    let (b, post) = b.alloc_block("tco_post");
    let b = b.mark_diverged(post);
    let b = b.switch_to(post);
    b.alloc_temp(result_type.dup())
}

/// Ends the block with a tail call. What follows is emitted to a block that control does not
/// reach; the value of the call is undefined there.
pub fn emit_tail_call(args: &List<Temp>, result_type: &Type, b: &mut FuncBuilder) -> (r: Temp)
    ensures
        (final(b)@, r) == emit_tail_call_spec(args, result_type, old(b)@),
        grown(old(b)@, final(b)@, 0),
        old(b)@.wf() && temps_ok(args, old(b)@.temp_types.len())
            ==> final(b)@.wf() && temp_ok(r, final(b)@.temp_types.len()),
{
    reveal(emit_tail_call_spec);
    b.release_owned_for_tail_call(args);
    b.terminate(Terminator::TailCall { args: args.dup() });
    let post = b.alloc_block("tco_post");
    b.mark_diverged(post);
    b.switch_to(post);
    b.alloc_temp(result_type.dup())
}

/// The argument in front.
pub open spec fn first_arg_spec<'a>(args: &'a List<TypedExpr>) -> Option<&'a TypedExpr> {
    match args {
        List::Nil => None,
        List::Cons(n) => Some(&n.head),
    }
}

/// The argument in front.
#[verifier::when_used_as_spec(first_arg_spec)]
pub fn first_arg<'a>(args: &'a List<TypedExpr>) -> (r: Option<&'a TypedExpr>)
    ensures
        r == first_arg_spec(args),
{
    match args {
        List::Nil => None,
        List::Cons(n) => Some(&n.head),
    }
}

/// The argument behind the one in front.
pub open spec fn second_arg_spec<'a>(args: &'a List<TypedExpr>) -> Option<&'a TypedExpr> {
    match args {
        List::Nil => None,
        List::Cons(n) => first_arg(&n.tail),
    }
}

/// The argument behind the one in front.
#[verifier::when_used_as_spec(second_arg_spec)]
pub fn second_arg<'a>(args: &'a List<TypedExpr>) -> (r: Option<&'a TypedExpr>)
    ensures
        r == second_arg_spec(args),
{
    match args {
        List::Nil => None,
        List::Cons(n) => first_arg(&n.tail),
    }
}

/// The third argument.
pub open spec fn third_arg_spec<'a>(args: &'a List<TypedExpr>) -> Option<&'a TypedExpr> {
    match args {
        List::Nil => None,
        List::Cons(n) => second_arg(&n.tail),
    }
}

/// The third argument.
#[verifier::when_used_as_spec(third_arg_spec)]
pub fn third_arg<'a>(args: &'a List<TypedExpr>) -> (r: Option<&'a TypedExpr>)
    ensures
        r == third_arg_spec(args),
{
    match args {
        List::Nil => None,
        List::Cons(n) => second_arg(&n.tail),
    }
}

/// The fourth argument.
pub open spec fn fourth_arg_spec<'a>(args: &'a List<TypedExpr>) -> Option<&'a TypedExpr> {
    match args {
        List::Nil => None,
        List::Cons(n) => third_arg(&n.tail),
    }
}

/// The fourth argument.
#[verifier::when_used_as_spec(fourth_arg_spec)]
pub fn fourth_arg<'a>(args: &'a List<TypedExpr>) -> (r: Option<&'a TypedExpr>)
    ensures
        r == fourth_arg_spec(args),
{
    match args {
        List::Nil => None,
        List::Cons(n) => third_arg(&n.tail),
    }
}

/// The last argument.
pub open spec fn last_arg_spec<'a>(args: &'a List<TypedExpr>) -> Option<&'a TypedExpr>
    decreases args,
{
    match args {
        List::Nil => None,
        List::Cons(n) => if n.tail.is_empty() {
            Some(&n.head)
        } else {
            last_arg(&n.tail)
        },
    }
}

/// The last argument.
#[verifier::when_used_as_spec(last_arg_spec)]
pub fn last_arg<'a>(args: &'a List<TypedExpr>) -> (r: Option<&'a TypedExpr>)
    ensures
        r == last_arg_spec(args),
    decreases args,
{
    match args {
        List::Nil => None,
        List::Cons(n) => if n.tail.is_empty() {
            Some(&n.head)
        } else {
            last_arg(&n.tail)
        },
    }
}

/// The last temporary.
pub open spec fn last_temp_spec(l: &List<Temp>) -> Option<Temp>
    decreases l,
{
    match l {
        List::Nil => None,
        List::Cons(n) => if n.tail.is_empty() {
            Some(n.head)
        } else {
            last_temp(&n.tail)
        },
    }
}

/// The last temporary.
#[verifier::when_used_as_spec(last_temp_spec)]
pub fn last_temp(l: &List<Temp>) -> (r: Option<Temp>)
    ensures
        r == last_temp_spec(l),
        forall|n: nat| #[trigger] temps_ok(l, n) ==> otemp_ok(r, n),
    decreases l,
{
    proof {
        assert forall|n: nat| #[trigger] temps_ok(l, n) implies (match l {
            List::Nil => true,
            List::Cons(k) => temps_ok(&k.tail, n),
        }) by {
            temps_tail(l, n);
        }
    }
    match l {
        List::Nil => None,
        List::Cons(n) => if n.tail.is_empty() {
            Some(n.head)
        } else {
            last_temp(&n.tail)
        },
    }
}

/// The first temporary.
pub open spec fn first_temp_spec(l: &List<Temp>) -> Option<Temp> {
    match l {
        List::Nil => None,
        List::Cons(n) => Some(n.head),
    }
}

/// The first temporary.
#[verifier::when_used_as_spec(first_temp_spec)]
pub fn first_temp(l: &List<Temp>) -> (r: Option<Temp>)
    ensures
        r == first_temp_spec(l),
        forall|n: nat| #[trigger] temps_ok(l, n) ==> otemp_ok(r, n),
{
    match l {
        List::Nil => None,
        List::Cons(n) => Some(n.head),
    }
}

/// The operation of the run-time system that a call of an imported function is.
pub open spec fn imported_operation_spec(
    sym: &String,
    args: &List<TypedExpr>,
    s: St,
) -> Option<&'static str> {
    match stream_combinator_intrinsic_name(sym, args) {
        Some(op) => Some(op),
        None => match packed_array_combinator_intrinsic_name(sym, args) {
            Some(op) => Some(op),
            None => match array_op_intrinsic_name(sym, args) {
                Some(op) => Some(op),
                None => if is_str(sym, "std_iter_for") && first_is_range_spec(args, s) {
                    Some("lin_for")
                } else {
                    None
                },
            },
        },
    }
}

/// The operation of the run-time system that a call of an imported function is.
pub fn imported_operation(
    sym: &String,
    args: &List<TypedExpr>,
    b: &FuncBuilder,
    ctx: &LowerCtx,
) -> (r: Option<&'static str>)
    ensures
        r == imported_operation_spec(sym, args, st(b, ctx)),
{
    match stream_combinator_intrinsic_name(sym, args) {
        Some(op) => Some(op),
        None => match packed_array_combinator_intrinsic_name(sym, args) {
            Some(op) => Some(op),
            None => match array_op_intrinsic_name(sym, args) {
                Some(op) => Some(op),
                None => if is_str(sym, "std_iter_for") && first_is_range(args, b, ctx) {
                    Some("lin_for")
                } else {
                    None
                },
            },
        },
    }
}

/// The first argument is a range.
pub open spec fn first_is_range_spec(args: &List<TypedExpr>, s: St) -> bool {
    match first_arg(args) {
        Some(a) => range_for_bounds_spec(a, s).is_some(),
        None => false,
    }
}

/// Whether the first argument is a range.
pub fn first_is_range(args: &List<TypedExpr>, b: &FuncBuilder, ctx: &LowerCtx) -> (r: bool)
    ensures
        r == first_is_range_spec(args, st(b, ctx)),
{
    match first_arg(args) {
        Some(a) => range_for_bounds(a, b, ctx).is_some(),
        None => false,
    }
}

/// What `try_lower_imported_loop` does to the state, where `l` lowers the expressions inside.
#[verifier::opaque]
pub open spec fn try_lower_imported_loop_spec(
    l: Lower,
    sym: &String,
    args: &List<TypedExpr>,
    s: St,
) -> (St, Option<Temp>) {
    let (s, looped) = match (sym_starts(sym, "std_iter_while") && one_arg(args), first_arg(args)) {
        (true, Some(a)) => lower_zero_arg_while_spec(l, a, s),
        _ => (s, None),
    };
    match looped {
        Some(t) => (s, Some(t)),
        None => {
            match (
                sym_starts(sym, "std_object_entries") && two_args(args),
                first_arg(args),
                second_arg(args),
            ) {
                (true, Some(d), Some(f)) => lower_entries_inline_spec(l, d, f, s),
                _ => (s, None),
            }
        },
    }
}

/// Lowers a call of an imported function in place, where it is a loop without arguments for
/// its body or a loop over a dictionary.
pub fn try_lower_imported_loop(
    sym: &String,
    args: &List<TypedExpr>,
    b: &mut FuncBuilder,
    ctx: &mut LowerCtx,
) -> (r: Option<Temp>)
    ensures
        (st(final(b), final(ctx)), r) == try_lower_imported_loop_spec(
            lower_at(old(ctx).room.left()),
            sym,
            args,
            st(old(b), old(ctx)),
        ),
        ran(*old(b), *old(ctx), *final(b), *final(ctx)),
        valid(st(old(b), old(ctx)))
            ==> valid(st(final(b), final(ctx))) && otemp_ok(r, final(b)@.temp_types.len()),
    decreases old(ctx).room.left(), 4nat, 0nat,
{
    reveal(try_lower_imported_loop_spec);
    let looped = match (sym_starts(sym, "std_iter_while") && one_arg(args), first_arg(args)) {
        (true, Some(a)) => lower_zero_arg_while(a, b, ctx),
        _ => None,
    };
    match looped {
        Some(t) => {
            return Some(t);
        },
        None => {},
    }
    match (
        sym_starts(sym, "std_object_entries") && two_args(args),
        first_arg(args),
        second_arg(args),
    ) {
        (true, Some(d), Some(f)) => lower_entries_inline(d, f, b, ctx),
        _ => None,
    }
}

/// What `lower_import_call` does to the state, where `l` lowers the expressions inside.
#[verifier::opaque]
pub open spec fn lower_import_call_spec(
    l: Lower,
    slot: usize,
    import: &ImportFn,
    func: &TypedExpr,
    args: &List<TypedExpr>,
    result_type: &Type,
    partial: bool,
    s: St,
) -> (St, Temp) {
    match imported_operation_spec(&import.sym, args, s) {
        Some(op) => lower_intrinsic_call_spec(l, &Text::Fixed(op), args, result_type, s),
        None => {
            let (s, looped) = try_lower_imported_loop_spec(l, &import.sym, args, s);
            match looped {
                Some(t) => (s, t),
                None => match concrete_array_shortcircuit_intrinsic_name(&import.sym, args) {
                    Some(op) => {
                        lower_intrinsic_call_spec(l, &Text::Fixed(op), args, result_type, s)
                    },
                    None => {
                        let (s, lowered) = lower_args_spec(
                            l,
                            args,
                            &import.params,
                            s.c.safe_combinator(slot),
                            false,
                            s,
                        );
                        let sym = Text::Owned(dup_str(&import.sym));
                        let callee = if fills_defaults(func, args, partial) {
                            default_symbol(sym, count(args))
                        } else {
                            sym
                        };
                        let (s, dst) = on(
                            s,
                            emit_call_spec(CallTarget::Named(callee), &lowered, result_type, s.b),
                        );
                        let s = on_b(s, s.b.register_owned(dst, result_type.dup()));
                        (s, dst)
                    },
                },
            }
        },
    }
}

/// Lowers a call of an imported function: as an operation of the run-time system or a loop
/// where it is one, else as a call of its symbol.
pub fn lower_import_call(
    slot: usize,
    import: &ImportFn,
    func: &TypedExpr,
    args: &List<TypedExpr>,
    result_type: &Type,
    partial: bool,
    b: &mut FuncBuilder,
    ctx: &mut LowerCtx,
) -> (r: Temp)
    ensures
        (st(final(b), final(ctx)), r) == lower_import_call_spec(
            lower_at(old(ctx).room.left()),
            slot,
            import,
            func,
            args,
            result_type,
            partial,
            st(old(b), old(ctx)),
        ),
        ran(*old(b), *old(ctx), *final(b), *final(ctx)),
        valid(st(old(b), old(ctx)))
            ==> valid(st(final(b), final(ctx))) && temp_ok(r, final(b)@.temp_types.len()),
    decreases old(ctx).room.left(), 12nat, 0nat,
{
    reveal(lower_import_call_spec);
    match imported_operation(&import.sym, args, b, ctx) {
        Some(op) => {
            return lower_intrinsic_call(&Text::Fixed(op), args, result_type, b, ctx);
        },
        None => {},
    }
    let looped = try_lower_imported_loop(&import.sym, args, b, ctx);
    match looped {
        Some(t) => {
            return t;
        },
        None => {},
    }
    match concrete_array_shortcircuit_intrinsic_name(&import.sym, args) {
        Some(op) => {
            return lower_intrinsic_call(&Text::Fixed(op), args, result_type, b, ctx);
        },
        None => {},
    }
    let lowered = lower_args(args, &import.params, ctx.safe_combinator(slot), false, b, ctx);
    let sym = Text::Owned(dup_str(&import.sym));
    let callee = if fills_defaults(func, args, partial) {
        default_symbol(sym, count(args))
    } else {
        sym
    };
    let dst = emit_call(CallTarget::Named(callee), &lowered, result_type, b);
    b.register_owned(dst, result_type.dup());
    dst
}

/// The function that a call of a global function calls.
pub open spec fn global_callee_spec(fid: FuncId, arity: usize, fills: bool, c: CState) -> FuncId {
    if fills {
        match c.default_adapter(fid, arity) {
            Some(f) => f,
            None => fid,
        }
    } else {
        fid
    }
}

/// The function that a call of a global function calls: its adapter, where defaults stand
/// for arguments that are left out.
pub fn global_callee(fid: FuncId, arity: usize, fills: bool, ctx: &LowerCtx) -> (r: FuncId)
    ensures
        r == global_callee_spec(fid, arity, fills, ctx@),
{
    if fills {
        match ctx.default_adapter(fid, arity) {
            Some(f) => f,
            None => fid,
        }
    } else {
        fid
    }
}

/// The operation of the run-time system that a call of a specialised combinator is.
pub open spec fn specialised_operation_spec(
    slot: usize,
    args: &List<TypedExpr>,
    c: CState,
) -> Option<&'static str> {
    match c.combinator_spec(slot) {
        Some(name) => concrete_array_shortcircuit_intrinsic_name_for_spec(name, args),
        None => None,
    }
}

/// The operation of the run-time system that a call of a specialised combinator is.
pub fn specialised_operation(
    slot: usize,
    args: &List<TypedExpr>,
    ctx: &LowerCtx,
) -> (r: Option<&'static str>)
    ensures
        r == specialised_operation_spec(slot, args, ctx@),
{
    match ctx.combinator_spec(slot) {
        Some(name) => concrete_array_shortcircuit_intrinsic_name_for_spec(name, args),
        None => None,
    }
}

/// What `lower_global_call` does to the state, where `l` lowers the expressions inside.
#[verifier::opaque]
pub open spec fn lower_global_call_spec(
    l: Lower,
    slot: usize,
    fid: FuncId,
    func: &TypedExpr,
    args: &List<TypedExpr>,
    result_type: &Type,
    is_tail: bool,
    partial: bool,
    s: St,
) -> (St, Temp) {
    match specialised_operation_spec(slot, args, s.c) {
        Some(op) => lower_intrinsic_call_spec(l, &Text::Fixed(op), args, result_type, s),
        None => {
            let (s, lowered) = lower_args_spec(
                l,
                args,
                &fn_params(&func.ty()),
                s.c.safe_combinator(slot),
                s.c.is_spec_origin_slot(slot),
                s,
            );
            let fills = fills_defaults(func, args, partial);
            if is_tail && !fills {
                let s = on_b(s, retain_shells_spec(&lowered.shells, s.b));
                on(s, emit_tail_call_spec(&lowered.args, result_type, s.b))
            } else {
                let callee = global_callee_spec(fid, count(args), fills, s.c);
                let (s, dst) = on(
                    s,
                    emit_call_spec(CallTarget::Direct(callee), &lowered, result_type, s.b),
                );
                let s = on_b(s, s.b.register_owned(dst, result_type.dup()));
                (s, dst)
            }
        },
    }
}

/// Lowers a call of a function of this module. A tail call hands its arguments on and ends
/// the block.
pub fn lower_global_call(
    slot: usize,
    fid: FuncId,
    func: &TypedExpr,
    args: &List<TypedExpr>,
    result_type: &Type,
    is_tail: bool,
    partial: bool,
    b: &mut FuncBuilder,
    ctx: &mut LowerCtx,
) -> (r: Temp)
    ensures
        (st(final(b), final(ctx)), r) == lower_global_call_spec(
            lower_at(old(ctx).room.left()),
            slot,
            fid,
            func,
            args,
            result_type,
            is_tail,
            partial,
            st(old(b), old(ctx)),
        ),
        ran(*old(b), *old(ctx), *final(b), *final(ctx)),
        valid(st(old(b), old(ctx)))
            ==> valid(st(final(b), final(ctx))) && temp_ok(r, final(b)@.temp_types.len()),
    decreases old(ctx).room.left(), 12nat, 0nat,
{
    reveal(lower_global_call_spec);
    match specialised_operation(slot, args, ctx) {
        Some(op) => {
            return lower_intrinsic_call(&Text::Fixed(op), args, result_type, b, ctx);
        },
        None => {},
    }
    let lowered = lower_args(
        args,
        &fn_params(&func.ty()),
        ctx.safe_combinator(slot),
        ctx.is_spec_origin_slot(slot),
        b,
        ctx,
    );
    let fills = fills_defaults(func, args, partial);
    if is_tail && !fills {
        retain_shells(&lowered.shells, b);
        return emit_tail_call(&lowered.args, result_type, b);
    }
    let callee = global_callee(fid, count(args), fills, ctx);
    let dst = emit_call(CallTarget::Direct(callee), &lowered, result_type, b);
    b.register_owned(dst, result_type.dup());
    dst
}

/// What `lower_indirect_call` does to the state, where `l` lowers the expressions inside.
#[verifier::opaque]
pub open spec fn lower_indirect_call_spec(
    l: Lower,
    func: &TypedExpr,
    args: &List<TypedExpr>,
    result_type: &Type,
    is_tail: bool,
    s: St,
) -> (St, Temp) {
    let (s, fn_temp) = low(l, func, s);
    let (s, lowered) = lower_args_spec(l, args, &fn_params(&func.ty()), None, true, s);
    if is_tail {
        on(s, emit_tail_call_spec(&lowered.args, result_type, s.b))
    } else {
        if sum_type_eligible(result_type) || is_nullable_sealed_record(result_type) {
            let (s, boxed) = on(
                s,
                emit_call_spec(CallTarget::Indirect(fn_temp), &lowered, &json(), s.b),
            );
            let s = on_b(s, s.b.register_owned(boxed, json()));
            let (s, dst) = on(s, s.b.coerce(boxed, &json(), result_type));
            let s = if !sum_type_eligible(result_type) {
                on_b(s, s.b.register_owned(dst, result_type.dup()))
            } else {
                s
            };
            (s, dst)
        } else {
            let (s, dst) = on(
                s,
                emit_call_spec(CallTarget::Indirect(fn_temp), &lowered, result_type, s.b),
            );
            let s = if is_rc_type(result_type) {
                on_b(s, s.b.register_owned(dst, result_type.dup()))
            } else {
                s
            };
            (s, dst)
        }
    }
}

/// Lowers a call of a function value. A result that is a node of a sum type or a nullable
/// packed record comes back in a box.
pub fn lower_indirect_call(
    func: &TypedExpr,
    args: &List<TypedExpr>,
    result_type: &Type,
    is_tail: bool,
    b: &mut FuncBuilder,
    ctx: &mut LowerCtx,
) -> (r: Temp)
    ensures
        (st(final(b), final(ctx)), r) == lower_indirect_call_spec(
            lower_at(old(ctx).room.left()),
            func,
            args,
            result_type,
            is_tail,
            st(old(b), old(ctx)),
        ),
        ran(*old(b), *old(ctx), *final(b), *final(ctx)),
        valid(st(old(b), old(ctx)))
            ==> valid(st(final(b), final(ctx))) && temp_ok(r, final(b)@.temp_types.len()),
    decreases old(ctx).room.left(), 12nat, 0nat,
{
    reveal(lower_indirect_call_spec);
    let fn_temp = lower_expr(func, b, ctx);
    let lowered = lower_args(args, &fn_params(&func.ty()), None, true, b, ctx);
    if is_tail {
        return emit_tail_call(&lowered.args, result_type, b);
    }
    if sum_type_eligible(result_type) || is_nullable_sealed_record(result_type) {
        let boxed = emit_call(CallTarget::Indirect(fn_temp), &lowered, &json(), b);
        b.register_owned(boxed, json());
        let dst = b.coerce(boxed, &json(), result_type);
        if !sum_type_eligible(result_type) {
            b.register_owned(dst, result_type.dup());
        }
        return dst;
    }
    let dst = emit_call(CallTarget::Indirect(fn_temp), &lowered, result_type, b);
    if is_rc_type(result_type) {
        b.register_owned(dst, result_type.dup());
    }
    dst
}

/// The variable that an expression reads.
pub open spec fn local_slot_spec(e: &TypedExpr) -> Option<usize> {
    match e {
        TypedExpr::LocalGet { slot, .. } => Some(*slot),
        _ => None,
    }
}

/// The variable that an expression reads.
#[verifier::when_used_as_spec(local_slot_spec)]
pub fn local_slot(e: &TypedExpr) -> (r: Option<usize>)
    ensures
        r == local_slot_spec(e),
{
    match e {
        TypedExpr::LocalGet { slot, .. } => Some(*slot),
        _ => None,
    }
}

/// What `try_lower_named_call` does to the state, where `l` lowers the expressions inside.
#[verifier::opaque]
pub open spec fn try_lower_named_call_spec(
    l: Lower,
    slot: usize,
    func: &TypedExpr,
    args: &List<TypedExpr>,
    result_type: &Type,
    is_tail: bool,
    partial: bool,
    s: St,
) -> (St, Option<Temp>) {
    match s.b.intrinsic(slot) {
        Some(name) => {
            let (s, t) = lower_intrinsic_call_spec(l, &Text::Owned(name), args, result_type, s);
            (s, Some(t))
        },
        None => {
            let (s, flat) = if !partial && !is_tail && callee_is_flatmap_spec(func, s.c) {
                lower_flatmap_terminal_spec(l, args, result_type, s)
            } else {
                (s, None)
            };
            match flat {
                Some(t) => (s, Some(t)),
                None => match s.c.import_fn(slot) {
                    Some(import) => {
                        let (s, t) = lower_import_call_spec(
                            l,
                            slot,
                            &import,
                            func,
                            args,
                            result_type,
                            partial,
                            s,
                        );
                        (s, Some(t))
                    },
                    None => match s.c.global_fn(slot) {
                        Some(fid) => {
                            let (s, t) = lower_global_call_spec(
                                l,
                                slot,
                                fid,
                                func,
                                args,
                                result_type,
                                is_tail,
                                partial,
                                s,
                            );
                            (s, Some(t))
                        },
                        None => (s, None),
                    },
                },
            }
        },
    }
}

/// Lowers a call of a variable that names a function, where it does.
pub fn try_lower_named_call(
    slot: usize,
    func: &TypedExpr,
    args: &List<TypedExpr>,
    result_type: &Type,
    is_tail: bool,
    partial: bool,
    b: &mut FuncBuilder,
    ctx: &mut LowerCtx,
) -> (r: Option<Temp>)
    ensures
        (st(final(b), final(ctx)), r) == try_lower_named_call_spec(
            lower_at(old(ctx).room.left()),
            slot,
            func,
            args,
            result_type,
            is_tail,
            partial,
            st(old(b), old(ctx)),
        ),
        ran(*old(b), *old(ctx), *final(b), *final(ctx)),
        valid(st(old(b), old(ctx)))
            ==> valid(st(final(b), final(ctx))) && otemp_ok(r, final(b)@.temp_types.len()),
    decreases old(ctx).room.left(), 13nat, 0nat,
{
    reveal(try_lower_named_call_spec);
    match b.intrinsic(slot) {
        Some(name) => {
            let t = lower_intrinsic_call(&Text::Owned(name), args, result_type, b, ctx);
            return Some(t);
        },
        None => {},
    }
    let flat = if !partial && !is_tail && callee_is_flatmap(func, ctx) {
        lower_flatmap_terminal(args, result_type, b, ctx)
    } else {
        None
    };
    match flat {
        Some(t) => {
            return Some(t);
        },
        None => {},
    }
    match ctx.import_fn(slot) {
        Some(import) => {
            let t = lower_import_call(slot, &import, func, args, result_type, partial, b, ctx);
            return Some(t);
        },
        None => {},
    }
    match ctx.global_fn(slot) {
        Some(fid) => {
            let t = lower_global_call(slot, fid, func, args, result_type, is_tail, partial, b, ctx);
            Some(t)
        },
        None => None,
    }
}

/// What `lower_call` does to the state, where `l` lowers the expressions inside.
#[verifier::opaque]
pub open spec fn lower_call_spec(
    l: Lower,
    func: &TypedExpr,
    args: &List<TypedExpr>,
    result_type: &Type,
    is_tail: bool,
    partial: bool,
    s: St,
) -> (St, Temp) {
    let (s, named) = match local_slot(func) {
        Some(slot) => {
            try_lower_named_call_spec(l, slot, func, args, result_type, is_tail, partial, s)
        },
        None => (s, None),
    };
    match named {
        Some(t) => (s, t),
        None => lower_indirect_call_spec(l, func, args, result_type, is_tail, s),
    }
}

/// Lowers a call.
pub fn lower_call(
    func: &TypedExpr,
    args: &List<TypedExpr>,
    result_type: &Type,
    is_tail: bool,
    partial: bool,
    b: &mut FuncBuilder,
    ctx: &mut LowerCtx,
) -> (r: Temp)
    ensures
        (st(final(b), final(ctx)), r) == lower_call_spec(
            lower_at(old(ctx).room.left()),
            func,
            args,
            result_type,
            is_tail,
            partial,
            st(old(b), old(ctx)),
        ),
        ran(*old(b), *old(ctx), *final(b), *final(ctx)),
        valid(st(old(b), old(ctx)))
            ==> valid(st(final(b), final(ctx))) && temp_ok(r, final(b)@.temp_types.len()),
    decreases old(ctx).room.left(), 14nat, 0nat,
{
    reveal(lower_call_spec);
    let named = match local_slot(func) {
        Some(slot) => try_lower_named_call(slot, func, args, result_type, is_tail, partial, b, ctx),
        None => None,
    };
    match named {
        Some(t) => {
            return t;
        },
        None => {},
    }
    lower_indirect_call(func, args, result_type, is_tail, b, ctx)
}

/// What `try_lower_loop_builtin` does to the state, where `l` lowers the expressions inside.
#[verifier::opaque]
pub open spec fn try_lower_loop_builtin_spec(
    l: Lower,
    name: &Text,
    args: &List<TypedExpr>,
    result_type: &Type,
    s: St,
) -> (St, Option<Temp>) {
    match (builtin_of(name), first_arg(args), second_arg(args), third_arg(args), fourth_arg(args)) {
        (Builtin::Range, Some(x), Some(y), _, _) => {
            let (s, t) = lower_range_spec(l, x, y, s);
            (s, Some(t))
        },
        (Builtin::For, Some(x), Some(y), _, _) => {
            let (s, t) = lower_for_spec(l, x, y, s);
            (s, Some(t))
        },
        (Builtin::While, Some(x), Some(y), _, _) => {
            let (s, t) = lower_while_spec(l, x, y, s);
            (s, Some(t))
        },
        (Builtin::Iter, Some(x), Some(y), Some(z), Some(w)) => {
            let (s, t) = lower_iter_spec(l, x, y, z, w, result_type, s);
            (s, Some(t))
        },
        (Builtin::MapEach, Some(x), Some(y), _, _) => {
            let (s, t) = lower_map_spec(l, x, y, result_type, s);
            (s, Some(t))
        },
        (Builtin::Filter, Some(x), Some(y), _, _) => {
            let (s, t) = lower_filter_spec(l, x, y, result_type, s);
            (s, Some(t))
        },
        (Builtin::Reduce, Some(x), Some(y), Some(z), _) => {
            let (s, t) = lower_reduce_spec(l, x, y, z, result_type, s);
            (s, Some(t))
        },
        (Builtin::Sort, Some(x), Some(y), _, _) => lower_sort_spec(l, x, y, result_type, s),
        (Builtin::AnyOf, Some(x), Some(y), _, _) => {
            let (s, t) = lower_some_spec(l, x, y, s);
            (s, Some(t))
        },
        (Builtin::Every, Some(x), Some(y), _, _) => {
            let (s, t) = lower_every_spec(l, x, y, s);
            (s, Some(t))
        },
        (Builtin::Find, Some(x), Some(y), _, _) => {
            let (s, t) = lower_find_spec(l, x, y, result_type, s);
            (s, Some(t))
        },
        _ => (s, None),
    }
}

/// Lowers an operation of the run-time system that is a loop over its arguments, where they
/// suffice.
pub fn try_lower_loop_builtin(
    name: &Text,
    args: &List<TypedExpr>,
    result_type: &Type,
    b: &mut FuncBuilder,
    ctx: &mut LowerCtx,
) -> (r: Option<Temp>)
    ensures
        (st(final(b), final(ctx)), r) == try_lower_loop_builtin_spec(
            lower_at(old(ctx).room.left()),
            name,
            args,
            result_type,
            st(old(b), old(ctx)),
        ),
        ran(*old(b), *old(ctx), *final(b), *final(ctx)),
        valid(st(old(b), old(ctx)))
            ==> valid(st(final(b), final(ctx))) && otemp_ok(r, final(b)@.temp_types.len()),
    decreases old(ctx).room.left(), 8nat, 0nat,
{
    reveal(try_lower_loop_builtin_spec);
    match (builtin_of(name), first_arg(args), second_arg(args), third_arg(args), fourth_arg(args)) {
        (Builtin::Range, Some(x), Some(y), _, _) => {
            let t = lower_range(x, y, b, ctx);
            Some(t)
        },
        (Builtin::For, Some(x), Some(y), _, _) => {
            let t = lower_for(x, y, b, ctx);
            Some(t)
        },
        (Builtin::While, Some(x), Some(y), _, _) => {
            let t = lower_while(x, y, b, ctx);
            Some(t)
        },
        (Builtin::Iter, Some(x), Some(y), Some(z), Some(w)) => {
            let t = lower_iter(x, y, z, w, result_type, b, ctx);
            Some(t)
        },
        (Builtin::MapEach, Some(x), Some(y), _, _) => {
            let t = lower_map(x, y, result_type, b, ctx);
            Some(t)
        },
        (Builtin::Filter, Some(x), Some(y), _, _) => {
            let t = lower_filter(x, y, result_type, b, ctx);
            Some(t)
        },
        (Builtin::Reduce, Some(x), Some(y), Some(z), _) => {
            let t = lower_reduce(x, y, z, result_type, b, ctx);
            Some(t)
        },
        (Builtin::Sort, Some(x), Some(y), _, _) => lower_sort(x, y, result_type, b, ctx),
        (Builtin::AnyOf, Some(x), Some(y), _, _) => {
            let t = lower_some(x, y, b, ctx);
            Some(t)
        },
        (Builtin::Every, Some(x), Some(y), _, _) => {
            let t = lower_every(x, y, b, ctx);
            Some(t)
        },
        (Builtin::Find, Some(x), Some(y), _, _) => {
            let t = lower_find(x, y, result_type, b, ctx);
            Some(t)
        },
        _ => None,
    }
}

/// A push puts a packed record into an array.
pub open spec fn pushes_sealed_spec(intrinsic: &Intrinsic, args: &List<TypedExpr>) -> bool {
    match last_arg(args) {
        Some(a) => matches!(intrinsic, Intrinsic::Push) && is_sealed_scalar_repr(&a.ty()),
        None => false,
    }
}

/// Whether a push puts a packed record into an array.
#[verifier::when_used_as_spec(pushes_sealed_spec)]
pub fn pushes_sealed(intrinsic: &Intrinsic, args: &List<TypedExpr>) -> (r: bool)
    ensures
        r == pushes_sealed_spec(intrinsic, args),
{
    match last_arg(args) {
        Some(a) => matches!(intrinsic, Intrinsic::Push) && is_sealed_scalar_repr(&a.ty()),
        None => false,
    }
}

/// The operation stores its last argument in a container.
pub open spec fn stores_last_spec(intrinsic: &Intrinsic) -> bool {
    matches!(intrinsic, Intrinsic::Push | Intrinsic::ArraySetDyn | Intrinsic::ObjectSetDyn)
}

/// Whether the operation stores its last argument in a container.
#[verifier::when_used_as_spec(stores_last_spec)]
pub fn stores_last(intrinsic: &Intrinsic) -> (r: bool)
    ensures
        r == stores_last_spec(intrinsic),
{
    matches!(intrinsic, Intrinsic::Push | Intrinsic::ArraySetDyn | Intrinsic::ObjectSetDyn)
}

/// What `lower_op` does to the state, where `l` lowers the expressions inside.
#[verifier::opaque]
pub open spec fn lower_op_spec(
    l: Lower,
    intrinsic: Intrinsic,
    args: &List<TypedExpr>,
    result_type: &Type,
    s: St,
) -> (St, Temp) {
    let (s, lowered) = lower_exprs_spec(l, args, s);
    let s = match (matches!(intrinsic, Intrinsic::StreamPromise), first_temp(&lowered)) {
        (true, Some(t)) => on_b(s, s.b.unregister_owned(t)),
        _ => s,
    };
    let consumes = matches!(intrinsic, Intrinsic::ArraySetDyn);
    let stored = stores_last(&intrinsic) && !pushes_sealed(&intrinsic, args);
    let s = match (stored, last_arg(args), last_temp(&lowered)) {
        (true, Some(e), Some(t)) => on_b(s, s.b.transfer_into_container(t, e, consumes)),
        _ => s,
    };
    let (s, dst) = on(s, s.b.call_intrinsic(intrinsic, lowered.dup(), result_type));
    let s = match (stored && consumes, last_arg(args), last_temp(&lowered)) {
        (true, Some(e), Some(t)) => if is_union_ty(&e.ty()) && expr_is_fresh_alloc(e) {
            on_b(s, s.b.emit(Instruction::FreeBoxShell { val: t }))
        } else {
            s
        },
        _ => s,
    };
    let s = on_b(s, s.b.register_owned(dst, result_type.dup()));
    (s, dst)
}

/// Lowers an operation of the run-time system that is one instruction. An operation that
/// stores its last argument takes over its reference; a stream that becomes a promise moves.
pub fn lower_op(
    intrinsic: Intrinsic,
    args: &List<TypedExpr>,
    result_type: &Type,
    b: &mut FuncBuilder,
    ctx: &mut LowerCtx,
) -> (r: Temp)
    ensures
        (st(final(b), final(ctx)), r) == lower_op_spec(
            lower_at(old(ctx).room.left()),
            intrinsic,
            args,
            result_type,
            st(old(b), old(ctx)),
        ),
        ran(*old(b), *old(ctx), *final(b), *final(ctx)),
        valid(st(old(b), old(ctx)))
            ==> valid(st(final(b), final(ctx))) && temp_ok(r, final(b)@.temp_types.len()),
    decreases old(ctx).room.left(), 2nat, 0nat,
{
    reveal(lower_op_spec);
    let lowered = lower_exprs(args, b, ctx);
    match (matches!(intrinsic, Intrinsic::StreamPromise), first_temp(&lowered)) {
        (true, Some(t)) => {
            b.unregister_owned(t);
        },
        _ => {},
    }
    let consumes = matches!(intrinsic, Intrinsic::ArraySetDyn);
    let stored = stores_last(&intrinsic) && !pushes_sealed(&intrinsic, args);
    match (stored, last_arg(args), last_temp(&lowered)) {
        (true, Some(e), Some(t)) => {
            b.transfer_into_container(t, e, consumes);
        },
        _ => {},
    }
    let dst = b.call_intrinsic(intrinsic, lowered.dup(), result_type);
    match (stored && consumes, last_arg(args), last_temp(&lowered)) {
        (true, Some(e), Some(t)) => if is_union_ty(&e.ty()) && expr_is_fresh_alloc(e) {
            b.emit(Instruction::FreeBoxShell { val: t });
        },
        _ => {},
    }
    b.register_owned(dst, result_type.dup());
    dst
}

/// What `lower_intrinsic_call` does to the state, where `l` lowers the expressions inside.
#[verifier::opaque]
pub open spec fn lower_intrinsic_call_spec(
    l: Lower,
    name: &Text,
    args: &List<TypedExpr>,
    result_type: &Type,
    s: St,
) -> (St, Temp) {
    let (s, looped) = try_lower_loop_builtin_spec(l, name, args, result_type, s);
    match looped {
        Some(t) => (s, t),
        None => match builtin_of(name) {
            Builtin::Op(intrinsic) => lower_op_spec(l, intrinsic, args, result_type, s),
            _ => {
                let (s, lowered) = lower_exprs_spec(l, args, s);
                let (s, dst) = on(s, s.b.call(CallTarget::Named(name.dup()), lowered, result_type));
                let s = on_b(s, s.b.register_owned(dst, result_type.dup()));
                (s, dst)
            },
        },
    }
}

/// Lowers an operation of the run-time system: as a loop, as one instruction, or, under a
/// name that is not known, as a call of the function of that name.
pub fn lower_intrinsic_call(
    name: &Text,
    args: &List<TypedExpr>,
    result_type: &Type,
    b: &mut FuncBuilder,
    ctx: &mut LowerCtx,
) -> (r: Temp)
    ensures
        (st(final(b), final(ctx)), r) == lower_intrinsic_call_spec(
            lower_at(old(ctx).room.left()),
            name,
            args,
            result_type,
            st(old(b), old(ctx)),
        ),
        ran(*old(b), *old(ctx), *final(b), *final(ctx)),
        valid(st(old(b), old(ctx)))
            ==> valid(st(final(b), final(ctx))) && temp_ok(r, final(b)@.temp_types.len()),
    decreases old(ctx).room.left(), 9nat, 0nat,
{
    reveal(lower_intrinsic_call_spec);
    let looped = try_lower_loop_builtin(name, args, result_type, b, ctx);
    match looped {
        Some(t) => {
            return t;
        },
        None => {},
    }
    match builtin_of(name) {
        Builtin::Op(intrinsic) => lower_op(intrinsic, args, result_type, b, ctx),
        _ => {
            let lowered = lower_exprs(args, b, ctx);
            let dst = b.call(CallTarget::Named(name.dup()), lowered, result_type);
            b.register_owned(dst, result_type.dup());
            dst
        },
    }
}

} // verus!
