//! What calls and their arguments are, before they are lowered.

use crate::ast::{Capture, TypedExpr, TypedParam};
use crate::builder::FuncBuilder;
use crate::ctx::{CState, LowerCtx, St, st, valid};
use crate::ir::CallTarget;
use crate::list::{List, prepend, share, share_spec};
use crate::names::{
    Combinator, export_combinator, export_is, iter_stream_op, library_combinator,
    makes_flat_array_export, makes_flat_array_op, op_combinator,
};
use crate::repr::{
    is_heap_ty, is_sealed_scalar_array, is_sealed_scalar_repr, is_union_ty, type_repr_differs,
};
use crate::text::{Text, is_str};
use crate::types::{Type, dup_str, json, same_type};
use crate::valid::{fn_target_ok, group_valid};
use std::rc::Rc;
use vstd::prelude::*;

verus! {

broadcast use group_valid;

/// The type is a number or a truth value.
pub open spec fn is_inline_scalar_spec(ty: &Type) -> bool {
    ty.is_numeric() || matches!(ty, Type::Bool)
}

/// Whether the type is a number or a truth value, which need no box and no counting.
#[verifier::when_used_as_spec(is_inline_scalar_spec)]
pub fn is_inline_scalar(ty: &Type) -> (r: bool)
    ensures
        r == is_inline_scalar_spec(ty),
{
    ty.is_numeric() || matches!(ty, Type::Bool)
}

/// The type of the elements of a collection.
pub open spec fn iter_elem_type_spec(iterable_ty: &Type) -> Type
    decreases iterable_ty,
{
    match iterable_ty {
        Type::Array(t) => t.dup(),
        Type::Iterator(t) => t.dup(),
        Type::Frozen(inner) => iter_elem_type(inner),
        Type::FixedArray(ts) => match ts {
            List::Nil => Type::Null,
            List::Cons(n) => n.head.dup(),
        },
        Type::Union(arms) => union_elem_type(arms, None),
        _ => json(),
    }
}

/// The type of the elements of a collection. Where the type does not tell, it is the
/// wildcard.
#[verifier::when_used_as_spec(iter_elem_type_spec)]
pub fn iter_elem_type(iterable_ty: &Type) -> (r: Type)
    ensures
        r == iter_elem_type_spec(iterable_ty),
    decreases iterable_ty,
{
    match iterable_ty {
        Type::Array(t) => t.dup(),
        Type::Iterator(t) => t.dup(),
        Type::Frozen(inner) => iter_elem_type(inner),
        Type::FixedArray(ts) => match ts {
            List::Nil => Type::Null,
            List::Cons(n) => n.head.dup(),
        },
        Type::Union(arms) => union_elem_type(arms, None),
        _ => json(),
    }
}

/// The element type that all variants agree on, together with those before.
pub open spec fn union_elem_type_spec(arms: &List<Type>, agreed: Option<Type>) -> Type
    decreases arms,
{
    match arms {
        List::Nil => match agreed {
            Some(t) => t,
            None => json(),
        },
        List::Cons(n) => match direct_elem_type(&n.head) {
            None => json(),
            Some(e) => match agreed {
                None => union_elem_type(&n.tail, Some(e)),
                Some(prev) => if same_type(&e, &prev) {
                    union_elem_type(&n.tail, Some(prev))
                } else {
                    json()
                },
            },
        },
    }
}

/// The element type that all variants of a union agree on, `agreed` being that of the
/// variants before; the wildcard where they do not or a variant is no collection.
#[verifier::when_used_as_spec(union_elem_type_spec)]
pub fn union_elem_type(arms: &List<Type>, agreed: Option<Type>) -> (r: Type)
    ensures
        r == union_elem_type_spec(arms, agreed),
    decreases arms,
{
    match arms {
        List::Nil => match agreed {
            Some(t) => t,
            None => json(),
        },
        List::Cons(n) => match direct_elem_type(&n.head) {
            None => json(),
            Some(e) => match agreed {
                None => union_elem_type(&n.tail, Some(e)),
                Some(prev) => if same_type(&e, &prev) {
                    union_elem_type(&n.tail, Some(prev))
                } else {
                    json()
                },
            },
        },
    }
}

/// The element type of an array, an iterator or a stream.
pub open spec fn direct_elem_type_spec(ty: &Type) -> Option<Type> {
    match ty {
        Type::Array(t) => Some(t.dup()),
        Type::Iterator(t) => Some(t.dup()),
        Type::Stream(t) => Some(t.dup()),
        _ => None,
    }
}

/// The element type of an array, an iterator or a stream.
#[verifier::when_used_as_spec(direct_elem_type_spec)]
pub fn direct_elem_type(ty: &Type) -> (r: Option<Type>)
    ensures
        r == direct_elem_type_spec(ty),
{
    match ty {
        Type::Array(t) => Some(t.dup()),
        Type::Iterator(t) => Some(t.dup()),
        Type::Stream(t) => Some(t.dup()),
        _ => None,
    }
}

/// The parameter types and the result type of a callback.
pub struct Signature {
    pub params: List<Type>,
    pub ret: Type,
}

/// The signature of a callback.
pub open spec fn callback_signature_spec(expr: &TypedExpr) -> Signature {
    match &expr.ty() {
        Type::Function { params, ret, .. } => Signature { params: params.dup(), ret: ret.dup() },
        _ => Signature { params: List::Nil, ret: json() },
    }
}

/// The parameter types and the result type of a callback; of an expression that is no
/// function, no parameters and the wildcard.
#[verifier::when_used_as_spec(callback_signature_spec)]
pub fn callback_signature(expr: &TypedExpr) -> (r: Signature)
    ensures
        r == callback_signature_spec(expr),
{
    match &expr.ty() {
        Type::Function { params, ret, .. } => Signature { params: params.dup(), ret: ret.dup() },
        _ => Signature { params: List::Nil, ret: json() },
    }
}

/// The parameter types of a function type.
pub open spec fn fn_params_spec(ty: &Type) -> List<Type> {
    match ty {
        Type::Function { params, .. } => params.dup(),
        _ => List::Nil,
    }
}

/// The parameter types of a function type; none of another type.
#[verifier::when_used_as_spec(fn_params_spec)]
pub fn fn_params(ty: &Type) -> (r: List<Type>)
    ensures
        r == fn_params_spec(ty),
{
    match ty {
        Type::Function { params, .. } => params.dup(),
        _ => List::Nil,
    }
}

/// There are at least two.
pub open spec fn two_or_more_spec(params: &List<Type>) -> bool {
    match params {
        List::Cons(n) => !n.tail.is_empty(),
        List::Nil => false,
    }
}

/// Whether the function type has at least two parameters.
#[verifier::when_used_as_spec(two_or_more_spec)]
pub fn two_or_more(params: &List<Type>) -> (r: bool)
    ensures
        r == two_or_more_spec(params),
{
    match params {
        List::Cons(n) => !n.tail.is_empty(),
        List::Nil => false,
    }
}

/// There are at least three.
pub open spec fn three_or_more_spec(params: &List<Type>) -> bool {
    match params {
        List::Cons(n) => two_or_more(&n.tail),
        List::Nil => false,
    }
}

/// Whether there are at least three parameters.
#[verifier::when_used_as_spec(three_or_more_spec)]
pub fn three_or_more(params: &List<Type>) -> (r: bool)
    ensures
        r == three_or_more_spec(params),
{
    match params {
        List::Cons(n) => two_or_more(&n.tail),
        List::Nil => false,
    }
}

/// There are at least two parameters.
pub open spec fn takes_two_spec(params: &List<TypedParam>) -> bool {
    match params {
        List::Cons(n) => !n.tail.is_empty(),
        List::Nil => false,
    }
}

/// Whether a function has at least two parameters.
#[verifier::when_used_as_spec(takes_two_spec)]
pub fn takes_two(params: &List<TypedParam>) -> (r: bool)
    ensures
        r == takes_two_spec(params),
{
    match params {
        List::Cons(n) => !n.tail.is_empty(),
        List::Nil => false,
    }
}

/// There are at least three parameters.
pub open spec fn takes_three_spec(params: &List<TypedParam>) -> bool {
    match params {
        List::Cons(n) => takes_two(&n.tail),
        List::Nil => false,
    }
}

/// Whether a function has at least three parameters.
#[verifier::when_used_as_spec(takes_three_spec)]
pub fn takes_three(params: &List<TypedParam>) -> (r: bool)
    ensures
        r == takes_three_spec(params),
{
    match params {
        List::Cons(n) => takes_two(&n.tail),
        List::Nil => false,
    }
}

/// There is exactly one argument.
pub open spec fn one_arg_spec(args: &List<TypedExpr>) -> bool {
    match args {
        List::Cons(n) => n.tail.is_empty(),
        List::Nil => false,
    }
}

/// Whether there is exactly one argument.
#[verifier::when_used_as_spec(one_arg_spec)]
pub fn one_arg(args: &List<TypedExpr>) -> (r: bool)
    ensures
        r == one_arg_spec(args),
{
    match args {
        List::Cons(n) => n.tail.is_empty(),
        List::Nil => false,
    }
}

/// There are exactly two arguments.
pub open spec fn two_args_spec(args: &List<TypedExpr>) -> bool {
    match args {
        List::Cons(n) => one_arg(&n.tail),
        List::Nil => false,
    }
}

/// Whether there are exactly two arguments.
#[verifier::when_used_as_spec(two_args_spec)]
pub fn two_args(args: &List<TypedExpr>) -> (r: bool)
    ensures
        r == two_args_spec(args),
{
    match args {
        List::Cons(n) => one_arg(&n.tail),
        List::Nil => false,
    }
}

/// There are at least two arguments.
pub open spec fn two_args_or_more_spec(args: &List<TypedExpr>) -> bool {
    match args {
        List::Cons(n) => !n.tail.is_empty(),
        List::Nil => false,
    }
}

/// Whether there are at least two arguments.
#[verifier::when_used_as_spec(two_args_or_more_spec)]
pub fn two_args_or_more(args: &List<TypedExpr>) -> (r: bool)
    ensures
        r == two_args_or_more_spec(args),
{
    match args {
        List::Cons(n) => !n.tail.is_empty(),
        List::Nil => false,
    }
}

/// The type of the first argument.
pub open spec fn first_arg_type_spec(args: &List<TypedExpr>) -> Option<Type> {
    match args {
        List::Cons(n) => Some(n.head.ty()),
        List::Nil => None,
    }
}

/// The type of the first argument.
#[verifier::when_used_as_spec(first_arg_type_spec)]
pub fn first_arg_type(args: &List<TypedExpr>) -> (r: Option<Type>)
    ensures
        r == first_arg_type_spec(args),
{
    match args {
        List::Cons(n) => Some(n.head.ty()),
        List::Nil => None,
    }
}

/// The stream operation that a call is.
pub open spec fn stream_combinator_intrinsic_name_spec(
    sym: &String,
    args: &List<TypedExpr>,
) -> Option<&'static str> {
    match first_arg_type(args) {
        Some(Type::Stream(_)) => iter_stream_op(sym),
        _ => None,
    }
}

/// The stream operation that a call of an export of the iteration library is, where its
/// first argument is a stream.
#[verifier::when_used_as_spec(stream_combinator_intrinsic_name_spec)]
pub fn stream_combinator_intrinsic_name(
    sym: &String,
    args: &List<TypedExpr>,
) -> (r: Option<&'static str>)
    ensures
        r == stream_combinator_intrinsic_name_spec(sym, args),
{
    match first_arg_type(args) {
        Some(Type::Stream(_)) => iter_stream_op(sym),
        _ => None,
    }
}

/// The operation on an array of packed records that a call is.
pub open spec fn packed_array_combinator_intrinsic_name_spec(
    sym: &String,
    args: &List<TypedExpr>,
) -> Option<&'static str> {
    match first_arg_type(args) {
        Some(ty) => if is_sealed_scalar_array(&ty) {
            if is_str(sym, "std_iter_for") {
                Some("lin_for")
            } else if is_str(sym, "std_array_length") || is_str(sym, "std_iter_length") {
                Some("lin_length")
            } else {
                None
            }
        } else {
            None
        },
        None => None,
    }
}

/// The operation that a call of a library export is, where its first argument is an array
/// of packed records.
#[verifier::when_used_as_spec(packed_array_combinator_intrinsic_name_spec)]
pub fn packed_array_combinator_intrinsic_name(
    sym: &String,
    args: &List<TypedExpr>,
) -> (r: Option<&'static str>)
    ensures
        r == packed_array_combinator_intrinsic_name_spec(sym, args),
{
    match first_arg_type(args) {
        Some(ty) => if is_sealed_scalar_array(&ty) {
            if is_str(sym, "std_iter_for") {
                Some("lin_for")
            } else if is_str(sym, "std_array_length") || is_str(sym, "std_iter_length") {
                Some("lin_length")
            } else {
                None
            }
        } else {
            None
        },
        None => None,
    }
}

/// The first argument is an array or an iterator of packed records.
pub open spec fn recv_elem_is_sealed_spec(args: &List<TypedExpr>) -> bool {
    match first_arg_type(args) {
        Some(Type::Array(t)) => is_sealed_scalar_repr(&t),
        Some(Type::Iterator(t)) => is_sealed_scalar_repr(&t),
        _ => false,
    }
}

/// Whether the first argument is an array or an iterator of packed records.
#[verifier::when_used_as_spec(recv_elem_is_sealed_spec)]
pub fn recv_elem_is_sealed(args: &List<TypedExpr>) -> (r: bool)
    ensures
        r == recv_elem_is_sealed_spec(args),
{
    match first_arg_type(args) {
        Some(Type::Array(t)) => is_sealed_scalar_repr(&t),
        Some(Type::Iterator(t)) => is_sealed_scalar_repr(&t),
        _ => false,
    }
}

/// The operation on packed records that a call is.
pub open spec fn concrete_array_shortcircuit_intrinsic_name_spec(
    sym: &String,
    args: &List<TypedExpr>,
) -> Option<&'static str> {
    if !recv_elem_is_sealed(args) {
        None
    } else {
        if is_str(sym, "std_iter_for") {
            Some("lin_for")
        } else if is_str(sym, "std_iter_some") {
            Some("lin_some")
        } else if is_str(sym, "std_iter_every") {
            Some("lin_every")
        } else if is_str(sym, "std_iter_find") {
            Some("lin_find")
        } else {
            None
        }
    }
}

/// The operation that a call of an export of the iteration library is, where its first
/// argument holds packed records.
#[verifier::when_used_as_spec(concrete_array_shortcircuit_intrinsic_name_spec)]
pub fn concrete_array_shortcircuit_intrinsic_name(
    sym: &String,
    args: &List<TypedExpr>,
) -> (r: Option<&'static str>)
    ensures
        r == concrete_array_shortcircuit_intrinsic_name_spec(sym, args),
{
    if !recv_elem_is_sealed(args) {
        return None;
    }
    if is_str(sym, "std_iter_for") {
        Some("lin_for")
    } else if is_str(sym, "std_iter_some") {
        Some("lin_some")
    } else if is_str(sym, "std_iter_every") {
        Some("lin_every")
    } else if is_str(sym, "std_iter_find") {
        Some("lin_find")
    } else {
        None
    }
}

/// The operation on packed records that a call of a specialised combinator is.
pub open spec fn concrete_array_shortcircuit_intrinsic_name_for_spec_spec(
    name: Combinator,
    args: &List<TypedExpr>,
) -> Option<&'static str> {
    if !recv_elem_is_sealed(args) {
        None
    } else {
        match name {
            Combinator::AnyOf => Some("lin_some"),
            Combinator::Every => Some("lin_every"),
            Combinator::Find => Some("lin_find"),
            _ => None,
        }
    }
}

/// The operation that a call of a specialised combinator is, where its first argument holds
/// packed records.
#[verifier::when_used_as_spec(concrete_array_shortcircuit_intrinsic_name_for_spec_spec)]
pub fn concrete_array_shortcircuit_intrinsic_name_for_spec(
    name: Combinator,
    args: &List<TypedExpr>,
) -> (r: Option<&'static str>)
    ensures
        r == concrete_array_shortcircuit_intrinsic_name_for_spec_spec(name, args),
{
    if !recv_elem_is_sealed(args) {
        return None;
    }
    match name {
        Combinator::AnyOf => Some("lin_some"),
        Combinator::Every => Some("lin_every"),
        Combinator::Find => Some("lin_find"),
        _ => None,
    }
}

/// The operation that a call of an export of the array library is.
pub open spec fn array_op_intrinsic_name_spec(
    sym: &String,
    args: &List<TypedExpr>,
) -> Option<&'static str> {
    match first_arg_type(args) {
        Some(ty) => if is_str(sym, "std_array_length") && has_length(&ty) {
            Some("lin_length")
        } else if is_str(sym, "std_array_push") && matches!(ty, Type::Array(_)) {
            Some("lin_push")
        } else {
            None
        },
        None => None,
    }
}

/// The operation that a call of an export of the array library is: the length of a
/// collection or a string, or a push to an array.
#[verifier::when_used_as_spec(array_op_intrinsic_name_spec)]
pub fn array_op_intrinsic_name(sym: &String, args: &List<TypedExpr>) -> (r: Option<&'static str>)
    ensures
        r == array_op_intrinsic_name_spec(sym, args),
{
    match first_arg_type(args) {
        Some(ty) => if is_str(sym, "std_array_length") && has_length(&ty) {
            Some("lin_length")
        } else if is_str(sym, "std_array_push") && matches!(ty, Type::Array(_)) {
            Some("lin_push")
        } else {
            None
        },
        None => None,
    }
}

/// Values of the type have a length.
pub open spec fn has_length_spec(ty: &Type) -> bool {
    matches!(
        ty,
        Type::Array(_) | Type::FixedArray(_) | Type::Iterator(_) | Type::Str | Type::StrLit(_),
    )
}

/// Whether values of the type have a length that needs no dispatch.
#[verifier::when_used_as_spec(has_length_spec)]
pub fn has_length(ty: &Type) -> (r: bool)
    ensures
        r == has_length_spec(ty),
{
    matches!(
        ty,
        Type::Array(_) | Type::FixedArray(_) | Type::Iterator(_) | Type::Str | Type::StrLit(_),
    )
}

/// The expression makes an array whose number elements are unboxed.
pub open spec fn is_provably_flat_producer_spec(expr: &TypedExpr, s: St) -> bool {
    match expr {
        TypedExpr::MakeArray { elements, .. } => !elements.is_empty(),
        TypedExpr::Call { func, .. } => match &**func {
            TypedExpr::LocalGet { slot, .. } => match s.b.intrinsic(*slot) {
                Some(name) => makes_flat_array_op(&name),
                None => match s.c.import_fn(*slot) {
                    Some(f) => makes_flat_array_export(&f.sym),
                    None => s.c.is_flat_producer_slot(*slot),
                },
            },
            _ => false,
        },
        _ => false,
    }
}

/// Whether the expression makes an array whose number elements are unboxed: a literal that
/// is not empty, or a call of a function that is known to.
pub fn is_provably_flat_producer(expr: &TypedExpr, b: &FuncBuilder, ctx: &LowerCtx) -> (r: bool)
    ensures
        r == is_provably_flat_producer_spec(expr, st(b, ctx)),
{
    match expr {
        TypedExpr::MakeArray { elements, .. } => !elements.is_empty(),
        TypedExpr::Call { func, .. } => match &**func {
            TypedExpr::LocalGet { slot, .. } => match b.intrinsic(*slot) {
                Some(name) => makes_flat_array_op(&name),
                None => match ctx.import_fn(*slot) {
                    Some(f) => makes_flat_array_export(&f.sym),
                    None => ctx.is_flat_producer_slot(*slot),
                },
            },
            _ => false,
        },
        _ => false,
    }
}

/// The type in which the elements of a collection are read.
pub open spec fn combinator_read_elem_ty_spec(iterable: &TypedExpr, s: St) -> Type {
    let static_elem = iter_elem_type(&iterable.ty());
    if !is_inline_scalar(&static_elem) {
        static_elem
    } else {
        if is_provably_flat_producer_spec(iterable, s) {
            static_elem
        } else {
            json()
        }
    }
}

/// The type in which the elements of a collection are read: unboxed numbers and truth
/// values only where the collection is known to hold them unboxed, boxes otherwise.
pub fn combinator_read_elem_ty(iterable: &TypedExpr, b: &FuncBuilder, ctx: &LowerCtx) -> (r: Type)
    ensures
        r == combinator_read_elem_ty_spec(iterable, st(b, ctx)),
{
    let static_elem = iter_elem_type(&iterable.ty());
    if !is_inline_scalar(&static_elem) {
        return static_elem;
    }
    if is_provably_flat_producer(iterable, b, ctx) {
        static_elem
    } else {
        json()
    }
}

/// The bounds of a range, and its step where it has one.
pub struct RangeBounds<'a> {
    pub start: &'a TypedExpr,
    pub end: &'a TypedExpr,
    pub step: Option<&'a TypedExpr>,
}

/// The bounds of the range that the expression calls for.
pub open spec fn range_for_bounds_spec<'a>(
    iterable: &'a TypedExpr,
    s: St,
) -> Option<RangeBounds<'a>> {
    match iterable {
        TypedExpr::Call { func, args, .. } => match &**func {
            TypedExpr::LocalGet { slot, .. } => match args {
                List::Cons(a0) => match &a0.tail {
                    List::Cons(a1) => match &a1.tail {
                        List::Nil => if is_range_of_two_spec(*slot, s) {
                            Some(RangeBounds { start: &a0.head, end: &a1.head, step: None })
                        } else {
                            None
                        },
                        List::Cons(a2) => {
                            if a2.tail.is_empty()
                                && is_range_with_step_spec(*slot, s) {
                                Some(
                                    RangeBounds {
                                        start: &a0.head,
                                        end: &a1.head,
                                        step: Some(&a2.head),
                                    },
                                )
                            } else {
                                None
                            }
                        },
                    },
                    List::Nil => None,
                },
                List::Nil => None,
            },
            _ => None,
        },
        _ => None,
    }
}

/// The bounds of the range that the expression calls for, where it does.
pub fn range_for_bounds<'a>(
    iterable: &'a TypedExpr,
    b: &FuncBuilder,
    ctx: &LowerCtx,
) -> (r: Option<RangeBounds<'a>>)
    ensures
        r == range_for_bounds_spec(iterable, st(b, ctx)),
{
    match iterable {
        TypedExpr::Call { func, args, .. } => match &**func {
            TypedExpr::LocalGet { slot, .. } => match args {
                List::Cons(a0) => match &a0.tail {
                    List::Cons(a1) => match &a1.tail {
                        List::Nil => if is_range_of_two(*slot, b, ctx) {
                            Some(RangeBounds { start: &a0.head, end: &a1.head, step: None })
                        } else {
                            None
                        },
                        List::Cons(a2) => if a2.tail.is_empty()
                            && is_range_with_step(*slot, b, ctx) {
                            Some(
                                RangeBounds {
                                    start: &a0.head,
                                    end: &a1.head,
                                    step: Some(&a2.head),
                                },
                            )
                        } else {
                            None
                        },
                    },
                    List::Nil => None,
                },
                List::Nil => None,
            },
            _ => None,
        },
        _ => None,
    }
}

/// The variable names a function that makes a range of two bounds.
pub open spec fn is_range_of_two_spec(slot: usize, s: St) -> bool {
    let by_op = match s.b.intrinsic(slot) {
        Some(name) => is_str(&name, "lin_range"),
        None => false,
    };
    let by_export = match s.c.import_fn(slot) {
        Some(f) => export_is(&f.sym, "range"),
        None => false,
    };
    by_op || by_export || s.c.is_range2_slot(slot)
}

/// Whether the variable names a function that makes a range of two bounds.
pub fn is_range_of_two(slot: usize, b: &FuncBuilder, ctx: &LowerCtx) -> (r: bool)
    ensures
        r == is_range_of_two_spec(slot, st(b, ctx)),
{
    let by_op = match b.intrinsic(slot) {
        Some(name) => is_str(&name, "lin_range"),
        None => false,
    };
    let by_export = match ctx.import_fn(slot) {
        Some(f) => export_is(&f.sym, "range"),
        None => false,
    };
    by_op || by_export || ctx.is_range2_slot(slot)
}

/// The variable names a function that makes a range with a step.
pub open spec fn is_range_with_step_spec(slot: usize, s: St) -> bool {
    let by_export = match s.c.import_fn(slot) {
        Some(f) => export_is(&f.sym, "range"),
        None => false,
    };
    by_export || s.c.is_range3_slot(slot)
}

/// Whether the variable names a function that makes a range with a step.
pub fn is_range_with_step(slot: usize, b: &FuncBuilder, ctx: &LowerCtx) -> (r: bool)
    ensures
        r == is_range_with_step_spec(slot, st(b, ctx)),
{
    let by_export = match ctx.import_fn(slot) {
        Some(f) => export_is(&f.sym, "range"),
        None => false,
    };
    by_export || ctx.is_range3_slot(slot)
}

/// The parameters and the body of a function literal.
pub struct Lambda {
    pub params: List<TypedParam>,
    pub body: Rc<TypedExpr>,
}

/// The function literal, where it captures nothing.
pub open spec fn inlinable_lambda_spec(expr: &TypedExpr) -> Option<Lambda> {
    match expr {
        TypedExpr::Function { params, body, captures, .. } => if captures.is_empty() {
            Some(Lambda { params: params.dup(), body: share_spec(body) })
        } else {
            None
        },
        _ => None,
    }
}

/// The function literal, where it captures nothing.
#[verifier::when_used_as_spec(inlinable_lambda_spec)]
pub fn inlinable_lambda(expr: &TypedExpr) -> (r: Option<Lambda>)
    ensures
        r == inlinable_lambda_spec(expr),
{
    match expr {
        TypedExpr::Function { params, body, captures, .. } => if captures.is_empty() {
            Some(Lambda { params: params.dup(), body: share(body) })
        } else {
            None
        },
        _ => None,
    }
}

/// The captured variable can be read in place.
pub open spec fn capture_resolvable_spec(cap: &Capture, s: St) -> bool {
    let slot: usize = cap.outer_slot;
    if s.c.is_global_var(slot) {
        let gty = match s.c.global_val(slot) {
            Some(t) => t,
            None => cap.ty.dup(),
        };
        !type_repr_differs(&cap.ty, &gty)
    } else {
        match s.b.cell_slot(slot) {
            Some(cell_ty) => {
                let dynamic = matches!(cap.ty, Type::Null) || is_union_ty(&cap.ty);
                (is_union_ty(&cell_ty) && dynamic) || !type_repr_differs(&cap.ty, &cell_ty)
            },
            None => if cap.is_mutable {
                false
            } else {
                match s.b.slot(slot) {
                    Some(t) => !type_repr_differs(&cap.ty, &s.b.temp_ty_or(t, cap.ty.dup())),
                    None => false,
                }
            },
        }
    }
}

/// Whether the captured variable can be read in place: it is held as the function expects
/// it. A variable that is captured to be assigned to can be read in place only where it is
/// a global or lives in a heap cell. A cell of boxes fits a capture that is a box or null.
pub fn capture_resolvable(cap: &Capture, b: &FuncBuilder, ctx: &LowerCtx) -> (r: bool)
    ensures
        r == capture_resolvable_spec(cap, st(b, ctx)),
{
    let slot: usize = cap.outer_slot;
    if ctx.is_global_var(slot) {
        let gty = match ctx.global_val(slot) {
            Some(t) => t,
            None => cap.ty.dup(),
        };
        return !type_repr_differs(&cap.ty, &gty);
    }
    match b.cell_slot(slot) {
        Some(cell_ty) => {
            let dynamic = matches!(cap.ty, Type::Null) || is_union_ty(&cap.ty);
            (is_union_ty(&cell_ty) && dynamic) || !type_repr_differs(&cap.ty, &cell_ty)
        },
        None => if cap.is_mutable {
            false
        } else {
            match b.slot(slot) {
                Some(t) => !type_repr_differs(&cap.ty, &b.temp_ty_or(t, cap.ty.dup())),
                None => false,
            }
        },
    }
}

/// All captured variables can be read in place.
pub open spec fn captures_resolvable_spec(captures: &List<Capture>, s: St) -> bool
    decreases captures,
{
    match captures {
        List::Nil => true,
        List::Cons(n) => {
            capture_resolvable_spec(&n.head, s) && captures_resolvable_spec(&n.tail, s)
        },
    }
}

/// Whether all captured variables can be read in place.
pub fn captures_resolvable(captures: &List<Capture>, b: &FuncBuilder, ctx: &LowerCtx) -> (r: bool)
    ensures
        r == captures_resolvable_spec(captures, st(b, ctx)),
    decreases captures,
{
    match captures {
        List::Nil => true,
        List::Cons(n) => capture_resolvable(&n.head, b, ctx)
            && captures_resolvable(&n.tail, b, ctx),
    }
}

/// The function literal, where all that it captures can be read in place.
pub open spec fn inlinable_capturing_lambda_spec(expr: &TypedExpr, s: St) -> Option<Lambda> {
    match expr {
        TypedExpr::Function { params, body, captures, .. } => {
            if captures_resolvable_spec(captures, s) {
                Some(Lambda { params: params.dup(), body: share_spec(body) })
            } else {
                None
            }
        },
        _ => None,
    }
}

/// The function literal, where all that it captures can be read in place.
pub fn inlinable_capturing_lambda(
    expr: &TypedExpr,
    b: &FuncBuilder,
    ctx: &LowerCtx,
) -> (r: Option<Lambda>)
    ensures
        r == inlinable_capturing_lambda_spec(expr, st(b, ctx)),
{
    match expr {
        TypedExpr::Function {
            params,
            body,
            captures,
            ..
        } => if captures_resolvable(captures, b, ctx) {
            Some(Lambda { params: params.dup(), body: share(body) })
        } else {
            None
        },
        _ => None,
    }
}

/// The function literal that the expression stands for, where it can be inlined.
pub open spec fn inlinable_local_fn_spec(expr: &TypedExpr, s: St) -> Option<Lambda> {
    match inlinable_capturing_lambda_spec(expr, s) {
        Some(lam) => Some(lam),
        None => match expr {
            TypedExpr::LocalGet { slot, .. } => match s.b.local_fn(*slot) {
                Some(fn_expr) => inlinable_capturing_lambda_spec(&fn_expr, s),
                None => None,
            },
            _ => None,
        },
    }
}

/// The function literal that the expression is or that the variable is bound to, where all
/// that it captures can be read in place.
pub fn inlinable_local_fn(expr: &TypedExpr, b: &FuncBuilder, ctx: &LowerCtx) -> (r: Option<Lambda>)
    ensures
        r == inlinable_local_fn_spec(expr, st(b, ctx)),
{
    match inlinable_capturing_lambda(expr, b, ctx) {
        Some(lam) => Some(lam),
        None => match expr {
            TypedExpr::LocalGet { slot, .. } => match b.local_fn(*slot) {
                Some(fn_expr) => inlinable_capturing_lambda(&fn_expr, b, ctx),
                None => None,
            },
            _ => None,
        },
    }
}

/// The combinator that the expression calls.
pub open spec fn combinator_callee_name_spec(expr: &TypedExpr, s: St) -> Option<Combinator> {
    match expr {
        TypedExpr::Call { func, args, .. } => match &**func {
            TypedExpr::LocalGet { slot, .. } => match s.c.combinator_spec(*slot) {
                Some(name) => Some(name),
                None => match s.b.intrinsic(*slot) {
                    Some(name) => op_combinator(&name, two_args_or_more(args)),
                    None => match s.c.import_fn(*slot) {
                        Some(f) => export_combinator(&f.sym, two_args_or_more(args)),
                        None => None,
                    },
                },
            },
            _ => None,
        },
        _ => None,
    }
}

/// The combinator that the expression calls.
pub fn combinator_callee_name(
    expr: &TypedExpr,
    b: &FuncBuilder,
    ctx: &LowerCtx,
) -> (r: Option<Combinator>)
    ensures
        r == combinator_callee_name_spec(expr, st(b, ctx)),
{
    match expr {
        TypedExpr::Call { func, args, .. } => match &**func {
            TypedExpr::LocalGet { slot, .. } => match ctx.combinator_spec(*slot) {
                Some(name) => Some(name),
                None => match b.intrinsic(*slot) {
                    Some(name) => op_combinator(&name, two_args_or_more(args)),
                    None => match ctx.import_fn(*slot) {
                        Some(f) => export_combinator(&f.sym, two_args_or_more(args)),
                        None => None,
                    },
                },
            },
            _ => None,
        },
        _ => None,
    }
}

/// Elements of the type can be given back when a fused loop drops them.
pub open spec fn fuse_elem_repr_reclaimable_spec(ty: &Type) -> bool {
    is_inline_scalar(ty)
        || is_sealed_scalar_repr(ty)
        || is_union_ty(ty)
        || is_borrowed_heap_elem(ty)
}

/// Whether elements of the type can be given back when a fused loop drops them.
#[verifier::when_used_as_spec(fuse_elem_repr_reclaimable_spec)]
pub fn fuse_elem_repr_reclaimable(ty: &Type) -> (r: bool)
    ensures
        r == fuse_elem_repr_reclaimable_spec(ty),
{
    is_inline_scalar(ty)
        || is_sealed_scalar_repr(ty)
        || is_union_ty(ty)
        || is_borrowed_heap_elem(ty)
}

/// Elements of the type are counted pointers that the collection owns.
pub open spec fn is_borrowed_heap_elem_spec(ty: &Type) -> bool {
    !is_sealed_scalar_repr(ty) && !is_union_ty(ty) && is_heap_ty(ty)
}

/// Whether elements of the type are counted pointers that the collection owns.
#[verifier::when_used_as_spec(is_borrowed_heap_elem_spec)]
pub fn is_borrowed_heap_elem(ty: &Type) -> (r: bool)
    ensures
        r == is_borrowed_heap_elem_spec(ty),
{
    !is_sealed_scalar_repr(ty) && !is_union_ty(ty) && is_heap_ty(ty)
}

/// A step of a fused loop.
pub enum FuseStage {
    MapEach { lam: Lambda, out_elem_ty: Type },
    Filter { lam: Lambda },
    FlatMap { lam: Lambda, inner_elem_ty: Type },
}

/// One of the steps flattens.
pub open spec fn chain_has_flatmap_spec(stages: &List<FuseStage>) -> bool
    decreases stages,
{
    match stages {
        List::Nil => false,
        List::Cons(n) => matches!(n.head, FuseStage::FlatMap { .. }) || chain_has_flatmap(&n.tail),
    }
}

/// Whether one of the steps flattens.
#[verifier::when_used_as_spec(chain_has_flatmap_spec)]
pub fn chain_has_flatmap(stages: &List<FuseStage>) -> (r: bool)
    ensures
        r == chain_has_flatmap_spec(stages),
    decreases stages,
{
    match stages {
        List::Nil => false,
        List::Cons(n) => matches!(n.head, FuseStage::FlatMap { .. }) || chain_has_flatmap(&n.tail),
    }
}

/// The combinator call under a conversion from one array type to another.
pub open spec fn peel_combinator_coerce_spec<'a>(expr: &'a TypedExpr, s: St) -> &'a TypedExpr {
    match expr {
        TypedExpr::Coerce { expr: inner, from, to, .. } => {
            if matches!(from, Type::Array(_))
                && matches!(to, Type::Array(_))
                && combinator_callee_name_spec(inner, s).is_some() {
                &**inner
            } else {
                expr
            }
        },
        _ => expr,
    }
}

/// The combinator call under a conversion from one array type to another, or the expression
/// itself.
pub fn peel_combinator_coerce<'a>(
    expr: &'a TypedExpr,
    b: &FuncBuilder,
    ctx: &LowerCtx,
) -> (r: &'a TypedExpr)
    ensures
        r == peel_combinator_coerce_spec(expr, st(b, ctx)),
{
    match expr {
        TypedExpr::Coerce { expr: inner, from, to, .. } => if matches!(from, Type::Array(_))
            && matches!(to, Type::Array(_))
            && combinator_callee_name(inner, b, ctx).is_some() {
            &**inner
        } else {
            expr
        },
        _ => expr,
    }
}

/// The step that a combinator call adds to a fused loop.
pub open spec fn fuse_stage_spec(
    name: Combinator,
    recv: &TypedExpr,
    callback: &TypedExpr,
    s: St,
) -> Option<FuseStage> {
    if matches!(recv.ty(), Type::Stream(_))
        || !fuse_elem_repr_reclaimable(&iter_elem_type(&recv.ty())) {
        None
    } else {
        match inlinable_local_fn_spec(callback, s) {
            None => None,
            Some(lam) => match name {
                Combinator::FlatMap => {
                    let inner_elem_ty = iter_elem_type(&callback_signature(callback).ret);
                    if !matches!(inner_elem_ty, Type::Never)
                        && !fuse_elem_repr_reclaimable(&inner_elem_ty) {
                        None
                    } else {
                        Some(FuseStage::FlatMap { lam, inner_elem_ty })
                    }
                },
                Combinator::MapEach => {
                    let ret = callback_signature(callback).ret;
                    if !is_inline_scalar(&ret) {
                        None
                    } else {
                        Some(FuseStage::MapEach { lam, out_elem_ty: ret })
                    }
                },
                Combinator::Filter => Some(FuseStage::Filter { lam }),
                _ => None,
            },
        }
    }
}

/// The step that a call of a combinator with this callback adds to a fused loop over `recv`,
/// where it can be fused.
pub fn fuse_stage(
    name: Combinator,
    recv: &TypedExpr,
    callback: &TypedExpr,
    b: &FuncBuilder,
    ctx: &LowerCtx,
) -> (r: Option<FuseStage>)
    ensures
        r == fuse_stage_spec(name, recv, callback, st(b, ctx)),
{
    if matches!(recv.ty(), Type::Stream(_))
        || !fuse_elem_repr_reclaimable(&iter_elem_type(&recv.ty())) {
        return None;
    }
    match inlinable_local_fn(callback, b, ctx) {
        None => None,
        Some(lam) => match name {
            Combinator::FlatMap => {
                let inner_elem_ty = iter_elem_type(&callback_signature(callback).ret);
                if !matches!(inner_elem_ty, Type::Never)
                    && !fuse_elem_repr_reclaimable(&inner_elem_ty) {
                    None
                } else {
                    Some(FuseStage::FlatMap { lam, inner_elem_ty })
                }
            },
            Combinator::MapEach => {
                let ret = callback_signature(callback).ret;
                if !is_inline_scalar(&ret) {
                    None
                } else {
                    Some(FuseStage::MapEach { lam, out_elem_ty: ret })
                }
            },
            Combinator::Filter => Some(FuseStage::Filter { lam }),
            _ => None,
        },
    }
}

/// A collection and the steps of a fused loop over it, innermost first.
pub struct FuseChain<'a> {
    pub base: &'a TypedExpr,
    pub stages: List<FuseStage>,
}

/// Follows the calls of combinators that can be fused inwards.
pub open spec fn fuse_chain_from_spec<'a>(
    cur: &'a TypedExpr,
    stages: List<FuseStage>,
    s: St,
) -> FuseChain<'a>
    decreases cur,
{
    match combinator_callee_name_spec(cur, s) {
        None => FuseChain { base: cur, stages },
        Some(name) => match cur {
            TypedExpr::Call { args, .. } => match args {
                List::Cons(a0) => match &a0.tail {
                    List::Cons(a1) => if !a1.tail.is_empty() {
                        FuseChain { base: cur, stages }
                    } else {
                        match fuse_stage_spec(name, &a0.head, &a1.head, s) {
                            None => FuseChain { base: cur, stages },
                            Some(stage) => {
                                fuse_chain_from_spec(
                                    peel_combinator_coerce_spec(&a0.head, s),
                                    prepend(stage, stages),
                                    s,
                                )
                            },
                        }
                    },
                    List::Nil => FuseChain { base: cur, stages },
                },
                List::Nil => FuseChain { base: cur, stages },
            },
            _ => FuseChain { base: cur, stages },
        },
    }
}

/// Follows the calls of combinators that can be fused, from the outermost inwards; `stages`
/// are the steps of those outside.
pub fn fuse_chain_from<'a>(
    cur: &'a TypedExpr,
    stages: List<FuseStage>,
    b: &FuncBuilder,
    ctx: &LowerCtx,
) -> (r: FuseChain<'a>)
    ensures
        r == fuse_chain_from_spec(cur, stages, st(b, ctx)),
    decreases cur,
{
    match combinator_callee_name(cur, b, ctx) {
        None => FuseChain { base: cur, stages },
        Some(name) => match cur {
            TypedExpr::Call { args, .. } => match args {
                List::Cons(a0) => match &a0.tail {
                    List::Cons(a1) => if !a1.tail.is_empty() {
                        FuseChain { base: cur, stages }
                    } else {
                        match fuse_stage(name, &a0.head, &a1.head, b, ctx) {
                            None => FuseChain { base: cur, stages },
                            Some(stage) => fuse_chain_from(
                                peel_combinator_coerce(&a0.head, b, ctx),
                                prepend(stage, stages),
                                b,
                                ctx,
                            ),
                        }
                    },
                    List::Nil => FuseChain { base: cur, stages },
                },
                List::Nil => FuseChain { base: cur, stages },
            },
            _ => FuseChain { base: cur, stages },
        },
    }
}

/// The collection and the steps of a chain of combinator calls that can be fused.
pub open spec fn extract_fuse_chain_spec<'a>(recv: &'a TypedExpr, s: St) -> FuseChain<'a> {
    let chain = fuse_chain_from_spec(peel_combinator_coerce_spec(recv, s), List::Nil, s);
    if !fuse_elem_repr_reclaimable(&iter_elem_type(&chain.base.ty())) {
        FuseChain { base: chain.base, stages: List::Nil }
    } else {
        chain
    }
}

/// The collection at the bottom of a chain of combinator calls that can be fused, and the
/// steps of the chain in the order in which they run. There are no steps where the elements
/// of the collection could not be given back.
pub fn extract_fuse_chain<'a>(
    recv: &'a TypedExpr,
    b: &FuncBuilder,
    ctx: &LowerCtx,
) -> (r: FuseChain<'a>)
    ensures
        r == extract_fuse_chain_spec(recv, st(b, ctx)),
{
    let chain = fuse_chain_from(peel_combinator_coerce(recv, b, ctx), List::Nil, b, ctx);
    if !fuse_elem_repr_reclaimable(&iter_elem_type(&chain.base.ty())) {
        FuseChain { base: chain.base, stages: List::Nil }
    } else {
        chain
    }
}

/// A function that can be called directly, and the types of its parameters.
pub struct FnTarget {
    pub target: CallTarget,
    pub params: List<Type>,
}

/// The function that a variable names, where it can be called directly.
pub open spec fn bare_fn_call_target_spec(expr: &TypedExpr, s: St) -> Option<FnTarget> {
    match expr {
        TypedExpr::LocalGet { slot, .. } => if s.b.intrinsic(*slot).is_some() {
            None
        } else {
            match s.c.global_fn(*slot) {
                Some(fid) => {
                    Some(
                        FnTarget {
                            target: CallTarget::Direct(fid),
                            params: callback_signature(expr).params,
                        },
                    )
                },
                None => match s.c.import_fn(*slot) {
                    Some(f) => {
                        let ptys = if f.params.is_empty() {
                            callback_signature(expr).params
                        } else {
                            f.params.dup()
                        };
                        Some(
                            FnTarget {
                                target: CallTarget::Named(Text::Owned(dup_str(&f.sym))),
                                params: ptys,
                            },
                        )
                    },
                    None => None,
                },
            }
        },
        _ => None,
    }
}

/// The function that a variable names, where it can be called directly.
pub fn bare_fn_call_target(
    expr: &TypedExpr,
    b: &FuncBuilder,
    ctx: &LowerCtx,
) -> (r: Option<FnTarget>)
    ensures
        r == bare_fn_call_target_spec(expr, st(b, ctx)),
        valid(st(b, ctx)) ==> (r is Some ==> fn_target_ok(&r->0, b@.temp_types.len())),
{
    match expr {
        TypedExpr::LocalGet { slot, .. } => if b.intrinsic(*slot).is_some() {
            None
        } else {
            match ctx.global_fn(*slot) {
                Some(fid) => Some(
                    FnTarget {
                        target: CallTarget::Direct(fid),
                        params: callback_signature(expr).params,
                    },
                ),
                None => match ctx.import_fn(*slot) {
                    Some(f) => {
                        let ptys = if f.params.is_empty() {
                            callback_signature(expr).params
                        } else {
                            f.params.dup()
                        };
                        Some(
                            FnTarget {
                                target: CallTarget::Named(Text::Owned(dup_str(&f.sym))),
                                params: ptys,
                            },
                        )
                    },
                    None => None,
                },
            }
        },
        _ => None,
    }
}

/// The function is `flatMap`.
pub open spec fn callee_is_flatmap_spec(func: &TypedExpr, c: CState) -> bool {
    match func {
        TypedExpr::LocalGet { slot, .. } => {
            let by_spec = match c.combinator_spec(*slot) {
                Some(name) => matches!(name, Combinator::FlatMap),
                None => false,
            };
            let by_export = match c.import_fn(*slot) {
                Some(f) => matches!(library_combinator(&f.sym), Some(Combinator::FlatMap)),
                None => false,
            };
            by_spec || by_export
        },
        _ => false,
    }
}

/// Whether the function is `flatMap`.
pub fn callee_is_flatmap(func: &TypedExpr, ctx: &LowerCtx) -> (r: bool)
    ensures
        r == callee_is_flatmap_spec(func, ctx@),
{
    match func {
        TypedExpr::LocalGet { slot, .. } => {
            let by_spec = match ctx.combinator_spec(*slot) {
                Some(name) => matches!(name, Combinator::FlatMap),
                None => false,
            };
            let by_export = match ctx.import_fn(*slot) {
                Some(f) => matches!(library_combinator(&f.sym), Some(Combinator::FlatMap)),
                None => false,
            };
            by_spec || by_export
        },
        _ => false,
    }
}

} // verus!
