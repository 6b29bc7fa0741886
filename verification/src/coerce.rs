//! Conversions between representations, and who owns what they make.

use crate::builder::{FState, FuncBuilder, grown};
use crate::ir::{FlatElemKind, Instruction, Intrinsic, Temp};
use crate::list::{List, one, two};
use crate::repr::{
    arg_projects_unsealed_into_nullable_record, is_nullable_record_param, is_rc_type,
    is_sealed_scalar_array, is_sealed_scalar_repr, is_union_ty, param_elem_is_boxed_repr,
    sealed_array_arg_materialized, sum_arg_projected, type_is_streamish_ir, type_repr_differs,
};
use crate::types::{Type, all_sealed_fields, field_count_eq, fields_in, json, same_type};
use crate::valid::{branch_ok, group_valid, output_array_ok, temp_ok, temps_ok, temps_tail};
use vstd::prelude::*;

verus! {

broadcast use group_valid;

/// Two number types are held differently because of floating point.
pub open spec fn scalar_numeric_repr_differs_spec(from: &Type, to: &Type) -> bool {
    if !from.is_numeric() || !to.is_numeric() {
        false
    } else {
        from.is_float() != to.is_float()
            || (from.is_float() && to.is_float() && !same_type(from, to))
    }
}

/// Whether two number types differ in being floating-point, or are floating-point types of
/// different widths.
#[verifier::when_used_as_spec(scalar_numeric_repr_differs_spec)]
pub fn scalar_numeric_repr_differs(from: &Type, to: &Type) -> (r: bool)
    ensures
        r == scalar_numeric_repr_differs_spec(from, to),
{
    if !from.is_numeric() || !to.is_numeric() {
        return false;
    }
    from.is_float() != to.is_float() || (from.is_float() && to.is_float() && !same_type(from, to))
}

/// Two integer types have different widths.
pub open spec fn int_width_repr_differs_spec(from: &Type, to: &Type) -> bool {
    from.is_integer() && to.is_integer() && from.bit_width() != to.bit_width()
}

/// Whether two integer types have different widths.
#[verifier::when_used_as_spec(int_width_repr_differs_spec)]
pub fn int_width_repr_differs(from: &Type, to: &Type) -> (r: bool)
    ensures
        r == int_width_repr_differs_spec(from, to),
{
    from.is_integer() && to.is_integer() && from.bit_width() != to.bit_width()
}

/// Two arrays hold different kinds of unboxed elements.
pub open spec fn flat_scalar_array_repr_differs_spec(from: &Type, to: &Type) -> bool {
    match (from, to) {
        (Type::Array(fe), Type::Array(te)) => {
            fe.is_flat_scalar() && te.is_flat_scalar() && !same_type(fe, te)
        },
        _ => false,
    }
}

/// Whether two arrays hold different kinds of unboxed elements.
#[verifier::when_used_as_spec(flat_scalar_array_repr_differs_spec)]
pub fn flat_scalar_array_repr_differs(from: &Type, to: &Type) -> (r: bool)
    ensures
        r == flat_scalar_array_repr_differs_spec(from, to),
{
    match (from, to) {
        (Type::Array(fe), Type::Array(te)) => fe.is_flat_scalar()
            && te.is_flat_scalar()
            && !same_type(fe, te),
        _ => false,
    }
}

/// The elements of two containers, at some depth, are held differently.
pub open spec fn nested_sealed_repr_change_spec(from: &Type, to: &Type) -> bool
    decreases from,
{
    match (from, to) {
        (Type::Array(fe), Type::Array(te)) => {
            type_repr_differs(fe, te) || nested_sealed_repr_change(fe, te)
        },
        (Type::Iterator(fe), Type::Iterator(te)) => {
            type_repr_differs(fe, te) || nested_sealed_repr_change(fe, te)
        },
        (Type::Dict { value: fe }, Type::Dict { value: te }) => {
            type_repr_differs(fe, te) || nested_sealed_repr_change(fe, te)
        },
        _ => false,
    }
}

/// Whether the elements of two containers, at some depth, are held differently.
#[verifier::when_used_as_spec(nested_sealed_repr_change_spec)]
pub fn nested_sealed_repr_change(from: &Type, to: &Type) -> (r: bool)
    ensures
        r == nested_sealed_repr_change_spec(from, to),
    decreases from,
{
    match (from, to) {
        (Type::Array(fe), Type::Array(te)) => type_repr_differs(fe, te)
            || nested_sealed_repr_change(fe, te),
        (Type::Iterator(fe), Type::Iterator(te)) => type_repr_differs(fe, te)
            || nested_sealed_repr_change(fe, te),
        (Type::Dict { value: fe }, Type::Dict { value: te }) => type_repr_differs(fe, te)
            || nested_sealed_repr_change(fe, te),
        _ => false,
    }
}

/// Two open record types have different fields, and the second has some.
pub open spec fn anon_object_slot_repr_differs_spec(from: &Type, to: &Type) -> bool {
    match (from, to) {
        (
            Type::Object { fields: ff, sealed: fs, .. },
            Type::Object { fields: tf, sealed: ts, .. },
        ) => !*fs && !*ts && !(field_count_eq(ff, tf) && fields_in(ff, tf)) && !tf.is_empty(),
        _ => false,
    }
}

/// Whether an open record has to be projected to be stored where another open record type
/// is expected.
#[verifier::when_used_as_spec(anon_object_slot_repr_differs_spec)]
pub fn anon_object_slot_repr_differs(from: &Type, to: &Type) -> (r: bool)
    ensures
        r == anon_object_slot_repr_differs_spec(from, to),
{
    match (from, to) {
        (
            Type::Object { fields: ff, sealed: fs, .. },
            Type::Object { fields: tf, sealed: ts, .. },
        ) => !*fs && !*ts && !(field_count_eq(ff, tf) && fields_in(ff, tf)) && !tf.is_empty(),
        _ => false,
    }
}

/// A conversion makes a fresh box around a plain value.
pub open spec fn box_shell_reclaim_spec(value_ty: &Type, slot_ty: &Type, repr_differs: bool) -> bool
{
    repr_differs && is_union_ty(slot_ty) && !is_union_ty(value_ty)
}

/// Whether a conversion makes a fresh box around a plain value, of which the shell has to
/// be freed once the box has been copied.
#[verifier::when_used_as_spec(box_shell_reclaim_spec)]
pub fn box_shell_reclaim(value_ty: &Type, slot_ty: &Type, repr_differs: bool) -> (r: bool)
    ensures
        r == box_shell_reclaim_spec(value_ty, slot_ty, repr_differs),
{
    repr_differs && is_union_ty(slot_ty) && !is_union_ty(value_ty)
}

/// A conversion makes a fresh box that takes over the reference of its contents.
pub open spec fn bound_box_moves_inner_spec(
    value_ty: &Type,
    slot_ty: &Type,
    repr_differs: bool,
) -> bool {
    box_shell_reclaim(value_ty, slot_ty, repr_differs) && is_rc_type(value_ty)
}

/// Whether a conversion makes a fresh box that takes over the reference of its contents.
#[verifier::when_used_as_spec(bound_box_moves_inner_spec)]
pub fn bound_box_moves_inner(value_ty: &Type, slot_ty: &Type, repr_differs: bool) -> (r: bool)
    ensures
        r == bound_box_moves_inner_spec(value_ty, slot_ty, repr_differs),
{
    box_shell_reclaim(value_ty, slot_ty, repr_differs) && is_rc_type(value_ty)
}

/// A converted argument holds the reference of the argument.
pub open spec fn escape_alias_convention_spec(
    arg_ty: &Type,
    param_ty: &Type,
    arg_is_sealed: bool,
) -> bool {
    if is_union_ty(arg_ty) {
        is_rc_type(param_ty)
    } else {
        is_rc_type(arg_ty) && !arg_is_sealed
    }
}

/// Whether a converted argument still holds the reference of the argument: a box that is
/// opened to a counted pointer, or a counted pointer that is boxed and not copied.
#[verifier::when_used_as_spec(escape_alias_convention_spec)]
pub fn escape_alias_convention(arg_ty: &Type, param_ty: &Type, arg_is_sealed: bool) -> (r: bool)
    ensures
        r == escape_alias_convention_spec(arg_ty, param_ty, arg_is_sealed),
{
    if is_union_ty(arg_ty) {
        is_rc_type(param_ty)
    } else {
        is_rc_type(arg_ty) && !arg_is_sealed
    }
}

/// Reading an element gives a reference of its own.
pub open spec fn index_result_is_owned_spec(obj_ty: &Type, key_ty: &Type) -> bool {
    match obj_ty {
        Type::Array(_) => true,
        Type::FixedArray(_) => true,
        _ => key_ty.is_numeric(),
    }
}

/// Whether reading an element gives a reference of its own rather than a borrowed one:
/// arrays and containers with number keys do.
#[verifier::when_used_as_spec(index_result_is_owned_spec)]
pub fn index_result_is_owned(obj_ty: &Type, key_ty: &Type) -> (r: bool)
    ensures
        r == index_result_is_owned_spec(obj_ty, key_ty),
{
    match obj_ty {
        Type::Array(_) => true,
        Type::FixedArray(_) => true,
        _ => key_ty.is_numeric(),
    }
}

/// What `box_to_json` does to the function under construction.
#[verifier::opaque]
pub open spec fn box_to_json_spec(val: Temp, val_ty: &Type, b: FState) -> (FState, Temp) {
    if is_union_ty(val_ty) {
        (b, val)
    } else {
        b.coerce(val, val_ty, &json())
    }
}

/// Boxes a value, unless it is a box.
pub fn box_to_json(val: Temp, val_ty: &Type, b: &mut FuncBuilder) -> (r: Temp)
    ensures
        (final(b)@, r) == box_to_json_spec(val, val_ty, old(b)@),
        grown(old(b)@, final(b)@, 0),
        old(b)@.wf() && temp_ok(val, old(b)@.temp_types.len())
            ==> final(b)@.wf() && temp_ok(r, final(b)@.temp_types.len()),
{
    reveal(box_to_json_spec);
    if is_union_ty(val_ty) {
        return val;
    }
    b.coerce(val, val_ty, &json())
}

/// What `lower_coerce_arg` does to the function under construction.
#[verifier::opaque]
pub open spec fn lower_coerce_arg_spec(
    arg: Temp,
    arg_ty: &Type,
    param_ty: Option<&Type>,
    b: FState,
) -> (FState, Temp) {
    match param_ty {
        None => (b, arg),
        Some(p) => if is_sealed_scalar_repr(arg_ty) && p.is_named() {
            (b, arg)
        } else {
            match (p, arg_ty) {
                (Type::Named(_), Type::Object { fields, sealed, .. }) => {
                    if !*sealed && !fields.is_empty() && all_sealed_fields(fields) {
                        let sealed_ty = Type::sealed_object(fields.dup());
                        let (b, dst) = b.coerce(arg, arg_ty, &sealed_ty);
                        let b = b.register_owned(dst, sealed_ty.dup());
                        (b, dst)
                    } else {
                        (b, arg)
                    }
                },
                _ => if sealed_array_arg_materialized(arg_ty, p) {
                    let (b, dst) = b.coerce(arg, arg_ty, p);
                    (b, dst)
                } else {
                    if sum_arg_projected(arg_ty, p) {
                        let (b, dst) = b.coerce(arg, arg_ty, p);
                        let b = b.register_owned(dst, p.dup());
                        (b, dst)
                    } else {
                        lower_coerce_plain_arg_spec(arg, arg_ty, p, b)
                    }
                },
            }
        },
    }
}

/// Converts a call argument to the type of the parameter: boxes or opens it, packs or
/// projects a record, materializes an array of packed records, or changes the width of a
/// number. What is made afresh and owned is registered.
pub fn lower_coerce_arg(
    arg: Temp,
    arg_ty: &Type,
    param_ty: Option<&Type>,
    b: &mut FuncBuilder,
) -> (r: Temp)
    ensures
        (final(b)@, r) == lower_coerce_arg_spec(arg, arg_ty, param_ty, old(b)@),
        grown(old(b)@, final(b)@, 0),
        old(b)@.wf() && temp_ok(arg, old(b)@.temp_types.len())
            ==> final(b)@.wf() && temp_ok(r, final(b)@.temp_types.len()),
{
    reveal(lower_coerce_arg_spec);
    match param_ty {
        None => {
            return arg;
        },
        Some(p) => {
            if is_sealed_scalar_repr(arg_ty) && p.is_named() {
                return arg;
            }
            match (p, arg_ty) {
                (Type::Named(_), Type::Object { fields, sealed, .. }) => {
                    if !*sealed && !fields.is_empty() && all_sealed_fields(fields) {
                        let sealed_ty = Type::sealed_object(fields.dup());
                        let dst = b.coerce(arg, arg_ty, &sealed_ty);
                        b.register_owned(dst, sealed_ty.dup());
                        return dst;
                    }
                    return arg;
                },
                _ => {},
            }
            if sealed_array_arg_materialized(arg_ty, p) {
                let dst = b.coerce(arg, arg_ty, p);
                return dst;
            }
            if sum_arg_projected(arg_ty, p) {
                let dst = b.coerce(arg, arg_ty, p);
                b.register_owned(dst, p.dup());
                return dst;
            }
            lower_coerce_plain_arg(arg, arg_ty, p, b)
        },
    }
}

/// What `lower_coerce_plain_arg` does to the function under construction.
#[verifier::opaque]
pub open spec fn lower_coerce_plain_arg_spec(
    arg: Temp,
    arg_ty: &Type,
    p: &Type,
    b: FState,
) -> (FState, Temp) {
    if is_nullable_record_param(p)
        && (
            is_sealed_scalar_repr(arg_ty)
                || matches!(arg_ty, Type::Null)
                || is_nullable_record_param(arg_ty)
        ) {
        (b, arg)
    } else {
        match (arg_projects_unsealed_into_nullable_record(arg_ty, p), arg_ty) {
            (true, Type::Object { fields, .. }) => {
                let resolved = Type::Union(two(Type::sealed_object(fields.dup()), Type::Null));
                let (b, dst) = b.coerce(arg, arg_ty, &resolved);
                let b = b.register_owned(dst, resolved.dup());
                (b, dst)
            },
            _ => if is_union_ty(p) != is_union_ty(arg_ty) {
                let (b, dst) = b.coerce(arg, arg_ty, p);
                let b = if escape_alias_convention(arg_ty, p, is_sealed_scalar_repr(arg_ty)) {
                    b.record_escape_alias(dst, arg)
                } else {
                    b
                };
                (b, dst)
            } else {
                if arg_ty.is_numeric() && p.is_numeric() && !same_type(arg_ty, p) {
                    let (b, dst) = b.coerce(arg, arg_ty, p);
                    (b, dst)
                } else {
                    if type_repr_differs(arg_ty, p) {
                        let (b, dst) = b.coerce(arg, arg_ty, p);
                        let b = if is_sealed_scalar_repr(p) {
                            b.register_owned(dst, p.dup())
                        } else {
                            b
                        };
                        (b, dst)
                    } else {
                        (b, arg)
                    }
                }
            },
        }
    }
}

/// Converts a call argument that is neither projected into a named type, materialized nor
/// turned into a node of a sum type.
pub fn lower_coerce_plain_arg(arg: Temp, arg_ty: &Type, p: &Type, b: &mut FuncBuilder) -> (r: Temp)
    ensures
        (final(b)@, r) == lower_coerce_plain_arg_spec(arg, arg_ty, p, old(b)@),
        grown(old(b)@, final(b)@, 0),
        old(b)@.wf() && temp_ok(arg, old(b)@.temp_types.len())
            ==> final(b)@.wf() && temp_ok(r, final(b)@.temp_types.len()),
{
    reveal(lower_coerce_plain_arg_spec);
    if is_nullable_record_param(p)
        && (
            is_sealed_scalar_repr(arg_ty)
                || matches!(arg_ty, Type::Null)
                || is_nullable_record_param(arg_ty)
        ) {
        return arg;
    }
    match (arg_projects_unsealed_into_nullable_record(arg_ty, p), arg_ty) {
        (true, Type::Object { fields, .. }) => {
            let resolved = Type::Union(two(Type::sealed_object(fields.dup()), Type::Null));
            let dst = b.coerce(arg, arg_ty, &resolved);
            b.register_owned(dst, resolved.dup());
            return dst;
        },
        _ => {},
    }
    if is_union_ty(p) != is_union_ty(arg_ty) {
        let dst = b.coerce(arg, arg_ty, p);
        if escape_alias_convention(arg_ty, p, is_sealed_scalar_repr(arg_ty)) {
            b.record_escape_alias(dst, arg);
        }
        return dst;
    }
    if arg_ty.is_numeric() && p.is_numeric() && !same_type(arg_ty, p) {
        let dst = b.coerce(arg, arg_ty, p);
        return dst;
    }
    if type_repr_differs(arg_ty, p) {
        let dst = b.coerce(arg, arg_ty, p);
        if is_sealed_scalar_repr(p) {
            b.register_owned(dst, p.dup());
        }
        return dst;
    }
    arg
}

/// What `coerce_to_slot_type` does to the function under construction.
#[verifier::opaque]
pub open spec fn coerce_to_slot_type_spec(
    t: Temp,
    value_ty: &Type,
    slot_ty: &Type,
    b: FState,
) -> (FState, Temp) {
    if type_repr_differs(value_ty, slot_ty)
        || scalar_numeric_repr_differs(value_ty, slot_ty)
        || int_width_repr_differs(value_ty, slot_ty)
        || flat_scalar_array_repr_differs(value_ty, slot_ty) {
        b.coerce(t, value_ty, slot_ty)
    } else {
        (b, t)
    }
}

/// Converts a value to the type of a slot, where the two are held differently.
pub fn coerce_to_slot_type(
    t: Temp,
    value_ty: &Type,
    slot_ty: &Type,
    b: &mut FuncBuilder,
) -> (r: Temp)
    ensures
        (final(b)@, r) == coerce_to_slot_type_spec(t, value_ty, slot_ty, old(b)@),
        grown(old(b)@, final(b)@, 0),
        old(b)@.wf() && temp_ok(t, old(b)@.temp_types.len())
            ==> final(b)@.wf() && temp_ok(r, final(b)@.temp_types.len()),
{
    reveal(coerce_to_slot_type_spec);
    if type_repr_differs(value_ty, slot_ty)
        || scalar_numeric_repr_differs(value_ty, slot_ty)
        || int_width_repr_differs(value_ty, slot_ty)
        || flat_scalar_array_repr_differs(value_ty, slot_ty) {
        b.coerce(t, value_ty, slot_ty)
    } else {
        t
    }
}

/// What `coerce_to_slot_type_owning_bind` does to the function under construction.
#[verifier::opaque]
pub open spec fn coerce_to_slot_type_owning_bind_spec(
    t: Temp,
    value_ty: &Type,
    slot_ty: &Type,
    b: FState,
) -> (FState, Temp) {
    let made_fresh_box = bound_box_moves_inner(
        value_ty,
        slot_ty,
        type_repr_differs(value_ty, slot_ty),
    );
    let made_fresh_array = flat_scalar_array_repr_differs(value_ty, slot_ty);
    let sealed_array_reprojected = param_elem_is_boxed_repr(value_ty)
        && is_sealed_scalar_array(slot_ty);
    let (b, coerced) = coerce_to_slot_type_spec(t, value_ty, slot_ty, b);
    let b = if sealed_array_reprojected {
        if coerced != t {
            b.register_owned(coerced, slot_ty.dup())
        } else {
            b
        }
    } else if made_fresh_box && is_sealed_scalar_array(value_ty) {
        if coerced != t {
            b.register_box_shell(coerced)
        } else {
            b
        }
    } else if made_fresh_box && is_sealed_scalar_repr(value_ty) {
        if coerced != t {
            b.register_owned(coerced, slot_ty.dup())
        } else {
            b
        }
    } else if made_fresh_box {
        let b = b.unregister_owned(t);
        b.register_owned(coerced, slot_ty.dup())
    } else if made_fresh_array && coerced != t {
        b.register_owned(coerced, slot_ty.dup())
    } else {
        b
    };
    (b, coerced)
}

/// Converts a value to the type of the slot that it is bound to, and lets the scope own what
/// the conversion makes. A fresh box takes over the reference of its contents, except that
/// of a packed record or array, which stays with its owner.
pub fn coerce_to_slot_type_owning_bind(
    t: Temp,
    value_ty: &Type,
    slot_ty: &Type,
    b: &mut FuncBuilder,
) -> (r: Temp)
    ensures
        (final(b)@, r) == coerce_to_slot_type_owning_bind_spec(t, value_ty, slot_ty, old(b)@),
        grown(old(b)@, final(b)@, 0),
        old(b)@.wf() && temp_ok(t, old(b)@.temp_types.len())
            ==> final(b)@.wf() && temp_ok(r, final(b)@.temp_types.len()),
{
    reveal(coerce_to_slot_type_owning_bind_spec);
    let made_fresh_box = bound_box_moves_inner(
        value_ty,
        slot_ty,
        type_repr_differs(value_ty, slot_ty),
    );
    let made_fresh_array = flat_scalar_array_repr_differs(value_ty, slot_ty);
    let sealed_array_reprojected = param_elem_is_boxed_repr(value_ty)
        && is_sealed_scalar_array(slot_ty);
    let coerced = coerce_to_slot_type(t, value_ty, slot_ty, b);
    if sealed_array_reprojected {
        if coerced != t {
            b.register_owned(coerced, slot_ty.dup());
        }
    } else if made_fresh_box && is_sealed_scalar_array(value_ty) {
        if coerced != t {
            b.register_box_shell(coerced);
        }
    } else if made_fresh_box && is_sealed_scalar_repr(value_ty) {
        if coerced != t {
            b.register_owned(coerced, slot_ty.dup());
        }
    } else if made_fresh_box {
        b.unregister_owned(t);
        b.register_owned(coerced, slot_ty.dup());
    } else if made_fresh_array && coerced != t {
        b.register_owned(coerced, slot_ty.dup());
    }
    coerced
}

/// The value of a branch, converted to the type of the whole.
pub struct Branch {
    /// The converted value.
    pub val: Temp,
    /// What the scope of the branch must not give back.
    pub keep: List<Temp>,
    /// Whether the value holds a reference of its own.
    pub owned: bool,
}

/// What `coerce_if_branch` does to the function under construction.
#[verifier::opaque]
pub open spec fn coerce_if_branch_spec(
    raw: Temp,
    value_ty: &Type,
    result_type: &Type,
    b: FState,
) -> (FState, Branch) {
    if is_union_ty(value_ty) && !is_union_ty(result_type) && is_rc_type(result_type) {
        let (b, cloned) = b.clone_box(raw, value_ty);
        let (b, unboxed) = b.coerce(cloned, value_ty, result_type);
        let b = b.emit(Instruction::FreeBoxShell { val: cloned });
        (b, Branch { val: unboxed, keep: one(unboxed), owned: true })
    } else {
        if is_union_ty(result_type) {
            if is_union_ty(value_ty) {
                if b.is_owned_in_current_scope(raw) {
                    (b, Branch { val: raw, keep: one(raw), owned: true })
                } else {
                    let (b, cloned) = b.clone_box(raw, value_ty);
                    (b, Branch { val: cloned, keep: one(cloned), owned: true })
                }
            } else {
                let (b, boxed) = coerce_to_slot_type_spec(raw, value_ty, result_type, b);
                (b, Branch { val: boxed, keep: two(boxed, raw), owned: true })
            }
        } else {
            let (b, val) = coerce_to_slot_type_spec(raw, value_ty, result_type, b);
            (b, Branch { val, keep: two(val, raw), owned: is_rc_type(result_type) })
        }
    }
}

/// Converts the value of a branch to the type of the whole expression. A box that is not
/// owned is copied, so that each branch hands on a reference of its own.
pub fn coerce_if_branch(
    raw: Temp,
    value_ty: &Type,
    result_type: &Type,
    b: &mut FuncBuilder,
) -> (r: Branch)
    ensures
        (final(b)@, r) == coerce_if_branch_spec(raw, value_ty, result_type, old(b)@),
        grown(old(b)@, final(b)@, 0),
        old(b)@.wf() && temp_ok(raw, old(b)@.temp_types.len())
            ==> final(b)@.wf() && branch_ok(&r, final(b)@.temp_types.len()),
{
    reveal(coerce_if_branch_spec);
    if is_union_ty(value_ty) && !is_union_ty(result_type) && is_rc_type(result_type) {
        let cloned = b.clone_box(raw, value_ty);
        let unboxed = b.coerce(cloned, value_ty, result_type);
        b.emit(Instruction::FreeBoxShell { val: cloned });
        return Branch { val: unboxed, keep: one(unboxed), owned: true };
    }
    if is_union_ty(result_type) {
        if is_union_ty(value_ty) {
            if b.is_owned_in_current_scope(raw) {
                return Branch { val: raw, keep: one(raw), owned: true };
            }
            let cloned = b.clone_box(raw, value_ty);
            return Branch { val: cloned, keep: one(cloned), owned: true };
        }
        let boxed = coerce_to_slot_type(raw, value_ty, result_type, b);
        return Branch { val: boxed, keep: two(boxed, raw), owned: true };
    }
    let val = coerce_to_slot_type(raw, value_ty, result_type, b);
    Branch { val, keep: two(val, raw), owned: is_rc_type(result_type) }
}

/// What `own_for_read` does to the function under construction.
#[verifier::opaque]
pub open spec fn own_for_read_spec(t: Temp, ty: &Type, b: FState) -> (FState, Temp) {
    if is_union_ty(ty) {
        let (b, dst) = b.clone_box(t, ty);
        let b = b.register_owned(dst, ty.dup());
        (b, dst)
    } else {
        let b = if is_rc_type(ty) {
            let b = b.emit(Instruction::Retain { val: t, ty: ty.dup() });
            b.register_owned(t, ty.dup())
        } else {
            b
        };
        (b, t)
    }
}

/// Gives a value that was read a reference of its own: copies a box, counts a pointer once
/// more. A scalar is left alone.
pub fn own_for_read(t: Temp, ty: &Type, b: &mut FuncBuilder) -> (r: Temp)
    ensures
        (final(b)@, r) == own_for_read_spec(t, ty, old(b)@),
        grown(old(b)@, final(b)@, 0),
        old(b)@.wf() && temp_ok(t, old(b)@.temp_types.len())
            ==> final(b)@.wf() && temp_ok(r, final(b)@.temp_types.len()),
{
    reveal(own_for_read_spec);
    if is_union_ty(ty) {
        let dst = b.clone_box(t, ty);
        b.register_owned(dst, ty.dup());
        return dst;
    }
    if is_rc_type(ty) {
        b.emit(Instruction::Retain { val: t, ty: ty.dup() });
        b.register_owned(t, ty.dup());
    }
    t
}

/// What `own_for_store` does to the function under construction.
#[verifier::opaque]
pub open spec fn own_for_store_spec(t: Temp, ty: &Type, b: FState) -> (FState, Temp) {
    if is_union_ty(ty) {
        b.clone_box(t, ty)
    } else {
        let b = if is_rc_type(ty) {
            b.emit(Instruction::Retain { val: t, ty: ty.dup() })
        } else {
            b
        };
        (b, t)
    }
}

/// Gives a value that is stored a reference of its own, which the store takes over.
pub fn own_for_store(t: Temp, ty: &Type, b: &mut FuncBuilder) -> (r: Temp)
    ensures
        (final(b)@, r) == own_for_store_spec(t, ty, old(b)@),
        grown(old(b)@, final(b)@, 0),
        old(b)@.wf() && temp_ok(t, old(b)@.temp_types.len())
            ==> final(b)@.wf() && temp_ok(r, final(b)@.temp_types.len()),
{
    reveal(own_for_store_spec);
    if is_union_ty(ty) {
        return b.clone_box(t, ty);
    }
    if is_rc_type(ty) {
        b.emit(Instruction::Retain { val: t, ty: ty.dup() });
    }
    t
}

/// What `coerce_and_own_store` does to the function under construction.
#[verifier::opaque]
pub open spec fn coerce_and_own_store_spec(
    t: Temp,
    value_ty: &Type,
    slot_ty: &Type,
    b: FState,
) -> (FState, Temp) {
    let (b, coerced) = coerce_to_slot_type_spec(t, value_ty, slot_ty, b);
    let (b, stored) = own_for_store_spec(coerced, slot_ty, b);
    let b = if box_shell_reclaim(value_ty, slot_ty, type_repr_differs(value_ty, slot_ty)) {
        b.emit(Instruction::FreeBoxShell { val: coerced })
    } else {
        b
    };
    (b, stored)
}

/// Converts a value to the type of a store and gives it a reference of its own. The shell
/// that the conversion made is freed.
pub fn coerce_and_own_store(
    t: Temp,
    value_ty: &Type,
    slot_ty: &Type,
    b: &mut FuncBuilder,
) -> (r: Temp)
    ensures
        (final(b)@, r) == coerce_and_own_store_spec(t, value_ty, slot_ty, old(b)@),
        grown(old(b)@, final(b)@, 0),
        old(b)@.wf() && temp_ok(t, old(b)@.temp_types.len())
            ==> final(b)@.wf() && temp_ok(r, final(b)@.temp_types.len()),
{
    reveal(coerce_and_own_store_spec);
    let coerced = coerce_to_slot_type(t, value_ty, slot_ty, b);
    let stored = own_for_store(coerced, slot_ty, b);
    if box_shell_reclaim(value_ty, slot_ty, type_repr_differs(value_ty, slot_ty)) {
        b.emit(Instruction::FreeBoxShell { val: coerced });
    }
    stored
}

/// What `coerce_arg_to_param_repr` does to the function under construction.
#[verifier::opaque]
pub open spec fn coerce_arg_to_param_repr_spec(
    arg: Temp,
    arg_ty: &Type,
    param_ty: &Type,
    b: FState,
) -> (FState, Temp) {
    let numeric_width_differs = arg_ty.is_numeric()
        && param_ty.is_numeric()
        && !same_type(arg_ty, param_ty);
    if !type_repr_differs(arg_ty, param_ty) && !numeric_width_differs {
        (b, arg)
    } else {
        b.coerce(arg, arg_ty, param_ty)
    }
}

/// Converts an argument of an inlined function to the type of its parameter.
pub fn coerce_arg_to_param_repr(
    arg: Temp,
    arg_ty: &Type,
    param_ty: &Type,
    b: &mut FuncBuilder,
) -> (r: Temp)
    ensures
        (final(b)@, r) == coerce_arg_to_param_repr_spec(arg, arg_ty, param_ty, old(b)@),
        grown(old(b)@, final(b)@, 0),
        old(b)@.wf() && temp_ok(arg, old(b)@.temp_types.len())
            ==> final(b)@.wf() && temp_ok(r, final(b)@.temp_types.len()),
{
    reveal(coerce_arg_to_param_repr_spec);
    let numeric_width_differs = arg_ty.is_numeric()
        && param_ty.is_numeric()
        && !same_type(arg_ty, param_ty);
    if !type_repr_differs(arg_ty, param_ty) && !numeric_width_differs {
        return arg;
    }
    b.coerce(arg, arg_ty, param_ty)
}

/// What `coerce_arg_to_param` does to the function under construction.
#[verifier::opaque]
pub open spec fn coerce_arg_to_param_spec(
    arg: Temp,
    arg_ty: &Type,
    param_ty: Option<&Type>,
    b: FState,
) -> (FState, Temp) {
    match param_ty {
        Some(p) => if is_union_ty(p) && !is_union_ty(arg_ty) {
            box_to_json_spec(arg, arg_ty, b)
        } else {
            (b, arg)
        },
        None => (b, arg),
    }
}

/// Boxes an argument of a closure where the parameter is a box and the argument is not.
pub fn coerce_arg_to_param(
    arg: Temp,
    arg_ty: &Type,
    param_ty: Option<&Type>,
    b: &mut FuncBuilder,
) -> (r: Temp)
    ensures
        (final(b)@, r) == coerce_arg_to_param_spec(arg, arg_ty, param_ty, old(b)@),
        grown(old(b)@, final(b)@, 0),
        old(b)@.wf() && temp_ok(arg, old(b)@.temp_types.len())
            ==> final(b)@.wf() && temp_ok(r, final(b)@.temp_types.len()),
{
    reveal(coerce_arg_to_param_spec);
    match param_ty {
        Some(p) => if is_union_ty(p) && !is_union_ty(arg_ty) {
            return box_to_json(arg, arg_ty, b);
        },
        None => {},
    }
    arg
}

/// What `retain_call_arg` does to the function under construction.
#[verifier::opaque]
pub open spec fn retain_call_arg_spec(arg: Temp, ty: &Type, is_fresh: bool, b: FState) -> FState {
    if ty.is_function() && !is_fresh {
        b.emit(Instruction::Retain { val: arg, ty: ty.dup() })
    } else {
        b
    }
}

/// Counts a function argument that is borrowed once more, since the callee gives back its
/// function parameters. The callee consumes the reference of a fresh one.
pub fn retain_call_arg(arg: Temp, ty: &Type, is_fresh: bool, b: &mut FuncBuilder)
    ensures
        final(b)@ == retain_call_arg_spec(arg, ty, is_fresh, old(b)@),
        grown(old(b)@, final(b)@, 0),
        old(b)@.wf() && temp_ok(arg, old(b)@.temp_types.len()) ==> final(b)@.wf(),
{
    reveal(retain_call_arg_spec);
    if ty.is_function() && !is_fresh {
        b.emit(Instruction::Retain { val: arg, ty: ty.dup() });
    }
}

/// What `hand_over_closure` does to the function under construction.
#[verifier::opaque]
pub open spec fn hand_over_closure_spec(arg: Temp, ty: &Type, is_fresh: bool, b: FState) -> FState {
    if ty.is_function() && is_fresh {
        b.unregister_owned(arg)
    } else {
        b
    }
}

/// Lets the callee have the reference of a function argument that is fresh: the scope does
/// not own it any more.
pub fn hand_over_closure(arg: Temp, ty: &Type, is_fresh: bool, b: &mut FuncBuilder)
    ensures
        final(b)@ == hand_over_closure_spec(arg, ty, is_fresh, old(b)@),
        grown(old(b)@, final(b)@, 0),
        old(b)@.wf() && temp_ok(arg, old(b)@.temp_types.len()) ==> final(b)@.wf(),
{
    reveal(hand_over_closure_spec);
    if ty.is_function() && is_fresh {
        b.unregister_owned(arg);
    }
}

/// What `move_streamish_arg` does to the function under construction.
#[verifier::opaque]
pub open spec fn move_streamish_arg_spec(arg_ty: &Type, t: Temp, b: FState) -> FState {
    if type_is_streamish_ir(arg_ty) {
        b.unregister_owned(t)
    } else {
        b
    }
}

/// Lets a stream argument move to the callee.
pub fn move_streamish_arg(arg_ty: &Type, t: Temp, b: &mut FuncBuilder)
    ensures
        final(b)@ == move_streamish_arg_spec(arg_ty, t, old(b)@),
        grown(old(b)@, final(b)@, 0),
        old(b)@.wf() && temp_ok(t, old(b)@.temp_types.len()) ==> final(b)@.wf(),
{
    reveal(move_streamish_arg_spec);
    if type_is_streamish_ir(arg_ty) {
        b.unregister_owned(t);
    }
}

/// What `free_arg_box_shells` does to the function under construction.
#[verifier::opaque]
pub open spec fn free_arg_box_shells_spec(shell_boxes: &List<Temp>, dst: Temp, b: FState) -> FState
    decreases shell_boxes,
{
    match shell_boxes {
        List::Nil => b,
        List::Cons(n) => {
            let b = b.emit(Instruction::FreeBoxShellIfDistinct { val: n.head, other: dst });
            free_arg_box_shells_spec(&n.tail, dst, b)
        },
    }
}

/// Frees, after a call, the shells of the boxes that were made for its arguments, except
/// one that is the result.
pub fn free_arg_box_shells(shell_boxes: &List<Temp>, dst: Temp, b: &mut FuncBuilder)
    ensures
        final(b)@ == free_arg_box_shells_spec(shell_boxes, dst, old(b)@),
        grown(old(b)@, final(b)@, 0),
        old(b)@.wf()
            && temps_ok(shell_boxes, old(b)@.temp_types.len())
            && temp_ok(dst, old(b)@.temp_types.len())
            ==> final(b)@.wf(),
    decreases shell_boxes,
{
    reveal(free_arg_box_shells_spec);
    proof {
        temps_tail(shell_boxes, old(b)@.temp_types.len());
    }
    match shell_boxes {
        List::Nil => {},
        List::Cons(n) => {
            b.emit(Instruction::FreeBoxShellIfDistinct { val: n.head, other: dst });
            free_arg_box_shells(&n.tail, dst, b);
        },
    }
}

/// What `free_box_shells` does to the function under construction.
#[verifier::opaque]
pub open spec fn free_box_shells_spec(shells: &List<Temp>, b: FState) -> FState
    decreases shells,
{
    match shells {
        List::Nil => b,
        List::Cons(n) => {
            let b = b.emit(Instruction::FreeBoxShell { val: n.head });
            free_box_shells_spec(&n.tail, b)
        },
    }
}

/// Frees the shells in the list.
pub fn free_box_shells(shells: &List<Temp>, b: &mut FuncBuilder)
    ensures
        final(b)@ == free_box_shells_spec(shells, old(b)@),
        grown(old(b)@, final(b)@, 0),
        old(b)@.wf() && temps_ok(shells, old(b)@.temp_types.len()) ==> final(b)@.wf(),
    decreases shells,
{
    reveal(free_box_shells_spec);
    proof {
        temps_tail(shells, old(b)@.temp_types.len());
    }
    match shells {
        List::Nil => {},
        List::Cons(n) => {
            b.emit(Instruction::FreeBoxShell { val: n.head });
            free_box_shells(&n.tail, b);
        },
    }
}

/// What `release_if_distinct` does to the function under construction.
#[verifier::opaque]
pub open spec fn release_if_distinct_spec(vals: &List<Temp>, other: Temp, b: FState) -> FState
    decreases vals,
{
    match vals {
        List::Nil => b,
        List::Cons(n) => {
            let b = b.emit(Instruction::ReleaseIfDistinct { val: n.head, other });
            release_if_distinct_spec(&n.tail, other, b)
        },
    }
}

/// Releases every value in the list, except one that is `other`.
pub fn release_if_distinct(vals: &List<Temp>, other: Temp, b: &mut FuncBuilder)
    ensures
        final(b)@ == release_if_distinct_spec(vals, other, old(b)@),
        grown(old(b)@, final(b)@, 0),
        old(b)@.wf()
            && temps_ok(vals, old(b)@.temp_types.len())
            && temp_ok(other, old(b)@.temp_types.len())
            ==> final(b)@.wf(),
    decreases vals,
{
    reveal(release_if_distinct_spec);
    proof {
        temps_tail(vals, old(b)@.temp_types.len());
    }
    match vals {
        List::Nil => {},
        List::Cons(n) => {
            b.emit(Instruction::ReleaseIfDistinct { val: n.head, other });
            release_if_distinct(&n.tail, other, b);
        },
    }
}

/// What `narrow_loop_index` does to the function under construction.
#[verifier::opaque]
pub open spec fn narrow_loop_index_spec(i: Temp, b: FState) -> (FState, Temp) {
    b.coerce(i, &Type::Int64, &Type::Int32)
}

/// Narrows a loop counter to the index type of the source language.
pub fn narrow_loop_index(i: Temp, b: &mut FuncBuilder) -> (r: Temp)
    ensures
        (final(b)@, r) == narrow_loop_index_spec(i, old(b)@),
        grown(old(b)@, final(b)@, 0),
        old(b)@.wf() && temp_ok(i, old(b)@.temp_types.len())
            ==> final(b)@.wf() && temp_ok(r, final(b)@.temp_types.len()),
{
    reveal(narrow_loop_index_spec);
    b.coerce(i, &Type::Int64, &Type::Int32)
}

/// A new array that results are pushed to.
pub struct OutputArray {
    pub out: Temp,
    /// The kind of its elements, where they are unboxed.
    pub flat: Option<FlatElemKind>,
}

/// What `alloc_output_array` does to the function under construction.
#[verifier::opaque]
pub open spec fn alloc_output_array_spec(
    elem_ty: &Type,
    result_type: &Type,
    b: FState,
) -> (FState, OutputArray) {
    let flat = FlatElemKind::from_type(elem_ty);
    let intrinsic = match flat {
        Some(kind) => Intrinsic::FlatArrayAlloc(kind),
        None => Intrinsic::ArrayAlloc,
    };
    let (b, out) = b.call_intrinsic(intrinsic, List::Nil, result_type);
    let b = b.register_owned(out, result_type.dup());
    (b, OutputArray { out, flat })
}

/// Makes the array for results of an element type: unboxed where the type is a number type.
pub fn alloc_output_array(
    elem_ty: &Type,
    result_type: &Type,
    b: &mut FuncBuilder,
) -> (r: OutputArray)
    ensures
        (final(b)@, r) == alloc_output_array_spec(elem_ty, result_type, old(b)@),
        grown(old(b)@, final(b)@, 0),
        old(b)@.wf() ==> final(b)@.wf() && output_array_ok(&r, final(b)@.temp_types.len()),
{
    reveal(alloc_output_array_spec);
    let flat = FlatElemKind::from_type(elem_ty);
    let intrinsic = match flat {
        Some(kind) => Intrinsic::FlatArrayAlloc(kind),
        None => Intrinsic::ArrayAlloc,
    };
    let out = b.call_intrinsic(intrinsic, List::Nil, result_type);
    b.register_owned(out, result_type.dup());
    OutputArray { out, flat }
}

/// What `push_output` does to the function under construction.
#[verifier::opaque]
pub open spec fn push_output_spec(
    out: Temp,
    flat: Option<FlatElemKind>,
    elem_ty: &Type,
    val: Temp,
    val_ty: &Type,
    borrowed: bool,
    b: FState,
) -> FState {
    let (b, push_dst) = b.alloc_temp(Type::Null);
    match flat {
        Some(kind) => {
            let (b, scalar) = if is_union_ty(val_ty)
                || (val_ty.is_numeric() && elem_ty.is_numeric() && !same_type(val_ty, elem_ty)) {
                b.coerce(val, val_ty, elem_ty)
            } else {
                (b, val)
            };
            b.emit(
                Instruction::CallIntrinsic {
                    dst: push_dst,
                    intrinsic: Intrinsic::FlatArrayPush(kind),
                    args: two(out, scalar),
                    ret_ty: Type::Null,
                },
            )
        },
        None => {
            let b = if borrowed && is_rc_type(val_ty) && !is_union_ty(val_ty) {
                b.emit(Instruction::Retain { val, ty: val_ty.dup() })
            } else {
                b
            };
            let (b, boxed) = box_to_json_spec(val, val_ty, b);
            let b = b.emit(
                Instruction::CallIntrinsic {
                    dst: push_dst,
                    intrinsic: Intrinsic::Push,
                    args: two(out, boxed),
                    ret_ty: Type::Null,
                },
            );
            if boxed != val {
                b.emit(Instruction::Release { val: boxed, ty: json() })
            } else {
                b
            }
        },
    }
}

/// Pushes a result to the array. An unboxed array takes the number itself; another one takes
/// a box, and a box that was made for it is released again.
pub fn push_output(
    out: Temp,
    flat: Option<FlatElemKind>,
    elem_ty: &Type,
    val: Temp,
    val_ty: &Type,
    borrowed: bool,
    b: &mut FuncBuilder,
)
    ensures
        final(b)@ == push_output_spec(out, flat, elem_ty, val, val_ty, borrowed, old(b)@),
        grown(old(b)@, final(b)@, 0),
        old(b)@.wf()
            && temp_ok(out, old(b)@.temp_types.len())
            && temp_ok(val, old(b)@.temp_types.len())
            ==> final(b)@.wf(),
{
    reveal(push_output_spec);
    let push_dst = b.alloc_temp(Type::Null);
    match flat {
        Some(kind) => {
            let scalar = if is_union_ty(val_ty)
                || (val_ty.is_numeric() && elem_ty.is_numeric() && !same_type(val_ty, elem_ty)) {
                b.coerce(val, val_ty, elem_ty)
            } else {
                val
            };
            b.emit(
                Instruction::CallIntrinsic {
                    dst: push_dst,
                    intrinsic: Intrinsic::FlatArrayPush(kind),
                    args: two(out, scalar),
                    ret_ty: Type::Null,
                },
            );
        },
        None => {
            if borrowed && is_rc_type(val_ty) && !is_union_ty(val_ty) {
                b.emit(Instruction::Retain { val, ty: val_ty.dup() });
            }
            let boxed = box_to_json(val, val_ty, b);
            b.emit(
                Instruction::CallIntrinsic {
                    dst: push_dst,
                    intrinsic: Intrinsic::Push,
                    args: two(out, boxed),
                    ret_ty: Type::Null,
                },
            );
            if boxed != val {
                b.emit(Instruction::Release { val: boxed, ty: json() });
            }
        },
    }
}

} // verus!
