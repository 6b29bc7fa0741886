//! Lowering of record literals into packed records and nodes of sum types, and of reads of
//! single fields of array elements.

use crate::ast::{FieldInit, TypedExpr};
use crate::builder::{FState, FuncBuilder, grown};
use crate::coerce::{
    coerce_to_slot_type, coerce_to_slot_type_owning_bind, coerce_to_slot_type_owning_bind_spec,
    coerce_to_slot_type_spec, own_for_read, own_for_read_spec,
};
use crate::ctx::{CState, Lower, LowerCtx, St, low, on, on_b, ran, st, valid};
use crate::expr::{lower_at, lower_expr};
use crate::field_table::recursive_children;
use crate::ir::{Instruction, NamedTemp, Temp};
use crate::list::{List, prepend};
use crate::repr::{
    is_rc_type, is_sealed_scalar_array, is_sealed_scalar_repr, is_union_ty, sealed_fields,
    sum_recursive_self_name, sum_type_discriminant_of, sum_type_eligible, sumnode_variant_by_disc,
    sumnode_variant_by_disc_spec, type_repr_differs,
};
use crate::text::same_name;
use crate::types::{Field, Type, dup_str, field_type};
use crate::valid::{
    child_temp_ok, children_ok, children_tail, group_valid, named_ok, otemp_ok, place_ok,
    sum_fields_ok, sum_scrutinee_ok, temp_ok,
};
use std::rc::Rc;
use vstd::prelude::*;

verus! {

broadcast use group_valid;

/// The literal gives every field of the record type.
pub open spec fn gives_all_fields_spec(target: &List<Field>, fields: &List<FieldInit>) -> bool
    decreases target,
{
    match target {
        List::Nil => true,
        List::Cons(n) => gives_field(fields, &n.head.name) && gives_all_fields(&n.tail, fields),
    }
}

/// Whether the literal gives every field of the record type.
#[verifier::when_used_as_spec(gives_all_fields_spec)]
pub fn gives_all_fields(target: &List<Field>, fields: &List<FieldInit>) -> (r: bool)
    ensures
        r == gives_all_fields_spec(target, fields),
    decreases target,
{
    match target {
        List::Nil => true,
        List::Cons(n) => gives_field(fields, &n.head.name) && gives_all_fields(&n.tail, fields),
    }
}

/// The literal gives the field.
pub open spec fn gives_field_spec(fields: &List<FieldInit>, name: &String) -> bool
    decreases fields,
{
    match fields {
        List::Nil => false,
        List::Cons(n) => same_name(&n.head.name, name) || gives_field(&n.tail, name),
    }
}

/// Whether the literal gives the field.
#[verifier::when_used_as_spec(gives_field_spec)]
pub fn gives_field(fields: &List<FieldInit>, name: &String) -> (r: bool)
    ensures
        r == gives_field_spec(fields, name),
    decreases fields,
{
    match fields {
        List::Nil => false,
        List::Cons(n) => same_name(&n.head.name, name) || gives_field(&n.tail, name),
    }
}

/// What `lower_field_inits` does to the state, where `l` lowers the expressions inside.
#[verifier::opaque]
pub open spec fn lower_field_inits_spec(
    l: Lower,
    fields: &List<FieldInit>,
    s: St,
) -> (St, List<NamedTemp>)
    decreases fields,
{
    match fields {
        List::Nil => (s, List::Nil),
        List::Cons(n) => {
            let (s, temp) = low(l, &n.head.value, s);
            let (s, rest) = lower_field_inits_spec(l, &n.tail, s);
            (s, prepend(NamedTemp { name: dup_str(&n.head.name), temp }, rest))
        },
    }
}

/// Lowers the fields of a literal in order.
pub fn lower_field_inits(
    fields: &List<FieldInit>,
    b: &mut FuncBuilder,
    ctx: &mut LowerCtx,
) -> (r: List<NamedTemp>)
    ensures
        (st(final(b), final(ctx)), r) == lower_field_inits_spec(
            lower_at(old(ctx).room.left()),
            fields,
            st(old(b), old(ctx)),
        ),
        ran(*old(b), *old(ctx), *final(b), *final(ctx)),
        valid(st(old(b), old(ctx)))
            ==> valid(st(final(b), final(ctx))) && named_ok(&r, final(b)@.temp_types.len()),
    decreases old(ctx).room.left(), 1nat, fields.len(),
{
    reveal(lower_field_inits_spec);
    match fields {
        List::Nil => List::Nil,
        List::Cons(n) => {
            let temp = lower_expr(&n.head.value, b, ctx);
            let rest = lower_field_inits(&n.tail, b, ctx);
            prepend(NamedTemp { name: dup_str(&n.head.name), temp }, rest)
        },
    }
}

/// What `make_record` does to the function under construction.
#[verifier::opaque]
pub open spec fn make_record_spec(fields: List<NamedTemp>, ty: &Type, b: FState) -> (FState, Temp) {
    let (b, dst) = b.alloc_temp(ty.dup());
    let b = b.emit(
        Instruction::MakeObject {
            dst,
            fields,
            spreads: List::Nil,
            computed_fields: List::Nil,
            ty: ty.dup(),
            stack: false,
        },
    );
    let b = b.register_owned(dst, ty.dup());
    (b, dst)
}

/// Makes a record of the fields, which the scope owns.
pub fn make_record(fields: List<NamedTemp>, ty: &Type, b: &mut FuncBuilder) -> (r: Temp)
    ensures
        (final(b)@, r) == make_record_spec(fields, ty, old(b)@),
        grown(old(b)@, final(b)@, 0),
        old(b)@.wf() && named_ok(&fields, old(b)@.temp_types.len())
            ==> final(b)@.wf() && temp_ok(r, final(b)@.temp_types.len()),
{
    reveal(make_record_spec);
    let dst = b.alloc_temp(ty.dup());
    b.emit(
        Instruction::MakeObject {
            dst,
            fields,
            spreads: List::Nil,
            computed_fields: List::Nil,
            ty: ty.dup(),
            stack: false,
        },
    );
    b.register_owned(dst, ty.dup());
    dst
}

/// What `try_lower_sealed_literal` does to the state, where `l` lowers the expressions inside.
#[verifier::opaque]
pub open spec fn try_lower_sealed_literal_spec(
    l: Lower,
    value: &TypedExpr,
    slot_ty: &Type,
    s: St,
) -> (St, Option<Temp>) {
    match (sealed_fields(slot_ty), value) {
        (Some(target), TypedExpr::MakeObject { fields, spreads, .. }) => {
            if !spreads.is_empty() || !gives_all_fields(&target, fields) {
                (s, None)
            } else {
                let (s, lowered) = lower_field_inits_spec(l, fields, s);
                let (s, dst) = on(s, make_record_spec(lowered, slot_ty, s.b));
                (s, Some(dst))
            }
        },
        _ => (s, None),
    }
}

/// Lowers a record literal straight into a packed record, where the slot holds one and the
/// literal gives all of its fields and spreads nothing. `None`, with nothing emitted,
/// otherwise.
pub fn try_lower_sealed_literal(
    value: &TypedExpr,
    slot_ty: &Type,
    b: &mut FuncBuilder,
    ctx: &mut LowerCtx,
) -> (r: Option<Temp>)
    ensures
        (st(final(b), final(ctx)), r) == try_lower_sealed_literal_spec(
            lower_at(old(ctx).room.left()),
            value,
            slot_ty,
            st(old(b), old(ctx)),
        ),
        ran(*old(b), *old(ctx), *final(b), *final(ctx)),
        valid(st(old(b), old(ctx)))
            ==> valid(st(final(b), final(ctx))) && otemp_ok(r, final(b)@.temp_types.len()),
    decreases old(ctx).room.left(), 2nat, 0nat,
{
    reveal(try_lower_sealed_literal_spec);
    match (sealed_fields(slot_ty), value) {
        (Some(target), TypedExpr::MakeObject { fields, spreads, .. }) => {
            if !spreads.is_empty() || !gives_all_fields(&target, fields) {
                return None;
            }
            let lowered = lower_field_inits(fields, b, ctx);
            let dst = make_record(lowered, slot_ty, b);
            Some(dst)
        },
        _ => None,
    }
}

/// A container can be read without a reference of its own.
pub open spec fn lower_container_base_borrowed_check_spec(object: &TypedExpr, c: CState) -> bool {
    match object {
        TypedExpr::LocalGet { slot, ty, .. } => {
            is_rc_type(ty) && !is_union_ty(ty) && c.packed(*slot).is_none()
        },
        _ => false,
    }
}

/// Whether a container can be read without a reference of its own: a variable whose value is
/// a counted pointer, not a box.
pub fn lower_container_base_borrowed_check(object: &TypedExpr, ctx: &LowerCtx) -> (r: bool)
    ensures
        r == lower_container_base_borrowed_check_spec(object, ctx@),
{
    match object {
        TypedExpr::LocalGet { slot, ty, .. } => is_rc_type(ty)
            && !is_union_ty(ty)
            && ctx.packed(*slot).is_none(),
        _ => false,
    }
}

/// What `lower_container_base_borrowed` does to the state, where `l` lowers the expressions inside.
#[verifier::opaque]
pub open spec fn lower_container_base_borrowed_spec(
    l: Lower,
    object: &TypedExpr,
    s: St,
) -> (St, Option<Temp>) {
    match object {
        TypedExpr::LocalGet { slot, ty, .. } => {
            if !lower_container_base_borrowed_check_spec(object, s.c) {
                (s, None)
            } else {
                if s.c.is_global_var(*slot) {
                    let gty = match s.c.global_val(*slot) {
                        Some(t) => t,
                        None => ty.dup(),
                    };
                    if type_repr_differs(&gty, ty) {
                        (s, None)
                    } else {
                        let (s, dst) = on(s, s.b.alloc_temp(gty.dup()));
                        let s = on_b(
                            s,
                            s.b.emit(
                                Instruction::GlobalValGet {
                                    dst,
                                    slot: *slot,
                                    ty: gty.dup(),
                                    immutable: false,
                                },
                            ),
                        );
                        (s, Some(dst))
                    }
                } else {
                    match (s.b.cell_slot(*slot), s.b.slot(*slot)) {
                        (Some(cell_ty), Some(cell)) => if type_repr_differs(&cell_ty, ty) {
                            (s, None)
                        } else {
                            let (s, dst) = on(s, s.b.cell_get(cell, &cell_ty));
                            (s, Some(dst))
                        },
                        (None, Some(t)) => {
                            let stored = s.b.temp_ty_or(t, ty.dup());
                            if type_repr_differs(&stored, ty) {
                                (s, None)
                            } else {
                                (s, Some(t))
                            }
                        },
                        _ => (s, None),
                    }
                }
            }
        },
        _ => (s, None),
    }
}

/// Lowers a variable that is only read from, without giving it a reference of its own.
/// `None`, with nothing emitted, where it is not held in its own type.
pub fn lower_container_base_borrowed(
    object: &TypedExpr,
    b: &mut FuncBuilder,
    ctx: &mut LowerCtx,
) -> (r: Option<Temp>)
    ensures
        (st(final(b), final(ctx)), r) == lower_container_base_borrowed_spec(
            lower_at(old(ctx).room.left()),
            object,
            st(old(b), old(ctx)),
        ),
        ran(*old(b), *old(ctx), *final(b), *final(ctx)),
        valid(st(old(b), old(ctx)))
            ==> valid(st(final(b), final(ctx))) && otemp_ok(r, final(b)@.temp_types.len()),
    decreases old(ctx).room.left(), 1nat, 0nat,
{
    reveal(lower_container_base_borrowed_spec);
    match object {
        TypedExpr::LocalGet { slot, ty, .. } => {
            if !lower_container_base_borrowed_check(object, ctx) {
                return None;
            }
            if ctx.is_global_var(*slot) {
                let gty = match ctx.global_val(*slot) {
                    Some(t) => t,
                    None => ty.dup(),
                };
                if type_repr_differs(&gty, ty) {
                    return None;
                }
                let dst = b.alloc_temp(gty.dup());
                b.emit(
                    Instruction::GlobalValGet { dst, slot: *slot, ty: gty.dup(), immutable: false },
                );
                return Some(dst);
            }
            match (b.cell_slot(*slot), b.slot(*slot)) {
                (Some(cell_ty), Some(cell)) => {
                    if type_repr_differs(&cell_ty, ty) {
                        return None;
                    }
                    let dst = b.cell_get(cell, &cell_ty);
                    Some(dst)
                },
                (None, Some(t)) => {
                    let stored = b.temp_ty_or(t, ty.dup());
                    if type_repr_differs(&stored, ty) {
                        return None;
                    }
                    Some(t)
                },
                _ => None,
            }
        },
        _ => None,
    }
}

/// What `lower_base` does to the state, where `l` lowers the expressions inside.
#[verifier::opaque]
pub open spec fn lower_base_spec(l: Lower, object: &TypedExpr, s: St) -> (St, Temp) {
    let (s, borrowed) = lower_container_base_borrowed_spec(l, object, s);
    match borrowed {
        Some(t) => (s, t),
        None => low(l, object, s),
    }
}

/// Lowers a variable that is only read from, without a reference of its own where it can be.
pub fn lower_base(object: &TypedExpr, b: &mut FuncBuilder, ctx: &mut LowerCtx) -> (r: Temp)
    ensures
        (st(final(b), final(ctx)), r) == lower_base_spec(
            lower_at(old(ctx).room.left()),
            object,
            st(old(b), old(ctx)),
        ),
        ran(*old(b), *old(ctx), *final(b), *final(ctx)),
        valid(st(old(b), old(ctx)))
            ==> valid(st(final(b), final(ctx))) && temp_ok(r, final(b)@.temp_types.len()),
    decreases old(ctx).room.left(), 2nat, 0nat,
{
    reveal(lower_base_spec);
    let borrowed = lower_container_base_borrowed(object, b, ctx);
    match borrowed {
        Some(t) => t,
        None => lower_expr(object, b, ctx),
    }
}

/// A container and a key in it.
pub struct Place {
    pub object: Temp,
    pub key: Temp,
}

/// What `lower_place` does to the state, where `l` lowers the expressions inside.
#[verifier::opaque]
pub open spec fn lower_place_spec(
    l: Lower,
    object: &TypedExpr,
    key: &TypedExpr,
    s: St,
) -> (St, Place) {
    if lower_container_base_borrowed_check_spec(object, s.c) {
        let (s, key_temp) = low(l, key, s);
        let (s, obj_temp) = lower_base_spec(l, object, s);
        (s, Place { object: obj_temp, key: key_temp })
    } else {
        let (s, obj_temp) = low(l, object, s);
        let (s, key_temp) = low(l, key, s);
        (s, Place { object: obj_temp, key: key_temp })
    }
}

/// Lowers a container and a key. A container that is read without a reference of its own is
/// lowered last, so that the key cannot replace it before it is read.
pub fn lower_place(
    object: &TypedExpr,
    key: &TypedExpr,
    b: &mut FuncBuilder,
    ctx: &mut LowerCtx,
) -> (r: Place)
    ensures
        (st(final(b), final(ctx)), r) == lower_place_spec(
            lower_at(old(ctx).room.left()),
            object,
            key,
            st(old(b), old(ctx)),
        ),
        ran(*old(b), *old(ctx), *final(b), *final(ctx)),
        valid(st(old(b), old(ctx)))
            ==> valid(st(final(b), final(ctx))) && place_ok(&r, final(b)@.temp_types.len()),
    decreases old(ctx).room.left(), 3nat, 0nat,
{
    reveal(lower_place_spec);
    if lower_container_base_borrowed_check(object, ctx) {
        let key_temp = lower_expr(key, b, ctx);
        let obj_temp = lower_base(object, b, ctx);
        Place { object: obj_temp, key: key_temp }
    } else {
        let obj_temp = lower_expr(object, b, ctx);
        let key_temp = lower_expr(key, b, ctx);
        Place { object: obj_temp, key: key_temp }
    }
}

/// The type of a field that can be read in place.
pub open spec fn packed_field_type_spec(elem_ty: &Type, field: &String) -> Option<Type> {
    match elem_ty {
        Type::Object { fields, .. } => match field_type(fields, field) {
            Some(t) => {
                if t.is_flat_scalar() || matches!(t, Type::Bool) || t.is_sealed_heap_field() {
                    Some(t)
                } else {
                    None
                }
            },
            None => None,
        },
        _ => None,
    }
}

/// The type of a field of the elements of an array of packed records, where the field can be
/// read in place.
#[verifier::when_used_as_spec(packed_field_type_spec)]
pub fn packed_field_type(elem_ty: &Type, field: &String) -> (r: Option<Type>)
    ensures
        r == packed_field_type_spec(elem_ty, field),
{
    match elem_ty {
        Type::Object { fields, .. } => match field_type(fields, field) {
            Some(t) => if t.is_flat_scalar()
                || matches!(t, Type::Bool)
                || t.is_sealed_heap_field() {
                Some(t)
            } else {
                None
            },
            None => None,
        },
        _ => None,
    }
}

/// What `read_packed_field` does to the function under construction.
#[verifier::opaque]
pub open spec fn read_packed_field_spec(
    array: Temp,
    index: Temp,
    field: &String,
    arr_ty: &Type,
    field_ty: &Type,
    result_ty: &Type,
    b: FState,
) -> (FState, Temp) {
    let (b, raw) = b.alloc_temp(field_ty.dup());
    let b = b.emit(
        Instruction::SealedArrayFieldGet {
            dst: raw,
            array,
            index,
            field: dup_str(field),
            arr_ty: arr_ty.dup(),
            result_ty: field_ty.dup(),
        },
    );
    let b = if field_ty.is_sealed_heap_field() {
        let b = b.emit(Instruction::Retain { val: raw, ty: field_ty.dup() });
        b.register_owned(raw, field_ty.dup())
    } else {
        b
    };
    let (b, coerced) = coerce_to_slot_type_spec(raw, field_ty, result_ty, b);
    let b = if coerced != raw && is_union_ty(result_ty) {
        b.register_owned(coerced, result_ty.dup())
    } else {
        b
    };
    (b, coerced)
}

/// Reads a field of an element of a packed array in place, and converts it to the type that
/// is wanted. A counted field gets a reference of its own.
pub fn read_packed_field(
    array: Temp,
    index: Temp,
    field: &String,
    arr_ty: &Type,
    field_ty: &Type,
    result_ty: &Type,
    b: &mut FuncBuilder,
) -> (r: Temp)
    ensures
        (final(b)@, r) == read_packed_field_spec(
            array,
            index,
            field,
            arr_ty,
            field_ty,
            result_ty,
            old(b)@,
        ),
        grown(old(b)@, final(b)@, 0),
        old(b)@.wf()
            && temp_ok(array, old(b)@.temp_types.len())
            && temp_ok(index, old(b)@.temp_types.len())
            ==> final(b)@.wf() && temp_ok(r, final(b)@.temp_types.len()),
{
    reveal(read_packed_field_spec);
    let raw = b.alloc_temp(field_ty.dup());
    b.emit(
        Instruction::SealedArrayFieldGet {
            dst: raw,
            array,
            index,
            field: dup_str(field),
            arr_ty: arr_ty.dup(),
            result_ty: field_ty.dup(),
        },
    );
    if field_ty.is_sealed_heap_field() {
        b.emit(Instruction::Retain { val: raw, ty: field_ty.dup() });
        b.register_owned(raw, field_ty.dup());
    }
    let coerced = coerce_to_slot_type(raw, field_ty, result_ty, b);
    if coerced != raw && is_union_ty(result_ty) {
        b.register_owned(coerced, result_ty.dup());
    }
    coerced
}

/// The element type of an array.
pub open spec fn array_elem_type_spec(ty: &Type) -> Option<Type> {
    match ty {
        Type::Array(elem) => Some(elem.dup()),
        _ => None,
    }
}

/// The element type of an array.
#[verifier::when_used_as_spec(array_elem_type_spec)]
pub fn array_elem_type(ty: &Type) -> (r: Option<Type>)
    ensures
        r == array_elem_type_spec(ty),
{
    match ty {
        Type::Array(elem) => Some(elem.dup()),
        _ => None,
    }
}

/// The type of a field of the elements of an array of packed records.
pub open spec fn sealed_array_field_spec(array: &TypedExpr, field: &String) -> Option<Type> {
    if !is_sealed_scalar_array(&array.ty()) {
        None
    } else {
        match array_elem_type(&array.ty()) {
            Some(elem) => packed_field_type(&elem, field),
            None => None,
        }
    }
}

/// The type of the field of an array of packed records that `object`, an element of it, is
/// asked for.
#[verifier::when_used_as_spec(sealed_array_field_spec)]
pub fn sealed_array_field(array: &TypedExpr, field: &String) -> (r: Option<Type>)
    ensures
        r == sealed_array_field_spec(array, field),
{
    if !is_sealed_scalar_array(&array.ty()) {
        return None;
    }
    match array_elem_type(&array.ty()) {
        Some(elem) => packed_field_type(&elem, field),
        None => None,
    }
}

/// What `try_lower_sealed_array_field` does to the state, where `l` lowers the expressions inside.
#[verifier::opaque]
pub open spec fn try_lower_sealed_array_field_spec(
    l: Lower,
    object: &TypedExpr,
    field: &String,
    result_ty: &Type,
    s: St,
) -> (St, Option<Temp>) {
    match object {
        TypedExpr::Index { object: array, key, .. } => match sealed_array_field(array, field) {
            Some(field_ty) => {
                let (s, place) = lower_place_spec(l, array, key, s);
                let (s, t) = on(
                    s,
                    read_packed_field_spec(
                        place.object,
                        place.key,
                        field,
                        &array.ty(),
                        &field_ty,
                        result_ty,
                        s.b,
                    ),
                );
                (s, Some(t))
            },
            None => (s, None),
        },
        _ => (s, None),
    }
}

/// Lowers a read of a field of an element of a packed array without making the element.
/// `None`, with nothing emitted, where `object` is no such element.
pub fn try_lower_sealed_array_field(
    object: &TypedExpr,
    field: &String,
    result_ty: &Type,
    b: &mut FuncBuilder,
    ctx: &mut LowerCtx,
) -> (r: Option<Temp>)
    ensures
        (st(final(b), final(ctx)), r) == try_lower_sealed_array_field_spec(
            lower_at(old(ctx).room.left()),
            object,
            field,
            result_ty,
            st(old(b), old(ctx)),
        ),
        ran(*old(b), *old(ctx), *final(b), *final(ctx)),
        valid(st(old(b), old(ctx)))
            ==> valid(st(final(b), final(ctx))) && otemp_ok(r, final(b)@.temp_types.len()),
    decreases old(ctx).room.left(), 4nat, 0nat,
{
    reveal(try_lower_sealed_array_field_spec);
    match object {
        TypedExpr::Index { object: array, key, .. } => match sealed_array_field(array, field) {
            Some(field_ty) => {
                let place = lower_place(array, key, b, ctx);
                let t = read_packed_field(
                    place.object,
                    place.key,
                    field,
                    &array.ty(),
                    &field_ty,
                    result_ty,
                    b,
                );
                Some(t)
            },
            None => None,
        },
        _ => None,
    }
}

/// What `try_lower_packed_elem_field` does to the state, where `l` lowers the expressions inside.
#[verifier::opaque]
pub open spec fn try_lower_packed_elem_field_spec(
    l: Lower,
    object: &TypedExpr,
    field: &String,
    result_ty: &Type,
    s: St,
) -> (St, Option<Temp>) {
    match object {
        TypedExpr::LocalGet { slot, .. } => match s.c.packed(*slot) {
            Some(p) => match packed_field_type(&p.elem_ty, field) {
                Some(field_ty) => {
                    let arr_ty = Type::Array(Rc::new(p.elem_ty.dup()));
                    let (s, t) = on(
                        s,
                        read_packed_field_spec(
                            p.array,
                            p.index,
                            field,
                            &arr_ty,
                            &field_ty,
                            result_ty,
                            s.b,
                        ),
                    );
                    (s, Some(t))
                },
                None => (s, None),
            },
            None => (s, None),
        },
        _ => (s, None),
    }
}

/// Lowers a read of a field of a variable that stands for an element of a packed array.
/// `None`, with nothing emitted, where it does not.
pub fn try_lower_packed_elem_field(
    object: &TypedExpr,
    field: &String,
    result_ty: &Type,
    b: &mut FuncBuilder,
    ctx: &mut LowerCtx,
) -> (r: Option<Temp>)
    ensures
        (st(final(b), final(ctx)), r) == try_lower_packed_elem_field_spec(
            lower_at(old(ctx).room.left()),
            object,
            field,
            result_ty,
            st(old(b), old(ctx)),
        ),
        ran(*old(b), *old(ctx), *final(b), *final(ctx)),
        valid(st(old(b), old(ctx)))
            ==> valid(st(final(b), final(ctx))) && otemp_ok(r, final(b)@.temp_types.len()),
    decreases old(ctx).room.left(), 1nat, 0nat,
{
    reveal(try_lower_packed_elem_field_spec);
    match object {
        TypedExpr::LocalGet { slot, .. } => match ctx.packed(*slot) {
            Some(p) => match packed_field_type(&p.elem_ty, field) {
                Some(field_ty) => {
                    let arr_ty = Type::Array(Rc::new(p.elem_ty.dup()));
                    let t = read_packed_field(
                        p.array,
                        p.index,
                        field,
                        &arr_ty,
                        &field_ty,
                        result_ty,
                        b,
                    );
                    Some(t)
                },
                None => None,
            },
            None => None,
        },
        _ => None,
    }
}

/// The record type has the field.
pub open spec fn has_field_spec(ty: &Type, field: &String) -> bool {
    match ty {
        Type::Object { fields, .. } => field_type(fields, field).is_some(),
        _ => false,
    }
}

/// Whether the record type has the field.
#[verifier::when_used_as_spec(has_field_spec)]
pub fn has_field(ty: &Type, field: &String) -> (r: bool)
    ensures
        r == has_field_spec(ty, field),
{
    match ty {
        Type::Object { fields, .. } => field_type(fields, field).is_some(),
        _ => false,
    }
}

/// The array holds boxes of records that could be packed and have the field.
pub open spec fn boxed_array_has_field_spec(arr_ty: &Type, field: &String) -> bool {
    match array_elem_type(arr_ty) {
        Some(elem) => {
            is_sealed_scalar_repr(&elem)
                && !is_sealed_scalar_array(arr_ty)
                && has_field(&elem, field)
        },
        None => false,
    }
}

/// Whether the array holds boxes of records whose fields could all be packed, and the
/// records have the field.
#[verifier::when_used_as_spec(boxed_array_has_field_spec)]
pub fn boxed_array_has_field(arr_ty: &Type, field: &String) -> (r: bool)
    ensures
        r == boxed_array_has_field_spec(arr_ty, field),
{
    match array_elem_type(arr_ty) {
        Some(elem) => is_sealed_scalar_repr(&elem)
            && !is_sealed_scalar_array(arr_ty)
            && has_field(&elem, field),
        None => false,
    }
}

/// What `try_lower_boxed_array_field` does to the state, where `l` lowers the expressions inside.
#[verifier::opaque]
pub open spec fn try_lower_boxed_array_field_spec(
    l: Lower,
    object: &TypedExpr,
    field: &String,
    result_ty: &Type,
    s: St,
) -> (St, Option<Temp>) {
    match object {
        TypedExpr::Index { object: array, key, .. } => {
            if !boxed_array_has_field(&array.ty(), field) {
                (s, None)
            } else {
                let (s, place) = lower_place_spec(l, array, key, s);
                let (s, dst) = on(s, s.b.alloc_temp(result_ty.dup()));
                let s = on_b(
                    s,
                    s.b.emit(
                        Instruction::BoxedArrayFieldGet {
                            dst,
                            array: place.object,
                            index: place.key,
                            field: dup_str(field),
                            arr_ty: array.ty(),
                            result_ty: result_ty.dup(),
                        },
                    ),
                );
                let (s, owned) = on(s, own_for_read_spec(dst, result_ty, s.b));
                (s, Some(owned))
            }
        },
        _ => (s, None),
    }
}

/// Lowers a read of a field of an element of an array of boxed records without making the
/// element. `None`, with nothing emitted, where `object` is no such element.
pub fn try_lower_boxed_array_field(
    object: &TypedExpr,
    field: &String,
    result_ty: &Type,
    b: &mut FuncBuilder,
    ctx: &mut LowerCtx,
) -> (r: Option<Temp>)
    ensures
        (st(final(b), final(ctx)), r) == try_lower_boxed_array_field_spec(
            lower_at(old(ctx).room.left()),
            object,
            field,
            result_ty,
            st(old(b), old(ctx)),
        ),
        ran(*old(b), *old(ctx), *final(b), *final(ctx)),
        valid(st(old(b), old(ctx)))
            ==> valid(st(final(b), final(ctx))) && otemp_ok(r, final(b)@.temp_types.len()),
    decreases old(ctx).room.left(), 4nat, 0nat,
{
    reveal(try_lower_boxed_array_field_spec);
    match object {
        TypedExpr::Index { object: array, key, .. } => {
            if !boxed_array_has_field(&array.ty(), field) {
                return None;
            }
            let place = lower_place(array, key, b, ctx);
            let dst = b.alloc_temp(result_ty.dup());
            b.emit(
                Instruction::BoxedArrayFieldGet {
                    dst,
                    array: place.object,
                    index: place.key,
                    field: dup_str(field),
                    arr_ty: array.ty(),
                    result_ty: result_ty.dup(),
                },
            );
            let owned = own_for_read(dst, result_ty, b);
            Some(owned)
        },
        _ => None,
    }
}

/// What `try_lower_elem_field` does to the state, where `l` lowers the expressions inside.
#[verifier::opaque]
pub open spec fn try_lower_elem_field_spec(
    l: Lower,
    object: &TypedExpr,
    field: &String,
    result_ty: &Type,
    s: St,
) -> (St, Option<Temp>) {
    let (s, packed) = try_lower_packed_elem_field_spec(l, object, field, result_ty, s);
    match packed {
        Some(t) => (s, Some(t)),
        None => {
            let (s, sealed) = try_lower_sealed_array_field_spec(l, object, field, result_ty, s);
            match sealed {
                Some(t) => (s, Some(t)),
                None => try_lower_boxed_array_field_spec(l, object, field, result_ty, s),
            }
        },
    }
}

/// Lowers a read of one field of an array element without making the element, where one of
/// the three ways applies.
pub fn try_lower_elem_field(
    object: &TypedExpr,
    field: &String,
    result_ty: &Type,
    b: &mut FuncBuilder,
    ctx: &mut LowerCtx,
) -> (r: Option<Temp>)
    ensures
        (st(final(b), final(ctx)), r) == try_lower_elem_field_spec(
            lower_at(old(ctx).room.left()),
            object,
            field,
            result_ty,
            st(old(b), old(ctx)),
        ),
        ran(*old(b), *old(ctx), *final(b), *final(ctx)),
        valid(st(old(b), old(ctx)))
            ==> valid(st(final(b), final(ctx))) && otemp_ok(r, final(b)@.temp_types.len()),
    decreases old(ctx).room.left(), 5nat, 0nat,
{
    reveal(try_lower_elem_field_spec);
    let packed = try_lower_packed_elem_field(object, field, result_ty, b, ctx);
    match packed {
        Some(t) => {
            return Some(t);
        },
        None => {},
    }
    let sealed = try_lower_sealed_array_field(object, field, result_ty, b, ctx);
    match sealed {
        Some(t) => {
            return Some(t);
        },
        None => {},
    }
    try_lower_boxed_array_field(object, field, result_ty, b, ctx)
}

/// How many record literals and fields are nested in an expression.
pub open spec fn lit_size(e: &TypedExpr) -> nat
    decreases e,
{
    match e {
        TypedExpr::MakeObject { fields, .. } => 1 + lits_size(fields),
        _ => 0,
    }
}

/// How many record literals and fields are nested in the fields, these with them.
pub open spec fn lits_size(fields: &List<FieldInit>) -> nat
    decreases fields,
{
    match fields {
        List::Nil => 0,
        List::Cons(n) => 1 + lit_size(&n.head.value) + lits_size(&n.tail),
    }
}

/// A field of a sum type that holds a node of the same sum type: the value that goes into
/// the node, and the value before it was converted.
pub struct ChildTemp {
    pub slot_temp: Temp,
    pub raw: Temp,
}

/// The lowered fields of a literal of a sum type. For each field, what it is where it holds
/// a node of the same type.
pub struct SumFields {
    pub temps: List<NamedTemp>,
    pub children: List<Option<ChildTemp>>,
}

/// The flag in front, if there is one.
pub open spec fn first_flag_spec(flags: &List<bool>) -> bool {
    match flags {
        List::Nil => false,
        List::Cons(n) => n.head,
    }
}

/// Whether the field in front holds a node of the same sum type.
#[verifier::when_used_as_spec(first_flag_spec)]
pub fn first_flag(flags: &List<bool>) -> (r: bool)
    ensures
        r == first_flag_spec(flags),
{
    match flags {
        List::Nil => false,
        List::Cons(n) => n.head,
    }
}

/// The flags behind the one in front.
pub open spec fn later_flags_spec(flags: &List<bool>) -> List<bool> {
    match flags {
        List::Nil => List::Nil,
        List::Cons(n) => n.tail.dup(),
    }
}

/// The flags behind the one in front.
#[verifier::when_used_as_spec(later_flags_spec)]
pub fn later_flags(flags: &List<bool>) -> (r: List<bool>)
    ensures
        r == later_flags_spec(flags),
{
    match flags {
        List::Nil => List::Nil,
        List::Cons(n) => n.tail.dup(),
    }
}

/// The string of a string literal.
pub open spec fn literal_string_spec(e: &TypedExpr) -> Option<String> {
    match e {
        TypedExpr::StringLit(text, _, _) => Some(dup_str(text)),
        _ => None,
    }
}

/// The string of a string literal.
#[verifier::when_used_as_spec(literal_string_spec)]
pub fn literal_string(e: &TypedExpr) -> (r: Option<String>)
    ensures
        r == literal_string_spec(e),
{
    match e {
        TypedExpr::StringLit(text, _, _) => Some(dup_str(text)),
        _ => None,
    }
}

/// What `lower_child` does to the state, where `l` lowers the expressions inside.
#[verifier::opaque]
pub open spec fn lower_child_spec(
    l: Lower,
    node: Option<Temp>,
    v: &TypedExpr,
    slot_ty: &Type,
    s: St,
) -> (St, ChildTemp) {
    match node {
        Some(t) => (s, ChildTemp { slot_temp: t, raw: t }),
        None => {
            let (s, sealed) = try_lower_sealed_literal_spec(l, v, slot_ty, s);
            let (s, raw) = match sealed {
                Some(t) => (s, t),
                None => low(l, v, s),
            };
            let (s, slot_temp) = on(
                s,
                coerce_to_slot_type_owning_bind_spec(raw, &v.ty(), slot_ty, s.b),
            );
            (s, ChildTemp { slot_temp, raw })
        },
    }
}

/// Lowers a field that holds a node of the sum type, and converts it to that type. `node` is
/// the field, where it is a literal that has become a node: that needs no conversion.
pub fn lower_child(
    node: Option<Temp>,
    v: &TypedExpr,
    slot_ty: &Type,
    b: &mut FuncBuilder,
    ctx: &mut LowerCtx,
) -> (r: ChildTemp)
    ensures
        (st(final(b), final(ctx)), r) == lower_child_spec(
            lower_at(old(ctx).room.left()),
            node,
            v,
            slot_ty,
            st(old(b), old(ctx)),
        ),
        ran(*old(b), *old(ctx), *final(b), *final(ctx)),
        valid(st(old(b), old(ctx))) && otemp_ok(node, old(b)@.temp_types.len())
            ==> valid(st(final(b), final(ctx))) && child_temp_ok(&r, final(b)@.temp_types.len()),
    decreases old(ctx).room.left(), 3nat, 0nat,
{
    reveal(lower_child_spec);
    match node {
        Some(t) => {
            return ChildTemp { slot_temp: t, raw: t };
        },
        None => {},
    }
    let sealed = try_lower_sealed_literal(v, slot_ty, b, ctx);
    let raw = match sealed {
        Some(t) => t,
        None => lower_expr(v, b, ctx),
    };
    let slot_temp = coerce_to_slot_type_owning_bind(raw, &v.ty(), slot_ty, b);
    ChildTemp { slot_temp, raw }
}

/// The string that an expression is known to give.
pub open spec fn fixed_string_spec(e: &TypedExpr) -> Option<String> {
    match literal_string(e) {
        Some(text) => Some(text),
        None => match e.ty() {
            Type::StrLit(text) => Some(text),
            _ => None,
        },
    }
}

/// The string that an expression is known to give: it is a string literal, or its type has one
/// inhabitant.
#[verifier::when_used_as_spec(fixed_string_spec)]
pub fn fixed_string(e: &TypedExpr) -> (r: Option<String>)
    ensures
        r == fixed_string_spec(e),
{
    match literal_string(e) {
        Some(text) => Some(text),
        None => match e.ty() {
            Type::StrLit(text) => Some(text),
            _ => None,
        },
    }
}

/// What `lower_sum_field` does to the state, where `l` lowers the expressions inside.
#[verifier::opaque]
pub open spec fn lower_sum_field_spec(
    l: Lower,
    child: Option<Temp>,
    field: &FieldInit,
    disc: &String,
    s: St,
) -> (St, Temp) {
    let (s, temp) = match child {
        Some(t) => (s, t),
        None => low(l, &field.value, s),
    };
    let s = match fixed_string(&field.value) {
        Some(text) => if same_name(&field.name, disc) {
            on_b(s, s.b.retype(temp, Type::StrLit(text)))
        } else {
            s
        },
        None => s,
    };
    (s, temp)
}

/// Lowers a field of a literal of a sum type, unless `child` is the field already. The
/// discriminant is given the type of its string.
pub fn lower_sum_field(
    child: Option<Temp>,
    field: &FieldInit,
    disc: &String,
    b: &mut FuncBuilder,
    ctx: &mut LowerCtx,
) -> (r: Temp)
    ensures
        (st(final(b), final(ctx)), r) == lower_sum_field_spec(
            lower_at(old(ctx).room.left()),
            child,
            field,
            disc,
            st(old(b), old(ctx)),
        ),
        ran(*old(b), *old(ctx), *final(b), *final(ctx)),
        valid(st(old(b), old(ctx))) && otemp_ok(child, old(b)@.temp_types.len())
            ==> valid(st(final(b), final(ctx))) && temp_ok(r, final(b)@.temp_types.len()),
    decreases old(ctx).room.left(), 1nat, 0nat,
{
    reveal(lower_sum_field_spec);
    let temp = match child {
        Some(t) => t,
        None => lower_expr(&field.value, b, ctx),
    };
    match fixed_string(&field.value) {
        Some(text) => if same_name(&field.name, disc) {
            b.retype(temp, Type::StrLit(text));
        },
        None => {},
    }
    temp
}

/// What `sum_fields` does to the state, where `l` lowers the expressions inside.
pub open spec fn sum_fields_spec(
    l: Lower,
    fields: &List<FieldInit>,
    flags: &List<bool>,
    disc: &String,
    slot_ty: &Type,
    s: St,
) -> (St, SumFields)
    decreases fields,
{
    match fields {
        List::Nil => (s, SumFields { temps: List::Nil, children: List::Nil }),
        List::Cons(n) => {
            let (s, child) = if first_flag(flags) {
                let (s, node) = try_lower_sum_literal_spec(l, &n.head.value, slot_ty, s);
                let (s, c) = lower_child_spec(l, node, &n.head.value, slot_ty, s);
                (s, Some(c))
            } else {
                (s, None)
            };
            let known = match &child {
                Some(c) => Some(c.slot_temp),
                None => None,
            };
            let (s, temp) = lower_sum_field_spec(l, known, &n.head, disc, s);
            let (s, rest) = sum_fields_spec(l, &n.tail, &later_flags(flags), disc, slot_ty, s);
            (
                s,
                SumFields {
                    temps: prepend(NamedTemp { name: dup_str(&n.head.name), temp }, rest.temps),
                    children: prepend(child, rest.children),
                },
            )
        },
    }
}

/// Lowers the fields of a literal of a sum type. A field that holds a node of the same type
/// is lowered into one.
pub fn sum_fields(
    fields: &List<FieldInit>,
    flags: &List<bool>,
    disc: &String,
    slot_ty: &Type,
    b: &mut FuncBuilder,
    ctx: &mut LowerCtx,
) -> (r: SumFields)
    ensures
        (st(final(b), final(ctx)), r) == sum_fields_spec(
            lower_at(old(ctx).room.left()),
            fields,
            flags,
            disc,
            slot_ty,
            st(old(b), old(ctx)),
        ),
        ran(*old(b), *old(ctx), *final(b), *final(ctx)),
        valid(st(old(b), old(ctx)))
            ==> valid(st(final(b), final(ctx))) && sum_fields_ok(&r, final(b)@.temp_types.len()),
    decreases old(ctx).room.left(), 4nat, lits_size(fields),
{
    match fields {
        List::Nil => SumFields { temps: List::Nil, children: List::Nil },
        List::Cons(n) => {
            let child = if first_flag(flags) {
                let node = try_lower_sum_literal(&n.head.value, slot_ty, b, ctx);
                let c = lower_child(node, &n.head.value, slot_ty, b, ctx);
                Some(c)
            } else {
                None
            };
            let known = match &child {
                Some(c) => Some(c.slot_temp),
                None => None,
            };
            let temp = lower_sum_field(known, &n.head, disc, b, ctx);
            let rest = sum_fields(&n.tail, &later_flags(flags), disc, slot_ty, b, ctx);
            SumFields {
                temps: prepend(NamedTemp { name: dup_str(&n.head.name), temp }, rest.temps),
                children: prepend(child, rest.children),
            }
        },
    }
}

/// The string literal of the field that is the discriminant.
pub open spec fn disc_literal_spec(fields: &List<FieldInit>, disc: &String) -> Option<String>
    decreases fields,
{
    match fields {
        List::Nil => None,
        List::Cons(n) => if same_name(&n.head.name, disc) {
            literal_string(&n.head.value)
        } else {
            disc_literal(&n.tail, disc)
        },
    }
}

/// The string literal of the field that is the discriminant.
#[verifier::when_used_as_spec(disc_literal_spec)]
pub fn disc_literal(fields: &List<FieldInit>, disc: &String) -> (r: Option<String>)
    ensures
        r == disc_literal_spec(fields, disc),
    decreases fields,
{
    match fields {
        List::Nil => None,
        List::Cons(n) => if same_name(&n.head.name, disc) {
            literal_string(&n.head.value)
        } else {
            disc_literal(&n.tail, disc)
        },
    }
}

/// The fields of the variant of a sum type that the literal builds.
pub open spec fn literal_variant_spec(
    fields: &List<FieldInit>,
    disc: &String,
    slot_ty: &Type,
) -> Option<List<Field>> {
    match disc_literal(fields, disc) {
        Some(text) => variant_by_disc(slot_ty, &text),
        None => None,
    }
}

/// The fields of the variant of a sum type that the literal builds.
#[verifier::when_used_as_spec(literal_variant_spec)]
pub fn literal_variant(
    fields: &List<FieldInit>,
    disc: &String,
    slot_ty: &Type,
) -> (r: Option<List<Field>>)
    ensures
        r == literal_variant_spec(fields, disc, slot_ty),
{
    match disc_literal(fields, disc) {
        Some(text) => variant_by_disc(slot_ty, &text),
        None => None,
    }
}

/// The fields of the variant of a sum type whose discriminant is `tag`.
#[verifier::inline]
pub open spec fn variant_by_disc_spec(ty: &Type, tag: &String) -> Option<List<Field>> {
    sumnode_variant_by_disc_spec(ty, tag@)
}

/// The fields of the variant of a sum type whose discriminant is `tag`.
#[verifier::when_used_as_spec(variant_by_disc_spec)]
pub fn variant_by_disc(ty: &Type, tag: &String) -> (r: Option<List<Field>>)
    ensures
        r == sumnode_variant_by_disc_spec(ty, tag@),
{
    sumnode_variant_by_disc(ty, tag)
}

/// The field that is the discriminant is known to give a fixed string.
pub open spec fn disc_is_fixed_spec(fields: &List<FieldInit>, disc: &String) -> bool
    decreases fields,
{
    match fields {
        List::Nil => false,
        List::Cons(n) => {
            (same_name(&n.head.name, disc) && fixed_string(&n.head.value).is_some())
                || disc_is_fixed(&n.tail, disc)
        },
    }
}

/// Whether the field that is the discriminant is known to give a fixed string.
#[verifier::when_used_as_spec(disc_is_fixed_spec)]
pub fn disc_is_fixed(fields: &List<FieldInit>, disc: &String) -> (r: bool)
    ensures
        r == disc_is_fixed_spec(fields, disc),
    decreases fields,
{
    match fields {
        List::Nil => false,
        List::Cons(n) => (same_name(&n.head.name, disc) && fixed_string(&n.head.value).is_some())
            || disc_is_fixed(&n.tail, disc),
    }
}

/// What `transfer_children` does to the function under construction.
#[verifier::opaque]
pub open spec fn transfer_children_spec(
    children: &List<Option<ChildTemp>>,
    fields: &List<FieldInit>,
    b: FState,
) -> FState
    decreases children,
{
    match children {
        List::Nil => b,
        List::Cons(c) => match fields {
            List::Nil => b,
            List::Cons(n) => {
                let b = match &c.head {
                    Some(child) => {
                        if !(child.slot_temp != child.raw && b.is_owned_in_scope(child.raw)) {
                            b.transfer_into_container(child.slot_temp, &n.head.value, true)
                        } else {
                            b
                        }
                    },
                    None => b,
                };
                transfer_children_spec(&c.tail, &n.tail, b)
            },
        },
    }
}

/// Hands the nodes in the fields over to the new node, except those whose conversion gave
/// the new node a reference of its own.
pub fn transfer_children(
    children: &List<Option<ChildTemp>>,
    fields: &List<FieldInit>,
    b: &mut FuncBuilder,
)
    ensures
        final(b)@ == transfer_children_spec(children, fields, old(b)@),
        grown(old(b)@, final(b)@, 0),
        old(b)@.wf() && children_ok(children, old(b)@.temp_types.len()) ==> final(b)@.wf(),
    decreases children,
{
    reveal(transfer_children_spec);
    proof {
        children_tail(children, old(b)@.temp_types.len());
    }
    match children {
        List::Nil => {},
        List::Cons(c) => match fields {
            List::Nil => {},
            List::Cons(n) => {
                match &c.head {
                    Some(child) => {
                        if !(child.slot_temp != child.raw && b.is_owned_in_scope(child.raw)) {
                            b.transfer_into_container(child.slot_temp, &n.head.value, true);
                        }
                    },
                    None => {},
                }
                transfer_children(&c.tail, &n.tail, b);
            },
        },
    }
}

/// What `try_lower_sum_literal` does to the state, where `l` lowers the expressions inside.
pub open spec fn try_lower_sum_literal_spec(
    l: Lower,
    value: &TypedExpr,
    slot_ty: &Type,
    s: St,
) -> (St, Option<Temp>)
    decreases value,
{
    match (sum_type_discriminant_of(slot_ty), value) {
        (Some(disc), TypedExpr::MakeObject { fields, spreads, .. }) => {
            if !spreads.is_empty() || !disc_is_fixed(fields, &disc) {
                (s, None)
            } else {
                let flags = recursive_children(
                    fields,
                    &literal_variant(fields, &disc, slot_ty),
                    &sum_recursive_self_name(slot_ty),
                );
                let (s, lowered) = sum_fields_spec(l, fields, &flags, &disc, slot_ty, s);
                let (s, dst) = on(s, s.b.alloc_temp(slot_ty.dup()));
                let s = on_b(
                    s,
                    s.b.emit(
                        Instruction::MakeObject {
                            dst,
                            fields: lowered.temps,
                            spreads: List::Nil,
                            computed_fields: List::Nil,
                            ty: slot_ty.dup(),
                            stack: false,
                        },
                    ),
                );
                let s = on_b(s, transfer_children_spec(&lowered.children, fields, s.b));
                let s = on_b(s, s.b.register_owned(dst, slot_ty.dup()));
                (s, Some(dst))
            }
        },
        _ => (s, None),
    }
}

/// Lowers a record literal into a node of a sum type, where the slot holds one, the literal
/// spreads nothing and its discriminant is known; else emits nothing. Literals in the fields that
/// hold
/// nodes of the same type become nodes too.
pub fn try_lower_sum_literal(
    value: &TypedExpr,
    slot_ty: &Type,
    b: &mut FuncBuilder,
    ctx: &mut LowerCtx,
) -> (r: Option<Temp>)
    ensures
        (st(final(b), final(ctx)), r) == try_lower_sum_literal_spec(
            lower_at(old(ctx).room.left()),
            value,
            slot_ty,
            st(old(b), old(ctx)),
        ),
        ran(*old(b), *old(ctx), *final(b), *final(ctx)),
        valid(st(old(b), old(ctx)))
            ==> valid(st(final(b), final(ctx))) && otemp_ok(r, final(b)@.temp_types.len()),
    decreases old(ctx).room.left(), 4nat, lit_size(value),
{
    match (sum_type_discriminant_of(slot_ty), value) {
        (Some(disc), TypedExpr::MakeObject { fields, spreads, .. }) => {
            if !spreads.is_empty() || !disc_is_fixed(fields, &disc) {
                return None;
            }
            let flags = recursive_children(
                fields,
                &literal_variant(fields, &disc, slot_ty),
                &sum_recursive_self_name(slot_ty),
            );
            let lowered = sum_fields(fields, &flags, &disc, slot_ty, b, ctx);
            let dst = b.alloc_temp(slot_ty.dup());
            b.emit(
                Instruction::MakeObject {
                    dst,
                    fields: lowered.temps,
                    spreads: List::Nil,
                    computed_fields: List::Nil,
                    ty: slot_ty.dup(),
                    stack: false,
                },
            );
            transfer_children(&lowered.children, fields, b);
            b.register_owned(dst, slot_ty.dup());
            Some(dst)
        },
        _ => None,
    }
}

/// What `lower_value_into_slot` does to the state, where `l` lowers the expressions inside.
#[verifier::opaque]
pub open spec fn lower_value_into_slot_spec(
    l: Lower,
    value: &TypedExpr,
    slot_ty: &Type,
    s: St,
) -> (St, Temp) {
    let (s, sum) = try_lower_sum_literal_spec(l, value, slot_ty, s);
    match sum {
        Some(t) => (s, t),
        None => {
            let (s, sealed) = try_lower_sealed_literal_spec(l, value, slot_ty, s);
            match sealed {
                Some(t) => (s, t),
                None => {
                    let (s, t) = low(l, value, s);
                    on(s, coerce_to_slot_type_owning_bind_spec(t, &value.ty(), slot_ty, s.b))
                },
            }
        },
    }
}

/// Lowers a value into a slot of a type: a literal straight into its representation, anything
/// else with a conversion.
pub fn lower_value_into_slot(
    value: &TypedExpr,
    slot_ty: &Type,
    b: &mut FuncBuilder,
    ctx: &mut LowerCtx,
) -> (r: Temp)
    ensures
        (st(final(b), final(ctx)), r) == lower_value_into_slot_spec(
            lower_at(old(ctx).room.left()),
            value,
            slot_ty,
            st(old(b), old(ctx)),
        ),
        ran(*old(b), *old(ctx), *final(b), *final(ctx)),
        valid(st(old(b), old(ctx)))
            ==> valid(st(final(b), final(ctx))) && temp_ok(r, final(b)@.temp_types.len()),
    decreases old(ctx).room.left(), 5nat, 0nat,
{
    reveal(lower_value_into_slot_spec);
    let sum = try_lower_sum_literal(value, slot_ty, b, ctx);
    match sum {
        Some(t) => {
            return t;
        },
        None => {},
    }
    let sealed = try_lower_sealed_literal(value, slot_ty, b, ctx);
    match sealed {
        Some(t) => {
            return t;
        },
        None => {},
    }
    let t = lower_expr(value, b, ctx);
    coerce_to_slot_type_owning_bind(t, &value.ty(), slot_ty, b)
}

/// A node of a sum type and the sum type.
pub struct SumScrutinee {
    pub temp: Temp,
    pub sum_ty: Type,
}

/// The node that a variable holds, where its stored type is a sum type.
pub open spec fn lower_sum_scrutinee_raw_spec(object: &TypedExpr, s: St) -> Option<SumScrutinee> {
    match object {
        TypedExpr::LocalGet { slot, .. } => {
            if s.c.packed(*slot).is_some()
                || s.c.is_global_var(*slot)
                || s.b.cell_slot(*slot).is_some() {
                None
            } else {
                match s.b.slot(*slot) {
                    Some(temp) => match s.b.temp_ty(temp) {
                        Some(sum_ty) => if sum_type_eligible(&sum_ty) {
                            Some(SumScrutinee { temp, sum_ty })
                        } else {
                            None
                        },
                        None => None,
                    },
                    None => None,
                }
            }
        },
        _ => None,
    }
}

/// The node that a variable holds, where its stored type is a sum type.
pub fn lower_sum_scrutinee_raw(
    object: &TypedExpr,
    b: &FuncBuilder,
    ctx: &LowerCtx,
) -> (r: Option<SumScrutinee>)
    ensures
        r == lower_sum_scrutinee_raw_spec(object, st(b, ctx)),
        valid(st(b, ctx)) ==> (r is Some ==> sum_scrutinee_ok(&r->0, b@.temp_types.len())),
{
    match object {
        TypedExpr::LocalGet { slot, .. } => if ctx.packed(*slot).is_some()
            || ctx.is_global_var(*slot)
            || b.cell_slot(*slot).is_some() {
            None
        } else {
            match b.slot(*slot) {
                Some(temp) => match b.temp_ty(temp) {
                    Some(sum_ty) => if sum_type_eligible(&sum_ty) {
                        Some(SumScrutinee { temp, sum_ty })
                    } else {
                        None
                    },
                    None => None,
                },
                None => None,
            }
        },
        _ => None,
    }
}

} // verus!
