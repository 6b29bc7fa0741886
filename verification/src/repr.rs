//! Run-time representations: which types are boxed, packed, counted or plain.

use crate::list::List;
use crate::types::{
    Field, Type, all_sealed_fields, field_type, field_type_spec, fields_wf, same_type, types_wf,
};
use vstd::prelude::*;

verus! {

/// The fields of a packed record: a sealed record that has fields, all of which may be
/// packed.
pub open spec fn sealed_fields_spec(ty: &Type) -> Option<List<Field>> {
    match ty {
        Type::Object { fields, sealed, .. } => if *sealed && !fields.is_empty()
            && all_sealed_fields(fields) {
            Some(*fields)
        } else {
            None
        },
        _ => None,
    }
}

/// The fields of a packed record; `None` for every other type.
#[verifier::when_used_as_spec(sealed_fields_spec)]
pub fn sealed_fields(ty: &Type) -> (r: Option<List<Field>>)
    ensures
        r == sealed_fields_spec(ty),
        ty.wf() && r is Some ==> fields_wf(&r->Some_0),
{
    match ty {
        Type::Object { fields, sealed, .. } => if *sealed && !fields.is_empty()
            && all_sealed_fields(fields) {
            Some(fields.dup())
        } else {
            None
        },
        _ => None,
    }
}

/// Whether values of the type are pointers to packed records.
#[verifier::allow_in_spec]
pub fn is_sealed_scalar_repr(ty: &Type) -> bool
    returns
        (sealed_fields(ty) is Some),
{
    sealed_fields(ty).is_some()
}

/// The record type of a nullable packed record `T | Null`.
pub open spec fn nullable_sealed_record_spec(ty: &Type) -> Option<Type> {
    match ty {
        Type::Union(List::Cons(a)) => match a.tail {
            List::Cons(b) => if !b.tail.is_empty() {
                None
            } else if b.head is Null && is_sealed_scalar_repr(&a.head) {
                Some(a.head)
            } else if a.head is Null && is_sealed_scalar_repr(&b.head) {
                Some(b.head)
            } else {
                None
            },
            List::Nil => None,
        },
        _ => None,
    }
}

/// The record type of a union of `Null` and one packed record; `None` for every other type.
#[verifier::when_used_as_spec(nullable_sealed_record_spec)]
pub fn nullable_sealed_record(ty: &Type) -> (r: Option<Type>)
    ensures
        r == nullable_sealed_record_spec(ty),
        ty.wf() && r is Some ==> r->Some_0.wf(),
{
    proof {
        if let Type::Union(ts) = ty {
            assert(ty.wf() ==> types_wf(ts));
        }
    }
    match ty {
        Type::Union(List::Cons(a)) => match &a.tail {
            List::Cons(b) => {
                assert(types_wf(&a.tail) ==> b.head.wf());
                if !b.tail.is_empty() {
                    None
                } else if matches!(b.head, Type::Null) && is_sealed_scalar_repr(&a.head) {
                    Some(a.head.dup())
                } else if matches!(a.head, Type::Null) && is_sealed_scalar_repr(&b.head) {
                    Some(b.head.dup())
                } else {
                    None
                }
            },
            List::Nil => None,
        },
        _ => None,
    }
}

/// Whether the type is a nullable packed record, which is held as a plain pointer that may
/// be null rather than as a tagged box.
#[verifier::allow_in_spec]
pub fn is_nullable_sealed_record(ty: &Type) -> bool
    returns
        (nullable_sealed_record(ty) is Some),
{
    nullable_sealed_record(ty).is_some()
}

/// A union of `Null` and one named reference, in either order.
pub open spec fn is_named_or_null_spec(ty: &Type) -> bool {
    match ty {
        Type::Union(List::Cons(a)) => match a.tail {
            List::Cons(b) => b.tail.is_empty() && ((a.head is Named && b.head is Null) || (
            a.head is Null && b.head is Named)),
            List::Nil => false,
        },
        _ => false,
    }
}

/// Whether the type is a union of `Null` and one named reference.
#[verifier::when_used_as_spec(is_named_or_null_spec)]
pub fn is_named_or_null(ty: &Type) -> (r: bool)
    ensures
        r == is_named_or_null_spec(ty),
{
    match ty {
        Type::Union(List::Cons(a)) => match &a.tail {
            List::Cons(b) => b.tail.is_empty() && ((a.head.is_named() && matches!(
                b.head,
                Type::Null
            )) || (matches!(a.head, Type::Null) && b.head.is_named())),
            List::Nil => false,
        },
        _ => false,
    }
}

/// Whether a parameter of the type is read as a nullable packed record, the unexpanded
/// form `Name | Null` included.
#[verifier::allow_in_spec]
pub fn is_nullable_record_param(ty: &Type) -> bool
    returns
        (is_nullable_sealed_record(ty) || is_named_or_null(ty)),
{
    is_nullable_sealed_record(ty) || is_named_or_null(ty)
}

/// Whether values of the type are tagged boxes.
///
/// Unions, dynamic values, unexpanded names and the handle types are; a nullable packed
/// record is not.
#[verifier::allow_in_spec]
pub fn is_union_ty(ty: &Type) -> bool
    returns
        (!is_nullable_sealed_record(ty) && (ty is Union || ty is TypeVar || ty is Named
            || ty is Shared || ty is Stream || ty is Promise || ty is Opaque)),
{
    !is_nullable_sealed_record(ty) && matches!(
        ty,
        Type::Union(_)
            | Type::TypeVar(_)
            | Type::Named(_)
            | Type::Shared(_)
            | Type::Stream(_)
            | Type::Promise(_)
            | Type::Opaque(_)
    )
}

/// Whether the type is a stream or a union that contains one.
pub open spec fn type_is_streamish_ir_spec(ty: &Type) -> bool
    decreases ty,
{
    match ty {
        Type::Stream(_) => true,
        Type::Union(variants) => any_streamish_spec(variants),
        _ => false,
    }
}

/// Some variant is a stream or contains one.
pub open spec fn any_streamish_spec(variants: &List<Type>) -> bool
    decreases variants,
{
    match variants {
        List::Nil => false,
        List::Cons(n) => type_is_streamish_ir_spec(&n.head) || any_streamish_spec(&n.tail),
    }
}

/// Whether the type is a stream or a union that contains one: such a value crosses a thread
/// boundary by move.
#[verifier::when_used_as_spec(type_is_streamish_ir_spec)]
pub fn type_is_streamish_ir(ty: &Type) -> (r: bool)
    ensures
        r == type_is_streamish_ir_spec(ty),
    decreases ty,
{
    match ty {
        Type::Stream(_) => true,
        Type::Union(variants) => any_streamish(variants),
        _ => false,
    }
}

/// Whether some variant is a stream or contains one.
pub fn any_streamish(variants: &List<Type>) -> (r: bool)
    ensures
        r == any_streamish_spec(variants),
    decreases variants,
{
    match variants {
        List::Nil => false,
        List::Cons(n) => type_is_streamish_ir(&n.head) || any_streamish(&n.tail),
    }
}

/// Whether boxing a value of the type allocates a fresh shell around a counted pointer.
#[verifier::allow_in_spec]
pub fn is_heap_ty(ty: &Type) -> bool
    returns
        (ty is Str || ty is StrLit || ty is Array || ty is FixedArray || ty is Object
            || ty is Iterator),
{
    matches!(
        ty,
        Type::Str
            | Type::StrLit(_)
            | Type::Array(_)
            | Type::FixedArray(_)
            | Type::Object { .. }
            | Type::Iterator(_)
    )
}

/// Whether values of the type are unboxed counted pointers.
#[verifier::allow_in_spec]
pub fn is_rc_type(ty: &Type) -> bool
    returns
        (is_heap_ty(ty) || ty is Dict || ty is Function || is_nullable_sealed_record(ty)),
{
    is_heap_ty(ty) || matches!(ty, Type::Dict { .. } | Type::Function { .. })
        || is_nullable_sealed_record(ty)
}

/// Whether a binding of the type holds a reference that has to be given back.
#[verifier::allow_in_spec]
pub fn needs_owning(ty: &Type) -> bool
    returns
        (is_rc_type(ty) || is_union_ty(ty)),
{
    is_rc_type(ty) || is_union_ty(ty)
}

/// Every field is a flat scalar or a boolean.
pub open spec fn all_plain_fields_spec(fields: &List<Field>) -> bool
    decreases fields,
{
    match fields {
        List::Nil => true,
        List::Cons(n) => (n.head.ty.is_flat_scalar() || n.head.ty is Bool)
            && all_plain_fields_spec(&n.tail),
    }
}

/// Whether every field is a flat scalar or a boolean.
#[verifier::when_used_as_spec(all_plain_fields_spec)]
pub fn all_plain_fields(fields: &List<Field>) -> (r: bool)
    ensures
        r == all_plain_fields_spec(fields),
    decreases fields,
{
    match fields {
        List::Nil => true,
        List::Cons(n) => (n.head.ty.is_flat_scalar() || matches!(n.head.ty, Type::Bool))
            && all_plain_fields(&n.tail),
    }
}

/// An array whose elements lie side by side as packed records.
pub open spec fn is_sealed_scalar_array_spec(ty: &Type) -> bool {
    match ty {
        Type::Array(elem) => match sealed_fields(elem) {
            Some(fields) => all_plain_fields(&fields),
            None => false,
        },
        _ => false,
    }
}

/// Whether the type is an array of packed records whose fields are all scalars or booleans:
/// its elements lie side by side.
#[verifier::when_used_as_spec(is_sealed_scalar_array_spec)]
pub fn is_sealed_scalar_array(ty: &Type) -> (r: bool)
    ensures
        r == is_sealed_scalar_array_spec(ty),
{
    match ty {
        Type::Array(elem) => match sealed_fields(elem) {
            Some(fields) => all_plain_fields(&fields),
            None => false,
        },
        _ => false,
    }
}

/// An array whose elements are boxes.
pub open spec fn param_elem_is_boxed_repr_spec(ty: &Type) -> bool {
    match ty {
        Type::Array(elem) => match **elem {
            Type::TypeVar(_) | Type::Union(_) => true,
            Type::Dict { .. } => true,
            Type::Object { sealed, .. } => !sealed,
            _ => false,
        },
        _ => false,
    }
}

/// Whether the type is an array whose elements are boxes. An array of unexpanded names is
/// not: its reader sees the packed record.
#[verifier::when_used_as_spec(param_elem_is_boxed_repr_spec)]
pub fn param_elem_is_boxed_repr(ty: &Type) -> (r: bool)
    ensures
        r == param_elem_is_boxed_repr_spec(ty),
{
    match ty {
        Type::Array(elem) => match &**elem {
            Type::TypeVar(_) | Type::Union(_) => true,
            Type::Dict { .. } => true,
            Type::Object { sealed, .. } => !*sealed,
            _ => false,
        },
        _ => false,
    }
}

/// The string that the field `key` of a variant is fixed to.
pub open spec fn variant_tag_spec(variant: &Type, key: Seq<char>) -> Option<Seq<char>> {
    match variant {
        Type::Object { fields, .. } => match field_type_spec(fields, key) {
            Some(Type::StrLit(s)) => Some(s@),
            _ => None,
        },
        _ => None,
    }
}

/// The string that the field `key` of a variant is fixed to; `None` where it is not a
/// record or the field is not fixed.
pub fn variant_tag(variant: &Type, key: &String) -> (r: Option<String>)
    ensures
        r is Some <==> variant_tag_spec(variant, key@) is Some,
        r is Some ==> r->0@ == variant_tag_spec(variant, key@)->0,
{
    match variant {
        Type::Object { fields, .. } => match field_type(fields, key) {
            Some(Type::StrLit(s)) => Some(s),
            _ => None,
        },
        _ => None,
    }
}

/// No variant fixes `key` to `tag`.
pub open spec fn tag_unused_spec(variants: &List<Type>, key: Seq<char>, tag: Seq<char>) -> bool
    decreases variants,
{
    match variants {
        List::Nil => true,
        List::Cons(n) => variant_tag_spec(&n.head, key) != Some(tag) && tag_unused_spec(
            &n.tail,
            key,
            tag,
        ),
    }
}

/// Whether no variant fixes the field `key` to `tag`.
pub fn tag_unused(variants: &List<Type>, key: &String, tag: &String) -> (r: bool)
    ensures
        r == tag_unused_spec(variants, key@, tag@),
    decreases variants,
{
    match variants {
        List::Nil => true,
        List::Cons(n) => {
            let same = match variant_tag(&n.head, key) {
                Some(t) => t == *tag,
                None => false,
            };
            !same && tag_unused(&n.tail, key, tag)
        },
    }
}

/// Every variant fixes `key`, each to a string of its own.
pub open spec fn key_tells_apart_spec(variants: &List<Type>, key: Seq<char>) -> bool
    decreases variants,
{
    match variants {
        List::Nil => true,
        List::Cons(n) => match variant_tag_spec(&n.head, key) {
            Some(tag) => tag_unused_spec(&n.tail, key, tag) && key_tells_apart_spec(&n.tail, key),
            None => false,
        },
    }
}

/// Whether every variant fixes the field `key`, each to a string of its own.
pub fn key_tells_apart(variants: &List<Type>, key: &String) -> (r: bool)
    ensures
        r == key_tells_apart_spec(variants, key@),
    decreases variants,
{
    match variants {
        List::Nil => true,
        List::Cons(n) => match variant_tag(&n.head, key) {
            Some(tag) => tag_unused(&n.tail, key, &tag) && key_tells_apart(&n.tail, key),
            None => false,
        },
    }
}

/// The first of `fields` that tells the variants apart.
pub open spec fn first_key_spec(fields: &List<Field>, variants: &List<Type>) -> Option<String>
    decreases fields,
{
    match fields {
        List::Nil => None,
        List::Cons(n) => if key_tells_apart_spec(variants, n.head.name@) {
            Some(n.head.name)
        } else {
            first_key_spec(&n.tail, variants)
        },
    }
}

/// The first field that tells the variants apart.
pub fn first_key(fields: &List<Field>, variants: &List<Type>) -> (r: Option<String>)
    ensures
        r == first_key_spec(fields, variants),
    decreases fields,
{
    match fields {
        List::Nil => None,
        List::Cons(n) => if key_tells_apart(variants, &n.head.name) {
            Some(n.head.name.clone())
        } else {
            first_key(&n.tail, variants)
        },
    }
}

/// The discriminant of a sum type: of a union of at least two records, the first field of
/// the first record that every variant fixes to a string of its own.
pub open spec fn sum_type_discriminant_of_spec(ty: &Type) -> Option<String> {
    match ty {
        Type::Union(variants) => match variants {
            List::Cons(n) => match n.head {
                Type::Object { fields, .. } => if n.tail.is_empty() {
                    None
                } else {
                    first_key_spec(&fields, variants)
                },
                _ => None,
            },
            List::Nil => None,
        },
        _ => None,
    }
}

/// The field by which the variants of a sum type are told apart; `None` where the type is
/// not a sum type.
#[verifier::when_used_as_spec(sum_type_discriminant_of_spec)]
pub fn sum_type_discriminant_of(ty: &Type) -> (r: Option<String>)
    ensures
        r == sum_type_discriminant_of_spec(ty),
{
    match ty {
        Type::Union(variants) => match variants {
            List::Cons(n) => match &n.head {
                Type::Object { fields, .. } => if n.tail.is_empty() {
                    None
                } else {
                    first_key(fields, variants)
                },
                _ => None,
            },
            List::Nil => None,
        },
        _ => None,
    }
}

/// Whether the type is a sum type: a union of records with a discriminant.
#[verifier::allow_in_spec]
pub fn sum_type_eligible(ty: &Type) -> bool
    returns
        (sum_type_discriminant_of(ty) is Some),
{
    sum_type_discriminant_of(ty).is_some()
}

/// The fields of the first variant whose field `key` is fixed to `tag`.
pub open spec fn variant_with_tag_spec(
    variants: &List<Type>,
    key: Seq<char>,
    tag: Seq<char>,
) -> Option<List<Field>>
    decreases variants,
{
    match variants {
        List::Nil => None,
        List::Cons(n) => if variant_tag_spec(&n.head, key) == Some(tag) {
            Some(n.head->Object_fields)
        } else {
            variant_with_tag_spec(&n.tail, key, tag)
        },
    }
}

/// The fields of the first variant whose field `key` is fixed to `tag`.
pub fn variant_with_tag(variants: &List<Type>, key: &String, tag: &String) -> (r: Option<
    List<Field>,
>)
    ensures
        r == variant_with_tag_spec(variants, key@, tag@),
        types_wf(variants) && r is Some ==> fields_wf(&r->Some_0),
    decreases variants,
{
    match variants {
        List::Nil => None,
        List::Cons(n) => {
            if let Some(t) = variant_tag(&n.head, key) {
                if t == *tag {
                    if let Type::Object { fields, .. } = &n.head {
                        assert(n.head.wf() ==> fields_wf(fields));
                        return Some(fields.dup());
                    }
                }
            }
            variant_with_tag(&n.tail, key, tag)
        },
    }
}

/// The fields of the variant of a sum type that `tag` picks.
pub open spec fn sumnode_variant_by_disc_spec(ty: &Type, tag: Seq<char>) -> Option<List<Field>> {
    match (ty, sum_type_discriminant_of(ty)) {
        (Type::Union(variants), Some(key)) => variant_with_tag_spec(variants, key@, tag),
        _ => None,
    }
}

/// The fields of the variant of a sum type whose discriminant is `tag`; `None` where there
/// is no such variant.
pub fn sumnode_variant_by_disc(ty: &Type, tag: &String) -> (r: Option<List<Field>>)
    ensures
        r == sumnode_variant_by_disc_spec(ty, tag@),
        ty.wf() && r is Some ==> fields_wf(&r->Some_0),
{
    match (ty, sum_type_discriminant_of(ty)) {
        (Type::Union(variants), Some(key)) => variant_with_tag(variants, &key, tag),
        _ => None,
    }
}

/// The first named reference among the types of the fields.
pub open spec fn named_field_spec(fields: &List<Field>) -> Option<String>
    decreases fields,
{
    match fields {
        List::Nil => None,
        List::Cons(n) => match n.head.ty {
            Type::Named(s) => Some(s),
            _ => named_field_spec(&n.tail),
        },
    }
}

/// The first named reference among the types of the fields.
pub fn named_field(fields: &List<Field>) -> (r: Option<String>)
    ensures
        r == named_field_spec(fields),
    decreases fields,
{
    match fields {
        List::Nil => None,
        List::Cons(n) => match &n.head.ty {
            Type::Named(s) => Some(s.clone()),
            _ => named_field(&n.tail),
        },
    }
}

/// The first named reference among the fields of the variants.
pub open spec fn named_child_spec(variants: &List<Type>) -> Option<String>
    decreases variants,
{
    match variants {
        List::Nil => None,
        List::Cons(n) => match n.head {
            Type::Object { fields, .. } => match named_field_spec(&fields) {
                Some(s) => Some(s),
                None => named_child_spec(&n.tail),
            },
            _ => named_child_spec(&n.tail),
        },
    }
}

/// The first named reference among the fields of the variants.
pub fn named_child(variants: &List<Type>) -> (r: Option<String>)
    ensures
        r == named_child_spec(variants),
    decreases variants,
{
    match variants {
        List::Nil => None,
        List::Cons(n) => match &n.head {
            Type::Object { fields, .. } => match named_field(fields) {
                Some(s) => Some(s),
                None => named_child(&n.tail),
            },
            _ => named_child(&n.tail),
        },
    }
}

/// The name under which a sum type refers to itself.
pub open spec fn sum_recursive_self_name_spec(ty: &Type) -> Option<String> {
    match ty {
        Type::Union(variants) => if sum_type_eligible(ty) {
            named_child_spec(variants)
        } else {
            None
        },
        _ => None,
    }
}

/// The name under which a sum type refers to itself in its variants, if it does.
#[verifier::when_used_as_spec(sum_recursive_self_name_spec)]
pub fn sum_recursive_self_name(ty: &Type) -> (r: Option<String>)
    ensures
        r == sum_recursive_self_name_spec(ty),
{
    match ty {
        Type::Union(variants) => if sum_type_eligible(ty) {
            named_child(variants)
        } else {
            None
        },
        _ => None,
    }
}

/// Some variant has the field `name` with the type `Named(self_name)`.
pub open spec fn any_recursive_field_spec(
    variants: &List<Type>,
    name: Seq<char>,
    self_name: Seq<char>,
) -> bool
    decreases variants,
{
    match variants {
        List::Nil => false,
        List::Cons(n) => (match n.head {
            Type::Object { fields, .. } => match field_type_spec(&fields, name) {
                Some(Type::Named(s)) => s@ == self_name,
                _ => false,
            },
            _ => false,
        }) || any_recursive_field_spec(&n.tail, name, self_name),
    }
}

/// Whether some variant has the field `name` with the type `Named(self_name)`.
pub fn any_recursive_field(variants: &List<Type>, name: &String, self_name: &String) -> (r: bool)
    ensures
        r == any_recursive_field_spec(variants, name@, self_name@),
    decreases variants,
{
    match variants {
        List::Nil => false,
        List::Cons(n) => (match &n.head {
            Type::Object { fields, .. } => match field_type(fields, name) {
                Some(Type::Named(s)) => s == *self_name,
                _ => false,
            },
            _ => false,
        }) || any_recursive_field(&n.tail, name, self_name),
    }
}

/// The type of a field through which a sum type contains itself.
pub open spec fn sum_recursive_child_field_ty_spec(obj_ty: &Type, name: Seq<char>) -> Option<
    Type,
> {
    match obj_ty {
        Type::Object { fields, .. } => match field_type_spec(fields, name) {
            Some(Type::Named(s)) => Some(Type::Named(s)),
            _ => None,
        },
        Type::Union(variants) => match sum_recursive_self_name(obj_ty) {
            Some(s) => if any_recursive_field_spec(variants, name, s@) {
                Some(*obj_ty)
            } else {
                None
            },
            None => None,
        },
        _ => None,
    }
}

/// The type of a field through which a sum type contains itself: of a variant, the named
/// reference that the field has; of a whole sum type, that type. `None` for other fields.
pub fn sum_recursive_child_field_ty(obj_ty: &Type, name: &String) -> (r: Option<Type>)
    ensures
        r == sum_recursive_child_field_ty_spec(obj_ty, name@),
        obj_ty.wf() && r is Some ==> r->Some_0.wf(),
{
    match obj_ty {
        Type::Object { fields, .. } => match field_type(fields, name) {
            Some(Type::Named(s)) => Some(Type::Named(s)),
            _ => None,
        },
        Type::Union(variants) => match sum_recursive_self_name(obj_ty) {
            Some(s) => if any_recursive_field(variants, name, &s) {
                Some(obj_ty.dup())
            } else {
                None
            },
            None => None,
        },
        _ => None,
    }
}

/// Whether passing the argument builds a fresh node of the sum type of the parameter.
#[verifier::allow_in_spec]
pub fn sum_arg_projected(arg_ty: &Type, param_ty: &Type) -> bool
    returns
        (sum_type_eligible(param_ty) && !sum_type_eligible(arg_ty) && !arg_ty.is_named()),
{
    sum_type_eligible(param_ty) && !sum_type_eligible(arg_ty) && !arg_ty.is_named()
}

/// Whether passing the argument copies an array of packed records into an array of boxes.
#[verifier::allow_in_spec]
pub fn sealed_array_arg_materialized(arg_ty: &Type, param_ty: &Type) -> bool
    returns
        (is_sealed_scalar_array(arg_ty) && !is_sealed_scalar_array(param_ty)
            && param_elem_is_boxed_repr(param_ty)),
{
    is_sealed_scalar_array(arg_ty) && !is_sealed_scalar_array(param_ty)
        && param_elem_is_boxed_repr(param_ty)
}

/// Whether passing the argument copies a packed record into a fresh box.
#[verifier::allow_in_spec]
pub fn sealed_record_arg_materialized(arg_ty: &Type, param_ty: &Type) -> bool
    returns
        (is_sealed_scalar_repr(arg_ty) && is_union_ty(param_ty) && !param_ty.is_named()
            && !sum_arg_projected(arg_ty, param_ty)),
{
    is_sealed_scalar_repr(arg_ty) && is_union_ty(param_ty) && !param_ty.is_named()
        && !sum_arg_projected(arg_ty, param_ty)
}

/// Whether an open record argument is projected into the packed record of a parameter of
/// the unexpanded form `Name | Null`.
pub open spec fn arg_projects_unsealed_into_nullable_record_spec(
    arg_ty: &Type,
    param_ty: &Type,
) -> bool {
    is_nullable_record_param(param_ty) && !is_nullable_sealed_record(param_ty) && match arg_ty {
        Type::Object { fields, sealed, .. } => !*sealed && !fields.is_empty()
            && all_sealed_fields(fields),
        _ => false,
    }
}

/// Whether passing the argument projects an open record, whose fields may all be packed,
/// into the packed record of a parameter `Name | Null` that has not been expanded.
#[verifier::when_used_as_spec(arg_projects_unsealed_into_nullable_record_spec)]
pub fn arg_projects_unsealed_into_nullable_record(arg_ty: &Type, param_ty: &Type) -> (r: bool)
    ensures
        r == arg_projects_unsealed_into_nullable_record_spec(arg_ty, param_ty),
{
    if !is_nullable_record_param(param_ty) || is_nullable_sealed_record(param_ty) {
        return false;
    }
    match arg_ty {
        Type::Object { fields, sealed, .. } => !*sealed && !fields.is_empty()
            && all_sealed_fields(fields),
        _ => false,
    }
}

/// The argument is boxed into a fresh shell that the caller owns, around a counted pointer.
pub open spec fn arg_box_is_caller_owned_shell_spec(
    arg_ty: &Type,
    param_ty: Option<&Type>,
) -> bool {
    match param_ty {
        Some(p) => is_union_ty(p) && !is_union_ty(arg_ty) && is_heap_ty(arg_ty)
            && !is_sealed_scalar_repr(arg_ty) && !(arg_ty is Object && p is Named)
            && !sum_arg_projected(arg_ty, p) && !arg_projects_unsealed_into_nullable_record(
            arg_ty,
            p,
        ),
        None => false,
    }
}

/// Whether passing the argument boxes a counted pointer into a fresh shell that the caller
/// owns and has to free, while the pointer itself stays with its owner.
#[verifier::when_used_as_spec(arg_box_is_caller_owned_shell_spec)]
pub fn arg_box_is_caller_owned_shell(arg_ty: &Type, param_ty: Option<&Type>) -> (r: bool)
    ensures
        r == arg_box_is_caller_owned_shell_spec(arg_ty, param_ty),
{
    match param_ty {
        Some(p) => is_union_ty(p) && !is_union_ty(arg_ty) && is_heap_ty(arg_ty)
            && !is_sealed_scalar_repr(arg_ty) && !(matches!(arg_ty, Type::Object { .. })
            && p.is_named()) && !sum_arg_projected(arg_ty, p)
            && !arg_projects_unsealed_into_nullable_record(arg_ty, p),
        None => false,
    }
}

/// The argument is a scalar that is boxed into a shell that the caller owns.
pub open spec fn arg_box_is_caller_owned_scalar_shell_spec(
    arg_ty: &Type,
    param_ty: Option<&Type>,
) -> bool {
    match param_ty {
        Some(p) => is_union_ty(p) && !is_union_ty(arg_ty) && !is_heap_ty(arg_ty)
            && !is_sealed_scalar_repr(arg_ty) && !is_nullable_sealed_record(arg_ty)
            && !sum_arg_projected(arg_ty, p),
        None => false,
    }
}

/// Whether passing the argument boxes a scalar into a shell that the caller owns.
#[verifier::when_used_as_spec(arg_box_is_caller_owned_scalar_shell_spec)]
pub fn arg_box_is_caller_owned_scalar_shell(arg_ty: &Type, param_ty: Option<&Type>) -> (r: bool)
    ensures
        r == arg_box_is_caller_owned_scalar_shell_spec(arg_ty, param_ty),
{
    match param_ty {
        Some(p) => is_union_ty(p) && !is_union_ty(arg_ty) && !is_heap_ty(arg_ty)
            && !is_sealed_scalar_repr(arg_ty) && !is_nullable_sealed_record(arg_ty)
            && !sum_arg_projected(arg_ty, p),
        None => false,
    }
}

/// A value of `from` and one of `to` are held differently at run time, box against plain or
/// packed against boxed.
pub open spec fn type_repr_differs_spec(from: &Type, to: &Type) -> bool {
    if (is_sealed_scalar_repr(from) && to.is_named()) || (is_sealed_scalar_repr(to)
        && from.is_named()) {
        false
    } else if (sum_type_eligible(from) && to.is_named()) || (sum_type_eligible(to)
        && from.is_named()) {
        false
    } else if sum_type_eligible(from) != sum_type_eligible(to) {
        true
    } else if is_nullable_sealed_record(from) && is_nullable_sealed_record(to) {
        false
    } else if is_nullable_sealed_record(from) {
        !(is_sealed_scalar_repr(to) || to is Null)
    } else if is_nullable_sealed_record(to) {
        !(is_sealed_scalar_repr(from) || from is Null)
    } else {
        ||| is_union_ty(from) != is_union_ty(to)
        ||| is_sealed_scalar_repr(from) != is_sealed_scalar_repr(to)
        ||| is_sealed_scalar_repr(from) && is_sealed_scalar_repr(to) && !same_type(from, to)
        ||| is_sealed_scalar_array(from) && param_elem_is_boxed_repr(to)
        ||| param_elem_is_boxed_repr(from) && is_sealed_scalar_array(to)
    }
}

/// Whether a value of `from` has to be converted before it can be used as one of `to`:
/// boxed or unboxed, packed or materialized, or laid out anew.
#[verifier::when_used_as_spec(type_repr_differs_spec)]
pub fn type_repr_differs(from: &Type, to: &Type) -> (r: bool)
    ensures
        r == type_repr_differs_spec(from, to),
{
    if (is_sealed_scalar_repr(from) && to.is_named()) || (is_sealed_scalar_repr(to)
        && from.is_named()) {
        return false;
    }
    if (sum_type_eligible(from) && to.is_named()) || (sum_type_eligible(to) && from.is_named()) {
        return false;
    }
    if sum_type_eligible(from) != sum_type_eligible(to) {
        return true;
    }
    if is_nullable_sealed_record(from) || is_nullable_sealed_record(to) {
        if is_nullable_sealed_record(from) && !is_nullable_sealed_record(to) {
            return !(is_sealed_scalar_repr(to) || matches!(to, Type::Null));
        }
        if !is_nullable_sealed_record(from) && is_nullable_sealed_record(to) {
            return !(is_sealed_scalar_repr(from) || matches!(from, Type::Null));
        }
        return false;
    }
    if is_union_ty(from) != is_union_ty(to) {
        return true;
    }
    if is_sealed_scalar_repr(from) != is_sealed_scalar_repr(to) {
        return true;
    }
    if is_sealed_scalar_repr(from) && is_sealed_scalar_repr(to) && !same_type(from, to) {
        return true;
    }
    if is_sealed_scalar_array(from) && param_elem_is_boxed_repr(to) {
        return true;
    }
    if param_elem_is_boxed_repr(from) && is_sealed_scalar_array(to) {
        return true;
    }
    false
}

} // verus!
