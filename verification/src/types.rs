//! The static types of the source language and the predicates on them.

use crate::list::{List, cons, prepend, share};
use std::rc::Rc;
use vstd::prelude::*;

verus! {

/// A static type.
#[derive(Debug)]
pub enum Type {
    Int8,
    Int16,
    Int32,
    Int64,
    UInt8,
    UInt16,
    UInt32,
    UInt64,
    Float32,
    Float64,
    Bool,
    Null,
    Never,
    Str,
    /// A string type with one inhabitant.
    StrLit(String),
    Array(Rc<Type>),
    FixedArray(List<Type>),
    /// A record, its fields in the order of their declaration and each name once, as `Type::wf`
    /// says. A sealed one has a fixed layout.
    Object { fields: List<Field>, sealed: bool, name: Option<String> },
    /// A dictionary with string keys.
    Dict { value: Rc<Type> },
    Union(List<Type>),
    /// A type variable; the largest index is the wildcard of dynamic values.
    TypeVar(u32),
    /// A reference to a named type that has not been expanded.
    Named(String),
    Function { params: List<Type>, ret: Rc<Type>, required: usize },
    Iterator(Rc<Type>),
    Stream(Rc<Type>),
    Promise(Rc<Type>),
    Shared(Rc<Type>),
    Frozen(Rc<Type>),
    Opaque(String),
}

/// A field of a record type.
#[derive(Debug)]
pub struct Field {
    pub name: String,
    pub ty: Type,
}

/// The wildcard type of dynamic values.
#[verifier::inline]
pub open spec fn json_spec() -> Type {
    Type::TypeVar(u32::MAX)
}

/// Makes the wildcard type of dynamic values.
#[verifier::when_used_as_spec(json_spec)]
pub fn json() -> (r: Type)
    ensures
        r == json_spec(),
{
    Type::TypeVar(u32::MAX)
}

/// The same text.
#[verifier::inline]
pub open spec fn dup_str_spec(s: &String) -> String {
    *s
}

/// A copy of a text.
#[verifier::when_used_as_spec(dup_str_spec)]
pub fn dup_str(s: &String) -> (r: String)
    ensures
        r == *s,
{
    s.clone()
}

/// The same optional name.
#[verifier::inline]
pub open spec fn dup_name_spec(n: &Option<String>) -> Option<String> {
    *n
}

/// A copy of an optional name.
#[verifier::when_used_as_spec(dup_name_spec)]
pub fn dup_name(n: &Option<String>) -> (r: Option<String>)
    ensures
        r == *n,
{
    match n {
        Some(s) => Some(s.clone()),
        None => None,
    }
}

/// The types are well-formed.
pub open spec fn types_wf(ts: &List<Type>) -> bool
    decreases ts,
{
    match ts {
        List::Nil => true,
        List::Cons(n) => n.head.wf() && types_wf(&n.tail),
    }
}

/// No two of the fields have the same name, and their types are well-formed.
pub open spec fn fields_wf(fields: &List<Field>) -> bool
    decreases fields,
{
    match fields {
        List::Nil => true,
        List::Cons(n) => n.head.ty.wf() && field_type_spec(&n.tail, n.head.name@) is None
            && fields_wf(&n.tail),
    }
}

impl Type {
    /// The type is well-formed: the fields of a record have different names, at any depth.
    pub open spec fn wf(&self) -> bool
        decreases self,
    {
        match self {
            Type::Array(t) => t.wf(),
            Type::FixedArray(ts) => types_wf(ts),
            Type::Object { fields, .. } => fields_wf(fields),
            Type::Dict { value } => value.wf(),
            Type::Union(ts) => types_wf(ts),
            Type::Function { params, ret, .. } => types_wf(params) && ret.wf(),
            Type::Iterator(t) => t.wf(),
            Type::Stream(t) => t.wf(),
            Type::Promise(t) => t.wf(),
            Type::Shared(t) => t.wf(),
            Type::Frozen(t) => t.wf(),
            _ => true,
        }
    }

    /// The same type.
    #[verifier::inline]
    pub open spec fn dup_spec(&self) -> Type {
        *self
    }

    /// A copy of the type.
    #[verifier::when_used_as_spec(dup_spec)]
    pub fn dup(&self) -> (r: Type)
        ensures
            r == *self,
    {
        match self {
            Type::Int8 => Type::Int8,
            Type::Int16 => Type::Int16,
            Type::Int32 => Type::Int32,
            Type::Int64 => Type::Int64,
            Type::UInt8 => Type::UInt8,
            Type::UInt16 => Type::UInt16,
            Type::UInt32 => Type::UInt32,
            Type::UInt64 => Type::UInt64,
            Type::Float32 => Type::Float32,
            Type::Float64 => Type::Float64,
            Type::Bool => Type::Bool,
            Type::Null => Type::Null,
            Type::Never => Type::Never,
            Type::Str => Type::Str,
            Type::StrLit(s) => Type::StrLit(s.clone()),
            Type::Array(t) => Type::Array(share(t)),
            Type::FixedArray(ts) => Type::FixedArray(ts.dup()),
            Type::Object { fields, sealed, name } => Type::Object {
                fields: fields.dup(),
                sealed: *sealed,
                name: dup_name(name),
            },
            Type::Dict { value } => Type::Dict { value: share(value) },
            Type::Union(ts) => Type::Union(ts.dup()),
            Type::TypeVar(n) => Type::TypeVar(*n),
            Type::Named(s) => Type::Named(s.clone()),
            Type::Function { params, ret, required } => Type::Function {
                params: params.dup(),
                ret: share(ret),
                required: *required,
            },
            Type::Iterator(t) => Type::Iterator(share(t)),
            Type::Stream(t) => Type::Stream(share(t)),
            Type::Promise(t) => Type::Promise(share(t)),
            Type::Shared(t) => Type::Shared(share(t)),
            Type::Frozen(t) => Type::Frozen(share(t)),
            Type::Opaque(s) => Type::Opaque(s.clone()),
        }
    }

    /// An open record type.
    pub open spec fn object_spec(fields: List<Field>) -> Type {
        Type::Object { fields, sealed: false, name: None }
    }

    /// A sealed record type.
    pub open spec fn sealed_object_spec(fields: List<Field>) -> Type {
        Type::Object { fields, sealed: true, name: None }
    }

    /// Makes an open, unnamed record type.
    #[verifier::when_used_as_spec(object_spec)]
    pub fn object(fields: List<Field>) -> (r: Type)
        ensures
            r == Type::object_spec(fields),
            r.wf() == fields_wf(&fields),
    {
        Type::Object { fields, sealed: false, name: None }
    }

    /// Makes a sealed, unnamed record type.
    #[verifier::when_used_as_spec(sealed_object_spec)]
    pub fn sealed_object(fields: List<Field>) -> (r: Type)
        ensures
            r == Type::sealed_object_spec(fields),
            r.wf() == fields_wf(&fields),
    {
        Type::Object { fields, sealed: true, name: None }
    }

    /// Whether the type is a floating-point type.
    #[verifier::allow_in_spec]
    pub fn is_float(&self) -> bool
        returns
            (self is Float32 || self is Float64),
    {
        matches!(self, Type::Float32 | Type::Float64)
    }

    /// Whether the type is an integer type.
    #[verifier::allow_in_spec]
    pub fn is_integer(&self) -> bool
        returns
            (self is Int8 || self is Int16 || self is Int32 || self is Int64 || self is UInt8
                || self is UInt16 || self is UInt32 || self is UInt64),
    {
        matches!(
            self,
            Type::Int8
                | Type::Int16
                | Type::Int32
                | Type::Int64
                | Type::UInt8
                | Type::UInt16
                | Type::UInt32
                | Type::UInt64
        )
    }

    /// Whether the type is a number type.
    #[verifier::allow_in_spec]
    pub fn is_numeric(&self) -> bool
        returns
            (self.is_integer() || self.is_float()),
    {
        self.is_integer() || self.is_float()
    }

    /// The width of a number type in bits.
    pub open spec fn bit_width_spec(&self) -> Option<u32> {
        match self {
            Type::Int8 | Type::UInt8 => Some(8u32),
            Type::Int16 | Type::UInt16 => Some(16u32),
            Type::Int32 | Type::UInt32 | Type::Float32 => Some(32u32),
            Type::Int64 | Type::UInt64 | Type::Float64 => Some(64u32),
            _ => None,
        }
    }

    /// The width of a number type in bits; `None` for every other type.
    #[verifier::when_used_as_spec(bit_width_spec)]
    pub fn bit_width(&self) -> (r: Option<u32>)
        ensures
            r == self.bit_width_spec(),
    {
        match self {
            Type::Int8 | Type::UInt8 => Some(8u32),
            Type::Int16 | Type::UInt16 => Some(16u32),
            Type::Int32 | Type::UInt32 | Type::Float32 => Some(32u32),
            Type::Int64 | Type::UInt64 | Type::Float64 => Some(64u32),
            _ => None,
        }
    }

    /// Whether values of the type are stored unboxed in arrays.
    #[verifier::allow_in_spec]
    pub fn is_flat_scalar(&self) -> bool
        returns
            self.is_numeric(),
    {
        self.is_numeric()
    }

    /// Whether values of the type are strings.
    #[verifier::allow_in_spec]
    pub fn is_string_ish(&self) -> bool
        returns
            (self is Str || self is StrLit),
    {
        matches!(self, Type::Str | Type::StrLit(_))
    }

    /// Whether the type is the one of functions.
    #[verifier::allow_in_spec]
    pub fn is_function(&self) -> bool
        returns
            (self is Function),
    {
        matches!(self, Type::Function { .. })
    }

    /// Whether the type is an unexpanded named reference.
    #[verifier::allow_in_spec]
    pub fn is_named(&self) -> bool
        returns
            (self is Named),
    {
        matches!(self, Type::Named(_))
    }

    /// A field of a sealed record may hold such a value.
    pub open spec fn is_sealed_field_spec(&self) -> bool
        decreases self, 1nat,
    {
        self.is_flat_scalar() || self is Bool || self.is_sealed_heap_field_spec()
    }

    /// A field of a sealed record holds such a value by reference.
    pub open spec fn is_sealed_heap_field_spec(&self) -> bool
        decreases self, 0nat,
    {
        match self {
            Type::Str | Type::StrLit(_) | Type::Array(_) | Type::FixedArray(_) => true,
            Type::Dict { value: _ } => true,
            Type::Object { fields, sealed, name: _ } => *sealed && !fields.is_empty()
                && all_sealed_fields_spec(fields),
            _ => false,
        }
    }

    /// Whether a sealed record may have a field of this type.
    #[verifier::when_used_as_spec(is_sealed_field_spec)]
    pub fn is_sealed_field(&self) -> (r: bool)
        ensures
            r == self.is_sealed_field_spec(),
        decreases self, 1nat,
    {
        self.is_flat_scalar() || matches!(self, Type::Bool) || self.is_sealed_heap_field()
    }

    /// Whether a sealed record may have a field of this type that it holds by reference.
    #[verifier::when_used_as_spec(is_sealed_heap_field_spec)]
    pub fn is_sealed_heap_field(&self) -> (r: bool)
        ensures
            r == self.is_sealed_heap_field_spec(),
        decreases self, 0nat,
    {
        match self {
            Type::Str | Type::StrLit(_) | Type::Array(_) | Type::FixedArray(_) => true,
            Type::Dict { value: _ } => true,
            Type::Object { fields, sealed, name: _ } => *sealed && !fields.is_empty()
                && all_sealed_fields(fields),
            _ => false,
        }
    }
}

/// Every field may stand in a sealed record.
pub open spec fn all_sealed_fields_spec(fields: &List<Field>) -> bool
    decreases fields, 0nat,
{
    match fields {
        List::Nil => true,
        List::Cons(n) => n.head.ty.is_sealed_field_spec() && all_sealed_fields_spec(&n.tail),
    }
}

/// Whether every field may stand in a sealed record.
#[verifier::when_used_as_spec(all_sealed_fields_spec)]
pub fn all_sealed_fields(fields: &List<Field>) -> (r: bool)
    ensures
        r == all_sealed_fields_spec(fields),
    decreases fields, 0nat,
{
    match fields {
        List::Nil => true,
        List::Cons(n) => n.head.ty.is_sealed_field() && all_sealed_fields(&n.tail),
    }
}

/// The type that the first field called `name` has.
pub open spec fn field_type_spec(fields: &List<Field>, name: Seq<char>) -> Option<Type>
    decreases fields,
{
    match fields {
        List::Nil => None,
        List::Cons(n) => if n.head.name@ == name {
            Some(n.head.ty)
        } else {
            field_type_spec(&n.tail, name)
        },
    }
}

/// The type that the first field called `name` has.
#[verifier::inline]
pub open spec fn field_type_named(fields: &List<Field>, name: &String) -> Option<Type> {
    field_type_spec(fields, name@)
}

/// The type of a field of a well-formed record is well-formed.
pub proof fn field_type_wf(fields: &List<Field>, name: Seq<char>)
    requires
        fields_wf(fields),
    ensures
        field_type_spec(fields, name) is Some ==> field_type_spec(fields, name)->Some_0.wf(),
    decreases fields,
{
    match fields {
        List::Nil => {},
        List::Cons(n) => field_type_wf(&n.tail, name),
    }
}

/// Looks a field up by its name.
#[verifier::when_used_as_spec(field_type_named)]
pub fn field_type(fields: &List<Field>, name: &String) -> (r: Option<Type>)
    ensures
        r == field_type_spec(fields, name@),
        fields_wf(fields) && r is Some ==> r->Some_0.wf(),
    decreases fields,
{
    match fields {
        List::Nil => None,
        List::Cons(n) => if n.head.name == *name {
            Some(n.head.ty.dup())
        } else {
            field_type(&n.tail, name)
        },
    }
}

/// The fields with one more. A field of the same name gets the new type and keeps its place;
/// otherwise the field comes last.
pub open spec fn with_field_spec(fields: &List<Field>, field: Field) -> List<Field>
    decreases fields,
{
    match fields {
        List::Nil => cons(field, List::Nil),
        List::Cons(n) => if n.head.name@ == field.name@ {
            cons(Field { name: n.head.name, ty: field.ty }, n.tail)
        } else {
            cons(n.head, with_field_spec(&n.tail, field))
        },
    }
}

/// The added field is found with its type, and every other field as before.
proof fn with_field_found(fields: &List<Field>, field: Field, name: Seq<char>)
    ensures
        field_type_spec(&with_field_spec(fields, field), name) == if name == field.name@ {
            Some(field.ty)
        } else {
            field_type_spec(fields, name)
        },
    decreases fields,
{
    reveal_with_fuel(field_type_spec, 2);
    match fields {
        List::Nil => {},
        List::Cons(n) => with_field_found(&n.tail, field, name),
    }
}

/// Adds a field to those of a record. A field of the same name gets the new type and keeps its
/// place; otherwise the field comes last. Names that differ stay different.
pub fn with_field(fields: &List<Field>, field: Field) -> (r: List<Field>)
    ensures
        r == with_field_spec(fields, field),
        forall|name: Seq<char>| #[trigger]
            field_type_spec(&r, name) == if name == field.name@ {
                Some(field.ty)
            } else {
                field_type_spec(fields, name)
            },
        r.len() == fields.len() + if field_type_spec(fields, field.name@) is None { 1nat } else {
            0
        },
        fields_wf(fields) && field.ty.wf() ==> fields_wf(&r),
    decreases fields,
{
    proof {
        assert forall|name: Seq<char>| #[trigger]
            field_type_spec(&with_field_spec(fields, field), name) == if name == field.name@ {
                Some(field.ty)
            } else {
                field_type_spec(fields, name)
            } by {
            with_field_found(fields, field, name);
        }
    }
    match fields {
        List::Nil => prepend(field, List::Nil),
        List::Cons(n) => if n.head.name == field.name {
            prepend(Field { name: n.head.name.clone(), ty: field.ty }, n.tail.dup())
        } else {
            let rest = with_field(&n.tail, field);
            prepend(Field { name: n.head.name.clone(), ty: n.head.ty.dup() }, rest)
        },
    }
}

/// The fields with others added in turn.
pub open spec fn with_fields_spec(fields: &List<Field>, more: &List<Field>) -> List<Field>
    decreases more,
{
    match more {
        List::Nil => *fields,
        List::Cons(n) => with_fields_spec(&with_field_spec(fields, n.head), &n.tail),
    }
}

/// The types of the fields are well-formed; the names may repeat.
pub open spec fn field_types_wf(fields: &List<Field>) -> bool
    decreases fields,
{
    match fields {
        List::Nil => true,
        List::Cons(n) => n.head.ty.wf() && field_types_wf(&n.tail),
    }
}

/// Adds fields to those of a record, one after another: of several fields of one name the last
/// gives the type, the first the place.
pub fn with_fields(fields: &List<Field>, more: &List<Field>) -> (r: List<Field>)
    ensures
        r == with_fields_spec(fields, more),
        fields_wf(fields) && field_types_wf(more) ==> fields_wf(&r),
    decreases more,
{
    match more {
        List::Nil => fields.dup(),
        List::Cons(n) => {
            let field = Field { name: n.head.name.clone(), ty: n.head.ty.dup() };
            let first = with_field(fields, field);
            with_fields(&first, &n.tail)
        },
    }
}

/// Two record types have equally many fields.
#[verifier::inline]
pub open spec fn field_count_eq_spec(a: &List<Field>, b: &List<Field>) -> bool {
    a.len() == b.len()
}

/// Whether two record types have equally many fields.
#[verifier::when_used_as_spec(field_count_eq_spec)]
pub fn field_count_eq(a: &List<Field>, b: &List<Field>) -> (r: bool)
    ensures
        r == (a.len() == b.len()),
    decreases a,
{
    match (a, b) {
        (List::Nil, List::Nil) => true,
        (List::Cons(x), List::Cons(y)) => field_count_eq(&x.tail, &y.tail),
        _ => false,
    }
}

/// Two types are equal: they have the same structure, where records are compared as maps
/// from names to types and neither the seal nor the name of a record counts.
pub open spec fn same_type_spec(a: &Type, b: &Type) -> bool
    decreases a,
{
    match (a, b) {
        (Type::Int8, Type::Int8) => true,
        (Type::Int16, Type::Int16) => true,
        (Type::Int32, Type::Int32) => true,
        (Type::Int64, Type::Int64) => true,
        (Type::UInt8, Type::UInt8) => true,
        (Type::UInt16, Type::UInt16) => true,
        (Type::UInt32, Type::UInt32) => true,
        (Type::UInt64, Type::UInt64) => true,
        (Type::Float32, Type::Float32) => true,
        (Type::Float64, Type::Float64) => true,
        (Type::Bool, Type::Bool) => true,
        (Type::Null, Type::Null) => true,
        (Type::Never, Type::Never) => true,
        (Type::Str, Type::Str) => true,
        (Type::StrLit(x), Type::StrLit(y)) => x@ == y@,
        (Type::Array(x), Type::Array(y)) => same_type_spec(x, y),
        (Type::FixedArray(x), Type::FixedArray(y)) => same_types_spec(x, y),
        (Type::Object { fields: x, .. }, Type::Object { fields: y, .. }) => x.len() == y.len()
            && fields_in_spec(x, y),
        (Type::Dict { value: x }, Type::Dict { value: y }) => same_type_spec(x, y),
        (Type::Union(x), Type::Union(y)) => same_types_spec(x, y),
        (Type::TypeVar(x), Type::TypeVar(y)) => x == y,
        (Type::Named(x), Type::Named(y)) => x@ == y@,
        (
            Type::Function { params: p, ret: r, required: n },
            Type::Function { params: q, ret: s, required: m },
        ) => same_types_spec(p, q) && same_type_spec(r, s) && n == m,
        (Type::Iterator(x), Type::Iterator(y)) => same_type_spec(x, y),
        (Type::Stream(x), Type::Stream(y)) => same_type_spec(x, y),
        (Type::Promise(x), Type::Promise(y)) => same_type_spec(x, y),
        (Type::Shared(x), Type::Shared(y)) => same_type_spec(x, y),
        (Type::Frozen(x), Type::Frozen(y)) => same_type_spec(x, y),
        (Type::Opaque(x), Type::Opaque(y)) => x@ == y@,
        _ => false,
    }
}

/// Two lists of types are equal item by item.
pub open spec fn same_types_spec(a: &List<Type>, b: &List<Type>) -> bool
    decreases a,
{
    match (a, b) {
        (List::Nil, List::Nil) => true,
        (List::Cons(x), List::Cons(y)) => same_type_spec(&x.head, &y.head) && same_types_spec(
            &x.tail,
            &y.tail,
        ),
        _ => false,
    }
}

/// Every field of `a` has a field of the same name and an equal type in `b`.
pub open spec fn fields_in_spec(a: &List<Field>, b: &List<Field>) -> bool
    decreases a,
{
    match a {
        List::Nil => true,
        List::Cons(x) => match field_type_spec(b, x.head.name@) {
            Some(t) => same_type_spec(&x.head.ty, &t) && fields_in_spec(&x.tail, b),
            None => false,
        },
    }
}

/// Whether two types are equal, seals and names of records apart.
#[verifier::when_used_as_spec(same_type_spec)]
pub fn same_type(a: &Type, b: &Type) -> (r: bool)
    ensures
        r == same_type_spec(a, b),
    decreases a,
{
    match (a, b) {
        (Type::Int8, Type::Int8) => true,
        (Type::Int16, Type::Int16) => true,
        (Type::Int32, Type::Int32) => true,
        (Type::Int64, Type::Int64) => true,
        (Type::UInt8, Type::UInt8) => true,
        (Type::UInt16, Type::UInt16) => true,
        (Type::UInt32, Type::UInt32) => true,
        (Type::UInt64, Type::UInt64) => true,
        (Type::Float32, Type::Float32) => true,
        (Type::Float64, Type::Float64) => true,
        (Type::Bool, Type::Bool) => true,
        (Type::Null, Type::Null) => true,
        (Type::Never, Type::Never) => true,
        (Type::Str, Type::Str) => true,
        (Type::StrLit(x), Type::StrLit(y)) => *x == *y,
        (Type::Array(x), Type::Array(y)) => same_type(x, y),
        (Type::FixedArray(x), Type::FixedArray(y)) => same_types(x, y),
        (Type::Object { fields: x, .. }, Type::Object { fields: y, .. }) => field_count_eq(x, y)
            && fields_in(x, y),
        (Type::Dict { value: x }, Type::Dict { value: y }) => same_type(x, y),
        (Type::Union(x), Type::Union(y)) => same_types(x, y),
        (Type::TypeVar(x), Type::TypeVar(y)) => *x == *y,
        (Type::Named(x), Type::Named(y)) => *x == *y,
        (
            Type::Function { params: p, ret: r, required: n },
            Type::Function { params: q, ret: s, required: m },
        ) => same_types(p, q) && same_type(r, s) && *n == *m,
        (Type::Iterator(x), Type::Iterator(y)) => same_type(x, y),
        (Type::Stream(x), Type::Stream(y)) => same_type(x, y),
        (Type::Promise(x), Type::Promise(y)) => same_type(x, y),
        (Type::Shared(x), Type::Shared(y)) => same_type(x, y),
        (Type::Frozen(x), Type::Frozen(y)) => same_type(x, y),
        (Type::Opaque(x), Type::Opaque(y)) => *x == *y,
        _ => false,
    }
}

/// Whether two lists of types are equal item by item.
pub fn same_types(a: &List<Type>, b: &List<Type>) -> (r: bool)
    ensures
        r == same_types_spec(a, b),
    decreases a,
{
    match (a, b) {
        (List::Nil, List::Nil) => true,
        (List::Cons(x), List::Cons(y)) => same_type(&x.head, &y.head) && same_types(
            &x.tail,
            &y.tail,
        ),
        _ => false,
    }
}

/// Whether every field of `a` has a field of the same name and an equal type in `b`.
#[verifier::when_used_as_spec(fields_in_spec)]
pub fn fields_in(a: &List<Field>, b: &List<Field>) -> (r: bool)
    ensures
        r == fields_in_spec(a, b),
    decreases a,
{
    match a {
        List::Nil => true,
        List::Cons(x) => match field_type(b, &x.head.name) {
            Some(t) => same_type(&x.head.ty, &t) && fields_in(&x.tail, b),
            None => false,
        },
    }
}

} // verus!
