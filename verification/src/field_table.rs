//! Lookup tables of record fields.

use crate::ast::FieldInit;
use crate::list::{List, cons, prepend};
use crate::text::same_name;
use crate::types::{Field, Type, field_type_spec};
use indexmap::IndexMap;
use vstd::prelude::*;

verus! {

/// The map of the `indexmap` crate.
#[verifier::external_type_specification]
#[verifier::external_body]
#[verifier::reject_recursive_types(K)]
#[verifier::reject_recursive_types(V)]
#[verifier::reject_recursive_types(S)]
pub struct ExIndexMap<K, V, S>(IndexMap<K, V, S>);

/// The field types that a table holds, by name.
pub uninterp spec fn table_contents(t: IndexMap<String, Type>) -> Map<Seq<char>, Type>;

/// No field types.
pub open spec fn no_fields() -> Map<Seq<char>, Type> {
    Map::empty()
}

/// An empty table.
///
/// Calls `IndexMap::new`, which makes a map without entries.
#[verifier::external_body]
fn table_new() -> (r: IndexMap<String, Type>)
    ensures
        table_contents(r) == no_fields(),
{
    IndexMap::new()
}

/// Files a type under a name.
///
/// Calls `IndexMap::insert`, which replaces the value of an equal key or adds the entry, and
/// leaves every other entry alone.
#[verifier::external_body]
fn table_insert(t: &mut IndexMap<String, Type>, name: String, ty: Type)
    ensures
        table_contents(*final(t)) == table_contents(*old(t)).insert(name@, ty),
{
    t.insert(name, ty);
}

/// Looks a name up.
///
/// Calls `IndexMap::get`, which returns the value of the entry whose key equals the name, or
/// nothing where there is no such entry.
#[verifier::external_body]
fn table_get<'a>(t: &'a IndexMap<String, Type>, name: &String) -> (r: Option<&'a Type>)
    ensures
        match r {
            Some(ty) => table_contents(*t).contains_key(name@) && *ty == table_contents(*t)[name@],
            None => !table_contents(*t).contains_key(name@),
        },
{
    t.get(name)
}

/// The table holds the fields, the first of each name.
pub open spec fn holds_fields(t: IndexMap<String, Type>, fields: &List<Field>) -> bool {
    forall|name: Seq<char>|
        match #[trigger] field_type_spec(fields, name) {
            Some(ty) => table_contents(t).contains_key(name) && table_contents(t)[name] == ty,
            None => !table_contents(t).contains_key(name),
        }
}

/// Makes the table of the fields of a record.
pub fn field_table(fields: &List<Field>) -> (r: IndexMap<String, Type>)
    ensures
        holds_fields(r, fields),
    decreases fields,
{
    match fields {
        List::Nil => table_new(),
        List::Cons(n) => {
            let mut t = field_table(&n.tail);
            let ghost before = t;
            table_insert(&mut t, n.head.name.clone(), n.head.ty.dup());
            proof {
                assert forall|name: Seq<char>|
                    match #[trigger] field_type_spec(fields, name) {
                        Some(ty) => table_contents(t).contains_key(name) && table_contents(
                            t,
                        )[name] == ty,
                        None => !table_contents(t).contains_key(name),
                    } by {
                    let rest = field_type_spec(&n.tail, name);
                    assert(holds_fields(before, &n.tail));
                }
            }
            t
        },
    }
}

/// The field of the variant refers to the sum type itself.
pub open spec fn is_self_field(
    variant: &List<Field>,
    name: Seq<char>,
    self_name: Seq<char>,
) -> bool {
    match field_type_spec(variant, name) {
        Some(Type::Named(s)) => s@ == self_name,
        _ => false,
    }
}

/// For each field of a literal, whether it refers to the sum type itself.
pub open spec fn self_fields(
    fields: &List<FieldInit>,
    variant: &List<Field>,
    self_name: Seq<char>,
) -> List<bool>
    decreases fields,
{
    match fields {
        List::Nil => List::Nil,
        List::Cons(n) => cons(
            is_self_field(variant, n.head.name@, self_name),
            self_fields(&n.tail, variant, self_name),
        ),
    }
}

/// For each field of a literal, whether the table says that it refers to the sum type
/// itself.
fn self_fields_in(
    fields: &List<FieldInit>,
    t: &IndexMap<String, Type>,
    variant: &List<Field>,
    self_name: &String,
) -> (r: List<bool>)
    requires
        holds_fields(*t, variant),
    ensures
        r == self_fields(fields, variant, self_name@),
    decreases fields,
{
    match fields {
        List::Nil => List::Nil,
        List::Cons(n) => {
            let ghost declared = field_type_spec(variant, n.head.name@);
            let is_self = match table_get(t, &n.head.name) {
                Some(Type::Named(s)) => same_name(s, self_name),
                _ => false,
            };
            prepend(is_self, self_fields_in(&n.tail, t, variant, self_name))
        },
    }
}

/// For each field of a literal of the variant, whether it refers to the sum type itself.
pub open spec fn recursive_children_spec(
    fields: &List<FieldInit>,
    variant: &Option<List<Field>>,
    self_name: &Option<String>,
) -> List<bool> {
    match (variant, self_name) {
        (Some(v), Some(s)) => self_fields(fields, v, s@),
        _ => List::Nil,
    }
}

/// For each field of a literal of the variant, whether it refers to the sum type itself.
/// Nothing where the variant is not known or the sum type does not contain itself.
#[verifier::when_used_as_spec(recursive_children_spec)]
pub fn recursive_children(
    fields: &List<FieldInit>,
    variant: &Option<List<Field>>,
    self_name: &Option<String>,
) -> (r: List<bool>)
    ensures
        r == recursive_children_spec(fields, variant, self_name),
{
    match (variant, self_name) {
        (Some(v), Some(s)) => {
            let t = field_table(v);
            self_fields_in(fields, &t, v, s)
        },
        _ => List::Nil,
    }
}

} // verus!
