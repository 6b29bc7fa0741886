use std::rc::Rc;

use lin_ir::coerce::{
    anon_object_slot_repr_differs, bound_box_moves_inner, box_shell_reclaim,
    escape_alias_convention, flat_scalar_array_repr_differs, index_result_is_owned,
    int_width_repr_differs, nested_sealed_repr_change, scalar_numeric_repr_differs,
};
use lin_ir::func::return_differs;
use lin_ir::list::{list_of, List};
use lin_ir::recognize::{iter_elem_type, is_inline_scalar};
use lin_ir::repr::{
    arg_box_is_caller_owned_scalar_shell, arg_box_is_caller_owned_shell,
    arg_projects_unsealed_into_nullable_record, is_heap_ty, is_nullable_sealed_record, is_rc_type,
    is_sealed_scalar_array, is_sealed_scalar_repr, is_union_ty, needs_owning, sum_arg_projected,
    sum_recursive_child_field_ty, sum_recursive_self_name, sum_type_discriminant_of,
    sum_type_eligible, sumnode_variant_by_disc, type_is_streamish_ir, type_repr_differs,
};
use lin_ir::types::{json, same_type, with_field, with_fields, Field, Type};

fn record(fields: Vec<(&str, Type)>, sealed: bool) -> Type {
    let fields: Vec<Field> =
        fields.into_iter().map(|(n, ty)| Field { name: n.to_string(), ty }).collect();
    let fields = with_fields(&List::Nil, &list_of(fields));
    if sealed {
        Type::sealed_object(fields)
    } else {
        Type::object(fields)
    }
}

fn array(t: Type) -> Type {
    Type::Array(Rc::new(t))
}

fn union(ts: Vec<Type>) -> Type {
    Type::Union(list_of(ts))
}

fn lit(s: &str) -> Type {
    Type::StrLit(s.to_string())
}

fn point() -> Type {
    record(vec![("x", Type::Int32), ("y", Type::Int32)], true)
}

fn shape() -> Type {
    union(vec![
        record(vec![("kind", lit("leaf")), ("size", Type::Int32)], false),
        record(vec![("kind", lit("pair")), ("left", Type::Named("Shape".to_string()))], false),
    ])
}

fn all_types() -> Vec<Type> {
    vec![
        Type::Int8,
        Type::Int16,
        Type::Int32,
        Type::Int64,
        Type::UInt8,
        Type::UInt16,
        Type::UInt32,
        Type::UInt64,
        Type::Float32,
        Type::Float64,
        Type::Bool,
        Type::Null,
        Type::Never,
        Type::Str,
        lit("a"),
        array(Type::Int32),
        array(point()),
        Type::FixedArray(list_of(vec![Type::Str])),
        record(vec![("a", Type::Str)], false),
        record(vec![("a", Type::Str)], true),
        point(),
        Type::Dict { value: Rc::new(Type::Int32) },
        union(vec![Type::Str, Type::Null]),
        union(vec![point(), Type::Null]),
        shape(),
        json(),
        Type::TypeVar(0),
        Type::Named("T".to_string()),
        Type::Function { params: List::Nil, ret: Rc::new(Type::Null), required: 0 },
        Type::Iterator(Rc::new(Type::Int32)),
        Type::Stream(Rc::new(Type::Str)),
        Type::Promise(Rc::new(Type::Str)),
        Type::Shared(Rc::new(Type::Int32)),
        Type::Frozen(Rc::new(Type::Int32)),
        Type::Opaque("Pool".to_string()),
    ]
}

#[test]
fn boxes() {
    assert!(is_union_ty(&json()));
    assert!(is_union_ty(&Type::TypeVar(3)));
    assert!(is_union_ty(&union(vec![Type::Str, Type::Null])));
    assert!(!is_union_ty(&union(vec![point(), Type::Null])));
    assert!(!is_union_ty(&Type::Int32));
    assert!(!is_union_ty(&Type::Str));
    assert!(!is_union_ty(&point()));
}

#[test]
fn nullable_packed_records() {
    assert!(is_nullable_sealed_record(&union(vec![point(), Type::Null])));
    assert!(is_nullable_sealed_record(&union(vec![Type::Null, point()])));
    assert!(!is_nullable_sealed_record(&union(vec![point(), Type::Str])));
    assert!(!is_nullable_sealed_record(&union(vec![point(), point(), Type::Null])));
    assert!(!is_nullable_sealed_record(&point()));
}

#[test]
fn counted_pointers() {
    assert!(is_rc_type(&Type::Str));
    assert!(is_rc_type(&array(Type::Int32)));
    assert!(is_rc_type(&record(vec![], false)));
    assert!(!is_rc_type(&Type::Int32));
    assert!(!is_rc_type(&Type::Bool));
    assert!(!is_rc_type(&json()));
    assert!(is_heap_ty(&Type::Str));
    assert!(!is_heap_ty(&Type::Float64));
}

#[test]
fn no_type_is_both_a_box_and_a_counted_pointer() {
    for ty in all_types() {
        assert!(!(is_rc_type(&ty) && is_union_ty(&ty)), "{:?}", ty);
        assert_eq!(needs_owning(&ty), is_rc_type(&ty) || is_union_ty(&ty), "{:?}", ty);
        assert!(!(is_nullable_sealed_record(&ty) && is_union_ty(&ty)), "{:?}", ty);
    }
}

#[test]
fn no_argument_is_boxed_in_two_ways() {
    for arg in all_types() {
        for param in all_types() {
            let counted = arg_box_is_caller_owned_shell(&arg, Some(&param));
            let scalar = arg_box_is_caller_owned_scalar_shell(&arg, Some(&param));
            assert!(!(counted && scalar), "{:?} for {:?}", arg, param);
            if counted {
                assert!(is_union_ty(&param) && !is_union_ty(&arg));
                assert!(!sum_arg_projected(&arg, &param));
                assert!(!arg_projects_unsealed_into_nullable_record(&arg, &param));
            }
        }
    }
}

#[test]
fn shells_of_arguments() {
    assert!(arg_box_is_caller_owned_shell(&Type::Str, Some(&json())));
    assert!(!arg_box_is_caller_owned_shell(&Type::Int32, Some(&json())));
    assert!(arg_box_is_caller_owned_scalar_shell(&Type::Int32, Some(&json())));
    assert!(arg_box_is_caller_owned_scalar_shell(&Type::Float64, Some(&json())));
    assert!(!arg_box_is_caller_owned_shell(&json(), Some(&json())));
    assert!(!arg_box_is_caller_owned_shell(&Type::Str, None));
    assert!(!arg_box_is_caller_owned_scalar_shell(&Type::Int32, None));
    assert!(!arg_box_is_caller_owned_shell(&Type::Str, Some(&Type::Str)));
}

#[test]
fn every_type_equals_itself_and_needs_no_conversion() {
    for ty in all_types() {
        assert!(same_type(&ty, &ty.dup()), "{:?}", ty);
        assert!(!type_repr_differs(&ty, &ty.dup()), "{:?}", ty);
    }
}

#[test]
fn the_order_of_fields_does_not_matter_for_equality() {
    let a = record(vec![("x", Type::Int32), ("y", Type::Str)], false);
    let b = record(vec![("y", Type::Str), ("x", Type::Int32)], false);
    let c = record(vec![("y", Type::Str)], false);
    assert!(same_type(&a, &b));
    assert!(!same_type(&a, &c));
    assert!(!same_type(&c, &a));
    assert!(!same_type(&a, &record(vec![("x", Type::Int32), ("y", Type::Null)], false)));
}

#[test]
fn representations_differ_between_boxes_and_plain_values() {
    assert!(type_repr_differs(&Type::Str, &json()));
    assert!(type_repr_differs(&json(), &Type::Int32));
    assert!(!type_repr_differs(&Type::Str, &lit("a")));
    assert!(type_repr_differs(&record(vec![("x", Type::Int32)], false), &point()));
}

#[test]
fn numbers_of_different_kinds() {
    assert!(scalar_numeric_repr_differs(&Type::Int32, &Type::Float64));
    assert!(scalar_numeric_repr_differs(&Type::Float32, &Type::Float64));
    assert!(!scalar_numeric_repr_differs(&Type::Int32, &Type::Int64));
    assert!(!scalar_numeric_repr_differs(&Type::Str, &Type::Float64));
    assert!(int_width_repr_differs(&Type::Int32, &Type::Int64));
    assert!(int_width_repr_differs(&Type::UInt8, &Type::Int16));
    assert!(!int_width_repr_differs(&Type::Int32, &Type::UInt32));
    assert!(!int_width_repr_differs(&Type::Int32, &Type::Float64));
}

#[test]
fn arrays_of_different_elements() {
    assert!(flat_scalar_array_repr_differs(&array(Type::Int32), &array(Type::Float64)));
    assert!(!flat_scalar_array_repr_differs(&array(Type::Int32), &array(Type::Int32)));
    assert!(!flat_scalar_array_repr_differs(&array(Type::Str), &array(Type::Int32)));
    assert!(nested_sealed_repr_change(&array(Type::Str), &array(json())));
    assert!(nested_sealed_repr_change(&array(array(Type::Str)), &array(array(json()))));
    assert!(!nested_sealed_repr_change(&array(Type::Str), &array(Type::Str)));
    assert!(!nested_sealed_repr_change(&Type::Str, &json()));
}

#[test]
fn open_records_in_slots() {
    let a = record(vec![("x", Type::Int32)], false);
    let ab = record(vec![("x", Type::Int32), ("y", Type::Int32)], false);
    let any = record(vec![], false);
    assert!(anon_object_slot_repr_differs(&ab, &a));
    assert!(!anon_object_slot_repr_differs(&ab, &any));
    assert!(!anon_object_slot_repr_differs(&a, &a));
    assert!(!anon_object_slot_repr_differs(&point(), &a));
    for ty in all_types() {
        assert!(!anon_object_slot_repr_differs(&ty, &any));
    }
}

#[test]
fn conventions() {
    assert!(box_shell_reclaim(&Type::Str, &json(), true));
    assert!(!box_shell_reclaim(&Type::Str, &json(), false));
    assert!(!box_shell_reclaim(&json(), &json(), true));
    assert!(bound_box_moves_inner(&Type::Str, &json(), true));
    assert!(!bound_box_moves_inner(&Type::Int32, &json(), true));
    assert!(escape_alias_convention(&Type::Str, &json(), false));
    assert!(!escape_alias_convention(&Type::Str, &json(), true));
    assert!(escape_alias_convention(&json(), &Type::Str, false));
    assert!(!escape_alias_convention(&json(), &Type::Int32, false));
    assert!(index_result_is_owned(&array(Type::Str), &Type::Int32));
    assert!(index_result_is_owned(&json(), &Type::Int64));
    assert!(!index_result_is_owned(&json(), &Type::Str));
}

#[test]
fn packed_records_and_arrays() {
    assert!(is_sealed_scalar_repr(&point()));
    assert!(!is_sealed_scalar_repr(&record(vec![("x", Type::Int32)], false)));
    assert!(!is_sealed_scalar_repr(&record(vec![], true)));
    assert!(is_sealed_scalar_array(&array(point())));
    assert!(!is_sealed_scalar_array(&array(Type::Int32)));
    assert!(!is_sealed_scalar_array(&point()));
}

#[test]
fn sum_types_have_a_discriminant() {
    assert!(sum_type_eligible(&shape()));
    assert_eq!(sum_type_discriminant_of(&shape()), Some("kind".to_string()));
    assert!(!sum_type_eligible(&union(vec![point(), Type::Null])));
    let same_tag = union(vec![
        record(vec![("kind", lit("a"))], false),
        record(vec![("kind", lit("a"))], false),
    ]);
    assert!(!sum_type_eligible(&same_tag));
    let single = union(vec![record(vec![("kind", lit("a"))], false)]);
    assert_eq!(sum_type_discriminant_of(&single), None);
}

#[test]
fn the_tag_of_a_variant_picks_it() {
    let names = |tag: &str| -> Option<Vec<String>> {
        let mut out = Vec::new();
        let fields = sumnode_variant_by_disc(&shape(), &tag.to_string())?;
        let mut cur = &fields;
        while let List::Cons(n) = cur {
            out.push(n.head.name.clone());
            cur = &n.tail;
        }
        Some(out)
    };
    assert_eq!(names("leaf"), Some(vec!["kind".to_string(), "size".to_string()]));
    assert_eq!(names("pair"), Some(vec!["kind".to_string(), "left".to_string()]));
    assert_eq!(names("other"), None);
}

#[test]
fn sum_types_that_contain_themselves() {
    assert_eq!(sum_recursive_self_name(&shape()), Some("Shape".to_string()));
    assert!(sum_recursive_child_field_ty(&shape(), &"left".to_string()).is_some());
    assert!(sum_recursive_child_field_ty(&shape(), &"size".to_string()).is_none());
    assert!(sum_recursive_child_field_ty(&point(), &"x".to_string()).is_none());
}

#[test]
fn streams_alone_or_in_unions() {
    assert!(type_is_streamish_ir(&Type::Stream(Rc::new(Type::Str))));
    assert!(type_is_streamish_ir(&union(vec![Type::Null, Type::Stream(Rc::new(Type::Str))])));
    assert!(!type_is_streamish_ir(&array(Type::Str)));
    assert!(!type_is_streamish_ir(&Type::Iterator(Rc::new(Type::Str))));
}

#[test]
fn element_types_of_collections() {
    assert!(same_type(&iter_elem_type(&array(Type::Str)), &Type::Str));
    assert!(same_type(&iter_elem_type(&Type::Iterator(Rc::new(Type::Int32))), &Type::Int32));
    assert!(same_type(&iter_elem_type(&Type::Int32), &json()));
    let both = union(vec![array(Type::Int32), Type::Iterator(Rc::new(Type::Int32))]);
    assert!(same_type(&iter_elem_type(&both), &Type::Int32));
    let apart = union(vec![array(Type::Int32), array(Type::Str)]);
    assert!(same_type(&iter_elem_type(&apart), &json()));
}

#[test]
fn inline_scalars() {
    assert!(is_inline_scalar(&Type::Int32));
    assert!(is_inline_scalar(&Type::Float64));
    assert!(is_inline_scalar(&Type::Bool));
    assert!(!is_inline_scalar(&Type::Str));
    assert!(!is_inline_scalar(&Type::Null));
    assert!(!is_inline_scalar(&json()));
}

fn shown(fields: &List<Field>) -> Vec<String> {
    let mut out = Vec::new();
    let mut cur = fields;
    while let List::Cons(n) = cur {
        out.push(format!("{}:{:?}", n.head.name, n.head.ty));
        cur = &n.tail;
    }
    out
}

#[test]
fn a_field_of_the_same_name_is_replaced_in_its_place() {
    let xs = list_of(vec![
        Field { name: "x".to_string(), ty: Type::Int32 },
        Field { name: "y".to_string(), ty: Type::Int32 },
    ]);
    let replaced = with_field(&xs, Field { name: "x".to_string(), ty: Type::Str });
    assert_eq!(shown(&replaced), vec!["x:Str", "y:Int32"]);
    let added = with_field(&xs, Field { name: "z".to_string(), ty: Type::Str });
    assert_eq!(shown(&added), vec!["x:Int32", "y:Int32", "z:Str"]);
    let twice = list_of(vec![
        Field { name: "y".to_string(), ty: Type::Bool },
        Field { name: "y".to_string(), ty: Type::Null },
    ]);
    assert_eq!(shown(&with_fields(&xs, &twice)), vec!["x:Int32", "y:Null"]);
}

#[test]
fn conversions_are_needed_both_ways_or_not_at_all() {
    for a in all_types() {
        for b in all_types() {
            assert_eq!(same_type(&a, &b), same_type(&b, &a), "{:?} {:?}", a, b);
            assert_eq!(type_repr_differs(&a, &b), type_repr_differs(&b, &a), "{:?} {:?}", a, b);
            if a.is_numeric() && b.is_numeric() {
                assert!(!type_repr_differs(&a, &b));
            }
        }
    }
    let xy = record(vec![("x", Type::Int32), ("y", Type::Str)], true);
    let yx = record(vec![("y", Type::Str), ("x", Type::Int32)], true);
    assert!(same_type(&xy, &yx) && same_type(&yx, &xy));
    assert!(type_repr_differs(&xy, &point()) && type_repr_differs(&point(), &xy));
}

#[test]
fn values_that_are_held_alike() {
    let nullable = union(vec![Type::Null, point()]);
    let named = Type::Named("Shape".to_string());
    assert!(!type_repr_differs(&point(), &nullable));
    assert!(!type_repr_differs(&nullable, &Type::Null));
    assert!(!sum_type_eligible(&nullable));
    assert!(!type_repr_differs(&point(), &named));
    assert!(!type_repr_differs(&named, &shape()));
}

#[test]
fn results_of_another_width_are_converted() {
    assert!(return_differs(&Type::Int32, &Type::Int64));
    assert!(return_differs(&Type::Int64, &Type::UInt8));
    assert!(!return_differs(&Type::Int32, &Type::UInt32));
    assert!(return_differs(&Type::Int32, &Type::Float64));
    assert!(!return_differs(&Type::Str, &Type::Str));
}
