//! What holds of the library as a whole.

use crate::adapter::{
    AdapterPlan, adapter_spec, drop_params, register_default_adapters_spec, some_default_invalid,
    with_adapter, with_adapters,
};
use crate::analysis::{
    BranchVars, branch_vars, branch_vars_arms, branch_vars_computed, branch_vars_fields,
    branch_vars_list, branch_vars_parts, branch_vars_stmt, branch_vars_stmts, captured_mutably,
    stmts_define_slot,
};
use crate::ast::{
    Capture, ComputedField, FieldInit, MatchArm, Span, TypedExpr, TypedParam, TypedStmt,
    TypedStringPart, required_params,
};
use crate::builder::{
    Alias, Cell, Entry, FState, Owned, Scope, find_spec, free_shells, has_temp, has_temp_spec,
    moving_args, own_params, owned_without, owns, release_all, release_scopes, release_unkept,
    scopes_without, with_alias_sources, without_one,
};
use crate::call::{default_symbol, imported_operation_spec, try_lower_imported_loop_spec};
use crate::coerce::{
    anon_object_slot_repr_differs, coerce_and_own_store_spec, coerce_if_branch_spec,
    coerce_to_slot_type_spec, flat_scalar_array_repr_differs, hand_over_closure_spec,
    int_width_repr_differs, lower_coerce_arg_spec, lower_coerce_plain_arg_spec,
    move_streamish_arg_spec, own_for_read_spec, own_for_store_spec, retain_call_arg_spec,
    scalar_numeric_repr_differs,
};
use crate::collect::{lower_flatmap_spec, lower_flatmap_terminal_spec, lower_sort_spec};
use crate::combinator::{lower_entries_inline_spec, lower_zero_arg_while_spec};
use crate::control::{
    block_assigns, kept_slot_temps_spec, lower_block_spec, lower_stmts_spec, restore_slots_spec,
    slot_or,
};
use crate::ctx::{CState, Lower, St, low, on_b};
use crate::expr::try_lower_node_field_spec;
use crate::func::{effective_return, returns_nothing};
use crate::fuse::{filtered_counters_spec, fm_counter_spec, stage_filters, stage_takes_index};
use crate::ir::{BlockId, FuncId, Incoming, Instruction, IrParam, Spanned, Temp, Terminator};
use crate::list::{List, cons};
use crate::literal::{
    disc_is_fixed, lower_container_base_borrowed_spec, try_lower_boxed_array_field_spec,
    try_lower_elem_field_spec, try_lower_packed_elem_field_spec, try_lower_sealed_array_field_spec,
    try_lower_sealed_literal_spec, try_lower_sum_literal_spec,
};
use crate::loops::{
    ElemAccess, LoopFlow, LoopFrame, begin_combinator_loop_spec, count, emit_iterable_len_spec,
    end_combinator_loop_spec, fm_reclaim_elem_spec, free_combinator_elem_box_full_spec,
    free_combinator_sealed_elem_spec, free_new_cells_spec,
};
use crate::names::begins_with;
use crate::recognize::{
    FuseStage, capture_resolvable_spec, concrete_array_shortcircuit_intrinsic_name,
    extract_fuse_chain_spec, first_arg_type, fuse_chain_from_spec, fuse_elem_repr_reclaimable,
    fuse_stage_spec, is_inline_scalar, iter_elem_type, stream_combinator_intrinsic_name,
};
use crate::repr::{
    arg_box_is_caller_owned_scalar_shell, arg_box_is_caller_owned_shell,
    arg_projects_unsealed_into_nullable_record, first_key_spec, is_named_or_null,
    is_nullable_sealed_record, is_rc_type, is_sealed_scalar_repr, is_union_ty, key_tells_apart_spec,
    needs_owning, sealed_record_arg_materialized, sum_arg_projected, sum_type_discriminant_of,
    sum_type_eligible, sumnode_variant_by_disc_spec, tag_unused_spec, type_is_streamish_ir,
    type_repr_differs, variant_tag_spec, variant_with_tag_spec,
};
use crate::text::{Text, decimal};
use crate::types::{
    Field, Type, field_type_spec, field_type_wf, fields_in_spec, fields_wf, same_type,
    same_types_spec, types_wf,
};
use vstd::prelude::*;

verus! {

// Types and representations.

/// A nullable packed record is never a box.
pub proof fn nullable_record_is_no_box(ty: &Type)
    ensures
        !(is_nullable_sealed_record(ty) && is_union_ty(ty)),
{
}

/// Values of a type are held in at most one of two ways that need owning: as a box or as a
/// counted pointer.
pub proof fn boxes_and_pointers_are_apart(ty: &Type)
    ensures
        !(is_rc_type(ty) && is_union_ty(ty)),
        needs_owning(ty) <==> is_rc_type(ty) || is_union_ty(ty),
{
}

/// No argument is boxed both as a counted pointer and as a scalar.
pub proof fn argument_shells_exclude_each_other(arg_ty: &Type, param_ty: Option<&Type>)
    ensures
        !(arg_box_is_caller_owned_shell(arg_ty, param_ty) && arg_box_is_caller_owned_scalar_shell(
            arg_ty,
            param_ty,
        )),
{
}

/// An argument of which the caller frees only the shell is one that is neither projected nor
/// copied: nothing fresh is inside the shell.
pub proof fn argument_shell_holds_nothing_fresh(arg_ty: &Type, param_ty: &Type)
    requires
        arg_box_is_caller_owned_shell(arg_ty, Some(param_ty)),
    ensures
        !sum_arg_projected(arg_ty, param_ty),
        !arg_projects_unsealed_into_nullable_record(arg_ty, param_ty),
        !sealed_record_arg_materialized(arg_ty, param_ty),
        is_union_ty(param_ty) && !is_union_ty(arg_ty),
{
}

/// Every well-formed type is equal to itself.
pub proof fn same_type_is_reflexive(ty: &Type)
    requires
        ty.wf(),
    ensures
        same_type(ty, ty),
    decreases ty,
{
    match ty {
        Type::Array(t) => same_type_is_reflexive(t),
        Type::FixedArray(ts) => same_types_reflexive(ts),
        Type::Object { fields, .. } => fields_in_self(fields, fields),
        Type::Dict { value } => same_type_is_reflexive(value),
        Type::Union(ts) => same_types_reflexive(ts),
        Type::Function { params, ret, .. } => {
            same_types_reflexive(params);
            same_type_is_reflexive(ret);
        },
        Type::Iterator(t) => same_type_is_reflexive(t),
        Type::Stream(t) => same_type_is_reflexive(t),
        Type::Promise(t) => same_type_is_reflexive(t),
        Type::Shared(t) => same_type_is_reflexive(t),
        Type::Frozen(t) => same_type_is_reflexive(t),
        _ => {},
    }
}

/// Every list of well-formed types is equal to itself.
proof fn same_types_reflexive(ts: &List<Type>)
    requires
        types_wf(ts),
    ensures
        same_types_spec(ts, ts),
    decreases ts,
{
    match ts {
        List::Nil => {},
        List::Cons(n) => {
            same_type_is_reflexive(&n.head);
            same_types_reflexive(&n.tail);
        },
    }
}

/// A field whose name comes first in `part` and nowhere before it in `all` is found in `all`
/// with its own type; so all fields of `part` are.
proof fn fields_in_self(part: &List<Field>, all: &List<Field>)
    requires
        fields_wf(part),
        forall|name: Seq<char>|
            field_type_spec(part, name) is Some ==> #[trigger] field_type_spec(all, name)
                == field_type_spec(part, name),
    ensures
        fields_in_spec(part, all),
    decreases part,
{
    match part {
        List::Nil => {},
        List::Cons(n) => {
            assert(field_type_spec(part, n.head.name@) == Some(n.head.ty));
            assert(field_type_spec(all, n.head.name@) == Some(n.head.ty));
            same_type_is_reflexive(&n.head.ty);
            assert forall|name: Seq<char>| field_type_spec(&n.tail, name) is Some implies
                #[trigger] field_type_spec(all, name) == field_type_spec(&n.tail, name) by {
                assert(name != n.head.name@);
                assert(field_type_spec(part, name) == field_type_spec(&n.tail, name));
            }
            fields_in_self(&n.tail, all);
        },
    }
}

/// A value never has to be converted to be used in its own type, where that is well-formed.
pub proof fn own_type_needs_no_conversion(ty: &Type)
    requires
        ty.wf(),
    ensures
        !type_repr_differs(ty, ty),
{
    same_type_is_reflexive(ty);
}

/// If a type is equal to another, the other is equal to it.
proof fn same_type_turns_round(a: &Type, b: &Type)
    requires
        a.wf(),
        b.wf(),
        same_type(a, b),
    ensures
        same_type(b, a),
    decreases a,
{
    match (a, b) {
        (Type::Array(x), Type::Array(y)) => same_type_turns_round(x, y),
        (Type::FixedArray(x), Type::FixedArray(y)) => same_types_turn_round(x, y),
        (Type::Object { fields: x, .. }, Type::Object { fields: y, .. }) => {
            fields_turn_round(x, y);
            names_turn_round(x, y);
            fields_found(y, y, x);
        },
        (Type::Dict { value: x }, Type::Dict { value: y }) => same_type_turns_round(x, y),
        (Type::Union(x), Type::Union(y)) => same_types_turn_round(x, y),
        (Type::Function { params: p, ret: r, .. }, Type::Function { params: q, ret: s, .. }) => {
            same_types_turn_round(p, q);
            same_type_turns_round(r, s);
        },
        (Type::Iterator(x), Type::Iterator(y)) => same_type_turns_round(x, y),
        (Type::Stream(x), Type::Stream(y)) => same_type_turns_round(x, y),
        (Type::Promise(x), Type::Promise(y)) => same_type_turns_round(x, y),
        (Type::Shared(x), Type::Shared(y)) => same_type_turns_round(x, y),
        (Type::Frozen(x), Type::Frozen(y)) => same_type_turns_round(x, y),
        _ => {},
    }
}

/// If types are equal to others one by one, the others are equal to them.
proof fn same_types_turn_round(a: &List<Type>, b: &List<Type>)
    requires
        types_wf(a),
        types_wf(b),
        same_types_spec(a, b),
    ensures
        same_types_spec(b, a),
    decreases a,
{
    match (a, b) {
        (List::Cons(x), List::Cons(y)) => {
            same_type_turns_round(&x.head, &y.head);
            same_types_turn_round(&x.tail, &y.tail);
        },
        _ => {},
    }
}

/// Every field of `a` is found in `b`, with a type that is equal to its own.
proof fn fields_turn_round(a: &List<Field>, b: &List<Field>)
    requires
        fields_wf(a),
        fields_wf(b),
        fields_in_spec(a, b),
    ensures
        forall|name: Seq<char>| #[trigger] field_type_spec(a, name) is Some ==> (
            field_type_spec(b, name) is Some
            && same_type(&field_type_spec(b, name)->Some_0, &field_type_spec(a, name)->Some_0)
        ),
    decreases a,
{
    match a {
        List::Nil => {},
        List::Cons(n) => {
            field_type_wf(b, n.head.name@);
            same_type_turns_round(&n.head.ty, &field_type_spec(b, n.head.name@)->Some_0);
            fields_turn_round(&n.tail, b);
            assert forall|name: Seq<char>| #[trigger] field_type_spec(a, name) is Some implies (
            field_type_spec(b, name) is Some && same_type(
                &field_type_spec(b, name)->Some_0,
                &field_type_spec(a, name)->Some_0,
            )) by {
                if name != n.head.name@ {
                    assert(field_type_spec(a, name) == field_type_spec(&n.tail, name));
                }
            }
        },
    }
}

/// The names of the fields.
spec fn names_of(fields: &List<Field>) -> Set<Seq<char>> {
    Set::new(|name: Seq<char>| field_type_spec(fields, name) is Some)
}

/// Fields with different names have as many names as there are fields.
proof fn names_counted(fields: &List<Field>)
    requires
        fields_wf(fields),
    ensures
        names_of(fields).finite(),
        names_of(fields).len() == fields.len(),
    decreases fields,
{
    match fields {
        List::Nil => {
            assert(names_of(fields) =~= Set::empty());
        },
        List::Cons(n) => {
            names_counted(&n.tail);
            assert(names_of(fields) =~= names_of(&n.tail).insert(n.head.name@));
        },
    }
}

/// Of two records with equally many fields, if one has no name that the other lacks, neither
/// does the other.
proof fn names_turn_round(a: &List<Field>, b: &List<Field>)
    requires
        fields_wf(a),
        fields_wf(b),
        a.len() == b.len(),
        forall|name: Seq<char>| #[trigger] field_type_spec(a, name) is Some ==> field_type_spec(
            b,
            name,
        ) is Some,
    ensures
        forall|name: Seq<char>| #[trigger] field_type_spec(b, name) is Some ==> field_type_spec(
            a,
            name,
        ) is Some,
{
    names_counted(a);
    names_counted(b);
    assert(names_of(a).subset_of(names_of(b)));
    vstd::set_lib::lemma_subset_equality(names_of(a), names_of(b));
    assert forall|name: Seq<char>| #[trigger] field_type_spec(b, name) is Some implies
        field_type_spec(a, name) is Some by {
        assert(names_of(b).contains(name));
        assert(names_of(a).contains(name));
    }
}

/// The fields of `part`, which are among those of `b`, are found in `a` with equal types.
proof fn fields_found(part: &List<Field>, b: &List<Field>, a: &List<Field>)
    requires
        fields_wf(part),
        forall|name: Seq<char>| #[trigger] field_type_spec(part, name) is Some ==> field_type_spec(
            part,
            name,
        ) == field_type_spec(b, name),
        forall|name: Seq<char>| #[trigger] field_type_spec(b, name) is Some ==> field_type_spec(
            a,
            name,
        ) is Some,
        forall|name: Seq<char>| #[trigger] field_type_spec(a, name) is Some ==> (
            field_type_spec(b, name) is Some
            && same_type(&field_type_spec(b, name)->Some_0, &field_type_spec(a, name)->Some_0)
        ),
    ensures
        fields_in_spec(part, a),
    decreases part,
{
    match part {
        List::Nil => {},
        List::Cons(n) => {
            assert(field_type_spec(part, n.head.name@) == Some(n.head.ty));
            assert(field_type_spec(b, n.head.name@) == Some(n.head.ty));
            assert(field_type_spec(a, n.head.name@) is Some);
            assert forall|name: Seq<char>| #[trigger]
                field_type_spec(&n.tail, name) is Some implies field_type_spec(&n.tail, name)
                == field_type_spec(b, name) by {
                assert(name != n.head.name@);
                assert(field_type_spec(part, name) == field_type_spec(&n.tail, name));
            }
            fields_found(&n.tail, b, a);
        },
    }
}

/// Equality of well-formed types does not depend on their order.
pub proof fn same_type_is_symmetric(a: &Type, b: &Type)
    requires
        a.wf(),
        b.wf(),
    ensures
        same_type(a, b) == same_type(b, a),
{
    if same_type(a, b) {
        same_type_turns_round(a, b);
    }
    if same_type(b, a) {
        same_type_turns_round(b, a);
    }
}

/// Whether values of two well-formed types are held differently does not depend on their
/// order.
pub proof fn type_repr_differs_is_symmetric(a: &Type, b: &Type)
    requires
        a.wf(),
        b.wf(),
    ensures
        type_repr_differs(a, b) == type_repr_differs(b, a),
{
    same_type_is_symmetric(a, b);
}

/// Values of any two number types are held alike, as plain scalars; a change of width or sign
/// is no change of representation.
pub proof fn numbers_are_held_alike(a: &Type, b: &Type)
    requires
        a.is_numeric(),
        b.is_numeric(),
    ensures
        !type_repr_differs(a, b),
{
}

/// No field tells variants apart of which one is null.
proof fn null_has_no_key(fields: &List<Field>, variants: &List<Type>)
    requires
        forall|key: Seq<char>| !#[trigger] key_tells_apart_spec(variants, key),
    ensures
        first_key_spec(fields, variants) is None,
    decreases fields,
{
    match fields {
        List::Nil => {},
        List::Cons(n) => null_has_no_key(&n.tail, variants),
    }
}

/// A nullable packed record is no sum type.
pub proof fn nullable_record_is_no_sum(ty: &Type)
    requires
        is_nullable_sealed_record(ty),
    ensures
        !sum_type_eligible(ty),
{
    reveal_with_fuel(key_tells_apart_spec, 3);
    match ty {
        Type::Union(variants) => match variants {
            List::Cons(n) => match n.head {
                Type::Object { fields, .. } => null_has_no_key(&fields, variants),
                _ => {},
            },
            _ => {},
        },
        _ => {},
    }
}

/// A packed record and null go into a nullable packed record as they are, and come out of it
/// as they are.
pub proof fn nullable_record_holds_record_and_null(ty: &Type, nullable: &Type)
    requires
        is_nullable_sealed_record(nullable),
        ty is Null || is_sealed_scalar_repr(ty),
    ensures
        !type_repr_differs(ty, nullable),
        !type_repr_differs(nullable, ty),
{
    nullable_record_is_no_sum(nullable);
}

/// A packed record and a sum type are held as the named type is that stands for them.
pub proof fn named_reference_is_held_alike(ty: &Type, named: &Type)
    requires
        named.is_named(),
        is_sealed_scalar_repr(ty) || sum_type_eligible(ty),
    ensures
        !type_repr_differs(ty, named),
        !type_repr_differs(named, ty),
{
}

/// Putting a value into a slot of its own type, where that is well-formed, emits nothing.
pub proof fn slot_of_own_type_emits_nothing(t: Temp, ty: &Type, b: FState)
    requires
        ty.wf(),
    ensures
        coerce_to_slot_type_spec(t, ty, ty, b) == (b, t),
{
    reveal(coerce_to_slot_type_spec);
    own_type_needs_no_conversion(ty);
    same_type_is_reflexive(ty);
    match ty {
        Type::Array(e) => same_type_is_reflexive(e),
        _ => {},
    }
}

/// An argument of which the caller frees the shell after the call is boxed by exactly one
/// conversion to the type of the parameter; the box holds the reference of the argument.
pub proof fn shell_argument_is_boxed_once(arg: Temp, arg_ty: &Type, param_ty: &Type, b: FState)
    requires
        arg_box_is_caller_owned_shell(arg_ty, Some(param_ty)),
    ensures
        ({
            let (b1, boxed) = b.coerce(arg, arg_ty, param_ty);
            lower_coerce_arg_spec(arg, arg_ty, Some(param_ty), b) == (
                b1.record_escape_alias(boxed, arg),
                boxed,
            )
        }),
{
    reveal(lower_coerce_arg_spec);
    reveal(lower_coerce_plain_arg_spec);
}

/// Any other argument of which the caller frees the shell after the call is boxed by exactly
/// one conversion to the type of the parameter too, and nothing is registered for it. Null is
/// left alone where the parameter is of the unexpanded form `Name | Null`.
pub proof fn scalar_argument_is_boxed_once(arg: Temp, arg_ty: &Type, param_ty: &Type, b: FState)
    requires
        arg_box_is_caller_owned_scalar_shell(arg_ty, Some(param_ty)),
        !(arg_ty is Null && is_named_or_null(param_ty)),
    ensures
        ({
            let (b1, boxed) = b.coerce(arg, arg_ty, param_ty);
            lower_coerce_arg_spec(arg, arg_ty, Some(param_ty), b) == (
                if is_rc_type(arg_ty) {
                    b1.record_escape_alias(boxed, arg)
                } else {
                    b1
                },
                boxed,
            )
        }),
{
    reveal(lower_coerce_arg_spec);
    reveal(lower_coerce_plain_arg_spec);
}

// Scopes and references.

/// Taking back the registration of a reference undoes it.
pub proof fn unregistering_undoes_registering(b: FState, t: Temp, ty: Type)
    requires
        needs_owning(&ty),
        b.env.scopes.len() > 0,
    ensures
        b.register_owned(t, ty).unregister_owned(t) == b,
{
    reveal(FState::register_owned);
    reveal(FState::unregister_owned);
    assert({
        let n = b.env.scopes->Cons_0;
        let top = cons(Owned { temp: t, ty }, n.head.owned);
        let scopes = cons(Scope { owned: top, shells: n.head.shells }, n.tail);
        &&& owns(&top, t)
        &&& owned_without(&top, t) == n.head.owned
        &&& scopes_without(&scopes, t) == cons(
            Scope { owned: n.head.owned, shells: n.head.shells },
            n.tail,
        )
        &&& b.register_owned(t, ty).unregister_owned(t).env.scopes == b.env.scopes
    });
}

/// A reference that has just been registered is owned by the innermost scope.
pub proof fn registered_reference_is_owned(b: FState, t: Temp, ty: Type)
    requires
        needs_owning(&ty),
        b.env.scopes.len() > 0,
    ensures
        b.register_owned(t, ty).is_owned_in_current_scope(t),
        b.register_owned(t, ty).is_owned_in_scope(t),
{
    reveal(FState::register_owned);
    reveal(FState::is_owned_in_current_scope);
    reveal(FState::is_owned_in_scope);
}

/// A value without references is never registered.
pub proof fn plain_values_are_not_registered(b: FState, t: Temp, ty: Type)
    requires
        !needs_owning(&ty),
    ensures
        b.register_owned(t, ty) == b,
{
    reveal(FState::register_owned);
}

/// Ending a scope in which nothing was registered emits nothing and leaves everything as it
/// was before the scope was opened.
pub proof fn empty_scope_leaves_no_trace(b: FState, keep: &List<Temp>)
    ensures
        b.push_scope().discard_scope() == b,
        b.push_scope().pop_scope_releasing_keep(keep) == b,
        b.push_scope().pop_scope_releasing_keep_transfer(keep) == b,
{
    reveal(FState::push_scope);
    reveal(FState::discard_scope);
    reveal(FState::pop_scope_releasing_keep);
    reveal(FState::pop_scope_releasing_keep_transfer);
}

/// How often the list registers the reference.
pub open spec fn registrations(l: &List<Owned>, t: Temp) -> nat
    decreases l,
{
    match l {
        List::Nil => 0,
        List::Cons(n) => registrations(&n.tail, t) + (if n.head.temp == t {
            1nat
        } else {
            0nat
        }),
    }
}

/// How often the code releases the value.
pub open spec fn releases(code: &List<std::rc::Rc<Spanned>>, t: Temp) -> nat
    decreases code,
{
    match code {
        List::Nil => 0,
        List::Cons(n) => releases(&n.tail, t) + (match n.head.instr {
            Instruction::Release { val, .. } => if val == t {
                1nat
            } else {
                0nat
            },
            _ => 0nat,
        }),
    }
}

/// The first reference in the list is given back, unless it is kept.
pub open spec fn release_first(b: FState, l: &List<Owned>, keep: &List<Temp>) -> FState {
    match l {
        List::Nil => b,
        List::Cons(n) => if has_temp(keep, n.head.temp) {
            b
        } else {
            b.emit(Instruction::Release { val: n.head.temp, ty: n.head.ty })
        },
    }
}

/// Giving back the references in a list releases each that is not kept as often as it was
/// registered.
proof fn release_all_balances(b: FState, l: &List<Owned>, keep: &List<Temp>, t: Temp)
    requires
        b.env.current_block.0 < b.blocks.len(),
    ensures
        ({
            let k = b.env.current_block.0 as int;
            let after = release_all(b, l, keep);
            &&& after.blocks.len() == b.blocks.len()
            &&& after.env == b.env
            &&& releases(&after.blocks[k].code, t) == releases(&b.blocks[k].code, t) + (
            if has_temp(keep, t) {
                0nat
            } else {
                registrations(l, t)
            })
        }),
    decreases l,
{
    match l {
        List::Nil => {},
        List::Cons(n) => {
            reveal(FState::emit);
            release_all_balances(release_first(b, l, keep), &n.tail, keep, t);
        },
    }
}

/// The first shell in the list is freed, unless it is kept.
spec fn free_first(b: FState, l: &List<Temp>, keep: &List<Temp>) -> FState {
    match l {
        List::Nil => b,
        List::Cons(n) => if has_temp(keep, n.head) {
            b
        } else {
            b.emit(Instruction::FreeBoxShell { val: n.head })
        },
    }
}

/// Freeing shells releases nothing.
proof fn free_shells_releases_nothing(b: FState, l: &List<Temp>, keep: &List<Temp>, t: Temp)
    requires
        b.env.current_block.0 < b.blocks.len(),
    ensures
        ({
            let k = b.env.current_block.0 as int;
            let after = free_shells(b, l, keep);
            &&& after.blocks.len() == b.blocks.len()
            &&& after.env == b.env
            &&& releases(&after.blocks[k].code, t) == releases(&b.blocks[k].code, t)
        }),
    decreases l,
{
    match l {
        List::Nil => {},
        List::Cons(n) => {
            reveal(FState::emit);
            free_shells_releases_nothing(free_first(b, l, keep), &n.tail, keep, t);
        },
    }
}

/// The end of a scope releases each reference that it owns and that is not kept as often as
/// it was registered, and no other one; the enclosing scopes stay as they are.
pub proof fn scope_end_balances_references(b: FState, keep: &List<Temp>, t: Temp)
    requires
        b.env.current_block.0 < b.blocks.len(),
        b.env.scopes is Cons,
        !b.is_terminated(),
    ensures
        ({
            let k = b.env.current_block.0 as int;
            let after = b.pop_scope_releasing_keep(keep);
            &&& after.env.scopes == b.env.scopes->Cons_0.tail
            &&& releases(&after.blocks[k].code, t) == releases(&b.blocks[k].code, t) + (
            if has_temp(keep, t) {
                0nat
            } else {
                registrations(&b.env.scopes->Cons_0.head.owned, t)
            })
        }),
{
    reveal(FState::pop_scope_releasing_keep);
    reveal(FState::discard_scope);
    match &b.env.scopes {
        List::Nil => {},
        List::Cons(n) => {
            release_all_balances(b, &n.head.owned, keep, t);
            free_shells_releases_nothing(
                release_all(b, &n.head.owned, keep),
                &n.head.shells,
                keep,
                t,
            );
        },
    }
}

/// How often the open scopes have registered a reference to the value.
pub open spec fn all_registrations(scopes: &List<Scope>, t: Temp) -> nat
    decreases scopes,
{
    match scopes {
        List::Nil => 0,
        List::Cons(n) => registrations(&n.head.owned, t) + all_registrations(&n.tail, t),
    }
}

/// How often the list holds the temporary.
pub open spec fn occurrences(l: &List<Temp>, t: Temp) -> nat
    decreases l,
{
    match l {
        List::Nil => 0,
        List::Cons(n) => occurrences(&n.tail, t) + (if n.head == t {
            1nat
        } else {
            0nat
        }),
    }
}

/// What is left of `a` when `b` has been taken away, at least nothing.
pub open spec fn minus(a: nat, b: nat) -> nat {
    if a > b {
        (a - b) as nat
    } else {
        0
    }
}

/// A tail call releases each reference as often as the open scopes have registered it, but
/// for the references that it hands on.
pub proof fn tail_call_balances_references(b: FState, args: &List<Temp>, t: Temp)
    requires
        b.env.current_block.0 < b.blocks.len(),
    ensures
        ({
            let k = b.env.current_block.0 as int;
            let after = b.release_owned_for_tail_call(args);
            releases(&after.blocks[k].code, t) == releases(&b.blocks[k].code, t) + minus(
                all_registrations(&b.env.scopes, t),
                occurrences(&b.handed_on(args), t),
            )
        }),
{
    reveal(FState::release_owned_for_tail_call);
    release_scopes_balances(b, &b.env.scopes, b.handed_on(args), args, t);
}

/// The temporaries of the parameters.
pub open spec fn param_temps(params: &List<IrParam>) -> List<Temp>
    decreases params,
{
    match params {
        List::Nil => List::Nil,
        List::Cons(n) => cons(n.head.temp, param_temps(&n.tail)),
    }
}

/// A tail call that passes all parameters on unchanged hands on nothing: it releases each
/// reference as often as the open scopes have registered it.
pub proof fn unchanged_parameters_are_given_back(b: FState, t: Temp)
    requires
        b.env.current_block.0 < b.blocks.len(),
    ensures
        ({
            let k = b.env.current_block.0 as int;
            let args = param_temps(&own_params(b.env.params, b.env.is_closure));
            let after = b.release_owned_for_tail_call(&args);
            releases(&after.blocks[k].code, t) == releases(&b.blocks[k].code, t)
                + all_registrations(&b.env.scopes, t)
        }),
{
    let params = own_params(b.env.params, b.env.is_closure);
    let args = param_temps(&params);
    unchanged_parameters_do_not_move(&params);
    nothing_is_alias_of_nothing(&b.env.escape_alias);
    tail_call_balances_references(b, &args, t);
}

/// Parameters that are passed on unchanged do not move.
proof fn unchanged_parameters_do_not_move(params: &List<IrParam>)
    ensures
        moving_args(&param_temps(params), params) is Nil,
    decreases params,
{
    match params {
        List::Nil => {},
        List::Cons(n) => unchanged_parameters_do_not_move(&n.tail),
    }
}

/// Where nothing is handed on, no source of an alias is.
proof fn nothing_is_alias_of_nothing(l: &List<Alias>)
    ensures
        with_alias_sources(l, List::Nil) is Nil,
    decreases l,
{
    match l {
        List::Nil => {},
        List::Cons(n) => nothing_is_alias_of_nothing(&n.tail),
    }
}

/// Giving back what the scopes own releases each reference as often as it was registered,
/// but for those that are kept.
proof fn release_scopes_balances(
    b: FState,
    l: &List<Scope>,
    keep: List<Temp>,
    args: &List<Temp>,
    t: Temp,
)
    requires
        b.env.current_block.0 < b.blocks.len(),
    ensures
        ({
            let k = b.env.current_block.0 as int;
            let after = release_scopes(b, l, keep, args);
            &&& after.blocks.len() == b.blocks.len()
            &&& after.env == b.env
            &&& releases(&after.blocks[k].code, t) == releases(&b.blocks[k].code, t) + minus(
                all_registrations(l, t),
                occurrences(&keep, t),
            )
        }),
    decreases l,
{
    match l {
        List::Nil => {},
        List::Cons(n) => {
            release_unkept_balances(b, &n.head.owned, keep, t);
            let (b1, left) = release_unkept(b, &n.head.owned, keep);
            free_shells_releases_nothing(b1, &n.head.shells, args, t);
            let b2 = free_shells(b1, &n.head.shells, args);
            release_scopes_balances(b2, &n.tail, left, args, t);
        },
    }
}

/// Giving back the references in a list releases each as often as it was registered, but for
/// those that are kept, of which those that were found are gone from the list.
proof fn release_unkept_balances(b: FState, l: &List<Owned>, keep: List<Temp>, t: Temp)
    requires
        b.env.current_block.0 < b.blocks.len(),
    ensures
        ({
            let k = b.env.current_block.0 as int;
            let (after, left) = release_unkept(b, l, keep);
            &&& after.blocks.len() == b.blocks.len()
            &&& after.env == b.env
            &&& releases(&after.blocks[k].code, t) == releases(&b.blocks[k].code, t) + minus(
                registrations(l, t),
                occurrences(&keep, t),
            )
            &&& occurrences(&left, t) == minus(occurrences(&keep, t), registrations(l, t))
        }),
    decreases l,
{
    match l {
        List::Nil => {},
        List::Cons(n) => {
            reveal(FState::emit);
            has_temp_occurs(&keep, n.head.temp);
            if has_temp(&keep, n.head.temp) {
                without_one_counts(&keep, n.head.temp, t);
                release_unkept_balances(b, &n.tail, without_one(&keep, n.head.temp), t);
            } else {
                let b1 = b.emit(Instruction::Release { val: n.head.temp, ty: owned_type(l) });
                release_unkept_balances(b1, &n.tail, keep, t);
            }
        },
    }
}

/// The type of the first reference in the list.
spec fn owned_type(l: &List<Owned>) -> Type { l->Cons_0.head.ty }

/// A list holds a temporary where it occurs.
proof fn has_temp_occurs(l: &List<Temp>, t: Temp)
    ensures
        has_temp(l, t) <==> occurrences(l, t) > 0,
    decreases l,
{
    match l {
        List::Nil => {},
        List::Cons(n) => has_temp_occurs(&n.tail, t),
    }
}

/// Taking one occurrence away leaves one less.
proof fn without_one_counts(l: &List<Temp>, x: Temp, t: Temp)
    requires
        has_temp(l, x),
    ensures
        occurrences(&without_one(l, x), t) == minus(
            occurrences(l, t),
            if x == t {
                1nat
            } else {
                0nat
            },
        ),
    decreases l,
{
    match l {
        List::Nil => {},
        List::Cons(n) => if n.head != x {
            without_one_counts(&n.tail, x, t);
            has_temp_occurs(&n.tail, x);
        },
    }
}

// Heap cells.

/// How often the code frees the heap cell.
pub open spec fn frees(code: &List<std::rc::Rc<Spanned>>, t: Temp) -> nat
    decreases code,
{
    match code {
        List::Nil => 0,
        List::Cons(n) => frees(&n.tail, t) + (match n.head.instr {
            Instruction::FreeCell { cell, .. } => if cell == t {
                1nat
            } else {
                0nat
            },
            _ => 0nat,
        }),
    }
}

/// A heap cell outlives the code of `block`: it was made elsewhere, it escapes, or it is kept.
pub open spec fn outlives(cell: Cell, block: BlockId, keep: &List<Temp>, b: FState) -> bool {
    cell.block != block || has_temp(&b.env.escaping_cells, cell.temp) || has_temp(keep, cell.temp)
}

/// How often the temporary is among the cells of the list, the last `stop` ones apart, that do
/// not outlive the block.
pub open spec fn cells_to_free(
    cells: &List<Cell>,
    stop: usize,
    block: BlockId,
    keep: &List<Temp>,
    b: FState,
    t: Temp,
) -> nat
    decreases cells,
{
    match cells {
        List::Nil => 0,
        List::Cons(n) => if count(cells) > stop {
            cells_to_free(&n.tail, stop, block, keep, b, t) + (if n.head.temp == t && !outlives(
                n.head,
                block,
                keep,
                b,
            ) {
                1nat
            } else {
                0nat
            })
        } else {
            0
        },
    }
}

/// Freeing the cells that were made in a block frees each of them that neither escapes nor is
/// kept, once for each time it was made, and no other one.
pub proof fn only_cells_that_do_not_outlive_are_freed(
    cells: &List<Cell>,
    stop: usize,
    block: BlockId,
    keep: &List<Temp>,
    b: FState,
    t: Temp,
)
    requires
        b.env.current_block.0 < b.blocks.len(),
    ensures
        ({
            let k = b.env.current_block.0 as int;
            let after = free_new_cells_spec(cells, stop, block, keep, b);
            &&& after.blocks.len() == b.blocks.len()
            &&& after.env == b.env
            &&& frees(&after.blocks[k].code, t) == frees(&b.blocks[k].code, t) + cells_to_free(
                cells,
                stop,
                block,
                keep,
                b,
                t,
            )
        }),
    decreases cells,
{
    reveal_with_fuel(free_new_cells_spec, 2);
    reveal(FState::emit);
    match cells {
        List::Nil => {},
        List::Cons(n) => {
            only_cells_that_do_not_outlive_are_freed(&n.tail, stop, block, keep, b, t);
            let mid = free_new_cells_spec(&n.tail, stop, block, keep, b);
            assert(mid.env == b.env);
        },
    }
}

/// A cell that escapes is never freed.
pub proof fn escaping_cells_are_not_freed(
    cells: &List<Cell>,
    stop: usize,
    block: BlockId,
    keep: &List<Temp>,
    b: FState,
    t: Temp,
)
    requires
        has_temp(&b.env.escaping_cells, t),
    ensures
        cells_to_free(cells, stop, block, keep, b, t) == 0,
    decreases cells,
{
    match cells {
        List::Nil => {},
        List::Cons(n) => escaping_cells_are_not_freed(&n.tail, stop, block, keep, b, t),
    }
}

// Loops.

/// The code of a block begins with a phi that takes one of two values, by where control comes
/// from.
pub open spec fn begins_with_phi(
    code: &List<std::rc::Rc<Spanned>>,
    phi: Temp,
    first: BlockId,
    next_val: Temp,
    next: BlockId,
) -> bool
    decreases code,
{
    match code {
        List::Nil => false,
        List::Cons(n) => if n.tail is Nil {
            match n.head.instr {
                Instruction::Phi { dst, incomings, .. } => match incomings {
                    List::Cons(x) => match x.tail {
                        List::Cons(y) => dst == phi && x.head.pred == first && y.head == (
                        Incoming { val: next_val, pred: next }) && y.tail is Nil,
                        List::Nil => false,
                    },
                    List::Nil => false,
                },
                _ => false,
            }
        } else {
            begins_with_phi(&n.tail, phi, first, next_val, next)
        },
    }
}

/// The counter of a loop over a collection is a phi at the beginning of its header: it starts
/// where control comes from in front of the loop, and goes on where control comes from the
/// latch.
pub proof fn loop_counter_comes_from_the_latch(
    iterable: Temp,
    iterable_ty: &Type,
    access: ElemAccess,
    b: FState,
)
    requires
        b.env.current_block.0 < b.blocks.len(),
        b.blocks.len() + 4 <= u32::MAX,
    ensures
        ({
            let (after, frame) = begin_combinator_loop_spec(iterable, iterable_ty, access, b);
            begins_with_phi(
                &after.blocks[frame.header.0 as int].code,
                frame.i,
                b.env.current_block,
                frame.i_next,
                frame.latch,
            )
        }),
{
    reveal(begin_combinator_loop_spec);
    reveal(emit_iterable_len_spec);
    reveal(FState::call);
    reveal(FState::call_intrinsic);
    reveal(FState::const_temp);
    reveal(FState::alloc_temp);
    reveal(FState::alloc_block);
    reveal(FState::emit);
    reveal(FState::terminate);
    reveal(FState::switch_to);
    reveal(FState::binary);
    reveal(FState::index);
    reveal_with_fuel(begins_with_phi, 3);
}

/// Behind its body a loop over a collection goes from its latch back to its header, and code
/// goes on at its exit.
pub proof fn loop_goes_back_through_its_latch(frame: &LoopFrame, flow: LoopFlow, b: FState)
    requires
        frame.latch.0 < b.blocks.len(),
    ensures
        ({
            let after = end_combinator_loop_spec(frame, flow, b);
            &&& after.blocks[frame.latch.0 as int].term == Terminator::Jump(frame.header)
            &&& after.env.current_block == frame.exit
        }),
{
    reveal(end_combinator_loop_spec);
    reveal(FState::const_temp);
    reveal(FState::alloc_temp);
    reveal(FState::emit);
    reveal(FState::terminate);
    reveal(FState::switch_to);
}

// Positions in fused loops.

/// One of the first `k` steps drops elements.
pub open spec fn filter_before(stages: &List<FuseStage>, k: nat) -> bool
    decreases stages,
{
    match stages {
        List::Nil => false,
        List::Cons(n) => k > 0 && (stage_filters(&n.head) || filter_before(
            &n.tail,
            (k - 1) as nat,
        )),
    }
}

/// The step at `k`, or what stands behind the steps, wants to know the position.
pub open spec fn wants_position(stages: &List<FuseStage>, k: nat, last: bool) -> bool
    decreases stages,
{
    match stages {
        List::Nil => last,
        List::Cons(n) => if k == 0 {
            stage_takes_index(&n.head)
        } else {
            wants_position(&n.tail, (k - 1) as nat, last)
        },
    }
}

/// The counter at `k`, if there is one.
pub open spec fn counter_at(counters: &List<Option<Temp>>, k: nat) -> Option<Temp>
    decreases counters,
{
    match counters {
        List::Nil => None,
        List::Cons(n) => if k == 0 {
            n.head
        } else {
            counter_at(&n.tail, (k - 1) as nat)
        },
    }
}

/// In a fused loop that does not flatten, exactly those positions are counted that are wanted
/// and stand behind a step that drops elements; elsewhere the position is that of the element in
/// the collection.
pub proof fn positions_are_counted_behind_filters(
    stages: &List<FuseStage>,
    behind: bool,
    last: bool,
    b: FState,
    k: nat,
)
    requires
        k <= stages.len(),
    ensures
        counter_at(&filtered_counters_spec(stages, behind, last, b).1, k) is Some <==> (behind
            || filter_before(stages, k)) && wants_position(stages, k, last),
    decreases stages,
{
    reveal(filtered_counters_spec);
    reveal(fm_counter_spec);
    reveal_with_fuel(counter_at, 2);
    match stages {
        List::Nil => {},
        List::Cons(n) => if k > 0 {
            let (b1, _) = fm_counter_spec(behind && stage_takes_index(&n.head), b);
            positions_are_counted_behind_filters(
                &n.tail,
                behind || stage_filters(&n.head),
                last,
                b1,
                (k - 1) as nat,
            );
        },
    }
}

// Elements and function arguments.

/// An element that was read is given back by one release where it was read as a box or as a packed
/// record, and by nothing else.
pub proof fn element_is_given_back_once(elem: Temp, elem_ty: &Type, b: FState)
    ensures
        fm_reclaim_elem_spec(elem, elem_ty, b) == if is_union_ty(elem_ty) || is_sealed_scalar_repr(
            elem_ty,
        ) {
            b.emit(Instruction::Release { val: elem, ty: *elem_ty })
        } else {
            b
        },
{
    reveal(fm_reclaim_elem_spec);
    reveal(free_combinator_elem_box_full_spec);
    reveal(free_combinator_sealed_elem_spec);
}

/// A function argument comes with one reference that the callee gives back: the one that the
/// scope owned where the argument is fresh, else a new one. Nothing happens to other arguments.
pub proof fn function_argument_brings_one_reference(arg: Temp, ty: &Type, fresh: bool, b: FState)
    ensures
        hand_over_closure_spec(arg, ty, fresh, retain_call_arg_spec(arg, ty, fresh, b)) == if !(
        ty is Function) {
            b
        } else if fresh {
            b.unregister_owned(arg)
        } else {
            b.emit(Instruction::Retain { val: arg, ty: *ty })
        },
{
    reveal(hand_over_closure_spec);
    reveal(retain_call_arg_spec);
}

/// A function that may assign to a captured variable is inlined only where that variable is a
/// global or lives in a heap cell.
pub proof fn assigned_captures_need_a_place(cap: &Capture, s: St)
    requires
        cap.is_mutable,
        capture_resolvable_spec(cap, s),
    ensures
        s.c.is_global_var(cap.outer_slot) || s.b.cell_slot(cap.outer_slot) is Some,
{
    reveal(capture_resolvable_spec);
}

// Attempts that do not apply.

/// An attempt to lower a literal into a packed record that does not apply emits nothing.
pub proof fn sealed_literal_applies_or_does_nothing(
    l: Lower,
    value: &TypedExpr,
    slot_ty: &Type,
    s: St,
)
    ensures
        try_lower_sealed_literal_spec(l, value, slot_ty, s).1 is None
            ==> try_lower_sealed_literal_spec(l, value, slot_ty, s).0 == s,
        try_lower_sealed_literal_spec(l, value, slot_ty, s).1 is Some ==> is_sealed_scalar_repr(
            slot_ty,
        ) && value is MakeObject,
{
    reveal(try_lower_sealed_literal_spec);
}

/// An attempt to lower a literal into a node of a sum type that does not apply emits nothing. It
/// applies to a literal without spreads whose discriminant is known beforehand.
pub proof fn sum_literal_applies_or_does_nothing(l: Lower, value: &TypedExpr, slot_ty: &Type, s: St)
    ensures
        try_lower_sum_literal_spec(l, value, slot_ty, s).1 is None ==> try_lower_sum_literal_spec(
            l,
            value,
            slot_ty,
            s,
        ).0 == s,
        try_lower_sum_literal_spec(l, value, slot_ty, s).1 is Some <==> (match (
            sum_type_discriminant_of(slot_ty),
            value,
        ) {
            (Some(disc), TypedExpr::MakeObject { fields, spreads, .. }) => spreads is Nil
                && disc_is_fixed(fields, &disc),
            _ => false,
        }),
{
    reveal(try_lower_sum_literal_spec);
}

/// An attempt to borrow a container that does not apply emits nothing.
pub proof fn borrowing_applies_or_does_nothing(l: Lower, object: &TypedExpr, s: St)
    ensures
        lower_container_base_borrowed_spec(l, object, s).1 is None
            ==> lower_container_base_borrowed_spec(l, object, s).0 == s,
{
    reveal(lower_container_base_borrowed_spec);
}

/// An attempt to read one field of an array element in place that does not apply emits
/// nothing.
pub proof fn element_field_applies_or_does_nothing(
    l: Lower,
    object: &TypedExpr,
    field: &String,
    result_ty: &Type,
    s: St,
)
    ensures
        try_lower_elem_field_spec(l, object, field, result_ty, s).1 is None
            ==> try_lower_elem_field_spec(l, object, field, result_ty, s).0 == s,
{
    reveal(try_lower_elem_field_spec);
    reveal(try_lower_packed_elem_field_spec);
    reveal(try_lower_sealed_array_field_spec);
    reveal(try_lower_boxed_array_field_spec);
}

/// An attempt to read a field off a node of a sum type that does not apply emits nothing.
pub proof fn node_field_applies_or_does_nothing(
    l: Lower,
    object: &TypedExpr,
    name: &String,
    result_ty: &Type,
    s: St,
)
    ensures
        try_lower_node_field_spec(l, object, name, result_ty, s).1 is None
            ==> try_lower_node_field_spec(l, object, name, result_ty, s).0 == s,
{
    reveal(try_lower_node_field_spec);
}

/// An attempt to lower a `flatMap` in place that does not apply emits nothing.
pub proof fn flatmap_applies_or_does_nothing(
    l: Lower,
    args: &List<TypedExpr>,
    result_type: &Type,
    s: St,
)
    ensures
        lower_flatmap_terminal_spec(l, args, result_type, s).1 is None
            ==> lower_flatmap_terminal_spec(l, args, result_type, s).0 == s,
{
    reveal(lower_flatmap_terminal_spec);
    reveal(lower_flatmap_spec);
}

/// An attempt to lower a sort, a loop without arguments or a loop over entries in place that
/// does not apply emits nothing.
pub proof fn inline_loops_apply_or_do_nothing(
    l: Lower,
    x: &TypedExpr,
    y: &TypedExpr,
    result_type: &Type,
    s: St,
)
    ensures
        lower_sort_spec(l, x, y, result_type, s).1 is None ==> lower_sort_spec(
            l,
            x,
            y,
            result_type,
            s,
        ).0 == s,
        lower_zero_arg_while_spec(l, x, s).1 is None ==> lower_zero_arg_while_spec(l, x, s).0
            == s,
        lower_entries_inline_spec(l, x, y, s).1 is None ==> lower_entries_inline_spec(
            l,
            x,
            y,
            s,
        ).0 == s,
{
    reveal(lower_sort_spec);
    reveal(lower_zero_arg_while_spec);
    reveal(lower_entries_inline_spec);
}

// Fusion.

/// Every step that turns elements into others turns them into scalars.
pub open spec fn maps_to_scalars(stages: &List<FuseStage>) -> bool
    decreases stages,
{
    match stages {
        List::Nil => true,
        List::Cons(n) => (match n.head {
            FuseStage::MapEach { out_elem_ty, .. } => is_inline_scalar(&out_elem_ty),
            _ => true,
        }) && maps_to_scalars(&n.tail),
    }
}

/// The steps of a fused loop turn elements only into scalars, and where there are steps the
/// elements of the collection can be given back when they are dropped.
pub proof fn fused_chain_is_reclaimable(recv: &TypedExpr, s: St)
    ensures
        maps_to_scalars(&extract_fuse_chain_spec(recv, s).stages),
        !extract_fuse_chain_spec(recv, s).stages.is_empty() ==> fuse_elem_repr_reclaimable(
            &iter_elem_type(&extract_fuse_chain_spec(recv, s).base.ty()),
        ),
{
    let peeled = crate::recognize::peel_combinator_coerce_spec(recv, s);
    chain_maps_to_scalars(peeled, List::Nil, s);
}

/// Following a chain inwards adds only steps that map to scalars.
proof fn chain_maps_to_scalars(cur: &TypedExpr, stages: List<FuseStage>, s: St)
    requires
        maps_to_scalars(&stages),
    ensures
        maps_to_scalars(&fuse_chain_from_spec(cur, stages, s).stages),
    decreases cur,
{
    match crate::recognize::combinator_callee_name_spec(cur, s) {
        None => {},
        Some(name) => match cur {
            TypedExpr::Call { args, .. } => match args {
                List::Cons(a0) => match a0.tail {
                    List::Cons(a1) => match fuse_stage_spec(name, &a0.head, &a1.head, s) {
                        None => {},
                        Some(stage) => if a1.tail.is_empty() {
                            chain_maps_to_scalars(
                                crate::recognize::peel_combinator_coerce_spec(&a0.head, s),
                                cons(stage, stages),
                                s,
                            );
                        },
                    },
                    List::Nil => {},
                },
                List::Nil => {},
            },
            _ => {},
        },
    }
}

// Default arguments.

/// The symbol of an adapter is that of the function, `$default` and the number of arguments
/// in decimal notation.
pub proof fn adapter_symbol_reads(prefix: Text, arity: usize)
    ensures
        default_symbol(prefix, arity).view() == prefix.view() + "$default"@ + decimal(arity as nat),
{
    reveal_with_fuel(Text::view, 3);
}

/// Registering the adapters from `arity` to below `total` adds one for each number of
/// arguments in between, in order, and lists their functions with the real one behind.
pub proof fn adapters_cover_every_arity(plan: &AdapterPlan, arity: usize, total: usize, c: CState)
    requires
        arity <= total,
    ensures
        ({
            let (c1, entries) = with_adapters(plan, arity, total, c);
            &&& c1.pending_adapters.len() == c.pending_adapters.len() + (total - arity)
            &&& entries.view().len() == total - arity + 1
            &&& entries.view().last() == plan.real_fid
            &&& forall|i: int|
                0 <= i < c.pending_adapters.len() ==> #[trigger] c1.pending_adapters[i]
                    == c.pending_adapters[i]
            &&& forall|k: int|
                0 <= k < total - arity ==> {
                    let spec = #[trigger] c1.pending_adapters[c.pending_adapters.len() + k];
                    &&& spec.arity == arity + k
                    &&& spec.adapter_fid == entries.view()[k]
                    &&& spec.symbol == default_symbol(plan.symbol_prefix, (arity + k) as usize)
                }
        }),
    decreases total - arity,
{
    let (c1, entries) = with_adapters(plan, arity, total, c);
    if arity < total {
        let (c0, fid) = with_adapter(plan, arity, c);
        let (c2, rest) = with_adapters(plan, (arity + 1) as usize, total, c0);
        adapters_cover_every_arity(plan, (arity + 1) as usize, total, c0);
        assert(entries.view() =~= seq![fid] + rest.view());
        assert forall|i: int|
            0 <= i < c.pending_adapters.len() implies #[trigger] c1.pending_adapters[i]
            == c.pending_adapters[i] by {
            assert(c0.pending_adapters[i] == c.pending_adapters[i]);
        }
        assert forall|k: int| 0 <= k < total - arity implies {
            let spec = #[trigger] c1.pending_adapters[c.pending_adapters.len() + k];
            &&& spec.arity == arity + k
            &&& spec.adapter_fid == entries.view()[k]
            &&& spec.symbol == default_symbol(plan.symbol_prefix, (arity + k) as usize)
        } by {
            if k == 0 {
                assert(c0.pending_adapters[c.pending_adapters.len() as int] == adapter_spec(
                    plan,
                    fid,
                    arity,
                ));
            } else {
                let spec = c2.pending_adapters[c0.pending_adapters.len() + (k - 1)];
                assert(c0.pending_adapters.len() + (k - 1) == c.pending_adapters.len() + k);
            }
        }
    } else {
        reveal_with_fuel(List::view, 2);
        assert(entries.view() =~= seq![plan.real_fid]);
    }
}

/// Registering the adapters of a function a second time changes nothing.
pub proof fn registering_adapters_twice_changes_nothing(
    real_fid: FuncId,
    real_slot: usize,
    prefix: &Text,
    params: &List<TypedParam>,
    ret_type: &Type,
    span: Span,
    c: CState,
)
    ensures
        ({
            let once = register_default_adapters_spec(
                real_fid,
                real_slot,
                prefix,
                params,
                ret_type,
                span,
                c,
            );
            register_default_adapters_spec(
                real_fid,
                real_slot,
                prefix,
                params,
                ret_type,
                span,
                once,
            ) == once
        }),
{
}

/// Where a default cannot be a value of its parameter, no adapter is registered.
pub proof fn unfit_default_registers_nothing(
    real_fid: FuncId,
    real_slot: usize,
    prefix: &Text,
    params: &List<TypedParam>,
    ret_type: &Type,
    span: Span,
    c: CState,
)
    requires
        some_default_invalid(&drop_params(params, required_params(params))),
    ensures
        register_default_adapters_spec(real_fid, real_slot, prefix, params, ret_type, span, c) == c,
{
}

// Values in slots, and who owns them.

/// A value that is put into a slot stays as it is where the two types are held alike, and is
/// else a new temporary of the type of the slot.
pub proof fn slot_value_has_the_slot_type(t: Temp, value_ty: &Type, slot_ty: &Type, b: FState)
    ensures
        ({
            let (b1, r) = coerce_to_slot_type_spec(t, value_ty, slot_ty, b);
            let differs = type_repr_differs(value_ty, slot_ty) || scalar_numeric_repr_differs(
                value_ty,
                slot_ty,
            ) || int_width_repr_differs(value_ty, slot_ty) || flat_scalar_array_repr_differs(
                value_ty,
                slot_ty,
            );
            &&& !differs ==> b1 == b && r == t
            &&& differs && !b1.env.exhausted ==> {
                &&& b1.temp_ty(r) == Some(*slot_ty)
                &&& r.0 == b.temp_types.len()
                &&& b1.temp_types.len() == b.temp_types.len() + 1
            }
        }),
{
    reveal(coerce_to_slot_type_spec);
    reveal(FState::coerce);
    reveal(FState::alloc_temp);
    reveal(FState::emit);
}

/// A value that has been read is owned by the innermost scope, where it has references at
/// all; else reading it emits nothing.
pub proof fn values_read_are_owned(t: Temp, ty: &Type, b: FState)
    requires
        b.env.scopes.len() > 0,
    ensures
        ({
            let (b1, r) = own_for_read_spec(t, ty, b);
            &&& needs_owning(ty) ==> b1.is_owned_in_current_scope(r)
            &&& !needs_owning(ty) ==> b1 == b && r == t
        }),
{
    reveal(own_for_read_spec);
    reveal(FState::clone_box);
    reveal(FState::alloc_temp);
    reveal(FState::emit);
    let (b1, dst) = b.clone_box(t, ty);
    registered_reference_is_owned_by(b1, dst, *ty);
    registered_reference_is_owned_by(b.emit(Instruction::Retain { val: t, ty: *ty }), t, *ty);
}

/// As `registered_reference_is_owned`, for types with and without references.
proof fn registered_reference_is_owned_by(b: FState, t: Temp, ty: Type)
    requires
        b.env.scopes.len() > 0,
    ensures
        needs_owning(&ty) ==> b.register_owned(t, ty).is_owned_in_current_scope(t),
{
    if needs_owning(&ty) {
        registered_reference_is_owned(b, t, ty);
    }
}

/// The reference that a store takes over is owned by no scope: what the open scopes own is
/// what they owned before.
pub proof fn stores_register_nothing(t: Temp, value_ty: &Type, slot_ty: &Type, b: FState)
    ensures
        own_for_store_spec(t, slot_ty, b).0.env.scopes == b.env.scopes,
        coerce_and_own_store_spec(t, value_ty, slot_ty, b).0.env.scopes == b.env.scopes,
{
    reveal(own_for_store_spec);
    reveal(coerce_and_own_store_spec);
    reveal(coerce_to_slot_type_spec);
    reveal(FState::clone_box);
    reveal(FState::coerce);
    reveal(FState::alloc_temp);
    reveal(FState::emit);
}

/// All branches of an expression agree on whether their values hold references of their own:
/// they do exactly where the type of the expression has references. The value is among what
/// the scope of the branch must not give back.
pub proof fn branches_own_alike(raw: Temp, value_ty: &Type, result_type: &Type, b: FState)
    ensures
        ({
            let branch = coerce_if_branch_spec(raw, value_ty, result_type, b).1;
            &&& branch.owned == needs_owning(result_type)
            &&& has_temp(&branch.keep, branch.val)
        }),
{
    reveal(coerce_if_branch_spec);
    reveal_with_fuel(has_temp_spec, 3);
}

/// Only streams move to the function that they are passed to.
pub proof fn only_streams_move(arg_ty: &Type, t: Temp, b: FState)
    requires
        !type_is_streamish_ir(arg_ty),
    ensures
        move_streamish_arg_spec(arg_ty, t, b) == b,
{
    reveal(move_streamish_arg_spec);
}

/// A slot for records without named fields takes every open record as it is.
pub proof fn open_record_slot_takes_every_record(from: &Type, to: &Type)
    requires
        to matches Type::Object { fields, .. } && fields is Nil,
    ensures
        !anon_object_slot_repr_differs(from, to),
{
}

/// A function that is known only as a value returns a box, unless it returns nothing or its
/// caller forces a type; one that is known by name returns its own type.
pub proof fn function_values_return_boxes(ret_type: &Type)
    ensures
        !returns_nothing(ret_type) ==> is_union_ty(&effective_return(None, true, ret_type)),
        effective_return(None, false, ret_type) == *ret_type,
{
}

// Sum types.

/// The type is one of the list.
pub open spec fn is_member(members: &List<Type>, ty: Type) -> bool
    decreases members,
{
    match members {
        List::Nil => false,
        List::Cons(n) => n.head == ty || is_member(&n.tail, ty),
    }
}

/// The discriminant of a sum type tells its variants apart: every variant is a record whose
/// discriminant is fixed to a tag, and looking that tag up gives the fields of that variant.
pub proof fn variants_are_told_apart(ty: &Type, variant: Type)
    requires
        sum_type_eligible(ty),
        is_member(&ty->Union_0, variant),
    ensures
        ({
            let key = sum_type_discriminant_of(ty)->0;
            &&& variant_tag_spec(&variant, key@) is Some
            &&& sumnode_variant_by_disc_spec(ty, variant_tag_spec(&variant, key@)->0) == Some(
                variant->Object_fields,
            )
        }),
{
    match ty {
        Type::Union(variants) => match variants {
            List::Cons(n) => match &n.head {
                Type::Object { fields, .. } => {
                    first_key_tells_apart(fields, variants);
                    tag_picks_variant(variants, (sum_type_discriminant_of(ty)->0)@, variant);
                },
                _ => {},
            },
            List::Nil => {},
        },
        _ => {},
    }
}

/// The field that was chosen tells the variants apart.
proof fn first_key_tells_apart(fields: &List<Field>, variants: &List<Type>)
    requires
        first_key_spec(fields, variants) is Some,
    ensures
        key_tells_apart_spec(variants, (first_key_spec(fields, variants)->0)@),
    decreases fields,
{
    match fields {
        List::Nil => {},
        List::Cons(n) => if !key_tells_apart_spec(variants, n.head.name@) {
            first_key_tells_apart(&n.tail, variants);
        },
    }
}

/// Among variants that a field tells apart, the tag of one picks that one.
proof fn tag_picks_variant(variants: &List<Type>, key: Seq<char>, variant: Type)
    requires
        key_tells_apart_spec(variants, key),
        is_member(variants, variant),
    ensures
        variant_tag_spec(&variant, key) is Some,
        variant_with_tag_spec(variants, key, variant_tag_spec(&variant, key)->0) == Some(
            variant->Object_fields,
        ),
        !tag_unused_spec(variants, key, variant_tag_spec(&variant, key)->0),
    decreases variants,
{
    match variants {
        List::Nil => {},
        List::Cons(n) => if is_member(&n.tail, variant) {
            tag_picks_variant(&n.tail, key, variant);
        },
    }
}

// Calls of library functions.

/// A call of an imported function whose symbol is not one of the standard library is never
/// replaced: it stays a call, whatever its name and its arguments.
pub proof fn other_imports_stay_calls(l: Lower, sym: &String, args: &List<TypedExpr>, s: St)
    requires
        !begins_with(sym@, "std_"@),
    ensures
        imported_operation_spec(sym, args, s) is None,
        concrete_array_shortcircuit_intrinsic_name(sym, args) is None,
        try_lower_imported_loop_spec(l, sym, args, s) == (s, None::<Temp>),
{
    reveal(try_lower_imported_loop_spec);
    reveal_strlit("std_");
    reveal_strlit("std_iter_");
    reveal_strlit("std_iter_for");
    reveal_strlit("std_iter_some");
    reveal_strlit("std_iter_every");
    reveal_strlit("std_iter_find");
    reveal_strlit("std_iter_length");
    reveal_strlit("std_iter_while");
    reveal_strlit("std_array_length");
    reveal_strlit("std_array_push");
    reveal_strlit("std_object_entries");
    assert forall|p: Seq<char>|
        begins_with(p, "std_"@) && #[trigger] begins_with(sym@, p) implies begins_with(
        sym@,
        "std_"@,
    ) by {
        assert(sym@.take(4) =~= p.take(4));
    }
    assert("std_iter_"@.take(4) =~= "std_"@);
    assert("std_iter_for"@.take(4) =~= "std_"@);
    assert("std_iter_some"@.take(4) =~= "std_"@);
    assert("std_iter_every"@.take(4) =~= "std_"@);
    assert("std_iter_find"@.take(4) =~= "std_"@);
    assert("std_iter_length"@.take(4) =~= "std_"@);
    assert("std_iter_while"@.take(4) =~= "std_"@);
    assert("std_array_length"@.take(4) =~= "std_"@);
    assert("std_array_push"@.take(4) =~= "std_"@);
    assert("std_object_entries"@.take(4) =~= "std_"@);
}

/// Only a call on a stream becomes a stream operation.
pub proof fn stream_operations_need_streams(sym: &String, args: &List<TypedExpr>)
    ensures
        stream_combinator_intrinsic_name(sym, args) is Some ==> first_arg_type(args) matches Some(
            Type::Stream(_),
        ),
{
}

// Blocks.

/// A variable that a block neither binds nor assigns to is held, behind the block, by the
/// temporary that held it before.
pub proof fn block_leaves_other_variables_alone(
    l: Lower,
    stmts: &List<TypedStmt>,
    expr: &TypedExpr,
    s: St,
    slot: usize,
)
    requires
        s.b.slot(slot) is Some,
        !stmts_define_slot(stmts, slot),
        !block_assigns(stmts, expr, slot),
    ensures
        lower_block_spec(l, stmts, expr, s).0.b.slot(slot) == s.b.slot(slot),
{
    reveal(lower_block_spec);
    let outer = s.b.env.slots;
    let s1 = on_b(s, s.b.push_scope());
    let s2 = lower_stmts_spec(l, stmts, s1);
    let (s3, result) = low(l, expr, s2);
    let keep = kept_slot_temps_spec(&outer, stmts, expr, result, s3.b);
    let b = s3.b.pop_scope_releasing_keep_transfer(&keep);
    restored_slot(&outer, &outer, stmts, expr, b, slot);
}

/// The variable that is found in a list of outer ones is put back.
proof fn restored_slot(
    part: &List<Entry<Temp>>,
    all: &List<Entry<Temp>>,
    stmts: &List<TypedStmt>,
    expr: &TypedExpr,
    b: FState,
    slot: usize,
)
    requires
        find_spec(part, slot) is Some,
        find_spec(all, slot) is Some,
        !stmts_define_slot(stmts, slot),
        !block_assigns(stmts, expr, slot),
    ensures
        restore_slots_spec(part, all, stmts, expr, b).slot(slot) == find_spec(all, slot),
    decreases part,
{
    reveal_with_fuel(restore_slots_spec, 2);
    reveal(FState::set_slot);
    match part {
        List::Nil => {},
        List::Cons(n) => {
            slot_or_finds(all, slot, n.head.value);
            if n.head.slot != slot {
                restored_slot(&n.tail, all, stmts, expr, b, slot);
            }
        },
    }
}

/// Looking a variable up with a fallback finds it where it is there.
proof fn slot_or_finds(all: &List<Entry<Temp>>, slot: usize, other: Temp)
    requires
        find_spec(all, slot) is Some,
    ensures
        Some(slot_or(all, slot, other)) == find_spec(all, slot),
    decreases all,
{
    match all {
        List::Nil => {},
        List::Cons(n) => if n.head.slot != slot {
            slot_or_finds(&n.tail, slot, other);
        },
    }
}

// Variables assigned to inside branches.

/// Nothing that was recorded is forgotten.
pub open spec fn grows(a: BranchVars, b: BranchVars) -> bool {
    a.owning.subset_of(b.owning) && a.found.subset_of(b.found)
}

/// Going through an expression forgets neither a declaration nor an assignment that was
/// found before.
pub proof fn branch_vars_only_grow(e: &TypedExpr, in_branch: bool, v: BranchVars)
    ensures
        grows(v, branch_vars(e, in_branch, v)),
    decreases e,
{
    match e {
        TypedExpr::LocalSet { slot, value, .. } => {
            let v1 = if in_branch && v.owning.contains(*slot) {
                BranchVars { owning: v.owning, found: v.found.insert(*slot) }
            } else {
                v
            };
            branch_vars_only_grow(value, in_branch, v1);
        },
        TypedExpr::BinaryOp { left, right, .. } => {
            branch_vars_only_grow(left, in_branch, v);
            branch_vars_only_grow(right, in_branch, branch_vars(left, in_branch, v));
        },
        TypedExpr::UnaryOp { operand, .. } => branch_vars_only_grow(operand, in_branch, v),
        TypedExpr::Coerce { expr, .. } => branch_vars_only_grow(expr, in_branch, v),
        TypedExpr::Call { func, args, .. } => {
            branch_vars_only_grow(func, in_branch, v);
            list_only_grows(args, in_branch, branch_vars(func, in_branch, v));
        },
        TypedExpr::If { cond, then_br, else_br, .. } => {
            let v1 = branch_vars(cond, in_branch, v);
            let v2 = branch_vars(then_br, true, v1);
            branch_vars_only_grow(cond, in_branch, v);
            branch_vars_only_grow(then_br, true, v1);
            branch_vars_only_grow(else_br, true, v2);
        },
        TypedExpr::FromJson { value, .. } => branch_vars_only_grow(value, in_branch, v),
        TypedExpr::Match { scrutinee, arms, .. } => {
            branch_vars_only_grow(scrutinee, in_branch, v);
            arms_only_grow(arms, true, branch_vars(scrutinee, in_branch, v));
        },
        TypedExpr::Block { stmts, expr, .. } => {
            stmts_only_grow(stmts, in_branch, v);
            branch_vars_only_grow(expr, in_branch, branch_vars_stmts(stmts, in_branch, v));
        },
        TypedExpr::MakeObject { fields, spreads, computed_fields, .. } => {
            let v1 = branch_vars_fields(fields, in_branch, v);
            let v2 = branch_vars_list(spreads, in_branch, v1);
            fields_only_grow(fields, in_branch, v);
            list_only_grows(spreads, in_branch, v1);
            computed_only_grow(computed_fields, in_branch, v2);
        },
        TypedExpr::MakeArray { elements, .. } => list_only_grows(elements, in_branch, v),
        TypedExpr::Index { object, key, .. } => {
            branch_vars_only_grow(object, in_branch, v);
            branch_vars_only_grow(key, in_branch, branch_vars(object, in_branch, v));
        },
        TypedExpr::IndexSet { object, key, value, .. } => {
            let v1 = branch_vars(object, in_branch, v);
            let v2 = branch_vars(key, in_branch, v1);
            branch_vars_only_grow(object, in_branch, v);
            branch_vars_only_grow(key, in_branch, v1);
            branch_vars_only_grow(value, in_branch, v2);
        },
        TypedExpr::FieldGet { object, .. } => branch_vars_only_grow(object, in_branch, v),
        TypedExpr::StringInterp { parts, .. } => parts_only_grow(parts, in_branch, v),
        TypedExpr::Is { expr, .. } => branch_vars_only_grow(expr, in_branch, v),
        TypedExpr::Has { expr, .. } => branch_vars_only_grow(expr, in_branch, v),
        _ => {},
    }
}

/// As for one expression.
proof fn stmts_only_grow(items: &List<TypedStmt>, in_branch: bool, v: BranchVars)
    ensures
        grows(v, branch_vars_stmts(items, in_branch, v)),
    decreases items,
{
    match items {
        List::Nil => {},
        List::Cons(n) => {
            let v1 = branch_vars_stmt(&n.head, in_branch, v);
            stmt_only_grows(&n.head, in_branch, v);
            stmts_only_grow(&n.tail, in_branch, v1);
        },
    }
}

/// As for one expression.
proof fn stmt_only_grows(stmt: &TypedStmt, in_branch: bool, v: BranchVars)
    ensures
        grows(v, branch_vars_stmt(stmt, in_branch, v)),
    decreases stmt,
{
    match stmt {
        TypedStmt::Var { slot, ty, value, .. } => {
            let v1 = if needs_owning(ty) {
                BranchVars { owning: v.owning.insert(*slot), found: v.found }
            } else {
                v
            };
            branch_vars_only_grow(value, in_branch, v1);
        },
        TypedStmt::Val { value, .. } => branch_vars_only_grow(value, in_branch, v),
        TypedStmt::Destructure { value, .. } => branch_vars_only_grow(value, in_branch, v),
        TypedStmt::ArrayDestructure { value, .. } => branch_vars_only_grow(value, in_branch, v),
        TypedStmt::Expr(e) => branch_vars_only_grow(e, in_branch, v),
        _ => {},
    }
}

/// As for one expression.
proof fn list_only_grows(items: &List<TypedExpr>, in_branch: bool, v: BranchVars)
    ensures
        grows(v, branch_vars_list(items, in_branch, v)),
    decreases items,
{
    match items {
        List::Nil => {},
        List::Cons(n) => {
            branch_vars_only_grow(&n.head, in_branch, v);
            list_only_grows(&n.tail, in_branch, branch_vars(&n.head, in_branch, v));
        },
    }
}

/// As for one expression.
proof fn fields_only_grow(items: &List<FieldInit>, in_branch: bool, v: BranchVars)
    ensures
        grows(v, branch_vars_fields(items, in_branch, v)),
    decreases items,
{
    match items {
        List::Nil => {},
        List::Cons(n) => {
            branch_vars_only_grow(&n.head.value, in_branch, v);
            fields_only_grow(&n.tail, in_branch, branch_vars(&n.head.value, in_branch, v));
        },
    }
}

/// As for one expression.
proof fn computed_only_grow(items: &List<ComputedField>, in_branch: bool, v: BranchVars)
    ensures
        grows(v, branch_vars_computed(items, in_branch, v)),
    decreases items,
{
    match items {
        List::Nil => {},
        List::Cons(n) => {
            let v1 = branch_vars(&n.head.key, in_branch, v);
            let v2 = branch_vars(&n.head.value, in_branch, v1);
            branch_vars_only_grow(&n.head.key, in_branch, v);
            branch_vars_only_grow(&n.head.value, in_branch, v1);
            computed_only_grow(&n.tail, in_branch, v2);
        },
    }
}

/// As for one expression.
proof fn parts_only_grow(items: &List<TypedStringPart>, in_branch: bool, v: BranchVars)
    ensures
        grows(v, branch_vars_parts(items, in_branch, v)),
    decreases items,
{
    match items {
        List::Nil => {},
        List::Cons(n) => match n.head {
            TypedStringPart::Expr(e) => {
                branch_vars_only_grow(&e, in_branch, v);
                parts_only_grow(&n.tail, in_branch, branch_vars(&e, in_branch, v));
            },
            TypedStringPart::Literal(_) => parts_only_grow(&n.tail, in_branch, v),
        },
    }
}

/// As for one expression.
proof fn arms_only_grow(items: &List<MatchArm>, in_branch: bool, v: BranchVars)
    ensures
        grows(v, branch_vars_arms(items, in_branch, v)),
    decreases items,
{
    match items {
        List::Nil => {},
        List::Cons(n) => {
            let v1 = match n.head.guard {
                Some(g) => branch_vars(&g, in_branch, v),
                None => v,
            };
            let v2 = branch_vars(&n.head.body, in_branch, v1);
            match n.head.guard {
                Some(g) => branch_vars_only_grow(&g, in_branch, v),
                None => {},
            }
            branch_vars_only_grow(&n.head.body, in_branch, v1);
            arms_only_grow(&n.tail, in_branch, v2);
        },
    }
}

/// A function inside adds nothing: its variables are its own.
pub proof fn functions_inside_add_no_variables(e: &TypedExpr, in_branch: bool, v: BranchVars)
    requires
        e is Function,
    ensures
        branch_vars(e, in_branch, v) == v,
{
}

/// Scanning a body finds every variable of it that a function inside may assign to, and forgets
/// none that was found before; it leaves everything else of the function under construction
/// alone.
pub proof fn scanning_a_body_forgets_nothing(b: FState, body: &TypedExpr, slot: usize)
    ensures
        b.is_cell_var(slot) || captured_mutably(body, slot) ==> b.scan_body(body).is_cell_var(slot),
        b.scan_body(body).blocks == b.blocks,
        b.scan_body(body).temp_types == b.temp_types,
        b.scan_body(body).env == b.env,
{
    reveal(FState::scan_body);
    branch_vars_only_grow(body, false, BranchVars { owning: Set::empty(), found: b.cell_vars });
}

} // verus!
