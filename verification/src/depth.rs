//! The limit on nesting: where it is not reached, it does not matter what it is.
//!
//! Each lemma says of one function of the library that it carries on: where two ways of
//! lowering expressions agree as long as the first does not reach its limit, so do two runs
//! of the function with them.

use crate::adapter::{
    Replacement, lower_adapter_spec, lower_replacements_spec, lower_returned_value_spec,
    replace_function_spec, replace_value_spec,
};
use crate::ast::{
    BinOp, Capture, ComputedField, FieldInit, MatchArm, NamedDef, TypedExpr, TypedParam,
    TypedPattern, TypedStmt, TypedStringPart, UnaryOp,
};
use crate::builder::{Entry, Owned};
use crate::call::{
    LoweredArgs, arg_is_fresh_spec, arg_is_materialized, is_front, later_position, lower_args_spec,
    lower_call_arg_spec, lower_call_arg_tracked_spec, lower_call_spec, lower_global_call_spec,
    lower_import_call_spec, lower_indirect_call_spec, lower_intrinsic_call_spec, lower_op_spec,
    project_arg_spec, try_lower_imported_loop_spec, try_lower_loop_builtin_spec,
    try_lower_named_call_spec, try_lower_sealed_literal_into_named_spec, type_or_null,
};
use crate::coerce::{hand_over_closure_spec, retain_call_arg_spec};
use crate::collect::{
    SortArrays, emit_merge_spec, first_type, inline_reducer_packed_spec, later_types,
    lower_filter_spec, lower_flat_sort_spec, lower_flatmap_spec, lower_flatmap_terminal_spec,
    lower_fused_reduce_flatmap_spec, lower_fused_reduce_spec, lower_map_spec, lower_reduce_spec,
    lower_sort_spec, reduce_closure_spec, reduce_direct_spec, reduce_heap_inline_spec,
    reduce_scalar_inline_spec,
};
use crate::combinator::{
    Question, lower_entries_inline_spec, lower_every_spec, lower_find_spec, lower_for_spec,
    lower_iter_spec, lower_quantified_spec, lower_range_for_spec, lower_range_spec, lower_some_spec,
    lower_while_spec, lower_zero_arg_while_spec,
};
use crate::control::{
    end_list, lower_arm_spec, lower_arm_test_spec, lower_arms_spec, lower_block_spec,
    lower_branch_spec, lower_cond_as_bool_spec, lower_has_spec, lower_if_spec, lower_is_spec,
    lower_match_spec, lower_scoped_cond_spec, lower_short_circuit_spec, lower_stmt_spec,
    lower_stmts_spec, store_global_spec,
};
use crate::ctx::{AdapterSpec, CState, ImportFn, Lower, St, low, on, on_b};
use crate::expr::{
    ArrayElems, BoxedOperand, at_span, create_level_spec, get_or_create_level_spec, join_shells,
    lower_assignment_spec, lower_at, lower_binary_spec, lower_coerce_spec, lower_computed_spec,
    lower_element_read_spec, lower_elements_spec, lower_expr_inner_spec, lower_field_get_spec,
    lower_from_json_spec, lower_index_get_or_create_spec, lower_index_set_spec, lower_index_spec,
    lower_local_get_spec, lower_local_set_spec, lower_make_array_spec, lower_make_object_spec,
    lower_open_fields_spec, lower_sealed_field_spec, lower_spreads_spec, lower_unary_spec,
    open_record_spec, store_element_spec, try_lower_fixed_field_spec, try_lower_node_field_spec,
    vivifiable_level_map_ty,
};
use crate::field_table::recursive_children;
use crate::func::{
    CaptureTemps, StringParts, capture_base_spec, lower_body_value_spec, lower_callback_arg_spec,
    lower_capture_spec, lower_captures_spec, lower_function_body_spec, lower_function_expr_spec,
    lower_function_expr_with_id_spec, lower_string_interp_spec, lower_string_parts_spec,
};
use crate::fuse::{
    FuseOut, Terminal, apply_fuse_stages_spec, carried_index_spec, emit_flatmap_fused_loop_spec,
    emit_fused_loop_spec, fm_apply_spec, fm_filter_spec, fm_next_index_spec, fm_process_spec,
    fuse_filter_spec, fuse_map_spec, later_counters, mapped_type, run_flat_terminal_spec,
    run_fused_terminal_spec, terminal_takes_index,
};
use crate::ir::{
    BlockId, Const, FlatElemKind, FuncId, Instruction, Intrinsic, KeyedTemp, NamedTemp, Temp,
    Terminator,
};
use crate::list::{List, one, prepend};
use crate::literal::{
    SumFields, disc_is_fixed, first_flag, later_flags, literal_variant, lower_base_spec,
    lower_child_spec, lower_container_base_borrowed_spec, lower_field_inits_spec, lower_place_spec,
    lower_sum_field_spec, lower_value_into_slot_spec, sum_fields_spec, transfer_children_spec,
    try_lower_boxed_array_field_spec, try_lower_elem_field_spec, try_lower_packed_elem_field_spec,
    try_lower_sealed_array_field_spec, try_lower_sealed_literal_spec, try_lower_sum_literal_spec,
};
use crate::loops::{
    ElemAccess, LoopFlow, TypedTemp, begin_combinator_loop_spec, end_combinator_loop_spec,
    inline_lambda_body_packed_view_spec, inline_lambda_body_spec,
    inline_lambda_body_tracking_elem_boxes_spec, lower_callback_in_safe_ctx_spec, lower_exprs_spec,
};
use crate::recognize::{FnTarget, FuseStage, Lambda, combinator_read_elem_ty_spec};
use crate::repr::{
    arg_box_is_caller_owned_scalar_shell, arg_box_is_caller_owned_shell, sum_recursive_self_name,
    sum_type_discriminant_of,
};
use crate::text::Text;
use crate::types::{Type, dup_str};
use vstd::prelude::*;

verus! {

/// The limit on nesting has been reached.
pub open spec fn deep(s: St) -> bool {
    s.c.env.too_deep
}

/// Once the limit has been reached under `l1`, that stays recorded; where it has not been
/// reached, `l2` does the same as `l1`.
pub open spec fn follows(l1: Lower, l2: Lower) -> bool {
    forall|e: TypedExpr, s: St|
        carries_value(s, #[trigger] low_of(l1, e, s), low_of(l2, e, s))
}

/// `l` applied to an expression.
pub open spec fn low_of(l: Lower, e: TypedExpr, s: St) -> (St, Temp) {
    l(e, s)
}

/// From `s` a first run comes to `r1` and a second one to `r2`. The first one does not forget
/// that the limit has been reached; where it does not reach it, the two agree.
pub open spec fn carries_value<T>(s: St, r1: (St, T), r2: (St, T)) -> bool {
    (deep(s) ==> deep(r1.0)) && (!deep(r1.0) ==> r2 == r1)
}

/// As `carries_value`, of runs without a value.
pub open spec fn carries(s: St, r1: St, r2: St) -> bool {
    (deep(s) ==> deep(r1)) && (!deep(r1) ==> r2 == r1)
}

/// As `carries_value`, of runs that change only the context.
pub open spec fn carries_ctx(c: CState, r1: CState, r2: CState) -> bool {
    (c.env.too_deep ==> r1.env.too_deep) && (!r1.env.too_deep ==> r2 == r1)
}

/// Lowering one expression carries on.
pub broadcast proof fn low_carries(l1: Lower, l2: Lower, e: &TypedExpr, s: St)
    requires
        #[trigger] follows(l1, l2),
    ensures
        carries_value(s, #[trigger] low(l1, e, s), low(l2, e, s)),
{
    assert(low_of(l1, *e, s) == low(l1, e, s));
    assert(low_of(l2, *e, s) == low(l2, e, s));
}

/// `lower_field_inits` carries on, for every state.
proof fn lower_field_inits_carries_all(l1: Lower, l2: Lower, fields: &List<FieldInit>)
    requires
        follows(l1, l2),
    ensures
        forall|s: St|
            carries_value(
                s,
                #[trigger] lower_field_inits_spec(l1, fields, s),
                lower_field_inits_spec(l2, fields, s),
            ),
    decreases fields,
{
    broadcast use low_carries;

    reveal_with_fuel(lower_field_inits_spec, 2);
    match fields {
        List::Nil => {},
        List::Cons(n) => {
            lower_field_inits_carries_all(l1, l2, &n.tail);
        },
    }
    assert forall|s: St|
        carries_value(
            s,
            #[trigger] lower_field_inits_spec(l1, fields, s),
            lower_field_inits_spec(l2, fields, s),
        ) by {
        assert(lower_field_inits_spec(l1, fields, s)
            == (match fields {
        List::Nil => (s, List::Nil),
        List::Cons(n) => {
            let (s, temp) = low(l1, &n.head.value, s);
            let (s, rest) = lower_field_inits_spec(l1, &n.tail, s);
            (s, prepend(NamedTemp { name: dup_str(&n.head.name), temp }, rest))
        },
    }));
    }
}

/// `lower_field_inits` carries on.
pub broadcast proof fn lower_field_inits_carries(
    l1: Lower,
    l2: Lower,
    fields: &List<FieldInit>,
    s: St,
)
    requires
        #[trigger] follows(l1, l2),
    ensures
        carries_value(
            s,
            #[trigger] lower_field_inits_spec(l1, fields, s),
            lower_field_inits_spec(l2, fields, s),
        ),
{
    lower_field_inits_carries_all(l1, l2, fields);
}

/// `try_lower_sealed_literal` carries on.
pub broadcast proof fn try_lower_sealed_literal_carries(
    l1: Lower,
    l2: Lower,
    value: &TypedExpr,
    slot_ty: &Type,
    s: St,
)
    requires
        #[trigger] follows(l1, l2),
    ensures
        carries_value(
            s,
            #[trigger] try_lower_sealed_literal_spec(l1, value, slot_ty, s),
            try_lower_sealed_literal_spec(l2, value, slot_ty, s),
        ),
{
    broadcast use lower_field_inits_carries;

    reveal(try_lower_sealed_literal_spec);
}

/// `lower_child` carries on.
pub broadcast proof fn lower_child_carries(
    l1: Lower,
    l2: Lower,
    node: Option<Temp>,
    v: &TypedExpr,
    slot_ty: &Type,
    s: St,
)
    requires
        #[trigger] follows(l1, l2),
    ensures
        carries_value(
            s,
            #[trigger] lower_child_spec(l1, node, v, slot_ty, s),
            lower_child_spec(l2, node, v, slot_ty, s),
        ),
{
    broadcast use {low_carries, try_lower_sealed_literal_carries};

    reveal(lower_child_spec);
}

/// `lower_sum_field` carries on.
pub broadcast proof fn lower_sum_field_carries(
    l1: Lower,
    l2: Lower,
    child: Option<Temp>,
    field: &FieldInit,
    disc: &String,
    s: St,
)
    requires
        #[trigger] follows(l1, l2),
    ensures
        carries_value(
            s,
            #[trigger] lower_sum_field_spec(l1, child, field, disc, s),
            lower_sum_field_spec(l2, child, field, disc, s),
        ),
{
    broadcast use low_carries;

    reveal(lower_sum_field_spec);
}

/// `sum_fields` carries on, for every state.
proof fn sum_fields_carries_all(l1: Lower, l2: Lower, fields: &List<FieldInit>)
    requires
        follows(l1, l2),
    ensures
        forall|flags: &List<bool>, disc: &String, slot_ty: &Type, s: St|
            carries_value(
                s,
                #[trigger] sum_fields_spec(l1, fields, flags, disc, slot_ty, s),
                sum_fields_spec(l2, fields, flags, disc, slot_ty, s),
            ),
    decreases fields,
{
    broadcast use {lower_child_carries, lower_sum_field_carries};

    reveal_with_fuel(sum_fields_spec, 2);
    match fields {
        List::Nil => {},
        List::Cons(n) => {
            try_lower_sum_literal_carries_all(l1, l2, &n.head.value);
            sum_fields_carries_all(l1, l2, &n.tail);
        },
    }
    assert forall|flags: &List<bool>, disc: &String, slot_ty: &Type, s: St|
        carries_value(
            s,
            #[trigger] sum_fields_spec(l1, fields, flags, disc, slot_ty, s),
            sum_fields_spec(l2, fields, flags, disc, slot_ty, s),
        ) by {
        assert(sum_fields_spec(l1, fields, flags, disc, slot_ty, s)
            == (match fields {
        List::Nil => (s, SumFields { temps: List::Nil, children: List::Nil }),
        List::Cons(n) => {
            let (s, child) = if first_flag(flags) {
                let (s, node) = try_lower_sum_literal_spec(l1, &n.head.value, slot_ty, s);
                let (s, c) = lower_child_spec(l1, node, &n.head.value, slot_ty, s);
                (s, Some(c))
            } else {
                (s, None)
            };
            let known = match &child {
                Some(c) => Some(c.slot_temp),
                None => None,
            };
            let (s, temp) = lower_sum_field_spec(l1, known, &n.head, disc, s);
            let (s, rest) = sum_fields_spec(l1, &n.tail, &later_flags(flags), disc, slot_ty, s);
            (
                s,
                SumFields {
                    temps: prepend(NamedTemp { name: dup_str(&n.head.name), temp }, rest.temps),
                    children: prepend(child, rest.children),
                },
            )
        },
    }));
    }
}

/// `try_lower_sum_literal` carries on, for every state.
proof fn try_lower_sum_literal_carries_all(l1: Lower, l2: Lower, value: &TypedExpr)
    requires
        follows(l1, l2),
    ensures
        forall|slot_ty: &Type, s: St|
            carries_value(
                s,
                #[trigger] try_lower_sum_literal_spec(l1, value, slot_ty, s),
                try_lower_sum_literal_spec(l2, value, slot_ty, s),
            ),
    decreases value,
{
    reveal_with_fuel(try_lower_sum_literal_spec, 2);
    match value {
        TypedExpr::MakeObject { fields, .. } => {
            sum_fields_carries_all(l1, l2, fields);
        },
        _ => {},
    }
    assert forall|slot_ty: &Type, s: St|
        carries_value(
            s,
            #[trigger] try_lower_sum_literal_spec(l1, value, slot_ty, s),
            try_lower_sum_literal_spec(l2, value, slot_ty, s),
        ) by {
        assert(try_lower_sum_literal_spec(l1, value, slot_ty, s)
            == (match (sum_type_discriminant_of(slot_ty), value) {
        (Some(disc), TypedExpr::MakeObject { fields, spreads, .. }) => {
            if !spreads.is_empty() || !disc_is_fixed(fields, &disc) {
                (s, None)
            } else {
                let flags = recursive_children(
                    fields,
                    &literal_variant(fields, &disc, slot_ty),
                    &sum_recursive_self_name(slot_ty),
                );
                let (s, lowered) = sum_fields_spec(l1, fields, &flags, &disc, slot_ty, s);
                let (s, dst) = on(s, s.b.alloc_temp(slot_ty.dup()));
                let s = on_b(
                    s,
                    s.b.emit(
                        Instruction::MakeObject {
                            dst,
                            fields: lowered.temps,
                            spreads: List::Nil,
                            computed_fields: List::Nil,
                            ty: slot_ty.dup(),
                            stack: false,
                        },
                    ),
                );
                let s = on_b(s, transfer_children_spec(&lowered.children, fields, s.b));
                let s = on_b(s, s.b.register_owned(dst, slot_ty.dup()));
                (s, Some(dst))
            }
        },
        _ => (s, None),
    }));
    }
}

/// `try_lower_sum_literal` carries on.
pub broadcast proof fn try_lower_sum_literal_carries(
    l1: Lower,
    l2: Lower,
    value: &TypedExpr,
    slot_ty: &Type,
    s: St,
)
    requires
        #[trigger] follows(l1, l2),
    ensures
        carries_value(
            s,
            #[trigger] try_lower_sum_literal_spec(l1, value, slot_ty, s),
            try_lower_sum_literal_spec(l2, value, slot_ty, s),
        ),
{
    try_lower_sum_literal_carries_all(l1, l2, value);
}

/// `capture_base` carries on.
pub broadcast proof fn capture_base_carries(l1: Lower, l2: Lower, cap: &Capture, s: St)
    requires
        #[trigger] follows(l1, l2),
    ensures
        carries_value(s, #[trigger] capture_base_spec(l1, cap, s), capture_base_spec(l2, cap, s)),
{
    reveal(capture_base_spec);
}

/// `lower_capture` carries on.
pub broadcast proof fn lower_capture_carries(l1: Lower, l2: Lower, cap: &Capture, s: St)
    requires
        #[trigger] follows(l1, l2),
    ensures
        carries_value(s, #[trigger] lower_capture_spec(l1, cap, s), lower_capture_spec(l2, cap, s)),
{
    broadcast use capture_base_carries;

    reveal(lower_capture_spec);
}

/// `lower_captures` carries on, for every state.
proof fn lower_captures_carries_all(l1: Lower, l2: Lower, captures: &List<Capture>)
    requires
        follows(l1, l2),
    ensures
        forall|s: St|
            carries_value(
                s,
                #[trigger] lower_captures_spec(l1, captures, s),
                lower_captures_spec(l2, captures, s),
            ),
    decreases captures,
{
    broadcast use lower_capture_carries;

    reveal_with_fuel(lower_captures_spec, 2);
    match captures {
        List::Nil => {},
        List::Cons(n) => {
            lower_captures_carries_all(l1, l2, &n.tail);
        },
    }
    assert forall|s: St|
        carries_value(
            s,
            #[trigger] lower_captures_spec(l1, captures, s),
            lower_captures_spec(l2, captures, s),
        ) by {
        assert(lower_captures_spec(l1, captures, s)
            == (match captures {
        List::Nil => (s, CaptureTemps { temps: List::Nil, kinds: List::Nil }),
        List::Cons(n) => {
            let (s, c) = lower_capture_spec(l1, &n.head, s);
            let (s, rest) = lower_captures_spec(l1, &n.tail, s);
            (
                s,
                CaptureTemps {
                    temps: prepend(c.temp, rest.temps),
                    kinds: prepend(c.kind, rest.kinds),
                },
            )
        },
    }));
    }
}

/// `lower_captures` carries on.
pub broadcast proof fn lower_captures_carries(l1: Lower, l2: Lower, captures: &List<Capture>, s: St)
    requires
        #[trigger] follows(l1, l2),
    ensures
        carries_value(
            s,
            #[trigger] lower_captures_spec(l1, captures, s),
            lower_captures_spec(l2, captures, s),
        ),
{
    lower_captures_carries_all(l1, l2, captures);
}

/// `lower_body_value` carries on.
pub broadcast proof fn lower_body_value_carries(
    l1: Lower,
    l2: Lower,
    body: &TypedExpr,
    effective_ret: &Type,
    s: St,
)
    requires
        #[trigger] follows(l1, l2),
    ensures
        carries_value(
            s,
            #[trigger] lower_body_value_spec(l1, body, effective_ret, s),
            lower_body_value_spec(l2, body, effective_ret, s),
        ),
{
    broadcast use {low_carries, try_lower_sealed_literal_carries, try_lower_sum_literal_carries};

    reveal(lower_body_value_spec);
}

/// `lower_function_body` carries on.
pub broadcast proof fn lower_function_body_carries(
    l1: Lower,
    l2: Lower,
    params: &List<TypedParam>,
    body: &TypedExpr,
    effective_ret: &Type,
    void_ret: bool,
    captures: &List<Capture>,
    s: St,
)
    requires
        #[trigger] follows(l1, l2),
    ensures
        carries_value(
            s,
            #[trigger] lower_function_body_spec(
                l1,
                params,
                body,
                effective_ret,
                void_ret,
                captures,
                s,
            ),
            lower_function_body_spec(l2, params, body, effective_ret, void_ret, captures, s),
        ),
{
    broadcast use lower_body_value_carries;

    reveal(lower_function_body_spec);
}

/// `lower_function_expr_with_id` carries on.
pub broadcast proof fn lower_function_expr_with_id_carries(
    l1: Lower,
    l2: Lower,
    forced_fid: Option<FuncId>,
    forced_ret: Option<&Type>,
    name: Option<Text>,
    params: &List<TypedParam>,
    body: &TypedExpr,
    ret_type: &Type,
    captures: &List<Capture>,
    s: St,
)
    requires
        #[trigger] follows(l1, l2),
    ensures
        carries_value(
            s,
            #[trigger] lower_function_expr_with_id_spec(
                l1,
                forced_fid,
                forced_ret,
                name,
                params,
                body,
                ret_type,
                captures,
                s,
            ),
            lower_function_expr_with_id_spec(
                l2,
                forced_fid,
                forced_ret,
                name,
                params,
                body,
                ret_type,
                captures,
                s,
            ),
        ),
{
    broadcast use {lower_captures_carries, lower_function_body_carries};

    reveal(lower_function_expr_with_id_spec);
}

/// `lower_adapter` carries on.
pub broadcast proof fn lower_adapter_carries(l1: Lower, l2: Lower, spec: &AdapterSpec, c: CState)
    requires
        #[trigger] follows(l1, l2),
    ensures
        carries_ctx(c, #[trigger] lower_adapter_spec(l1, spec, c), lower_adapter_spec(l2, spec, c)),
{
    broadcast use lower_function_expr_with_id_carries;

}

/// `replace_function` carries on.
pub broadcast proof fn replace_function_carries(l1: Lower, l2: Lower, r: &Replacement, c: CState)
    requires
        #[trigger] follows(l1, l2),
    ensures
        carries_ctx(c, #[trigger] replace_function_spec(l1, r, c), replace_function_spec(l2, r, c)),
{
    broadcast use lower_function_expr_with_id_carries;

}

/// `lower_returned_value` carries on.
pub broadcast proof fn lower_returned_value_carries(
    l1: Lower,
    l2: Lower,
    value: &TypedExpr,
    ty: &Type,
    s: St,
)
    requires
        #[trigger] follows(l1, l2),
    ensures
        carries(
            s,
            #[trigger] lower_returned_value_spec(l1, value, ty, s),
            lower_returned_value_spec(l2, value, ty, s),
        ),
{
    broadcast use low_carries;

    reveal(lower_returned_value_spec);
}

/// `replace_value` carries on.
pub broadcast proof fn replace_value_carries(l1: Lower, l2: Lower, r: &Replacement, c: CState)
    requires
        #[trigger] follows(l1, l2),
    ensures
        carries_ctx(c, #[trigger] replace_value_spec(l1, r, c), replace_value_spec(l2, r, c)),
{
    broadcast use lower_returned_value_carries;

}

/// `lower_replacements` carries on, for every state.
proof fn lower_replacements_carries_all(l1: Lower, l2: Lower, rs: &List<Replacement>)
    requires
        follows(l1, l2),
    ensures
        forall|c: CState|
            carries_ctx(
                c,
                #[trigger] lower_replacements_spec(l1, rs, c),
                lower_replacements_spec(l2, rs, c),
            ),
    decreases rs,
{
    broadcast use {replace_function_carries, replace_value_carries};

    match rs {
        List::Nil => {},
        List::Cons(n) => {
            lower_replacements_carries_all(l1, l2, &n.tail);
        },
    }
    assert forall|c: CState|
        carries_ctx(
            c,
            #[trigger] lower_replacements_spec(l1, rs, c),
            lower_replacements_spec(l2, rs, c),
        ) by {
        assert(lower_replacements_spec(l1, rs, c)
            == (match rs {
        List::Nil => c,
        List::Cons(n) => {
            let c = if n.head.is_function {
                replace_function_spec(l1, &n.head, c)
            } else {
                replace_value_spec(l1, &n.head, c)
            };
            lower_replacements_spec(l1, &n.tail, c)
        },
    }));
    }
}

/// `lower_replacements` carries on.
pub broadcast proof fn lower_replacements_carries(
    l1: Lower,
    l2: Lower,
    rs: &List<Replacement>,
    c: CState,
)
    requires
        #[trigger] follows(l1, l2),
    ensures
        carries_ctx(
            c,
            #[trigger] lower_replacements_spec(l1, rs, c),
            lower_replacements_spec(l2, rs, c),
        ),
{
    lower_replacements_carries_all(l1, l2, rs);
}

/// `lower_callback_arg` carries on.
pub broadcast proof fn lower_callback_arg_carries(
    l1: Lower,
    l2: Lower,
    forced_ret: &Type,
    name: &Option<String>,
    params: &List<TypedParam>,
    body: &TypedExpr,
    ret_type: &Type,
    captures: &List<Capture>,
    s: St,
)
    requires
        #[trigger] follows(l1, l2),
    ensures
        carries_value(
            s,
            #[trigger] lower_callback_arg_spec(
                l1,
                forced_ret,
                name,
                params,
                body,
                ret_type,
                captures,
                s,
            ),
            lower_callback_arg_spec(l2, forced_ret, name, params, body, ret_type, captures, s),
        ),
{
    broadcast use lower_function_expr_with_id_carries;

    reveal(lower_callback_arg_spec);
}

/// `lower_call_arg` carries on.
pub broadcast proof fn lower_call_arg_carries(
    l1: Lower,
    l2: Lower,
    a: &TypedExpr,
    param_ty: Option<&Type>,
    s: St,
)
    requires
        #[trigger] follows(l1, l2),
    ensures
        carries_value(
            s,
            #[trigger] lower_call_arg_spec(l1, a, param_ty, s),
            lower_call_arg_spec(l2, a, param_ty, s),
        ),
{
    broadcast use {low_carries, lower_callback_arg_carries, try_lower_sealed_literal_carries};

    reveal(lower_call_arg_spec);
}

/// `try_lower_sealed_literal_into_named` carries on.
pub broadcast proof fn try_lower_sealed_literal_into_named_carries(
    l1: Lower,
    l2: Lower,
    a: &TypedExpr,
    param_ty: Option<&Type>,
    s: St,
)
    requires
        #[trigger] follows(l1, l2),
    ensures
        carries_value(
            s,
            #[trigger] try_lower_sealed_literal_into_named_spec(l1, a, param_ty, s),
            try_lower_sealed_literal_into_named_spec(l2, a, param_ty, s),
        ),
{
    broadcast use try_lower_sealed_literal_carries;

    reveal(try_lower_sealed_literal_into_named_spec);
}

/// `lower_call_arg_tracked` carries on.
pub broadcast proof fn lower_call_arg_tracked_carries(
    l1: Lower,
    l2: Lower,
    a: &TypedExpr,
    param_ty: Option<&Type>,
    is_callback: bool,
    s: St,
)
    requires
        #[trigger] follows(l1, l2),
    ensures
        carries_value(
            s,
            #[trigger] lower_call_arg_tracked_spec(l1, a, param_ty, is_callback, s),
            lower_call_arg_tracked_spec(l2, a, param_ty, is_callback, s),
        ),
{
    broadcast use {
        low_carries, lower_call_arg_carries, try_lower_sealed_literal_into_named_carries,
    };

    reveal(lower_call_arg_tracked_spec);
}

/// `lower_args` carries on, for every state.
proof fn lower_args_carries_all(l1: Lower, l2: Lower, args: &List<TypedExpr>)
    requires
        follows(l1, l2),
    ensures
        forall|param_tys: &List<Type>, cb: Option<usize>, project: bool, s: St|
            carries_value(
                s,
                #[trigger] lower_args_spec(l1, args, param_tys, cb, project, s),
                lower_args_spec(l2, args, param_tys, cb, project, s),
            ),
    decreases args,
{
    broadcast use lower_call_arg_tracked_carries;

    reveal_with_fuel(lower_args_spec, 2);
    match args {
        List::Nil => {},
        List::Cons(n) => {
            lower_args_carries_all(l1, l2, &n.tail);
        },
    }
    assert forall|param_tys: &List<Type>, cb: Option<usize>, project: bool, s: St|
        carries_value(
            s,
            #[trigger] lower_args_spec(l1, args, param_tys, cb, project, s),
            lower_args_spec(l2, args, param_tys, cb, project, s),
        ) by {
        assert(lower_args_spec(l1, args, param_tys, cb, project, s)
            == (match args {
        List::Nil => (s, LoweredArgs { args: List::Nil, shells: List::Nil, releases: List::Nil }),
        List::Cons(n) => {
            let a = &n.head;
            let param_ty = first_type(param_tys);
            let (s, lowered_arg) = lower_call_arg_tracked_spec(l1, a, param_ty, is_front(cb), s);
            let arg = lowered_arg.temp;
            let fresh = arg_is_fresh_spec(a, arg, param_ty, s.b);
            let s = on_b(s, retain_call_arg_spec(arg, &a.ty(), fresh, s.b));
            let s = on_b(s, hand_over_closure_spec(arg, &a.ty(), fresh, s.b));
            let (s, passed) = if project {
                on(s, project_arg_spec(arg, &a.ty(), param_ty, s.b))
            } else {
                (s, arg)
            };
            let (s, rest) = lower_args_spec(
                l1,
                &n.tail,
                &later_types(param_tys),
                later_position(cb),
                project,
                s,
            );
            let args_out = prepend(passed, rest.args);
            (s, if arg_is_materialized(&a.ty(), param_ty) {
                LoweredArgs {
                    args: args_out,
                    shells: rest.shells,
                    releases: prepend(
                        Owned { temp: arg, ty: type_or_null(param_ty) },
                        rest.releases,
                    ),
                }
            } else if arg_box_is_caller_owned_shell(&a.ty(), param_ty)
                || arg_box_is_caller_owned_scalar_shell(&a.ty(), param_ty) {
                LoweredArgs {
                    args: args_out,
                    shells: prepend(arg, rest.shells),
                    releases: rest.releases,
                }
            } else {
                LoweredArgs { args: args_out, shells: rest.shells, releases: rest.releases }
            })
        },
    }));
    }
}

/// `lower_args` carries on.
pub broadcast proof fn lower_args_carries(
    l1: Lower,
    l2: Lower,
    args: &List<TypedExpr>,
    param_tys: &List<Type>,
    cb: Option<usize>,
    project: bool,
    s: St,
)
    requires
        #[trigger] follows(l1, l2),
    ensures
        carries_value(
            s,
            #[trigger] lower_args_spec(l1, args, param_tys, cb, project, s),
            lower_args_spec(l2, args, param_tys, cb, project, s),
        ),
{
    lower_args_carries_all(l1, l2, args);
}

/// `inline_lambda_body_tracking_elem_boxes` carries on.
pub broadcast proof fn inline_lambda_body_tracking_elem_boxes_carries(
    l1: Lower,
    l2: Lower,
    lam: &Lambda,
    args: &List<TypedTemp>,
    s: St,
)
    requires
        #[trigger] follows(l1, l2),
    ensures
        carries_value(
            s,
            #[trigger] inline_lambda_body_tracking_elem_boxes_spec(l1, lam, args, s),
            inline_lambda_body_tracking_elem_boxes_spec(l2, lam, args, s),
        ),
{
    broadcast use low_carries;

    reveal(inline_lambda_body_tracking_elem_boxes_spec);
}

/// `inline_lambda_body` carries on.
pub broadcast proof fn inline_lambda_body_carries(
    l1: Lower,
    l2: Lower,
    lam: &Lambda,
    args: &List<TypedTemp>,
    s: St,
)
    requires
        #[trigger] follows(l1, l2),
    ensures
        carries_value(
            s,
            #[trigger] inline_lambda_body_spec(l1, lam, args, s),
            inline_lambda_body_spec(l2, lam, args, s),
        ),
{
    broadcast use inline_lambda_body_tracking_elem_boxes_carries;

    reveal(inline_lambda_body_spec);
}

/// `lower_zero_arg_while` carries on.
pub broadcast proof fn lower_zero_arg_while_carries(
    l1: Lower,
    l2: Lower,
    callback: &TypedExpr,
    s: St,
)
    requires
        #[trigger] follows(l1, l2),
    ensures
        carries_value(
            s,
            #[trigger] lower_zero_arg_while_spec(l1, callback, s),
            lower_zero_arg_while_spec(l2, callback, s),
        ),
{
    broadcast use inline_lambda_body_carries;

    reveal(lower_zero_arg_while_spec);
}

/// `lower_entries_inline` carries on.
pub broadcast proof fn lower_entries_inline_carries(
    l1: Lower,
    l2: Lower,
    dict_e: &TypedExpr,
    callback: &TypedExpr,
    s: St,
)
    requires
        #[trigger] follows(l1, l2),
    ensures
        carries_value(
            s,
            #[trigger] lower_entries_inline_spec(l1, dict_e, callback, s),
            lower_entries_inline_spec(l2, dict_e, callback, s),
        ),
{
    broadcast use {low_carries, inline_lambda_body_carries};

    reveal(lower_entries_inline_spec);
}

/// `try_lower_imported_loop` carries on.
pub broadcast proof fn try_lower_imported_loop_carries(
    l1: Lower,
    l2: Lower,
    sym: &String,
    args: &List<TypedExpr>,
    s: St,
)
    requires
        #[trigger] follows(l1, l2),
    ensures
        carries_value(
            s,
            #[trigger] try_lower_imported_loop_spec(l1, sym, args, s),
            try_lower_imported_loop_spec(l2, sym, args, s),
        ),
{
    broadcast use {lower_zero_arg_while_carries, lower_entries_inline_carries};

    reveal(try_lower_imported_loop_spec);
}

/// `fuse_filter` carries on.
pub broadcast proof fn fuse_filter_carries(
    l1: Lower,
    l2: Lower,
    lam: &Lambda,
    elem: Temp,
    elem_ty: &Type,
    src: &TypedTemp,
    src_alive: bool,
    idx: Temp,
    skip_block: BlockId,
    reduce: bool,
    s: St,
)
    requires
        #[trigger] follows(l1, l2),
    ensures
        carries_value(
            s,
            #[trigger] fuse_filter_spec(
                l1,
                lam,
                elem,
                elem_ty,
                src,
                src_alive,
                idx,
                skip_block,
                reduce,
                s,
            ),
            fuse_filter_spec(l2, lam, elem, elem_ty, src, src_alive, idx, skip_block, reduce, s),
        ),
{
    broadcast use inline_lambda_body_carries;

    reveal(fuse_filter_spec);
}

/// `fuse_map` carries on.
pub broadcast proof fn fuse_map_carries(
    l1: Lower,
    l2: Lower,
    lam: &Lambda,
    out_elem_ty: &Type,
    elem: Temp,
    elem_ty: &Type,
    src: &TypedTemp,
    idx: Temp,
    s: St,
)
    requires
        #[trigger] follows(l1, l2),
    ensures
        carries_value(
            s,
            #[trigger] fuse_map_spec(l1, lam, out_elem_ty, elem, elem_ty, src, idx, s),
            fuse_map_spec(l2, lam, out_elem_ty, elem, elem_ty, src, idx, s),
        ),
{
    broadcast use inline_lambda_body_carries;

    reveal(fuse_map_spec);
}

/// `apply_fuse_stages` carries on, for every state.
proof fn apply_fuse_stages_carries_all(l1: Lower, l2: Lower, stages: &List<FuseStage>)
    requires
        follows(l1, l2),
    ensures
        forall|
            elem: Temp,
            elem_ty: &Type,
            src: &TypedTemp,
            src_alive: bool,
            idx: Temp,
            counters: &List<Option<Temp>>,
            skip_block: BlockId,
            reduce: bool,
            s: St,
        |
            carries_value(
                s,
                #[trigger] apply_fuse_stages_spec(
                    l1,
                    stages,
                    elem,
                    elem_ty,
                    src,
                    src_alive,
                    idx,
                    counters,
                    skip_block,
                    reduce,
                    s,
                ),
                apply_fuse_stages_spec(
                    l2,
                    stages,
                    elem,
                    elem_ty,
                    src,
                    src_alive,
                    idx,
                    counters,
                    skip_block,
                    reduce,
                    s,
                ),
            ),
    decreases stages,
{
    broadcast use {fuse_filter_carries, fuse_map_carries};

    reveal_with_fuel(apply_fuse_stages_spec, 2);
    match stages {
        List::Nil => {},
        List::Cons(n) => {
            apply_fuse_stages_carries_all(l1, l2, &n.tail);
        },
    }
    assert forall|
        elem: Temp,
        elem_ty: &Type,
        src: &TypedTemp,
        src_alive: bool,
        idx: Temp,
        counters: &List<Option<Temp>>,
        skip_block: BlockId,
        reduce: bool,
        s: St,
    |
        carries_value(
            s,
            #[trigger] apply_fuse_stages_spec(
                l1,
                stages,
                elem,
                elem_ty,
                src,
                src_alive,
                idx,
                counters,
                skip_block,
                reduce,
                s,
            ),
            apply_fuse_stages_spec(
                l2,
                stages,
                elem,
                elem_ty,
                src,
                src_alive,
                idx,
                counters,
                skip_block,
                reduce,
                s,
            ),
        ) by {
        assert(apply_fuse_stages_spec(
            l1,
            stages,
            elem,
            elem_ty,
            src,
            src_alive,
            idx,
            counters,
            skip_block,
            reduce,
            s,
        )
            == (match stages {
        List::Nil => (s, FuseOut { val: elem, ty: elem_ty.dup(), idx, drops: List::Nil }),
        List::Cons(n) => {
            let later = later_counters(counters);
            match &n.head {
                FuseStage::Filter { lam } => {
                    let (s, drop_pred) = fuse_filter_spec(
                        l1,
                        lam,
                        elem,
                        elem_ty,
                        src,
                        src_alive,
                        idx,
                        skip_block,
                        reduce,
                        s,
                    );
                    let (s, next_idx) = on(s, carried_index_spec(&later, idx, s.b));
                    let (s, rest) = apply_fuse_stages_spec(
                        l1,
                        &n.tail,
                        elem,
                        elem_ty,
                        src,
                        src_alive,
                        next_idx,
                        &later,
                        skip_block,
                        reduce,
                        s,
                    );
                    (
                        s,
                        FuseOut {
                            val: rest.val,
                            ty: rest.ty,
                            idx: rest.idx,
                            drops: prepend(drop_pred, rest.drops),
                        },
                    )
                },
                FuseStage::MapEach { lam, out_elem_ty } => {
                    let (s, next) = fuse_map_spec(l1, lam, out_elem_ty, elem, elem_ty, src, idx, s);
                    let alive = src_alive && (elem != src.temp || next.temp == elem);
                    let (s, next_idx) = on(s, carried_index_spec(&later, idx, s.b));
                    apply_fuse_stages_spec(
                        l1,
                        &n.tail,
                        next.temp,
                        &next.ty,
                        src,
                        alive,
                        next_idx,
                        &later,
                        skip_block,
                        reduce,
                        s,
                    )
                },
                FuseStage::FlatMap { .. } => {
                    apply_fuse_stages_spec(
                        l1,
                        &n.tail,
                        elem,
                        elem_ty,
                        src,
                        src_alive,
                        idx,
                        &later,
                        skip_block,
                        reduce,
                        s,
                    )
                },
            }
        },
    }));
    }
}

/// `apply_fuse_stages` carries on.
pub broadcast proof fn apply_fuse_stages_carries(
    l1: Lower,
    l2: Lower,
    stages: &List<FuseStage>,
    elem: Temp,
    elem_ty: &Type,
    src: &TypedTemp,
    src_alive: bool,
    idx: Temp,
    counters: &List<Option<Temp>>,
    skip_block: BlockId,
    reduce: bool,
    s: St,
)
    requires
        #[trigger] follows(l1, l2),
    ensures
        carries_value(
            s,
            #[trigger] apply_fuse_stages_spec(
                l1,
                stages,
                elem,
                elem_ty,
                src,
                src_alive,
                idx,
                counters,
                skip_block,
                reduce,
                s,
            ),
            apply_fuse_stages_spec(
                l2,
                stages,
                elem,
                elem_ty,
                src,
                src_alive,
                idx,
                counters,
                skip_block,
                reduce,
                s,
            ),
        ),
{
    apply_fuse_stages_carries_all(l1, l2, stages);
}

/// `run_fused_terminal` carries on.
pub broadcast proof fn run_fused_terminal_carries(
    l1: Lower,
    l2: Lower,
    terminal: &Terminal,
    val: Temp,
    val_ty: &Type,
    idx: Temp,
    src: &TypedTemp,
    s: St,
)
    requires
        #[trigger] follows(l1, l2),
    ensures
        carries(
            s,
            #[trigger] run_fused_terminal_spec(l1, terminal, val, val_ty, idx, src, s),
            run_fused_terminal_spec(l2, terminal, val, val_ty, idx, src, s),
        ),
{
    broadcast use inline_lambda_body_carries;

    reveal(run_fused_terminal_spec);
}

/// `emit_fused_loop` carries on.
pub broadcast proof fn emit_fused_loop_carries(
    l1: Lower,
    l2: Lower,
    iterable: Temp,
    iterable_ty: &Type,
    read_elem_ty: &Type,
    stages: &List<FuseStage>,
    terminal: &Terminal,
    s: St,
)
    requires
        #[trigger] follows(l1, l2),
    ensures
        carries(
            s,
            #[trigger] emit_fused_loop_spec(
                l1,
                iterable,
                iterable_ty,
                read_elem_ty,
                stages,
                terminal,
                s,
            ),
            emit_fused_loop_spec(l2, iterable, iterable_ty, read_elem_ty, stages, terminal, s),
        ),
{
    broadcast use {apply_fuse_stages_carries, run_fused_terminal_carries};

    reveal(emit_fused_loop_spec);
}

/// `run_flat_terminal` carries on.
pub broadcast proof fn run_flat_terminal_carries(
    l1: Lower,
    l2: Lower,
    terminal: &Terminal,
    val: Temp,
    val_ty: &Type,
    idx: Temp,
    s: St,
)
    requires
        #[trigger] follows(l1, l2),
    ensures
        carries(
            s,
            #[trigger] run_flat_terminal_spec(l1, terminal, val, val_ty, idx, s),
            run_flat_terminal_spec(l2, terminal, val, val_ty, idx, s),
        ),
{
    broadcast use inline_lambda_body_carries;

    reveal(run_flat_terminal_spec);
}

/// `fm_filter` carries on.
pub broadcast proof fn fm_filter_carries(
    l1: Lower,
    l2: Lower,
    lam: &Lambda,
    elem: Temp,
    elem_ty: &Type,
    idx: Temp,
    skip_block: BlockId,
    s: St,
)
    requires
        #[trigger] follows(l1, l2),
    ensures
        carries(
            s,
            #[trigger] fm_filter_spec(l1, lam, elem, elem_ty, idx, skip_block, s),
            fm_filter_spec(l2, lam, elem, elem_ty, idx, skip_block, s),
        ),
{
    broadcast use inline_lambda_body_carries;

    reveal(fm_filter_spec);
}

/// `fm_apply` carries on.
pub broadcast proof fn fm_apply_carries(
    l1: Lower,
    l2: Lower,
    lam: &Lambda,
    elem: Temp,
    elem_ty: &Type,
    idx: Temp,
    s: St,
)
    requires
        #[trigger] follows(l1, l2),
    ensures
        carries_value(
            s,
            #[trigger] fm_apply_spec(l1, lam, elem, elem_ty, idx, s),
            fm_apply_spec(l2, lam, elem, elem_ty, idx, s),
        ),
{
    broadcast use inline_lambda_body_carries;

    reveal(fm_apply_spec);
}

/// `fm_process` carries on, for every state.
proof fn fm_process_carries_all(l1: Lower, l2: Lower, stages: &List<FuseStage>)
    requires
        follows(l1, l2),
    ensures
        forall|
            elem: Temp,
            elem_ty: &Type,
            idx: Temp,
            counters: &List<Option<Temp>>,
            skip_block: BlockId,
            terminal: &Terminal,
            s: St,
        |
            carries(
                s,
                #[trigger] fm_process_spec(
                    l1,
                    stages,
                    elem,
                    elem_ty,
                    idx,
                    counters,
                    skip_block,
                    terminal,
                    s,
                ),
                fm_process_spec(l2, stages, elem, elem_ty, idx, counters, skip_block, terminal, s),
            ),
    decreases stages,
{
    broadcast use {run_flat_terminal_carries, fm_filter_carries, fm_apply_carries};

    reveal_with_fuel(fm_process_spec, 2);
    match stages {
        List::Nil => {},
        List::Cons(n) => {
            fm_process_carries_all(l1, l2, &n.tail);
        },
    }
    assert forall|
        elem: Temp,
        elem_ty: &Type,
        idx: Temp,
        counters: &List<Option<Temp>>,
        skip_block: BlockId,
        terminal: &Terminal,
        s: St,
    |
        carries(
            s,
            #[trigger] fm_process_spec(
                l1,
                stages,
                elem,
                elem_ty,
                idx,
                counters,
                skip_block,
                terminal,
                s,
            ),
            fm_process_spec(l2, stages, elem, elem_ty, idx, counters, skip_block, terminal, s),
        ) by {
        assert(fm_process_spec(l1, stages, elem, elem_ty, idx, counters, skip_block, terminal, s)
            == (match stages {
        List::Nil => run_flat_terminal_spec(l1, terminal, elem, elem_ty, idx, s),
        List::Cons(n) => {
            let later = later_counters(counters);
            match &n.head {
                FuseStage::Filter { lam } => {
                    let s = fm_filter_spec(l1, lam, elem, elem_ty, idx, skip_block, s);
                    let (s, next_idx) = on(s, fm_next_index_spec(&later, s.b));
                    fm_process_spec(
                        l1,
                        &n.tail,
                        elem,
                        elem_ty,
                        next_idx,
                        &later,
                        skip_block,
                        terminal,
                        s,
                    )
                },
                FuseStage::MapEach { lam, out_elem_ty } => {
                    let (s, mapped) = fm_apply_spec(l1, lam, elem, elem_ty, idx, s);
                    let next_ty = mapped_type(&mapped.ty, out_elem_ty);
                    let (s, next_idx) = on(s, fm_next_index_spec(&later, s.b));
                    fm_process_spec(
                        l1,
                        &n.tail,
                        mapped.temp,
                        &next_ty,
                        next_idx,
                        &later,
                        skip_block,
                        terminal,
                        s,
                    )
                },
                FuseStage::FlatMap { lam, .. } => {
                    let (s, inner) = fm_apply_spec(l1, lam, elem, elem_ty, idx, s);
                    let inner_read_ty = combinator_read_elem_ty_spec(&lam.body, s);
                    let (s, frame) = on(
                        s,
                        begin_combinator_loop_spec(
                            inner.temp,
                            &inner.ty,
                            ElemAccess::Materialize(inner_read_ty.dup()),
                            s.b,
                        ),
                    );
                    let (s, cont) = on(s, s.b.alloc_block("fm_inner_cont"));
                    let (s, inner_idx) = on(s, fm_next_index_spec(&later, s.b));
                    let s = fm_process_spec(
                        l1,
                        &n.tail,
                        frame.elem,
                        &inner_read_ty,
                        inner_idx,
                        &later,
                        cont,
                        terminal,
                        s,
                    );
                    let s = if !s.b.is_terminated() {
                        on_b(s, s.b.terminate(Terminator::Jump(cont)))
                    } else {
                        s
                    };
                    let s = on_b(s, s.b.switch_to(cont));
                    let s = on_b(s, end_combinator_loop_spec(&frame, LoopFlow::Fallthrough, s.b));
                    on_b(s, s.b.emit(Instruction::Release { val: inner.temp, ty: inner.ty.dup() }))
                },
            }
        },
    }));
    }
}

/// `fm_process` carries on.
pub broadcast proof fn fm_process_carries(
    l1: Lower,
    l2: Lower,
    stages: &List<FuseStage>,
    elem: Temp,
    elem_ty: &Type,
    idx: Temp,
    counters: &List<Option<Temp>>,
    skip_block: BlockId,
    terminal: &Terminal,
    s: St,
)
    requires
        #[trigger] follows(l1, l2),
    ensures
        carries(
            s,
            #[trigger] fm_process_spec(
                l1,
                stages,
                elem,
                elem_ty,
                idx,
                counters,
                skip_block,
                terminal,
                s,
            ),
            fm_process_spec(l2, stages, elem, elem_ty, idx, counters, skip_block, terminal, s),
        ),
{
    fm_process_carries_all(l1, l2, stages);
}

/// `emit_flatmap_fused_loop` carries on.
pub broadcast proof fn emit_flatmap_fused_loop_carries(
    l1: Lower,
    l2: Lower,
    iterable: Temp,
    iterable_ty: &Type,
    read_elem_ty: &Type,
    stages: &List<FuseStage>,
    terminal_takes_index: bool,
    terminal: &Terminal,
    s: St,
)
    requires
        #[trigger] follows(l1, l2),
    ensures
        carries(
            s,
            #[trigger] emit_flatmap_fused_loop_spec(
                l1,
                iterable,
                iterable_ty,
                read_elem_ty,
                stages,
                terminal_takes_index,
                terminal,
                s,
            ),
            emit_flatmap_fused_loop_spec(
                l2,
                iterable,
                iterable_ty,
                read_elem_ty,
                stages,
                terminal_takes_index,
                terminal,
                s,
            ),
        ),
{
    broadcast use fm_process_carries;

    reveal(emit_flatmap_fused_loop_spec);
}

/// `inline_lambda_body_packed_view` carries on.
pub broadcast proof fn inline_lambda_body_packed_view_carries(
    l1: Lower,
    l2: Lower,
    lam: &Lambda,
    array: Temp,
    index: Temp,
    elem_ty: &Type,
    idx: Temp,
    s: St,
)
    requires
        #[trigger] follows(l1, l2),
    ensures
        carries_value(
            s,
            #[trigger] inline_lambda_body_packed_view_spec(l1, lam, array, index, elem_ty, idx, s),
            inline_lambda_body_packed_view_spec(l2, lam, array, index, elem_ty, idx, s),
        ),
{
    broadcast use low_carries;

    reveal(inline_lambda_body_packed_view_spec);
}

/// `lower_callback_in_safe_ctx` carries on.
pub broadcast proof fn lower_callback_in_safe_ctx_carries(
    l1: Lower,
    l2: Lower,
    expr: &TypedExpr,
    s: St,
)
    requires
        #[trigger] follows(l1, l2),
    ensures
        carries_value(
            s,
            #[trigger] lower_callback_in_safe_ctx_spec(l1, expr, s),
            lower_callback_in_safe_ctx_spec(l2, expr, s),
        ),
{
    broadcast use low_carries;

    reveal(lower_callback_in_safe_ctx_spec);
}

/// `lower_map` carries on.
pub broadcast proof fn lower_map_carries(
    l1: Lower,
    l2: Lower,
    iterable_e: &TypedExpr,
    callback: &TypedExpr,
    result_type: &Type,
    s: St,
)
    requires
        #[trigger] follows(l1, l2),
    ensures
        carries_value(
            s,
            #[trigger] lower_map_spec(l1, iterable_e, callback, result_type, s),
            lower_map_spec(l2, iterable_e, callback, result_type, s),
        ),
{
    broadcast use {
        low_carries, emit_fused_loop_carries, emit_flatmap_fused_loop_carries,
        inline_lambda_body_carries, inline_lambda_body_packed_view_carries,
        lower_callback_in_safe_ctx_carries,
    };

    reveal(lower_map_spec);
}

/// `lower_filter` carries on.
pub broadcast proof fn lower_filter_carries(
    l1: Lower,
    l2: Lower,
    iterable_e: &TypedExpr,
    callback: &TypedExpr,
    result_type: &Type,
    s: St,
)
    requires
        #[trigger] follows(l1, l2),
    ensures
        carries_value(
            s,
            #[trigger] lower_filter_spec(l1, iterable_e, callback, result_type, s),
            lower_filter_spec(l2, iterable_e, callback, result_type, s),
        ),
{
    broadcast use {
        low_carries, emit_fused_loop_carries, emit_flatmap_fused_loop_carries,
        inline_lambda_body_carries, lower_callback_in_safe_ctx_carries,
    };

    reveal(lower_filter_spec);
}

/// `lower_fused_reduce_flatmap` carries on.
pub broadcast proof fn lower_fused_reduce_flatmap_carries(
    l1: Lower,
    l2: Lower,
    base: &TypedExpr,
    stages: &List<FuseStage>,
    lam: &Lambda,
    init_expr: &TypedExpr,
    result_type: &Type,
    s: St,
)
    requires
        #[trigger] follows(l1, l2),
    ensures
        carries_value(
            s,
            #[trigger] lower_fused_reduce_flatmap_spec(
                l1,
                base,
                stages,
                lam,
                init_expr,
                result_type,
                s,
            ),
            lower_fused_reduce_flatmap_spec(l2, base, stages, lam, init_expr, result_type, s),
        ),
{
    broadcast use {low_carries, emit_flatmap_fused_loop_carries};

    reveal(lower_fused_reduce_flatmap_spec);
}

/// `lower_fused_reduce` carries on.
pub broadcast proof fn lower_fused_reduce_carries(
    l1: Lower,
    l2: Lower,
    base: &TypedExpr,
    stages: &List<FuseStage>,
    lam: &Lambda,
    init_expr: &TypedExpr,
    result_type: &Type,
    s: St,
)
    requires
        #[trigger] follows(l1, l2),
    ensures
        carries_value(
            s,
            #[trigger] lower_fused_reduce_spec(l1, base, stages, lam, init_expr, result_type, s),
            lower_fused_reduce_spec(l2, base, stages, lam, init_expr, result_type, s),
        ),
{
    broadcast use {low_carries, apply_fuse_stages_carries, inline_lambda_body_carries};

    reveal(lower_fused_reduce_spec);
}

/// `inline_reducer_packed` carries on.
pub broadcast proof fn inline_reducer_packed_carries(
    l1: Lower,
    l2: Lower,
    lam: &Lambda,
    acc: Temp,
    array: Temp,
    index: Temp,
    elem_ty: &Type,
    idx: Temp,
    s: St,
)
    requires
        #[trigger] follows(l1, l2),
    ensures
        carries_value(
            s,
            #[trigger] inline_reducer_packed_spec(l1, lam, acc, array, index, elem_ty, idx, s),
            inline_reducer_packed_spec(l2, lam, acc, array, index, elem_ty, idx, s),
        ),
{
    broadcast use low_carries;

    reveal(inline_reducer_packed_spec);
}

/// `reduce_scalar_inline` carries on.
pub broadcast proof fn reduce_scalar_inline_carries(
    l1: Lower,
    l2: Lower,
    iterable: Temp,
    iterable_ty: &Type,
    elem_ty: &Type,
    init_expr: &TypedExpr,
    lam: &Lambda,
    acc_ty: &Type,
    s: St,
)
    requires
        #[trigger] follows(l1, l2),
    ensures
        carries_value(
            s,
            #[trigger] reduce_scalar_inline_spec(
                l1,
                iterable,
                iterable_ty,
                elem_ty,
                init_expr,
                lam,
                acc_ty,
                s,
            ),
            reduce_scalar_inline_spec(
                l2,
                iterable,
                iterable_ty,
                elem_ty,
                init_expr,
                lam,
                acc_ty,
                s,
            ),
        ),
{
    broadcast use {low_carries, inline_reducer_packed_carries, inline_lambda_body_carries};

    reveal(reduce_scalar_inline_spec);
}

/// `reduce_heap_inline` carries on.
pub broadcast proof fn reduce_heap_inline_carries(
    l1: Lower,
    l2: Lower,
    iterable: Temp,
    iterable_ty: &Type,
    elem_ty: &Type,
    init_expr: &TypedExpr,
    lam: &Lambda,
    acc_ty: &Type,
    s: St,
)
    requires
        #[trigger] follows(l1, l2),
    ensures
        carries_value(
            s,
            #[trigger] reduce_heap_inline_spec(
                l1,
                iterable,
                iterable_ty,
                elem_ty,
                init_expr,
                lam,
                acc_ty,
                s,
            ),
            reduce_heap_inline_spec(l2, iterable, iterable_ty, elem_ty, init_expr, lam, acc_ty, s),
        ),
{
    broadcast use {low_carries, inline_lambda_body_carries};

    reveal(reduce_heap_inline_spec);
}

/// `reduce_direct` carries on.
pub broadcast proof fn reduce_direct_carries(
    l1: Lower,
    l2: Lower,
    iterable: Temp,
    iterable_ty: &Type,
    elem_ty: &Type,
    init_expr: &TypedExpr,
    target: &FnTarget,
    native_ret: &Type,
    result_type: &Type,
    s: St,
)
    requires
        #[trigger] follows(l1, l2),
    ensures
        carries_value(
            s,
            #[trigger] reduce_direct_spec(
                l1,
                iterable,
                iterable_ty,
                elem_ty,
                init_expr,
                target,
                native_ret,
                result_type,
                s,
            ),
            reduce_direct_spec(
                l2,
                iterable,
                iterable_ty,
                elem_ty,
                init_expr,
                target,
                native_ret,
                result_type,
                s,
            ),
        ),
{
    broadcast use low_carries;

    reveal(reduce_direct_spec);
}

/// `reduce_closure` carries on.
pub broadcast proof fn reduce_closure_carries(
    l1: Lower,
    l2: Lower,
    iterable: Temp,
    iterable_ty: &Type,
    elem_ty: &Type,
    init_expr: &TypedExpr,
    reducer: &TypedExpr,
    result_type: &Type,
    s: St,
)
    requires
        #[trigger] follows(l1, l2),
    ensures
        carries_value(
            s,
            #[trigger] reduce_closure_spec(
                l1,
                iterable,
                iterable_ty,
                elem_ty,
                init_expr,
                reducer,
                result_type,
                s,
            ),
            reduce_closure_spec(
                l2,
                iterable,
                iterable_ty,
                elem_ty,
                init_expr,
                reducer,
                result_type,
                s,
            ),
        ),
{
    broadcast use {low_carries, lower_callback_in_safe_ctx_carries};

    reveal(reduce_closure_spec);
}

/// `lower_reduce` carries on.
pub broadcast proof fn lower_reduce_carries(
    l1: Lower,
    l2: Lower,
    iterable_e: &TypedExpr,
    init_expr: &TypedExpr,
    reducer: &TypedExpr,
    result_type: &Type,
    s: St,
)
    requires
        #[trigger] follows(l1, l2),
    ensures
        carries_value(
            s,
            #[trigger] lower_reduce_spec(l1, iterable_e, init_expr, reducer, result_type, s),
            lower_reduce_spec(l2, iterable_e, init_expr, reducer, result_type, s),
        ),
{
    broadcast use {
        low_carries, lower_fused_reduce_flatmap_carries, lower_fused_reduce_carries,
        reduce_scalar_inline_carries, reduce_heap_inline_carries, reduce_direct_carries,
        reduce_closure_carries,
    };

    reveal(lower_reduce_spec);
}

/// `emit_merge` carries on.
pub broadcast proof fn emit_merge_carries(
    l1: Lower,
    l2: Lower,
    arrays: &SortArrays,
    lo: Temp,
    mid: Temp,
    hi: Temp,
    order: &Lambda,
    s: St,
)
    requires
        #[trigger] follows(l1, l2),
    ensures
        carries_value(
            s,
            #[trigger] emit_merge_spec(l1, arrays, lo, mid, hi, order, s),
            emit_merge_spec(l2, arrays, lo, mid, hi, order, s),
        ),
{
    broadcast use inline_lambda_body_carries;

    reveal(emit_merge_spec);
}

/// `lower_flat_sort` carries on.
pub broadcast proof fn lower_flat_sort_carries(
    l1: Lower,
    l2: Lower,
    array_e: &TypedExpr,
    order: &Lambda,
    elem_ty: Type,
    flat: FlatElemKind,
    result_type: &Type,
    s: St,
)
    requires
        #[trigger] follows(l1, l2),
    ensures
        carries_value(
            s,
            #[trigger] lower_flat_sort_spec(l1, array_e, order, elem_ty, flat, result_type, s),
            lower_flat_sort_spec(l2, array_e, order, elem_ty, flat, result_type, s),
        ),
{
    broadcast use {low_carries, emit_merge_carries};

    reveal(lower_flat_sort_spec);
}

/// `lower_sort` carries on.
pub broadcast proof fn lower_sort_carries(
    l1: Lower,
    l2: Lower,
    array_e: &TypedExpr,
    order_e: &TypedExpr,
    result_type: &Type,
    s: St,
)
    requires
        #[trigger] follows(l1, l2),
    ensures
        carries_value(
            s,
            #[trigger] lower_sort_spec(l1, array_e, order_e, result_type, s),
            lower_sort_spec(l2, array_e, order_e, result_type, s),
        ),
{
    broadcast use lower_flat_sort_carries;

    reveal(lower_sort_spec);
}

/// `lower_range` carries on.
pub broadcast proof fn lower_range_carries(
    l1: Lower,
    l2: Lower,
    start_e: &TypedExpr,
    end_e: &TypedExpr,
    s: St,
)
    requires
        #[trigger] follows(l1, l2),
    ensures
        carries_value(
            s,
            #[trigger] lower_range_spec(l1, start_e, end_e, s),
            lower_range_spec(l2, start_e, end_e, s),
        ),
{
    broadcast use low_carries;

    reveal(lower_range_spec);
}

/// `lower_iter` carries on.
pub broadcast proof fn lower_iter_carries(
    l1: Lower,
    l2: Lower,
    init_e: &TypedExpr,
    cond_e: &TypedExpr,
    next_e: &TypedExpr,
    current_e: &TypedExpr,
    result_type: &Type,
    s: St,
)
    requires
        #[trigger] follows(l1, l2),
    ensures
        carries_value(
            s,
            #[trigger] lower_iter_spec(l1, init_e, cond_e, next_e, current_e, result_type, s),
            lower_iter_spec(l2, init_e, cond_e, next_e, current_e, result_type, s),
        ),
{
    broadcast use low_carries;

    reveal(lower_iter_spec);
}

/// `lower_range_for` carries on.
pub broadcast proof fn lower_range_for_carries(
    l1: Lower,
    l2: Lower,
    start_e: &TypedExpr,
    end_e: &TypedExpr,
    step_e: Option<&TypedExpr>,
    callback: &TypedExpr,
    param_tys: &List<Type>,
    s: St,
)
    requires
        #[trigger] follows(l1, l2),
    ensures
        carries_value(
            s,
            #[trigger] lower_range_for_spec(l1, start_e, end_e, step_e, callback, param_tys, s),
            lower_range_for_spec(l2, start_e, end_e, step_e, callback, param_tys, s),
        ),
{
    broadcast use {
        low_carries, inline_lambda_body_tracking_elem_boxes_carries,
        lower_callback_in_safe_ctx_carries,
    };

    reveal(lower_range_for_spec);
}

/// `lower_for` carries on.
pub broadcast proof fn lower_for_carries(
    l1: Lower,
    l2: Lower,
    iterable_e: &TypedExpr,
    callback: &TypedExpr,
    s: St,
)
    requires
        #[trigger] follows(l1, l2),
    ensures
        carries_value(
            s,
            #[trigger] lower_for_spec(l1, iterable_e, callback, s),
            lower_for_spec(l2, iterable_e, callback, s),
        ),
{
    broadcast use {
        low_carries, lower_range_for_carries, emit_fused_loop_carries,
        emit_flatmap_fused_loop_carries, inline_lambda_body_carries,
        inline_lambda_body_packed_view_carries, lower_callback_in_safe_ctx_carries,
    };

    reveal(lower_for_spec);
}

/// `lower_while` carries on.
pub broadcast proof fn lower_while_carries(
    l1: Lower,
    l2: Lower,
    iterable_e: &TypedExpr,
    callback: &TypedExpr,
    s: St,
)
    requires
        #[trigger] follows(l1, l2),
    ensures
        carries_value(
            s,
            #[trigger] lower_while_spec(l1, iterable_e, callback, s),
            lower_while_spec(l2, iterable_e, callback, s),
        ),
{
    broadcast use {low_carries, inline_lambda_body_carries, lower_callback_in_safe_ctx_carries};

    reveal(lower_while_spec);
}

/// `lower_quantified` carries on.
pub broadcast proof fn lower_quantified_carries(
    l1: Lower,
    l2: Lower,
    iterable_e: &TypedExpr,
    callback: &TypedExpr,
    q: &Question,
    s: St,
)
    requires
        #[trigger] follows(l1, l2),
    ensures
        carries_value(
            s,
            #[trigger] lower_quantified_spec(l1, iterable_e, callback, q, s),
            lower_quantified_spec(l2, iterable_e, callback, q, s),
        ),
{
    broadcast use {
        low_carries, inline_lambda_body_carries, inline_lambda_body_packed_view_carries,
        lower_callback_in_safe_ctx_carries,
    };

    reveal(lower_quantified_spec);
}

/// `lower_some` carries on.
pub broadcast proof fn lower_some_carries(
    l1: Lower,
    l2: Lower,
    iterable_e: &TypedExpr,
    callback: &TypedExpr,
    s: St,
)
    requires
        #[trigger] follows(l1, l2),
    ensures
        carries_value(
            s,
            #[trigger] lower_some_spec(l1, iterable_e, callback, s),
            lower_some_spec(l2, iterable_e, callback, s),
        ),
{
    broadcast use lower_quantified_carries;

    reveal(lower_some_spec);
}

/// `lower_every` carries on.
pub broadcast proof fn lower_every_carries(
    l1: Lower,
    l2: Lower,
    iterable_e: &TypedExpr,
    callback: &TypedExpr,
    s: St,
)
    requires
        #[trigger] follows(l1, l2),
    ensures
        carries_value(
            s,
            #[trigger] lower_every_spec(l1, iterable_e, callback, s),
            lower_every_spec(l2, iterable_e, callback, s),
        ),
{
    broadcast use lower_quantified_carries;

    reveal(lower_every_spec);
}

/// `lower_find` carries on.
pub broadcast proof fn lower_find_carries(
    l1: Lower,
    l2: Lower,
    iterable_e: &TypedExpr,
    callback: &TypedExpr,
    result_type: &Type,
    s: St,
)
    requires
        #[trigger] follows(l1, l2),
    ensures
        carries_value(
            s,
            #[trigger] lower_find_spec(l1, iterable_e, callback, result_type, s),
            lower_find_spec(l2, iterable_e, callback, result_type, s),
        ),
{
    broadcast use {low_carries, inline_lambda_body_carries, lower_callback_in_safe_ctx_carries};

    reveal(lower_find_spec);
}

/// `try_lower_loop_builtin` carries on.
pub broadcast proof fn try_lower_loop_builtin_carries(
    l1: Lower,
    l2: Lower,
    name: &Text,
    args: &List<TypedExpr>,
    result_type: &Type,
    s: St,
)
    requires
        #[trigger] follows(l1, l2),
    ensures
        carries_value(
            s,
            #[trigger] try_lower_loop_builtin_spec(l1, name, args, result_type, s),
            try_lower_loop_builtin_spec(l2, name, args, result_type, s),
        ),
{
    broadcast use {
        lower_map_carries, lower_filter_carries, lower_reduce_carries, lower_sort_carries,
        lower_range_carries, lower_iter_carries, lower_for_carries, lower_while_carries,
        lower_some_carries, lower_every_carries, lower_find_carries,
    };

    reveal(try_lower_loop_builtin_spec);
}

/// `lower_exprs` carries on, for every state.
proof fn lower_exprs_carries_all(l1: Lower, l2: Lower, args: &List<TypedExpr>)
    requires
        follows(l1, l2),
    ensures
        forall|s: St|
            carries_value(
                s,
                #[trigger] lower_exprs_spec(l1, args, s),
                lower_exprs_spec(l2, args, s),
            ),
    decreases args,
{
    broadcast use low_carries;

    reveal_with_fuel(lower_exprs_spec, 2);
    match args {
        List::Nil => {},
        List::Cons(n) => {
            lower_exprs_carries_all(l1, l2, &n.tail);
        },
    }
    assert forall|s: St|
        carries_value(
            s,
            #[trigger] lower_exprs_spec(l1, args, s),
            lower_exprs_spec(l2, args, s),
        ) by {
        assert(lower_exprs_spec(l1, args, s)
            == (match args {
        List::Nil => (s, List::Nil),
        List::Cons(n) => {
            let (s, t) = low(l1, &n.head, s);
            let (s, rest) = lower_exprs_spec(l1, &n.tail, s);
            (s, prepend(t, rest))
        },
    }));
    }
}

/// `lower_exprs` carries on.
pub broadcast proof fn lower_exprs_carries(l1: Lower, l2: Lower, args: &List<TypedExpr>, s: St)
    requires
        #[trigger] follows(l1, l2),
    ensures
        carries_value(s, #[trigger] lower_exprs_spec(l1, args, s), lower_exprs_spec(l2, args, s)),
{
    lower_exprs_carries_all(l1, l2, args);
}

/// `lower_op` carries on.
pub broadcast proof fn lower_op_carries(
    l1: Lower,
    l2: Lower,
    intrinsic: Intrinsic,
    args: &List<TypedExpr>,
    result_type: &Type,
    s: St,
)
    requires
        #[trigger] follows(l1, l2),
    ensures
        carries_value(
            s,
            #[trigger] lower_op_spec(l1, intrinsic, args, result_type, s),
            lower_op_spec(l2, intrinsic, args, result_type, s),
        ),
{
    broadcast use lower_exprs_carries;

    reveal(lower_op_spec);
}

/// `lower_intrinsic_call` carries on.
pub broadcast proof fn lower_intrinsic_call_carries(
    l1: Lower,
    l2: Lower,
    name: &Text,
    args: &List<TypedExpr>,
    result_type: &Type,
    s: St,
)
    requires
        #[trigger] follows(l1, l2),
    ensures
        carries_value(
            s,
            #[trigger] lower_intrinsic_call_spec(l1, name, args, result_type, s),
            lower_intrinsic_call_spec(l2, name, args, result_type, s),
        ),
{
    broadcast use {try_lower_loop_builtin_carries, lower_op_carries, lower_exprs_carries};

    reveal(lower_intrinsic_call_spec);
}

/// `lower_import_call` carries on.
pub broadcast proof fn lower_import_call_carries(
    l1: Lower,
    l2: Lower,
    slot: usize,
    import: &ImportFn,
    func: &TypedExpr,
    args: &List<TypedExpr>,
    result_type: &Type,
    partial: bool,
    s: St,
)
    requires
        #[trigger] follows(l1, l2),
    ensures
        carries_value(
            s,
            #[trigger] lower_import_call_spec(
                l1,
                slot,
                import,
                func,
                args,
                result_type,
                partial,
                s,
            ),
            lower_import_call_spec(l2, slot, import, func, args, result_type, partial, s),
        ),
{
    broadcast use {
        lower_args_carries, try_lower_imported_loop_carries, lower_intrinsic_call_carries,
    };

    reveal(lower_import_call_spec);
}

/// `lower_global_call` carries on.
pub broadcast proof fn lower_global_call_carries(
    l1: Lower,
    l2: Lower,
    slot: usize,
    fid: FuncId,
    func: &TypedExpr,
    args: &List<TypedExpr>,
    result_type: &Type,
    is_tail: bool,
    partial: bool,
    s: St,
)
    requires
        #[trigger] follows(l1, l2),
    ensures
        carries_value(
            s,
            #[trigger] lower_global_call_spec(
                l1,
                slot,
                fid,
                func,
                args,
                result_type,
                is_tail,
                partial,
                s,
            ),
            lower_global_call_spec(l2, slot, fid, func, args, result_type, is_tail, partial, s),
        ),
{
    broadcast use {lower_args_carries, lower_intrinsic_call_carries};

    reveal(lower_global_call_spec);
}

/// `lower_indirect_call` carries on.
pub broadcast proof fn lower_indirect_call_carries(
    l1: Lower,
    l2: Lower,
    func: &TypedExpr,
    args: &List<TypedExpr>,
    result_type: &Type,
    is_tail: bool,
    s: St,
)
    requires
        #[trigger] follows(l1, l2),
    ensures
        carries_value(
            s,
            #[trigger] lower_indirect_call_spec(l1, func, args, result_type, is_tail, s),
            lower_indirect_call_spec(l2, func, args, result_type, is_tail, s),
        ),
{
    broadcast use {low_carries, lower_args_carries};

    reveal(lower_indirect_call_spec);
}

/// `lower_flatmap` carries on.
pub broadcast proof fn lower_flatmap_carries(
    l1: Lower,
    l2: Lower,
    recv: &TypedExpr,
    callback: &TypedExpr,
    result_type: &Type,
    s: St,
)
    requires
        #[trigger] follows(l1, l2),
    ensures
        carries_value(
            s,
            #[trigger] lower_flatmap_spec(l1, recv, callback, result_type, s),
            lower_flatmap_spec(l2, recv, callback, result_type, s),
        ),
{
    broadcast use {low_carries, emit_flatmap_fused_loop_carries};

    reveal(lower_flatmap_spec);
}

/// `lower_flatmap_terminal` carries on.
pub broadcast proof fn lower_flatmap_terminal_carries(
    l1: Lower,
    l2: Lower,
    args: &List<TypedExpr>,
    result_type: &Type,
    s: St,
)
    requires
        #[trigger] follows(l1, l2),
    ensures
        carries_value(
            s,
            #[trigger] lower_flatmap_terminal_spec(l1, args, result_type, s),
            lower_flatmap_terminal_spec(l2, args, result_type, s),
        ),
{
    broadcast use lower_flatmap_carries;

    reveal(lower_flatmap_terminal_spec);
}

/// `try_lower_named_call` carries on.
pub broadcast proof fn try_lower_named_call_carries(
    l1: Lower,
    l2: Lower,
    slot: usize,
    func: &TypedExpr,
    args: &List<TypedExpr>,
    result_type: &Type,
    is_tail: bool,
    partial: bool,
    s: St,
)
    requires
        #[trigger] follows(l1, l2),
    ensures
        carries_value(
            s,
            #[trigger] try_lower_named_call_spec(
                l1,
                slot,
                func,
                args,
                result_type,
                is_tail,
                partial,
                s,
            ),
            try_lower_named_call_spec(l2, slot, func, args, result_type, is_tail, partial, s),
        ),
{
    broadcast use {
        lower_import_call_carries, lower_global_call_carries, lower_intrinsic_call_carries,
        lower_flatmap_terminal_carries,
    };

    reveal(try_lower_named_call_spec);
}

/// `lower_call` carries on.
pub broadcast proof fn lower_call_carries(
    l1: Lower,
    l2: Lower,
    func: &TypedExpr,
    args: &List<TypedExpr>,
    result_type: &Type,
    is_tail: bool,
    partial: bool,
    s: St,
)
    requires
        #[trigger] follows(l1, l2),
    ensures
        carries_value(
            s,
            #[trigger] lower_call_spec(l1, func, args, result_type, is_tail, partial, s),
            lower_call_spec(l2, func, args, result_type, is_tail, partial, s),
        ),
{
    broadcast use {lower_indirect_call_carries, try_lower_named_call_carries};

    reveal(lower_call_spec);
}

/// `lower_cond_as_bool` carries on.
pub broadcast proof fn lower_cond_as_bool_carries(l1: Lower, l2: Lower, expr: &TypedExpr, s: St)
    requires
        #[trigger] follows(l1, l2),
    ensures
        carries_value(
            s,
            #[trigger] lower_cond_as_bool_spec(l1, expr, s),
            lower_cond_as_bool_spec(l2, expr, s),
        ),
{
    broadcast use low_carries;

    reveal(lower_cond_as_bool_spec);
}

/// `lower_scoped_cond` carries on.
pub broadcast proof fn lower_scoped_cond_carries(l1: Lower, l2: Lower, expr: &TypedExpr, s: St)
    requires
        #[trigger] follows(l1, l2),
    ensures
        carries_value(
            s,
            #[trigger] lower_scoped_cond_spec(l1, expr, s),
            lower_scoped_cond_spec(l2, expr, s),
        ),
{
    broadcast use lower_cond_as_bool_carries;

    reveal(lower_scoped_cond_spec);
}

/// `lower_short_circuit` carries on.
pub broadcast proof fn lower_short_circuit_carries(
    l1: Lower,
    l2: Lower,
    left: &TypedExpr,
    op: BinOp,
    right: &TypedExpr,
    result_type: &Type,
    s: St,
)
    requires
        #[trigger] follows(l1, l2),
    ensures
        carries_value(
            s,
            #[trigger] lower_short_circuit_spec(l1, left, op, right, result_type, s),
            lower_short_circuit_spec(l2, left, op, right, result_type, s),
        ),
{
    broadcast use {lower_cond_as_bool_carries, lower_scoped_cond_carries};

    reveal(lower_short_circuit_spec);
}

/// `lower_branch` carries on.
pub broadcast proof fn lower_branch_carries(
    l1: Lower,
    l2: Lower,
    expr: &TypedExpr,
    block: BlockId,
    merge: BlockId,
    result_type: &Type,
    s: St,
)
    requires
        #[trigger] follows(l1, l2),
    ensures
        carries_value(
            s,
            #[trigger] lower_branch_spec(l1, expr, block, merge, result_type, s),
            lower_branch_spec(l2, expr, block, merge, result_type, s),
        ),
{
    broadcast use low_carries;

    reveal(lower_branch_spec);
}

/// `lower_if` carries on.
pub broadcast proof fn lower_if_carries(
    l1: Lower,
    l2: Lower,
    cond: &TypedExpr,
    then_br: &TypedExpr,
    else_br: &TypedExpr,
    result_type: &Type,
    s: St,
)
    requires
        #[trigger] follows(l1, l2),
    ensures
        carries_value(
            s,
            #[trigger] lower_if_spec(l1, cond, then_br, else_br, result_type, s),
            lower_if_spec(l2, cond, then_br, else_br, result_type, s),
        ),
{
    broadcast use {lower_cond_as_bool_carries, lower_branch_carries};

    reveal(lower_if_spec);
}

/// `lower_is` carries on.
pub broadcast proof fn lower_is_carries(
    l1: Lower,
    l2: Lower,
    expr: &TypedExpr,
    pattern: &TypedPattern,
    s: St,
)
    requires
        #[trigger] follows(l1, l2),
    ensures
        carries_value(
            s,
            #[trigger] lower_is_spec(l1, expr, pattern, s),
            lower_is_spec(l2, expr, pattern, s),
        ),
{
    broadcast use low_carries;

    reveal(lower_is_spec);
}

/// `lower_has` carries on.
pub broadcast proof fn lower_has_carries(
    l1: Lower,
    l2: Lower,
    expr: &TypedExpr,
    pattern: &TypedPattern,
    s: St,
)
    requires
        #[trigger] follows(l1, l2),
    ensures
        carries_value(
            s,
            #[trigger] lower_has_spec(l1, expr, pattern, s),
            lower_has_spec(l2, expr, pattern, s),
        ),
{
    broadcast use low_carries;

    reveal(lower_has_spec);
}

/// `lower_arm_test` carries on.
pub broadcast proof fn lower_arm_test_carries(
    l1: Lower,
    l2: Lower,
    pattern: &TypedPattern,
    raw: Temp,
    val_ty: &Type,
    s: St,
)
    requires
        #[trigger] follows(l1, l2),
    ensures
        carries_value(
            s,
            #[trigger] lower_arm_test_spec(l1, pattern, raw, val_ty, s),
            lower_arm_test_spec(l2, pattern, raw, val_ty, s),
        ),
{
    broadcast use low_carries;

    reveal(lower_arm_test_spec);
}

/// `lower_arm` carries on.
pub broadcast proof fn lower_arm_carries(
    l1: Lower,
    l2: Lower,
    arm: &MatchArm,
    raw: Temp,
    val_ty: &Type,
    merge: BlockId,
    result_type: &Type,
    s: St,
)
    requires
        #[trigger] follows(l1, l2),
    ensures
        carries_value(
            s,
            #[trigger] lower_arm_spec(l1, arm, raw, val_ty, merge, result_type, s),
            lower_arm_spec(l2, arm, raw, val_ty, merge, result_type, s),
        ),
{
    broadcast use {lower_scoped_cond_carries, lower_branch_carries, lower_arm_test_carries};

    reveal(lower_arm_spec);
}

/// `lower_arms` carries on, for every state.
proof fn lower_arms_carries_all(l1: Lower, l2: Lower, arms: &List<MatchArm>)
    requires
        follows(l1, l2),
    ensures
        forall|
            raw: Temp,
            val_ty: &Type,
            merge: BlockId,
            outer: &List<Entry<Temp>>,
            result_type: &Type,
            s: St,
        |
            carries_value(
                s,
                #[trigger] lower_arms_spec(l1, arms, raw, val_ty, merge, outer, result_type, s),
                lower_arms_spec(l2, arms, raw, val_ty, merge, outer, result_type, s),
            ),
    decreases arms,
{
    broadcast use lower_arm_carries;

    reveal_with_fuel(lower_arms_spec, 2);
    match arms {
        List::Nil => {},
        List::Cons(n) => {
            lower_arms_carries_all(l1, l2, &n.tail);
        },
    }
    assert forall|
        raw: Temp,
        val_ty: &Type,
        merge: BlockId,
        outer: &List<Entry<Temp>>,
        result_type: &Type,
        s: St,
    |
        carries_value(
            s,
            #[trigger] lower_arms_spec(l1, arms, raw, val_ty, merge, outer, result_type, s),
            lower_arms_spec(l2, arms, raw, val_ty, merge, outer, result_type, s),
        ) by {
        assert(lower_arms_spec(l1, arms, raw, val_ty, merge, outer, result_type, s)
            == (match arms {
        List::Nil => (s, List::Nil),
        List::Cons(n) => {
            let s = on_b(s, s.b.set_slots(outer.dup()));
            let (s, end) = lower_arm_spec(l1, &n.head, raw, val_ty, merge, result_type, s);
            let (s, rest) = lower_arms_spec(l1, &n.tail, raw, val_ty, merge, outer, result_type, s);
            (s, end_list(end, rest))
        },
    }));
    }
}

/// `lower_arms` carries on.
pub broadcast proof fn lower_arms_carries(
    l1: Lower,
    l2: Lower,
    arms: &List<MatchArm>,
    raw: Temp,
    val_ty: &Type,
    merge: BlockId,
    outer: &List<Entry<Temp>>,
    result_type: &Type,
    s: St,
)
    requires
        #[trigger] follows(l1, l2),
    ensures
        carries_value(
            s,
            #[trigger] lower_arms_spec(l1, arms, raw, val_ty, merge, outer, result_type, s),
            lower_arms_spec(l2, arms, raw, val_ty, merge, outer, result_type, s),
        ),
{
    lower_arms_carries_all(l1, l2, arms);
}

/// `lower_match` carries on.
pub broadcast proof fn lower_match_carries(
    l1: Lower,
    l2: Lower,
    scrutinee: &TypedExpr,
    arms: &List<MatchArm>,
    result_type: &Type,
    s: St,
)
    requires
        #[trigger] follows(l1, l2),
    ensures
        carries_value(
            s,
            #[trigger] lower_match_spec(l1, scrutinee, arms, result_type, s),
            lower_match_spec(l2, scrutinee, arms, result_type, s),
        ),
{
    broadcast use {low_carries, lower_arms_carries};

    reveal(lower_match_spec);
}

/// `store_global` carries on.
pub broadcast proof fn store_global_carries(
    l1: Lower,
    l2: Lower,
    slot: usize,
    value: Temp,
    ty: &Type,
    immutable: bool,
    s: St,
)
    requires
        #[trigger] follows(l1, l2),
    ensures
        carries(
            s,
            #[trigger] store_global_spec(l1, slot, value, ty, immutable, s),
            store_global_spec(l2, slot, value, ty, immutable, s),
        ),
{
    reveal(store_global_spec);
}

/// `lower_value_into_slot` carries on.
pub broadcast proof fn lower_value_into_slot_carries(
    l1: Lower,
    l2: Lower,
    value: &TypedExpr,
    slot_ty: &Type,
    s: St,
)
    requires
        #[trigger] follows(l1, l2),
    ensures
        carries_value(
            s,
            #[trigger] lower_value_into_slot_spec(l1, value, slot_ty, s),
            lower_value_into_slot_spec(l2, value, slot_ty, s),
        ),
{
    broadcast use {low_carries, try_lower_sealed_literal_carries, try_lower_sum_literal_carries};

    reveal(lower_value_into_slot_spec);
}

/// `lower_stmt` carries on.
pub broadcast proof fn lower_stmt_carries(l1: Lower, l2: Lower, stmt: &TypedStmt, s: St)
    requires
        #[trigger] follows(l1, l2),
    ensures
        carries(s, #[trigger] lower_stmt_spec(l1, stmt, s), lower_stmt_spec(l2, stmt, s)),
{
    broadcast use {low_carries, store_global_carries, lower_value_into_slot_carries};

    reveal(lower_stmt_spec);
}

/// `lower_stmts` carries on, for every state.
proof fn lower_stmts_carries_all(l1: Lower, l2: Lower, stmts: &List<TypedStmt>)
    requires
        follows(l1, l2),
    ensures
        forall|s: St|
            carries(s, #[trigger] lower_stmts_spec(l1, stmts, s), lower_stmts_spec(l2, stmts, s)),
    decreases stmts,
{
    broadcast use lower_stmt_carries;

    reveal_with_fuel(lower_stmts_spec, 2);
    match stmts {
        List::Nil => {},
        List::Cons(n) => {
            lower_stmts_carries_all(l1, l2, &n.tail);
        },
    }
    assert forall|s: St|
        carries(s, #[trigger] lower_stmts_spec(l1, stmts, s), lower_stmts_spec(l2, stmts, s)) by {
        assert(lower_stmts_spec(l1, stmts, s)
            == (match stmts {
        List::Nil => s,
        List::Cons(n) => {
            let s = lower_stmt_spec(l1, &n.head, s);
            lower_stmts_spec(l1, &n.tail, s)
        },
    }));
    }
}

/// `lower_stmts` carries on.
pub broadcast proof fn lower_stmts_carries(l1: Lower, l2: Lower, stmts: &List<TypedStmt>, s: St)
    requires
        #[trigger] follows(l1, l2),
    ensures
        carries(s, #[trigger] lower_stmts_spec(l1, stmts, s), lower_stmts_spec(l2, stmts, s)),
{
    lower_stmts_carries_all(l1, l2, stmts);
}

/// `lower_block` carries on.
pub broadcast proof fn lower_block_carries(
    l1: Lower,
    l2: Lower,
    stmts: &List<TypedStmt>,
    expr: &TypedExpr,
    s: St,
)
    requires
        #[trigger] follows(l1, l2),
    ensures
        carries_value(
            s,
            #[trigger] lower_block_spec(l1, stmts, expr, s),
            lower_block_spec(l2, stmts, expr, s),
        ),
{
    broadcast use {low_carries, lower_stmts_carries};

    reveal(lower_block_spec);
}

/// `lower_local_get` carries on.
pub broadcast proof fn lower_local_get_carries(l1: Lower, l2: Lower, slot: usize, ty: &Type, s: St)
    requires
        #[trigger] follows(l1, l2),
    ensures
        carries_value(
            s,
            #[trigger] lower_local_get_spec(l1, slot, ty, s),
            lower_local_get_spec(l2, slot, ty, s),
        ),
{
    reveal(lower_local_get_spec);
}

/// `lower_local_set` carries on.
pub broadcast proof fn lower_local_set_carries(
    l1: Lower,
    l2: Lower,
    slot: usize,
    value: &TypedExpr,
    ty: &Type,
    s: St,
)
    requires
        #[trigger] follows(l1, l2),
    ensures
        carries_value(
            s,
            #[trigger] lower_local_set_spec(l1, slot, value, ty, s),
            lower_local_set_spec(l2, slot, value, ty, s),
        ),
{
    broadcast use low_carries;

    reveal(lower_local_set_spec);
}

/// `lower_binary` carries on.
pub broadcast proof fn lower_binary_carries(
    l1: Lower,
    l2: Lower,
    left: &TypedExpr,
    op: BinOp,
    right: &TypedExpr,
    result_type: &Type,
    s: St,
)
    requires
        #[trigger] follows(l1, l2),
    ensures
        carries_value(
            s,
            #[trigger] lower_binary_spec(l1, left, op, right, result_type, s),
            lower_binary_spec(l2, left, op, right, result_type, s),
        ),
{
    broadcast use {low_carries, lower_short_circuit_carries};

    reveal(lower_binary_spec);
}

/// `lower_unary` carries on.
pub broadcast proof fn lower_unary_carries(
    l1: Lower,
    l2: Lower,
    op: UnaryOp,
    operand: &TypedExpr,
    result_type: &Type,
    s: St,
)
    requires
        #[trigger] follows(l1, l2),
    ensures
        carries_value(
            s,
            #[trigger] lower_unary_spec(l1, op, operand, result_type, s),
            lower_unary_spec(l2, op, operand, result_type, s),
        ),
{
    broadcast use {low_carries, lower_cond_as_bool_carries};

    reveal(lower_unary_spec);
}

/// `lower_coerce` carries on.
pub broadcast proof fn lower_coerce_carries(
    l1: Lower,
    l2: Lower,
    expr: &TypedExpr,
    from: &Type,
    to: &Type,
    s: St,
)
    requires
        #[trigger] follows(l1, l2),
    ensures
        carries_value(
            s,
            #[trigger] lower_coerce_spec(l1, expr, from, to, s),
            lower_coerce_spec(l2, expr, from, to, s),
        ),
{
    broadcast use {low_carries, try_lower_sealed_literal_carries};

    reveal(lower_coerce_spec);
}

/// `lower_from_json` carries on.
pub broadcast proof fn lower_from_json_carries(
    l1: Lower,
    l2: Lower,
    target: &Type,
    value: &TypedExpr,
    result_type: &Type,
    named_defs: &List<NamedDef>,
    s: St,
)
    requires
        #[trigger] follows(l1, l2),
    ensures
        carries_value(
            s,
            #[trigger] lower_from_json_spec(l1, target, value, result_type, named_defs, s),
            lower_from_json_spec(l2, target, value, result_type, named_defs, s),
        ),
{
    broadcast use low_carries;

    reveal(lower_from_json_spec);
}

/// `lower_open_fields` carries on, for every state.
proof fn lower_open_fields_carries_all(l1: Lower, l2: Lower, fields: &List<FieldInit>)
    requires
        follows(l1, l2),
    ensures
        forall|s: St|
            carries_value(
                s,
                #[trigger] lower_open_fields_spec(l1, fields, s),
                lower_open_fields_spec(l2, fields, s),
            ),
    decreases fields,
{
    broadcast use low_carries;

    reveal_with_fuel(lower_open_fields_spec, 2);
    match fields {
        List::Nil => {},
        List::Cons(n) => {
            lower_open_fields_carries_all(l1, l2, &n.tail);
        },
    }
    assert forall|s: St|
        carries_value(
            s,
            #[trigger] lower_open_fields_spec(l1, fields, s),
            lower_open_fields_spec(l2, fields, s),
        ) by {
        assert(lower_open_fields_spec(l1, fields, s)
            == (match fields {
        List::Nil => (s, List::Nil),
        List::Cons(n) => {
            let (s, t) = low(l1, &n.head.value, s);
            let (s, temp) = on(s, open_record_spec(t, &n.head.value.ty(), s.b));
            let (s, rest) = lower_open_fields_spec(l1, &n.tail, s);
            (s, prepend(NamedTemp { name: dup_str(&n.head.name), temp }, rest))
        },
    }));
    }
}

/// `lower_open_fields` carries on.
pub broadcast proof fn lower_open_fields_carries(
    l1: Lower,
    l2: Lower,
    fields: &List<FieldInit>,
    s: St,
)
    requires
        #[trigger] follows(l1, l2),
    ensures
        carries_value(
            s,
            #[trigger] lower_open_fields_spec(l1, fields, s),
            lower_open_fields_spec(l2, fields, s),
        ),
{
    lower_open_fields_carries_all(l1, l2, fields);
}

/// `lower_spreads` carries on, for every state.
proof fn lower_spreads_carries_all(l1: Lower, l2: Lower, spreads: &List<TypedExpr>)
    requires
        follows(l1, l2),
    ensures
        forall|s: St|
            carries_value(
                s,
                #[trigger] lower_spreads_spec(l1, spreads, s),
                lower_spreads_spec(l2, spreads, s),
            ),
    decreases spreads,
{
    broadcast use low_carries;

    reveal_with_fuel(lower_spreads_spec, 2);
    match spreads {
        List::Nil => {},
        List::Cons(n) => {
            lower_spreads_carries_all(l1, l2, &n.tail);
        },
    }
    assert forall|s: St|
        carries_value(
            s,
            #[trigger] lower_spreads_spec(l1, spreads, s),
            lower_spreads_spec(l2, spreads, s),
        ) by {
        assert(lower_spreads_spec(l1, spreads, s)
            == (match spreads {
        List::Nil => (s, List::Nil),
        List::Cons(n) => {
            let (s, t) = low(l1, &n.head, s);
            let (s, temp) = on(s, open_record_spec(t, &n.head.ty(), s.b));
            let (s, rest) = lower_spreads_spec(l1, &n.tail, s);
            (s, prepend(temp, rest))
        },
    }));
    }
}

/// `lower_spreads` carries on.
pub broadcast proof fn lower_spreads_carries(l1: Lower, l2: Lower, spreads: &List<TypedExpr>, s: St)
    requires
        #[trigger] follows(l1, l2),
    ensures
        carries_value(
            s,
            #[trigger] lower_spreads_spec(l1, spreads, s),
            lower_spreads_spec(l2, spreads, s),
        ),
{
    lower_spreads_carries_all(l1, l2, spreads);
}

/// `lower_computed` carries on, for every state.
proof fn lower_computed_carries_all(l1: Lower, l2: Lower, fields: &List<ComputedField>)
    requires
        follows(l1, l2),
    ensures
        forall|s: St|
            carries_value(
                s,
                #[trigger] lower_computed_spec(l1, fields, s),
                lower_computed_spec(l2, fields, s),
            ),
    decreases fields,
{
    broadcast use low_carries;

    reveal_with_fuel(lower_computed_spec, 2);
    match fields {
        List::Nil => {},
        List::Cons(n) => {
            lower_computed_carries_all(l1, l2, &n.tail);
        },
    }
    assert forall|s: St|
        carries_value(
            s,
            #[trigger] lower_computed_spec(l1, fields, s),
            lower_computed_spec(l2, fields, s),
        ) by {
        assert(lower_computed_spec(l1, fields, s)
            == (match fields {
        List::Nil => (s, List::Nil),
        List::Cons(n) => {
            let (s, key) = low(l1, &n.head.key, s);
            let (s, value) = low(l1, &n.head.value, s);
            let (s, rest) = lower_computed_spec(l1, &n.tail, s);
            (s, prepend(KeyedTemp { key, value }, rest))
        },
    }));
    }
}

/// `lower_computed` carries on.
pub broadcast proof fn lower_computed_carries(
    l1: Lower,
    l2: Lower,
    fields: &List<ComputedField>,
    s: St,
)
    requires
        #[trigger] follows(l1, l2),
    ensures
        carries_value(
            s,
            #[trigger] lower_computed_spec(l1, fields, s),
            lower_computed_spec(l2, fields, s),
        ),
{
    lower_computed_carries_all(l1, l2, fields);
}

/// `lower_make_object` carries on.
pub broadcast proof fn lower_make_object_carries(
    l1: Lower,
    l2: Lower,
    fields: &List<FieldInit>,
    spreads: &List<TypedExpr>,
    computed: &List<ComputedField>,
    ty: &Type,
    s: St,
)
    requires
        #[trigger] follows(l1, l2),
    ensures
        carries_value(
            s,
            #[trigger] lower_make_object_spec(l1, fields, spreads, computed, ty, s),
            lower_make_object_spec(l2, fields, spreads, computed, ty, s),
        ),
{
    broadcast use {lower_open_fields_carries, lower_spreads_carries, lower_computed_carries};

    reveal(lower_make_object_spec);
}

/// `lower_elements` carries on, for every state.
proof fn lower_elements_carries_all(l1: Lower, l2: Lower, elements: &List<TypedExpr>)
    requires
        follows(l1, l2),
    ensures
        forall|elem_ty: &Type, sealed_arr: bool, s: St|
            carries_value(
                s,
                #[trigger] lower_elements_spec(l1, elements, elem_ty, sealed_arr, s),
                lower_elements_spec(l2, elements, elem_ty, sealed_arr, s),
            ),
    decreases elements,
{
    broadcast use {low_carries, lower_value_into_slot_carries};

    reveal_with_fuel(lower_elements_spec, 2);
    match elements {
        List::Nil => {},
        List::Cons(n) => {
            lower_elements_carries_all(l1, l2, &n.tail);
        },
    }
    assert forall|elem_ty: &Type, sealed_arr: bool, s: St|
        carries_value(
            s,
            #[trigger] lower_elements_spec(l1, elements, elem_ty, sealed_arr, s),
            lower_elements_spec(l2, elements, elem_ty, sealed_arr, s),
        ) by {
        assert(lower_elements_spec(l1, elements, elem_ty, sealed_arr, s)
            == (match elements {
        List::Nil => (s, ArrayElems { temps: List::Nil, shells: List::Nil }),
        List::Cons(n) => {
            let (s, elem) = if sealed_arr {
                let (s, t) = lower_value_into_slot_spec(l1, &n.head, elem_ty, s);
                (s, BoxedOperand { temp: t, shells: List::Nil })
            } else {
                let (s, t) = low(l1, &n.head, s);
                on(s, store_element_spec(t, &n.head, elem_ty, s.b))
            };
            let (s, rest) = lower_elements_spec(l1, &n.tail, elem_ty, sealed_arr, s);
            (
                s,
                ArrayElems {
                    temps: prepend(elem.temp, rest.temps),
                    shells: join_shells(&elem.shells, rest.shells),
                },
            )
        },
    }));
    }
}

/// `lower_elements` carries on.
pub broadcast proof fn lower_elements_carries(
    l1: Lower,
    l2: Lower,
    elements: &List<TypedExpr>,
    elem_ty: &Type,
    sealed_arr: bool,
    s: St,
)
    requires
        #[trigger] follows(l1, l2),
    ensures
        carries_value(
            s,
            #[trigger] lower_elements_spec(l1, elements, elem_ty, sealed_arr, s),
            lower_elements_spec(l2, elements, elem_ty, sealed_arr, s),
        ),
{
    lower_elements_carries_all(l1, l2, elements);
}

/// `lower_make_array` carries on.
pub broadcast proof fn lower_make_array_carries(
    l1: Lower,
    l2: Lower,
    elements: &List<TypedExpr>,
    ty: &Type,
    s: St,
)
    requires
        #[trigger] follows(l1, l2),
    ensures
        carries_value(
            s,
            #[trigger] lower_make_array_spec(l1, elements, ty, s),
            lower_make_array_spec(l2, elements, ty, s),
        ),
{
    broadcast use lower_elements_carries;

    reveal(lower_make_array_spec);
}

/// `try_lower_node_field` carries on.
pub broadcast proof fn try_lower_node_field_carries(
    l1: Lower,
    l2: Lower,
    object: &TypedExpr,
    name: &String,
    result_type: &Type,
    s: St,
)
    requires
        #[trigger] follows(l1, l2),
    ensures
        carries_value(
            s,
            #[trigger] try_lower_node_field_spec(l1, object, name, result_type, s),
            try_lower_node_field_spec(l2, object, name, result_type, s),
        ),
{
    reveal(try_lower_node_field_spec);
}

/// `lower_sealed_field` carries on.
pub broadcast proof fn lower_sealed_field_carries(
    l1: Lower,
    l2: Lower,
    object: &TypedExpr,
    name: &String,
    result_type: &Type,
    s: St,
)
    requires
        #[trigger] follows(l1, l2),
    ensures
        carries_value(
            s,
            #[trigger] lower_sealed_field_spec(l1, object, name, result_type, s),
            lower_sealed_field_spec(l2, object, name, result_type, s),
        ),
{
    broadcast use low_carries;

    reveal(lower_sealed_field_spec);
}

/// `lower_container_base_borrowed` carries on.
pub broadcast proof fn lower_container_base_borrowed_carries(
    l1: Lower,
    l2: Lower,
    object: &TypedExpr,
    s: St,
)
    requires
        #[trigger] follows(l1, l2),
    ensures
        carries_value(
            s,
            #[trigger] lower_container_base_borrowed_spec(l1, object, s),
            lower_container_base_borrowed_spec(l2, object, s),
        ),
{
    reveal(lower_container_base_borrowed_spec);
}

/// `lower_base` carries on.
pub broadcast proof fn lower_base_carries(l1: Lower, l2: Lower, object: &TypedExpr, s: St)
    requires
        #[trigger] follows(l1, l2),
    ensures
        carries_value(s, #[trigger] lower_base_spec(l1, object, s), lower_base_spec(l2, object, s)),
{
    broadcast use {low_carries, lower_container_base_borrowed_carries};

    reveal(lower_base_spec);
}

/// `lower_place` carries on.
pub broadcast proof fn lower_place_carries(
    l1: Lower,
    l2: Lower,
    object: &TypedExpr,
    key: &TypedExpr,
    s: St,
)
    requires
        #[trigger] follows(l1, l2),
    ensures
        carries_value(
            s,
            #[trigger] lower_place_spec(l1, object, key, s),
            lower_place_spec(l2, object, key, s),
        ),
{
    broadcast use {low_carries, lower_base_carries};

    reveal(lower_place_spec);
}

/// `lower_element_read` carries on.
pub broadcast proof fn lower_element_read_carries(
    l1: Lower,
    l2: Lower,
    object: &TypedExpr,
    key: &TypedExpr,
    result_type: &Type,
    s: St,
)
    requires
        #[trigger] follows(l1, l2),
    ensures
        carries_value(
            s,
            #[trigger] lower_element_read_spec(l1, object, key, result_type, s),
            lower_element_read_spec(l2, object, key, result_type, s),
        ),
{
    broadcast use lower_place_carries;

    reveal(lower_element_read_spec);
}

/// `try_lower_sealed_array_field` carries on.
pub broadcast proof fn try_lower_sealed_array_field_carries(
    l1: Lower,
    l2: Lower,
    object: &TypedExpr,
    field: &String,
    result_ty: &Type,
    s: St,
)
    requires
        #[trigger] follows(l1, l2),
    ensures
        carries_value(
            s,
            #[trigger] try_lower_sealed_array_field_spec(l1, object, field, result_ty, s),
            try_lower_sealed_array_field_spec(l2, object, field, result_ty, s),
        ),
{
    broadcast use lower_place_carries;

    reveal(try_lower_sealed_array_field_spec);
}

/// `try_lower_packed_elem_field` carries on.
pub broadcast proof fn try_lower_packed_elem_field_carries(
    l1: Lower,
    l2: Lower,
    object: &TypedExpr,
    field: &String,
    result_ty: &Type,
    s: St,
)
    requires
        #[trigger] follows(l1, l2),
    ensures
        carries_value(
            s,
            #[trigger] try_lower_packed_elem_field_spec(l1, object, field, result_ty, s),
            try_lower_packed_elem_field_spec(l2, object, field, result_ty, s),
        ),
{
    reveal(try_lower_packed_elem_field_spec);
}

/// `try_lower_boxed_array_field` carries on.
pub broadcast proof fn try_lower_boxed_array_field_carries(
    l1: Lower,
    l2: Lower,
    object: &TypedExpr,
    field: &String,
    result_ty: &Type,
    s: St,
)
    requires
        #[trigger] follows(l1, l2),
    ensures
        carries_value(
            s,
            #[trigger] try_lower_boxed_array_field_spec(l1, object, field, result_ty, s),
            try_lower_boxed_array_field_spec(l2, object, field, result_ty, s),
        ),
{
    broadcast use lower_place_carries;

    reveal(try_lower_boxed_array_field_spec);
}

/// `try_lower_elem_field` carries on.
pub broadcast proof fn try_lower_elem_field_carries(
    l1: Lower,
    l2: Lower,
    object: &TypedExpr,
    field: &String,
    result_ty: &Type,
    s: St,
)
    requires
        #[trigger] follows(l1, l2),
    ensures
        carries_value(
            s,
            #[trigger] try_lower_elem_field_spec(l1, object, field, result_ty, s),
            try_lower_elem_field_spec(l2, object, field, result_ty, s),
        ),
{
    broadcast use {
        try_lower_sealed_array_field_carries, try_lower_packed_elem_field_carries,
        try_lower_boxed_array_field_carries,
    };

    reveal(try_lower_elem_field_spec);
}

/// `try_lower_fixed_field` carries on.
pub broadcast proof fn try_lower_fixed_field_carries(
    l1: Lower,
    l2: Lower,
    object: &TypedExpr,
    name: &String,
    result_type: &Type,
    s: St,
)
    requires
        #[trigger] follows(l1, l2),
    ensures
        carries_value(
            s,
            #[trigger] try_lower_fixed_field_spec(l1, object, name, result_type, s),
            try_lower_fixed_field_spec(l2, object, name, result_type, s),
        ),
{
    broadcast use {
        try_lower_node_field_carries, lower_sealed_field_carries, try_lower_elem_field_carries,
    };

    reveal(try_lower_fixed_field_spec);
}

/// `lower_index` carries on.
pub broadcast proof fn lower_index_carries(
    l1: Lower,
    l2: Lower,
    object: &TypedExpr,
    key: &TypedExpr,
    result_type: &Type,
    s: St,
)
    requires
        #[trigger] follows(l1, l2),
    ensures
        carries_value(
            s,
            #[trigger] lower_index_spec(l1, object, key, result_type, s),
            lower_index_spec(l2, object, key, result_type, s),
        ),
{
    broadcast use {lower_element_read_carries, try_lower_fixed_field_carries};

    reveal(lower_index_spec);
}

/// `lower_field_get` carries on.
pub broadcast proof fn lower_field_get_carries(
    l1: Lower,
    l2: Lower,
    object: &TypedExpr,
    field: &String,
    result_type: &Type,
    s: St,
)
    requires
        #[trigger] follows(l1, l2),
    ensures
        carries_value(
            s,
            #[trigger] lower_field_get_spec(l1, object, field, result_type, s),
            lower_field_get_spec(l2, object, field, result_type, s),
        ),
{
    broadcast use {low_carries, try_lower_elem_field_carries};

    reveal(lower_field_get_spec);
}

/// `create_level` carries on.
pub broadcast proof fn create_level_carries(
    l1: Lower,
    l2: Lower,
    parent: Temp,
    parent_ty: &Type,
    key: &TypedExpr,
    level_ty: &Type,
    read_ty: &Type,
    s: St,
)
    requires
        #[trigger] follows(l1, l2),
    ensures
        carries_value(
            s,
            #[trigger] create_level_spec(l1, parent, parent_ty, key, level_ty, read_ty, s),
            create_level_spec(l2, parent, parent_ty, key, level_ty, read_ty, s),
        ),
{
    broadcast use low_carries;

    reveal(create_level_spec);
}

/// `get_or_create_level` carries on.
pub broadcast proof fn get_or_create_level_carries(
    l1: Lower,
    l2: Lower,
    base: &TypedTemp,
    key: &TypedExpr,
    level_ty: &Type,
    s: St,
)
    requires
        #[trigger] follows(l1, l2),
    ensures
        carries_value(
            s,
            #[trigger] get_or_create_level_spec(l1, base, key, level_ty, s),
            get_or_create_level_spec(l2, base, key, level_ty, s),
        ),
{
    broadcast use {low_carries, create_level_carries};

    reveal(get_or_create_level_spec);
}

/// `lower_index_get_or_create` carries on, for every state.
proof fn lower_index_get_or_create_carries_all(l1: Lower, l2: Lower, object: &TypedExpr)
    requires
        follows(l1, l2),
    ensures
        forall|s: St|
            carries_value(
                s,
                #[trigger] lower_index_get_or_create_spec(l1, object, s),
                lower_index_get_or_create_spec(l2, object, s),
            ),
    decreases object,
{
    broadcast use {get_or_create_level_carries, lower_base_carries};

    reveal_with_fuel(lower_index_get_or_create_spec, 2);
    match object {
        TypedExpr::Index { object: parent, .. } => {
            lower_index_get_or_create_carries_all(l1, l2, parent);
        },
        _ => {},
    }
    assert forall|s: St|
        carries_value(
            s,
            #[trigger] lower_index_get_or_create_spec(l1, object, s),
            lower_index_get_or_create_spec(l2, object, s),
        ) by {
        assert(lower_index_get_or_create_spec(l1, object, s)
            == (match object {
        TypedExpr::Index { object: parent, key, .. } => {
            match vivifiable_level_map_ty(&parent.ty()) {
                None => (s, None),
                Some(level_ty) => {
                    let (s, made) = lower_index_get_or_create_spec(l1, parent, s);
                    let (s, base) = match made {
                        Some(t) => (s, t),
                        None => {
                            let (s, t) = lower_base_spec(l1, parent, s);
                            (s, TypedTemp { temp: t, ty: parent.ty() })
                        },
                    };
                    let (s, level) = get_or_create_level_spec(l1, &base, key, &level_ty, s);
                    (s, Some(level))
                },
            }
        },
        _ => (s, None),
    }));
    }
}

/// `lower_index_get_or_create` carries on.
pub broadcast proof fn lower_index_get_or_create_carries(
    l1: Lower,
    l2: Lower,
    object: &TypedExpr,
    s: St,
)
    requires
        #[trigger] follows(l1, l2),
    ensures
        carries_value(
            s,
            #[trigger] lower_index_get_or_create_spec(l1, object, s),
            lower_index_get_or_create_spec(l2, object, s),
        ),
{
    lower_index_get_or_create_carries_all(l1, l2, object);
}

/// `lower_assignment` carries on.
pub broadcast proof fn lower_assignment_carries(
    l1: Lower,
    l2: Lower,
    object: &TypedExpr,
    key: &TypedExpr,
    value: &TypedExpr,
    obj_ty: &Type,
    s: St,
)
    requires
        #[trigger] follows(l1, l2),
    ensures
        carries_value(
            s,
            #[trigger] lower_assignment_spec(l1, object, key, value, obj_ty, s),
            lower_assignment_spec(l2, object, key, value, obj_ty, s),
        ),
{
    broadcast use {low_carries, lower_index_get_or_create_carries, lower_base_carries};

    reveal(lower_assignment_spec);
}

/// `lower_index_set` carries on.
pub broadcast proof fn lower_index_set_carries(
    l1: Lower,
    l2: Lower,
    object: &TypedExpr,
    key: &TypedExpr,
    value: &TypedExpr,
    obj_ty: &Type,
    s: St,
)
    requires
        #[trigger] follows(l1, l2),
    ensures
        carries_value(
            s,
            #[trigger] lower_index_set_spec(l1, object, key, value, obj_ty, s),
            lower_index_set_spec(l2, object, key, value, obj_ty, s),
        ),
{
    broadcast use {low_carries, lower_assignment_carries};

    reveal(lower_index_set_spec);
}

/// `lower_function_expr` carries on.
pub broadcast proof fn lower_function_expr_carries(
    l1: Lower,
    l2: Lower,
    name: &Option<String>,
    params: &List<TypedParam>,
    body: &TypedExpr,
    ret_type: &Type,
    captures: &List<Capture>,
    s: St,
)
    requires
        #[trigger] follows(l1, l2),
    ensures
        carries_value(
            s,
            #[trigger] lower_function_expr_spec(l1, name, params, body, ret_type, captures, s),
            lower_function_expr_spec(l2, name, params, body, ret_type, captures, s),
        ),
{
    broadcast use lower_function_expr_with_id_carries;

    reveal(lower_function_expr_spec);
}

/// `lower_string_parts` carries on, for every state.
proof fn lower_string_parts_carries_all(l1: Lower, l2: Lower, parts: &List<TypedStringPart>)
    requires
        follows(l1, l2),
    ensures
        forall|s: St|
            carries_value(
                s,
                #[trigger] lower_string_parts_spec(l1, parts, s),
                lower_string_parts_spec(l2, parts, s),
            ),
    decreases parts,
{
    broadcast use low_carries;

    reveal_with_fuel(lower_string_parts_spec, 2);
    match parts {
        List::Nil => {},
        List::Cons(n) => {
            lower_string_parts_carries_all(l1, l2, &n.tail);
        },
    }
    assert forall|s: St|
        carries_value(
            s,
            #[trigger] lower_string_parts_spec(l1, parts, s),
            lower_string_parts_spec(l2, parts, s),
        ) by {
        assert(lower_string_parts_spec(l1, parts, s)
            == (match parts {
        List::Nil => (s, StringParts { temps: List::Nil, owned: List::Nil }),
        List::Cons(n) => match &n.head {
            TypedStringPart::Literal(text) => {
                let (s, t) = on(s, s.b.const_temp(Const::Str(Text::Owned(dup_str(text)))));
                let (s, rest) = lower_string_parts_spec(l1, &n.tail, s);
                (s, StringParts { temps: prepend(t, rest.temps), owned: rest.owned })
            },
            TypedStringPart::Expr(e) => {
                let (s, val) = low(l1, e, s);
                let (s, t) = on(s, s.b.call_intrinsic(Intrinsic::ToString, one(val), &Type::Str));
                let (s, rest) = lower_string_parts_spec(l1, &n.tail, s);
                (s, StringParts { temps: prepend(t, rest.temps), owned: prepend(t, rest.owned) })
            },
        },
    }));
    }
}

/// `lower_string_parts` carries on.
pub broadcast proof fn lower_string_parts_carries(
    l1: Lower,
    l2: Lower,
    parts: &List<TypedStringPart>,
    s: St,
)
    requires
        #[trigger] follows(l1, l2),
    ensures
        carries_value(
            s,
            #[trigger] lower_string_parts_spec(l1, parts, s),
            lower_string_parts_spec(l2, parts, s),
        ),
{
    lower_string_parts_carries_all(l1, l2, parts);
}

/// `lower_string_interp` carries on.
pub broadcast proof fn lower_string_interp_carries(
    l1: Lower,
    l2: Lower,
    parts: &List<TypedStringPart>,
    s: St,
)
    requires
        #[trigger] follows(l1, l2),
    ensures
        carries_value(
            s,
            #[trigger] lower_string_interp_spec(l1, parts, s),
            lower_string_interp_spec(l2, parts, s),
        ),
{
    broadcast use lower_string_parts_carries;

    reveal(lower_string_interp_spec);
}

/// `lower_expr_inner` carries on.
pub broadcast proof fn lower_expr_inner_carries(l1: Lower, l2: Lower, expr: &TypedExpr, s: St)
    requires
        #[trigger] follows(l1, l2),
    ensures
        carries_value(
            s,
            #[trigger] lower_expr_inner_spec(l1, expr, s),
            lower_expr_inner_spec(l2, expr, s),
        ),
{
    broadcast use {
        lower_call_carries, lower_if_carries, lower_is_carries, lower_has_carries,
        lower_match_carries, lower_block_carries, lower_local_get_carries, lower_local_set_carries,
        lower_binary_carries, lower_unary_carries, lower_coerce_carries, lower_from_json_carries,
        lower_make_object_carries, lower_make_array_carries, lower_index_carries,
        lower_field_get_carries, lower_index_set_carries, lower_function_expr_carries,
        lower_string_interp_carries,
    };

    reveal(lower_expr_inner_spec);
}

/// Where one more level of nesting is allowed, the same happens as long as the limit is not
/// reached.
proof fn one_more_level_follows(d: nat)
    ensures
        follows(lower_at(d), lower_at(d + 1)),
    decreases d,
{
    reveal(lower_at);
    if d > 0 {
        let inner = (d - 1) as nat;
        one_more_level_follows(inner);
        assert forall|e: TypedExpr, s: St|
            carries_value(
                s,
                #[trigger] low_of(lower_at(d), e, s),
                low_of(lower_at(d + 1), e, s),
            ) by {
            let s0 = at_span(s, Some(e.span()));
            lower_expr_inner_carries(lower_at(inner), lower_at(d), &e, s0);
        }
    }
}

/// Where more levels of nesting are allowed, the same happens as long as the limit is not
/// reached, whatever is lowered.
pub proof fn larger_limit_follows(d: nat, larger: nat)
    requires
        d <= larger,
    ensures
        follows(lower_at(d), lower_at(larger)),
    decreases larger - d,
{
    if d == larger {
        one_more_level_follows(d);
    } else {
        one_more_level_follows(d);
        larger_limit_follows(d + 1, larger);
        assert forall|e: TypedExpr, s: St|
            carries_value(
                s,
                #[trigger] low_of(lower_at(d), e, s),
                low_of(lower_at(larger), e, s),
            ) by {
            let next = low_of(lower_at(d + 1), e, s);
            assert(carries_value(s, next, low_of(lower_at(larger), e, s)));
        }
    }
}

/// The limit on nesting does not matter where it is not reached: under any larger limit the
/// expression is lowered in the same way.
pub proof fn limit_does_not_matter(d: nat, larger: nat, e: &TypedExpr, s: St)
    requires
        d <= larger,
        !deep(low(lower_at(d), e, s).0),
    ensures
        low(lower_at(larger), e, s) == low(lower_at(d), e, s),
{
    larger_limit_follows(d, larger);
    low_carries(lower_at(d), lower_at(larger), e, s);
}

/// The lowering of the expression comes to an end: some number of levels is enough for it.
pub open spec fn ends(e: &TypedExpr, s: St) -> bool {
    exists|d: nat| !deep((#[trigger] low(lower_at(d), e, s)).0)
}

/// What the lowering of the expression comes to, however many levels it takes.
pub open spec fn lowered(e: &TypedExpr, s: St) -> (St, Temp) {
    let d = choose|d: nat| !deep((#[trigger] low(lower_at(d), e, s)).0);
    low(lower_at(d), e, s)
}

/// The lowering of an expression has one result: whatever number of levels is enough for it, the
/// result is the same.
pub proof fn lowering_has_one_result(d: nat, e: &TypedExpr, s: St)
    requires
        !deep(low(lower_at(d), e, s).0),
    ensures
        ends(e, s),
        low(lower_at(d), e, s) == lowered(e, s),
{
    let other = choose|d: nat| !deep((#[trigger] low(lower_at(d), e, s)).0);
    if d <= other {
        limit_does_not_matter(d, other, e, s);
    } else {
        limit_does_not_matter(other, d, e, s);
    }
}

/// Nor does it matter for statements, adapters and replacements.
pub proof fn limit_does_not_matter_at_top_level(
    d: nat,
    larger: nat,
    stmts: &List<TypedStmt>,
    spec: &AdapterSpec,
    rs: &List<Replacement>,
    s: St,
)
    requires
        d <= larger,
    ensures
        !deep(lower_stmts_spec(lower_at(d), stmts, s)) ==> lower_stmts_spec(
            lower_at(larger),
            stmts,
            s,
        ) == lower_stmts_spec(lower_at(d), stmts, s),
        !lower_adapter_spec(lower_at(d), spec, s.c).env.too_deep ==> lower_adapter_spec(
            lower_at(larger),
            spec,
            s.c,
        ) == lower_adapter_spec(lower_at(d), spec, s.c),
        !lower_replacements_spec(lower_at(d), rs, s.c).env.too_deep ==> lower_replacements_spec(
            lower_at(larger),
            rs,
            s.c,
        ) == lower_replacements_spec(lower_at(d), rs, s.c),
{
    larger_limit_follows(d, larger);
    lower_stmts_carries(lower_at(d), lower_at(larger), stmts, s);
    lower_adapter_carries(lower_at(d), lower_at(larger), spec, s.c);
    lower_replacements_carries(lower_at(d), lower_at(larger), rs, s.c);
}

} // verus!
