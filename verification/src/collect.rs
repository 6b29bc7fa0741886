//! Lowering of the combinators that make a new collection or one value.

use crate::analysis::elem_used_only_for_scalar_fields;
use crate::ast::{BinOp, TypedExpr};
use crate::builder::{FState, FuncBuilder, grew, grown, newer, steady_but, undefined};
use crate::coerce::{
    alloc_output_array, alloc_output_array_spec, box_to_json, box_to_json_spec, coerce_arg_to_param,
    coerce_arg_to_param_repr, coerce_arg_to_param_repr_spec, coerce_arg_to_param_spec,
    narrow_loop_index, narrow_loop_index_spec, push_output, push_output_spec,
};
use crate::combinator::{callback_ret_or, fusion, fusion_spec, reads_elem_in_place};
use crate::ctx::{Lower, LowerCtx, PackedElem, St, low, on, on_b, on_c, ran, st, valid};
use crate::expr::{lower_at, lower_expr};
use crate::fuse::{
    Terminal, apply_fuse_stages, apply_fuse_stages_spec, emit_flatmap_fused_loop,
    emit_flatmap_fused_loop_spec, emit_fused_loop, emit_fused_loop_spec, filtered_counters,
    filtered_counters_spec, fm_free_counters, fm_free_counters_spec, reclaim_fused,
    reclaim_fused_spec,
};
use crate::ir::{
    BlockId, CallTarget, Const, FlatElemKind, Incoming, Instruction, Intrinsic, Temp, Terminator,
};
use crate::list::{List, one, prepend, share, share_spec, three, two};
use crate::loops::{
    ElemAccess, LoopFlow, TypedTemp, as_bool, as_bool_spec, begin_combinator_loop,
    begin_combinator_loop_spec, call_body_closure, call_body_closure_spec, call_body_direct,
    call_body_direct_spec, elem_and_index, emit_iterable_len, emit_iterable_len_spec, emit_min_i64,
    emit_min_i64_spec, end_combinator_loop, end_combinator_loop_spec, fm_reclaim_elem,
    fm_reclaim_elem_spec, free_combinator_elem_box, free_combinator_elem_box_spec,
    free_combinator_sealed_elem, free_combinator_sealed_elem_spec, inline_lambda_body,
    inline_lambda_body_packed_view, inline_lambda_body_packed_view_spec, inline_lambda_body_spec,
    lower_callback_in_safe_ctx, lower_callback_in_safe_ctx_spec,
};
use crate::recognize::{
    FnTarget, FuseStage, Lambda, bare_fn_call_target, bare_fn_call_target_spec, callback_signature,
    chain_has_flatmap, combinator_read_elem_ty, combinator_read_elem_ty_spec, extract_fuse_chain,
    extract_fuse_chain_spec, fuse_elem_repr_reclaimable, inlinable_lambda, inlinable_local_fn,
    inlinable_local_fn_spec, is_borrowed_heap_elem, is_inline_scalar, iter_elem_type, takes_three,
    takes_two, three_or_more,
};
use crate::repr::{is_sealed_scalar_array, is_sealed_scalar_repr, is_union_ty};
use crate::types::{Type, json, same_type};
use crate::valid::{
    block_ids_ok, block_ids_tail, count_loop_temps_ok, fn_target_ok, group_valid, incoming_ok,
    incomings_ok, otemp_ok, preds_ok, reduce_loop_temps_ok, sort_arrays_ok, temp_ok, temps_ok,
    typed_ok, typed_temp_ok,
};
use vstd::prelude::*;

verus! {

broadcast use group_valid;

/// The element type of the collection that a combinator makes.
pub open spec fn out_elem_type_spec(result_type: &Type) -> Type {
    match result_type {
        Type::Array(t) => t.dup(),
        Type::Iterator(t) => t.dup(),
        _ => json(),
    }
}

/// The element type of the collection that a combinator makes.
#[verifier::when_used_as_spec(out_elem_type_spec)]
pub fn out_elem_type(result_type: &Type) -> (r: Type)
    ensures
        r == out_elem_type_spec(result_type),
{
    match result_type {
        Type::Array(t) => t.dup(),
        Type::Iterator(t) => t.dup(),
        _ => json(),
    }
}

/// The elements of what a flattening callback returns can be given back.
pub open spec fn flattens_reclaimably_spec(inner_elem_ty: &Type) -> bool {
    matches!(inner_elem_ty, Type::Never) || fuse_elem_repr_reclaimable(inner_elem_ty)
}

/// Whether the elements of what a flattening callback returns can be given back.
#[verifier::when_used_as_spec(flattens_reclaimably_spec)]
pub fn flattens_reclaimably(inner_elem_ty: &Type) -> (r: bool)
    ensures
        r == flattens_reclaimably_spec(inner_elem_ty),
{
    matches!(inner_elem_ty, Type::Never) || fuse_elem_repr_reclaimable(inner_elem_ty)
}

/// The list with `x` behind its items.
pub open spec fn append_stage_spec(stages: &List<FuseStage>, x: FuseStage) -> List<FuseStage>
    decreases stages,
{
    match stages {
        List::Nil => one(x),
        List::Cons(n) => prepend(dup_stage(&n.head), append_stage(&n.tail, x)),
    }
}

/// The list with `x` behind its items.
#[verifier::when_used_as_spec(append_stage_spec)]
pub fn append_stage(stages: &List<FuseStage>, x: FuseStage) -> (r: List<FuseStage>)
    ensures
        r == append_stage_spec(stages, x),
    decreases stages,
{
    match stages {
        List::Nil => one(x),
        List::Cons(n) => prepend(dup_stage(&n.head), append_stage(&n.tail, x)),
    }
}

/// The same step.
pub open spec fn dup_stage_spec(stage: &FuseStage) -> FuseStage {
    match stage {
        FuseStage::MapEach { lam, out_elem_ty } => {
            FuseStage::MapEach { lam: dup_lambda(lam), out_elem_ty: out_elem_ty.dup() }
        },
        FuseStage::Filter { lam } => FuseStage::Filter { lam: dup_lambda(lam) },
        FuseStage::FlatMap { lam, inner_elem_ty } => {
            FuseStage::FlatMap { lam: dup_lambda(lam), inner_elem_ty: inner_elem_ty.dup() }
        },
    }
}

/// The same step once more.
#[verifier::when_used_as_spec(dup_stage_spec)]
pub fn dup_stage(stage: &FuseStage) -> (r: FuseStage)
    ensures
        r == dup_stage_spec(stage),
{
    match stage {
        FuseStage::MapEach { lam, out_elem_ty } => FuseStage::MapEach {
            lam: dup_lambda(lam),
            out_elem_ty: out_elem_ty.dup(),
        },
        FuseStage::Filter { lam } => FuseStage::Filter { lam: dup_lambda(lam) },
        FuseStage::FlatMap { lam, inner_elem_ty } => FuseStage::FlatMap {
            lam: dup_lambda(lam),
            inner_elem_ty: inner_elem_ty.dup(),
        },
    }
}

/// The same function literal.
pub open spec fn dup_lambda_spec(lam: &Lambda) -> Lambda {
    Lambda { params: lam.params.dup(), body: share_spec(&lam.body) }
}

/// The same function literal once more.
#[verifier::when_used_as_spec(dup_lambda_spec)]
pub fn dup_lambda(lam: &Lambda) -> (r: Lambda)
    ensures
        r == dup_lambda_spec(lam),
{
    Lambda { params: lam.params.dup(), body: share(&lam.body) }
}

/// What `push_inner_elements` does to the function under construction.
#[verifier::opaque]
pub open spec fn push_inner_elements_spec(
    inner: Temp,
    inner_ty: &Type,
    inner_elem_ty: &Type,
    out: Temp,
    flat: Option<FlatElemKind>,
    out_elem_ty: &Type,
    b: FState,
) -> FState {
    let (b, inner_len) = emit_iterable_len_spec(inner, inner_ty, b);
    let (b, zero) = b.const_temp(Const::Int(0, Type::Int64));
    let (b, j) = b.alloc_temp(Type::Int64);
    let (b, j_next) = b.alloc_temp(Type::Int64);
    let inner_preheader = b.env.current_block;
    let (b, inner_header) = b.alloc_block("flatmap_inner_header");
    let (b, inner_body) = b.alloc_block("flatmap_inner_body");
    let (b, inner_exit) = b.alloc_block("flatmap_inner_exit");
    let b = b.terminate(Terminator::Jump(inner_header));
    let b = b.switch_to(inner_header);
    let b = b.emit(
        Instruction::Phi {
            dst: j,
            ty: Type::Int64,
            incomings: two(
                Incoming { val: zero, pred: inner_preheader },
                Incoming { val: j_next, pred: inner_body },
            ),
        },
    );
    let (b, inner_cond) = b.binary(BinOp::Lt, j, inner_len, &Type::Int64, &Type::Bool);
    let b = b.terminate(
        Terminator::CondJump { cond: inner_cond, then_block: inner_body, else_block: inner_exit },
    );
    let b = b.switch_to(inner_body);
    let (b, inner_elem) = b.index(inner, j, inner_ty, &Type::Int64, &json(), false);
    let borrowed = is_borrowed_heap_elem(inner_elem_ty);
    let b = push_output_spec(out, flat, out_elem_ty, inner_elem, &json(), borrowed, b);
    let b = if !borrowed {
        fm_reclaim_elem_spec(inner_elem, &json(), b)
    } else {
        b
    };
    let (b, one_c) = b.const_temp(Const::Int(1, Type::Int64));
    let b = b.emit(
        Instruction::Binary {
            dst: j_next,
            op: BinOp::Add,
            lhs: j,
            rhs: one_c,
            operand_ty: Type::Int64,
            ty: Type::Int64,
        },
    );
    let b = b.terminate(Terminator::Jump(inner_header));
    let b = b.switch_to(inner_exit);
    b.emit(Instruction::Release { val: inner, ty: inner_ty.dup() })
}

/// Emits a loop that pushes every element of a collection that was made for it, and gives
/// the collection back.
pub fn push_inner_elements(
    inner: Temp,
    inner_ty: &Type,
    inner_elem_ty: &Type,
    out: Temp,
    flat: Option<FlatElemKind>,
    out_elem_ty: &Type,
    b: &mut FuncBuilder,
)
    ensures
        final(b)@ == push_inner_elements_spec(
            inner,
            inner_ty,
            inner_elem_ty,
            out,
            flat,
            out_elem_ty,
            old(b)@,
        ),
        grown(old(b)@, final(b)@, 0),
        old(b)@.wf()
            && temp_ok(inner, old(b)@.temp_types.len())
            && temp_ok(out, old(b)@.temp_types.len())
            ==> final(b)@.wf(),
{
    reveal(push_inner_elements_spec);
    let inner_len = emit_iterable_len(inner, inner_ty, b);
    let zero = b.const_temp(Const::Int(0, Type::Int64));
    let j = b.alloc_temp(Type::Int64);
    let j_next = b.alloc_temp(Type::Int64);
    let inner_preheader = b.env.current_block;
    let inner_header = b.alloc_block("flatmap_inner_header");
    let inner_body = b.alloc_block("flatmap_inner_body");
    let inner_exit = b.alloc_block("flatmap_inner_exit");
    b.terminate(Terminator::Jump(inner_header));
    b.switch_to(inner_header);
    b.emit(
        Instruction::Phi {
            dst: j,
            ty: Type::Int64,
            incomings: two(
                Incoming { val: zero, pred: inner_preheader },
                Incoming { val: j_next, pred: inner_body },
            ),
        },
    );
    let inner_cond = b.binary(BinOp::Lt, j, inner_len, &Type::Int64, &Type::Bool);
    b.terminate(
        Terminator::CondJump { cond: inner_cond, then_block: inner_body, else_block: inner_exit },
    );
    b.switch_to(inner_body);
    let inner_elem = b.index(inner, j, inner_ty, &Type::Int64, &json(), false);
    let borrowed = is_borrowed_heap_elem(inner_elem_ty);
    push_output(out, flat, out_elem_ty, inner_elem, &json(), borrowed, b);
    if !borrowed {
        fm_reclaim_elem(inner_elem, &json(), b);
    }
    let one_c = b.const_temp(Const::Int(1, Type::Int64));
    b.emit(
        Instruction::Binary {
            dst: j_next,
            op: BinOp::Add,
            lhs: j,
            rhs: one_c,
            operand_ty: Type::Int64,
            ty: Type::Int64,
        },
    );
    b.terminate(Terminator::Jump(inner_header));
    b.switch_to(inner_exit);
    b.emit(Instruction::Release { val: inner, ty: inner_ty.dup() });
}

/// What `lower_flatmap_terminal` does to the state, where `l` lowers the expressions inside.
#[verifier::opaque]
pub open spec fn lower_flatmap_terminal_spec(
    l: Lower,
    args: &List<TypedExpr>,
    result_type: &Type,
    s: St,
) -> (St, Option<Temp>) {
    match args {
        List::Cons(a0) => match &a0.tail {
            List::Cons(a1) => if !a1.tail.is_empty() || matches!(a0.head.ty(), Type::Stream(_)) {
                (s, None)
            } else {
                lower_flatmap_spec(l, &a0.head, &a1.head, result_type, s)
            },
            List::Nil => (s, None),
        },
        List::Nil => (s, None),
    }
}

/// Lowers a call of `flatMap`: pushes the elements of what the callback returns for each
/// element. `None` where the callback can be neither called directly nor inlined, or the
/// elements could not be given back; nothing is emitted then.
pub fn lower_flatmap_terminal(
    args: &List<TypedExpr>,
    result_type: &Type,
    b: &mut FuncBuilder,
    ctx: &mut LowerCtx,
) -> (r: Option<Temp>)
    ensures
        (st(final(b), final(ctx)), r) == lower_flatmap_terminal_spec(
            lower_at(old(ctx).room.left()),
            args,
            result_type,
            st(old(b), old(ctx)),
        ),
        ran(*old(b), *old(ctx), *final(b), *final(ctx)),
        valid(st(old(b), old(ctx)))
            ==> valid(st(final(b), final(ctx))) && otemp_ok(r, final(b)@.temp_types.len()),
    decreases old(ctx).room.left(), 7nat, 0nat,
{
    reveal(lower_flatmap_terminal_spec);
    match args {
        List::Cons(a0) => match &a0.tail {
            List::Cons(a1) => if !a1.tail.is_empty() || matches!(a0.head.ty(), Type::Stream(_)) {
                None
            } else {
                lower_flatmap(&a0.head, &a1.head, result_type, b, ctx)
            },
            List::Nil => None,
        },
        List::Nil => None,
    }
}

/// What `lower_flatmap` does to the state, where `l` lowers the expressions inside.
#[verifier::opaque]
pub open spec fn lower_flatmap_spec(
    l: Lower,
    recv: &TypedExpr,
    callback: &TypedExpr,
    result_type: &Type,
    s: St,
) -> (St, Option<Temp>) {
    let fm_ret = callback_signature(callback).ret;
    let out_elem_ty = out_elem_type(result_type);
    let inner_elem_ty = iter_elem_type(&fm_ret);
    if !flattens_reclaimably(&inner_elem_ty) {
        (s, None)
    } else {
        match bare_fn_call_target_spec(callback, s) {
            Some(target) => {
                let source_ty = recv.ty();
                let read_elem_ty = combinator_read_elem_ty_spec(recv, s);
                let (s, source) = low(l, recv, s);
                let (s, o) = on(s, alloc_output_array_spec(&out_elem_ty, result_type, s.b));
                let (s, frame) = on(
                    s,
                    begin_combinator_loop_spec(
                        source,
                        &source_ty,
                        ElemAccess::Materialize(read_elem_ty.dup()),
                        s.b,
                    ),
                );
                let (s, idx) = on(s, narrow_loop_index_spec(frame.i, s.b));
                let (s, inner) = on(
                    s,
                    call_body_direct_spec(
                        &target,
                        &elem_and_index(frame.elem, &read_elem_ty, idx),
                        &fm_ret,
                        s.b,
                    ),
                );
                let s = on_b(s, free_combinator_elem_box_spec(frame.elem, &read_elem_ty, s.b));
                let s = on_b(s, free_combinator_sealed_elem_spec(frame.elem, &read_elem_ty, s.b));
                let s = on_b(
                    s,
                    push_inner_elements_spec(
                        inner,
                        &fm_ret,
                        &inner_elem_ty,
                        o.out,
                        o.flat,
                        &out_elem_ty,
                        s.b,
                    ),
                );
                let s = on_b(s, end_combinator_loop_spec(&frame, LoopFlow::Fallthrough, s.b));
                (s, Some(o.out))
            },
            None => match inlinable_local_fn_spec(callback, s) {
                None => (s, None),
                Some(lam) => {
                    let chain = extract_fuse_chain_spec(recv, s);
                    if !fuse_elem_repr_reclaimable(&iter_elem_type(&chain.base.ty())) {
                        (s, None)
                    } else {
                        let stages = append_stage(
                            &chain.stages,
                            FuseStage::FlatMap { lam, inner_elem_ty },
                        );
                        let base_ty = chain.base.ty();
                        let read_elem_ty = combinator_read_elem_ty_spec(chain.base, s);
                        let (s, o) = on(s, alloc_output_array_spec(&out_elem_ty, result_type, s.b));
                        let (s, iterable) = low(l, chain.base, s);
                        let terminal = Terminal::PushInto {
                            out: o.out,
                            flat: o.flat,
                            elem_ty: out_elem_ty,
                        };
                        let s = emit_flatmap_fused_loop_spec(
                            l,
                            iterable,
                            &base_ty,
                            &read_elem_ty,
                            &stages,
                            false,
                            &terminal,
                            s,
                        );
                        (s, Some(o.out))
                    }
                },
            },
        }
    }
}

/// Lowers `flatMap` of a callback over a collection that is no stream.
pub fn lower_flatmap(
    recv: &TypedExpr,
    callback: &TypedExpr,
    result_type: &Type,
    b: &mut FuncBuilder,
    ctx: &mut LowerCtx,
) -> (r: Option<Temp>)
    ensures
        (st(final(b), final(ctx)), r) == lower_flatmap_spec(
            lower_at(old(ctx).room.left()),
            recv,
            callback,
            result_type,
            st(old(b), old(ctx)),
        ),
        ran(*old(b), *old(ctx), *final(b), *final(ctx)),
        valid(st(old(b), old(ctx)))
            ==> valid(st(final(b), final(ctx))) && otemp_ok(r, final(b)@.temp_types.len()),
    decreases old(ctx).room.left(), 6nat, 0nat,
{
    reveal(lower_flatmap_spec);
    let fm_ret = callback_signature(callback).ret;
    let out_elem_ty = out_elem_type(result_type);
    let inner_elem_ty = iter_elem_type(&fm_ret);
    if !flattens_reclaimably(&inner_elem_ty) {
        return None;
    }
    match bare_fn_call_target(callback, b, ctx) {
        Some(target) => {
            let source_ty = recv.ty();
            let read_elem_ty = combinator_read_elem_ty(recv, b, ctx);
            let source = lower_expr(recv, b, ctx);
            let o = alloc_output_array(&out_elem_ty, result_type, b);
            let frame = begin_combinator_loop(
                source,
                &source_ty,
                ElemAccess::Materialize(read_elem_ty.dup()),
                b,
            );
            let idx = narrow_loop_index(frame.i, b);
            let inner = call_body_direct(
                &target,
                &elem_and_index(frame.elem, &read_elem_ty, idx),
                &fm_ret,
                b,
            );
            free_combinator_elem_box(frame.elem, &read_elem_ty, b);
            free_combinator_sealed_elem(frame.elem, &read_elem_ty, b);
            push_inner_elements(inner, &fm_ret, &inner_elem_ty, o.out, o.flat, &out_elem_ty, b);
            end_combinator_loop(&frame, LoopFlow::Fallthrough, b);
            return Some(o.out);
        },
        None => {},
    }
    match inlinable_local_fn(callback, b, ctx) {
        None => None,
        Some(lam) => {
            let chain = extract_fuse_chain(recv, b, ctx);
            if !fuse_elem_repr_reclaimable(&iter_elem_type(&chain.base.ty())) {
                return None;
            }
            let stages = append_stage(&chain.stages, FuseStage::FlatMap { lam, inner_elem_ty });
            let base_ty = chain.base.ty();
            let read_elem_ty = combinator_read_elem_ty(chain.base, b, ctx);
            let o = alloc_output_array(&out_elem_ty, result_type, b);
            let iterable = lower_expr(chain.base, b, ctx);
            let terminal = Terminal::PushInto { out: o.out, flat: o.flat, elem_ty: out_elem_ty };
            emit_flatmap_fused_loop(
                iterable,
                &base_ty,
                &read_elem_ty,
                &stages,
                false,
                &terminal,
                b,
                ctx,
            );
            Some(o.out)
        },
    }
}

/// What `push_mapped` does to the function under construction.
#[verifier::opaque]
pub open spec fn push_mapped_spec(
    out: Temp,
    flat: Option<FlatElemKind>,
    out_elem_ty: &Type,
    mapped: Temp,
    mapped_ty: &Type,
    elem: Temp,
    elem_ty: &Type,
    b: FState,
) -> FState {
    let b = push_output_spec(out, flat, out_elem_ty, mapped, mapped_ty, false, b);
    let b = free_combinator_elem_box_spec(elem, elem_ty, b);
    free_combinator_sealed_elem_spec(elem, elem_ty, b)
}

/// Pushes what the callback made of an element and gives the element back.
pub fn push_mapped(
    out: Temp,
    flat: Option<FlatElemKind>,
    out_elem_ty: &Type,
    mapped: Temp,
    mapped_ty: &Type,
    elem: Temp,
    elem_ty: &Type,
    b: &mut FuncBuilder,
)
    ensures
        final(b)@ == push_mapped_spec(
            out,
            flat,
            out_elem_ty,
            mapped,
            mapped_ty,
            elem,
            elem_ty,
            old(b)@,
        ),
        grown(old(b)@, final(b)@, 0),
        old(b)@.wf()
            && temp_ok(out, old(b)@.temp_types.len())
            && temp_ok(mapped, old(b)@.temp_types.len())
            && temp_ok(elem, old(b)@.temp_types.len())
            ==> final(b)@.wf(),
{
    reveal(push_mapped_spec);
    push_output(out, flat, out_elem_ty, mapped, mapped_ty, false, b);
    free_combinator_elem_box(elem, elem_ty, b);
    free_combinator_sealed_elem(elem, elem_ty, b);
}

/// What `lower_map` does to the state, where `l` lowers the expressions inside.
#[verifier::opaque]
pub open spec fn lower_map_spec(
    l: Lower,
    iterable_e: &TypedExpr,
    callback: &TypedExpr,
    result_type: &Type,
    s: St,
) -> (St, Temp) {
    let iterable_ty = iterable_e.ty();
    let sig = callback_signature(callback);
    let out_elem_ty = out_elem_type(result_type);
    let elem_ty = combinator_read_elem_ty_spec(iterable_e, s);
    match fusion_spec(iterable_e, callback, is_inline_scalar(&out_elem_ty), s) {
        Some(f) => {
            let base_ty = f.base.ty();
            let read_elem_ty = combinator_read_elem_ty_spec(f.base, s);
            let (s, o) = on(s, alloc_output_array_spec(&out_elem_ty, result_type, s.b));
            let (s, iterable) = low(l, f.base, s);
            let takes_index = takes_two(&f.lam.params);
            let terminal = Terminal::MapInto {
                lam: f.lam,
                out: o.out,
                flat: o.flat,
                elem_ty: out_elem_ty,
            };
            let s = if chain_has_flatmap(&f.stages) {
                emit_flatmap_fused_loop_spec(
                    l,
                    iterable,
                    &base_ty,
                    &read_elem_ty,
                    &f.stages,
                    takes_index,
                    &terminal,
                    s,
                )
            } else {
                emit_fused_loop_spec(l, iterable, &base_ty, &read_elem_ty, &f.stages, &terminal, s)
            };
            (s, o.out)
        },
        None => {
            let (s, iterable) = low(l, iterable_e, s);
            match bare_fn_call_target_spec(callback, s) {
                Some(target) => {
                    let (s, o) = on(s, alloc_output_array_spec(&out_elem_ty, result_type, s.b));
                    let (s, frame) = on(
                        s,
                        begin_combinator_loop_spec(
                            iterable,
                            &iterable_ty,
                            ElemAccess::Materialize(elem_ty.dup()),
                            s.b,
                        ),
                    );
                    let (s, idx) = on(s, narrow_loop_index_spec(frame.i, s.b));
                    let (s, mapped) = on(
                        s,
                        call_body_direct_spec(
                            &target,
                            &elem_and_index(frame.elem, &elem_ty, idx),
                            &sig.ret,
                            s.b,
                        ),
                    );
                    let s = on_b(
                        s,
                        push_mapped_spec(
                            o.out,
                            o.flat,
                            &out_elem_ty,
                            mapped,
                            &sig.ret,
                            frame.elem,
                            &elem_ty,
                            s.b,
                        ),
                    );
                    let s = on_b(s, end_combinator_loop_spec(&frame, LoopFlow::Fallthrough, s.b));
                    (s, o.out)
                },
                None => match inlinable_local_fn_spec(callback, s) {
                    Some(lam) => {
                        let (s, o) = on(s, alloc_output_array_spec(&out_elem_ty, result_type, s.b));
                        let s = if reads_elem_in_place(&iterable_ty, &lam) {
                            let static_elem = iter_elem_type(&iterable_ty);
                            let (s, frame) = on(
                                s,
                                begin_combinator_loop_spec(
                                    iterable,
                                    &iterable_ty,
                                    ElemAccess::Packed,
                                    s.b,
                                ),
                            );
                            let (s, idx) = on(s, narrow_loop_index_spec(frame.i, s.b));
                            let (s, mapped) = inline_lambda_body_packed_view_spec(
                                l,
                                &lam,
                                frame.elem,
                                frame.i,
                                &static_elem,
                                idx,
                                s,
                            );
                            let s = on_b(
                                s,
                                push_output_spec(
                                    o.out,
                                    o.flat,
                                    &out_elem_ty,
                                    mapped.temp,
                                    &mapped.ty,
                                    false,
                                    s.b,
                                ),
                            );
                            on_b(s, end_combinator_loop_spec(&frame, LoopFlow::Fallthrough, s.b))
                        } else {
                            let (s, frame) = on(
                                s,
                                begin_combinator_loop_spec(
                                    iterable,
                                    &iterable_ty,
                                    ElemAccess::Materialize(elem_ty.dup()),
                                    s.b,
                                ),
                            );
                            let (s, idx) = on(s, narrow_loop_index_spec(frame.i, s.b));
                            let (s, mapped) = inline_lambda_body_spec(
                                l,
                                &lam,
                                &elem_and_index(frame.elem, &elem_ty, idx),
                                s,
                            );
                            let s = on_b(
                                s,
                                push_mapped_spec(
                                    o.out,
                                    o.flat,
                                    &out_elem_ty,
                                    mapped.temp,
                                    &mapped.ty,
                                    frame.elem,
                                    &elem_ty,
                                    s.b,
                                ),
                            );
                            on_b(s, end_combinator_loop_spec(&frame, LoopFlow::Fallthrough, s.b))
                        };
                        (s, o.out)
                    },
                    None => {
                        let (s, f) = lower_callback_in_safe_ctx_spec(l, callback, s);
                        let (s, o) = on(s, alloc_output_array_spec(&out_elem_ty, result_type, s.b));
                        let (s, frame) = on(
                            s,
                            begin_combinator_loop_spec(
                                iterable,
                                &iterable_ty,
                                ElemAccess::Materialize(elem_ty.dup()),
                                s.b,
                            ),
                        );
                        let (s, idx) = on(s, narrow_loop_index_spec(frame.i, s.b));
                        let (s, mapped) = on(
                            s,
                            call_body_closure_spec(
                                f,
                                &elem_and_index(frame.elem, &elem_ty, idx),
                                &sig.params,
                                &sig.ret,
                                s.b,
                            ),
                        );
                        let s = on_b(
                            s,
                            push_mapped_spec(
                                o.out,
                                o.flat,
                                &out_elem_ty,
                                mapped,
                                &sig.ret,
                                frame.elem,
                                &elem_ty,
                                s.b,
                            ),
                        );
                        let s = on_b(
                            s,
                            end_combinator_loop_spec(&frame, LoopFlow::Fallthrough, s.b),
                        );
                        (s, o.out)
                    },
                },
            }
        },
    }
}

/// Lowers `map`: pushes what the callback makes of each element. Where the results are
/// scalars, a chain of combinators below is fused into the loop.
pub fn lower_map(
    iterable_e: &TypedExpr,
    callback: &TypedExpr,
    result_type: &Type,
    b: &mut FuncBuilder,
    ctx: &mut LowerCtx,
) -> (r: Temp)
    ensures
        (st(final(b), final(ctx)), r) == lower_map_spec(
            lower_at(old(ctx).room.left()),
            iterable_e,
            callback,
            result_type,
            st(old(b), old(ctx)),
        ),
        ran(*old(b), *old(ctx), *final(b), *final(ctx)),
        valid(st(old(b), old(ctx)))
            ==> valid(st(final(b), final(ctx))) && temp_ok(r, final(b)@.temp_types.len()),
    decreases old(ctx).room.left(), 6nat, 0nat,
{
    reveal(lower_map_spec);
    let iterable_ty = iterable_e.ty();
    let sig = callback_signature(callback);
    let out_elem_ty = out_elem_type(result_type);
    let elem_ty = combinator_read_elem_ty(iterable_e, b, ctx);
    match fusion(iterable_e, callback, is_inline_scalar(&out_elem_ty), b, ctx) {
        Some(f) => {
            let base_ty = f.base.ty();
            let read_elem_ty = combinator_read_elem_ty(f.base, b, ctx);
            let o = alloc_output_array(&out_elem_ty, result_type, b);
            let iterable = lower_expr(f.base, b, ctx);
            let takes_index = takes_two(&f.lam.params);
            let terminal = Terminal::MapInto {
                lam: f.lam,
                out: o.out,
                flat: o.flat,
                elem_ty: out_elem_ty,
            };
            if chain_has_flatmap(&f.stages) {
                emit_flatmap_fused_loop(
                    iterable,
                    &base_ty,
                    &read_elem_ty,
                    &f.stages,
                    takes_index,
                    &terminal,
                    b,
                    ctx,
                );
            } else {
                emit_fused_loop(iterable, &base_ty, &read_elem_ty, &f.stages, &terminal, b, ctx);
            }
            return o.out;
        },
        None => {},
    }
    let iterable = lower_expr(iterable_e, b, ctx);
    match bare_fn_call_target(callback, b, ctx) {
        Some(target) => {
            let o = alloc_output_array(&out_elem_ty, result_type, b);
            let frame = begin_combinator_loop(
                iterable,
                &iterable_ty,
                ElemAccess::Materialize(elem_ty.dup()),
                b,
            );
            let idx = narrow_loop_index(frame.i, b);
            let mapped = call_body_direct(
                &target,
                &elem_and_index(frame.elem, &elem_ty, idx),
                &sig.ret,
                b,
            );
            push_mapped(o.out, o.flat, &out_elem_ty, mapped, &sig.ret, frame.elem, &elem_ty, b);
            end_combinator_loop(&frame, LoopFlow::Fallthrough, b);
            return o.out;
        },
        None => {},
    }
    match inlinable_local_fn(callback, b, ctx) {
        Some(lam) => {
            let o = alloc_output_array(&out_elem_ty, result_type, b);
            if reads_elem_in_place(&iterable_ty, &lam) {
                let static_elem = iter_elem_type(&iterable_ty);
                let frame = begin_combinator_loop(iterable, &iterable_ty, ElemAccess::Packed, b);
                let idx = narrow_loop_index(frame.i, b);
                let mapped = inline_lambda_body_packed_view(
                    &lam,
                    frame.elem,
                    frame.i,
                    &static_elem,
                    idx,
                    b,
                    ctx,
                );
                push_output(o.out, o.flat, &out_elem_ty, mapped.temp, &mapped.ty, false, b);
                end_combinator_loop(&frame, LoopFlow::Fallthrough, b);
            } else {
                let frame = begin_combinator_loop(
                    iterable,
                    &iterable_ty,
                    ElemAccess::Materialize(elem_ty.dup()),
                    b,
                );
                let idx = narrow_loop_index(frame.i, b);
                let mapped = inline_lambda_body(
                    &lam,
                    &elem_and_index(frame.elem, &elem_ty, idx),
                    b,
                    ctx,
                );
                push_mapped(
                    o.out,
                    o.flat,
                    &out_elem_ty,
                    mapped.temp,
                    &mapped.ty,
                    frame.elem,
                    &elem_ty,
                    b,
                );
                end_combinator_loop(&frame, LoopFlow::Fallthrough, b);
            }
            return o.out;
        },
        None => {},
    }
    let f = lower_callback_in_safe_ctx(callback, b, ctx);
    let o = alloc_output_array(&out_elem_ty, result_type, b);
    let frame = begin_combinator_loop(
        iterable,
        &iterable_ty,
        ElemAccess::Materialize(elem_ty.dup()),
        b,
    );
    let idx = narrow_loop_index(frame.i, b);
    let mapped = call_body_closure(
        f,
        &elem_and_index(frame.elem, &elem_ty, idx),
        &sig.params,
        &sig.ret,
        b,
    );
    push_mapped(o.out, o.flat, &out_elem_ty, mapped, &sig.ret, frame.elem, &elem_ty, b);
    end_combinator_loop(&frame, LoopFlow::Fallthrough, b);
    o.out
}

/// What `push_if` does to the function under construction.
#[verifier::opaque]
pub open spec fn push_if_spec(
    keep: Temp,
    out: Temp,
    flat: Option<FlatElemKind>,
    out_elem_ty: &Type,
    elem: Temp,
    elem_ty: &Type,
    b: FState,
) -> FState {
    let (b, keep_block) = b.alloc_block("filter_keep");
    let (b, drop_block) = b.alloc_block("filter_drop");
    let (b, join_block) = b.alloc_block("filter_skip");
    let b = b.terminate(
        Terminator::CondJump { cond: keep, then_block: keep_block, else_block: drop_block },
    );
    let b = b.switch_to(keep_block);
    let b = push_output_spec(
        out,
        flat,
        out_elem_ty,
        elem,
        elem_ty,
        !is_sealed_scalar_repr(elem_ty),
        b,
    );
    let b = free_combinator_elem_box_spec(elem, elem_ty, b);
    let b = free_combinator_sealed_elem_spec(elem, elem_ty, b);
    let b = b.terminate(Terminator::Jump(join_block));
    let b = b.switch_to(drop_block);
    let b = fm_reclaim_elem_spec(elem, elem_ty, b);
    let b = b.terminate(Terminator::Jump(join_block));
    b.switch_to(join_block)
}

/// Pushes an element where the callback says so; otherwise gives it back. An element that was
/// read as a packed record is a copy: it is given back in either case.
pub fn push_if(
    keep: Temp,
    out: Temp,
    flat: Option<FlatElemKind>,
    out_elem_ty: &Type,
    elem: Temp,
    elem_ty: &Type,
    b: &mut FuncBuilder,
)
    ensures
        final(b)@ == push_if_spec(keep, out, flat, out_elem_ty, elem, elem_ty, old(b)@),
        grown(old(b)@, final(b)@, 0),
        old(b)@.wf()
            && temp_ok(keep, old(b)@.temp_types.len())
            && temp_ok(out, old(b)@.temp_types.len())
            && temp_ok(elem, old(b)@.temp_types.len())
            ==> final(b)@.wf(),
{
    reveal(push_if_spec);
    let keep_block = b.alloc_block("filter_keep");
    let drop_block = b.alloc_block("filter_drop");
    let join_block = b.alloc_block("filter_skip");
    b.terminate(
        Terminator::CondJump { cond: keep, then_block: keep_block, else_block: drop_block },
    );
    b.switch_to(keep_block);
    push_output(out, flat, out_elem_ty, elem, elem_ty, !is_sealed_scalar_repr(elem_ty), b);
    free_combinator_elem_box(elem, elem_ty, b);
    free_combinator_sealed_elem(elem, elem_ty, b);
    b.terminate(Terminator::Jump(join_block));
    b.switch_to(drop_block);
    fm_reclaim_elem(elem, elem_ty, b);
    b.terminate(Terminator::Jump(join_block));
    b.switch_to(join_block);
}

/// What `lower_filter` does to the state, where `l` lowers the expressions inside.
#[verifier::opaque]
pub open spec fn lower_filter_spec(
    l: Lower,
    iterable_e: &TypedExpr,
    callback: &TypedExpr,
    result_type: &Type,
    s: St,
) -> (St, Temp) {
    let iterable_ty = iterable_e.ty();
    let param_tys = callback_signature(callback).params;
    let out_elem_ty = out_elem_type(result_type);
    let elem_ty = combinator_read_elem_ty_spec(iterable_e, s);
    match fusion_spec(iterable_e, callback, is_inline_scalar(&out_elem_ty), s) {
        Some(f) => {
            let base_ty = f.base.ty();
            let read_elem_ty = combinator_read_elem_ty_spec(f.base, s);
            let (s, o) = on(s, alloc_output_array_spec(&out_elem_ty, result_type, s.b));
            let (s, iterable) = low(l, f.base, s);
            let takes_index = takes_two(&f.lam.params);
            let terminal = Terminal::FilterInto {
                lam: f.lam,
                out: o.out,
                flat: o.flat,
                elem_ty: out_elem_ty,
            };
            let s = if chain_has_flatmap(&f.stages) {
                emit_flatmap_fused_loop_spec(
                    l,
                    iterable,
                    &base_ty,
                    &read_elem_ty,
                    &f.stages,
                    takes_index,
                    &terminal,
                    s,
                )
            } else {
                emit_fused_loop_spec(l, iterable, &base_ty, &read_elem_ty, &f.stages, &terminal, s)
            };
            (s, o.out)
        },
        None => {
            let (s, iterable) = low(l, iterable_e, s);
            match bare_fn_call_target_spec(callback, s) {
                Some(target) => {
                    let (s, o) = on(s, alloc_output_array_spec(&out_elem_ty, result_type, s.b));
                    let (s, frame) = on(
                        s,
                        begin_combinator_loop_spec(
                            iterable,
                            &iterable_ty,
                            ElemAccess::Materialize(elem_ty.dup()),
                            s.b,
                        ),
                    );
                    let (s, idx) = on(s, narrow_loop_index_spec(frame.i, s.b));
                    let (s, keep) = on(
                        s,
                        call_body_direct_spec(
                            &target,
                            &elem_and_index(frame.elem, &elem_ty, idx),
                            &Type::Bool,
                            s.b,
                        ),
                    );
                    let s = on_b(
                        s,
                        push_if_spec(keep, o.out, o.flat, &out_elem_ty, frame.elem, &elem_ty, s.b),
                    );
                    let s = on_b(s, end_combinator_loop_spec(&frame, LoopFlow::Fallthrough, s.b));
                    (s, o.out)
                },
                None => match inlinable_local_fn_spec(callback, s) {
                    Some(lam) => {
                        let (s, o) = on(s, alloc_output_array_spec(&out_elem_ty, result_type, s.b));
                        let (s, frame) = on(
                            s,
                            begin_combinator_loop_spec(
                                iterable,
                                &iterable_ty,
                                ElemAccess::Materialize(elem_ty.dup()),
                                s.b,
                            ),
                        );
                        let (s, idx) = on(s, narrow_loop_index_spec(frame.i, s.b));
                        let (s, pred) = inline_lambda_body_spec(
                            l,
                            &lam,
                            &elem_and_index(frame.elem, &elem_ty, idx),
                            s,
                        );
                        let (s, keep) = on(s, as_bool_spec(pred.temp, &pred.ty, s.b));
                        let s = on_b(
                            s,
                            push_if_spec(
                                keep,
                                o.out,
                                o.flat,
                                &out_elem_ty,
                                frame.elem,
                                &elem_ty,
                                s.b,
                            ),
                        );
                        let s = on_b(
                            s,
                            end_combinator_loop_spec(&frame, LoopFlow::Fallthrough, s.b),
                        );
                        (s, o.out)
                    },
                    None => {
                        let (s, f) = lower_callback_in_safe_ctx_spec(l, callback, s);
                        let (s, o) = on(s, alloc_output_array_spec(&out_elem_ty, result_type, s.b));
                        let (s, frame) = on(
                            s,
                            begin_combinator_loop_spec(
                                iterable,
                                &iterable_ty,
                                ElemAccess::Materialize(elem_ty.dup()),
                                s.b,
                            ),
                        );
                        let (s, idx) = on(s, narrow_loop_index_spec(frame.i, s.b));
                        let (s, keep) = on(
                            s,
                            call_body_closure_spec(
                                f,
                                &elem_and_index(frame.elem, &elem_ty, idx),
                                &param_tys,
                                &Type::Bool,
                                s.b,
                            ),
                        );
                        let s = on_b(
                            s,
                            push_if_spec(
                                keep,
                                o.out,
                                o.flat,
                                &out_elem_ty,
                                frame.elem,
                                &elem_ty,
                                s.b,
                            ),
                        );
                        let s = on_b(
                            s,
                            end_combinator_loop_spec(&frame, LoopFlow::Fallthrough, s.b),
                        );
                        (s, o.out)
                    },
                },
            }
        },
    }
}

/// Lowers `filter`: pushes the elements of which the callback holds. Where the elements are
/// scalars, a chain of combinators below is fused into the loop.
pub fn lower_filter(
    iterable_e: &TypedExpr,
    callback: &TypedExpr,
    result_type: &Type,
    b: &mut FuncBuilder,
    ctx: &mut LowerCtx,
) -> (r: Temp)
    ensures
        (st(final(b), final(ctx)), r) == lower_filter_spec(
            lower_at(old(ctx).room.left()),
            iterable_e,
            callback,
            result_type,
            st(old(b), old(ctx)),
        ),
        ran(*old(b), *old(ctx), *final(b), *final(ctx)),
        valid(st(old(b), old(ctx)))
            ==> valid(st(final(b), final(ctx))) && temp_ok(r, final(b)@.temp_types.len()),
    decreases old(ctx).room.left(), 6nat, 0nat,
{
    reveal(lower_filter_spec);
    let iterable_ty = iterable_e.ty();
    let param_tys = callback_signature(callback).params;
    let out_elem_ty = out_elem_type(result_type);
    let elem_ty = combinator_read_elem_ty(iterable_e, b, ctx);
    match fusion(iterable_e, callback, is_inline_scalar(&out_elem_ty), b, ctx) {
        Some(f) => {
            let base_ty = f.base.ty();
            let read_elem_ty = combinator_read_elem_ty(f.base, b, ctx);
            let o = alloc_output_array(&out_elem_ty, result_type, b);
            let iterable = lower_expr(f.base, b, ctx);
            let takes_index = takes_two(&f.lam.params);
            let terminal = Terminal::FilterInto {
                lam: f.lam,
                out: o.out,
                flat: o.flat,
                elem_ty: out_elem_ty,
            };
            if chain_has_flatmap(&f.stages) {
                emit_flatmap_fused_loop(
                    iterable,
                    &base_ty,
                    &read_elem_ty,
                    &f.stages,
                    takes_index,
                    &terminal,
                    b,
                    ctx,
                );
            } else {
                emit_fused_loop(iterable, &base_ty, &read_elem_ty, &f.stages, &terminal, b, ctx);
            }
            return o.out;
        },
        None => {},
    }
    let iterable = lower_expr(iterable_e, b, ctx);
    match bare_fn_call_target(callback, b, ctx) {
        Some(target) => {
            let o = alloc_output_array(&out_elem_ty, result_type, b);
            let frame = begin_combinator_loop(
                iterable,
                &iterable_ty,
                ElemAccess::Materialize(elem_ty.dup()),
                b,
            );
            let idx = narrow_loop_index(frame.i, b);
            let keep = call_body_direct(
                &target,
                &elem_and_index(frame.elem, &elem_ty, idx),
                &Type::Bool,
                b,
            );
            push_if(keep, o.out, o.flat, &out_elem_ty, frame.elem, &elem_ty, b);
            end_combinator_loop(&frame, LoopFlow::Fallthrough, b);
            return o.out;
        },
        None => {},
    }
    match inlinable_local_fn(callback, b, ctx) {
        Some(lam) => {
            let o = alloc_output_array(&out_elem_ty, result_type, b);
            let frame = begin_combinator_loop(
                iterable,
                &iterable_ty,
                ElemAccess::Materialize(elem_ty.dup()),
                b,
            );
            let idx = narrow_loop_index(frame.i, b);
            let pred = inline_lambda_body(&lam, &elem_and_index(frame.elem, &elem_ty, idx), b, ctx);
            let keep = as_bool(pred.temp, &pred.ty, b);
            push_if(keep, o.out, o.flat, &out_elem_ty, frame.elem, &elem_ty, b);
            end_combinator_loop(&frame, LoopFlow::Fallthrough, b);
            return o.out;
        },
        None => {},
    }
    let f = lower_callback_in_safe_ctx(callback, b, ctx);
    let o = alloc_output_array(&out_elem_ty, result_type, b);
    let frame = begin_combinator_loop(
        iterable,
        &iterable_ty,
        ElemAccess::Materialize(elem_ty.dup()),
        b,
    );
    let idx = narrow_loop_index(frame.i, b);
    let keep = call_body_closure(
        f,
        &elem_and_index(frame.elem, &elem_ty, idx),
        &param_tys,
        &Type::Bool,
        b,
    );
    push_if(keep, o.out, o.flat, &out_elem_ty, frame.elem, &elem_ty, b);
    end_combinator_loop(&frame, LoopFlow::Fallthrough, b);
    o.out
}

/// The arguments of a reducer: the accumulator, the element and its index.
pub open spec fn reducer_args_spec(
    acc: Temp,
    acc_ty: &Type,
    elem: Temp,
    elem_ty: &Type,
    idx: Temp,
) -> List<TypedTemp> {
    prepend(TypedTemp { temp: acc, ty: acc_ty.dup() }, elem_and_index(elem, elem_ty, idx))
}

/// The arguments of a reducer: the accumulator, the element and its index.
#[verifier::when_used_as_spec(reducer_args_spec)]
pub fn reducer_args(
    acc: Temp,
    acc_ty: &Type,
    elem: Temp,
    elem_ty: &Type,
    idx: Temp,
) -> (r: List<TypedTemp>)
    ensures
        r == reducer_args_spec(acc, acc_ty, elem, elem_ty, idx),
        forall|n: nat|
            temp_ok(acc, n) && temp_ok(elem, n) && temp_ok(idx, n) ==> #[trigger] typed_ok(&r, n),
{
    prepend(TypedTemp { temp: acc, ty: acc_ty.dup() }, elem_and_index(elem, elem_ty, idx))
}

/// What `lower_fused_reduce_flatmap` does to the state, where `l` lowers the expressions inside.
#[verifier::opaque]
pub open spec fn lower_fused_reduce_flatmap_spec(
    l: Lower,
    base: &TypedExpr,
    stages: &List<FuseStage>,
    lam: &Lambda,
    init_expr: &TypedExpr,
    result_type: &Type,
    s: St,
) -> (St, Temp) {
    let base_ty = base.ty();
    let read_elem_ty = combinator_read_elem_ty_spec(base, s);
    let (s, iterable) = low(l, base, s);
    let (s, init_raw) = low(l, init_expr, s);
    let (s, init) = on(
        s,
        coerce_arg_to_param_repr_spec(init_raw, &init_expr.ty(), result_type, s.b),
    );
    let (s, acc_cell) = on(s, s.b.alloc_temp(json()));
    let s = on_b(s, s.b.emit(Instruction::MakeCell { dst: acc_cell, init, ty: result_type.dup() }));
    let terminal = Terminal::ReduceInto {
        lam: dup_lambda(lam),
        cell: acc_cell,
        acc_ty: result_type.dup(),
    };
    let s = emit_flatmap_fused_loop_spec(
        l,
        iterable,
        &base_ty,
        &read_elem_ty,
        stages,
        takes_three(&lam.params),
        &terminal,
        s,
    );
    let (s, result) = on(s, s.b.cell_get(acc_cell, result_type));
    let s = on_b(s, s.b.emit(Instruction::FreeCell { cell: acc_cell, ty: result_type.dup() }));
    (s, result)
}

/// Lowers `reduce` over a chain of combinators that flattens: the accumulator lives in a
/// heap cell.
pub fn lower_fused_reduce_flatmap(
    base: &TypedExpr,
    stages: &List<FuseStage>,
    lam: &Lambda,
    init_expr: &TypedExpr,
    result_type: &Type,
    b: &mut FuncBuilder,
    ctx: &mut LowerCtx,
) -> (r: Temp)
    ensures
        (st(final(b), final(ctx)), r) == lower_fused_reduce_flatmap_spec(
            lower_at(old(ctx).room.left()),
            base,
            stages,
            lam,
            init_expr,
            result_type,
            st(old(b), old(ctx)),
        ),
        ran(*old(b), *old(ctx), *final(b), *final(ctx)),
        valid(st(old(b), old(ctx)))
            ==> valid(st(final(b), final(ctx))) && temp_ok(r, final(b)@.temp_types.len()),
    decreases old(ctx).room.left(), 6nat, 0nat,
{
    reveal(lower_fused_reduce_flatmap_spec);
    let base_ty = base.ty();
    let read_elem_ty = combinator_read_elem_ty(base, b, ctx);
    let iterable = lower_expr(base, b, ctx);
    let init_raw = lower_expr(init_expr, b, ctx);
    let init = coerce_arg_to_param_repr(init_raw, &init_expr.ty(), result_type, b);
    let acc_cell = b.alloc_temp(json());
    b.emit(Instruction::MakeCell { dst: acc_cell, init, ty: result_type.dup() });
    let terminal = Terminal::ReduceInto {
        lam: dup_lambda(lam),
        cell: acc_cell,
        acc_ty: result_type.dup(),
    };
    emit_flatmap_fused_loop(
        iterable,
        &base_ty,
        &read_elem_ty,
        stages,
        takes_three(&lam.params),
        &terminal,
        b,
        ctx,
    );
    let result = b.cell_get(acc_cell, result_type);
    b.emit(Instruction::FreeCell { cell: acc_cell, ty: result_type.dup() });
    result
}

/// The accumulator is unchanged where control comes from one of the blocks.
pub open spec fn unchanged_from_spec(
    acc: Temp,
    preds: &List<BlockId>,
    last: Incoming,
) -> List<Incoming>
    decreases preds,
{
    match preds {
        List::Nil => one(last),
        List::Cons(n) => {
            prepend(Incoming { val: acc, pred: n.head }, unchanged_from(acc, &n.tail, last))
        },
    }
}

/// The accumulator is unchanged where control comes from one of the blocks.
#[verifier::when_used_as_spec(unchanged_from_spec)]
pub fn unchanged_from(acc: Temp, preds: &List<BlockId>, last: Incoming) -> (r: List<Incoming>)
    ensures
        r == unchanged_from_spec(acc, preds, last),
        forall|n: nat| temp_ok(acc, n) && incoming_ok(&last, n) ==> #[trigger] incomings_ok(&r, n),
        forall|m: nat| block_ids_ok(preds, m) && last.pred.0 < m ==> #[trigger] preds_ok(&r, m),
    decreases preds,
{
    proof {
        assert forall|m: nat| #[trigger] block_ids_ok(preds, m) implies (match preds {
            List::Nil => true,
            List::Cons(k) => block_ids_ok(&k.tail, m),
        }) by {
            block_ids_tail(preds, m);
        }
    }
    match preds {
        List::Nil => one(last),
        List::Cons(n) => prepend(
            Incoming { val: acc, pred: n.head },
            unchanged_from(acc, &n.tail, last),
        ),
    }
}

/// What `lower_fused_reduce` does to the state, where `l` lowers the expressions inside.
#[verifier::opaque]
pub open spec fn lower_fused_reduce_spec(
    l: Lower,
    base: &TypedExpr,
    stages: &List<FuseStage>,
    lam: &Lambda,
    init_expr: &TypedExpr,
    result_type: &Type,
    s: St,
) -> (St, Temp) {
    let iterable_ty = base.ty();
    let read_elem_ty = combinator_read_elem_ty_spec(base, s);
    let (s, iterable) = low(l, base, s);
    let (s, init_raw) = low(l, init_expr, s);
    let (s, init) = on(
        s,
        coerce_arg_to_param_repr_spec(init_raw, &init_expr.ty(), result_type, s.b),
    );
    let (s, counters) = on(s, filtered_counters_spec(stages, false, takes_three(&lam.params), s.b));
    let (s, len) = on(s, emit_iterable_len_spec(iterable, &iterable_ty, s.b));
    let (s, zero) = on(s, s.b.const_temp(Const::Int(0, Type::Int64)));
    let preheader = s.b.env.current_block;
    let (s, header) = on(s, s.b.alloc_block("freduce_header"));
    let (s, body) = on(s, s.b.alloc_block("freduce_body"));
    let (s, latch) = on(s, s.b.alloc_block("freduce_latch"));
    let (s, exit) = on(s, s.b.alloc_block("freduce_exit"));
    let (s, i) = on(s, s.b.alloc_temp(Type::Int64));
    let (s, i_next) = on(s, s.b.alloc_temp(Type::Int64));
    let (s, acc) = on(s, s.b.alloc_temp(result_type.dup()));
    let s = on_b(s, s.b.terminate(Terminator::Jump(header)));
    let s = on_b(s, s.b.switch_to(header));
    let s = on_b(
        s,
        s.b.emit(
            Instruction::Phi {
                dst: i,
                ty: Type::Int64,
                incomings: two(
                    Incoming { val: zero, pred: preheader },
                    Incoming { val: i_next, pred: latch },
                ),
            },
        ),
    );
    let s = on_b(
        s,
        s.b.emit(
            Instruction::Phi {
                dst: acc,
                ty: result_type.dup(),
                incomings: two(
                    Incoming { val: init, pred: preheader },
                    Incoming { val: acc, pred: latch },
                ),
            },
        ),
    );
    let (s, cond) = on(s, s.b.binary(BinOp::Lt, i, len, &Type::Int64, &Type::Bool));
    let s = on_b(
        s,
        s.b.terminate(Terminator::CondJump { cond, then_block: body, else_block: exit }),
    );
    let s = on_b(s, s.b.switch_to(body));
    let (s, elem) = on(s, s.b.index(iterable, i, &iterable_ty, &Type::Int64, &read_elem_ty, false));
    let (s, idx) = on(s, narrow_loop_index_spec(i, s.b));
    let src = TypedTemp { temp: elem, ty: read_elem_ty.dup() };
    let (s, out) = apply_fuse_stages_spec(
        l,
        stages,
        elem,
        &read_elem_ty,
        &src,
        true,
        idx,
        &counters,
        latch,
        true,
        s,
    );
    let (s, next) = inline_lambda_body_spec(
        l,
        lam,
        &reducer_args(acc, result_type, out.val, &out.ty, out.idx),
        s,
    );
    let (s, acc_next) = on(s, coerce_arg_to_param_repr_spec(next.temp, &next.ty, result_type, s.b));
    let s = on_b(s, reclaim_fused_spec(out.val, &out.ty, &src, s.b));
    let keep_pred = s.b.env.current_block;
    let s = on_b(s, s.b.terminate(Terminator::Jump(latch)));
    let s = on_b(s, s.b.switch_to(latch));
    let (s, acc_latch) = on(s, s.b.alloc_temp(result_type.dup()));
    let s = on_b(
        s,
        s.b.emit(
            Instruction::Phi {
                dst: acc_latch,
                ty: result_type.dup(),
                incomings: unchanged_from(
                    acc,
                    &out.drops,
                    Incoming { val: acc_next, pred: keep_pred },
                ),
            },
        ),
    );
    let (s, one_c) = on(s, s.b.const_temp(Const::Int(1, Type::Int64)));
    let s = on_b(
        s,
        s.b.emit(
            Instruction::Binary {
                dst: i_next,
                op: BinOp::Add,
                lhs: i,
                rhs: one_c,
                operand_ty: Type::Int64,
                ty: Type::Int64,
            },
        ),
    );
    let s = on_b(s, s.b.terminate(Terminator::Jump(header)));
    let s = on_b(s, s.b.patch_phi_incoming_value(header, acc, acc, acc_latch, latch));
    let s = on_b(s, s.b.switch_to(exit));
    let s = on_b(s, fm_free_counters_spec(&counters, s.b));
    (s, acc)
}

/// Lowers `reduce` over a chain of combinators that does not flatten, in one loop.
pub fn lower_fused_reduce(
    base: &TypedExpr,
    stages: &List<FuseStage>,
    lam: &Lambda,
    init_expr: &TypedExpr,
    result_type: &Type,
    b: &mut FuncBuilder,
    ctx: &mut LowerCtx,
) -> (r: Temp)
    requires
        !chain_has_flatmap(stages),
    ensures
        (st(final(b), final(ctx)), r) == lower_fused_reduce_spec(
            lower_at(old(ctx).room.left()),
            base,
            stages,
            lam,
            init_expr,
            result_type,
            st(old(b), old(ctx)),
        ),
        ran(*old(b), *old(ctx), *final(b), *final(ctx)),
        valid(st(old(b), old(ctx)))
            ==> valid(st(final(b), final(ctx))) && temp_ok(r, final(b)@.temp_types.len()),
    decreases old(ctx).room.left(), 5nat, 0nat,
{
    reveal(lower_fused_reduce_spec);
    let iterable_ty = base.ty();
    let read_elem_ty = combinator_read_elem_ty(base, b, ctx);
    let iterable = lower_expr(base, b, ctx);
    let init_raw = lower_expr(init_expr, b, ctx);
    let init = coerce_arg_to_param_repr(init_raw, &init_expr.ty(), result_type, b);
    let counters = filtered_counters(stages, false, takes_three(&lam.params), b);
    let len = emit_iterable_len(iterable, &iterable_ty, b);
    let zero = b.const_temp(Const::Int(0, Type::Int64));
    let preheader = b.env.current_block;
    let header = b.alloc_block("freduce_header");
    let body = b.alloc_block("freduce_body");
    let latch = b.alloc_block("freduce_latch");
    let exit = b.alloc_block("freduce_exit");
    let i = b.alloc_temp(Type::Int64);
    let i_next = b.alloc_temp(Type::Int64);
    let acc = b.alloc_temp(result_type.dup());
    b.terminate(Terminator::Jump(header));
    b.switch_to(header);
    b.emit(
        Instruction::Phi {
            dst: i,
            ty: Type::Int64,
            incomings: two(
                Incoming { val: zero, pred: preheader },
                Incoming { val: i_next, pred: latch },
            ),
        },
    );
    b.emit(
        Instruction::Phi {
            dst: acc,
            ty: result_type.dup(),
            incomings: two(
                Incoming { val: init, pred: preheader },
                Incoming { val: acc, pred: latch },
            ),
        },
    );
    let cond = b.binary(BinOp::Lt, i, len, &Type::Int64, &Type::Bool);
    b.terminate(Terminator::CondJump { cond, then_block: body, else_block: exit });
    b.switch_to(body);
    let elem = b.index(iterable, i, &iterable_ty, &Type::Int64, &read_elem_ty, false);
    let idx = narrow_loop_index(i, b);
    let src = TypedTemp { temp: elem, ty: read_elem_ty.dup() };
    let out = apply_fuse_stages(
        stages,
        elem,
        &read_elem_ty,
        &src,
        true,
        idx,
        &counters,
        latch,
        true,
        b,
        ctx,
    );
    let next = inline_lambda_body(
        lam,
        &reducer_args(acc, result_type, out.val, &out.ty, out.idx),
        b,
        ctx,
    );
    let acc_next = coerce_arg_to_param_repr(next.temp, &next.ty, result_type, b);
    reclaim_fused(out.val, &out.ty, &src, b);
    let keep_pred = b.env.current_block;
    b.terminate(Terminator::Jump(latch));
    b.switch_to(latch);
    let acc_latch = b.alloc_temp(result_type.dup());
    b.emit(
        Instruction::Phi {
            dst: acc_latch,
            ty: result_type.dup(),
            incomings: unchanged_from(acc, &out.drops, Incoming { val: acc_next, pred: keep_pred }),
        },
    );
    let one_c = b.const_temp(Const::Int(1, Type::Int64));
    b.emit(
        Instruction::Binary {
            dst: i_next,
            op: BinOp::Add,
            lhs: i,
            rhs: one_c,
            operand_ty: Type::Int64,
            ty: Type::Int64,
        },
    );
    b.terminate(Terminator::Jump(header));
    b.patch_phi_incoming_value(header, acc, acc, acc_latch, latch);
    b.switch_to(exit);
    fm_free_counters(&counters, b);
    acc
}

/// A loop that carries an accumulator.
pub struct ReduceLoop {
    pub header: BlockId,
    pub body: BlockId,
    pub exit: BlockId,
    pub i: Temp,
    pub i_next: Temp,
    pub acc: Temp,
    /// What stands for the next accumulator until the body has been emitted.
    pub pending: Temp,
}

/// The blocks of the loop exist.
pub open spec fn reduce_loop_ok(frame: ReduceLoop, b: FState) -> bool {
    frame.header.0 < b.blocks.len() && frame.body.0 < b.blocks.len() && frame.exit.0
        < b.blocks.len()
}

/// The next value of the counter is not defined yet.
pub open spec fn reduce_loop_open(frame: &ReduceLoop, b: FState) -> bool {
    &&& undefined(b, frame.i_next)
    &&& b.temp_types.len() < u32::MAX ==> frame.i_next != frame.pending
}

/// What `begin_reduce_loop` does to the function under construction.
#[verifier::opaque]
pub open spec fn begin_reduce_loop_spec(
    iterable: Temp,
    iterable_ty: &Type,
    init: Temp,
    acc_ty: &Type,
    heap: bool,
    named: bool,
    b: FState,
) -> (FState, ReduceLoop) {
    let (b, len) = emit_iterable_len_spec(iterable, iterable_ty, b);
    let (b, zero) = b.const_temp(Const::Int(0, Type::Int64));
    let preheader = b.env.current_block;
    let (b, header) = b.alloc_block(if heap { "hreduce_header" } else { "reduce_header" });
    let (b, body) = b.alloc_block(if heap { "hreduce_body" } else { "reduce_body" });
    let (b, exit) = b.alloc_block(if heap { "hreduce_exit" } else { "reduce_exit" });
    let (b, i) = b.alloc_temp(Type::Int64);
    let (b, i_next) = b.alloc_temp(Type::Int64);
    let (b, acc) = b.alloc_temp(acc_ty.dup());
    let (b, pending) = if named {
        b.alloc_temp(acc_ty.dup())
    } else {
        (b, acc)
    };
    let b = b.terminate(Terminator::Jump(header));
    let b = b.switch_to(header);
    let b = b.emit(
        Instruction::Phi {
            dst: i,
            ty: Type::Int64,
            incomings: two(
                Incoming { val: zero, pred: preheader },
                Incoming { val: i_next, pred: body },
            ),
        },
    );
    let b = b.emit(
        Instruction::Phi {
            dst: acc,
            ty: acc_ty.dup(),
            incomings: two(
                Incoming { val: init, pred: preheader },
                Incoming { val: pending, pred: body },
            ),
        },
    );
    let (b, cond) = b.binary(BinOp::Lt, i, len, &Type::Int64, &Type::Bool);
    let b = b.terminate(Terminator::CondJump { cond, then_block: body, else_block: exit });
    let b = b.switch_to(body);
    (b, ReduceLoop { header, body, exit, i, i_next, acc, pending })
}

/// Starts a loop over a collection that carries an accumulator, and goes to its body. With
/// `named` the next accumulator gets a temporary of its own beforehand.
pub fn begin_reduce_loop(
    iterable: Temp,
    iterable_ty: &Type,
    init: Temp,
    acc_ty: &Type,
    heap: bool,
    named: bool,
    b: &mut FuncBuilder,
) -> (r: ReduceLoop)
    ensures
        (final(b)@, r) == begin_reduce_loop_spec(
            iterable,
            iterable_ty,
            init,
            acc_ty,
            heap,
            named,
            old(b)@,
        ),
        grown(old(b)@, final(b)@, 0),
        old(b)@.wf()
            && temp_ok(iterable, old(b)@.temp_types.len())
            && temp_ok(init, old(b)@.temp_types.len())
            ==> final(b)@.wf()
                && reduce_loop_temps_ok(&r, final(b)@.temp_types.len())
                && reduce_loop_open(&r, final(b)@)
                && (named ==> undefined(final(b)@, r.pending)),
        old(b)@.blocks.len() > 0 ==> reduce_loop_ok(r, final(b)@),
        newer(old(b)@, final(b)@, r.i_next),
        newer(old(b)@, final(b)@, r.pending),
{
    reveal(begin_reduce_loop_spec);
    let len = emit_iterable_len(iterable, iterable_ty, b);
    let zero = b.const_temp(Const::Int(0, Type::Int64));
    let preheader = b.env.current_block;
    let header = b.alloc_block(if heap { "hreduce_header" } else { "reduce_header" });
    let body = b.alloc_block(if heap { "hreduce_body" } else { "reduce_body" });
    let exit = b.alloc_block(if heap { "hreduce_exit" } else { "reduce_exit" });
    let i = b.alloc_temp(Type::Int64);
    let i_next = b.alloc_temp(Type::Int64);
    let acc = b.alloc_temp(acc_ty.dup());
    let pending = if named {
        b.alloc_temp(acc_ty.dup())
    } else {
        acc
    };
    b.terminate(Terminator::Jump(header));
    b.switch_to(header);
    b.emit(
        Instruction::Phi {
            dst: i,
            ty: Type::Int64,
            incomings: two(
                Incoming { val: zero, pred: preheader },
                Incoming { val: i_next, pred: body },
            ),
        },
    );
    b.emit(
        Instruction::Phi {
            dst: acc,
            ty: acc_ty.dup(),
            incomings: two(
                Incoming { val: init, pred: preheader },
                Incoming { val: pending, pred: body },
            ),
        },
    );
    let cond = b.binary(BinOp::Lt, i, len, &Type::Int64, &Type::Bool);
    b.terminate(Terminator::CondJump { cond, then_block: body, else_block: exit });
    b.switch_to(body);
    ReduceLoop { header, body, exit, i, i_next, acc, pending }
}

/// What `end_reduce_loop` does to the function under construction.
#[verifier::opaque]
pub open spec fn end_reduce_loop_spec(frame: &ReduceLoop, acc_next: Temp, b: FState) -> FState {
    let (b, one_c) = b.const_temp(Const::Int(1, Type::Int64));
    let b = b.emit(
        Instruction::Binary {
            dst: frame.i_next,
            op: BinOp::Add,
            lhs: frame.i,
            rhs: one_c,
            operand_ty: Type::Int64,
            ty: Type::Int64,
        },
    );
    let back_block = b.env.current_block;
    let b = b.terminate(Terminator::Jump(frame.header));
    let b = b.patch_phi_incoming(frame.header, frame.i, frame.body, back_block);
    let b = b.patch_phi_incoming_value(
        frame.header,
        frame.acc,
        frame.pending,
        acc_next,
        back_block,
    );
    b.switch_to(frame.exit)
}

/// Ends the body of the loop with the next accumulator and goes on behind it.
pub fn end_reduce_loop(frame: &ReduceLoop, acc_next: Temp, b: &mut FuncBuilder)
    ensures
        final(b)@ == end_reduce_loop_spec(frame, acc_next, old(b)@),
        grew(old(b)@, final(b)@, 0),
        steady_but(old(b)@, final(b)@, set![frame.i_next]),
        old(b)@.wf()
            && reduce_loop_temps_ok(frame, old(b)@.temp_types.len())
            && temp_ok(acc_next, old(b)@.temp_types.len())
            && reduce_loop_ok(*frame, old(b)@)
            && reduce_loop_open(frame, old(b)@)
            ==> final(b)@.wf(),
{
    reveal(end_reduce_loop_spec);
    let one_c = b.const_temp(Const::Int(1, Type::Int64));
    b.emit(
        Instruction::Binary {
            dst: frame.i_next,
            op: BinOp::Add,
            lhs: frame.i,
            rhs: one_c,
            operand_ty: Type::Int64,
            ty: Type::Int64,
        },
    );
    let back_block = b.env.current_block;
    b.terminate(Terminator::Jump(frame.header));
    b.patch_phi_incoming(frame.header, frame.i, frame.body, back_block);
    b.patch_phi_incoming_value(frame.header, frame.acc, frame.pending, acc_next, back_block);
    b.switch_to(frame.exit);
}

/// The accumulator is a dictionary or a record that is not packed.
pub open spec fn acc_is_raw_heap_spec(result_type: &Type) -> bool {
    matches!(result_type, Type::Dict { .. } | Type::Object { .. })
        && !is_sealed_scalar_repr(result_type)
}

/// Whether the accumulator is a counted pointer that the loop owns: a dictionary or a record
/// that is not packed.
#[verifier::when_used_as_spec(acc_is_raw_heap_spec)]
pub fn acc_is_raw_heap(result_type: &Type) -> (r: bool)
    ensures
        r == acc_is_raw_heap_spec(result_type),
{
    matches!(result_type, Type::Dict { .. } | Type::Object { .. })
        && !is_sealed_scalar_repr(result_type)
}

/// The type itself where it is a scalar, else the wildcard.
pub open spec fn scalar_or_json_spec(elem_ty: &Type) -> Type {
    if is_inline_scalar(elem_ty) {
        elem_ty.dup()
    } else {
        json()
    }
}

/// The type in which elements are read for a callback that is not inlined.
#[verifier::when_used_as_spec(scalar_or_json_spec)]
pub fn scalar_or_json(elem_ty: &Type) -> (r: Type)
    ensures
        r == scalar_or_json_spec(elem_ty),
{
    if is_inline_scalar(elem_ty) {
        elem_ty.dup()
    } else {
        json()
    }
}

/// The second parameter of a reducer over a packed array is used only to read fields.
pub open spec fn reducer_reads_in_place_spec(iterable_ty: &Type, lam: &Lambda) -> bool {
    match &lam.params {
        List::Nil => false,
        List::Cons(p) => match &p.tail {
            List::Nil => false,
            List::Cons(q) => {
                is_sealed_scalar_array(iterable_ty)
                    && elem_used_only_for_scalar_fields(&lam.body, q.head.slot)
            },
        },
    }
}

/// Whether the second parameter of a reducer over a packed array is used only to read fields
/// in place.
#[verifier::when_used_as_spec(reducer_reads_in_place_spec)]
pub fn reducer_reads_in_place(iterable_ty: &Type, lam: &Lambda) -> (r: bool)
    ensures
        r == reducer_reads_in_place_spec(iterable_ty, lam),
{
    match &lam.params {
        List::Nil => false,
        List::Cons(p) => match &p.tail {
            List::Nil => false,
            List::Cons(q) => is_sealed_scalar_array(iterable_ty)
                && elem_used_only_for_scalar_fields(&lam.body, q.head.slot),
        },
    }
}

/// What `inline_reducer_packed` does to the state, where `l` lowers the expressions inside.
#[verifier::opaque]
pub open spec fn inline_reducer_packed_spec(
    l: Lower,
    lam: &Lambda,
    acc: Temp,
    array: Temp,
    index: Temp,
    elem_ty: &Type,
    idx: Temp,
    s: St,
) -> (St, TypedTemp) {
    let s = on_b(s, s.b.push_scope());
    let s = match &lam.params {
        List::Nil => s,
        List::Cons(p) => {
            let s = on_b(s, s.b.set_slot(p.head.slot, acc));
            match &p.tail {
                List::Nil => s,
                List::Cons(q) => {
                    let s = on_c(
                        s,
                        s.c.add_packed(
                            q.head.slot,
                            PackedElem { array, index, elem_ty: elem_ty.dup() },
                        ),
                    );
                    match &q.tail {
                        List::Nil => s,
                        List::Cons(k) => {
                            let (s, bound) = on(
                                s,
                                coerce_arg_to_param_repr_spec(idx, &Type::Int32, &k.head.ty, s.b),
                            );
                            on_b(s, s.b.set_slot(k.head.slot, bound))
                        },
                    }
                },
            }
        },
    };
    let s = on_b(s, s.b.scan_body(&lam.body));
    let (s, raw) = low(l, &lam.body, s);
    let body_ty = s.b.temp_ty_or(raw, lam.body.ty());
    let s = on_b(s, s.b.pop_scope_releasing_keep(&one(raw)));
    let s = match &lam.params {
        List::Nil => s,
        List::Cons(p) => match &p.tail {
            List::Nil => s,
            List::Cons(q) => on_c(s, s.c.drop_packed(q.head.slot)),
        },
    };
    (s, TypedTemp { temp: raw, ty: body_ty })
}

/// Lowers the body of a reducer over a packed array in place, the element being read where
/// it lies.
pub fn inline_reducer_packed(
    lam: &Lambda,
    acc: Temp,
    array: Temp,
    index: Temp,
    elem_ty: &Type,
    idx: Temp,
    b: &mut FuncBuilder,
    ctx: &mut LowerCtx,
) -> (r: TypedTemp)
    ensures
        (st(final(b), final(ctx)), r) == inline_reducer_packed_spec(
            lower_at(old(ctx).room.left()),
            lam,
            acc,
            array,
            index,
            elem_ty,
            idx,
            st(old(b), old(ctx)),
        ),
        ran(*old(b), *old(ctx), *final(b), *final(ctx)),
        valid(st(old(b), old(ctx)))
            && temp_ok(acc, old(b)@.temp_types.len())
            && temp_ok(array, old(b)@.temp_types.len())
            && temp_ok(index, old(b)@.temp_types.len())
            && temp_ok(idx, old(b)@.temp_types.len())
            ==> valid(st(final(b), final(ctx))) && typed_temp_ok(&r, final(b)@.temp_types.len()),
    decreases old(ctx).room.left(), 1nat, 0nat,
{
    reveal(inline_reducer_packed_spec);
    b.push_scope();
    match &lam.params {
        List::Nil => {},
        List::Cons(p) => {
            b.set_slot(p.head.slot, acc);
            match &p.tail {
                List::Nil => {},
                List::Cons(q) => {
                    ctx.add_packed(
                        q.head.slot,
                        PackedElem { array, index, elem_ty: elem_ty.dup() },
                    );
                    match &q.tail {
                        List::Nil => {},
                        List::Cons(k) => {
                            let bound = coerce_arg_to_param_repr(idx, &Type::Int32, &k.head.ty, b);
                            b.set_slot(k.head.slot, bound);
                        },
                    }
                },
            }
        },
    }
    b.scan_body(&lam.body);
    let raw = lower_expr(&lam.body, b, ctx);
    let body_ty = b.temp_ty_or(raw, lam.body.ty());
    b.pop_scope_releasing_keep(&one(raw));
    match &lam.params {
        List::Nil => {},
        List::Cons(p) => match &p.tail {
            List::Nil => {},
            List::Cons(q) => {
                ctx.drop_packed(q.head.slot);
            },
        },
    }
    TypedTemp { temp: raw, ty: body_ty }
}

/// What `reduce_scalar_inline` does to the state, where `l` lowers the expressions inside.
#[verifier::opaque]
pub open spec fn reduce_scalar_inline_spec(
    l: Lower,
    iterable: Temp,
    iterable_ty: &Type,
    elem_ty: &Type,
    init_expr: &TypedExpr,
    lam: &Lambda,
    acc_ty: &Type,
    s: St,
) -> (St, Temp) {
    let (s, init_raw) = low(l, init_expr, s);
    let (s, init) = on(s, coerce_arg_to_param_repr_spec(init_raw, &init_expr.ty(), acc_ty, s.b));
    let (s, frame) = on(
        s,
        begin_reduce_loop_spec(iterable, iterable_ty, init, acc_ty, false, false, s.b),
    );
    let (s, idx) = on(s, narrow_loop_index_spec(frame.i, s.b));
    let (s, next) = if reducer_reads_in_place(iterable_ty, lam) {
        let static_elem = iter_elem_type(iterable_ty);
        inline_reducer_packed_spec(l, lam, frame.acc, iterable, frame.i, &static_elem, idx, s)
    } else {
        let (s, elem) = on(
            s,
            s.b.index(iterable, frame.i, iterable_ty, &Type::Int64, elem_ty, false),
        );
        let (s, r) = inline_lambda_body_spec(
            l,
            lam,
            &reducer_args(frame.acc, acc_ty, elem, elem_ty, idx),
            s,
        );
        let s = on_b(s, free_combinator_sealed_elem_spec(elem, elem_ty, s.b));
        (s, r)
    };
    let (s, acc_next) = on(s, coerce_arg_to_param_repr_spec(next.temp, &next.ty, acc_ty, s.b));
    let s = on_b(s, end_reduce_loop_spec(&frame, acc_next, s.b));
    (s, frame.acc)
}

/// Lowers `reduce` with an inlined reducer and a scalar accumulator.
pub fn reduce_scalar_inline(
    iterable: Temp,
    iterable_ty: &Type,
    elem_ty: &Type,
    init_expr: &TypedExpr,
    lam: &Lambda,
    acc_ty: &Type,
    b: &mut FuncBuilder,
    ctx: &mut LowerCtx,
) -> (r: Temp)
    ensures
        (st(final(b), final(ctx)), r) == reduce_scalar_inline_spec(
            lower_at(old(ctx).room.left()),
            iterable,
            iterable_ty,
            elem_ty,
            init_expr,
            lam,
            acc_ty,
            st(old(b), old(ctx)),
        ),
        ran(*old(b), *old(ctx), *final(b), *final(ctx)),
        valid(st(old(b), old(ctx))) && temp_ok(iterable, old(b)@.temp_types.len())
            ==> valid(st(final(b), final(ctx))) && temp_ok(r, final(b)@.temp_types.len()),
    decreases old(ctx).room.left(), 3nat, 0nat,
{
    reveal(reduce_scalar_inline_spec);
    let init_raw = lower_expr(init_expr, b, ctx);
    let init = coerce_arg_to_param_repr(init_raw, &init_expr.ty(), acc_ty, b);
    let frame = begin_reduce_loop(iterable, iterable_ty, init, acc_ty, false, false, b);
    let idx = narrow_loop_index(frame.i, b);
    let next = if reducer_reads_in_place(iterable_ty, lam) {
        let static_elem = iter_elem_type(iterable_ty);
        inline_reducer_packed(lam, frame.acc, iterable, frame.i, &static_elem, idx, b, ctx)
    } else {
        let elem = b.index(iterable, frame.i, iterable_ty, &Type::Int64, elem_ty, false);
        let r = inline_lambda_body(
            lam,
            &reducer_args(frame.acc, acc_ty, elem, elem_ty, idx),
            b,
            ctx,
        );
        free_combinator_sealed_elem(elem, elem_ty, b);
        r
    };
    let acc_next = coerce_arg_to_param_repr(next.temp, &next.ty, acc_ty, b);
    end_reduce_loop(&frame, acc_next, b);
    frame.acc
}

/// What `reduce_heap_inline` does to the state, where `l` lowers the expressions inside.
#[verifier::opaque]
pub open spec fn reduce_heap_inline_spec(
    l: Lower,
    iterable: Temp,
    iterable_ty: &Type,
    elem_ty: &Type,
    init_expr: &TypedExpr,
    lam: &Lambda,
    acc_ty: &Type,
    s: St,
) -> (St, Temp) {
    let (s, init_raw) = low(l, init_expr, s);
    let (s, init) = on(s, coerce_arg_to_param_repr_spec(init_raw, &init_expr.ty(), acc_ty, s.b));
    let s = on_b(s, s.b.unregister_owned(init));
    let s = if init != init_raw {
        on_b(s, s.b.unregister_owned(init_raw))
    } else {
        s
    };
    let (s, frame) = on(
        s,
        begin_reduce_loop_spec(iterable, iterable_ty, init, acc_ty, true, false, s.b),
    );
    let (s, elem) = on(s, s.b.index(iterable, frame.i, iterable_ty, &Type::Int64, elem_ty, false));
    let (s, idx) = on(s, narrow_loop_index_spec(frame.i, s.b));
    let (s, next) = inline_lambda_body_spec(
        l,
        lam,
        &reducer_args(frame.acc, acc_ty, elem, elem_ty, idx),
        s,
    );
    let (s, acc_next) = on(s, coerce_arg_to_param_repr_spec(next.temp, &next.ty, acc_ty, s.b));
    let s = on_b(s, fm_reclaim_elem_spec(elem, elem_ty, s.b));
    let s = on_b(
        s,
        s.b.emit(
            Instruction::ReleaseRawIfDistinct { val: frame.acc, other: acc_next, ty: acc_ty.dup() },
        ),
    );
    let s = on_b(s, end_reduce_loop_spec(&frame, acc_next, s.b));
    let s = on_b(s, s.b.register_owned(frame.acc, acc_ty.dup()));
    (s, frame.acc)
}

/// Lowers `reduce` with an inlined reducer and an accumulator that the loop owns: the old
/// accumulator is released where the reducer made a new one, and the scope owns the last one.
pub fn reduce_heap_inline(
    iterable: Temp,
    iterable_ty: &Type,
    elem_ty: &Type,
    init_expr: &TypedExpr,
    lam: &Lambda,
    acc_ty: &Type,
    b: &mut FuncBuilder,
    ctx: &mut LowerCtx,
) -> (r: Temp)
    ensures
        (st(final(b), final(ctx)), r) == reduce_heap_inline_spec(
            lower_at(old(ctx).room.left()),
            iterable,
            iterable_ty,
            elem_ty,
            init_expr,
            lam,
            acc_ty,
            st(old(b), old(ctx)),
        ),
        ran(*old(b), *old(ctx), *final(b), *final(ctx)),
        valid(st(old(b), old(ctx))) && temp_ok(iterable, old(b)@.temp_types.len())
            ==> valid(st(final(b), final(ctx))) && temp_ok(r, final(b)@.temp_types.len()),
    decreases old(ctx).room.left(), 3nat, 0nat,
{
    reveal(reduce_heap_inline_spec);
    let init_raw = lower_expr(init_expr, b, ctx);
    let init = coerce_arg_to_param_repr(init_raw, &init_expr.ty(), acc_ty, b);
    b.unregister_owned(init);
    if init != init_raw {
        b.unregister_owned(init_raw);
    }
    let frame = begin_reduce_loop(iterable, iterable_ty, init, acc_ty, true, false, b);
    let elem = b.index(iterable, frame.i, iterable_ty, &Type::Int64, elem_ty, false);
    let idx = narrow_loop_index(frame.i, b);
    let next = inline_lambda_body(
        lam,
        &reducer_args(frame.acc, acc_ty, elem, elem_ty, idx),
        b,
        ctx,
    );
    let acc_next = coerce_arg_to_param_repr(next.temp, &next.ty, acc_ty, b);
    fm_reclaim_elem(elem, elem_ty, b);
    b.emit(Instruction::ReleaseRawIfDistinct { val: frame.acc, other: acc_next, ty: acc_ty.dup() });
    end_reduce_loop(&frame, acc_next, b);
    b.register_owned(frame.acc, acc_ty.dup());
    frame.acc
}

/// What `reduce_direct` does to the state, where `l` lowers the expressions inside.
#[verifier::opaque]
pub open spec fn reduce_direct_spec(
    l: Lower,
    iterable: Temp,
    iterable_ty: &Type,
    elem_ty: &Type,
    init_expr: &TypedExpr,
    target: &FnTarget,
    native_ret: &Type,
    result_type: &Type,
    s: St,
) -> (St, Temp) {
    let acc_ty = scalar_or_json(result_type);
    let (s, init_raw) = low(l, init_expr, s);
    let (s, init) = on(s, coerce_arg_to_param_repr_spec(init_raw, &init_expr.ty(), &acc_ty, s.b));
    let read_elem_ty = scalar_or_json(elem_ty);
    let (s, frame) = on(
        s,
        begin_reduce_loop_spec(iterable, iterable_ty, init, &acc_ty, false, true, s.b),
    );
    let (s, elem) = on(
        s,
        s.b.index(iterable, frame.i, iterable_ty, &Type::Int64, &read_elem_ty, false),
    );
    let (s, idx) = on(s, narrow_loop_index_spec(frame.i, s.b));
    let (s, new_acc) = on(
        s,
        call_body_direct_spec(
            target,
            &reducer_args(frame.acc, &acc_ty, elem, &read_elem_ty, idx),
            native_ret,
            s.b,
        ),
    );
    let (s, acc_next) = on(s, coerce_arg_to_param_repr_spec(new_acc, native_ret, &acc_ty, s.b));
    let s = on_b(s, s.b.emit(Instruction::ReleaseIfDistinct { val: elem, other: acc_next }));
    let s = on_b(s, end_reduce_loop_spec(&frame, acc_next, s.b));
    if is_union_ty(result_type) || same_type(&acc_ty, result_type) {
        (s, frame.acc)
    } else {
        on(s, s.b.coerce(frame.acc, &acc_ty, result_type))
    }
}

/// Lowers `reduce` with a reducer that is called directly.
pub fn reduce_direct(
    iterable: Temp,
    iterable_ty: &Type,
    elem_ty: &Type,
    init_expr: &TypedExpr,
    target: &FnTarget,
    native_ret: &Type,
    result_type: &Type,
    b: &mut FuncBuilder,
    ctx: &mut LowerCtx,
) -> (r: Temp)
    ensures
        (st(final(b), final(ctx)), r) == reduce_direct_spec(
            lower_at(old(ctx).room.left()),
            iterable,
            iterable_ty,
            elem_ty,
            init_expr,
            target,
            native_ret,
            result_type,
            st(old(b), old(ctx)),
        ),
        ran(*old(b), *old(ctx), *final(b), *final(ctx)),
        valid(st(old(b), old(ctx)))
            && temp_ok(iterable, old(b)@.temp_types.len())
            && fn_target_ok(target, old(b)@.temp_types.len())
            ==> valid(st(final(b), final(ctx))) && temp_ok(r, final(b)@.temp_types.len()),
    decreases old(ctx).room.left(), 1nat, 0nat,
{
    reveal(reduce_direct_spec);
    let acc_ty = scalar_or_json(result_type);
    let init_raw = lower_expr(init_expr, b, ctx);
    let init = coerce_arg_to_param_repr(init_raw, &init_expr.ty(), &acc_ty, b);
    let read_elem_ty = scalar_or_json(elem_ty);
    let frame = begin_reduce_loop(iterable, iterable_ty, init, &acc_ty, false, true, b);
    let elem = b.index(iterable, frame.i, iterable_ty, &Type::Int64, &read_elem_ty, false);
    let idx = narrow_loop_index(frame.i, b);
    let new_acc = call_body_direct(
        target,
        &reducer_args(frame.acc, &acc_ty, elem, &read_elem_ty, idx),
        native_ret,
        b,
    );
    let acc_next = coerce_arg_to_param_repr(new_acc, native_ret, &acc_ty, b);
    b.emit(Instruction::ReleaseIfDistinct { val: elem, other: acc_next });
    end_reduce_loop(&frame, acc_next, b);
    if is_union_ty(result_type) || same_type(&acc_ty, result_type) {
        return frame.acc;
    }
    b.coerce(frame.acc, &acc_ty, result_type)
}

/// What `reduce_closure` does to the state, where `l` lowers the expressions inside.
#[verifier::opaque]
pub open spec fn reduce_closure_spec(
    l: Lower,
    iterable: Temp,
    iterable_ty: &Type,
    elem_ty: &Type,
    init_expr: &TypedExpr,
    reducer: &TypedExpr,
    result_type: &Type,
    s: St,
) -> (St, Temp) {
    let param_tys = callback_signature(reducer).params;
    let (s, init_raw) = low(l, init_expr, s);
    let (s, init) = on(s, box_to_json_spec(init_raw, &init_expr.ty(), s.b));
    let (s, f) = lower_callback_in_safe_ctx_spec(l, reducer, s);
    let (s, frame) = on(
        s,
        begin_reduce_loop_spec(iterable, iterable_ty, init, &json(), false, true, s.b),
    );
    let read_elem_ty = scalar_or_json(elem_ty);
    let (s, elem) = on(
        s,
        s.b.index(iterable, frame.i, iterable_ty, &Type::Int64, &read_elem_ty, false),
    );
    let (s, args) = on(
        s,
        reducer_closure_args_spec(frame.acc, elem, &read_elem_ty, frame.i, &param_tys, s.b),
    );
    let s = on_b(
        s,
        s.b.emit(
            Instruction::Call {
                dst: frame.pending,
                callee: CallTarget::Indirect(f),
                args,
                ret_ty: json(),
            },
        ),
    );
    let s = on_b(s, s.b.emit(Instruction::ReleaseIfDistinct { val: elem, other: frame.pending }));
    let s = on_b(s, end_reduce_loop_spec(&frame, frame.pending, s.b));
    if is_union_ty(result_type) {
        (s, frame.acc)
    } else {
        on(s, s.b.coerce(frame.acc, &json(), result_type))
    }
}

/// Lowers `reduce` with a closure: the accumulator is a box.
pub fn reduce_closure(
    iterable: Temp,
    iterable_ty: &Type,
    elem_ty: &Type,
    init_expr: &TypedExpr,
    reducer: &TypedExpr,
    result_type: &Type,
    b: &mut FuncBuilder,
    ctx: &mut LowerCtx,
) -> (r: Temp)
    ensures
        (st(final(b), final(ctx)), r) == reduce_closure_spec(
            lower_at(old(ctx).room.left()),
            iterable,
            iterable_ty,
            elem_ty,
            init_expr,
            reducer,
            result_type,
            st(old(b), old(ctx)),
        ),
        ran(*old(b), *old(ctx), *final(b), *final(ctx)),
        valid(st(old(b), old(ctx))) && temp_ok(iterable, old(b)@.temp_types.len())
            ==> valid(st(final(b), final(ctx))) && temp_ok(r, final(b)@.temp_types.len()),
    decreases old(ctx).room.left(), 2nat, 0nat,
{
    reveal(reduce_closure_spec);
    let param_tys = callback_signature(reducer).params;
    let init_raw = lower_expr(init_expr, b, ctx);
    let init = box_to_json(init_raw, &init_expr.ty(), b);
    let f = lower_callback_in_safe_ctx(reducer, b, ctx);
    let frame = begin_reduce_loop(iterable, iterable_ty, init, &json(), false, true, b);
    let read_elem_ty = scalar_or_json(elem_ty);
    let elem = b.index(iterable, frame.i, iterable_ty, &Type::Int64, &read_elem_ty, false);
    let args = reducer_closure_args(frame.acc, elem, &read_elem_ty, frame.i, &param_tys, b);
    b.emit(
        Instruction::Call {
            dst: frame.pending,
            callee: CallTarget::Indirect(f),
            args,
            ret_ty: json(),
        },
    );
    b.emit(Instruction::ReleaseIfDistinct { val: elem, other: frame.pending });
    end_reduce_loop(&frame, frame.pending, b);
    if is_union_ty(result_type) {
        return frame.acc;
    }
    b.coerce(frame.acc, &json(), result_type)
}

/// The type at the front, if there is one.
pub open spec fn first_type_spec<'a>(params: &'a List<Type>) -> Option<&'a Type> {
    match params {
        List::Nil => None,
        List::Cons(n) => Some(&n.head),
    }
}

/// The parameter type at the front, if there is one.
#[verifier::when_used_as_spec(first_type_spec)]
pub fn first_type<'a>(params: &'a List<Type>) -> (r: Option<&'a Type>)
    ensures
        r == first_type_spec(params),
{
    match params {
        List::Nil => None,
        List::Cons(n) => Some(&n.head),
    }
}

/// The types behind the one in front.
pub open spec fn later_types_spec(params: &List<Type>) -> List<Type> {
    match params {
        List::Nil => List::Nil,
        List::Cons(n) => n.tail.dup(),
    }
}

/// The types behind the one in front.
#[verifier::when_used_as_spec(later_types_spec)]
pub fn later_types(params: &List<Type>) -> (r: List<Type>)
    ensures
        r == later_types_spec(params),
{
    match params {
        List::Nil => List::Nil,
        List::Cons(n) => n.tail.dup(),
    }
}

/// What `reducer_closure_args` does to the function under construction.
#[verifier::opaque]
pub open spec fn reducer_closure_args_spec(
    acc: Temp,
    elem: Temp,
    elem_ty: &Type,
    i: Temp,
    param_tys: &List<Type>,
    b: FState,
) -> (FState, List<Temp>) {
    let later = later_types(param_tys);
    let last = later_types(&later);
    let (b, acc_arg) = coerce_arg_to_param_spec(acc, &json(), first_type(param_tys), b);
    let (b, elem_arg) = coerce_arg_to_param_spec(elem, elem_ty, first_type(&later), b);
    if three_or_more(param_tys) {
        let (b, idx) = narrow_loop_index_spec(i, b);
        let (b, idx_arg) = coerce_arg_to_param_spec(idx, &Type::Int32, first_type(&last), b);
        (b, three(acc_arg, elem_arg, idx_arg))
    } else {
        (b, two(acc_arg, elem_arg))
    }
}

/// The arguments of a reducer that is a closure; the index only where it wants one.
pub fn reducer_closure_args(
    acc: Temp,
    elem: Temp,
    elem_ty: &Type,
    i: Temp,
    param_tys: &List<Type>,
    b: &mut FuncBuilder,
) -> (r: List<Temp>)
    ensures
        (final(b)@, r) == reducer_closure_args_spec(acc, elem, elem_ty, i, param_tys, old(b)@),
        grown(old(b)@, final(b)@, 0),
        old(b)@.wf()
            && temp_ok(acc, old(b)@.temp_types.len())
            && temp_ok(elem, old(b)@.temp_types.len())
            && temp_ok(i, old(b)@.temp_types.len())
            ==> final(b)@.wf() && temps_ok(&r, final(b)@.temp_types.len()),
{
    reveal(reducer_closure_args_spec);
    let later = later_types(param_tys);
    let last = later_types(&later);
    let acc_arg = coerce_arg_to_param(acc, &json(), first_type(param_tys), b);
    let elem_arg = coerce_arg_to_param(elem, elem_ty, first_type(&later), b);
    if three_or_more(param_tys) {
        let idx = narrow_loop_index(i, b);
        let idx_arg = coerce_arg_to_param(idx, &Type::Int32, first_type(&last), b);
        three(acc_arg, elem_arg, idx_arg)
    } else {
        two(acc_arg, elem_arg)
    }
}

/// What `lower_reduce` does to the state, where `l` lowers the expressions inside.
#[verifier::opaque]
pub open spec fn lower_reduce_spec(
    l: Lower,
    iterable_e: &TypedExpr,
    init_expr: &TypedExpr,
    reducer: &TypedExpr,
    result_type: &Type,
    s: St,
) -> (St, Temp) {
    match fusion_spec(iterable_e, reducer, is_inline_scalar(result_type), s) {
        Some(f) => if chain_has_flatmap(&f.stages) {
            lower_fused_reduce_flatmap_spec(l, f.base, &f.stages, &f.lam, init_expr, result_type, s)
        } else {
            lower_fused_reduce_spec(l, f.base, &f.stages, &f.lam, init_expr, result_type, s)
        },
        None => {
            let iterable_ty = iterable_e.ty();
            let elem_ty = combinator_read_elem_ty_spec(iterable_e, s);
            let (s, iterable) = low(l, iterable_e, s);
            match (is_inline_scalar(result_type), inlinable_local_fn_spec(reducer, s)) {
                (true, Some(lam)) => {
                    reduce_scalar_inline_spec(
                        l,
                        iterable,
                        &iterable_ty,
                        &elem_ty,
                        init_expr,
                        &lam,
                        result_type,
                        s,
                    )
                },
                _ => match (acc_is_raw_heap(result_type), inlinable_local_fn_spec(reducer, s)) {
                    (true, Some(lam)) => {
                        reduce_heap_inline_spec(
                            l,
                            iterable,
                            &iterable_ty,
                            &elem_ty,
                            init_expr,
                            &lam,
                            result_type,
                            s,
                        )
                    },
                    _ => match bare_fn_call_target_spec(reducer, s) {
                        Some(target) => {
                            let native_ret = callback_ret_or(reducer, result_type.dup());
                            reduce_direct_spec(
                                l,
                                iterable,
                                &iterable_ty,
                                &elem_ty,
                                init_expr,
                                &target,
                                &native_ret,
                                result_type,
                                s,
                            )
                        },
                        None => {
                            reduce_closure_spec(
                                l,
                                iterable,
                                &iterable_ty,
                                &elem_ty,
                                init_expr,
                                reducer,
                                result_type,
                                s,
                            )
                        },
                    },
                },
            }
        },
    }
}

/// Lowers `reduce`. With a scalar result a chain of combinators below is fused into the
/// loop.
pub fn lower_reduce(
    iterable_e: &TypedExpr,
    init_expr: &TypedExpr,
    reducer: &TypedExpr,
    result_type: &Type,
    b: &mut FuncBuilder,
    ctx: &mut LowerCtx,
) -> (r: Temp)
    ensures
        (st(final(b), final(ctx)), r) == lower_reduce_spec(
            lower_at(old(ctx).room.left()),
            iterable_e,
            init_expr,
            reducer,
            result_type,
            st(old(b), old(ctx)),
        ),
        ran(*old(b), *old(ctx), *final(b), *final(ctx)),
        valid(st(old(b), old(ctx)))
            ==> valid(st(final(b), final(ctx))) && temp_ok(r, final(b)@.temp_types.len()),
    decreases old(ctx).room.left(), 7nat, 0nat,
{
    reveal(lower_reduce_spec);
    match fusion(iterable_e, reducer, is_inline_scalar(result_type), b, ctx) {
        Some(f) => {
            if chain_has_flatmap(&f.stages) {
                return lower_fused_reduce_flatmap(
                    f.base,
                    &f.stages,
                    &f.lam,
                    init_expr,
                    result_type,
                    b,
                    ctx,
                );
            }
            return lower_fused_reduce(f.base, &f.stages, &f.lam, init_expr, result_type, b, ctx);
        },
        None => {},
    }
    let iterable_ty = iterable_e.ty();
    let elem_ty = combinator_read_elem_ty(iterable_e, b, ctx);
    let iterable = lower_expr(iterable_e, b, ctx);
    match (is_inline_scalar(result_type), inlinable_local_fn(reducer, b, ctx)) {
        (true, Some(lam)) => {
            return reduce_scalar_inline(
                iterable,
                &iterable_ty,
                &elem_ty,
                init_expr,
                &lam,
                result_type,
                b,
                ctx,
            );
        },
        _ => {},
    }
    match (acc_is_raw_heap(result_type), inlinable_local_fn(reducer, b, ctx)) {
        (true, Some(lam)) => {
            return reduce_heap_inline(
                iterable,
                &iterable_ty,
                &elem_ty,
                init_expr,
                &lam,
                result_type,
                b,
                ctx,
            );
        },
        _ => {},
    }
    match bare_fn_call_target(reducer, b, ctx) {
        Some(target) => {
            let native_ret = callback_ret_or(reducer, result_type.dup());
            return reduce_direct(
                iterable,
                &iterable_ty,
                &elem_ty,
                init_expr,
                &target,
                &native_ret,
                result_type,
                b,
                ctx,
            );
        },
        None => {},
    }
    reduce_closure(iterable, &iterable_ty, &elem_ty, init_expr, reducer, result_type, b, ctx)
}

/// A loop that counts from a start to a limit.
pub struct CountLoop {
    pub header: BlockId,
    pub body: BlockId,
    pub exit: BlockId,
    pub i: Temp,
    pub i_next: Temp,
}

/// The blocks of the loop exist.
pub open spec fn count_loop_ok(frame: CountLoop, b: FState) -> bool {
    frame.header.0 < b.blocks.len() && frame.body.0 < b.blocks.len() && frame.exit.0
        < b.blocks.len()
}

/// The next value of the counter is not defined yet.
pub open spec fn count_loop_open(frame: &CountLoop, b: FState) -> bool {
    undefined(b, frame.i_next)
}

/// The labels of the blocks of a loop.
#[derive(Clone, Copy)]
pub struct LoopLabels {
    pub header: &'static str,
    pub body: &'static str,
    pub exit: &'static str,
}

/// What `begin_count_loop` does to the function under construction.
#[verifier::opaque]
pub open spec fn begin_count_loop_spec(
    start: Temp,
    limit: Temp,
    labels: LoopLabels,
    b: FState,
) -> (FState, CountLoop) {
    let pre = b.env.current_block;
    let (b, header) = b.alloc_block(labels.header);
    let (b, body) = b.alloc_block(labels.body);
    let (b, exit) = b.alloc_block(labels.exit);
    let (b, i) = b.alloc_temp(Type::Int64);
    let (b, i_next) = b.alloc_temp(Type::Int64);
    let b = b.terminate(Terminator::Jump(header));
    let b = b.switch_to(header);
    let b = b.emit(
        Instruction::Phi {
            dst: i,
            ty: Type::Int64,
            incomings: two(
                Incoming { val: start, pred: pre },
                Incoming { val: i_next, pred: body },
            ),
        },
    );
    let (b, cond) = b.binary(BinOp::Lt, i, limit, &Type::Int64, &Type::Bool);
    let b = b.terminate(Terminator::CondJump { cond, then_block: body, else_block: exit });
    let b = b.switch_to(body);
    (b, CountLoop { header, body, exit, i, i_next })
}

/// Starts a loop that counts from `start` to `limit` and goes to its body.
pub fn begin_count_loop(
    start: Temp,
    limit: Temp,
    labels: LoopLabels,
    b: &mut FuncBuilder,
) -> (r: CountLoop)
    ensures
        (final(b)@, r) == begin_count_loop_spec(start, limit, labels, old(b)@),
        grown(old(b)@, final(b)@, 0),
        old(b)@.wf()
            && temp_ok(start, old(b)@.temp_types.len())
            && temp_ok(limit, old(b)@.temp_types.len())
            ==> final(b)@.wf()
                && count_loop_temps_ok(&r, final(b)@.temp_types.len())
                && count_loop_open(&r, final(b)@),
        old(b)@.blocks.len() > 0 ==> count_loop_ok(r, final(b)@),
        newer(old(b)@, final(b)@, r.i_next),
{
    reveal(begin_count_loop_spec);
    let pre = b.env.current_block;
    let header = b.alloc_block(labels.header);
    let body = b.alloc_block(labels.body);
    let exit = b.alloc_block(labels.exit);
    let i = b.alloc_temp(Type::Int64);
    let i_next = b.alloc_temp(Type::Int64);
    b.terminate(Terminator::Jump(header));
    b.switch_to(header);
    b.emit(
        Instruction::Phi {
            dst: i,
            ty: Type::Int64,
            incomings: two(
                Incoming { val: start, pred: pre },
                Incoming { val: i_next, pred: body },
            ),
        },
    );
    let cond = b.binary(BinOp::Lt, i, limit, &Type::Int64, &Type::Bool);
    b.terminate(Terminator::CondJump { cond, then_block: body, else_block: exit });
    b.switch_to(body);
    CountLoop { header, body, exit, i, i_next }
}

/// What `end_count_loop` does to the function under construction.
#[verifier::opaque]
pub open spec fn end_count_loop_spec(frame: &CountLoop, one_c: Temp, b: FState) -> FState {
    let b = b.emit(
        Instruction::Binary {
            dst: frame.i_next,
            op: BinOp::Add,
            lhs: frame.i,
            rhs: one_c,
            operand_ty: Type::Int64,
            ty: Type::Int64,
        },
    );
    let b = b.terminate(Terminator::Jump(frame.header));
    b.switch_to(frame.exit)
}

/// Ends the body of a loop that counts by one, and goes on behind it.
pub fn end_count_loop(frame: &CountLoop, one_c: Temp, b: &mut FuncBuilder)
    ensures
        final(b)@ == end_count_loop_spec(frame, one_c, old(b)@),
        grew(old(b)@, final(b)@, 0),
        steady_but(old(b)@, final(b)@, set![frame.i_next]),
        old(b)@.wf()
            && count_loop_temps_ok(frame, old(b)@.temp_types.len())
            && temp_ok(one_c, old(b)@.temp_types.len())
            && count_loop_ok(*frame, old(b)@)
            && count_loop_open(frame, old(b)@)
            ==> final(b)@.wf(),
{
    reveal(end_count_loop_spec);
    b.emit(
        Instruction::Binary {
            dst: frame.i_next,
            op: BinOp::Add,
            lhs: frame.i,
            rhs: one_c,
            operand_ty: Type::Int64,
            ty: Type::Int64,
        },
    );
    b.terminate(Terminator::Jump(frame.header));
    b.switch_to(frame.exit);
}

/// The arrays and the lengths of a merge sort.
pub struct SortArrays {
    /// The array that is sorted, and the array that runs are merged into.
    pub out: Temp,
    pub work: Temp,
    pub result_ty: Type,
    pub elem_ty: Type,
    pub one_c: Temp,
}

/// What `copy_elem` does to the function under construction.
#[verifier::opaque]
pub open spec fn copy_elem_spec(
    arrays: &SortArrays,
    from: Temp,
    from_key: Temp,
    to: Temp,
    to_key: Temp,
    b: FState,
) -> FState {
    let (b, v) = b.index(from, from_key, &arrays.result_ty, &Type::Int64, &arrays.elem_ty, false);
    b.emit(
        Instruction::IndexSet {
            object: to,
            key: to_key,
            value: v,
            obj_ty: arrays.result_ty.dup(),
            key_ty: Type::Int64,
            val_ty: arrays.elem_ty.dup(),
        },
    )
}

/// Emits the copy of one element from one array to another.
pub fn copy_elem(
    arrays: &SortArrays,
    from: Temp,
    from_key: Temp,
    to: Temp,
    to_key: Temp,
    b: &mut FuncBuilder,
)
    ensures
        final(b)@ == copy_elem_spec(arrays, from, from_key, to, to_key, old(b)@),
        grown(old(b)@, final(b)@, 0),
        old(b)@.wf()
            && sort_arrays_ok(arrays, old(b)@.temp_types.len())
            && temp_ok(from, old(b)@.temp_types.len())
            && temp_ok(from_key, old(b)@.temp_types.len())
            && temp_ok(to, old(b)@.temp_types.len())
            && temp_ok(to_key, old(b)@.temp_types.len())
            ==> final(b)@.wf(),
{
    reveal(copy_elem_spec);
    let v = b.index(from, from_key, &arrays.result_ty, &Type::Int64, &arrays.elem_ty, false);
    b.emit(
        Instruction::IndexSet {
            object: to,
            key: to_key,
            value: v,
            obj_ty: arrays.result_ty.dup(),
            key_ty: Type::Int64,
            val_ty: arrays.elem_ty.dup(),
        },
    );
}

/// What `emit_merge` does to the state, where `l` lowers the expressions inside.
#[verifier::opaque]
pub open spec fn emit_merge_spec(
    l: Lower,
    arrays: &SortArrays,
    lo: Temp,
    mid: Temp,
    hi: Temp,
    order: &Lambda,
    s: St,
) -> (St, BlockId) {
    let m_pre = s.b.env.current_block;
    let (s, m_header) = on(s, s.b.alloc_block("sort_m_hdr"));
    let (s, m_body) = on(s, s.b.alloc_block("sort_m_body"));
    let (s, m_take_l) = on(s, s.b.alloc_block("sort_m_takel"));
    let (s, m_take_r) = on(s, s.b.alloc_block("sort_m_taker"));
    let (s, m_order) = on(s, s.b.alloc_block("sort_m_cmp"));
    let (s, m_advance) = on(s, s.b.alloc_block("sort_m_adv"));
    let (s, m_exit) = on(s, s.b.alloc_block("sort_m_exit"));
    let (s, mi) = on(s, s.b.alloc_temp(Type::Int64));
    let (s, mj) = on(s, s.b.alloc_temp(Type::Int64));
    let (s, mk) = on(s, s.b.alloc_temp(Type::Int64));
    let (s, mi_next) = on(s, s.b.alloc_temp(Type::Int64));
    let (s, mj_next) = on(s, s.b.alloc_temp(Type::Int64));
    let (s, mk_next) = on(s, s.b.alloc_temp(Type::Int64));
    let s = on_b(s, s.b.terminate(Terminator::Jump(m_header)));
    let s = on_b(s, s.b.switch_to(m_header));
    let s = on_b(
        s,
        s.b.emit(
            Instruction::Phi {
                dst: mi,
                ty: Type::Int64,
                incomings: two(
                    Incoming { val: lo, pred: m_pre },
                    Incoming { val: mi_next, pred: m_advance },
                ),
            },
        ),
    );
    let s = on_b(
        s,
        s.b.emit(
            Instruction::Phi {
                dst: mj,
                ty: Type::Int64,
                incomings: two(
                    Incoming { val: mid, pred: m_pre },
                    Incoming { val: mj_next, pred: m_advance },
                ),
            },
        ),
    );
    let s = on_b(
        s,
        s.b.emit(
            Instruction::Phi {
                dst: mk,
                ty: Type::Int64,
                incomings: two(
                    Incoming { val: lo, pred: m_pre },
                    Incoming { val: mk_next, pred: m_advance },
                ),
            },
        ),
    );
    let (s, m_cond) = on(s, s.b.binary(BinOp::Lt, mk, hi, &Type::Int64, &Type::Bool));
    let s = on_b(
        s,
        s.b.terminate(
            Terminator::CondJump { cond: m_cond, then_block: m_body, else_block: m_exit },
        ),
    );
    let s = on_b(s, s.b.switch_to(m_body));
    let (s, l_exhausted) = on(s, s.b.binary(BinOp::GtEq, mi, mid, &Type::Int64, &Type::Bool));
    let (s, after_l) = on(s, s.b.alloc_block("sort_m_chk_r"));
    let s = on_b(
        s,
        s.b.terminate(
            Terminator::CondJump { cond: l_exhausted, then_block: m_take_r, else_block: after_l },
        ),
    );
    let s = on_b(s, s.b.switch_to(after_l));
    let (s, r_exhausted) = on(s, s.b.binary(BinOp::GtEq, mj, hi, &Type::Int64, &Type::Bool));
    let s = on_b(
        s,
        s.b.terminate(
            Terminator::CondJump { cond: r_exhausted, then_block: m_take_l, else_block: m_order },
        ),
    );
    let s = on_b(s, s.b.switch_to(m_order));
    let (s, left) = on(
        s,
        s.b.index(arrays.out, mi, &arrays.result_ty, &Type::Int64, &arrays.elem_ty, false),
    );
    let (s, right) = on(
        s,
        s.b.index(arrays.out, mj, &arrays.result_ty, &Type::Int64, &arrays.elem_ty, false),
    );
    let (s, raw) = inline_lambda_body_spec(
        l,
        order,
        &two(
            TypedTemp { temp: left, ty: arrays.elem_ty.dup() },
            TypedTemp { temp: right, ty: arrays.elem_ty.dup() },
        ),
        s,
    );
    let (s, ord) = on(s, coerce_arg_to_param_repr_spec(raw.temp, &raw.ty, &Type::Int32, s.b));
    let (s, zero32) = on(s, s.b.const_temp(Const::Int(0, Type::Int32)));
    let (s, take_left) = on(s, s.b.binary(BinOp::LtEq, ord, zero32, &Type::Int32, &Type::Bool));
    let s = on_b(
        s,
        s.b.terminate(
            Terminator::CondJump { cond: take_left, then_block: m_take_l, else_block: m_take_r },
        ),
    );
    let s = on_b(s, s.b.switch_to(m_take_l));
    let s = on_b(s, copy_elem_spec(arrays, arrays.out, mi, arrays.work, mk, s.b));
    let (s, mi_inc) = on(s, s.b.binary(BinOp::Add, mi, arrays.one_c, &Type::Int64, &Type::Int64));
    let s = on_b(s, s.b.terminate(Terminator::Jump(m_advance)));
    let s = on_b(s, s.b.switch_to(m_take_r));
    let s = on_b(s, copy_elem_spec(arrays, arrays.out, mj, arrays.work, mk, s.b));
    let (s, mj_inc) = on(s, s.b.binary(BinOp::Add, mj, arrays.one_c, &Type::Int64, &Type::Int64));
    let s = on_b(s, s.b.terminate(Terminator::Jump(m_advance)));
    let s = on_b(s, s.b.switch_to(m_advance));
    let s = on_b(
        s,
        s.b.emit(
            Instruction::Phi {
                dst: mi_next,
                ty: Type::Int64,
                incomings: two(
                    Incoming { val: mi_inc, pred: m_take_l },
                    Incoming { val: mi, pred: m_take_r },
                ),
            },
        ),
    );
    let s = on_b(
        s,
        s.b.emit(
            Instruction::Phi {
                dst: mj_next,
                ty: Type::Int64,
                incomings: two(
                    Incoming { val: mj, pred: m_take_l },
                    Incoming { val: mj_inc, pred: m_take_r },
                ),
            },
        ),
    );
    let s = on_b(
        s,
        s.b.emit(
            Instruction::Binary {
                dst: mk_next,
                op: BinOp::Add,
                lhs: mk,
                rhs: arrays.one_c,
                operand_ty: Type::Int64,
                ty: Type::Int64,
            },
        ),
    );
    let s = on_b(s, s.b.terminate(Terminator::Jump(m_header)));
    let s = on_b(s, s.b.switch_to(m_exit));
    (s, m_exit)
}

/// Emits the merge of the run from `lo` to `mid` and the run from `mid` to `hi` of one array
/// into the other. An element of the left run goes first unless the order puts it behind, so
/// equal elements keep their order. Returns the block behind the merge.
#[verifier::rlimit(60)]
pub fn emit_merge(
    arrays: &SortArrays,
    lo: Temp,
    mid: Temp,
    hi: Temp,
    order: &Lambda,
    b: &mut FuncBuilder,
    ctx: &mut LowerCtx,
) -> (r: BlockId)
    ensures
        (st(final(b), final(ctx)), r) == emit_merge_spec(
            lower_at(old(ctx).room.left()),
            arrays,
            lo,
            mid,
            hi,
            order,
            st(old(b), old(ctx)),
        ),
        ran(*old(b), *old(ctx), *final(b), *final(ctx)),
        valid(st(old(b), old(ctx)))
            && sort_arrays_ok(arrays, old(b)@.temp_types.len())
            && temp_ok(lo, old(b)@.temp_types.len())
            && temp_ok(mid, old(b)@.temp_types.len())
            && temp_ok(hi, old(b)@.temp_types.len())
            ==> valid(st(final(b), final(ctx))) && r.0 < final(b)@.blocks.len(),
    decreases old(ctx).room.left(), 3nat, 0nat,
{
    reveal(emit_merge_spec);
    let m_pre = b.env.current_block;
    let m_header = b.alloc_block("sort_m_hdr");
    let m_body = b.alloc_block("sort_m_body");
    let m_take_l = b.alloc_block("sort_m_takel");
    let m_take_r = b.alloc_block("sort_m_taker");
    let m_order = b.alloc_block("sort_m_cmp");
    let m_advance = b.alloc_block("sort_m_adv");
    let m_exit = b.alloc_block("sort_m_exit");
    let mi = b.alloc_temp(Type::Int64);
    let mj = b.alloc_temp(Type::Int64);
    let mk = b.alloc_temp(Type::Int64);
    let mi_next = b.alloc_temp(Type::Int64);
    let mj_next = b.alloc_temp(Type::Int64);
    let mk_next = b.alloc_temp(Type::Int64);
    b.terminate(Terminator::Jump(m_header));
    b.switch_to(m_header);
    b.emit(
        Instruction::Phi {
            dst: mi,
            ty: Type::Int64,
            incomings: two(
                Incoming { val: lo, pred: m_pre },
                Incoming { val: mi_next, pred: m_advance },
            ),
        },
    );
    b.emit(
        Instruction::Phi {
            dst: mj,
            ty: Type::Int64,
            incomings: two(
                Incoming { val: mid, pred: m_pre },
                Incoming { val: mj_next, pred: m_advance },
            ),
        },
    );
    b.emit(
        Instruction::Phi {
            dst: mk,
            ty: Type::Int64,
            incomings: two(
                Incoming { val: lo, pred: m_pre },
                Incoming { val: mk_next, pred: m_advance },
            ),
        },
    );
    let m_cond = b.binary(BinOp::Lt, mk, hi, &Type::Int64, &Type::Bool);
    b.terminate(Terminator::CondJump { cond: m_cond, then_block: m_body, else_block: m_exit });
    b.switch_to(m_body);
    let l_exhausted = b.binary(BinOp::GtEq, mi, mid, &Type::Int64, &Type::Bool);
    let after_l = b.alloc_block("sort_m_chk_r");
    b.terminate(
        Terminator::CondJump { cond: l_exhausted, then_block: m_take_r, else_block: after_l },
    );
    b.switch_to(after_l);
    let r_exhausted = b.binary(BinOp::GtEq, mj, hi, &Type::Int64, &Type::Bool);
    b.terminate(
        Terminator::CondJump { cond: r_exhausted, then_block: m_take_l, else_block: m_order },
    );
    b.switch_to(m_order);
    let left = b.index(arrays.out, mi, &arrays.result_ty, &Type::Int64, &arrays.elem_ty, false);
    let right = b.index(arrays.out, mj, &arrays.result_ty, &Type::Int64, &arrays.elem_ty, false);
    let raw = inline_lambda_body(
        order,
        &two(
            TypedTemp { temp: left, ty: arrays.elem_ty.dup() },
            TypedTemp { temp: right, ty: arrays.elem_ty.dup() },
        ),
        b,
        ctx,
    );
    let ord = coerce_arg_to_param_repr(raw.temp, &raw.ty, &Type::Int32, b);
    let zero32 = b.const_temp(Const::Int(0, Type::Int32));
    let take_left = b.binary(BinOp::LtEq, ord, zero32, &Type::Int32, &Type::Bool);
    b.terminate(
        Terminator::CondJump { cond: take_left, then_block: m_take_l, else_block: m_take_r },
    );
    b.switch_to(m_take_l);
    copy_elem(arrays, arrays.out, mi, arrays.work, mk, b);
    let mi_inc = b.binary(BinOp::Add, mi, arrays.one_c, &Type::Int64, &Type::Int64);
    b.terminate(Terminator::Jump(m_advance));
    b.switch_to(m_take_r);
    copy_elem(arrays, arrays.out, mj, arrays.work, mk, b);
    let mj_inc = b.binary(BinOp::Add, mj, arrays.one_c, &Type::Int64, &Type::Int64);
    b.terminate(Terminator::Jump(m_advance));
    b.switch_to(m_advance);
    b.emit(
        Instruction::Phi {
            dst: mi_next,
            ty: Type::Int64,
            incomings: two(
                Incoming { val: mi_inc, pred: m_take_l },
                Incoming { val: mi, pred: m_take_r },
            ),
        },
    );
    b.emit(
        Instruction::Phi {
            dst: mj_next,
            ty: Type::Int64,
            incomings: two(
                Incoming { val: mj, pred: m_take_l },
                Incoming { val: mj_inc, pred: m_take_r },
            ),
        },
    );
    b.emit(
        Instruction::Binary {
            dst: mk_next,
            op: BinOp::Add,
            lhs: mk,
            rhs: arrays.one_c,
            operand_ty: Type::Int64,
            ty: Type::Int64,
        },
    );
    b.terminate(Terminator::Jump(m_header));
    b.switch_to(m_exit);
    m_exit
}

/// What `lower_sort` does to the state, where `l` lowers the expressions inside.
#[verifier::opaque]
pub open spec fn lower_sort_spec(
    l: Lower,
    array_e: &TypedExpr,
    order_e: &TypedExpr,
    result_type: &Type,
    s: St,
) -> (St, Option<Temp>) {
    let elem_ty = match result_type {
        Type::Array(t) => t.dup(),
        Type::Iterator(t) => t.dup(),
        _ => iter_elem_type(&array_e.ty()),
    };
    match (FlatElemKind::from_type(&elem_ty), inlinable_lambda(order_e)) {
        (Some(flat), Some(order)) => {
            let (s, out) = lower_flat_sort_spec(l, array_e, &order, elem_ty, flat, result_type, s);
            (s, Some(out))
        },
        _ => (s, None),
    }
}

/// Lowers `sort` of an array of numbers with a function literal that captures nothing: a
/// bottom-up merge sort of a copy. `None`, with nothing emitted, where the elements or the
/// order are of another kind.
pub fn lower_sort(
    array_e: &TypedExpr,
    order_e: &TypedExpr,
    result_type: &Type,
    b: &mut FuncBuilder,
    ctx: &mut LowerCtx,
) -> (r: Option<Temp>)
    ensures
        (st(final(b), final(ctx)), r) == lower_sort_spec(
            lower_at(old(ctx).room.left()),
            array_e,
            order_e,
            result_type,
            st(old(b), old(ctx)),
        ),
        ran(*old(b), *old(ctx), *final(b), *final(ctx)),
        valid(st(old(b), old(ctx)))
            ==> valid(st(final(b), final(ctx))) && otemp_ok(r, final(b)@.temp_types.len()),
    decreases old(ctx).room.left(), 5nat, 0nat,
{
    reveal(lower_sort_spec);
    let elem_ty = match result_type {
        Type::Array(t) => t.dup(),
        Type::Iterator(t) => t.dup(),
        _ => iter_elem_type(&array_e.ty()),
    };
    match (FlatElemKind::from_type(&elem_ty), inlinable_lambda(order_e)) {
        (Some(flat), Some(order)) => {
            let out = lower_flat_sort(array_e, &order, elem_ty, flat, result_type, b, ctx);
            Some(out)
        },
        _ => None,
    }
}

/// What `lower_flat_sort` does to the state, where `l` lowers the expressions inside.
#[verifier::opaque]
pub open spec fn lower_flat_sort_spec(
    l: Lower,
    array_e: &TypedExpr,
    order: &Lambda,
    elem_ty: Type,
    flat: FlatElemKind,
    result_type: &Type,
    s: St,
) -> (St, Temp) {
    let arr_ty = array_e.ty();
    let read_elem_ty = combinator_read_elem_ty_spec(array_e, s);
    let (s, arr) = low(l, array_e, s);
    let (s, n) = on(s, emit_iterable_len_spec(arr, &arr_ty, s.b));
    let (s, out) = on(
        s,
        s.b.call_intrinsic(Intrinsic::FlatArrayAlloc(flat), List::Nil, result_type),
    );
    let s = on_b(s, s.b.register_owned(out, result_type.dup()));
    let (s, work) = on(
        s,
        s.b.call_intrinsic(Intrinsic::FlatArrayAlloc(flat), List::Nil, result_type),
    );
    let s = on_b(s, s.b.register_owned(work, result_type.dup()));
    let (s, zero) = on(s, s.b.const_temp(Const::Int(0, Type::Int64)));
    let (s, one_c) = on(s, s.b.const_temp(Const::Int(1, Type::Int64)));
    let (s, copy) = on(
        s,
        begin_count_loop_spec(
            zero,
            n,
            LoopLabels { header: "sort_copy_hdr", body: "sort_copy_body", exit: "sort_copy_exit" },
            s.b,
        ),
    );
    let (s, elem_raw) = on(s, s.b.index(arr, copy.i, &arr_ty, &Type::Int64, &read_elem_ty, false));
    let (s, elem) = on(s, coerce_arg_to_param_repr_spec(elem_raw, &read_elem_ty, &elem_ty, s.b));
    let s = if is_union_ty(&read_elem_ty) {
        on_b(s, s.b.emit(Instruction::FreeBoxShellIfDistinct { val: elem_raw, other: elem }))
    } else {
        s
    };
    let (s, _) = on(
        s,
        s.b.call_intrinsic(Intrinsic::FlatArrayPush(flat), two(out, elem), &Type::Null),
    );
    let (s, _) = on(
        s,
        s.b.call_intrinsic(Intrinsic::FlatArrayPush(flat), two(work, elem), &Type::Null),
    );
    let s = on_b(s, end_count_loop_spec(&copy, one_c, s.b));
    let arrays = SortArrays { out, work, result_ty: result_type.dup(), elem_ty, one_c };
    let (s, widths) = on(
        s,
        begin_count_loop_spec(
            one_c,
            n,
            LoopLabels { header: "sort_w_hdr", body: "sort_w_body", exit: "sort_w_exit" },
            s.b,
        ),
    );
    let (s, two_w) = on(s, s.b.alloc_temp(Type::Int64));
    let (s, two_c) = on(s, s.b.const_temp(Const::Int(2, Type::Int64)));
    let s = on_b(
        s,
        s.b.emit(
            Instruction::Binary {
                dst: two_w,
                op: BinOp::Mul,
                lhs: widths.i,
                rhs: two_c,
                operand_ty: Type::Int64,
                ty: Type::Int64,
            },
        ),
    );
    let (s, runs) = on(
        s,
        begin_count_loop_spec(
            zero,
            n,
            LoopLabels { header: "sort_lo_hdr", body: "sort_lo_body", exit: "sort_lo_exit" },
            s.b,
        ),
    );
    let (s, lo_plus_w) = on(
        s,
        s.b.binary(BinOp::Add, runs.i, widths.i, &Type::Int64, &Type::Int64),
    );
    let (s, mid) = on(s, emit_min_i64_spec(lo_plus_w, n, s.b));
    let (s, lo_plus_2w) = on(s, s.b.binary(BinOp::Add, runs.i, two_w, &Type::Int64, &Type::Int64));
    let (s, hi) = on(s, emit_min_i64_spec(lo_plus_2w, n, s.b));
    let (s, m_exit) = emit_merge_spec(l, &arrays, runs.i, mid, hi, order, s);
    let s = on_b(
        s,
        s.b.emit(
            Instruction::Binary {
                dst: runs.i_next,
                op: BinOp::Add,
                lhs: runs.i,
                rhs: two_w,
                operand_ty: Type::Int64,
                ty: Type::Int64,
            },
        ),
    );
    let s = on_b(s, s.b.patch_phi_incoming(runs.header, runs.i, runs.body, m_exit));
    let s = on_b(s, s.b.terminate(Terminator::Jump(runs.header)));
    let s = on_b(s, s.b.switch_to(runs.exit));
    let (s, back) = on(
        s,
        begin_count_loop_spec(
            zero,
            n,
            LoopLabels { header: "sort_cb_hdr", body: "sort_cb_body", exit: "sort_cb_exit" },
            s.b,
        ),
    );
    let s = on_b(s, copy_elem_spec(&arrays, work, back.i, out, back.i, s.b));
    let s = on_b(s, end_count_loop_spec(&back, one_c, s.b));
    let w_back_block = s.b.env.current_block;
    let s = on_b(
        s,
        s.b.emit(
            Instruction::Binary {
                dst: widths.i_next,
                op: BinOp::Mul,
                lhs: widths.i,
                rhs: two_c,
                operand_ty: Type::Int64,
                ty: Type::Int64,
            },
        ),
    );
    let s = on_b(s, s.b.patch_phi_incoming(widths.header, widths.i, widths.body, w_back_block));
    let s = on_b(s, s.b.terminate(Terminator::Jump(widths.header)));
    let s = on_b(s, s.b.switch_to(widths.exit));
    (s, out)
}

/// Lowers the merge sort of a copy of an array of numbers: runs of one, two, four and so on
/// are merged from the copy into a second array and copied back.
#[verifier::rlimit(60)]
pub fn lower_flat_sort(
    array_e: &TypedExpr,
    order: &Lambda,
    elem_ty: Type,
    flat: FlatElemKind,
    result_type: &Type,
    b: &mut FuncBuilder,
    ctx: &mut LowerCtx,
) -> (r: Temp)
    ensures
        (st(final(b), final(ctx)), r) == lower_flat_sort_spec(
            lower_at(old(ctx).room.left()),
            array_e,
            order,
            elem_ty,
            flat,
            result_type,
            st(old(b), old(ctx)),
        ),
        ran(*old(b), *old(ctx), *final(b), *final(ctx)),
        valid(st(old(b), old(ctx)))
            ==> valid(st(final(b), final(ctx))) && temp_ok(r, final(b)@.temp_types.len()),
    decreases old(ctx).room.left(), 4nat, 0nat,
{
    reveal(lower_flat_sort_spec);
    let arr_ty = array_e.ty();
    let read_elem_ty = combinator_read_elem_ty(array_e, b, ctx);
    let arr = lower_expr(array_e, b, ctx);
    let n = emit_iterable_len(arr, &arr_ty, b);
    let out = b.call_intrinsic(Intrinsic::FlatArrayAlloc(flat), List::Nil, result_type);
    b.register_owned(out, result_type.dup());
    let work = b.call_intrinsic(Intrinsic::FlatArrayAlloc(flat), List::Nil, result_type);
    b.register_owned(work, result_type.dup());
    let zero = b.const_temp(Const::Int(0, Type::Int64));
    let one_c = b.const_temp(Const::Int(1, Type::Int64));
    let copy = begin_count_loop(
        zero,
        n,
        LoopLabels { header: "sort_copy_hdr", body: "sort_copy_body", exit: "sort_copy_exit" },
        b,
    );
    let elem_raw = b.index(arr, copy.i, &arr_ty, &Type::Int64, &read_elem_ty, false);
    let elem = coerce_arg_to_param_repr(elem_raw, &read_elem_ty, &elem_ty, b);
    if is_union_ty(&read_elem_ty) {
        b.emit(Instruction::FreeBoxShellIfDistinct { val: elem_raw, other: elem });
    }
    b.call_intrinsic(Intrinsic::FlatArrayPush(flat), two(out, elem), &Type::Null);
    b.call_intrinsic(Intrinsic::FlatArrayPush(flat), two(work, elem), &Type::Null);
    end_count_loop(&copy, one_c, b);
    let arrays = SortArrays { out, work, result_ty: result_type.dup(), elem_ty, one_c };
    let widths = begin_count_loop(
        one_c,
        n,
        LoopLabels { header: "sort_w_hdr", body: "sort_w_body", exit: "sort_w_exit" },
        b,
    );
    let two_w = b.alloc_temp(Type::Int64);
    let two_c = b.const_temp(Const::Int(2, Type::Int64));
    b.emit(
        Instruction::Binary {
            dst: two_w,
            op: BinOp::Mul,
            lhs: widths.i,
            rhs: two_c,
            operand_ty: Type::Int64,
            ty: Type::Int64,
        },
    );
    let runs = begin_count_loop(
        zero,
        n,
        LoopLabels { header: "sort_lo_hdr", body: "sort_lo_body", exit: "sort_lo_exit" },
        b,
    );
    let lo_plus_w = b.binary(BinOp::Add, runs.i, widths.i, &Type::Int64, &Type::Int64);
    let mid = emit_min_i64(lo_plus_w, n, b);
    let lo_plus_2w = b.binary(BinOp::Add, runs.i, two_w, &Type::Int64, &Type::Int64);
    let hi = emit_min_i64(lo_plus_2w, n, b);
    let m_exit = emit_merge(&arrays, runs.i, mid, hi, order, b, ctx);
    b.emit(
        Instruction::Binary {
            dst: runs.i_next,
            op: BinOp::Add,
            lhs: runs.i,
            rhs: two_w,
            operand_ty: Type::Int64,
            ty: Type::Int64,
        },
    );
    b.patch_phi_incoming(runs.header, runs.i, runs.body, m_exit);
    b.terminate(Terminator::Jump(runs.header));
    b.switch_to(runs.exit);
    let back = begin_count_loop(
        zero,
        n,
        LoopLabels { header: "sort_cb_hdr", body: "sort_cb_body", exit: "sort_cb_exit" },
        b,
    );
    copy_elem(&arrays, work, back.i, out, back.i, b);
    end_count_loop(&back, one_c, b);
    let w_back_block = b.env.current_block;
    b.emit(
        Instruction::Binary {
            dst: widths.i_next,
            op: BinOp::Mul,
            lhs: widths.i,
            rhs: two_c,
            operand_ty: Type::Int64,
            ty: Type::Int64,
        },
    );
    b.patch_phi_incoming(widths.header, widths.i, widths.body, w_back_block);
    b.terminate(Terminator::Jump(widths.header));
    b.switch_to(widths.exit);
    out
}

} // verus!
