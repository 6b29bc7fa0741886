//! Lowering of the combinators that visit a collection.

use crate::analysis::elem_used_only_for_scalar_fields;
use crate::ast::{BinOp, TypedExpr};
use crate::builder::{FState, FuncBuilder, grew, grown, newer, steady_but, undefined};
use crate::coerce::{
    box_to_json, box_to_json_spec, coerce_to_slot_type, coerce_to_slot_type_spec,
    free_arg_box_shells, free_arg_box_shells_spec, narrow_loop_index, narrow_loop_index_spec,
    release_if_distinct, release_if_distinct_spec,
};
use crate::ctx::{Lower, LowerCtx, St, low, on, on_b, ran, st, valid};
use crate::expr::{lower_at, lower_expr};
use crate::fuse::{
    Terminal, emit_flatmap_fused_loop, emit_flatmap_fused_loop_spec, emit_fused_loop,
    emit_fused_loop_spec,
};
use crate::ir::{
    BlockId, CallTarget, Const, FlatElemKind, Incoming, Instruction, Intrinsic, Temp, Terminator,
};
use crate::list::{List, one, two};
use crate::loops::{
    ElemAccess, LoopFlow, LoopFrame, TypedTemp, as_bool, as_bool_spec, begin_combinator_loop,
    begin_combinator_loop_spec, call_body_closure_with_elem_boxes,
    call_body_closure_with_elem_boxes_spec, call_body_direct, call_body_direct_spec, elem_and_index,
    emit_iterable_len, emit_iterable_len_spec, end_combinator_loop, end_combinator_loop_spec,
    fm_reclaim_elem, fm_reclaim_elem_spec, frame_ok, frame_open, free_combinator_sealed_elem,
    free_combinator_sealed_elem_spec, inline_lambda_body, inline_lambda_body_packed_view,
    inline_lambda_body_packed_view_spec, inline_lambda_body_spec,
    inline_lambda_body_tracking_elem_boxes, inline_lambda_body_tracking_elem_boxes_spec,
    lower_callback_in_safe_ctx, lower_callback_in_safe_ctx_spec,
};
use crate::recognize::{
    FuseStage, Lambda, bare_fn_call_target, bare_fn_call_target_spec, callback_signature,
    chain_has_flatmap, combinator_read_elem_ty, combinator_read_elem_ty_spec, extract_fuse_chain,
    extract_fuse_chain_spec, inlinable_local_fn, inlinable_local_fn_spec, is_borrowed_heap_elem,
    iter_elem_type, range_for_bounds, range_for_bounds_spec, takes_two, two_or_more,
};
use crate::repr::is_sealed_scalar_array;
use crate::text::Text;
use crate::types::{Type, json};
use crate::valid::{
    find_loop_temps_ok, flag_loop_temps_ok, group_valid, loop_frame_ok, otemp_ok,
    range_loop_temps_ok, temp_ok, temps_ok, temps_tail, typed_temp_ok,
};
use std::rc::Rc;
use vstd::prelude::*;

verus! {

broadcast use group_valid;

/// A function that can be inlined at the end of a chain of combinators, the collection at
/// the bottom of the chain, and the steps of the chain.
pub struct Fusion<'a> {
    pub lam: Lambda,
    pub base: &'a TypedExpr,
    pub stages: List<FuseStage>,
}

/// How a combinator can be fused with the chain below it.
pub open spec fn fusion_spec<'a>(
    recv: &'a TypedExpr,
    callback: &TypedExpr,
    allowed: bool,
    s: St,
) -> Option<Fusion<'a>> {
    if !allowed {
        None
    } else {
        match inlinable_local_fn_spec(callback, s) {
            None => None,
            Some(lam) => {
                let chain = extract_fuse_chain_spec(recv, s);
                if chain.stages.is_empty() {
                    None
                } else {
                    Some(Fusion { lam, base: chain.base, stages: chain.stages })
                }
            },
        }
    }
}

/// How a combinator over `recv` with this callback can be fused with the chain below it,
/// where it can and `allowed` says that it may.
pub fn fusion<'a>(
    recv: &'a TypedExpr,
    callback: &TypedExpr,
    allowed: bool,
    b: &FuncBuilder,
    ctx: &LowerCtx,
) -> (r: Option<Fusion<'a>>)
    ensures
        r == fusion_spec(recv, callback, allowed, st(b, ctx)),
{
    if !allowed {
        return None;
    }
    match inlinable_local_fn(callback, b, ctx) {
        None => None,
        Some(lam) => {
            let chain = extract_fuse_chain(recv, b, ctx);
            if chain.stages.is_empty() {
                None
            } else {
                Some(Fusion { lam, base: chain.base, stages: chain.stages })
            }
        },
    }
}

/// A function over a packed array can read the fields of the elements in place.
pub open spec fn reads_elem_in_place_spec(iterable_ty: &Type, lam: &Lambda) -> bool {
    match &lam.params {
        List::Nil => false,
        List::Cons(p) => {
            is_sealed_scalar_array(iterable_ty)
                && elem_used_only_for_scalar_fields(&lam.body, p.head.slot)
        },
    }
}

/// Whether a function over a packed array can read the fields of the elements in place.
#[verifier::when_used_as_spec(reads_elem_in_place_spec)]
pub fn reads_elem_in_place(iterable_ty: &Type, lam: &Lambda) -> (r: bool)
    ensures
        r == reads_elem_in_place_spec(iterable_ty, lam),
{
    match &lam.params {
        List::Nil => false,
        List::Cons(p) => is_sealed_scalar_array(iterable_ty)
            && elem_used_only_for_scalar_fields(&lam.body, p.head.slot),
    }
}

/// The result type of a callback, or `other` where it is no function.
pub open spec fn callback_ret_or_spec(callback: &TypedExpr, other: Type) -> Type {
    match &callback.ty() {
        Type::Function { ret, .. } => ret.dup(),
        _ => other,
    }
}

/// The result type of a callback, or `other` where it is no function.
#[verifier::when_used_as_spec(callback_ret_or_spec)]
pub fn callback_ret_or(callback: &TypedExpr, other: Type) -> (r: Type)
    ensures
        r == callback_ret_or_spec(callback, other),
{
    match &callback.ty() {
        Type::Function { ret, .. } => ret.dup(),
        _ => other,
    }
}

/// What `lower_range` does to the state, where `l` lowers the expressions inside.
#[verifier::opaque]
pub open spec fn lower_range_spec(
    l: Lower,
    start_e: &TypedExpr,
    end_e: &TypedExpr,
    s: St,
) -> (St, Temp) {
    let (s, start_raw) = low(l, start_e, s);
    let (s, end_raw) = low(l, end_e, s);
    let (s, start) = on(s, coerce_to_slot_type_spec(start_raw, &start_e.ty(), &Type::Int32, s.b));
    let (s, end) = on(s, coerce_to_slot_type_spec(end_raw, &end_e.ty(), &Type::Int32, s.b));
    let arr_ty = Type::Array(Rc::new(Type::Int32));
    let (s, arr) = on(
        s,
        s.b.call_intrinsic(Intrinsic::FlatArrayAlloc(FlatElemKind::I32), List::Nil, &arr_ty),
    );
    let s = on_b(s, s.b.register_owned(arr, arr_ty.dup()));
    let preheader = s.b.env.current_block;
    let (s, header) = on(s, s.b.alloc_block("range_header"));
    let (s, body) = on(s, s.b.alloc_block("range_body"));
    let (s, exit) = on(s, s.b.alloc_block("range_exit"));
    let (s, i) = on(s, s.b.alloc_temp(Type::Int32));
    let s = on_b(s, s.b.terminate(Terminator::Jump(header)));
    let s = on_b(s, s.b.switch_to(header));
    let (s, i_next) = on(s, s.b.alloc_temp(Type::Int32));
    let s = on_b(
        s,
        s.b.emit(
            Instruction::Phi {
                dst: i,
                ty: Type::Int32,
                incomings: two(
                    Incoming { val: start, pred: preheader },
                    Incoming { val: i_next, pred: body },
                ),
            },
        ),
    );
    let (s, cond) = on(s, s.b.binary(BinOp::Lt, i, end, &Type::Int32, &Type::Bool));
    let s = on_b(
        s,
        s.b.terminate(Terminator::CondJump { cond, then_block: body, else_block: exit }),
    );
    let s = on_b(s, s.b.switch_to(body));
    let (s, _) = on(
        s,
        s.b.call_intrinsic(Intrinsic::FlatArrayPush(FlatElemKind::I32), two(arr, i), &Type::Null),
    );
    let (s, one_c) = on(s, s.b.const_temp(Const::Int(1, Type::Int32)));
    let s = on_b(
        s,
        s.b.emit(
            Instruction::Binary {
                dst: i_next,
                op: BinOp::Add,
                lhs: i,
                rhs: one_c,
                operand_ty: Type::Int32,
                ty: Type::Int32,
            },
        ),
    );
    let s = on_b(s, s.b.terminate(Terminator::Jump(header)));
    let s = on_b(s, s.b.switch_to(exit));
    (s, arr)
}

/// Lowers a range to an array of its numbers.
pub fn lower_range(
    start_e: &TypedExpr,
    end_e: &TypedExpr,
    b: &mut FuncBuilder,
    ctx: &mut LowerCtx,
) -> (r: Temp)
    ensures
        (st(final(b), final(ctx)), r) == lower_range_spec(
            lower_at(old(ctx).room.left()),
            start_e,
            end_e,
            st(old(b), old(ctx)),
        ),
        ran(*old(b), *old(ctx), *final(b), *final(ctx)),
        valid(st(old(b), old(ctx)))
            ==> valid(st(final(b), final(ctx))) && temp_ok(r, final(b)@.temp_types.len()),
    decreases old(ctx).room.left(), 1nat, 0nat,
{
    reveal(lower_range_spec);
    let start_raw = lower_expr(start_e, b, ctx);
    let end_raw = lower_expr(end_e, b, ctx);
    let start = coerce_to_slot_type(start_raw, &start_e.ty(), &Type::Int32, b);
    let end = coerce_to_slot_type(end_raw, &end_e.ty(), &Type::Int32, b);
    let arr_ty = Type::Array(Rc::new(Type::Int32));
    let arr = b.call_intrinsic(Intrinsic::FlatArrayAlloc(FlatElemKind::I32), List::Nil, &arr_ty);
    b.register_owned(arr, arr_ty.dup());
    let preheader = b.env.current_block;
    let header = b.alloc_block("range_header");
    let body = b.alloc_block("range_body");
    let exit = b.alloc_block("range_exit");
    let i = b.alloc_temp(Type::Int32);
    b.terminate(Terminator::Jump(header));
    b.switch_to(header);
    let i_next = b.alloc_temp(Type::Int32);
    b.emit(
        Instruction::Phi {
            dst: i,
            ty: Type::Int32,
            incomings: two(
                Incoming { val: start, pred: preheader },
                Incoming { val: i_next, pred: body },
            ),
        },
    );
    let cond = b.binary(BinOp::Lt, i, end, &Type::Int32, &Type::Bool);
    b.terminate(Terminator::CondJump { cond, then_block: body, else_block: exit });
    b.switch_to(body);
    b.call_intrinsic(Intrinsic::FlatArrayPush(FlatElemKind::I32), two(arr, i), &Type::Null);
    let one_c = b.const_temp(Const::Int(1, Type::Int32));
    b.emit(
        Instruction::Binary {
            dst: i_next,
            op: BinOp::Add,
            lhs: i,
            rhs: one_c,
            operand_ty: Type::Int32,
            ty: Type::Int32,
        },
    );
    b.terminate(Terminator::Jump(header));
    b.switch_to(exit);
    arr
}

/// What `lower_iter` does to the state, where `l` lowers the expressions inside.
#[verifier::opaque]
pub open spec fn lower_iter_spec(
    l: Lower,
    init_e: &TypedExpr,
    cond_e: &TypedExpr,
    next_e: &TypedExpr,
    current_e: &TypedExpr,
    result_type: &Type,
    s: St,
) -> (St, Temp) {
    let (s, init) = low(l, init_e, s);
    let (s, cond) = low(l, cond_e, s);
    let (s, next) = low(l, next_e, s);
    let (s, current) = low(l, current_e, s);
    let (s, out) = on(s, s.b.call_intrinsic(Intrinsic::ArrayAlloc, List::Nil, result_type));
    let s = on_b(s, s.b.register_owned(out, result_type.dup()));
    let (s, s0) = on(s, s.b.call(CallTarget::Indirect(init), List::Nil, &json()));
    let preheader = s.b.env.current_block;
    let (s, header) = on(s, s.b.alloc_block("iter_header"));
    let (s, body) = on(s, s.b.alloc_block("iter_body"));
    let (s, exit) = on(s, s.b.alloc_block("iter_exit"));
    let (s, state) = on(s, s.b.alloc_temp(json()));
    let (s, state_next) = on(s, s.b.alloc_temp(json()));
    let s = on_b(s, s.b.terminate(Terminator::Jump(header)));
    let s = on_b(s, s.b.switch_to(header));
    let s = on_b(
        s,
        s.b.emit(
            Instruction::Phi {
                dst: state,
                ty: json(),
                incomings: two(
                    Incoming { val: s0, pred: preheader },
                    Incoming { val: state_next, pred: body },
                ),
            },
        ),
    );
    let (s, keep) = on(s, s.b.call(CallTarget::Indirect(cond), one(state), &Type::Bool));
    let s = on_b(
        s,
        s.b.terminate(Terminator::CondJump { cond: keep, then_block: body, else_block: exit }),
    );
    let s = on_b(s, s.b.switch_to(body));
    let (s, cur) = on(s, s.b.call(CallTarget::Indirect(current), one(state), &json()));
    let (s, _) = on(s, s.b.call_intrinsic(Intrinsic::Push, two(out, cur), &Type::Null));
    let s = on_b(
        s,
        s.b.emit(
            Instruction::Call {
                dst: state_next,
                callee: CallTarget::Indirect(next),
                args: one(state),
                ret_ty: json(),
            },
        ),
    );
    let s = on_b(s, s.b.terminate(Terminator::Jump(header)));
    let s = on_b(s, s.b.switch_to(exit));
    (s, out)
}

/// Lowers the run of an iterator: from the initial state on, as long as the condition holds,
/// pushes the current value and takes the next state.
pub fn lower_iter(
    init_e: &TypedExpr,
    cond_e: &TypedExpr,
    next_e: &TypedExpr,
    current_e: &TypedExpr,
    result_type: &Type,
    b: &mut FuncBuilder,
    ctx: &mut LowerCtx,
) -> (r: Temp)
    ensures
        (st(final(b), final(ctx)), r) == lower_iter_spec(
            lower_at(old(ctx).room.left()),
            init_e,
            cond_e,
            next_e,
            current_e,
            result_type,
            st(old(b), old(ctx)),
        ),
        ran(*old(b), *old(ctx), *final(b), *final(ctx)),
        valid(st(old(b), old(ctx)))
            ==> valid(st(final(b), final(ctx))) && temp_ok(r, final(b)@.temp_types.len()),
    decreases old(ctx).room.left(), 1nat, 0nat,
{
    reveal(lower_iter_spec);
    let init = lower_expr(init_e, b, ctx);
    let cond = lower_expr(cond_e, b, ctx);
    let next = lower_expr(next_e, b, ctx);
    let current = lower_expr(current_e, b, ctx);
    let out = b.call_intrinsic(Intrinsic::ArrayAlloc, List::Nil, result_type);
    b.register_owned(out, result_type.dup());
    let s0 = b.call(CallTarget::Indirect(init), List::Nil, &json());
    let preheader = b.env.current_block;
    let header = b.alloc_block("iter_header");
    let body = b.alloc_block("iter_body");
    let exit = b.alloc_block("iter_exit");
    let state = b.alloc_temp(json());
    let state_next = b.alloc_temp(json());
    b.terminate(Terminator::Jump(header));
    b.switch_to(header);
    b.emit(
        Instruction::Phi {
            dst: state,
            ty: json(),
            incomings: two(
                Incoming { val: s0, pred: preheader },
                Incoming { val: state_next, pred: body },
            ),
        },
    );
    let keep = b.call(CallTarget::Indirect(cond), one(state), &Type::Bool);
    b.terminate(Terminator::CondJump { cond: keep, then_block: body, else_block: exit });
    b.switch_to(body);
    let cur = b.call(CallTarget::Indirect(current), one(state), &json());
    b.call_intrinsic(Intrinsic::Push, two(out, cur), &Type::Null);
    b.emit(
        Instruction::Call {
            dst: state_next,
            callee: CallTarget::Indirect(next),
            args: one(state),
            ret_ty: json(),
        },
    );
    b.terminate(Terminator::Jump(header));
    b.switch_to(exit);
    out
}

/// What `lower_for` does to the state, where `l` lowers the expressions inside.
#[verifier::opaque]
pub open spec fn lower_for_spec(
    l: Lower,
    iterable_e: &TypedExpr,
    callback: &TypedExpr,
    s: St,
) -> (St, Temp) {
    let iterable_ty = iterable_e.ty();
    if matches!(iterable_ty, Type::Stream(_)) {
        let (s, stream) = low(l, iterable_e, s);
        let (s, body) = low(l, callback, s);
        let ret_ty = Type::Union(two(Type::Null, s.c.env.error_ty.dup()));
        let (s, dst) = on(s, s.b.call_intrinsic(Intrinsic::StreamFor, two(stream, body), &ret_ty));
        let s = on_b(s, s.b.register_owned(dst, ret_ty.dup()));
        (s, dst)
    } else {
        let param_tys = callback_signature(callback).params;
        match range_for_bounds_spec(iterable_e, s) {
            Some(bounds) => {
                lower_range_for_spec(
                    l,
                    bounds.start,
                    bounds.end,
                    bounds.step,
                    callback,
                    &param_tys,
                    s,
                )
            },
            None => match fusion_spec(iterable_e, callback, true, s) {
                Some(f) => {
                    let base_ty = f.base.ty();
                    let read_elem_ty = combinator_read_elem_ty_spec(f.base, s);
                    let (s, iterable) = low(l, f.base, s);
                    let takes_index = takes_two(&f.lam.params);
                    let terminal = Terminal::Run { lam: f.lam };
                    let s = if chain_has_flatmap(&f.stages) {
                        emit_flatmap_fused_loop_spec(
                            l,
                            iterable,
                            &base_ty,
                            &read_elem_ty,
                            &f.stages,
                            takes_index,
                            &terminal,
                            s,
                        )
                    } else {
                        emit_fused_loop_spec(
                            l,
                            iterable,
                            &base_ty,
                            &read_elem_ty,
                            &f.stages,
                            &terminal,
                            s,
                        )
                    };
                    on(s, s.b.const_temp(Const::Null))
                },
                None => {
                    let elem_ty = combinator_read_elem_ty_spec(iterable_e, s);
                    let (s, iterable) = low(l, iterable_e, s);
                    match bare_fn_call_target_spec(callback, s) {
                        Some(target) => {
                            let native_ret = callback_ret_or(callback, Type::Null);
                            let (s, frame) = on(
                                s,
                                begin_combinator_loop_spec(
                                    iterable,
                                    &iterable_ty,
                                    ElemAccess::Materialize(elem_ty.dup()),
                                    s.b,
                                ),
                            );
                            let (s, idx) = on(s, narrow_loop_index_spec(frame.i, s.b));
                            let (s, res) = on(
                                s,
                                call_body_direct_spec(
                                    &target,
                                    &elem_and_index(frame.elem, &elem_ty, idx),
                                    &native_ret,
                                    s.b,
                                ),
                            );
                            let s = on_b(
                                s,
                                s.b.emit(Instruction::Release { val: res, ty: native_ret.dup() }),
                            );
                            let s = on_b(s, fm_reclaim_elem_spec(frame.elem, &elem_ty, s.b));
                            let s = on_b(
                                s,
                                end_combinator_loop_spec(&frame, LoopFlow::Fallthrough, s.b),
                            );
                            on(s, s.b.const_temp(Const::Null))
                        },
                        None => match inlinable_local_fn_spec(callback, s) {
                            Some(lam) => {
                                let s = if reads_elem_in_place(&iterable_ty, &lam) {
                                    let static_elem = iter_elem_type(&iterable_ty);
                                    let (s, frame) = on(
                                        s,
                                        begin_combinator_loop_spec(
                                            iterable,
                                            &iterable_ty,
                                            ElemAccess::Packed,
                                            s.b,
                                        ),
                                    );
                                    let (s, idx) = on(s, narrow_loop_index_spec(frame.i, s.b));
                                    let (s, res) = inline_lambda_body_packed_view_spec(
                                        l,
                                        &lam,
                                        frame.elem,
                                        frame.i,
                                        &static_elem,
                                        idx,
                                        s,
                                    );
                                    let s = on_b(
                                        s,
                                        s.b.emit(
                                            Instruction::Release {
                                                val: res.temp,
                                                ty: res.ty.dup(),
                                            },
                                        ),
                                    );
                                    on_b(
                                        s,
                                        end_combinator_loop_spec(
                                            &frame,
                                            LoopFlow::Fallthrough,
                                            s.b,
                                        ),
                                    )
                                } else {
                                    let (s, frame) = on(
                                        s,
                                        begin_combinator_loop_spec(
                                            iterable,
                                            &iterable_ty,
                                            ElemAccess::Materialize(elem_ty.dup()),
                                            s.b,
                                        ),
                                    );
                                    let (s, idx) = on(s, narrow_loop_index_spec(frame.i, s.b));
                                    let (s, res) = inline_lambda_body_spec(
                                        l,
                                        &lam,
                                        &elem_and_index(frame.elem, &elem_ty, idx),
                                        s,
                                    );
                                    let s = on_b(
                                        s,
                                        s.b.emit(
                                            Instruction::Release {
                                                val: res.temp,
                                                ty: res.ty.dup(),
                                            },
                                        ),
                                    );
                                    let s = on_b(
                                        s,
                                        fm_reclaim_elem_spec(frame.elem, &elem_ty, s.b),
                                    );
                                    on_b(
                                        s,
                                        end_combinator_loop_spec(
                                            &frame,
                                            LoopFlow::Fallthrough,
                                            s.b,
                                        ),
                                    )
                                };
                                on(s, s.b.const_temp(Const::Null))
                            },
                            None => {
                                let (s, body) = lower_callback_in_safe_ctx_spec(l, callback, s);
                                let (s, frame) = on(
                                    s,
                                    begin_combinator_loop_spec(
                                        iterable,
                                        &iterable_ty,
                                        ElemAccess::Materialize(elem_ty.dup()),
                                        s.b,
                                    ),
                                );
                                let (s, idx_raw) = on(s, narrow_loop_index_spec(frame.i, s.b));
                                let (s, idx) = on(
                                    s,
                                    box_index_spec(idx_raw, two_or_more(&param_tys), s.b),
                                );
                                let (s, ret) = on(
                                    s,
                                    call_body_closure_with_elem_boxes_spec(
                                        body,
                                        &two(
                                            TypedTemp { temp: frame.elem, ty: elem_ty.dup() },
                                            idx,
                                        ),
                                        &param_tys,
                                        &json(),
                                        s.b,
                                    ),
                                );
                                let s = on_b(
                                    s,
                                    s.b.emit(Instruction::Release { val: ret.dst, ty: json() }),
                                );
                                let s = on_b(s, release_if_distinct_spec(&ret.boxes, ret.dst, s.b));
                                let s = on_b(
                                    s,
                                    free_combinator_sealed_elem_spec(frame.elem, &elem_ty, s.b),
                                );
                                let s = on_b(
                                    s,
                                    end_combinator_loop_spec(&frame, LoopFlow::Fallthrough, s.b),
                                );
                                on(s, s.b.const_temp(Const::Null))
                            },
                        },
                    }
                },
            },
        }
    }
}

/// Lowers a loop that runs the callback for each element of a collection. A chain of
/// combinators below is fused into the loop; a range is counted without an array; a stream is
/// left to the run-time system. The value is null, for a stream null or an error.
pub fn lower_for(
    iterable_e: &TypedExpr,
    callback: &TypedExpr,
    b: &mut FuncBuilder,
    ctx: &mut LowerCtx,
) -> (r: Temp)
    ensures
        (st(final(b), final(ctx)), r) == lower_for_spec(
            lower_at(old(ctx).room.left()),
            iterable_e,
            callback,
            st(old(b), old(ctx)),
        ),
        ran(*old(b), *old(ctx), *final(b), *final(ctx)),
        valid(st(old(b), old(ctx)))
            ==> valid(st(final(b), final(ctx))) && temp_ok(r, final(b)@.temp_types.len()),
    decreases old(ctx).room.left(), 6nat, 0nat,
{
    reveal(lower_for_spec);
    let iterable_ty = iterable_e.ty();
    if matches!(iterable_ty, Type::Stream(_)) {
        let stream = lower_expr(iterable_e, b, ctx);
        let body = lower_expr(callback, b, ctx);
        let ret_ty = Type::Union(two(Type::Null, ctx.env.error_ty.dup()));
        let dst = b.call_intrinsic(Intrinsic::StreamFor, two(stream, body), &ret_ty);
        b.register_owned(dst, ret_ty.dup());
        return dst;
    }
    let param_tys = callback_signature(callback).params;
    match range_for_bounds(iterable_e, b, ctx) {
        Some(bounds) => {
            return lower_range_for(
                bounds.start,
                bounds.end,
                bounds.step,
                callback,
                &param_tys,
                b,
                ctx,
            );
        },
        None => {},
    }
    match fusion(iterable_e, callback, true, b, ctx) {
        Some(f) => {
            let base_ty = f.base.ty();
            let read_elem_ty = combinator_read_elem_ty(f.base, b, ctx);
            let iterable = lower_expr(f.base, b, ctx);
            let takes_index = takes_two(&f.lam.params);
            let terminal = Terminal::Run { lam: f.lam };
            if chain_has_flatmap(&f.stages) {
                emit_flatmap_fused_loop(
                    iterable,
                    &base_ty,
                    &read_elem_ty,
                    &f.stages,
                    takes_index,
                    &terminal,
                    b,
                    ctx,
                );
            } else {
                emit_fused_loop(iterable, &base_ty, &read_elem_ty, &f.stages, &terminal, b, ctx);
            }
            return b.const_temp(Const::Null);
        },
        None => {},
    }
    let elem_ty = combinator_read_elem_ty(iterable_e, b, ctx);
    let iterable = lower_expr(iterable_e, b, ctx);
    match bare_fn_call_target(callback, b, ctx) {
        Some(target) => {
            let native_ret = callback_ret_or(callback, Type::Null);
            let frame = begin_combinator_loop(
                iterable,
                &iterable_ty,
                ElemAccess::Materialize(elem_ty.dup()),
                b,
            );
            let idx = narrow_loop_index(frame.i, b);
            let res = call_body_direct(
                &target,
                &elem_and_index(frame.elem, &elem_ty, idx),
                &native_ret,
                b,
            );
            b.emit(Instruction::Release { val: res, ty: native_ret.dup() });
            fm_reclaim_elem(frame.elem, &elem_ty, b);
            end_combinator_loop(&frame, LoopFlow::Fallthrough, b);
            return b.const_temp(Const::Null);
        },
        None => {},
    }
    match inlinable_local_fn(callback, b, ctx) {
        Some(lam) => {
            if reads_elem_in_place(&iterable_ty, &lam) {
                let static_elem = iter_elem_type(&iterable_ty);
                let frame = begin_combinator_loop(iterable, &iterable_ty, ElemAccess::Packed, b);
                let idx = narrow_loop_index(frame.i, b);
                let res = inline_lambda_body_packed_view(
                    &lam,
                    frame.elem,
                    frame.i,
                    &static_elem,
                    idx,
                    b,
                    ctx,
                );
                b.emit(Instruction::Release { val: res.temp, ty: res.ty.dup() });
                end_combinator_loop(&frame, LoopFlow::Fallthrough, b);
            } else {
                let frame = begin_combinator_loop(
                    iterable,
                    &iterable_ty,
                    ElemAccess::Materialize(elem_ty.dup()),
                    b,
                );
                let idx = narrow_loop_index(frame.i, b);
                let res = inline_lambda_body(
                    &lam,
                    &elem_and_index(frame.elem, &elem_ty, idx),
                    b,
                    ctx,
                );
                b.emit(Instruction::Release { val: res.temp, ty: res.ty.dup() });
                fm_reclaim_elem(frame.elem, &elem_ty, b);
                end_combinator_loop(&frame, LoopFlow::Fallthrough, b);
            }
            return b.const_temp(Const::Null);
        },
        None => {},
    }
    let body = lower_callback_in_safe_ctx(callback, b, ctx);
    let frame = begin_combinator_loop(
        iterable,
        &iterable_ty,
        ElemAccess::Materialize(elem_ty.dup()),
        b,
    );
    let idx_raw = narrow_loop_index(frame.i, b);
    let idx = box_index(idx_raw, two_or_more(&param_tys), b);
    let ret = call_body_closure_with_elem_boxes(
        body,
        &two(TypedTemp { temp: frame.elem, ty: elem_ty.dup() }, idx),
        &param_tys,
        &json(),
        b,
    );
    b.emit(Instruction::Release { val: ret.dst, ty: json() });
    release_if_distinct(&ret.boxes, ret.dst, b);
    free_combinator_sealed_elem(frame.elem, &elem_ty, b);
    end_combinator_loop(&frame, LoopFlow::Fallthrough, b);
    b.const_temp(Const::Null)
}

/// What `box_index` does to the function under construction.
#[verifier::opaque]
pub open spec fn box_index_spec(idx: Temp, wanted: bool, b: FState) -> (FState, TypedTemp) {
    if wanted {
        let (b, boxed) = box_to_json_spec(idx, &Type::Int32, b);
        (b, TypedTemp { temp: boxed, ty: json() })
    } else {
        (b, TypedTemp { temp: idx, ty: Type::Int32 })
    }
}

/// Boxes the index for a closure that wants it.
pub fn box_index(idx: Temp, wanted: bool, b: &mut FuncBuilder) -> (r: TypedTemp)
    ensures
        (final(b)@, r) == box_index_spec(idx, wanted, old(b)@),
        grown(old(b)@, final(b)@, 0),
        old(b)@.wf() && temp_ok(idx, old(b)@.temp_types.len())
            ==> final(b)@.wf() && typed_temp_ok(&r, final(b)@.temp_types.len()),
{
    reveal(box_index_spec);
    if wanted {
        let boxed = box_to_json(idx, &Type::Int32, b);
        TypedTemp { temp: boxed, ty: json() }
    } else {
        TypedTemp { temp: idx, ty: Type::Int32 }
    }
}

/// What `emit_range_cond` does to the function under construction.
#[verifier::opaque]
pub open spec fn emit_range_cond_spec(
    i: Temp,
    end: Temp,
    step: Option<Temp>,
    b: FState,
) -> (FState, Temp) {
    match step {
        None => b.binary(BinOp::Lt, i, end, &Type::Int32, &Type::Bool),
        Some(step_val) => {
            let (b, zero) = b.const_temp(Const::Int(0, Type::Int32));
            let (b, rises) = b.binary(BinOp::Gt, step_val, zero, &Type::Int32, &Type::Bool);
            let (b, below) = b.binary(BinOp::Lt, i, end, &Type::Int32, &Type::Bool);
            let (b, up) = b.binary(BinOp::And, rises, below, &Type::Bool, &Type::Bool);
            let (b, falls) = b.binary(BinOp::Lt, step_val, zero, &Type::Int32, &Type::Bool);
            let (b, above) = b.binary(BinOp::Gt, i, end, &Type::Int32, &Type::Bool);
            let (b, down) = b.binary(BinOp::And, falls, above, &Type::Bool, &Type::Bool);
            b.binary(BinOp::Or, up, down, &Type::Bool, &Type::Bool)
        },
    }
}

/// Emits whether a range goes on: the counter is below the end, or, with a step, it is on
/// the side of the end from which the step leads there. With a step of zero it never does.
pub fn emit_range_cond(i: Temp, end: Temp, step: Option<Temp>, b: &mut FuncBuilder) -> (r: Temp)
    ensures
        (final(b)@, r) == emit_range_cond_spec(i, end, step, old(b)@),
        grown(old(b)@, final(b)@, 0),
        old(b)@.wf()
            && temp_ok(i, old(b)@.temp_types.len())
            && temp_ok(end, old(b)@.temp_types.len())
            && otemp_ok(step, old(b)@.temp_types.len())
            ==> final(b)@.wf() && temp_ok(r, final(b)@.temp_types.len()),
{
    reveal(emit_range_cond_spec);
    match step {
        None => b.binary(BinOp::Lt, i, end, &Type::Int32, &Type::Bool),
        Some(step_val) => {
            let zero = b.const_temp(Const::Int(0, Type::Int32));
            let rises = b.binary(BinOp::Gt, step_val, zero, &Type::Int32, &Type::Bool);
            let below = b.binary(BinOp::Lt, i, end, &Type::Int32, &Type::Bool);
            let up = b.binary(BinOp::And, rises, below, &Type::Bool, &Type::Bool);
            let falls = b.binary(BinOp::Lt, step_val, zero, &Type::Int32, &Type::Bool);
            let above = b.binary(BinOp::Gt, i, end, &Type::Int32, &Type::Bool);
            let down = b.binary(BinOp::And, falls, above, &Type::Bool, &Type::Bool);
            b.binary(BinOp::Or, up, down, &Type::Bool, &Type::Bool)
        },
    }
}

/// A loop over a range. Where positions are counted from zero, `idx` is the position, else
/// it is the counter itself.
pub struct RangeLoop {
    pub header: BlockId,
    pub body: BlockId,
    pub exit: BlockId,
    pub i: Temp,
    pub i_next: Temp,
    pub counted: bool,
    pub idx: Temp,
    pub idx_next: Temp,
}

/// The blocks of the loop exist.
pub open spec fn range_loop_ok(frame: RangeLoop, b: FState) -> bool {
    frame.header.0 < b.blocks.len() && frame.body.0 < b.blocks.len() && frame.exit.0
        < b.blocks.len()
}

/// The next values of the counter and of the position are not defined yet.
pub open spec fn range_loop_open(frame: &RangeLoop, b: FState) -> bool {
    &&& undefined(b, frame.i_next)
    &&& undefined(b, frame.idx_next)
    &&& b.temp_types.len() < u32::MAX && frame.counted ==> frame.i_next != frame.idx_next
}

/// What `begin_range_loop` does to the function under construction.
#[verifier::opaque]
pub open spec fn begin_range_loop_spec(
    start: Temp,
    end: Temp,
    step: Option<Temp>,
    counted: bool,
    b: FState,
) -> (FState, RangeLoop) {
    let (b, zero) = if counted {
        b.const_temp(Const::Int(0, Type::Int32))
    } else {
        (b, start)
    };
    let preheader = b.env.current_block;
    let (b, header) = b.alloc_block("range_for_header");
    let (b, body) = b.alloc_block("range_for_body");
    let (b, exit) = b.alloc_block("range_for_exit");
    let (b, i) = b.alloc_temp(Type::Int32);
    let (b, i_next) = b.alloc_temp(Type::Int32);
    let b = b.terminate(Terminator::Jump(header));
    let b = b.switch_to(header);
    let b = b.emit(
        Instruction::Phi {
            dst: i,
            ty: Type::Int32,
            incomings: two(
                Incoming { val: start, pred: preheader },
                Incoming { val: i_next, pred: body },
            ),
        },
    );
    let (b, frame) = if counted {
        let (b, idx) = b.alloc_temp(Type::Int32);
        let (b, idx_next) = b.alloc_temp(Type::Int32);
        let b = b.emit(
            Instruction::Phi {
                dst: idx,
                ty: Type::Int32,
                incomings: two(
                    Incoming { val: zero, pred: preheader },
                    Incoming { val: idx_next, pred: body },
                ),
            },
        );
        (b, RangeLoop { header, body, exit, i, i_next, counted, idx, idx_next })
    } else {
        (b, RangeLoop { header, body, exit, i, i_next, counted, idx: i, idx_next: i_next })
    };
    let (b, cond) = emit_range_cond_spec(i, end, step, b);
    let b = b.terminate(Terminator::CondJump { cond, then_block: body, else_block: exit });
    let b = b.switch_to(body);
    (b, frame)
}

/// Starts a loop over a range and goes to its body. With `counted` positions are counted.
pub fn begin_range_loop(
    start: Temp,
    end: Temp,
    step: Option<Temp>,
    counted: bool,
    b: &mut FuncBuilder,
) -> (r: RangeLoop)
    ensures
        (final(b)@, r) == begin_range_loop_spec(start, end, step, counted, old(b)@),
        grown(old(b)@, final(b)@, 0),
        old(b)@.wf()
            && temp_ok(start, old(b)@.temp_types.len())
            && temp_ok(end, old(b)@.temp_types.len())
            && otemp_ok(step, old(b)@.temp_types.len())
            ==> final(b)@.wf()
                && range_loop_temps_ok(&r, final(b)@.temp_types.len())
                && range_loop_open(&r, final(b)@),
        old(b)@.blocks.len() > 0 ==> range_loop_ok(r, final(b)@),
        newer(old(b)@, final(b)@, r.i_next),
        newer(old(b)@, final(b)@, r.idx_next),
{
    reveal(begin_range_loop_spec);
    let zero = if counted {
        b.const_temp(Const::Int(0, Type::Int32))
    } else {
        start
    };
    let preheader = b.env.current_block;
    let header = b.alloc_block("range_for_header");
    let body = b.alloc_block("range_for_body");
    let exit = b.alloc_block("range_for_exit");
    let i = b.alloc_temp(Type::Int32);
    let i_next = b.alloc_temp(Type::Int32);
    b.terminate(Terminator::Jump(header));
    b.switch_to(header);
    b.emit(
        Instruction::Phi {
            dst: i,
            ty: Type::Int32,
            incomings: two(
                Incoming { val: start, pred: preheader },
                Incoming { val: i_next, pred: body },
            ),
        },
    );
    let frame = if counted {
        let idx = b.alloc_temp(Type::Int32);
        let idx_next = b.alloc_temp(Type::Int32);
        b.emit(
            Instruction::Phi {
                dst: idx,
                ty: Type::Int32,
                incomings: two(
                    Incoming { val: zero, pred: preheader },
                    Incoming { val: idx_next, pred: body },
                ),
            },
        );
        RangeLoop { header, body, exit, i, i_next, counted, idx, idx_next }
    } else {
        RangeLoop { header, body, exit, i, i_next, counted, idx: i, idx_next: i_next }
    };
    let cond = emit_range_cond(i, end, step, b);
    b.terminate(Terminator::CondJump { cond, then_block: body, else_block: exit });
    b.switch_to(body);
    frame
}

/// What `end_range_loop` does to the function under construction.
#[verifier::opaque]
pub open spec fn end_range_loop_spec(frame: &RangeLoop, step: Option<Temp>, b: FState) -> FState {
    let latch = b.env.current_block;
    let (b, increment) = match step {
        None => b.const_temp(Const::Int(1, Type::Int32)),
        Some(step_val) => (b, step_val),
    };
    let b = b.emit(
        Instruction::Binary {
            dst: frame.i_next,
            op: BinOp::Add,
            lhs: frame.i,
            rhs: increment,
            operand_ty: Type::Int32,
            ty: Type::Int32,
        },
    );
    let b = if frame.counted {
        let (b, one_c) = b.const_temp(Const::Int(1, Type::Int32));
        b.emit(
            Instruction::Binary {
                dst: frame.idx_next,
                op: BinOp::Add,
                lhs: frame.idx,
                rhs: one_c,
                operand_ty: Type::Int32,
                ty: Type::Int32,
            },
        )
    } else {
        b
    };
    let b = b.terminate(Terminator::Jump(frame.header));
    let b = b.patch_phi_incoming(frame.header, frame.i, frame.body, latch);
    let b = if frame.counted {
        b.patch_phi_incoming(frame.header, frame.idx, frame.body, latch)
    } else {
        b
    };
    b.switch_to(frame.exit)
}

/// Ends the body of a loop over a range and goes on behind it.
pub fn end_range_loop(frame: &RangeLoop, step: Option<Temp>, b: &mut FuncBuilder)
    ensures
        final(b)@ == end_range_loop_spec(frame, step, old(b)@),
        grew(old(b)@, final(b)@, 0),
        steady_but(old(b)@, final(b)@, set![frame.i_next, frame.idx_next]),
        old(b)@.wf()
            && range_loop_temps_ok(frame, old(b)@.temp_types.len())
            && otemp_ok(step, old(b)@.temp_types.len())
            && range_loop_ok(*frame, old(b)@)
            && range_loop_open(frame, old(b)@)
            ==> final(b)@.wf(),
{
    reveal(end_range_loop_spec);
    let latch = b.env.current_block;
    let increment = match step {
        None => b.const_temp(Const::Int(1, Type::Int32)),
        Some(step_val) => step_val,
    };
    b.emit(
        Instruction::Binary {
            dst: frame.i_next,
            op: BinOp::Add,
            lhs: frame.i,
            rhs: increment,
            operand_ty: Type::Int32,
            ty: Type::Int32,
        },
    );
    if frame.counted {
        let one_c = b.const_temp(Const::Int(1, Type::Int32));
        b.emit(
            Instruction::Binary {
                dst: frame.idx_next,
                op: BinOp::Add,
                lhs: frame.idx,
                rhs: one_c,
                operand_ty: Type::Int32,
                ty: Type::Int32,
            },
        );
    }
    b.terminate(Terminator::Jump(frame.header));
    b.patch_phi_incoming(frame.header, frame.i, frame.body, latch);
    if frame.counted {
        b.patch_phi_incoming(frame.header, frame.idx, frame.body, latch);
    }
    b.switch_to(frame.exit);
}

/// What `lower_range_for` does to the state, where `l` lowers the expressions inside.
#[verifier::opaque]
pub open spec fn lower_range_for_spec(
    l: Lower,
    start_e: &TypedExpr,
    end_e: &TypedExpr,
    step_e: Option<&TypedExpr>,
    callback: &TypedExpr,
    param_tys: &List<Type>,
    s: St,
) -> (St, Temp) {
    let (s, start_raw) = low(l, start_e, s);
    let (s, end_raw) = low(l, end_e, s);
    let (s, start) = on(s, coerce_to_slot_type_spec(start_raw, &start_e.ty(), &Type::Int32, s.b));
    let (s, end) = on(s, coerce_to_slot_type_spec(end_raw, &end_e.ty(), &Type::Int32, s.b));
    let (s, step) = match step_e {
        Some(se) => {
            let (s, step_raw) = low(l, se, s);
            let (s, step_val) = on(
                s,
                coerce_to_slot_type_spec(step_raw, &se.ty(), &Type::Int32, s.b),
            );
            (s, Some(step_val))
        },
        None => (s, None),
    };
    let start_is_nonneg = s.b.temp_is_nonneg_int_const(start_raw)
        || s.b.temp_is_nonneg_int_const(start);
    let s = match inlinable_local_fn_spec(callback, s) {
        Some(lam) => {
            let (s, frame) = on(
                s,
                begin_range_loop_spec(start, end, step, takes_two(&lam.params), s.b),
            );
            let s = if start_is_nonneg {
                on_b(s, s.b.add_nonneg(frame.i))
            } else {
                s
            };
            let (s, res) = inline_lambda_body_tracking_elem_boxes_spec(
                l,
                &lam,
                &elem_and_index(frame.i, &Type::Int32, frame.idx),
                s,
            );
            let s = on_b(s, s.b.drop_nonneg(frame.i));
            let s = on_b(s, s.b.emit(Instruction::Release { val: res.val, ty: res.ty.dup() }));
            let s = on_b(s, free_arg_box_shells_spec(&res.boxes, res.val, s.b));
            on_b(s, end_range_loop_spec(&frame, step, s.b))
        },
        None => {
            let (s, f) = lower_callback_in_safe_ctx_spec(l, callback, s);
            let (s, frame) = on(
                s,
                begin_range_loop_spec(start, end, step, two_or_more(param_tys), s.b),
            );
            let s = on_b(s, call_range_body_spec(f, frame.i, frame.idx, param_tys, s.b));
            on_b(s, end_range_loop_spec(&frame, step, s.b))
        },
    };
    on(s, s.b.const_temp(Const::Null))
}

/// Lowers a loop over a range without making an array of it. A callback that wants the index
/// gets the position in the range, counted from zero. Where the range starts at a constant
/// that is not negative, the counter is known not to be negative in an inlined body.
pub fn lower_range_for(
    start_e: &TypedExpr,
    end_e: &TypedExpr,
    step_e: Option<&TypedExpr>,
    callback: &TypedExpr,
    param_tys: &List<Type>,
    b: &mut FuncBuilder,
    ctx: &mut LowerCtx,
) -> (r: Temp)
    ensures
        (st(final(b), final(ctx)), r) == lower_range_for_spec(
            lower_at(old(ctx).room.left()),
            start_e,
            end_e,
            step_e,
            callback,
            param_tys,
            st(old(b), old(ctx)),
        ),
        ran(*old(b), *old(ctx), *final(b), *final(ctx)),
        valid(st(old(b), old(ctx)))
            ==> valid(st(final(b), final(ctx))) && temp_ok(r, final(b)@.temp_types.len()),
    decreases old(ctx).room.left(), 2nat, 0nat,
{
    reveal(lower_range_for_spec);
    let start_raw = lower_expr(start_e, b, ctx);
    let end_raw = lower_expr(end_e, b, ctx);
    let start = coerce_to_slot_type(start_raw, &start_e.ty(), &Type::Int32, b);
    let end = coerce_to_slot_type(end_raw, &end_e.ty(), &Type::Int32, b);
    let step = match step_e {
        Some(se) => {
            let step_raw = lower_expr(se, b, ctx);
            let step_val = coerce_to_slot_type(step_raw, &se.ty(), &Type::Int32, b);
            Some(step_val)
        },
        None => None,
    };
    let start_is_nonneg = b.temp_is_nonneg_int_const(start_raw)
        || b.temp_is_nonneg_int_const(start);
    match inlinable_local_fn(callback, b, ctx) {
        Some(lam) => {
            let frame = begin_range_loop(start, end, step, takes_two(&lam.params), b);
            if start_is_nonneg {
                b.add_nonneg(frame.i);
            }
            let res = inline_lambda_body_tracking_elem_boxes(
                &lam,
                &elem_and_index(frame.i, &Type::Int32, frame.idx),
                b,
                ctx,
            );
            b.drop_nonneg(frame.i);
            b.emit(Instruction::Release { val: res.val, ty: res.ty.dup() });
            free_arg_box_shells(&res.boxes, res.val, b);
            end_range_loop(&frame, step, b);
        },
        None => {
            let f = lower_callback_in_safe_ctx(callback, b, ctx);
            let frame = begin_range_loop(start, end, step, two_or_more(param_tys), b);
            call_range_body(f, frame.i, frame.idx, param_tys, b);
            end_range_loop(&frame, step, b);
        },
    }
    b.const_temp(Const::Null)
}

/// What `call_range_body` does to the function under construction.
#[verifier::opaque]
pub open spec fn call_range_body_spec(
    f: Temp,
    i: Temp,
    idx: Temp,
    param_tys: &List<Type>,
    b: FState,
) -> FState {
    let (b, elem_box) = box_to_json_spec(i, &Type::Int32, b);
    let first = TypedTemp { temp: elem_box, ty: json() };
    let (b, raw_args) = if two_or_more(param_tys) {
        let (b, idx_box) = box_to_json_spec(idx, &Type::Int32, b);
        (b, two(first, TypedTemp { temp: idx_box, ty: json() }))
    } else {
        (b, one(first))
    };
    let (b, ret) = call_body_closure_with_elem_boxes_spec(f, &raw_args, param_tys, &json(), b);
    let b = b.emit(Instruction::Release { val: ret.dst, ty: json() });
    free_arg_box_shells_spec(&ret.boxes, ret.dst, b)
}

/// Calls the closure of a loop over a range with the counter, and with the position where it
/// wants that.
pub fn call_range_body(f: Temp, i: Temp, idx: Temp, param_tys: &List<Type>, b: &mut FuncBuilder)
    ensures
        final(b)@ == call_range_body_spec(f, i, idx, param_tys, old(b)@),
        grown(old(b)@, final(b)@, 0),
        old(b)@.wf()
            && temp_ok(f, old(b)@.temp_types.len())
            && temp_ok(i, old(b)@.temp_types.len())
            && temp_ok(idx, old(b)@.temp_types.len())
            ==> final(b)@.wf(),
{
    reveal(call_range_body_spec);
    let elem_box = box_to_json(i, &Type::Int32, b);
    let first = TypedTemp { temp: elem_box, ty: json() };
    let raw_args = if two_or_more(param_tys) {
        let idx_box = box_to_json(idx, &Type::Int32, b);
        two(first, TypedTemp { temp: idx_box, ty: json() })
    } else {
        one(first)
    };
    let ret = call_body_closure_with_elem_boxes(f, &raw_args, param_tys, &json(), b);
    b.emit(Instruction::Release { val: ret.dst, ty: json() });
    free_arg_box_shells(&ret.boxes, ret.dst, b);
}

/// What `lower_while` does to the state, where `l` lowers the expressions inside.
#[verifier::opaque]
pub open spec fn lower_while_spec(
    l: Lower,
    iterable_e: &TypedExpr,
    callback: &TypedExpr,
    s: St,
) -> (St, Temp) {
    let iterable_ty = iterable_e.ty();
    let param_tys = callback_signature(callback).params;
    let elem_ty = combinator_read_elem_ty_spec(iterable_e, s);
    let (s, iterable) = low(l, iterable_e, s);
    match inlinable_local_fn_spec(callback, s) {
        Some(lam) => {
            let (s, frame) = on(
                s,
                begin_combinator_loop_spec(
                    iterable,
                    &iterable_ty,
                    ElemAccess::Materialize(elem_ty.dup()),
                    s.b,
                ),
            );
            let (s, idx) = on(s, narrow_loop_index_spec(frame.i, s.b));
            let (s, pred) = inline_lambda_body_spec(
                l,
                &lam,
                &elem_and_index(frame.elem, &elem_ty, idx),
                s,
            );
            let (s, keep) = on(s, as_bool_spec(pred.temp, &pred.ty, s.b));
            let s = on_b(s, fm_reclaim_elem_spec(frame.elem, &elem_ty, s.b));
            let s = on_b(s, end_combinator_loop_spec(&frame, LoopFlow::ContinueIf(keep), s.b));
            on(s, s.b.const_temp(Const::Null))
        },
        None => match bare_fn_call_target_spec(callback, s) {
            Some(target) => {
                let (s, frame) = on(
                    s,
                    begin_combinator_loop_spec(
                        iterable,
                        &iterable_ty,
                        ElemAccess::Materialize(elem_ty.dup()),
                        s.b,
                    ),
                );
                let (s, idx) = on(s, narrow_loop_index_spec(frame.i, s.b));
                let (s, keep) = on(
                    s,
                    call_body_direct_spec(
                        &target,
                        &elem_and_index(frame.elem, &elem_ty, idx),
                        &Type::Bool,
                        s.b,
                    ),
                );
                let s = on_b(s, fm_reclaim_elem_spec(frame.elem, &elem_ty, s.b));
                let s = on_b(s, end_combinator_loop_spec(&frame, LoopFlow::ContinueIf(keep), s.b));
                on(s, s.b.const_temp(Const::Null))
            },
            None => {
                let (s, body) = lower_callback_in_safe_ctx_spec(l, callback, s);
                let (s, frame) = on(
                    s,
                    begin_combinator_loop_spec(
                        iterable,
                        &iterable_ty,
                        ElemAccess::Materialize(elem_ty.dup()),
                        s.b,
                    ),
                );
                let (s, idx) = on(s, narrow_loop_index_spec(frame.i, s.b));
                let (s, keep) = on(
                    s,
                    call_body_closure_with_elem_boxes_spec(
                        body,
                        &elem_and_index(frame.elem, &elem_ty, idx),
                        &param_tys,
                        &Type::Bool,
                        s.b,
                    ),
                );
                let s = on_b(s, release_if_distinct_spec(&keep.boxes, keep.dst, s.b));
                let s = on_b(s, free_combinator_sealed_elem_spec(frame.elem, &elem_ty, s.b));
                let s = on_b(
                    s,
                    end_combinator_loop_spec(&frame, LoopFlow::ContinueIf(keep.dst), s.b),
                );
                on(s, s.b.const_temp(Const::Null))
            },
        },
    }
}

/// Lowers a loop that runs the callback for each element as long as it returns true.
pub fn lower_while(
    iterable_e: &TypedExpr,
    callback: &TypedExpr,
    b: &mut FuncBuilder,
    ctx: &mut LowerCtx,
) -> (r: Temp)
    ensures
        (st(final(b), final(ctx)), r) == lower_while_spec(
            lower_at(old(ctx).room.left()),
            iterable_e,
            callback,
            st(old(b), old(ctx)),
        ),
        ran(*old(b), *old(ctx), *final(b), *final(ctx)),
        valid(st(old(b), old(ctx)))
            ==> valid(st(final(b), final(ctx))) && temp_ok(r, final(b)@.temp_types.len()),
    decreases old(ctx).room.left(), 3nat, 0nat,
{
    reveal(lower_while_spec);
    let iterable_ty = iterable_e.ty();
    let param_tys = callback_signature(callback).params;
    let elem_ty = combinator_read_elem_ty(iterable_e, b, ctx);
    let iterable = lower_expr(iterable_e, b, ctx);
    match inlinable_local_fn(callback, b, ctx) {
        Some(lam) => {
            let frame = begin_combinator_loop(
                iterable,
                &iterable_ty,
                ElemAccess::Materialize(elem_ty.dup()),
                b,
            );
            let idx = narrow_loop_index(frame.i, b);
            let pred = inline_lambda_body(&lam, &elem_and_index(frame.elem, &elem_ty, idx), b, ctx);
            let keep = as_bool(pred.temp, &pred.ty, b);
            fm_reclaim_elem(frame.elem, &elem_ty, b);
            end_combinator_loop(&frame, LoopFlow::ContinueIf(keep), b);
            return b.const_temp(Const::Null);
        },
        None => {},
    }
    match bare_fn_call_target(callback, b, ctx) {
        Some(target) => {
            let frame = begin_combinator_loop(
                iterable,
                &iterable_ty,
                ElemAccess::Materialize(elem_ty.dup()),
                b,
            );
            let idx = narrow_loop_index(frame.i, b);
            let keep = call_body_direct(
                &target,
                &elem_and_index(frame.elem, &elem_ty, idx),
                &Type::Bool,
                b,
            );
            fm_reclaim_elem(frame.elem, &elem_ty, b);
            end_combinator_loop(&frame, LoopFlow::ContinueIf(keep), b);
            return b.const_temp(Const::Null);
        },
        None => {},
    }
    let body = lower_callback_in_safe_ctx(callback, b, ctx);
    let frame = begin_combinator_loop(
        iterable,
        &iterable_ty,
        ElemAccess::Materialize(elem_ty.dup()),
        b,
    );
    let idx = narrow_loop_index(frame.i, b);
    let keep = call_body_closure_with_elem_boxes(
        body,
        &elem_and_index(frame.elem, &elem_ty, idx),
        &param_tys,
        &Type::Bool,
        b,
    );
    release_if_distinct(&keep.boxes, keep.dst, b);
    free_combinator_sealed_elem(frame.elem, &elem_ty, b);
    end_combinator_loop(&frame, LoopFlow::ContinueIf(keep.dst), b);
    b.const_temp(Const::Null)
}

/// What `lower_zero_arg_while` does to the state, where `l` lowers the expressions inside.
#[verifier::opaque]
pub open spec fn lower_zero_arg_while_spec(
    l: Lower,
    callback: &TypedExpr,
    s: St,
) -> (St, Option<Temp>) {
    match inlinable_local_fn_spec(callback, s) {
        None => (s, None),
        Some(lam) => {
            let (s, header) = on(s, s.b.alloc_block("while_header"));
            let (s, exit) = on(s, s.b.alloc_block("while_exit"));
            let s = on_b(s, s.b.terminate(Terminator::Jump(header)));
            let s = on_b(s, s.b.switch_to(header));
            let (s, pred) = inline_lambda_body_spec(l, &lam, &List::Nil, s);
            let (s, keep) = on(s, as_bool_spec(pred.temp, &pred.ty, s.b));
            let s = on_b(
                s,
                s.b.terminate(
                    Terminator::CondJump { cond: keep, then_block: header, else_block: exit },
                ),
            );
            let s = on_b(s, s.b.switch_to(exit));
            let (s, t) = on(s, s.b.const_temp(Const::Null));
            (s, Some(t))
        },
    }
}

/// Lowers a loop that runs a function without arguments as long as it returns true, where
/// the function can be inlined.
pub fn lower_zero_arg_while(
    callback: &TypedExpr,
    b: &mut FuncBuilder,
    ctx: &mut LowerCtx,
) -> (r: Option<Temp>)
    ensures
        (st(final(b), final(ctx)), r) == lower_zero_arg_while_spec(
            lower_at(old(ctx).room.left()),
            callback,
            st(old(b), old(ctx)),
        ),
        ran(*old(b), *old(ctx), *final(b), *final(ctx)),
        valid(st(old(b), old(ctx)))
            ==> valid(st(final(b), final(ctx))) && otemp_ok(r, final(b)@.temp_types.len()),
    decreases old(ctx).room.left(), 3nat, 0nat,
{
    reveal(lower_zero_arg_while_spec);
    match inlinable_local_fn(callback, b, ctx) {
        None => None,
        Some(lam) => {
            let header = b.alloc_block("while_header");
            let exit = b.alloc_block("while_exit");
            b.terminate(Terminator::Jump(header));
            b.switch_to(header);
            let pred = inline_lambda_body(&lam, &List::Nil, b, ctx);
            let keep = as_bool(pred.temp, &pred.ty, b);
            b.terminate(Terminator::CondJump { cond: keep, then_block: header, else_block: exit });
            b.switch_to(exit);
            let t = b.const_temp(Const::Null);
            Some(t)
        },
    }
}

/// What a loop asks of its elements: the truth value that it starts with and goes on with until
/// it changes, how it takes in the truth value for an element, and the names of its blocks.
pub struct Question {
    pub start: bool,
    pub op: BinOp,
    pub header: &'static str,
    pub body: &'static str,
    pub latch: &'static str,
    pub exit: &'static str,
}

/// Some element is such: no, until one is.
pub open spec fn some_question_spec() -> Question {
    Question {
        start: false,
        op: BinOp::Or,
        header: "some_header",
        body: "some_body",
        latch: "some_latch",
        exit: "some_exit",
    }
}

/// Whether some element is such: no, until one is.
#[verifier::when_used_as_spec(some_question_spec)]
pub fn some_question() -> (r: Question)
    ensures
        r == some_question_spec(),
{
    Question {
        start: false,
        op: BinOp::Or,
        header: "some_header",
        body: "some_body",
        latch: "some_latch",
        exit: "some_exit",
    }
}

/// Every element is such: yes, until one is not.
pub open spec fn every_question_spec() -> Question {
    Question {
        start: true,
        op: BinOp::And,
        header: "every_header",
        body: "every_body",
        latch: "every_latch",
        exit: "every_exit",
    }
}

/// Whether every element is such: yes, until one is not.
#[verifier::when_used_as_spec(every_question_spec)]
pub fn every_question() -> (r: Question)
    ensures
        r == every_question_spec(),
{
    Question {
        start: true,
        op: BinOp::And,
        header: "every_header",
        body: "every_body",
        latch: "every_latch",
        exit: "every_exit",
    }
}

/// What `stays_open` does to the function under construction.
#[verifier::opaque]
pub open spec fn stays_open_spec(flag: Temp, start: bool, b: FState) -> (FState, Temp) {
    if start {
        (b, flag)
    } else {
        b.not(flag)
    }
}

/// The condition under which a loop goes on: the truth value is still the one at the start.
pub fn stays_open(flag: Temp, start: bool, b: &mut FuncBuilder) -> (r: Temp)
    ensures
        (final(b)@, r) == stays_open_spec(flag, start, old(b)@),
        grown(old(b)@, final(b)@, 0),
        old(b)@.wf() && temp_ok(flag, old(b)@.temp_types.len())
            ==> final(b)@.wf() && temp_ok(r, final(b)@.temp_types.len()),
{
    reveal(stays_open_spec);
    if start {
        flag
    } else {
        b.not(flag)
    }
}

/// A loop that carries a truth value and stops as soon as it is settled.
pub struct FlagLoop {
    pub header: BlockId,
    pub latch: BlockId,
    pub exit: BlockId,
    pub i: Temp,
    pub i_next: Temp,
    pub flag: Temp,
    pub flag_next: Temp,
}

/// The blocks of the loop exist.
pub open spec fn flag_loop_ok(frame: FlagLoop, b: FState) -> bool {
    frame.header.0 < b.blocks.len() && frame.latch.0 < b.blocks.len() && frame.exit.0
        < b.blocks.len()
}

/// The next values of the counter and of the truth value are not defined yet.
pub open spec fn flag_loop_open(frame: &FlagLoop, b: FState) -> bool {
    &&& undefined(b, frame.i_next)
    &&& undefined(b, frame.flag_next)
    &&& b.temp_types.len() < u32::MAX ==> frame.i_next != frame.flag_next
}

/// What `begin_flag_loop` does to the function under construction.
#[verifier::opaque]
pub open spec fn begin_flag_loop_spec(
    iterable: Temp,
    iterable_ty: &Type,
    q: &Question,
    b: FState,
) -> (FState, FlagLoop) {
    let (b, len) = emit_iterable_len_spec(iterable, iterable_ty, b);
    let (b, zero) = b.const_temp(Const::Int(0, Type::Int64));
    let (b, init) = b.const_temp(Const::Bool(q.start));
    let preheader = b.env.current_block;
    let (b, header) = b.alloc_block(q.header);
    let (b, body_block) = b.alloc_block(q.body);
    let (b, latch) = b.alloc_block(q.latch);
    let (b, exit) = b.alloc_block(q.exit);
    let (b, i) = b.alloc_temp(Type::Int64);
    let (b, i_next) = b.alloc_temp(Type::Int64);
    let (b, flag) = b.alloc_temp(Type::Bool);
    let (b, flag_next) = b.alloc_temp(Type::Bool);
    let b = b.terminate(Terminator::Jump(header));
    let b = b.switch_to(header);
    let b = b.emit(
        Instruction::Phi {
            dst: i,
            ty: Type::Int64,
            incomings: two(
                Incoming { val: zero, pred: preheader },
                Incoming { val: i_next, pred: latch },
            ),
        },
    );
    let b = b.emit(
        Instruction::Phi {
            dst: flag,
            ty: Type::Bool,
            incomings: two(
                Incoming { val: init, pred: preheader },
                Incoming { val: flag_next, pred: latch },
            ),
        },
    );
    let (b, cond_len) = b.binary(BinOp::Lt, i, len, &Type::Int64, &Type::Bool);
    let (b, open) = stays_open_spec(flag, q.start, b);
    let (b, cond) = b.binary(BinOp::And, cond_len, open, &Type::Bool, &Type::Bool);
    let b = b.terminate(Terminator::CondJump { cond, then_block: body_block, else_block: exit });
    let b = b.switch_to(body_block);
    (b, FlagLoop { header, latch, exit, i, i_next, flag, flag_next })
}

/// Starts a loop that asks its question of the elements until it is settled, and goes to its
/// body.
pub fn begin_flag_loop(
    iterable: Temp,
    iterable_ty: &Type,
    q: &Question,
    b: &mut FuncBuilder,
) -> (r: FlagLoop)
    ensures
        (final(b)@, r) == begin_flag_loop_spec(iterable, iterable_ty, q, old(b)@),
        grown(old(b)@, final(b)@, 0),
        old(b)@.wf() && temp_ok(iterable, old(b)@.temp_types.len())
            ==> final(b)@.wf()
                && flag_loop_temps_ok(&r, final(b)@.temp_types.len())
                && flag_loop_open(&r, final(b)@),
        old(b)@.blocks.len() > 0 ==> flag_loop_ok(r, final(b)@),
        newer(old(b)@, final(b)@, r.i_next),
        newer(old(b)@, final(b)@, r.flag_next),
{
    reveal(begin_flag_loop_spec);
    let len = emit_iterable_len(iterable, iterable_ty, b);
    let zero = b.const_temp(Const::Int(0, Type::Int64));
    let init = b.const_temp(Const::Bool(q.start));
    let preheader = b.env.current_block;
    let header = b.alloc_block(q.header);
    let body_block = b.alloc_block(q.body);
    let latch = b.alloc_block(q.latch);
    let exit = b.alloc_block(q.exit);
    let i = b.alloc_temp(Type::Int64);
    let i_next = b.alloc_temp(Type::Int64);
    let flag = b.alloc_temp(Type::Bool);
    let flag_next = b.alloc_temp(Type::Bool);
    b.terminate(Terminator::Jump(header));
    b.switch_to(header);
    b.emit(
        Instruction::Phi {
            dst: i,
            ty: Type::Int64,
            incomings: two(
                Incoming { val: zero, pred: preheader },
                Incoming { val: i_next, pred: latch },
            ),
        },
    );
    b.emit(
        Instruction::Phi {
            dst: flag,
            ty: Type::Bool,
            incomings: two(
                Incoming { val: init, pred: preheader },
                Incoming { val: flag_next, pred: latch },
            ),
        },
    );
    let cond_len = b.binary(BinOp::Lt, i, len, &Type::Int64, &Type::Bool);
    let open = stays_open(flag, q.start, b);
    let cond = b.binary(BinOp::And, cond_len, open, &Type::Bool, &Type::Bool);
    b.terminate(Terminator::CondJump { cond, then_block: body_block, else_block: exit });
    b.switch_to(body_block);
    FlagLoop { header, latch, exit, i, i_next, flag, flag_next }
}

/// What `end_flag_loop` does to the function under construction.
#[verifier::opaque]
pub open spec fn end_flag_loop_spec(frame: &FlagLoop, pred: Temp, op: BinOp, b: FState) -> FState {
    let b = b.emit(
        Instruction::Binary {
            dst: frame.flag_next,
            op,
            lhs: frame.flag,
            rhs: pred,
            operand_ty: Type::Bool,
            ty: Type::Bool,
        },
    );
    let b = b.terminate(Terminator::Jump(frame.latch));
    let b = b.switch_to(frame.latch);
    let (b, one_c) = b.const_temp(Const::Int(1, Type::Int64));
    let b = b.emit(
        Instruction::Binary {
            dst: frame.i_next,
            op: BinOp::Add,
            lhs: frame.i,
            rhs: one_c,
            operand_ty: Type::Int64,
            ty: Type::Int64,
        },
    );
    let b = b.terminate(Terminator::Jump(frame.header));
    b.switch_to(frame.exit)
}

/// Ends the body of the loop with the truth value for the element, and goes on behind it.
pub fn end_flag_loop(frame: &FlagLoop, pred: Temp, op: BinOp, b: &mut FuncBuilder)
    ensures
        final(b)@ == end_flag_loop_spec(frame, pred, op, old(b)@),
        grew(old(b)@, final(b)@, 0),
        steady_but(old(b)@, final(b)@, set![frame.i_next, frame.flag_next]),
        old(b)@.wf()
            && flag_loop_temps_ok(frame, old(b)@.temp_types.len())
            && temp_ok(pred, old(b)@.temp_types.len())
            && flag_loop_ok(*frame, old(b)@)
            && flag_loop_open(frame, old(b)@)
            ==> final(b)@.wf(),
{
    reveal(end_flag_loop_spec);
    b.emit(
        Instruction::Binary {
            dst: frame.flag_next,
            op,
            lhs: frame.flag,
            rhs: pred,
            operand_ty: Type::Bool,
            ty: Type::Bool,
        },
    );
    b.terminate(Terminator::Jump(frame.latch));
    b.switch_to(frame.latch);
    let one_c = b.const_temp(Const::Int(1, Type::Int64));
    b.emit(
        Instruction::Binary {
            dst: frame.i_next,
            op: BinOp::Add,
            lhs: frame.i,
            rhs: one_c,
            operand_ty: Type::Int64,
            ty: Type::Int64,
        },
    );
    b.terminate(Terminator::Jump(frame.header));
    b.switch_to(frame.exit);
}

/// What `lower_quantified` does to the state, where `l` lowers the expressions inside.
#[verifier::opaque]
pub open spec fn lower_quantified_spec(
    l: Lower,
    iterable_e: &TypedExpr,
    callback: &TypedExpr,
    q: &Question,
    s: St,
) -> (St, Temp) {
    let iterable_ty = iterable_e.ty();
    let param_tys = callback_signature(callback).params;
    let elem_ty = combinator_read_elem_ty_spec(iterable_e, s);
    let (s, iterable) = low(l, iterable_e, s);
    match bare_fn_call_target_spec(callback, s) {
        Some(target) => {
            let (s, frame) = on(s, begin_flag_loop_spec(iterable, &iterable_ty, q, s.b));
            let (s, elem) = on(
                s,
                s.b.index(iterable, frame.i, &iterable_ty, &Type::Int64, &elem_ty, false),
            );
            let (s, idx) = on(s, narrow_loop_index_spec(frame.i, s.b));
            let (s, pred) = on(
                s,
                call_body_direct_spec(
                    &target,
                    &elem_and_index(elem, &elem_ty, idx),
                    &Type::Bool,
                    s.b,
                ),
            );
            let s = on_b(s, fm_reclaim_elem_spec(elem, &elem_ty, s.b));
            let s = on_b(s, end_flag_loop_spec(&frame, pred, q.op, s.b));
            (s, frame.flag)
        },
        None => match inlinable_local_fn_spec(callback, s) {
            Some(lam) => {
                let (s, frame) = on(s, begin_flag_loop_spec(iterable, &iterable_ty, q, s.b));
                let s = if reads_elem_in_place(&iterable_ty, &lam) {
                    let static_elem = iter_elem_type(&iterable_ty);
                    let (s, idx) = on(s, narrow_loop_index_spec(frame.i, s.b));
                    let (s, raw) = inline_lambda_body_packed_view_spec(
                        l,
                        &lam,
                        iterable,
                        frame.i,
                        &static_elem,
                        idx,
                        s,
                    );
                    let (s, pred) = on(s, as_bool_spec(raw.temp, &raw.ty, s.b));
                    on_b(s, end_flag_loop_spec(&frame, pred, q.op, s.b))
                } else {
                    let (s, elem) = on(
                        s,
                        s.b.index(iterable, frame.i, &iterable_ty, &Type::Int64, &elem_ty, false),
                    );
                    let (s, idx) = on(s, narrow_loop_index_spec(frame.i, s.b));
                    let (s, raw) = inline_lambda_body_spec(
                        l,
                        &lam,
                        &elem_and_index(elem, &elem_ty, idx),
                        s,
                    );
                    let (s, pred) = on(s, as_bool_spec(raw.temp, &raw.ty, s.b));
                    let s = on_b(s, fm_reclaim_elem_spec(elem, &elem_ty, s.b));
                    on_b(s, end_flag_loop_spec(&frame, pred, q.op, s.b))
                };
                (s, frame.flag)
            },
            None => {
                let (s, body) = lower_callback_in_safe_ctx_spec(l, callback, s);
                let (s, init) = on(s, s.b.const_temp(Const::Bool(q.start)));
                let (s, result_cell) = on(s, s.b.alloc_temp(Type::Bool));
                let s = on_b(
                    s,
                    s.b.emit(Instruction::MakeCell { dst: result_cell, init, ty: Type::Bool }),
                );
                let (s, frame) = on(
                    s,
                    begin_combinator_loop_spec(
                        iterable,
                        &iterable_ty,
                        ElemAccess::Materialize(elem_ty.dup()),
                        s.b,
                    ),
                );
                let (s, idx_raw) = on(s, narrow_loop_index_spec(frame.i, s.b));
                let (s, idx) = on(s, box_index_spec(idx_raw, two_or_more(&param_tys), s.b));
                let (s, pred) = on(
                    s,
                    call_body_closure_with_elem_boxes_spec(
                        body,
                        &two(TypedTemp { temp: frame.elem, ty: elem_ty.dup() }, idx),
                        &param_tys,
                        &Type::Bool,
                        s.b,
                    ),
                );
                let s = on_b(s, release_if_distinct_spec(&pred.boxes, pred.dst, s.b));
                let s = on_b(s, free_combinator_sealed_elem_spec(frame.elem, &elem_ty, s.b));
                let s = on_b(
                    s,
                    s.b.emit(
                        Instruction::CellSet { cell: result_cell, value: pred.dst, ty: Type::Bool },
                    ),
                );
                let (s, keep) = on(s, stays_open_spec(pred.dst, q.start, s.b));
                let s = on_b(s, end_combinator_loop_spec(&frame, LoopFlow::ContinueIf(keep), s.b));
                let (s, result) = on(s, s.b.cell_get(result_cell, &Type::Bool));
                let s = on_b(
                    s,
                    s.b.emit(Instruction::FreeCell { cell: result_cell, ty: Type::Bool }),
                );
                (s, result)
            },
        },
    }
}

/// Lowers a question about the elements, to which the callback gives the truth value for each.
/// The loop stops at the first element that settles it.
pub fn lower_quantified(
    iterable_e: &TypedExpr,
    callback: &TypedExpr,
    q: &Question,
    b: &mut FuncBuilder,
    ctx: &mut LowerCtx,
) -> (r: Temp)
    ensures
        (st(final(b), final(ctx)), r) == lower_quantified_spec(
            lower_at(old(ctx).room.left()),
            iterable_e,
            callback,
            q,
            st(old(b), old(ctx)),
        ),
        ran(*old(b), *old(ctx), *final(b), *final(ctx)),
        valid(st(old(b), old(ctx)))
            ==> valid(st(final(b), final(ctx))) && temp_ok(r, final(b)@.temp_types.len()),
    decreases old(ctx).room.left(), 3nat, 0nat,
{
    reveal(lower_quantified_spec);
    let iterable_ty = iterable_e.ty();
    let param_tys = callback_signature(callback).params;
    let elem_ty = combinator_read_elem_ty(iterable_e, b, ctx);
    let iterable = lower_expr(iterable_e, b, ctx);
    match bare_fn_call_target(callback, b, ctx) {
        Some(target) => {
            let frame = begin_flag_loop(iterable, &iterable_ty, q, b);
            let elem = b.index(iterable, frame.i, &iterable_ty, &Type::Int64, &elem_ty, false);
            let idx = narrow_loop_index(frame.i, b);
            let pred = call_body_direct(
                &target,
                &elem_and_index(elem, &elem_ty, idx),
                &Type::Bool,
                b,
            );
            fm_reclaim_elem(elem, &elem_ty, b);
            end_flag_loop(&frame, pred, q.op, b);
            return frame.flag;
        },
        None => {},
    }
    match inlinable_local_fn(callback, b, ctx) {
        Some(lam) => {
            let frame = begin_flag_loop(iterable, &iterable_ty, q, b);
            if reads_elem_in_place(&iterable_ty, &lam) {
                let static_elem = iter_elem_type(&iterable_ty);
                let idx = narrow_loop_index(frame.i, b);
                let raw = inline_lambda_body_packed_view(
                    &lam,
                    iterable,
                    frame.i,
                    &static_elem,
                    idx,
                    b,
                    ctx,
                );
                let pred = as_bool(raw.temp, &raw.ty, b);
                end_flag_loop(&frame, pred, q.op, b);
            } else {
                let elem = b.index(iterable, frame.i, &iterable_ty, &Type::Int64, &elem_ty, false);
                let idx = narrow_loop_index(frame.i, b);
                let raw = inline_lambda_body(&lam, &elem_and_index(elem, &elem_ty, idx), b, ctx);
                let pred = as_bool(raw.temp, &raw.ty, b);
                fm_reclaim_elem(elem, &elem_ty, b);
                end_flag_loop(&frame, pred, q.op, b);
            }
            return frame.flag;
        },
        None => {},
    }
    let body = lower_callback_in_safe_ctx(callback, b, ctx);
    let init = b.const_temp(Const::Bool(q.start));
    let result_cell = b.alloc_temp(Type::Bool);
    b.emit(Instruction::MakeCell { dst: result_cell, init, ty: Type::Bool });
    let frame = begin_combinator_loop(
        iterable,
        &iterable_ty,
        ElemAccess::Materialize(elem_ty.dup()),
        b,
    );
    let idx_raw = narrow_loop_index(frame.i, b);
    let idx = box_index(idx_raw, two_or_more(&param_tys), b);
    let pred = call_body_closure_with_elem_boxes(
        body,
        &two(TypedTemp { temp: frame.elem, ty: elem_ty.dup() }, idx),
        &param_tys,
        &Type::Bool,
        b,
    );
    release_if_distinct(&pred.boxes, pred.dst, b);
    free_combinator_sealed_elem(frame.elem, &elem_ty, b);
    b.emit(Instruction::CellSet { cell: result_cell, value: pred.dst, ty: Type::Bool });
    let keep = stays_open(pred.dst, q.start, b);
    end_combinator_loop(&frame, LoopFlow::ContinueIf(keep), b);
    let result = b.cell_get(result_cell, &Type::Bool);
    b.emit(Instruction::FreeCell { cell: result_cell, ty: Type::Bool });
    result
}

/// What `lower_some` does to the state, where `l` lowers the expressions inside.
#[verifier::opaque]
pub open spec fn lower_some_spec(
    l: Lower,
    iterable_e: &TypedExpr,
    callback: &TypedExpr,
    s: St,
) -> (St, Temp) {
    lower_quantified_spec(l, iterable_e, callback, &some_question(), s)
}

/// Lowers the question whether the callback holds of some element.
pub fn lower_some(
    iterable_e: &TypedExpr,
    callback: &TypedExpr,
    b: &mut FuncBuilder,
    ctx: &mut LowerCtx,
) -> (r: Temp)
    ensures
        (st(final(b), final(ctx)), r) == lower_some_spec(
            lower_at(old(ctx).room.left()),
            iterable_e,
            callback,
            st(old(b), old(ctx)),
        ),
        ran(*old(b), *old(ctx), *final(b), *final(ctx)),
        valid(st(old(b), old(ctx)))
            ==> valid(st(final(b), final(ctx))) && temp_ok(r, final(b)@.temp_types.len()),
    decreases old(ctx).room.left(), 4nat, 0nat,
{
    reveal(lower_some_spec);
    lower_quantified(iterable_e, callback, &some_question(), b, ctx)
}

/// What `lower_every` does to the state, where `l` lowers the expressions inside.
#[verifier::opaque]
pub open spec fn lower_every_spec(
    l: Lower,
    iterable_e: &TypedExpr,
    callback: &TypedExpr,
    s: St,
) -> (St, Temp) {
    lower_quantified_spec(l, iterable_e, callback, &every_question(), s)
}

/// Lowers the question whether the callback holds of every element.
pub fn lower_every(
    iterable_e: &TypedExpr,
    callback: &TypedExpr,
    b: &mut FuncBuilder,
    ctx: &mut LowerCtx,
) -> (r: Temp)
    ensures
        (st(final(b), final(ctx)), r) == lower_every_spec(
            lower_at(old(ctx).room.left()),
            iterable_e,
            callback,
            st(old(b), old(ctx)),
        ),
        ran(*old(b), *old(ctx), *final(b), *final(ctx)),
        valid(st(old(b), old(ctx)))
            ==> valid(st(final(b), final(ctx))) && temp_ok(r, final(b)@.temp_types.len()),
    decreases old(ctx).room.left(), 4nat, 0nat,
{
    reveal(lower_every_spec);
    lower_quantified(iterable_e, callback, &every_question(), b, ctx)
}

/// How the callback of a search is run.
#[derive(Clone, Copy, PartialEq, Eq, Structural)]
pub enum FindKind {
    Direct,
    Inline,
    Closure,
}

/// A loop that looks for an element.
pub struct FindLoop {
    pub header: BlockId,
    pub latch: BlockId,
    pub exit: BlockId,
    pub i: Temp,
    pub i_next: Temp,
    pub result: Temp,
    pub result_next: Temp,
    pub found: Temp,
    pub found_next: Temp,
}

/// The blocks of the loop exist.
pub open spec fn find_loop_ok(frame: FindLoop, b: FState) -> bool {
    frame.header.0 < b.blocks.len() && frame.latch.0 < b.blocks.len() && frame.exit.0
        < b.blocks.len()
}

/// The next values of the counter, of the result and of whether there is one are not defined
/// yet.
pub open spec fn find_loop_open(frame: &FindLoop, b: FState) -> bool {
    &&& undefined(b, frame.i_next)
    &&& undefined(b, frame.result_next)
    &&& undefined(b, frame.found_next)
    &&& b.temp_types.len() < u32::MAX ==> frame.i_next != frame.result_next && frame.i_next
        != frame.found_next && frame.result_next != frame.found_next
}

/// What `begin_find_loop` does to the function under construction.
#[verifier::opaque]
pub open spec fn begin_find_loop_spec(
    iterable: Temp,
    iterable_ty: &Type,
    kind: FindKind,
    b: FState,
) -> (FState, FindLoop) {
    let closure = kind == FindKind::Closure;
    let (b, len) = emit_iterable_len_spec(iterable, iterable_ty, b);
    let (b, zero) = b.const_temp(Const::Int(0, Type::Int64));
    let (b, null_val) = b.const_temp(Const::Null);
    let (b, early_false) = if kind == FindKind::Inline { (b, None) } else {
        let (b, f) = b.const_temp(Const::Bool(false));
        (b, Some(f))
    };
    let preheader = b.env.current_block;
    let (b, header) = b.alloc_block(if closure { "nifind_header" } else { "find_header" });
    let (b, body_block) = b.alloc_block(if closure { "nifind_body" } else { "find_body" });
    let (b, latch) = b.alloc_block(if closure { "nifind_latch" } else { "find_latch" });
    let (b, exit) = b.alloc_block(if closure { "nifind_exit" } else { "find_exit" });
    let (b, i) = b.alloc_temp(Type::Int64);
    let (b, i_next) = b.alloc_temp(Type::Int64);
    let (b, result) = b.alloc_temp(json());
    let (b, result_next) = b.alloc_temp(json());
    let (b, found) = b.alloc_temp(Type::Bool);
    let (b, found_next) = b.alloc_temp(Type::Bool);
    let (b, false_val) = match early_false {
        Some(f) => (b, f),
        None => b.const_temp(Const::Bool(false)),
    };
    let b = b.terminate(Terminator::Jump(header));
    let b = b.switch_to(header);
    let b = b.emit(
        Instruction::Phi {
            dst: i,
            ty: Type::Int64,
            incomings: two(
                Incoming { val: zero, pred: preheader },
                Incoming { val: i_next, pred: latch },
            ),
        },
    );
    let b = b.emit(
        Instruction::Phi {
            dst: result,
            ty: json(),
            incomings: two(
                Incoming { val: null_val, pred: preheader },
                Incoming { val: result_next, pred: latch },
            ),
        },
    );
    let b = b.emit(
        Instruction::Phi {
            dst: found,
            ty: Type::Bool,
            incomings: two(
                Incoming { val: false_val, pred: preheader },
                Incoming { val: found_next, pred: latch },
            ),
        },
    );
    let (b, cond_len) = b.binary(BinOp::Lt, i, len, &Type::Int64, &Type::Bool);
    let (b, not_found) = b.not(found);
    let (b, cond) = b.binary(BinOp::And, cond_len, not_found, &Type::Bool, &Type::Bool);
    let b = b.terminate(Terminator::CondJump { cond, then_block: body_block, else_block: exit });
    let b = b.switch_to(body_block);
    (b, FindLoop { header, latch, exit, i, i_next, result, result_next, found, found_next })
}

/// Starts a loop that looks for an element and goes to its body. The result is null until
/// one is found.
pub fn begin_find_loop(
    iterable: Temp,
    iterable_ty: &Type,
    kind: FindKind,
    b: &mut FuncBuilder,
) -> (r: FindLoop)
    ensures
        (final(b)@, r) == begin_find_loop_spec(iterable, iterable_ty, kind, old(b)@),
        grown(old(b)@, final(b)@, 0),
        old(b)@.wf() && temp_ok(iterable, old(b)@.temp_types.len())
            ==> final(b)@.wf()
                && find_loop_temps_ok(&r, final(b)@.temp_types.len())
                && find_loop_open(&r, final(b)@),
        old(b)@.blocks.len() > 0 ==> find_loop_ok(r, final(b)@),
        newer(old(b)@, final(b)@, r.i_next),
        newer(old(b)@, final(b)@, r.result_next),
        newer(old(b)@, final(b)@, r.found_next),
{
    reveal(begin_find_loop_spec);
    let closure = kind == FindKind::Closure;
    let len = emit_iterable_len(iterable, iterable_ty, b);
    let zero = b.const_temp(Const::Int(0, Type::Int64));
    let null_val = b.const_temp(Const::Null);
    let early_false = if kind == FindKind::Inline { None } else {
        let f = b.const_temp(Const::Bool(false));
        Some(f)
    };
    let preheader = b.env.current_block;
    let header = b.alloc_block(if closure { "nifind_header" } else { "find_header" });
    let body_block = b.alloc_block(if closure { "nifind_body" } else { "find_body" });
    let latch = b.alloc_block(if closure { "nifind_latch" } else { "find_latch" });
    let exit = b.alloc_block(if closure { "nifind_exit" } else { "find_exit" });
    let i = b.alloc_temp(Type::Int64);
    let i_next = b.alloc_temp(Type::Int64);
    let result = b.alloc_temp(json());
    let result_next = b.alloc_temp(json());
    let found = b.alloc_temp(Type::Bool);
    let found_next = b.alloc_temp(Type::Bool);
    let false_val = match early_false {
        Some(f) => f,
        None => b.const_temp(Const::Bool(false)),
    };
    b.terminate(Terminator::Jump(header));
    b.switch_to(header);
    b.emit(
        Instruction::Phi {
            dst: i,
            ty: Type::Int64,
            incomings: two(
                Incoming { val: zero, pred: preheader },
                Incoming { val: i_next, pred: latch },
            ),
        },
    );
    b.emit(
        Instruction::Phi {
            dst: result,
            ty: json(),
            incomings: two(
                Incoming { val: null_val, pred: preheader },
                Incoming { val: result_next, pred: latch },
            ),
        },
    );
    b.emit(
        Instruction::Phi {
            dst: found,
            ty: Type::Bool,
            incomings: two(
                Incoming { val: false_val, pred: preheader },
                Incoming { val: found_next, pred: latch },
            ),
        },
    );
    let cond_len = b.binary(BinOp::Lt, i, len, &Type::Int64, &Type::Bool);
    let not_found = b.not(found);
    let cond = b.binary(BinOp::And, cond_len, not_found, &Type::Bool, &Type::Bool);
    b.terminate(Terminator::CondJump { cond, then_block: body_block, else_block: exit });
    b.switch_to(body_block);
    FindLoop { header, latch, exit, i, i_next, result, result_next, found, found_next }
}

/// What `box_found_elem` does to the function under construction.
#[verifier::opaque]
pub open spec fn box_found_elem_spec(elem: Temp, elem_ty: &Type, b: FState) -> (FState, Temp) {
    let b = if is_borrowed_heap_elem(elem_ty) {
        b.emit(Instruction::Retain { val: elem, ty: elem_ty.dup() })
    } else {
        b
    };
    let (b, boxed) = box_to_json_spec(elem, elem_ty, b);
    let b = free_combinator_sealed_elem_spec(elem, elem_ty, b);
    (b, boxed)
}

/// Boxes an element that has been found, so that the box owns what is in it: an element that is
/// borrowed from the collection is counted once more, and a packed record, of which the box holds
/// its own, is given back.
pub fn box_found_elem(elem: Temp, elem_ty: &Type, b: &mut FuncBuilder) -> (r: Temp)
    ensures
        (final(b)@, r) == box_found_elem_spec(elem, elem_ty, old(b)@),
        grown(old(b)@, final(b)@, 0),
        old(b)@.wf() && temp_ok(elem, old(b)@.temp_types.len())
            ==> final(b)@.wf() && temp_ok(r, final(b)@.temp_types.len()),
{
    reveal(box_found_elem_spec);
    if is_borrowed_heap_elem(elem_ty) {
        b.emit(Instruction::Retain { val: elem, ty: elem_ty.dup() });
    }
    let boxed = box_to_json(elem, elem_ty, b);
    free_combinator_sealed_elem(elem, elem_ty, b);
    boxed
}

/// What `end_find_loop` does to the function under construction.
#[verifier::opaque]
pub open spec fn end_find_loop_spec(
    frame: &FindLoop,
    pred: Temp,
    elem: Temp,
    elem_ty: &Type,
    kind: FindKind,
    result_type: &Type,
    b: FState,
) -> (FState, Temp) {
    let closure = kind == FindKind::Closure;
    let (b, merge) = b.alloc_block(if closure { "nifind_merge" } else { "find_merge" });
    let (b, keep) = b.alloc_block(if closure { "nifind_keep" } else { "find_keep" });
    let (b, skip) = b.alloc_block(if closure { "nifind_skip" } else { "find_skip" });
    let b = b.terminate(Terminator::CondJump { cond: pred, then_block: keep, else_block: skip });
    let b = b.switch_to(keep);
    let (b, elem_boxed) = if closure {
        (b, elem)
    } else {
        box_found_elem_spec(elem, elem_ty, b)
    };
    let keep_end = b.env.current_block;
    let b = b.terminate(Terminator::Jump(merge));
    let b = b.switch_to(skip);
    let b = if closure {
        b.emit(Instruction::Release { val: elem, ty: elem_ty.dup() })
    } else {
        fm_reclaim_elem_spec(elem, elem_ty, b)
    };
    let skip_end = b.env.current_block;
    let b = b.terminate(Terminator::Jump(merge));
    let b = b.switch_to(merge);
    let b = b.emit(
        Instruction::Phi {
            dst: frame.result_next,
            ty: json(),
            incomings: two(
                Incoming { val: elem_boxed, pred: keep_end },
                Incoming { val: frame.result, pred: skip_end },
            ),
        },
    );
    let b = b.emit(
        Instruction::Binary {
            dst: frame.found_next,
            op: BinOp::Or,
            lhs: frame.found,
            rhs: pred,
            operand_ty: Type::Bool,
            ty: Type::Bool,
        },
    );
    let b = b.terminate(Terminator::Jump(frame.latch));
    let b = b.switch_to(frame.latch);
    let (b, one_c) = b.const_temp(Const::Int(1, Type::Int64));
    let b = b.emit(
        Instruction::Binary {
            dst: frame.i_next,
            op: BinOp::Add,
            lhs: frame.i,
            rhs: one_c,
            operand_ty: Type::Int64,
            ty: Type::Int64,
        },
    );
    let b = b.terminate(Terminator::Jump(frame.header));
    let b = b.switch_to(frame.exit);
    if !matches!(result_type, Type::TypeVar(_)) {
        b.coerce(frame.result, &json(), result_type)
    } else {
        (b, frame.result)
    }
}

/// Ends the body of the search with the truth value for the element: it is the result, or it
/// is given back. Goes on behind the loop and returns the result in its type.
pub fn end_find_loop(
    frame: &FindLoop,
    pred: Temp,
    elem: Temp,
    elem_ty: &Type,
    kind: FindKind,
    result_type: &Type,
    b: &mut FuncBuilder,
) -> (r: Temp)
    ensures
        (final(b)@, r) == end_find_loop_spec(
            frame,
            pred,
            elem,
            elem_ty,
            kind,
            result_type,
            old(b)@,
        ),
        grew(old(b)@, final(b)@, 0),
        steady_but(old(b)@, final(b)@, set![frame.i_next, frame.result_next, frame.found_next]),
        old(b)@.wf()
            && find_loop_temps_ok(frame, old(b)@.temp_types.len())
            && temp_ok(pred, old(b)@.temp_types.len())
            && temp_ok(elem, old(b)@.temp_types.len())
            && find_loop_ok(*frame, old(b)@)
            && find_loop_open(frame, old(b)@)
            ==> final(b)@.wf() && temp_ok(r, final(b)@.temp_types.len()),
{
    reveal(end_find_loop_spec);
    let closure = kind == FindKind::Closure;
    let merge = b.alloc_block(if closure { "nifind_merge" } else { "find_merge" });
    let keep = b.alloc_block(if closure { "nifind_keep" } else { "find_keep" });
    let skip = b.alloc_block(if closure { "nifind_skip" } else { "find_skip" });
    b.terminate(Terminator::CondJump { cond: pred, then_block: keep, else_block: skip });
    b.switch_to(keep);
    let elem_boxed = if closure {
        elem
    } else {
        box_found_elem(elem, elem_ty, b)
    };
    let keep_end = b.env.current_block;
    b.terminate(Terminator::Jump(merge));
    b.switch_to(skip);
    if closure {
        b.emit(Instruction::Release { val: elem, ty: elem_ty.dup() });
    } else {
        fm_reclaim_elem(elem, elem_ty, b);
    }
    let skip_end = b.env.current_block;
    b.terminate(Terminator::Jump(merge));
    b.switch_to(merge);
    b.emit(
        Instruction::Phi {
            dst: frame.result_next,
            ty: json(),
            incomings: two(
                Incoming { val: elem_boxed, pred: keep_end },
                Incoming { val: frame.result, pred: skip_end },
            ),
        },
    );
    b.emit(
        Instruction::Binary {
            dst: frame.found_next,
            op: BinOp::Or,
            lhs: frame.found,
            rhs: pred,
            operand_ty: Type::Bool,
            ty: Type::Bool,
        },
    );
    b.terminate(Terminator::Jump(frame.latch));
    b.switch_to(frame.latch);
    let one_c = b.const_temp(Const::Int(1, Type::Int64));
    b.emit(
        Instruction::Binary {
            dst: frame.i_next,
            op: BinOp::Add,
            lhs: frame.i,
            rhs: one_c,
            operand_ty: Type::Int64,
            ty: Type::Int64,
        },
    );
    b.terminate(Terminator::Jump(frame.header));
    b.switch_to(frame.exit);
    if !matches!(result_type, Type::TypeVar(_)) {
        return b.coerce(frame.result, &json(), result_type);
    }
    frame.result
}

/// The second of the temporaries.
pub open spec fn second_temp_spec(l: &List<Temp>) -> Option<Temp> {
    match l {
        List::Nil => None,
        List::Cons(n) => match &n.tail {
            List::Nil => None,
            List::Cons(m) => Some(m.head),
        },
    }
}

/// The second of the temporaries.
#[verifier::when_used_as_spec(second_temp_spec)]
pub fn second_temp(l: &List<Temp>) -> (r: Option<Temp>)
    ensures
        r == second_temp_spec(l),
        forall|n: nat| #[trigger] temps_ok(l, n) ==> otemp_ok(r, n),
{
    proof {
        assert forall|n: nat| #[trigger] temps_ok(l, n) implies (match l {
            List::Nil => true,
            List::Cons(k) => temps_ok(&k.tail, n),
        }) by {
            temps_tail(l, n);
        }
    }
    match l {
        List::Nil => None,
        List::Cons(n) => match &n.tail {
            List::Nil => None,
            List::Cons(m) => Some(m.head),
        },
    }
}

/// What `lower_find` does to the state, where `l` lowers the expressions inside.
#[verifier::opaque]
pub open spec fn lower_find_spec(
    l: Lower,
    iterable_e: &TypedExpr,
    callback: &TypedExpr,
    result_type: &Type,
    s: St,
) -> (St, Temp) {
    let iterable_ty = iterable_e.ty();
    let param_tys = callback_signature(callback).params;
    let elem_ty = combinator_read_elem_ty_spec(iterable_e, s);
    let (s, iterable) = low(l, iterable_e, s);
    match bare_fn_call_target_spec(callback, s) {
        Some(target) => {
            let (s, frame) = on(
                s,
                begin_find_loop_spec(iterable, &iterable_ty, FindKind::Direct, s.b),
            );
            let (s, elem) = on(
                s,
                s.b.index(iterable, frame.i, &iterable_ty, &Type::Int64, &elem_ty, false),
            );
            let (s, idx) = on(s, narrow_loop_index_spec(frame.i, s.b));
            let (s, pred) = on(
                s,
                call_body_direct_spec(
                    &target,
                    &elem_and_index(elem, &elem_ty, idx),
                    &Type::Bool,
                    s.b,
                ),
            );
            on(
                s,
                end_find_loop_spec(
                    &frame,
                    pred,
                    elem,
                    &elem_ty,
                    FindKind::Direct,
                    result_type,
                    s.b,
                ),
            )
        },
        None => match inlinable_local_fn_spec(callback, s) {
            Some(lam) => {
                let (s, frame) = on(
                    s,
                    begin_find_loop_spec(iterable, &iterable_ty, FindKind::Inline, s.b),
                );
                let (s, elem) = on(
                    s,
                    s.b.index(iterable, frame.i, &iterable_ty, &Type::Int64, &elem_ty, false),
                );
                let (s, idx) = on(s, narrow_loop_index_spec(frame.i, s.b));
                let (s, raw) = inline_lambda_body_spec(
                    l,
                    &lam,
                    &elem_and_index(elem, &elem_ty, idx),
                    s,
                );
                let (s, pred) = on(s, as_bool_spec(raw.temp, &raw.ty, s.b));
                on(
                    s,
                    end_find_loop_spec(
                        &frame,
                        pred,
                        elem,
                        &elem_ty,
                        FindKind::Inline,
                        result_type,
                        s.b,
                    ),
                )
            },
            None => {
                let (s, body) = lower_callback_in_safe_ctx_spec(l, callback, s);
                let (s, frame) = on(
                    s,
                    begin_find_loop_spec(iterable, &iterable_ty, FindKind::Closure, s.b),
                );
                let (s, elem) = on(
                    s,
                    s.b.index(iterable, frame.i, &iterable_ty, &Type::Int64, &json(), false),
                );
                let (s, idx) = on(s, narrow_loop_index_spec(frame.i, s.b));
                let (s, raw) = on(
                    s,
                    call_body_closure_with_elem_boxes_spec(
                        body,
                        &elem_and_index(elem, &json(), idx),
                        &param_tys,
                        &json(),
                        s.b,
                    ),
                );
                let (s, pred) = on(s, s.b.coerce(raw.dst, &json(), &Type::Bool));
                let s = match second_temp(&raw.boxes) {
                    Some(t) => on_b(s, s.b.emit(Instruction::Release { val: t, ty: json() })),
                    None => s,
                };
                on(
                    s,
                    end_find_loop_spec(
                        &frame,
                        pred,
                        elem,
                        &json(),
                        FindKind::Closure,
                        result_type,
                        s.b,
                    ),
                )
            },
        },
    }
}

/// Lowers the search for the first element of which the callback holds; null where there is
/// none.
pub fn lower_find(
    iterable_e: &TypedExpr,
    callback: &TypedExpr,
    result_type: &Type,
    b: &mut FuncBuilder,
    ctx: &mut LowerCtx,
) -> (r: Temp)
    ensures
        (st(final(b), final(ctx)), r) == lower_find_spec(
            lower_at(old(ctx).room.left()),
            iterable_e,
            callback,
            result_type,
            st(old(b), old(ctx)),
        ),
        ran(*old(b), *old(ctx), *final(b), *final(ctx)),
        valid(st(old(b), old(ctx)))
            ==> valid(st(final(b), final(ctx))) && temp_ok(r, final(b)@.temp_types.len()),
    decreases old(ctx).room.left(), 3nat, 0nat,
{
    reveal(lower_find_spec);
    let iterable_ty = iterable_e.ty();
    let param_tys = callback_signature(callback).params;
    let elem_ty = combinator_read_elem_ty(iterable_e, b, ctx);
    let iterable = lower_expr(iterable_e, b, ctx);
    match bare_fn_call_target(callback, b, ctx) {
        Some(target) => {
            let frame = begin_find_loop(iterable, &iterable_ty, FindKind::Direct, b);
            let elem = b.index(iterable, frame.i, &iterable_ty, &Type::Int64, &elem_ty, false);
            let idx = narrow_loop_index(frame.i, b);
            let pred = call_body_direct(
                &target,
                &elem_and_index(elem, &elem_ty, idx),
                &Type::Bool,
                b,
            );
            return end_find_loop(&frame, pred, elem, &elem_ty, FindKind::Direct, result_type, b);
        },
        None => {},
    }
    match inlinable_local_fn(callback, b, ctx) {
        Some(lam) => {
            let frame = begin_find_loop(iterable, &iterable_ty, FindKind::Inline, b);
            let elem = b.index(iterable, frame.i, &iterable_ty, &Type::Int64, &elem_ty, false);
            let idx = narrow_loop_index(frame.i, b);
            let raw = inline_lambda_body(&lam, &elem_and_index(elem, &elem_ty, idx), b, ctx);
            let pred = as_bool(raw.temp, &raw.ty, b);
            return end_find_loop(&frame, pred, elem, &elem_ty, FindKind::Inline, result_type, b);
        },
        None => {},
    }
    let body = lower_callback_in_safe_ctx(callback, b, ctx);
    let frame = begin_find_loop(iterable, &iterable_ty, FindKind::Closure, b);
    let elem = b.index(iterable, frame.i, &iterable_ty, &Type::Int64, &json(), false);
    let idx = narrow_loop_index(frame.i, b);
    let raw = call_body_closure_with_elem_boxes(
        body,
        &elem_and_index(elem, &json(), idx),
        &param_tys,
        &json(),
        b,
    );
    let pred = b.coerce(raw.dst, &json(), &Type::Bool);
    match second_temp(&raw.boxes) {
        Some(t) => {
            b.emit(Instruction::Release { val: t, ty: json() });
        },
        None => {},
    }
    end_find_loop(&frame, pred, elem, &json(), FindKind::Closure, result_type, b)
}

/// What `begin_entries_loop` does to the function under construction.
#[verifier::opaque]
pub open spec fn begin_entries_loop_spec(dict: Temp, b: FState) -> (FState, LoopFrame) {
    let (b, len) = b.call(
        CallTarget::Named(Text::Fixed("lin_map_raw_len")),
        one(dict),
        &Type::Int64,
    );
    let (b, zero) = b.const_temp(Const::Int(0, Type::Int64));
    let preheader = b.env.current_block;
    let (b, header) = b.alloc_block("entries_header");
    let (b, body) = b.alloc_block("entries_body");
    let (b, latch) = b.alloc_block("entries_latch");
    let (b, exit) = b.alloc_block("entries_exit");
    let (b, i) = b.alloc_temp(Type::Int64);
    let (b, i_next) = b.alloc_temp(Type::Int64);
    let b = b.terminate(Terminator::Jump(header));
    let b = b.switch_to(header);
    let b = b.emit(
        Instruction::Phi {
            dst: i,
            ty: Type::Int64,
            incomings: two(
                Incoming { val: zero, pred: preheader },
                Incoming { val: i_next, pred: latch },
            ),
        },
    );
    let (b, cond) = b.binary(BinOp::Lt, i, len, &Type::Int64, &Type::Bool);
    let b = b.terminate(Terminator::CondJump { cond, then_block: body, else_block: exit });
    let b = b.switch_to(body);
    let (b, key_box) = b.call(
        CallTarget::Named(Text::Fixed("lin_map_raw_key_at")),
        two(dict, i),
        &json(),
    );
    let (b, val_box) = b.call(
        CallTarget::Named(Text::Fixed("lin_map_raw_value_at")),
        two(dict, i),
        &json(),
    );
    let pair_ty = Type::Array(Rc::new(json()));
    let (b, pair) = b.alloc_temp(pair_ty.dup());
    let b = b.emit(
        Instruction::MakeArray {
            dst: pair,
            elements: two(key_box, val_box),
            elem_ty: json(),
            inline: false,
            columnar: false,
        },
    );
    let (b, pair_box) = b.coerce(pair, &pair_ty, &json());
    (b, LoopFrame { header, latch, exit, i, i_next, elem: pair_box })
}

/// Starts a loop over the entries of a dictionary, makes the pair of key and value, and
/// returns it, boxed, as the element.
pub fn begin_entries_loop(dict: Temp, b: &mut FuncBuilder) -> (r: LoopFrame)
    ensures
        (final(b)@, r) == begin_entries_loop_spec(dict, old(b)@),
        grown(old(b)@, final(b)@, 0),
        old(b)@.wf() && temp_ok(dict, old(b)@.temp_types.len())
            ==> final(b)@.wf()
                && loop_frame_ok(&r, final(b)@.temp_types.len())
                && frame_open(&r, final(b)@),
        old(b)@.blocks.len() > 0 ==> frame_ok(r, final(b)@),
        newer(old(b)@, final(b)@, r.i_next),
{
    reveal(begin_entries_loop_spec);
    let len = b.call(CallTarget::Named(Text::Fixed("lin_map_raw_len")), one(dict), &Type::Int64);
    let zero = b.const_temp(Const::Int(0, Type::Int64));
    let preheader = b.env.current_block;
    let header = b.alloc_block("entries_header");
    let body = b.alloc_block("entries_body");
    let latch = b.alloc_block("entries_latch");
    let exit = b.alloc_block("entries_exit");
    let i = b.alloc_temp(Type::Int64);
    let i_next = b.alloc_temp(Type::Int64);
    b.terminate(Terminator::Jump(header));
    b.switch_to(header);
    b.emit(
        Instruction::Phi {
            dst: i,
            ty: Type::Int64,
            incomings: two(
                Incoming { val: zero, pred: preheader },
                Incoming { val: i_next, pred: latch },
            ),
        },
    );
    let cond = b.binary(BinOp::Lt, i, len, &Type::Int64, &Type::Bool);
    b.terminate(Terminator::CondJump { cond, then_block: body, else_block: exit });
    b.switch_to(body);
    let key_box = b.call(
        CallTarget::Named(Text::Fixed("lin_map_raw_key_at")),
        two(dict, i),
        &json(),
    );
    let val_box = b.call(
        CallTarget::Named(Text::Fixed("lin_map_raw_value_at")),
        two(dict, i),
        &json(),
    );
    let pair_ty = Type::Array(Rc::new(json()));
    let pair = b.alloc_temp(pair_ty.dup());
    b.emit(
        Instruction::MakeArray {
            dst: pair,
            elements: two(key_box, val_box),
            elem_ty: json(),
            inline: false,
            columnar: false,
        },
    );
    let pair_box = b.coerce(pair, &pair_ty, &json());
    LoopFrame { header, latch, exit, i, i_next, elem: pair_box }
}

/// What `lower_entries_inline` does to the state, where `l` lowers the expressions inside.
#[verifier::opaque]
pub open spec fn lower_entries_inline_spec(
    l: Lower,
    dict_e: &TypedExpr,
    callback: &TypedExpr,
    s: St,
) -> (St, Option<Temp>) {
    if !matches!(dict_e.ty(), Type::Dict { .. }) {
        (s, None)
    } else {
        match bare_fn_call_target_spec(callback, s) {
            Some(target) => {
                let ret_ty = callback_ret_or(callback, Type::Null);
                let (s, dict) = low(l, dict_e, s);
                let (s, frame) = on(s, begin_entries_loop_spec(dict, s.b));
                let (s, res) = on(
                    s,
                    call_body_direct_spec(
                        &target,
                        &one(TypedTemp { temp: frame.elem, ty: json() }),
                        &ret_ty,
                        s.b,
                    ),
                );
                let s = on_b(s, s.b.emit(Instruction::Release { val: res, ty: ret_ty.dup() }));
                let s = on_b(s, s.b.emit(Instruction::Release { val: frame.elem, ty: json() }));
                let s = on_b(s, end_combinator_loop_spec(&frame, LoopFlow::Fallthrough, s.b));
                let (s, t) = on(s, s.b.const_temp(Const::Null));
                (s, Some(t))
            },
            None => match inlinable_local_fn_spec(callback, s) {
                Some(lam) => {
                    let (s, dict) = low(l, dict_e, s);
                    let (s, frame) = on(s, begin_entries_loop_spec(dict, s.b));
                    let (s, res) = inline_lambda_body_spec(
                        l,
                        &lam,
                        &one(TypedTemp { temp: frame.elem, ty: json() }),
                        s,
                    );
                    let s = on_b(
                        s,
                        s.b.emit(Instruction::Release { val: res.temp, ty: res.ty.dup() }),
                    );
                    let s = on_b(s, s.b.emit(Instruction::Release { val: frame.elem, ty: json() }));
                    let s = on_b(s, end_combinator_loop_spec(&frame, LoopFlow::Fallthrough, s.b));
                    let (s, t) = on(s, s.b.const_temp(Const::Null));
                    (s, Some(t))
                },
                None => (s, None),
            },
        }
    }
}

/// Lowers a loop over the entries of a dictionary, where the callback can be called directly
/// or inlined.
pub fn lower_entries_inline(
    dict_e: &TypedExpr,
    callback: &TypedExpr,
    b: &mut FuncBuilder,
    ctx: &mut LowerCtx,
) -> (r: Option<Temp>)
    ensures
        (st(final(b), final(ctx)), r) == lower_entries_inline_spec(
            lower_at(old(ctx).room.left()),
            dict_e,
            callback,
            st(old(b), old(ctx)),
        ),
        ran(*old(b), *old(ctx), *final(b), *final(ctx)),
        valid(st(old(b), old(ctx)))
            ==> valid(st(final(b), final(ctx))) && otemp_ok(r, final(b)@.temp_types.len()),
    decreases old(ctx).room.left(), 3nat, 0nat,
{
    reveal(lower_entries_inline_spec);
    if !matches!(dict_e.ty(), Type::Dict { .. }) {
        return None;
    }
    match bare_fn_call_target(callback, b, ctx) {
        Some(target) => {
            let ret_ty = callback_ret_or(callback, Type::Null);
            let dict = lower_expr(dict_e, b, ctx);
            let frame = begin_entries_loop(dict, b);
            let res = call_body_direct(
                &target,
                &one(TypedTemp { temp: frame.elem, ty: json() }),
                &ret_ty,
                b,
            );
            b.emit(Instruction::Release { val: res, ty: ret_ty.dup() });
            b.emit(Instruction::Release { val: frame.elem, ty: json() });
            end_combinator_loop(&frame, LoopFlow::Fallthrough, b);
            let t = b.const_temp(Const::Null);
            return Some(t);
        },
        None => {},
    }
    match inlinable_local_fn(callback, b, ctx) {
        Some(lam) => {
            let dict = lower_expr(dict_e, b, ctx);
            let frame = begin_entries_loop(dict, b);
            let res = inline_lambda_body(
                &lam,
                &one(TypedTemp { temp: frame.elem, ty: json() }),
                b,
                ctx,
            );
            b.emit(Instruction::Release { val: res.temp, ty: res.ty.dup() });
            b.emit(Instruction::Release { val: frame.elem, ty: json() });
            end_combinator_loop(&frame, LoopFlow::Fallthrough, b);
            let t = b.const_temp(Const::Null);
            Some(t)
        },
        None => None,
    }
}

} // verus!
