//! Fused loops: one pass over a collection for a whole chain of combinators.

use crate::ast::BinOp;
use crate::builder::{FState, FuncBuilder, grown};
use crate::coerce::{
    coerce_arg_to_param_repr, coerce_arg_to_param_repr_spec, narrow_loop_index,
    narrow_loop_index_spec, push_output, push_output_spec,
};
use crate::ctx::{Lower, LowerCtx, St, on, on_b, ran, st, valid};
use crate::expr::lower_at;
use crate::ir::{BlockId, Const, FlatElemKind, Instruction, Temp, Terminator};
use crate::list::{List, one, prepend};
use crate::loops::{
    ElemAccess, LoopFlow, TypedTemp, as_bool, as_bool_spec, begin_combinator_loop,
    begin_combinator_loop_spec, elem_and_index, end_combinator_loop, end_combinator_loop_spec,
    fm_reclaim_elem, fm_reclaim_elem_spec, inline_lambda_body, inline_lambda_body_spec,
};
use crate::recognize::{
    FuseStage, Lambda, chain_has_flatmap, combinator_read_elem_ty, combinator_read_elem_ty_spec,
    is_borrowed_heap_elem, takes_three, takes_two,
};
use crate::types::{Type, json};
use crate::valid::{
    block_ids_ok, fuse_out_ok, group_valid, otemp_ok, otemps_ok, otemps_tail, temp_ok, terminal_ok,
    typed_temp_ok,
};
use vstd::prelude::*;

verus! {

broadcast use group_valid;

/// What a fused loop does with the values that come through.
pub enum Terminal {
    /// Runs a function for its effect.
    Run { lam: Lambda },
    /// Pushes what a function makes of the value.
    MapInto { lam: Lambda, out: Temp, flat: Option<FlatElemKind>, elem_ty: Type },
    /// Pushes the value where a function says so.
    FilterInto { lam: Lambda, out: Temp, flat: Option<FlatElemKind>, elem_ty: Type },
    /// Pushes the value.
    PushInto { out: Temp, flat: Option<FlatElemKind>, elem_ty: Type },
    /// Replaces the contents of a cell by what a function makes of it and the value.
    ReduceInto { lam: Lambda, cell: Temp, acc_ty: Type },
}

/// What comes through the steps of a fused loop, its position among what comes through, and
/// the blocks from which control leaves for the next element.
pub struct FuseOut {
    pub val: Temp,
    pub ty: Type,
    pub idx: Temp,
    pub drops: List<BlockId>,
}

/// The type of a value that a function made, where its own type is only the wildcard.
pub open spec fn mapped_type_spec(mapped_ty: &Type, out_elem_ty: &Type) -> Type {
    match mapped_ty {
        Type::TypeVar(_) => out_elem_ty.dup(),
        _ => mapped_ty.dup(),
    }
}

/// The type of a value that a function made, where its own type is only the wildcard.
#[verifier::when_used_as_spec(mapped_type_spec)]
pub fn mapped_type(mapped_ty: &Type, out_elem_ty: &Type) -> (r: Type)
    ensures
        r == mapped_type_spec(mapped_ty, out_elem_ty),
{
    match mapped_ty {
        Type::TypeVar(_) => out_elem_ty.dup(),
        _ => mapped_ty.dup(),
    }
}

/// What `fuse_filter` does to the state, where `l` lowers the expressions inside.
#[verifier::opaque]
pub open spec fn fuse_filter_spec(
    l: Lower,
    lam: &Lambda,
    elem: Temp,
    elem_ty: &Type,
    src: &TypedTemp,
    src_alive: bool,
    idx: Temp,
    skip_block: BlockId,
    reduce: bool,
    s: St,
) -> (St, BlockId) {
    let (s, pred) = inline_lambda_body_spec(l, lam, &elem_and_index(elem, elem_ty, idx), s);
    let (s, keep) = on(s, as_bool_spec(pred.temp, &pred.ty, s.b));
    let (s, keep_block) = on(s, s.b.alloc_block(if reduce { "freduce_keep" } else { "fuse_keep" }));
    let (s, drop_block) = on(s, s.b.alloc_block(if reduce { "freduce_drop" } else { "fuse_drop" }));
    let s = on_b(
        s,
        s.b.terminate(
            Terminator::CondJump { cond: keep, then_block: keep_block, else_block: drop_block },
        ),
    );
    let s = on_b(s, s.b.switch_to(drop_block));
    let s = if src_alive {
        on_b(s, fm_reclaim_elem_spec(src.temp, &src.ty, s.b))
    } else {
        s
    };
    let s = if elem != src.temp {
        on_b(s, s.b.emit(Instruction::Release { val: elem, ty: elem_ty.dup() }))
    } else {
        s
    };
    let drop_pred = s.b.env.current_block;
    let s = on_b(s, s.b.terminate(Terminator::Jump(skip_block)));
    let s = on_b(s, s.b.switch_to(keep_block));
    (s, drop_pred)
}

/// Emits a step that drops an element unless its function holds of it. A dropped element is
/// given back, with `src` where that is still alive, and control goes to `skip_block`. Goes
/// on where the element is kept, and returns the block from which control skips.
pub fn fuse_filter(
    lam: &Lambda,
    elem: Temp,
    elem_ty: &Type,
    src: &TypedTemp,
    src_alive: bool,
    idx: Temp,
    skip_block: BlockId,
    reduce: bool,
    b: &mut FuncBuilder,
    ctx: &mut LowerCtx,
) -> (r: BlockId)
    ensures
        (st(final(b), final(ctx)), r) == fuse_filter_spec(
            lower_at(old(ctx).room.left()),
            lam,
            elem,
            elem_ty,
            src,
            src_alive,
            idx,
            skip_block,
            reduce,
            st(old(b), old(ctx)),
        ),
        ran(*old(b), *old(ctx), *final(b), *final(ctx)),
        valid(st(old(b), old(ctx)))
            && temp_ok(elem, old(b)@.temp_types.len())
            && typed_temp_ok(src, old(b)@.temp_types.len())
            && temp_ok(idx, old(b)@.temp_types.len())
            && skip_block.0 < old(b)@.blocks.len()
            ==> valid(st(final(b), final(ctx))) && r.0 < final(b)@.blocks.len(),
    decreases old(ctx).room.left(), 3nat, 0nat,
{
    reveal(fuse_filter_spec);
    let pred = inline_lambda_body(lam, &elem_and_index(elem, elem_ty, idx), b, ctx);
    let keep = as_bool(pred.temp, &pred.ty, b);
    let keep_block = b.alloc_block(if reduce { "freduce_keep" } else { "fuse_keep" });
    let drop_block = b.alloc_block(if reduce { "freduce_drop" } else { "fuse_drop" });
    b.terminate(
        Terminator::CondJump { cond: keep, then_block: keep_block, else_block: drop_block },
    );
    b.switch_to(drop_block);
    if src_alive {
        fm_reclaim_elem(src.temp, &src.ty, b);
    }
    if elem != src.temp {
        b.emit(Instruction::Release { val: elem, ty: elem_ty.dup() });
    }
    let drop_pred = b.env.current_block;
    b.terminate(Terminator::Jump(skip_block));
    b.switch_to(keep_block);
    drop_pred
}

/// What `fuse_map` does to the state, where `l` lowers the expressions inside.
#[verifier::opaque]
pub open spec fn fuse_map_spec(
    l: Lower,
    lam: &Lambda,
    out_elem_ty: &Type,
    elem: Temp,
    elem_ty: &Type,
    src: &TypedTemp,
    idx: Temp,
    s: St,
) -> (St, TypedTemp) {
    let (s, mapped) = inline_lambda_body_spec(l, lam, &elem_and_index(elem, elem_ty, idx), s);
    let s = if mapped.temp != elem && mapped.temp != src.temp {
        if elem != src.temp {
            on_b(s, s.b.emit(Instruction::Release { val: elem, ty: elem_ty.dup() }))
        } else {
            on_b(s, fm_reclaim_elem_spec(src.temp, &src.ty, s.b))
        }
    } else {
        s
    };
    (s, TypedTemp { temp: mapped.temp, ty: mapped_type(&mapped.ty, out_elem_ty) })
}

/// Emits a step that replaces an element by what its function makes of it, and gives the
/// element back.
pub fn fuse_map(
    lam: &Lambda,
    out_elem_ty: &Type,
    elem: Temp,
    elem_ty: &Type,
    src: &TypedTemp,
    idx: Temp,
    b: &mut FuncBuilder,
    ctx: &mut LowerCtx,
) -> (r: TypedTemp)
    ensures
        (st(final(b), final(ctx)), r) == fuse_map_spec(
            lower_at(old(ctx).room.left()),
            lam,
            out_elem_ty,
            elem,
            elem_ty,
            src,
            idx,
            st(old(b), old(ctx)),
        ),
        ran(*old(b), *old(ctx), *final(b), *final(ctx)),
        valid(st(old(b), old(ctx)))
            && temp_ok(elem, old(b)@.temp_types.len())
            && typed_temp_ok(src, old(b)@.temp_types.len())
            && temp_ok(idx, old(b)@.temp_types.len())
            ==> valid(st(final(b), final(ctx))) && typed_temp_ok(&r, final(b)@.temp_types.len()),
    decreases old(ctx).room.left(), 3nat, 0nat,
{
    reveal(fuse_map_spec);
    let mapped = inline_lambda_body(lam, &elem_and_index(elem, elem_ty, idx), b, ctx);
    if mapped.temp != elem && mapped.temp != src.temp {
        if elem != src.temp {
            b.emit(Instruction::Release { val: elem, ty: elem_ty.dup() });
        } else {
            fm_reclaim_elem(src.temp, &src.ty, b);
        }
    }
    TypedTemp { temp: mapped.temp, ty: mapped_type(&mapped.ty, out_elem_ty) }
}

/// What `carried_index` does to the function under construction.
#[verifier::opaque]
pub open spec fn carried_index_spec(
    counters: &List<Option<Temp>>,
    idx: Temp,
    b: FState,
) -> (FState, Temp) {
    match first_counter(counters) {
        Some(cell) => advance_counter_spec(cell, b),
        None => (b, idx),
    }
}

/// The position of a value before the next step: counted, where it is, else as before.
pub fn carried_index(counters: &List<Option<Temp>>, idx: Temp, b: &mut FuncBuilder) -> (r: Temp)
    ensures
        (final(b)@, r) == carried_index_spec(counters, idx, old(b)@),
        grown(old(b)@, final(b)@, 0),
        old(b)@.wf()
            && otemps_ok(counters, old(b)@.temp_types.len())
            && temp_ok(idx, old(b)@.temp_types.len())
            ==> final(b)@.wf() && temp_ok(r, final(b)@.temp_types.len()),
{
    reveal(carried_index_spec);
    match first_counter(counters) {
        Some(cell) => advance_counter(cell, b),
        None => idx,
    }
}

/// What `apply_fuse_stages` does to the state, where `l` lowers the expressions inside.
#[verifier::opaque]
pub open spec fn apply_fuse_stages_spec(
    l: Lower,
    stages: &List<FuseStage>,
    elem: Temp,
    elem_ty: &Type,
    src: &TypedTemp,
    src_alive: bool,
    idx: Temp,
    counters: &List<Option<Temp>>,
    skip_block: BlockId,
    reduce: bool,
    s: St,
) -> (St, FuseOut)
    decreases stages,
{
    match stages {
        List::Nil => (s, FuseOut { val: elem, ty: elem_ty.dup(), idx, drops: List::Nil }),
        List::Cons(n) => {
            let later = later_counters(counters);
            match &n.head {
                FuseStage::Filter { lam } => {
                    let (s, drop_pred) = fuse_filter_spec(
                        l,
                        lam,
                        elem,
                        elem_ty,
                        src,
                        src_alive,
                        idx,
                        skip_block,
                        reduce,
                        s,
                    );
                    let (s, next_idx) = on(s, carried_index_spec(&later, idx, s.b));
                    let (s, rest) = apply_fuse_stages_spec(
                        l,
                        &n.tail,
                        elem,
                        elem_ty,
                        src,
                        src_alive,
                        next_idx,
                        &later,
                        skip_block,
                        reduce,
                        s,
                    );
                    (
                        s,
                        FuseOut {
                            val: rest.val,
                            ty: rest.ty,
                            idx: rest.idx,
                            drops: prepend(drop_pred, rest.drops),
                        },
                    )
                },
                FuseStage::MapEach { lam, out_elem_ty } => {
                    let (s, next) = fuse_map_spec(l, lam, out_elem_ty, elem, elem_ty, src, idx, s);
                    let alive = src_alive && (elem != src.temp || next.temp == elem);
                    let (s, next_idx) = on(s, carried_index_spec(&later, idx, s.b));
                    apply_fuse_stages_spec(
                        l,
                        &n.tail,
                        next.temp,
                        &next.ty,
                        src,
                        alive,
                        next_idx,
                        &later,
                        skip_block,
                        reduce,
                        s,
                    )
                },
                FuseStage::FlatMap { .. } => {
                    apply_fuse_stages_spec(
                        l,
                        &n.tail,
                        elem,
                        elem_ty,
                        src,
                        src_alive,
                        idx,
                        &later,
                        skip_block,
                        reduce,
                        s,
                    )
                },
            }
        },
    }
}

/// Emits the steps of a fused loop for one element. Where a step drops the element, it is
/// given back and control goes to `skip_block`. `src` is the element as it was read, which is
/// given back by whoever replaces it, unless `src_alive` says that this has been done.
/// `counters` count the values before each step that stands behind a filter and wants to know.
pub fn apply_fuse_stages(
    stages: &List<FuseStage>,
    elem: Temp,
    elem_ty: &Type,
    src: &TypedTemp,
    src_alive: bool,
    idx: Temp,
    counters: &List<Option<Temp>>,
    skip_block: BlockId,
    reduce: bool,
    b: &mut FuncBuilder,
    ctx: &mut LowerCtx,
) -> (r: FuseOut)
    requires
        !chain_has_flatmap(stages),
    ensures
        (st(final(b), final(ctx)), r) == apply_fuse_stages_spec(
            lower_at(old(ctx).room.left()),
            stages,
            elem,
            elem_ty,
            src,
            src_alive,
            idx,
            counters,
            skip_block,
            reduce,
            st(old(b), old(ctx)),
        ),
        ran(*old(b), *old(ctx), *final(b), *final(ctx)),
        valid(st(old(b), old(ctx)))
            && temp_ok(elem, old(b)@.temp_types.len())
            && typed_temp_ok(src, old(b)@.temp_types.len())
            && temp_ok(idx, old(b)@.temp_types.len())
            && otemps_ok(counters, old(b)@.temp_types.len())
            && skip_block.0 < old(b)@.blocks.len()
            ==> valid(st(final(b), final(ctx)))
                && block_ids_ok(&r.drops, final(b)@.blocks.len())
                && fuse_out_ok(&r, final(b)@.temp_types.len()),
    decreases old(ctx).room.left(), 4nat, stages.len(),
{
    reveal(apply_fuse_stages_spec);
    proof {
        otemps_tail(counters, old(b)@.temp_types.len());
    }
    match stages {
        List::Nil => FuseOut { val: elem, ty: elem_ty.dup(), idx, drops: List::Nil },
        List::Cons(n) => {
            let later = later_counters(counters);
            match &n.head {
                FuseStage::Filter { lam } => {
                    let drop_pred = fuse_filter(
                        lam,
                        elem,
                        elem_ty,
                        src,
                        src_alive,
                        idx,
                        skip_block,
                        reduce,
                        b,
                        ctx,
                    );
                    let next_idx = carried_index(&later, idx, b);
                    let rest = apply_fuse_stages(
                        &n.tail,
                        elem,
                        elem_ty,
                        src,
                        src_alive,
                        next_idx,
                        &later,
                        skip_block,
                        reduce,
                        b,
                        ctx,
                    );
                    FuseOut {
                        val: rest.val,
                        ty: rest.ty,
                        idx: rest.idx,
                        drops: prepend(drop_pred, rest.drops),
                    }
                },
                FuseStage::MapEach { lam, out_elem_ty } => {
                    let next = fuse_map(lam, out_elem_ty, elem, elem_ty, src, idx, b, ctx);
                    let alive = src_alive && (elem != src.temp || next.temp == elem);
                    let next_idx = carried_index(&later, idx, b);
                    apply_fuse_stages(
                        &n.tail,
                        next.temp,
                        &next.ty,
                        src,
                        alive,
                        next_idx,
                        &later,
                        skip_block,
                        reduce,
                        b,
                        ctx,
                    )
                },
                FuseStage::FlatMap { .. } => {
                    apply_fuse_stages(
                        &n.tail,
                        elem,
                        elem_ty,
                        src,
                        src_alive,
                        idx,
                        &later,
                        skip_block,
                        reduce,
                        b,
                        ctx,
                    )
                },
            }
        },
    }
}

/// What `reclaim_fused` does to the function under construction.
#[verifier::opaque]
pub open spec fn reclaim_fused_spec(val: Temp, val_ty: &Type, src: &TypedTemp, b: FState) -> FState
{
    if val == src.temp {
        fm_reclaim_elem_spec(src.temp, &src.ty, b)
    } else {
        b.emit(Instruction::Release { val, ty: val_ty.dup() })
    }
}

/// Gives back the value that came through a fused loop: the element as it was read, or what
/// the steps made of it.
pub fn reclaim_fused(val: Temp, val_ty: &Type, src: &TypedTemp, b: &mut FuncBuilder)
    ensures
        final(b)@ == reclaim_fused_spec(val, val_ty, src, old(b)@),
        grown(old(b)@, final(b)@, 0),
        old(b)@.wf()
            && temp_ok(val, old(b)@.temp_types.len())
            && typed_temp_ok(src, old(b)@.temp_types.len())
            ==> final(b)@.wf(),
{
    reveal(reclaim_fused_spec);
    if val == src.temp {
        fm_reclaim_elem(src.temp, &src.ty, b);
    } else {
        b.emit(Instruction::Release { val, ty: val_ty.dup() });
    }
}

/// What `run_fused_terminal` does to the state, where `l` lowers the expressions inside.
#[verifier::opaque]
pub open spec fn run_fused_terminal_spec(
    l: Lower,
    terminal: &Terminal,
    val: Temp,
    val_ty: &Type,
    idx: Temp,
    src: &TypedTemp,
    s: St,
) -> St {
    match terminal {
        Terminal::Run { lam } => {
            let (s, res) = inline_lambda_body_spec(l, lam, &elem_and_index(val, val_ty, idx), s);
            let s = on_b(s, s.b.emit(Instruction::Release { val: res.temp, ty: res.ty.dup() }));
            on_b(s, reclaim_fused_spec(val, val_ty, src, s.b))
        },
        Terminal::MapInto { lam, out, flat, elem_ty } => {
            let (s, mapped) = inline_lambda_body_spec(l, lam, &elem_and_index(val, val_ty, idx), s);
            let s = on_b(
                s,
                push_output_spec(*out, *flat, elem_ty, mapped.temp, &mapped.ty, false, s.b),
            );
            if mapped.temp != val && mapped.temp != src.temp {
                on_b(s, reclaim_fused_spec(val, val_ty, src, s.b))
            } else {
                s
            }
        },
        Terminal::FilterInto { lam, out, flat, elem_ty } => {
            let (s, pred) = inline_lambda_body_spec(l, lam, &elem_and_index(val, val_ty, idx), s);
            let (s, keep) = on(s, as_bool_spec(pred.temp, &pred.ty, s.b));
            let (s, keep_block) = on(s, s.b.alloc_block("ffilter_keep"));
            let (s, join_block) = on(s, s.b.alloc_block("ffilter_skip"));
            let s = on_b(
                s,
                s.b.terminate(
                    Terminator::CondJump {
                        cond: keep,
                        then_block: keep_block,
                        else_block: join_block,
                    },
                ),
            );
            let s = on_b(s, s.b.switch_to(keep_block));
            let s = on_b(s, push_output_spec(*out, *flat, elem_ty, val, val_ty, false, s.b));
            let s = on_b(s, s.b.terminate(Terminator::Jump(join_block)));
            let s = on_b(s, s.b.switch_to(join_block));
            if val == src.temp {
                on_b(s, fm_reclaim_elem_spec(src.temp, &src.ty, s.b))
            } else {
                s
            }
        },
        _ => s,
    }
}

/// Emits what a fused loop without flattening does with a value that came through.
pub fn run_fused_terminal(
    terminal: &Terminal,
    val: Temp,
    val_ty: &Type,
    idx: Temp,
    src: &TypedTemp,
    b: &mut FuncBuilder,
    ctx: &mut LowerCtx,
)
    ensures
        st(final(b), final(ctx)) == run_fused_terminal_spec(
            lower_at(old(ctx).room.left()),
            terminal,
            val,
            val_ty,
            idx,
            src,
            st(old(b), old(ctx)),
        ),
        ran(*old(b), *old(ctx), *final(b), *final(ctx)),
        valid(st(old(b), old(ctx)))
            && terminal_ok(terminal, old(b)@.temp_types.len())
            && temp_ok(val, old(b)@.temp_types.len())
            && temp_ok(idx, old(b)@.temp_types.len())
            && typed_temp_ok(src, old(b)@.temp_types.len())
            ==> valid(st(final(b), final(ctx))),
    decreases old(ctx).room.left(), 3nat, 0nat,
{
    reveal(run_fused_terminal_spec);
    match terminal {
        Terminal::Run { lam } => {
            let res = inline_lambda_body(lam, &elem_and_index(val, val_ty, idx), b, ctx);
            b.emit(Instruction::Release { val: res.temp, ty: res.ty.dup() });
            reclaim_fused(val, val_ty, src, b);
        },
        Terminal::MapInto { lam, out, flat, elem_ty } => {
            let mapped = inline_lambda_body(lam, &elem_and_index(val, val_ty, idx), b, ctx);
            push_output(*out, *flat, elem_ty, mapped.temp, &mapped.ty, false, b);
            if mapped.temp != val && mapped.temp != src.temp {
                reclaim_fused(val, val_ty, src, b);
            }
        },
        Terminal::FilterInto { lam, out, flat, elem_ty } => {
            let pred = inline_lambda_body(lam, &elem_and_index(val, val_ty, idx), b, ctx);
            let keep = as_bool(pred.temp, &pred.ty, b);
            let keep_block = b.alloc_block("ffilter_keep");
            let join_block = b.alloc_block("ffilter_skip");
            b.terminate(
                Terminator::CondJump { cond: keep, then_block: keep_block, else_block: join_block },
            );
            b.switch_to(keep_block);
            push_output(*out, *flat, elem_ty, val, val_ty, false, b);
            b.terminate(Terminator::Jump(join_block));
            b.switch_to(join_block);
            if val == src.temp {
                fm_reclaim_elem(src.temp, &src.ty, b);
            }
        },
        _ => {},
    }
}

/// The function of a terminal wants to know the index.
pub open spec fn terminal_takes_index_spec(terminal: &Terminal) -> bool {
    match terminal {
        Terminal::Run { lam } => takes_two(&lam.params),
        Terminal::MapInto { lam, .. } => takes_two(&lam.params),
        Terminal::FilterInto { lam, .. } => takes_two(&lam.params),
        Terminal::PushInto { .. } => false,
        Terminal::ReduceInto { lam, .. } => takes_three(&lam.params),
    }
}

/// Whether the function of a terminal wants to know the index.
#[verifier::when_used_as_spec(terminal_takes_index_spec)]
pub fn terminal_takes_index(terminal: &Terminal) -> (r: bool)
    ensures
        r == terminal_takes_index_spec(terminal),
{
    match terminal {
        Terminal::Run { lam } => takes_two(&lam.params),
        Terminal::MapInto { lam, .. } => takes_two(&lam.params),
        Terminal::FilterInto { lam, .. } => takes_two(&lam.params),
        Terminal::PushInto { .. } => false,
        Terminal::ReduceInto { lam, .. } => takes_three(&lam.params),
    }
}

/// A step drops elements.
pub open spec fn stage_filters_spec(stage: &FuseStage) -> bool {
    matches!(stage, FuseStage::Filter { .. })
}

/// Whether a step drops elements.
#[verifier::when_used_as_spec(stage_filters_spec)]
pub fn stage_filters(stage: &FuseStage) -> (r: bool)
    ensures
        r == stage_filters_spec(stage),
{
    matches!(stage, FuseStage::Filter { .. })
}

/// What `filtered_counters` does to the function under construction.
#[verifier::opaque]
pub open spec fn filtered_counters_spec(
    stages: &List<FuseStage>,
    behind_filter: bool,
    last_takes_index: bool,
    b: FState,
) -> (FState, List<Option<Temp>>)
    decreases stages,
{
    match stages {
        List::Nil => {
            let (b, c) = fm_counter_spec(behind_filter && last_takes_index, b);
            (b, one(c))
        },
        List::Cons(n) => {
            let (b, c) = fm_counter_spec(behind_filter && stage_takes_index(&n.head), b);
            let (b, rest) = filtered_counters_spec(
                &n.tail,
                behind_filter || stage_filters(&n.head),
                last_takes_index,
                b,
            );
            (b, prepend(c, rest))
        },
    }
}

/// Makes the counters of a fused loop that does not flatten, one before each step and one
/// before what stands behind the steps, where an index is wanted and a filter stands before.
/// Elsewhere the position of a value is that of its element in the collection.
pub fn filtered_counters(
    stages: &List<FuseStage>,
    behind_filter: bool,
    last_takes_index: bool,
    b: &mut FuncBuilder,
) -> (r: List<Option<Temp>>)
    ensures
        (final(b)@, r) == filtered_counters_spec(stages, behind_filter, last_takes_index, old(b)@),
        grown(old(b)@, final(b)@, 0),
        old(b)@.wf() ==> final(b)@.wf() && otemps_ok(&r, final(b)@.temp_types.len()),
    decreases stages,
{
    reveal(filtered_counters_spec);
    match stages {
        List::Nil => {
            let c = fm_counter(behind_filter && last_takes_index, b);
            one(c)
        },
        List::Cons(n) => {
            let c = fm_counter(behind_filter && stage_takes_index(&n.head), b);
            let rest = filtered_counters(
                &n.tail,
                behind_filter || stage_filters(&n.head),
                last_takes_index,
                b,
            );
            prepend(c, rest)
        },
    }
}

/// What `emit_fused_loop` does to the state, where `l` lowers the expressions inside.
#[verifier::opaque]
pub open spec fn emit_fused_loop_spec(
    l: Lower,
    iterable: Temp,
    iterable_ty: &Type,
    read_elem_ty: &Type,
    stages: &List<FuseStage>,
    terminal: &Terminal,
    s: St,
) -> St {
    let (s, counters) = on(
        s,
        filtered_counters_spec(stages, false, terminal_takes_index(terminal), s.b),
    );
    let (s, frame) = on(
        s,
        begin_combinator_loop_spec(
            iterable,
            iterable_ty,
            ElemAccess::Materialize(read_elem_ty.dup()),
            s.b,
        ),
    );
    let (s, cont) = on(s, s.b.alloc_block("fuse_cont"));
    let (s, idx) = on(s, narrow_loop_index_spec(frame.i, s.b));
    let src = TypedTemp { temp: frame.elem, ty: read_elem_ty.dup() };
    let (s, out) = apply_fuse_stages_spec(
        l,
        stages,
        frame.elem,
        read_elem_ty,
        &src,
        true,
        idx,
        &counters,
        cont,
        false,
        s,
    );
    let s = run_fused_terminal_spec(l, terminal, out.val, &out.ty, out.idx, &src, s);
    let s = if !s.b.is_terminated() {
        on_b(s, s.b.terminate(Terminator::Jump(cont)))
    } else {
        s
    };
    let s = on_b(s, s.b.switch_to(cont));
    let s = on_b(s, end_combinator_loop_spec(&frame, LoopFlow::Fallthrough, s.b));
    on_b(s, fm_free_counters_spec(&counters, s.b))
}

/// Emits a loop over the collection that runs the steps, none of which flattens, and then
/// the terminal. Behind a filter the index is the position among the elements that it kept.
pub fn emit_fused_loop(
    iterable: Temp,
    iterable_ty: &Type,
    read_elem_ty: &Type,
    stages: &List<FuseStage>,
    terminal: &Terminal,
    b: &mut FuncBuilder,
    ctx: &mut LowerCtx,
)
    requires
        !chain_has_flatmap(stages),
    ensures
        st(final(b), final(ctx)) == emit_fused_loop_spec(
            lower_at(old(ctx).room.left()),
            iterable,
            iterable_ty,
            read_elem_ty,
            stages,
            terminal,
            st(old(b), old(ctx)),
        ),
        ran(*old(b), *old(ctx), *final(b), *final(ctx)),
        valid(st(old(b), old(ctx)))
            && temp_ok(iterable, old(b)@.temp_types.len())
            && terminal_ok(terminal, old(b)@.temp_types.len())
            ==> valid(st(final(b), final(ctx))),
    decreases old(ctx).room.left(), 5nat, 0nat,
{
    reveal(emit_fused_loop_spec);
    let counters = filtered_counters(stages, false, terminal_takes_index(terminal), b);
    let frame = begin_combinator_loop(
        iterable,
        iterable_ty,
        ElemAccess::Materialize(read_elem_ty.dup()),
        b,
    );
    let cont = b.alloc_block("fuse_cont");
    let idx = narrow_loop_index(frame.i, b);
    let src = TypedTemp { temp: frame.elem, ty: read_elem_ty.dup() };
    let out = apply_fuse_stages(
        stages,
        frame.elem,
        read_elem_ty,
        &src,
        true,
        idx,
        &counters,
        cont,
        false,
        b,
        ctx,
    );
    run_fused_terminal(terminal, out.val, &out.ty, out.idx, &src, b, ctx);
    if !b.is_current_block_terminated() {
        b.terminate(Terminator::Jump(cont));
    }
    b.switch_to(cont);
    end_combinator_loop(&frame, LoopFlow::Fallthrough, b);
    fm_free_counters(&counters, b);
}

/// What `advance_counter` does to the function under construction.
#[verifier::opaque]
pub open spec fn advance_counter_spec(cell: Temp, b: FState) -> (FState, Temp) {
    let (b, cur) = b.cell_get(cell, &Type::Int32);
    let (b, one_c) = b.const_temp(Const::Int(1, Type::Int32));
    let (b, nxt) = b.binary(BinOp::Add, cur, one_c, &Type::Int32, &Type::Int32);
    let b = b.emit(Instruction::CellSet { cell, value: nxt, ty: Type::Int32 });
    (b, cur)
}

/// Reads a counter of values and advances it.
pub fn advance_counter(cell: Temp, b: &mut FuncBuilder) -> (r: Temp)
    ensures
        (final(b)@, r) == advance_counter_spec(cell, old(b)@),
        grown(old(b)@, final(b)@, 0),
        old(b)@.wf() && temp_ok(cell, old(b)@.temp_types.len())
            ==> final(b)@.wf() && temp_ok(r, final(b)@.temp_types.len()),
{
    reveal(advance_counter_spec);
    let cur = b.cell_get(cell, &Type::Int32);
    let one_c = b.const_temp(Const::Int(1, Type::Int32));
    let nxt = b.binary(BinOp::Add, cur, one_c, &Type::Int32, &Type::Int32);
    b.emit(Instruction::CellSet { cell, value: nxt, ty: Type::Int32 });
    cur
}

/// What `fm_next_index` does to the function under construction.
#[verifier::opaque]
pub open spec fn fm_next_index_spec(counters: &List<Option<Temp>>, b: FState) -> (FState, Temp) {
    match first_counter(counters) {
        Some(cell) => advance_counter_spec(cell, b),
        None => b.const_temp(Const::Int(0, Type::Int32)),
    }
}

/// Reads and advances a counter of values; where nothing counts them, zero.
pub fn fm_next_index(counters: &List<Option<Temp>>, b: &mut FuncBuilder) -> (r: Temp)
    ensures
        (final(b)@, r) == fm_next_index_spec(counters, old(b)@),
        grown(old(b)@, final(b)@, 0),
        old(b)@.wf() && otemps_ok(counters, old(b)@.temp_types.len())
            ==> final(b)@.wf() && temp_ok(r, final(b)@.temp_types.len()),
{
    reveal(fm_next_index_spec);
    match first_counter(counters) {
        Some(cell) => advance_counter(cell, b),
        None => b.const_temp(Const::Int(0, Type::Int32)),
    }
}

/// The counter in front, if there is one.
pub open spec fn first_counter_spec(counters: &List<Option<Temp>>) -> Option<Temp> {
    match counters {
        List::Nil => None,
        List::Cons(n) => n.head,
    }
}

/// The counter in front, if there is one.
#[verifier::when_used_as_spec(first_counter_spec)]
pub fn first_counter(counters: &List<Option<Temp>>) -> (r: Option<Temp>)
    ensures
        r == first_counter_spec(counters),
        forall|n: nat| #[trigger] otemps_ok(counters, n) ==> otemp_ok(r, n),
{
    match counters {
        List::Nil => None,
        List::Cons(n) => n.head,
    }
}

/// The counters behind the one in front.
pub open spec fn later_counters_spec(counters: &List<Option<Temp>>) -> List<Option<Temp>> {
    match counters {
        List::Nil => List::Nil,
        List::Cons(n) => n.tail.dup(),
    }
}

/// The counters behind the one in front.
#[verifier::when_used_as_spec(later_counters_spec)]
pub fn later_counters(counters: &List<Option<Temp>>) -> (r: List<Option<Temp>>)
    ensures
        r == later_counters_spec(counters),
        forall|n: nat| otemps_ok(counters, n) ==> #[trigger] otemps_ok(&r, n),
{
    match counters {
        List::Nil => List::Nil,
        List::Cons(n) => n.tail.dup(),
    }
}

/// What `run_flat_terminal` does to the state, where `l` lowers the expressions inside.
#[verifier::opaque]
pub open spec fn run_flat_terminal_spec(
    l: Lower,
    terminal: &Terminal,
    val: Temp,
    val_ty: &Type,
    idx: Temp,
    s: St,
) -> St {
    match terminal {
        Terminal::Run { lam } => {
            let (s, res) = inline_lambda_body_spec(l, lam, &elem_and_index(val, val_ty, idx), s);
            let s = on_b(s, s.b.emit(Instruction::Release { val: res.temp, ty: res.ty.dup() }));
            on_b(s, fm_reclaim_elem_spec(val, val_ty, s.b))
        },
        Terminal::MapInto { lam, out, flat, elem_ty } => {
            let (s, mapped) = inline_lambda_body_spec(l, lam, &elem_and_index(val, val_ty, idx), s);
            let s = on_b(
                s,
                push_output_spec(*out, *flat, elem_ty, mapped.temp, &mapped.ty, false, s.b),
            );
            if mapped.temp != val {
                on_b(s, fm_reclaim_elem_spec(val, val_ty, s.b))
            } else {
                s
            }
        },
        Terminal::FilterInto { lam, out, flat, elem_ty } => {
            let (s, pred) = inline_lambda_body_spec(l, lam, &elem_and_index(val, val_ty, idx), s);
            let (s, keep) = on(s, as_bool_spec(pred.temp, &pred.ty, s.b));
            let (s, keep_block) = on(s, s.b.alloc_block("fm_ffilter_keep"));
            let (s, drop_block) = on(s, s.b.alloc_block("fm_ffilter_drop"));
            let (s, join_block) = on(s, s.b.alloc_block("fm_ffilter_skip"));
            let s = on_b(
                s,
                s.b.terminate(
                    Terminator::CondJump {
                        cond: keep,
                        then_block: keep_block,
                        else_block: drop_block,
                    },
                ),
            );
            let s = on_b(s, s.b.switch_to(keep_block));
            let s = on_b(s, push_output_spec(*out, *flat, elem_ty, val, val_ty, false, s.b));
            let s = on_b(s, fm_reclaim_elem_spec(val, val_ty, s.b));
            let s = on_b(s, s.b.terminate(Terminator::Jump(join_block)));
            let s = on_b(s, s.b.switch_to(drop_block));
            let s = on_b(s, fm_reclaim_elem_spec(val, val_ty, s.b));
            let s = on_b(s, s.b.terminate(Terminator::Jump(join_block)));
            on_b(s, s.b.switch_to(join_block))
        },
        Terminal::PushInto { out, flat, elem_ty } => {
            let s = on_b(
                s,
                push_output_spec(
                    *out,
                    *flat,
                    elem_ty,
                    val,
                    val_ty,
                    is_borrowed_heap_elem(val_ty),
                    s.b,
                ),
            );
            on_b(s, fm_reclaim_elem_spec(val, val_ty, s.b))
        },
        Terminal::ReduceInto { lam, cell, acc_ty } => {
            let (s, cur) = on(s, s.b.cell_get(*cell, acc_ty));
            let args = prepend(
                TypedTemp { temp: cur, ty: acc_ty.dup() },
                elem_and_index(val, val_ty, idx),
            );
            let (s, next) = inline_lambda_body_spec(l, lam, &args, s);
            let (s, acc_next) = on(
                s,
                coerce_arg_to_param_repr_spec(next.temp, &next.ty, acc_ty, s.b),
            );
            let s = on_b(
                s,
                s.b.emit(Instruction::CellSet { cell: *cell, value: acc_next, ty: acc_ty.dup() }),
            );
            on_b(s, fm_reclaim_elem_spec(val, val_ty, s.b))
        },
    }
}

/// Emits what a fused loop with flattening does with a value that came through.
pub fn run_flat_terminal(
    terminal: &Terminal,
    val: Temp,
    val_ty: &Type,
    idx: Temp,
    b: &mut FuncBuilder,
    ctx: &mut LowerCtx,
)
    ensures
        st(final(b), final(ctx)) == run_flat_terminal_spec(
            lower_at(old(ctx).room.left()),
            terminal,
            val,
            val_ty,
            idx,
            st(old(b), old(ctx)),
        ),
        ran(*old(b), *old(ctx), *final(b), *final(ctx)),
        valid(st(old(b), old(ctx)))
            && terminal_ok(terminal, old(b)@.temp_types.len())
            && temp_ok(val, old(b)@.temp_types.len())
            && temp_ok(idx, old(b)@.temp_types.len())
            ==> valid(st(final(b), final(ctx))),
    decreases old(ctx).room.left(), 3nat, 0nat,
{
    reveal(run_flat_terminal_spec);
    match terminal {
        Terminal::Run { lam } => {
            let res = inline_lambda_body(lam, &elem_and_index(val, val_ty, idx), b, ctx);
            b.emit(Instruction::Release { val: res.temp, ty: res.ty.dup() });
            fm_reclaim_elem(val, val_ty, b);
        },
        Terminal::MapInto { lam, out, flat, elem_ty } => {
            let mapped = inline_lambda_body(lam, &elem_and_index(val, val_ty, idx), b, ctx);
            push_output(*out, *flat, elem_ty, mapped.temp, &mapped.ty, false, b);
            if mapped.temp != val {
                fm_reclaim_elem(val, val_ty, b);
            }
        },
        Terminal::FilterInto { lam, out, flat, elem_ty } => {
            let pred = inline_lambda_body(lam, &elem_and_index(val, val_ty, idx), b, ctx);
            let keep = as_bool(pred.temp, &pred.ty, b);
            let keep_block = b.alloc_block("fm_ffilter_keep");
            let drop_block = b.alloc_block("fm_ffilter_drop");
            let join_block = b.alloc_block("fm_ffilter_skip");
            b.terminate(
                Terminator::CondJump { cond: keep, then_block: keep_block, else_block: drop_block },
            );
            b.switch_to(keep_block);
            push_output(*out, *flat, elem_ty, val, val_ty, false, b);
            fm_reclaim_elem(val, val_ty, b);
            b.terminate(Terminator::Jump(join_block));
            b.switch_to(drop_block);
            fm_reclaim_elem(val, val_ty, b);
            b.terminate(Terminator::Jump(join_block));
            b.switch_to(join_block);
        },
        Terminal::PushInto { out, flat, elem_ty } => {
            push_output(*out, *flat, elem_ty, val, val_ty, is_borrowed_heap_elem(val_ty), b);
            fm_reclaim_elem(val, val_ty, b);
        },
        Terminal::ReduceInto { lam, cell, acc_ty } => {
            let cur = b.cell_get(*cell, acc_ty);
            let args = prepend(
                TypedTemp { temp: cur, ty: acc_ty.dup() },
                elem_and_index(val, val_ty, idx),
            );
            let next = inline_lambda_body(lam, &args, b, ctx);
            let acc_next = coerce_arg_to_param_repr(next.temp, &next.ty, acc_ty, b);
            b.emit(Instruction::CellSet { cell: *cell, value: acc_next, ty: acc_ty.dup() });
            fm_reclaim_elem(val, val_ty, b);
        },
    }
}

/// What `fm_filter` does to the state, where `l` lowers the expressions inside.
#[verifier::opaque]
pub open spec fn fm_filter_spec(
    l: Lower,
    lam: &Lambda,
    elem: Temp,
    elem_ty: &Type,
    idx: Temp,
    skip_block: BlockId,
    s: St,
) -> St {
    let (s, pred) = inline_lambda_body_spec(l, lam, &elem_and_index(elem, elem_ty, idx), s);
    let (s, keep) = on(s, as_bool_spec(pred.temp, &pred.ty, s.b));
    let (s, keep_block) = on(s, s.b.alloc_block("fm_keep"));
    let (s, drop_block) = on(s, s.b.alloc_block("fm_drop"));
    let s = on_b(
        s,
        s.b.terminate(
            Terminator::CondJump { cond: keep, then_block: keep_block, else_block: drop_block },
        ),
    );
    let s = on_b(s, s.b.switch_to(drop_block));
    let s = on_b(s, fm_reclaim_elem_spec(elem, elem_ty, s.b));
    let s = on_b(s, s.b.terminate(Terminator::Jump(skip_block)));
    on_b(s, s.b.switch_to(keep_block))
}

/// Emits a step of a loop with flattening that drops an element unless its function holds of
/// it. A dropped element is given back, and control goes to `skip_block`.
pub fn fm_filter(
    lam: &Lambda,
    elem: Temp,
    elem_ty: &Type,
    idx: Temp,
    skip_block: BlockId,
    b: &mut FuncBuilder,
    ctx: &mut LowerCtx,
)
    ensures
        st(final(b), final(ctx)) == fm_filter_spec(
            lower_at(old(ctx).room.left()),
            lam,
            elem,
            elem_ty,
            idx,
            skip_block,
            st(old(b), old(ctx)),
        ),
        ran(*old(b), *old(ctx), *final(b), *final(ctx)),
        valid(st(old(b), old(ctx)))
            && temp_ok(elem, old(b)@.temp_types.len())
            && temp_ok(idx, old(b)@.temp_types.len())
            && skip_block.0 < old(b)@.blocks.len()
            ==> valid(st(final(b), final(ctx))),
    decreases old(ctx).room.left(), 3nat, 0nat,
{
    reveal(fm_filter_spec);
    let pred = inline_lambda_body(lam, &elem_and_index(elem, elem_ty, idx), b, ctx);
    let keep = as_bool(pred.temp, &pred.ty, b);
    let keep_block = b.alloc_block("fm_keep");
    let drop_block = b.alloc_block("fm_drop");
    b.terminate(
        Terminator::CondJump { cond: keep, then_block: keep_block, else_block: drop_block },
    );
    b.switch_to(drop_block);
    fm_reclaim_elem(elem, elem_ty, b);
    b.terminate(Terminator::Jump(skip_block));
    b.switch_to(keep_block);
}

/// What `fm_apply` does to the state, where `l` lowers the expressions inside.
#[verifier::opaque]
pub open spec fn fm_apply_spec(
    l: Lower,
    lam: &Lambda,
    elem: Temp,
    elem_ty: &Type,
    idx: Temp,
    s: St,
) -> (St, TypedTemp) {
    let (s, made) = inline_lambda_body_spec(l, lam, &elem_and_index(elem, elem_ty, idx), s);
    let s = if made.temp != elem {
        on_b(s, fm_reclaim_elem_spec(elem, elem_ty, s.b))
    } else {
        s
    };
    (s, made)
}

/// Emits the function of a step of a loop with flattening, and gives the element back where
/// it is replaced.
pub fn fm_apply(
    lam: &Lambda,
    elem: Temp,
    elem_ty: &Type,
    idx: Temp,
    b: &mut FuncBuilder,
    ctx: &mut LowerCtx,
) -> (r: TypedTemp)
    ensures
        (st(final(b), final(ctx)), r) == fm_apply_spec(
            lower_at(old(ctx).room.left()),
            lam,
            elem,
            elem_ty,
            idx,
            st(old(b), old(ctx)),
        ),
        ran(*old(b), *old(ctx), *final(b), *final(ctx)),
        valid(st(old(b), old(ctx)))
            && temp_ok(elem, old(b)@.temp_types.len())
            && temp_ok(idx, old(b)@.temp_types.len())
            ==> valid(st(final(b), final(ctx))) && typed_temp_ok(&r, final(b)@.temp_types.len()),
    decreases old(ctx).room.left(), 3nat, 0nat,
{
    reveal(fm_apply_spec);
    let made = inline_lambda_body(lam, &elem_and_index(elem, elem_ty, idx), b, ctx);
    if made.temp != elem {
        fm_reclaim_elem(elem, elem_ty, b);
    }
    made
}

/// What `fm_process` does to the state, where `l` lowers the expressions inside.
#[verifier::opaque]
pub open spec fn fm_process_spec(
    l: Lower,
    stages: &List<FuseStage>,
    elem: Temp,
    elem_ty: &Type,
    idx: Temp,
    counters: &List<Option<Temp>>,
    skip_block: BlockId,
    terminal: &Terminal,
    s: St,
) -> St
    decreases stages,
{
    match stages {
        List::Nil => run_flat_terminal_spec(l, terminal, elem, elem_ty, idx, s),
        List::Cons(n) => {
            let later = later_counters(counters);
            match &n.head {
                FuseStage::Filter { lam } => {
                    let s = fm_filter_spec(l, lam, elem, elem_ty, idx, skip_block, s);
                    let (s, next_idx) = on(s, fm_next_index_spec(&later, s.b));
                    fm_process_spec(
                        l,
                        &n.tail,
                        elem,
                        elem_ty,
                        next_idx,
                        &later,
                        skip_block,
                        terminal,
                        s,
                    )
                },
                FuseStage::MapEach { lam, out_elem_ty } => {
                    let (s, mapped) = fm_apply_spec(l, lam, elem, elem_ty, idx, s);
                    let next_ty = mapped_type(&mapped.ty, out_elem_ty);
                    let (s, next_idx) = on(s, fm_next_index_spec(&later, s.b));
                    fm_process_spec(
                        l,
                        &n.tail,
                        mapped.temp,
                        &next_ty,
                        next_idx,
                        &later,
                        skip_block,
                        terminal,
                        s,
                    )
                },
                FuseStage::FlatMap { lam, .. } => {
                    let (s, inner) = fm_apply_spec(l, lam, elem, elem_ty, idx, s);
                    let inner_read_ty = combinator_read_elem_ty_spec(&lam.body, s);
                    let (s, frame) = on(
                        s,
                        begin_combinator_loop_spec(
                            inner.temp,
                            &inner.ty,
                            ElemAccess::Materialize(inner_read_ty.dup()),
                            s.b,
                        ),
                    );
                    let (s, cont) = on(s, s.b.alloc_block("fm_inner_cont"));
                    let (s, inner_idx) = on(s, fm_next_index_spec(&later, s.b));
                    let s = fm_process_spec(
                        l,
                        &n.tail,
                        frame.elem,
                        &inner_read_ty,
                        inner_idx,
                        &later,
                        cont,
                        terminal,
                        s,
                    );
                    let s = if !s.b.is_terminated() {
                        on_b(s, s.b.terminate(Terminator::Jump(cont)))
                    } else {
                        s
                    };
                    let s = on_b(s, s.b.switch_to(cont));
                    let s = on_b(s, end_combinator_loop_spec(&frame, LoopFlow::Fallthrough, s.b));
                    on_b(s, s.b.emit(Instruction::Release { val: inner.temp, ty: inner.ty.dup() }))
                },
            }
        },
    }
}

/// Emits the steps of a fused loop with flattening for one element, and the terminal for
/// each value that comes through. A step that flattens is a loop of its own, whose values go
/// on to the later steps. `counters` count the values before each step, where a step wants
/// to know.
pub fn fm_process(
    stages: &List<FuseStage>,
    elem: Temp,
    elem_ty: &Type,
    idx: Temp,
    counters: &List<Option<Temp>>,
    skip_block: BlockId,
    terminal: &Terminal,
    b: &mut FuncBuilder,
    ctx: &mut LowerCtx,
)
    ensures
        st(final(b), final(ctx)) == fm_process_spec(
            lower_at(old(ctx).room.left()),
            stages,
            elem,
            elem_ty,
            idx,
            counters,
            skip_block,
            terminal,
            st(old(b), old(ctx)),
        ),
        ran(*old(b), *old(ctx), *final(b), *final(ctx)),
        valid(st(old(b), old(ctx)))
            && temp_ok(elem, old(b)@.temp_types.len())
            && temp_ok(idx, old(b)@.temp_types.len())
            && otemps_ok(counters, old(b)@.temp_types.len())
            && terminal_ok(terminal, old(b)@.temp_types.len())
            && skip_block.0 < old(b)@.blocks.len()
            ==> valid(st(final(b), final(ctx))),
    decreases old(ctx).room.left(), 4nat, stages.len(),
{
    reveal(fm_process_spec);
    proof {
        otemps_tail(counters, old(b)@.temp_types.len());
    }
    match stages {
        List::Nil => {
            run_flat_terminal(terminal, elem, elem_ty, idx, b, ctx);
        },
        List::Cons(n) => {
            let later = later_counters(counters);
            match &n.head {
                FuseStage::Filter { lam } => {
                    fm_filter(lam, elem, elem_ty, idx, skip_block, b, ctx);
                    let next_idx = fm_next_index(&later, b);
                    fm_process(
                        &n.tail,
                        elem,
                        elem_ty,
                        next_idx,
                        &later,
                        skip_block,
                        terminal,
                        b,
                        ctx,
                    );
                },
                FuseStage::MapEach { lam, out_elem_ty } => {
                    let mapped = fm_apply(lam, elem, elem_ty, idx, b, ctx);
                    let next_ty = mapped_type(&mapped.ty, out_elem_ty);
                    let next_idx = fm_next_index(&later, b);
                    fm_process(
                        &n.tail,
                        mapped.temp,
                        &next_ty,
                        next_idx,
                        &later,
                        skip_block,
                        terminal,
                        b,
                        ctx,
                    );
                },
                FuseStage::FlatMap { lam, .. } => {
                    let inner = fm_apply(lam, elem, elem_ty, idx, b, ctx);
                    let inner_read_ty = combinator_read_elem_ty(&lam.body, b, ctx);
                    let frame = begin_combinator_loop(
                        inner.temp,
                        &inner.ty,
                        ElemAccess::Materialize(inner_read_ty.dup()),
                        b,
                    );
                    let cont = b.alloc_block("fm_inner_cont");
                    let inner_idx = fm_next_index(&later, b);
                    fm_process(
                        &n.tail,
                        frame.elem,
                        &inner_read_ty,
                        inner_idx,
                        &later,
                        cont,
                        terminal,
                        b,
                        ctx,
                    );
                    if !b.is_current_block_terminated() {
                        b.terminate(Terminator::Jump(cont));
                    }
                    b.switch_to(cont);
                    end_combinator_loop(&frame, LoopFlow::Fallthrough, b);
                    b.emit(Instruction::Release { val: inner.temp, ty: inner.ty.dup() });
                },
            }
        },
    }
}

/// The function of a step wants to know the index.
pub open spec fn stage_takes_index_spec(stage: &FuseStage) -> bool {
    match stage {
        FuseStage::MapEach { lam, .. } => takes_two(&lam.params),
        FuseStage::Filter { lam } => takes_two(&lam.params),
        FuseStage::FlatMap { lam, .. } => takes_two(&lam.params),
    }
}

/// Whether the function of a step wants to know the index.
#[verifier::when_used_as_spec(stage_takes_index_spec)]
pub fn stage_takes_index(stage: &FuseStage) -> (r: bool)
    ensures
        r == stage_takes_index_spec(stage),
{
    match stage {
        FuseStage::MapEach { lam, .. } => takes_two(&lam.params),
        FuseStage::Filter { lam } => takes_two(&lam.params),
        FuseStage::FlatMap { lam, .. } => takes_two(&lam.params),
    }
}

/// What `fm_counter` does to the function under construction.
#[verifier::opaque]
pub open spec fn fm_counter_spec(wanted: bool, b: FState) -> (FState, Option<Temp>) {
    if wanted {
        let (b, zero) = b.const_temp(Const::Int(0, Type::Int32));
        let (b, cell) = b.alloc_temp(json());
        let b = b.emit(Instruction::MakeCell { dst: cell, init: zero, ty: Type::Int32 });
        (b, Some(cell))
    } else {
        (b, None)
    }
}

/// Makes a counter that starts at zero, where one is wanted.
pub fn fm_counter(wanted: bool, b: &mut FuncBuilder) -> (r: Option<Temp>)
    ensures
        (final(b)@, r) == fm_counter_spec(wanted, old(b)@),
        grown(old(b)@, final(b)@, 0),
        old(b)@.wf() ==> final(b)@.wf() && otemp_ok(r, final(b)@.temp_types.len()),
{
    reveal(fm_counter_spec);
    if wanted {
        let zero = b.const_temp(Const::Int(0, Type::Int32));
        let cell = b.alloc_temp(json());
        b.emit(Instruction::MakeCell { dst: cell, init: zero, ty: Type::Int32 });
        Some(cell)
    } else {
        None
    }
}

/// What `fm_later_counters` does to the function under construction.
#[verifier::opaque]
pub open spec fn fm_later_counters_spec(
    stages: &List<FuseStage>,
    terminal_takes_index: bool,
    b: FState,
) -> (FState, List<Option<Temp>>)
    decreases stages,
{
    match stages {
        List::Nil => {
            let (b, c) = fm_counter_spec(terminal_takes_index, b);
            (b, one(c))
        },
        List::Cons(n) => {
            let (b, c) = fm_counter_spec(stage_takes_index(&n.head), b);
            let (b, rest) = fm_later_counters_spec(&n.tail, terminal_takes_index, b);
            (b, prepend(c, rest))
        },
    }
}

/// Makes the counters of the values before each of the steps and before the terminal.
pub fn fm_later_counters(
    stages: &List<FuseStage>,
    terminal_takes_index: bool,
    b: &mut FuncBuilder,
) -> (r: List<Option<Temp>>)
    ensures
        (final(b)@, r) == fm_later_counters_spec(stages, terminal_takes_index, old(b)@),
        grown(old(b)@, final(b)@, 0),
        old(b)@.wf() ==> final(b)@.wf() && otemps_ok(&r, final(b)@.temp_types.len()),
    decreases stages,
{
    reveal(fm_later_counters_spec);
    match stages {
        List::Nil => {
            let c = fm_counter(terminal_takes_index, b);
            one(c)
        },
        List::Cons(n) => {
            let c = fm_counter(stage_takes_index(&n.head), b);
            let rest = fm_later_counters(&n.tail, terminal_takes_index, b);
            prepend(c, rest)
        },
    }
}

/// What `fm_alloc_counters` does to the function under construction.
#[verifier::opaque]
pub open spec fn fm_alloc_counters_spec(
    stages: &List<FuseStage>,
    terminal_takes_index: bool,
    b: FState,
) -> (FState, List<Option<Temp>>) {
    match stages {
        List::Nil => (b, one(None)),
        List::Cons(n) => {
            let (b, rest) = fm_later_counters_spec(&n.tail, terminal_takes_index, b);
            (b, prepend(None, rest))
        },
    }
}

/// Makes the counters of a fused loop with flattening. The values before the first step are
/// the elements of the collection, which the loop itself counts.
pub fn fm_alloc_counters(
    stages: &List<FuseStage>,
    terminal_takes_index: bool,
    b: &mut FuncBuilder,
) -> (r: List<Option<Temp>>)
    ensures
        (final(b)@, r) == fm_alloc_counters_spec(stages, terminal_takes_index, old(b)@),
        grown(old(b)@, final(b)@, 0),
        old(b)@.wf() ==> final(b)@.wf() && otemps_ok(&r, final(b)@.temp_types.len()),
{
    reveal(fm_alloc_counters_spec);
    match stages {
        List::Nil => one(None),
        List::Cons(n) => {
            let rest = fm_later_counters(&n.tail, terminal_takes_index, b);
            prepend(None, rest)
        },
    }
}

/// What `fm_free_counters` does to the function under construction.
#[verifier::opaque]
pub open spec fn fm_free_counters_spec(counters: &List<Option<Temp>>, b: FState) -> FState
    decreases counters,
{
    match counters {
        List::Nil => b,
        List::Cons(n) => {
            let b = match n.head {
                Some(cell) => b.emit(Instruction::FreeCell { cell, ty: Type::Int32 }),
                None => b,
            };
            fm_free_counters_spec(&n.tail, b)
        },
    }
}

/// Frees the counters.
pub fn fm_free_counters(counters: &List<Option<Temp>>, b: &mut FuncBuilder)
    ensures
        final(b)@ == fm_free_counters_spec(counters, old(b)@),
        grown(old(b)@, final(b)@, 0),
        old(b)@.wf() && otemps_ok(counters, old(b)@.temp_types.len()) ==> final(b)@.wf(),
    decreases counters,
{
    reveal(fm_free_counters_spec);
    proof {
        otemps_tail(counters, old(b)@.temp_types.len());
    }
    match counters {
        List::Nil => {},
        List::Cons(n) => {
            match n.head {
                Some(cell) => {
                    b.emit(Instruction::FreeCell { cell, ty: Type::Int32 });
                },
                None => {},
            }
            fm_free_counters(&n.tail, b);
        },
    }
}

/// What `emit_flatmap_fused_loop` does to the state, where `l` lowers the expressions inside.
#[verifier::opaque]
pub open spec fn emit_flatmap_fused_loop_spec(
    l: Lower,
    iterable: Temp,
    iterable_ty: &Type,
    read_elem_ty: &Type,
    stages: &List<FuseStage>,
    terminal_takes_index: bool,
    terminal: &Terminal,
    s: St,
) -> St {
    let (s, counters) = on(s, fm_alloc_counters_spec(stages, terminal_takes_index, s.b));
    let (s, frame) = on(
        s,
        begin_combinator_loop_spec(
            iterable,
            iterable_ty,
            ElemAccess::Materialize(read_elem_ty.dup()),
            s.b,
        ),
    );
    let (s, cont) = on(s, s.b.alloc_block("fm_src_cont"));
    let (s, idx) = on(s, narrow_loop_index_spec(frame.i, s.b));
    let s = fm_process_spec(l, stages, frame.elem, read_elem_ty, idx, &counters, cont, terminal, s);
    let s = if !s.b.is_terminated() {
        on_b(s, s.b.terminate(Terminator::Jump(cont)))
    } else {
        s
    };
    let s = on_b(s, s.b.switch_to(cont));
    let s = on_b(s, end_combinator_loop_spec(&frame, LoopFlow::Fallthrough, s.b));
    on_b(s, fm_free_counters_spec(&counters, s.b))
}

/// Emits a loop over the collection that runs the steps, some of which flatten, and then the
/// terminal.
pub fn emit_flatmap_fused_loop(
    iterable: Temp,
    iterable_ty: &Type,
    read_elem_ty: &Type,
    stages: &List<FuseStage>,
    terminal_takes_index: bool,
    terminal: &Terminal,
    b: &mut FuncBuilder,
    ctx: &mut LowerCtx,
)
    ensures
        st(final(b), final(ctx)) == emit_flatmap_fused_loop_spec(
            lower_at(old(ctx).room.left()),
            iterable,
            iterable_ty,
            read_elem_ty,
            stages,
            terminal_takes_index,
            terminal,
            st(old(b), old(ctx)),
        ),
        ran(*old(b), *old(ctx), *final(b), *final(ctx)),
        valid(st(old(b), old(ctx)))
            && temp_ok(iterable, old(b)@.temp_types.len())
            && terminal_ok(terminal, old(b)@.temp_types.len())
            ==> valid(st(final(b), final(ctx))),
    decreases old(ctx).room.left(), 5nat, 0nat,
{
    reveal(emit_flatmap_fused_loop_spec);
    let counters = fm_alloc_counters(stages, terminal_takes_index, b);
    let frame = begin_combinator_loop(
        iterable,
        iterable_ty,
        ElemAccess::Materialize(read_elem_ty.dup()),
        b,
    );
    let cont = b.alloc_block("fm_src_cont");
    let idx = narrow_loop_index(frame.i, b);
    fm_process(stages, frame.elem, read_elem_ty, idx, &counters, cont, terminal, b, ctx);
    if !b.is_current_block_terminated() {
        b.terminate(Terminator::Jump(cont));
    }
    b.switch_to(cont);
    end_combinator_loop(&frame, LoopFlow::Fallthrough, b);
    fm_free_counters(&counters, b);
}

} // verus!
