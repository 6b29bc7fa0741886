//! The steps of a fused loop without flattening, as they run.

use crate::builder::FState;
use crate::coerce::{box_to_json_spec, push_output_spec};
use crate::ctx::{Lower, St};
use crate::flowing::{
    Flow, Meaning, Seen, arriving, arriving_tracks, counted, end_effect, first_of_later, flow,
    flow_all, last_value_flows_last, later_of, let_through, own_counters, placed, step_lambda,
    taken, tracks,
};
use crate::fuse::{
    Terminal, apply_fuse_stages_spec, carried_index_spec, first_counter, fm_next_index_spec,
    fuse_filter_spec, fuse_map_spec, later_counters, reclaim_fused_spec, run_fused_terminal_spec,
    stage_filters, terminal_takes_index,
};
use crate::fusion::{
    advance_runs, all_known, bodies_mean, branched, came_through, emit_local, end_known,
    first_wants, fits, inlined, later_served, next_index_local, other_branch, push_local, push_runs,
    ran_in_turn, ran_on, served, some_run_at, step_body_runs, truth_local, truth_runs,
};
use crate::ir::{BasicBlock, BlockId, FlatElemKind, Instruction, Temp, Terminator};
use crate::laws::element_is_given_back_once;
use crate::list::List;
use crate::looping::{halves_stand, part_stands};
use crate::loops::{TypedTemp, as_bool_spec, elem_and_index, fm_reclaim_elem_spec};
use crate::recognize::{FuseStage, Lambda, chain_has_flatmap, takes_two};
use crate::run::{
    Oracle, Run, Value, after_instr, comes_further, comes_one_step, comes_to, comes_to_itself,
    current, emitted_runs, goes_on, instrs, is_at, is_here, is_open, local_adds_up, same_below,
    stays_local, step,
};
use crate::types::Type;
use vstd::prelude::*;

verus! {

// Giving back what is no longer needed.

/// A value is given back, or not.
pub open spec fn perhaps_released(b: FState, really: bool, val: Temp, ty: &Type) -> FState {
    if really {
        b.emit(Instruction::Release { val, ty: *ty })
    } else {
        b
    }
}

/// Giving back a value stays in the block.
pub(crate) proof fn release_local(b: FState, really: bool, val: Temp, ty: &Type)
    ensures
        ({
            let b2 = perhaps_released(b, really, val, ty);
            &&& stays_local(b, b2)
            &&& b2.temp_types == b.temp_types
            &&& b2.blocks.len() == b.blocks.len()
            &&& b2.env.current_block == b.env.current_block
            &&& is_open(b) ==> goes_on(b, b2)
        }),
{
    reveal(FState::emit);
    reveal_with_fuel(instrs, 2);
}

/// Giving back a value changes nothing that counts here.
pub(crate) proof fn release_runs(
    b: FState,
    really: bool,
    val: Temp,
    ty: &Type,
    code: Seq<BasicBlock>,
    sem: Oracle,
    r: Run,
) -> (r2: Run)
    requires
        is_open(b),
        is_here(perhaps_released(b, really, val, ty), code),
        is_at(b, r),
    ensures
        ran_on(b, perhaps_released(b, really, val, ty), code, sem, r, r2),
        r2.mem == r.mem,
        r2.vals == r.vals,
{
    if really {
        let i = Instruction::Release { val, ty: *ty };
        emitted_runs(b, i, code, sem, r);
        after_instr(sem, i, r)
    } else {
        comes_to_itself(code, sem, r);
        r
    }
}

/// An element is given back where its type says so.
proof fn reclaim_as_release(elem: Temp, elem_ty: &Type, b: FState) -> (really: bool)
    ensures
        fm_reclaim_elem_spec(elem, elem_ty, b) == perhaps_released(b, really, elem, elem_ty),
{
    element_is_given_back_once(elem, elem_ty, b);
    fm_reclaim_elem_spec(elem, elem_ty, b) == b.emit(
        Instruction::Release { val: elem, ty: *elem_ty },
    )
}

/// What a step that drops elements gives back.
pub open spec fn dropped(
    b: FState,
    src: &TypedTemp,
    src_alive: bool,
    elem: Temp,
    elem_ty: &Type,
) -> FState {
    let b = if src_alive {
        fm_reclaim_elem_spec(src.temp, &src.ty, b)
    } else {
        b
    };
    perhaps_released(b, elem != src.temp, elem, elem_ty)
}

/// Giving back what is dropped stays in the block.
proof fn dropped_local(b: FState, src: &TypedTemp, src_alive: bool, elem: Temp, elem_ty: &Type)
    ensures
        ({
            let b2 = dropped(b, src, src_alive, elem, elem_ty);
            &&& stays_local(b, b2)
            &&& b2.temp_types == b.temp_types
            &&& b2.blocks.len() == b.blocks.len()
            &&& is_open(b) ==> goes_on(b, b2)
        }),
{
    let really = reclaim_as_release(src.temp, &src.ty, b);
    let b1 = perhaps_released(b, src_alive && really, src.temp, &src.ty);
    release_local(b, src_alive && really, src.temp, &src.ty);
    release_local(b1, elem != src.temp, elem, elem_ty);
    local_adds_up(b, b1, dropped(b, src, src_alive, elem, elem_ty));
}

/// Giving back what is dropped changes nothing that counts here.
proof fn dropped_runs(
    b: FState,
    src: &TypedTemp,
    src_alive: bool,
    elem: Temp,
    elem_ty: &Type,
    code: Seq<BasicBlock>,
    sem: Oracle,
    r: Run,
) -> (r2: Run)
    requires
        is_open(b),
        is_here(dropped(b, src, src_alive, elem, elem_ty), code),
        is_at(b, r),
    ensures
        ran_on(b, dropped(b, src, src_alive, elem, elem_ty), code, sem, r, r2),
        r2.mem == r.mem,
        r2.vals == r.vals,
{
    let really = src_alive && reclaim_as_release(src.temp, &src.ty, b);
    let b1 = perhaps_released(b, really, src.temp, &src.ty);
    let b2 = dropped(b, src, src_alive, elem, elem_ty);
    release_local(b, really, src.temp, &src.ty);
    let apart = elem != src.temp;
    let r0 = release_runs(b1, apart, elem, elem_ty, code, sem, some_run_at(b1, r));
    let r1 = release_runs(b, really, src.temp, &src.ty, code, sem, r);
    let r2 = release_runs(b1, apart, elem, elem_ty, code, sem, r1);
    ran_in_turn(b, b1, b2, code, sem, r, r1, r2);
    r2
}

// Steps that drop elements.

/// How the blocks lie where code goes on in the second one up to `b2`.
proof fn branch_around_lies(
    b: FState,
    cond: Temp,
    first: &'static str,
    second: &'static str,
    b2: FState,
    to: BlockId,
)
    requires
        is_open(b),
        b.blocks.len() + 2 < u32::MAX,
        is_open(branched(b, cond, first, second).0) ==> goes_on(
            branched(b, cond, first, second).0,
            b2,
        ),
        b2.temp_types == branched(b, cond, first, second).0.temp_types,
    ensures
        ({
            let (b1, x, y) = branched(b, cond, first, second);
            let b3 = other_branch(b2, to, x);
            let n = b.blocks.len() as int;
            let k = b.env.current_block.0 as int;
            &&& x.0 == n && y.0 == n + 1
            &&& is_open(b1) && b1.env.current_block == y && current(b1) =~= Seq::empty()
            &&& b1.temp_types == b.temp_types && b3.temp_types == b.temp_types
            &&& is_open(b3) && b3.env.current_block == x && current(b3) =~= Seq::empty()
            &&& b3.blocks.len() == n + 2
            &&& b3.blocks[k].code == b.blocks[k].code
            &&& b3.blocks[k].term == (Terminator::CondJump { cond, then_block: x, else_block: y })
            &&& b3.blocks[n + 1].code == b2.blocks[n + 1].code
            &&& b3.blocks[n + 1].term == Terminator::Jump(to)
            &&& b2.env.current_block == y && b2.blocks.len() == n + 2
            &&& stays_local(b, b3)
        }),
{
    reveal(FState::alloc_block);
    reveal(FState::terminate);
    reveal(FState::switch_to);
}

/// A step that drops elements stays local.
proof fn drop_local(
    l: Lower,
    lam: &Lambda,
    elem: Temp,
    elem_ty: &Type,
    src: &TypedTemp,
    src_alive: bool,
    idx: Temp,
    skip_block: BlockId,
    s: St,
    code: Seq<BasicBlock>,
    sem: Oracle,
    m: Meaning,
)
    requires
        bodies_mean(l, code, sem, m),
        (m.known)(*lam),
    ensures
        ({
            let s2 = fuse_filter_spec(
                l,
                lam,
                elem,
                elem_ty,
                src,
                src_alive,
                idx,
                skip_block,
                false,
                s,
            ).0;
            stays_local(s.b, s2.b)
        }),
{
    reveal(fuse_filter_spec);
    let (s1, pred) = inlined(l, *lam, elem_and_index(elem, elem_ty, idx), s);
    let (b2, keep) = as_bool_spec(pred.temp, &pred.ty, s1.b);
    let (b3, x, y) = branched(b2, keep, "fuse_keep", "fuse_drop");
    let b4 = dropped(b3, src, src_alive, elem, elem_ty);
    let last = fuse_filter_spec(
        l,
        lam,
        elem,
        elem_ty,
        src,
        src_alive,
        idx,
        skip_block,
        false,
        s,
    ).0.b;
    assert(last == other_branch(b4, skip_block, x));
    truth_local(pred.temp, &pred.ty, s1.b);
    dropped_local(b3, src, src_alive, elem, elem_ty);
    assert(b2.blocks.len() <= last.blocks.len() && last.temp_types == b2.temp_types && (
    last.blocks.len() < u32::MAX ==> b2.blocks.len() + 2 < u32::MAX)) by {
        reveal(FState::alloc_block);
        reveal(FState::terminate);
        reveal(FState::switch_to);
    }
    if last.blocks.len() < u32::MAX && is_open(b2) {
        branch_around_lies(b2, keep, "fuse_keep", "fuse_drop", b4, skip_block);
    }
    local_adds_up(s.b, s1.b, b2);
    local_adds_up(s.b, b2, last);
}

/// A step that drops elements runs: it goes on where its function holds of the element, else it
/// skips.
proof fn drop_runs(
    l: Lower,
    lam: &Lambda,
    elem: Temp,
    elem_ty: &Type,
    src: &TypedTemp,
    src_alive: bool,
    idx: Temp,
    skip_block: BlockId,
    s: St,
    code: Seq<BasicBlock>,
    sem: Oracle,
    m: Meaning,
    x: Value,
    pos: int,
    r: Run,
) -> (r2: Run)
    requires
        bodies_mean(l, code, sem, m),
        (m.known)(*lam),
        fits(m, s.b, r),
        is_open(s.b),
        ({
            let s2 = fuse_filter_spec(
                l,
                lam,
                elem,
                elem_ty,
                src,
                src_alive,
                idx,
                skip_block,
                false,
                s,
            ).0;
            &&& s2.b.blocks.len() < u32::MAX
            &&& s2.b.temp_types.len() < u32::MAX
            &&& part_stands(s.b, s2.b, code)
        }),
        is_at(s.b, r),
        r.vals[elem] == x,
        takes_two(&lam.params) ==> r.vals[idx] == Value::Number(pos),
    ensures
        ({
            let s2 = fuse_filter_spec(
                l,
                lam,
                elem,
                elem_ty,
                src,
                src_alive,
                idx,
                skip_block,
                false,
                s,
            ).0;
            let given = taken(*lam, placed(x, pos));
            &&& comes_to(code, sem, r, r2)
            &&& if (m.value)(*lam, given) == Value::Truth(true) {
                is_at(s2.b, r2)
            } else {
                r2.block == skip_block && r2.at == 0
            }
            &&& is_open(s2.b)
            &&& same_below(s.b, r, r2)
            &&& r2.mem == (m.effect)(*lam, given, r.mem)
        }),
{
    reveal(fuse_filter_spec);
    let (s1, pred) = inlined(l, *lam, elem_and_index(elem, elem_ty, idx), s);
    let (b2, keep) = as_bool_spec(pred.temp, &pred.ty, s1.b);
    let (b3, on, off) = branched(b2, keep, "fuse_keep", "fuse_drop");
    let b4 = dropped(b3, src, src_alive, elem, elem_ty);
    let last = fuse_filter_spec(
        l,
        lam,
        elem,
        elem_ty,
        src,
        src_alive,
        idx,
        skip_block,
        false,
        s,
    ).0.b;
    assert(last == other_branch(b4, skip_block, on));
    truth_local(pred.temp, &pred.ty, s1.b);
    dropped_local(b3, src, src_alive, elem, elem_ty);
    assert(b2.blocks.len() + 2 < u32::MAX && last.temp_types == b2.temp_types) by {
        reveal(FState::alloc_block);
        reveal(FState::terminate);
        reveal(FState::switch_to);
    }
    assert(is_open(s1.b) && is_open(b2));
    branch_around_lies(b2, keep, "fuse_keep", "fuse_drop", b4, skip_block);
    local_adds_up(s1.b, b2, last);
    halves_stand(s.b, s1.b, last, code);
    halves_stand(s1.b, b2, last, code);
    let r1 = step_body_runs(l, lam, elem, elem_ty, idx, s, code, sem, m, x, pos, r);
    let r2 = truth_runs(pred.temp, &pred.ty, s1.b, code, sem, r1);
    comes_further(code, sem, r, r1, r2);
    let k = b2.env.current_block.0 as int;
    assert(code[k] == last.blocks[k]);
    assert(code[off.0 as int] == last.blocks[off.0 as int]);
    let r3 = step(code, sem, r2);
    comes_one_step(code, sem, r2);
    comes_further(code, sem, r, r2, r3);
    if r2.vals[keep] == Value::Truth(true) {
        r3
    } else {
        assert(is_here(b4, code));
        let r4 = dropped_runs(b3, src, src_alive, elem, elem_ty, code, sem, r3);
        let r5 = step(code, sem, r4);
        comes_one_step(code, sem, r4);
        comes_further(code, sem, r, r3, r4);
        comes_further(code, sem, r, r4, r5);
        r5
    }
}

// Steps that replace elements.

/// A step that replaces elements, by what is given back in it.
proof fn replaces(
    l: Lower,
    lam: &Lambda,
    out_elem_ty: &Type,
    elem: Temp,
    elem_ty: &Type,
    src: &TypedTemp,
    idx: Temp,
    s: St,
) -> (r: (bool, Temp, Type))
    ensures
        ({
            let (s1, mapped) = inlined(l, *lam, elem_and_index(elem, elem_ty, idx), s);
            let (s2, t) = fuse_map_spec(l, lam, out_elem_ty, elem, elem_ty, src, idx, s);
            &&& s2.b == perhaps_released(s1.b, r.0, r.1, &r.2)
            &&& t.temp == mapped.temp
        }),
{
    reveal(fuse_map_spec);
    let (s1, mapped) = inlined(l, *lam, elem_and_index(elem, elem_ty, idx), s);
    if mapped.temp != elem && mapped.temp != src.temp {
        if elem != src.temp {
            (true, elem, *elem_ty)
        } else {
            (reclaim_as_release(src.temp, &src.ty, s1.b), src.temp, src.ty)
        }
    } else {
        (false, elem, *elem_ty)
    }
}

/// A step that replaces elements stays local.
proof fn map_local(
    l: Lower,
    lam: &Lambda,
    out_elem_ty: &Type,
    elem: Temp,
    elem_ty: &Type,
    src: &TypedTemp,
    idx: Temp,
    s: St,
    code: Seq<BasicBlock>,
    sem: Oracle,
    m: Meaning,
)
    requires
        bodies_mean(l, code, sem, m),
        (m.known)(*lam),
    ensures
        stays_local(s.b, fuse_map_spec(l, lam, out_elem_ty, elem, elem_ty, src, idx, s).0.b),
{
    let s1 = inlined(l, *lam, elem_and_index(elem, elem_ty, idx), s).0;
    let g = replaces(l, lam, out_elem_ty, elem, elem_ty, src, idx, s);
    release_local(s1.b, g.0, g.1, &g.2);
    local_adds_up(s.b, s1.b, perhaps_released(s1.b, g.0, g.1, &g.2));
}

/// A step that replaces elements runs.
proof fn map_runs(
    l: Lower,
    lam: &Lambda,
    out_elem_ty: &Type,
    elem: Temp,
    elem_ty: &Type,
    src: &TypedTemp,
    idx: Temp,
    s: St,
    code: Seq<BasicBlock>,
    sem: Oracle,
    m: Meaning,
    x: Value,
    pos: int,
    r: Run,
) -> (r2: Run)
    requires
        bodies_mean(l, code, sem, m),
        (m.known)(*lam),
        fits(m, s.b, r),
        is_open(s.b),
        ({
            let s2 = fuse_map_spec(l, lam, out_elem_ty, elem, elem_ty, src, idx, s).0;
            &&& s2.b.blocks.len() < u32::MAX
            &&& s2.b.temp_types.len() < u32::MAX
            &&& part_stands(s.b, s2.b, code)
        }),
        is_at(s.b, r),
        r.vals[elem] == x,
        takes_two(&lam.params) ==> r.vals[idx] == Value::Number(pos),
    ensures
        ({
            let (s2, t) = fuse_map_spec(l, lam, out_elem_ty, elem, elem_ty, src, idx, s);
            let given = taken(*lam, placed(x, pos));
            &&& is_open(s2.b)
            &&& came_through(s.b, s2.b, code, sem, r, r2)
            &&& t.temp.0 < s2.b.temp_types.len()
            &&& r2.vals[t.temp] == (m.value)(*lam, given)
            &&& r2.mem == (m.effect)(*lam, given, r.mem)
        }),
{
    let s1 = inlined(l, *lam, elem_and_index(elem, elem_ty, idx), s).0;
    let g = replaces(l, lam, out_elem_ty, elem, elem_ty, src, idx, s);
    let last = perhaps_released(s1.b, g.0, g.1, &g.2);
    release_local(s1.b, g.0, g.1, &g.2);
    halves_stand(s.b, s1.b, last, code);
    let r1 = step_body_runs(l, lam, elem, elem_ty, idx, s, code, sem, m, x, pos, r);
    let r2 = release_runs(s1.b, g.0, g.1, &g.2, code, sem, r1);
    comes_further(code, sem, r, r1, r2);
    r2
}

// Positions.

/// The position before the next step stays local.
proof fn carried_local(counters: &List<Option<Temp>>, idx: Temp, b: FState)
    ensures
        stays_local(b, carried_index_spec(counters, idx, b).0),
{
    reveal(carried_index_spec);
    next_index_local(counters, b);
    reveal(fm_next_index_spec);
}

/// The position before the next step: counted, where it is, else as before.
proof fn carried_runs(
    counters: &List<Option<Temp>>,
    idx: Temp,
    b: FState,
    code: Seq<BasicBlock>,
    sem: Oracle,
    r: Run,
    pos: int,
) -> (r2: Run)
    requires
        is_open(b),
        carried_index_spec(counters, idx, b).0.temp_types.len() < u32::MAX,
        is_here(carried_index_spec(counters, idx, b).0, code),
        is_at(b, r),
        idx.0 < b.temp_types.len(),
        first_counter(counters) is Some ==> r.mem.cells[first_counter(counters)->Some_0]
            == Value::Number(pos),
    ensures
        ({
            let (b2, t) = carried_index_spec(counters, idx, b);
            &&& ran_on(b, b2, code, sem, r, r2)
            &&& r2.mem == counted(first_counter(counters), pos, r.mem)
            &&& r2.vals[t] == if first_counter(counters) is Some { Value::Number(pos) } else {
                r.vals[idx]
            }
            &&& t.0 < b2.temp_types.len()
        }),
{
    reveal(carried_index_spec);
    match first_counter(counters) {
        Some(cell) => advance_runs(cell, b, code, sem, r, pos),
        None => {
            comes_to_itself(code, sem, r);
            r
        },
    }
}

// The end of the chain.

/// A loop without flattening ends its chain this way.
pub open spec fn ends_straight(terminal: &Terminal) -> bool {
    terminal is Run || terminal is MapInto || terminal is FilterInto
}

/// A value is pushed or not: where it is pushed, and where code goes on.
pub open spec fn perhaps_pushed(
    cond: Temp,
    out: Temp,
    flat: Option<FlatElemKind>,
    elem_ty: &Type,
    val: Temp,
    val_ty: &Type,
    b: FState,
) -> (FState, FState) {
    let (b, keep_block) = b.alloc_block("ffilter_keep");
    let (b, join_block) = b.alloc_block("ffilter_skip");
    let term = Terminator::CondJump { cond, then_block: keep_block, else_block: join_block };
    let first = b.terminate(term).switch_to(keep_block);
    let b = push_output_spec(out, flat, elem_ty, val, val_ty, false, first);
    (first, b.terminate(Terminator::Jump(join_block)).switch_to(join_block))
}

/// How the blocks lie in which a value is pushed or not.
proof fn perhaps_pushed_lies(
    cond: Temp,
    out: Temp,
    flat: Option<FlatElemKind>,
    elem_ty: &Type,
    val: Temp,
    val_ty: &Type,
    b: FState,
)
    requires
        is_open(b),
        b.blocks.len() + 2 < u32::MAX,
        perhaps_pushed(cond, out, flat, elem_ty, val, val_ty, b).1.temp_types.len() < u32::MAX,
    ensures
        ({
            let (first, last) = perhaps_pushed(cond, out, flat, elem_ty, val, val_ty, b);
            let mid = push_output_spec(out, flat, elem_ty, val, val_ty, false, first);
            let n = b.blocks.len() as int;
            let k = b.env.current_block.0 as int;
            &&& is_open(first) && first.env.current_block.0 == n && current(first) =~= Seq::empty()
            &&& is_open(last) && last.env.current_block.0 == n + 1 && current(last) =~= Seq::empty()
            &&& last.blocks.len() == n + 2
            &&& first.temp_types == b.temp_types && b.temp_types.len() <= mid.temp_types.len()
            &&& mid.temp_types == last.temp_types
            &&& mid.env.current_block.0 == n && mid.blocks.len() == n + 2
            &&& last.blocks[k].code == b.blocks[k].code
            &&& last.blocks[k].term == (Terminator::CondJump {
                cond,
                then_block: BlockId(n as u32),
                else_block: BlockId((n + 1) as u32),
            })
            &&& last.blocks[n].code == mid.blocks[n].code
            &&& last.blocks[n].term == Terminator::Jump(BlockId((n + 1) as u32))
            &&& stays_local(b, last)
        }),
{
    let (first, last) = perhaps_pushed(cond, out, flat, elem_ty, val, val_ty, b);
    let mid = push_output_spec(out, flat, elem_ty, val, val_ty, false, first);
    push_local(out, flat, elem_ty, val, val_ty, false, first);
    reveal(FState::alloc_block);
    reveal(FState::terminate);
    reveal(FState::switch_to);
    assert(mid.blocks.len() == first.blocks.len() && mid.env.current_block
        == first.env.current_block) by {
        reveal(push_output_spec);
        reveal(box_to_json_spec);
        reveal(FState::coerce);
        reveal(FState::alloc_temp);
        reveal(FState::emit);
    }
    let n = b.blocks.len() as int;
    assert(is_open(first) && first.env.current_block.0 == n);
    assert(mid.blocks[n + 1] == first.blocks[n + 1]);
    assert forall|j: int| 0 <= j < n implies #[trigger] mid.blocks[j] == first.blocks[j] by {}
}

/// Giving back the value that came through, by what is given back.
proof fn gives_back(val: Temp, val_ty: &Type, src: &TypedTemp, b: FState) -> (r: (bool, Temp, Type))
    ensures
        reclaim_fused_spec(val, val_ty, src, b) == perhaps_released(b, r.0, r.1, &r.2),
{
    reveal(reclaim_fused_spec);
    if val == src.temp {
        (reclaim_as_release(src.temp, &src.ty, b), src.temp, src.ty)
    } else {
        (true, val, *val_ty)
    }
}

/// The end of the chain stays local.
proof fn straight_end_local(
    l: Lower,
    terminal: &Terminal,
    val: Temp,
    val_ty: &Type,
    idx: Temp,
    src: &TypedTemp,
    s: St,
    code: Seq<BasicBlock>,
    sem: Oracle,
    m: Meaning,
)
    requires
        bodies_mean(l, code, sem, m),
        end_known(m, terminal),
        ends_straight(terminal),
    ensures
        stays_local(s.b, run_fused_terminal_spec(l, terminal, val, val_ty, idx, src, s).b),
{
    reveal(run_fused_terminal_spec);
    let args = elem_and_index(val, val_ty, idx);
    let last = run_fused_terminal_spec(l, terminal, val, val_ty, idx, src, s).b;
    match terminal {
        Terminal::Run { lam } => {
            let (s1, res) = inlined(l, *lam, args, s);
            let i = Instruction::Release { val: res.temp, ty: res.ty };
            let b2 = s1.b.emit(i);
            emit_local(s1.b, i);
            let g = gives_back(val, val_ty, src, b2);
            release_local(b2, g.0, g.1, &g.2);
            local_adds_up(s.b, s1.b, b2);
            local_adds_up(s.b, b2, last);
        },
        Terminal::MapInto { lam, out, flat, elem_ty } => {
            let (s1, mapped) = inlined(l, *lam, args, s);
            let b2 = push_output_spec(*out, *flat, elem_ty, mapped.temp, &mapped.ty, false, s1.b);
            push_local(*out, *flat, elem_ty, mapped.temp, &mapped.ty, false, s1.b);
            local_adds_up(s.b, s1.b, b2);
            if mapped.temp != val && mapped.temp != src.temp {
                let g = gives_back(val, val_ty, src, b2);
                release_local(b2, g.0, g.1, &g.2);
                local_adds_up(s.b, b2, last);
            }
        },
        Terminal::FilterInto { lam, out, flat, elem_ty } => {
            let (s1, pred) = inlined(l, *lam, args, s);
            let (b2, keep) = as_bool_spec(pred.temp, &pred.ty, s1.b);
            truth_local(pred.temp, &pred.ty, s1.b);
            local_adds_up(s.b, s1.b, b2);
            let (first, b3) = perhaps_pushed(keep, *out, *flat, elem_ty, val, val_ty, b2);
            let really = val == src.temp && reclaim_as_release(src.temp, &src.ty, b3);
            assert(last == perhaps_released(b3, really, src.temp, &src.ty));
            release_local(b3, really, src.temp, &src.ty);
            push_local(*out, *flat, elem_ty, val, val_ty, false, first);
            assert(b2.blocks.len() <= b3.blocks.len() && b2.temp_types.len()
                <= b3.temp_types.len() && (b3.blocks.len() < u32::MAX ==> b2.blocks.len() + 2
                < u32::MAX)) by {
                reveal(FState::alloc_block);
                reveal(FState::terminate);
                reveal(FState::switch_to);
            }
            if b3.blocks.len() < u32::MAX && b3.temp_types.len() < u32::MAX && is_open(b2) {
                perhaps_pushed_lies(keep, *out, *flat, elem_ty, val, val_ty, b2);
            }
            assert(stays_local(b2, b3));
            local_adds_up(s.b, b2, b3);
            local_adds_up(s.b, b3, last);
        },
        _ => {},
    }
}

/// The end of the chain runs.
proof fn straight_end_runs(
    l: Lower,
    terminal: &Terminal,
    val: Temp,
    val_ty: &Type,
    idx: Temp,
    src: &TypedTemp,
    s: St,
    code: Seq<BasicBlock>,
    sem: Oracle,
    m: Meaning,
    x: Value,
    pos: int,
    r: Run,
) -> (r2: Run)
    requires
        bodies_mean(l, code, sem, m),
        end_known(m, terminal),
        ends_straight(terminal),
        fits(m, s.b, r),
        is_open(s.b),
        ({
            let s2 = run_fused_terminal_spec(l, terminal, val, val_ty, idx, src, s);
            &&& s2.b.blocks.len() < u32::MAX
            &&& s2.b.temp_types.len() < u32::MAX
            &&& part_stands(s.b, s2.b, code)
        }),
        is_at(s.b, r),
        val.0 < s.b.temp_types.len(),
        r.vals[val] == x,
        terminal_takes_index(terminal) ==> r.vals[idx] == Value::Number(pos),
    ensures
        came_through(
            s.b,
            run_fused_terminal_spec(l, terminal, val, val_ty, idx, src, s).b,
            code,
            sem,
            r,
            r2,
        ),
        r2.mem == end_effect(m, terminal, x, pos, r.mem),
{
    reveal(run_fused_terminal_spec);
    let args = elem_and_index(val, val_ty, idx);
    let last = run_fused_terminal_spec(l, terminal, val, val_ty, idx, src, s).b;
    match terminal {
        Terminal::Run { lam } => {
            let (s1, res) = inlined(l, *lam, args, s);
            let i = Instruction::Release { val: res.temp, ty: res.ty };
            let b2 = s1.b.emit(i);
            emit_local(s1.b, i);
            let g = gives_back(val, val_ty, src, b2);
            release_local(b2, g.0, g.1, &g.2);
            local_adds_up(s1.b, b2, last);
            halves_stand(s.b, s1.b, last, code);
            let r1 = step_body_runs(l, lam, val, val_ty, idx, s, code, sem, m, x, pos, r);
            halves_stand(s1.b, b2, last, code);
            emitted_runs(s1.b, i, code, sem, r1);
            let r2 = after_instr(sem, i, r1);
            let r3 = release_runs(b2, g.0, g.1, &g.2, code, sem, r2);
            comes_further(code, sem, r, r1, r2);
            comes_further(code, sem, r, r2, r3);
            r3
        },
        Terminal::MapInto { lam, out, flat, elem_ty } => {
            let (s1, mapped) = inlined(l, *lam, args, s);
            let b2 = push_output_spec(*out, *flat, elem_ty, mapped.temp, &mapped.ty, false, s1.b);
            push_local(*out, *flat, elem_ty, mapped.temp, &mapped.ty, false, s1.b);
            let g0 = gives_back(val, val_ty, src, b2);
            let g = if mapped.temp != val && mapped.temp != src.temp {
                g0
            } else {
                (false, val, *val_ty)
            };
            assert(last == perhaps_released(b2, g.0, g.1, &g.2));
            release_local(b2, g.0, g.1, &g.2);
            local_adds_up(s1.b, b2, last);
            halves_stand(s.b, s1.b, last, code);
            let r1 = step_body_runs(l, lam, val, val_ty, idx, s, code, sem, m, x, pos, r);
            halves_stand(s1.b, b2, last, code);
            let r2 = push_runs(
                *out,
                *flat,
                elem_ty,
                mapped.temp,
                &mapped.ty,
                false,
                s1.b,
                code,
                sem,
                r1,
            );
            let r3 = release_runs(b2, g.0, g.1, &g.2, code, sem, r2);
            comes_further(code, sem, r, r1, r2);
            comes_further(code, sem, r, r2, r3);
            assert(same_below(s.b, r, r2));
            r3
        },
        Terminal::FilterInto { lam, out, flat, elem_ty } => {
            let (s1, pred) = inlined(l, *lam, args, s);
            let (b2, keep) = as_bool_spec(pred.temp, &pred.ty, s1.b);
            truth_local(pred.temp, &pred.ty, s1.b);
            let (first, b3) = perhaps_pushed(keep, *out, *flat, elem_ty, val, val_ty, b2);
            let mid = push_output_spec(*out, *flat, elem_ty, val, val_ty, false, first);
            let really = val == src.temp && reclaim_as_release(src.temp, &src.ty, b3);
            assert(last == perhaps_released(b3, really, src.temp, &src.ty));
            release_local(b3, really, src.temp, &src.ty);
            push_local(*out, *flat, elem_ty, val, val_ty, false, first);
            assert(b2.blocks.len() + 2 < u32::MAX && b2.temp_types.len() <= b3.temp_types.len())
                by {
                reveal(FState::alloc_block);
                reveal(FState::terminate);
                reveal(FState::switch_to);
            }
            assert(is_open(s1.b) && is_open(b2));
            perhaps_pushed_lies(keep, *out, *flat, elem_ty, val, val_ty, b2);
            local_adds_up(b2, b3, last);
            local_adds_up(s1.b, b2, last);
            halves_stand(s.b, s1.b, last, code);
            halves_stand(s1.b, b2, last, code);
            halves_stand(b2, b3, last, code);
            let r1 = step_body_runs(l, lam, val, val_ty, idx, s, code, sem, m, x, pos, r);
            let r2 = truth_runs(pred.temp, &pred.ty, s1.b, code, sem, r1);
            comes_further(code, sem, r, r1, r2);
            let n = b2.blocks.len() as int;
            let k = b2.env.current_block.0 as int;
            assert(code[k] == b3.blocks[k]);
            assert(code[n] == b3.blocks[n]);
            let r3 = step(code, sem, r2);
            comes_one_step(code, sem, r2);
            comes_further(code, sem, r, r2, r3);
            let r5 = if r2.vals[keep] == Value::Truth(true) {
                assert(is_here(mid, code));
                let r4 = push_runs(*out, *flat, elem_ty, val, val_ty, false, first, code, sem, r3);
                let r5 = step(code, sem, r4);
                comes_one_step(code, sem, r4);
                comes_further(code, sem, r, r3, r4);
                comes_further(code, sem, r, r4, r5);
                r5
            } else {
                r3
            };
            assert(is_at(b3, r5));
            assert(same_below(s.b, r, r3));
            assert(same_below(s.b, r, r5));
            let r6 = release_runs(b3, really, src.temp, &src.ty, code, sem, r5);
            comes_further(code, sem, r, r5, r6);
            r6
        },
        _ => r,
    }
}

// All the steps.

/// The steps and the end of the chain.
pub open spec fn straight_steps(
    l: Lower,
    stages: &List<FuseStage>,
    elem: Temp,
    elem_ty: &Type,
    src: &TypedTemp,
    src_alive: bool,
    idx: Temp,
    counters: &List<Option<Temp>>,
    skip_block: BlockId,
    terminal: &Terminal,
    s: St,
) -> St {
    let (s1, out) = apply_fuse_stages_spec(
        l,
        stages,
        elem,
        elem_ty,
        src,
        src_alive,
        idx,
        counters,
        skip_block,
        false,
        s,
    );
    run_fused_terminal_spec(l, terminal, out.val, &out.ty, out.idx, src, s1)
}

/// The state behind the first step, and with what the next one goes on.
pub open spec fn after_first(
    l: Lower,
    stage: &FuseStage,
    elem: Temp,
    elem_ty: &Type,
    src: &TypedTemp,
    src_alive: bool,
    idx: Temp,
    skip_block: BlockId,
    s: St,
) -> (St, TypedTemp, bool) {
    match stage {
        FuseStage::Filter { lam } => {
            let s1 = fuse_filter_spec(
                l,
                lam,
                elem,
                elem_ty,
                src,
                src_alive,
                idx,
                skip_block,
                false,
                s,
            ).0;
            (s1, TypedTemp { temp: elem, ty: *elem_ty }, src_alive)
        },
        FuseStage::MapEach { lam, out_elem_ty } => {
            let (s1, t) = fuse_map_spec(l, lam, out_elem_ty, elem, elem_ty, src, idx, s);
            (s1, t, src_alive && (elem != src.temp || t.temp == elem))
        },
        FuseStage::FlatMap { .. } => (s, TypedTemp { temp: elem, ty: *elem_ty }, src_alive),
    }
}

/// The first step, then the position, then the other steps.
proof fn straight_steps_unfold(
    l: Lower,
    stages: &List<FuseStage>,
    elem: Temp,
    elem_ty: &Type,
    src: &TypedTemp,
    src_alive: bool,
    idx: Temp,
    counters: &List<Option<Temp>>,
    skip_block: BlockId,
    terminal: &Terminal,
    s: St,
)
    requires
        !chain_has_flatmap(stages),
    ensures
        ({
            let whole = straight_steps(
                l,
                stages,
                elem,
                elem_ty,
                src,
                src_alive,
                idx,
                counters,
                skip_block,
                terminal,
                s,
            );
            match stages {
                List::Nil => whole == run_fused_terminal_spec(
                    l,
                    terminal,
                    elem,
                    elem_ty,
                    idx,
                    src,
                    s,
                ),
                List::Cons(n) => {
                    let (s1, t, alive) = after_first(
                        l,
                        &n.head,
                        elem,
                        elem_ty,
                        src,
                        src_alive,
                        idx,
                        skip_block,
                        s,
                    );
                    let later = later_counters(counters);
                    let (b, next) = carried_index_spec(&later, idx, s1.b);
                    whole == straight_steps(
                        l,
                        &n.tail,
                        t.temp,
                        &t.ty,
                        src,
                        alive,
                        next,
                        &later,
                        skip_block,
                        terminal,
                        St { b, c: s1.c },
                    )
                },
            }
        }),
{
    reveal(apply_fuse_stages_spec);
}

/// The first step stays local.
proof fn first_local(
    l: Lower,
    stage: &FuseStage,
    elem: Temp,
    elem_ty: &Type,
    src: &TypedTemp,
    src_alive: bool,
    idx: Temp,
    skip_block: BlockId,
    s: St,
    code: Seq<BasicBlock>,
    sem: Oracle,
    m: Meaning,
)
    requires
        bodies_mean(l, code, sem, m),
        (m.known)(step_lambda(stage)),
    ensures
        stays_local(
            s.b,
            after_first(l, stage, elem, elem_ty, src, src_alive, idx, skip_block, s).0.b,
        ),
{
    match stage {
        FuseStage::Filter { lam } => drop_local(
            l,
            lam,
            elem,
            elem_ty,
            src,
            src_alive,
            idx,
            skip_block,
            s,
            code,
            sem,
            m,
        ),
        FuseStage::MapEach { lam, out_elem_ty } => map_local(
            l,
            lam,
            out_elem_ty,
            elem,
            elem_ty,
            src,
            idx,
            s,
            code,
            sem,
            m,
        ),
        FuseStage::FlatMap { .. } => {},
    }
}

/// The steps stay local.
pub(crate) proof fn straight_local(
    l: Lower,
    stages: &List<FuseStage>,
    elem: Temp,
    elem_ty: &Type,
    src: &TypedTemp,
    src_alive: bool,
    idx: Temp,
    counters: &List<Option<Temp>>,
    skip_block: BlockId,
    terminal: &Terminal,
    s: St,
    code: Seq<BasicBlock>,
    sem: Oracle,
    m: Meaning,
)
    requires
        bodies_mean(l, code, sem, m),
        all_known(m, stages, terminal),
        ends_straight(terminal),
        !chain_has_flatmap(stages),
    ensures
        stays_local(
            s.b,
            straight_steps(
                l,
                stages,
                elem,
                elem_ty,
                src,
                src_alive,
                idx,
                counters,
                skip_block,
                terminal,
                s,
            ).b,
        ),
    decreases stages,
{
    straight_steps_unfold(
        l,
        stages,
        elem,
        elem_ty,
        src,
        src_alive,
        idx,
        counters,
        skip_block,
        terminal,
        s,
    );
    match stages {
        List::Nil => straight_end_local(l, terminal, elem, elem_ty, idx, src, s, code, sem, m),
        List::Cons(n) => {
            let (s1, t, alive) = after_first(
                l,
                &n.head,
                elem,
                elem_ty,
                src,
                src_alive,
                idx,
                skip_block,
                s,
            );
            let later = later_counters(counters);
            let (b, next) = carried_index_spec(&later, idx, s1.b);
            let from = St { b, c: s1.c };
            first_local(
                l,
                &n.head,
                elem,
                elem_ty,
                src,
                src_alive,
                idx,
                skip_block,
                s,
                code,
                sem,
                m,
            );
            carried_local(&later, idx, s1.b);
            straight_local(
                l,
                &n.tail,
                t.temp,
                &t.ty,
                src,
                alive,
                next,
                &later,
                skip_block,
                terminal,
                from,
                code,
                sem,
                m,
            );
            let last = straight_steps(
                l,
                stages,
                elem,
                elem_ty,
                src,
                src_alive,
                idx,
                counters,
                skip_block,
                terminal,
                s,
            ).b;
            local_adds_up(s.b, s1.b, b);
            local_adds_up(s.b, b, last);
        },
    }
}

/// Whoever wants to know the position gets it: behind a filter it is counted, before any filter it
/// is the position `pos` in the collection, as all values so far came to all those steps.
pub open spec fn positions(
    stages: &List<FuseStage>,
    counters: &List<Option<Temp>>,
    terminal: &Terminal,
    behind: bool,
    pos: int,
    seen: Map<nat, int>,
) -> bool
    decreases stages,
{
    if behind {
        later_served(stages, counters, terminal)
    } else {
        match stages {
            List::Nil => true,
            List::Cons(n) => {
                let later = later_counters(counters);
                if stage_filters(&n.head) {
                    served(&n.tail, &later, terminal)
                } else {
                    &&& first_counter(&later) is None
                    &&& seen[n.tail.len()] == pos
                    &&& positions(&n.tail, &later, terminal, false, pos, seen)
                }
            },
        }
    }
}

/// The positions depend on how many values came to the later steps.
pub(crate) proof fn positions_depend_on_later(
    stages: &List<FuseStage>,
    counters: &List<Option<Temp>>,
    terminal: &Terminal,
    pos: int,
    seen: Map<nat, int>,
    other: Map<nat, int>,
)
    requires
        positions(stages, counters, terminal, false, pos, seen),
        forall|j: nat| j < stages.len() ==> #[trigger] seen[j] == other[j],
    ensures
        positions(stages, counters, terminal, false, pos, other),
    decreases stages,
{
    match stages {
        List::Nil => {},
        List::Cons(n) => if !stage_filters(&n.head) {
            assert(seen[n.tail.len()] == other[n.tail.len()]);
            let later = later_counters(counters);
            positions_depend_on_later(&n.tail, &later, terminal, pos, seen, other);
        },
    }
}

/// A value that comes to the first of the steps runs through them: it comes behind their code or,
/// where a step drops it, to the block to skip to, and what has changed by then is what `flow`
/// says.
pub(crate) proof fn straight_runs(
    l: Lower,
    stages: &List<FuseStage>,
    elem: Temp,
    elem_ty: &Type,
    src: &TypedTemp,
    src_alive: bool,
    idx: Temp,
    counters: &List<Option<Temp>>,
    skip_block: BlockId,
    terminal: &Terminal,
    s: St,
    code: Seq<BasicBlock>,
    sem: Oracle,
    m: Meaning,
    x: Value,
    pos: int,
    f: Flow,
    all: &List<Option<Temp>>,
    all_top: nat,
    behind: bool,
    r: Run,
) -> (r2: Run)
    requires
        bodies_mean(l, code, sem, m),
        all_known(m, stages, terminal),
        ends_straight(terminal),
        !chain_has_flatmap(stages),
        fits(m, s.b, r),
        is_open(s.b),
        ({
            let s2 = straight_steps(
                l,
                stages,
                elem,
                elem_ty,
                src,
                src_alive,
                idx,
                counters,
                skip_block,
                terminal,
                s,
            );
            &&& s2.b.blocks.len() < u32::MAX
            &&& s2.b.temp_types.len() < u32::MAX
            &&& part_stands(s.b, s2.b, code)
        }),
        is_at(s.b, r),
        elem.0 < s.b.temp_types.len(),
        idx.0 < s.b.temp_types.len(),
        r.vals[elem] == x,
        !behind || first_wants(stages, terminal) ==> r.vals[idx] == Value::Number(pos),
        r.mem == f.mem,
        later_of(all, all_top, counters, stages.len()),
        own_counters(m, all, all_top, terminal),
        tracks(all, all_top, f),
        positions(stages, counters, terminal, behind, pos, f.seen),
    ensures
        ({
            let s2 = straight_steps(
                l,
                stages,
                elem,
                elem_ty,
                src,
                src_alive,
                idx,
                counters,
                skip_block,
                terminal,
                s,
            );
            &&& comes_to(code, sem, r, r2)
            &&& is_at(s2.b, r2) || (r2.block == skip_block && r2.at == 0)
            &&& same_below(s.b, r, r2)
            &&& r2.mem == flow(m, stages, counters, terminal, x, pos, f).mem
        }),
    decreases stages,
{
    straight_steps_unfold(
        l,
        stages,
        elem,
        elem_ty,
        src,
        src_alive,
        idx,
        counters,
        skip_block,
        terminal,
        s,
    );
    match stages {
        List::Nil => straight_end_runs(
            l,
            terminal,
            elem,
            elem_ty,
            idx,
            src,
            s,
            code,
            sem,
            m,
            x,
            pos,
            r,
        ),
        List::Cons(n) => {
            let later = later_counters(counters);
            let lam = step_lambda(&n.head);
            let args = taken(lam, placed(x, pos));
            let f1 = Flow {
                trace: f.trace.push(Seen { left: stages.len(), value: x, pos }),
                mem: (m.effect)(lam, args, f.mem),
                ..f
            };
            let through = let_through(m, &n.head, x, pos);
            assert(flow(m, stages, counters, terminal, x, pos, f) == flow_all(
                m,
                &n.tail,
                &later,
                terminal,
                through,
                f1,
            ));
            first_of_later(all, all_top, counters, stages.len());
            assert(tracks(all, all_top, f1));
            let (s1, t, alive) = after_first(
                l,
                &n.head,
                elem,
                elem_ty,
                src,
                src_alive,
                idx,
                skip_block,
                s,
            );
            let (b, next) = carried_index_spec(&later, idx, s1.b);
            let from = St { b, c: s1.c };
            let last = straight_steps(
                l,
                stages,
                elem,
                elem_ty,
                src,
                src_alive,
                idx,
                counters,
                skip_block,
                terminal,
                s,
            ).b;
            first_local(
                l,
                &n.head,
                elem,
                elem_ty,
                src,
                src_alive,
                idx,
                skip_block,
                s,
                code,
                sem,
                m,
            );
            carried_local(&later, idx, s1.b);
            straight_local(
                l,
                &n.tail,
                t.temp,
                &t.ty,
                src,
                alive,
                next,
                &later,
                skip_block,
                terminal,
                from,
                code,
                sem,
                m,
            );
            local_adds_up(s1.b, b, last);
            halves_stand(s.b, s1.b, last, code);
            halves_stand(s1.b, b, last, code);
            let (r1, y) = match &n.head {
                FuseStage::Filter { lam } => {
                    let r1 = drop_runs(
                        l,
                        lam,
                        elem,
                        elem_ty,
                        src,
                        src_alive,
                        idx,
                        skip_block,
                        s,
                        code,
                        sem,
                        m,
                        x,
                        pos,
                        r,
                    );
                    (r1, x)
                },
                FuseStage::MapEach { lam, out_elem_ty } => {
                    let r1 = map_runs(
                        l,
                        lam,
                        out_elem_ty,
                        elem,
                        elem_ty,
                        src,
                        idx,
                        s,
                        code,
                        sem,
                        m,
                        x,
                        pos,
                        r,
                    );
                    (r1, (m.value)(*lam, args))
                },
                FuseStage::FlatMap { .. } => (r, x),
            };
            if stage_filters(&n.head) && (m.value)(lam, args) != Value::Truth(true) {
                r1
            } else {
                assert(through =~= seq![y]);
                assert(Seq::<Value>::empty().push(y) =~= seq![y]);
                last_value_flows_last(m, &n.tail, &later, terminal, Seq::empty(), y, f1);
                let at = f1.seen[n.tail.len()];
                let coming = arriving(&later, n.tail.len(), f1);
                arriving_tracks(m, terminal, all, all_top, &later, n.tail.len(), f1);
                first_of_later(all, all_top, &later, n.tail.len());
                let r2 = carried_runs(&later, idx, s1.b, code, sem, r1, at);
                let next_behind = behind || stage_filters(&n.head);
                if !next_behind {
                    positions_depend_on_later(&n.tail, &later, terminal, pos, f1.seen, coming.seen);
                }
                let r3 = straight_runs(
                    l,
                    &n.tail,
                    t.temp,
                    &t.ty,
                    src,
                    alive,
                    next,
                    &later,
                    skip_block,
                    terminal,
                    from,
                    code,
                    sem,
                    m,
                    y,
                    at,
                    coming,
                    all,
                    all_top,
                    next_behind,
                    r2,
                );
                comes_further(code, sem, r, r1, r2);
                comes_further(code, sem, r, r2, r3);
                r3
            }
        },
    }
}

} // verus!
