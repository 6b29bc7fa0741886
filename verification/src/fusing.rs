//! Whole fused loops, as they run: what their steps meet is what they would meet if each step were
//! done on a whole collection before the next one starts.

use crate::builder::FState;
use crate::coerce::narrow_loop_index_spec;
use crate::ctx::{Lower, St};
use crate::flowing::{
    Flow, Meaning, all_let_through, arriving, arriving_tracks, counter_for, eager_input, flow,
    flow_all, flow_all_tracks, last_value_flows_last, later_of, met, numbered, own_counters,
    seen_at, steps_meet_what_they_would_meet_eagerly, tracks,
};
use crate::fuse::{
    Terminal, emit_flatmap_fused_loop_spec, emit_fused_loop_spec, filtered_counters_spec,
    first_counter, fm_alloc_counters_spec, fm_counter_spec, fm_free_counters_spec,
    fm_later_counters_spec, fm_process_spec, stage_filters, stage_takes_index, terminal_takes_index,
};
use crate::fusion::{
    all_known, bodies_mean, emit_local, fits, flattens, later_served, ran_in_turn, ran_on, served,
    some_run_at, steps_local, steps_run,
};
use crate::ir::{BasicBlock, BlockId, Const, Instruction, Temp};
use crate::list::{List, prepend};
use crate::looping::{
    body_keeps, closed, closed_local, closed_runs, closed_stands, halves_stand, loop_end_adds,
    loop_ends, loop_lies, loop_local, loop_runs_its_body_for_every_element, loop_start_adds,
    part_stands, passed, starts_body, whole_loop,
};
use crate::loops::{
    ElemAccess, LoopFlow, LoopFrame, TypedTemp, begin_combinator_loop_spec,
    end_combinator_loop_spec,
};
use crate::recognize::{FuseStage, Lambda, chain_has_flatmap};
use crate::run::{
    Mem, Oracle, Run, Value, after_instr, comes_further, comes_to, comes_to_itself, constant_runs,
    conversion_runs, current, emitted_runs, goes_on, instrs, is_at, is_here, is_open, local_adds_up,
    made_runs, same_below, stays_local,
};
use crate::straight::{
    ends_straight, positions, positions_depend_on_later, straight_local, straight_runs,
    straight_steps,
};
use crate::types::{Type, json};
use vstd::prelude::*;

verus! {

// Counters.

/// The counters stand at zero.
pub open spec fn zeroed(counters: &List<Option<Temp>>, mem: Mem) -> Mem
    decreases counters,
{
    match counters {
        List::Nil => mem,
        List::Cons(n) => zeroed(
            &n.tail,
            match n.head {
                Some(cell) => Mem { cells: mem.cells.insert(cell, Value::Number(0)), ..mem },
                None => mem,
            },
        ),
    }
}

/// The counters are new temporaries from `lo` on and below `hi`, each after the one before.
pub open spec fn fresh(counters: &List<Option<Temp>>, lo: nat, hi: nat) -> bool
    decreases counters,
{
    match counters {
        List::Nil => true,
        List::Cons(n) => match n.head {
            Some(cell) => lo <= cell.0 < hi && fresh(&n.tail, (cell.0 + 1) as nat, hi),
            None => fresh(&n.tail, lo, hi),
        },
    }
}

/// Fewer counters, or a wider range: still new.
proof fn fresh_from_earlier(counters: &List<Option<Temp>>, lo: nat, hi: nat, lo2: nat)
    requires
        fresh(counters, lo, hi),
        lo2 <= lo,
    ensures
        fresh(counters, lo2, hi),
    decreases counters,
{
    match counters {
        List::Nil => {},
        List::Cons(n) => if n.head is None { fresh_from_earlier(&n.tail, lo, hi, lo2); },
    }
}

/// Where the counter of a step lies.
proof fn fresh_for(counters: &List<Option<Temp>>, top: nat, left: nat, lo: nat, hi: nat)
    requires
        fresh(counters, lo, hi),
    ensures
        counter_for(counters, top, left) is Some ==> lo <= counter_for(
            counters,
            top,
            left,
        )->Some_0.0 < hi,
    decreases counters,
{
    match counters {
        List::Nil => {},
        List::Cons(n) => if left != top && top > 0 {
            match n.head {
                Some(cell) => fresh_for(&n.tail, (top - 1) as nat, left, (cell.0 + 1) as nat, hi),
                None => fresh_for(&n.tail, (top - 1) as nat, left, lo, hi),
            }
        },
    }
}

/// No two steps share a counter.
proof fn fresh_differ(counters: &List<Option<Temp>>, top: nat, a: nat, b: nat, lo: nat, hi: nat)
    requires
        fresh(counters, lo, hi),
        a != b,
        counter_for(counters, top, a) is Some,
    ensures
        counter_for(counters, top, a) != counter_for(counters, top, b),
    decreases counters,
{
    match counters {
        List::Nil => {},
        List::Cons(n) => {
            let next = match n.head {
                Some(cell) => (cell.0 + 1) as nat,
                None => lo,
            };
            if top > 0 {
                let below = (top - 1) as nat;
                fresh_for(&n.tail, below, a, next, hi);
                fresh_for(&n.tail, below, b, next, hi);
                if a != top && b != top {
                    fresh_differ(&n.tail, below, a, b, next, hi);
                }
            }
        },
    }
}

/// Making counters leaves the cells before them alone.
proof fn zeroed_keeps(counters: &List<Option<Temp>>, lo: nat, hi: nat, cell: Temp, mem: Mem)
    requires
        fresh(counters, lo, hi),
        cell.0 < lo,
    ensures
        zeroed(counters, mem).cells[cell] == mem.cells[cell],
    decreases counters,
{
    match counters {
        List::Nil => {},
        List::Cons(n) => match n.head {
            Some(c) => {
                let next = Mem { cells: mem.cells.insert(c, Value::Number(0)), ..mem };
                zeroed_keeps(&n.tail, (c.0 + 1) as nat, hi, cell, next);
            },
            None => zeroed_keeps(&n.tail, lo, hi, cell, mem),
        },
    }
}

/// New counters start at zero.
proof fn zeroed_for(counters: &List<Option<Temp>>, top: nat, left: nat, lo: nat, hi: nat, mem: Mem)
    requires
        fresh(counters, lo, hi),
        counter_for(counters, top, left) is Some,
    ensures
        zeroed(counters, mem).cells[counter_for(counters, top, left)->Some_0] == Value::Number(0),
    decreases counters,
{
    match counters {
        List::Nil => {},
        List::Cons(n) => {
            let (next, after) = match n.head {
                Some(c) => (
                    (c.0 + 1) as nat,
                    Mem { cells: mem.cells.insert(c, Value::Number(0)), ..mem },
                ),
                None => (lo, mem),
            };
            if left == top {
                zeroed_keeps(&n.tail, next, hi, n.head->Some_0, after);
            } else {
                zeroed_for(&n.tail, (top - 1) as nat, left, next, hi, after);
            }
        },
    }
}

/// A counter is made in the current block.
proof fn counter_goes_on(wanted: bool, b: FState)
    ensures
        b.temp_types.len() <= fm_counter_spec(wanted, b).0.temp_types.len(),
        fm_counter_spec(wanted, b).0.blocks.len() == b.blocks.len(),
        fm_counter_spec(wanted, b).0.temp_types.len() < u32::MAX && is_open(b) ==> goes_on(
            b,
            fm_counter_spec(wanted, b).0,
        ),
{
    reveal(fm_counter_spec);
    reveal(FState::const_temp);
    reveal(FState::alloc_temp);
    reveal(FState::emit);
    reveal_with_fuel(instrs, 3);
}

/// A counter that is made starts at zero.
proof fn counter_runs(
    wanted: bool,
    b: FState,
    code: Seq<BasicBlock>,
    sem: Oracle,
    r: Run,
) -> (r2: Run)
    requires
        is_open(b),
        fm_counter_spec(wanted, b).0.temp_types.len() < u32::MAX,
        is_here(fm_counter_spec(wanted, b).0, code),
        is_at(b, r),
    ensures
        ({
            let (b2, c) = fm_counter_spec(wanted, b);
            &&& ran_on(b, b2, code, sem, r, r2)
            &&& match c {
                Some(cell) => {
                    &&& b.temp_types.len() <= cell.0 < b2.temp_types.len()
                    &&& b2.temp_types.len() == cell.0 + 1
                    &&& r2.mem == Mem { cells: r.mem.cells.insert(cell, Value::Number(0)), ..r.mem }
                },
                None => b2 == b && r2.mem == r.mem,
            }
            &&& c is Some <==> wanted
        }),
{
    reveal(fm_counter_spec);
    if wanted {
        let zero = Const::Int(0, Type::Int32);
        let (b1, t) = b.const_temp(zero);
        let cell = b1.alloc_temp(json()).1;
        let i = Instruction::MakeCell { dst: cell, init: t, ty: Type::Int32 };
        let b2 = b1.alloc_temp(json()).0.emit(i);
        assert(is_open(b1) && b1.temp_types.len() == b.temp_types.len() + 1 && b2.temp_types.len()
            == b.temp_types.len() + 2 && cell.0 == b.temp_types.len() + 1) by {
            reveal(FState::const_temp);
            reveal(FState::alloc_temp);
            reveal(FState::emit);
        }
        made_runs(b1, json(), i, code, sem, some_run_at(b1, r));
        constant_runs(b, zero, code, sem, r);
        let r1 = after_instr(sem, Instruction::Const { dst: t, value: zero }, r);
        made_runs(b1, json(), i, code, sem, r1);
        let r2 = after_instr(sem, i, r1);
        ran_in_turn(b, b1, b2, code, sem, r, r1, r2);
        r2
    } else {
        comes_to_itself(code, sem, r);
        r
    }
}

/// The counters are made in the current block.
proof fn counters_go_on(stages: &List<FuseStage>, behind: bool, last: bool, b: FState)
    ensures
        ({
            let b2 = filtered_counters_spec(stages, behind, last, b).0;
            &&& b.temp_types.len() <= b2.temp_types.len()
            &&& b2.blocks.len() == b.blocks.len()
            &&& b2.temp_types.len() < u32::MAX && b.blocks.len() < u32::MAX && is_open(b)
                ==> goes_on(b, b2)
        }),
    decreases stages,
{
    reveal(filtered_counters_spec);
    match stages {
        List::Nil => counter_goes_on(behind && last, b),
        List::Cons(n) => {
            let b1 = fm_counter_spec(behind && stage_takes_index(&n.head), b).0;
            counter_goes_on(behind && stage_takes_index(&n.head), b);
            counters_go_on(&n.tail, behind || stage_filters(&n.head), last, b1);
            let b2 = filtered_counters_spec(stages, behind, last, b).0;
            if b2.temp_types.len() < u32::MAX && b.blocks.len() < u32::MAX && is_open(b) {
                local_adds_up(b, b1, b2);
            }
        },
    }
}

/// The counters that are made are new and stand at zero.
proof fn counters_run(
    stages: &List<FuseStage>,
    behind: bool,
    last: bool,
    b: FState,
    code: Seq<BasicBlock>,
    sem: Oracle,
    r: Run,
) -> (r2: Run)
    requires
        is_open(b),
        b.blocks.len() < u32::MAX,
        filtered_counters_spec(stages, behind, last, b).0.temp_types.len() < u32::MAX,
        is_here(filtered_counters_spec(stages, behind, last, b).0, code),
        is_at(b, r),
    ensures
        ({
            let (b2, cs) = filtered_counters_spec(stages, behind, last, b);
            &&& ran_on(b, b2, code, sem, r, r2)
            &&& fresh(&cs, b.temp_types.len(), b2.temp_types.len())
            &&& r2.mem == zeroed(&cs, r.mem)
        }),
    decreases stages,
{
    reveal(filtered_counters_spec);
    let (b2, cs) = filtered_counters_spec(stages, behind, last, b);
    match stages {
        List::Nil => {
            reveal_with_fuel(zeroed, 2);
            reveal_with_fuel(fresh, 2);
            counter_runs(behind && last, b, code, sem, r)
        },
        List::Cons(n) => {
            let wanted = behind && stage_takes_index(&n.head);
            let (b1, c) = fm_counter_spec(wanted, b);
            counter_goes_on(wanted, b);
            let next = behind || stage_filters(&n.head);
            counters_go_on(&n.tail, next, last, b1);
            let r1 = counter_runs(wanted, b, code, sem, r);
            let r2 = counters_run(&n.tail, next, last, b1, code, sem, r1);
            ran_in_turn(b, b1, b2, code, sem, r, r1, r2);
            let rest = filtered_counters_spec(&n.tail, next, last, b1).1;
            assert(cs == prepend(c, rest));
            if c is None {
                fresh_from_earlier(
                    &rest,
                    b1.temp_types.len(),
                    b2.temp_types.len(),
                    b.temp_types.len(),
                );
            }
            r2
        },
    }
}

/// Behind a filter whoever wants to know the position has a counter.
proof fn counters_serve(stages: &List<FuseStage>, terminal: &Terminal, b: FState)
    ensures
        served(
            stages,
            &filtered_counters_spec(stages, true, terminal_takes_index(terminal), b).1,
            terminal,
        ),
    decreases stages,
{
    reveal(filtered_counters_spec);
    reveal(fm_counter_spec);
    match stages {
        List::Nil => {},
        List::Cons(n) => {
            let b1 = fm_counter_spec(stage_takes_index(&n.head), b).0;
            counters_serve(&n.tail, terminal, b1);
        },
    }
}

/// The counters of a chain with flattening are those of a chain behind a filter.
proof fn later_counters_as_filtered(stages: &List<FuseStage>, last: bool, b: FState)
    ensures
        fm_later_counters_spec(stages, last, b) == filtered_counters_spec(stages, true, last, b),
    decreases stages,
{
    reveal(filtered_counters_spec);
    reveal(fm_later_counters_spec);
    match stages {
        List::Nil => {},
        List::Cons(n) => {
            let b1 = fm_counter_spec(stage_takes_index(&n.head), b).0;
            later_counters_as_filtered(&n.tail, last, b1);
        },
    }
}

/// Freeing the counters stays local.
proof fn free_local(counters: &List<Option<Temp>>, b: FState)
    ensures
        stays_local(b, fm_free_counters_spec(counters, b)),
    decreases counters,
{
    reveal(fm_free_counters_spec);
    match counters {
        List::Nil => {},
        List::Cons(n) => match n.head {
            Some(cell) => {
                let i = Instruction::FreeCell { cell, ty: Type::Int32 };
                emit_local(b, i);
                free_local(&n.tail, b.emit(i));
                local_adds_up(b, b.emit(i), fm_free_counters_spec(counters, b));
            },
            None => free_local(&n.tail, b),
        },
    }
}

/// Freeing the counters changes nothing else.
proof fn free_runs(
    counters: &List<Option<Temp>>,
    b: FState,
    code: Seq<BasicBlock>,
    sem: Oracle,
    r: Run,
) -> (r2: Run)
    requires
        is_open(b),
        fm_free_counters_spec(counters, b).blocks.len() < u32::MAX,
        fm_free_counters_spec(counters, b).temp_types.len() < u32::MAX,
        part_stands(b, fm_free_counters_spec(counters, b), code),
        is_at(b, r),
    ensures
        comes_to(code, sem, r, r2),
        is_at(fm_free_counters_spec(counters, b), r2),
        same_below(b, r, r2),
        r2.mem == r.mem,
    decreases counters,
{
    reveal(fm_free_counters_spec);
    match counters {
        List::Nil => {
            comes_to_itself(code, sem, r);
            r
        },
        List::Cons(n) => match n.head {
            Some(cell) => {
                let i = Instruction::FreeCell { cell, ty: Type::Int32 };
                let b2 = b.emit(i);
                emit_local(b, i);
                free_local(&n.tail, b2);
                halves_stand(b, b2, fm_free_counters_spec(counters, b), code);
                emitted_runs(b, i, code, sem, r);
                let r1 = after_instr(sem, i, r);
                let r2 = free_runs(&n.tail, b2, code, sem, r1);
                comes_further(code, sem, r, r1, r2);
                r2
            },
            None => free_runs(&n.tail, b, code, sem, r),
        },
    }
}

/// No value has come to any step.
pub open spec fn nothing_seen(mem: Mem) -> Flow {
    Flow { trace: Seq::empty(), seen: Map::new(|left: nat| true, |left: nat| 0int), mem }
}

/// The functions of the steps leave the counters alone.
pub open spec fn leaves_alone(m: Meaning, counters: &List<Option<Temp>>, top: nat) -> bool {
    forall|a: nat, lam: Lambda, args: Seq<Value>, mem: Mem|
        a <= top && (#[trigger] counter_for(counters, top, a)) is Some ==> ((#[trigger] (m.effect)(
            lam,
            args,
            mem,
        )).cells)[counter_for(counters, top, a)->Some_0]
            == mem.cells[counter_for(counters, top, a)->Some_0]
}

/// A cell that a fold is held in is none of the temporaries from `lo` on.
pub open spec fn folds_below(terminal: &Terminal, lo: nat) -> bool {
    match terminal {
        Terminal::ReduceInto { cell, .. } => cell.0 < lo,
        _ => true,
    }
}

/// New counters belong to their steps alone, and hold that nothing has been seen.
proof fn counters_start(
    m: Meaning,
    counters: &List<Option<Temp>>,
    top: nat,
    terminal: &Terminal,
    lo: nat,
    hi: nat,
    mem: Mem,
)
    requires
        fresh(counters, lo, hi),
        leaves_alone(m, counters, top),
        folds_below(terminal, lo),
    ensures
        own_counters(m, counters, top, terminal),
        tracks(counters, top, nothing_seen(zeroed(counters, mem))),
        later_of(counters, top, counters, top),
{
    assert forall|a: nat, b: nat|
        a <= top && b <= top && a != b && (#[trigger] counter_for(counters, top, a)) is Some implies
        counter_for(counters, top, a) != #[trigger] counter_for(counters, top, b) by {
        fresh_differ(counters, top, a, b, lo, hi);
    }
    assert forall|a: nat| a <= top && folds_below(terminal, lo) implies match terminal {
        Terminal::ReduceInto { cell, .. } => #[trigger] counter_for(
            counters,
            top,
            a,
        ) != Some(*cell),
        _ => true,
    } by {
        fresh_for(counters, top, a, lo, hi);
    }
    let f = nothing_seen(zeroed(counters, mem));
    assert forall|left: nat|
        left <= top && (#[trigger] counter_for(counters, top, left)) is Some implies f.mem.cells[
    counter_for(counters, top, left)->Some_0] == Value::Number(f.seen[left]) by {
        zeroed_for(counters, top, left, lo, hi, mem);
    }
}

// Chains with flattening.

/// The states of a fused loop.
pub struct FusedLoop {
    pub counters: List<Option<Temp>>,
    /// In front of the loop.
    pub before: FState,
    /// Where the body starts.
    pub start: FState,
    pub frame: LoopFrame,
    pub cont: BlockId,
    pub idx: Temp,
    /// Where the steps start.
    pub from: St,
    /// Where the steps end.
    pub to: St,
    /// Behind the loop.
    pub end: FState,
}

/// A fused loop with flattening.
pub open spec fn flattening_loop(
    l: Lower,
    iterable: Temp,
    iterable_ty: &Type,
    read_elem_ty: &Type,
    stages: &List<FuseStage>,
    terminal: &Terminal,
    s: St,
) -> FusedLoop {
    let (before, counters) = fm_alloc_counters_spec(stages, terminal_takes_index(terminal), s.b);
    let access = ElemAccess::Materialize(*read_elem_ty);
    let (start, frame) = begin_combinator_loop_spec(iterable, iterable_ty, access, before);
    let (b, cont) = start.alloc_block("fm_src_cont");
    let (b, idx) = narrow_loop_index_spec(frame.i, b);
    let from = St { b, c: s.c };
    let to = fm_process_spec(
        l,
        stages,
        frame.elem,
        read_elem_ty,
        idx,
        &counters,
        cont,
        terminal,
        from,
    );
    let end = end_combinator_loop_spec(&frame, LoopFlow::Fallthrough, closed(to.b, cont));
    FusedLoop { counters, before, start, frame, cont, idx, from, to, end }
}

/// The counters of a chain with flattening are made in the current block. The first step has none.
proof fn flattening_counters_run(
    stages: &List<FuseStage>,
    terminal: &Terminal,
    b: FState,
    code: Seq<BasicBlock>,
    sem: Oracle,
    r: Run,
) -> (r2: Run)
    requires
        is_open(b),
        b.blocks.len() < u32::MAX,
        ({
            let b2 = fm_alloc_counters_spec(stages, terminal_takes_index(terminal), b).0;
            &&& b2.temp_types.len() < u32::MAX
            &&& is_here(b2, code)
        }),
        is_at(b, r),
    ensures
        ({
            let (b2, cs) = fm_alloc_counters_spec(stages, terminal_takes_index(terminal), b);
            &&& ran_on(b, b2, code, sem, r, r2)
            &&& fresh(&cs, b.temp_types.len(), b2.temp_types.len())
            &&& first_counter(&cs) is None
            &&& later_served(stages, &cs, terminal)
            &&& r2.mem == zeroed(&cs, r.mem)
        }),
{
    reveal(fm_alloc_counters_spec);
    let last = terminal_takes_index(terminal);
    match stages {
        List::Nil => {
            reveal_with_fuel(fresh, 2);
            reveal_with_fuel(zeroed, 2);
            comes_to_itself(code, sem, r);
            r
        },
        List::Cons(n) => {
            later_counters_as_filtered(&n.tail, last, b);
            counters_serve(&n.tail, terminal, b);
            counters_run(&n.tail, true, last, b, code, sem, r)
        },
    }
}

/// The counters of a chain with flattening are made in the current block.
proof fn flattening_counters_go_on(stages: &List<FuseStage>, terminal: &Terminal, b: FState)
    ensures
        ({
            let b2 = fm_alloc_counters_spec(stages, terminal_takes_index(terminal), b).0;
            &&& b.temp_types.len() <= b2.temp_types.len()
            &&& b2.blocks.len() == b.blocks.len()
            &&& b2.temp_types.len() < u32::MAX && b.blocks.len() < u32::MAX && is_open(b)
                ==> goes_on(b, b2)
        }),
{
    reveal(fm_alloc_counters_spec);
    match stages {
        List::Nil => {},
        List::Cons(n) => {
            let last = terminal_takes_index(terminal);
            later_counters_as_filtered(&n.tail, last, b);
            counters_go_on(&n.tail, true, last, b);
        },
    }
}

/// The body of a loop starts with a block to skip to and the index.
proof fn index_local(start: FState, label: &'static str, i: Temp)
    ensures
        ({
            let bc = start.alloc_block(label).0;
            stays_local(bc, narrow_loop_index_spec(i, bc).0)
        }),
{
    reveal(narrow_loop_index_spec);
    reveal(FState::coerce);
    reveal(FState::alloc_temp);
    reveal(FState::emit);
    reveal_with_fuel(instrs, 2);
}

/// The index runs.
pub(crate) proof fn index_runs(
    b: FState,
    i: Temp,
    code: Seq<BasicBlock>,
    sem: Oracle,
    r: Run,
    pos: int,
) -> (r2: Run)
    requires
        is_open(b),
        narrow_loop_index_spec(i, b).0.temp_types.len() < u32::MAX,
        is_here(narrow_loop_index_spec(i, b).0, code),
        is_at(b, r),
        r.vals[i] == Value::Number(pos),
    ensures
        ({
            let (b2, idx) = narrow_loop_index_spec(i, b);
            &&& ran_on(b, b2, code, sem, r, r2)
            &&& r2.vals[idx] == Value::Number(pos)
            &&& idx.0 < b2.temp_types.len()
            &&& r2.mem == r.mem
        }),
{
    reveal(narrow_loop_index_spec);
    assert(b.temp_types.len() < u32::MAX) by {
        reveal(FState::coerce);
        reveal(FState::alloc_temp);
        reveal(FState::emit);
    }
    conversion_runs(b, i, &Type::Int64, &Type::Int32, code, sem, r);
    let idx = b.coerce(i, &Type::Int64, &Type::Int32).1;
    after_instr(
        sem,
        Instruction::Coerce { dst: idx, src: i, from_ty: Type::Int64, to_ty: Type::Int32 },
        r,
    )
}

/// What the loop does for one element more.
proof fn one_element_more(
    m: Meaning,
    stages: &List<FuseStage>,
    counters: &List<Option<Temp>>,
    terminal: &Terminal,
    items: Seq<Value>,
    k: int,
    f: Flow,
)
    requires
        first_counter(counters) is None,
        0 <= k < items.len(),
        own_counters(m, counters, stages.len(), terminal),
        tracks(counters, stages.len(), f),
        f.seen[stages.len()] == 0,
    ensures
        ({
            let g = flow_all(m, stages, counters, terminal, items.take(k), f);
            let coming = arriving(counters, stages.len(), g);
            &&& g.seen[stages.len()] == k
            &&& coming.mem == g.mem
            &&& tracks(counters, stages.len(), coming)
            &&& flow_all(m, stages, counters, terminal, items.take(k + 1), f) == flow(
                m,
                stages,
                counters,
                terminal,
                items[k],
                k,
                coming,
            )
        }),
{
    let top = stages.len();
    let ys = items.take(k);
    let g = flow_all(m, stages, counters, terminal, ys, f);
    steps_meet_what_they_would_meet_eagerly(m, stages, counters, terminal, ys, f);
    assert(met(f, g, top, eager_input(m, stages, ys, f.seen, top)));
    flow_all_tracks(m, stages, counters, terminal, ys, f, counters, top);
    arriving_tracks(m, terminal, counters, top, counters, top, g);
    last_value_flows_last(m, stages, counters, terminal, ys, items[k], f);
    assert(ys.push(items[k]) =~= items.take(k + 1));
}

/// A run of a fused loop with flattening does what the steps would do one after another on whole
/// collections: from the code in front of it the run comes to the code behind it, with the changes
/// that `flow_all` tells, and what came to each step is what would come to it eagerly, the same
/// values in the same order with the same positions. This holds of functions that are pure, those
/// of steps that flatten giving collections, and that leave the counters of the loop alone.
pub proof fn flattening_loop_runs_as_if_eager(
    l: Lower,
    iterable: Temp,
    iterable_ty: &Type,
    read_elem_ty: &Type,
    stages: &List<FuseStage>,
    terminal: &Terminal,
    s: St,
    code: Seq<BasicBlock>,
    sem: Oracle,
    m: Meaning,
    items: Seq<Value>,
    r: Run,
) -> (r2: Run)
    requires
        bodies_mean(l, code, sem, m),
        all_known(m, stages, terminal),
        fits(m, s.b, r),
        flattens(m, stages),
        is_open(s.b),
        ({
            let last = emit_flatmap_fused_loop_spec(
                l,
                iterable,
                iterable_ty,
                read_elem_ty,
                stages,
                terminal_takes_index(terminal),
                terminal,
                s,
            );
            &&& last.b.blocks.len() < u32::MAX
            &&& last.b.temp_types.len() < u32::MAX
            &&& part_stands(s.b, last.b, code)
        }),
        is_at(s.b, r),
        iterable.0 < s.b.temp_types.len(),
        r.vals[iterable] == Value::Items(items),
        folds_below(terminal, s.b.temp_types.len()),
        leaves_alone(
            m,
            &fm_alloc_counters_spec(stages, terminal_takes_index(terminal), s.b).1,
            stages.len(),
        ),
    ensures
        ({
            let ti = terminal_takes_index(terminal);
            let last = emit_flatmap_fused_loop_spec(
                l,
                iterable,
                iterable_ty,
                read_elem_ty,
                stages,
                ti,
                terminal,
                s,
            );
            let counters = fm_alloc_counters_spec(stages, ti, s.b).1;
            let f = nothing_seen(zeroed(&counters, r.mem));
            let g = flow_all(m, stages, &counters, terminal, items, f);
            &&& comes_to(code, sem, r, r2)
            &&& is_at(last.b, r2)
            &&& same_below(s.b, r, r2)
            &&& r2.mem == g.mem
            &&& forall|left: nat|
                left <= stages.len() ==> #[trigger] seen_at(g.trace, left) == numbered(
                    eager_input(m, stages, items, f.seen, left),
                    left,
                    0,
                )
        }),
{
    reveal(emit_flatmap_fused_loop_spec);
    let ti = terminal_takes_index(terminal);
    let last = emit_flatmap_fused_loop_spec(
        l,
        iterable,
        iterable_ty,
        read_elem_ty,
        stages,
        ti,
        terminal,
        s,
    );
    let p = flattening_loop(l, iterable, iterable_ty, read_elem_ty, stages, terminal, s);
    let top = stages.len();
    let bc = p.start.alloc_block("fm_src_cont").0;
    let b2 = closed(p.to.b, p.cont);
    assert(last.b == fm_free_counters_spec(&p.counters, p.end));
    flattening_counters_go_on(stages, terminal, s.b);
    index_local(p.start, "fm_src_cont", p.frame.i);
    steps_local(
        l,
        stages,
        p.frame.elem,
        read_elem_ty,
        p.idx,
        &p.counters,
        p.cont,
        terminal,
        p.from,
        code,
        sem,
        m,
    );
    local_adds_up(bc, p.from.b, p.to.b);
    closed_local(p.start, "fm_src_cont", p.to.b);
    loop_local(iterable, iterable_ty, *read_elem_ty, p.before, b2);
    free_local(&p.counters, p.end);
    local_adds_up(p.before, p.end, last.b);
    halves_stand(s.b, p.before, last.b, code);
    halves_stand(p.before, p.end, last.b, code);
    let r1 = flattening_counters_run(stages, terminal, s.b, code, sem, r);
    let f = nothing_seen(r1.mem);
    counters_start(
        m,
        &p.counters,
        top,
        terminal,
        s.b.temp_types.len(),
        p.before.temp_types.len(),
        r.mem,
    );
    loop_start_adds(iterable, iterable_ty, *read_elem_ty, p.before);
    loop_end_adds(&p.frame, b2);
    assert(whole_loop(iterable, iterable_ty, *read_elem_ty, p.before, b2, code));
    loop_lies(iterable, iterable_ty, *read_elem_ty, p.before);
    loop_ends(iterable, iterable_ty, *read_elem_ty, p.before, b2, code);
    assert(p.to.b.blocks.len() == b2.blocks.len() && p.to.b.temp_types.len()
        == b2.temp_types.len()) by {
        reveal(FState::terminate);
        reveal(FState::switch_to);
    }
    closed_stands(p.start, "fm_src_cont", p.to.b, code);
    assert(is_open(bc) && bc.temp_types == p.start.temp_types && bc.env == p.start.env && current(
        bc,
    ) == current(p.start)) by {
        reveal(FState::alloc_block);
    }
    halves_stand(bc, p.from.b, p.to.b, code);
    let inv = |k: int, mem: Mem|
        mem == flow_all(m, stages, &p.counters, terminal, items.take(k), f).mem;
    assert forall|k: int, q: Run|
        0 <= k < items.len() && inv(k, q.mem) && same_below(p.before, r1, q)
            && #[trigger] starts_body(p.start, p.frame, items, k, q) implies exists|q2: Run|
        {
            &&& #[trigger] comes_to(code, sem, q, q2)
            &&& passed(p.start, b2, q, q2)
            &&& inv(k + 1, q2.mem)
        } by {
        one_element_more(m, stages, &p.counters, terminal, items, k, f);
        let g = flow_all(m, stages, &p.counters, terminal, items.take(k), f);
        let q1 = index_runs(bc, p.frame.i, code, sem, q, k);
        assert(fits(m, p.from.b, q1));
        let q2 = steps_run(
            l,
            stages,
            p.frame.elem,
            read_elem_ty,
            p.idx,
            &p.counters,
            p.cont,
            terminal,
            p.from,
            code,
            sem,
            m,
            items[k],
            k,
            arriving(&p.counters, top, g),
            &p.counters,
            top,
            q1,
        );
        comes_further(code, sem, q, q1, q2);
        let q3 = closed_runs(p.start, "fm_src_cont", p.to.b, code, sem, q2);
        comes_further(code, sem, q, q2, q3);
    }
    assert(body_keeps(code, sem, p.before, r1, p.start, b2, p.frame, items, inv));
    assert(items.take(0) =~= Seq::empty());
    assert(items.take(items.len() as int) =~= items);
    let r2 = loop_runs_its_body_for_every_element(
        iterable,
        iterable_ty,
        *read_elem_ty,
        p.before,
        b2,
        code,
        sem,
        items,
        inv,
        r1,
    );
    let r3 = free_runs(&p.counters, p.end, code, sem, r2);
    comes_further(code, sem, r, r1, r2);
    comes_further(code, sem, r, r2, r3);
    all_met(m, stages, &p.counters, terminal, items, f);
    r3
}

/// What came to each step from nothing on.
proof fn all_met(
    m: Meaning,
    stages: &List<FuseStage>,
    counters: &List<Option<Temp>>,
    terminal: &Terminal,
    items: Seq<Value>,
    f: Flow,
)
    requires
        f == nothing_seen(f.mem),
    ensures
        forall|left: nat|
            left <= stages.len() ==> #[trigger] seen_at(
                flow_all(m, stages, counters, terminal, items, f).trace,
                left,
            ) == numbered(eager_input(m, stages, items, f.seen, left), left, 0),
{
    let g = flow_all(m, stages, counters, terminal, items, f);
    steps_meet_what_they_would_meet_eagerly(m, stages, counters, terminal, items, f);
    assert forall|left: nat| left <= stages.len() implies #[trigger] seen_at(g.trace, left)
        == numbered(eager_input(m, stages, items, f.seen, left), left, 0) by {
        let eager = eager_input(m, stages, items, f.seen, left);
        assert(met(f, g, left, eager));
        assert(seen_at(f.trace, left) =~= Seq::empty());
        assert(seen_at(f.trace, left) + numbered(eager, left, 0) =~= numbered(eager, left, 0));
    }
}

// Chains without flattening.

/// A fused loop without flattening.
pub open spec fn straight_loop(
    l: Lower,
    iterable: Temp,
    iterable_ty: &Type,
    read_elem_ty: &Type,
    stages: &List<FuseStage>,
    terminal: &Terminal,
    s: St,
) -> FusedLoop {
    let ti = terminal_takes_index(terminal);
    let (before, counters) = filtered_counters_spec(stages, false, ti, s.b);
    let access = ElemAccess::Materialize(*read_elem_ty);
    let (start, frame) = begin_combinator_loop_spec(iterable, iterable_ty, access, before);
    let (b, cont) = start.alloc_block("fuse_cont");
    let (b, idx) = narrow_loop_index_spec(frame.i, b);
    let from = St { b, c: s.c };
    let src = TypedTemp { temp: frame.elem, ty: *read_elem_ty };
    let to = straight_steps(
        l,
        stages,
        frame.elem,
        read_elem_ty,
        &src,
        true,
        idx,
        &counters,
        cont,
        terminal,
        from,
    );
    let end = end_combinator_loop_spec(&frame, LoopFlow::Fallthrough, closed(to.b, cont));
    FusedLoop { counters, before, start, frame, cont, idx, from, to, end }
}

/// The first step has no counter.
proof fn no_counter_in_front(stages: &List<FuseStage>, last: bool, b: FState)
    ensures
        first_counter(&filtered_counters_spec(stages, false, last, b).1) is None,
{
    reveal(filtered_counters_spec);
    reveal(fm_counter_spec);
}

/// As many values came to the steps up to the first filter as to the first step.
pub open spec fn level(stages: &List<FuseStage>, pos: int, seen: Map<nat, int>) -> bool
    decreases stages,
{
    match stages {
        List::Nil => true,
        List::Cons(n) => stage_filters(&n.head) || (seen[n.tail.len()] == pos && level(
            &n.tail,
            pos,
            seen,
        )),
    }
}

/// Where as many values came to the steps up to the first filter, positions are right.
proof fn level_gives_positions(
    stages: &List<FuseStage>,
    terminal: &Terminal,
    b: FState,
    pos: int,
    seen: Map<nat, int>,
)
    requires
        level(stages, pos, seen),
    ensures
        positions(
            stages,
            &filtered_counters_spec(stages, false, terminal_takes_index(terminal), b).1,
            terminal,
            false,
            pos,
            seen,
        ),
    decreases stages,
{
    let last = terminal_takes_index(terminal);
    reveal(filtered_counters_spec);
    match stages {
        List::Nil => {},
        List::Cons(n) => {
            let b1 = fm_counter_spec(false, b).0;
            if stage_filters(&n.head) {
                counters_serve(&n.tail, terminal, b1);
            } else {
                no_counter_in_front(&n.tail, last, b1);
                level_gives_positions(&n.tail, terminal, b1, pos, seen);
            }
        },
    }
}

/// A step that replaces elements lets as many through as came to it.
proof fn replaced_one_by_one(m: Meaning, stage: &FuseStage, ys: Seq<Value>, pos: int)
    requires
        stage is MapEach,
    ensures
        all_let_through(m, stage, ys, pos).len() == ys.len(),
    decreases ys.len(),
{
    if ys.len() > 0 {
        replaced_one_by_one(m, stage, ys.drop_first(), pos + 1);
    }
}

/// As many values come to the steps up to the first filter as to the first step.
proof fn eager_is_level(
    m: Meaning,
    stages: &List<FuseStage>,
    ys: Seq<Value>,
    before: Map<nat, int>,
    seen: Map<nat, int>,
)
    requires
        !chain_has_flatmap(stages),
        forall|j: nat|
            j <= stages.len() ==> #[trigger] seen[j] == eager_input(m, stages, ys, before, j).len(),
    ensures
        level(stages, ys.len() as int, seen),
    decreases stages,
{
    match stages {
        List::Nil => {},
        List::Cons(n) => if !stage_filters(&n.head) {
            let pos = before[stages.len()];
            let next = all_let_through(m, &n.head, ys, pos);
            replaced_one_by_one(m, &n.head, ys, pos);
            assert forall|j: nat| j <= n.tail.len() implies #[trigger] seen[j] == eager_input(
                m,
                &n.tail,
                next,
                before,
                j,
            ).len() by {
                assert(eager_input(m, stages, ys, before, j) == eager_input(
                    m,
                    &n.tail,
                    next,
                    before,
                    j,
                ));
            }
            assert(seen[n.tail.len()] == ys.len());
            eager_is_level(m, &n.tail, next, before, seen);
        },
    }
}

/// The positions are right for the next element.
proof fn straight_positions(
    m: Meaning,
    stages: &List<FuseStage>,
    terminal: &Terminal,
    b: FState,
    items: Seq<Value>,
    k: int,
    f: Flow,
)
    requires
        !chain_has_flatmap(stages),
        f == nothing_seen(f.mem),
        0 <= k < items.len(),
    ensures
        ({
            let cs = filtered_counters_spec(stages, false, terminal_takes_index(terminal), b).1;
            let g = flow_all(m, stages, &cs, terminal, items.take(k), f);
            positions(stages, &cs, terminal, false, k, arriving(&cs, stages.len(), g).seen)
        }),
{
    let cs = filtered_counters_spec(stages, false, terminal_takes_index(terminal), b).1;
    let ys = items.take(k);
    let g = flow_all(m, stages, &cs, terminal, ys, f);
    steps_meet_what_they_would_meet_eagerly(m, stages, &cs, terminal, ys, f);
    assert forall|j: nat| j <= stages.len() implies #[trigger] g.seen[j] == eager_input(
        m,
        stages,
        ys,
        f.seen,
        j,
    ).len() by {
        assert(met(f, g, j, eager_input(m, stages, ys, f.seen, j)));
    }
    eager_is_level(m, stages, ys, f.seen, g.seen);
    level_gives_positions(stages, terminal, b, k, g.seen);
    positions_depend_on_later(
        stages,
        &cs,
        terminal,
        k,
        g.seen,
        arriving(&cs, stages.len(), g).seen,
    );
}

/// A run of a fused loop without flattening does what the steps would do one after another on
/// whole collections: from the code in front of it the run comes to the code behind it, with the
/// changes that `flow_all` tells, and what came to each step is what would come to it eagerly, the
/// same values in the same order with the same positions. This holds of functions that are pure
/// and leave the counters of the loop alone.
pub proof fn fused_loop_runs_as_if_eager(
    l: Lower,
    iterable: Temp,
    iterable_ty: &Type,
    read_elem_ty: &Type,
    stages: &List<FuseStage>,
    terminal: &Terminal,
    s: St,
    code: Seq<BasicBlock>,
    sem: Oracle,
    m: Meaning,
    items: Seq<Value>,
    r: Run,
) -> (r2: Run)
    requires
        bodies_mean(l, code, sem, m),
        all_known(m, stages, terminal),
        fits(m, s.b, r),
        !chain_has_flatmap(stages),
        ends_straight(terminal),
        is_open(s.b),
        ({
            let last = emit_fused_loop_spec(
                l,
                iterable,
                iterable_ty,
                read_elem_ty,
                stages,
                terminal,
                s,
            );
            &&& last.b.blocks.len() < u32::MAX
            &&& last.b.temp_types.len() < u32::MAX
            &&& part_stands(s.b, last.b, code)
        }),
        is_at(s.b, r),
        iterable.0 < s.b.temp_types.len(),
        r.vals[iterable] == Value::Items(items),
        leaves_alone(
            m,
            &filtered_counters_spec(stages, false, terminal_takes_index(terminal), s.b).1,
            stages.len(),
        ),
    ensures
        ({
            let ti = terminal_takes_index(terminal);
            let last = emit_fused_loop_spec(
                l,
                iterable,
                iterable_ty,
                read_elem_ty,
                stages,
                terminal,
                s,
            );
            let counters = filtered_counters_spec(stages, false, ti, s.b).1;
            let f = nothing_seen(zeroed(&counters, r.mem));
            let g = flow_all(m, stages, &counters, terminal, items, f);
            &&& comes_to(code, sem, r, r2)
            &&& is_at(last.b, r2)
            &&& same_below(s.b, r, r2)
            &&& r2.mem == g.mem
            &&& forall|left: nat|
                left <= stages.len() ==> #[trigger] seen_at(g.trace, left) == numbered(
                    eager_input(m, stages, items, f.seen, left),
                    left,
                    0,
                )
        }),
{
    reveal(emit_fused_loop_spec);
    let ti = terminal_takes_index(terminal);
    let last = emit_fused_loop_spec(l, iterable, iterable_ty, read_elem_ty, stages, terminal, s);
    let p = straight_loop(l, iterable, iterable_ty, read_elem_ty, stages, terminal, s);
    let top = stages.len();
    let bc = p.start.alloc_block("fuse_cont").0;
    let b2 = closed(p.to.b, p.cont);
    assert(last.b == fm_free_counters_spec(&p.counters, p.end));
    counters_go_on(stages, false, ti, s.b);
    index_local(p.start, "fuse_cont", p.frame.i);
    let src = TypedTemp { temp: p.frame.elem, ty: *read_elem_ty };
    straight_local(
        l,
        stages,
        p.frame.elem,
        read_elem_ty,
        &src,
        true,
        p.idx,
        &p.counters,
        p.cont,
        terminal,
        p.from,
        code,
        sem,
        m,
    );
    local_adds_up(bc, p.from.b, p.to.b);
    closed_local(p.start, "fuse_cont", p.to.b);
    loop_local(iterable, iterable_ty, *read_elem_ty, p.before, b2);
    free_local(&p.counters, p.end);
    local_adds_up(p.before, p.end, last.b);
    halves_stand(s.b, p.before, last.b, code);
    halves_stand(p.before, p.end, last.b, code);
    let r1 = counters_run(stages, false, ti, s.b, code, sem, r);
    let f = nothing_seen(r1.mem);
    no_counter_in_front(stages, ti, s.b);
    counters_start(
        m,
        &p.counters,
        top,
        terminal,
        s.b.temp_types.len(),
        p.before.temp_types.len(),
        r.mem,
    );
    loop_start_adds(iterable, iterable_ty, *read_elem_ty, p.before);
    loop_end_adds(&p.frame, b2);
    assert(whole_loop(iterable, iterable_ty, *read_elem_ty, p.before, b2, code));
    loop_lies(iterable, iterable_ty, *read_elem_ty, p.before);
    loop_ends(iterable, iterable_ty, *read_elem_ty, p.before, b2, code);
    assert(p.to.b.blocks.len() == b2.blocks.len() && p.to.b.temp_types.len()
        == b2.temp_types.len()) by {
        reveal(FState::terminate);
        reveal(FState::switch_to);
    }
    closed_stands(p.start, "fuse_cont", p.to.b, code);
    assert(is_open(bc) && bc.temp_types == p.start.temp_types && bc.env == p.start.env && current(
        bc,
    ) == current(p.start)) by {
        reveal(FState::alloc_block);
    }
    halves_stand(bc, p.from.b, p.to.b, code);
    let inv = |k: int, mem: Mem|
        mem == flow_all(m, stages, &p.counters, terminal, items.take(k), f).mem;
    assert forall|k: int, q: Run|
        0 <= k < items.len() && inv(k, q.mem) && same_below(p.before, r1, q)
            && #[trigger] starts_body(p.start, p.frame, items, k, q) implies exists|q2: Run|
        {
            &&& #[trigger] comes_to(code, sem, q, q2)
            &&& passed(p.start, b2, q, q2)
            &&& inv(k + 1, q2.mem)
        } by {
        one_element_more(m, stages, &p.counters, terminal, items, k, f);
        let g = flow_all(m, stages, &p.counters, terminal, items.take(k), f);
        let q1 = index_runs(bc, p.frame.i, code, sem, q, k);
        assert(fits(m, p.from.b, q1));
        straight_positions(m, stages, terminal, s.b, items, k, f);
        let q2 = straight_runs(
            l,
            stages,
            p.frame.elem,
            read_elem_ty,
            &src,
            true,
            p.idx,
            &p.counters,
            p.cont,
            terminal,
            p.from,
            code,
            sem,
            m,
            items[k],
            k,
            arriving(&p.counters, top, g),
            &p.counters,
            top,
            false,
            q1,
        );
        comes_further(code, sem, q, q1, q2);
        let q3 = closed_runs(p.start, "fuse_cont", p.to.b, code, sem, q2);
        comes_further(code, sem, q, q2, q3);
    }
    assert(body_keeps(code, sem, p.before, r1, p.start, b2, p.frame, items, inv));
    assert(items.take(0) =~= Seq::empty());
    assert(items.take(items.len() as int) =~= items);
    let r2 = loop_runs_its_body_for_every_element(
        iterable,
        iterable_ty,
        *read_elem_ty,
        p.before,
        b2,
        code,
        sem,
        items,
        inv,
        r1,
    );
    let r3 = free_runs(&p.counters, p.end, code, sem, r2);
    comes_further(code, sem, r, r1, r2);
    comes_further(code, sem, r, r2, r3);
    all_met(m, stages, &p.counters, terminal, items, f);
    r3
}

} // verus!
