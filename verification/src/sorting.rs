//! Merge sort, as it runs.

use crate::ast::{BinOp, TypedExpr};
use crate::builder::FState;
use crate::coerce::coerce_arg_to_param_repr_spec;
use crate::collect::{
    CountLoop, LoopLabels, SortArrays, begin_count_loop_spec, copy_elem_spec, emit_merge_spec,
    end_count_loop_spec, lower_flat_sort_spec, lower_sort_spec,
};
use crate::counting::{
    count_end_is, count_lies, count_patched, count_room, count_start_adds, counting_local,
    counting_stands, loop_counts, operations_add, starts_count,
};
use crate::ctx::{Lower, St, low};
use crate::direct::alike;
use crate::finding::{one_step_further, operation, phi};
use crate::flowing::Meaning;
use crate::fusion::{bodies_mean, coerce_local, emit_local, fits};
use crate::ir::{BasicBlock, BlockId, Const, FlatElemKind, Instruction, Intrinsic, Temp, Terminator};
use crate::joining::{
    choice_local, compares, element, merge_choice, merge_code, merge_end_adds, merge_is, merge_lies,
    merge_merges, merge_ready, merge_start, merge_start_adds, not_positive, written,
};
use crate::list::{List, two};
use crate::looping::{halves_stand, part_stands};
use crate::loops::{emit_iterable_len_spec, emit_min_i64_spec};
use crate::merging::{
    Order, in_order, merged, merged_has_all, orders, pass, pass_doubles_runs, rearranged,
    rearranged_in_turn, runs_in_order, singles_are_runs, smaller,
};
use crate::recognize::{Lambda, combinator_read_elem_ty_spec, inlinable_lambda};
use crate::repr::is_union_ty;
use crate::run::{
    Mem, Oracle, Run, Value, after_instr, comes_further, comes_to, comes_to_itself, constant_runs,
    conversion_runs, current, element_runs, emitted_runs, incoming_from, instrs, is_at, is_here,
    is_open, length_of, length_runs, local_adds_up, made_runs, operator_runs, pushed, same_below,
    stays_local, value_of_op,
};
use crate::types::Type;
use std::rc::Rc;
use vstd::prelude::*;

verus! {

// The smaller of two numbers.

/// How the blocks lie.
#[verifier::rlimit(60)]
#[verifier::spinoff_prover]
proof fn min_lies(x: Temp, y: Temp, b: FState)
    requires
        is_open(b),
        b.blocks.len() + 3 < u32::MAX,
        b.temp_types.len() + 2 < u32::MAX,
    ensures
        ({
            let (b2, t) = emit_min_i64_spec(x, y, b);
            let n = b.blocks.len() as int;
            let k = b.env.current_block.0 as int;
            let cond = Temp(b.temp_types.len() as u32);
            let (p, q) = (BlockId(n as u32), BlockId((n + 1) as u32));
            &&& t.0 == b.temp_types.len() + 1 && b2.temp_types.len() == b.temp_types.len() + 2
            &&& b2.blocks.len() == n + 3 && b2.env.current_block.0 == n + 2 && is_open(b2)
            &&& instrs(&b2.blocks[k].code) == current(b).push(
                operation(cond, BinOp::Lt, x, y, Type::Int64, Type::Bool),
            )
            &&& b2.blocks[k].term == (Terminator::CondJump { cond, then_block: p, else_block: q })
            &&& instrs(&b2.blocks[n].code) == Seq::<Instruction>::empty()
            &&& b2.blocks[n].term == Terminator::Jump(BlockId((n + 2) as u32))
            &&& instrs(&b2.blocks[n + 1].code) == Seq::<Instruction>::empty()
            &&& b2.blocks[n + 1].term == Terminator::Jump(BlockId((n + 2) as u32))
            &&& current(b2) == seq![phi(t, Type::Int64, x, p, y, q)]
            &&& stays_local(b, b2)
        }),
{
    reveal(emit_min_i64_spec);
    reveal(FState::alloc_temp);
    reveal(FState::alloc_block);
    reveal(FState::emit);
    reveal(FState::terminate);
    reveal(FState::switch_to);
    reveal(FState::binary);
    reveal_with_fuel(instrs, 2);
    let (b2, t) = emit_min_i64_spec(x, y, b);
    let n = b.blocks.len() as int;
    assert(current(b2) =~= seq![
        phi(t, Type::Int64, x, BlockId(n as u32), y, BlockId((n + 1) as u32)),
    ]);
}

/// The smaller of two numbers stays local.
proof fn min_local(x: Temp, y: Temp, b: FState)
    ensures
        ({
            let b2 = emit_min_i64_spec(x, y, b).0;
            &&& stays_local(b, b2)
            &&& b2.blocks.len() < u32::MAX ==> b.blocks.len() + 3 == b2.blocks.len()
            &&& b2.temp_types.len() < u32::MAX ==> b.temp_types.len() + 2 == b2.temp_types.len()
        }),
{
    let b2 = emit_min_i64_spec(x, y, b).0;
    assert(b.blocks.len() <= b2.blocks.len() && b.temp_types.len() <= b2.temp_types.len() && (
    b2.blocks.len() < u32::MAX ==> b.blocks.len() + 3 == b2.blocks.len()) && (
    b2.temp_types.len() < u32::MAX ==> b.temp_types.len() + 2 == b2.temp_types.len())) by {
        reveal(emit_min_i64_spec);
        operations_add();
    }
    if b2.blocks.len() < u32::MAX && b2.temp_types.len() < u32::MAX && is_open(b) {
        min_lies(x, y, b);
    }
}

/// A run finds the smaller of two numbers.
proof fn min_runs(
    x: Temp,
    y: Temp,
    b: FState,
    code: Seq<BasicBlock>,
    sem: Oracle,
    u: int,
    v: int,
    r: Run,
) -> (r2: Run)
    requires
        is_open(b),
        emit_min_i64_spec(x, y, b).0.blocks.len() < u32::MAX,
        emit_min_i64_spec(x, y, b).0.temp_types.len() < u32::MAX,
        part_stands(b, emit_min_i64_spec(x, y, b).0, code),
        is_at(b, r),
        x.0 < b.temp_types.len(),
        y.0 < b.temp_types.len(),
        r.vals[x] == Value::Number(u),
        r.vals[y] == Value::Number(v),
    ensures
        ({
            let (b2, t) = emit_min_i64_spec(x, y, b);
            &&& comes_to(code, sem, r, r2)
            &&& is_at(b2, r2)
            &&& same_below(b, r, r2)
            &&& t.0 < b2.temp_types.len()
            &&& r2.vals[t] == Value::Number(smaller(u, v))
            &&& r2.mem == r.mem
        }),
{
    min_local(x, y, b);
    min_lies(x, y, b);
    let (b2, t) = emit_min_i64_spec(x, y, b);
    let n = b.blocks.len() as int;
    let k = b.env.current_block.0 as int;
    assert(code[k] == b2.blocks[k]);
    assert(code[n] == b2.blocks[n]);
    assert(code[n + 1] == b2.blocks[n + 1]);
    assert(instrs(&code[n + 2].code)[0] == current(b2)[0]);
    reveal_with_fuel(incoming_from, 3);
    comes_to_itself(code, sem, r);
    let r1 = one_step_further(code, sem, r, r);
    assert(r1.vals[Temp(b.temp_types.len() as u32)] == Value::Truth(u < v));
    let r2 = one_step_further(code, sem, r, r1);
    let r3 = one_step_further(code, sem, r, r2);
    one_step_further(code, sem, r, r3)
}

// Copies of elements.

/// Copying an element stays in the block.
proof fn copy_local(arrays: &SortArrays, from: Temp, to: Temp, key: Temp, b: FState)
    ensures
        ({
            let b2 = copy_elem_spec(arrays, from, key, to, key, b);
            &&& stays_local(b, b2)
            &&& b2.blocks.len() == b.blocks.len()
            &&& b2.env.current_block == b.env.current_block
            &&& b2.temp_types.len() < u32::MAX ==> b2.temp_types.len() == b.temp_types.len() + 1
        }),
{
    reveal(copy_elem_spec);
    reveal(FState::index);
    reveal(FState::alloc_temp);
    reveal(FState::emit);
    reveal_with_fuel(instrs, 3);
}

/// A copy of an element runs.
proof fn copy_runs(
    arrays: &SortArrays,
    from: Temp,
    to: Temp,
    key: Temp,
    b: FState,
    code: Seq<BasicBlock>,
    sem: Oracle,
    k: int,
    r: Run,
) -> (r2: Run)
    requires
        is_open(b),
        copy_elem_spec(arrays, from, key, to, key, b).temp_types.len() < u32::MAX,
        is_here(copy_elem_spec(arrays, from, key, to, key, b), code),
        is_at(b, r),
        from.0 < b.temp_types.len(),
        to.0 < b.temp_types.len(),
        key.0 < b.temp_types.len(),
        r.vals[from] == Value::Made,
        r.vals[key] == Value::Number(k),
    ensures
        ({
            let b2 = copy_elem_spec(arrays, from, key, to, key, b);
            let v = r.mem.outs[from][k];
            &&& comes_to(code, sem, r, r2)
            &&& is_at(b2, r2)
            &&& same_below(b, r, r2)
            &&& r2.mem == Mem { outs: r.mem.outs.insert(to, r.mem.outs[to].update(k, v)), ..r.mem }
        }),
{
    copy_local(arrays, from, to, key, b);
    let b2 = copy_elem_spec(arrays, from, key, to, key, b);
    let v = Temp(b.temp_types.len() as u32);
    let n = current(b).len() as int;
    assert(current(b2) =~= current(b).push(element(arrays, v, from, key)).push(
        written(arrays, to, key, v),
    )) by {
        reveal(copy_elem_spec);
        reveal(FState::index);
        reveal(FState::alloc_temp);
        reveal(FState::emit);
        reveal_with_fuel(instrs, 3);
    }
    let is = instrs(&code[b.env.current_block.0 as int].code);
    assert(is[n] == current(b2)[n] && is[n + 1] == current(b2)[n + 1]);
    comes_to_itself(code, sem, r);
    let r1 = one_step_further(code, sem, r, r);
    assert(r1.vals[v] == r.mem.outs[from][k]);
    one_step_further(code, sem, r, r1)
}

// Memory.

/// What is held in the two arrays, everything else being as in `mem`.
pub open spec fn held(mem: Mem, out: Temp, work: Temp, a: Seq<Value>, w: Seq<Value>) -> Mem {
    Mem { outs: mem.outs.insert(out, a).insert(work, w), ..mem }
}

/// Replacing what one of the arrays holds.
proof fn held_again(mem: Mem, out: Temp, work: Temp, a: Seq<Value>, w: Seq<Value>, v: Seq<Value>)
    requires
        out != work,
    ensures
        ({
            let now = held(mem, out, work, a, w);
            &&& now.outs[out] == a && now.outs[work] == w
            &&& now.outs.dom().contains(work)
            &&& (Mem { outs: now.outs.insert(out, v), ..now }) == held(mem, out, work, v, w)
            &&& (Mem { outs: now.outs.insert(work, v), ..now }) == held(mem, out, work, a, v)
        }),
{
    let now = held(mem, out, work, a, w);
    assert(now.outs.insert(out, v) =~= held(mem, out, work, v, w).outs);
    assert(now.outs.insert(work, v) =~= held(mem, out, work, a, v).outs);
}

// The states of the sort.

/// The labels of the loop that copies.
pub open spec fn copy_labels() -> LoopLabels {
    LoopLabels { header: "sort_copy_hdr", body: "sort_copy_body", exit: "sort_copy_exit" }
}

/// The labels of the loop over widths.
pub open spec fn width_labels() -> LoopLabels {
    LoopLabels { header: "sort_w_hdr", body: "sort_w_body", exit: "sort_w_exit" }
}

/// The labels of the loop over runs.
pub open spec fn run_labels() -> LoopLabels {
    LoopLabels { header: "sort_lo_hdr", body: "sort_lo_body", exit: "sort_lo_exit" }
}

/// The labels of the loop that copies back.
pub open spec fn back_labels() -> LoopLabels {
    LoopLabels { header: "sort_cb_hdr", body: "sort_cb_body", exit: "sort_cb_exit" }
}

/// What is in front of the loops: the length, the two arrays, zero and one.
pub struct SortFront {
    pub n: Temp,
    pub out: Temp,
    pub work: Temp,
    pub zero: Temp,
    pub one_c: Temp,
    pub measured: FState,
    pub first: FState,
    pub second: FState,
    pub zeroed: FState,
    pub b: FState,
}

/// What is in front of the loops.
pub open spec fn sort_front(
    arr: Temp,
    arr_ty: &Type,
    flat: FlatElemKind,
    result_type: &Type,
    b: FState,
) -> SortFront {
    let (b1, n) = emit_iterable_len_spec(arr, arr_ty, b);
    let (b2, out) = b1.call_intrinsic(Intrinsic::FlatArrayAlloc(flat), List::Nil, result_type);
    let b2 = b2.register_owned(out, *result_type);
    let (b3, work) = b2.call_intrinsic(Intrinsic::FlatArrayAlloc(flat), List::Nil, result_type);
    let b3 = b3.register_owned(work, *result_type);
    let (b4, zero) = b3.const_temp(Const::Int(0, Type::Int64));
    let (b5, one_c) = b4.const_temp(Const::Int(1, Type::Int64));
    SortFront { n, out, work, zero, one_c, measured: b1, first: b2, second: b3, zeroed: b4, b: b5 }
}

/// The body of the loop that copies the elements to both arrays.
pub open spec fn copy_body(
    arr: Temp,
    arr_ty: &Type,
    read_ty: &Type,
    elem_ty: &Type,
    flat: FlatElemKind,
    out: Temp,
    work: Temp,
    i: Temp,
    b: FState,
) -> (FState, FState, FState, FState, FState, Temp) {
    let (b1, raw) = b.index(arr, i, arr_ty, &Type::Int64, read_ty, false);
    let (b2, elem) = coerce_arg_to_param_repr_spec(raw, read_ty, elem_ty, b1);
    let b3 = if is_union_ty(read_ty) {
        b2.emit(Instruction::FreeBoxShellIfDistinct { val: raw, other: elem })
    } else {
        b2
    };
    let b4 = b3.call_intrinsic(Intrinsic::FlatArrayPush(flat), two(out, elem), &Type::Null).0;
    let b5 = b4.call_intrinsic(Intrinsic::FlatArrayPush(flat), two(work, elem), &Type::Null).0;
    (b1, b2, b3, b4, b5, elem)
}

/// The body of the loop over runs.
pub struct RunStates {
    pub b1: FState,
    pub lo_w: Temp,
    pub b2: FState,
    pub mid: Temp,
    pub b3: FState,
    pub lo_2w: Temp,
    pub b4: FState,
    pub hi: Temp,
    pub end: St,
    pub m_exit: BlockId,
}

/// The body of the loop over runs.
pub open spec fn run_states(
    l: Lower,
    arrays: &SortArrays,
    order: &Lambda,
    n: Temp,
    w: Temp,
    two_w: Temp,
    lo: Temp,
    s: St,
) -> RunStates {
    let (b1, lo_w) = s.b.binary(BinOp::Add, lo, w, &Type::Int64, &Type::Int64);
    let (b2, mid) = emit_min_i64_spec(lo_w, n, b1);
    let (b3, lo_2w) = b2.binary(BinOp::Add, lo, two_w, &Type::Int64, &Type::Int64);
    let (b4, hi) = emit_min_i64_spec(lo_2w, n, b3);
    let (end, m_exit) = emit_merge_spec(l, arrays, lo, mid, hi, order, St { b: b4, c: s.c });
    RunStates { b1, lo_w, b2, mid, b3, lo_2w, b4, hi, end, m_exit }
}

/// The states of the loop over widths.
pub struct WidthStates {
    pub start: FState,
    pub widths: CountLoop,
    pub two_w: Temp,
    pub two_c: Temp,
    pub front: FState,
    pub runs_start: FState,
    pub runs: CountLoop,
    pub body: RunStates,
    pub runs_end: FState,
    pub back_start: FState,
    pub back: CountLoop,
    pub copied: FState,
    pub end: FState,
    pub last: FState,
}

/// The end of a loop that goes on by `next`.
pub open spec fn patched_end(f: &CountLoop, next: Instruction, b: FState) -> FState {
    b.emit(next).patch_phi_incoming(f.header, f.i, f.body, b.env.current_block).terminate(
        Terminator::Jump(f.header),
    ).switch_to(f.exit)
}

/// The states of the loop over widths.
pub open spec fn width_states(
    l: Lower,
    arrays: &SortArrays,
    order: &Lambda,
    n: Temp,
    zero: Temp,
    s: St,
) -> WidthStates {
    let one_c = arrays.one_c;
    let (start, widths) = begin_count_loop_spec(one_c, n, width_labels(), s.b);
    let (b, two_w) = start.alloc_temp(Type::Int64);
    let (b, two_c) = b.const_temp(Const::Int(2, Type::Int64));
    let front = b.emit(operation(two_w, BinOp::Mul, widths.i, two_c, Type::Int64, Type::Int64));
    let (runs_start, runs) = begin_count_loop_spec(zero, n, run_labels(), front);
    let body = run_states(
        l,
        arrays,
        order,
        n,
        widths.i,
        two_w,
        runs.i,
        St { b: runs_start, c: s.c },
    );
    let runs_end = patched_end(
        &runs,
        operation(runs.i_next, BinOp::Add, runs.i, two_w, Type::Int64, Type::Int64),
        body.end.b,
    );
    let (back_start, back) = begin_count_loop_spec(zero, n, back_labels(), runs_end);
    let copied = copy_elem_spec(arrays, arrays.work, back.i, arrays.out, back.i, back_start);
    let end = end_count_loop_spec(&back, one_c, copied);
    let last = patched_end(
        &widths,
        operation(widths.i_next, BinOp::Mul, widths.i, two_c, Type::Int64, Type::Int64),
        end,
    );
    WidthStates {
        start,
        widths,
        two_w,
        two_c,
        front,
        runs_start,
        runs,
        body,
        runs_end,
        back_start,
        back,
        copied,
        end,
        last,
    }
}

/// The arrays of the sort.
pub open spec fn sort_arrays(p: SortFront, result_type: &Type, elem_ty: Type) -> SortArrays {
    SortArrays { out: p.out, work: p.work, result_ty: *result_type, elem_ty, one_c: p.one_c }
}

/// The sort is made of these.
proof fn sort_is(
    l: Lower,
    array_e: &TypedExpr,
    order: &Lambda,
    elem_ty: Type,
    flat: FlatElemKind,
    result_type: &Type,
    s: St,
)
    ensures
        ({
            let arr_ty = array_e.ty();
            let read_ty = combinator_read_elem_ty_spec(array_e, s);
            let (s1, arr) = low(l, array_e, s);
            let p = sort_front(arr, &arr_ty, flat, result_type, s1.b);
            let (c1, copy) = begin_count_loop_spec(p.zero, p.n, copy_labels(), p.b);
            let c2 = copy_body(arr, &arr_ty, &read_ty, &elem_ty, flat, p.out, p.work, copy.i, c1).4;
            let c3 = end_count_loop_spec(&copy, p.one_c, c2);
            let arrays = sort_arrays(p, result_type, elem_ty);
            let ws = width_states(l, &arrays, order, p.n, p.zero, St { b: c3, c: s1.c });
            lower_flat_sort_spec(l, array_e, order, elem_ty, flat, result_type, s) == (
                St { b: ws.last, c: ws.body.end.c },
                p.out,
            )
        }),
{
    reveal(lower_flat_sort_spec);
    let (s1, arr) = low(l, array_e, s);
    let arr_ty = array_e.ty();
    let read_ty = combinator_read_elem_ty_spec(array_e, s);
    let p = sort_front(arr, &arr_ty, flat, result_type, s1.b);
    let (c1, copy) = begin_count_loop_spec(p.zero, p.n, copy_labels(), p.b);
    let c2 = copy_body(arr, &arr_ty, &read_ty, &elem_ty, flat, p.out, p.work, copy.i, c1).4;
    let c3 = end_count_loop_spec(&copy, p.one_c, c2);
    let arrays = sort_arrays(p, result_type, elem_ty);
    let ws = width_states(l, &arrays, order, p.n, p.zero, St { b: c3, c: s1.c });
    merge_is(l, &arrays, ws.runs.i, ws.body.mid, ws.body.hi, order, St { b: ws.body.b4, c: s1.c });
    assert(ws.body.m_exit == ws.body.end.b.env.current_block) by {
        reveal(FState::switch_to);
    }
}

// The loop over runs.

/// A merge stays local.
proof fn merge_local(
    l: Lower,
    arrays: &SortArrays,
    lo: Temp,
    mid: Temp,
    hi: Temp,
    order: &Lambda,
    s: St,
    code: Seq<BasicBlock>,
    sem: Oracle,
    m: Meaning,
)
    requires
        bodies_mean(l, code, sem, m),
        (m.known)(*order),
    ensures
        stays_local(s.b, emit_merge_spec(l, arrays, lo, mid, hi, order, s).0.b),
{
    merge_is(l, arrays, lo, mid, hi, order, s);
    let (b1, p) = merge_start(arrays, lo, mid, hi, s.b);
    let s1 = St { b: b1, c: s.c };
    let (s2, take_left) = merge_choice(l, arrays, p, order, s1);
    choice_local(l, arrays, p, order, s1, code, sem, m);
    merge_start_adds(arrays, lo, mid, hi, s.b);
    merge_end_adds(arrays, p, take_left, s2.b);
    let last = emit_merge_spec(l, arrays, lo, mid, hi, order, s).0.b;
    if last.blocks.len() < u32::MAX && last.temp_types.len() < u32::MAX && is_open(s.b) {
        merge_lies(arrays, lo, mid, hi, s.b);
        assert(last.env.current_block == p.exit) by {
            reveal(FState::switch_to);
        }
        assert(part_stands(s.b, last, last.blocks));
        merge_code(l, arrays, lo, mid, hi, order, s, last.blocks);
    }
}

/// The body of the loop over runs stays local.
proof fn run_body_local(
    l: Lower,
    arrays: &SortArrays,
    order: &Lambda,
    n: Temp,
    w: Temp,
    two_w: Temp,
    lo: Temp,
    s: St,
    code: Seq<BasicBlock>,
    sem: Oracle,
    m: Meaning,
)
    requires
        bodies_mean(l, code, sem, m),
        (m.known)(*order),
    ensures
        ({
            let p = run_states(l, arrays, order, n, w, two_w, lo, s);
            &&& stays_local(s.b, p.b1)
            &&& stays_local(p.b1, p.b2)
            &&& stays_local(p.b2, p.b3)
            &&& stays_local(p.b3, p.b4)
            &&& stays_local(p.b4, p.end.b)
            &&& stays_local(s.b, p.end.b)
            &&& p.b4.temp_types.len() < u32::MAX ==> p.b1.temp_types.len() == s.b.temp_types.len()
                + 1 && p.b2.temp_types.len() == s.b.temp_types.len() + 3 && p.b3.temp_types.len()
                == s.b.temp_types.len() + 4 && p.b4.temp_types.len() == s.b.temp_types.len() + 6
        }),
{
    let p = run_states(l, arrays, order, n, w, two_w, lo, s);
    assert(stays_local(s.b, p.b1) && stays_local(p.b2, p.b3)) by {
        reveal(FState::binary);
        reveal(FState::alloc_temp);
        reveal(FState::emit);
        reveal_with_fuel(instrs, 2);
    }
    operations_add();
    min_local(p.lo_w, n, p.b1);
    min_local(p.lo_2w, n, p.b3);
    merge_local(l, arrays, lo, p.mid, p.hi, order, St { b: p.b4, c: s.c }, code, sem, m);
    local_adds_up(s.b, p.b1, p.b2);
    local_adds_up(s.b, p.b2, p.b3);
    local_adds_up(s.b, p.b3, p.b4);
    local_adds_up(s.b, p.b4, p.end.b);
}

/// What the sort works with has its values.
pub open spec fn sort_ready(
    arrays: &SortArrays,
    n: Temp,
    zero: Temp,
    len: nat,
    b: FState,
    r: Run,
) -> bool {
    &&& arrays.out != arrays.work
    &&& arrays.out.0 < b.temp_types.len() && arrays.work.0 < b.temp_types.len()
    &&& arrays.one_c.0 < b.temp_types.len() && n.0 < b.temp_types.len() && zero.0
        < b.temp_types.len()
    &&& r.vals[arrays.out] == Value::Made && r.vals[arrays.work] == Value::Made
    &&& r.vals[arrays.one_c] == Value::Number(1)
    &&& r.vals[zero] == Value::Number(0)
    &&& r.vals[n] == Value::Number(len as int)
}

/// The body of the loop over runs merges two runs.
proof fn run_body_runs(
    l: Lower,
    arrays: &SortArrays,
    order: &Lambda,
    n: Temp,
    zero: Temp,
    w: Temp,
    two_w: Temp,
    lo: Temp,
    s: St,
    code: Seq<BasicBlock>,
    sem: Oracle,
    m: Meaning,
    num: spec_fn(Value, Value) -> int,
    mem: Mem,
    a: Seq<Value>,
    to: Seq<Value>,
    width: int,
    k: int,
    r: Run,
) -> (r2: Run)
    requires
        bodies_mean(l, code, sem, m),
        (m.known)(*order),
        compares(m, *order, num),
        fits(m, s.b, r),
        is_open(s.b),
        ({
            let end = run_states(l, arrays, order, n, w, two_w, lo, s).end.b;
            &&& end.blocks.len() < u32::MAX
            &&& end.temp_types.len() < u32::MAX
            &&& part_stands(s.b, end, code)
        }),
        is_at(s.b, r),
        sort_ready(arrays, n, zero, a.len(), s.b, r),
        w.0 < s.b.temp_types.len(),
        two_w.0 < s.b.temp_types.len(),
        lo.0 < s.b.temp_types.len(),
        r.vals[w] == Value::Number(width),
        r.vals[two_w] == Value::Number(2 * width),
        r.vals[lo] == Value::Number(k),
        0 <= k < a.len(),
        width > 0,
        to.len() == a.len(),
        r.mem == held(mem, arrays.out, arrays.work, a, to),
    ensures
        ({
            let end = run_states(l, arrays, order, n, w, two_w, lo, s).end.b;
            let le = not_positive(num);
            let y = smaller(k + width, a.len() as int);
            let z = smaller(k + 2 * width, a.len() as int);
            &&& comes_to(code, sem, r, r2)
            &&& is_at(end, r2)
            &&& same_below(s.b, r, r2)
            &&& r2.mem == held(
                mem,
                arrays.out,
                arrays.work,
                a,
                to.take(k) + merged(le, a.subrange(k, y), a.subrange(y, z)) + to.skip(z),
            )
        }),
{
    let p = run_states(l, arrays, order, n, w, two_w, lo, s);
    run_body_local(l, arrays, order, n, w, two_w, lo, s, code, sem, m);
    let last = p.end.b;
    let len = a.len() as int;
    let y = smaller(k + width, len);
    let z = smaller(k + 2 * width, len);
    let le = not_positive(num);
    local_adds_up(p.b3, p.b4, last);
    local_adds_up(p.b2, p.b3, last);
    local_adds_up(p.b1, p.b2, last);
    halves_stand(s.b, p.b1, last, code);
    halves_stand(p.b1, p.b2, last, code);
    halves_stand(p.b2, p.b3, last, code);
    halves_stand(p.b3, p.b4, last, code);
    let number = Type::Int64;
    operator_runs(s.b, BinOp::Add, lo, w, &number, &number, code, sem, r);
    let r1 = after_instr(sem, operation(p.lo_w, BinOp::Add, lo, w, number, number), r);
    let r2 = min_runs(p.lo_w, n, p.b1, code, sem, k + width, len, r1);
    comes_further(code, sem, r, r1, r2);
    operator_runs(p.b2, BinOp::Add, lo, two_w, &number, &number, code, sem, r2);
    let r3 = after_instr(sem, operation(p.lo_2w, BinOp::Add, lo, two_w, number, number), r2);
    comes_further(code, sem, r, r2, r3);
    let r4 = min_runs(p.lo_2w, n, p.b3, code, sem, k + 2 * width, len, r3);
    comes_further(code, sem, r, r3, r4);
    assert(same_below(s.b, r, r2));
    assert(same_below(s.b, r, r4));
    assert(r4.vals[p.mid] == Value::Number(y));
    held_again(mem, arrays.out, arrays.work, a, to, to);
    assert(merge_ready(arrays, lo, p.mid, p.hi, p.b4, a, k, y, z, r4));
    assert(fits(m, p.b4, r4));
    let r5 = merge_merges(
        l,
        arrays,
        lo,
        p.mid,
        p.hi,
        order,
        St { b: p.b4, c: s.c },
        code,
        sem,
        m,
        num,
        a,
        k,
        y,
        z,
        r4,
    );
    comes_further(code, sem, r, r4, r5);
    held_again(
        mem,
        arrays.out,
        arrays.work,
        a,
        to,
        to.take(k) + merged(le, a.subrange(k, y), a.subrange(y, z)) + to.skip(z),
    );
    r5
}

/// Merging two runs more brings the array nearer to what the pass makes.
proof fn pass_goes_on(le: Order, a: Seq<Value>, to: Seq<Value>, w: int, k: int)
    requires
        w > 0,
        0 <= k < a.len(),
        to.len() == a.len(),
        to.take(k) + pass(le, a.skip(k), w) == pass(le, a, w),
    ensures
        ({
            let n = a.len() as int;
            let y = smaller(k + w, n);
            let z = smaller(k + 2 * w, n);
            let one = merged(le, a.subrange(k, y), a.subrange(y, z));
            let after = to.take(k) + one + to.skip(z);
            &&& after.len() == n
            &&& after.take(z) + pass(le, a.skip(z), w) == pass(le, a, w)
        }),
{
    let n = a.len() as int;
    let y = smaller(k + w, n);
    let z = smaller(k + 2 * w, n);
    let rest = a.skip(k);
    let one = merged(le, a.subrange(k, y), a.subrange(y, z));
    merged_has_all(le, a.subrange(k, y), a.subrange(y, z));
    assert(rest.take(y - k) =~= a.subrange(k, y));
    assert(rest.subrange(y - k, z - k) =~= a.subrange(y, z));
    assert(rest.skip(z - k) =~= a.skip(z));
    assert(pass(le, rest, w) == one + pass(le, a.skip(z), w));
    let after = to.take(k) + one + to.skip(z);
    assert(after.take(z) =~= to.take(k) + one);
    assert(to.take(k) + (one + pass(le, a.skip(z), w)) =~= (to.take(k) + one) + pass(
        le,
        a.skip(z),
        w,
    ));
}

// The loop over widths.

/// The body of the loop over widths stays local.
proof fn width_body_local(
    l: Lower,
    arrays: &SortArrays,
    order: &Lambda,
    n: Temp,
    zero: Temp,
    s: St,
    code: Seq<BasicBlock>,
    sem: Oracle,
    m: Meaning,
)
    requires
        bodies_mean(l, code, sem, m),
        (m.known)(*order),
    ensures
        ({
            let p = width_states(l, arrays, order, n, zero, s);
            &&& stays_local(p.start, p.front)
            &&& stays_local(p.runs_start, p.body.end.b)
            &&& stays_local(p.front, p.runs_end)
            &&& stays_local(p.back_start, p.copied)
            &&& stays_local(p.runs_end, p.end)
            &&& stays_local(p.start, p.end)
            &&& p.front.temp_types.len() < u32::MAX ==> p.front.temp_types.len()
                == p.start.temp_types.len() + 2
            &&& p.runs_end.blocks.len() == p.body.end.b.blocks.len()
            &&& p.runs_end.temp_types == p.body.end.b.temp_types
            &&& p.end.blocks.len() == p.copied.blocks.len()
            &&& p.end.temp_types == p.copied.temp_types
            &&& p.last.blocks.len() == p.end.blocks.len()
            &&& p.last.temp_types == p.end.temp_types
        }),
{
    let p = width_states(l, arrays, order, n, zero, s);
    assert(stays_local(p.start, p.front)) by {
        reveal(FState::const_temp);
        reveal(FState::alloc_temp);
        reveal(FState::emit);
        reveal_with_fuel(instrs, 3);
    }
    let sr = St { b: p.runs_start, c: s.c };
    run_body_local(l, arrays, order, n, p.widths.i, p.two_w, p.runs.i, sr, code, sem, m);
    operations_add();
    let add = operation(p.runs.i_next, BinOp::Add, p.runs.i, p.two_w, Type::Int64, Type::Int64);
    let be = p.body.end.b;
    count_start_adds(zero, n, run_labels(), p.front);
    if count_room(p.front) && be.blocks.len() < u32::MAX && be.temp_types.len()
        < u32::MAX {
        count_patched(zero, n, run_labels(), add, p.front, be);
    }
    counting_local(zero, n, run_labels(), BinOp::Add, p.two_w, p.front, be, p.runs_end);
    copy_local(arrays, arrays.work, arrays.out, p.back.i, p.back_start);
    reveal(end_count_loop_spec);
    count_start_adds(zero, n, back_labels(), p.runs_end);
    if count_room(p.runs_end) && p.copied.blocks.len() < u32::MAX
        && p.copied.temp_types.len() < u32::MAX {
        count_lies(zero, n, back_labels(), p.runs_end);
        count_end_is(zero, n, back_labels(), arrays.one_c, p.runs_end, p.copied);
    }
    counting_local(zero, n, back_labels(), BinOp::Add, arrays.one_c, p.runs_end, p.copied, p.end);
    local_adds_up(p.start, p.front, p.runs_end);
    local_adds_up(p.start, p.runs_end, p.end);
}

/// The loop over runs does a pass.
proof fn runs_loop_runs(
    l: Lower,
    arrays: &SortArrays,
    order: &Lambda,
    n: Temp,
    zero: Temp,
    s: St,
    code: Seq<BasicBlock>,
    sem: Oracle,
    m: Meaning,
    num: spec_fn(Value, Value) -> int,
    mem: Mem,
    a: Seq<Value>,
    width: int,
    r: Run,
) -> (r2: Run)
    requires
        bodies_mean(l, code, sem, m),
        (m.known)(*order),
        compares(m, *order, num),
        ({
            let p = width_states(l, arrays, order, n, zero, s);
            &&& fits(m, p.front, r)
            &&& is_open(p.front)
            &&& p.runs_end.blocks.len() < u32::MAX
            &&& p.runs_end.temp_types.len() < u32::MAX
            &&& part_stands(p.front, p.runs_end, code)
            &&& is_at(p.front, r)
            &&& sort_ready(arrays, n, zero, a.len(), p.front, r)
            &&& p.widths.i.0 < p.front.temp_types.len()
            &&& p.two_w.0 < p.front.temp_types.len()
            &&& r.vals[p.widths.i] == Value::Number(width)
            &&& r.vals[p.two_w] == Value::Number(2 * width)
        }),
        width > 0,
        r.mem == held(mem, arrays.out, arrays.work, a, a),
        pass(not_positive(num), a, width).len() == a.len(),
    ensures
        ({
            let p = width_states(l, arrays, order, n, zero, s);
            &&& comes_to(code, sem, r, r2)
            &&& is_open(p.runs_end)
            &&& is_at(p.runs_end, r2)
            &&& same_below(p.front, r, r2)
            &&& r2.mem == held(mem, arrays.out, arrays.work, a, pass(not_positive(num), a, width))
        }),
{
    let p = width_states(l, arrays, order, n, zero, s);
    let le = not_positive(num);
    let len = a.len() as int;
    let out = arrays.out;
    let work = arrays.work;
    let goal = pass(le, a, width);
    let be = p.body.end.b;
    let sr = St { b: p.runs_start, c: s.c };
    width_body_local(l, arrays, order, n, zero, s, code, sem, m);
    count_start_adds(zero, n, run_labels(), p.front);
    count_lies(zero, n, run_labels(), p.front);
    let add = operation(p.runs.i_next, BinOp::Add, p.runs.i, p.two_w, Type::Int64, Type::Int64);
    count_patched(zero, n, run_labels(), add, p.front, be);
    counting_stands(zero, n, run_labels(), BinOp::Add, p.two_w, p.front, be, p.runs_end, code);
    let inv = |k: int, now: Mem|
        {
            let to = now.outs[work];
            let c = smaller(k, len);
            &&& 0 <= k
            &&& now == held(mem, out, work, a, to)
            &&& to.len() == len
            &&& to.take(c) + pass(le, a.skip(c), width) == goal
        };
    let next = |k: int| k + 2 * width;
    assert forall|k: int, q: Run|
        k < len && inv(k, q.mem) && same_below(p.front, r, q) && #[trigger] starts_count(
            p.runs_start,
            p.runs.i,
            k,
            q,
        ) implies k < next(k) && exists|q2: Run|
        {
            &&& #[trigger] comes_to(code, sem, q, q2)
            &&& is_at(be, q2)
            &&& same_below(p.runs_start, q, q2)
            &&& inv(next(k), q2.mem)
            &&& value_of_op(BinOp::Add, Value::Number(k), q2.vals[p.two_w])
                == Value::Number(next(k))
        } by {
        let to = q.mem.outs[work];
        assert(fits(m, p.runs_start, q));
        let q2 = run_body_runs(
            l,
            arrays,
            order,
            n,
            zero,
            p.widths.i,
            p.two_w,
            p.runs.i,
            sr,
            code,
            sem,
            m,
            num,
            mem,
            a,
            to,
            width,
            k,
            q,
        );
        pass_goes_on(le, a, to, width, k);
        let y = smaller(k + width, len);
        let z = smaller(k + 2 * width, len);
        let after = to.take(k) + merged(le, a.subrange(k, y), a.subrange(y, z)) + to.skip(z);
        held_again(mem, out, work, a, after, after);
        assert(q2.mem.outs[work] == after);
        assert(inv(next(k), q2.mem));
    }
    held_again(mem, out, work, a, a, a);
    assert(a.take(0) + pass(le, a.skip(0), width) =~= goal) by {
        assert(a.skip(0) =~= a);
    }
    assert(inv(0, r.mem));
    let (r2, k) = loop_counts(
        zero,
        n,
        run_labels(),
        BinOp::Add,
        p.two_w,
        p.front,
        be,
        p.runs_end,
        code,
        sem,
        inv,
        next,
        len,
        0,
        r,
    );
    let to = r2.mem.outs[work];
    assert(to.take(len) =~= to);
    assert(a.skip(len) =~= Seq::empty());
    assert(to + pass(le, a.skip(len), width) =~= to);
    r2
}

/// The loop that copies back makes both arrays the same.
proof fn back_loop_runs(
    l: Lower,
    arrays: &SortArrays,
    order: &Lambda,
    n: Temp,
    zero: Temp,
    s: St,
    code: Seq<BasicBlock>,
    sem: Oracle,
    m: Meaning,
    mem: Mem,
    a: Seq<Value>,
    w: Seq<Value>,
    r: Run,
) -> (r2: Run)
    requires
        bodies_mean(l, code, sem, m),
        (m.known)(*order),
        ({
            let p = width_states(l, arrays, order, n, zero, s);
            &&& is_open(p.runs_end)
            &&& p.end.blocks.len() < u32::MAX
            &&& p.end.temp_types.len() < u32::MAX
            &&& part_stands(p.runs_end, p.end, code)
            &&& is_at(p.runs_end, r)
            &&& sort_ready(arrays, n, zero, a.len(), p.runs_end, r)
        }),
        w.len() == a.len(),
        r.mem == held(mem, arrays.out, arrays.work, a, w),
    ensures
        ({
            let p = width_states(l, arrays, order, n, zero, s);
            &&& comes_to(code, sem, r, r2)
            &&& is_open(p.end)
            &&& is_at(p.end, r2)
            &&& same_below(p.runs_end, r, r2)
            &&& r2.mem == held(mem, arrays.out, arrays.work, w, w)
        }),
{
    let p = width_states(l, arrays, order, n, zero, s);
    let len = a.len() as int;
    let out = arrays.out;
    let work = arrays.work;
    width_body_local(l, arrays, order, n, zero, s, code, sem, m);
    count_start_adds(zero, n, back_labels(), p.runs_end);
    count_lies(zero, n, back_labels(), p.runs_end);
    copy_local(arrays, work, out, p.back.i, p.back_start);
    count_end_is(zero, n, back_labels(), arrays.one_c, p.runs_end, p.copied);
    counting_stands(
        zero,
        n,
        back_labels(),
        BinOp::Add,
        arrays.one_c,
        p.runs_end,
        p.copied,
        p.end,
        code,
    );
    let inv = |k: int, now: Mem|
        0 <= k <= len && now == held(mem, out, work, w.take(k) + a.skip(k), w);
    let next = |k: int| k + 1;
    assert forall|k: int, q: Run|
        k < len && inv(k, q.mem) && same_below(p.runs_end, r, q) && #[trigger] starts_count(
            p.back_start,
            p.back.i,
            k,
            q,
        ) implies k < next(k) && exists|q2: Run|
        {
            &&& #[trigger] comes_to(code, sem, q, q2)
            &&& is_at(p.copied, q2)
            &&& same_below(p.back_start, q, q2)
            &&& inv(next(k), q2.mem)
            &&& value_of_op(BinOp::Add, Value::Number(k), q2.vals[arrays.one_c])
                == Value::Number(next(k))
        } by {
        let now = w.take(k) + a.skip(k);
        let then = w.take(k + 1) + a.skip(k + 1);
        let q2 = copy_runs(arrays, work, out, p.back.i, p.back_start, code, sem, k, q);
        held_again(mem, out, work, now, w, then);
        assert(now.update(k, w[k]) =~= then);
        assert(inv(next(k), q2.mem));
    }
    assert(w.take(0) + a.skip(0) =~= a);
    assert(inv(0, r.mem));
    let (r2, k) = loop_counts(
        zero,
        n,
        back_labels(),
        BinOp::Add,
        arrays.one_c,
        p.runs_end,
        p.copied,
        p.end,
        code,
        sem,
        inv,
        next,
        len,
        0,
        r,
    );
    assert(w.take(len) + a.skip(len) =~= w);
    r2
}

/// The body of the loop over widths does a pass and copies back.
proof fn width_body_runs(
    l: Lower,
    arrays: &SortArrays,
    order: &Lambda,
    n: Temp,
    zero: Temp,
    s: St,
    code: Seq<BasicBlock>,
    sem: Oracle,
    m: Meaning,
    num: spec_fn(Value, Value) -> int,
    mem: Mem,
    a: Seq<Value>,
    width: int,
    r: Run,
) -> (r2: Run)
    requires
        bodies_mean(l, code, sem, m),
        (m.known)(*order),
        compares(m, *order, num),
        ({
            let p = width_states(l, arrays, order, n, zero, s);
            &&& fits(m, p.start, r)
            &&& is_open(p.start)
            &&& p.end.blocks.len() < u32::MAX
            &&& p.end.temp_types.len() < u32::MAX
            &&& part_stands(p.start, p.end, code)
            &&& is_at(p.start, r)
            &&& sort_ready(arrays, n, zero, a.len(), p.start, r)
            &&& p.widths.i.0 < p.start.temp_types.len()
            &&& r.vals[p.widths.i] == Value::Number(width)
        }),
        width > 0,
        r.mem == held(mem, arrays.out, arrays.work, a, a),
        pass(not_positive(num), a, width).len() == a.len(),
    ensures
        ({
            let p = width_states(l, arrays, order, n, zero, s);
            let b = pass(not_positive(num), a, width);
            &&& comes_to(code, sem, r, r2)
            &&& is_at(p.end, r2)
            &&& same_below(p.start, r, r2)
            &&& r2.mem == held(mem, arrays.out, arrays.work, b, b)
            &&& r2.vals[p.two_c] == Value::Number(2)
        }),
{
    let p = width_states(l, arrays, order, n, zero, s);
    width_body_local(l, arrays, order, n, zero, s, code, sem, m);
    local_adds_up(p.front, p.runs_end, p.end);
    halves_stand(p.start, p.front, p.end, code);
    halves_stand(p.front, p.runs_end, p.end, code);
    let t = p.start.temp_types.len() as int;
    let c = current(p.start).len() as int;
    assert(p.two_w.0 == t && p.two_c.0 == t + 1 && p.front.env.current_block
        == p.start.env.current_block && current(p.front) =~= current(p.start).push(
        Instruction::Const { dst: p.two_c, value: Const::Int(2, Type::Int64) },
    ).push(operation(p.two_w, BinOp::Mul, p.widths.i, p.two_c, Type::Int64, Type::Int64))) by {
        reveal(FState::const_temp);
        reveal(FState::alloc_temp);
        reveal(FState::emit);
        reveal_with_fuel(instrs, 3);
    }
    let is = instrs(&code[p.start.env.current_block.0 as int].code);
    assert(is[c] == current(p.front)[c] && is[c + 1] == current(p.front)[c + 1]);
    comes_to_itself(code, sem, r);
    let r1 = one_step_further(code, sem, r, r);
    assert(r1.vals[p.two_c] == Value::Number(2));
    let r2 = one_step_further(code, sem, r, r1);
    assert(r2.vals[p.two_w] == Value::Number(2 * width)) by {
        assert(width * 2 == 2 * width);
    }
    assert(same_below(p.start, r, r2));
    assert(fits(m, p.front, r2));
    let r3 = runs_loop_runs(l, arrays, order, n, zero, s, code, sem, m, num, mem, a, width, r2);
    comes_further(code, sem, r, r2, r3);
    let w = pass(not_positive(num), a, width);
    let r4 = back_loop_runs(l, arrays, order, n, zero, s, code, sem, m, mem, a, w, r3);
    comes_further(code, sem, r, r3, r4);
    r4
}

/// The array has the elements, and its runs are in order.
pub open spec fn sorted_so_far(
    le: Order,
    mem: Mem,
    out: Temp,
    work: Temp,
    items: Seq<Value>,
    w: int,
    now: Mem,
) -> bool {
    let a = now.outs[out];
    &&& w > 0
    &&& now == held(mem, out, work, a, a)
    &&& a.len() == items.len()
    &&& runs_in_order(le, a, w)
    &&& rearranged(le, items, a)
}

/// The loop over widths sorts.
proof fn width_loop_runs(
    l: Lower,
    arrays: &SortArrays,
    order: &Lambda,
    n: Temp,
    zero: Temp,
    s: St,
    code: Seq<BasicBlock>,
    sem: Oracle,
    m: Meaning,
    num: spec_fn(Value, Value) -> int,
    mem: Mem,
    items: Seq<Value>,
    r: Run,
) -> (r2: Run)
    requires
        bodies_mean(l, code, sem, m),
        (m.known)(*order),
        compares(m, *order, num),
        orders(not_positive(num)),
        fits(m, s.b, r),
        is_open(s.b),
        ({
            let p = width_states(l, arrays, order, n, zero, s);
            &&& p.last.blocks.len() < u32::MAX
            &&& p.last.temp_types.len() < u32::MAX
            &&& part_stands(s.b, p.last, code)
        }),
        is_at(s.b, r),
        sort_ready(arrays, n, zero, items.len(), s.b, r),
        r.mem == held(mem, arrays.out, arrays.work, items, items),
    ensures
        ({
            let p = width_states(l, arrays, order, n, zero, s);
            let le = not_positive(num);
            let a = r2.mem.outs[arrays.out];
            &&& stays_local(s.b, p.last)
            &&& comes_to(code, sem, r, r2)
            &&& is_open(p.last)
            &&& is_at(p.last, r2)
            &&& same_below(s.b, r, r2)
            &&& r2.mem == held(mem, arrays.out, arrays.work, a, a)
            &&& in_order(le, a)
            &&& rearranged(le, items, a)
        }),
{
    let p = width_states(l, arrays, order, n, zero, s);
    let le = not_positive(num);
    let out = arrays.out;
    let work = arrays.work;
    let len = items.len() as int;
    let one_c = arrays.one_c;
    width_body_local(l, arrays, order, n, zero, s, code, sem, m);
    count_start_adds(one_c, n, width_labels(), s.b);
    count_lies(one_c, n, width_labels(), s.b);
    let mul = operation(p.widths.i_next, BinOp::Mul, p.widths.i, p.two_c, Type::Int64, Type::Int64);
    count_patched(one_c, n, width_labels(), mul, s.b, p.end);
    counting_stands(one_c, n, width_labels(), BinOp::Mul, p.two_c, s.b, p.end, p.last, code);
    assert(p.two_c.0 == p.start.temp_types.len() + 1 && p.two_c.0 < p.front.temp_types.len()) by {
        reveal(FState::const_temp);
        reveal(FState::alloc_temp);
        reveal(FState::emit);
    }
    let inv = |w: int, now: Mem| sorted_so_far(le, mem, out, work, items, w, now);
    let next = |w: int| w * 2;
    assert forall|w: int, q: Run|
        w < len && inv(w, q.mem) && same_below(s.b, r, q) && #[trigger] starts_count(
            p.start,
            p.widths.i,
            w,
            q,
        ) implies w < next(w) && exists|q2: Run|
        {
            &&& #[trigger] comes_to(code, sem, q, q2)
            &&& is_at(p.end, q2)
            &&& same_below(p.start, q, q2)
            &&& inv(next(w), q2.mem)
            &&& value_of_op(BinOp::Mul, Value::Number(w), q2.vals[p.two_c]) == Value::Number(
                next(w),
            )
        } by {
        let a = q.mem.outs[out];
        pass_doubles_runs(le, a, w);
        let b = pass(le, a, w);
        assert(fits(m, p.start, q));
        let q2 = width_body_runs(l, arrays, order, n, zero, s, code, sem, m, num, mem, a, w, q);
        held_again(mem, out, work, b, b, b);
        rearranged_in_turn(le, items, a, b);
        assert(2 * w == w * 2);
        assert(inv(next(w), q2.mem));
    }
    singles_are_runs(le, items);
    held_again(mem, out, work, items, items, items);
    assert(inv(1, r.mem));
    let (r2, w) = loop_counts(
        one_c,
        n,
        width_labels(),
        BinOp::Mul,
        p.two_c,
        s.b,
        p.end,
        p.last,
        code,
        sem,
        inv,
        next,
        len,
        1,
        r,
    );
    r2
}

// The copy.

/// The body of the loop that copies stays in its block.
proof fn copy_body_local(
    arr: Temp,
    arr_ty: &Type,
    read_ty: &Type,
    elem_ty: &Type,
    flat: FlatElemKind,
    out: Temp,
    work: Temp,
    i: Temp,
    b: FState,
)
    ensures
        ({
            let (b1, b2, b3, b4, b5, elem) = copy_body(
                arr,
                arr_ty,
                read_ty,
                elem_ty,
                flat,
                out,
                work,
                i,
                b,
            );
            &&& stays_local(b, b1)
            &&& stays_local(b1, b2)
            &&& stays_local(b2, b3)
            &&& stays_local(b3, b4)
            &&& stays_local(b4, b5)
            &&& stays_local(b, b5)
            &&& b5.blocks.len() == b.blocks.len()
            &&& b5.env.current_block == b.env.current_block
            &&& b3.temp_types == b2.temp_types
            &&& b5.temp_types.len() < u32::MAX ==> b1.temp_types.len() == b.temp_types.len() + 1
                && b4.temp_types.len() == b3.temp_types.len() + 1 && b5.temp_types.len()
                == b4.temp_types.len() + 1
        }),
{
    let (b1, b2, b3, b4, b5, elem) = copy_body(
        arr,
        arr_ty,
        read_ty,
        elem_ty,
        flat,
        out,
        work,
        i,
        b,
    );
    let raw = b.index(arr, i, arr_ty, &Type::Int64, read_ty, false).1;
    reveal(coerce_arg_to_param_repr_spec);
    coerce_local(b1, raw, read_ty, elem_ty);
    emit_local(b2, Instruction::FreeBoxShellIfDistinct { val: raw, other: elem });
    assert(stays_local(b, b1) && stays_local(b3, b4) && stays_local(b4, b5)) by {
        reveal(FState::index);
        reveal(FState::call_intrinsic);
        reveal(FState::alloc_temp);
        reveal(FState::emit);
        reveal_with_fuel(instrs, 2);
    }
    operations_add();
    local_adds_up(b, b1, b2);
    local_adds_up(b, b2, b3);
    local_adds_up(b, b3, b4);
    local_adds_up(b, b4, b5);
    assert(b5.env.current_block == b.env.current_block) by {
        reveal(FState::index);
        reveal(FState::coerce);
        reveal(FState::call_intrinsic);
        reveal(FState::alloc_temp);
        reveal(FState::emit);
    }
}

/// The body of the loop that copies pushes the element to both arrays.
proof fn copy_body_runs(
    arr: Temp,
    arr_ty: &Type,
    read_ty: &Type,
    elem_ty: &Type,
    flat: FlatElemKind,
    out: Temp,
    work: Temp,
    i: Temp,
    b: FState,
    code: Seq<BasicBlock>,
    sem: Oracle,
    items: Seq<Value>,
    k: int,
    r: Run,
) -> (r2: Run)
    requires
        is_open(b),
        ({
            let last = copy_body(arr, arr_ty, read_ty, elem_ty, flat, out, work, i, b).4;
            &&& last.blocks.len() < u32::MAX
            &&& last.temp_types.len() < u32::MAX
            &&& part_stands(b, last, code)
        }),
        is_at(b, r),
        arr.0 < b.temp_types.len(),
        i.0 < b.temp_types.len(),
        r.vals[arr] == Value::Items(items),
        r.vals[i] == Value::Number(k),
    ensures
        ({
            let last = copy_body(arr, arr_ty, read_ty, elem_ty, flat, out, work, i, b).4;
            &&& comes_to(code, sem, r, r2)
            &&& is_at(last, r2)
            &&& same_below(b, r, r2)
            &&& r2.mem == pushed(pushed(r.mem, out, items[k]), work, items[k])
        }),
{
    copy_body_local(arr, arr_ty, read_ty, elem_ty, flat, out, work, i, b);
    let (b1, b2, b3, b4, b5, elem) = copy_body(
        arr,
        arr_ty,
        read_ty,
        elem_ty,
        flat,
        out,
        work,
        i,
        b,
    );
    let raw = b.index(arr, i, arr_ty, &Type::Int64, read_ty, false).1;
    local_adds_up(b3, b4, b5);
    local_adds_up(b2, b3, b5);
    local_adds_up(b1, b2, b5);
    halves_stand(b, b1, b5, code);
    halves_stand(b1, b2, b5, code);
    halves_stand(b2, b3, b5, code);
    halves_stand(b3, b4, b5, code);
    element_runs(b, arr, i, arr_ty, read_ty, code, sem, r);
    let i1 = Instruction::Index {
        dst: raw,
        object: arr,
        key: i,
        obj_ty: *arr_ty,
        key_ty: Type::Int64,
        result_ty: *read_ty,
        nonneg: false,
    };
    let r1 = after_instr(sem, i1, r);
    reveal(coerce_arg_to_param_repr_spec);
    let r2 = if b2 == b1 && elem == raw {
        comes_to_itself(code, sem, r1);
        r1
    } else {
        operations_add();
        conversion_runs(b1, raw, read_ty, elem_ty, code, sem, r1);
        after_instr(
            sem,
            Instruction::Coerce { dst: elem, src: raw, from_ty: *read_ty, to_ty: *elem_ty },
            r1,
        )
    };
    comes_further(code, sem, r, r1, r2);
    assert(r2.vals[elem] == items[k] && elem.0 < b2.temp_types.len());
    let i3 = Instruction::FreeBoxShellIfDistinct { val: raw, other: elem };
    let r3 = if is_union_ty(read_ty) {
        emitted_runs(b2, i3, code, sem, r2);
        after_instr(sem, i3, r2)
    } else {
        comes_to_itself(code, sem, r2);
        r2
    };
    comes_further(code, sem, r, r2, r3);
    reveal(FState::call_intrinsic);
    let push = Intrinsic::FlatArrayPush(flat);
    let i4 = Instruction::CallIntrinsic {
        dst: b3.alloc_temp(Type::Null).1,
        intrinsic: push,
        args: two(out, elem),
        ret_ty: Type::Null,
    };
    made_runs(b3, Type::Null, i4, code, sem, r3);
    let r4 = after_instr(sem, i4, r3);
    comes_further(code, sem, r, r3, r4);
    let i5 = Instruction::CallIntrinsic {
        dst: b4.alloc_temp(Type::Null).1,
        intrinsic: push,
        args: two(work, elem),
        ret_ty: Type::Null,
    };
    made_runs(b4, Type::Null, i5, code, sem, r4);
    let r5 = after_instr(sem, i5, r4);
    comes_further(code, sem, r, r4, r5);
    assert(same_below(b, r, r3));
    r5
}

/// What is in front of the loops stays local.
proof fn front_local(arr: Temp, arr_ty: &Type, flat: FlatElemKind, result_type: &Type, b: FState)
    ensures
        ({
            let p = sort_front(arr, arr_ty, flat, result_type, b);
            let t = b.temp_types.len();
            &&& stays_local(b, p.measured)
            &&& stays_local(p.measured, p.first)
            &&& stays_local(p.first, p.second)
            &&& stays_local(p.second, p.zeroed)
            &&& stays_local(p.zeroed, p.b)
            &&& stays_local(b, p.b)
            &&& p.b.temp_types.len() < u32::MAX ==> p.b.temp_types.len() == t + 5 && p.n.0 == t
                && p.out.0 == t + 1 && p.work.0 == t + 2 && p.zero.0 == t + 3 && p.one_c.0 == t + 4
                && p.measured.temp_types.len() == t + 1 && p.first.temp_types.len() == t + 2
                && p.second.temp_types.len() == t + 3 && p.zeroed.temp_types.len() == t + 4
        }),
{
    let p = sort_front(arr, arr_ty, flat, result_type, b);
    assert(stays_local(b, p.measured) && stays_local(p.measured, p.first) && stays_local(
        p.first,
        p.second,
    ) && stays_local(p.second, p.zeroed) && stays_local(p.zeroed, p.b)) by {
        reveal(emit_iterable_len_spec);
        reveal(FState::call);
        reveal(FState::call_intrinsic);
        reveal(FState::register_owned);
        reveal(FState::const_temp);
        reveal(FState::alloc_temp);
        reveal(FState::emit);
        reveal_with_fuel(instrs, 2);
    }
    assert(p.b.temp_types.len() < u32::MAX ==> p.b.temp_types.len() == b.temp_types.len() + 5
        && p.n.0 == b.temp_types.len() && p.out.0 == b.temp_types.len() + 1 && p.work.0
        == b.temp_types.len() + 2 && p.zero.0 == b.temp_types.len() + 3 && p.one_c.0
        == b.temp_types.len() + 4 && p.measured.temp_types.len() == b.temp_types.len() + 1
        && p.first.temp_types.len() == b.temp_types.len() + 2 && p.second.temp_types.len()
        == b.temp_types.len() + 3 && p.zeroed.temp_types.len() == b.temp_types.len() + 4) by {
        reveal(emit_iterable_len_spec);
        reveal(FState::call);
        reveal(FState::call_intrinsic);
        reveal(FState::register_owned);
        reveal(FState::const_temp);
        reveal(FState::alloc_temp);
        reveal(FState::emit);
    }
    local_adds_up(b, p.measured, p.first);
    local_adds_up(b, p.first, p.second);
    local_adds_up(b, p.second, p.zeroed);
    local_adds_up(b, p.zeroed, p.b);
}

/// What is in front of the loops runs: the arrays are empty.
proof fn front_runs(
    arr: Temp,
    arr_ty: &Type,
    flat: FlatElemKind,
    result_type: &Type,
    elem_ty: Type,
    b: FState,
    code: Seq<BasicBlock>,
    sem: Oracle,
    items: Seq<Value>,
    r: Run,
) -> (r2: Run)
    requires
        is_open(b),
        ({
            let p = sort_front(arr, arr_ty, flat, result_type, b);
            &&& p.b.blocks.len() < u32::MAX
            &&& p.b.temp_types.len() < u32::MAX
            &&& part_stands(b, p.b, code)
        }),
        is_at(b, r),
        arr.0 < b.temp_types.len(),
        r.vals[arr] == Value::Items(items),
    ensures
        ({
            let p = sort_front(arr, arr_ty, flat, result_type, b);
            let arrays = sort_arrays(p, result_type, elem_ty);
            &&& comes_to(code, sem, r, r2)
            &&& is_at(p.b, r2)
            &&& same_below(b, r, r2)
            &&& sort_ready(&arrays, p.n, p.zero, items.len(), p.b, r2)
            &&& r2.mem == held(r.mem, p.out, p.work, Seq::empty(), Seq::empty())
        }),
{
    let p = sort_front(arr, arr_ty, flat, result_type, b);
    front_local(arr, arr_ty, flat, result_type, b);
    local_adds_up(p.second, p.zeroed, p.b);
    local_adds_up(p.first, p.second, p.b);
    local_adds_up(p.measured, p.first, p.b);
    halves_stand(b, p.measured, p.b, code);
    halves_stand(p.measured, p.first, p.b, code);
    halves_stand(p.first, p.second, p.b, code);
    halves_stand(p.second, p.zeroed, p.b, code);
    length_runs(b, arr, arr_ty, code, sem, r);
    let r1 = Run { at: r.at + 1, vals: r.vals.insert(p.n, length_of(r.vals[arr])), ..r };
    let alloc = Intrinsic::FlatArrayAlloc(flat);
    let ty = *result_type;
    let i2 = Instruction::CallIntrinsic {
        dst: p.out,
        intrinsic: alloc,
        args: List::Nil,
        ret_ty: ty,
    };
    let e2 = p.measured.alloc_temp(ty).0.emit(i2);
    let i3 = Instruction::CallIntrinsic {
        dst: p.work,
        intrinsic: alloc,
        args: List::Nil,
        ret_ty: ty,
    };
    let e3 = p.first.alloc_temp(ty).0.emit(i3);
    assert(alike(p.first, e2) && alike(p.second, e3) && p.out
        == p.measured.alloc_temp(ty).1 && p.work == p.first.alloc_temp(ty).1) by {
        reveal(FState::call_intrinsic);
        reveal(FState::register_owned);
    }
    made_runs(p.measured, ty, i2, code, sem, r1);
    let r2 = after_instr(sem, i2, r1);
    comes_further(code, sem, r, r1, r2);
    made_runs(p.first, ty, i3, code, sem, r2);
    let r3 = after_instr(sem, i3, r2);
    comes_further(code, sem, r, r2, r3);
    let c0 = Const::Int(0, Type::Int64);
    let c1 = Const::Int(1, Type::Int64);
    constant_runs(p.second, c0, code, sem, r3);
    let r4 = after_instr(sem, Instruction::Const { dst: p.zero, value: c0 }, r3);
    comes_further(code, sem, r, r3, r4);
    constant_runs(p.zeroed, c1, code, sem, r4);
    let r5 = after_instr(sem, Instruction::Const { dst: p.one_c, value: c1 }, r4);
    comes_further(code, sem, r, r4, r5);
    assert(r5.mem == held(r.mem, p.out, p.work, Seq::empty(), Seq::empty()));
    r5
}

/// The loop that copies fills both arrays with the elements.
proof fn copy_loop_runs(
    arr: Temp,
    arr_ty: &Type,
    read_ty: &Type,
    elem_ty: Type,
    flat: FlatElemKind,
    result_type: &Type,
    b: FState,
    code: Seq<BasicBlock>,
    sem: Oracle,
    items: Seq<Value>,
    mem: Mem,
    r: Run,
) -> (r2: Run)
    requires
        ({
            let p = sort_front(arr, arr_ty, flat, result_type, b);
            let arrays = sort_arrays(p, result_type, elem_ty);
            let (c1, copy) = begin_count_loop_spec(p.zero, p.n, copy_labels(), p.b);
            let c2 = copy_body(arr, arr_ty, read_ty, &elem_ty, flat, p.out, p.work, copy.i, c1).4;
            let c3 = end_count_loop_spec(&copy, p.one_c, c2);
            &&& is_open(p.b)
            &&& c3.blocks.len() < u32::MAX
            &&& c3.temp_types.len() < u32::MAX
            &&& part_stands(p.b, c3, code)
            &&& is_at(p.b, r)
            &&& arr.0 < p.b.temp_types.len()
            &&& r.vals[arr] == Value::Items(items)
            &&& sort_ready(&arrays, p.n, p.zero, items.len(), p.b, r)
            &&& r.mem == held(mem, p.out, p.work, Seq::empty(), Seq::empty())
        }),
    ensures
        ({
            let p = sort_front(arr, arr_ty, flat, result_type, b);
            let (c1, copy) = begin_count_loop_spec(p.zero, p.n, copy_labels(), p.b);
            let c2 = copy_body(arr, arr_ty, read_ty, &elem_ty, flat, p.out, p.work, copy.i, c1).4;
            let c3 = end_count_loop_spec(&copy, p.one_c, c2);
            &&& comes_to(code, sem, r, r2)
            &&& is_open(c3)
            &&& is_at(c3, r2)
            &&& same_below(p.b, r, r2)
            &&& r2.mem == held(mem, p.out, p.work, items, items)
        }),
{
    let p = sort_front(arr, arr_ty, flat, result_type, b);
    let (c1, copy) = begin_count_loop_spec(p.zero, p.n, copy_labels(), p.b);
    let c2 = copy_body(arr, arr_ty, read_ty, &elem_ty, flat, p.out, p.work, copy.i, c1).4;
    let c3 = end_count_loop_spec(&copy, p.one_c, c2);
    let len = items.len() as int;
    let out = p.out;
    let work = p.work;
    copy_body_local(arr, arr_ty, read_ty, &elem_ty, flat, out, work, copy.i, c1);
    assert(c3.blocks.len() == c2.blocks.len() && c3.temp_types == c2.temp_types) by {
        reveal(end_count_loop_spec);
        operations_add();
    }
    count_start_adds(p.zero, p.n, copy_labels(), p.b);
    count_lies(p.zero, p.n, copy_labels(), p.b);
    count_end_is(p.zero, p.n, copy_labels(), p.one_c, p.b, c2);
    counting_stands(p.zero, p.n, copy_labels(), BinOp::Add, p.one_c, p.b, c2, c3, code);
    let inv = |k: int, now: Mem|
        0 <= k <= len && now == held(mem, out, work, items.take(k), items.take(k));
    let next = |k: int| k + 1;
    assert forall|k: int, q: Run|
        k < len && inv(k, q.mem) && same_below(p.b, r, q) && #[trigger] starts_count(
            c1,
            copy.i,
            k,
            q,
        ) implies k < next(k) && exists|q2: Run|
        {
            &&& #[trigger] comes_to(code, sem, q, q2)
            &&& is_at(c2, q2)
            &&& same_below(c1, q, q2)
            &&& inv(next(k), q2.mem)
            &&& value_of_op(BinOp::Add, Value::Number(k), q2.vals[p.one_c]) == Value::Number(
                next(k),
            )
        } by {
        let now = items.take(k);
        let then = items.take(k + 1);
        let q2 = copy_body_runs(
            arr,
            arr_ty,
            read_ty,
            &elem_ty,
            flat,
            out,
            work,
            copy.i,
            c1,
            code,
            sem,
            items,
            k,
            q,
        );
        assert(now.push(items[k]) =~= then);
        held_again(mem, out, work, now, now, then);
        held_again(mem, out, work, then, now, then);
        assert(inv(next(k), q2.mem));
    }
    assert(items.take(0) =~= Seq::empty());
    assert(inv(0, r.mem));
    let (r2, k) = loop_counts(
        p.zero,
        p.n,
        copy_labels(),
        BinOp::Add,
        p.one_c,
        p.b,
        c2,
        c3,
        code,
        sem,
        inv,
        next,
        len,
        0,
        r,
    );
    assert(items.take(len) =~= items);
    r2
}

/// The array is sorted: every element compares to the later ones by a number that is not positive,
/// it has the elements of `items`, each as often, and elements that the comparison does not tell
/// apart are in the same order.
pub open spec fn is_sorted(
    num: spec_fn(Value, Value) -> int,
    items: Seq<Value>,
    a: Seq<Value>,
) -> bool {
    &&& forall|i: int, j: int| 0 <= i < j < a.len() ==> num(#[trigger] a[i], #[trigger] a[j]) <= 0
    &&& rearranged(not_positive(num), items, a)
}

/// A run of what the sort of an array of numbers is lowered to comes behind it with an array that
/// is sorted: from where the array has been evaluated the run comes to the code behind the sort,
/// and the result holds the elements of the array in the order that the comparison gives, equal
/// ones in their order. Nothing else changes. This holds where the comparison is a total order up
/// to equality and changes nothing.
pub proof fn sort_sorts(
    l: Lower,
    array_e: &TypedExpr,
    order: &Lambda,
    elem_ty: Type,
    flat: FlatElemKind,
    result_type: &Type,
    s: St,
    code: Seq<BasicBlock>,
    sem: Oracle,
    m: Meaning,
    num: spec_fn(Value, Value) -> int,
    items: Seq<Value>,
    r: Run,
) -> (r2: Run)
    requires
        bodies_mean(l, code, sem, m),
        (m.known)(*order),
        compares(m, *order, num),
        orders(not_positive(num)),
        ({
            let (s1, arr) = low(l, array_e, s);
            let last = lower_flat_sort_spec(l, array_e, order, elem_ty, flat, result_type, s).0.b;
            &&& fits(m, s1.b, r)
            &&& is_open(s1.b)
            &&& last.blocks.len() < u32::MAX
            &&& last.temp_types.len() < u32::MAX
            &&& part_stands(s1.b, last, code)
            &&& is_at(s1.b, r)
            &&& arr.0 < s1.b.temp_types.len()
            &&& r.vals[arr] == Value::Items(items)
        }),
    ensures
        ({
            let (s1, arr) = low(l, array_e, s);
            let (s2, t) = lower_flat_sort_spec(l, array_e, order, elem_ty, flat, result_type, s);
            let a = r2.mem.outs[t];
            &&& comes_to(code, sem, r, r2)
            &&& is_at(s2.b, r2)
            &&& same_below(s1.b, r, r2)
            &&& r2.vals[t] == Value::Made
            &&& is_sorted(num, items, a)
            &&& r2.mem.cells == r.mem.cells
            &&& r2.mem.calls == r.mem.calls
        }),
{
    sort_is(l, array_e, order, elem_ty, flat, result_type, s);
    let arr_ty = array_e.ty();
    let read_ty = combinator_read_elem_ty_spec(array_e, s);
    let (s1, arr) = low(l, array_e, s);
    let p = sort_front(arr, &arr_ty, flat, result_type, s1.b);
    let (c1, copy) = begin_count_loop_spec(p.zero, p.n, copy_labels(), p.b);
    let c2 = copy_body(arr, &arr_ty, &read_ty, &elem_ty, flat, p.out, p.work, copy.i, c1).4;
    let c3 = end_count_loop_spec(&copy, p.one_c, c2);
    let arrays = sort_arrays(p, result_type, elem_ty);
    let sw = St { b: c3, c: s1.c };
    let ws = width_states(l, &arrays, order, p.n, p.zero, sw);
    front_local(arr, &arr_ty, flat, result_type, s1.b);
    copy_body_local(arr, &arr_ty, &read_ty, &elem_ty, flat, p.out, p.work, copy.i, c1);
    assert(c3.blocks.len() == c2.blocks.len() && c3.temp_types == c2.temp_types) by {
        reveal(end_count_loop_spec);
        operations_add();
    }
    count_start_adds(p.zero, p.n, copy_labels(), p.b);
    if count_room(p.b) && c2.blocks.len() < u32::MAX && c2.temp_types.len() < u32::MAX {
        count_lies(p.zero, p.n, copy_labels(), p.b);
        count_end_is(p.zero, p.n, copy_labels(), p.one_c, p.b, c2);
    }
    counting_local(p.zero, p.n, copy_labels(), BinOp::Add, p.one_c, p.b, c2, c3);
    width_local(l, &arrays, order, p.n, p.zero, sw, code, sem, m);
    local_adds_up(p.b, c3, ws.last);
    halves_stand(s1.b, p.b, ws.last, code);
    halves_stand(p.b, c3, ws.last, code);
    let r1 = front_runs(arr, &arr_ty, flat, result_type, elem_ty, s1.b, code, sem, items, r);
    let r2 = copy_loop_runs(
        arr,
        &arr_ty,
        &read_ty,
        elem_ty,
        flat,
        result_type,
        s1.b,
        code,
        sem,
        items,
        r.mem,
        r1,
    );
    comes_further(code, sem, r, r1, r2);
    assert(sort_ready(&arrays, p.n, p.zero, items.len(), c3, r2));
    assert(fits(m, c3, r2));
    let r3 = width_loop_runs(
        l,
        &arrays,
        order,
        p.n,
        p.zero,
        sw,
        code,
        sem,
        m,
        num,
        r.mem,
        items,
        r2,
    );
    comes_further(code, sem, r, r2, r3);
    let a = r3.mem.outs[p.out];
    assert forall|i: int, j: int| 0 <= i < j < a.len() implies num(#[trigger] a[i], #[trigger] a[j])
        <= 0 by {
        assert(not_positive(num)(a[i], a[j]));
    }
    r3
}

/// The loop over widths stays local.
proof fn width_local(
    l: Lower,
    arrays: &SortArrays,
    order: &Lambda,
    n: Temp,
    zero: Temp,
    s: St,
    code: Seq<BasicBlock>,
    sem: Oracle,
    m: Meaning,
)
    requires
        bodies_mean(l, code, sem, m),
        (m.known)(*order),
    ensures
        stays_local(s.b, width_states(l, arrays, order, n, zero, s).last),
{
    let p = width_states(l, arrays, order, n, zero, s);
    width_body_local(l, arrays, order, n, zero, s, code, sem, m);
    let mul = operation(p.widths.i_next, BinOp::Mul, p.widths.i, p.two_c, Type::Int64, Type::Int64);
    count_start_adds(arrays.one_c, n, width_labels(), s.b);
    if count_room(s.b) && p.end.blocks.len() < u32::MAX && p.end.temp_types.len() < u32::MAX {
        count_patched(arrays.one_c, n, width_labels(), mul, s.b, p.end);
    }
    counting_local(arrays.one_c, n, width_labels(), BinOp::Mul, p.two_c, s.b, p.end, p.last);
}

/// What `sort` is lowered to sorts: where the elements are numbers and the comparison is a function
/// literal that captures nothing, there is a result, and a run finds it sorted.
pub proof fn lowered_sort_sorts(
    l: Lower,
    array_e: &TypedExpr,
    order_e: &TypedExpr,
    elem_ty: Type,
    s: St,
    code: Seq<BasicBlock>,
    sem: Oracle,
    m: Meaning,
    num: spec_fn(Value, Value) -> int,
    items: Seq<Value>,
    r: Run,
) -> (r2: Run)
    requires
        FlatElemKind::from_type(&elem_ty) is Some,
        inlinable_lambda(order_e) is Some,
        bodies_mean(l, code, sem, m),
        (m.known)(inlinable_lambda(order_e)->Some_0),
        compares(m, inlinable_lambda(order_e)->Some_0, num),
        orders(not_positive(num)),
        ({
            let result_type = Type::Array(Rc::new(elem_ty));
            let (s1, arr) = low(l, array_e, s);
            let last = lower_sort_spec(l, array_e, order_e, &result_type, s).0.b;
            &&& fits(m, s1.b, r)
            &&& is_open(s1.b)
            &&& last.blocks.len() < u32::MAX
            &&& last.temp_types.len() < u32::MAX
            &&& part_stands(s1.b, last, code)
            &&& is_at(s1.b, r)
            &&& arr.0 < s1.b.temp_types.len()
            &&& r.vals[arr] == Value::Items(items)
        }),
    ensures
        ({
            let result_type = Type::Array(Rc::new(elem_ty));
            let (s2, t) = lower_sort_spec(l, array_e, order_e, &result_type, s);
            &&& comes_to(code, sem, r, r2)
            &&& is_at(s2.b, r2)
            &&& t is Some
            &&& r2.vals[t->Some_0] == Value::Made
            &&& is_sorted(num, items, r2.mem.outs[t->Some_0])
        }),
{
    reveal(lower_sort_spec);
    let result_type = Type::Array(Rc::new(elem_ty));
    let order = inlinable_lambda(order_e)->Some_0;
    let flat = FlatElemKind::from_type(&elem_ty)->Some_0;
    sort_sorts(l, array_e, &order, elem_ty, flat, &result_type, s, code, sem, m, num, items, r)
}

} // verus!
