//! Questions that ask a callback by a call through its value, as they run: the loop is left at the
//! first element that settles the question.

use crate::asking::{answer, effects};
use crate::ast::{BinOp, TypedExpr};
use crate::builder::FState;
use crate::coerce::{narrow_loop_index_spec, release_if_distinct_spec};
use crate::combinator::{
    Question, box_index_spec, every_question, lower_quantified_spec, some_question, stays_open_spec,
};
use crate::ctx::{Lower, St, low};
use crate::fusion::emit_local;
use crate::ir::{BasicBlock, Const, Instruction, IrUnaryOp, Temp, Terminator};
use crate::list::two;
use crate::looping::{
    front_runs, halves_stand, header_runs, loop_lies, loop_parts, loop_room, loop_start_adds,
    part_stands, passed, starts_body,
};
use crate::loops::{
    ElemAccess, LoopFlow, LoopFrame, TypedTemp, begin_combinator_loop_spec,
    call_body_closure_with_elem_boxes_spec, end_combinator_loop_spec,
    free_combinator_sealed_elem_spec, lower_callback_in_safe_ctx_spec,
};
use crate::questions::asks_by_loop;
use crate::recognize::{callback_signature, combinator_read_elem_ty_spec, two_or_more};
use crate::run::{
    Mem, Oracle, Run, Value, after_instr, cell_read_runs, comes_further, comes_one_step, comes_to,
    constant_runs, current, emitted_runs, instrs, is_at, is_here, is_open, local_adds_up, made_runs,
    negation_runs, same_below, stays_local, step,
};
use crate::types::Type;
use vstd::prelude::*;

verus! {

// Loops that are left early.

/// For how many elements the body runs, where it tells for each whether to go on.
pub open spec fn rounds(goes: Seq<bool>) -> nat
    decreases goes.len(),
{
    if goes.len() == 0 {
        0
    } else if goes[0] {
        1 + rounds(goes.drop_first())
    } else {
        1
    }
}

/// The code of a loop that is left where `keep` does not hold: it starts in `b` and its body is
/// emitted from where the start ends to `b2`.
pub open spec fn leaving_loop(
    iterable: Temp,
    iterable_ty: &Type,
    elem_ty: Type,
    b: FState,
    b2: FState,
    keep: Temp,
    code: Seq<BasicBlock>,
) -> bool {
    let access = ElemAccess::Materialize(elem_ty);
    let (b1, f) = begin_combinator_loop_spec(iterable, iterable_ty, access, b);
    let b3 = end_combinator_loop_spec(&f, LoopFlow::ContinueIf(keep), b2);
    &&& loop_room(b)
    &&& stays_local(b1, b2)
    &&& b2.blocks.len() < u32::MAX
    &&& b2.temp_types.len() < u32::MAX
    &&& part_stands(b, b3, code)
}

/// How the end of the loop lies.
pub(crate) proof fn leaving_loop_ends(
    iterable: Temp,
    iterable_ty: &Type,
    elem_ty: Type,
    b: FState,
    b2: FState,
    keep: Temp,
    code: Seq<BasicBlock>,
)
    requires
        leaving_loop(iterable, iterable_ty, elem_ty, b, b2, keep, code),
    ensures
        ({
            let p = loop_parts(iterable, iterable_ty, b);
            let access = ElemAccess::Materialize(elem_ty);
            let (b1, f) = begin_combinator_loop_spec(iterable, iterable_ty, access, b);
            let b3 = end_combinator_loop_spec(&f, LoopFlow::ContinueIf(keep), b2);
            let back = b2.env.current_block.0 as int;
            let one = Temp(b2.temp_types.len() as u32);
            let counted = Instruction::Binary {
                dst: f.i_next,
                op: BinOp::Add,
                lhs: f.i,
                rhs: one,
                operand_ty: Type::Int64,
                ty: Type::Int64,
            };
            let term = Terminator::CondJump { cond: keep, then_block: f.latch, else_block: f.exit };
            &&& is_open(b2)
            &&& part_stands(b1, b2, code)
            &&& code[p.pre.0 as int] == b1.blocks[p.pre.0 as int] && p.pre.0 < code.len()
            &&& code[f.header.0 as int] == b1.blocks[f.header.0 as int] && f.header.0 < code.len()
            &&& is_here(b1, code)
            &&& instrs(&code[back].code) == current(b2) && back < code.len()
            &&& code[back].term == term
            &&& instrs(&code[f.latch.0 as int].code) == seq![
                Instruction::Const { dst: one, value: Const::Int(1, Type::Int64) },
                counted,
            ] && f.latch.0 < code.len()
            &&& code[f.latch.0 as int].term == Terminator::Jump(f.header)
            &&& b3.env.current_block == f.exit && current(b3) == Seq::<Instruction>::empty()
            &&& is_open(b3) && stays_local(b, b3)
            &&& b3.blocks.len() == b2.blocks.len()
            &&& b3.temp_types.len() == b2.temp_types.len() + 1
        }),
{
    loop_lies(iterable, iterable_ty, elem_ty, b);
    reveal(end_combinator_loop_spec);
    reveal(FState::const_temp);
    reveal(FState::alloc_temp);
    reveal(FState::emit);
    reveal(FState::terminate);
    reveal(FState::switch_to);
    reveal_with_fuel(instrs, 3);
    let p = loop_parts(iterable, iterable_ty, b);
    let access = ElemAccess::Materialize(elem_ty);
    let (b1, f) = begin_combinator_loop_spec(iterable, iterable_ty, access, b);
    let b3 = end_combinator_loop_spec(&f, LoopFlow::ContinueIf(keep), b2);
    let back = b2.env.current_block.0 as int;
    assert(b2.blocks[f.latch.0 as int] == b1.blocks[f.latch.0 as int]);
    assert(b2.blocks[f.exit.0 as int] == b1.blocks[f.exit.0 as int]);
    assert(b2.blocks[f.header.0 as int] == b1.blocks[f.header.0 as int]);
    assert(b2.blocks[p.pre.0 as int] == b1.blocks[p.pre.0 as int]);
    assert(code[back] == b3.blocks[back]);
    assert(code[f.latch.0 as int] == b3.blocks[f.latch.0 as int]);
    assert(code[f.header.0 as int] == b3.blocks[f.header.0 as int]);
    assert(code[p.pre.0 as int] == b3.blocks[p.pre.0 as int]);
    let body = p.body.0 as int;
    assert(back != body ==> code[body] == b3.blocks[body]);
}

/// What the body does for the element at `k`, in a loop that `origin` comes to, where `before` has
/// been emitted: it comes to its end with the truth value `tells[k]`, by whatever calls and changes
/// `effect` tells.
pub open spec fn body_tells(
    code: Seq<BasicBlock>,
    sem: Oracle,
    before: FState,
    origin: Run,
    b: FState,
    b2: FState,
    f: LoopFrame,
    items: Seq<Value>,
    t: Temp,
    tells: Seq<bool>,
    effect: spec_fn(int, Mem) -> Mem,
) -> bool {
    forall|k: int, r: Run|
        0 <= k < items.len() && same_below(before, origin, r) && #[trigger] starts_body(
            b,
            f,
            items,
            k,
            r,
        ) ==> exists|r2: Run|
            {
                &&& #[trigger] comes_to(code, sem, r, r2)
                &&& passed(b, b2, r, r2)
                &&& r2.vals[t] == Value::Truth(tells[k])
                &&& r2.mem == effect(k, r.mem)
            }
}

/// From the header a run comes to the exit, having run the body for as many elements as it goes
/// on for.
proof fn rest_runs(
    iterable: Temp,
    iterable_ty: &Type,
    elem_ty: Type,
    b: FState,
    b2: FState,
    keep: Temp,
    code: Seq<BasicBlock>,
    sem: Oracle,
    items: Seq<Value>,
    goes: Seq<bool>,
    effect: spec_fn(int, Mem) -> Mem,
    before: FState,
    origin: Run,
    r: Run,
    k: int,
) -> (r2: Run)
    requires
        leaving_loop(iterable, iterable_ty, elem_ty, b, b2, keep, code),
        0 <= k <= items.len(),
        goes.len() == items.len(),
        iterable.0 < b.temp_types.len(),
        before.temp_types.len() <= b.temp_types.len(),
        same_below(before, origin, r),
        ({
            let p = loop_parts(iterable, iterable_ty, b);
            let access = ElemAccess::Materialize(elem_ty);
            let (b1, f) = begin_combinator_loop_spec(iterable, iterable_ty, access, b);
            &&& body_tells(code, sem, before, origin, b1, b2, f, items, keep, goes, effect)
            &&& r.block == f.header && r.at == 0
            &&& r.vals[p.len] == Value::Number(items.len() as int)
            &&& r.vals[iterable] == Value::Items(items)
            &&& (r.from == p.pre && r.vals[p.zero] == Value::Number(k)) || (r.from == f.latch
                && r.vals[f.i_next] == Value::Number(k))
        }),
    ensures
        ({
            let access = ElemAccess::Materialize(elem_ty);
            let (b1, f) = begin_combinator_loop_spec(iterable, iterable_ty, access, b);
            let b3 = end_combinator_loop_spec(&f, LoopFlow::ContinueIf(keep), b2);
            &&& comes_to(code, sem, r, r2)
            &&& is_at(b3, r2)
            &&& same_below(b, r, r2)
            &&& r2.mem == effects(effect, k, rounds(goes.skip(k)), r.mem)
        }),
    decreases items.len() - k,
{
    loop_lies(iterable, iterable_ty, elem_ty, b);
    leaving_loop_ends(iterable, iterable_ty, elem_ty, b, b2, keep, code);
    let p = loop_parts(iterable, iterable_ty, b);
    let access = ElemAccess::Materialize(elem_ty);
    let (b1, f) = begin_combinator_loop_spec(iterable, iterable_ty, access, b);
    let r1 = header_runs(iterable, iterable_ty, elem_ty, b, code, sem, r, k, items);
    reveal_with_fuel(effects, 2);
    if k < items.len() {
        assert(starts_body(b1, f, items, k, r1));
        assert(goes.skip(k)[0] == goes[k]);
        assert(goes.skip(k).drop_first() =~= goes.skip(k + 1));
        let r2 = choose|r2: Run|
            {
                &&& #[trigger] comes_to(code, sem, r1, r2)
                &&& passed(b1, b2, r1, r2)
                &&& r2.vals[keep] == Value::Truth(goes[k])
                &&& r2.mem == effect(k, r1.mem)
            };
        comes_further(code, sem, r, r1, r2);
        let r3 = step(code, sem, r2);
        comes_one_step(code, sem, r2);
        comes_further(code, sem, r, r2, r3);
        if goes[k] {
            assert(r3.block == f.latch && r3.at == 0);
            let r4 = step(code, sem, r3);
            comes_one_step(code, sem, r3);
            comes_further(code, sem, r, r3, r4);
            let r5 = step(code, sem, r4);
            comes_one_step(code, sem, r4);
            comes_further(code, sem, r, r4, r5);
            assert(r5.vals[f.i_next] == Value::Number(k + 1));
            let r6 = step(code, sem, r5);
            comes_one_step(code, sem, r5);
            comes_further(code, sem, r, r5, r6);
            let r7 = rest_runs(
                iterable,
                iterable_ty,
                elem_ty,
                b,
                b2,
                keep,
                code,
                sem,
                items,
                goes,
                effect,
                before,
                origin,
                r6,
                k + 1,
            );
            comes_further(code, sem, r, r6, r7);
            r7
        } else {
            assert(effects(effect, k + 1, 0, r3.mem) == r3.mem);
            r3
        }
    } else {
        r1
    }
}

/// A run of a loop that is left early runs the body for the first elements, in order, up to the
/// first one for which it does not go on, and for no others.
pub proof fn loop_runs_its_body_until_it_is_left(
    iterable: Temp,
    iterable_ty: &Type,
    elem_ty: Type,
    b: FState,
    b2: FState,
    keep: Temp,
    code: Seq<BasicBlock>,
    sem: Oracle,
    items: Seq<Value>,
    goes: Seq<bool>,
    effect: spec_fn(int, Mem) -> Mem,
    before: FState,
    origin: Run,
    r: Run,
) -> (r2: Run)
    requires
        leaving_loop(iterable, iterable_ty, elem_ty, b, b2, keep, code),
        goes.len() == items.len(),
        iterable.0 < b.temp_types.len(),
        before.temp_types.len() <= b.temp_types.len(),
        same_below(before, origin, r),
        ({
            let access = ElemAccess::Materialize(elem_ty);
            let (b1, f) = begin_combinator_loop_spec(iterable, iterable_ty, access, b);
            body_tells(code, sem, before, origin, b1, b2, f, items, keep, goes, effect)
        }),
        is_at(b, r),
        r.vals[iterable] == Value::Items(items),
    ensures
        ({
            let access = ElemAccess::Materialize(elem_ty);
            let f = begin_combinator_loop_spec(iterable, iterable_ty, access, b).1;
            let b3 = end_combinator_loop_spec(&f, LoopFlow::ContinueIf(keep), b2);
            &&& comes_to(code, sem, r, r2)
            &&& is_at(b3, r2)
            &&& is_open(b3)
            &&& same_below(b, r, r2)
            &&& r2.mem == effects(effect, 0, rounds(goes), r.mem)
        }),
{
    leaving_loop_ends(iterable, iterable_ty, elem_ty, b, b2, keep, code);
    loop_lies(iterable, iterable_ty, elem_ty, b);
    let r1 = front_runs(iterable, iterable_ty, elem_ty, b, code, sem, r, items);
    let r2 = rest_runs(
        iterable,
        iterable_ty,
        elem_ty,
        b,
        b2,
        keep,
        code,
        sem,
        items,
        goes,
        effect,
        before,
        origin,
        r1,
        0,
    );
    comes_further(code, sem, r, r1, r2);
    assert(goes.skip(0) =~= goes);
    r2
}

// The question.

/// Whether the question is still open after each of the elements.
pub open spec fn stays_open(q: &Question, preds: Seq<bool>) -> Seq<bool> {
    Seq::new(preds.len(), |k: int| preds[k] == q.start)
}

/// After what the callback does for an element, its truth value is put in the cell.
pub open spec fn kept_in(
    cell: Temp,
    preds: Seq<bool>,
    effect: spec_fn(int, Mem) -> Mem,
) -> spec_fn(int, Mem) -> Mem {
    |k: int, mem: Mem|
        {
            let after = effect(k, mem);
            Mem { cells: after.cells.insert(cell, Value::Truth(preds[k])), ..after }
        }
}

/// The cell holds the answer, and the body has run as often as the callback is asked.
proof fn cell_holds_the_answer(
    q: &Question,
    cell: Temp,
    preds: Seq<bool>,
    effect: spec_fn(int, Mem) -> Mem,
    k: int,
    mem: Mem,
)
    requires
        *q == some_question() || *q == every_question(),
        0 <= k <= preds.len(),
        mem.cells[cell] == Value::Truth(q.start),
    ensures
        ({
            let (truth, n) = answer(q, q.start, preds.skip(k));
            &&& rounds(stays_open(q, preds).skip(k)) == n
            &&& effects(kept_in(cell, preds, effect), k, n, mem).cells[cell] == Value::Truth(truth)
        }),
    decreases preds.len() - k,
{
    let goes = stays_open(q, preds);
    let kept = kept_in(cell, preds, effect);
    if k < preds.len() {
        assert(goes.skip(k)[0] == goes[k]);
        assert(goes.skip(k).drop_first() =~= goes.skip(k + 1));
        assert(preds.skip(k)[0] == preds[k]);
        assert(preds.skip(k).drop_first() =~= preds.skip(k + 1));
        if preds[k] == q.start {
            cell_holds_the_answer(q, cell, preds, effect, k + 1, kept(k, mem));
            let n = answer(q, q.start, preds.skip(k)).1;
            assert(effects(kept, k, n, mem) == effects(kept, k + 1, (n - 1) as nat, kept(k, mem)));
        } else {
            reveal_with_fuel(effects, 2);
            assert(answer(q, preds[k], preds.skip(k + 1)) == (preds[k], 0nat));
        }
    }
}

/// The states of a question that is asked by calls of a value: behind the collection and the
/// callback, in front of the loop, where its body starts, where the callback has been asked, and
/// where its body ends.
pub struct Calling {
    pub before: St,
    pub iterable: Temp,
    pub iterable_ty: Type,
    pub elem_ty: Type,
    pub body: Temp,
    pub cell: Temp,
    pub front: FState,
    pub start: FState,
    pub frame: LoopFrame,
    pub asked: FState,
    pub pred: Temp,
    pub end: FState,
    pub keep: Temp,
}

/// A question as it is asked by calls of a value.
pub open spec fn calling(
    l: Lower,
    iterable_e: &TypedExpr,
    callback: &TypedExpr,
    q: &Question,
    s: St,
) -> Calling {
    let iterable_ty = iterable_e.ty();
    let params = callback_signature(callback).params;
    let elem_ty = combinator_read_elem_ty_spec(iterable_e, s);
    let (s1, iterable) = low(l, iterable_e, s);
    let (before, body) = lower_callback_in_safe_ctx_spec(l, callback, s1);
    let (b, init) = before.b.const_temp(Const::Bool(q.start));
    let (b, cell) = b.alloc_temp(Type::Bool);
    let front = b.emit(Instruction::MakeCell { dst: cell, init, ty: Type::Bool });
    let access = ElemAccess::Materialize(elem_ty);
    let (start, frame) = begin_combinator_loop_spec(iterable, &iterable_ty, access, front);
    let (b, raw) = narrow_loop_index_spec(frame.i, start);
    let (b, idx) = box_index_spec(raw, two_or_more(&params), b);
    let args = two(TypedTemp { temp: frame.elem, ty: elem_ty }, idx);
    let (b, call) = call_body_closure_with_elem_boxes_spec(body, &args, &params, &Type::Bool, b);
    let b = release_if_distinct_spec(&call.boxes, call.dst, b);
    let asked = free_combinator_sealed_elem_spec(frame.elem, &elem_ty, b);
    let pred = call.dst;
    let b = asked.emit(Instruction::CellSet { cell, value: pred, ty: Type::Bool });
    let (end, keep) = stays_open_spec(pred, q.start, b);
    Calling {
        before,
        iterable,
        iterable_ty,
        elem_ty,
        body,
        cell,
        front,
        start,
        frame,
        asked,
        pred,
        end,
        keep,
    }
}

/// Where the callback is neither called directly nor inlined, a question is lowered to the
/// collection, the callback, a cell, a loop that puts the truth value for each element in the cell
/// and is left where that settles the question, and a read of the cell.
pub proof fn question_becomes_calls(
    l: Lower,
    iterable_e: &TypedExpr,
    callback: &TypedExpr,
    q: &Question,
    s: St,
)
    requires
        !asks_by_loop(callback, low(l, iterable_e, s).0),
    ensures
        ({
            let a = calling(l, iterable_e, callback, q, s);
            let b3 = end_combinator_loop_spec(&a.frame, LoopFlow::ContinueIf(a.keep), a.end);
            let (b4, t) = b3.cell_get(a.cell, &Type::Bool);
            let b = b4.emit(Instruction::FreeCell { cell: a.cell, ty: Type::Bool });
            lower_quantified_spec(l, iterable_e, callback, q, s) == (St { b, c: a.before.c }, t)
        }),
{
    reveal(lower_quantified_spec);
}

/// The code stands, the run is in front of it with the collection `items`, and the calls give
/// `preds` for the elements, by whatever changes `effect` tells.
pub open spec fn called(
    l: Lower,
    iterable_e: &TypedExpr,
    callback: &TypedExpr,
    q: &Question,
    s: St,
    code: Seq<BasicBlock>,
    sem: Oracle,
    items: Seq<Value>,
    preds: Seq<bool>,
    effect: spec_fn(int, Mem) -> Mem,
    r: Run,
) -> bool {
    let a = calling(l, iterable_e, callback, q, s);
    let last = lower_quantified_spec(l, iterable_e, callback, q, s).0.b;
    &&& !asks_by_loop(callback, low(l, iterable_e, s).0)
    &&& is_open(a.before.b)
    &&& last.blocks.len() < u32::MAX
    &&& last.temp_types.len() < u32::MAX
    &&& stays_local(a.start, a.asked)
    &&& a.pred.0 < a.asked.temp_types.len()
    &&& part_stands(a.before.b, last, code)
    &&& body_tells(
        code,
        sem,
        a.before.b,
        r,
        a.start,
        a.asked,
        a.frame,
        items,
        a.pred,
        preds,
        effect,
    )
    &&& is_at(a.before.b, r)
    &&& a.iterable.0 < a.before.b.temp_types.len()
    &&& r.vals[a.iterable] == Value::Items(items)
    &&& preds.len() == items.len()
}

/// How much the end of the loop adds.
pub(crate) proof fn leaving_end_adds(f: &LoopFrame, keep: Temp, b: FState)
    ensures
        ({
            let b3 = end_combinator_loop_spec(f, LoopFlow::ContinueIf(keep), b);
            &&& b3.blocks.len() == b.blocks.len()
            &&& b.temp_types.len() <= b3.temp_types.len()
            &&& b3.temp_types.len() < u32::MAX ==> b3.temp_types.len() == b.temp_types.len() + 1
            &&& b3.env.current_block == f.exit
        }),
{
    reveal(end_combinator_loop_spec);
    reveal(FState::const_temp);
    reveal(FState::alloc_temp);
    reveal(FState::emit);
    reveal(FState::terminate);
    reveal(FState::switch_to);
}

/// From where the callback has been asked a run comes to the end of the body, with the truth value
/// in the cell and whether the question is still open.
proof fn kept_runs(
    q: &Question,
    cell: Temp,
    pred: Temp,
    b: FState,
    code: Seq<BasicBlock>,
    sem: Oracle,
    r: Run,
    truth: bool,
) -> (r2: Run)
    requires
        is_open(b),
        ({
            let b1 = b.emit(Instruction::CellSet { cell, value: pred, ty: Type::Bool });
            let b2 = stays_open_spec(pred, q.start, b1).0;
            b2.temp_types.len() < u32::MAX && is_here(b2, code)
        }),
        is_at(b, r),
        r.vals[pred] == Value::Truth(truth),
    ensures
        ({
            let b1 = b.emit(Instruction::CellSet { cell, value: pred, ty: Type::Bool });
            let (b2, keep) = stays_open_spec(pred, q.start, b1);
            &&& comes_to(code, sem, r, r2)
            &&& is_at(b2, r2)
            &&& same_below(b, r, r2)
            &&& r2.vals[keep] == Value::Truth(truth == q.start)
            &&& r2.mem == Mem { cells: r.mem.cells.insert(cell, Value::Truth(truth)), ..r.mem }
        }),
{
    reveal(stays_open_spec);
    let set = Instruction::CellSet { cell, value: pred, ty: Type::Bool };
    let b1 = b.emit(set);
    let r1 = after_instr(sem, set, r);
    if q.start {
        emitted_runs(b, set, code, sem, r);
        r1
    } else {
        assert(is_open(b1) && b1.temp_types == b.temp_types && b.temp_types.len() < u32::MAX) by {
            reveal(FState::not);
            reveal(FState::alloc_temp);
            reveal(FState::emit);
        }
        let there = Run { block: b1.env.current_block, at: current(b1).len(), ..r };
        negation_runs(b1, pred, code, sem, there);
        emitted_runs(b, set, code, sem, r);
        negation_runs(b1, pred, code, sem, r1);
        let keep = b1.not(pred).1;
        let turn = Instruction::Unary {
            dst: keep,
            op: IrUnaryOp::Not,
            operand: pred,
            ty: Type::Bool,
        };
        let r2 = after_instr(sem, turn, r1);
        comes_further(code, sem, r, r1, r2);
        r2
    }
}

/// Putting the truth value in the cell stays local.
proof fn kept_local(q: &Question, cell: Temp, pred: Temp, b: FState)
    ensures
        ({
            let b1 = b.emit(Instruction::CellSet { cell, value: pred, ty: Type::Bool });
            stays_local(b, stays_open_spec(pred, q.start, b1).0)
        }),
{
    reveal(stays_open_spec);
    reveal(FState::not);
    reveal(FState::alloc_temp);
    reveal(FState::emit);
    reveal_with_fuel(instrs, 3);
}

/// Making the cell stays local.
proof fn front_local(q: &Question, b: FState)
    ensures
        ({
            let (b1, init) = b.const_temp(Const::Bool(q.start));
            let (b2, cell) = b1.alloc_temp(Type::Bool);
            let front = b2.emit(Instruction::MakeCell { dst: cell, init, ty: Type::Bool });
            &&& stays_local(b, b1)
            &&& stays_local(b1, front)
            &&& front.temp_types.len() < u32::MAX ==> b1.temp_types.len() == b.temp_types.len() + 1
                && front.temp_types.len() == b.temp_types.len() + 2 && cell.0 == b.temp_types.len()
                + 1
        }),
{
    reveal(FState::const_temp);
    reveal(FState::alloc_temp);
    reveal(FState::emit);
    reveal_with_fuel(instrs, 2);
}

/// Reading and freeing the cell stays local.
proof fn back_local(cell: Temp, b: FState)
    ensures
        ({
            let b1 = b.cell_get(cell, &Type::Bool).0;
            &&& stays_local(b, b1)
            &&& b1.temp_types.len() < u32::MAX ==> b.temp_types.len() + 1 == b1.temp_types.len()
        }),
{
    reveal(FState::cell_get);
    reveal(FState::alloc_temp);
    reveal(FState::emit);
    reveal_with_fuel(instrs, 2);
}

/// How the code of the question lies, where the code that asks the callback stays local.
pub(crate) proof fn question_lies(
    l: Lower,
    iterable_e: &TypedExpr,
    callback: &TypedExpr,
    q: &Question,
    s: St,
    code: Seq<BasicBlock>,
)
    requires
        !asks_by_loop(callback, low(l, iterable_e, s).0),
        ({
            let a = calling(l, iterable_e, callback, q, s);
            let last = lower_quantified_spec(l, iterable_e, callback, q, s).0.b;
            &&& is_open(a.before.b)
            &&& last.blocks.len() < u32::MAX
            &&& last.temp_types.len() < u32::MAX
            &&& stays_local(a.start, a.asked)
            &&& part_stands(a.before.b, last, code)
        }),
    ensures
        ({
            let a = calling(l, iterable_e, callback, q, s);
            let last = lower_quantified_spec(l, iterable_e, callback, q, s).0.b;
            let (b1, init) = a.before.b.const_temp(Const::Bool(q.start));
            let b3 = end_combinator_loop_spec(&a.frame, LoopFlow::ContinueIf(a.keep), a.end);
            let b4 = b3.cell_get(a.cell, &Type::Bool).0;
            &&& leaving_loop(a.iterable, &a.iterable_ty, a.elem_ty, a.front, a.end, a.keep, code)
            &&& part_stands(a.before.b, b1, code)
            &&& part_stands(b1, a.front, code)
            &&& part_stands(a.start, a.asked, code)
            &&& part_stands(a.asked, a.end, code)
            &&& part_stands(b3, b4, code)
            &&& part_stands(b4, last, code)
            &&& is_open(b1) && is_open(a.front) && is_open(a.start) && is_open(a.asked) && is_open(
                b3,
            ) && is_open(b4)
            &&& b1.temp_types.len() == a.before.b.temp_types.len() + 1
            &&& a.front.temp_types.len() == a.before.b.temp_types.len() + 2
            &&& a.frame.i.0 < a.start.temp_types.len()
            &&& a.frame.elem.0 < a.start.temp_types.len()
            &&& a.asked.blocks.len() < u32::MAX && a.asked.temp_types.len() < u32::MAX
            &&& a.end.temp_types.len() < u32::MAX
            &&& b3.temp_types.len() < u32::MAX
        }),
{
    let a = calling(l, iterable_e, callback, q, s);
    let (s2, t) = lower_quantified_spec(l, iterable_e, callback, q, s);
    question_becomes_calls(l, iterable_e, callback, q, s);
    let (b1, init) = a.before.b.const_temp(Const::Bool(q.start));
    let b3 = end_combinator_loop_spec(&a.frame, LoopFlow::ContinueIf(a.keep), a.end);
    let b4 = b3.cell_get(a.cell, &Type::Bool).0;
    let free = Instruction::FreeCell { cell: a.cell, ty: Type::Bool };
    front_local(q, a.before.b);
    loop_start_adds(a.iterable, &a.iterable_ty, a.elem_ty, a.front);
    kept_local(q, a.cell, a.pred, a.asked);
    local_adds_up(a.start, a.asked, a.end);
    leaving_end_adds(&a.frame, a.keep, a.end);
    back_local(a.cell, b3);
    emit_local(b4, free);
    local_adds_up(b3, b4, s2.b);
    local_adds_up(a.before.b, b1, a.front);
    assert(is_open(a.front));
    loop_lies(a.iterable, &a.iterable_ty, a.elem_ty, a.front);
    assert(part_stands(a.front, b3, b3.blocks));
    assert(leaving_loop(a.iterable, &a.iterable_ty, a.elem_ty, a.front, a.end, a.keep, b3.blocks));
    leaving_loop_ends(a.iterable, &a.iterable_ty, a.elem_ty, a.front, a.end, a.keep, b3.blocks);
    local_adds_up(a.front, b3, s2.b);
    halves_stand(a.before.b, a.front, s2.b, code);
    halves_stand(a.before.b, b1, a.front, code);
    halves_stand(a.front, b3, s2.b, code);
    halves_stand(b3, b4, s2.b, code);
    leaving_loop_ends(a.iterable, &a.iterable_ty, a.elem_ty, a.front, a.end, a.keep, code);
    halves_stand(a.start, a.asked, a.end, code);
}

/// A run of what a question is lowered to comes behind it with the answer, also where the callback
/// is called through its value. It has been called for the first elements, in order, and for no
/// others: for as many as `answer` says.
pub proof fn question_is_answered_by_calls(
    l: Lower,
    iterable_e: &TypedExpr,
    callback: &TypedExpr,
    q: &Question,
    s: St,
    code: Seq<BasicBlock>,
    sem: Oracle,
    items: Seq<Value>,
    preds: Seq<bool>,
    effect: spec_fn(int, Mem) -> Mem,
    r: Run,
) -> (r2: Run)
    requires
        *q == some_question() || *q == every_question(),
        called(l, iterable_e, callback, q, s, code, sem, items, preds, effect, r),
    ensures
        ({
            let (s2, t) = lower_quantified_spec(l, iterable_e, callback, q, s);
            let cell = calling(l, iterable_e, callback, q, s).cell;
            let (truth, n) = answer(q, q.start, preds);
            let mem = Mem { cells: r.mem.cells.insert(cell, Value::Truth(q.start)), ..r.mem };
            &&& comes_to(code, sem, r, r2)
            &&& is_at(s2.b, r2)
            &&& r2.vals[t] == Value::Truth(truth)
            &&& r2.mem == effects(kept_in(cell, preds, effect), 0, n, mem)
        }),
{
    let a = calling(l, iterable_e, callback, q, s);
    let (s2, t) = lower_quantified_spec(l, iterable_e, callback, q, s);
    question_becomes_calls(l, iterable_e, callback, q, s);
    question_lies(l, iterable_e, callback, q, s, code);
    let goes = stays_open(q, preds);
    let kept = kept_in(a.cell, preds, effect);
    let (b1, init) = a.before.b.const_temp(Const::Bool(q.start));
    let made = Instruction::MakeCell { dst: a.cell, init, ty: Type::Bool };
    let b3 = end_combinator_loop_spec(&a.frame, LoopFlow::ContinueIf(a.keep), a.end);
    let b4 = b3.cell_get(a.cell, &Type::Bool).0;
    let free = Instruction::FreeCell { cell: a.cell, ty: Type::Bool };
    front_local(q, a.before.b);
    constant_runs(a.before.b, Const::Bool(q.start), code, sem, r);
    let r1 = after_instr(sem, Instruction::Const { dst: init, value: Const::Bool(q.start) }, r);
    made_runs(b1, Type::Bool, made, code, sem, r1);
    let r2 = after_instr(sem, made, r1);
    comes_further(code, sem, r, r1, r2);
    assert forall|k: int, x: Run|
        0 <= k < items.len() && same_below(a.before.b, r, x) && #[trigger] starts_body(
            a.start,
            a.frame,
            items,
            k,
            x,
        ) implies exists|x2: Run|
        {
            &&& #[trigger] comes_to(code, sem, x, x2)
            &&& passed(a.start, a.end, x, x2)
            &&& x2.vals[a.keep] == Value::Truth(goes[k])
            &&& x2.mem == kept(k, x.mem)
        } by {
        let x1 = choose|x1: Run|
            {
                &&& #[trigger] comes_to(code, sem, x, x1)
                &&& passed(a.start, a.asked, x, x1)
                &&& x1.vals[a.pred] == Value::Truth(preds[k])
                &&& x1.mem == effect(k, x.mem)
            };
        let x2 = kept_runs(q, a.cell, a.pred, a.asked, code, sem, x1, preds[k]);
        comes_further(code, sem, x, x1, x2);
    }
    let r3 = loop_runs_its_body_until_it_is_left(
        a.iterable,
        &a.iterable_ty,
        a.elem_ty,
        a.front,
        a.end,
        a.keep,
        code,
        sem,
        items,
        goes,
        kept,
        a.before.b,
        r,
        r2,
    );
    comes_further(code, sem, r, r2, r3);
    assert(preds.skip(0) =~= preds);
    assert(goes.skip(0) =~= goes);
    cell_holds_the_answer(q, a.cell, preds, effect, 0, r2.mem);
    cell_read_runs(b3, a.cell, &Type::Bool, code, sem, r3);
    let r4 = after_instr(sem, Instruction::CellGet { dst: t, cell: a.cell, ty: Type::Bool }, r3);
    comes_further(code, sem, r, r3, r4);
    emitted_runs(b4, free, code, sem, r4);
    let r5 = after_instr(sem, free, r4);
    comes_further(code, sem, r, r4, r5);
    r5
}

} // verus!
