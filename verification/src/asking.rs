//! Loops that ask a question of their elements, as they run: whether some element is such, and
//! whether every element is.

use crate::ast::{BinOp, TypedExpr};
use crate::builder::FState;
use crate::combinator::{
    Question, begin_flag_loop_spec, emit_range_cond_spec, end_flag_loop_spec, every_question,
    lower_every_spec, lower_quantified_spec, lower_some_spec, some_question, stays_open_spec,
};
use crate::ctx::{Lower, St};
use crate::ir::{BasicBlock, BlockId, Const, Incoming, Instruction, Temp, Terminator};
use crate::list::two;
use crate::looping::part_stands;
use crate::loops::emit_iterable_len_spec;
use crate::run::{
    Mem, Oracle, Run, Value, after_instr, comes_further, comes_one_step, comes_to, constant_runs,
    current, emitted_runs, instrs, is_at, is_here, is_open, length_runs, negation_runs,
    operator_runs, same_below, stays_local, step, truth_of,
};
use crate::types::Type;
use vstd::prelude::*;

verus! {

/// The answer to a question about elements for which the callback gives `preds`, and how often
/// the callback is asked, where `flag` is the truth value so far: the loop goes on while that is
/// the one at the start, and takes in the truth value for the next element.
pub open spec fn answer(q: &Question, flag: bool, preds: Seq<bool>) -> (bool, nat)
    decreases preds.len(),
{
    if preds.len() == 0 || flag != q.start {
        (flag, 0)
    } else {
        let (r, n) = answer(q, truth_of(q.op, flag, preds[0]), preds.drop_first());
        (r, n + 1)
    }
}

/// The truth values turned round.
pub open spec fn turned_round(preds: Seq<bool>) -> Seq<bool> {
    Seq::new(preds.len(), |i: int| !preds[i])
}

/// Whether some element is such and whether every element is such are lowered by the same code
/// but for the question: the truth value at the start, by which the loop is left, the operator
/// that takes in an element, and the names of the blocks. The two questions start with opposite
/// truth values.
pub proof fn some_and_every_differ_in_the_question(
    l: Lower,
    iterable: &TypedExpr,
    callback: &TypedExpr,
    s: St,
)
    ensures
        lower_some_spec(l, iterable, callback, s) == lower_quantified_spec(
            l,
            iterable,
            callback,
            &some_question(),
            s,
        ),
        lower_every_spec(l, iterable, callback, s) == lower_quantified_spec(
            l,
            iterable,
            callback,
            &every_question(),
            s,
        ),
        some_question().start == !every_question().start,
{
    reveal(lower_some_spec);
    reveal(lower_every_spec);
}

/// While a question is open, the truth value for an element is the next one of the loop.
pub proof fn open_question_takes_the_element(pred: bool)
    ensures
        truth_of(some_question().op, some_question().start, pred) == pred,
        truth_of(every_question().op, every_question().start, pred) == pred,
{
}

/// The loop for some element answers yes where the callback holds of one.
pub proof fn some_finds_an_element(preds: Seq<bool>)
    ensures
        answer(&some_question(), some_question().start, preds).0 <==> (exists|i: int|
            0 <= i < preds.len() && #[trigger] preds[i]),
    decreases preds.len(),
{
    if preds.len() > 0 {
        let rest = preds.drop_first();
        assert(preds[0] ==> answer(&some_question(), true, rest).0);
        if !preds[0] {
            some_finds_an_element(rest);
            if answer(&some_question(), false, rest).0 {
                let i = choose|i: int| 0 <= i < rest.len() && #[trigger] rest[i];
                assert(preds[i + 1]);
            }
            assert forall|i: int|
                0 <= i < preds.len() && #[trigger] preds[i] implies (exists|j: int|
                0 <= j < rest.len() && #[trigger] rest[j]) by {
                assert(rest[i - 1]);
            }
        }
    }
}

/// The loop for every element answers what the loop for some element does not answer where the
/// callback is turned round, and asks it as often.
pub proof fn every_is_not_some_of_the_opposite(preds: Seq<bool>)
    ensures
        ({
            let (all, n) = answer(&every_question(), every_question().start, preds);
            let (one, m) = answer(&some_question(), some_question().start, turned_round(preds));
            all == !one && n == m
        }),
    decreases preds.len(),
{
    let opposite = turned_round(preds);
    if preds.len() > 0 {
        assert(opposite.drop_first() =~= turned_round(preds.drop_first()));
        if preds[0] {
            every_is_not_some_of_the_opposite(preds.drop_first());
        } else {
            assert(answer(&every_question(), false, preds.drop_first()) == (false, 0nat));
            assert(answer(&some_question(), true, opposite.drop_first()) == (true, 0nat));
        }
    }
}

/// The loop for every element answers yes where the callback holds of all.
pub proof fn every_checks_all_elements(preds: Seq<bool>)
    ensures
        answer(&every_question(), every_question().start, preds).0 <==> (forall|i: int|
            0 <= i < preds.len() ==> #[trigger] preds[i]),
{
    every_is_not_some_of_the_opposite(preds);
    some_finds_an_element(turned_round(preds));
    let opposite = turned_round(preds);
    if exists|i: int| 0 <= i < opposite.len() && #[trigger] opposite[i] {
        let i = choose|i: int| 0 <= i < opposite.len() && #[trigger] opposite[i];
        assert(!preds[i]);
    }
    assert forall|i: int| 0 <= i < preds.len() && !(exists|j: int|
        0 <= j < opposite.len() && #[trigger] opposite[j]) implies #[trigger] preds[i] by {
        assert(!opposite[i]);
    }
}

// The loop as it runs.

/// The blocks and temporaries of a loop that asks a question, besides those of its frame.
pub struct FlagParts {
    pub pre: BlockId,
    pub body: BlockId,
    pub len: Temp,
    pub zero: Temp,
    pub init: Temp,
}

/// The parts of the loop that starts in `b`.
pub open spec fn flag_parts(
    iterable: Temp,
    iterable_ty: &Type,
    q: &Question,
    b: FState,
) -> FlagParts {
    let (b1, len) = emit_iterable_len_spec(iterable, iterable_ty, b);
    let (b2, zero) = b1.const_temp(Const::Int(0, Type::Int64));
    let (b3, init) = b2.const_temp(Const::Bool(q.start));
    let (b4, header) = b3.alloc_block(q.header);
    let (b5, body) = b4.alloc_block(q.body);
    FlagParts { pre: b3.env.current_block, body, len, zero, init }
}

/// The states in which the loop starts: behind the code in front of it, and in its header.
pub open spec fn flag_states(
    iterable: Temp,
    iterable_ty: &Type,
    q: &Question,
    b: FState,
) -> (FState, FState) {
    let (b1, len) = emit_iterable_len_spec(iterable, iterable_ty, b);
    let (b2, zero) = b1.const_temp(Const::Int(0, Type::Int64));
    let (b3, init) = b2.const_temp(Const::Bool(q.start));
    let (b4, header) = b3.alloc_block(q.header);
    let (b5, body) = b4.alloc_block(q.body);
    let (b6, latch) = b5.alloc_block(q.latch);
    let (b7, exit) = b6.alloc_block(q.exit);
    let (b8, i) = b7.alloc_temp(Type::Int64);
    let (b9, i_next) = b8.alloc_temp(Type::Int64);
    let (b10, flag) = b9.alloc_temp(Type::Bool);
    let (b11, flag_next) = b10.alloc_temp(Type::Bool);
    (b3, b11.terminate(Terminator::Jump(header)).switch_to(header))
}

/// There is room for the loop: blocks and temporaries do not run out.
pub open spec fn flag_room(b: FState) -> bool {
    is_open(b) && b.blocks.len() + 4 < u32::MAX && b.temp_types.len() + 10 < u32::MAX
}

/// How the loop lies: the numbers of its blocks and temporaries, and the blocks that are empty
/// when its body starts.
pub(crate) proof fn flag_loop_lies(iterable: Temp, iterable_ty: &Type, q: &Question, b: FState)
    requires
        flag_room(b),
    ensures
        ({
            let p = flag_parts(iterable, iterable_ty, q, b);
            let (front, head) = flag_states(iterable, iterable_ty, q, b);
            let (b1, f) = begin_flag_loop_spec(iterable, iterable_ty, q, b);
            let n = b.blocks.len() as int;
            let t = b.temp_types.len();
            &&& p.pre == b.env.current_block
            &&& f.header.0 == n && p.body.0 == n + 1 && f.latch.0 == n + 2 && f.exit.0 == n + 3
            &&& p.len.0 == t && p.zero.0 == t + 1 && p.init.0 == t + 2
            &&& f.i.0 == t + 3 && f.i_next.0 == t + 4 && f.flag.0 == t + 5 && f.flag_next.0 == t
                + 6
            &&& head.temp_types.len() == t + 7 && t + 9 <= b1.temp_types.len() <= t + 10
            &&& front.blocks.len() == n && front.env.current_block == p.pre && is_open(front)
            &&& head.blocks.len() == n + 4 && head.env.current_block == f.header && is_open(head)
            &&& current(head) =~= Seq::empty()
            &&& b1.blocks.len() == n + 4 && b1.env.current_block == p.body && is_open(b1)
            &&& current(b1) =~= Seq::empty()
            &&& instrs(&b1.blocks[n + 2].code) =~= Seq::empty() && b1.blocks[n + 2].term
                is Unreachable
            &&& instrs(&b1.blocks[n + 3].code) =~= Seq::empty() && b1.blocks[n + 3].term
                is Unreachable
            &&& b1.blocks[p.pre.0 as int].code == front.blocks[p.pre.0 as int].code
            &&& b1.blocks[p.pre.0 as int].term == Terminator::Jump(f.header)
            &&& forall|j: int|
                0 <= j < n && j != p.pre.0 ==> #[trigger] b1.blocks[j] == b.blocks[j]
        }),
{
    reveal(begin_flag_loop_spec);
    reveal(stays_open_spec);
    reveal(emit_iterable_len_spec);
    reveal(FState::call);
    reveal(FState::call_intrinsic);
    reveal(FState::const_temp);
    reveal(FState::alloc_temp);
    reveal(FState::alloc_block);
    reveal(FState::emit);
    reveal(FState::terminate);
    reveal(FState::switch_to);
    reveal(FState::binary);
    reveal(FState::not);
    reveal_with_fuel(instrs, 1);
}

/// From the code in front of the loop a run comes to the header, where the length is known, the
/// counter is to start at zero and the truth value at the start.
proof fn front_runs(
    iterable: Temp,
    iterable_ty: &Type,
    q: &Question,
    b: FState,
    code: Seq<BasicBlock>,
    sem: Oracle,
    r: Run,
    items: Seq<Value>,
) -> (r2: Run)
    requires
        flag_room(b),
        ({
            let p = flag_parts(iterable, iterable_ty, q, b);
            let b1 = begin_flag_loop_spec(iterable, iterable_ty, q, b).0;
            p.pre.0 < code.len() && code[p.pre.0 as int] == b1.blocks[p.pre.0 as int]
        }),
        is_at(b, r),
        iterable.0 < b.temp_types.len(),
        r.vals[iterable] == Value::Items(items),
    ensures
        ({
            let p = flag_parts(iterable, iterable_ty, q, b);
            let f = begin_flag_loop_spec(iterable, iterable_ty, q, b).1;
            &&& comes_to(code, sem, r, r2)
            &&& r2.block == f.header && r2.at == 0 && r2.from == p.pre
            &&& r2.vals[p.len] == Value::Number(items.len() as int)
            &&& r2.vals[p.zero] == Value::Number(0)
            &&& r2.vals[p.init] == Value::Truth(q.start)
            &&& same_below(b, r, r2)
            &&& r2.mem == r.mem
        }),
{
    flag_loop_lies(iterable, iterable_ty, q, b);
    let (b1, len) = emit_iterable_len_spec(iterable, iterable_ty, b);
    let (b2, zero) = b1.const_temp(Const::Int(0, Type::Int64));
    let (b3, init) = b2.const_temp(Const::Bool(q.start));
    let s1 = emit_iterable_len_spec(iterable, iterable_ty, b).0;
    assert(is_here(b3, code));
    assert(is_open(b1) && is_open(b2) && b1.temp_types.len() == b.temp_types.len() + 1
        && b2.temp_types.len() == b.temp_types.len() + 2) by {
        reveal(emit_iterable_len_spec);
        reveal(FState::call);
        reveal(FState::call_intrinsic);
        reveal(FState::const_temp);
        reveal(FState::alloc_temp);
        reveal(FState::emit);
    }
    let r1 = Run {
        at: r.at + 1,
        vals: r.vals.insert(len, crate::run::length_of(r.vals[iterable])),
        ..r
    };
    assert(is_here(b2, code) && is_here(b1, code)) by {
        let dummy1 = Run { block: b2.env.current_block, at: current(b2).len(), ..r };
        constant_runs(b2, Const::Bool(q.start), code, sem, dummy1);
        let dummy2 = Run { block: b1.env.current_block, at: current(b1).len(), ..r };
        constant_runs(b1, Const::Int(0, Type::Int64), code, sem, dummy2);
    }
    length_runs(b, iterable, iterable_ty, code, sem, r);
    constant_runs(b1, Const::Int(0, Type::Int64), code, sem, r1);
    let i2 = Instruction::Const { dst: zero, value: Const::Int(0, Type::Int64) };
    let r2 = after_instr(sem, i2, r1);
    constant_runs(b2, Const::Bool(q.start), code, sem, r2);
    let i3 = Instruction::Const { dst: init, value: Const::Bool(q.start) };
    let r3 = after_instr(sem, i3, r2);
    let r4 = step(code, sem, r3);
    comes_one_step(code, sem, r3);
    comes_further(code, sem, r, r1, r2);
    comes_further(code, sem, r, r2, r3);
    comes_further(code, sem, r, r3, r4);
    r4
}

/// From the header a run comes to the body where there is another element and the question is
/// open, else to the exit.
proof fn header_runs(
    iterable: Temp,
    iterable_ty: &Type,
    q: &Question,
    b: FState,
    code: Seq<BasicBlock>,
    sem: Oracle,
    r: Run,
    k: int,
    flag: bool,
    n: int,
) -> (r2: Run)
    requires
        flag_room(b),
        ({
            let p = flag_parts(iterable, iterable_ty, q, b);
            let (b1, f) = begin_flag_loop_spec(iterable, iterable_ty, q, b);
            &&& f.header.0 < code.len() && code[f.header.0 as int] == b1.blocks[f.header.0 as int]
            &&& r.block == f.header && r.at == 0
            &&& r.vals[p.len] == Value::Number(n)
            &&& (r.from == p.pre && r.vals[p.zero] == Value::Number(k) && r.vals[p.init]
                == Value::Truth(flag)) || (r.from == f.latch && r.vals[f.i_next] == Value::Number(k)
                && r.vals[f.flag_next] == Value::Truth(flag))
        }),
    ensures
        ({
            let p = flag_parts(iterable, iterable_ty, q, b);
            let f = begin_flag_loop_spec(iterable, iterable_ty, q, b).1;
            &&& comes_to(code, sem, r, r2)
            &&& r2.block == if k < n && flag == q.start {
                p.body
            } else {
                f.exit
            }
            &&& r2.at == 0 && r2.from == f.header
            &&& r2.vals[f.i] == Value::Number(k)
            &&& r2.vals[f.flag] == Value::Truth(flag)
            &&& r2.vals[p.len] == Value::Number(n)
            &&& same_below(b, r, r2)
            &&& r2.mem == r.mem
        }),
{
    flag_loop_lies(iterable, iterable_ty, q, b);
    let p = flag_parts(iterable, iterable_ty, q, b);
    let (front, head) = flag_states(iterable, iterable_ty, q, b);
    let (last, f) = begin_flag_loop_spec(iterable, iterable_ty, q, b);
    let first = Incoming { val: p.zero, pred: p.pre };
    let phi1 = Instruction::Phi {
        dst: f.i,
        ty: Type::Int64,
        incomings: two(first, Incoming { val: f.i_next, pred: f.latch }),
    };
    let start = Incoming { val: p.init, pred: p.pre };
    let phi2 = Instruction::Phi {
        dst: f.flag,
        ty: Type::Bool,
        incomings: two(start, Incoming { val: f.flag_next, pred: f.latch }),
    };
    let number = Type::Int64;
    let truth = Type::Bool;
    let b1 = head.emit(phi1);
    let b2 = b1.emit(phi2);
    let (b3, more) = b2.binary(BinOp::Lt, f.i, p.len, &number, &truth);
    let (b4, open) = stays_open_spec(f.flag, q.start, b3);
    let (b5, cond) = b4.binary(BinOp::And, more, open, &truth, &truth);
    let term = Terminator::CondJump { cond, then_block: p.body, else_block: f.exit };
    let h = f.header.0 as int;
    assert(last == b5.terminate(term).switch_to(p.body)) by {
        reveal(begin_flag_loop_spec);
    }
    assert(is_open(b1) && is_open(b2) && is_open(b3) && is_open(b4) && is_open(b5)
        && b1.env.current_block == f.header && b2.env.current_block == f.header
        && b3.env.current_block == f.header && b4.env.current_block == f.header
        && b5.env.current_block == f.header && b1.temp_types == head.temp_types && b2.temp_types
        == head.temp_types && b3.temp_types.len() == head.temp_types.len() + 1
        && b3.temp_types.len() <= b4.temp_types.len() <= b3.temp_types.len() + 1) by {
        reveal(stays_open_spec);
        reveal(FState::emit);
        reveal(FState::binary);
        reveal(FState::not);
        reveal(FState::alloc_temp);
    }
    assert(last.blocks[h].code == b5.blocks[h].code && last.blocks[h].term == term) by {
        reveal(FState::terminate);
        reveal(FState::switch_to);
    }
    assert(is_here(b5, code));
    let any5 = Run { block: f.header, at: current(b4).len(), ..r };
    operator_runs(b4, BinOp::And, more, open, &truth, &truth, code, sem, any5);
    if !q.start {
        reveal(stays_open_spec);
        let any4 = Run { block: f.header, at: current(b3).len(), ..r };
        negation_runs(b3, f.flag, code, sem, any4);
    } else {
        reveal(stays_open_spec);
    }
    let any3 = Run { block: f.header, at: current(b2).len(), ..r };
    operator_runs(b2, BinOp::Lt, f.i, p.len, &number, &truth, code, sem, any3);
    let any2 = Run { block: f.header, at: current(b1).len(), ..r };
    emitted_runs(b1, phi2, code, sem, any2);
    emitted_runs(head, phi1, code, sem, r);
    let r1 = after_instr(sem, phi1, r);
    emitted_runs(b1, phi2, code, sem, r1);
    let r2 = after_instr(sem, phi2, r1);
    operator_runs(b2, BinOp::Lt, f.i, p.len, &number, &truth, code, sem, r2);
    let i3 = Instruction::Binary {
        dst: more,
        op: BinOp::Lt,
        lhs: f.i,
        rhs: p.len,
        operand_ty: number,
        ty: truth,
    };
    let r3 = after_instr(sem, i3, r2);
    assert(p.pre != f.latch);
    reveal_with_fuel(crate::run::incoming_from, 3);
    assert(r1.vals[f.i] == Value::Number(k));
    assert(r2.vals[f.flag] == Value::Truth(flag));
    assert(r3.vals[more] == Value::Truth(k < n));
    comes_further(code, sem, r, r1, r2);
    comes_further(code, sem, r, r2, r3);
    let r4 = if q.start {
        r3
    } else {
        negation_runs(b3, f.flag, code, sem, r3);
        let i4 = Instruction::Unary {
            dst: open,
            op: crate::ir::IrUnaryOp::Not,
            operand: f.flag,
            ty: truth,
        };
        let r4 = after_instr(sem, i4, r3);
        comes_further(code, sem, r, r3, r4);
        r4
    };
    assert(r4.vals[open] == Value::Truth(flag == q.start));
    operator_runs(b4, BinOp::And, more, open, &truth, &truth, code, sem, r4);
    let i5 = Instruction::Binary {
        dst: cond,
        op: BinOp::And,
        lhs: more,
        rhs: open,
        operand_ty: truth,
        ty: truth,
    };
    let r5 = after_instr(sem, i5, r4);
    assert(r5.vals[cond] == Value::Truth(k < n && flag == q.start));
    comes_further(code, sem, r, r4, r5);
    let r6 = step(code, sem, r5);
    comes_one_step(code, sem, r5);
    comes_further(code, sem, r, r5, r6);
    r6
}

/// A run starts the body, whose code is emitted from `b` on, with the counter at `k`.
pub open spec fn starts_body(b: FState, i: Temp, k: int, r: Run) -> bool {
    is_at(b, r) && r.vals[i] == Value::Number(k)
}

/// A run has come from `r` through the body, whose code was emitted from `b` to `b2`, to `r2`. It
/// found `truth` for the element and `mem` in the end, and left alone the temporaries of `b`.
pub open spec fn body_asked(
    b: FState,
    b2: FState,
    pred: Temp,
    truth: bool,
    mem: Mem,
    r: Run,
    r2: Run,
) -> bool {
    &&& is_at(b2, r2)
    &&& r2.vals[pred] == Value::Truth(truth)
    &&& same_below(b, r, r2)
    &&& r2.mem == mem
}

/// What the body does in a loop that `origin` comes to, where `before` has been emitted: for the
/// element at `k` it finds `preds[k]`, by whatever calls and changes `effect` tells. The
/// temporaries from before the loop have the values that they had there.
pub open spec fn body_asks(
    code: Seq<BasicBlock>,
    sem: Oracle,
    before: FState,
    origin: Run,
    b: FState,
    b2: FState,
    i: Temp,
    pred: Temp,
    preds: Seq<bool>,
    effect: spec_fn(int, Mem) -> Mem,
) -> bool {
    forall|k: int, r: Run|
        0 <= k < preds.len() && same_below(before, origin, r) && #[trigger] starts_body(b, i, k, r)
            ==> exists|r2: Run|
            {
                &&& #[trigger] comes_to(code, sem, r, r2)
                &&& body_asked(b, b2, pred, preds[k], effect(k, r.mem), r, r2)
            }
}

/// What is left of `mem` after the body has run for `n` elements from `k` on, in this order.
pub open spec fn effects(effect: spec_fn(int, Mem) -> Mem, k: int, n: nat, mem: Mem) -> Mem
    decreases n,
{
    if n == 0 {
        mem
    } else {
        effects(effect, k + 1, (n - 1) as nat, effect(k, mem))
    }
}

/// The code of a loop that asks a question: it starts in `b`, its body is emitted from where the
/// start ends to `b2`, and it ends with the truth value `pred`.
pub open spec fn asking_loop(
    iterable: Temp,
    iterable_ty: &Type,
    q: &Question,
    b: FState,
    b2: FState,
    pred: Temp,
    code: Seq<BasicBlock>,
) -> bool {
    let (b1, f) = begin_flag_loop_spec(iterable, iterable_ty, q, b);
    let b3 = end_flag_loop_spec(&f, pred, q.op, b2);
    &&& flag_room(b)
    &&& stays_local(b1, b2)
    &&& b2.blocks.len() < u32::MAX
    &&& b2.temp_types.len() < u32::MAX
    &&& part_stands(b, b3, code)
}

/// How the end of the loop lies.
pub(crate) proof fn flag_loop_ends(
    iterable: Temp,
    iterable_ty: &Type,
    q: &Question,
    b: FState,
    b2: FState,
    pred: Temp,
    code: Seq<BasicBlock>,
)
    requires
        asking_loop(iterable, iterable_ty, q, b, b2, pred, code),
    ensures
        ({
            let p = flag_parts(iterable, iterable_ty, q, b);
            let (b1, f) = begin_flag_loop_spec(iterable, iterable_ty, q, b);
            let b3 = end_flag_loop_spec(&f, pred, q.op, b2);
            let back = b2.env.current_block.0 as int;
            let taken = Instruction::Binary {
                dst: f.flag_next,
                op: q.op,
                lhs: f.flag,
                rhs: pred,
                operand_ty: Type::Bool,
                ty: Type::Bool,
            };
            let one = Temp(b2.temp_types.len() as u32);
            let counted = Instruction::Binary {
                dst: f.i_next,
                op: BinOp::Add,
                lhs: f.i,
                rhs: one,
                operand_ty: Type::Int64,
                ty: Type::Int64,
            };
            &&& is_open(b2)
            &&& part_stands(b1, b2, code)
            &&& code[p.pre.0 as int] == b1.blocks[p.pre.0 as int] && p.pre.0 < code.len()
            &&& code[f.header.0 as int] == b1.blocks[f.header.0 as int] && f.header.0 < code.len()
            &&& instrs(&code[back].code) == current(b2).push(taken) && back < code.len()
            &&& code[back].term == Terminator::Jump(f.latch)
            &&& instrs(&code[f.latch.0 as int].code) == seq![
                Instruction::Const { dst: one, value: Const::Int(1, Type::Int64) },
                counted,
            ] && f.latch.0 < code.len()
            &&& code[f.latch.0 as int].term == Terminator::Jump(f.header)
            &&& b3.env.current_block == f.exit && current(b3) == Seq::<Instruction>::empty()
            &&& is_open(b3)
        }),
{
    flag_loop_lies(iterable, iterable_ty, q, b);
    reveal(end_flag_loop_spec);
    reveal(FState::const_temp);
    reveal(FState::alloc_temp);
    reveal(FState::emit);
    reveal(FState::terminate);
    reveal(FState::switch_to);
    reveal_with_fuel(instrs, 3);
    let p = flag_parts(iterable, iterable_ty, q, b);
    let (b1, f) = begin_flag_loop_spec(iterable, iterable_ty, q, b);
    let b3 = end_flag_loop_spec(&f, pred, q.op, b2);
    let back = b2.env.current_block.0 as int;
    assert(b2.blocks[f.latch.0 as int] == b1.blocks[f.latch.0 as int]);
    assert(b2.blocks[f.exit.0 as int] == b1.blocks[f.exit.0 as int]);
    assert(b2.blocks[f.header.0 as int] == b1.blocks[f.header.0 as int]);
    assert(b2.blocks[p.pre.0 as int] == b1.blocks[p.pre.0 as int]);
    assert(code[back] == b3.blocks[back]);
    assert(code[f.latch.0 as int] == b3.blocks[f.latch.0 as int]);
    assert(code[f.header.0 as int] == b3.blocks[f.header.0 as int]);
    assert(code[p.pre.0 as int] == b3.blocks[p.pre.0 as int]);
    assert forall|j: int|
        0 <= j < b2.blocks.len() && j != back && (j == b1.env.current_block.0 || b1.blocks.len()
            <= j) implies #[trigger] code[j] == b2.blocks[j] by {
        assert(code[j] == b3.blocks[j]);
    }
}

/// From the body a run comes back to the header, with the next truth value and the next counter.
proof fn round_runs(
    iterable: Temp,
    iterable_ty: &Type,
    q: &Question,
    b: FState,
    b2: FState,
    pred: Temp,
    code: Seq<BasicBlock>,
    sem: Oracle,
    preds: Seq<bool>,
    effect: spec_fn(int, Mem) -> Mem,
    origin: Run,
    r: Run,
    k: int,
    flag: bool,
) -> (r2: Run)
    requires
        asking_loop(iterable, iterable_ty, q, b, b2, pred, code),
        ({
            let p = flag_parts(iterable, iterable_ty, q, b);
            let (b1, f) = begin_flag_loop_spec(iterable, iterable_ty, q, b);
            &&& body_asks(code, sem, b, origin, b1, b2, f.i, pred, preds, effect)
            &&& r.block == p.body && r.at == 0
            &&& r.vals[f.i] == Value::Number(k)
            &&& r.vals[f.flag] == Value::Truth(flag)
        }),
        0 <= k < preds.len(),
        same_below(b, origin, r),
    ensures
        ({
            let p = flag_parts(iterable, iterable_ty, q, b);
            let f = begin_flag_loop_spec(iterable, iterable_ty, q, b).1;
            &&& comes_to(code, sem, r, r2)
            &&& r2.block == f.header && r2.at == 0 && r2.from == f.latch
            &&& r2.vals[f.i_next] == Value::Number(k + 1)
            &&& r2.vals[f.flag_next] == Value::Truth(truth_of(q.op, flag, preds[k]))
            &&& r2.vals[p.len] == r.vals[p.len]
            &&& same_below(b, r, r2)
            &&& r2.mem == effect(k, r.mem)
        }),
{
    flag_loop_lies(iterable, iterable_ty, q, b);
    flag_loop_ends(iterable, iterable_ty, q, b, b2, pred, code);
    let p = flag_parts(iterable, iterable_ty, q, b);
    let (b1, f) = begin_flag_loop_spec(iterable, iterable_ty, q, b);
    assert(starts_body(b1, f.i, k, r));
    let r1 = choose|r1: Run|
        {
            &&& #[trigger] comes_to(code, sem, r, r1)
            &&& body_asked(b1, b2, pred, preds[k], effect(k, r.mem), r, r1)
        };
    let r2 = step(code, sem, r1);
    comes_one_step(code, sem, r1);
    comes_further(code, sem, r, r1, r2);
    assert(r2.vals[f.flag_next] == Value::Truth(truth_of(q.op, flag, preds[k])));
    let r3 = step(code, sem, r2);
    comes_one_step(code, sem, r2);
    comes_further(code, sem, r, r2, r3);
    assert(r3.block == f.latch && r3.at == 0);
    let r4 = step(code, sem, r3);
    comes_one_step(code, sem, r3);
    comes_further(code, sem, r, r3, r4);
    let r5 = step(code, sem, r4);
    comes_one_step(code, sem, r4);
    comes_further(code, sem, r, r4, r5);
    assert(r5.vals[f.i_next] == Value::Number(k + 1));
    let r6 = step(code, sem, r5);
    comes_one_step(code, sem, r5);
    comes_further(code, sem, r, r5, r6);
    r6
}

/// From the header a run comes to the exit with the answer to the rest of the question.
proof fn rest_runs(
    iterable: Temp,
    iterable_ty: &Type,
    q: &Question,
    b: FState,
    b2: FState,
    pred: Temp,
    code: Seq<BasicBlock>,
    sem: Oracle,
    preds: Seq<bool>,
    effect: spec_fn(int, Mem) -> Mem,
    origin: Run,
    r: Run,
    k: int,
    flag: bool,
) -> (r2: Run)
    requires
        asking_loop(iterable, iterable_ty, q, b, b2, pred, code),
        ({
            let p = flag_parts(iterable, iterable_ty, q, b);
            let (b1, f) = begin_flag_loop_spec(iterable, iterable_ty, q, b);
            &&& body_asks(code, sem, b, origin, b1, b2, f.i, pred, preds, effect)
            &&& r.block == f.header && r.at == 0
            &&& r.vals[p.len] == Value::Number(preds.len() as int)
            &&& (r.from == p.pre && r.vals[p.zero] == Value::Number(k) && r.vals[p.init]
                == Value::Truth(flag)) || (r.from == f.latch && r.vals[f.i_next] == Value::Number(k)
                && r.vals[f.flag_next] == Value::Truth(flag))
        }),
        0 <= k <= preds.len(),
        same_below(b, origin, r),
    ensures
        ({
            let f = begin_flag_loop_spec(iterable, iterable_ty, q, b).1;
            let (truth, n) = answer(q, flag, preds.skip(k));
            &&& comes_to(code, sem, r, r2)
            &&& r2.block == f.exit && r2.at == 0
            &&& r2.vals[f.flag] == Value::Truth(truth)
            &&& same_below(b, r, r2)
            &&& r2.mem == effects(effect, k, n, r.mem)
        }),
    decreases preds.len() - k,
{
    flag_loop_lies(iterable, iterable_ty, q, b);
    flag_loop_ends(iterable, iterable_ty, q, b, b2, pred, code);
    let n = preds.len() as int;
    let r1 = header_runs(iterable, iterable_ty, q, b, code, sem, r, k, flag, n);
    if k < n && flag == q.start {
        let r2 = round_runs(
            iterable,
            iterable_ty,
            q,
            b,
            b2,
            pred,
            code,
            sem,
            preds,
            effect,
            origin,
            r1,
            k,
            flag,
        );
        let next = truth_of(q.op, flag, preds[k]);
        let r3 = rest_runs(
            iterable,
            iterable_ty,
            q,
            b,
            b2,
            pred,
            code,
            sem,
            preds,
            effect,
            origin,
            r2,
            k + 1,
            next,
        );
        comes_further(code, sem, r, r1, r2);
        comes_further(code, sem, r, r2, r3);
        assert(preds.skip(k).drop_first() =~= preds.skip(k + 1));
        assert(preds.skip(k)[0] == preds[k]);
        r3
    } else {
        r1
    }
}

/// A run of the emitted loop computes the answer to its question: from the code in front of the
/// loop it comes to the code behind it, where the result is what `answer` says of the truth values
/// that the body finds. The body has run for the first elements, in order, and for no others: for
/// as many as `answer` says.
pub proof fn loop_answers_its_question(
    iterable: Temp,
    iterable_ty: &Type,
    q: &Question,
    b: FState,
    b2: FState,
    pred: Temp,
    code: Seq<BasicBlock>,
    sem: Oracle,
    items: Seq<Value>,
    preds: Seq<bool>,
    effect: spec_fn(int, Mem) -> Mem,
    r: Run,
) -> (r2: Run)
    requires
        asking_loop(iterable, iterable_ty, q, b, b2, pred, code),
        ({
            let (b1, f) = begin_flag_loop_spec(iterable, iterable_ty, q, b);
            body_asks(code, sem, b, r, b1, b2, f.i, pred, preds, effect)
        }),
        is_at(b, r),
        iterable.0 < b.temp_types.len(),
        r.vals[iterable] == Value::Items(items),
        preds.len() == items.len(),
    ensures
        ({
            let f = begin_flag_loop_spec(iterable, iterable_ty, q, b).1;
            let b3 = end_flag_loop_spec(&f, pred, q.op, b2);
            let (truth, n) = answer(q, q.start, preds);
            &&& comes_to(code, sem, r, r2)
            &&& is_at(b3, r2)
            &&& is_open(b3)
            &&& r2.vals[f.flag] == Value::Truth(truth)
            &&& same_below(b, r, r2)
            &&& r2.mem == effects(effect, 0, n, r.mem)
        }),
{
    flag_loop_ends(iterable, iterable_ty, q, b, b2, pred, code);
    let r1 = front_runs(iterable, iterable_ty, q, b, code, sem, r, items);
    let r2 = rest_runs(
        iterable,
        iterable_ty,
        q,
        b,
        b2,
        pred,
        code,
        sem,
        preds,
        effect,
        r,
        r1,
        0,
        q.start,
    );
    comes_further(code, sem, r, r1, r2);
    assert(preds.skip(0) =~= preds);
    r2
}

// Ranges.

/// The emitted condition of a range, as it runs. With a step the range goes on where the step
/// rises and the counter is below the end, or where the step falls and the counter is above the
/// end; so with a step of zero it never does. Without a step it goes on below the end. Nothing is
/// multiplied, so no number is too large for this.
pub proof fn range_goes_on_towards_its_end(
    i: Temp,
    end: Temp,
    step_by: Option<Temp>,
    b: FState,
    code: Seq<BasicBlock>,
    sem: Oracle,
    r: Run,
    x: int,
    e: int,
    s: int,
) -> (r2: Run)
    requires
        is_open(b),
        b.temp_types.len() + 8 < u32::MAX,
        is_here(emit_range_cond_spec(i, end, step_by, b).0, code),
        is_at(b, r),
        i.0 < b.temp_types.len(),
        end.0 < b.temp_types.len(),
        step_by is Some ==> step_by->Some_0.0 < b.temp_types.len(),
        r.vals[i] == Value::Number(x),
        r.vals[end] == Value::Number(e),
        step_by is Some ==> r.vals[step_by->Some_0] == Value::Number(s),
    ensures
        ({
            let (after, cond) = emit_range_cond_spec(i, end, step_by, b);
            &&& comes_to(code, sem, r, r2)
            &&& is_at(after, r2)
            &&& r2.vals[cond] == Value::Truth(
                if step_by is Some {
                    (s > 0 && x < e) || (s < 0 && x > e)
                } else {
                    x < e
                },
            )
        }),
{
    reveal(emit_range_cond_spec);
    let number = Type::Int32;
    let truth = Type::Bool;
    match step_by {
        None => {
            operator_runs(b, BinOp::Lt, i, end, &number, &truth, code, sem, r);
            let (after, t) = emit_range_cond_spec(i, end, step_by, b);
            after_instr(sem, operator(t, BinOp::Lt, i, end, number, truth), r)
        },
        Some(by) => {
            let (b1, zero) = b.const_temp(Const::Int(0, Type::Int32));
            let (b2, rises) = b1.binary(BinOp::Gt, by, zero, &number, &truth);
            let (b3, below) = b2.binary(BinOp::Lt, i, end, &number, &truth);
            let (b4, up) = b3.binary(BinOp::And, rises, below, &truth, &truth);
            let (b5, falls) = b4.binary(BinOp::Lt, by, zero, &number, &truth);
            let (b6, above) = b5.binary(BinOp::Gt, i, end, &number, &truth);
            let (b7, down) = b6.binary(BinOp::And, falls, above, &truth, &truth);
            let (b8, cond) = b7.binary(BinOp::Or, up, down, &truth, &truth);
            assert(is_open(b1) && is_open(b2) && is_open(b3) && is_open(b4) && is_open(b5)
                && is_open(b6) && is_open(b7) && b1.temp_types.len() == b.temp_types.len() + 1
                && b2.temp_types.len() == b.temp_types.len() + 2 && b3.temp_types.len()
                == b.temp_types.len() + 3 && b4.temp_types.len() == b.temp_types.len() + 4
                && b5.temp_types.len() == b.temp_types.len() + 5 && b6.temp_types.len()
                == b.temp_types.len() + 6 && b7.temp_types.len() == b.temp_types.len() + 7) by {
                reveal(FState::const_temp);
                reveal(FState::binary);
                reveal(FState::alloc_temp);
                reveal(FState::emit);
            }
            let at = |b: FState| Run { block: b.env.current_block, at: current(b).len(), ..r };
            operator_runs(b7, BinOp::Or, up, down, &truth, &truth, code, sem, at(b7));
            operator_runs(b6, BinOp::And, falls, above, &truth, &truth, code, sem, at(b6));
            operator_runs(b5, BinOp::Gt, i, end, &number, &truth, code, sem, at(b5));
            operator_runs(b4, BinOp::Lt, by, zero, &number, &truth, code, sem, at(b4));
            operator_runs(b3, BinOp::And, rises, below, &truth, &truth, code, sem, at(b3));
            operator_runs(b2, BinOp::Lt, i, end, &number, &truth, code, sem, at(b2));
            operator_runs(b1, BinOp::Gt, by, zero, &number, &truth, code, sem, at(b1));
            let i1 = Instruction::Const { dst: zero, value: Const::Int(0, Type::Int32) };
            constant_runs(b, Const::Int(0, Type::Int32), code, sem, r);
            let r1 = after_instr(sem, i1, r);
            operator_runs(b1, BinOp::Gt, by, zero, &number, &truth, code, sem, r1);
            let r2 = after_instr(sem, operator(rises, BinOp::Gt, by, zero, number, truth), r1);
            operator_runs(b2, BinOp::Lt, i, end, &number, &truth, code, sem, r2);
            let r3 = after_instr(sem, operator(below, BinOp::Lt, i, end, number, truth), r2);
            operator_runs(b3, BinOp::And, rises, below, &truth, &truth, code, sem, r3);
            let r4 = after_instr(sem, operator(up, BinOp::And, rises, below, truth, truth), r3);
            operator_runs(b4, BinOp::Lt, by, zero, &number, &truth, code, sem, r4);
            let r5 = after_instr(sem, operator(falls, BinOp::Lt, by, zero, number, truth), r4);
            operator_runs(b5, BinOp::Gt, i, end, &number, &truth, code, sem, r5);
            let r6 = after_instr(sem, operator(above, BinOp::Gt, i, end, number, truth), r5);
            operator_runs(b6, BinOp::And, falls, above, &truth, &truth, code, sem, r6);
            let r7 = after_instr(sem, operator(down, BinOp::And, falls, above, truth, truth), r6);
            operator_runs(b7, BinOp::Or, up, down, &truth, &truth, code, sem, r7);
            let r8 = after_instr(sem, operator(cond, BinOp::Or, up, down, truth, truth), r7);
            comes_further(code, sem, r, r1, r2);
            comes_further(code, sem, r, r2, r3);
            comes_further(code, sem, r, r3, r4);
            comes_further(code, sem, r, r4, r5);
            comes_further(code, sem, r, r5, r6);
            comes_further(code, sem, r, r6, r7);
            comes_further(code, sem, r, r7, r8);
            r8
        },
    }
}

/// An operator as an instruction.
pub open spec fn operator(
    dst: Temp,
    op: BinOp,
    lhs: Temp,
    rhs: Temp,
    operand_ty: Type,
    ty: Type,
) -> Instruction { Instruction::Binary { dst, op, lhs, rhs, operand_ty, ty } }

} // verus!
