//! Loops over a range of numbers, as they run.

use crate::ast::{BinOp, TypedExpr};
use crate::builder::{FState, repred, repred_incomings};
use crate::coerce::{coerce_to_slot_type_spec, free_arg_box_shells_spec};
use crate::combinator::{
    RangeLoop, begin_range_loop_spec, emit_range_cond_spec, end_range_loop_spec,
    lower_range_for_spec,
};
use crate::counting::header_code;
use crate::counting::operations_add;
use crate::ctx::{Lower, St, low};
use crate::finding::{one_step_further, operation, phi};
use crate::folding::three_instrs;
use crate::ir::{BasicBlock, BlockId, Const, Instruction, Temp, Terminator};
use crate::list::List;
use crate::looping::{halves_stand, part_stands};
use crate::loops::{elem_and_index, inline_lambda_body_tracking_elem_boxes_spec};
use crate::operating::{carried_local, carried_runs, carries};
use crate::recognize::{inlinable_local_fn_spec, takes_two};
use crate::run::{
    Mem, Oracle, Run, Value, after_instr, comes_further, comes_to, comes_to_itself, constant_runs,
    current, incoming_from, instrs, is_at, is_open, local_adds_up, same_below, stays_local,
};
use crate::types::Type;
use vstd::prelude::*;

verus! {

/// There is room for the loop.
pub open spec fn range_room(b: FState) -> bool {
    is_open(b) && b.blocks.len() + 3 < u32::MAX && b.temp_types.len() + 6 < u32::MAX
}

/// The header of a loop whose body comes back from `back`.
pub open spec fn range_header(
    f: RangeLoop,
    start: Temp,
    end: Temp,
    pre: BlockId,
    back: BlockId,
    t: int,
) -> Seq<Instruction> {
    if f.counted {
        seq![
            phi(f.i, Type::Int32, start, pre, f.i_next, back),
            phi(f.idx, Type::Int32, Temp(t as u32), pre, f.idx_next, back),
            operation(Temp((t + 5) as u32), BinOp::Lt, f.i, end, Type::Int32, Type::Bool),
        ]
    } else {
        seq![
            phi(f.i, Type::Int32, start, pre, f.i_next, back),
            operation(Temp((t + 2) as u32), BinOp::Lt, f.i, end, Type::Int32, Type::Bool),
        ]
    }
}

/// How the start of the loop lies.
#[verifier::rlimit(60)]
#[verifier::spinoff_prover]
proof fn range_lies(start: Temp, end: Temp, counted: bool, b: FState)
    requires
        range_room(b),
    ensures
        ({
            let (b1, f) = begin_range_loop_spec(start, end, None, counted, b);
            let n = b.blocks.len() as int;
            let t = b.temp_types.len() as int;
            let d: int = if counted { 1 } else { 0 };
            let pre = b.env.current_block;
            let cond = Temp((if counted { t + 5 } else { t + 2 }) as u32);
            &&& f.counted == counted
            &&& f.header.0 == n && f.body.0 == n + 1 && f.exit.0 == n + 2
            &&& f.i.0 == t + d && f.i_next.0 == t + 1 + d
            &&& counted ==> f.idx.0 == t + 3 && f.idx_next.0 == t + 4
            &&& b1.temp_types.len() == if counted { t + 6 } else { t + 3 }
            &&& b1.blocks.len() == n + 3 && b1.env.current_block == f.body && is_open(b1)
            &&& current(b1) == Seq::<Instruction>::empty()
            &&& instrs(&b1.blocks[pre.0 as int].code) == if counted {
                current(b).push(
                    Instruction::Const { dst: Temp(t as u32), value: Const::Int(0, Type::Int32) },
                )
            } else {
                current(b)
            }
            &&& b1.blocks[pre.0 as int].term == Terminator::Jump(f.header)
            &&& instrs(&b1.blocks[n].code) == range_header(f, start, end, pre, f.body, t)
            &&& b1.blocks[n].term == (Terminator::CondJump {
                cond,
                then_block: f.body,
                else_block: f.exit,
            })
            &&& instrs(&b1.blocks[n + 2].code) == Seq::<Instruction>::empty()
            &&& b1.blocks[n + 2].term is Unreachable
            &&& forall|j: int|
                0 <= j < n && j != pre.0 ==> #[trigger] b1.blocks[j] == b.blocks[j]
        }),
{
    reveal(begin_range_loop_spec);
    reveal(emit_range_cond_spec);
    reveal(FState::const_temp);
    reveal(FState::alloc_temp);
    reveal(FState::alloc_block);
    reveal(FState::emit);
    reveal(FState::terminate);
    reveal(FState::switch_to);
    reveal(FState::binary);
    reveal_with_fuel(instrs, 4);
    let (b1, f) = begin_range_loop_spec(start, end, None, counted, b);
    let n = b.blocks.len() as int;
    let t = b.temp_types.len() as int;
    let pre = b.env.current_block;
    assert(instrs(&b1.blocks[n].code) =~= range_header(f, start, end, pre, f.body, t));
}

/// What is emitted where the body ends.
pub open spec fn range_latch(f: RangeLoop, t: int) -> Seq<Instruction> {
    let one = Temp(t as u32);
    let other = Temp((t + 1) as u32);
    let c = Const::Int(1, Type::Int32);
    if f.counted {
        seq![
            Instruction::Const { dst: one, value: c },
            operation(f.i_next, BinOp::Add, f.i, one, Type::Int32, Type::Int32),
            Instruction::Const { dst: other, value: c },
            operation(f.idx_next, BinOp::Add, f.idx, other, Type::Int32, Type::Int32),
        ]
    } else {
        seq![
            Instruction::Const { dst: one, value: c },
            operation(f.i_next, BinOp::Add, f.i, one, Type::Int32, Type::Int32),
        ]
    }
}

/// How the end of the loop lies.
#[verifier::rlimit(90)]
#[verifier::spinoff_prover]
proof fn range_end_lies(start: Temp, end: Temp, counted: bool, b: FState, b2: FState)
    requires
        range_room(b),
        stays_local(begin_range_loop_spec(start, end, None, counted, b).0, b2),
        b2.blocks.len() < u32::MAX,
        b2.temp_types.len() + 2 < u32::MAX,
    ensures
        ({
            let (b1, f) = begin_range_loop_spec(start, end, None, counted, b);
            let last = end_range_loop_spec(&f, None, b2);
            let t = b.temp_types.len() as int;
            let pre = b.env.current_block;
            let e = b2.env.current_block;
            let h = f.header.0 as int;
            &&& is_open(b2)
            &&& last.temp_types.len() >= b2.temp_types.len() && last.blocks.len()
                == b2.blocks.len()
            &&& last.env.current_block == f.exit && is_open(last) && current(last)
                == Seq::<Instruction>::empty()
            &&& instrs(&last.blocks[h].code) == range_header(f, start, end, pre, e, t)
            &&& last.blocks[h].term == b1.blocks[h].term
            &&& instrs(&last.blocks[e.0 as int].code) == current(b2) + range_latch(
                f,
                b2.temp_types.len() as int,
            )
            &&& last.blocks[e.0 as int].term == Terminator::Jump(f.header)
            &&& forall|j: int|
                0 <= j < b2.blocks.len() && j != e.0 && j != h ==> #[trigger] last.blocks[j]
                    == b2.blocks[j]
            &&& stays_local(b, last)
            &&& e != pre && e != f.header
        }),
{
    range_lies(start, end, counted, b);
    let (b1, f) = begin_range_loop_spec(start, end, None, counted, b);
    let last = end_range_loop_spec(&f, None, b2);
    let h = f.header.0 as int;
    let t = b.temp_types.len() as int;
    let pre = b.env.current_block;
    let e = b2.env.current_block;
    assert(b2.blocks[h] == b1.blocks[h]);
    assert(b2.blocks[f.exit.0 as int] == b1.blocks[f.exit.0 as int]);
    assert(b2.blocks[pre.0 as int] == b1.blocks[pre.0 as int]);
    if counted {
        three_instrs(&b1.blocks[h]);
    } else {
        header_code(&b1.blocks[h]);
    }
    reveal(end_range_loop_spec);
    reveal(FState::const_temp);
    reveal(FState::alloc_temp);
    reveal(FState::emit);
    reveal(FState::terminate);
    reveal(FState::switch_to);
    reveal(FState::patch_phi_incoming);
    reveal_with_fuel(instrs, 6);
    reveal_with_fuel(repred, 4);
    reveal_with_fuel(repred_incomings, 3);
    assert(instrs(&last.blocks[h].code) =~= range_header(f, start, end, pre, e, t));
    assert(instrs(&last.blocks[e.0 as int].code) =~= current(b2) + range_latch(
        f,
        b2.temp_types.len() as int,
    ));
    assert forall|j: int| 0 <= j < b.blocks.len() && j != pre.0 implies #[trigger] last.blocks[j]
        == b.blocks[j] by {
        assert(b2.blocks[j] == b1.blocks[j]);
    }
}

/// The code of a loop over a range: it starts in `b` and its body is emitted to `b2`.
pub open spec fn ranging_loop(
    start: Temp,
    end: Temp,
    counted: bool,
    b: FState,
    b2: FState,
    code: Seq<BasicBlock>,
) -> bool {
    let (b1, f) = begin_range_loop_spec(start, end, None, counted, b);
    &&& range_room(b)
    &&& start.0 < b.temp_types.len()
    &&& end.0 < b.temp_types.len()
    &&& stays_local(b1, b2)
    &&& b2.blocks.len() < u32::MAX
    &&& b2.temp_types.len() + 2 < u32::MAX
    &&& part_stands(b, end_range_loop_spec(&f, None, b2), code)
}

/// A run starts the body with the number `x`, which is at position `k` of the range.
pub open spec fn starts_range(b: FState, f: RangeLoop, x: int, k: int, r: Run) -> bool {
    &&& is_at(b, r)
    &&& r.vals[f.i] == Value::Number(x)
    &&& f.counted ==> r.vals[f.idx] == Value::Number(k)
}

/// What the body does for the number `x` at position `k`, in a loop that `origin` comes to, where
/// `before` has been emitted: what `effect` tells.
pub open spec fn body_ranges(
    code: Seq<BasicBlock>,
    sem: Oracle,
    before: FState,
    origin: Run,
    b: FState,
    b2: FState,
    f: RangeLoop,
    effect: spec_fn(int, int, Mem) -> Mem,
) -> bool {
    forall|x: int, k: int, r: Run|
        same_below(before, origin, r) && #[trigger] starts_range(b, f, x, k, r) ==> exists|r2: Run|
            {
                &&& #[trigger] comes_to(code, sem, r, r2)
                &&& is_at(b2, r2)
                &&& same_below(b, r, r2)
                &&& r2.mem == effect(x, k, r.mem)
            }
}

/// What is left of `mem` after the body has run for the numbers from `x`, at position `k`, up to
/// `to`, which is not one of them, one by one.
pub open spec fn over_range(
    effect: spec_fn(int, int, Mem) -> Mem,
    x: int,
    k: int,
    to: int,
    mem: Mem,
) -> Mem
    decreases to - x,
{
    if x >= to {
        mem
    } else {
        over_range(effect, x + 1, k + 1, to, effect(x, k, mem))
    }
}

/// How the loop stands.
proof fn ranging_stands(
    start: Temp,
    end: Temp,
    counted: bool,
    b: FState,
    b2: FState,
    code: Seq<BasicBlock>,
)
    requires
        ranging_loop(start, end, counted, b, b2, code),
    ensures
        ({
            let (b1, f) = begin_range_loop_spec(start, end, None, counted, b);
            let last = end_range_loop_spec(&f, None, b2);
            let pre = b.env.current_block.0 as int;
            let e = b2.env.current_block.0 as int;
            let h = f.header.0 as int;
            &&& part_stands(b1, b2, code)
            &&& code[pre] == b1.blocks[pre]
            &&& code[h] == last.blocks[h]
            &&& code[e] == last.blocks[e]
        }),
{
    range_lies(start, end, counted, b);
    range_end_lies(start, end, counted, b, b2);
    let (b1, f) = begin_range_loop_spec(start, end, None, counted, b);
    let last = end_range_loop_spec(&f, None, b2);
    let pre = b.env.current_block.0 as int;
    let e = b2.env.current_block.0 as int;
    let h = f.header.0 as int;
    assert(b2.blocks[pre] == b1.blocks[pre]);
    assert(code[pre] == last.blocks[pre]);
    assert(code[h] == last.blocks[h]);
    assert(code[e] == last.blocks[e]);
    assert forall|j: int|
        0 <= j < b2.blocks.len() && j != e && (j == b1.env.current_block.0 || b1.blocks.len()
            <= j) implies #[trigger] code[j] == b2.blocks[j] by {
        assert(code[j] == last.blocks[j]);
    }
}

/// From the header a run comes to the exit, having run the body for the rest of the numbers.
#[verifier::rlimit(60)]
#[verifier::spinoff_prover]
proof fn range_rest_runs(
    start: Temp,
    end: Temp,
    counted: bool,
    b: FState,
    b2: FState,
    code: Seq<BasicBlock>,
    sem: Oracle,
    effect: spec_fn(int, int, Mem) -> Mem,
    origin: Run,
    x: int,
    k: int,
    to: int,
    r: Run,
) -> (r2: Run)
    requires
        ranging_loop(start, end, counted, b, b2, code),
        same_below(b, origin, r),
        r.vals[end] == Value::Number(to),
        ({
            let (b1, f) = begin_range_loop_spec(start, end, None, counted, b);
            let t = b.temp_types.len() as int;
            &&& body_ranges(code, sem, b, origin, b1, b2, f, effect)
            &&& r.block == f.header && r.at == 0
            &&& (r.from == b.env.current_block && r.vals[start] == Value::Number(x) && (counted
                ==> r.vals[Temp(t as u32)] == Value::Number(k))) || (r.from == b2.env.current_block
                && r.vals[f.i_next] == Value::Number(x) && (counted ==> r.vals[f.idx_next]
                == Value::Number(k)))
        }),
    ensures
        ({
            let f = begin_range_loop_spec(start, end, None, counted, b).1;
            let last = end_range_loop_spec(&f, None, b2);
            &&& comes_to(code, sem, r, r2)
            &&& is_at(last, r2)
            &&& same_below(b, r, r2)
            &&& r2.mem == over_range(effect, x, k, to, r.mem)
        }),
    decreases (if x < to { to - x } else { 0 }),
{
    range_lies(start, end, counted, b);
    range_end_lies(start, end, counted, b, b2);
    ranging_stands(start, end, counted, b, b2, code);
    let (b1, f) = begin_range_loop_spec(start, end, None, counted, b);
    let t = b.temp_types.len() as int;
    reveal_with_fuel(incoming_from, 3);
    comes_to_itself(code, sem, r);
    let r1 = one_step_further(code, sem, r, r);
    assert(r1.vals[f.i] == Value::Number(x));
    let r2 = if counted {
        one_step_further(code, sem, r, r1)
    } else {
        r1
    };
    assert(counted ==> r2.vals[f.idx] == Value::Number(k));
    let r3 = one_step_further(code, sem, r, r2);
    assert(r3.vals[Temp((if counted { t + 5 } else { t + 2 }) as u32)] == Value::Truth(x < to));
    let r4 = one_step_further(code, sem, r, r3);
    assert(same_below(b, r, r4) && r4.mem == r.mem);
    if x < to {
        assert(starts_range(b1, f, x, k, r4));
        let r5 = choose|r5: Run|
            {
                &&& #[trigger] comes_to(code, sem, r4, r5)
                &&& is_at(b2, r5)
                &&& same_below(b1, r4, r5)
                &&& r5.mem == effect(x, k, r4.mem)
            };
        comes_further(code, sem, r, r4, r5);
        let c = current(b2).len() as int;
        let is = instrs(&code[b2.env.current_block.0 as int].code);
        let more = range_latch(f, b2.temp_types.len() as int);
        assert(is[c] == more[0] && is[c + 1] == more[1]);
        let r6 = one_step_further(code, sem, r, r5);
        let r7 = one_step_further(code, sem, r, r6);
        assert(r7.vals[f.i_next] == Value::Number(x + 1));
        let r9 = if counted {
            assert(is[c + 2] == more[2] && is[c + 3] == more[3]);
            let r8 = one_step_further(code, sem, r, r7);
            let r9 = one_step_further(code, sem, r, r8);
            assert(r9.vals[f.idx_next] == Value::Number(k + 1));
            r9
        } else {
            r7
        };
        let r10 = one_step_further(code, sem, r, r9);
        assert(same_below(b, r, r10));
        let r11 = range_rest_runs(
            start,
            end,
            counted,
            b,
            b2,
            code,
            sem,
            effect,
            origin,
            x + 1,
            k + 1,
            to,
            r10,
        );
        comes_further(code, sem, r, r10, r11);
        r11
    } else {
        r4
    }
}

/// A run of a loop over a range without a step runs its body for the numbers from the start up to
/// the end, which is not one of them, one by one in order, with their positions from zero on where
/// they are counted, and then comes to the code behind the loop.
pub proof fn range_loop_runs_for_every_number(
    start: Temp,
    end: Temp,
    counted: bool,
    b: FState,
    b2: FState,
    code: Seq<BasicBlock>,
    sem: Oracle,
    effect: spec_fn(int, int, Mem) -> Mem,
    x: int,
    to: int,
    r: Run,
) -> (r2: Run)
    requires
        ranging_loop(start, end, counted, b, b2, code),
        ({
            let (b1, f) = begin_range_loop_spec(start, end, None, counted, b);
            body_ranges(code, sem, b, r, b1, b2, f, effect)
        }),
        is_at(b, r),
        r.vals[start] == Value::Number(x),
        r.vals[end] == Value::Number(to),
    ensures
        ({
            let f = begin_range_loop_spec(start, end, None, counted, b).1;
            let last = end_range_loop_spec(&f, None, b2);
            &&& comes_to(code, sem, r, r2)
            &&& is_at(last, r2)
            &&& same_below(b, r, r2)
            &&& r2.mem == over_range(effect, x, 0, to, r.mem)
        }),
{
    range_lies(start, end, counted, b);
    ranging_stands(start, end, counted, b, b2, code);
    comes_to_itself(code, sem, r);
    let c = current(b).len() as int;
    let is = instrs(&code[b.env.current_block.0 as int].code);
    let r1 = if counted {
        assert(is[c] == (Instruction::Const {
            dst: Temp(b.temp_types.len() as u32),
            value: Const::Int(0, Type::Int32),
        }));
        one_step_further(code, sem, r, r)
    } else {
        r
    };
    let r2 = one_step_further(code, sem, r, r1);
    assert(same_below(b, r, r2) && r2.mem == r.mem);
    let r3 = range_rest_runs(start, end, counted, b, b2, code, sem, effect, r, x, 0, to, r2);
    comes_further(code, sem, r, r2, r3);
    r3
}

// `for` over a range.

/// The states of `for` over a range with an inlined function: behind the bounds, in front of the
/// loop, where its body starts, and where it ends.
pub struct RangeStates {
    pub bounded: St,
    pub from: Temp,
    pub to: Temp,
    pub mid: FState,
    pub start: Temp,
    pub before: FState,
    pub end: Temp,
    pub begun: FState,
    pub frame: RangeLoop,
    pub done: FState,
}

/// The states of `for` over a range with an inlined function.
pub open spec fn range_states(
    l: Lower,
    start_e: &TypedExpr,
    end_e: &TypedExpr,
    callback: &TypedExpr,
    s: St,
) -> RangeStates {
    let (s1, from) = low(l, start_e, s);
    let (bounded, to) = low(l, end_e, s1);
    let (mid, start) = coerce_to_slot_type_spec(from, &start_e.ty(), &Type::Int32, bounded.b);
    let (before, end) = coerce_to_slot_type_spec(to, &end_e.ty(), &Type::Int32, mid);
    let lam = inlinable_local_fn_spec(callback, St { b: before, c: bounded.c })->Some_0;
    let (begun, frame) = begin_range_loop_spec(start, end, None, takes_two(&lam.params), before);
    let noted = if before.temp_is_nonneg_int_const(from) || before.temp_is_nonneg_int_const(start) {
        begun.add_nonneg(frame.i)
    } else {
        begun
    };
    let (s2, res) = inline_lambda_body_tracking_elem_boxes_spec(
        l,
        &lam,
        &elem_and_index(frame.i, &Type::Int32, frame.idx),
        St { b: noted, c: bounded.c },
    );
    let b = s2.b.drop_nonneg(frame.i).emit(Instruction::Release { val: res.val, ty: res.ty });
    let done = free_arg_box_shells_spec(&res.boxes, res.val, b);
    RangeStates { bounded, from, to, mid, start, before, end, begun, frame, done }
}

/// A bound carries its value.
proof fn bound_carries(t: Temp, ty: &Type, b: FState)
    ensures
        ({
            let (b2, x) = coerce_to_slot_type_spec(t, ty, &Type::Int32, b);
            carries(b, t, b2, x)
        }),
{
    reveal(coerce_to_slot_type_spec);
    let to = Type::Int32;
    let e = b.coerce(t, ty, &to);
}

/// A run of what `for` over a range without a step is lowered to, where the function is inlined:
/// from where the bounds have been evaluated it comes behind the loop, and the body has run for the
/// numbers from the start up to the end, which is not one of them, one by one in order. The result
/// is null.
pub proof fn range_for_runs_for_every_number(
    l: Lower,
    start_e: &TypedExpr,
    end_e: &TypedExpr,
    callback: &TypedExpr,
    param_tys: &List<Type>,
    s: St,
    code: Seq<BasicBlock>,
    sem: Oracle,
    effect: spec_fn(int, int, Mem) -> Mem,
    x: int,
    to: int,
    r: Run,
) -> (r2: Run)
    requires
        ({
            let p = range_states(l, start_e, end_e, callback, s);
            let last = lower_range_for_spec(l, start_e, end_e, None, callback, param_tys, s).0.b;
            &&& inlinable_local_fn_spec(callback, St { b: p.before, c: p.bounded.c }) is Some
            &&& is_open(p.bounded.b)
            &&& range_room(p.before)
            &&& stays_local(p.begun, p.done)
            &&& last.blocks.len() < u32::MAX
            &&& last.temp_types.len() < u32::MAX
            &&& p.done.temp_types.len() + 2 < u32::MAX
            &&& part_stands(p.bounded.b, last, code)
            &&& is_at(p.bounded.b, r)
            &&& p.from.0 < p.bounded.b.temp_types.len()
            &&& p.to.0 < p.bounded.b.temp_types.len()
            &&& r.vals[p.from] == Value::Number(x)
            &&& r.vals[p.to] == Value::Number(to)
            &&& body_ranges(code, sem, p.bounded.b, r, p.begun, p.done, p.frame, effect)
        }),
    ensures
        ({
            let (s2, t) = lower_range_for_spec(l, start_e, end_e, None, callback, param_tys, s);
            &&& comes_to(code, sem, r, r2)
            &&& is_at(s2.b, r2)
            &&& r2.vals[t] == Value::Null
            &&& r2.mem == over_range(effect, x, 0, to, r.mem)
        }),
{
    reveal(lower_range_for_spec);
    let p = range_states(l, start_e, end_e, callback, s);
    let (s2, t) = lower_range_for_spec(l, start_e, end_e, None, callback, param_tys, s);
    let last = s2.b;
    let counted = takes_two(
        &(inlinable_local_fn_spec(callback, St { b: p.before, c: p.bounded.c })->Some_0).params,
    );
    let b3 = end_range_loop_spec(&p.frame, None, p.done);
    assert((last, t) == b3.const_temp(Const::Null));
    bound_carries(p.from, &start_e.ty(), p.bounded.b);
    bound_carries(p.to, &end_e.ty(), p.mid);
    carried_local(p.bounded.b, p.from, p.mid, p.start);
    carried_local(p.mid, p.to, p.before, p.end);
    range_lies(p.start, p.end, counted, p.before);
    assert(stays_local(b3, last) && b3.temp_types.len() < u32::MAX && b3.blocks.len()
        == last.blocks.len()) by {
        reveal(FState::const_temp);
        reveal(FState::alloc_temp);
        reveal(FState::emit);
        reveal_with_fuel(instrs, 2);
    }
    assert(b3.blocks.len() == p.done.blocks.len()) by {
        reveal(end_range_loop_spec);
        operations_add();
    }
    range_end_lies(p.start, p.end, counted, p.before, p.done);
    local_adds_up(p.before, b3, last);
    local_adds_up(p.mid, p.before, last);
    halves_stand(p.bounded.b, p.mid, last, code);
    halves_stand(p.mid, p.before, last, code);
    halves_stand(p.before, b3, last, code);
    let r1 = carried_runs(p.bounded.b, p.from, p.mid, p.start, code, sem, r);
    let r2 = carried_runs(p.mid, p.to, p.before, p.end, code, sem, r1);
    comes_further(code, sem, r, r1, r2);
    assert(same_below(p.bounded.b, r, r2));
    assert(r2.vals[p.start] == Value::Number(x));
    assert(body_ranges(code, sem, p.before, r2, p.begun, p.done, p.frame, effect)) by {
        assert forall|y: int, k: int, q: Run|
            same_below(p.before, r2, q) && #[trigger] starts_range(
                p.begun,
                p.frame,
                y,
                k,
                q,
            ) implies exists|q2: Run|
            {
                &&& #[trigger] comes_to(code, sem, q, q2)
                &&& is_at(p.done, q2)
                &&& same_below(p.begun, q, q2)
                &&& q2.mem == effect(y, k, q.mem)
            } by {
            assert(same_below(p.bounded.b, r, q));
        }
    }
    assert(ranging_loop(p.start, p.end, counted, p.before, p.done, code));
    let r3 = range_loop_runs_for_every_number(
        p.start,
        p.end,
        counted,
        p.before,
        p.done,
        code,
        sem,
        effect,
        x,
        to,
        r2,
    );
    comes_further(code, sem, r, r2, r3);
    constant_runs(b3, Const::Null, code, sem, r3);
    let r4 = after_instr(sem, Instruction::Const { dst: t, value: Const::Null }, r3);
    comes_further(code, sem, r, r3, r4);
    r4
}

} // verus!
