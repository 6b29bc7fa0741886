//! Loops over collections, as they run.

use crate::ast::BinOp;
use crate::builder::FState;
use crate::ir::{BasicBlock, BlockId, Const, Incoming, Instruction, Temp, Terminator};
use crate::list::two;
use crate::loops::{
    ElemAccess, LoopFlow, LoopFrame, begin_combinator_loop_spec, emit_iterable_len_spec,
    end_combinator_loop_spec,
};
use crate::run::{
    Mem, Oracle, Run, Value, after_instr, begins, comes_further, comes_one_step, comes_to,
    comes_to_itself, constant_runs, current, element_runs, emitted_runs, instrs, is_at, is_here,
    is_open, length_of, length_runs, operator_runs, same_below, stays_local, step,
};
use crate::types::Type;
use vstd::prelude::*;

verus! {

// Parts of code that stand where they were emitted.

/// What was emitted from `a` to `b` stands in `code`: the new blocks and the one in which `a` was,
/// as they are, and the one in which `b` is, as the beginning of a block. Of the other blocks of
/// `a` nothing is said.
pub open spec fn part_stands(a: FState, b: FState, code: Seq<BasicBlock>) -> bool {
    let k = b.env.current_block.0 as int;
    &&& b.blocks.len() <= code.len()
    &&& k < b.blocks.len()
    &&& begins(current(b), instrs(&code[k].code))
    &&& forall|j: int|
        0 <= j < b.blocks.len() && j != k && (j == a.env.current_block.0 || a.blocks.len() <= j)
            ==> #[trigger] code[j] == b.blocks[j]
}

/// Both halves of a part stand where it does.
pub proof fn halves_stand(a: FState, b: FState, c: FState, code: Seq<BasicBlock>)
    requires
        stays_local(a, b),
        stays_local(b, c),
        is_open(a),
        c.blocks.len() < u32::MAX,
        c.temp_types.len() < u32::MAX,
        part_stands(a, c, code),
    ensures
        part_stands(a, b, code),
        part_stands(b, c, code),
        stays_local(a, c),
        is_open(b),
        is_open(c),
{
}

// The loop.

/// The blocks and temporaries of a loop over a collection, besides those of its frame.
pub struct LoopParts {
    pub pre: BlockId,
    pub body: BlockId,
    pub len: Temp,
    pub zero: Temp,
}

/// The parts of the loop that starts in `b`.
pub open spec fn loop_parts(iterable: Temp, iterable_ty: &Type, b: FState) -> LoopParts {
    let (b1, len) = emit_iterable_len_spec(iterable, iterable_ty, b);
    let (b2, zero) = b1.const_temp(Const::Int(0, Type::Int64));
    let (b3, header) = b2.alloc_block("for_header");
    let (b4, body) = b3.alloc_block("for_body");
    LoopParts { pre: b2.env.current_block, body, len, zero }
}

/// The states in which the loop starts: behind the code in front of it, in its header, and in its
/// body.
pub open spec fn loop_states(
    iterable: Temp,
    iterable_ty: &Type,
    b: FState,
) -> (FState, FState, FState) {
    let (b1, len) = emit_iterable_len_spec(iterable, iterable_ty, b);
    let (b2, zero) = b1.const_temp(Const::Int(0, Type::Int64));
    let preheader = b2.env.current_block;
    let (b3, header) = b2.alloc_block("for_header");
    let (b4, body) = b3.alloc_block("for_body");
    let (b5, latch) = b4.alloc_block("for_latch");
    let (b6, exit) = b5.alloc_block("for_exit");
    let (b7, i) = b6.alloc_temp(Type::Int64);
    let (b8, i_next) = b7.alloc_temp(Type::Int64);
    let head = b8.terminate(Terminator::Jump(header)).switch_to(header);
    let phi = Instruction::Phi {
        dst: i,
        ty: Type::Int64,
        incomings: two(
            Incoming { val: zero, pred: preheader },
            Incoming { val: i_next, pred: latch },
        ),
    };
    let (b9, cond) = head.emit(phi).binary(BinOp::Lt, i, len, &Type::Int64, &Type::Bool);
    let term = Terminator::CondJump { cond, then_block: body, else_block: exit };
    (b2, head, b9.terminate(term).switch_to(body))
}

/// There is room for the start of the loop: blocks and temporaries do not run out.
pub open spec fn loop_room(b: FState) -> bool {
    is_open(b) && b.blocks.len() + 4 < u32::MAX && b.temp_types.len() + 7 < u32::MAX
}

/// How the loop lies: the numbers of its blocks and temporaries, and the blocks that are empty
/// when its body starts.
pub proof fn loop_lies(iterable: Temp, iterable_ty: &Type, elem_ty: Type, b: FState)
    requires
        loop_room(b),
    ensures
        ({
            let p = loop_parts(iterable, iterable_ty, b);
            let (front, head, inner) = loop_states(iterable, iterable_ty, b);
            let access = ElemAccess::Materialize(elem_ty);
            let (b1, f) = begin_combinator_loop_spec(iterable, iterable_ty, access, b);
            let n = b.blocks.len() as int;
            let t = b.temp_types.len();
            &&& p.pre == b.env.current_block
            &&& f.header.0 == n && p.body.0 == n + 1 && f.latch.0 == n + 2 && f.exit.0 == n + 3
            &&& p.len.0 == t && p.zero.0 == t + 1 && f.i.0 == t + 2 && f.i_next.0 == t + 3
            &&& f.elem.0 == t + 5
            &&& head.temp_types.len() == t + 4 && inner.temp_types.len() == t + 5
            &&& b1.temp_types.len() == t + 6
            &&& front.blocks.len() == n && front.env.current_block == p.pre && is_open(front)
            &&& head.blocks.len() == n + 4 && head.env.current_block == f.header && is_open(head)
            &&& current(head) =~= Seq::empty()
            &&& inner.blocks.len() == n + 4 && inner.env.current_block == p.body && is_open(inner)
            &&& current(inner) =~= Seq::empty()
            &&& (b1, f.elem) == inner.index(
                iterable,
                f.i,
                iterable_ty,
                &Type::Int64,
                &elem_ty,
                false,
            )
            &&& b1.blocks.len() == n + 4 && b1.env.current_block == p.body && is_open(b1)
            &&& instrs(&b1.blocks[n + 2].code) =~= Seq::empty() && b1.blocks[n + 2].term
                is Unreachable
            &&& instrs(&b1.blocks[n + 3].code) =~= Seq::empty() && b1.blocks[n + 3].term
                is Unreachable
            &&& b1.blocks[p.pre.0 as int].code == front.blocks[p.pre.0 as int].code
            &&& b1.blocks[p.pre.0 as int].term == Terminator::Jump(f.header)
            &&& forall|j: int|
                0 <= j < n && j != p.pre.0 ==> #[trigger] b1.blocks[j] == b.blocks[j]
            &&& begins(current(b), current(front))
        }),
{
    reveal(begin_combinator_loop_spec);
    reveal(emit_iterable_len_spec);
    reveal(FState::call);
    reveal(FState::call_intrinsic);
    reveal(FState::const_temp);
    reveal(FState::alloc_temp);
    reveal(FState::alloc_block);
    reveal(FState::emit);
    reveal(FState::terminate);
    reveal(FState::switch_to);
    reveal(FState::binary);
    reveal(FState::index);
    reveal_with_fuel(instrs, 3);
}

/// From the code in front of the loop a run comes to the header, where the length is known and the
/// counter is to start at zero.
pub(crate) proof fn front_runs(
    iterable: Temp,
    iterable_ty: &Type,
    elem_ty: Type,
    b: FState,
    code: Seq<BasicBlock>,
    sem: Oracle,
    r: Run,
    items: Seq<Value>,
) -> (r2: Run)
    requires
        loop_room(b),
        ({
            let p = loop_parts(iterable, iterable_ty, b);
            let access = ElemAccess::Materialize(elem_ty);
            let b1 = begin_combinator_loop_spec(iterable, iterable_ty, access, b).0;
            p.pre.0 < code.len() && code[p.pre.0 as int] == b1.blocks[p.pre.0 as int]
        }),
        is_at(b, r),
        iterable.0 < b.temp_types.len(),
        r.vals[iterable] == Value::Items(items),
    ensures
        ({
            let p = loop_parts(iterable, iterable_ty, b);
            let access = ElemAccess::Materialize(elem_ty);
            let f = begin_combinator_loop_spec(iterable, iterable_ty, access, b).1;
            &&& comes_to(code, sem, r, r2)
            &&& r2.block == f.header && r2.at == 0 && r2.from == p.pre
            &&& r2.vals[p.len] == Value::Number(items.len() as int)
            &&& r2.vals[p.zero] == Value::Number(0)
            &&& same_below(b, r, r2)
            &&& r2.mem == r.mem
        }),
{
    loop_lies(iterable, iterable_ty, elem_ty, b);
    let (b1, len) = emit_iterable_len_spec(iterable, iterable_ty, b);
    let (b2, zero) = b1.const_temp(Const::Int(0, Type::Int64));
    assert(is_here(b2, code));
    assert(is_open(b1) && b1.temp_types.len() == b.temp_types.len() + 1) by {
        reveal(emit_iterable_len_spec);
        reveal(FState::call);
        reveal(FState::call_intrinsic);
        reveal(FState::alloc_temp);
        reveal(FState::emit);
    }
    let r1 = Run { at: r.at + 1, vals: r.vals.insert(len, length_of(r.vals[iterable])), ..r };
    let any = Run { block: b1.env.current_block, at: current(b1).len(), ..r };
    constant_runs(b1, Const::Int(0, Type::Int64), code, sem, any);
    length_runs(b, iterable, iterable_ty, code, sem, r);
    constant_runs(b1, Const::Int(0, Type::Int64), code, sem, r1);
    let i2 = Instruction::Const { dst: zero, value: Const::Int(0, Type::Int64) };
    let r2 = after_instr(sem, i2, r1);
    let r3 = step(code, sem, r2);
    comes_one_step(code, sem, r2);
    comes_further(code, sem, r, r1, r2);
    comes_further(code, sem, r, r2, r3);
    r3
}

/// From the header a run comes to the code of the body, with the element at hand, where there is
/// another element, else to the exit.
pub(crate) proof fn header_runs(
    iterable: Temp,
    iterable_ty: &Type,
    elem_ty: Type,
    b: FState,
    code: Seq<BasicBlock>,
    sem: Oracle,
    r: Run,
    k: int,
    items: Seq<Value>,
) -> (r2: Run)
    requires
        loop_room(b),
        0 <= k <= items.len(),
        iterable.0 < b.temp_types.len(),
        ({
            let p = loop_parts(iterable, iterable_ty, b);
            let access = ElemAccess::Materialize(elem_ty);
            let (b1, f) = begin_combinator_loop_spec(iterable, iterable_ty, access, b);
            &&& f.header.0 < code.len() && code[f.header.0 as int] == b1.blocks[f.header.0 as int]
            &&& is_here(b1, code)
            &&& r.block == f.header && r.at == 0
            &&& r.vals[p.len] == Value::Number(items.len() as int)
            &&& r.vals[iterable] == Value::Items(items)
            &&& (r.from == p.pre && r.vals[p.zero] == Value::Number(k)) || (r.from == f.latch
                && r.vals[f.i_next] == Value::Number(k))
        }),
    ensures
        ({
            let p = loop_parts(iterable, iterable_ty, b);
            let access = ElemAccess::Materialize(elem_ty);
            let (b1, f) = begin_combinator_loop_spec(iterable, iterable_ty, access, b);
            &&& comes_to(code, sem, r, r2)
            &&& if k < items.len() {
                is_at(b1, r2) && r2.vals[f.elem] == items[k]
            } else {
                r2.block == f.exit && r2.at == 0
            }
            &&& r2.vals[f.i] == Value::Number(k)
            &&& r2.vals[p.len] == Value::Number(items.len() as int)
            &&& same_below(b, r, r2)
            &&& r2.mem == r.mem
        }),
{
    loop_lies(iterable, iterable_ty, elem_ty, b);
    let p = loop_parts(iterable, iterable_ty, b);
    let (front, head, inner) = loop_states(iterable, iterable_ty, b);
    let access = ElemAccess::Materialize(elem_ty);
    let (last, f) = begin_combinator_loop_spec(iterable, iterable_ty, access, b);
    let phi = Instruction::Phi {
        dst: f.i,
        ty: Type::Int64,
        incomings: two(
            Incoming { val: p.zero, pred: p.pre },
            Incoming { val: f.i_next, pred: f.latch },
        ),
    };
    let number = Type::Int64;
    let truth = Type::Bool;
    let b1 = head.emit(phi);
    let (b2, cond) = b1.binary(BinOp::Lt, f.i, p.len, &number, &truth);
    let term = Terminator::CondJump { cond, then_block: p.body, else_block: f.exit };
    let h = f.header.0 as int;
    assert(inner == b2.terminate(term).switch_to(p.body)) by {
        reveal(begin_combinator_loop_spec);
    }
    assert(is_open(b1) && is_open(b2) && b1.env.current_block == f.header && b2.env.current_block
        == f.header && b1.temp_types == head.temp_types) by {
        reveal(FState::emit);
        reveal(FState::binary);
        reveal(FState::alloc_temp);
    }
    assert(inner.blocks[h].code == b2.blocks[h].code && inner.blocks[h].term == term) by {
        reveal(FState::terminate);
        reveal(FState::switch_to);
    }
    assert(last.blocks[h] == inner.blocks[h]) by {
        reveal(FState::index);
        reveal(FState::alloc_temp);
        reveal(FState::emit);
    }
    assert(is_here(b2, code));
    let any = Run { block: f.header, at: current(b1).len(), ..r };
    operator_runs(b1, BinOp::Lt, f.i, p.len, &number, &truth, code, sem, any);
    emitted_runs(head, phi, code, sem, r);
    let r1 = after_instr(sem, phi, r);
    operator_runs(b1, BinOp::Lt, f.i, p.len, &number, &truth, code, sem, r1);
    let i2 = Instruction::Binary {
        dst: cond,
        op: BinOp::Lt,
        lhs: f.i,
        rhs: p.len,
        operand_ty: number,
        ty: truth,
    };
    let r2 = after_instr(sem, i2, r1);
    assert(p.pre != f.latch);
    reveal_with_fuel(crate::run::incoming_from, 3);
    assert(r1.vals[f.i] == Value::Number(k));
    assert(r2.vals[cond] == Value::Truth(k < items.len()));
    let r3 = step(code, sem, r2);
    comes_one_step(code, sem, r2);
    comes_further(code, sem, r, r1, r2);
    comes_further(code, sem, r, r2, r3);
    if k < items.len() {
        element_runs(inner, iterable, f.i, iterable_ty, &elem_ty, code, sem, r3);
        let i4 = Instruction::Index {
            dst: f.elem,
            object: iterable,
            key: f.i,
            obj_ty: *iterable_ty,
            key_ty: Type::Int64,
            result_ty: elem_ty,
            nonneg: false,
        };
        let r4 = after_instr(sem, i4, r3);
        comes_further(code, sem, r, r3, r4);
        r4
    } else {
        r3
    }
}

/// The code of a loop that runs its body for every element: it starts in `b`, and its body is
/// emitted from where the start ends to `b2`.
pub open spec fn whole_loop(
    iterable: Temp,
    iterable_ty: &Type,
    elem_ty: Type,
    b: FState,
    b2: FState,
    code: Seq<BasicBlock>,
) -> bool {
    let access = ElemAccess::Materialize(elem_ty);
    let (b1, f) = begin_combinator_loop_spec(iterable, iterable_ty, access, b);
    let b3 = end_combinator_loop_spec(&f, LoopFlow::Fallthrough, b2);
    &&& loop_room(b)
    &&& stays_local(b1, b2)
    &&& b2.blocks.len() < u32::MAX
    &&& b2.temp_types.len() < u32::MAX
    &&& part_stands(b, b3, code)
}

/// How the end of the loop lies.
pub proof fn loop_ends(
    iterable: Temp,
    iterable_ty: &Type,
    elem_ty: Type,
    b: FState,
    b2: FState,
    code: Seq<BasicBlock>,
)
    requires
        whole_loop(iterable, iterable_ty, elem_ty, b, b2, code),
    ensures
        ({
            let p = loop_parts(iterable, iterable_ty, b);
            let access = ElemAccess::Materialize(elem_ty);
            let (b1, f) = begin_combinator_loop_spec(iterable, iterable_ty, access, b);
            let b3 = end_combinator_loop_spec(&f, LoopFlow::Fallthrough, b2);
            let back = b2.env.current_block.0 as int;
            let one = Temp(b2.temp_types.len() as u32);
            let counted = Instruction::Binary {
                dst: f.i_next,
                op: BinOp::Add,
                lhs: f.i,
                rhs: one,
                operand_ty: Type::Int64,
                ty: Type::Int64,
            };
            &&& is_open(b2)
            &&& part_stands(b1, b2, code)
            &&& code[p.pre.0 as int] == b1.blocks[p.pre.0 as int] && p.pre.0 < code.len()
            &&& code[f.header.0 as int] == b1.blocks[f.header.0 as int] && f.header.0 < code.len()
            &&& is_here(b1, code)
            &&& instrs(&code[back].code) == current(b2) && back < code.len()
            &&& code[back].term == Terminator::Jump(f.latch)
            &&& instrs(&code[f.latch.0 as int].code) == seq![
                Instruction::Const { dst: one, value: Const::Int(1, Type::Int64) },
                counted,
            ] && f.latch.0 < code.len()
            &&& code[f.latch.0 as int].term == Terminator::Jump(f.header)
            &&& b3.env.current_block == f.exit && current(b3) == Seq::<Instruction>::empty()
            &&& is_open(b3) && stays_local(b, b3)
            &&& b3.blocks.len() == b2.blocks.len()
            &&& b3.temp_types.len() == b2.temp_types.len() + 1
        }),
{
    loop_lies(iterable, iterable_ty, elem_ty, b);
    reveal(end_combinator_loop_spec);
    reveal(FState::is_terminated);
    reveal(FState::const_temp);
    reveal(FState::alloc_temp);
    reveal(FState::emit);
    reveal(FState::terminate);
    reveal(FState::switch_to);
    reveal_with_fuel(instrs, 3);
    let p = loop_parts(iterable, iterable_ty, b);
    let access = ElemAccess::Materialize(elem_ty);
    let (b1, f) = begin_combinator_loop_spec(iterable, iterable_ty, access, b);
    let b3 = end_combinator_loop_spec(&f, LoopFlow::Fallthrough, b2);
    let back = b2.env.current_block.0 as int;
    assert(b2.blocks[f.latch.0 as int] == b1.blocks[f.latch.0 as int]);
    assert(b2.blocks[f.exit.0 as int] == b1.blocks[f.exit.0 as int]);
    assert(b2.blocks[f.header.0 as int] == b1.blocks[f.header.0 as int]);
    assert(b2.blocks[p.pre.0 as int] == b1.blocks[p.pre.0 as int]);
    assert(code[back] == b3.blocks[back]);
    assert(code[f.latch.0 as int] == b3.blocks[f.latch.0 as int]);
    assert(code[f.header.0 as int] == b3.blocks[f.header.0 as int]);
    assert(code[p.pre.0 as int] == b3.blocks[p.pre.0 as int]);
    let body = p.body.0 as int;
    assert(back != body ==> code[body] == b3.blocks[body]);
}

/// A run is where the body starts, with the element `items[k]` at hand.
pub open spec fn starts_body(b: FState, f: LoopFrame, items: Seq<Value>, k: int, r: Run) -> bool {
    is_at(b, r) && r.vals[f.i] == Value::Number(k) && r.vals[f.elem] == items[k]
}

/// A run has come through the body, whose code was emitted from `b` to `b2`, and left alone the
/// temporaries of `b`.
pub open spec fn passed(b: FState, b2: FState, r: Run, r2: Run) -> bool {
    is_at(b2, r2) && same_below(b, r, r2)
}

/// What the body does in a loop that `origin` comes to, where `before` has been emitted: where
/// `inv` holds of an element and of what has been changed so far, it holds of the next one
/// afterwards. The temporaries from before the loop have the values that they had there.
pub open spec fn body_keeps(
    code: Seq<BasicBlock>,
    sem: Oracle,
    before: FState,
    origin: Run,
    b: FState,
    b2: FState,
    f: LoopFrame,
    items: Seq<Value>,
    inv: spec_fn(int, Mem) -> bool,
) -> bool {
    forall|k: int, r: Run|
        0 <= k < items.len() && inv(k, r.mem) && same_below(before, origin, r)
            && #[trigger] starts_body(b, f, items, k, r) ==> exists|r2: Run|
            {
                &&& #[trigger] comes_to(code, sem, r, r2)
                &&& passed(b, b2, r, r2)
                &&& inv(k + 1, r2.mem)
            }
}

/// From the header a run comes to the exit, having run the body for the rest of the elements.
proof fn rest_runs(
    iterable: Temp,
    iterable_ty: &Type,
    elem_ty: Type,
    b: FState,
    b2: FState,
    code: Seq<BasicBlock>,
    sem: Oracle,
    items: Seq<Value>,
    inv: spec_fn(int, Mem) -> bool,
    origin: Run,
    r: Run,
    k: int,
) -> (r2: Run)
    requires
        whole_loop(iterable, iterable_ty, elem_ty, b, b2, code),
        0 <= k <= items.len(),
        iterable.0 < b.temp_types.len(),
        inv(k, r.mem),
        same_below(b, origin, r),
        ({
            let p = loop_parts(iterable, iterable_ty, b);
            let access = ElemAccess::Materialize(elem_ty);
            let (b1, f) = begin_combinator_loop_spec(iterable, iterable_ty, access, b);
            &&& body_keeps(code, sem, b, origin, b1, b2, f, items, inv)
            &&& r.block == f.header && r.at == 0
            &&& r.vals[p.len] == Value::Number(items.len() as int)
            &&& r.vals[iterable] == Value::Items(items)
            &&& (r.from == p.pre && r.vals[p.zero] == Value::Number(k)) || (r.from == f.latch
                && r.vals[f.i_next] == Value::Number(k))
        }),
    ensures
        ({
            let access = ElemAccess::Materialize(elem_ty);
            let (b1, f) = begin_combinator_loop_spec(iterable, iterable_ty, access, b);
            let b3 = end_combinator_loop_spec(&f, LoopFlow::Fallthrough, b2);
            &&& comes_to(code, sem, r, r2)
            &&& is_at(b3, r2)
            &&& same_below(b, r, r2)
            &&& inv(items.len() as int, r2.mem)
        }),
    decreases items.len() - k,
{
    loop_lies(iterable, iterable_ty, elem_ty, b);
    loop_ends(iterable, iterable_ty, elem_ty, b, b2, code);
    let p = loop_parts(iterable, iterable_ty, b);
    let access = ElemAccess::Materialize(elem_ty);
    let (b1, f) = begin_combinator_loop_spec(iterable, iterable_ty, access, b);
    let r1 = header_runs(iterable, iterable_ty, elem_ty, b, code, sem, r, k, items);
    if k < items.len() {
        assert(starts_body(b1, f, items, k, r1));
        let r2 = choose|r2: Run|
            {
                &&& #[trigger] comes_to(code, sem, r1, r2)
                &&& passed(b1, b2, r1, r2)
                &&& inv(k + 1, r2.mem)
            };
        comes_further(code, sem, r, r1, r2);
        let r3 = step(code, sem, r2);
        comes_one_step(code, sem, r2);
        comes_further(code, sem, r, r2, r3);
        assert(r3.block == f.latch && r3.at == 0);
        let r4 = step(code, sem, r3);
        comes_one_step(code, sem, r3);
        comes_further(code, sem, r, r3, r4);
        let r5 = step(code, sem, r4);
        comes_one_step(code, sem, r4);
        comes_further(code, sem, r, r4, r5);
        assert(r5.vals[f.i_next] == Value::Number(k + 1));
        let r6 = step(code, sem, r5);
        comes_one_step(code, sem, r5);
        comes_further(code, sem, r, r5, r6);
        let r7 = rest_runs(
            iterable,
            iterable_ty,
            elem_ty,
            b,
            b2,
            code,
            sem,
            items,
            inv,
            origin,
            r6,
            k + 1,
        );
        comes_further(code, sem, r, r6, r7);
        r7
    } else {
        r1
    }
}

/// A run of the emitted loop runs the body for all the elements, in order, and then comes to the
/// code behind the loop: what the body keeps from each element to the next holds at the end.
pub proof fn loop_runs_its_body_for_every_element(
    iterable: Temp,
    iterable_ty: &Type,
    elem_ty: Type,
    b: FState,
    b2: FState,
    code: Seq<BasicBlock>,
    sem: Oracle,
    items: Seq<Value>,
    inv: spec_fn(int, Mem) -> bool,
    r: Run,
) -> (r2: Run)
    requires
        whole_loop(iterable, iterable_ty, elem_ty, b, b2, code),
        ({
            let access = ElemAccess::Materialize(elem_ty);
            let (b1, f) = begin_combinator_loop_spec(iterable, iterable_ty, access, b);
            body_keeps(code, sem, b, r, b1, b2, f, items, inv)
        }),
        is_at(b, r),
        iterable.0 < b.temp_types.len(),
        r.vals[iterable] == Value::Items(items),
        inv(0, r.mem),
    ensures
        ({
            let access = ElemAccess::Materialize(elem_ty);
            let f = begin_combinator_loop_spec(iterable, iterable_ty, access, b).1;
            let b3 = end_combinator_loop_spec(&f, LoopFlow::Fallthrough, b2);
            &&& comes_to(code, sem, r, r2)
            &&& is_at(b3, r2)
            &&& same_below(b, r, r2)
            &&& inv(items.len() as int, r2.mem)
        }),
{
    loop_ends(iterable, iterable_ty, elem_ty, b, b2, code);
    loop_lies(iterable, iterable_ty, elem_ty, b);
    let r1 = front_runs(iterable, iterable_ty, elem_ty, b, code, sem, r, items);
    let r2 = rest_runs(iterable, iterable_ty, elem_ty, b, b2, code, sem, items, inv, r, r1, 0);
    comes_further(code, sem, r, r1, r2);
    r2
}

/// How much the start of a loop adds.
#[verifier::rlimit(40)]
#[verifier::spinoff_prover]
pub proof fn loop_start_adds(iterable: Temp, iterable_ty: &Type, elem_ty: Type, b: FState)
    ensures
        ({
            let access = ElemAccess::Materialize(elem_ty);
            let b1 = begin_combinator_loop_spec(iterable, iterable_ty, access, b).0;
            &&& b.blocks.len() <= b1.blocks.len()
            &&& b.temp_types.len() <= b1.temp_types.len()
            &&& b1.blocks.len() < u32::MAX ==> b1.blocks.len() == b.blocks.len() + 4
            &&& b1.temp_types.len() < u32::MAX ==> b1.temp_types.len() == b.temp_types.len() + 6
        }),
{
    reveal(begin_combinator_loop_spec);
    reveal(emit_iterable_len_spec);
    reveal(FState::call);
    reveal(FState::call_intrinsic);
    reveal(FState::const_temp);
    reveal(FState::alloc_temp);
    reveal(FState::alloc_block);
    reveal(FState::emit);
    reveal(FState::terminate);
    reveal(FState::switch_to);
    reveal(FState::binary);
    reveal(FState::index);
}

/// How much the end of a loop adds.
pub proof fn loop_end_adds(f: &LoopFrame, b2: FState)
    ensures
        ({
            let b3 = end_combinator_loop_spec(f, LoopFlow::Fallthrough, b2);
            &&& b3.blocks.len() == b2.blocks.len()
            &&& b2.temp_types.len() <= b3.temp_types.len()
            &&& b3.temp_types.len() < u32::MAX ==> b3.temp_types.len() == b2.temp_types.len() + 1
            &&& b3.env.current_block == f.exit
        }),
{
    reveal(end_combinator_loop_spec);
    reveal(FState::const_temp);
    reveal(FState::alloc_temp);
    reveal(FState::emit);
    reveal(FState::terminate);
    reveal(FState::switch_to);
}

/// A loop whose body stays local stays local.
pub proof fn loop_local(iterable: Temp, iterable_ty: &Type, elem_ty: Type, b: FState, b2: FState)
    requires
        stays_local(
            begin_combinator_loop_spec(
                iterable,
                iterable_ty,
                ElemAccess::Materialize(elem_ty),
                b,
            ).0,
            b2,
        ),
    ensures
        ({
            let access = ElemAccess::Materialize(elem_ty);
            let f = begin_combinator_loop_spec(iterable, iterable_ty, access, b).1;
            stays_local(b, end_combinator_loop_spec(&f, LoopFlow::Fallthrough, b2))
        }),
{
    let access = ElemAccess::Materialize(elem_ty);
    let (b1, f) = begin_combinator_loop_spec(iterable, iterable_ty, access, b);
    let b3 = end_combinator_loop_spec(&f, LoopFlow::Fallthrough, b2);
    loop_start_adds(iterable, iterable_ty, elem_ty, b);
    loop_end_adds(&f, b2);
    if b3.blocks.len() < u32::MAX && b3.temp_types.len() < u32::MAX && is_open(b) {
        loop_lies(iterable, iterable_ty, elem_ty, b);
        assert(part_stands(b, b3, b3.blocks));
        loop_ends(iterable, iterable_ty, elem_ty, b, b2, b3.blocks);
    }
}

/// The code of a body, emitted from `b` to `by`, is followed by a block of its own, which was made
/// beforehand.
pub open spec fn closed(by: FState, cont: BlockId) -> FState {
    let b = if !by.is_terminated() {
        by.terminate(Terminator::Jump(cont))
    } else {
        by
    };
    b.switch_to(cont)
}

/// The body with its block stays local, and control goes from its code to the block.
pub proof fn closed_local(b: FState, label: &'static str, by: FState)
    requires
        stays_local(b.alloc_block(label).0, by),
    ensures
        ({
            let (bc, cont) = b.alloc_block(label);
            let b2 = closed(by, cont);
            &&& stays_local(b, b2)
            &&& b2.blocks.len() == by.blocks.len()
            &&& b2.temp_types == by.temp_types
            &&& b2.blocks.len() < u32::MAX && b2.temp_types.len() < u32::MAX && is_open(b) ==> {
                let k = by.env.current_block.0 as int;
                &&& cont.0 == b.blocks.len()
                &&& is_open(bc) && bc.env.current_block == b.env.current_block && current(bc)
                    == current(b)
                &&& bc.temp_types == b.temp_types && bc.blocks.len() == b.blocks.len() + 1
                &&& is_open(by) && is_open(b2)
                &&& b2.env.current_block == cont && current(b2) == Seq::<Instruction>::empty()
                &&& by.env.current_block != cont
                &&& b2.blocks[k].code == by.blocks[k].code
                &&& b2.blocks[k].term == Terminator::Jump(cont)
                &&& forall|j: int|
                    0 <= j < by.blocks.len() && j != k ==> #[trigger] b2.blocks[j]
                        == by.blocks[j]
            }
        }),
{
    reveal(FState::alloc_block);
    reveal(FState::is_terminated);
    reveal(FState::terminate);
    reveal(FState::switch_to);
    let (bc, cont) = b.alloc_block(label);
    let b2 = closed(by, cont);
    if b2.blocks.len() < u32::MAX && b2.temp_types.len() < u32::MAX && is_open(b) {
        let k = by.env.current_block.0 as int;
        assert(bc.blocks[b.env.current_block.0 as int] == b.blocks[b.env.current_block.0 as int]);
        assert(is_open(bc));
        assert(by.blocks[cont.0 as int] == bc.blocks[cont.0 as int]);
        assert(instrs(&bc.blocks[cont.0 as int].code) =~= Seq::<Instruction>::empty());
        assert(current(b2) =~= Seq::<Instruction>::empty());
    }
}

/// The code of a body stands where it does with its block.
pub proof fn closed_stands(b: FState, label: &'static str, by: FState, code: Seq<BasicBlock>)
    requires
        stays_local(b.alloc_block(label).0, by),
        is_open(b),
        by.blocks.len() < u32::MAX,
        by.temp_types.len() < u32::MAX,
        part_stands(b, closed(by, b.alloc_block(label).1), code),
    ensures
        part_stands(b.alloc_block(label).0, by, code),
        by.env.current_block.0 < code.len(),
        instrs(&code[by.env.current_block.0 as int].code) == current(by),
        code[by.env.current_block.0 as int].term == Terminator::Jump(b.alloc_block(label).1),
{
    closed_local(b, label, by);
    let (bc, cont) = b.alloc_block(label);
    let b2 = closed(by, cont);
    let k = by.env.current_block.0 as int;
    assert(code[k] == b2.blocks[k]);
    assert forall|j: int|
        0 <= j < by.blocks.len() && j != k && (j == bc.env.current_block.0 || bc.blocks.len()
            <= j) implies #[trigger] code[j] == by.blocks[j] by {
        assert(code[j] == b2.blocks[j]);
    }
}

/// From the end of the body, or from the start of its block, a run comes to the start of its block.
pub proof fn closed_runs(
    b: FState,
    label: &'static str,
    by: FState,
    code: Seq<BasicBlock>,
    sem: Oracle,
    r: Run,
) -> (r2: Run)
    requires
        stays_local(b.alloc_block(label).0, by),
        is_open(b),
        by.blocks.len() < u32::MAX,
        by.temp_types.len() < u32::MAX,
        part_stands(b, closed(by, b.alloc_block(label).1), code),
        is_at(by, r) || (r.block == b.alloc_block(label).1 && r.at == 0),
    ensures
        comes_to(code, sem, r, r2),
        is_at(closed(by, b.alloc_block(label).1), r2),
        r2.vals == r.vals,
        r2.mem == r.mem,
{
    closed_local(b, label, by);
    closed_stands(b, label, by, code);
    let (bc, cont) = b.alloc_block(label);
    let b2 = closed(by, cont);
    assert(b2.env.current_block == cont && current(b2).len() == 0) by {
        reveal(FState::alloc_block);
        reveal(FState::terminate);
        reveal(FState::switch_to);
        assert(bc.blocks[cont.0 as int] == by.blocks[cont.0 as int]);
    }
    if is_at(by, r) {
        let r2 = step(code, sem, r);
        comes_one_step(code, sem, r);
        r2
    } else {
        comes_to_itself(code, sem, r);
        r
    }
}

} // verus!
