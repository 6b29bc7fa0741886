//! Loops that count, as they run.

use crate::ast::BinOp;
use crate::builder::{FState, repred, repred_incomings};
use crate::collect::{CountLoop, LoopLabels, begin_count_loop_spec, end_count_loop_spec};
use crate::finding::{one_step_further, operation, phi};
use crate::ir::{BasicBlock, BlockId, Const, Instruction, Intrinsic, Temp, Terminator};
use crate::list::List;
use crate::looping::part_stands;
use crate::run::{
    Mem, Oracle, Run, Value, comes_further, comes_to, comes_to_itself, current, incoming_from,
    instrs, is_at, is_open, same_below, stays_local, value_of_op,
};
use crate::types::Type;
use vstd::prelude::*;

verus! {

/// There is room for the loop.
pub open spec fn count_room(b: FState) -> bool {
    is_open(b) && b.blocks.len() + 3 < u32::MAX && b.temp_types.len() + 3 < u32::MAX
}

/// How the start of the loop lies.
pub(crate) proof fn count_lies(start: Temp, limit: Temp, labels: LoopLabels, b: FState)
    requires
        count_room(b),
    ensures
        ({
            let (b1, f) = begin_count_loop_spec(start, limit, labels, b);
            let n = b.blocks.len() as int;
            let t = b.temp_types.len() as int;
            let pre = b.env.current_block;
            let cond = Temp((t + 2) as u32);
            &&& f.header.0 == n && f.body.0 == n + 1 && f.exit.0 == n + 2
            &&& f.i.0 == t && f.i_next.0 == t + 1 && b1.temp_types.len() == t + 3
            &&& b1.blocks.len() == n + 3 && b1.env.current_block == f.body && is_open(b1)
            &&& current(b1) == Seq::<Instruction>::empty()
            &&& instrs(&b1.blocks[pre.0 as int].code) == current(b)
            &&& b1.blocks[pre.0 as int].term == Terminator::Jump(f.header)
            &&& instrs(&b1.blocks[n].code) == seq![
                phi(f.i, Type::Int64, start, pre, f.i_next, f.body),
                operation(cond, BinOp::Lt, f.i, limit, Type::Int64, Type::Bool),
            ]
            &&& b1.blocks[n].term == (Terminator::CondJump {
                cond,
                then_block: f.body,
                else_block: f.exit,
            })
            &&& instrs(&b1.blocks[n + 2].code) == Seq::<Instruction>::empty()
            &&& b1.blocks[n + 2].term is Unreachable
            &&& forall|j: int|
                0 <= j < n && j != pre.0 ==> #[trigger] b1.blocks[j] == b.blocks[j]
        }),
{
    reveal(begin_count_loop_spec);
    reveal(FState::alloc_temp);
    reveal(FState::alloc_block);
    reveal(FState::emit);
    reveal(FState::terminate);
    reveal(FState::switch_to);
    reveal(FState::binary);
    reveal_with_fuel(instrs, 3);
    let (b1, f) = begin_count_loop_spec(start, limit, labels, b);
    let n = b.blocks.len() as int;
    let t = b.temp_types.len() as int;
    assert(instrs(&b1.blocks[n].code) =~= seq![
        phi(f.i, Type::Int64, start, b.env.current_block, f.i_next, f.body),
        operation(Temp((t + 2) as u32), BinOp::Lt, f.i, limit, Type::Int64, Type::Bool),
    ]);
}

/// How much the start of the loop adds.
pub(crate) proof fn count_start_adds(start: Temp, limit: Temp, labels: LoopLabels, b: FState)
    ensures
        ({
            let b1 = begin_count_loop_spec(start, limit, labels, b).0;
            &&& b.blocks.len() <= b1.blocks.len()
            &&& b.temp_types.len() <= b1.temp_types.len()
            &&& b1.blocks.len() < u32::MAX ==> b1.blocks.len() == b.blocks.len() + 3
            &&& b1.temp_types.len() < u32::MAX ==> b1.temp_types.len() == b.temp_types.len() + 3
        }),
{
    reveal(begin_count_loop_spec);
    reveal(FState::alloc_temp);
    reveal(FState::alloc_block);
    reveal(FState::emit);
    reveal(FState::terminate);
    reveal(FState::switch_to);
    reveal(FState::binary);
}

/// The loop has been ended: the counter goes on by `next`, from where the body ends, and code goes
/// on behind the loop.
pub open spec fn count_ended(
    start: Temp,
    limit: Temp,
    f: &CountLoop,
    pre: BlockId,
    next: Instruction,
    b2: FState,
    last: FState,
) -> bool {
    let e = b2.env.current_block.0 as int;
    let h = f.header.0 as int;
    &&& last.temp_types == b2.temp_types
    &&& last.blocks.len() == b2.blocks.len()
    &&& last.env.current_block == f.exit
    &&& instrs(&last.blocks[h].code) == seq![
        phi(f.i, Type::Int64, start, pre, f.i_next, b2.env.current_block),
        operation(Temp((f.i.0 + 2) as u32), BinOp::Lt, f.i, limit, Type::Int64, Type::Bool),
    ]
    &&& last.blocks[h].term == b2.blocks[h].term
    &&& instrs(&last.blocks[e].code) == current(b2).push(next)
    &&& last.blocks[e].term == Terminator::Jump(f.header)
    &&& forall|j: int|
        0 <= j < b2.blocks.len() && j != e && j != h ==> #[trigger] last.blocks[j] == b2.blocks[j]
}

/// The end of a loop that counts by one, whose body is one block.
pub(crate) proof fn count_end_is(
    start: Temp,
    limit: Temp,
    labels: LoopLabels,
    one_c: Temp,
    b: FState,
    b2: FState,
)
    requires
        count_room(b),
        stays_local(begin_count_loop_spec(start, limit, labels, b).0, b2),
        b2.blocks.len() < u32::MAX,
        b2.temp_types.len() < u32::MAX,
        b2.env.current_block == begin_count_loop_spec(start, limit, labels, b).1.body,
    ensures
        ({
            let f = begin_count_loop_spec(start, limit, labels, b).1;
            let next = operation(f.i_next, BinOp::Add, f.i, one_c, Type::Int64, Type::Int64);
            count_ended(
                start,
                limit,
                &f,
                b.env.current_block,
                next,
                b2,
                end_count_loop_spec(&f, one_c, b2),
            )
        }),
{
    count_lies(start, limit, labels, b);
    let (b1, f) = begin_count_loop_spec(start, limit, labels, b);
    assert(b2.blocks[f.header.0 as int] == b1.blocks[f.header.0 as int]);
    reveal(end_count_loop_spec);
    reveal(FState::emit);
    reveal(FState::terminate);
    reveal(FState::switch_to);
    reveal_with_fuel(instrs, 2);
}

/// The end of a loop whose body ends in another block than it starts in.
pub(crate) proof fn count_patched(
    start: Temp,
    limit: Temp,
    labels: LoopLabels,
    next: Instruction,
    b: FState,
    b2: FState,
)
    requires
        count_room(b),
        stays_local(begin_count_loop_spec(start, limit, labels, b).0, b2),
        b2.blocks.len() < u32::MAX,
        b2.temp_types.len() < u32::MAX,
    ensures
        ({
            let f = begin_count_loop_spec(start, limit, labels, b).1;
            let e = b2.env.current_block;
            let last = b2.emit(next).patch_phi_incoming(f.header, f.i, f.body, e).terminate(
                Terminator::Jump(f.header),
            ).switch_to(f.exit);
            count_ended(start, limit, &f, b.env.current_block, next, b2, last)
        }),
{
    count_lies(start, limit, labels, b);
    let (b1, f) = begin_count_loop_spec(start, limit, labels, b);
    let h = f.header.0 as int;
    assert(b2.blocks[h] == b1.blocks[h]);
    reveal(FState::emit);
    reveal(FState::terminate);
    reveal(FState::switch_to);
    reveal(FState::patch_phi_incoming);
    reveal_with_fuel(instrs, 3);
    reveal_with_fuel(repred, 3);
    reveal_with_fuel(repred_incomings, 3);
    let e = b2.env.current_block;
    let last = b2.emit(next).patch_phi_incoming(f.header, f.i, f.body, e).terminate(
        Terminator::Jump(f.header),
    ).switch_to(f.exit);
    header_code(&b1.blocks[h]);
    assert(instrs(&last.blocks[h].code) =~= seq![
        phi(f.i, Type::Int64, start, b.env.current_block, f.i_next, e),
        operation(Temp((f.i.0 + 2) as u32), BinOp::Lt, f.i, limit, Type::Int64, Type::Bool),
    ]);
}

/// A block with two instructions.
pub(crate) proof fn header_code(block: &BasicBlock)
    requires
        instrs(&block.code).len() == 2,
    ensures
        block.code matches List::Cons(n) && n.tail matches List::Cons(m)
            && m.tail is Nil && instrs(&block.code) == seq![m.head.instr, n.head.instr],
{
    reveal_with_fuel(instrs, 4);
    match &block.code {
        List::Nil => {},
        List::Cons(n) => match &n.tail {
            List::Nil => {},
            List::Cons(m) => {
                match &m.tail {
                    List::Nil => {},
                    List::Cons(k) => {},
                }
                assert(instrs(&block.code) =~= seq![m.head.instr, n.head.instr]);
            },
        },
    }
}

/// The code of a loop that counts: it starts in `b`, its body is emitted to `b2`, and `last` is
/// behind it.
pub open spec fn counting_loop(
    start: Temp,
    limit: Temp,
    labels: LoopLabels,
    op: BinOp,
    by: Temp,
    b: FState,
    b2: FState,
    last: FState,
    code: Seq<BasicBlock>,
) -> bool {
    let (b1, f) = begin_count_loop_spec(start, limit, labels, b);
    let next = operation(f.i_next, op, f.i, by, Type::Int64, Type::Int64);
    &&& count_room(b)
    &&& stays_local(b1, b2)
    &&& b2.blocks.len() < u32::MAX
    &&& b2.temp_types.len() < u32::MAX
    &&& count_ended(start, limit, &f, b.env.current_block, next, b2, last)
    &&& part_stands(b, last, code)
}

/// How the loop stands.
pub(crate) proof fn counting_stands(
    start: Temp,
    limit: Temp,
    labels: LoopLabels,
    op: BinOp,
    by: Temp,
    b: FState,
    b2: FState,
    last: FState,
    code: Seq<BasicBlock>,
)
    requires
        counting_loop(start, limit, labels, op, by, b, b2, last, code),
    ensures
        ({
            let (b1, f) = begin_count_loop_spec(start, limit, labels, b);
            let pre = b.env.current_block.0 as int;
            let e = b2.env.current_block.0 as int;
            let h = f.header.0 as int;
            &&& is_open(b2)
            &&& is_open(last)
            &&& current(last) == Seq::<Instruction>::empty()
            &&& part_stands(b1, b2, code)
            &&& instrs(&code[pre].code) == current(b)
                && code[pre].term == Terminator::Jump(f.header)
            &&& code[h] == last.blocks[h] && code[h].term == b1.blocks[h].term
            &&& code[e] == last.blocks[e]
            &&& stays_local(b, last)
        }),
{
    count_lies(start, limit, labels, b);
    let (b1, f) = begin_count_loop_spec(start, limit, labels, b);
    let pre = b.env.current_block.0 as int;
    let e = b2.env.current_block.0 as int;
    let h = f.header.0 as int;
    assert(b2.blocks[h] == b1.blocks[h]);
    assert(b2.blocks[pre] == b1.blocks[pre]);
    assert(b2.blocks[f.exit.0 as int] == b1.blocks[f.exit.0 as int]);
    assert(code[pre] == last.blocks[pre]);
    assert(code[h] == last.blocks[h]);
    assert(code[e] == last.blocks[e]);
    assert forall|j: int|
        0 <= j < b2.blocks.len() && j != e && (j == b1.env.current_block.0 || b1.blocks.len()
            <= j) implies #[trigger] code[j] == b2.blocks[j] by {
        assert(code[j] == last.blocks[j]);
    }
    assert forall|j: int| 0 <= j < b.blocks.len() && j != pre implies #[trigger] last.blocks[j]
        == b.blocks[j] by {
        assert(b2.blocks[j] == b1.blocks[j]);
        assert(b1.blocks[j] == b.blocks[j]);
    }
}

/// A loop whose body stays local stays local.
pub(crate) proof fn counting_local(
    start: Temp,
    limit: Temp,
    labels: LoopLabels,
    op: BinOp,
    by: Temp,
    b: FState,
    b2: FState,
    last: FState,
)
    requires
        ({
            let (b1, f) = begin_count_loop_spec(start, limit, labels, b);
            let next = operation(f.i_next, op, f.i, by, Type::Int64, Type::Int64);
            &&& stays_local(b1, b2)
            &&& b2.blocks.len() == last.blocks.len()
            &&& b2.temp_types.len() == last.temp_types.len()
            &&& count_room(b) && b2.blocks.len() < u32::MAX && b2.temp_types.len() < u32::MAX
                ==> count_ended(start, limit, &f, b.env.current_block, next, b2, last)
        }),
    ensures
        stays_local(b, last),
{
    count_start_adds(start, limit, labels, b);
    if last.blocks.len() < u32::MAX && last.temp_types.len() < u32::MAX && is_open(b) {
        count_lies(start, limit, labels, b);
        let (b1, f) = begin_count_loop_spec(start, limit, labels, b);
        let h = f.header.0 as int;
        assert(b2.blocks[f.exit.0 as int] == b1.blocks[f.exit.0 as int]);
        assert(b2.blocks[h] == b1.blocks[h]);
        assert(part_stands(b, last, last.blocks));
        counting_stands(start, limit, labels, op, by, b, b2, last, last.blocks);
    }
}

/// A run starts the body with the counter at `k`.
pub open spec fn starts_count(b: FState, i: Temp, k: int, r: Run) -> bool {
    is_at(b, r) && r.vals[i] == Value::Number(k)
}

/// What the body does in a loop that `origin` comes to, where `before` has been emitted: where
/// `inv` holds of the counter and of what has been changed so far, it holds of the next counter
/// afterwards, which is larger.
pub open spec fn body_counts(
    code: Seq<BasicBlock>,
    sem: Oracle,
    before: FState,
    origin: Run,
    b: FState,
    b2: FState,
    i: Temp,
    limit: int,
    op: BinOp,
    by: Temp,
    inv: spec_fn(int, Mem) -> bool,
    next: spec_fn(int) -> int,
) -> bool {
    forall|k: int, r: Run|
        k < limit && inv(k, r.mem) && same_below(before, origin, r) && #[trigger] starts_count(
            b,
            i,
            k,
            r,
        ) ==> k < next(k) && exists|r2: Run|
            {
                &&& #[trigger] comes_to(code, sem, r, r2)
                &&& is_at(b2, r2)
                &&& same_below(b, r, r2)
                &&& inv(next(k), r2.mem)
                &&& value_of_op(op, Value::Number(k), r2.vals[by]) == Value::Number(next(k))
            }
}

/// From the header a run comes to the exit.
proof fn count_rest_runs(
    start: Temp,
    limit: Temp,
    labels: LoopLabels,
    op: BinOp,
    by: Temp,
    b: FState,
    b2: FState,
    last: FState,
    code: Seq<BasicBlock>,
    sem: Oracle,
    inv: spec_fn(int, Mem) -> bool,
    next: spec_fn(int) -> int,
    n: int,
    origin: Run,
    k: int,
    r: Run,
) -> (rk: (Run, int))
    requires
        counting_loop(start, limit, labels, op, by, b, b2, last, code),
        same_below(b, origin, r),
        limit.0 < b.temp_types.len(),
        by.0 < b2.temp_types.len(),
        r.vals[limit] == Value::Number(n),
        inv(k, r.mem),
        ({
            let (b1, f) = begin_count_loop_spec(start, limit, labels, b);
            &&& by != f.i_next
            &&& body_counts(code, sem, b, origin, b1, b2, f.i, n, op, by, inv, next)
            &&& r.block == f.header && r.at == 0
            &&& (r.from == b.env.current_block && r.vals[start] == Value::Number(k)) || (r.from
                == b2.env.current_block && r.vals[f.i_next] == Value::Number(k) && r.from
                != b.env.current_block)
        }),
    ensures
        comes_to(code, sem, r, rk.0),
        is_at(last, rk.0),
        same_below(b, r, rk.0),
        inv(rk.1, rk.0.mem),
        rk.1 >= n,
    decreases (if k < n { n - k } else { 0 }),
{
    count_lies(start, limit, labels, b);
    counting_stands(start, limit, labels, op, by, b, b2, last, code);
    let (b1, f) = begin_count_loop_spec(start, limit, labels, b);
    assert(b2.env.current_block != b.env.current_block);
    reveal_with_fuel(incoming_from, 3);
    comes_to_itself(code, sem, r);
    let r1 = one_step_further(code, sem, r, r);
    assert(r1.vals[f.i] == Value::Number(k));
    let r2 = one_step_further(code, sem, r, r1);
    assert(r2.vals[Temp((f.i.0 + 2) as u32)] == Value::Truth(k < n));
    let r3 = one_step_further(code, sem, r, r2);
    assert(same_below(b, r, r3));
    if k < n {
        assert(starts_count(b1, f.i, k, r3));
        let r4 = choose|r4: Run|
            {
                &&& #[trigger] comes_to(code, sem, r3, r4)
                &&& is_at(b2, r4)
                &&& same_below(b1, r3, r4)
                &&& inv(next(k), r4.mem)
                &&& value_of_op(op, Value::Number(k), r4.vals[by]) == Value::Number(next(k))
            };
        comes_further(code, sem, r, r3, r4);
        let r5 = one_step_further(code, sem, r, r4);
        assert(r5.vals[f.i_next] == Value::Number(next(k)));
        let r6 = one_step_further(code, sem, r, r5);
        assert(same_below(b, r, r6));
        let rk = count_rest_runs(
            start,
            limit,
            labels,
            op,
            by,
            b,
            b2,
            last,
            code,
            sem,
            inv,
            next,
            n,
            origin,
            next(k),
            r6,
        );
        comes_further(code, sem, r, r6, rk.0);
        rk
    } else {
        (r3, k)
    }
}

/// A run of a loop that counts runs its body while the counter is below the limit: what the body
/// keeps from each counter to the next holds at the end, of a counter that is not below the limit.
pub proof fn loop_counts(
    start: Temp,
    limit: Temp,
    labels: LoopLabels,
    op: BinOp,
    by: Temp,
    b: FState,
    b2: FState,
    last: FState,
    code: Seq<BasicBlock>,
    sem: Oracle,
    inv: spec_fn(int, Mem) -> bool,
    next: spec_fn(int) -> int,
    n: int,
    k: int,
    r: Run,
) -> (rk: (Run, int))
    requires
        counting_loop(start, limit, labels, op, by, b, b2, last, code),
        start.0 < b.temp_types.len(),
        limit.0 < b.temp_types.len(),
        by.0 < b2.temp_types.len(),
        is_at(b, r),
        r.vals[start] == Value::Number(k),
        r.vals[limit] == Value::Number(n),
        inv(k, r.mem),
        ({
            let (b1, f) = begin_count_loop_spec(start, limit, labels, b);
            &&& by != f.i_next
            &&& body_counts(code, sem, b, r, b1, b2, f.i, n, op, by, inv, next)
        }),
    ensures
        comes_to(code, sem, r, rk.0),
        is_open(last),
        is_at(last, rk.0),
        same_below(b, r, rk.0),
        inv(rk.1, rk.0.mem),
        rk.1 >= n,
{
    count_lies(start, limit, labels, b);
    counting_stands(start, limit, labels, op, by, b, b2, last, code);
    comes_to_itself(code, sem, r);
    let r1 = one_step_further(code, sem, r, r);
    let rk = count_rest_runs(
        start,
        limit,
        labels,
        op,
        by,
        b,
        b2,
        last,
        code,
        sem,
        inv,
        next,
        n,
        r,
        k,
        r1,
    );
    comes_further(code, sem, r, r1, rk.0);
    rk
}

/// How much the building blocks of code add.
pub(crate) proof fn operations_add()
    ensures
        forall|b: FState, label: &'static str|
            {
                let r = (#[trigger] b.alloc_block(label)).0;
                &&& b.blocks.len() <= r.blocks.len()
                &&& r.blocks.len() < u32::MAX ==> r.blocks.len() == b.blocks.len() + 1
                &&& r.temp_types == b.temp_types
            },
        forall|b: FState, ty: Type| adds_one(b, (#[trigger] b.alloc_temp(ty)).0),
        forall|b: FState, i: Instruction| adds_nothing(b, #[trigger] b.emit(i)),
        forall|b: FState, term: Terminator| adds_nothing(b, #[trigger] b.terminate(term)),
        forall|b: FState, to: BlockId| adds_nothing(b, #[trigger] b.switch_to(to)),
        forall|b: FState, h: BlockId, t: Temp, x: BlockId, y: BlockId|
            adds_nothing(b, #[trigger] b.patch_phi_incoming(h, t, x, y)),
        forall|b: FState, c: Const| adds_one(b, (#[trigger] b.const_temp(c)).0),
        forall|b: FState, op: BinOp, x: Temp, y: Temp, of: &Type, ty: &Type|
            adds_one(b, (#[trigger] b.binary(op, x, y, of, ty)).0),
        forall|b: FState, o: Temp, k: Temp, ot: &Type, kt: &Type, ty: &Type, n: bool|
            adds_one(b, (#[trigger] b.index(o, k, ot, kt, ty, n)).0),
        forall|b: FState, x: Temp, from: &Type, to: &Type|
            adds_one(b, (#[trigger] b.coerce(x, from, to)).0),
        forall|b: FState, i: Intrinsic, args: List<Temp>, ty: &Type|
            adds_one(b, (#[trigger] b.call_intrinsic(i, args, ty)).0),
{
    reveal(FState::alloc_block);
    reveal(FState::alloc_temp);
    reveal(FState::emit);
    reveal(FState::terminate);
    reveal(FState::switch_to);
    reveal(FState::patch_phi_incoming);
    reveal(FState::const_temp);
    reveal(FState::binary);
    reveal(FState::index);
    reveal(FState::coerce);
    reveal(FState::call_intrinsic);
}

/// One temporary more.
pub open spec fn adds_one(b: FState, r: FState) -> bool {
    &&& b.temp_types.len() <= r.temp_types.len()
    &&& r.temp_types.len() < u32::MAX ==> r.temp_types.len() == b.temp_types.len() + 1
    &&& r.blocks.len() == b.blocks.len()
}

/// No block and no temporary more.
pub open spec fn adds_nothing(b: FState, r: FState) -> bool {
    r.temp_types == b.temp_types && r.blocks.len() == b.blocks.len()
}

} // verus!
