//! Folds, as they run.

use crate::ast::{BinOp, TypedExpr};
use crate::builder::{FState, repred, repred_incomings, reval, reval_incomings};
use crate::coerce::{coerce_arg_to_param_repr_spec, narrow_loop_index_spec};
use crate::collect::{
    ReduceLoop, begin_reduce_loop_spec, end_reduce_loop_spec, reduce_scalar_inline_spec,
    reducer_args, reducer_reads_in_place,
};
use crate::counting::operations_add;
use crate::ctx::{Lower, St, low};
use crate::finding::{length_instr, one_step_further, operation, phi};
use crate::flowing::{Meaning, placed, taken};
use crate::fusing::index_runs;
use crate::fusion::{bodies_mean, coerce_local, fits, fold_body_runs, inlined};
use crate::ir::{BasicBlock, Const, Instruction, Temp, Terminator};
use crate::list::List;
use crate::looping::{halves_stand, part_stands};
use crate::loops::{emit_iterable_len_spec, free_combinator_sealed_elem_spec};
use crate::recognize::Lambda;
use crate::repr::is_sealed_scalar_repr;
use crate::run::{
    Mem, Oracle, Run, Value, after_instr, comes_further, comes_to, comes_to_itself, conversion_runs,
    current, element_runs, incoming_from, instrs, is_at, is_open, local_adds_up, same_below,
    stays_local,
};
use crate::straight::{perhaps_released, release_local, release_runs};
use crate::types::Type;
use vstd::prelude::*;

verus! {

/// There is room for the loop.
pub open spec fn fold_room(b: FState) -> bool {
    is_open(b) && b.blocks.len() + 3 < u32::MAX && b.temp_types.len() + 7 < u32::MAX
}

/// How the start of the loop lies.
#[verifier::rlimit(60)]
#[verifier::spinoff_prover]
proof fn fold_lies(
    iterable: Temp,
    iterable_ty: &Type,
    init: Temp,
    acc_ty: &Type,
    heap: bool,
    named: bool,
    b: FState,
)
    requires
        fold_room(b),
    ensures
        ({
            let (b1, f) = begin_reduce_loop_spec(
                iterable,
                iterable_ty,
                init,
                acc_ty,
                heap,
                named,
                b,
            );
            let n = b.blocks.len() as int;
            let t = b.temp_types.len() as int;
            let d: int = if named { 1 } else { 0 };
            let pre = b.env.current_block;
            let len = Temp(t as u32);
            let zero = Temp((t + 1) as u32);
            let cond = Temp((t + 5 + d) as u32);
            &&& f.header.0 == n && f.body.0 == n + 1 && f.exit.0 == n + 2
            &&& f.i.0 == t + 2
                && f.i_next.0 == t + 3
                && f.acc.0 == t + 4
                && f.pending.0 == t + 4 + d
            &&& b1.temp_types.len() == t + 6 + d
            &&& b1.blocks.len() == n + 3 && b1.env.current_block == f.body && is_open(b1)
            &&& current(b1) == Seq::<Instruction>::empty()
            &&& instrs(&b1.blocks[pre.0 as int].code) == current(b) + seq![
                length_instr(len, iterable, iterable_ty),
                Instruction::Const { dst: zero, value: Const::Int(0, Type::Int64) },
            ]
            &&& b1.blocks[pre.0 as int].term == Terminator::Jump(f.header)
            &&& instrs(&b1.blocks[n].code) == seq![
                phi(f.i, Type::Int64, zero, pre, f.i_next, f.body),
                phi(f.acc, *acc_ty, init, pre, f.pending, f.body),
                operation(cond, BinOp::Lt, f.i, len, Type::Int64, Type::Bool),
            ]
            &&& b1.blocks[n].term == (Terminator::CondJump {
                cond,
                then_block: f.body,
                else_block: f.exit,
            })
            &&& instrs(&b1.blocks[n + 2].code) == Seq::<Instruction>::empty()
            &&& b1.blocks[n + 2].term is Unreachable
            &&& forall|j: int|
                0 <= j < n && j != pre.0 ==> #[trigger] b1.blocks[j] == b.blocks[j]
        }),
{
    reveal(begin_reduce_loop_spec);
    reveal(emit_iterable_len_spec);
    reveal(FState::call);
    reveal(FState::call_intrinsic);
    reveal(FState::const_temp);
    reveal(FState::alloc_temp);
    reveal(FState::alloc_block);
    reveal(FState::emit);
    reveal(FState::terminate);
    reveal(FState::switch_to);
    reveal(FState::binary);
    reveal_with_fuel(instrs, 4);
    let (b1, f) = begin_reduce_loop_spec(iterable, iterable_ty, init, acc_ty, heap, named, b);
    let n = b.blocks.len() as int;
    let t = b.temp_types.len() as int;
    let d: int = if named { 1 } else { 0 };
    let pre = b.env.current_block;
    let len = Temp(t as u32);
    let zero = Temp((t + 1) as u32);
    assert(instrs(&b1.blocks[pre.0 as int].code) =~= current(b) + seq![
        length_instr(len, iterable, iterable_ty),
        Instruction::Const { dst: zero, value: Const::Int(0, Type::Int64) },
    ]);
    assert(instrs(&b1.blocks[n].code) =~= seq![
        phi(f.i, Type::Int64, zero, pre, f.i_next, f.body),
        phi(f.acc, *acc_ty, init, pre, f.pending, f.body),
        operation(Temp((t + 5 + d) as u32), BinOp::Lt, f.i, len, Type::Int64, Type::Bool),
    ]);
}

/// A block with three instructions.
pub(crate) proof fn three_instrs(block: &BasicBlock)
    requires
        instrs(&block.code).len() == 3,
    ensures
        match block.code {
            List::Nil => false,
            List::Cons(a) => match a.tail {
                List::Nil => false,
                List::Cons(b) => match b.tail {
                    List::Nil => false,
                    List::Cons(c) => c.tail is Nil && instrs(&block.code) == seq![
                        c.head.instr,
                        b.head.instr,
                        a.head.instr,
                    ],
                },
            },
        },
{
    reveal_with_fuel(instrs, 5);
    match &block.code {
        List::Nil => {},
        List::Cons(a) => match &a.tail {
            List::Nil => {},
            List::Cons(b) => match &b.tail {
                List::Nil => {},
                List::Cons(c) => {
                    match &c.tail {
                        List::Nil => {},
                        List::Cons(d) => {},
                    }
                    assert(instrs(&block.code) =~= seq![
                        c.head.instr,
                        b.head.instr,
                        a.head.instr,
                    ]);
                },
            },
        },
    }
}

/// How the end of the loop lies.
#[verifier::rlimit(60)]
#[verifier::spinoff_prover]
proof fn fold_end_lies(
    iterable: Temp,
    iterable_ty: &Type,
    init: Temp,
    acc_ty: &Type,
    heap: bool,
    named: bool,
    acc_next: Temp,
    b: FState,
    b2: FState,
)
    requires
        fold_room(b),
        init.0 < b.temp_types.len(),
        stays_local(
            begin_reduce_loop_spec(iterable, iterable_ty, init, acc_ty, heap, named, b).0,
            b2,
        ),
        b2.blocks.len() < u32::MAX,
        b2.temp_types.len() + 1 < u32::MAX,
    ensures
        ({
            let (b1, f) = begin_reduce_loop_spec(
                iterable,
                iterable_ty,
                init,
                acc_ty,
                heap,
                named,
                b,
            );
            let last = end_reduce_loop_spec(&f, acc_next, b2);
            let t = b.temp_types.len() as int;
            let d: int = if named { 1 } else { 0 };
            let pre = b.env.current_block;
            let e = b2.env.current_block;
            let h = f.header.0 as int;
            let one_c = Temp(b2.temp_types.len() as u32);
            &&& is_open(b2)
            &&& last.temp_types.len() == b2.temp_types.len() + 1 && last.blocks.len()
                == b2.blocks.len()
            &&& last.env.current_block == f.exit && is_open(last) && current(last)
                == Seq::<Instruction>::empty()
            &&& instrs(&last.blocks[h].code) == seq![
                phi(f.i, Type::Int64, Temp((t + 1) as u32), pre, f.i_next, e),
                phi(f.acc, *acc_ty, init, pre, acc_next, e),
                operation(
                    Temp((t + 5 + d) as u32),
                    BinOp::Lt,
                    f.i,
                    Temp(t as u32),
                    Type::Int64,
                    Type::Bool,
                ),
            ]
            &&& last.blocks[h].term == b1.blocks[h].term
            &&& instrs(&last.blocks[e.0 as int].code) == current(b2) + seq![
                Instruction::Const { dst: one_c, value: Const::Int(1, Type::Int64) },
                operation(f.i_next, BinOp::Add, f.i, one_c, Type::Int64, Type::Int64),
            ]
            &&& last.blocks[e.0 as int].term == Terminator::Jump(f.header)
            &&& forall|j: int|
                0 <= j < b2.blocks.len() && j != e.0 && j != h ==> #[trigger] last.blocks[j]
                    == b2.blocks[j]
            &&& stays_local(b, last)
        }),
{
    fold_lies(iterable, iterable_ty, init, acc_ty, heap, named, b);
    let (b1, f) = begin_reduce_loop_spec(iterable, iterable_ty, init, acc_ty, heap, named, b);
    let last = end_reduce_loop_spec(&f, acc_next, b2);
    let h = f.header.0 as int;
    let t = b.temp_types.len() as int;
    let d: int = if named { 1 } else { 0 };
    let pre = b.env.current_block;
    let e = b2.env.current_block;
    assert(b2.blocks[h] == b1.blocks[h]);
    assert(b2.blocks[f.exit.0 as int] == b1.blocks[f.exit.0 as int]);
    assert(b2.blocks[pre.0 as int] == b1.blocks[pre.0 as int]);
    three_instrs(&b1.blocks[h]);
    reveal(end_reduce_loop_spec);
    reveal(FState::const_temp);
    reveal(FState::alloc_temp);
    reveal(FState::emit);
    reveal(FState::terminate);
    reveal(FState::switch_to);
    reveal(FState::patch_phi_incoming);
    reveal(FState::patch_phi_incoming_value);
    reveal_with_fuel(instrs, 4);
    reveal_with_fuel(repred, 4);
    reveal_with_fuel(repred_incomings, 3);
    reveal_with_fuel(reval, 4);
    reveal_with_fuel(reval_incomings, 3);
    assert(instrs(&last.blocks[h].code) =~= seq![
        phi(f.i, Type::Int64, Temp((t + 1) as u32), pre, f.i_next, e),
        phi(f.acc, *acc_ty, init, pre, acc_next, e),
        operation(
            Temp((t + 5 + d) as u32),
            BinOp::Lt,
            f.i,
            Temp(t as u32),
            Type::Int64,
            Type::Bool,
        ),
    ]);
    assert(instrs(&last.blocks[e.0 as int].code) =~= current(b2) + seq![
        Instruction::Const {
            dst: Temp(b2.temp_types.len() as u32),
            value: Const::Int(1, Type::Int64),
        },
        operation(
            f.i_next,
            BinOp::Add,
            f.i,
            Temp(b2.temp_types.len() as u32),
            Type::Int64,
            Type::Int64,
        ),
    ]);
    assert forall|j: int| 0 <= j < b.blocks.len() && j != pre.0 implies #[trigger] last.blocks[j]
        == b.blocks[j] by {
        assert(b2.blocks[j] == b1.blocks[j]);
    }
}

// The fold.

/// What a fold comes to: the function is applied to what it has come to so far, an element and its
/// position, for one element after another. `next` gives the value and what is changed.
pub open spec fn folded(
    next: spec_fn(int, Value, Mem) -> (Value, Mem),
    k: int,
    n: int,
    v: Value,
    mem: Mem,
) -> (Value, Mem)
    decreases n - k,
{
    if k >= n {
        (v, mem)
    } else {
        let (v2, mem2) = next(k, v, mem);
        folded(next, k + 1, n, v2, mem2)
    }
}

/// The code of a fold: it starts in `b` and its body is emitted to `b2`, where `acc_next` is what
/// the fold has come to.
pub open spec fn folding_loop(
    iterable: Temp,
    iterable_ty: &Type,
    init: Temp,
    acc_ty: &Type,
    heap: bool,
    named: bool,
    acc_next: Temp,
    b: FState,
    b2: FState,
    code: Seq<BasicBlock>,
) -> bool {
    let (b1, f) = begin_reduce_loop_spec(iterable, iterable_ty, init, acc_ty, heap, named, b);
    &&& fold_room(b)
    &&& init.0 < b.temp_types.len()
    &&& acc_next.0 < b2.temp_types.len()
    &&& acc_next != f.i && acc_next != f.i_next
    &&& stays_local(b1, b2)
    &&& b2.blocks.len() < u32::MAX
    &&& b2.temp_types.len() + 1 < u32::MAX
    &&& part_stands(b, end_reduce_loop_spec(&f, acc_next, b2), code)
}

/// A run starts the body with the counter at `k` and `v` as what the fold has come to.
pub open spec fn starts_fold(b: FState, f: ReduceLoop, k: int, v: Value, r: Run) -> bool {
    is_at(b, r) && r.vals[f.i] == Value::Number(k) && r.vals[f.acc] == v
}

/// What the body does in a loop that `origin` comes to, where `before` has been emitted.
pub open spec fn body_folds(
    code: Seq<BasicBlock>,
    sem: Oracle,
    before: FState,
    origin: Run,
    b: FState,
    b2: FState,
    f: ReduceLoop,
    acc_next: Temp,
    n: int,
    next: spec_fn(int, Value, Mem) -> (Value, Mem),
) -> bool {
    forall|k: int, v: Value, r: Run|
        0 <= k < n && same_below(before, origin, r) && #[trigger] starts_fold(b, f, k, v, r)
            ==> exists|r2: Run|
            {
                &&& #[trigger] comes_to(code, sem, r, r2)
                &&& is_at(b2, r2)
                &&& same_below(b, r, r2)
                &&& (r2.vals[acc_next], r2.mem) == next(k, v, r.mem)
            }
}

/// How the loop stands.
proof fn folding_stands(
    iterable: Temp,
    iterable_ty: &Type,
    init: Temp,
    acc_ty: &Type,
    heap: bool,
    named: bool,
    acc_next: Temp,
    b: FState,
    b2: FState,
    code: Seq<BasicBlock>,
)
    requires
        folding_loop(iterable, iterable_ty, init, acc_ty, heap, named, acc_next, b, b2, code),
    ensures
        ({
            let (b1, f) = begin_reduce_loop_spec(
                iterable,
                iterable_ty,
                init,
                acc_ty,
                heap,
                named,
                b,
            );
            let last = end_reduce_loop_spec(&f, acc_next, b2);
            let pre = b.env.current_block.0 as int;
            let e = b2.env.current_block.0 as int;
            let h = f.header.0 as int;
            &&& part_stands(b1, b2, code)
            &&& code[pre] == b1.blocks[pre]
            &&& code[h] == last.blocks[h]
            &&& code[e] == last.blocks[e]
            &&& e != pre && e != h
        }),
{
    fold_lies(iterable, iterable_ty, init, acc_ty, heap, named, b);
    fold_end_lies(iterable, iterable_ty, init, acc_ty, heap, named, acc_next, b, b2);
    let (b1, f) = begin_reduce_loop_spec(iterable, iterable_ty, init, acc_ty, heap, named, b);
    let last = end_reduce_loop_spec(&f, acc_next, b2);
    let pre = b.env.current_block.0 as int;
    let e = b2.env.current_block.0 as int;
    let h = f.header.0 as int;
    assert(b2.blocks[pre] == b1.blocks[pre]);
    assert(code[pre] == last.blocks[pre]);
    assert(code[h] == last.blocks[h]);
    assert(code[e] == last.blocks[e]);
    assert forall|j: int|
        0 <= j < b2.blocks.len() && j != e && (j == b1.env.current_block.0 || b1.blocks.len()
            <= j) implies #[trigger] code[j] == b2.blocks[j] by {
        assert(code[j] == last.blocks[j]);
    }
}

/// From the header a run comes to the exit with what the rest of the fold comes to.
proof fn fold_rest_runs(
    iterable: Temp,
    iterable_ty: &Type,
    init: Temp,
    acc_ty: &Type,
    heap: bool,
    named: bool,
    acc_next: Temp,
    b: FState,
    b2: FState,
    code: Seq<BasicBlock>,
    sem: Oracle,
    n: int,
    next: spec_fn(int, Value, Mem) -> (Value, Mem),
    origin: Run,
    k: int,
    v: Value,
    r: Run,
) -> (r2: Run)
    requires
        folding_loop(iterable, iterable_ty, init, acc_ty, heap, named, acc_next, b, b2, code),
        same_below(b, origin, r),
        0 <= k,
        ({
            let (b1, f) = begin_reduce_loop_spec(
                iterable,
                iterable_ty,
                init,
                acc_ty,
                heap,
                named,
                b,
            );
            let t = b.temp_types.len() as int;
            &&& body_folds(code, sem, b, origin, b1, b2, f, acc_next, n, next)
            &&& r.block == f.header && r.at == 0
            &&& r.vals[Temp(t as u32)] == Value::Number(n)
            &&& (r.from == b.env.current_block && r.vals[Temp((t + 1) as u32)] == Value::Number(k)
                && r.vals[init] == v) || (r.from == b2.env.current_block && r.vals[f.i_next]
                == Value::Number(k) && r.vals[acc_next] == v)
        }),
    ensures
        ({
            let f = begin_reduce_loop_spec(iterable, iterable_ty, init, acc_ty, heap, named, b).1;
            let last = end_reduce_loop_spec(&f, acc_next, b2);
            &&& comes_to(code, sem, r, r2)
            &&& is_at(last, r2)
            &&& same_below(b, r, r2)
            &&& (r2.vals[f.acc], r2.mem) == folded(next, k, n, v, r.mem)
        }),
    decreases (if k < n { n - k } else { 0 }),
{
    fold_lies(iterable, iterable_ty, init, acc_ty, heap, named, b);
    fold_end_lies(iterable, iterable_ty, init, acc_ty, heap, named, acc_next, b, b2);
    folding_stands(iterable, iterable_ty, init, acc_ty, heap, named, acc_next, b, b2, code);
    let (b1, f) = begin_reduce_loop_spec(iterable, iterable_ty, init, acc_ty, heap, named, b);
    let t = b.temp_types.len() as int;
    let d: int = if named { 1 } else { 0 };
    reveal_with_fuel(incoming_from, 3);
    comes_to_itself(code, sem, r);
    let r1 = one_step_further(code, sem, r, r);
    assert(r1.vals[f.i] == Value::Number(k));
    let r2 = one_step_further(code, sem, r, r1);
    assert(r2.vals[f.acc] == v);
    let r3 = one_step_further(code, sem, r, r2);
    assert(r3.vals[Temp((t + 5 + d) as u32)] == Value::Truth(k < n));
    let r4 = one_step_further(code, sem, r, r3);
    assert(same_below(b, r, r4));
    if k < n {
        assert(starts_fold(b1, f, k, v, r4));
        let r5 = choose|r5: Run|
            {
                &&& #[trigger] comes_to(code, sem, r4, r5)
                &&& is_at(b2, r5)
                &&& same_below(b1, r4, r5)
                &&& (r5.vals[acc_next], r5.mem) == next(k, v, r4.mem)
            };
        comes_further(code, sem, r, r4, r5);
        let c = current(b2).len() as int;
        let is = instrs(&code[b2.env.current_block.0 as int].code);
        assert(is[c] == (Instruction::Const {
            dst: Temp(b2.temp_types.len() as u32),
            value: Const::Int(1, Type::Int64),
        }));
        let r6 = one_step_further(code, sem, r, r5);
        let r7 = one_step_further(code, sem, r, r6);
        assert(r7.vals[f.i_next] == Value::Number(k + 1));
        assert(r7.vals[acc_next] == r5.vals[acc_next]);
        let r8 = one_step_further(code, sem, r, r7);
        assert(same_below(b, r, r8));
        let r9 = fold_rest_runs(
            iterable,
            iterable_ty,
            init,
            acc_ty,
            heap,
            named,
            acc_next,
            b,
            b2,
            code,
            sem,
            n,
            next,
            origin,
            k + 1,
            r5.vals[acc_next],
            r8,
        );
        comes_further(code, sem, r, r8, r9);
        r9
    } else {
        r4
    }
}

/// A run of the loop of a fold comes behind it with what the fold comes to: the function applied to
/// the first value and the first element, then to that and the next element, and so on to the last.
pub proof fn loop_folds(
    iterable: Temp,
    iterable_ty: &Type,
    init: Temp,
    acc_ty: &Type,
    heap: bool,
    named: bool,
    acc_next: Temp,
    b: FState,
    b2: FState,
    code: Seq<BasicBlock>,
    sem: Oracle,
    items: Seq<Value>,
    next: spec_fn(int, Value, Mem) -> (Value, Mem),
    r: Run,
) -> (r2: Run)
    requires
        folding_loop(iterable, iterable_ty, init, acc_ty, heap, named, acc_next, b, b2, code),
        ({
            let (b1, f) = begin_reduce_loop_spec(
                iterable,
                iterable_ty,
                init,
                acc_ty,
                heap,
                named,
                b,
            );
            body_folds(code, sem, b, r, b1, b2, f, acc_next, items.len() as int, next)
        }),
        is_at(b, r),
        iterable.0 < b.temp_types.len(),
        r.vals[iterable] == Value::Items(items),
    ensures
        ({
            let f = begin_reduce_loop_spec(iterable, iterable_ty, init, acc_ty, heap, named, b).1;
            let last = end_reduce_loop_spec(&f, acc_next, b2);
            &&& comes_to(code, sem, r, r2)
            &&& is_at(last, r2)
            &&& same_below(b, r, r2)
            &&& (r2.vals[f.acc], r2.mem) == folded(next, 0, items.len() as int, r.vals[init], r.mem)
        }),
{
    fold_lies(iterable, iterable_ty, init, acc_ty, heap, named, b);
    folding_stands(iterable, iterable_ty, init, acc_ty, heap, named, acc_next, b, b2, code);
    let is = instrs(&code[b.env.current_block.0 as int].code);
    let c = current(b).len() as int;
    assert(is[c] == length_instr(Temp(b.temp_types.len() as u32), iterable, iterable_ty));
    comes_to_itself(code, sem, r);
    let r1 = one_step_further(code, sem, r, r);
    let r2 = one_step_further(code, sem, r, r1);
    let r3 = one_step_further(code, sem, r, r2);
    assert(same_below(b, r, r3) && r3.mem == r.mem);
    let r4 = fold_rest_runs(
        iterable,
        iterable_ty,
        init,
        acc_ty,
        heap,
        named,
        acc_next,
        b,
        b2,
        code,
        sem,
        items.len() as int,
        next,
        r,
        0,
        r.vals[init],
        r3,
    );
    comes_further(code, sem, r, r3, r4);
    r4
}

// A fold with an inlined function.

/// A value in the representation of a parameter stays local.
proof fn fitted_local(arg: Temp, ty: &Type, to: &Type, b: FState)
    ensures
        stays_local(b, coerce_arg_to_param_repr_spec(arg, ty, to, b).0),
{
    reveal(coerce_arg_to_param_repr_spec);
    coerce_local(b, arg, ty, to);
}

/// A value in the representation of a parameter is the same value.
proof fn fitted_runs(
    arg: Temp,
    ty: &Type,
    to: &Type,
    b: FState,
    code: Seq<BasicBlock>,
    sem: Oracle,
    r: Run,
) -> (r2: Run)
    requires
        is_open(b),
        coerce_arg_to_param_repr_spec(arg, ty, to, b).0.temp_types.len() < u32::MAX,
        part_stands(b, coerce_arg_to_param_repr_spec(arg, ty, to, b).0, code),
        is_at(b, r),
        arg.0 < b.temp_types.len(),
    ensures
        ({
            let (b2, t) = coerce_arg_to_param_repr_spec(arg, ty, to, b);
            &&& comes_to(code, sem, r, r2)
            &&& is_at(b2, r2)
            &&& same_below(b, r, r2)
            &&& r2.mem == r.mem
            &&& r2.vals[t] == r.vals[arg]
            &&& t.0 < b2.temp_types.len()
        }),
{
    reveal(coerce_arg_to_param_repr_spec);
    let (b2, t) = coerce_arg_to_param_repr_spec(arg, ty, to, b);
    if b2 == b && t == arg {
        comes_to_itself(code, sem, r);
        r
    } else {
        operations_add();
        conversion_runs(b, arg, ty, to, code, sem, r);
        after_instr(sem, Instruction::Coerce { dst: t, src: arg, from_ty: *ty, to_ty: *to }, r)
    }
}

/// The states of a fold: behind the first value, in front of the loop, where the body starts, with
/// the position, with the element, behind the function, behind the element, and where the body
/// ends.
pub struct FoldStates {
    pub first: St,
    pub raw: Temp,
    pub before: FState,
    pub init: Temp,
    pub start: FState,
    pub frame: ReduceLoop,
    pub indexed: FState,
    pub idx: Temp,
    pub read: FState,
    pub elem: Temp,
    pub applied: St,
    pub freed: FState,
    pub end: FState,
    pub acc_next: Temp,
}

/// The states of a fold with an inlined function, of numbers or truth values.
pub open spec fn fold_states(
    l: Lower,
    iterable: Temp,
    iterable_ty: &Type,
    elem_ty: &Type,
    init_expr: &TypedExpr,
    lam: &Lambda,
    acc_ty: &Type,
    s: St,
) -> FoldStates {
    let (first, raw) = low(l, init_expr, s);
    let (before, init) = coerce_arg_to_param_repr_spec(raw, &init_expr.ty(), acc_ty, first.b);
    let (start, frame) = begin_reduce_loop_spec(
        iterable,
        iterable_ty,
        init,
        acc_ty,
        false,
        false,
        before,
    );
    let (indexed, idx) = narrow_loop_index_spec(frame.i, start);
    let (read, elem) = indexed.index(iterable, frame.i, iterable_ty, &Type::Int64, elem_ty, false);
    let args = reducer_args(frame.acc, acc_ty, elem, elem_ty, idx);
    let (applied, next) = inlined(l, *lam, args, St { b: read, c: first.c });
    let freed = free_combinator_sealed_elem_spec(elem, elem_ty, applied.b);
    let (end, acc_next) = coerce_arg_to_param_repr_spec(next.temp, &next.ty, acc_ty, freed);
    FoldStates {
        first,
        raw,
        before,
        init,
        start,
        frame,
        indexed,
        idx,
        read,
        elem,
        applied,
        freed,
        end,
        acc_next,
    }
}

/// What the function of a fold gives for what the fold has come to, an element and its position.
pub open spec fn applied_to(m: Meaning, lam: Lambda, items: Seq<Value>) -> spec_fn(
    int,
    Value,
    Mem,
) -> (Value, Mem) {
    |k: int, v: Value, mem: Mem|
        {
            let given = taken(lam, seq![v] + placed(items[k], k));
            ((m.value)(lam, given), (m.effect)(lam, given, mem))
        }
}

/// The body stays local.
proof fn fold_body_local(
    l: Lower,
    iterable: Temp,
    iterable_ty: &Type,
    elem_ty: &Type,
    init_expr: &TypedExpr,
    lam: &Lambda,
    acc_ty: &Type,
    s: St,
    code: Seq<BasicBlock>,
    sem: Oracle,
    m: Meaning,
)
    requires
        bodies_mean(l, code, sem, m),
        (m.known)(*lam),
    ensures
        ({
            let p = fold_states(l, iterable, iterable_ty, elem_ty, init_expr, lam, acc_ty, s);
            &&& stays_local(p.first.b, p.before)
            &&& stays_local(p.start, p.indexed)
            &&& stays_local(p.indexed, p.read)
            &&& stays_local(p.read, p.applied.b)
            &&& stays_local(p.applied.b, p.freed)
            &&& stays_local(p.freed, p.end)
            &&& stays_local(p.start, p.end)
        }),
{
    let p = fold_states(l, iterable, iterable_ty, elem_ty, init_expr, lam, acc_ty, s);
    let args = reducer_args(p.frame.acc, acc_ty, p.elem, elem_ty, p.idx);
    let next = inlined(l, *lam, args, St { b: p.read, c: p.first.c }).1;
    fitted_local(p.raw, &init_expr.ty(), acc_ty, p.first.b);
    reveal(narrow_loop_index_spec);
    coerce_local(p.start, p.frame.i, &Type::Int64, &Type::Int32);
    assert(stays_local(p.indexed, p.read)) by {
        reveal(FState::index);
        reveal(FState::alloc_temp);
        reveal(FState::emit);
        reveal_with_fuel(instrs, 2);
    }
    reveal(free_combinator_sealed_elem_spec);
    release_local(p.applied.b, is_sealed_scalar_repr(elem_ty), p.elem, elem_ty);
    fitted_local(next.temp, &next.ty, acc_ty, p.freed);
    local_adds_up(p.start, p.indexed, p.read);
    local_adds_up(p.start, p.read, p.applied.b);
    local_adds_up(p.start, p.applied.b, p.freed);
    local_adds_up(p.start, p.freed, p.end);
}

/// A run of what `reduce` is lowered to, where the function is inlined and the result is a number
/// or a truth value: the result is the fold of the function over the elements, from the first to
/// the last, with their positions, starting with the first value.
pub proof fn reduce_runs_to_the_fold(
    l: Lower,
    iterable: Temp,
    iterable_ty: &Type,
    elem_ty: &Type,
    init_expr: &TypedExpr,
    lam: &Lambda,
    acc_ty: &Type,
    s: St,
    code: Seq<BasicBlock>,
    sem: Oracle,
    m: Meaning,
    items: Seq<Value>,
    r: Run,
) -> (r2: Run)
    requires
        bodies_mean(l, code, sem, m),
        (m.known)(*lam),
        !reducer_reads_in_place(iterable_ty, lam),
        ({
            let p = fold_states(l, iterable, iterable_ty, elem_ty, init_expr, lam, acc_ty, s);
            let last = reduce_scalar_inline_spec(
                l,
                iterable,
                iterable_ty,
                elem_ty,
                init_expr,
                lam,
                acc_ty,
                s,
            ).0.b;
            &&& fits(m, p.first.b, r)
            &&& is_open(p.first.b)
            &&& fold_room(p.before)
            &&& p.acc_next != p.frame.i && p.acc_next != p.frame.i_next
            &&& last.blocks.len() < u32::MAX
            &&& last.temp_types.len() < u32::MAX
            &&& part_stands(p.first.b, last, code)
            &&& is_at(p.first.b, r)
            &&& iterable.0 < p.first.b.temp_types.len()
            &&& p.raw.0 < p.first.b.temp_types.len()
            &&& p.acc_next.0 < p.end.temp_types.len()
            &&& r.vals[iterable] == Value::Items(items)
        }),
    ensures
        ({
            let p = fold_states(l, iterable, iterable_ty, elem_ty, init_expr, lam, acc_ty, s);
            let (s2, t) = reduce_scalar_inline_spec(
                l,
                iterable,
                iterable_ty,
                elem_ty,
                init_expr,
                lam,
                acc_ty,
                s,
            );
            &&& comes_to(code, sem, r, r2)
            &&& is_at(s2.b, r2)
            &&& (r2.vals[t], r2.mem) == folded(
                applied_to(m, *lam, items),
                0,
                items.len() as int,
                r.vals[p.raw],
                r.mem,
            )
        }),
{
    reveal(reduce_scalar_inline_spec);
    let p = fold_states(l, iterable, iterable_ty, elem_ty, init_expr, lam, acc_ty, s);
    let (s2, t) = reduce_scalar_inline_spec(
        l,
        iterable,
        iterable_ty,
        elem_ty,
        init_expr,
        lam,
        acc_ty,
        s,
    );
    let last = s2.b;
    assert(last == end_reduce_loop_spec(&p.frame, p.acc_next, p.end) && t == p.frame.acc);
    fold_body_local(l, iterable, iterable_ty, elem_ty, init_expr, lam, acc_ty, s, code, sem, m);
    assert(last.blocks.len() == p.end.blocks.len() && p.end.temp_types.len()
        < last.temp_types.len()) by {
        reveal(end_reduce_loop_spec);
        reveal(FState::patch_phi_incoming_value);
        operations_add();
    }
    fold_lies(iterable, iterable_ty, p.init, acc_ty, false, false, p.before);
    assert(p.before.temp_types.len() < u32::MAX);
    assert(is_open(p.before) && is_open(p.start));
    fitted_local(p.raw, &init_expr.ty(), acc_ty, p.first.b);
    assert(p.init.0 < p.before.temp_types.len()) by {
        reveal(coerce_arg_to_param_repr_spec);
        reveal(FState::coerce);
        reveal(FState::alloc_temp);
        reveal(FState::emit);
    }
    fold_end_lies(iterable, iterable_ty, p.init, acc_ty, false, false, p.acc_next, p.before, p.end);
    halves_stand(p.first.b, p.before, last, code);
    assert(folding_loop(
        iterable,
        iterable_ty,
        p.init,
        acc_ty,
        false,
        false,
        p.acc_next,
        p.before,
        p.end,
        code,
    ));
    folding_stands(
        iterable,
        iterable_ty,
        p.init,
        acc_ty,
        false,
        false,
        p.acc_next,
        p.before,
        p.end,
        code,
    );
    let next = applied_to(m, *lam, items);
    let r1 = fitted_runs(p.raw, &init_expr.ty(), acc_ty, p.first.b, code, sem, r);
    assert forall|k: int, v: Value, q: Run|
        0 <= k < items.len() && same_below(p.before, r1, q) && #[trigger] starts_fold(
            p.start,
            p.frame,
            k,
            v,
            q,
        ) implies exists|q2: Run|
        {
            &&& #[trigger] comes_to(code, sem, q, q2)
            &&& is_at(p.end, q2)
            &&& same_below(p.start, q, q2)
            &&& (q2.vals[p.acc_next], q2.mem) == next(k, v, q.mem)
        } by {
        assert(fits(m, p.start, q));
        let q2 = fold_step_runs(
            l,
            iterable,
            iterable_ty,
            elem_ty,
            init_expr,
            lam,
            acc_ty,
            s,
            code,
            sem,
            m,
            items,
            k,
            v,
            q,
        );
    }
    let r2 = loop_folds(
        iterable,
        iterable_ty,
        p.init,
        acc_ty,
        false,
        false,
        p.acc_next,
        p.before,
        p.end,
        code,
        sem,
        items,
        next,
        r1,
    );
    comes_further(code, sem, r, r1, r2);
    r2
}

/// The body applies the function.
proof fn fold_step_runs(
    l: Lower,
    iterable: Temp,
    iterable_ty: &Type,
    elem_ty: &Type,
    init_expr: &TypedExpr,
    lam: &Lambda,
    acc_ty: &Type,
    s: St,
    code: Seq<BasicBlock>,
    sem: Oracle,
    m: Meaning,
    items: Seq<Value>,
    k: int,
    v: Value,
    r: Run,
) -> (r2: Run)
    requires
        bodies_mean(l, code, sem, m),
        (m.known)(*lam),
        ({
            let p = fold_states(l, iterable, iterable_ty, elem_ty, init_expr, lam, acc_ty, s);
            &&& fits(m, p.start, r)
            &&& is_open(p.start)
            &&& p.end.blocks.len() < u32::MAX
            &&& p.end.temp_types.len() < u32::MAX
            &&& part_stands(p.start, p.end, code)
            &&& starts_fold(p.start, p.frame, k, v, r)
            &&& p.frame.i.0 < p.start.temp_types.len()
            &&& p.frame.acc.0 < p.start.temp_types.len()
            &&& iterable.0 < p.start.temp_types.len()
        }),
        r.vals[iterable] == Value::Items(items),
    ensures
        ({
            let p = fold_states(l, iterable, iterable_ty, elem_ty, init_expr, lam, acc_ty, s);
            &&& comes_to(code, sem, r, r2)
            &&& is_at(p.end, r2)
            &&& same_below(p.start, r, r2)
            &&& (r2.vals[p.acc_next], r2.mem) == applied_to(m, *lam, items)(k, v, r.mem)
        }),
{
    let p = fold_states(l, iterable, iterable_ty, elem_ty, init_expr, lam, acc_ty, s);
    fold_body_local(l, iterable, iterable_ty, elem_ty, init_expr, lam, acc_ty, s, code, sem, m);
    local_adds_up(p.applied.b, p.freed, p.end);
    local_adds_up(p.read, p.applied.b, p.end);
    local_adds_up(p.indexed, p.read, p.end);
    halves_stand(p.start, p.indexed, p.end, code);
    halves_stand(p.indexed, p.read, p.end, code);
    halves_stand(p.read, p.applied.b, p.end, code);
    halves_stand(p.applied.b, p.freed, p.end, code);
    operations_add();
    let r1 = index_runs(p.start, p.frame.i, code, sem, r, k);
    element_runs(p.indexed, iterable, p.frame.i, iterable_ty, elem_ty, code, sem, r1);
    let read = Instruction::Index {
        dst: p.elem,
        object: iterable,
        key: p.frame.i,
        obj_ty: *iterable_ty,
        key_ty: Type::Int64,
        result_ty: *elem_ty,
        nonneg: false,
    };
    let r2 = after_instr(sem, read, r1);
    comes_further(code, sem, r, r1, r2);
    assert(r2.vals[p.elem] == items[k] && r2.vals[p.idx] == Value::Number(k) && r2.vals[p.frame.acc]
        == v);
    let sr = St { b: p.read, c: p.first.c };
    let args = reducer_args(p.frame.acc, acc_ty, p.elem, elem_ty, p.idx);
    let next = inlined(l, *lam, args, sr).1;
    let r3 = fold_body_runs(
        l,
        lam,
        p.frame.acc,
        acc_ty,
        p.elem,
        elem_ty,
        p.idx,
        sr,
        code,
        sem,
        m,
        items[k],
        k,
        r2,
    );
    comes_further(code, sem, r, r2, r3);
    reveal(free_combinator_sealed_elem_spec);
    let sealed = is_sealed_scalar_repr(elem_ty);
    assert(p.freed == perhaps_released(p.applied.b, sealed, p.elem, elem_ty));
    let r4 = release_runs(p.applied.b, sealed, p.elem, elem_ty, code, sem, r3);
    comes_further(code, sem, r, r3, r4);
    release_local(p.applied.b, sealed, p.elem, elem_ty);
    let r5 = fitted_runs(next.temp, &next.ty, acc_ty, p.freed, code, sem, r4);
    comes_further(code, sem, r, r4, r5);
    assert(same_below(p.start, r, r2));
    assert(same_below(p.start, r, r3));
    r5
}

} // verus!
