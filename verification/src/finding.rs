//! Searches, as they run: the loop stops at the first element that the callback holds of.

use crate::asking::effects;
use crate::ast::BinOp;
use crate::builder::FState;
use crate::calling::{box_local, box_runs};
use crate::coerce::box_to_json_spec;
use crate::combinator::{
    FindKind, FindLoop, begin_find_loop_spec, box_found_elem_spec, end_find_loop_spec,
};
use crate::counting::operations_add;
use crate::fusion::{emit_local, reclaim_local, reclaim_runs};
use crate::ir::{
    BasicBlock, BlockId, CallTarget, Const, Incoming, Instruction, Intrinsic, IrUnaryOp, Temp,
    Terminator,
};
use crate::list::{one, two};
use crate::looping::{halves_stand, part_stands};
use crate::loops::{emit_iterable_len_spec, fm_reclaim_elem_spec, free_combinator_sealed_elem_spec};
use crate::recognize::is_borrowed_heap_elem;
use crate::repr::{is_sealed_scalar_repr, is_union_ty};
use crate::run::{
    Mem, Oracle, Run, Value, after_instr, comes_further, comes_one_step, comes_to, comes_to_itself,
    conversion_runs, current, emitted_runs, incoming_from, instrs, is_at, is_here, is_open,
    local_adds_up, same_below, stays_local, step,
};
use crate::straight::{perhaps_released, release_local, release_runs};
use crate::text::Text;
use crate::types::{Type, json};
use vstd::prelude::*;

verus! {

/// A run that comes to a place comes to the next step from there.
pub(crate) proof fn one_step_further(code: Seq<BasicBlock>, sem: Oracle, a: Run, b: Run) -> (c: Run)
    requires
        comes_to(code, sem, a, b),
    ensures
        comes_to(code, sem, a, c),
        c == step(code, sem, b),
{
    comes_one_step(code, sem, b);
    comes_further(code, sem, a, b, step(code, sem, b));
    step(code, sem, b)
}

/// The instruction that asks for a length.
pub open spec fn length_instr(dst: Temp, iterable: Temp, iterable_ty: &Type) -> Instruction {
    if is_union_ty(iterable_ty) {
        Instruction::Call {
            dst,
            callee: CallTarget::Named(Text::Fixed("lin_iterable_length")),
            args: one(iterable),
            ret_ty: Type::Int64,
        }
    } else {
        Instruction::CallIntrinsic {
            dst,
            intrinsic: Intrinsic::Length,
            args: one(iterable),
            ret_ty: Type::Int64,
        }
    }
}

/// The start of a count.
pub open spec fn phi(
    dst: Temp,
    ty: Type,
    a: Temp,
    from_a: BlockId,
    b: Temp,
    from_b: BlockId,
) -> Instruction {
    Instruction::Phi {
        dst,
        ty,
        incomings: two(Incoming { val: a, pred: from_a }, Incoming { val: b, pred: from_b }),
    }
}

/// An operation on numbers or truth values.
pub open spec fn operation(
    dst: Temp,
    op: BinOp,
    lhs: Temp,
    rhs: Temp,
    operand_ty: Type,
    ty: Type,
) -> Instruction { Instruction::Binary { dst, op, lhs, rhs, operand_ty, ty } }

/// There is room for the loop.
pub open spec fn find_room(b: FState) -> bool {
    is_open(b) && b.blocks.len() + 4 < u32::MAX && b.temp_types.len() + 13 < u32::MAX
}

/// How the start of the loop lies.
#[verifier::rlimit(60)]
#[verifier::spinoff_prover]
pub(crate) proof fn find_lies(iterable: Temp, iterable_ty: &Type, kind: FindKind, b: FState)
    requires
        find_room(b),
    ensures
        ({
            let (b1, f) = begin_find_loop_spec(iterable, iterable_ty, kind, b);
            let n = b.blocks.len() as int;
            let t = b.temp_types.len() as int;
            let d: int = if kind == FindKind::Inline { 0 } else { 1 };
            let pre = b.env.current_block;
            let len = Temp(t as u32);
            let zero = Temp((t + 1) as u32);
            let null = Temp((t + 2) as u32);
            let no = Temp((if kind == FindKind::Inline { t + 9 } else { t + 3 }) as u32);
            let below = Temp((t + 10) as u32);
            let open = Temp((t + 11) as u32);
            let cond = Temp((t + 12) as u32);
            let body = BlockId((n + 1) as u32);
            &&& f.header.0 == n && f.latch.0 == n + 2 && f.exit.0 == n + 3
            &&& f.i.0 == t + 3 + d && f.i_next.0 == t + 4 + d && f.result.0 == t + 5 + d
            &&& f.result_next.0 == t + 6 + d && f.found.0 == t + 7 + d && f.found_next.0 == t + 8
                + d
            &&& b1.temp_types.len() == t + 13
            &&& b1.blocks.len() == n + 4 && b1.env.current_block == body && is_open(b1)
            &&& current(b1) == Seq::<Instruction>::empty()
            &&& instrs(&b1.blocks[pre.0 as int].code) == current(b) + seq![
                length_instr(len, iterable, iterable_ty),
                Instruction::Const { dst: zero, value: Const::Int(0, Type::Int64) },
                Instruction::Const { dst: null, value: Const::Null },
                Instruction::Const { dst: no, value: Const::Bool(false) },
            ]
            &&& b1.blocks[pre.0 as int].term == Terminator::Jump(f.header)
            &&& instrs(&b1.blocks[n].code) == seq![
                phi(f.i, Type::Int64, zero, pre, f.i_next, f.latch),
                phi(f.result, json(), null, pre, f.result_next, f.latch),
                phi(f.found, Type::Bool, no, pre, f.found_next, f.latch),
                operation(below, BinOp::Lt, f.i, len, Type::Int64, Type::Bool),
                Instruction::Unary {
                    dst: open,
                    op: IrUnaryOp::Not,
                    operand: f.found,
                    ty: Type::Bool,
                },
                operation(cond, BinOp::And, below, open, Type::Bool, Type::Bool),
            ]
            &&& b1.blocks[n].term == (Terminator::CondJump {
                cond,
                then_block: body,
                else_block: f.exit,
            })
            &&& instrs(&b1.blocks[n + 2].code) == Seq::<Instruction>::empty() && b1.blocks[n
                + 2].term is Unreachable
            &&& instrs(&b1.blocks[n + 3].code) == Seq::<Instruction>::empty() && b1.blocks[n
                + 3].term is Unreachable
            &&& forall|j: int|
                0 <= j < n && j != pre.0 ==> #[trigger] b1.blocks[j] == b.blocks[j]
        }),
{
    reveal(begin_find_loop_spec);
    reveal(emit_iterable_len_spec);
    reveal(FState::call);
    reveal(FState::call_intrinsic);
    reveal(FState::const_temp);
    reveal(FState::alloc_temp);
    reveal(FState::alloc_block);
    reveal(FState::emit);
    reveal(FState::terminate);
    reveal(FState::switch_to);
    reveal(FState::binary);
    reveal(FState::not);
    reveal_with_fuel(instrs, 8);
    let (b1, f) = begin_find_loop_spec(iterable, iterable_ty, kind, b);
    let n = b.blocks.len() as int;
    let t = b.temp_types.len() as int;
    let pre = b.env.current_block;
    let len = Temp(t as u32);
    let no = Temp((if kind == FindKind::Inline { t + 9 } else { t + 3 }) as u32);
    assert(instrs(&b1.blocks[pre.0 as int].code) =~= current(b) + seq![
        length_instr(len, iterable, iterable_ty),
        Instruction::Const { dst: Temp((t + 1) as u32), value: Const::Int(0, Type::Int64) },
        Instruction::Const { dst: Temp((t + 2) as u32), value: Const::Null },
        Instruction::Const { dst: no, value: Const::Bool(false) },
    ]);
    assert(current(b1) =~= Seq::<Instruction>::empty());
    assert(instrs(&b1.blocks[n + 2].code) =~= Seq::<Instruction>::empty());
    assert(instrs(&b1.blocks[n + 3].code) =~= Seq::<Instruction>::empty());
    assert(instrs(&b1.blocks[n].code) =~= seq![
        phi(f.i, Type::Int64, Temp((t + 1) as u32), pre, f.i_next, f.latch),
        phi(f.result, json(), Temp((t + 2) as u32), pre, f.result_next, f.latch),
        phi(f.found, Type::Bool, no, pre, f.found_next, f.latch),
        operation(Temp((t + 10) as u32), BinOp::Lt, f.i, len, Type::Int64, Type::Bool),
        Instruction::Unary {
            dst: Temp((t + 11) as u32),
            op: IrUnaryOp::Not,
            operand: f.found,
            ty: Type::Bool,
        },
        operation(
            Temp((t + 12) as u32),
            BinOp::And,
            Temp((t + 10) as u32),
            Temp((t + 11) as u32),
            Type::Bool,
            Type::Bool,
        ),
    ]);
}

/// The code for an element that is kept, and what it is kept as.
pub open spec fn keep_code(
    elem: Temp,
    elem_ty: &Type,
    kind: FindKind,
    b: FState,
) -> (FState, Temp) {
    if kind == FindKind::Closure {
        (b, elem)
    } else {
        box_found_elem_spec(elem, elem_ty, b)
    }
}

/// The code for an element that is passed over.
pub open spec fn skip_code(elem: Temp, elem_ty: &Type, kind: FindKind, b: FState) -> FState {
    if kind == FindKind::Closure {
        b.emit(Instruction::Release { val: elem, ty: *elem_ty })
    } else {
        fm_reclaim_elem_spec(elem, elem_ty, b)
    }
}

/// An element that is borrowed is counted once more.
pub open spec fn counted_once_more(elem: Temp, elem_ty: &Type, b: FState) -> FState {
    if is_borrowed_heap_elem(elem_ty) {
        b.emit(Instruction::Retain { val: elem, ty: *elem_ty })
    } else {
        b
    }
}

/// Keeping an element stays in the block.
proof fn keep_local(elem: Temp, elem_ty: &Type, kind: FindKind, b: FState)
    ensures
        ({
            let b2 = keep_code(elem, elem_ty, kind, b).0;
            &&& stays_local(b, b2)
            &&& b2.blocks.len() == b.blocks.len()
            &&& b2.env.current_block == b.env.current_block
        }),
{
    reveal(box_found_elem_spec);
    if kind != FindKind::Closure {
        let b1 = counted_once_more(elem, elem_ty, b);
        emit_local(b, Instruction::Retain { val: elem, ty: *elem_ty });
        let b2 = box_to_json_spec(elem, elem_ty, b1).0;
        box_local(elem, elem_ty, b1);
        reveal(free_combinator_sealed_elem_spec);
        release_local(b2, is_sealed_scalar_repr(elem_ty), elem, elem_ty);
        local_adds_up(b, b1, b2);
        local_adds_up(b, b2, keep_code(elem, elem_ty, kind, b).0);
        reveal(box_to_json_spec);
        reveal(FState::coerce);
        reveal(FState::alloc_temp);
        reveal(FState::emit);
    }
}

/// An element that is kept has its value.
proof fn keep_runs(
    elem: Temp,
    elem_ty: &Type,
    kind: FindKind,
    b: FState,
    code: Seq<BasicBlock>,
    sem: Oracle,
    r: Run,
) -> (r2: Run)
    requires
        is_open(b),
        keep_code(elem, elem_ty, kind, b).0.blocks.len() < u32::MAX,
        keep_code(elem, elem_ty, kind, b).0.temp_types.len() < u32::MAX,
        part_stands(b, keep_code(elem, elem_ty, kind, b).0, code),
        is_at(b, r),
        elem.0 < b.temp_types.len(),
    ensures
        ({
            let (b2, t) = keep_code(elem, elem_ty, kind, b);
            &&& comes_to(code, sem, r, r2)
            &&& is_at(b2, r2)
            &&& same_below(b, r, r2)
            &&& r2.mem == r.mem
            &&& r2.vals[t] == r.vals[elem]
        }),
{
    reveal(box_found_elem_spec);
    keep_local(elem, elem_ty, kind, b);
    if kind == FindKind::Closure {
        comes_to_itself(code, sem, r);
        r
    } else {
        let i = Instruction::Retain { val: elem, ty: *elem_ty };
        let b1 = counted_once_more(elem, elem_ty, b);
        let b2 = box_to_json_spec(elem, elem_ty, b1).0;
        let last = keep_code(elem, elem_ty, kind, b).0;
        emit_local(b, i);
        box_local(elem, elem_ty, b1);
        reveal(free_combinator_sealed_elem_spec);
        let sealed = is_sealed_scalar_repr(elem_ty);
        release_local(b2, sealed, elem, elem_ty);
        assert(last == perhaps_released(b2, sealed, elem, elem_ty));
        local_adds_up(b1, b2, last);
        halves_stand(b, b1, last, code);
        halves_stand(b1, b2, last, code);
        let r1 = if is_borrowed_heap_elem(elem_ty) {
            emitted_runs(b, i, code, sem, r);
            after_instr(sem, i, r)
        } else {
            comes_to_itself(code, sem, r);
            r
        };
        let r2 = box_runs(elem, elem_ty, b1, code, sem, r1);
        let r3 = release_runs(b2, sealed, elem, elem_ty, code, sem, r2);
        comes_further(code, sem, r, r1, r2);
        comes_further(code, sem, r, r2, r3);
        r3
    }
}

/// Passing over an element stays in the block.
proof fn skip_local(elem: Temp, elem_ty: &Type, kind: FindKind, b: FState)
    ensures
        ({
            let b2 = skip_code(elem, elem_ty, kind, b);
            &&& stays_local(b, b2)
            &&& b2.blocks.len() == b.blocks.len()
            &&& b2.temp_types == b.temp_types
            &&& b2.env.current_block == b.env.current_block
        }),
{
    emit_local(b, Instruction::Release { val: elem, ty: *elem_ty });
    reclaim_local(elem, elem_ty, b);
    reveal(FState::emit);
}

/// Passing over an element changes nothing that counts here.
proof fn skip_runs(
    elem: Temp,
    elem_ty: &Type,
    kind: FindKind,
    b: FState,
    code: Seq<BasicBlock>,
    sem: Oracle,
    r: Run,
) -> (r2: Run)
    requires
        is_open(b),
        is_here(skip_code(elem, elem_ty, kind, b), code),
        is_at(b, r),
    ensures
        comes_to(code, sem, r, r2),
        is_at(skip_code(elem, elem_ty, kind, b), r2),
        same_below(b, r, r2),
        r2.mem == r.mem,
{
    if kind == FindKind::Closure {
        let i = Instruction::Release { val: elem, ty: *elem_ty };
        emitted_runs(b, i, code, sem, r);
        after_instr(sem, i, r)
    } else {
        reclaim_runs(elem, elem_ty, b, code, sem, r)
    }
}

/// The states at the end of the loop: where an element is kept, where one is passed over, and where
/// the two meet; and behind the loop.
pub struct FindEnd {
    pub keep: FState,
    pub kept: FState,
    pub boxed: Temp,
    pub skip: FState,
    pub skipped: FState,
    pub meet: FState,
    pub exit: FState,
}

/// The states at the end of the loop.
pub open spec fn find_end(
    f: &FindLoop,
    pred: Temp,
    elem: Temp,
    elem_ty: &Type,
    kind: FindKind,
    b: FState,
) -> FindEnd {
    let closure = kind == FindKind::Closure;
    let (b1, merge) = b.alloc_block(if closure { "nifind_merge" } else { "find_merge" });
    let (b2, keep) = b1.alloc_block(if closure { "nifind_keep" } else { "find_keep" });
    let (b3, skip) = b2.alloc_block(if closure { "nifind_skip" } else { "find_skip" });
    let term = Terminator::CondJump { cond: pred, then_block: keep, else_block: skip };
    let k0 = b3.terminate(term).switch_to(keep);
    let (k1, boxed) = keep_code(elem, elem_ty, kind, k0);
    let s0 = k1.terminate(Terminator::Jump(merge)).switch_to(skip);
    let s1 = skip_code(elem, elem_ty, kind, s0);
    let m0 = s1.terminate(Terminator::Jump(merge)).switch_to(merge);
    let m1 = m0.emit(
        phi(f.result_next, json(), boxed, k1.env.current_block, f.result, s1.env.current_block),
    );
    let m2 = m1.emit(operation(f.found_next, BinOp::Or, f.found, pred, Type::Bool, Type::Bool));
    let l0 = m2.terminate(Terminator::Jump(f.latch)).switch_to(f.latch);
    let (l1, one_c) = l0.const_temp(Const::Int(1, Type::Int64));
    let l2 = l1.emit(operation(f.i_next, BinOp::Add, f.i, one_c, Type::Int64, Type::Int64));
    let exit = l2.terminate(Terminator::Jump(f.header)).switch_to(f.exit);
    FindEnd { keep: k0, kept: k1, boxed, skip: s0, skipped: s1, meet: m0, exit }
}

/// The end of the loop is made of these.
pub(crate) proof fn find_end_is(
    f: &FindLoop,
    pred: Temp,
    elem: Temp,
    elem_ty: &Type,
    kind: FindKind,
    result_type: &Type,
    b: FState,
)
    ensures
        ({
            let exit = find_end(f, pred, elem, elem_ty, kind, b).exit;
            end_find_loop_spec(f, pred, elem, elem_ty, kind, result_type, b) == if !(result_type
                is TypeVar) {
                exit.coerce(f.result, &json(), result_type)
            } else {
                (exit, f.result)
            }
        }),
{
    reveal(end_find_loop_spec);
}

/// How the end of the loop lies.
#[verifier::rlimit(60)]
#[verifier::spinoff_prover]
pub(crate) proof fn find_end_lies(
    f: &FindLoop,
    pred: Temp,
    elem: Temp,
    elem_ty: &Type,
    kind: FindKind,
    b: FState,
)
    requires
        is_open(b),
        b.blocks.len() + 3 < u32::MAX,
        find_end(f, pred, elem, elem_ty, kind, b).exit.temp_types.len() < u32::MAX,
        f.latch.0 < b.blocks.len(),
        f.exit.0 < b.blocks.len(),
        f.latch != f.exit,
        f.latch != b.env.current_block,
        f.exit != b.env.current_block,
        instrs(&b.blocks[f.latch.0 as int].code) == Seq::<Instruction>::empty(),
        instrs(&b.blocks[f.exit.0 as int].code) == Seq::<Instruction>::empty(),
        b.blocks[f.latch.0 as int].term is Unreachable,
        b.blocks[f.exit.0 as int].term is Unreachable,
    ensures
        ({
            let e = find_end(f, pred, elem, elem_ty, kind, b);
            let n = b.blocks.len() as int;
            let k = b.env.current_block.0 as int;
            let merge = BlockId(n as u32);
            let keep = BlockId((n + 1) as u32);
            let skip = BlockId((n + 2) as u32);
            let one_c = Temp(e.kept.temp_types.len() as u32);
            let last = e.exit;
            &&& is_open(e.keep) && e.keep.env.current_block == keep && current(e.keep)
                == Seq::<Instruction>::empty() && e.keep.temp_types == b.temp_types
            &&& is_open(e.skip) && e.skip.env.current_block == skip && current(e.skip)
                == Seq::<Instruction>::empty()
            &&& e.skip.temp_types == e.kept.temp_types && b.temp_types.len()
                <= e.kept.temp_types.len()
            &&& last.temp_types.len() == e.kept.temp_types.len() + 1
            &&& last.blocks.len() == n + 3 && e.kept.blocks.len() == n + 3 && e.skipped.blocks.len()
                == n + 3 && e.kept.env.current_block == keep && e.skipped.env.current_block == skip
            &&& instrs(&last.blocks[k].code) == current(b)
            &&& last.blocks[k].term == (Terminator::CondJump {
                cond: pred,
                then_block: keep,
                else_block: skip,
            })
            &&& last.blocks[n + 1].code == e.kept.blocks[n + 1].code
            &&& last.blocks[n + 1].term == Terminator::Jump(merge)
            &&& last.blocks[n + 2].code == e.skipped.blocks[n + 2].code
            &&& last.blocks[n + 2].term == Terminator::Jump(merge)
            &&& instrs(&last.blocks[n].code) == seq![
                phi(f.result_next, json(), e.boxed, keep, f.result, skip),
                operation(f.found_next, BinOp::Or, f.found, pred, Type::Bool, Type::Bool),
            ]
            &&& last.blocks[n].term == Terminator::Jump(f.latch)
            &&& instrs(&last.blocks[f.latch.0 as int].code) == seq![
                Instruction::Const { dst: one_c, value: Const::Int(1, Type::Int64) },
                operation(f.i_next, BinOp::Add, f.i, one_c, Type::Int64, Type::Int64),
            ]
            &&& last.blocks[f.latch.0 as int].term == Terminator::Jump(f.header)
            &&& last.env.current_block == f.exit && is_open(last) && current(last)
                == Seq::<Instruction>::empty()
            &&& forall|j: int|
                0 <= j < n && j != k && j != f.latch.0 ==> #[trigger] last.blocks[j] == b.blocks[j]
        }),
{
    let e = find_end(f, pred, elem, elem_ty, kind, b);
    reveal(FState::alloc_block);
    reveal(FState::terminate);
    reveal(FState::switch_to);
    let n = b.blocks.len() as int;
    let k = b.env.current_block.0 as int;
    assert(is_open(e.keep) && e.keep.env.current_block.0 == n + 1);
    keep_local(elem, elem_ty, kind, e.keep);
    assert(e.kept.temp_types.len() <= e.exit.temp_types.len() && e.exit.blocks.len() == n + 3) by {
        skip_local(elem, elem_ty, kind, e.skip);
        reveal(FState::const_temp);
        reveal(FState::alloc_temp);
        reveal(FState::emit);
    }
    assert(e.kept.blocks[n] == e.keep.blocks[n]);
    assert(e.kept.blocks[n + 2] == e.keep.blocks[n + 2]);
    assert forall|j: int| 0 <= j < n implies #[trigger] e.kept.blocks[j] == e.keep.blocks[j] by {}
    assert(is_open(e.skip) && e.skip.env.current_block.0 == n + 2);
    skip_local(elem, elem_ty, kind, e.skip);
    assert(e.skipped.blocks[n] == e.skip.blocks[n]);
    assert(e.skipped.blocks[n + 1] == e.skip.blocks[n + 1]);
    assert forall|j: int|
        0 <= j < n implies #[trigger] e.skipped.blocks[j] == e.skip.blocks[j] by {}
    assert(is_open(e.meet) && e.meet.env.current_block.0 == n && current(e.meet)
        =~= Seq::<Instruction>::empty());
    assert forall|j: int|
        0 <= j < n && j != k implies #[trigger] e.meet.blocks[j] == b.blocks[j] by {
        assert(e.skipped.blocks[j] == e.skip.blocks[j]);
        assert(e.kept.blocks[j] == e.keep.blocks[j]);
    }
    assert(e.meet.blocks[k].code == b.blocks[k].code) by {
        assert(e.skipped.blocks[k] == e.skip.blocks[k]);
        assert(e.kept.blocks[k] == e.keep.blocks[k]);
    }
    reveal(FState::const_temp);
    reveal(FState::alloc_temp);
    reveal(FState::emit);
    reveal_with_fuel(instrs, 3);
    let last = e.exit;
    let one_c = Temp(e.kept.temp_types.len() as u32);
    assert(instrs(&last.blocks[n].code) =~= seq![
        phi(
            f.result_next,
            json(),
            e.boxed,
            BlockId((n + 1) as u32),
            f.result,
            BlockId((n + 2) as u32),
        ),
        operation(f.found_next, BinOp::Or, f.found, pred, Type::Bool, Type::Bool),
    ]);
    assert(instrs(&last.blocks[f.latch.0 as int].code) =~= seq![
        Instruction::Const { dst: one_c, value: Const::Int(1, Type::Int64) },
        operation(f.i_next, BinOp::Add, f.i, one_c, Type::Int64, Type::Int64),
    ]);
}

// The loop as it runs.

/// The first index at which there is true, or the length.
pub open spec fn sought(preds: Seq<bool>) -> nat
    decreases preds.len(),
{
    if preds.len() == 0 || preds[0] {
        0
    } else {
        1 + sought(preds.drop_first())
    }
}

/// It is the first.
pub proof fn sought_is_the_first(preds: Seq<bool>)
    ensures
        sought(preds) <= preds.len(),
        sought(preds) < preds.len() ==> preds[sought(preds) as int],
        forall|j: int| 0 <= j < sought(preds) ==> !#[trigger] preds[j],
    decreases preds.len(),
{
    if preds.len() > 0 && !preds[0] {
        let rest = preds.drop_first();
        sought_is_the_first(rest);
        assert forall|j: int| 0 <= j < sought(preds) implies !#[trigger] preds[j] by {
            if j > 0 {
                assert(!rest[j - 1]);
            }
        }
    }
}

/// For how many elements a search asks its callback: up to the first one that it holds of.
pub open spec fn asked_for(preds: Seq<bool>) -> nat {
    if sought(preds) < preds.len() {
        sought(preds) + 1
    } else {
        preds.len()
    }
}

/// The code of a search: it starts in `b`, its body is emitted from where the start ends to `b2`
/// and finds the truth value `pred` for the element `elem`.
pub open spec fn finding_loop(
    iterable: Temp,
    iterable_ty: &Type,
    kind: FindKind,
    b: FState,
    b2: FState,
    pred: Temp,
    elem: Temp,
    elem_ty: &Type,
    code: Seq<BasicBlock>,
) -> bool {
    let (b1, f) = begin_find_loop_spec(iterable, iterable_ty, kind, b);
    let exit = find_end(&f, pred, elem, elem_ty, kind, b2).exit;
    &&& find_room(b)
    &&& stays_local(b1, b2)
    &&& pred.0 < b2.temp_types.len()
    &&& pred != f.result_next
    &&& elem.0 < b2.temp_types.len()
    &&& b2.blocks.len() + 3 < u32::MAX
    &&& b2.temp_types.len() < u32::MAX
    &&& exit.temp_types.len() < u32::MAX
    &&& part_stands(b, exit, code)
}

/// A run starts the body, whose code is emitted from `b` on, with the counter at `k`.
pub open spec fn starts_search(b: FState, i: Temp, k: int, r: Run) -> bool {
    is_at(b, r) && r.vals[i] == Value::Number(k)
}

/// What the body does in a loop that `origin` comes to, where `before` has been emitted: for the
/// element at `k` it has the element at hand and finds `preds[k]`, by whatever calls and changes
/// `effect` tells.
pub open spec fn body_searches(
    code: Seq<BasicBlock>,
    sem: Oracle,
    before: FState,
    origin: Run,
    b: FState,
    b2: FState,
    i: Temp,
    pred: Temp,
    elem: Temp,
    items: Seq<Value>,
    preds: Seq<bool>,
    effect: spec_fn(int, Mem) -> Mem,
) -> bool {
    forall|k: int, r: Run|
        0 <= k < items.len() && same_below(before, origin, r) && #[trigger] starts_search(
            b,
            i,
            k,
            r,
        ) ==> exists|r2: Run|
            {
                &&& #[trigger] comes_to(code, sem, r, r2)
                &&& is_at(b2, r2)
                &&& same_below(b, r, r2)
                &&& r2.vals[pred] == Value::Truth(preds[k])
                &&& r2.vals[elem] == items[k]
                &&& r2.mem == effect(k, r.mem)
            }
}

/// How the loop stands.
pub(crate) proof fn finding_stands(
    iterable: Temp,
    iterable_ty: &Type,
    kind: FindKind,
    b: FState,
    b2: FState,
    pred: Temp,
    elem: Temp,
    elem_ty: &Type,
    code: Seq<BasicBlock>,
)
    requires
        finding_loop(iterable, iterable_ty, kind, b, b2, pred, elem, elem_ty, code),
    ensures
        ({
            let (b1, f) = begin_find_loop_spec(iterable, iterable_ty, kind, b);
            let e = find_end(&f, pred, elem, elem_ty, kind, b2);
            let n = b2.blocks.len() as int;
            let k = b2.env.current_block.0 as int;
            let h = f.header.0 as int;
            &&& is_open(b2)
            &&& part_stands(b1, b2, code)
            &&& code[b.env.current_block.0 as int] == b1.blocks[b.env.current_block.0 as int]
            &&& code[h] == b1.blocks[h]
            &&& code[k] == e.exit.blocks[k]
            &&& code[n] == e.exit.blocks[n]
            &&& code[n + 1] == e.exit.blocks[n + 1]
            &&& code[n + 2] == e.exit.blocks[n + 2]
            &&& code[f.latch.0 as int] == e.exit.blocks[f.latch.0 as int]
            &&& part_stands(e.keep, e.kept, code)
            &&& is_here(e.skipped, code)
            &&& stays_local(b, e.exit)
        }),
{
    let (b1, f) = begin_find_loop_spec(iterable, iterable_ty, kind, b);
    let e = find_end(&f, pred, elem, elem_ty, kind, b2);
    let n = b2.blocks.len() as int;
    let k = b2.env.current_block.0 as int;
    let h = f.header.0 as int;
    let pre = b.env.current_block.0 as int;
    find_lies(iterable, iterable_ty, kind, b);
    assert(b2.blocks[f.latch.0 as int] == b1.blocks[f.latch.0 as int]);
    assert(b2.blocks[f.exit.0 as int] == b1.blocks[f.exit.0 as int]);
    assert(b2.blocks[h] == b1.blocks[h]);
    assert(b2.blocks[pre] == b1.blocks[pre]);
    find_end_lies(&f, pred, elem, elem_ty, kind, b2);
    let last = e.exit;
    assert(code[pre] == last.blocks[pre]);
    assert(code[h] == last.blocks[h]);
    assert(code[k] == last.blocks[k]);
    assert(code[n] == last.blocks[n]);
    assert(code[n + 1] == last.blocks[n + 1]);
    assert(code[n + 2] == last.blocks[n + 2]);
    assert(code[f.latch.0 as int] == last.blocks[f.latch.0 as int]);
    assert forall|j: int|
        0 <= j < b2.blocks.len() && j != k && (j == b1.env.current_block.0 || b1.blocks.len()
            <= j) implies #[trigger] code[j] == b2.blocks[j] by {
        assert(code[j] == last.blocks[j]);
    }
    assert(part_stands(b1, b2, code));
    keep_local(elem, elem_ty, kind, e.keep);
    assert(part_stands(e.keep, e.kept, code));
    assert(is_here(e.skipped, code));
    assert forall|j: int| 0 <= j < b.blocks.len() && j != pre implies #[trigger] last.blocks[j]
        == b.blocks[j] by {
        assert(b1.blocks[j] == b.blocks[j]);
        assert(b2.blocks[j] == b1.blocks[j]);
    }
    assert(last.blocks[pre] == b1.blocks[pre]);
}

/// From the header a run comes to the body, where there is another element and none has been
/// found, else to the exit.
proof fn find_header_runs(
    iterable: Temp,
    iterable_ty: &Type,
    kind: FindKind,
    b: FState,
    code: Seq<BasicBlock>,
    sem: Oracle,
    n: nat,
    k: int,
    v: Value,
    found: bool,
    r: Run,
) -> (r2: Run)
    requires
        find_room(b),
        ({
            let (b1, f) = begin_find_loop_spec(iterable, iterable_ty, kind, b);
            let t = b.temp_types.len() as int;
            let no = Temp((if kind == FindKind::Inline { t + 9 } else { t + 3 }) as u32);
            &&& f.header.0 < code.len() && code[f.header.0 as int] == b1.blocks[f.header.0 as int]
            &&& r.block == f.header && r.at == 0
            &&& r.vals[Temp(t as u32)] == Value::Number(n as int)
            &&& (r.from == b.env.current_block && r.vals[Temp((t + 1) as u32)] == Value::Number(k)
                && r.vals[Temp((t + 2) as u32)] == v && r.vals[no] == Value::Truth(found)) || (
            r.from == f.latch && r.vals[f.i_next] == Value::Number(k) && r.vals[f.result_next] == v
                && r.vals[f.found_next] == Value::Truth(found))
        }),
    ensures
        ({
            let (b1, f) = begin_find_loop_spec(iterable, iterable_ty, kind, b);
            let len = Temp(b.temp_types.len() as u32);
            &&& comes_to(code, sem, r, r2)
            &&& if k < n && !found {
                is_at(b1, r2)
            } else {
                r2.block == f.exit && r2.at == 0
            }
            &&& r2.vals[f.i] == Value::Number(k)
            &&& r2.vals[f.result] == v
            &&& r2.vals[f.found] == Value::Truth(found)
            &&& r2.vals[len] == r.vals[len]
            &&& same_below(b, r, r2)
            &&& r2.mem == r.mem
        }),
{
    find_lies(iterable, iterable_ty, kind, b);
    reveal_with_fuel(incoming_from, 3);
    comes_to_itself(code, sem, r);
    let f = begin_find_loop_spec(iterable, iterable_ty, kind, b).1;
    assert(f.latch != b.env.current_block);
    let r1 = one_step_further(code, sem, r, r);
    assert(r1.vals[f.i] == Value::Number(k));
    let r2 = one_step_further(code, sem, r, r1);
    assert(r2.vals[f.result] == v);
    let r3 = one_step_further(code, sem, r, r2);
    assert(r3.vals[f.found] == Value::Truth(found));
    let r4 = one_step_further(code, sem, r, r3);
    let r5 = one_step_further(code, sem, r, r4);
    let r6 = one_step_further(code, sem, r, r5);
    assert(r6.vals[Temp((b.temp_types.len() + 12) as u32)] == Value::Truth(k < n && !found));
    one_step_further(code, sem, r, r6)
}

/// From where the body has found the truth value a run comes back to the header: with the element
/// where it holds, else with what there was.
#[verifier::rlimit(60)]
#[verifier::spinoff_prover]
proof fn find_round_runs(
    iterable: Temp,
    iterable_ty: &Type,
    kind: FindKind,
    b: FState,
    b2: FState,
    pred: Temp,
    elem: Temp,
    elem_ty: &Type,
    code: Seq<BasicBlock>,
    sem: Oracle,
    k: int,
    truth: bool,
    r: Run,
) -> (r2: Run)
    requires
        finding_loop(iterable, iterable_ty, kind, b, b2, pred, elem, elem_ty, code),
        ({
            let f = begin_find_loop_spec(iterable, iterable_ty, kind, b).1;
            &&& r.vals[f.i] == Value::Number(k)
            &&& r.vals[f.found] == Value::Truth(false)
        }),
        is_at(b2, r),
        r.vals[pred] == Value::Truth(truth),
    ensures
        ({
            let (b1, f) = begin_find_loop_spec(iterable, iterable_ty, kind, b);
            let len = Temp(b.temp_types.len() as u32);
            &&& comes_to(code, sem, r, r2)
            &&& r2.block == f.header && r2.at == 0 && r2.from == f.latch
            &&& r2.vals[f.i_next] == Value::Number(k + 1)
            &&& r2.vals[f.result_next] == if truth {
                r.vals[elem]
            } else {
                r.vals[f.result]
            }
            &&& r2.vals[f.found_next] == Value::Truth(truth)
            &&& r2.vals[len] == r.vals[len]
            &&& same_below(b, r, r2)
            &&& r2.mem == r.mem
        }),
{
    find_lies(iterable, iterable_ty, kind, b);
    finding_stands(iterable, iterable_ty, kind, b, b2, pred, elem, elem_ty, code);
    let (b1, f) = begin_find_loop_spec(iterable, iterable_ty, kind, b);
    let e = find_end(&f, pred, elem, elem_ty, kind, b2);
    let n = b2.blocks.len() as int;
    assert(b2.blocks[f.latch.0 as int] == b1.blocks[f.latch.0 as int]);
    assert(b2.blocks[f.exit.0 as int] == b1.blocks[f.exit.0 as int]);
    find_end_lies(&f, pred, elem, elem_ty, kind, b2);
    reveal_with_fuel(incoming_from, 3);
    comes_to_itself(code, sem, r);
    let r1 = one_step_further(code, sem, r, r);
    let r3 = if truth {
        assert(is_at(e.keep, r1));
        let r2 = keep_runs(elem, elem_ty, kind, e.keep, code, sem, r1);
        comes_further(code, sem, r, r1, r2);
        let r3 = one_step_further(code, sem, r, r2);
        assert(r3.from.0 == n + 1 && r3.vals[e.boxed] == r.vals[elem]);
        assert(same_below(b2, r, r3));
        r3
    } else {
        assert(is_at(e.skip, r1));
        let r2 = skip_runs(elem, elem_ty, kind, e.skip, code, sem, r1);
        comes_further(code, sem, r, r1, r2);
        let r3 = one_step_further(code, sem, r, r2);
        assert(r3.from.0 == n + 2);
        assert(same_below(b2, r, r3));
        r3
    };
    assert(r3.block.0 == n && r3.at == 0);
    let r4 = one_step_further(code, sem, r, r3);
    assert(r4.vals[f.result_next] == if truth {
        r.vals[elem]
    } else {
        r.vals[f.result]
    });
    let r5 = one_step_further(code, sem, r, r4);
    assert(r4.vals[pred] == Value::Truth(truth));
    assert(r4.vals[f.found] == Value::Truth(false));
    assert(r5.vals[f.found_next] == Value::Truth(truth));
    let r6 = one_step_further(code, sem, r, r5);
    let r7 = one_step_further(code, sem, r, r6);
    let r8 = one_step_further(code, sem, r, r7);
    assert(r8.vals[f.i_next] == Value::Number(k + 1));
    one_step_further(code, sem, r, r8)
}

/// From the header a run comes to the exit with what the rest of the search gives.
proof fn find_rest_runs(
    iterable: Temp,
    iterable_ty: &Type,
    kind: FindKind,
    b: FState,
    b2: FState,
    pred: Temp,
    elem: Temp,
    elem_ty: &Type,
    code: Seq<BasicBlock>,
    sem: Oracle,
    items: Seq<Value>,
    preds: Seq<bool>,
    effect: spec_fn(int, Mem) -> Mem,
    origin: Run,
    r: Run,
    k: int,
) -> (r2: Run)
    requires
        finding_loop(iterable, iterable_ty, kind, b, b2, pred, elem, elem_ty, code),
        same_below(b, origin, r),
        0 <= k <= items.len(),
        preds.len() == items.len(),
        ({
            let (b1, f) = begin_find_loop_spec(iterable, iterable_ty, kind, b);
            let t = b.temp_types.len() as int;
            let no = Temp((if kind == FindKind::Inline { t + 9 } else { t + 3 }) as u32);
            &&& body_searches(code, sem, b, origin, b1, b2, f.i, pred, elem, items, preds, effect)
            &&& r.block == f.header && r.at == 0
            &&& r.vals[Temp(t as u32)] == Value::Number(items.len() as int)
            &&& (r.from == b.env.current_block && r.vals[Temp((t + 1) as u32)] == Value::Number(k)
                && r.vals[Temp((t + 2) as u32)] == Value::Null && r.vals[no] == Value::Truth(
                false,
            )) || (r.from == f.latch && r.vals[f.i_next] == Value::Number(k)
                && r.vals[f.result_next] == Value::Null && r.vals[f.found_next] == Value::Truth(
                false,
            ))
        }),
    ensures
        ({
            let f = begin_find_loop_spec(iterable, iterable_ty, kind, b).1;
            let rest = preds.skip(k);
            let at = k + sought(rest);
            &&& comes_to(code, sem, r, r2)
            &&& r2.block == f.exit && r2.at == 0
            &&& r2.vals[f.result] == if sought(rest) < rest.len() {
                items[at]
            } else {
                Value::Null
            }
            &&& same_below(b, r, r2)
            &&& r2.mem == effects(effect, k, asked_for(rest), r.mem)
        }),
    decreases items.len() - k,
{
    find_lies(iterable, iterable_ty, kind, b);
    finding_stands(iterable, iterable_ty, kind, b, b2, pred, elem, elem_ty, code);
    let (b1, f) = begin_find_loop_spec(iterable, iterable_ty, kind, b);
    let n = items.len();
    let rest = preds.skip(k);
    sought_is_the_first(rest);
    reveal_with_fuel(effects, 2);
    let r1 = find_header_runs(
        iterable,
        iterable_ty,
        kind,
        b,
        code,
        sem,
        n,
        k,
        Value::Null,
        false,
        r,
    );
    if k < n {
        assert(rest[0] == preds[k]);
        assert(rest.drop_first() =~= preds.skip(k + 1));
        assert(starts_search(b1, f.i, k, r1));
        let r2 = choose|r2: Run|
            {
                &&& #[trigger] comes_to(code, sem, r1, r2)
                &&& is_at(b2, r2)
                &&& same_below(b1, r1, r2)
                &&& r2.vals[pred] == Value::Truth(preds[k])
                &&& r2.vals[elem] == items[k]
                &&& r2.mem == effect(k, r1.mem)
            };
        comes_further(code, sem, r, r1, r2);
        let r3 = find_round_runs(
            iterable,
            iterable_ty,
            kind,
            b,
            b2,
            pred,
            elem,
            elem_ty,
            code,
            sem,
            k,
            preds[k],
            r2,
        );
        comes_further(code, sem, r, r2, r3);
        assert(same_below(b, r, r3));
        if preds[k] {
            let r4 = find_header_runs(
                iterable,
                iterable_ty,
                kind,
                b,
                code,
                sem,
                n,
                k + 1,
                items[k],
                true,
                r3,
            );
            comes_further(code, sem, r, r3, r4);
            assert(effects(effect, k + 1, 0, r3.mem) == r3.mem);
            r4
        } else {
            sought_is_the_first(preds.skip(k + 1));
            let r4 = find_rest_runs(
                iterable,
                iterable_ty,
                kind,
                b,
                b2,
                pred,
                elem,
                elem_ty,
                code,
                sem,
                items,
                preds,
                effect,
                origin,
                r3,
                k + 1,
            );
            comes_further(code, sem, r, r3, r4);
            r4
        }
    } else {
        r1
    }
}

/// A run of the emitted search comes behind it with the element at the least index at which the
/// callback holds, or with null where there is none. The body has run for the elements up to that
/// one, in order, and for no others.
pub proof fn search_finds_the_first(
    iterable: Temp,
    iterable_ty: &Type,
    kind: FindKind,
    b: FState,
    b2: FState,
    pred: Temp,
    elem: Temp,
    elem_ty: &Type,
    result_type: &Type,
    code: Seq<BasicBlock>,
    sem: Oracle,
    items: Seq<Value>,
    preds: Seq<bool>,
    effect: spec_fn(int, Mem) -> Mem,
    r: Run,
) -> (r2: Run)
    requires
        finding_loop(iterable, iterable_ty, kind, b, b2, pred, elem, elem_ty, code),
        ({
            let (b1, f) = begin_find_loop_spec(iterable, iterable_ty, kind, b);
            let last = end_find_loop_spec(&f, pred, elem, elem_ty, kind, result_type, b2).0;
            &&& body_searches(code, sem, b, r, b1, b2, f.i, pred, elem, items, preds, effect)
            &&& last.temp_types.len() < u32::MAX
            &&& part_stands(b, last, code)
        }),
        is_at(b, r),
        iterable.0 < b.temp_types.len(),
        r.vals[iterable] == Value::Items(items),
        preds.len() == items.len(),
    ensures
        ({
            let f = begin_find_loop_spec(iterable, iterable_ty, kind, b).1;
            let (last, t) = end_find_loop_spec(&f, pred, elem, elem_ty, kind, result_type, b2);
            &&& comes_to(code, sem, r, r2)
            &&& is_at(last, r2)
            &&& same_below(b, r, r2)
            &&& (forall|j: int| 0 <= j < preds.len() ==> !#[trigger] preds[j]) ==> r2.vals[t]
                == Value::Null && r2.mem == effects(effect, 0, preds.len(), r.mem)
            &&& forall|i: int|
                0 <= i < preds.len() && #[trigger] preds[i] && (forall|j: int|
                    0 <= j < i ==> !preds[j]) ==> r2.vals[t] == items[i] && r2.mem == effects(
                    effect,
                    0,
                    (i + 1) as nat,
                    r.mem,
                )
        }),
{
    let (b1, f) = begin_find_loop_spec(iterable, iterable_ty, kind, b);
    let (last, t) = end_find_loop_spec(&f, pred, elem, elem_ty, kind, result_type, b2);
    let e = find_end(&f, pred, elem, elem_ty, kind, b2);
    find_end_is(&f, pred, elem, elem_ty, kind, result_type, b2);
    find_lies(iterable, iterable_ty, kind, b);
    finding_stands(iterable, iterable_ty, kind, b, b2, pred, elem, elem_ty, code);
    assert(b2.blocks[f.latch.0 as int] == b1.blocks[f.latch.0 as int]);
    assert(b2.blocks[f.exit.0 as int] == b1.blocks[f.exit.0 as int]);
    find_end_lies(&f, pred, elem, elem_ty, kind, b2);
    let k = b.env.current_block.0 as int;
    let m = current(b).len() as int;
    let is = instrs(&code[k].code);
    comes_to_itself(code, sem, r);
    assert(is[m] == length_instr(Temp(b.temp_types.len() as u32), iterable, iterable_ty));
    let r1 = one_step_further(code, sem, r, r);
    let r2 = one_step_further(code, sem, r, r1);
    let r3 = one_step_further(code, sem, r, r2);
    let r4 = one_step_further(code, sem, r, r3);
    let r5 = one_step_further(code, sem, r, r4);
    assert(r5.block == f.header && r5.at == 0 && r5.from == b.env.current_block);
    assert(same_below(b, r, r5) && r5.mem == r.mem);
    let r6 = find_rest_runs(
        iterable,
        iterable_ty,
        kind,
        b,
        b2,
        pred,
        elem,
        elem_ty,
        code,
        sem,
        items,
        preds,
        effect,
        r,
        r5,
        0,
    );
    comes_further(code, sem, r, r5, r6);
    assert(preds.skip(0) =~= preds);
    sought_is_the_first(preds);
    assert forall|i: int| 0 <= i < preds.len() && #[trigger] preds[i] && (forall|j: int|
        0 <= j < i ==> !preds[j]) implies sought(preds) == i by {
        if sought(preds) < i {
            assert(!preds[sought(preds) as int]);
        }
    }
    assert(is_at(e.exit, r6));
    if !(result_type is TypeVar) {
        assert(e.exit.temp_types.len() < u32::MAX);
        assert(is_here(last, code));
        conversion_runs(e.exit, f.result, &json(), result_type, code, sem, r6);
        let r7 = after_instr(
            sem,
            Instruction::Coerce { dst: t, src: f.result, from_ty: json(), to_ty: *result_type },
            r6,
        );
        comes_further(code, sem, r, r6, r7);
        r7
    } else {
        r6
    }
}

/// How much the end of the loop adds.
pub(crate) proof fn find_end_adds(
    f: &FindLoop,
    pred: Temp,
    elem: Temp,
    elem_ty: &Type,
    kind: FindKind,
    b: FState,
)
    ensures
        ({
            let exit = find_end(f, pred, elem, elem_ty, kind, b).exit;
            &&& b.blocks.len() <= exit.blocks.len()
            &&& exit.blocks.len() < u32::MAX ==> exit.blocks.len() == b.blocks.len() + 3
            &&& b.temp_types.len() <= exit.temp_types.len()
            &&& exit.temp_types.len() < u32::MAX ==> b.temp_types.len() < exit.temp_types.len()
        }),
{
    let e = find_end(f, pred, elem, elem_ty, kind, b);
    keep_local(elem, elem_ty, kind, e.keep);
    skip_local(elem, elem_ty, kind, e.skip);
    operations_add();
}

} // verus!
