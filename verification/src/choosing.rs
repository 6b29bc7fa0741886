//! `if` as an expression, as it runs.

use crate::ast::TypedExpr;
use crate::builder::{Entry, FState};
use crate::coerce::{coerce_if_branch_spec, coerce_to_slot_type_spec};
use crate::control::{
    BranchEnd, ends_agree, holds_slot, join_branches_spec, lower_branch_spec,
    lower_cond_as_bool_spec, lower_if_spec, merge_slot_spec, merge_slots_spec, slot_incomings,
    slot_or, value_incomings, value_incomings_spec,
};
use crate::counting::operations_add;
use crate::ctx::{Lower, St, low};
use crate::direct::alike;
use crate::finding::one_step_further;
use crate::fusion::{coerce_local, emit_local};
use crate::ir::{BasicBlock, BlockId, Instruction, Temp, Terminator};
use crate::list::{List, cons};
use crate::looping::{halves_stand, part_stands};
use crate::run::{
    Oracle, Run, Value, after_instr, comes_further, comes_to, comes_to_itself, conversion_runs,
    current, emitted_runs, incoming_from, instrs, is_at, is_open, local_adds_up, made_runs,
    same_below, stays_local,
};
use crate::sense::{
    Sense, cond_local, cond_runs, expr_local, expr_runs, exprs_mean, scope_end_local,
    scope_end_runs, suits,
};
use crate::types::Type;
use vstd::prelude::*;

verus! {

// The value of a branch.

/// The value of a branch as the whole holds it stays local.
proof fn converted_local(raw: Temp, value_ty: &Type, result_type: &Type, b: FState)
    ensures
        stays_local(b, coerce_if_branch_spec(raw, value_ty, result_type, b).0),
{
    reveal(coerce_if_branch_spec);
    reveal(coerce_to_slot_type_spec);
    let (b1, cloned) = b.clone_box(raw, value_ty);
    assert(stays_local(b, b1)) by {
        reveal(FState::clone_box);
        reveal(FState::alloc_temp);
        reveal(FState::emit);
        reveal_with_fuel(instrs, 2);
    }
    coerce_local(b, raw, value_ty, result_type);
    let b2 = b1.coerce(cloned, value_ty, result_type).0;
    coerce_local(b1, cloned, value_ty, result_type);
    let i = Instruction::FreeBoxShell { val: cloned };
    emit_local(b2, i);
    local_adds_up(b, b1, b2);
    local_adds_up(b, b2, b2.emit(i));
}

/// The value of a branch as the whole holds it is the same value.
proof fn converted_runs(
    raw: Temp,
    value_ty: &Type,
    result_type: &Type,
    b: FState,
    code: Seq<BasicBlock>,
    sem: Oracle,
    r: Run,
) -> (r2: Run)
    requires
        is_open(b),
        coerce_if_branch_spec(raw, value_ty, result_type, b).0.blocks.len() < u32::MAX,
        coerce_if_branch_spec(raw, value_ty, result_type, b).0.temp_types.len() < u32::MAX,
        part_stands(b, coerce_if_branch_spec(raw, value_ty, result_type, b).0, code),
        is_at(b, r),
        raw.0 < b.temp_types.len(),
    ensures
        ({
            let (b2, br) = coerce_if_branch_spec(raw, value_ty, result_type, b);
            &&& comes_to(code, sem, r, r2)
            &&& is_at(b2, r2)
            &&& same_below(b, r, r2)
            &&& r2.mem == r.mem
            &&& r2.vals[br.val] == r.vals[raw]
            &&& br.val.0 < b2.temp_types.len()
        }),
{
    converted_local(raw, value_ty, result_type, b);
    reveal(coerce_if_branch_spec);
    reveal(coerce_to_slot_type_spec);
    operations_add();
    let (last, br) = coerce_if_branch_spec(raw, value_ty, result_type, b);
    let (b1, cloned) = b.clone_box(raw, value_ty);
    let clone = Instruction::CloneBox { dst: cloned, src: raw, ty: *value_ty };
    let (b2, unboxed) = b1.coerce(cloned, value_ty, result_type);
    let free = Instruction::FreeBoxShell { val: cloned };
    if last == b && br.val == raw {
        comes_to_itself(code, sem, r);
        r
    } else if last == b.coerce(raw, value_ty, result_type).0 && br.val == b.coerce(
        raw,
        value_ty,
        result_type,
    ).1 {
        conversion_runs(b, raw, value_ty, result_type, code, sem, r);
        let i = Instruction::Coerce {
            dst: br.val,
            src: raw,
            from_ty: *value_ty,
            to_ty: *result_type,
        };
        after_instr(sem, i, r)
    } else {
        reveal(FState::clone_box);
        assert(b1.temp_types.len() <= last.temp_types.len());
        assert(b.temp_types.len() < u32::MAX && cloned.0 == b.temp_types.len()) by {
            reveal(FState::alloc_temp);
            reveal(FState::emit);
        }
        if last == b1 && br.val == cloned {
            made_runs(b, *value_ty, clone, code, sem, r);
            after_instr(sem, clone, r)
        } else {
            assert(last == b2.emit(free) && br.val == unboxed);
            assert(stays_local(b, b1)) by {
                reveal(FState::alloc_temp);
                reveal(FState::emit);
                reveal_with_fuel(instrs, 2);
            }
            coerce_local(b1, cloned, value_ty, result_type);
            emit_local(b2, free);
            local_adds_up(b1, b2, last);
            halves_stand(b, b1, last, code);
            halves_stand(b1, b2, last, code);
            made_runs(b, *value_ty, clone, code, sem, r);
            let r1 = after_instr(sem, clone, r);
            conversion_runs(b1, cloned, value_ty, result_type, code, sem, r1);
            let i = Instruction::Coerce {
                dst: unboxed,
                src: cloned,
                from_ty: *value_ty,
                to_ty: *result_type,
            };
            let r2 = after_instr(sem, i, r1);
            comes_further(code, sem, r, r1, r2);
            emitted_runs(b2, free, code, sem, r2);
            let r3 = after_instr(sem, free, r2);
            comes_further(code, sem, r, r2, r3);
            r3
        }
    }
}

// A branch.

/// The code of a branch, from the start of its block, and its value.
pub open spec fn branch_code(l: Lower, e: &TypedExpr, result_type: &Type, s: St) -> (St, Temp) {
    let s0 = St { b: s.b.push_scope(), c: s.c };
    let (s1, raw) = low(l, e, s0);
    let ty = s1.b.temp_ty_or(raw, e.ty());
    let (b2, br) = coerce_if_branch_spec(raw, &ty, result_type, s1.b);
    (St { b: b2.pop_scope_releasing_keep(&br.keep), c: s1.c }, br.val)
}

/// A branch stays local.
proof fn branch_code_local(
    l: Lower,
    e: &TypedExpr,
    result_type: &Type,
    s: St,
    code: Seq<BasicBlock>,
    sem: Oracle,
    w: Sense,
)
    requires
        exprs_mean(l, code, sem, w),
        (w.known)(*e),
    ensures
        stays_local(s.b, branch_code(l, e, result_type, s).0.b),
{
    reveal(FState::push_scope);
    let s0 = St { b: s.b.push_scope(), c: s.c };
    let (s1, raw) = low(l, e, s0);
    let ty = s1.b.temp_ty_or(raw, e.ty());
    let (b2, br) = coerce_if_branch_spec(raw, &ty, result_type, s1.b);
    expr_local(l, e, s0, code, sem, w);
    converted_local(raw, &ty, result_type, s1.b);
    scope_end_local(b2, &br.keep);
    local_adds_up(s0.b, s1.b, b2);
    local_adds_up(s0.b, b2, branch_code(l, e, result_type, s).0.b);
}

/// A branch gives the value of its expression.
proof fn branch_code_runs(
    l: Lower,
    e: &TypedExpr,
    result_type: &Type,
    s: St,
    code: Seq<BasicBlock>,
    sem: Oracle,
    w: Sense,
    r: Run,
) -> (r2: Run)
    requires
        exprs_mean(l, code, sem, w),
        (w.known)(*e),
        suits(w, s.b, r),
        is_open(s.b),
        branch_code(l, e, result_type, s).0.b.blocks.len() < u32::MAX,
        branch_code(l, e, result_type, s).0.b.temp_types.len() < u32::MAX,
        part_stands(s.b, branch_code(l, e, result_type, s).0.b, code),
        is_at(s.b, r),
    ensures
        ({
            let (s2, t) = branch_code(l, e, result_type, s);
            &&& comes_to(code, sem, r, r2)
            &&& is_at(s2.b, r2)
            &&& same_below(s.b, r, r2)
            &&& t.0 < s2.b.temp_types.len()
            &&& r2.vals[t] == (w.value)(*e, r.mem)
            &&& r2.mem == (w.effect)(*e, r.mem)
        }),
{
    reveal(FState::push_scope);
    let s0 = St { b: s.b.push_scope(), c: s.c };
    let (s1, raw) = low(l, e, s0);
    let ty = s1.b.temp_ty_or(raw, e.ty());
    let (b2, br) = coerce_if_branch_spec(raw, &ty, result_type, s1.b);
    let last = branch_code(l, e, result_type, s).0.b;
    expr_local(l, e, s0, code, sem, w);
    converted_local(raw, &ty, result_type, s1.b);
    scope_end_local(b2, &br.keep);
    local_adds_up(s1.b, b2, last);
    assert(is_open(s0.b) && part_stands(s0.b, last, code) && is_at(s0.b, r));
    halves_stand(s0.b, s1.b, last, code);
    halves_stand(s1.b, b2, last, code);
    let r1 = expr_runs(l, e, s0, code, sem, w, r);
    let r2 = converted_runs(raw, &ty, result_type, s1.b, code, sem, r1);
    comes_further(code, sem, r, r1, r2);
    let r3 = scope_end_runs(b2, &br.keep, code, sem, r2);
    comes_further(code, sem, r, r2, r3);
    r3
}

/// A branch that comes to its end is lowered to its code and a jump.
proof fn branch_is(
    l: Lower,
    e: &TypedExpr,
    block: BlockId,
    merge: BlockId,
    result_type: &Type,
    s: St,
)
    requires
        ({
            let s0 = St { b: s.b.switch_to(block).push_scope(), c: s.c };
            !low(l, e, s0).0.b.is_terminated()
        }),
    ensures
        ({
            let (s2, t) = branch_code(l, e, result_type, St { b: s.b.switch_to(block), c: s.c });
            let (s3, end) = lower_branch_spec(l, e, block, merge, result_type, s);
            &&& s3.b == s2.b.terminate(Terminator::Jump(merge))
            &&& s3.c == s2.c
            &&& end is Some
            &&& end->Some_0.val == t
            &&& end->Some_0.pred == s2.b.env.current_block
        }),
{
    reveal(lower_branch_spec);
}

// Where the branches meet.

/// Variables that the branches hold in different temporaries are brought together in the block.
proof fn slots_local(
    outer: &List<Entry<Temp>>,
    all: &List<Entry<Temp>>,
    ends: &List<BranchEnd>,
    b: FState,
)
    ensures
        stays_local(b, merge_slots_spec(outer, all, ends, b)),
        merge_slots_spec(outer, all, ends, b).blocks.len() == b.blocks.len(),
        merge_slots_spec(outer, all, ends, b).env.current_block == b.env.current_block,
    decreases outer,
{
    reveal(merge_slots_spec);
    match outer {
        List::Nil => {},
        List::Cons(n) => {
            slots_local(&n.tail, all, ends, b);
            let b1 = merge_slots_spec(&n.tail, all, ends, b);
            if !holds_slot(&n.tail, n.head.slot) {
                let before = slot_or(all, n.head.slot, n.head.value);
                slot_local(n.head.slot, before, ends, b1);
                local_adds_up(b, b1, merge_slots_spec(outer, all, ends, b));
            }
        },
    }
}

/// A variable is brought together in the block.
proof fn slot_local(slot: usize, before: Temp, ends: &List<BranchEnd>, b: FState)
    ensures
        stays_local(b, merge_slot_spec(slot, before, ends, b)),
        merge_slot_spec(slot, before, ends, b).blocks.len() == b.blocks.len(),
        merge_slot_spec(slot, before, ends, b).env.current_block == b.env.current_block,
{
    reveal(merge_slot_spec);
    reveal(FState::set_slot);
    reveal(FState::alloc_temp);
    reveal(FState::emit);
    reveal_with_fuel(instrs, 2);
}

/// Bringing a variable together leaves the temporaries from before alone.
proof fn slot_runs(
    slot: usize,
    before: Temp,
    ends: &List<BranchEnd>,
    b: FState,
    code: Seq<BasicBlock>,
    sem: Oracle,
    r: Run,
) -> (r2: Run)
    requires
        is_open(b),
        merge_slot_spec(slot, before, ends, b).blocks.len() < u32::MAX,
        merge_slot_spec(slot, before, ends, b).temp_types.len() < u32::MAX,
        part_stands(b, merge_slot_spec(slot, before, ends, b), code),
        is_at(b, r),
    ensures
        comes_to(code, sem, r, r2),
        is_at(merge_slot_spec(slot, before, ends, b), r2),
        same_below(b, r, r2),
        r2.mem == r.mem,
{
    reveal(merge_slot_spec);
    reveal(FState::set_slot);
    let last = merge_slot_spec(slot, before, ends, b);
    match ends {
        List::Nil => {
            comes_to_itself(code, sem, r);
            r
        },
        List::Cons(e) => {
            let first = slot_or(&e.head.slots, slot, before);
            if ends_agree(ends, slot, before, first) {
                comes_to_itself(code, sem, r);
                r
            } else {
                let ty = b.temp_ty_or(first, Type::Null);
                let dst = b.alloc_temp(ty).1;
                let i = Instruction::Phi { dst, ty, incomings: slot_incomings(ends, slot, before) };
                let e2 = b.alloc_temp(ty).0.emit(i);
                assert(alike(last, e2) && b.temp_types.len() < u32::MAX) by {
                    reveal(FState::alloc_temp);
                    reveal(FState::emit);
                }
                made_runs(b, ty, i, code, sem, r);
                after_instr(sem, i, r)
            }
        },
    }
}

/// Bringing variables together leaves the temporaries from before alone.
proof fn slots_run(
    outer: &List<Entry<Temp>>,
    all: &List<Entry<Temp>>,
    ends: &List<BranchEnd>,
    b: FState,
    code: Seq<BasicBlock>,
    sem: Oracle,
    r: Run,
) -> (r2: Run)
    requires
        is_open(b),
        merge_slots_spec(outer, all, ends, b).blocks.len() < u32::MAX,
        merge_slots_spec(outer, all, ends, b).temp_types.len() < u32::MAX,
        part_stands(b, merge_slots_spec(outer, all, ends, b), code),
        is_at(b, r),
    ensures
        comes_to(code, sem, r, r2),
        is_at(merge_slots_spec(outer, all, ends, b), r2),
        same_below(b, r, r2),
        r2.mem == r.mem,
    decreases outer,
{
    reveal(merge_slots_spec);
    match outer {
        List::Nil => {
            comes_to_itself(code, sem, r);
            r
        },
        List::Cons(n) => {
            let b1 = merge_slots_spec(&n.tail, all, ends, b);
            slots_local(&n.tail, all, ends, b);
            if !holds_slot(&n.tail, n.head.slot) {
                let before = slot_or(all, n.head.slot, n.head.value);
                slot_local(n.head.slot, before, ends, b1);
                halves_stand(b, b1, merge_slots_spec(outer, all, ends, b), code);
                let r1 = slots_run(&n.tail, all, ends, b, code, sem, r);
                let r2 = slot_runs(n.head.slot, before, ends, b1, code, sem, r1);
                comes_further(code, sem, r, r1, r2);
                r2
            } else {
                slots_run(&n.tail, all, ends, b, code, sem, r)
            }
        },
    }
}

// The whole.

/// The states of an `if`: where its condition has been evaluated, where each branch starts and
/// ends, with its value, and where the branches meet.
pub struct IfStates {
    pub first: St,
    pub cond: Temp,
    pub then_start: FState,
    pub then_end: St,
    pub then_val: Temp,
    pub else_start: FState,
    pub else_end: St,
    pub else_val: Temp,
    pub meet: FState,
}

/// The states of an `if`.
pub open spec fn if_states(
    l: Lower,
    cond: &TypedExpr,
    then_br: &TypedExpr,
    else_br: &TypedExpr,
    result_type: &Type,
    s: St,
) -> IfStates {
    let (s1, c) = lower_cond_as_bool_spec(l, cond, s);
    let (b, then_block) = s1.b.alloc_block("if_then");
    let (b, else_block) = b.alloc_block("if_else");
    let (b, merge) = b.alloc_block("if_merge");
    let b = b.terminate(Terminator::CondJump { cond: c, then_block, else_block });
    let outer = b.env.slots;
    let t0 = b.switch_to(then_block);
    let (t1, x) = branch_code(l, then_br, result_type, St { b: t0, c: s1.c });
    let e0 = t1.b.terminate(Terminator::Jump(merge)).set_slots(outer).switch_to(else_block);
    let (e1, y) = branch_code(l, else_br, result_type, St { b: e0, c: t1.c });
    let m0 = e1.b.terminate(Terminator::Jump(merge)).switch_to(merge);
    IfStates {
        first: s1,
        cond: c,
        then_start: t0,
        then_end: t1,
        then_val: x,
        else_start: e0,
        else_end: e1,
        else_val: y,
        meet: m0,
    }
}

/// How the blocks lie.
#[verifier::rlimit(60)]
#[verifier::spinoff_prover]
proof fn if_lies(
    l: Lower,
    cond: &TypedExpr,
    then_br: &TypedExpr,
    else_br: &TypedExpr,
    result_type: &Type,
    s: St,
)
    requires
        ({
            let p = if_states(l, cond, then_br, else_br, result_type, s);
            &&& is_open(p.first.b)
            &&& stays_local(p.then_start, p.then_end.b)
            &&& stays_local(p.else_start, p.else_end.b)
            &&& p.meet.blocks.len() < u32::MAX
            &&& p.meet.temp_types.len() < u32::MAX
        }),
    ensures
        ({
            let p = if_states(l, cond, then_br, else_br, result_type, s);
            let b = p.first.b;
            let n = b.blocks.len() as int;
            let k = b.env.current_block.0 as int;
            let x = p.then_end.b.env.current_block.0 as int;
            let y = p.else_end.b.env.current_block.0 as int;
            let merge = BlockId((n + 2) as u32);
            let m = p.meet;
            &&& is_open(p.then_start) && p.then_start.env.current_block.0 == n && current(
                p.then_start,
            ) == Seq::<Instruction>::empty() && p.then_start.temp_types == b.temp_types
                && p.then_start.blocks.len() == n + 3
            &&& is_open(p.else_start) && p.else_start.env.current_block.0 == n + 1 && current(
                p.else_start,
            ) == Seq::<Instruction>::empty() && p.else_start.temp_types == p.then_end.b.temp_types
            &&& is_open(p.then_end.b) && is_open(p.else_end.b)
            &&& p.then_end.b.blocks.len() <= p.else_end.b.blocks.len() && p.else_start.blocks.len()
                == p.then_end.b.blocks.len()
            &&& m.temp_types == p.else_end.b.temp_types && m.blocks.len()
                == p.else_end.b.blocks.len()
            &&& x != k && y != k && x != y && x != n + 2 && y != n + 2
            &&& m.env.current_block == merge && is_open(m) && current(m) == Seq::<
                Instruction,
            >::empty()
            &&& m.blocks[k].code == b.blocks[k].code
            &&& m.blocks[k].term == (Terminator::CondJump {
                cond: p.cond,
                then_block: BlockId(n as u32),
                else_block: BlockId((n + 1) as u32),
            })
            &&& m.blocks[x].code == p.then_end.b.blocks[x].code
            &&& m.blocks[x].term == Terminator::Jump(merge)
            &&& m.blocks[y].code == p.else_end.b.blocks[y].code
            &&& m.blocks[y].term == Terminator::Jump(merge)
            &&& forall|j: int|
                0 <= j < p.then_end.b.blocks.len() && j != x && j != n + 1
                    ==> #[trigger] m.blocks[j]
                    == p.then_end.b.blocks[j]
            &&& forall|j: int|
                0 <= j < p.else_end.b.blocks.len() && j != y ==> #[trigger] m.blocks[j]
                    == p.else_end.b.blocks[j]
            &&& stays_local(b, m)
        }),
{
    let p = if_states(l, cond, then_br, else_br, result_type, s);
    let b = p.first.b;
    let n = b.blocks.len() as int;
    let k = b.env.current_block.0 as int;
    operations_add();
    assert(p.then_end.b.blocks.len() == p.else_start.blocks.len() && p.then_end.b.temp_types
        == p.else_start.temp_types) by {
        reveal(FState::set_slots);
    }
    assert(n + 3 < u32::MAX);
    reveal(FState::alloc_block);
    reveal(FState::terminate);
    reveal(FState::switch_to);
    reveal(FState::set_slots);
    assert(is_open(p.then_start));
    let x = p.then_end.b.env.current_block.0 as int;
    let y = p.else_end.b.env.current_block.0 as int;
    assert(p.then_end.b.blocks[k] == p.then_start.blocks[k]);
    assert(p.then_end.b.blocks[n + 1] == p.then_start.blocks[n + 1]);
    assert(p.then_end.b.blocks[n + 2] == p.then_start.blocks[n + 2]);
    assert(is_open(p.else_start));
    assert(p.else_end.b.blocks[k] == p.else_start.blocks[k]);
    assert(p.else_end.b.blocks[x] == p.else_start.blocks[x]);
    assert(p.else_end.b.blocks[n + 2] == p.else_start.blocks[n + 2]);
    assert forall|j: int|
        0 <= j < p.then_end.b.blocks.len()
            && j != x
            && j != n + 1 implies #[trigger] p.meet.blocks[j]
        == p.then_end.b.blocks[j] by {
        assert(p.else_end.b.blocks[j] == p.else_start.blocks[j]);
    }
    assert forall|j: int|
        0 <= j < n && j != k implies #[trigger] p.meet.blocks[j] == b.blocks[j] by {
        assert(p.then_end.b.blocks[j] == p.then_start.blocks[j]);
        assert(p.else_end.b.blocks[j] == p.else_start.blocks[j]);
    }
}

/// A run of what `if` is lowered to gives the value of the one branch where the condition holds, of
/// the other one where it does not, and evaluates the condition and that branch, and nothing else.
pub proof fn if_runs_one_branch(
    l: Lower,
    cond: &TypedExpr,
    then_br: &TypedExpr,
    else_br: &TypedExpr,
    result_type: &Type,
    s: St,
    code: Seq<BasicBlock>,
    sem: Oracle,
    w: Sense,
    truth: bool,
    r: Run,
) -> (r2: Run)
    requires
        exprs_mean(l, code, sem, w),
        (w.known)(*cond),
        (w.known)(*then_br),
        (w.known)(*else_br),
        suits(w, s.b, r),
        is_open(s.b),
        ({
            let s2 = lower_if_spec(l, cond, then_br, else_br, result_type, s).0;
            let p = if_states(l, cond, then_br, else_br, result_type, s);
            &&& p.meet.blocks.len() < u32::MAX
            &&& p.meet.temp_types.len() < u32::MAX
            &&& s2.b.blocks.len() < u32::MAX
            &&& s2.b.temp_types.len() < u32::MAX
            &&& part_stands(s.b, s2.b, code)
        }),
        is_at(s.b, r),
        (w.value)(*cond, r.mem) == Value::Truth(truth),
    ensures
        ({
            let (s2, t) = lower_if_spec(l, cond, then_br, else_br, result_type, s);
            let after = (w.effect)(*cond, r.mem);
            &&& comes_to(code, sem, r, r2)
            &&& is_at(s2.b, r2)
            &&& same_below(s.b, r, r2)
            &&& truth ==> r2.vals[t] == (w.value)(*then_br, after)
            &&& truth ==> r2.mem == (w.effect)(*then_br, after)
            &&& !truth ==> r2.vals[t] == (w.value)(*else_br, after)
            &&& !truth ==> r2.mem == (w.effect)(*else_br, after)
        }),
{
    let p = if_states(l, cond, then_br, else_br, result_type, s);
    let (s2, t) = lower_if_spec(l, cond, then_br, else_br, result_type, s);
    let st0 = St { b: p.then_start, c: p.first.c };
    let se0 = St { b: p.else_start, c: p.then_end.c };
    cond_local(l, cond, s, code, sem, w);
    branch_code_local(l, then_br, result_type, st0, code, sem, w);
    branch_code_local(l, else_br, result_type, se0, code, sem, w);
    operations_add();
    assert(p.first.b.temp_types.len() <= p.meet.temp_types.len() && p.first.b.blocks.len()
        <= p.meet.blocks.len()) by {
        reveal(FState::set_slots);
    }
    assert(is_open(p.first.b));
    if_lies(l, cond, then_br, else_br, result_type, s);
    branches_end(l, cond, then_br, else_br, result_type, s, code, sem, w);
    let (outer, ends, dst) = if_is(l, cond, then_br, else_br, result_type, s);
    let m0 = p.meet.set_slots(outer);
    let phi = Instruction::Phi { dst, ty: *result_type, incomings: value_incomings(&ends) };
    let m1 = m0.alloc_temp(*result_type).0.emit(phi);
    let m2 = merge_slots_spec(&outer, &outer, &ends, m1);
    assert(alike(m0, p.meet)) by {
        reveal(FState::set_slots);
    }
    assert(alike(s2.b, m2)) by {
        reveal(FState::register_owned);
    }
    slots_local(&outer, &outer, &ends, m1);
    assert(stays_local(m0, m1) && m0.temp_types.len() < u32::MAX && dst.0 == m0.temp_types.len())
        by {
        reveal(FState::alloc_temp);
        reveal(FState::emit);
        reveal_with_fuel(instrs, 2);
    }
    local_adds_up(p.meet, m1, m2);
    local_adds_up(p.first.b, p.meet, m2);
    assert(part_stands(s.b, m2, code));
    halves_stand(s.b, p.first.b, m2, code);
    halves_stand(p.first.b, p.meet, m2, code);
    assert(part_stands(m0, m2, code) && is_open(m0));
    halves_stand(m0, m1, m2, code);
    let n = p.first.b.blocks.len() as int;
    let k = p.first.b.env.current_block.0 as int;
    let x = p.then_end.b.env.current_block.0 as int;
    let y = p.else_end.b.env.current_block.0 as int;
    assert(code[k] == p.meet.blocks[k]);
    assert(code[x] == p.meet.blocks[x]);
    assert(code[y] == p.meet.blocks[y]);
    assert(part_stands(p.then_start, p.then_end.b, code)) by {
        assert forall|j: int|
            0 <= j < p.then_end.b.blocks.len() && j != x && (j == p.then_start.env.current_block.0
                || p.then_start.blocks.len() <= j) implies #[trigger] code[j]
            == p.then_end.b.blocks[j] by {
            assert(code[j] == p.meet.blocks[j]);
        }
    }
    assert(part_stands(p.else_start, p.else_end.b, code)) by {
        assert forall|j: int|
            0 <= j < p.else_end.b.blocks.len() && j != y && (j == p.else_start.env.current_block.0
                || p.else_start.blocks.len() <= j) implies #[trigger] code[j]
            == p.else_end.b.blocks[j] by {
            assert(code[j] == p.meet.blocks[j]);
        }
    }
    let r1 = cond_runs(l, cond, s, code, sem, w, r);
    let r2 = one_step_further(code, sem, r, r1);
    let r4 = if truth {
        let r3 = branch_code_runs(l, then_br, result_type, st0, code, sem, w, r2);
        comes_further(code, sem, r, r2, r3);
        one_step_further(code, sem, r, r3)
    } else {
        let r3 = branch_code_runs(l, else_br, result_type, se0, code, sem, w, r2);
        comes_further(code, sem, r, r2, r3);
        one_step_further(code, sem, r, r3)
    };
    assert(is_at(m0, r4));
    made_runs(m0, *result_type, phi, code, sem, r4);
    let r5 = after_instr(sem, phi, r4);
    comes_further(code, sem, r, r4, r5);
    reveal_with_fuel(incoming_from, 3);
    reveal_with_fuel(value_incomings_spec, 3);
    let r6 = slots_run(&outer, &outer, &ends, m1, code, sem, r5);
    comes_further(code, sem, r, r5, r6);
    assert(same_below(p.first.b, r1, r4));
    r6
}

/// Both branches come to their ends.
proof fn branches_end(
    l: Lower,
    cond: &TypedExpr,
    then_br: &TypedExpr,
    else_br: &TypedExpr,
    result_type: &Type,
    s: St,
    code: Seq<BasicBlock>,
    sem: Oracle,
    w: Sense,
)
    requires
        exprs_mean(l, code, sem, w),
        (w.known)(*then_br),
        (w.known)(*else_br),
        ({
            let p = if_states(l, cond, then_br, else_br, result_type, s);
            &&& is_open(p.then_start)
            &&& is_open(p.else_start)
            &&& p.then_end.b.blocks.len() < u32::MAX && p.then_end.b.temp_types.len() < u32::MAX
            &&& p.else_end.b.blocks.len() < u32::MAX && p.else_end.b.temp_types.len() < u32::MAX
        }),
    ensures
        ({
            let p = if_states(l, cond, then_br, else_br, result_type, s);
            let t0 = St { b: p.then_start.push_scope(), c: p.first.c };
            let e0 = St { b: p.else_start.push_scope(), c: p.then_end.c };
            &&& !low(l, then_br, t0).0.b.is_terminated()
            &&& !low(l, else_br, e0).0.b.is_terminated()
        }),
{
    let p = if_states(l, cond, then_br, else_br, result_type, s);
    let t0 = St { b: p.then_start.push_scope(), c: p.first.c };
    let e0 = St { b: p.else_start.push_scope(), c: p.then_end.c };
    reveal(FState::push_scope);
    reveal(FState::is_terminated);
    branch_ends(l, then_br, result_type, St { b: p.then_start, c: p.first.c }, code, sem, w);
    branch_ends(l, else_br, result_type, St { b: p.else_start, c: p.then_end.c }, code, sem, w);
}

/// The expression of a branch comes to its end.
proof fn branch_ends(
    l: Lower,
    e: &TypedExpr,
    result_type: &Type,
    s: St,
    code: Seq<BasicBlock>,
    sem: Oracle,
    w: Sense,
)
    requires
        exprs_mean(l, code, sem, w),
        (w.known)(*e),
        is_open(s.b),
        branch_code(l, e, result_type, s).0.b.blocks.len() < u32::MAX,
        branch_code(l, e, result_type, s).0.b.temp_types.len() < u32::MAX,
    ensures
        is_open(low(l, e, St { b: s.b.push_scope(), c: s.c }).0.b),
{
    reveal(FState::push_scope);
    let s0 = St { b: s.b.push_scope(), c: s.c };
    let (s1, raw) = low(l, e, s0);
    let ty = s1.b.temp_ty_or(raw, e.ty());
    let (b2, br) = coerce_if_branch_spec(raw, &ty, result_type, s1.b);
    expr_local(l, e, s0, code, sem, w);
    converted_local(raw, &ty, result_type, s1.b);
    scope_end_local(b2, &br.keep);
}

/// An `if` whose branches come to their ends is made of these.
proof fn if_is(
    l: Lower,
    cond: &TypedExpr,
    then_br: &TypedExpr,
    else_br: &TypedExpr,
    result_type: &Type,
    s: St,
) -> (q: (List<Entry<Temp>>, List<BranchEnd>, Temp))
    requires
        ({
            let p = if_states(l, cond, then_br, else_br, result_type, s);
            let t0 = St { b: p.then_start.push_scope(), c: p.first.c };
            let e0 = St { b: p.else_start.push_scope(), c: p.then_end.c };
            &&& !low(l, then_br, t0).0.b.is_terminated()
            &&& !low(l, else_br, e0).0.b.is_terminated()
        }),
    ensures
        ({
            let p = if_states(l, cond, then_br, else_br, result_type, s);
            let (s2, t) = lower_if_spec(l, cond, then_br, else_br, result_type, s);
            let (outer, ends, dst) = q;
            let m0 = p.meet.set_slots(outer);
            let phi = Instruction::Phi { dst, ty: *result_type, incomings: value_incomings(&ends) };
            let m2 = merge_slots_spec(
                &outer,
                &outer,
                &ends,
                m0.alloc_temp(*result_type).0.emit(phi),
            );
            &&& t == dst
            &&& dst == m0.alloc_temp(*result_type).1
            &&& s2.b == m2 || s2.b == m2.register_owned(dst, *result_type)
            &&& match ends {
                List::Nil => false,
                List::Cons(a) => {
                    &&& a.head.val == p.then_val
                    &&& a.head.pred == p.then_end.b.env.current_block
                    &&& match a.tail {
                        List::Nil => false,
                        List::Cons(b) => {
                            &&& b.head.val == p.else_val
                            &&& b.head.pred == p.else_end.b.env.current_block
                            &&& b.tail is Nil
                        },
                    }
                },
            }
        }),
{
    reveal(lower_if_spec);
    reveal(join_branches_spec);
    let p = if_states(l, cond, then_br, else_br, result_type, s);
    let (s1, c) = lower_cond_as_bool_spec(l, cond, s);
    let (b, then_block) = s1.b.alloc_block("if_then");
    let (b, else_block) = b.alloc_block("if_else");
    let (b, merge) = b.alloc_block("if_merge");
    let b = b.terminate(Terminator::CondJump { cond: c, then_block, else_block });
    let outer = b.env.slots;
    let sb = St { b, c: s1.c };
    branch_is(l, then_br, then_block, merge, result_type, sb);
    let (s3, then_end) = lower_branch_spec(l, then_br, then_block, merge, result_type, sb);
    let s4 = St { b: s3.b.set_slots(outer), c: s3.c };
    branch_is(l, else_br, else_block, merge, result_type, s4);
    let (s5, else_end) = lower_branch_spec(l, else_br, else_block, merge, result_type, s4);
    let ends = cons(then_end->Some_0, cons(else_end->Some_0, List::Nil));
    (outer, ends, p.meet.set_slots(outer).alloc_temp(*result_type).1)
}

} // verus!
