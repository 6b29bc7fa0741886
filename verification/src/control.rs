//! Lowering of branches, patterns and statements.

use crate::analysis::{expr_reassigns_slot, reassigns_slot_stmts, stmts_define_slot};
use crate::ast::{
    BinOp, BoundField, MatchArm, NamedDef, PatternField, Span, TypedExpr, TypedPattern, TypedStmt,
};
use crate::builder::{Entry, FState, FuncBuilder, grown};
use crate::coerce::{
    box_to_json, box_to_json_spec, coerce_and_own_store, coerce_and_own_store_spec,
    coerce_if_branch, coerce_if_branch_spec, own_for_read, own_for_read_spec,
};
use crate::ctx::{Lower, LowerCtx, St, low, on, on_b, ran, st, valid};
use crate::expr::{lower_at, lower_expr};
use crate::ir::{BlockId, Const, Incoming, Instruction, Temp, Terminator};
use crate::list::{List, one, prepend, share, share_spec, two};
use crate::literal::{lower_value_into_slot, lower_value_into_slot_spec};
use crate::loops::{as_bool, as_bool_spec};
use crate::recognize::iter_elem_type;
use crate::repr::{sum_type_discriminant_of, sum_type_eligible};
use crate::text::{Text, same_name};
use crate::types::{Type, dup_str, field_type, json};
use crate::valid::{
    branch_end_ok, end_preds_ok, end_preds_tail, ends_ok, ends_tail, group_valid, incomings_ok,
    otemp_ok, preds_ok, slots_ok, slots_tail, temp_ok,
};
use vstd::prelude::*;

verus! {

broadcast use group_valid;

/// What `lower_cond_as_bool` does to the state, where `l` lowers the expressions inside.
#[verifier::opaque]
pub open spec fn lower_cond_as_bool_spec(l: Lower, expr: &TypedExpr, s: St) -> (St, Temp) {
    let (s, t) = low(l, expr, s);
    let ty = s.b.temp_ty_or(t, expr.ty());
    on(s, as_bool_spec(t, &ty, s.b))
}

/// Lowers a condition to a truth value.
pub fn lower_cond_as_bool(expr: &TypedExpr, b: &mut FuncBuilder, ctx: &mut LowerCtx) -> (r: Temp)
    ensures
        (st(final(b), final(ctx)), r) == lower_cond_as_bool_spec(
            lower_at(old(ctx).room.left()),
            expr,
            st(old(b), old(ctx)),
        ),
        ran(*old(b), *old(ctx), *final(b), *final(ctx)),
        valid(st(old(b), old(ctx)))
            ==> valid(st(final(b), final(ctx))) && temp_ok(r, final(b)@.temp_types.len()),
    decreases old(ctx).room.left(), 1nat, 0nat,
{
    reveal(lower_cond_as_bool_spec);
    let t = lower_expr(expr, b, ctx);
    let ty = b.temp_ty_or(t, expr.ty());
    as_bool(t, &ty, b)
}

/// What `lower_scoped_cond` does to the state, where `l` lowers the expressions inside.
#[verifier::opaque]
pub open spec fn lower_scoped_cond_spec(l: Lower, expr: &TypedExpr, s: St) -> (St, Temp) {
    let s = on_b(s, s.b.push_scope());
    let (s, t) = lower_cond_as_bool_spec(l, expr, s);
    let s = on_b(s, s.b.pop_scope_releasing_keep(&one(t)));
    (s, t)
}

/// Lowers a condition in a scope of its own, of which nothing but the truth value is left.
pub fn lower_scoped_cond(expr: &TypedExpr, b: &mut FuncBuilder, ctx: &mut LowerCtx) -> (r: Temp)
    ensures
        (st(final(b), final(ctx)), r) == lower_scoped_cond_spec(
            lower_at(old(ctx).room.left()),
            expr,
            st(old(b), old(ctx)),
        ),
        ran(*old(b), *old(ctx), *final(b), *final(ctx)),
        valid(st(old(b), old(ctx)))
            ==> valid(st(final(b), final(ctx))) && temp_ok(r, final(b)@.temp_types.len()),
    decreases old(ctx).room.left(), 2nat, 0nat,
{
    reveal(lower_scoped_cond_spec);
    b.push_scope();
    let t = lower_cond_as_bool(expr, b, ctx);
    b.pop_scope_releasing_keep(&one(t));
    t
}

/// What `lower_short_circuit` does to the state, where `l` lowers the expressions inside.
#[verifier::opaque]
pub open spec fn lower_short_circuit_spec(
    l: Lower,
    left: &TypedExpr,
    op: BinOp,
    right: &TypedExpr,
    result_type: &Type,
    s: St,
) -> (St, Temp) {
    let (s, lhs) = lower_cond_as_bool_spec(l, left, s);
    let lhs_block = s.b.env.current_block;
    let (s, rhs_block) = on(s, s.b.alloc_block("sc_rhs"));
    let (s, merge) = on(s, s.b.alloc_block("sc_merge"));
    let s = if op == BinOp::And {
        on_b(
            s,
            s.b.terminate(
                Terminator::CondJump { cond: lhs, then_block: rhs_block, else_block: merge },
            ),
        )
    } else {
        on_b(
            s,
            s.b.terminate(
                Terminator::CondJump { cond: lhs, then_block: merge, else_block: rhs_block },
            ),
        )
    };
    let s = on_b(s, s.b.switch_to(rhs_block));
    let (s, rhs) = lower_scoped_cond_spec(l, right, s);
    let rhs_end = s.b.env.current_block;
    let s = on_b(s, s.b.terminate(Terminator::Jump(merge)));
    let s = on_b(s, s.b.switch_to(merge));
    let (s, dst) = on(s, s.b.alloc_temp(result_type.dup()));
    let s = on_b(
        s,
        s.b.emit(
            Instruction::Phi {
                dst,
                ty: result_type.dup(),
                incomings: two(
                    Incoming { val: lhs, pred: lhs_block },
                    Incoming { val: rhs, pred: rhs_end },
                ),
            },
        ),
    );
    (s, dst)
}

/// Lowers `and` and `or`: the right operand runs only where the left one leaves the result
/// open.
pub fn lower_short_circuit(
    left: &TypedExpr,
    op: BinOp,
    right: &TypedExpr,
    result_type: &Type,
    b: &mut FuncBuilder,
    ctx: &mut LowerCtx,
) -> (r: Temp)
    ensures
        (st(final(b), final(ctx)), r) == lower_short_circuit_spec(
            lower_at(old(ctx).room.left()),
            left,
            op,
            right,
            result_type,
            st(old(b), old(ctx)),
        ),
        ran(*old(b), *old(ctx), *final(b), *final(ctx)),
        valid(st(old(b), old(ctx)))
            ==> valid(st(final(b), final(ctx))) && temp_ok(r, final(b)@.temp_types.len()),
    decreases old(ctx).room.left(), 3nat, 0nat,
{
    reveal(lower_short_circuit_spec);
    let lhs = lower_cond_as_bool(left, b, ctx);
    let lhs_block = b.env.current_block;
    let rhs_block = b.alloc_block("sc_rhs");
    let merge = b.alloc_block("sc_merge");
    if op == BinOp::And {
        b.terminate(Terminator::CondJump { cond: lhs, then_block: rhs_block, else_block: merge });
    } else {
        b.terminate(Terminator::CondJump { cond: lhs, then_block: merge, else_block: rhs_block });
    }
    b.switch_to(rhs_block);
    let rhs = lower_scoped_cond(right, b, ctx);
    let rhs_end = b.env.current_block;
    b.terminate(Terminator::Jump(merge));
    b.switch_to(merge);
    let dst = b.alloc_temp(result_type.dup());
    b.emit(
        Instruction::Phi {
            dst,
            ty: result_type.dup(),
            incomings: two(
                Incoming { val: lhs, pred: lhs_block },
                Incoming { val: rhs, pred: rhs_end },
            ),
        },
    );
    dst
}

/// The end of a branch: what holds the variables there, the block, the value of the branch
/// and whether it has a reference of its own.
pub struct BranchEnd {
    pub slots: List<Entry<Temp>>,
    pub pred: BlockId,
    pub val: Temp,
    pub owned: bool,
}

/// What `lower_branch` does to the state, where `l` lowers the expressions inside.
#[verifier::opaque]
pub open spec fn lower_branch_spec(
    l: Lower,
    expr: &TypedExpr,
    block: BlockId,
    merge: BlockId,
    result_type: &Type,
    s: St,
) -> (St, Option<BranchEnd>) {
    let s = on_b(s, s.b.switch_to(block));
    let s = on_b(s, s.b.push_scope());
    let (s, raw) = low(l, expr, s);
    if s.b.is_terminated() {
        let s = on_b(s, s.b.pop_scope_releasing_keep(&List::Nil));
        (s, None)
    } else {
        let value_ty = s.b.temp_ty_or(raw, expr.ty());
        let (s, br) = on(s, coerce_if_branch_spec(raw, &value_ty, result_type, s.b));
        let s = on_b(s, s.b.pop_scope_releasing_keep(&br.keep));
        let pred = s.b.env.current_block;
        let s = on_b(s, s.b.terminate(Terminator::Jump(merge)));
        (s, Some(BranchEnd { slots: s.b.env.slots.dup(), pred, val: br.val, owned: br.owned }))
    }
}

/// Lowers a branch in `block` to the type of the whole and goes to `merge`. `None` where
/// control does not reach the end of the branch.
pub fn lower_branch(
    expr: &TypedExpr,
    block: BlockId,
    merge: BlockId,
    result_type: &Type,
    b: &mut FuncBuilder,
    ctx: &mut LowerCtx,
) -> (r: Option<BranchEnd>)
    ensures
        (st(final(b), final(ctx)), r) == lower_branch_spec(
            lower_at(old(ctx).room.left()),
            expr,
            block,
            merge,
            result_type,
            st(old(b), old(ctx)),
        ),
        ran(*old(b), *old(ctx), *final(b), *final(ctx)),
        valid(st(old(b), old(ctx)))
            && block.0 < old(b)@.blocks.len()
            && merge.0 < old(b)@.blocks.len()
            ==> valid(st(final(b), final(ctx)))
                && (r is Some ==> r->0.pred.0 < final(b)@.blocks.len())
                && (r is Some ==> branch_end_ok(&r->0, final(b)@.temp_types.len())),
    decreases old(ctx).room.left(), 1nat, 0nat,
{
    reveal(lower_branch_spec);
    b.switch_to(block);
    b.push_scope();
    let raw = lower_expr(expr, b, ctx);
    if b.is_current_block_terminated() {
        b.pop_scope_releasing_keep(&List::Nil);
        return None;
    }
    let value_ty = b.temp_ty_or(raw, expr.ty());
    let br = coerce_if_branch(raw, &value_ty, result_type, b);
    b.pop_scope_releasing_keep(&br.keep);
    let pred = b.env.current_block;
    b.terminate(Terminator::Jump(merge));
    Some(BranchEnd { slots: b.env.slots.dup(), pred, val: br.val, owned: br.owned })
}

/// The temporary that holds the variable, or `other`.
pub open spec fn slot_or_spec(l: &List<Entry<Temp>>, slot: usize, other: Temp) -> Temp
    decreases l,
{
    match l {
        List::Nil => other,
        List::Cons(n) => if n.head.slot == slot {
            n.head.value
        } else {
            slot_or(&n.tail, slot, other)
        },
    }
}

/// The temporary that holds the variable, or `other`.
#[verifier::when_used_as_spec(slot_or_spec)]
pub fn slot_or(l: &List<Entry<Temp>>, slot: usize, other: Temp) -> (r: Temp)
    ensures
        r == slot_or_spec(l, slot, other),
        forall|n: nat| #[trigger] slots_ok(l, n) && temp_ok(other, n) ==> temp_ok(r, n),
    decreases l,
{
    proof {
        assert forall|n: nat| #[trigger] slots_ok(l, n) implies (match l {
            List::Nil => true,
            List::Cons(k) => slots_ok(&k.tail, n),
        }) by {
            slots_tail(l, n);
        }
    }
    match l {
        List::Nil => other,
        List::Cons(n) => if n.head.slot == slot {
            n.head.value
        } else {
            slot_or(&n.tail, slot, other)
        },
    }
}

/// The list holds the variable.
pub open spec fn holds_slot_spec(l: &List<Entry<Temp>>, slot: usize) -> bool
    decreases l,
{
    match l {
        List::Nil => false,
        List::Cons(n) => n.head.slot == slot || holds_slot(&n.tail, slot),
    }
}

/// Whether the list holds the variable.
#[verifier::when_used_as_spec(holds_slot_spec)]
pub fn holds_slot(l: &List<Entry<Temp>>, slot: usize) -> (r: bool)
    ensures
        r == holds_slot_spec(l, slot),
    decreases l,
{
    match l {
        List::Nil => false,
        List::Cons(n) => n.head.slot == slot || holds_slot(&n.tail, slot),
    }
}

/// The variable is held by `first` at the end of every branch.
pub open spec fn ends_agree_spec(
    ends: &List<BranchEnd>,
    slot: usize,
    before: Temp,
    first: Temp,
) -> bool
    decreases ends,
{
    match ends {
        List::Nil => true,
        List::Cons(n) => {
            slot_or(&n.head.slots, slot, before) == first
                && ends_agree(&n.tail, slot, before, first)
        },
    }
}

/// Whether the variable is held by `first` at the end of every branch.
#[verifier::when_used_as_spec(ends_agree_spec)]
pub fn ends_agree(ends: &List<BranchEnd>, slot: usize, before: Temp, first: Temp) -> (r: bool)
    ensures
        r == ends_agree_spec(ends, slot, before, first),
    decreases ends,
{
    match ends {
        List::Nil => true,
        List::Cons(n) => slot_or(&n.head.slots, slot, before) == first
            && ends_agree(&n.tail, slot, before, first),
    }
}

/// What holds the variable at the end of each branch.
pub open spec fn slot_incomings_spec(
    ends: &List<BranchEnd>,
    slot: usize,
    before: Temp,
) -> List<Incoming>
    decreases ends,
{
    match ends {
        List::Nil => List::Nil,
        List::Cons(n) => {
            prepend(
                Incoming { val: slot_or(&n.head.slots, slot, before), pred: n.head.pred },
                slot_incomings(&n.tail, slot, before),
            )
        },
    }
}

/// What holds the variable at the end of each branch.
#[verifier::when_used_as_spec(slot_incomings_spec)]
pub fn slot_incomings(ends: &List<BranchEnd>, slot: usize, before: Temp) -> (r: List<Incoming>)
    ensures
        r == slot_incomings_spec(ends, slot, before),
        forall|n: nat| ends_ok(ends, n) && temp_ok(before, n) ==> #[trigger] incomings_ok(&r, n),
        forall|m: nat| end_preds_ok(ends, m) ==> #[trigger] preds_ok(&r, m),
    decreases ends,
{
    proof {
        assert forall|n: nat| #[trigger] ends_ok(ends, n) implies (match ends {
            List::Nil => true,
            List::Cons(k) => ends_ok(&k.tail, n),
        }) by {
            ends_tail(ends, n);
        }
    }
    proof {
        assert forall|m: nat| #[trigger] end_preds_ok(ends, m) implies (match ends {
            List::Nil => true,
            List::Cons(k) => end_preds_ok(&k.tail, m),
        }) by {
            end_preds_tail(ends, m);
        }
    }
    match ends {
        List::Nil => List::Nil,
        List::Cons(n) => prepend(
            Incoming { val: slot_or(&n.head.slots, slot, before), pred: n.head.pred },
            slot_incomings(&n.tail, slot, before),
        ),
    }
}

/// The values of the branches.
pub open spec fn value_incomings_spec(ends: &List<BranchEnd>) -> List<Incoming>
    decreases ends,
{
    match ends {
        List::Nil => List::Nil,
        List::Cons(n) => {
            prepend(Incoming { val: n.head.val, pred: n.head.pred }, value_incomings(&n.tail))
        },
    }
}

/// The values of the branches.
#[verifier::when_used_as_spec(value_incomings_spec)]
pub fn value_incomings(ends: &List<BranchEnd>) -> (r: List<Incoming>)
    ensures
        r == value_incomings_spec(ends),
        forall|n: nat| ends_ok(ends, n) ==> #[trigger] incomings_ok(&r, n),
        forall|m: nat| end_preds_ok(ends, m) ==> #[trigger] preds_ok(&r, m),
    decreases ends,
{
    proof {
        assert forall|n: nat| #[trigger] ends_ok(ends, n) implies (match ends {
            List::Nil => true,
            List::Cons(k) => ends_ok(&k.tail, n),
        }) by {
            ends_tail(ends, n);
        }
    }
    proof {
        assert forall|m: nat| #[trigger] end_preds_ok(ends, m) implies (match ends {
            List::Nil => true,
            List::Cons(k) => end_preds_ok(&k.tail, m),
        }) by {
            end_preds_tail(ends, m);
        }
    }
    match ends {
        List::Nil => List::Nil,
        List::Cons(n) => prepend(
            Incoming { val: n.head.val, pred: n.head.pred },
            value_incomings(&n.tail),
        ),
    }
}

/// The value of some branch has a reference of its own.
pub open spec fn some_end_owned_spec(ends: &List<BranchEnd>) -> bool
    decreases ends,
{
    match ends {
        List::Nil => false,
        List::Cons(n) => n.head.owned || some_end_owned(&n.tail),
    }
}

/// Whether the value of some branch has a reference of its own.
#[verifier::when_used_as_spec(some_end_owned_spec)]
pub fn some_end_owned(ends: &List<BranchEnd>) -> (r: bool)
    ensures
        r == some_end_owned_spec(ends),
    decreases ends,
{
    match ends {
        List::Nil => false,
        List::Cons(n) => n.head.owned || some_end_owned(&n.tail),
    }
}

/// What `merge_slot` does to the function under construction.
#[verifier::opaque]
pub open spec fn merge_slot_spec(
    slot: usize,
    before: Temp,
    ends: &List<BranchEnd>,
    b: FState,
) -> FState {
    match ends {
        List::Nil => b,
        List::Cons(e) => {
            let first = slot_or(&e.head.slots, slot, before);
            if ends_agree(ends, slot, before, first) {
                if first != before {
                    b.set_slot(slot, first)
                } else {
                    b
                }
            } else {
                let ty = b.temp_ty_or(first, Type::Null);
                let (b, dst) = b.alloc_temp(ty.dup());
                let b = b.emit(
                    Instruction::Phi {
                        dst,
                        ty: ty.dup(),
                        incomings: slot_incomings(ends, slot, before),
                    },
                );
                b.set_slot(slot, dst)
            }
        },
    }
}

/// Joins a variable behind the branches: where they leave it in different temporaries, a new
/// one holds it.
pub fn merge_slot(slot: usize, before: Temp, ends: &List<BranchEnd>, b: &mut FuncBuilder)
    ensures
        final(b)@ == merge_slot_spec(slot, before, ends, old(b)@),
        grown(old(b)@, final(b)@, 0),
        old(b)@.wf()
            && temp_ok(before, old(b)@.temp_types.len())
            && ends_ok(ends, old(b)@.temp_types.len())
            && end_preds_ok(ends, old(b)@.blocks.len())
            ==> final(b)@.wf(),
{
    reveal(merge_slot_spec);
    match ends {
        List::Nil => {},
        List::Cons(e) => {
            let first = slot_or(&e.head.slots, slot, before);
            if ends_agree(ends, slot, before, first) {
                if first != before {
                    b.set_slot(slot, first);
                }
            } else {
                let ty = b.temp_ty_or(first, Type::Null);
                let dst = b.alloc_temp(ty.dup());
                b.emit(
                    Instruction::Phi {
                        dst,
                        ty: ty.dup(),
                        incomings: slot_incomings(ends, slot, before),
                    },
                );
                b.set_slot(slot, dst);
            }
        },
    }
}

/// What `merge_slots` does to the function under construction.
#[verifier::opaque]
pub open spec fn merge_slots_spec(
    outer: &List<Entry<Temp>>,
    all: &List<Entry<Temp>>,
    ends: &List<BranchEnd>,
    b: FState,
) -> FState
    decreases outer,
{
    match outer {
        List::Nil => b,
        List::Cons(n) => {
            let b = merge_slots_spec(&n.tail, all, ends, b);
            if !holds_slot(&n.tail, n.head.slot) {
                let before = slot_or(all, n.head.slot, n.head.value);
                merge_slot_spec(n.head.slot, before, ends, b)
            } else {
                b
            }
        },
    }
}

/// Joins the variables behind the branches; each variable of `outer`, all of them being in
/// `all`, once.
pub fn merge_slots(
    outer: &List<Entry<Temp>>,
    all: &List<Entry<Temp>>,
    ends: &List<BranchEnd>,
    b: &mut FuncBuilder,
)
    ensures
        final(b)@ == merge_slots_spec(outer, all, ends, old(b)@),
        grown(old(b)@, final(b)@, 0),
        old(b)@.wf()
            && slots_ok(outer, old(b)@.temp_types.len())
            && slots_ok(all, old(b)@.temp_types.len())
            && ends_ok(ends, old(b)@.temp_types.len())
            && end_preds_ok(ends, old(b)@.blocks.len())
            ==> final(b)@.wf(),
    decreases outer,
{
    reveal(merge_slots_spec);
    proof {
        slots_tail(outer, old(b)@.temp_types.len());
        slots_tail(all, old(b)@.temp_types.len());
        ends_tail(ends, old(b)@.temp_types.len());
    }
    match outer {
        List::Nil => {},
        List::Cons(n) => {
            merge_slots(&n.tail, all, ends, b);
            if !holds_slot(&n.tail, n.head.slot) {
                let before = slot_or(all, n.head.slot, n.head.value);
                merge_slot(n.head.slot, before, ends, b);
            }
        },
    }
}

/// What `join_branches` does to the function under construction.
#[verifier::opaque]
pub open spec fn join_branches_spec(
    outer: &List<Entry<Temp>>,
    ends: &List<BranchEnd>,
    result_type: &Type,
    b: FState,
) -> (FState, Temp) {
    let b = b.set_slots(outer.dup());
    let (b, dst) = b.alloc_temp(result_type.dup());
    let b = if !ends.is_empty() {
        b.emit(Instruction::Phi { dst, ty: result_type.dup(), incomings: value_incomings(ends) })
    } else {
        b
    };
    let b = merge_slots_spec(outer, outer, ends, b);
    let b = if some_end_owned(ends) {
        b.register_owned(dst, result_type.dup())
    } else {
        b
    };
    (b, dst)
}

/// Joins the branches in the current block: the values first, then the variables.
pub fn join_branches(
    outer: &List<Entry<Temp>>,
    ends: &List<BranchEnd>,
    result_type: &Type,
    b: &mut FuncBuilder,
) -> (r: Temp)
    ensures
        (final(b)@, r) == join_branches_spec(outer, ends, result_type, old(b)@),
        grown(old(b)@, final(b)@, 0),
        old(b)@.wf()
            && slots_ok(outer, old(b)@.temp_types.len())
            && ends_ok(ends, old(b)@.temp_types.len())
            && end_preds_ok(ends, old(b)@.blocks.len())
            ==> final(b)@.wf() && temp_ok(r, final(b)@.temp_types.len()),
{
    reveal(join_branches_spec);
    b.set_slots(outer.dup());
    let dst = b.alloc_temp(result_type.dup());
    if !ends.is_empty() {
        b.emit(Instruction::Phi { dst, ty: result_type.dup(), incomings: value_incomings(ends) });
    }
    merge_slots(outer, outer, ends, b);
    if some_end_owned(ends) {
        b.register_owned(dst, result_type.dup());
    }
    dst
}

/// The ends that are there.
pub open spec fn end_list_spec(end: Option<BranchEnd>, rest: List<BranchEnd>) -> List<BranchEnd> {
    match end {
        Some(e) => prepend(e, rest),
        None => rest,
    }
}

/// The ends that are there.
#[verifier::when_used_as_spec(end_list_spec)]
pub fn end_list(end: Option<BranchEnd>, rest: List<BranchEnd>) -> (r: List<BranchEnd>)
    ensures
        r == end_list_spec(end, rest),
        forall|n: nat|
            (end is Some ==> branch_end_ok(&end->0, n)) && ends_ok(&rest, n)
                ==> #[trigger] ends_ok(&r, n),
        forall|m: nat|
            (end is Some ==> end->0.pred.0 < m) && end_preds_ok(&rest, m)
                ==> #[trigger] end_preds_ok(&r, m),
{
    match end {
        Some(e) => prepend(e, rest),
        None => rest,
    }
}

/// What `lower_if` does to the state, where `l` lowers the expressions inside.
#[verifier::opaque]
pub open spec fn lower_if_spec(
    l: Lower,
    cond: &TypedExpr,
    then_br: &TypedExpr,
    else_br: &TypedExpr,
    result_type: &Type,
    s: St,
) -> (St, Temp) {
    let (s, c) = lower_cond_as_bool_spec(l, cond, s);
    let (s, then_block) = on(s, s.b.alloc_block("if_then"));
    let (s, else_block) = on(s, s.b.alloc_block("if_else"));
    let (s, merge) = on(s, s.b.alloc_block("if_merge"));
    let s = on_b(s, s.b.terminate(Terminator::CondJump { cond: c, then_block, else_block }));
    let outer = s.b.env.slots.dup();
    let (s, then_end) = lower_branch_spec(l, then_br, then_block, merge, result_type, s);
    let s = on_b(s, s.b.set_slots(outer.dup()));
    let (s, else_end) = lower_branch_spec(l, else_br, else_block, merge, result_type, s);
    let s = on_b(s, s.b.switch_to(merge));
    let ends = end_list(then_end, end_list(else_end, List::Nil));
    on(s, join_branches_spec(&outer, &ends, result_type, s.b))
}

/// Lowers `if` as an expression. Both branches are converted to the type of the whole.
pub fn lower_if(
    cond: &TypedExpr,
    then_br: &TypedExpr,
    else_br: &TypedExpr,
    result_type: &Type,
    b: &mut FuncBuilder,
    ctx: &mut LowerCtx,
) -> (r: Temp)
    ensures
        (st(final(b), final(ctx)), r) == lower_if_spec(
            lower_at(old(ctx).room.left()),
            cond,
            then_br,
            else_br,
            result_type,
            st(old(b), old(ctx)),
        ),
        ran(*old(b), *old(ctx), *final(b), *final(ctx)),
        valid(st(old(b), old(ctx)))
            ==> valid(st(final(b), final(ctx))) && temp_ok(r, final(b)@.temp_types.len()),
    decreases old(ctx).room.left(), 2nat, 0nat,
{
    reveal(lower_if_spec);
    let c = lower_cond_as_bool(cond, b, ctx);
    let then_block = b.alloc_block("if_then");
    let else_block = b.alloc_block("if_else");
    let merge = b.alloc_block("if_merge");
    b.terminate(Terminator::CondJump { cond: c, then_block, else_block });
    let outer = b.env.slots.dup();
    let then_end = lower_branch(then_br, then_block, merge, result_type, b, ctx);
    b.set_slots(outer.dup());
    let else_end = lower_branch(else_br, else_block, merge, result_type, b, ctx);
    b.switch_to(merge);
    let ends = end_list(then_end, end_list(else_end, List::Nil));
    join_branches(&outer, &ends, result_type, b)
}

/// The type that a pattern asks for, and where the pattern stands. A pattern that asks for
/// no one type has the type without values.
pub struct TypeAt {
    pub ty: Type,
    pub span: Span,
}

/// The type that a pattern asks for, and where it stands.
pub open spec fn pattern_type_check_spec(pattern: &TypedPattern) -> TypeAt {
    match pattern {
        TypedPattern::TypeCheck(ty, span) => TypeAt { ty: ty.dup(), span: *span },
        TypedPattern::TypeCheckDeep(ty, _, span) => TypeAt { ty: ty.dup(), span: *span },
        TypedPattern::Binding(_, ty, span) => TypeAt { ty: ty.dup(), span: *span },
        TypedPattern::Wildcard(span) => TypeAt { ty: Type::Never, span: *span },
        TypedPattern::Literal(e) => TypeAt { ty: e.ty(), span: e.span() },
        TypedPattern::Object { span, .. } => TypeAt { ty: Type::Never, span: *span },
        TypedPattern::Array { span } => TypeAt { ty: Type::Never, span: *span },
    }
}

/// The type that a pattern asks for, and where the pattern stands.
#[verifier::when_used_as_spec(pattern_type_check_spec)]
pub fn pattern_type_check(pattern: &TypedPattern) -> (r: TypeAt)
    ensures
        r == pattern_type_check_spec(pattern),
{
    match pattern {
        TypedPattern::TypeCheck(ty, span) => TypeAt { ty: ty.dup(), span: *span },
        TypedPattern::TypeCheckDeep(ty, _, span) => TypeAt { ty: ty.dup(), span: *span },
        TypedPattern::Binding(_, ty, span) => TypeAt { ty: ty.dup(), span: *span },
        TypedPattern::Wildcard(span) => TypeAt { ty: Type::Never, span: *span },
        TypedPattern::Literal(e) => TypeAt { ty: e.ty(), span: e.span() },
        TypedPattern::Object { span, .. } => TypeAt { ty: Type::Never, span: *span },
        TypedPattern::Array { span } => TypeAt { ty: Type::Never, span: *span },
    }
}

/// The names of the fields.
pub open spec fn field_keys_spec(fields: &List<PatternField>) -> List<String>
    decreases fields,
{
    match fields {
        List::Nil => List::Nil,
        List::Cons(n) => prepend(dup_str(&n.head.key), field_keys(&n.tail)),
    }
}

/// The names of the fields.
#[verifier::when_used_as_spec(field_keys_spec)]
pub fn field_keys(fields: &List<PatternField>) -> (r: List<String>)
    ensures
        r == field_keys_spec(fields),
    decreases fields,
{
    match fields {
        List::Nil => List::Nil,
        List::Cons(n) => prepend(dup_str(&n.head.key), field_keys(&n.tail)),
    }
}

/// The fields that a record pattern asks for.
pub open spec fn pattern_required_fields_spec(pattern: &TypedPattern) -> List<String> {
    match pattern {
        TypedPattern::Object { fields, .. } => field_keys(fields),
        _ => List::Nil,
    }
}

/// The fields that a record pattern asks for; none for another pattern.
#[verifier::when_used_as_spec(pattern_required_fields_spec)]
pub fn pattern_required_fields(pattern: &TypedPattern) -> (r: List<String>)
    ensures
        r == pattern_required_fields_spec(pattern),
{
    match pattern {
        TypedPattern::Object { fields, .. } => field_keys(fields),
        _ => List::Nil,
    }
}

/// What `test_fixed_fields` does to the function under construction.
#[verifier::opaque]
pub open spec fn test_fixed_fields_spec(
    fields: &List<PatternField>,
    val: Temp,
    so_far: Temp,
    b: FState,
) -> (FState, Temp)
    decreases fields,
{
    match fields {
        List::Nil => (b, so_far),
        List::Cons(n) => match &n.head.equals {
            Some(text) => {
                let (b, cond) = field_equals_spec(val, &n.head.key, text, b);
                let (b, both) = b.binary(BinOp::And, so_far, cond, &Type::Bool, &Type::Bool);
                test_fixed_fields_spec(&n.tail, val, both, b)
            },
            None => test_fixed_fields_spec(&n.tail, val, so_far, b),
        },
    }
}

/// Tests, where `so_far` holds, whether the fields are the strings that the pattern asks
/// for.
pub fn test_fixed_fields(
    fields: &List<PatternField>,
    val: Temp,
    so_far: Temp,
    b: &mut FuncBuilder,
) -> (r: Temp)
    ensures
        (final(b)@, r) == test_fixed_fields_spec(fields, val, so_far, old(b)@),
        grown(old(b)@, final(b)@, 0),
        old(b)@.wf()
            && temp_ok(val, old(b)@.temp_types.len())
            && temp_ok(so_far, old(b)@.temp_types.len())
            ==> final(b)@.wf() && temp_ok(r, final(b)@.temp_types.len()),
    decreases fields,
{
    reveal(test_fixed_fields_spec);
    match fields {
        List::Nil => so_far,
        List::Cons(n) => match &n.head.equals {
            Some(text) => {
                let cond = field_equals(val, &n.head.key, text, b);
                let both = b.binary(BinOp::And, so_far, cond, &Type::Bool, &Type::Bool);
                test_fixed_fields(&n.tail, val, both, b)
            },
            None => test_fixed_fields(&n.tail, val, so_far, b),
        },
    }
}

/// What `field_equals` does to the function under construction.
#[verifier::opaque]
pub open spec fn field_equals_spec(
    val: Temp,
    key: &String,
    text: &String,
    b: FState,
) -> (FState, Temp) {
    let (b, key_t) = b.const_temp(Const::Str(Text::Owned(dup_str(key))));
    let (b, field) = b.index(val, key_t, &json(), &Type::Str, &json(), false);
    let (b, text_t) = b.const_temp(Const::Str(Text::Owned(dup_str(text))));
    b.binary(BinOp::Eq, field, text_t, &json(), &Type::Bool)
}

/// Tests whether a field of a boxed record is a string.
pub fn field_equals(val: Temp, key: &String, text: &String, b: &mut FuncBuilder) -> (r: Temp)
    ensures
        (final(b)@, r) == field_equals_spec(val, key, text, old(b)@),
        grown(old(b)@, final(b)@, 0),
        old(b)@.wf() && temp_ok(val, old(b)@.temp_types.len())
            ==> final(b)@.wf() && temp_ok(r, final(b)@.temp_types.len()),
{
    reveal(field_equals_spec);
    let key_t = b.const_temp(Const::Str(Text::Owned(dup_str(key))));
    let field = b.index(val, key_t, &json(), &Type::Str, &json(), false);
    let text_t = b.const_temp(Const::Str(Text::Owned(dup_str(text))));
    b.binary(BinOp::Eq, field, text_t, &json(), &Type::Bool)
}

/// What `lower_object_pattern_test` does to the function under construction.
#[verifier::opaque]
pub open spec fn lower_object_pattern_test_spec(
    fields: &List<PatternField>,
    val: Temp,
    b: FState,
) -> (FState, Option<Temp>) {
    if fields.is_empty() {
        (b, None)
    } else {
        let (b, dst) = b.alloc_temp(Type::Bool);
        let b = b.emit(Instruction::HasPattern { dst, val, required_fields: field_keys(fields) });
        let (b, t) = test_fixed_fields_spec(fields, val, dst, b);
        (b, Some(t))
    }
}

/// Tests a boxed value against a record pattern: the fields are there, and those that the
/// pattern fixes are the strings it asks for. `None` where the pattern asks for nothing.
pub fn lower_object_pattern_test(
    fields: &List<PatternField>,
    val: Temp,
    b: &mut FuncBuilder,
) -> (r: Option<Temp>)
    ensures
        (final(b)@, r) == lower_object_pattern_test_spec(fields, val, old(b)@),
        grown(old(b)@, final(b)@, 0),
        old(b)@.wf() && temp_ok(val, old(b)@.temp_types.len())
            ==> final(b)@.wf() && otemp_ok(r, final(b)@.temp_types.len()),
{
    reveal(lower_object_pattern_test_spec);
    if fields.is_empty() {
        return None;
    }
    let dst = b.alloc_temp(Type::Bool);
    b.emit(Instruction::HasPattern { dst, val, required_fields: field_keys(fields) });
    let t = test_fixed_fields(fields, val, dst, b);
    Some(t)
}

/// The field and the string by which a variant of a sum type is told from the others.
pub struct Discriminator {
    pub key: String,
    pub tag: String,
}

/// The definition of a named type.
pub open spec fn named_def_spec(defs: &List<NamedDef>, name: &String) -> Option<Type>
    decreases defs,
{
    match defs {
        List::Nil => None,
        List::Cons(n) => if same_name(&n.head.name, name) {
            Some(n.head.ty.dup())
        } else {
            named_def(&n.tail, name)
        },
    }
}

/// The definition of a named type.
#[verifier::when_used_as_spec(named_def_spec)]
pub fn named_def(defs: &List<NamedDef>, name: &String) -> (r: Option<Type>)
    ensures
        r == named_def_spec(defs, name),
    decreases defs,
{
    match defs {
        List::Nil => None,
        List::Cons(n) => if same_name(&n.head.name, name) {
            Some(n.head.ty.dup())
        } else {
            named_def(&n.tail, name)
        },
    }
}

/// The string to which a field of the record type is fixed.
pub open spec fn fixed_field_spec(ty: &Type, key: &String) -> Option<String> {
    match ty {
        Type::Object { fields, .. } => match field_type(fields, key) {
            Some(Type::StrLit(text)) => Some(text),
            _ => None,
        },
        _ => None,
    }
}

/// The string to which a field of the record type is fixed.
#[verifier::when_used_as_spec(fixed_field_spec)]
pub fn fixed_field(ty: &Type, key: &String) -> (r: Option<String>)
    ensures
        r == fixed_field_spec(ty, key),
{
    match ty {
        Type::Object { fields, .. } => match field_type(fields, key) {
            Some(Type::StrLit(text)) => Some(text),
            _ => None,
        },
        _ => None,
    }
}

/// How a value of a sum type is told to be of the target variant.
pub open spec fn union_discriminator_spec(
    val_ty: &Type,
    target: &Type,
    named_defs: &List<NamedDef>,
) -> Option<Discriminator> {
    match sum_type_discriminant_of(val_ty) {
        None => None,
        Some(key) => {
            let tag = match target {
                Type::Named(name) => match named_def(named_defs, name) {
                    Some(def) => fixed_field(&def, &key),
                    None => None,
                },
                _ => fixed_field(target, &key),
            };
            match tag {
                Some(text) => Some(Discriminator { key, tag: text }),
                None => None,
            }
        },
    }
}

/// How a value of a sum type is told to be of the target variant, which may be named.
#[verifier::when_used_as_spec(union_discriminator_spec)]
pub fn union_discriminator(
    val_ty: &Type,
    target: &Type,
    named_defs: &List<NamedDef>,
) -> (r: Option<Discriminator>)
    ensures
        r == union_discriminator_spec(val_ty, target, named_defs),
{
    match sum_type_discriminant_of(val_ty) {
        None => None,
        Some(key) => {
            let tag = match target {
                Type::Named(name) => match named_def(named_defs, name) {
                    Some(def) => fixed_field(&def, &key),
                    None => None,
                },
                _ => fixed_field(target, &key),
            };
            match tag {
                Some(text) => Some(Discriminator { key, tag: text }),
                None => None,
            }
        },
    }
}

/// What `lower_is_pattern` does to the function under construction.
#[verifier::opaque]
pub open spec fn lower_is_pattern_spec(
    pattern: &TypedPattern,
    val: Temp,
    val_ty: &Type,
    b: FState,
) -> (FState, Option<Temp>) {
    match pattern {
        TypedPattern::Object { fields, .. } => lower_object_pattern_test_spec(fields, val, b),
        TypedPattern::TypeCheckDeep(target, named_defs, _) => {
            match union_discriminator(val_ty, target, named_defs) {
                Some(disc) => {
                    let (b, t) = field_equals_spec(val, &disc.key, &disc.tag, b);
                    (b, Some(t))
                },
                None => {
                    let (b, dst) = b.alloc_temp(Type::Bool);
                    let b = b.emit(
                        Instruction::MatchesSchema {
                            dst,
                            val,
                            target: target.dup(),
                            named_defs: named_defs.dup(),
                        },
                    );
                    (b, Some(dst))
                },
            }
        },
        _ => {
            let (b, dst) = b.alloc_temp(Type::Bool);
            let b = b.emit(Instruction::IsType { dst, val, ty: pattern_type_check(pattern).ty });
            (b, Some(dst))
        },
    }
}

/// Tests a boxed value against a pattern that binds nothing. `None` where it always matches.
pub fn lower_is_pattern(
    pattern: &TypedPattern,
    val: Temp,
    val_ty: &Type,
    b: &mut FuncBuilder,
) -> (r: Option<Temp>)
    ensures
        (final(b)@, r) == lower_is_pattern_spec(pattern, val, val_ty, old(b)@),
        grown(old(b)@, final(b)@, 0),
        old(b)@.wf() && temp_ok(val, old(b)@.temp_types.len())
            ==> final(b)@.wf() && otemp_ok(r, final(b)@.temp_types.len()),
{
    reveal(lower_is_pattern_spec);
    match pattern {
        TypedPattern::Object { fields, .. } => lower_object_pattern_test(fields, val, b),
        TypedPattern::TypeCheckDeep(target, named_defs, _) => {
            match union_discriminator(val_ty, target, named_defs) {
                Some(disc) => {
                    let t = field_equals(val, &disc.key, &disc.tag, b);
                    Some(t)
                },
                None => {
                    let dst = b.alloc_temp(Type::Bool);
                    b.emit(
                        Instruction::MatchesSchema {
                            dst,
                            val,
                            target: target.dup(),
                            named_defs: named_defs.dup(),
                        },
                    );
                    Some(dst)
                },
            }
        },
        _ => {
            let dst = b.alloc_temp(Type::Bool);
            b.emit(Instruction::IsType { dst, val, ty: pattern_type_check(pattern).ty });
            Some(dst)
        },
    }
}

/// What `lower_is` does to the state, where `l` lowers the expressions inside.
#[verifier::opaque]
pub open spec fn lower_is_spec(
    l: Lower,
    expr: &TypedExpr,
    pattern: &TypedPattern,
    s: St,
) -> (St, Temp) {
    let val_ty = expr.ty();
    let (s, raw) = low(l, expr, s);
    let (s, val) = on(s, box_to_json_spec(raw, &val_ty, s.b));
    let (s, test) = on(s, lower_is_pattern_spec(pattern, val, &val_ty, s.b));
    match test {
        Some(t) => (s, t),
        None => on(s, s.b.const_temp(Const::Bool(true))),
    }
}

/// Lowers an `is` test.
pub fn lower_is(
    expr: &TypedExpr,
    pattern: &TypedPattern,
    b: &mut FuncBuilder,
    ctx: &mut LowerCtx,
) -> (r: Temp)
    ensures
        (st(final(b), final(ctx)), r) == lower_is_spec(
            lower_at(old(ctx).room.left()),
            expr,
            pattern,
            st(old(b), old(ctx)),
        ),
        ran(*old(b), *old(ctx), *final(b), *final(ctx)),
        valid(st(old(b), old(ctx)))
            ==> valid(st(final(b), final(ctx))) && temp_ok(r, final(b)@.temp_types.len()),
    decreases old(ctx).room.left(), 1nat, 0nat,
{
    reveal(lower_is_spec);
    let val_ty = expr.ty();
    let raw = lower_expr(expr, b, ctx);
    let val = box_to_json(raw, &val_ty, b);
    let test = lower_is_pattern(pattern, val, &val_ty, b);
    match test {
        Some(t) => t,
        None => b.const_temp(Const::Bool(true)),
    }
}

/// What `lower_has` does to the state, where `l` lowers the expressions inside.
#[verifier::opaque]
pub open spec fn lower_has_spec(
    l: Lower,
    expr: &TypedExpr,
    pattern: &TypedPattern,
    s: St,
) -> (St, Temp) {
    let val_ty = expr.ty();
    let (s, raw) = low(l, expr, s);
    let (s, val) = if sum_type_eligible(&val_ty) {
        on(s, s.b.coerce(raw, &val_ty, &json()))
    } else {
        on(s, box_to_json_spec(raw, &val_ty, s.b))
    };
    let (s, dst) = on(s, s.b.alloc_temp(Type::Bool));
    let s = on_b(
        s,
        s.b.emit(
            Instruction::HasPattern { dst, val, required_fields: pattern_required_fields(pattern) },
        ),
    );
    (s, dst)
}

/// Lowers a `has` test: whether a value has the fields that the pattern asks for.
pub fn lower_has(
    expr: &TypedExpr,
    pattern: &TypedPattern,
    b: &mut FuncBuilder,
    ctx: &mut LowerCtx,
) -> (r: Temp)
    ensures
        (st(final(b), final(ctx)), r) == lower_has_spec(
            lower_at(old(ctx).room.left()),
            expr,
            pattern,
            st(old(b), old(ctx)),
        ),
        ran(*old(b), *old(ctx), *final(b), *final(ctx)),
        valid(st(old(b), old(ctx)))
            ==> valid(st(final(b), final(ctx))) && temp_ok(r, final(b)@.temp_types.len()),
    decreases old(ctx).room.left(), 1nat, 0nat,
{
    reveal(lower_has_spec);
    let val_ty = expr.ty();
    let raw = lower_expr(expr, b, ctx);
    let val = if sum_type_eligible(&val_ty) {
        b.coerce(raw, &val_ty, &json())
    } else {
        box_to_json(raw, &val_ty, b)
    };
    let dst = b.alloc_temp(Type::Bool);
    b.emit(Instruction::HasPattern { dst, val, required_fields: pattern_required_fields(pattern) });
    dst
}

/// What `lower_arm_test` does to the state, where `l` lowers the expressions inside.
#[verifier::opaque]
pub open spec fn lower_arm_test_spec(
    l: Lower,
    pattern: &TypedPattern,
    raw: Temp,
    val_ty: &Type,
    s: St,
) -> (St, Option<Temp>) {
    match pattern {
        TypedPattern::Wildcard(_) => (s, None),
        TypedPattern::Binding(_, _, _) => (s, None),
        TypedPattern::Literal(e) => {
            let (s, lit) = low(l, e, s);
            let (s, t) = on(s, s.b.binary(BinOp::Eq, raw, lit, val_ty, &Type::Bool));
            (s, Some(t))
        },
        _ => {
            let (s, val) = on(s, box_to_json_spec(raw, val_ty, s.b));
            on(s, lower_is_pattern_spec(pattern, val, val_ty, s.b))
        },
    }
}

/// Tests the value of a `match` against the pattern of an arm. `None` where it always
/// matches.
pub fn lower_arm_test(
    pattern: &TypedPattern,
    raw: Temp,
    val_ty: &Type,
    b: &mut FuncBuilder,
    ctx: &mut LowerCtx,
) -> (r: Option<Temp>)
    ensures
        (st(final(b), final(ctx)), r) == lower_arm_test_spec(
            lower_at(old(ctx).room.left()),
            pattern,
            raw,
            val_ty,
            st(old(b), old(ctx)),
        ),
        ran(*old(b), *old(ctx), *final(b), *final(ctx)),
        valid(st(old(b), old(ctx))) && temp_ok(raw, old(b)@.temp_types.len())
            ==> valid(st(final(b), final(ctx))) && otemp_ok(r, final(b)@.temp_types.len()),
    decreases old(ctx).room.left(), 1nat, 0nat,
{
    reveal(lower_arm_test_spec);
    match pattern {
        TypedPattern::Wildcard(_) => None,
        TypedPattern::Binding(_, _, _) => None,
        TypedPattern::Literal(e) => {
            let lit = lower_expr(e, b, ctx);
            let t = b.binary(BinOp::Eq, raw, lit, val_ty, &Type::Bool);
            Some(t)
        },
        _ => {
            let val = box_to_json(raw, val_ty, b);
            lower_is_pattern(pattern, val, val_ty, b)
        },
    }
}

/// What `bind_pattern` does to the function under construction.
#[verifier::opaque]
pub open spec fn bind_pattern_spec(pattern: &TypedPattern, raw: Temp, b: FState) -> FState {
    match pattern {
        TypedPattern::Binding(slot, _, _) => b.set_slot(*slot, raw),
        _ => b,
    }
}

/// Binds the value of a `match` to the variable of a pattern that binds it.
pub fn bind_pattern(pattern: &TypedPattern, raw: Temp, b: &mut FuncBuilder)
    ensures
        final(b)@ == bind_pattern_spec(pattern, raw, old(b)@),
        grown(old(b)@, final(b)@, 0),
        old(b)@.wf() && temp_ok(raw, old(b)@.temp_types.len()) ==> final(b)@.wf(),
{
    reveal(bind_pattern_spec);
    match pattern {
        TypedPattern::Binding(slot, _, _) => {
            b.set_slot(*slot, raw);
        },
        _ => {},
    }
}

/// What `lower_arm` does to the state, where `l` lowers the expressions inside.
#[verifier::opaque]
pub open spec fn lower_arm_spec(
    l: Lower,
    arm: &MatchArm,
    raw: Temp,
    val_ty: &Type,
    merge: BlockId,
    result_type: &Type,
    s: St,
) -> (St, Option<BranchEnd>) {
    let (s, test) = lower_arm_test_spec(l, &arm.pattern, raw, val_ty, s);
    let (s, body_block) = on(s, s.b.alloc_block("match_arm"));
    let (s, next_block) = on(s, s.b.alloc_block("match_next"));
    let s = match test {
        Some(cond) => {
            on_b(
                s,
                s.b.terminate(
                    Terminator::CondJump { cond, then_block: body_block, else_block: next_block },
                ),
            )
        },
        None => on_b(s, s.b.terminate(Terminator::Jump(body_block))),
    };
    let s = on_b(s, s.b.switch_to(body_block));
    let s = on_b(s, bind_pattern_spec(&arm.pattern, raw, s.b));
    let s = match &arm.guard {
        Some(g) => {
            let (s, c) = lower_scoped_cond_spec(l, g, s);
            let (s, guarded) = on(s, s.b.alloc_block("match_guarded"));
            let s = on_b(
                s,
                s.b.terminate(
                    Terminator::CondJump { cond: c, then_block: guarded, else_block: next_block },
                ),
            );
            on_b(s, s.b.switch_to(guarded))
        },
        None => s,
    };
    let here = s.b.env.current_block;
    let (s, end) = lower_branch_spec(l, &arm.body, here, merge, result_type, s);
    let s = on_b(s, s.b.switch_to(next_block));
    (s, end)
}

/// Lowers an arm of a `match`: its test, its guard and its value. Goes on in the block where
/// the arm did not match.
pub fn lower_arm(
    arm: &MatchArm,
    raw: Temp,
    val_ty: &Type,
    merge: BlockId,
    result_type: &Type,
    b: &mut FuncBuilder,
    ctx: &mut LowerCtx,
) -> (r: Option<BranchEnd>)
    ensures
        (st(final(b), final(ctx)), r) == lower_arm_spec(
            lower_at(old(ctx).room.left()),
            arm,
            raw,
            val_ty,
            merge,
            result_type,
            st(old(b), old(ctx)),
        ),
        ran(*old(b), *old(ctx), *final(b), *final(ctx)),
        valid(st(old(b), old(ctx)))
            && temp_ok(raw, old(b)@.temp_types.len())
            && merge.0 < old(b)@.blocks.len()
            ==> valid(st(final(b), final(ctx)))
                && (r is Some ==> r->0.pred.0 < final(b)@.blocks.len())
                && (r is Some ==> branch_end_ok(&r->0, final(b)@.temp_types.len())),
    decreases old(ctx).room.left(), 3nat, 0nat,
{
    reveal(lower_arm_spec);
    let test = lower_arm_test(&arm.pattern, raw, val_ty, b, ctx);
    let body_block = b.alloc_block("match_arm");
    let next_block = b.alloc_block("match_next");
    match test {
        Some(cond) => {
            b.terminate(
                Terminator::CondJump { cond, then_block: body_block, else_block: next_block },
            );
        },
        None => {
            b.terminate(Terminator::Jump(body_block));
        },
    }
    b.switch_to(body_block);
    bind_pattern(&arm.pattern, raw, b);
    match &arm.guard {
        Some(g) => {
            let c = lower_scoped_cond(g, b, ctx);
            let guarded = b.alloc_block("match_guarded");
            b.terminate(
                Terminator::CondJump { cond: c, then_block: guarded, else_block: next_block },
            );
            b.switch_to(guarded);
        },
        None => {},
    }
    let here = b.env.current_block;
    let end = lower_branch(&arm.body, here, merge, result_type, b, ctx);
    b.switch_to(next_block);
    end
}

/// What `lower_arms` does to the state, where `l` lowers the expressions inside.
#[verifier::opaque]
pub open spec fn lower_arms_spec(
    l: Lower,
    arms: &List<MatchArm>,
    raw: Temp,
    val_ty: &Type,
    merge: BlockId,
    outer: &List<Entry<Temp>>,
    result_type: &Type,
    s: St,
) -> (St, List<BranchEnd>)
    decreases arms,
{
    match arms {
        List::Nil => (s, List::Nil),
        List::Cons(n) => {
            let s = on_b(s, s.b.set_slots(outer.dup()));
            let (s, end) = lower_arm_spec(l, &n.head, raw, val_ty, merge, result_type, s);
            let (s, rest) = lower_arms_spec(l, &n.tail, raw, val_ty, merge, outer, result_type, s);
            (s, end_list(end, rest))
        },
    }
}

/// Lowers the arms of a `match` in order: each is tried in the block where the one before
/// did not match, with the variables as they were. Behind the last arm control does not go
/// on.
pub fn lower_arms(
    arms: &List<MatchArm>,
    raw: Temp,
    val_ty: &Type,
    merge: BlockId,
    outer: &List<Entry<Temp>>,
    result_type: &Type,
    b: &mut FuncBuilder,
    ctx: &mut LowerCtx,
) -> (r: List<BranchEnd>)
    ensures
        (st(final(b), final(ctx)), r) == lower_arms_spec(
            lower_at(old(ctx).room.left()),
            arms,
            raw,
            val_ty,
            merge,
            outer,
            result_type,
            st(old(b), old(ctx)),
        ),
        ran(*old(b), *old(ctx), *final(b), *final(ctx)),
        valid(st(old(b), old(ctx)))
            && temp_ok(raw, old(b)@.temp_types.len())
            && slots_ok(outer, old(b)@.temp_types.len())
            && merge.0 < old(b)@.blocks.len()
            ==> valid(st(final(b), final(ctx)))
                && end_preds_ok(&r, final(b)@.blocks.len())
                && ends_ok(&r, final(b)@.temp_types.len()),
    decreases old(ctx).room.left(), 4nat, arms.len(),
{
    reveal(lower_arms_spec);
    proof {
        slots_tail(outer, old(b)@.temp_types.len());
    }
    match arms {
        List::Nil => List::Nil,
        List::Cons(n) => {
            b.set_slots(outer.dup());
            let end = lower_arm(&n.head, raw, val_ty, merge, result_type, b, ctx);
            let rest = lower_arms(&n.tail, raw, val_ty, merge, outer, result_type, b, ctx);
            end_list(end, rest)
        },
    }
}

/// What `lower_match` does to the state, where `l` lowers the expressions inside.
#[verifier::opaque]
pub open spec fn lower_match_spec(
    l: Lower,
    scrutinee: &TypedExpr,
    arms: &List<MatchArm>,
    result_type: &Type,
    s: St,
) -> (St, Temp) {
    let val_ty = scrutinee.ty();
    let (s, raw) = low(l, scrutinee, s);
    let (s, merge) = on(s, s.b.alloc_block("match_merge"));
    let outer = s.b.env.slots.dup();
    let (s, ends) = lower_arms_spec(l, arms, raw, &val_ty, merge, &outer, result_type, s);
    let s = on_b(s, s.b.switch_to(merge));
    on(s, join_branches_spec(&outer, &ends, result_type, s.b))
}

/// Lowers `match` as an expression. The arms are converted to the type of the whole.
pub fn lower_match(
    scrutinee: &TypedExpr,
    arms: &List<MatchArm>,
    result_type: &Type,
    b: &mut FuncBuilder,
    ctx: &mut LowerCtx,
) -> (r: Temp)
    ensures
        (st(final(b), final(ctx)), r) == lower_match_spec(
            lower_at(old(ctx).room.left()),
            scrutinee,
            arms,
            result_type,
            st(old(b), old(ctx)),
        ),
        ran(*old(b), *old(ctx), *final(b), *final(ctx)),
        valid(st(old(b), old(ctx)))
            ==> valid(st(final(b), final(ctx))) && temp_ok(r, final(b)@.temp_types.len()),
    decreases old(ctx).room.left(), 5nat, 0nat,
{
    reveal(lower_match_spec);
    let val_ty = scrutinee.ty();
    let raw = lower_expr(scrutinee, b, ctx);
    let merge = b.alloc_block("match_merge");
    let outer = b.env.slots.dup();
    let ends = lower_arms(arms, raw, &val_ty, merge, &outer, result_type, b, ctx);
    b.switch_to(merge);
    join_branches(&outer, &ends, result_type, b)
}

/// The expression is a function literal.
pub open spec fn is_function_literal_spec(e: &TypedExpr) -> bool {
    matches!(e, TypedExpr::Function { .. })
}

/// Whether the expression is a function literal.
#[verifier::when_used_as_spec(is_function_literal_spec)]
pub fn is_function_literal(e: &TypedExpr) -> (r: bool)
    ensures
        r == is_function_literal_spec(e),
{
    matches!(e, TypedExpr::Function { .. })
}

/// The type of the heap cell of a variable.
pub open spec fn cell_type_spec(ty: &Type) -> Type {
    match ty {
        Type::Null => json(),
        _ => ty.dup(),
    }
}

/// The type of the heap cell of a variable: of one that starts as null, the wildcard.
#[verifier::when_used_as_spec(cell_type_spec)]
pub fn cell_type(ty: &Type) -> (r: Type)
    ensures
        r == cell_type_spec(ty),
{
    match ty {
        Type::Null => json(),
        _ => ty.dup(),
    }
}

/// What `store_global` does to the state, where `l` lowers the expressions inside.
#[verifier::opaque]
pub open spec fn store_global_spec(
    l: Lower,
    slot: usize,
    value: Temp,
    ty: &Type,
    immutable: bool,
    s: St,
) -> St {
    match s.c.global_val(slot) {
        Some(gty) => {
            let (s, stored) = on(s, coerce_and_own_store_spec(value, ty, &gty, s.b));
            on_b(
                s,
                s.b.emit(
                    Instruction::GlobalValSet { slot, value: stored, ty: gty.dup(), immutable },
                ),
            )
        },
        None => s,
    }
}

/// Stores a value in the global variable of the slot, where there is one.
pub fn store_global(
    slot: usize,
    value: Temp,
    ty: &Type,
    immutable: bool,
    b: &mut FuncBuilder,
    ctx: &mut LowerCtx,
)
    ensures
        st(final(b), final(ctx)) == store_global_spec(
            lower_at(old(ctx).room.left()),
            slot,
            value,
            ty,
            immutable,
            st(old(b), old(ctx)),
        ),
        ran(*old(b), *old(ctx), *final(b), *final(ctx)),
        valid(st(old(b), old(ctx))) && temp_ok(value, old(b)@.temp_types.len())
            ==> valid(st(final(b), final(ctx))),
    decreases old(ctx).room.left(), 1nat, 0nat,
{
    reveal(store_global_spec);
    match ctx.global_val(slot) {
        Some(gty) => {
            let stored = coerce_and_own_store(value, ty, &gty, b);
            b.emit(Instruction::GlobalValSet { slot, value: stored, ty: gty.dup(), immutable });
        },
        None => {},
    }
}

/// What `bind_fields` does to the function under construction.
#[verifier::opaque]
pub open spec fn bind_fields_spec(
    fields: &List<BoundField>,
    object: Temp,
    obj_ty: &Type,
    b: FState,
) -> FState
    decreases fields,
{
    match fields {
        List::Nil => b,
        List::Cons(n) => {
            let (b, dst) = b.alloc_temp(n.head.ty.dup());
            let b = b.emit(
                Instruction::FieldGet {
                    dst,
                    object,
                    field: dup_str(&n.head.key),
                    obj_ty: obj_ty.dup(),
                    result_ty: n.head.ty.dup(),
                },
            );
            let (b, owned) = own_for_read_spec(dst, &n.head.ty, b);
            let b = b.set_slot(n.head.slot, owned);
            bind_fields_spec(&n.tail, object, obj_ty, b)
        },
    }
}

/// Binds the fields of a record to variables.
pub fn bind_fields(fields: &List<BoundField>, object: Temp, obj_ty: &Type, b: &mut FuncBuilder)
    ensures
        final(b)@ == bind_fields_spec(fields, object, obj_ty, old(b)@),
        grown(old(b)@, final(b)@, 0),
        old(b)@.wf() && temp_ok(object, old(b)@.temp_types.len()) ==> final(b)@.wf(),
    decreases fields,
{
    reveal(bind_fields_spec);
    match fields {
        List::Nil => {},
        List::Cons(n) => {
            let dst = b.alloc_temp(n.head.ty.dup());
            b.emit(
                Instruction::FieldGet {
                    dst,
                    object,
                    field: dup_str(&n.head.key),
                    obj_ty: obj_ty.dup(),
                    result_ty: n.head.ty.dup(),
                },
            );
            let owned = own_for_read(dst, &n.head.ty, b);
            b.set_slot(n.head.slot, owned);
            bind_fields(&n.tail, object, obj_ty, b);
        },
    }
}

/// What `bind_elements` does to the function under construction.
#[verifier::opaque]
pub open spec fn bind_elements_spec(
    slots: &List<usize>,
    index: i64,
    array: Temp,
    arr_ty: &Type,
    b: FState,
) -> FState
    decreases slots,
{
    match slots {
        List::Nil => b,
        List::Cons(n) => {
            let (b, key) = b.const_temp(Const::Int(index, Type::Int64));
            let elem_ty = iter_elem_type(arr_ty);
            let (b, elem) = b.index(array, key, arr_ty, &Type::Int64, &elem_ty, false);
            let (b, owned) = own_for_read_spec(elem, &elem_ty, b);
            let b = b.set_slot(n.head, owned);
            bind_elements_spec(&n.tail, next_index(index), array, arr_ty, b)
        },
    }
}

/// Binds the elements of an array, from `index` on, to variables.
pub fn bind_elements(
    slots: &List<usize>,
    index: i64,
    array: Temp,
    arr_ty: &Type,
    b: &mut FuncBuilder,
)
    ensures
        final(b)@ == bind_elements_spec(slots, index, array, arr_ty, old(b)@),
        grown(old(b)@, final(b)@, 0),
        old(b)@.wf() && temp_ok(array, old(b)@.temp_types.len()) ==> final(b)@.wf(),
    decreases slots,
{
    reveal(bind_elements_spec);
    match slots {
        List::Nil => {},
        List::Cons(n) => {
            let key = b.const_temp(Const::Int(index, Type::Int64));
            let elem_ty = iter_elem_type(arr_ty);
            let elem = b.index(array, key, arr_ty, &Type::Int64, &elem_ty, false);
            let owned = own_for_read(elem, &elem_ty, b);
            b.set_slot(n.head, owned);
            bind_elements(&n.tail, next_index(index), array, arr_ty, b);
        },
    }
}

/// The index behind `i`.
pub open spec fn next_index_spec(i: i64) -> i64 {
    if i < i64::MAX {
        (i + 1) as i64
    } else {
        i
    }
}

/// The index behind `i`; the largest one has none.
#[verifier::when_used_as_spec(next_index_spec)]
pub fn next_index(i: i64) -> (r: i64)
    ensures
        r == next_index_spec(i),
{
    if i < i64::MAX {
        i + 1
    } else {
        i
    }
}

/// What `lower_stmt` does to the state, where `l` lowers the expressions inside.
#[verifier::opaque]
pub open spec fn lower_stmt_spec(l: Lower, stmt: &TypedStmt, s: St) -> St {
    match stmt {
        TypedStmt::Val { slot, value, ty, .. } => {
            let (s, t) = lower_value_into_slot_spec(l, value, ty, s);
            let s = on_b(s, s.b.set_slot(*slot, t));
            let s = if is_function_literal(value) {
                on_b(s, s.b.add_local_fn(*slot, share_spec(value)))
            } else {
                s
            };
            store_global_spec(l, *slot, t, ty, true, s)
        },
        TypedStmt::Var { slot, value, ty, .. } => if s.b.is_cell_var(*slot) {
            let cell_ty = cell_type(ty);
            let (s, v) = low(l, value, s);
            let (s, stored) = on(s, coerce_and_own_store_spec(v, &value.ty(), &cell_ty, s.b));
            let (s, cell) = on(s, s.b.alloc_temp(json()));
            let s = on_b(
                s,
                s.b.emit(Instruction::MakeCell { dst: cell, init: stored, ty: cell_ty.dup() }),
            );
            let s = on_b(s, s.b.add_cell(cell, cell_ty.dup()));
            let s = on_b(s, s.b.set_cell_slot(*slot, cell_ty.dup()));
            on_b(s, s.b.set_slot(*slot, cell))
        } else {
            let (s, t) = lower_value_into_slot_spec(l, value, ty, s);
            let s = on_b(s, s.b.set_slot(*slot, t));
            store_global_spec(l, *slot, t, ty, false, s)
        },
        TypedStmt::Expr(e) => {
            let (s, _) = low(l, e, s);
            s
        },
        TypedStmt::Destructure { obj_slot, fields, value, .. } => {
            let (s, t) = low(l, value, s);
            let s = on_b(s, s.b.set_slot(*obj_slot, t));
            on_b(s, bind_fields_spec(fields, t, &value.ty(), s.b))
        },
        TypedStmt::ArrayDestructure { slots, value, .. } => {
            let (s, t) = low(l, value, s);
            on_b(s, bind_elements_spec(slots, 0, t, &value.ty(), s.b))
        },
        _ => s,
    }
}

/// Lowers a statement.
pub fn lower_stmt(stmt: &TypedStmt, b: &mut FuncBuilder, ctx: &mut LowerCtx)
    ensures
        st(final(b), final(ctx)) == lower_stmt_spec(
            lower_at(old(ctx).room.left()),
            stmt,
            st(old(b), old(ctx)),
        ),
        ran(*old(b), *old(ctx), *final(b), *final(ctx)),
        valid(st(old(b), old(ctx))) ==> valid(st(final(b), final(ctx))),
    decreases old(ctx).room.left(), 6nat, 0nat,
{
    reveal(lower_stmt_spec);
    match stmt {
        TypedStmt::Val { slot, value, ty, .. } => {
            let t = lower_value_into_slot(value, ty, b, ctx);
            b.set_slot(*slot, t);
            if is_function_literal(value) {
                b.add_local_fn(*slot, share(value));
            }
            store_global(*slot, t, ty, true, b, ctx);
        },
        TypedStmt::Var { slot, value, ty, .. } => if b.is_cell_var(*slot) {
            let cell_ty = cell_type(ty);
            let v = lower_expr(value, b, ctx);
            let stored = coerce_and_own_store(v, &value.ty(), &cell_ty, b);
            let cell = b.alloc_temp(json());
            b.emit(Instruction::MakeCell { dst: cell, init: stored, ty: cell_ty.dup() });
            b.add_cell(cell, cell_ty.dup());
            b.set_cell_slot(*slot, cell_ty.dup());
            b.set_slot(*slot, cell);
        } else {
            let t = lower_value_into_slot(value, ty, b, ctx);
            b.set_slot(*slot, t);
            store_global(*slot, t, ty, false, b, ctx);
        },
        TypedStmt::Expr(e) => {
            lower_expr(e, b, ctx);
        },
        TypedStmt::Destructure { obj_slot, fields, value, .. } => {
            let t = lower_expr(value, b, ctx);
            b.set_slot(*obj_slot, t);
            bind_fields(fields, t, &value.ty(), b);
        },
        TypedStmt::ArrayDestructure { slots, value, .. } => {
            let t = lower_expr(value, b, ctx);
            bind_elements(slots, 0, t, &value.ty(), b);
        },
        _ => {},
    }
}

/// What `lower_stmts` does to the state, where `l` lowers the expressions inside.
#[verifier::opaque]
pub open spec fn lower_stmts_spec(l: Lower, stmts: &List<TypedStmt>, s: St) -> St
    decreases stmts,
{
    match stmts {
        List::Nil => s,
        List::Cons(n) => {
            let s = lower_stmt_spec(l, &n.head, s);
            lower_stmts_spec(l, &n.tail, s)
        },
    }
}

/// Lowers the statements in order.
pub fn lower_stmts(stmts: &List<TypedStmt>, b: &mut FuncBuilder, ctx: &mut LowerCtx)
    ensures
        st(final(b), final(ctx)) == lower_stmts_spec(
            lower_at(old(ctx).room.left()),
            stmts,
            st(old(b), old(ctx)),
        ),
        ran(*old(b), *old(ctx), *final(b), *final(ctx)),
        valid(st(old(b), old(ctx))) ==> valid(st(final(b), final(ctx))),
    decreases old(ctx).room.left(), 7nat, stmts.len(),
{
    reveal(lower_stmts_spec);
    match stmts {
        List::Nil => {},
        List::Cons(n) => {
            lower_stmt(&n.head, b, ctx);
            lower_stmts(&n.tail, b, ctx);
        },
    }
}

/// A block assigns to the variable, in its statements or its last expression.
pub open spec fn block_assigns_spec(stmts: &List<TypedStmt>, expr: &TypedExpr, slot: usize) -> bool
{
    reassigns_slot_stmts(stmts, slot) || expr_reassigns_slot(expr, slot)
}

/// Whether a block assigns to the variable, in its statements or its last expression.
#[verifier::when_used_as_spec(block_assigns_spec)]
pub fn block_assigns(stmts: &List<TypedStmt>, expr: &TypedExpr, slot: usize) -> (r: bool)
    ensures
        r == block_assigns_spec(stmts, expr, slot),
{
    reassigns_slot_stmts(stmts, slot) || expr_reassigns_slot(expr, slot)
}

/// What holds the outer variables that a block assigns to, and its result.
pub open spec fn kept_slot_temps_spec(
    outer: &List<Entry<Temp>>,
    stmts: &List<TypedStmt>,
    expr: &TypedExpr,
    result: Temp,
    b: FState,
) -> List<Temp>
    decreases outer,
{
    match outer {
        List::Nil => one(result),
        List::Cons(n) => {
            let rest = kept_slot_temps_spec(&n.tail, stmts, expr, result, b);
            match (
                !stmts_define_slot(stmts, n.head.slot) && block_assigns(stmts, expr, n.head.slot),
                b.slot(n.head.slot),
            ) {
                (true, Some(t)) => prepend(t, rest),
                _ => rest,
            }
        },
    }
}

/// What holds the outer variables that a block assigns to and does not bind, and the result
/// of the block.
pub fn kept_slot_temps(
    outer: &List<Entry<Temp>>,
    stmts: &List<TypedStmt>,
    expr: &TypedExpr,
    result: Temp,
    b: &FuncBuilder,
) -> (r: List<Temp>)
    ensures
        r == kept_slot_temps_spec(outer, stmts, expr, result, b@),
    decreases outer,
{
    match outer {
        List::Nil => one(result),
        List::Cons(n) => {
            let rest = kept_slot_temps(&n.tail, stmts, expr, result, b);
            match (
                !stmts_define_slot(stmts, n.head.slot) && block_assigns(stmts, expr, n.head.slot),
                b.slot(n.head.slot),
            ) {
                (true, Some(t)) => prepend(t, rest),
                _ => rest,
            }
        },
    }
}

/// The variable is held by the temporary.
pub open spec fn held_by_spec(held: Option<Temp>, t: Temp) -> bool {
    match held {
        Some(h) => h == t,
        None => false,
    }
}

/// Whether the variable is held by the temporary.
#[verifier::when_used_as_spec(held_by_spec)]
pub fn held_by(held: Option<Temp>, t: Temp) -> (r: bool)
    ensures
        r == held_by_spec(held, t),
{
    match held {
        Some(h) => h == t,
        None => false,
    }
}

/// What `restore_slots` does to the function under construction.
#[verifier::opaque]
pub open spec fn restore_slots_spec(
    outer: &List<Entry<Temp>>,
    all: &List<Entry<Temp>>,
    stmts: &List<TypedStmt>,
    expr: &TypedExpr,
    b: FState,
) -> FState
    decreases outer,
{
    match outer {
        List::Nil => b,
        List::Cons(n) => {
            let b = restore_slots_spec(&n.tail, all, stmts, expr, b);
            let before = slot_or(all, n.head.slot, n.head.value);
            if !stmts_define_slot(stmts, n.head.slot)
                && !block_assigns(stmts, expr, n.head.slot)
                && !held_by(b.slot(n.head.slot), before) {
                b.set_slot(n.head.slot, before)
            } else {
                b
            }
        },
    }
}

/// Puts back what held the outer variables that a block neither binds nor assigns to.
pub fn restore_slots(
    outer: &List<Entry<Temp>>,
    all: &List<Entry<Temp>>,
    stmts: &List<TypedStmt>,
    expr: &TypedExpr,
    b: &mut FuncBuilder,
)
    ensures
        final(b)@ == restore_slots_spec(outer, all, stmts, expr, old(b)@),
        grown(old(b)@, final(b)@, 0),
        old(b)@.wf()
            && slots_ok(outer, old(b)@.temp_types.len())
            && slots_ok(all, old(b)@.temp_types.len())
            ==> final(b)@.wf(),
    decreases outer,
{
    reveal(restore_slots_spec);
    proof {
        slots_tail(outer, old(b)@.temp_types.len());
        slots_tail(all, old(b)@.temp_types.len());
    }
    match outer {
        List::Nil => {},
        List::Cons(n) => {
            restore_slots(&n.tail, all, stmts, expr, b);
            let before = slot_or(all, n.head.slot, n.head.value);
            if !stmts_define_slot(stmts, n.head.slot)
                && !block_assigns(stmts, expr, n.head.slot)
                && !held_by(b.slot(n.head.slot), before) {
                b.set_slot(n.head.slot, before);
            }
        },
    }
}

/// What `lower_block` does to the state, where `l` lowers the expressions inside.
#[verifier::opaque]
pub open spec fn lower_block_spec(
    l: Lower,
    stmts: &List<TypedStmt>,
    expr: &TypedExpr,
    s: St,
) -> (St, Temp) {
    let outer = s.b.env.slots.dup();
    let s = on_b(s, s.b.push_scope());
    let s = lower_stmts_spec(l, stmts, s);
    let (s, result) = low(l, expr, s);
    let keep = kept_slot_temps_spec(&outer, stmts, expr, result, s.b);
    let s = on_b(s, s.b.pop_scope_releasing_keep_transfer(&keep));
    let s = on_b(s, restore_slots_spec(&outer, &outer, stmts, expr, s.b));
    (s, result)
}

/// Lowers a block in a scope of its own. The enclosing scope takes over the result and what
/// holds the outer variables that the block assigned to.
pub fn lower_block(
    stmts: &List<TypedStmt>,
    expr: &TypedExpr,
    b: &mut FuncBuilder,
    ctx: &mut LowerCtx,
) -> (r: Temp)
    ensures
        (st(final(b), final(ctx)), r) == lower_block_spec(
            lower_at(old(ctx).room.left()),
            stmts,
            expr,
            st(old(b), old(ctx)),
        ),
        ran(*old(b), *old(ctx), *final(b), *final(ctx)),
        valid(st(old(b), old(ctx)))
            ==> valid(st(final(b), final(ctx))) && temp_ok(r, final(b)@.temp_types.len()),
    decreases old(ctx).room.left(), 8nat, 0nat,
{
    reveal(lower_block_spec);
    let outer = b.env.slots.dup();
    b.push_scope();
    lower_stmts(stmts, b, ctx);
    let result = lower_expr(expr, b, ctx);
    let keep = kept_slot_temps(&outer, stmts, expr, result, b);
    b.pop_scope_releasing_keep_transfer(&keep);
    restore_slots(&outer, &outer, stmts, expr, b);
    result
}

} // verus!
