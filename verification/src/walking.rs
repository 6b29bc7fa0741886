//! `for` and `while` over a collection, as they run.

use crate::asking::effects;
use crate::ast::TypedExpr;
use crate::builder::FState;
use crate::combinator::{fusion_spec, lower_for_spec, lower_while_spec, reads_elem_in_place};
use crate::counting::operations_add;
use crate::ctx::{Lower, St, low};
use crate::flowing::{Meaning, placed, taken};
use crate::fusion::{
    bodies_mean, emit_local, fits, reclaim_local, reclaim_runs, truth_local, truth_runs,
};
use crate::ir::{BasicBlock, Const, Instruction, Temp};
use crate::leaving::{
    leaving_end_adds, leaving_loop, leaving_loop_ends, loop_runs_its_body_until_it_is_left, rounds,
};
use crate::looping::{
    halves_stand, loop_end_adds, loop_ends, loop_lies, loop_local,
    loop_runs_its_body_for_every_element, loop_start_adds, part_stands, passed, starts_body,
    whole_loop,
};
use crate::loops::{
    ElemAccess, LoopFlow, LoopFrame, as_bool_spec, begin_combinator_loop_spec,
    end_combinator_loop_spec, fm_reclaim_elem_spec,
};
use crate::mapping::{applying, applying_local, applying_runs, one_effect_more};
use crate::recognize::{
    Lambda, bare_fn_call_target_spec, combinator_read_elem_ty_spec, inlinable_local_fn_spec,
    range_for_bounds_spec,
};
use crate::run::{
    Mem, Oracle, Run, Value, after_instr, comes_further, comes_to, constant_runs, emitted_runs,
    instrs, is_at, is_open, local_adds_up, same_below, stays_local,
};
use crate::types::Type;
use vstd::prelude::*;

verus! {

/// The states of a loop with an inlined function: in front of it, where its body starts, and where
/// the function has been applied, with its value.
pub struct WalkStates {
    pub before: St,
    pub iterable: Temp,
    pub lam: Lambda,
    pub elem_ty: Type,
    pub start: FState,
    pub frame: LoopFrame,
    pub applied: St,
    pub val: Temp,
    pub val_ty: Type,
}

/// The states of a loop with an inlined function.
pub open spec fn walk_states(
    l: Lower,
    iterable_e: &TypedExpr,
    callback: &TypedExpr,
    s: St,
) -> WalkStates {
    let iterable_ty = iterable_e.ty();
    let elem_ty = combinator_read_elem_ty_spec(iterable_e, s);
    let (before, iterable) = low(l, iterable_e, s);
    let lam = inlinable_local_fn_spec(callback, before)->Some_0;
    let access = ElemAccess::Materialize(elem_ty);
    let (start, frame) = begin_combinator_loop_spec(iterable, &iterable_ty, access, before.b);
    let c = applying(l, &lam, frame.elem, &elem_ty, frame.i, St { b: start, c: before.c });
    WalkStates { before, iterable, lam, elem_ty, start, frame, applied: c.2, val: c.3, val_ty: c.4 }
}

/// What the function does for an element and its position.
pub open spec fn walk_effect(
    m: Meaning,
    lam: Lambda,
    items: Seq<Value>,
) -> spec_fn(int, Mem) -> Mem {
    |k: int, mem: Mem| (m.effect)(lam, taken(lam, placed(items[k], k)), mem)
}

/// A constant stays local.
proof fn null_local(b: FState)
    ensures
        stays_local(b, b.const_temp(Const::Null).0),
{
    reveal(FState::const_temp);
    reveal(FState::alloc_temp);
    reveal(FState::emit);
    reveal_with_fuel(instrs, 2);
}

/// The code stands, and a run is in front of it with the collection `items`.
pub open spec fn walk_stands(
    p: WalkStates,
    last: FState,
    code: Seq<BasicBlock>,
    m: Meaning,
    items: Seq<Value>,
    r: Run,
) -> bool {
    &&& (m.known)(p.lam)
    &&& fits(m, p.before.b, r)
    &&& is_open(p.before.b)
    &&& last.blocks.len() < u32::MAX
    &&& last.temp_types.len() < u32::MAX
    &&& part_stands(p.before.b, last, code)
    &&& is_at(p.before.b, r)
    &&& p.iterable.0 < p.before.b.temp_types.len()
    &&& r.vals[p.iterable] == Value::Items(items)
}

/// A run of what `for` over a collection is lowered to, where the function is inlined: the function
/// has run once for each element with its position, in order, and the result is null.
pub proof fn for_runs_for_every_element(
    l: Lower,
    iterable_e: &TypedExpr,
    callback: &TypedExpr,
    s: St,
    code: Seq<BasicBlock>,
    sem: Oracle,
    m: Meaning,
    items: Seq<Value>,
    r: Run,
) -> (r2: Run)
    requires
        bodies_mean(l, code, sem, m),
        !(iterable_e.ty() is Stream),
        range_for_bounds_spec(iterable_e, s) is None,
        fusion_spec(iterable_e, callback, true, s) is None,
        ({
            let p = walk_states(l, iterable_e, callback, s);
            &&& bare_fn_call_target_spec(callback, p.before) is None
            &&& inlinable_local_fn_spec(callback, p.before) is Some
            &&& !reads_elem_in_place(&iterable_e.ty(), &p.lam)
            &&& walk_stands(p, lower_for_spec(l, iterable_e, callback, s).0.b, code, m, items, r)
        }),
    ensures
        ({
            let p = walk_states(l, iterable_e, callback, s);
            let (s2, t) = lower_for_spec(l, iterable_e, callback, s);
            &&& comes_to(code, sem, r, r2)
            &&& is_at(s2.b, r2)
            &&& r2.vals[t] == Value::Null
            &&& r2.mem == effects(walk_effect(m, p.lam, items), 0, items.len(), r.mem)
        }),
{
    reveal(lower_for_spec);
    let p = walk_states(l, iterable_e, callback, s);
    let (s2, t) = lower_for_spec(l, iterable_e, callback, s);
    let last = s2.b;
    let iterable_ty = iterable_e.ty();
    let start = St { b: p.start, c: p.before.c };
    let i = Instruction::Release { val: p.val, ty: p.val_ty };
    let b1 = p.applied.b.emit(i);
    let b2 = fm_reclaim_elem_spec(p.frame.elem, &p.elem_ty, b1);
    let b3 = end_combinator_loop_spec(&p.frame, LoopFlow::Fallthrough, b2);
    assert((last, t) == b3.const_temp(Const::Null));
    applying_local(l, &p.lam, p.frame.elem, &p.elem_ty, p.frame.i, start, code, sem, m);
    emit_local(p.applied.b, i);
    reclaim_local(p.frame.elem, &p.elem_ty, b1);
    local_adds_up(p.applied.b, b1, b2);
    local_adds_up(p.start, p.applied.b, b2);
    operations_add();
    null_local(b3);
    loop_start_adds(p.iterable, &iterable_ty, p.elem_ty, p.before.b);
    loop_end_adds(&p.frame, b2);
    loop_local(p.iterable, &iterable_ty, p.elem_ty, p.before.b, b2);
    halves_stand(p.before.b, b3, last, code);
    assert(whole_loop(p.iterable, &iterable_ty, p.elem_ty, p.before.b, b2, code));
    loop_lies(p.iterable, &iterable_ty, p.elem_ty, p.before.b);
    loop_ends(p.iterable, &iterable_ty, p.elem_ty, p.before.b, b2, code);
    halves_stand(p.start, p.applied.b, b2, code);
    halves_stand(p.applied.b, b1, b2, code);
    let effect = walk_effect(m, p.lam, items);
    let inv = |k: int, mem: Mem| k >= 0 && mem == effects(effect, 0, k as nat, r.mem);
    assert forall|k: int, q: Run|
        0 <= k < items.len() && inv(k, q.mem) && same_below(p.before.b, r, q)
            && #[trigger] starts_body(p.start, p.frame, items, k, q) implies exists|q2: Run|
        {
            &&& #[trigger] comes_to(code, sem, q, q2)
            &&& passed(p.start, b2, q, q2)
            &&& inv(k + 1, q2.mem)
        } by {
        assert(fits(m, p.start, q));
        let q1 = applying_runs(
            l,
            &p.lam,
            p.frame.elem,
            &p.elem_ty,
            p.frame.i,
            start,
            code,
            sem,
            m,
            items[k],
            k,
            q,
        );
        emitted_runs(p.applied.b, i, code, sem, q1);
        let q2 = after_instr(sem, i, q1);
        let q3 = reclaim_runs(p.frame.elem, &p.elem_ty, b1, code, sem, q2);
        comes_further(code, sem, q, q1, q2);
        comes_further(code, sem, q, q2, q3);
        one_effect_more(effect, 0, k as nat, r.mem);
        assert(inv(k + 1, q3.mem));
    }
    assert(effects(effect, 0, 0, r.mem) == r.mem);
    assert(inv(0, r.mem));
    let r1 = loop_runs_its_body_for_every_element(
        p.iterable,
        &iterable_ty,
        p.elem_ty,
        p.before.b,
        b2,
        code,
        sem,
        items,
        inv,
        r,
    );
    constant_runs(b3, Const::Null, code, sem, r1);
    let r2 = after_instr(sem, Instruction::Const { dst: t, value: Const::Null }, r1);
    comes_further(code, sem, r, r1, r2);
    r2
}

/// A run of what `while` over a collection is lowered to, where the function is inlined: the
/// function has run for the elements with their positions, in order, up to and with the first one
/// for which it does not give true, and for no others, and the result is null.
pub proof fn while_runs_until_false(
    l: Lower,
    iterable_e: &TypedExpr,
    callback: &TypedExpr,
    s: St,
    code: Seq<BasicBlock>,
    sem: Oracle,
    m: Meaning,
    items: Seq<Value>,
    goes: Seq<bool>,
    r: Run,
) -> (r2: Run)
    requires
        bodies_mean(l, code, sem, m),
        goes.len() == items.len(),
        ({
            let p = walk_states(l, iterable_e, callback, s);
            &&& inlinable_local_fn_spec(callback, p.before) is Some
            &&& walk_stands(p, lower_while_spec(l, iterable_e, callback, s).0.b, code, m, items, r)
            &&& forall|k: int|
                0 <= k < items.len() ==> (m.value)(
                    p.lam,
                    taken(p.lam, placed(#[trigger] items[k], k)),
                ) == Value::Truth(goes[k])
        }),
    ensures
        ({
            let p = walk_states(l, iterable_e, callback, s);
            let (s2, t) = lower_while_spec(l, iterable_e, callback, s);
            &&& comes_to(code, sem, r, r2)
            &&& is_at(s2.b, r2)
            &&& r2.vals[t] == Value::Null
            &&& r2.mem == effects(walk_effect(m, p.lam, items), 0, rounds(goes), r.mem)
        }),
{
    reveal(lower_while_spec);
    let p = walk_states(l, iterable_e, callback, s);
    let (s2, t) = lower_while_spec(l, iterable_e, callback, s);
    let last = s2.b;
    let iterable_ty = iterable_e.ty();
    let start = St { b: p.start, c: p.before.c };
    let (b1, keep) = as_bool_spec(p.val, &p.val_ty, p.applied.b);
    let b2 = fm_reclaim_elem_spec(p.frame.elem, &p.elem_ty, b1);
    let b3 = end_combinator_loop_spec(&p.frame, LoopFlow::ContinueIf(keep), b2);
    assert((last, t) == b3.const_temp(Const::Null));
    applying_local(l, &p.lam, p.frame.elem, &p.elem_ty, p.frame.i, start, code, sem, m);
    truth_local(p.val, &p.val_ty, p.applied.b);
    reclaim_local(p.frame.elem, &p.elem_ty, b1);
    local_adds_up(p.applied.b, b1, b2);
    local_adds_up(p.start, p.applied.b, b2);
    operations_add();
    null_local(b3);
    loop_start_adds(p.iterable, &iterable_ty, p.elem_ty, p.before.b);
    leaving_end_adds(&p.frame, keep, b2);
    loop_lies(p.iterable, &iterable_ty, p.elem_ty, p.before.b);
    assert(part_stands(p.before.b, b3, b3.blocks));
    assert(leaving_loop(p.iterable, &iterable_ty, p.elem_ty, p.before.b, b2, keep, b3.blocks));
    leaving_loop_ends(p.iterable, &iterable_ty, p.elem_ty, p.before.b, b2, keep, b3.blocks);
    halves_stand(p.before.b, b3, last, code);
    assert(leaving_loop(p.iterable, &iterable_ty, p.elem_ty, p.before.b, b2, keep, code));
    leaving_loop_ends(p.iterable, &iterable_ty, p.elem_ty, p.before.b, b2, keep, code);
    halves_stand(p.start, p.applied.b, b2, code);
    halves_stand(p.applied.b, b1, b2, code);
    let effect = walk_effect(m, p.lam, items);
    assert forall|k: int, q: Run|
        0 <= k < items.len() && same_below(p.before.b, r, q) && #[trigger] starts_body(
            p.start,
            p.frame,
            items,
            k,
            q,
        ) implies exists|q2: Run|
        {
            &&& #[trigger] comes_to(code, sem, q, q2)
            &&& passed(p.start, b2, q, q2)
            &&& q2.vals[keep] == Value::Truth(goes[k])
            &&& q2.mem == effect(k, q.mem)
        } by {
        assert(items[k] == items[k]);
        assert(fits(m, p.start, q));
        let q1 = applying_runs(
            l,
            &p.lam,
            p.frame.elem,
            &p.elem_ty,
            p.frame.i,
            start,
            code,
            sem,
            m,
            items[k],
            k,
            q,
        );
        let q2 = truth_runs(p.val, &p.val_ty, p.applied.b, code, sem, q1);
        let q3 = reclaim_runs(p.frame.elem, &p.elem_ty, b1, code, sem, q2);
        comes_further(code, sem, q, q1, q2);
        comes_further(code, sem, q, q2, q3);
        assert(same_below(p.start, q, q2));
    }
    let r1 = loop_runs_its_body_until_it_is_left(
        p.iterable,
        &iterable_ty,
        p.elem_ty,
        p.before.b,
        b2,
        keep,
        code,
        sem,
        items,
        goes,
        effect,
        p.before.b,
        r,
        r,
    );
    constant_runs(b3, Const::Null, code, sem, r1);
    let r2 = after_instr(sem, Instruction::Const { dst: t, value: Const::Null }, r1);
    comes_further(code, sem, r, r1, r2);
    r2
}

} // verus!
