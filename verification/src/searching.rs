//! What `find` is lowered to, from the lowering to the result of a run.

use crate::asking::effects;
use crate::ast::TypedExpr;
use crate::builder::FState;
use crate::calling::{
    args_below, args_local, args_run, calls_for, given, one_call_more, passed_values, replies,
};
use crate::coerce::narrow_loop_index_spec;
use crate::combinator::{
    FindKind, FindLoop, begin_find_loop_spec, end_find_loop_spec, lower_find_spec, second_temp,
};
use crate::counting::operations_add;
use crate::ctx::{Lower, St, low};
use crate::direct::{calls_add_up, direct_call_runs, direct_local, direct_numbers, direct_states};
use crate::finding::{
    find_end, find_end_adds, find_end_is, find_end_lies, find_lies, find_room, finding_loop,
    finding_stands, search_finds_the_first, starts_search,
};
use crate::flowing::{Meaning, placed, taken};
use crate::fusing::index_runs;
use crate::fusion::{
    bodies_mean, coerce_local, emit_local, fits, inlined, step_body_runs, truth_local, truth_runs,
};
use crate::ir::{BasicBlock, CallTarget, Instruction, Temp};
use crate::list::List;
use crate::looping::{halves_stand, part_stands};
use crate::loops::{
    TypedTemp, as_bool_spec, call_body_closure_with_elem_boxes_spec, call_body_direct_spec,
    closure_args_with_boxes_spec, elem_and_index, lower_callback_in_safe_ctx_spec,
};
use crate::recognize::{
    Lambda, bare_fn_call_target_spec, callback_signature, combinator_read_elem_ty_spec,
    inlinable_local_fn_spec,
};
use crate::run::{
    Mem, Oracle, Run, Value, after_instr, asks_length, comes_further, comes_to, conversion_runs,
    element_runs, emitted_runs, instrs, is_at, is_open, local_adds_up, made_runs, same_below,
    stays_local,
};
use crate::types::{Type, json};
use vstd::prelude::*;

verus! {

/// The states of a search: in front of the loop, with the collection, where its body starts, and
/// where its body ends, with the element and the truth value for it.
pub struct Searching {
    pub before: St,
    pub iterable: Temp,
    pub iterable_ty: Type,
    pub kind: FindKind,
    pub elem_ty: Type,
    pub start: FState,
    pub frame: FindLoop,
    pub end: FState,
    pub pred: Temp,
    pub elem: Temp,
}

/// The body where the function is inlined: where the element is read, where its position is, where
/// the function has been inlined, and the end; the element and the truth value.
pub open spec fn inlined_search(
    l: Lower,
    lam: &Lambda,
    iterable: Temp,
    iterable_ty: &Type,
    elem_ty: &Type,
    i: Temp,
    s: St,
) -> (FState, FState, St, FState, Temp, Temp) {
    let (b1, elem) = s.b.index(iterable, i, iterable_ty, &Type::Int64, elem_ty, false);
    let (b2, idx) = narrow_loop_index_spec(i, b1);
    let args = elem_and_index(elem, elem_ty, idx);
    let (s3, raw) = inlined(l, *lam, args, St { b: b2, c: s.c });
    let (b4, pred) = as_bool_spec(raw.temp, &raw.ty, s3.b);
    (b1, b2, s3, b4, elem, pred)
}

/// A search as it is lowered, for a callback that is a known function or is inlined.
pub open spec fn search(
    l: Lower,
    iterable_e: &TypedExpr,
    callback: &TypedExpr,
    s: St,
) -> Searching {
    let iterable_ty = iterable_e.ty();
    let elem_ty = combinator_read_elem_ty_spec(iterable_e, s);
    let (before, iterable) = low(l, iterable_e, s);
    match bare_fn_call_target_spec(callback, before) {
        Some(target) => {
            let kind = FindKind::Direct;
            let (start, frame) = begin_find_loop_spec(iterable, &iterable_ty, kind, before.b);
            let c = direct_states(&target, iterable, &iterable_ty, &elem_ty, frame.i, start);
            Searching {
                before,
                iterable,
                iterable_ty,
                kind,
                elem_ty,
                start,
                frame,
                end: c.freed,
                pred: c.dst,
                elem: c.elem,
            }
        },
        None => {
            let kind = FindKind::Inline;
            let lam = inlinable_local_fn_spec(callback, before)->Some_0;
            let (start, frame) = begin_find_loop_spec(iterable, &iterable_ty, kind, before.b);
            let c = inlined_search(
                l,
                &lam,
                iterable,
                &iterable_ty,
                &elem_ty,
                frame.i,
                St { b: start, c: before.c },
            );
            Searching {
                before,
                iterable,
                iterable_ty,
                kind,
                elem_ty,
                start,
                frame,
                end: c.3,
                pred: c.5,
                elem: c.4,
            }
        },
    }
}

/// `find` is lowered to the collection and a loop that looks at its elements.
pub proof fn find_becomes_a_search(
    l: Lower,
    iterable_e: &TypedExpr,
    callback: &TypedExpr,
    result_type: &Type,
    s: St,
)
    requires
        ({
            let before = low(l, iterable_e, s).0;
            bare_fn_call_target_spec(callback, before) is Some || inlinable_local_fn_spec(
                callback,
                before,
            ) is Some
        }),
    ensures
        ({
            let a = search(l, iterable_e, callback, s);
            let (s2, t) = lower_find_spec(l, iterable_e, callback, result_type, s);
            (s2.b, t) == end_find_loop_spec(
                &a.frame,
                a.pred,
                a.elem,
                &a.elem_ty,
                a.kind,
                result_type,
                a.end,
            )
        }),
{
    reveal(lower_find_spec);
    reveal(call_body_direct_spec);
}

/// The element at the least index at which there is true, or null; and for how many elements the
/// callback has been asked.
pub open spec fn first_found(
    items: Seq<Value>,
    preds: Seq<bool>,
    effect: spec_fn(int, Mem) -> Mem,
    mem: Mem,
    v: Value,
    after: Mem,
) -> bool {
    &&& (forall|j: int| 0 <= j < preds.len() ==> !#[trigger] preds[j]) ==> v == Value::Null && after
        == effects(effect, 0, preds.len(), mem)
    &&& forall|i: int|
        0 <= i < preds.len() && #[trigger] preds[i] && (forall|j: int| 0 <= j < i ==> !preds[j])
            ==> v == items[i] && after == effects(effect, 0, (i + 1) as nat, mem)
}

/// The code of `find` stands, and a run is in front of it with the collection `items`.
pub open spec fn find_stands(
    l: Lower,
    iterable_e: &TypedExpr,
    callback: &TypedExpr,
    result_type: &Type,
    s: St,
    code: Seq<BasicBlock>,
    items: Seq<Value>,
    r: Run,
) -> bool {
    let a = search(l, iterable_e, callback, s);
    let last = lower_find_spec(l, iterable_e, callback, result_type, s).0.b;
    &&& find_room(a.before.b)
    &&& last.blocks.len() < u32::MAX
    &&& last.temp_types.len() < u32::MAX
    &&& part_stands(a.before.b, last, code)
    &&& is_at(a.before.b, r)
    &&& a.iterable.0 < a.before.b.temp_types.len()
    &&& r.vals[a.iterable] == Value::Items(items)
}

/// A search whose body stays local stands as a loop.
proof fn search_stands(
    l: Lower,
    iterable_e: &TypedExpr,
    callback: &TypedExpr,
    result_type: &Type,
    s: St,
    code: Seq<BasicBlock>,
    items: Seq<Value>,
    r: Run,
)
    requires
        find_stands(l, iterable_e, callback, result_type, s, code, items, r),
        ({
            let a = search(l, iterable_e, callback, s);
            let before = low(l, iterable_e, s).0;
            &&& bare_fn_call_target_spec(callback, before) is Some || inlinable_local_fn_spec(
                callback,
                before,
            ) is Some
            &&& stays_local(a.start, a.end)
            &&& a.end.temp_types.len() < u32::MAX ==> a.pred.0 < a.end.temp_types.len()
                && a.elem.0 < a.end.temp_types.len()
            &&& a.pred != a.frame.result_next
        }),
    ensures
        ({
            let a = search(l, iterable_e, callback, s);
            &&& finding_loop(
                a.iterable,
                &a.iterable_ty,
                a.kind,
                a.before.b,
                a.end,
                a.pred,
                a.elem,
                &a.elem_ty,
                code,
            )
            &&& is_open(a.start)
            &&& part_stands(a.start, a.end, code)
        }),
{
    let a = search(l, iterable_e, callback, s);
    find_becomes_a_search(l, iterable_e, callback, result_type, s);
    find_end_is(&a.frame, a.pred, a.elem, &a.elem_ty, a.kind, result_type, a.end);
    find_lies(a.iterable, &a.iterable_ty, a.kind, a.before.b);
    find_end_adds(&a.frame, a.pred, a.elem, &a.elem_ty, a.kind, a.end);
    let e = find_end(&a.frame, a.pred, a.elem, &a.elem_ty, a.kind, a.end);
    let last = lower_find_spec(l, iterable_e, callback, result_type, s).0.b;
    operations_add();
    let b2 = a.end;
    assert(b2.blocks[a.frame.latch.0 as int] == a.start.blocks[a.frame.latch.0 as int]);
    assert(b2.blocks[a.frame.exit.0 as int] == a.start.blocks[a.frame.exit.0 as int]);
    find_end_lies(&a.frame, a.pred, a.elem, &a.elem_ty, a.kind, b2);
    assert(part_stands(a.before.b, e.exit, code)) by {
        coerce_local(e.exit, a.frame.result, &json(), result_type);
        assert(stays_local(e.exit, last));
        assert(e.exit.env.current_block == last.env.current_block) by {
            reveal(FState::coerce);
            reveal(FState::alloc_temp);
            reveal(FState::emit);
        }
        assert forall|j: int|
            0 <= j < e.exit.blocks.len() && j != e.exit.env.current_block.0 && (j
                == a.before.b.env.current_block.0 || a.before.b.blocks.len()
                <= j) implies #[trigger] code[j] == e.exit.blocks[j] by {
            assert(code[j] == last.blocks[j]);
        }
    }
    finding_stands(
        a.iterable,
        &a.iterable_ty,
        a.kind,
        a.before.b,
        a.end,
        a.pred,
        a.elem,
        &a.elem_ty,
        code,
    );
}

/// A run of what `find` is lowered to, where the callback is a known function: the result is the
/// element at the least index for which the function replies true, or null where there is none, and
/// the calls that the run has made are those of the function for the elements up to that one, in
/// order.
pub proof fn find_calls_until_found(
    l: Lower,
    iterable_e: &TypedExpr,
    callback: &TypedExpr,
    result_type: &Type,
    s: St,
    code: Seq<BasicBlock>,
    sem: Oracle,
    items: Seq<Value>,
    preds: Seq<bool>,
    reply: spec_fn(Seq<Value>) -> Value,
    r: Run,
) -> (r2: Run)
    requires
        find_stands(l, iterable_e, callback, result_type, s, code, items, r),
        preds.len() == items.len(),
        ({
            let before = low(l, iterable_e, s).0;
            let f = bare_fn_call_target_spec(callback, before)->Some_0;
            &&& bare_fn_call_target_spec(callback, before) is Some
            &&& !asks_length(f.target)
            &&& replies(sem, f.target, reply)
            &&& forall|k: int|
                0 <= k < items.len() ==> reply(given(&f.params, #[trigger] items[k], k))
                    == Value::Truth(preds[k])
        }),
    ensures
        ({
            let before = low(l, iterable_e, s).0;
            let f = bare_fn_call_target_spec(callback, before)->Some_0;
            let (s2, t) = lower_find_spec(l, iterable_e, callback, result_type, s);
            &&& comes_to(code, sem, r, r2)
            &&& is_at(s2.b, r2)
            &&& (forall|j: int| 0 <= j < preds.len() ==> !#[trigger] preds[j]) ==> r2.vals[t]
                == Value::Null && r2.mem.calls == r.mem.calls + calls_for(
                f.target,
                &f.params,
                items,
                preds.len(),
            )
            &&& forall|i: int|
                0 <= i < preds.len() && #[trigger] preds[i] && (forall|j: int|
                    0 <= j < i ==> !preds[j]) ==> r2.vals[t] == items[i] && r2.mem.calls
                    == r.mem.calls + calls_for(f.target, &f.params, items, (i + 1) as nat)
        }),
{
    let a = search(l, iterable_e, callback, s);
    let before = low(l, iterable_e, s).0;
    let f = bare_fn_call_target_spec(callback, before)->Some_0;
    let (s2, t) = lower_find_spec(l, iterable_e, callback, result_type, s);
    let effect = one_call_more(f.target, &f.params, items);
    let c = direct_states(&f, a.iterable, &a.iterable_ty, &a.elem_ty, a.frame.i, a.start);
    direct_local(&f, a.iterable, &a.iterable_ty, &a.elem_ty, a.frame.i, a.start);
    local_adds_up(a.start, c.read, c.indexed);
    local_adds_up(a.start, c.indexed, c.ready);
    local_adds_up(a.start, c.ready, c.made);
    local_adds_up(a.start, c.made, c.freed);
    find_lies(a.iterable, &a.iterable_ty, a.kind, a.before.b);
    direct_numbers(&f, a.iterable, &a.iterable_ty, &a.elem_ty, a.frame.i, a.start);
    find_becomes_a_search(l, iterable_e, callback, result_type, s);
    find_end_is(&a.frame, a.pred, a.elem, &a.elem_ty, a.kind, result_type, a.end);
    find_end_adds(&a.frame, a.pred, a.elem, &a.elem_ty, a.kind, a.end);
    operations_add();
    search_stands(l, iterable_e, callback, result_type, s, code, items, r);
    assert forall|k: int, q: Run|
        0 <= k < items.len() && same_below(a.before.b, r, q) && #[trigger] starts_search(
            a.start,
            a.frame.i,
            k,
            q,
        ) implies exists|q2: Run|
        {
            &&& #[trigger] comes_to(code, sem, q, q2)
            &&& is_at(a.end, q2)
            &&& same_below(a.start, q, q2)
            &&& q2.vals[a.pred] == Value::Truth(preds[k])
            &&& q2.vals[a.elem] == items[k]
            &&& q2.mem == effect(k, q.mem)
        } by {
        assert(items[k] == items[k]);
        let q2 = direct_call_runs(
            &f,
            a.iterable,
            &a.iterable_ty,
            &a.elem_ty,
            a.frame.i,
            a.start,
            code,
            sem,
            reply,
            items,
            k,
            q,
        );
    }
    let r2 = search_finds_the_first(
        a.iterable,
        &a.iterable_ty,
        a.kind,
        a.before.b,
        a.end,
        a.pred,
        a.elem,
        &a.elem_ty,
        result_type,
        code,
        sem,
        items,
        preds,
        effect,
        r,
    );
    assert(r.mem.calls =~= r.mem.calls + calls_for(f.target, &f.params, items, 0));
    calls_add_up(f.target, &f.params, items, 0, preds.len(), r.mem, r.mem.calls);
    assert forall|i: int| 0 <= i < preds.len() && #[trigger] preds[i] && (forall|j: int|
        0 <= j < i ==> !preds[j]) implies r2.vals[t] == items[i] && r2.mem.calls == r.mem.calls
        + calls_for(f.target, &f.params, items, (i + 1) as nat) by {
        calls_add_up(f.target, &f.params, items, 0, (i + 1) as nat, r.mem, r.mem.calls);
    }
    r2
}

// Callbacks that are inlined.

/// The body stays local where the function is inlined.
proof fn inlined_search_local(
    l: Lower,
    lam: &Lambda,
    iterable: Temp,
    iterable_ty: &Type,
    elem_ty: &Type,
    i: Temp,
    s: St,
    code: Seq<BasicBlock>,
    sem: Oracle,
    m: Meaning,
)
    requires
        bodies_mean(l, code, sem, m),
        (m.known)(*lam),
    ensures
        ({
            let c = inlined_search(l, lam, iterable, iterable_ty, elem_ty, i, s);
            &&& stays_local(s.b, c.0)
            &&& stays_local(c.0, c.1)
            &&& stays_local(c.1, c.2.b)
            &&& stays_local(c.2.b, c.3)
            &&& stays_local(s.b, c.3)
            &&& c.3.temp_types.len() < u32::MAX ==> c.0.temp_types.len() == s.b.temp_types.len() + 1
                && c.4.0 == s.b.temp_types.len()
        }),
{
    let c = inlined_search(l, lam, iterable, iterable_ty, elem_ty, i, s);
    let (b1, elem) = s.b.index(iterable, i, iterable_ty, &Type::Int64, elem_ty, false);
    let (b2, idx) = narrow_loop_index_spec(i, b1);
    let args = elem_and_index(elem, elem_ty, idx);
    let (s3, raw) = inlined(l, *lam, args, St { b: b2, c: s.c });
    assert(stays_local(s.b, b1) && stays_local(b1, b2)) by {
        reveal(FState::index);
        reveal(narrow_loop_index_spec);
        reveal(FState::coerce);
        reveal(FState::alloc_temp);
        reveal(FState::emit);
        reveal_with_fuel(instrs, 2);
    }
    operations_add();
    assert(b1.temp_types.len() < u32::MAX ==> elem.0 == s.b.temp_types.len()) by {
        reveal(FState::index);
        reveal(FState::alloc_temp);
    }
    truth_local(raw.temp, &raw.ty, s3.b);
    local_adds_up(s.b, b1, b2);
    local_adds_up(s.b, b2, s3.b);
    local_adds_up(s.b, s3.b, c.3);
}

/// Where the function is inlined, the body has the element at hand and finds the truth value that
/// the function gives.
proof fn inlined_search_runs(
    l: Lower,
    lam: &Lambda,
    iterable: Temp,
    iterable_ty: &Type,
    elem_ty: &Type,
    i: Temp,
    s: St,
    code: Seq<BasicBlock>,
    sem: Oracle,
    m: Meaning,
    items: Seq<Value>,
    k: int,
    r: Run,
) -> (r2: Run)
    requires
        bodies_mean(l, code, sem, m),
        (m.known)(*lam),
        fits(m, s.b, r),
        is_open(s.b),
        ({
            let c = inlined_search(l, lam, iterable, iterable_ty, elem_ty, i, s);
            &&& c.3.blocks.len() < u32::MAX
            &&& c.3.temp_types.len() < u32::MAX
            &&& part_stands(s.b, c.3, code)
        }),
        is_at(s.b, r),
        i.0 < s.b.temp_types.len(),
        r.vals[i] == Value::Number(k),
        r.vals[iterable] == Value::Items(items),
    ensures
        ({
            let c = inlined_search(l, lam, iterable, iterable_ty, elem_ty, i, s);
            let given = taken(*lam, placed(items[k], k));
            &&& comes_to(code, sem, r, r2)
            &&& is_at(c.3, r2)
            &&& same_below(s.b, r, r2)
            &&& c.4.0 < c.3.temp_types.len()
            &&& c.5.0 < c.3.temp_types.len()
            &&& r2.vals[c.4] == items[k]
            &&& r2.vals[c.5] == (m.value)(*lam, given)
            &&& r2.mem == (m.effect)(*lam, given, r.mem)
        }),
{
    let (b1, elem) = s.b.index(iterable, i, iterable_ty, &Type::Int64, elem_ty, false);
    let (b2, idx) = narrow_loop_index_spec(i, b1);
    let from = St { b: b2, c: s.c };
    let args = elem_and_index(elem, elem_ty, idx);
    let (s3, raw) = inlined(l, *lam, args, from);
    let (b4, pred) = as_bool_spec(raw.temp, &raw.ty, s3.b);
    inlined_search_local(l, lam, iterable, iterable_ty, elem_ty, i, s, code, sem, m);
    local_adds_up(b2, s3.b, b4);
    local_adds_up(b1, b2, b4);
    halves_stand(s.b, b1, b4, code);
    halves_stand(b1, b2, b4, code);
    halves_stand(b2, s3.b, b4, code);
    element_runs(s.b, iterable, i, iterable_ty, elem_ty, code, sem, r);
    let read = Instruction::Index {
        dst: elem,
        object: iterable,
        key: i,
        obj_ty: *iterable_ty,
        key_ty: Type::Int64,
        result_ty: *elem_ty,
        nonneg: false,
    };
    let r1 = after_instr(sem, read, r);
    let r2 = index_runs(b1, i, code, sem, r1, k);
    assert(r2.vals[elem] == items[k]);
    let r3 = step_body_runs(l, lam, elem, elem_ty, idx, from, code, sem, m, items[k], k, r2);
    let r4 = truth_runs(raw.temp, &raw.ty, s3.b, code, sem, r3);
    comes_further(code, sem, r, r1, r2);
    comes_further(code, sem, r, r2, r3);
    comes_further(code, sem, r, r3, r4);
    assert(r3.vals[elem] == r2.vals[elem]);
    assert(r4.vals[elem] == r3.vals[elem]);
    assert(same_below(s.b, r, r3));
    r4
}

/// A run of what `find` is lowered to, where the callback is inlined: the result is the element at
/// the least index for which the function gives true, or null where there is none, and the function
/// has run for the elements up to that one, in order, and for no others.
pub proof fn find_asks_until_found(
    l: Lower,
    iterable_e: &TypedExpr,
    callback: &TypedExpr,
    result_type: &Type,
    s: St,
    code: Seq<BasicBlock>,
    sem: Oracle,
    m: Meaning,
    items: Seq<Value>,
    preds: Seq<bool>,
    r: Run,
) -> (r2: Run)
    requires
        find_stands(l, iterable_e, callback, result_type, s, code, items, r),
        preds.len() == items.len(),
        bodies_mean(l, code, sem, m),
        ({
            let a = search(l, iterable_e, callback, s);
            let before = low(l, iterable_e, s).0;
            let lam = inlinable_local_fn_spec(callback, before)->Some_0;
            &&& bare_fn_call_target_spec(callback, before) is None
            &&& inlinable_local_fn_spec(callback, before) is Some
            &&& (m.known)(lam)
            &&& fits(m, before.b, r)
            &&& a.pred != a.frame.result_next
            &&& a.pred.0 < a.end.temp_types.len()
            &&& forall|k: int|
                0 <= k < items.len() ==> (m.value)(lam, taken(lam, placed(#[trigger] items[k], k)))
                    == Value::Truth(preds[k])
        }),
    ensures
        ({
            let before = low(l, iterable_e, s).0;
            let lam = inlinable_local_fn_spec(callback, before)->Some_0;
            let (s2, t) = lower_find_spec(l, iterable_e, callback, result_type, s);
            let effect = |k: int, mem: Mem| (m.effect)(lam, taken(lam, placed(items[k], k)), mem);
            &&& comes_to(code, sem, r, r2)
            &&& is_at(s2.b, r2)
            &&& first_found(items, preds, effect, r.mem, r2.vals[t], r2.mem)
        }),
{
    let a = search(l, iterable_e, callback, s);
    let before = low(l, iterable_e, s).0;
    let lam = inlinable_local_fn_spec(callback, before)->Some_0;
    let effect = |k: int, mem: Mem| (m.effect)(lam, taken(lam, placed(items[k], k)), mem);
    let from = St { b: a.start, c: before.c };
    inlined_search_local(
        l,
        &lam,
        a.iterable,
        &a.iterable_ty,
        &a.elem_ty,
        a.frame.i,
        from,
        code,
        sem,
        m,
    );
    find_lies(a.iterable, &a.iterable_ty, a.kind, a.before.b);
    find_becomes_a_search(l, iterable_e, callback, result_type, s);
    find_end_is(&a.frame, a.pred, a.elem, &a.elem_ty, a.kind, result_type, a.end);
    find_end_adds(&a.frame, a.pred, a.elem, &a.elem_ty, a.kind, a.end);
    operations_add();
    search_stands(l, iterable_e, callback, result_type, s, code, items, r);
    assert forall|k: int, q: Run|
        0 <= k < items.len() && same_below(a.before.b, r, q) && #[trigger] starts_search(
            a.start,
            a.frame.i,
            k,
            q,
        ) implies exists|q2: Run|
        {
            &&& #[trigger] comes_to(code, sem, q, q2)
            &&& is_at(a.end, q2)
            &&& same_below(a.start, q, q2)
            &&& q2.vals[a.pred] == Value::Truth(preds[k])
            &&& q2.vals[a.elem] == items[k]
            &&& q2.mem == effect(k, q.mem)
        } by {
        assert(items[k] == items[k]);
        assert(fits(m, a.start, q));
        let q2 = inlined_search_runs(
            l,
            &lam,
            a.iterable,
            &a.iterable_ty,
            &a.elem_ty,
            a.frame.i,
            from,
            code,
            sem,
            m,
            items,
            k,
            q,
        );
    }
    search_finds_the_first(
        a.iterable,
        &a.iterable_ty,
        a.kind,
        a.before.b,
        a.end,
        a.pred,
        a.elem,
        &a.elem_ty,
        result_type,
        code,
        sem,
        items,
        preds,
        effect,
        r,
    )
}

// Callbacks that are called through their value.

/// The states of a search that calls its callback through its value: in front of the loop, where
/// its body starts, with the element, with its position, with the arguments, behind the call, with
/// the truth value, and where its body ends.
pub struct CallingSearch {
    pub before: St,
    pub iterable: Temp,
    pub iterable_ty: Type,
    pub body: Temp,
    pub params: List<Type>,
    pub start: FState,
    pub frame: FindLoop,
    pub read: FState,
    pub elem: Temp,
    pub indexed: FState,
    pub args: List<TypedTemp>,
    pub ready: FState,
    pub made: FState,
    pub dst: Temp,
    pub told: FState,
    pub pred: Temp,
    pub end: FState,
}

/// A search that calls its callback through its value.
pub open spec fn calling_search(
    l: Lower,
    iterable_e: &TypedExpr,
    callback: &TypedExpr,
    s: St,
) -> CallingSearch {
    let iterable_ty = iterable_e.ty();
    let params = callback_signature(callback).params;
    let (s1, iterable) = low(l, iterable_e, s);
    let (before, body) = lower_callback_in_safe_ctx_spec(l, callback, s1);
    let kind = FindKind::Closure;
    let (start, frame) = begin_find_loop_spec(iterable, &iterable_ty, kind, before.b);
    let i = frame.i;
    let (read, elem) = start.index(iterable, i, &iterable_ty, &Type::Int64, &json(), false);
    let (indexed, idx) = narrow_loop_index_spec(i, read);
    let args = elem_and_index(elem, &json(), idx);
    let (ready, call_args) = closure_args_with_boxes_spec(&args, &params, indexed);
    let (made, dst) = ready.call(CallTarget::Indirect(body), call_args.args, &json());
    let (told, pred) = made.coerce(dst, &json(), &Type::Bool);
    let end = match second_temp(&call_args.boxes) {
        Some(t) => told.emit(Instruction::Release { val: t, ty: json() }),
        None => told,
    };
    CallingSearch {
        before,
        iterable,
        iterable_ty,
        body,
        params,
        start,
        frame,
        read,
        elem,
        indexed,
        args,
        ready,
        made,
        dst,
        told,
        pred,
        end,
    }
}

/// The body stays local.
proof fn calling_search_local(l: Lower, iterable_e: &TypedExpr, callback: &TypedExpr, s: St)
    ensures
        ({
            let p = calling_search(l, iterable_e, callback, s);
            &&& stays_local(p.start, p.read)
            &&& stays_local(p.read, p.indexed)
            &&& stays_local(p.indexed, p.ready)
            &&& stays_local(p.ready, p.made)
            &&& stays_local(p.made, p.told)
            &&& stays_local(p.told, p.end)
            &&& stays_local(p.start, p.end)
            &&& p.end.temp_types == p.told.temp_types
            &&& p.end.temp_types.len() < u32::MAX ==> p.elem.0 == p.start.temp_types.len()
                && p.read.temp_types.len() == p.elem.0 + 1 && p.dst.0 == p.ready.temp_types.len()
                && p.made.temp_types.len() == p.dst.0 + 1 && p.pred.0 == p.made.temp_types.len()
                && p.told.temp_types.len() == p.pred.0 + 1
        }),
{
    let p = calling_search(l, iterable_e, callback, s);
    let call_args = closure_args_with_boxes_spec(&p.args, &p.params, p.indexed).1;
    reveal(narrow_loop_index_spec);
    coerce_local(p.read, p.frame.i, &Type::Int64, &Type::Int32);
    args_local(&p.args, &p.params, p.indexed);
    coerce_local(p.made, p.dst, &json(), &Type::Bool);
    if let Some(t) = second_temp(&call_args.boxes) {
        emit_local(p.told, Instruction::Release { val: t, ty: json() });
    }
    assert(stays_local(p.start, p.read) && stays_local(p.ready, p.made)) by {
        reveal(FState::index);
        reveal(FState::call);
        reveal(FState::alloc_temp);
        reveal(FState::emit);
        reveal_with_fuel(instrs, 2);
    }
    assert(p.end.temp_types == p.told.temp_types) by {
        reveal(FState::emit);
    }
    assert(p.end.temp_types.len() < u32::MAX ==> p.elem.0 == p.start.temp_types.len()
        && p.read.temp_types.len() == p.elem.0 + 1 && p.dst.0 == p.ready.temp_types.len()
        && p.made.temp_types.len() == p.dst.0 + 1 && p.pred.0 == p.made.temp_types.len()
        && p.told.temp_types.len() == p.pred.0 + 1) by {
        reveal(FState::index);
        reveal(FState::call);
        reveal(FState::coerce);
        reveal(FState::alloc_temp);
        reveal(FState::emit);
    }
    local_adds_up(p.start, p.read, p.indexed);
    local_adds_up(p.start, p.indexed, p.ready);
    local_adds_up(p.start, p.ready, p.made);
    local_adds_up(p.start, p.made, p.told);
    local_adds_up(p.start, p.told, p.end);
}

/// The body calls the callback once, with the element and as much of the position as it takes.
proof fn calling_search_runs(
    l: Lower,
    iterable_e: &TypedExpr,
    callback: &TypedExpr,
    s: St,
    code: Seq<BasicBlock>,
    sem: Oracle,
    reply: spec_fn(Seq<Value>) -> Value,
    items: Seq<Value>,
    k: int,
    r: Run,
) -> (r2: Run)
    requires
        ({
            let p = calling_search(l, iterable_e, callback, s);
            &&& replies(sem, CallTarget::Indirect(p.body), reply)
            &&& is_open(p.start)
            &&& p.end.blocks.len() < u32::MAX
            &&& p.end.temp_types.len() < u32::MAX
            &&& part_stands(p.start, p.end, code)
            &&& is_at(p.start, r)
            &&& p.frame.i.0 < p.start.temp_types.len()
            &&& r.vals[p.frame.i] == Value::Number(k)
            &&& r.vals[p.iterable] == Value::Items(items)
        }),
    ensures
        ({
            let p = calling_search(l, iterable_e, callback, s);
            let callee = CallTarget::Indirect(p.body);
            &&& comes_to(code, sem, r, r2)
            &&& is_at(p.end, r2)
            &&& same_below(p.start, r, r2)
            &&& r2.vals[p.elem] == items[k]
            &&& r2.vals[p.pred] == reply(given(&p.params, items[k], k))
            &&& r2.mem == one_call_more(callee, &p.params, items)(k, r.mem)
        }),
{
    let p = calling_search(l, iterable_e, callback, s);
    let callee = CallTarget::Indirect(p.body);
    let i = p.frame.i;
    calling_search_local(l, iterable_e, callback, s);
    local_adds_up(p.made, p.told, p.end);
    local_adds_up(p.ready, p.made, p.end);
    local_adds_up(p.indexed, p.ready, p.end);
    local_adds_up(p.read, p.indexed, p.end);
    halves_stand(p.start, p.read, p.end, code);
    halves_stand(p.read, p.indexed, p.end, code);
    halves_stand(p.indexed, p.ready, p.end, code);
    halves_stand(p.ready, p.made, p.end, code);
    halves_stand(p.made, p.told, p.end, code);
    let elem_ty = json();
    element_runs(p.start, p.iterable, i, &p.iterable_ty, &elem_ty, code, sem, r);
    let read = Instruction::Index {
        dst: p.elem,
        object: p.iterable,
        key: i,
        obj_ty: p.iterable_ty,
        key_ty: Type::Int64,
        result_ty: elem_ty,
        nonneg: false,
    };
    let r1 = after_instr(sem, read, r);
    let r2 = index_runs(p.read, i, code, sem, r1, k);
    comes_further(code, sem, r, r1, r2);
    assert(r2.vals[p.elem] == items[k]);
    reveal_with_fuel(args_below, 3);
    reveal_with_fuel(passed_values, 3);
    assert(args_below(&p.args, p.indexed.temp_types.len()));
    assert(passed_values(&p.args, &p.params, r2.vals) =~= given(&p.params, items[k], k));
    let r3 = args_run(&p.args, &p.params, p.indexed, code, sem, r2);
    comes_further(code, sem, r, r2, r3);
    let call_args = closure_args_with_boxes_spec(&p.args, &p.params, p.indexed).1;
    let call = Instruction::Call { dst: p.dst, callee, args: call_args.args, ret_ty: json() };
    reveal(FState::call);
    made_runs(p.ready, json(), call, code, sem, r3);
    let r4 = after_instr(sem, call, r3);
    comes_further(code, sem, r, r3, r4);
    let from = json();
    let to = Type::Bool;
    conversion_runs(p.made, p.dst, &from, &to, code, sem, r4);
    let r5 = after_instr(
        sem,
        Instruction::Coerce { dst: p.pred, src: p.dst, from_ty: from, to_ty: to },
        r4,
    );
    comes_further(code, sem, r, r4, r5);
    assert(same_below(p.start, r, r3));
    assert(r5.vals[p.elem] == items[k]);
    match second_temp(&call_args.boxes) {
        Some(t) => {
            let release = Instruction::Release { val: t, ty: json() };
            emitted_runs(p.told, release, code, sem, r5);
            let r6 = after_instr(sem, release, r5);
            comes_further(code, sem, r, r5, r6);
            r6
        },
        None => r5,
    }
}

/// A run of what `find` is lowered to, where the callback is called through its value: the result
/// is the element at the least index for which the callback replies true, or null where there is
/// none, and the calls that the run has made are those of the callback for the elements up to that
/// one, in order.
pub proof fn find_calls_the_value_until_found(
    l: Lower,
    iterable_e: &TypedExpr,
    callback: &TypedExpr,
    result_type: &Type,
    s: St,
    code: Seq<BasicBlock>,
    sem: Oracle,
    items: Seq<Value>,
    preds: Seq<bool>,
    reply: spec_fn(Seq<Value>) -> Value,
    r: Run,
) -> (r2: Run)
    requires
        preds.len() == items.len(),
        ({
            let p = calling_search(l, iterable_e, callback, s);
            let s1 = low(l, iterable_e, s).0;
            let last = lower_find_spec(l, iterable_e, callback, result_type, s).0.b;
            &&& bare_fn_call_target_spec(callback, s1) is None
            &&& inlinable_local_fn_spec(callback, s1) is None
            &&& find_room(p.before.b)
            &&& last.blocks.len() < u32::MAX
            &&& last.temp_types.len() < u32::MAX
            &&& part_stands(p.before.b, last, code)
            &&& is_at(p.before.b, r)
            &&& p.iterable.0 < p.before.b.temp_types.len()
            &&& r.vals[p.iterable] == Value::Items(items)
            &&& replies(sem, CallTarget::Indirect(p.body), reply)
            &&& forall|k: int|
                0 <= k < items.len() ==> reply(given(&p.params, #[trigger] items[k], k))
                    == Value::Truth(preds[k])
        }),
    ensures
        ({
            let p = calling_search(l, iterable_e, callback, s);
            let callee = CallTarget::Indirect(p.body);
            let (s2, t) = lower_find_spec(l, iterable_e, callback, result_type, s);
            &&& comes_to(code, sem, r, r2)
            &&& is_at(s2.b, r2)
            &&& first_found(
                items,
                preds,
                one_call_more(callee, &p.params, items),
                r.mem,
                r2.vals[t],
                r2.mem,
            )
        }),
{
    reveal(lower_find_spec);
    reveal(call_body_closure_with_elem_boxes_spec);
    let p = calling_search(l, iterable_e, callback, s);
    let kind = FindKind::Closure;
    let elem_ty = json();
    let (s2, t) = lower_find_spec(l, iterable_e, callback, result_type, s);
    let last = s2.b;
    assert((last, t) == end_find_loop_spec(
        &p.frame,
        p.pred,
        p.elem,
        &elem_ty,
        kind,
        result_type,
        p.end,
    ));
    let effect = one_call_more(CallTarget::Indirect(p.body), &p.params, items);
    calling_search_local(l, iterable_e, callback, s);
    find_end_is(&p.frame, p.pred, p.elem, &elem_ty, kind, result_type, p.end);
    find_lies(p.iterable, &p.iterable_ty, kind, p.before.b);
    find_end_adds(&p.frame, p.pred, p.elem, &elem_ty, kind, p.end);
    let e = find_end(&p.frame, p.pred, p.elem, &elem_ty, kind, p.end);
    operations_add();
    let b2 = p.end;
    assert(b2.blocks[p.frame.latch.0 as int] == p.start.blocks[p.frame.latch.0 as int]);
    assert(b2.blocks[p.frame.exit.0 as int] == p.start.blocks[p.frame.exit.0 as int]);
    find_end_lies(&p.frame, p.pred, p.elem, &elem_ty, kind, b2);
    assert(part_stands(p.before.b, e.exit, code)) by {
        coerce_local(e.exit, p.frame.result, &json(), result_type);
        assert(stays_local(e.exit, last));
        assert(e.exit.env.current_block == last.env.current_block) by {
            reveal(FState::coerce);
            reveal(FState::alloc_temp);
            reveal(FState::emit);
        }
        assert forall|j: int|
            0 <= j < e.exit.blocks.len() && j != e.exit.env.current_block.0 && (j
                == p.before.b.env.current_block.0 || p.before.b.blocks.len()
                <= j) implies #[trigger] code[j] == e.exit.blocks[j] by {
            assert(code[j] == last.blocks[j]);
        }
    }
    assert(finding_loop(
        p.iterable,
        &p.iterable_ty,
        kind,
        p.before.b,
        p.end,
        p.pred,
        p.elem,
        &elem_ty,
        code,
    ));
    finding_stands(
        p.iterable,
        &p.iterable_ty,
        kind,
        p.before.b,
        p.end,
        p.pred,
        p.elem,
        &elem_ty,
        code,
    );
    assert forall|k: int, q: Run|
        0 <= k < items.len() && same_below(p.before.b, r, q) && #[trigger] starts_search(
            p.start,
            p.frame.i,
            k,
            q,
        ) implies exists|q2: Run|
        {
            &&& #[trigger] comes_to(code, sem, q, q2)
            &&& is_at(p.end, q2)
            &&& same_below(p.start, q, q2)
            &&& q2.vals[p.pred] == Value::Truth(preds[k])
            &&& q2.vals[p.elem] == items[k]
            &&& q2.mem == effect(k, q.mem)
        } by {
        assert(items[k] == items[k]);
        let q2 = calling_search_runs(l, iterable_e, callback, s, code, sem, reply, items, k, q);
    }
    search_finds_the_first(
        p.iterable,
        &p.iterable_ty,
        kind,
        p.before.b,
        p.end,
        p.pred,
        p.elem,
        &elem_ty,
        result_type,
        code,
        sem,
        items,
        preds,
        effect,
        r,
    )
}

} // verus!
