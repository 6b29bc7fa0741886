//! The questions whether some element is such and whether every element is, from the lowering to
//! the answer of a run.

use crate::asking::{
    answer, asking_loop, body_asked, body_asks, effects, every_checks_all_elements,
    every_is_not_some_of_the_opposite, flag_loop_ends, flag_loop_lies, flag_room,
    loop_answers_its_question, some_finds_an_element, starts_body, turned_round,
};
use crate::ast::TypedExpr;
use crate::builder::FState;
use crate::coerce::narrow_loop_index_spec;
use crate::combinator::{
    FlagLoop, Question, begin_flag_loop_spec, end_flag_loop_spec, every_question, lower_every_spec,
    lower_quantified_spec, lower_some_spec, reads_elem_in_place, some_question,
};
use crate::ctx::{Lower, St, low, on, on_b};
use crate::flowing::{Meaning, placed, taken};
use crate::fusing::index_runs;
use crate::fusion::{
    bodies_mean, fits, inlined, reclaim_local, reclaim_runs, step_body_runs, truth_local,
    truth_runs,
};
use crate::ir::{BasicBlock, Instruction, Temp};
use crate::looping::{halves_stand, part_stands};
use crate::loops::{
    as_bool_spec, call_body_direct_spec, elem_and_index, fm_reclaim_elem_spec,
    inline_lambda_body_packed_view_spec, inline_lambda_body_spec,
};
use crate::recognize::{
    Lambda, bare_fn_call_target_spec, combinator_read_elem_ty_spec, inlinable_local_fn_spec,
    iter_elem_type,
};
use crate::run::{
    Mem, Oracle, Run, Value, after_instr, comes_further, comes_to, element_runs, instrs, is_at,
    is_open, local_adds_up, same_below, stays_local,
};
use crate::types::Type;
use vstd::prelude::*;

verus! {

/// The loop keeps the truth value itself: the callback is a function that is called directly, or
/// one whose body is inlined.
pub open spec fn asks_by_loop(callback: &TypedExpr, s: St) -> bool {
    bare_fn_call_target_spec(callback, s) is Some || inlinable_local_fn_spec(callback, s) is Some
}

/// The body of the loop where the function is inlined and the element is read: its code and the
/// truth value for the element.
pub open spec fn inlined_ask(
    l: Lower,
    lam: &Lambda,
    iterable: Temp,
    iterable_ty: &Type,
    elem_ty: &Type,
    i: Temp,
    s: St,
) -> (St, Temp) {
    let (s, elem) = on(s, s.b.index(iterable, i, iterable_ty, &Type::Int64, elem_ty, false));
    let (s, idx) = on(s, narrow_loop_index_spec(i, s.b));
    let (s, raw) = inline_lambda_body_spec(l, lam, &elem_and_index(elem, elem_ty, idx), s);
    let (s, pred) = on(s, as_bool_spec(raw.temp, &raw.ty, s.b));
    (on_b(s, fm_reclaim_elem_spec(elem, elem_ty, s.b)), pred)
}

/// The body of the loop: its code and the truth value for the element. `before` is the state in
/// front of the loop.
pub open spec fn ask(
    l: Lower,
    callback: &TypedExpr,
    iterable: Temp,
    iterable_ty: &Type,
    elem_ty: &Type,
    i: Temp,
    before: St,
    s: St,
) -> (St, Temp) {
    match bare_fn_call_target_spec(callback, before) {
        Some(target) => {
            let (s, elem) = on(
                s,
                s.b.index(iterable, i, iterable_ty, &Type::Int64, elem_ty, false),
            );
            let (s, idx) = on(s, narrow_loop_index_spec(i, s.b));
            let args = elem_and_index(elem, elem_ty, idx);
            let (s, pred) = on(s, call_body_direct_spec(&target, &args, &Type::Bool, s.b));
            (on_b(s, fm_reclaim_elem_spec(elem, elem_ty, s.b)), pred)
        },
        None => {
            let lam = inlinable_local_fn_spec(callback, before)->Some_0;
            if reads_elem_in_place(iterable_ty, &lam) {
                let (s, idx) = on(s, narrow_loop_index_spec(i, s.b));
                let (s, raw) = inline_lambda_body_packed_view_spec(
                    l,
                    &lam,
                    iterable,
                    i,
                    &iter_elem_type(iterable_ty),
                    idx,
                    s,
                );
                on(s, as_bool_spec(raw.temp, &raw.ty, s.b))
            } else {
                inlined_ask(l, &lam, iterable, iterable_ty, elem_ty, i, s)
            }
        },
    }
}

/// The states of a question that a loop answers: in front of the loop, with the collection, where
/// its body starts, with the counter, and where its body ends, with the truth value.
pub struct Asking {
    pub before: St,
    pub iterable: Temp,
    pub iterable_ty: Type,
    pub start: St,
    pub i: Temp,
    pub flag: Temp,
    pub end: St,
    pub pred: Temp,
}

/// A question as a loop asks it.
pub open spec fn question(
    l: Lower,
    iterable_e: &TypedExpr,
    callback: &TypedExpr,
    q: &Question,
    s: St,
) -> Asking {
    let iterable_ty = iterable_e.ty();
    let elem_ty = combinator_read_elem_ty_spec(iterable_e, s);
    let (before, iterable) = low(l, iterable_e, s);
    let (b, f) = begin_flag_loop_spec(iterable, &iterable_ty, q, before.b);
    let start = St { b, c: before.c };
    let (end, pred) = ask(l, callback, iterable, &iterable_ty, &elem_ty, f.i, before, start);
    Asking { before, iterable, iterable_ty, start, i: f.i, flag: f.flag, end, pred }
}

/// A question is lowered to the collection, the start of a loop, the body that asks the callback,
/// and the end of the loop. The result is the truth value that the loop keeps.
pub proof fn question_becomes_a_loop(
    l: Lower,
    iterable_e: &TypedExpr,
    callback: &TypedExpr,
    q: &Question,
    s: St,
)
    requires
        asks_by_loop(callback, question(l, iterable_e, callback, q, s).before),
    ensures
        ({
            let a = question(l, iterable_e, callback, q, s);
            let f = begin_flag_loop_spec(a.iterable, &a.iterable_ty, q, a.before.b).1;
            let b = end_flag_loop_spec(&f, a.pred, q.op, a.end.b);
            lower_quantified_spec(l, iterable_e, callback, q, s) == (St { b, c: a.end.c }, a.flag)
        }),
{
    reveal(lower_quantified_spec);
}

/// The loop stands in `code`, the run is in front of it with the collection `items`, and its body
/// finds `preds` for the elements, by whatever calls and changes `effect` tells.
pub open spec fn asked(
    l: Lower,
    iterable_e: &TypedExpr,
    callback: &TypedExpr,
    q: &Question,
    s: St,
    code: Seq<BasicBlock>,
    sem: Oracle,
    items: Seq<Value>,
    preds: Seq<bool>,
    effect: spec_fn(int, Mem) -> Mem,
    r: Run,
) -> bool {
    let a = question(l, iterable_e, callback, q, s);
    &&& asks_by_loop(callback, a.before)
    &&& asking_loop(a.iterable, &a.iterable_ty, q, a.before.b, a.end.b, a.pred, code)
    &&& body_asks(code, sem, a.before.b, r, a.start.b, a.end.b, a.i, a.pred, preds, effect)
    &&& is_at(a.before.b, r)
    &&& a.iterable.0 < a.before.b.temp_types.len()
    &&& r.vals[a.iterable] == Value::Items(items)
    &&& preds.len() == items.len()
}

/// A run of what a question is lowered to comes behind it with the answer. The callback has been
/// asked for the first elements, in order, and for no others: for as many as `answer` says.
pub proof fn question_is_answered(
    l: Lower,
    iterable_e: &TypedExpr,
    callback: &TypedExpr,
    q: &Question,
    s: St,
    code: Seq<BasicBlock>,
    sem: Oracle,
    items: Seq<Value>,
    preds: Seq<bool>,
    effect: spec_fn(int, Mem) -> Mem,
    r: Run,
) -> (r2: Run)
    requires
        asked(l, iterable_e, callback, q, s, code, sem, items, preds, effect, r),
    ensures
        ({
            let (s2, t) = lower_quantified_spec(l, iterable_e, callback, q, s);
            let (truth, n) = answer(q, q.start, preds);
            &&& comes_to(code, sem, r, r2)
            &&& is_at(s2.b, r2)
            &&& r2.vals[t] == Value::Truth(truth)
            &&& r2.mem == effects(effect, 0, n, r.mem)
        }),
{
    let a = question(l, iterable_e, callback, q, s);
    question_becomes_a_loop(l, iterable_e, callback, q, s);
    loop_answers_its_question(
        a.iterable,
        &a.iterable_ty,
        q,
        a.before.b,
        a.end.b,
        a.pred,
        code,
        sem,
        items,
        preds,
        effect,
        r,
    )
}

/// A run of what `some` is lowered to gives true where the callback holds of an element, and else
/// false.
pub proof fn some_runs_to_whether_one_is(
    l: Lower,
    iterable_e: &TypedExpr,
    callback: &TypedExpr,
    s: St,
    code: Seq<BasicBlock>,
    sem: Oracle,
    items: Seq<Value>,
    preds: Seq<bool>,
    effect: spec_fn(int, Mem) -> Mem,
    r: Run,
) -> (r2: Run)
    requires
        asked(l, iterable_e, callback, &some_question(), s, code, sem, items, preds, effect, r),
    ensures
        ({
            let (s2, t) = lower_some_spec(l, iterable_e, callback, s);
            let n = answer(&some_question(), false, preds).1;
            &&& comes_to(code, sem, r, r2)
            &&& is_at(s2.b, r2)
            &&& r2.vals[t] == Value::Truth(
                exists|i: int| 0 <= i < preds.len() && #[trigger] preds[i],
            )
            &&& r2.mem == effects(effect, 0, n, r.mem)
        }),
{
    reveal(lower_some_spec);
    some_finds_an_element(preds);
    question_is_answered(
        l,
        iterable_e,
        callback,
        &some_question(),
        s,
        code,
        sem,
        items,
        preds,
        effect,
        r,
    )
}

/// A run of what `every` is lowered to gives true where the callback holds of all elements, and
/// else false.
pub proof fn every_runs_to_whether_all_are(
    l: Lower,
    iterable_e: &TypedExpr,
    callback: &TypedExpr,
    s: St,
    code: Seq<BasicBlock>,
    sem: Oracle,
    items: Seq<Value>,
    preds: Seq<bool>,
    effect: spec_fn(int, Mem) -> Mem,
    r: Run,
) -> (r2: Run)
    requires
        asked(l, iterable_e, callback, &every_question(), s, code, sem, items, preds, effect, r),
    ensures
        ({
            let (s2, t) = lower_every_spec(l, iterable_e, callback, s);
            let n = answer(&every_question(), true, preds).1;
            &&& comes_to(code, sem, r, r2)
            &&& is_at(s2.b, r2)
            &&& r2.vals[t] == Value::Truth(
                forall|i: int| 0 <= i < preds.len() ==> #[trigger] preds[i],
            )
            &&& r2.mem == effects(effect, 0, n, r.mem)
        }),
{
    reveal(lower_every_spec);
    every_checks_all_elements(preds);
    question_is_answered(
        l,
        iterable_e,
        callback,
        &every_question(),
        s,
        code,
        sem,
        items,
        preds,
        effect,
        r,
    )
}

/// Of the same elements, `every` with a callback gives the negation of `some` with a callback that
/// is turned round, and the two callbacks are asked as often: two runs, one of what `every` is
/// lowered to and one of what `some` is lowered to, end with opposite truth values after as many
/// calls.
pub proof fn every_runs_as_not_some_of_the_opposite(
    l: Lower,
    iterable_e: &TypedExpr,
    callback: &TypedExpr,
    s: St,
    code: Seq<BasicBlock>,
    sem: Oracle,
    items: Seq<Value>,
    preds: Seq<bool>,
    effect: spec_fn(int, Mem) -> Mem,
    r: Run,
    opposite: &TypedExpr,
    other_s: St,
    other_code: Seq<BasicBlock>,
    other_effect: spec_fn(int, Mem) -> Mem,
    other_r: Run,
) -> (rs: (Run, Run))
    requires
        asked(l, iterable_e, callback, &every_question(), s, code, sem, items, preds, effect, r),
        asked(
            l,
            iterable_e,
            opposite,
            &some_question(),
            other_s,
            other_code,
            sem,
            items,
            turned_round(preds),
            other_effect,
            other_r,
        ),
    ensures
        ({
            let (s2, all) = lower_every_spec(l, iterable_e, callback, s);
            let (s3, one) = lower_some_spec(l, iterable_e, opposite, other_s);
            let (truth, n) = answer(&every_question(), true, preds);
            &&& comes_to(code, sem, r, rs.0)
            &&& is_at(s2.b, rs.0)
            &&& comes_to(other_code, sem, other_r, rs.1)
            &&& is_at(s3.b, rs.1)
            &&& rs.0.vals[all] == Value::Truth(truth)
            &&& rs.1.vals[one] == Value::Truth(!truth)
            &&& rs.0.mem == effects(effect, 0, n, r.mem)
            &&& rs.1.mem == effects(other_effect, 0, n, other_r.mem)
        }),
{
    reveal(lower_every_spec);
    reveal(lower_some_spec);
    every_is_not_some_of_the_opposite(preds);
    let one = question_is_answered(
        l,
        iterable_e,
        opposite,
        &some_question(),
        other_s,
        other_code,
        sem,
        items,
        turned_round(preds),
        other_effect,
        other_r,
    );
    let all = question_is_answered(
        l,
        iterable_e,
        callback,
        &every_question(),
        s,
        code,
        sem,
        items,
        preds,
        effect,
        r,
    );
    (all, one)
}

// Callbacks that are inlined.

/// The body of the loop stays local where the function is inlined.
proof fn inlined_ask_local(
    l: Lower,
    lam: &Lambda,
    iterable: Temp,
    iterable_ty: &Type,
    elem_ty: &Type,
    i: Temp,
    s: St,
    code: Seq<BasicBlock>,
    sem: Oracle,
    m: Meaning,
)
    requires
        bodies_mean(l, code, sem, m),
        (m.known)(*lam),
    ensures
        stays_local(s.b, inlined_ask(l, lam, iterable, iterable_ty, elem_ty, i, s).0.b),
        ({
            let (b1, elem) = s.b.index(iterable, i, iterable_ty, &Type::Int64, elem_ty, false);
            let (b2, idx) = narrow_loop_index_spec(i, b1);
            let args = elem_and_index(elem, elem_ty, idx);
            let (s3, raw) = inlined(l, *lam, args, St { b: b2, c: s.c });
            let b4 = as_bool_spec(raw.temp, &raw.ty, s3.b).0;
            let last = inlined_ask(l, lam, iterable, iterable_ty, elem_ty, i, s).0.b;
            &&& stays_local(s.b, b1)
            &&& stays_local(b1, b2)
            &&& stays_local(b2, s3.b)
            &&& stays_local(s3.b, b4)
            &&& stays_local(b4, last)
            &&& b2.temp_types.len() < u32::MAX ==> b2.temp_types.len() == s.b.temp_types.len() + 2
        }),
{
    let (b1, elem) = s.b.index(iterable, i, iterable_ty, &Type::Int64, elem_ty, false);
    let (b2, idx) = narrow_loop_index_spec(i, b1);
    let args = elem_and_index(elem, elem_ty, idx);
    let (s3, raw) = inlined(l, *lam, args, St { b: b2, c: s.c });
    let b4 = as_bool_spec(raw.temp, &raw.ty, s3.b).0;
    let last = inlined_ask(l, lam, iterable, iterable_ty, elem_ty, i, s).0.b;
    assert(stays_local(s.b, b1) && stays_local(b1, b2) && (b2.temp_types.len() < u32::MAX
        ==> b2.temp_types.len() == s.b.temp_types.len() + 2)) by {
        reveal(FState::index);
        reveal(narrow_loop_index_spec);
        reveal(FState::coerce);
        reveal(FState::alloc_temp);
        reveal(FState::emit);
        reveal_with_fuel(instrs, 2);
    }
    truth_local(raw.temp, &raw.ty, s3.b);
    reclaim_local(elem, elem_ty, b4);
    local_adds_up(s.b, b1, b2);
    local_adds_up(s.b, b2, s3.b);
    local_adds_up(s.b, s3.b, b4);
    local_adds_up(s.b, b4, last);
}

/// Where the function is inlined, the body of the loop finds for each element the truth value that
/// the function gives, by the changes that it makes.
proof fn inlined_ask_runs(
    l: Lower,
    lam: &Lambda,
    iterable: Temp,
    iterable_ty: &Type,
    elem_ty: &Type,
    i: Temp,
    s: St,
    code: Seq<BasicBlock>,
    sem: Oracle,
    m: Meaning,
    items: Seq<Value>,
    k: int,
    r: Run,
) -> (r2: Run)
    requires
        bodies_mean(l, code, sem, m),
        (m.known)(*lam),
        fits(m, s.b, r),
        is_open(s.b),
        ({
            let s2 = inlined_ask(l, lam, iterable, iterable_ty, elem_ty, i, s).0;
            &&& s2.b.blocks.len() < u32::MAX
            &&& s2.b.temp_types.len() < u32::MAX
            &&& part_stands(s.b, s2.b, code)
        }),
        is_at(s.b, r),
        i.0 < s.b.temp_types.len(),
        r.vals[i] == Value::Number(k),
        r.vals[iterable] == Value::Items(items),
    ensures
        ({
            let (s2, pred) = inlined_ask(l, lam, iterable, iterable_ty, elem_ty, i, s);
            let given = taken(*lam, placed(items[k], k));
            &&& comes_to(code, sem, r, r2)
            &&& is_at(s2.b, r2)
            &&& same_below(s.b, r, r2)
            &&& r2.vals[pred] == (m.value)(*lam, given)
            &&& r2.mem == (m.effect)(*lam, given, r.mem)
        }),
{
    let (b1, elem) = s.b.index(iterable, i, iterable_ty, &Type::Int64, elem_ty, false);
    let (b2, idx) = narrow_loop_index_spec(i, b1);
    let from = St { b: b2, c: s.c };
    let args = elem_and_index(elem, elem_ty, idx);
    let (s3, raw) = inlined(l, *lam, args, from);
    let (b4, pred) = as_bool_spec(raw.temp, &raw.ty, s3.b);
    let last = inlined_ask(l, lam, iterable, iterable_ty, elem_ty, i, s).0.b;
    inlined_ask_local(l, lam, iterable, iterable_ty, elem_ty, i, s, code, sem, m);
    local_adds_up(s3.b, b4, last);
    local_adds_up(b2, s3.b, last);
    local_adds_up(b1, b2, last);
    halves_stand(s.b, b1, last, code);
    halves_stand(b1, b2, last, code);
    halves_stand(b2, s3.b, last, code);
    halves_stand(s3.b, b4, last, code);
    element_runs(s.b, iterable, i, iterable_ty, elem_ty, code, sem, r);
    let read = Instruction::Index {
        dst: elem,
        object: iterable,
        key: i,
        obj_ty: *iterable_ty,
        key_ty: Type::Int64,
        result_ty: *elem_ty,
        nonneg: false,
    };
    let r1 = after_instr(sem, read, r);
    let r2 = index_runs(b1, i, code, sem, r1, k);
    let r3 = step_body_runs(l, lam, elem, elem_ty, idx, from, code, sem, m, items[k], k, r2);
    let r4 = truth_runs(raw.temp, &raw.ty, s3.b, code, sem, r3);
    let r5 = reclaim_runs(elem, elem_ty, b4, code, sem, r4);
    comes_further(code, sem, r, r1, r2);
    comes_further(code, sem, r, r2, r3);
    comes_further(code, sem, r, r3, r4);
    comes_further(code, sem, r, r4, r5);
    assert(same_below(s.b, r, r3));
    r5
}

/// A callback that is inlined is asked as it means: where it gives the truth values `preds` for
/// the elements, in their order and with their positions, the loop asks it for these, by the
/// changes that it makes. What the laws on questions say then holds of it.
pub proof fn inlined_callback_is_asked(
    l: Lower,
    iterable_e: &TypedExpr,
    callback: &TypedExpr,
    q: &Question,
    s: St,
    code: Seq<BasicBlock>,
    sem: Oracle,
    m: Meaning,
    items: Seq<Value>,
    preds: Seq<bool>,
    r: Run,
) -> (effect: spec_fn(int, Mem) -> Mem)
    requires
        ({
            let a = question(l, iterable_e, callback, q, s);
            let lam = inlinable_local_fn_spec(callback, a.before)->Some_0;
            let (s2, t) = lower_quantified_spec(l, iterable_e, callback, q, s);
            &&& bare_fn_call_target_spec(callback, a.before) is None
            &&& inlinable_local_fn_spec(callback, a.before) is Some
            &&& !reads_elem_in_place(&a.iterable_ty, &lam)
            &&& bodies_mean(l, code, sem, m)
            &&& (m.known)(lam)
            &&& fits(m, a.before.b, r)
            &&& flag_room(a.before.b)
            &&& s2.b.blocks.len() < u32::MAX
            &&& s2.b.temp_types.len() < u32::MAX
            &&& part_stands(a.before.b, s2.b, code)
            &&& is_at(a.before.b, r)
            &&& a.iterable.0 < a.before.b.temp_types.len()
            &&& r.vals[a.iterable] == Value::Items(items)
            &&& preds.len() == items.len()
            &&& forall|k: int|
                0 <= k < items.len() ==> (m.value)(lam, taken(lam, placed(#[trigger] items[k], k)))
                    == Value::Truth(preds[k])
        }),
    ensures
        asked(l, iterable_e, callback, q, s, code, sem, items, preds, effect, r),
        forall|k: int, mem: Mem| #[trigger]
            effect(k, mem) == ({
                let a = question(l, iterable_e, callback, q, s);
                let lam = inlinable_local_fn_spec(callback, a.before)->Some_0;
                (m.effect)(lam, taken(lam, placed(items[k], k)), mem)
            }),
{
    let a = question(l, iterable_e, callback, q, s);
    let lam = inlinable_local_fn_spec(callback, a.before)->Some_0;
    let elem_ty = combinator_read_elem_ty_spec(iterable_e, s);
    let effect = |k: int, mem: Mem| (m.effect)(lam, taken(lam, placed(items[k], k)), mem);
    question_becomes_a_loop(l, iterable_e, callback, q, s);
    flag_loop_lies(a.iterable, &a.iterable_ty, q, a.before.b);
    inlined_ask_local(l, &lam, a.iterable, &a.iterable_ty, &elem_ty, a.i, a.start, code, sem, m);
    let f = begin_flag_loop_spec(a.iterable, &a.iterable_ty, q, a.before.b).1;
    flag_end_adds(&f, a.pred, q, a.end.b);
    assert(asking_loop(a.iterable, &a.iterable_ty, q, a.before.b, a.end.b, a.pred, code));
    flag_loop_ends(a.iterable, &a.iterable_ty, q, a.before.b, a.end.b, a.pred, code);
    assert forall|k: int, x: Run|
        0 <= k < preds.len() && same_below(a.before.b, r, x) && #[trigger] starts_body(
            a.start.b,
            a.i,
            k,
            x,
        ) implies exists|x2: Run|
        {
            &&& #[trigger] comes_to(code, sem, x, x2)
            &&& body_asked(a.start.b, a.end.b, a.pred, preds[k], effect(k, x.mem), x, x2)
        } by {
        assert(items[k] == items[k]);
        let x2 = inlined_ask_runs(
            l,
            &lam,
            a.iterable,
            &a.iterable_ty,
            &elem_ty,
            a.i,
            a.start,
            code,
            sem,
            m,
            items,
            k,
            x,
        );
    }
    effect
}

/// How much the end of the loop adds.
pub(crate) proof fn flag_end_adds(f: &FlagLoop, pred: Temp, q: &Question, b: FState)
    ensures
        end_flag_loop_spec(f, pred, q.op, b).blocks.len() == b.blocks.len(),
        b.temp_types.len() <= end_flag_loop_spec(f, pred, q.op, b).temp_types.len(),
{
    reveal(end_flag_loop_spec);
    reveal(FState::const_temp);
    reveal(FState::alloc_temp);
    reveal(FState::emit);
    reveal(FState::terminate);
    reveal(FState::switch_to);
}

} // verus!
