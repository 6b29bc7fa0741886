//! Questions that call their callback through its value: what it is called with, and how often.

use crate::asking::{answer, effects};
use crate::ast::TypedExpr;
use crate::builder::FState;
use crate::coerce::{
    box_to_json_spec, coerce_arg_to_param_spec, narrow_loop_index_spec, release_if_distinct_spec,
};
use crate::combinator::{
    Question, box_index_spec, every_question, lower_quantified_spec, some_question,
};
use crate::ctx::{Lower, St, low};
use crate::fusing::index_runs;
use crate::fusion::{alloc_local, coerce_local, emit_local};
use crate::ir::{BasicBlock, CallTarget, Instruction, Temp};
use crate::leaving::{calling, kept_in, question_is_answered_by_calls, question_lies};
use crate::list::{List, two};
use crate::looping::{halves_stand, part_stands, passed, starts_body};
use crate::loops::{
    TypedTemp, call_body_closure_with_elem_boxes_spec, closure_args_with_boxes_spec,
    free_combinator_sealed_elem_spec,
};
use crate::questions::asks_by_loop;
use crate::recognize::{callback_signature, two_or_more};
use crate::repr::{is_sealed_scalar_repr, is_union_ty};
use crate::run::{
    Call, Mem, Oracle, Run, Value, after_instr, comes_further, comes_to, comes_to_itself,
    conversion_runs, emitted_runs, is_at, is_open, local_adds_up, made_runs, same_below,
    stays_local, values_of,
};
use crate::straight::{perhaps_released, release_local, release_runs};
use crate::types::{Type, json};
use vstd::prelude::*;

verus! {

// Arguments.

/// The values of the arguments that a function with these parameters takes.
pub open spec fn passed_values(
    args: &List<TypedTemp>,
    params: &List<Type>,
    vals: Map<Temp, Value>,
) -> Seq<Value>
    decreases args,
{
    match args {
        List::Nil => Seq::empty(),
        List::Cons(a) => match params {
            List::Nil => Seq::empty(),
            List::Cons(p) => seq![vals[a.head.temp]] + passed_values(&a.tail, &p.tail, vals),
        },
    }
}

/// The arguments are temporaries below `n`.
pub open spec fn args_below(args: &List<TypedTemp>, n: nat) -> bool
    decreases args,
{
    match args {
        List::Nil => true,
        List::Cons(a) => a.head.temp.0 < n && args_below(&a.tail, n),
    }
}

/// With more temporaries the arguments still exist.
pub(crate) proof fn args_below_more(args: &List<TypedTemp>, n: nat, more: nat)
    requires
        args_below(args, n),
        n <= more,
    ensures
        args_below(args, more),
    decreases args,
{
    match args {
        List::Nil => {},
        List::Cons(a) => args_below_more(&a.tail, n, more),
    }
}

/// The values depend on the arguments' temporaries alone.
pub(crate) proof fn passed_values_same(
    args: &List<TypedTemp>,
    params: &List<Type>,
    b: FState,
    r: Run,
    later: Run,
)
    requires
        args_below(args, b.temp_types.len()),
        same_below(b, r, later),
    ensures
        passed_values(args, params, later.vals) == passed_values(args, params, r.vals),
    decreases args,
{
    match args {
        List::Nil => {},
        List::Cons(a) => match params {
            List::Nil => {},
            List::Cons(p) => passed_values_same(&a.tail, &p.tail, b, r, later),
        },
    }
}

/// Boxing stays local.
pub(crate) proof fn box_local(val: Temp, ty: &Type, b: FState)
    ensures
        stays_local(b, box_to_json_spec(val, ty, b).0),
{
    reveal(box_to_json_spec);
    coerce_local(b, val, ty, &json());
}

/// A box stands for the same value.
pub(crate) proof fn box_runs(
    val: Temp,
    ty: &Type,
    b: FState,
    code: Seq<BasicBlock>,
    sem: Oracle,
    r: Run,
) -> (r2: Run)
    requires
        is_open(b),
        box_to_json_spec(val, ty, b).0.temp_types.len() < u32::MAX,
        part_stands(b, box_to_json_spec(val, ty, b).0, code),
        is_at(b, r),
        val.0 < b.temp_types.len(),
    ensures
        ({
            let (b2, t) = box_to_json_spec(val, ty, b);
            &&& comes_to(code, sem, r, r2)
            &&& is_at(b2, r2)
            &&& same_below(b, r, r2)
            &&& r2.mem == r.mem
            &&& r2.vals[t] == r.vals[val]
            &&& t.0 < b2.temp_types.len()
        }),
{
    reveal(box_to_json_spec);
    if is_union_ty(ty) {
        comes_to_itself(code, sem, r);
        r
    } else {
        assert(b.temp_types.len() < u32::MAX) by {
            reveal(FState::coerce);
            reveal(FState::alloc_temp);
            reveal(FState::emit);
        }
        conversion_runs(b, val, ty, &json(), code, sem, r);
        let t = b.coerce(val, ty, &json()).1;
        after_instr(sem, Instruction::Coerce { dst: t, src: val, from_ty: *ty, to_ty: json() }, r)
    }
}

/// An argument as its parameter holds it stays local.
proof fn arg_local(arg: Temp, ty: &Type, param: &Type, b: FState)
    ensures
        stays_local(b, coerce_arg_to_param_spec(arg, ty, Some(param), b).0),
{
    reveal(coerce_arg_to_param_spec);
    box_local(arg, ty, b);
}

/// The arguments stay local.
pub(crate) proof fn args_local(args: &List<TypedTemp>, params: &List<Type>, b: FState)
    ensures
        stays_local(b, closure_args_with_boxes_spec(args, params, b).0),
    decreases args,
{
    reveal(closure_args_with_boxes_spec);
    match args {
        List::Nil => {},
        List::Cons(a) => match params {
            List::Nil => {},
            List::Cons(p) => {
                let b1 = coerce_arg_to_param_spec(a.head.temp, &a.head.ty, Some(&p.head), b).0;
                arg_local(a.head.temp, &a.head.ty, &p.head, b);
                args_local(&a.tail, &p.tail, b1);
                local_adds_up(b, b1, closure_args_with_boxes_spec(args, params, b).0);
            },
        },
    }
}

/// The arguments stand for the values that they are made from.
pub(crate) proof fn args_run(
    args: &List<TypedTemp>,
    params: &List<Type>,
    b: FState,
    code: Seq<BasicBlock>,
    sem: Oracle,
    r: Run,
) -> (r2: Run)
    requires
        is_open(b),
        closure_args_with_boxes_spec(args, params, b).0.blocks.len() < u32::MAX,
        closure_args_with_boxes_spec(args, params, b).0.temp_types.len() < u32::MAX,
        part_stands(b, closure_args_with_boxes_spec(args, params, b).0, code),
        is_at(b, r),
        args_below(args, b.temp_types.len()),
    ensures
        ({
            let (b2, given) = closure_args_with_boxes_spec(args, params, b);
            &&& comes_to(code, sem, r, r2)
            &&& is_at(b2, r2)
            &&& same_below(b, r, r2)
            &&& r2.mem == r.mem
            &&& values_of(&given.args, r2.vals) == passed_values(args, params, r.vals)
        }),
    decreases args,
{
    reveal(closure_args_with_boxes_spec);
    let (b2, given) = closure_args_with_boxes_spec(args, params, b);
    match args {
        List::Nil => {
            comes_to_itself(code, sem, r);
            r
        },
        List::Cons(a) => match params {
            List::Nil => {
                comes_to_itself(code, sem, r);
                r
            },
            List::Cons(p) => {
                let t = a.head.temp;
                let (b1, arg) = coerce_arg_to_param_spec(t, &a.head.ty, Some(&p.head), b);
                arg_local(t, &a.head.ty, &p.head, b);
                args_local(&a.tail, &p.tail, b1);
                halves_stand(b, b1, b2, code);
                let r1 = arg_runs(t, &a.head.ty, &p.head, b, code, sem, r);
                args_below_more(&a.tail, b.temp_types.len(), b1.temp_types.len());
                let r2 = args_run(&a.tail, &p.tail, b1, code, sem, r1);
                comes_further(code, sem, r, r1, r2);
                passed_values_same(&a.tail, &p.tail, b, r, r1);
                assert(r2.vals[arg] == r.vals[t]);
                r2
            },
        },
    }
}

/// An argument as its parameter holds it stands for the same value.
proof fn arg_runs(
    arg: Temp,
    ty: &Type,
    param: &Type,
    b: FState,
    code: Seq<BasicBlock>,
    sem: Oracle,
    r: Run,
) -> (r2: Run)
    requires
        is_open(b),
        coerce_arg_to_param_spec(arg, ty, Some(param), b).0.temp_types.len() < u32::MAX,
        part_stands(b, coerce_arg_to_param_spec(arg, ty, Some(param), b).0, code),
        is_at(b, r),
        arg.0 < b.temp_types.len(),
    ensures
        ({
            let (b2, t) = coerce_arg_to_param_spec(arg, ty, Some(param), b);
            &&& comes_to(code, sem, r, r2)
            &&& is_at(b2, r2)
            &&& same_below(b, r, r2)
            &&& r2.mem == r.mem
            &&& r2.vals[t] == r.vals[arg]
            &&& t.0 < b2.temp_types.len()
        }),
{
    reveal(coerce_arg_to_param_spec);
    if is_union_ty(param) && !is_union_ty(ty) {
        box_runs(arg, ty, b, code, sem, r)
    } else {
        comes_to_itself(code, sem, r);
        r
    }
}

/// Giving back what was boxed stays local.
proof fn boxes_local(vals: &List<Temp>, other: Temp, b: FState)
    ensures
        stays_local(b, release_if_distinct_spec(vals, other, b)),
    decreases vals,
{
    reveal(release_if_distinct_spec);
    match vals {
        List::Nil => {},
        List::Cons(n) => {
            let i = Instruction::ReleaseIfDistinct { val: n.head, other };
            emit_local(b, i);
            boxes_local(&n.tail, other, b.emit(i));
            local_adds_up(b, b.emit(i), release_if_distinct_spec(vals, other, b));
        },
    }
}

/// Giving back what was boxed changes nothing that counts here.
proof fn boxes_run(
    vals: &List<Temp>,
    other: Temp,
    b: FState,
    code: Seq<BasicBlock>,
    sem: Oracle,
    r: Run,
) -> (r2: Run)
    requires
        is_open(b),
        release_if_distinct_spec(vals, other, b).blocks.len() < u32::MAX,
        release_if_distinct_spec(vals, other, b).temp_types.len() < u32::MAX,
        part_stands(b, release_if_distinct_spec(vals, other, b), code),
        is_at(b, r),
    ensures
        comes_to(code, sem, r, r2),
        is_at(release_if_distinct_spec(vals, other, b), r2),
        r2.vals == r.vals,
        r2.mem == r.mem,
    decreases vals,
{
    reveal(release_if_distinct_spec);
    match vals {
        List::Nil => {
            comes_to_itself(code, sem, r);
            r
        },
        List::Cons(n) => {
            let i = Instruction::ReleaseIfDistinct { val: n.head, other };
            let b1 = b.emit(i);
            emit_local(b, i);
            boxes_local(&n.tail, other, b1);
            halves_stand(b, b1, release_if_distinct_spec(vals, other, b), code);
            emitted_runs(b, i, code, sem, r);
            let r1 = after_instr(sem, i, r);
            let r2 = boxes_run(&n.tail, other, b1, code, sem, r1);
            comes_further(code, sem, r, r1, r2);
            r2
        },
    }
}

// The callback.

/// What a callback with these parameters is called with for an element and its position.
pub open spec fn given(params: &List<Type>, x: Value, k: int) -> Seq<Value> {
    match params {
        List::Nil => Seq::empty(),
        List::Cons(p) => if p.tail is Nil { seq![x] } else {
            seq![x, Value::Number(k)]
        },
    }
}

/// A call of `callee` gives what `reply` says of the arguments.
pub open spec fn replies(
    sem: Oracle,
    callee: CallTarget,
    reply: spec_fn(Seq<Value>) -> Value,
) -> bool {
    forall|dst: Temp, args: List<Temp>, ret_ty: Type, vals: Map<Temp, Value>, mem: Mem|
        #[trigger] sem(Instruction::Call { dst, callee, args, ret_ty }, vals, mem) == reply(
            values_of(&args, vals),
        )
}

/// A call of a value is one more call.
pub open spec fn one_call_more(
    callee: CallTarget,
    params: &List<Type>,
    items: Seq<Value>,
) -> spec_fn(int, Mem) -> Mem {
    |k: int, mem: Mem|
        Mem { calls: mem.calls.push(Call { callee, args: given(params, items[k], k) }), ..mem }
}

/// The states between the start of the body and where the callback has been asked.
pub struct CallStates {
    pub raw: Temp,
    pub indexed: FState,
    pub idx: TypedTemp,
    pub boxed: FState,
    pub args: List<TypedTemp>,
    pub ready: FState,
    pub made: FState,
    pub dst: Temp,
    pub freed: FState,
}

/// The states between the start of the body and where the callback has been asked.
pub open spec fn call_states(
    body: Temp,
    params: &List<Type>,
    elem: Temp,
    elem_ty: &Type,
    i: Temp,
    b: FState,
) -> CallStates {
    let (indexed, raw) = narrow_loop_index_spec(i, b);
    let (boxed, idx) = box_index_spec(raw, two_or_more(params), indexed);
    let args = two(TypedTemp { temp: elem, ty: *elem_ty }, idx);
    let (ready, call_args) = closure_args_with_boxes_spec(&args, params, boxed);
    let (made, dst) = ready.call(CallTarget::Indirect(body), call_args.args, &Type::Bool);
    let freed = release_if_distinct_spec(&call_args.boxes, dst, made);
    CallStates { raw, indexed, idx, boxed, args, ready, made, dst, freed }
}

/// Where the callback has been asked.
pub open spec fn call_end(
    body: Temp,
    params: &List<Type>,
    elem: Temp,
    elem_ty: &Type,
    i: Temp,
    b: FState,
) -> FState {
    let c = call_states(body, params, elem, elem_ty, i, b);
    free_combinator_sealed_elem_spec(elem, elem_ty, c.freed)
}

/// Asking the callback stays local.
proof fn call_local(body: Temp, params: &List<Type>, elem: Temp, elem_ty: &Type, i: Temp, b: FState)
    ensures
        ({
            let c = call_states(body, params, elem, elem_ty, i, b);
            let last = call_end(body, params, elem, elem_ty, i, b);
            &&& stays_local(b, c.indexed)
            &&& stays_local(c.indexed, c.boxed)
            &&& stays_local(c.boxed, c.ready)
            &&& stays_local(c.ready, c.made)
            &&& stays_local(c.made, c.freed)
            &&& stays_local(c.freed, last)
            &&& stays_local(b, last)
            &&& c.made.temp_types.len() < u32::MAX ==> c.ready.temp_types.len() < u32::MAX
                && c.dst.0 < c.made.temp_types.len()
            &&& c.freed.temp_types.len() == c.made.temp_types.len()
        }),
{
    let c = call_states(body, params, elem, elem_ty, i, b);
    let last = call_end(body, params, elem, elem_ty, i, b);
    reveal(narrow_loop_index_spec);
    reveal(box_index_spec);
    reveal(FState::call);
    reveal(free_combinator_sealed_elem_spec);
    coerce_local(b, i, &Type::Int64, &Type::Int32);
    box_local(c.raw, &Type::Int32, c.indexed);
    args_local(&c.args, params, c.boxed);
    let call_args = closure_args_with_boxes_spec(&c.args, params, c.boxed).1;
    let callee = CallTarget::Indirect(body);
    let call = Instruction::Call { dst: c.dst, callee, args: call_args.args, ret_ty: Type::Bool };
    let b1 = c.ready.alloc_temp(Type::Bool).0;
    alloc_local(c.ready, Type::Bool);
    emit_local(b1, call);
    local_adds_up(c.ready, b1, c.made);
    boxes_local(&call_args.boxes, c.dst, c.made);
    boxes_add_nothing(&call_args.boxes, c.dst, c.made);
    release_local(c.freed, is_sealed_scalar_repr(elem_ty), elem, elem_ty);
    local_adds_up(b, c.indexed, c.boxed);
    local_adds_up(b, c.boxed, c.ready);
    local_adds_up(b, c.ready, c.made);
    local_adds_up(b, c.made, c.freed);
    local_adds_up(b, c.freed, last);
    reveal(FState::alloc_temp);
    reveal(FState::emit);
}

/// Giving back what was boxed adds no temporaries.
proof fn boxes_add_nothing(vals: &List<Temp>, other: Temp, b: FState)
    ensures
        release_if_distinct_spec(vals, other, b).temp_types == b.temp_types,
    decreases vals,
{
    reveal(release_if_distinct_spec);
    reveal(FState::emit);
    match vals {
        List::Nil => {},
        List::Cons(n) => {
            let i = Instruction::ReleaseIfDistinct { val: n.head, other };
            boxes_add_nothing(&n.tail, other, b.emit(i));
        },
    }
}

/// Asking the callback runs: it is called once, with the element and as much of the position as it
/// takes, and its reply is the truth value.
proof fn call_runs(
    body: Temp,
    params: &List<Type>,
    elem: Temp,
    elem_ty: &Type,
    i: Temp,
    b: FState,
    code: Seq<BasicBlock>,
    sem: Oracle,
    reply: spec_fn(Seq<Value>) -> Value,
    items: Seq<Value>,
    k: int,
    r: Run,
) -> (r2: Run)
    requires
        replies(sem, CallTarget::Indirect(body), reply),
        is_open(b),
        call_end(body, params, elem, elem_ty, i, b).blocks.len() < u32::MAX,
        call_end(body, params, elem, elem_ty, i, b).temp_types.len() < u32::MAX,
        part_stands(b, call_end(body, params, elem, elem_ty, i, b), code),
        is_at(b, r),
        i.0 < b.temp_types.len(),
        elem.0 < b.temp_types.len(),
        r.vals[i] == Value::Number(k),
        r.vals[elem] == items[k],
    ensures
        ({
            let callee = CallTarget::Indirect(body);
            let dst = call_states(body, params, elem, elem_ty, i, b).dst;
            &&& comes_to(code, sem, r, r2)
            &&& is_at(call_end(body, params, elem, elem_ty, i, b), r2)
            &&& same_below(b, r, r2)
            &&& r2.vals[dst] == reply(given(params, items[k], k))
            &&& r2.mem == one_call_more(callee, params, items)(k, r.mem)
        }),
{
    let c = call_states(body, params, elem, elem_ty, i, b);
    let last = call_end(body, params, elem, elem_ty, i, b);
    let callee = CallTarget::Indirect(body);
    call_local(body, params, elem, elem_ty, i, b);
    local_adds_up(c.made, c.freed, last);
    local_adds_up(c.ready, c.made, last);
    local_adds_up(c.boxed, c.ready, last);
    local_adds_up(c.indexed, c.boxed, last);
    halves_stand(b, c.indexed, last, code);
    halves_stand(c.indexed, c.boxed, last, code);
    halves_stand(c.boxed, c.ready, last, code);
    halves_stand(c.ready, c.made, last, code);
    halves_stand(c.made, c.freed, last, code);
    let r1 = index_runs(b, i, code, sem, r, k);
    reveal(box_index_spec);
    let r2 = if two_or_more(params) {
        box_runs(c.raw, &Type::Int32, c.indexed, code, sem, r1)
    } else {
        comes_to_itself(code, sem, r1);
        r1
    };
    comes_further(code, sem, r, r1, r2);
    assert(r2.vals[c.idx.temp] == Value::Number(k) && c.idx.temp.0 < c.boxed.temp_types.len());
    assert(r2.vals[elem] == items[k]);
    reveal_with_fuel(args_below, 3);
    reveal_with_fuel(passed_values, 3);
    assert(args_below(&c.args, c.boxed.temp_types.len()));
    assert(passed_values(&c.args, params, r2.vals) =~= given(params, items[k], k));
    let r3 = args_run(&c.args, params, c.boxed, code, sem, r2);
    comes_further(code, sem, r, r2, r3);
    let call_args = closure_args_with_boxes_spec(&c.args, params, c.boxed).1;
    let call = Instruction::Call { dst: c.dst, callee, args: call_args.args, ret_ty: Type::Bool };
    reveal(FState::call);
    made_runs(c.ready, Type::Bool, call, code, sem, r3);
    let r4 = after_instr(sem, call, r3);
    comes_further(code, sem, r, r3, r4);
    let r5 = boxes_run(&call_args.boxes, c.dst, c.made, code, sem, r4);
    comes_further(code, sem, r, r4, r5);
    reveal(free_combinator_sealed_elem_spec);
    let sealed = is_sealed_scalar_repr(elem_ty);
    assert(last == perhaps_released(c.freed, sealed, elem, elem_ty));
    let r6 = release_runs(c.freed, sealed, elem, elem_ty, code, sem, r5);
    comes_further(code, sem, r, r5, r6);
    assert(same_below(b, r, r3));
    assert(same_below(b, r, r4));
    r6
}

/// The calls for the first `n` elements, in order.
pub open spec fn calls_for(
    callee: CallTarget,
    params: &List<Type>,
    items: Seq<Value>,
    n: nat,
) -> Seq<Call> {
    Seq::new(n, |k: int| Call { callee, args: given(params, items[k], k) })
}

/// The body of the loop calls the callback, and nothing else calls.
proof fn calls_add_up(
    callee: CallTarget,
    params: &List<Type>,
    items: Seq<Value>,
    cell: Temp,
    preds: Seq<bool>,
    k: nat,
    n: nat,
    mem: Mem,
    first: Seq<Call>,
)
    requires
        mem.calls == first + calls_for(callee, params, items, k),
    ensures
        effects(
            kept_in(cell, preds, one_call_more(callee, params, items)),
            k as int,
            n,
            mem,
        ).calls == first + calls_for(callee, params, items, k + n),
    decreases n,
{
    if n > 0 {
        let kept = kept_in(cell, preds, one_call_more(callee, params, items));
        let next = kept(k as int, mem);
        assert(next.calls =~= first + calls_for(callee, params, items, k + 1));
        calls_add_up(callee, params, items, cell, preds, k + 1, (n - 1) as nat, next, first);
    }
}

/// A run of what `some` or `every` is lowered to, where the callback is called through its value:
/// the result is the answer to the question, and the calls that the run has made are those of the
/// callback for the first elements, in order, one for each and with its position where the
/// callback takes it, for as many as `answer` says: none after the one that settles the question.
pub proof fn callback_is_called_in_order(
    l: Lower,
    iterable_e: &TypedExpr,
    callback: &TypedExpr,
    q: &Question,
    s: St,
    code: Seq<BasicBlock>,
    sem: Oracle,
    items: Seq<Value>,
    preds: Seq<bool>,
    reply: spec_fn(Seq<Value>) -> Value,
    r: Run,
) -> (r2: Run)
    requires
        *q == some_question() || *q == every_question(),
        !asks_by_loop(callback, low(l, iterable_e, s).0),
        ({
            let a = calling(l, iterable_e, callback, q, s);
            let params = callback_signature(callback).params;
            let last = lower_quantified_spec(l, iterable_e, callback, q, s).0.b;
            &&& is_open(a.before.b)
            &&& last.blocks.len() < u32::MAX
            &&& last.temp_types.len() < u32::MAX
            &&& part_stands(a.before.b, last, code)
            &&& is_at(a.before.b, r)
            &&& a.iterable.0 < a.before.b.temp_types.len()
            &&& r.vals[a.iterable] == Value::Items(items)
            &&& preds.len() == items.len()
            &&& replies(sem, CallTarget::Indirect(a.body), reply)
            &&& forall|k: int|
                0 <= k < items.len() ==> reply(given(&params, #[trigger] items[k], k))
                    == Value::Truth(preds[k])
        }),
    ensures
        ({
            let a = calling(l, iterable_e, callback, q, s);
            let params = callback_signature(callback).params;
            let (s2, t) = lower_quantified_spec(l, iterable_e, callback, q, s);
            let (truth, n) = answer(q, q.start, preds);
            &&& comes_to(code, sem, r, r2)
            &&& is_at(s2.b, r2)
            &&& r2.vals[t] == Value::Truth(truth)
            &&& r2.mem.calls == r.mem.calls + calls_for(
                CallTarget::Indirect(a.body),
                &params,
                items,
                n,
            )
        }),
{
    let a = calling(l, iterable_e, callback, q, s);
    let params = callback_signature(callback).params;
    let callee = CallTarget::Indirect(a.body);
    let effect = one_call_more(callee, &params, items);
    let n = answer(q, q.start, preds).1;
    reveal(call_body_closure_with_elem_boxes_spec);
    call_local(a.body, &params, a.frame.elem, &a.elem_ty, a.frame.i, a.start);
    assert(a.asked == call_end(a.body, &params, a.frame.elem, &a.elem_ty, a.frame.i, a.start));
    question_lies(l, iterable_e, callback, q, s, code);
    assert forall|k: int, x: Run|
        0 <= k < items.len() && same_below(a.before.b, r, x) && #[trigger] starts_body(
            a.start,
            a.frame,
            items,
            k,
            x,
        ) implies exists|x2: Run|
        {
            &&& #[trigger] comes_to(code, sem, x, x2)
            &&& passed(a.start, a.asked, x, x2)
            &&& x2.vals[a.pred] == Value::Truth(preds[k])
            &&& x2.mem == effect(k, x.mem)
        } by {
        let x2 = call_runs(
            a.body,
            &params,
            a.frame.elem,
            &a.elem_ty,
            a.frame.i,
            a.start,
            code,
            sem,
            reply,
            items,
            k,
            x,
        );
        assert(items[k] == items[k]);
    }
    let r2 = question_is_answered_by_calls(
        l,
        iterable_e,
        callback,
        q,
        s,
        code,
        sem,
        items,
        preds,
        effect,
        r,
    );
    let mem = Mem { cells: r.mem.cells.insert(a.cell, Value::Truth(q.start)), ..r.mem };
    assert(mem.calls =~= r.mem.calls + calls_for(callee, &params, items, 0));
    calls_add_up(callee, &params, items, a.cell, preds, 0, n, mem, r.mem.calls);
    r2
}

} // verus!
