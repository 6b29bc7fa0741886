//! Questions that call a known function: what it is called with, and how often.

use crate::asking::{
    answer, asking_loop, body_asked, effects, flag_loop_ends, flag_loop_lies, flag_room,
    starts_body,
};
use crate::ast::TypedExpr;
use crate::builder::FState;
use crate::calling::{
    args_below, args_below_more, calls_for, given, one_call_more, passed_values, passed_values_same,
    replies,
};
use crate::coerce::{
    free_arg_box_shells_spec, lower_coerce_arg_spec, lower_coerce_plain_arg_spec,
    narrow_loop_index_spec,
};
use crate::combinator::{Question, begin_flag_loop_spec, lower_quantified_spec};
use crate::ctx::{Lower, St};
use crate::fusing::index_runs;
use crate::fusion::{coerce_local, emit_local, reclaim_local, reclaim_runs};
use crate::ir::{BasicBlock, CallTarget, Instruction, Temp};
use crate::list::{List, two};
use crate::looping::{halves_stand, part_stands};
use crate::loops::{
    TypedTemp, call_body_direct_spec, direct_args_spec, elem_and_index, fm_reclaim_elem_spec,
};
use crate::questions::{
    asked, flag_end_adds, question, question_becomes_a_loop, question_is_answered,
};
use crate::recognize::{FnTarget, bare_fn_call_target_spec, combinator_read_elem_ty_spec};
use crate::run::{
    Call, Mem, Oracle, Run, Value, after_instr, asks_length, comes_further, comes_to,
    comes_to_itself, conversion_runs, element_runs, emitted_runs, instrs, is_at, is_open,
    local_adds_up, made_runs, same_below, stays_local, values_of,
};
use crate::types::Type;
use vstd::prelude::*;

verus! {

// Arguments.

/// The same code and temporaries.
pub open spec fn alike(a: FState, b: FState) -> bool {
    &&& a.blocks == b.blocks
    &&& a.temp_types == b.temp_types
    &&& a.env.current_block == b.env.current_block
}

/// An argument was converted to `to`.
pub open spec fn converted(b2: FState, t: Temp, arg: Temp, ty: &Type, to: Type, b: FState) -> bool {
    alike(b2, b.coerce(arg, ty, &to).0) && t == b.coerce(arg, ty, &to).1
}

/// An argument as its parameter holds it is the argument itself or was converted once.
proof fn converted_or_not(arg: Temp, ty: &Type, param: &Type, b: FState)
    ensures
        ({
            let (b2, t) = lower_coerce_arg_spec(arg, ty, Some(param), b);
            ||| alike(b2, b) && t == arg
            ||| exists|to: Type| #[trigger] converted(b2, t, arg, ty, to, b)
        }),
{
    reveal(lower_coerce_arg_spec);
    reveal(lower_coerce_plain_arg_spec);
    reveal(FState::register_owned);
    reveal(FState::record_escape_alias);
    let (b2, t) = lower_coerce_arg_spec(arg, ty, Some(param), b);
    assert(alike(b2, b) && t == arg || converted(b2, t, arg, ty, *param, b) || match ty {
        Type::Object { fields, .. } => {
            let sealed = Type::sealed_object(fields.dup());
            let nullable = Type::Union(two(Type::sealed_object(fields.dup()), Type::Null));
            converted(b2, t, arg, ty, sealed, b) || converted(b2, t, arg, ty, nullable, b)
        },
        _ => false,
    });
}

/// An argument as its parameter holds it stays local.
proof fn arg_local(arg: Temp, ty: &Type, param: &Type, b: FState)
    ensures
        stays_local(b, lower_coerce_arg_spec(arg, ty, Some(param), b).0),
{
    converted_or_not(arg, ty, param, b);
    let (b2, t) = lower_coerce_arg_spec(arg, ty, Some(param), b);
    if !(alike(b2, b) && t == arg) {
        let to = choose|to: Type| #[trigger] converted(b2, t, arg, ty, to, b);
        coerce_local(b, arg, ty, &to);
    }
}

/// An argument as its parameter holds it stands for the same value.
proof fn arg_runs(
    arg: Temp,
    ty: &Type,
    param: &Type,
    b: FState,
    code: Seq<BasicBlock>,
    sem: Oracle,
    r: Run,
) -> (r2: Run)
    requires
        is_open(b),
        lower_coerce_arg_spec(arg, ty, Some(param), b).0.temp_types.len() < u32::MAX,
        part_stands(b, lower_coerce_arg_spec(arg, ty, Some(param), b).0, code),
        is_at(b, r),
        arg.0 < b.temp_types.len(),
    ensures
        ({
            let (b2, t) = lower_coerce_arg_spec(arg, ty, Some(param), b);
            &&& comes_to(code, sem, r, r2)
            &&& is_at(b2, r2)
            &&& same_below(b, r, r2)
            &&& r2.mem == r.mem
            &&& r2.vals[t] == r.vals[arg]
            &&& t.0 < b2.temp_types.len()
        }),
{
    converted_or_not(arg, ty, param, b);
    let (b2, t) = lower_coerce_arg_spec(arg, ty, Some(param), b);
    if alike(b2, b) && t == arg {
        comes_to_itself(code, sem, r);
        r
    } else {
        let to = choose|to: Type| #[trigger] converted(b2, t, arg, ty, to, b);
        assert(b.temp_types.len() < u32::MAX) by {
            reveal(FState::coerce);
            reveal(FState::alloc_temp);
            reveal(FState::emit);
        }
        conversion_runs(b, arg, ty, &to, code, sem, r);
        after_instr(sem, Instruction::Coerce { dst: t, src: arg, from_ty: *ty, to_ty: to }, r)
    }
}

/// The arguments stay local.
proof fn args_local(args: &List<TypedTemp>, params: &List<Type>, b: FState)
    ensures
        stays_local(b, direct_args_spec(args, params, b).0),
    decreases args,
{
    reveal(direct_args_spec);
    match args {
        List::Nil => {},
        List::Cons(a) => match params {
            List::Nil => {},
            List::Cons(p) => {
                let b1 = lower_coerce_arg_spec(a.head.temp, &a.head.ty, Some(&p.head), b).0;
                arg_local(a.head.temp, &a.head.ty, &p.head, b);
                args_local(&a.tail, &p.tail, b1);
                local_adds_up(b, b1, direct_args_spec(args, params, b).0);
            },
        },
    }
}

/// The arguments stand for the values that they are made from.
proof fn args_run(
    args: &List<TypedTemp>,
    params: &List<Type>,
    b: FState,
    code: Seq<BasicBlock>,
    sem: Oracle,
    r: Run,
) -> (r2: Run)
    requires
        is_open(b),
        direct_args_spec(args, params, b).0.blocks.len() < u32::MAX,
        direct_args_spec(args, params, b).0.temp_types.len() < u32::MAX,
        part_stands(b, direct_args_spec(args, params, b).0, code),
        is_at(b, r),
        args_below(args, b.temp_types.len()),
    ensures
        ({
            let (b2, made) = direct_args_spec(args, params, b);
            &&& comes_to(code, sem, r, r2)
            &&& is_at(b2, r2)
            &&& same_below(b, r, r2)
            &&& r2.mem == r.mem
            &&& values_of(&made.args, r2.vals) == passed_values(args, params, r.vals)
        }),
    decreases args,
{
    reveal(direct_args_spec);
    let b2 = direct_args_spec(args, params, b).0;
    match args {
        List::Nil => {
            comes_to_itself(code, sem, r);
            r
        },
        List::Cons(a) => match params {
            List::Nil => {
                comes_to_itself(code, sem, r);
                r
            },
            List::Cons(p) => {
                let t = a.head.temp;
                let (b1, arg) = lower_coerce_arg_spec(t, &a.head.ty, Some(&p.head), b);
                arg_local(t, &a.head.ty, &p.head, b);
                args_local(&a.tail, &p.tail, b1);
                halves_stand(b, b1, b2, code);
                let r1 = arg_runs(t, &a.head.ty, &p.head, b, code, sem, r);
                args_below_more(&a.tail, b.temp_types.len(), b1.temp_types.len());
                let r2 = args_run(&a.tail, &p.tail, b1, code, sem, r1);
                comes_further(code, sem, r, r1, r2);
                passed_values_same(&a.tail, &p.tail, b, r, r1);
                assert(r2.vals[arg] == r.vals[t]);
                r2
            },
        },
    }
}

/// Freeing what boxed the arguments stays local.
proof fn shells_local(shells: &List<Temp>, dst: Temp, b: FState)
    ensures
        stays_local(b, free_arg_box_shells_spec(shells, dst, b)),
        free_arg_box_shells_spec(shells, dst, b).temp_types == b.temp_types,
    decreases shells,
{
    reveal(free_arg_box_shells_spec);
    match shells {
        List::Nil => {},
        List::Cons(n) => {
            let i = Instruction::FreeBoxShellIfDistinct { val: n.head, other: dst };
            emit_local(b, i);
            shells_local(&n.tail, dst, b.emit(i));
            local_adds_up(b, b.emit(i), free_arg_box_shells_spec(shells, dst, b));
            reveal(FState::emit);
        },
    }
}

/// Freeing what boxed the arguments changes nothing that counts here.
proof fn shells_run(
    shells: &List<Temp>,
    dst: Temp,
    b: FState,
    code: Seq<BasicBlock>,
    sem: Oracle,
    r: Run,
) -> (r2: Run)
    requires
        is_open(b),
        free_arg_box_shells_spec(shells, dst, b).blocks.len() < u32::MAX,
        free_arg_box_shells_spec(shells, dst, b).temp_types.len() < u32::MAX,
        part_stands(b, free_arg_box_shells_spec(shells, dst, b), code),
        is_at(b, r),
    ensures
        comes_to(code, sem, r, r2),
        is_at(free_arg_box_shells_spec(shells, dst, b), r2),
        r2.vals == r.vals,
        r2.mem == r.mem,
    decreases shells,
{
    reveal(free_arg_box_shells_spec);
    match shells {
        List::Nil => {
            comes_to_itself(code, sem, r);
            r
        },
        List::Cons(n) => {
            let i = Instruction::FreeBoxShellIfDistinct { val: n.head, other: dst };
            let b1 = b.emit(i);
            emit_local(b, i);
            shells_local(&n.tail, dst, b1);
            halves_stand(b, b1, free_arg_box_shells_spec(shells, dst, b), code);
            emitted_runs(b, i, code, sem, r);
            let r1 = after_instr(sem, i, r);
            let r2 = shells_run(&n.tail, dst, b1, code, sem, r1);
            comes_further(code, sem, r, r1, r2);
            r2
        },
    }
}

// The call.

/// The states of the body: the element has been read, the position, the arguments, the call, and
/// the arguments have been freed.
pub struct DirectStates {
    pub read: FState,
    pub elem: Temp,
    pub indexed: FState,
    pub idx: Temp,
    pub args: List<TypedTemp>,
    pub ready: FState,
    pub made: FState,
    pub dst: Temp,
    pub freed: FState,
    pub last: FState,
}

/// The states of the body.
pub open spec fn direct_states(
    f: &FnTarget,
    iterable: Temp,
    iterable_ty: &Type,
    elem_ty: &Type,
    i: Temp,
    b: FState,
) -> DirectStates {
    let (read, elem) = b.index(iterable, i, iterable_ty, &Type::Int64, elem_ty, false);
    let (indexed, idx) = narrow_loop_index_spec(i, read);
    let args = elem_and_index(elem, elem_ty, idx);
    let (ready, call_args) = direct_args_spec(&args, &f.params, indexed);
    let (made, dst) = ready.call(f.target, call_args.args, &Type::Bool);
    let freed = free_arg_box_shells_spec(&call_args.boxes, dst, made);
    let last = fm_reclaim_elem_spec(elem, elem_ty, freed);
    DirectStates { read, elem, indexed, idx, args, ready, made, dst, freed, last }
}

/// The body stays local.
pub(crate) proof fn direct_local(
    f: &FnTarget,
    iterable: Temp,
    iterable_ty: &Type,
    elem_ty: &Type,
    i: Temp,
    b: FState,
)
    ensures
        ({
            let c = direct_states(f, iterable, iterable_ty, elem_ty, i, b);
            &&& stays_local(b, c.read)
            &&& stays_local(c.read, c.indexed)
            &&& stays_local(c.indexed, c.ready)
            &&& stays_local(c.ready, c.made)
            &&& stays_local(c.made, c.freed)
            &&& stays_local(c.freed, c.last)
            &&& stays_local(b, c.last)
            &&& c.read.temp_types.len() < u32::MAX ==> c.read.temp_types.len()
                == b.temp_types.len() + 1
            &&& c.made.temp_types.len() < u32::MAX ==> c.made.temp_types.len()
                == c.ready.temp_types.len() + 1
        }),
{
    let c = direct_states(f, iterable, iterable_ty, elem_ty, i, b);
    assert(stays_local(b, c.read) && (c.read.temp_types.len() < u32::MAX
        ==> c.read.temp_types.len() == b.temp_types.len() + 1)) by {
        reveal(FState::index);
        reveal(FState::alloc_temp);
        reveal(FState::emit);
        reveal_with_fuel(instrs, 2);
    }
    reveal(narrow_loop_index_spec);
    coerce_local(c.read, i, &Type::Int64, &Type::Int32);
    args_local(&c.args, &f.params, c.indexed);
    let call_args = direct_args_spec(&c.args, &f.params, c.indexed).1;
    assert(stays_local(c.ready, c.made) && (c.made.temp_types.len() < u32::MAX
        ==> c.made.temp_types.len() == c.ready.temp_types.len() + 1)) by {
        reveal(FState::call);
        reveal(FState::alloc_temp);
        reveal(FState::emit);
        reveal_with_fuel(instrs, 2);
    }
    shells_local(&call_args.boxes, c.dst, c.made);
    reclaim_local(c.elem, elem_ty, c.freed);
    local_adds_up(b, c.read, c.indexed);
    local_adds_up(b, c.indexed, c.ready);
    local_adds_up(b, c.ready, c.made);
    local_adds_up(b, c.made, c.freed);
    local_adds_up(b, c.freed, c.last);
}

/// The element is read and the function is called once, with the element and as much of the
/// position as it takes; its reply is the truth value.
pub(crate) proof fn direct_call_runs(
    f: &FnTarget,
    iterable: Temp,
    iterable_ty: &Type,
    elem_ty: &Type,
    i: Temp,
    b: FState,
    code: Seq<BasicBlock>,
    sem: Oracle,
    reply: spec_fn(Seq<Value>) -> Value,
    items: Seq<Value>,
    k: int,
    r: Run,
) -> (r2: Run)
    requires
        replies(sem, f.target, reply),
        !asks_length(f.target),
        is_open(b),
        direct_states(f, iterable, iterable_ty, elem_ty, i, b).freed.blocks.len() < u32::MAX,
        direct_states(f, iterable, iterable_ty, elem_ty, i, b).freed.temp_types.len() < u32::MAX,
        part_stands(b, direct_states(f, iterable, iterable_ty, elem_ty, i, b).freed, code),
        is_at(b, r),
        i.0 < b.temp_types.len(),
        r.vals[i] == Value::Number(k),
        r.vals[iterable] == Value::Items(items),
    ensures
        ({
            let c = direct_states(f, iterable, iterable_ty, elem_ty, i, b);
            &&& comes_to(code, sem, r, r2)
            &&& is_at(c.freed, r2)
            &&& is_open(c.freed)
            &&& c.elem.0 < c.freed.temp_types.len()
            &&& c.dst.0 < c.freed.temp_types.len()
            &&& c.elem.0 == b.temp_types.len()
            &&& b.temp_types.len() <= c.dst.0
            &&& r2.vals[c.elem] == items[k]
            &&& same_below(b, r, r2)
            &&& r2.vals[c.dst] == reply(given(&f.params, items[k], k))
            &&& r2.mem == one_call_more(f.target, &f.params, items)(k, r.mem)
        }),
{
    let c = direct_states(f, iterable, iterable_ty, elem_ty, i, b);
    direct_local(f, iterable, iterable_ty, elem_ty, i, b);
    local_adds_up(c.ready, c.made, c.freed);
    local_adds_up(c.indexed, c.ready, c.freed);
    local_adds_up(c.read, c.indexed, c.freed);
    halves_stand(b, c.read, c.freed, code);
    halves_stand(c.read, c.indexed, c.freed, code);
    halves_stand(c.indexed, c.ready, c.freed, code);
    halves_stand(c.ready, c.made, c.freed, code);
    element_runs(b, iterable, i, iterable_ty, elem_ty, code, sem, r);
    let read = Instruction::Index {
        dst: c.elem,
        object: iterable,
        key: i,
        obj_ty: *iterable_ty,
        key_ty: Type::Int64,
        result_ty: *elem_ty,
        nonneg: false,
    };
    let r1 = after_instr(sem, read, r);
    let r2 = index_runs(c.read, i, code, sem, r1, k);
    comes_further(code, sem, r, r1, r2);
    assert(r2.vals[c.elem] == items[k]);
    reveal_with_fuel(args_below, 3);
    reveal_with_fuel(passed_values, 3);
    assert(args_below(&c.args, c.indexed.temp_types.len()));
    assert(passed_values(&c.args, &f.params, r2.vals) =~= given(&f.params, items[k], k));
    let r3 = args_run(&c.args, &f.params, c.indexed, code, sem, r2);
    comes_further(code, sem, r, r2, r3);
    let call_args = direct_args_spec(&c.args, &f.params, c.indexed).1;
    let call = Instruction::Call {
        dst: c.dst,
        callee: f.target,
        args: call_args.args,
        ret_ty: Type::Bool,
    };
    reveal(FState::call);
    made_runs(c.ready, Type::Bool, call, code, sem, r3);
    let r4 = after_instr(sem, call, r3);
    comes_further(code, sem, r, r3, r4);
    let r5 = shells_run(&call_args.boxes, c.dst, c.made, code, sem, r4);
    comes_further(code, sem, r, r4, r5);
    assert(same_below(b, r, r2));
    assert(same_below(b, r, r3));
    assert(c.dst.0 < c.made.temp_types.len() && c.dst.0 == c.ready.temp_types.len()) by {
        reveal(FState::alloc_temp);
    }
    assert(same_below(b, r, r4));
    assert(r5.vals[c.elem] == items[k]);
    r5
}

/// The body runs: the function is called once, with the element and as much of the position as it
/// takes, and its reply is the truth value.
proof fn direct_runs(
    f: &FnTarget,
    iterable: Temp,
    iterable_ty: &Type,
    elem_ty: &Type,
    i: Temp,
    b: FState,
    code: Seq<BasicBlock>,
    sem: Oracle,
    reply: spec_fn(Seq<Value>) -> Value,
    items: Seq<Value>,
    k: int,
    r: Run,
) -> (r2: Run)
    requires
        replies(sem, f.target, reply),
        !asks_length(f.target),
        is_open(b),
        direct_states(f, iterable, iterable_ty, elem_ty, i, b).last.blocks.len() < u32::MAX,
        direct_states(f, iterable, iterable_ty, elem_ty, i, b).last.temp_types.len() < u32::MAX,
        part_stands(b, direct_states(f, iterable, iterable_ty, elem_ty, i, b).last, code),
        is_at(b, r),
        i.0 < b.temp_types.len(),
        r.vals[i] == Value::Number(k),
        r.vals[iterable] == Value::Items(items),
    ensures
        ({
            let c = direct_states(f, iterable, iterable_ty, elem_ty, i, b);
            &&& comes_to(code, sem, r, r2)
            &&& is_at(c.last, r2)
            &&& same_below(b, r, r2)
            &&& r2.vals[c.dst] == reply(given(&f.params, items[k], k))
            &&& r2.mem == one_call_more(f.target, &f.params, items)(k, r.mem)
        }),
{
    let c = direct_states(f, iterable, iterable_ty, elem_ty, i, b);
    direct_local(f, iterable, iterable_ty, elem_ty, i, b);
    local_adds_up(b, c.read, c.indexed);
    local_adds_up(b, c.indexed, c.ready);
    local_adds_up(b, c.ready, c.made);
    local_adds_up(b, c.made, c.freed);
    halves_stand(b, c.freed, c.last, code);
    let r1 = direct_call_runs(
        f,
        iterable,
        iterable_ty,
        elem_ty,
        i,
        b,
        code,
        sem,
        reply,
        items,
        k,
        r,
    );
    let r2 = reclaim_runs(c.elem, elem_ty, c.freed, code, sem, r1);
    comes_further(code, sem, r, r1, r2);
    r2
}

/// The body of the loop calls the function, and nothing else calls.
pub(crate) proof fn calls_add_up(
    callee: CallTarget,
    params: &List<Type>,
    items: Seq<Value>,
    k: nat,
    n: nat,
    mem: Mem,
    first: Seq<Call>,
)
    requires
        mem.calls == first + calls_for(callee, params, items, k),
    ensures
        effects(one_call_more(callee, params, items), k as int, n, mem).calls == first + calls_for(
            callee,
            params,
            items,
            k + n,
        ),
    decreases n,
{
    if n > 0 {
        let next = one_call_more(callee, params, items)(k as int, mem);
        assert(next.calls =~= first + calls_for(callee, params, items, k + 1));
        calls_add_up(callee, params, items, k + 1, (n - 1) as nat, next, first);
    }
}

/// A run of what `some` or `every` is lowered to, where the callback is a known function: the
/// result is the answer to the question, and the calls that the run has made are those of the
/// function for the first elements, in order, one for each and with its position where the
/// function takes it, for as many as `answer` says: none after the one that settles the question.
pub proof fn function_is_called_in_order(
    l: Lower,
    iterable_e: &TypedExpr,
    callback: &TypedExpr,
    q: &Question,
    s: St,
    code: Seq<BasicBlock>,
    sem: Oracle,
    items: Seq<Value>,
    preds: Seq<bool>,
    reply: spec_fn(Seq<Value>) -> Value,
    r: Run,
) -> (r2: Run)
    requires
        ({
            let a = question(l, iterable_e, callback, q, s);
            let f = bare_fn_call_target_spec(callback, a.before)->Some_0;
            let last = lower_quantified_spec(l, iterable_e, callback, q, s).0.b;
            &&& bare_fn_call_target_spec(callback, a.before) is Some
            &&& flag_room(a.before.b)
            &&& last.blocks.len() < u32::MAX
            &&& last.temp_types.len() < u32::MAX
            &&& part_stands(a.before.b, last, code)
            &&& is_at(a.before.b, r)
            &&& a.iterable.0 < a.before.b.temp_types.len()
            &&& r.vals[a.iterable] == Value::Items(items)
            &&& preds.len() == items.len()
            &&& !asks_length(f.target)
            &&& replies(sem, f.target, reply)
            &&& forall|k: int|
                0 <= k < items.len() ==> reply(given(&f.params, #[trigger] items[k], k))
                    == Value::Truth(preds[k])
        }),
    ensures
        ({
            let a = question(l, iterable_e, callback, q, s);
            let f = bare_fn_call_target_spec(callback, a.before)->Some_0;
            let (s2, t) = lower_quantified_spec(l, iterable_e, callback, q, s);
            let (truth, n) = answer(q, q.start, preds);
            &&& comes_to(code, sem, r, r2)
            &&& is_at(s2.b, r2)
            &&& r2.vals[t] == Value::Truth(truth)
            &&& r2.mem.calls == r.mem.calls + calls_for(f.target, &f.params, items, n)
        }),
{
    let a = question(l, iterable_e, callback, q, s);
    let f = bare_fn_call_target_spec(callback, a.before)->Some_0;
    let elem_ty = combinator_read_elem_ty_spec(iterable_e, s);
    let effect = one_call_more(f.target, &f.params, items);
    let n = answer(q, q.start, preds).1;
    reveal(call_body_direct_spec);
    question_becomes_a_loop(l, iterable_e, callback, q, s);
    flag_loop_lies(a.iterable, &a.iterable_ty, q, a.before.b);
    direct_local(&f, a.iterable, &a.iterable_ty, &elem_ty, a.i, a.start.b);
    let c = direct_states(&f, a.iterable, &a.iterable_ty, &elem_ty, a.i, a.start.b);
    assert(a.end.b == c.last && a.pred == c.dst);
    let frame = begin_flag_loop_spec(a.iterable, &a.iterable_ty, q, a.before.b).1;
    flag_end_adds(&frame, a.pred, q, a.end.b);
    assert(asking_loop(a.iterable, &a.iterable_ty, q, a.before.b, a.end.b, a.pred, code));
    flag_loop_ends(a.iterable, &a.iterable_ty, q, a.before.b, a.end.b, a.pred, code);
    assert forall|k: int, x: Run|
        0 <= k < preds.len() && same_below(a.before.b, r, x) && #[trigger] starts_body(
            a.start.b,
            a.i,
            k,
            x,
        ) implies exists|x2: Run|
        {
            &&& #[trigger] comes_to(code, sem, x, x2)
            &&& body_asked(a.start.b, a.end.b, a.pred, preds[k], effect(k, x.mem), x, x2)
        } by {
        assert(items[k] == items[k]);
        let x2 = direct_runs(
            &f,
            a.iterable,
            &a.iterable_ty,
            &elem_ty,
            a.i,
            a.start.b,
            code,
            sem,
            reply,
            items,
            k,
            x,
        );
    }
    assert(asked(l, iterable_e, callback, q, s, code, sem, items, preds, effect, r));
    let r2 = question_is_answered(
        l,
        iterable_e,
        callback,
        q,
        s,
        code,
        sem,
        items,
        preds,
        effect,
        r,
    );
    assert(r.mem.calls =~= r.mem.calls + calls_for(f.target, &f.params, items, 0));
    calls_add_up(f.target, &f.params, items, 0, n, r.mem, r.mem.calls);
    r2
}

/// The numbers of the element and of the reply.
pub(crate) proof fn direct_numbers(
    f: &FnTarget,
    iterable: Temp,
    iterable_ty: &Type,
    elem_ty: &Type,
    i: Temp,
    b: FState,
)
    ensures
        ({
            let c = direct_states(f, iterable, iterable_ty, elem_ty, i, b);
            c.freed.temp_types.len() < u32::MAX ==> c.elem.0 == b.temp_types.len() && c.dst.0
                == c.ready.temp_types.len() && c.elem.0 < c.freed.temp_types.len() && c.dst.0
                < c.freed.temp_types.len() && b.temp_types.len() <= c.dst.0
        }),
{
    let c = direct_states(f, iterable, iterable_ty, elem_ty, i, b);
    direct_local(f, iterable, iterable_ty, elem_ty, i, b);
    reveal(FState::index);
    reveal(FState::call);
    reveal(FState::alloc_temp);
}

} // verus!
