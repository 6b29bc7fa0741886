//! `map` and `filter`, as they run.

use crate::asking::effects;
use crate::ast::TypedExpr;
use crate::builder::FState;
use crate::coerce::{
    OutputArray, alloc_output_array_spec, box_to_json_spec, narrow_loop_index_spec,
    push_output_spec,
};
use crate::collect::{
    lower_filter_spec, lower_map_spec, out_elem_type, push_if_spec, push_mapped_spec,
};
use crate::combinator::{fusion_spec, reads_elem_in_place};
use crate::counting::operations_add;
use crate::ctx::{Lower, St, low};
use crate::direct::alike;
use crate::finding::one_step_further;
use crate::flowing::{Meaning, placed, taken};
use crate::fusing::index_runs;
use crate::fusion::{
    bodies_mean, coerce_local, emit_local, fits, inlined, push_local, push_runs, reclaim_local,
    reclaim_runs, step_body_runs, truth_local, truth_runs,
};
use crate::ir::{BasicBlock, BlockId, FlatElemKind, Instruction, Intrinsic, Temp, Terminator};
use crate::list::List;
use crate::looping::{
    halves_stand, loop_end_adds, loop_ends, loop_lies, loop_local,
    loop_runs_its_body_for_every_element, loop_start_adds, part_stands, passed, starts_body,
    whole_loop,
};
use crate::loops::{
    ElemAccess, LoopFlow, LoopFrame, as_bool_spec, begin_combinator_loop_spec, elem_and_index,
    end_combinator_loop_spec, fm_reclaim_elem_spec, free_combinator_elem_box_spec,
    free_combinator_sealed_elem_spec,
};
use crate::recognize::{
    Lambda, bare_fn_call_target_spec, combinator_read_elem_ty_spec, inlinable_local_fn_spec,
};
use crate::recognize::is_inline_scalar;
use crate::repr::{is_sealed_scalar_repr, is_union_ty};
use crate::run::{
    Mem, Oracle, Run, Value, after_instr, comes_further, comes_to, comes_to_itself, current,
    emitted_runs, instrs, is_at, is_here, is_open, local_adds_up, made_runs, pushed, same_below,
    stays_local,
};
use crate::straight::{perhaps_released, release_local, release_runs};
use crate::types::Type;
use vstd::prelude::*;

verus! {

/// What is done for one element more comes last.
pub(crate) proof fn one_effect_more(effect: spec_fn(int, Mem) -> Mem, k: int, n: nat, mem: Mem)
    ensures
        effects(effect, k, n + 1, mem) == effect(k + n, effects(effect, k, n, mem)),
    decreases n,
{
    reveal_with_fuel(effects, 2);
    if n > 0 {
        one_effect_more(effect, k + 1, (n - 1) as nat, effect(k, mem));
    }
}

// Giving elements back.

/// The box of an element and a packed element are given back.
pub open spec fn given_back(elem: Temp, elem_ty: &Type, b: FState) -> FState {
    free_combinator_sealed_elem_spec(elem, elem_ty, free_combinator_elem_box_spec(elem, elem_ty, b))
}

/// Giving an element back stays in the block.
proof fn given_back_local(elem: Temp, elem_ty: &Type, b: FState)
    ensures
        ({
            let b2 = given_back(elem, elem_ty, b);
            &&& stays_local(b, b2)
            &&& b2.blocks.len() == b.blocks.len()
            &&& b2.temp_types == b.temp_types
            &&& b2.env.current_block == b.env.current_block
        }),
{
    reveal(free_combinator_elem_box_spec);
    reveal(free_combinator_sealed_elem_spec);
    let b1 = free_combinator_elem_box_spec(elem, elem_ty, b);
    emit_local(b, Instruction::FreeBoxShell { val: elem });
    release_local(b1, is_sealed_scalar_repr(elem_ty), elem, elem_ty);
    local_adds_up(b, b1, given_back(elem, elem_ty, b));
    reveal(FState::emit);
}

/// Giving an element back changes nothing that counts here.
proof fn given_back_runs(
    elem: Temp,
    elem_ty: &Type,
    b: FState,
    code: Seq<BasicBlock>,
    sem: Oracle,
    r: Run,
) -> (r2: Run)
    requires
        is_open(b),
        given_back(elem, elem_ty, b).blocks.len() < u32::MAX,
        given_back(elem, elem_ty, b).temp_types.len() < u32::MAX,
        part_stands(b, given_back(elem, elem_ty, b), code),
        is_at(b, r),
    ensures
        comes_to(code, sem, r, r2),
        is_at(given_back(elem, elem_ty, b), r2),
        r2.vals == r.vals,
        r2.mem == r.mem,
{
    reveal(free_combinator_elem_box_spec);
    reveal(free_combinator_sealed_elem_spec);
    let b1 = free_combinator_elem_box_spec(elem, elem_ty, b);
    let last = given_back(elem, elem_ty, b);
    let sealed = is_sealed_scalar_repr(elem_ty);
    let i = Instruction::FreeBoxShell { val: elem };
    emit_local(b, i);
    release_local(b1, sealed, elem, elem_ty);
    assert(last == perhaps_released(b1, sealed, elem, elem_ty));
    halves_stand(b, b1, last, code);
    let r1 = if is_union_ty(elem_ty) {
        emitted_runs(b, i, code, sem, r);
        after_instr(sem, i, r)
    } else {
        comes_to_itself(code, sem, r);
        r
    };
    let r2 = release_runs(b1, sealed, elem, elem_ty, code, sem, r1);
    comes_further(code, sem, r, r1, r2);
    r2
}

// The array that is filled.

/// Making the array stays local.
proof fn output_local(elem_ty: &Type, result_type: &Type, b: FState)
    ensures
        ({
            let (b2, o) = alloc_output_array_spec(elem_ty, result_type, b);
            &&& stays_local(b, b2)
            &&& b2.blocks.len() == b.blocks.len()
            &&& b2.temp_types.len() < u32::MAX ==> o.out.0 == b.temp_types.len()
                && b2.temp_types.len() == b.temp_types.len() + 1
        }),
{
    reveal(alloc_output_array_spec);
    reveal(FState::call_intrinsic);
    reveal(FState::register_owned);
    reveal(FState::alloc_temp);
    reveal(FState::emit);
    reveal_with_fuel(instrs, 2);
}

/// The array is empty when it is made.
proof fn output_runs(
    elem_ty: &Type,
    result_type: &Type,
    b: FState,
    code: Seq<BasicBlock>,
    sem: Oracle,
    r: Run,
) -> (r2: Run)
    requires
        is_open(b),
        alloc_output_array_spec(elem_ty, result_type, b).0.temp_types.len() < u32::MAX,
        part_stands(b, alloc_output_array_spec(elem_ty, result_type, b).0, code),
        is_at(b, r),
    ensures
        ({
            let (b2, o) = alloc_output_array_spec(elem_ty, result_type, b);
            &&& comes_to(code, sem, r, r2)
            &&& is_at(b2, r2)
            &&& same_below(b, r, r2)
            &&& r2.vals[o.out] == Value::Made
            &&& r2.mem == Mem { outs: r.mem.outs.insert(o.out, Seq::empty()), ..r.mem }
        }),
{
    output_local(elem_ty, result_type, b);
    reveal(alloc_output_array_spec);
    let (b2, o) = alloc_output_array_spec(elem_ty, result_type, b);
    let intrinsic = match FlatElemKind::from_type(elem_ty) {
        Some(kind) => Intrinsic::FlatArrayAlloc(kind),
        None => Intrinsic::ArrayAlloc,
    };
    let i = Instruction::CallIntrinsic {
        dst: o.out,
        intrinsic,
        args: List::Nil,
        ret_ty: *result_type,
    };
    let e = b.alloc_temp(*result_type).0.emit(i);
    assert(alike(b2, e) && o.out == b.alloc_temp(*result_type).1) by {
        reveal(FState::call_intrinsic);
        reveal(FState::register_owned);
    }
    made_runs(b, *result_type, i, code, sem, r);
    after_instr(sem, i, r)
}

// The body of `map`.

/// The states of a body that applies an inlined function: with the position, behind the function.
pub open spec fn applying(
    l: Lower,
    lam: &Lambda,
    elem: Temp,
    elem_ty: &Type,
    i: Temp,
    s: St,
) -> (FState, Temp, St, Temp, Type) {
    let (b1, idx) = narrow_loop_index_spec(i, s.b);
    let (s2, t) = inlined(l, *lam, elem_and_index(elem, elem_ty, idx), St { b: b1, c: s.c });
    (b1, idx, s2, t.temp, t.ty)
}

/// Applying an inlined function stays local.
pub(crate) proof fn applying_local(
    l: Lower,
    lam: &Lambda,
    elem: Temp,
    elem_ty: &Type,
    i: Temp,
    s: St,
    code: Seq<BasicBlock>,
    sem: Oracle,
    m: Meaning,
)
    requires
        bodies_mean(l, code, sem, m),
        (m.known)(*lam),
    ensures
        ({
            let c = applying(l, lam, elem, elem_ty, i, s);
            &&& stays_local(s.b, c.0)
            &&& stays_local(c.0, c.2.b)
            &&& stays_local(s.b, c.2.b)
        }),
{
    let c = applying(l, lam, elem, elem_ty, i, s);
    reveal(narrow_loop_index_spec);
    coerce_local(s.b, i, &Type::Int64, &Type::Int32);
    local_adds_up(s.b, c.0, c.2.b);
}

/// Applying an inlined function runs.
pub(crate) proof fn applying_runs(
    l: Lower,
    lam: &Lambda,
    elem: Temp,
    elem_ty: &Type,
    i: Temp,
    s: St,
    code: Seq<BasicBlock>,
    sem: Oracle,
    m: Meaning,
    x: Value,
    k: int,
    r: Run,
) -> (r2: Run)
    requires
        bodies_mean(l, code, sem, m),
        (m.known)(*lam),
        fits(m, s.b, r),
        is_open(s.b),
        applying(l, lam, elem, elem_ty, i, s).2.b.blocks.len() < u32::MAX,
        applying(l, lam, elem, elem_ty, i, s).2.b.temp_types.len() < u32::MAX,
        part_stands(s.b, applying(l, lam, elem, elem_ty, i, s).2.b, code),
        is_at(s.b, r),
        i.0 < s.b.temp_types.len(),
        elem.0 < s.b.temp_types.len(),
        r.vals[i] == Value::Number(k),
        r.vals[elem] == x,
    ensures
        ({
            let c = applying(l, lam, elem, elem_ty, i, s);
            let given = taken(*lam, placed(x, k));
            &&& comes_to(code, sem, r, r2)
            &&& is_open(c.2.b)
            &&& is_at(c.2.b, r2)
            &&& same_below(s.b, r, r2)
            &&& c.3.0 < c.2.b.temp_types.len()
            &&& r2.vals[c.3] == (m.value)(*lam, given)
            &&& r2.mem == (m.effect)(*lam, given, r.mem)
        }),
{
    let c = applying(l, lam, elem, elem_ty, i, s);
    applying_local(l, lam, elem, elem_ty, i, s, code, sem, m);
    halves_stand(s.b, c.0, c.2.b, code);
    let r1 = index_runs(s.b, i, code, sem, r, k);
    let s1 = St { b: c.0, c: s.c };
    let r2 = step_body_runs(l, lam, elem, elem_ty, c.1, s1, code, sem, m, x, k, r1);
    comes_further(code, sem, r, r1, r2);
    r2
}

/// What `map` does for an element: the function, and its value is pushed.
pub open spec fn map_effect(m: Meaning, lam: Lambda, items: Seq<Value>, out: Temp) -> spec_fn(
    int,
    Mem,
) -> Mem {
    |k: int, mem: Mem|
        {
            let given = taken(lam, placed(items[k], k));
            pushed((m.effect)(lam, given, mem), out, (m.value)(lam, given))
        }
}

/// The values of the function for the elements, in order.
pub open spec fn mapped_values(m: Meaning, lam: Lambda, items: Seq<Value>) -> Seq<Value> {
    Seq::new(items.len(), |k: int| (m.value)(lam, taken(lam, placed(items[k], k))))
}

/// The function leaves the array that is filled alone.
pub open spec fn leaves_output(m: Meaning, lam: Lambda, out: Temp) -> bool {
    forall|args: Seq<Value>, mem: Mem|
        (#[trigger] (m.effect)(lam, args, mem)).outs[out] == mem.outs[out]
}

/// What has been pushed after `n` elements.
proof fn map_pushes(m: Meaning, lam: Lambda, items: Seq<Value>, out: Temp, n: nat, mem: Mem)
    requires
        leaves_output(m, lam, out),
        n <= items.len(),
        mem.outs[out] == Seq::<Value>::empty(),
    ensures
        effects(map_effect(m, lam, items, out), 0, n, mem).outs[out] == mapped_values(
            m,
            lam,
            items,
        ).take(n as int),
    decreases n,
{
    let vs = mapped_values(m, lam, items);
    if n > 0 {
        let k = (n - 1) as nat;
        map_pushes(m, lam, items, out, k, mem);
        one_effect_more(map_effect(m, lam, items, out), 0, k, mem);
        assert(vs.take(k as int).push(vs[k as int]) =~= vs.take(n as int));
    } else {
        assert(vs.take(0) =~= Seq::empty());
    }
}

/// The states of `map` with an inlined function.
pub struct MapStates {
    pub before: St,
    pub iterable: Temp,
    pub lam: Lambda,
    pub elem_ty: Type,
    pub made: FState,
    pub o: OutputArray,
    pub start: FState,
    pub frame: LoopFrame,
    pub applied: St,
    pub val: Temp,
    pub val_ty: Type,
}

/// The states of `map` or `filter` with an inlined function, up to where the function has been
/// applied.
pub open spec fn map_states(
    l: Lower,
    iterable_e: &TypedExpr,
    callback: &TypedExpr,
    result_type: &Type,
    s: St,
) -> MapStates {
    let iterable_ty = iterable_e.ty();
    let elem_ty = combinator_read_elem_ty_spec(iterable_e, s);
    let (before, iterable) = low(l, iterable_e, s);
    let lam = inlinable_local_fn_spec(callback, before)->Some_0;
    let (made, o) = alloc_output_array_spec(&out_elem_type(result_type), result_type, before.b);
    let access = ElemAccess::Materialize(elem_ty);
    let (start, frame) = begin_combinator_loop_spec(iterable, &iterable_ty, access, made);
    let c = applying(l, &lam, frame.elem, &elem_ty, frame.i, St { b: start, c: before.c });
    MapStates {
        before,
        iterable,
        lam,
        elem_ty,
        made,
        o,
        start,
        frame,
        applied: c.2,
        val: c.3,
        val_ty: c.4,
    }
}

/// The function is inlined: it is no known function, and the elements are not read in place.
pub open spec fn applies_inline(
    l: Lower,
    iterable_e: &TypedExpr,
    callback: &TypedExpr,
    result_type: &Type,
    s: St,
) -> bool {
    let before = low(l, iterable_e, s).0;
    &&& fusion_spec(iterable_e, callback, is_inline_scalar(&out_elem_type(result_type)), s) is None
    &&& bare_fn_call_target_spec(callback, before) is None
    &&& inlinable_local_fn_spec(callback, before) is Some
}

/// A run of what `map` is lowered to, where the function is inlined: the result is an array that
/// holds the values of the function for the elements with their positions, in order, and the
/// function has run once for each element, in order.
pub proof fn map_runs_to_the_values(
    l: Lower,
    iterable_e: &TypedExpr,
    callback: &TypedExpr,
    result_type: &Type,
    s: St,
    code: Seq<BasicBlock>,
    sem: Oracle,
    m: Meaning,
    items: Seq<Value>,
    r: Run,
) -> (r2: Run)
    requires
        bodies_mean(l, code, sem, m),
        applies_inline(l, iterable_e, callback, result_type, s),
        ({
            let p = map_states(l, iterable_e, callback, result_type, s);
            let last = lower_map_spec(l, iterable_e, callback, result_type, s).0.b;
            &&& !reads_elem_in_place(&iterable_e.ty(), &p.lam)
            &&& (m.known)(p.lam)
            &&& leaves_output(m, p.lam, p.o.out)
            &&& fits(m, p.before.b, r)
            &&& is_open(p.before.b)
            &&& last.blocks.len() < u32::MAX
            &&& last.temp_types.len() < u32::MAX
            &&& part_stands(p.before.b, last, code)
            &&& is_at(p.before.b, r)
            &&& p.iterable.0 < p.before.b.temp_types.len()
            &&& r.vals[p.iterable] == Value::Items(items)
        }),
    ensures
        ({
            let p = map_states(l, iterable_e, callback, result_type, s);
            let (s2, t) = lower_map_spec(l, iterable_e, callback, result_type, s);
            let mem = Mem { outs: r.mem.outs.insert(t, Seq::empty()), ..r.mem };
            &&& comes_to(code, sem, r, r2)
            &&& is_at(s2.b, r2)
            &&& r2.vals[t] == Value::Made
            &&& r2.mem.outs[t] == mapped_values(m, p.lam, items)
            &&& r2.mem == effects(map_effect(m, p.lam, items, t), 0, items.len(), mem)
        }),
{
    reveal(lower_map_spec);
    reveal(push_mapped_spec);
    let p = map_states(l, iterable_e, callback, result_type, s);
    let (s2, t) = lower_map_spec(l, iterable_e, callback, result_type, s);
    let last = s2.b;
    let iterable_ty = iterable_e.ty();
    let out_ty = out_elem_type(result_type);
    let start = St { b: p.start, c: p.before.c };
    let b1 = push_output_spec(p.o.out, p.o.flat, &out_ty, p.val, &p.val_ty, false, p.applied.b);
    let b2 = given_back(p.frame.elem, &p.elem_ty, b1);
    assert(last == end_combinator_loop_spec(&p.frame, LoopFlow::Fallthrough, b2) && t == p.o.out);
    output_local(&out_ty, result_type, p.before.b);
    applying_local(l, &p.lam, p.frame.elem, &p.elem_ty, p.frame.i, start, code, sem, m);
    push_local(p.o.out, p.o.flat, &out_ty, p.val, &p.val_ty, false, p.applied.b);
    given_back_local(p.frame.elem, &p.elem_ty, b1);
    local_adds_up(p.applied.b, b1, b2);
    local_adds_up(p.start, p.applied.b, b2);
    loop_start_adds(p.iterable, &iterable_ty, p.elem_ty, p.made);
    loop_end_adds(&p.frame, b2);
    loop_local(p.iterable, &iterable_ty, p.elem_ty, p.made, b2);
    halves_stand(p.before.b, p.made, last, code);
    assert(whole_loop(p.iterable, &iterable_ty, p.elem_ty, p.made, b2, code));
    loop_lies(p.iterable, &iterable_ty, p.elem_ty, p.made);
    loop_ends(p.iterable, &iterable_ty, p.elem_ty, p.made, b2, code);
    halves_stand(p.start, p.applied.b, b2, code);
    halves_stand(p.applied.b, b1, b2, code);
    let r1 = output_runs(&out_ty, result_type, p.before.b, code, sem, r);
    let effect = map_effect(m, p.lam, items, t);
    let inv = |k: int, mem: Mem| k >= 0 && mem == effects(effect, 0, k as nat, r1.mem);
    assert forall|k: int, q: Run|
        0 <= k < items.len() && inv(k, q.mem) && same_below(p.made, r1, q)
            && #[trigger] starts_body(p.start, p.frame, items, k, q) implies exists|q2: Run|
        {
            &&& #[trigger] comes_to(code, sem, q, q2)
            &&& passed(p.start, b2, q, q2)
            &&& inv(k + 1, q2.mem)
        } by {
        assert(fits(m, p.start, q));
        let q1 = applying_runs(
            l,
            &p.lam,
            p.frame.elem,
            &p.elem_ty,
            p.frame.i,
            start,
            code,
            sem,
            m,
            items[k],
            k,
            q,
        );
        let q2 = push_runs(
            p.o.out,
            p.o.flat,
            &out_ty,
            p.val,
            &p.val_ty,
            false,
            p.applied.b,
            code,
            sem,
            q1,
        );
        let q3 = given_back_runs(p.frame.elem, &p.elem_ty, b1, code, sem, q2);
        comes_further(code, sem, q, q1, q2);
        comes_further(code, sem, q, q2, q3);
        one_effect_more(effect, 0, k as nat, r1.mem);
        assert(same_below(p.start, q, q2));
        assert(inv(k + 1, q3.mem));
    }
    assert(effects(effect, 0, 0, r1.mem) == r1.mem);
    assert(inv(0, r1.mem));
    let r2 = loop_runs_its_body_for_every_element(
        p.iterable,
        &iterable_ty,
        p.elem_ty,
        p.made,
        b2,
        code,
        sem,
        items,
        inv,
        r1,
    );
    comes_further(code, sem, r, r1, r2);
    map_pushes(m, p.lam, items, t, items.len(), r1.mem);
    let vs = mapped_values(m, p.lam, items);
    assert(vs.take(items.len() as int) =~= vs);
    r2
}

// `filter`.

/// The states where an element is pushed or not: where it is pushed, behind that, where it has been
/// given back, where it is not pushed, behind that, and where both meet.
pub struct PushIf {
    pub keep: FState,
    pub pushed: FState,
    pub kept: FState,
    pub skip: FState,
    pub skipped: FState,
    pub meet: FState,
}

/// The states where an element is pushed or not.
pub open spec fn push_if_states(
    cond: Temp,
    out: Temp,
    flat: Option<FlatElemKind>,
    out_ty: &Type,
    elem: Temp,
    elem_ty: &Type,
    b: FState,
) -> PushIf {
    let (b, keep_block) = b.alloc_block("filter_keep");
    let (b, drop_block) = b.alloc_block("filter_drop");
    let (b, join_block) = b.alloc_block("filter_skip");
    let term = Terminator::CondJump { cond, then_block: keep_block, else_block: drop_block };
    let keep = b.terminate(term).switch_to(keep_block);
    let borrowed = !is_sealed_scalar_repr(elem_ty);
    let pushed = push_output_spec(out, flat, out_ty, elem, elem_ty, borrowed, keep);
    let kept = given_back(elem, elem_ty, pushed);
    let skip = kept.terminate(Terminator::Jump(join_block)).switch_to(drop_block);
    let skipped = fm_reclaim_elem_spec(elem, elem_ty, skip);
    let meet = skipped.terminate(Terminator::Jump(join_block)).switch_to(join_block);
    PushIf { keep, pushed, kept, skip, skipped, meet }
}

/// How the blocks lie.
#[verifier::rlimit(60)]
#[verifier::spinoff_prover]
proof fn push_if_lies(
    cond: Temp,
    out: Temp,
    flat: Option<FlatElemKind>,
    out_ty: &Type,
    elem: Temp,
    elem_ty: &Type,
    b: FState,
)
    requires
        is_open(b),
        b.blocks.len() + 3 < u32::MAX,
        push_if_states(cond, out, flat, out_ty, elem, elem_ty, b).meet.temp_types.len() < u32::MAX,
    ensures
        ({
            let p = push_if_states(cond, out, flat, out_ty, elem, elem_ty, b);
            let n = b.blocks.len() as int;
            let k = b.env.current_block.0 as int;
            let last = p.meet;
            let meet = BlockId((n + 2) as u32);
            &&& is_open(p.keep) && p.keep.env.current_block.0 == n && current(p.keep) == Seq::<
                Instruction,
            >::empty() && p.keep.temp_types == b.temp_types && p.keep.blocks.len() == n + 3
            &&& is_open(p.skip) && p.skip.env.current_block.0 == n + 1 && current(p.skip) == Seq::<
                Instruction,
            >::empty() && p.skip.temp_types == p.kept.temp_types
            &&& stays_local(p.keep, p.pushed) && stays_local(p.pushed, p.kept)
            &&& p.kept.env.current_block.0 == n && p.kept.blocks.len() == n + 3
            &&& p.skipped.env.current_block.0 == n + 1 && p.skipped.blocks.len() == n + 3
            &&& last.env.current_block == meet && is_open(last) && current(last) == Seq::<
                Instruction,
            >::empty()
            &&& last.temp_types == p.kept.temp_types && last.blocks.len() == n + 3
            &&& last.blocks[k].code == b.blocks[k].code
            &&& last.blocks[k].term == (Terminator::CondJump {
                cond,
                then_block: BlockId(n as u32),
                else_block: BlockId((n + 1) as u32),
            })
            &&& last.blocks[n].code == p.kept.blocks[n].code
            &&& last.blocks[n].term == Terminator::Jump(meet)
            &&& last.blocks[n + 1].code == p.skipped.blocks[n + 1].code
            &&& last.blocks[n + 1].term == Terminator::Jump(meet)
            &&& stays_local(b, last)
        }),
{
    let p = push_if_states(cond, out, flat, out_ty, elem, elem_ty, b);
    let n = b.blocks.len() as int;
    let k = b.env.current_block.0 as int;
    let borrowed = !is_sealed_scalar_repr(elem_ty);
    push_local(out, flat, out_ty, elem, elem_ty, borrowed, p.keep);
    given_back_local(elem, elem_ty, p.pushed);
    local_adds_up(p.keep, p.pushed, p.kept);
    reclaim_local(elem, elem_ty, p.skip);
    reveal(FState::alloc_block);
    reveal(FState::terminate);
    reveal(FState::switch_to);
    assert(p.pushed.blocks.len() == p.keep.blocks.len() && p.pushed.env.current_block
        == p.keep.env.current_block) by {
        reveal(push_output_spec);
        reveal(box_to_json_spec);
        reveal(FState::coerce);
        reveal(FState::alloc_temp);
        reveal(FState::emit);
    }
    assert(is_open(p.keep) && p.keep.env.current_block.0 == n);
    assert(p.kept.blocks[k] == p.keep.blocks[k]);
    assert(p.kept.blocks[n + 1] == p.keep.blocks[n + 1]);
    assert(p.kept.blocks[n + 2] == p.keep.blocks[n + 2]);
    assert forall|j: int| 0 <= j < n implies #[trigger] p.kept.blocks[j] == p.keep.blocks[j] by {}
    assert(is_open(p.skip));
    assert(p.skipped.blocks[n] == p.skip.blocks[n]);
    assert(p.skipped.blocks[n + 2] == p.skip.blocks[n + 2]);
    assert forall|j: int|
        0 <= j < n implies #[trigger] p.skipped.blocks[j] == p.skip.blocks[j] by {}
}

/// How much this adds.
proof fn push_if_adds(
    cond: Temp,
    out: Temp,
    flat: Option<FlatElemKind>,
    out_ty: &Type,
    elem: Temp,
    elem_ty: &Type,
    b: FState,
)
    ensures
        ({
            let last = push_if_states(cond, out, flat, out_ty, elem, elem_ty, b).meet;
            &&& b.blocks.len() <= last.blocks.len()
            &&& last.blocks.len() < u32::MAX ==> last.blocks.len() == b.blocks.len() + 3
            &&& b.temp_types.len() <= last.temp_types.len()
            &&& stays_local(b, last)
        }),
{
    let p = push_if_states(cond, out, flat, out_ty, elem, elem_ty, b);
    let borrowed = !is_sealed_scalar_repr(elem_ty);
    push_local(out, flat, out_ty, elem, elem_ty, borrowed, p.keep);
    given_back_local(elem, elem_ty, p.pushed);
    reclaim_local(elem, elem_ty, p.skip);
    assert(p.pushed.blocks.len() == p.keep.blocks.len()) by {
        reveal(push_output_spec);
        reveal(box_to_json_spec);
        reveal(FState::coerce);
        reveal(FState::alloc_temp);
        reveal(FState::emit);
    }
    operations_add();
    if p.meet.blocks.len() < u32::MAX && p.meet.temp_types.len() < u32::MAX && is_open(b) {
        push_if_lies(cond, out, flat, out_ty, elem, elem_ty, b);
    }
}

/// An element is pushed where the condition holds.
proof fn push_if_runs(
    cond: Temp,
    out: Temp,
    flat: Option<FlatElemKind>,
    out_ty: &Type,
    elem: Temp,
    elem_ty: &Type,
    b: FState,
    code: Seq<BasicBlock>,
    sem: Oracle,
    r: Run,
) -> (r2: Run)
    requires
        is_open(b),
        push_if_states(cond, out, flat, out_ty, elem, elem_ty, b).meet.blocks.len() < u32::MAX,
        push_if_states(cond, out, flat, out_ty, elem, elem_ty, b).meet.temp_types.len() < u32::MAX,
        part_stands(b, push_if_states(cond, out, flat, out_ty, elem, elem_ty, b).meet, code),
        is_at(b, r),
        elem.0 < b.temp_types.len(),
    ensures
        ({
            let last = push_if_states(cond, out, flat, out_ty, elem, elem_ty, b).meet;
            &&& comes_to(code, sem, r, r2)
            &&& is_at(last, r2)
            &&& same_below(b, r, r2)
            &&& r2.mem == if r.vals[cond] == Value::Truth(true) {
                pushed(r.mem, out, r.vals[elem])
            } else {
                r.mem
            }
        }),
{
    let p = push_if_states(cond, out, flat, out_ty, elem, elem_ty, b);
    push_if_adds(cond, out, flat, out_ty, elem, elem_ty, b);
    push_if_lies(cond, out, flat, out_ty, elem, elem_ty, b);
    let n = b.blocks.len() as int;
    let k = b.env.current_block.0 as int;
    assert(code[k] == p.meet.blocks[k]);
    assert(code[n] == p.meet.blocks[n]);
    assert(code[n + 1] == p.meet.blocks[n + 1]);
    comes_to_itself(code, sem, r);
    let r1 = one_step_further(code, sem, r, r);
    let borrowed = !is_sealed_scalar_repr(elem_ty);
    if r.vals[cond] == Value::Truth(true) {
        assert(part_stands(p.keep, p.kept, code));
        halves_stand(p.keep, p.pushed, p.kept, code);
        let r2 = push_runs(out, flat, out_ty, elem, elem_ty, borrowed, p.keep, code, sem, r1);
        comes_further(code, sem, r, r1, r2);
        let r3 = given_back_runs(elem, elem_ty, p.pushed, code, sem, r2);
        comes_further(code, sem, r, r2, r3);
        assert(same_below(b, r, r2));
        one_step_further(code, sem, r, r3)
    } else {
        assert(is_here(p.skipped, code));
        let r2 = reclaim_runs(elem, elem_ty, p.skip, code, sem, r1);
        comes_further(code, sem, r, r1, r2);
        assert(same_below(b, r, r2));
        one_step_further(code, sem, r, r2)
    }
}

/// What `filter` does for an element: the function, and where that gives true the element is
/// pushed.
pub open spec fn filter_effect(m: Meaning, lam: Lambda, items: Seq<Value>, out: Temp) -> spec_fn(
    int,
    Mem,
) -> Mem {
    |k: int, mem: Mem|
        {
            let given = taken(lam, placed(items[k], k));
            let after = (m.effect)(lam, given, mem);
            if (m.value)(lam, given) == Value::Truth(true) {
                pushed(after, out, items[k])
            } else {
                after
            }
        }
}

/// The elements of the first `n` for which the function gives true, in order.
pub open spec fn kept_values(m: Meaning, lam: Lambda, items: Seq<Value>, n: nat) -> Seq<Value>
    decreases n,
{
    if n == 0 {
        Seq::empty()
    } else {
        let k = (n - 1) as int;
        let before = kept_values(m, lam, items, k as nat);
        if (m.value)(lam, taken(lam, placed(items[k], k))) == Value::Truth(true) {
            before.push(items[k])
        } else {
            before
        }
    }
}

/// What has been pushed after `n` elements.
proof fn filter_pushes(m: Meaning, lam: Lambda, items: Seq<Value>, out: Temp, n: nat, mem: Mem)
    requires
        leaves_output(m, lam, out),
        n <= items.len(),
        mem.outs[out] == Seq::<Value>::empty(),
    ensures
        effects(filter_effect(m, lam, items, out), 0, n, mem).outs[out] == kept_values(
            m,
            lam,
            items,
            n,
        ),
    decreases n,
{
    if n > 0 {
        let k = (n - 1) as nat;
        filter_pushes(m, lam, items, out, k, mem);
        one_effect_more(filter_effect(m, lam, items, out), 0, k, mem);
    }
}

/// A run of what `filter` is lowered to, where the function is inlined: the result is an array that
/// holds the elements for which the function gives true, in order, and no others, and the function
/// has run once for each element with its position, in order.
pub proof fn filter_runs_to_the_kept(
    l: Lower,
    iterable_e: &TypedExpr,
    callback: &TypedExpr,
    result_type: &Type,
    s: St,
    code: Seq<BasicBlock>,
    sem: Oracle,
    m: Meaning,
    items: Seq<Value>,
    r: Run,
) -> (r2: Run)
    requires
        bodies_mean(l, code, sem, m),
        applies_inline(l, iterable_e, callback, result_type, s),
        ({
            let p = map_states(l, iterable_e, callback, result_type, s);
            let last = lower_filter_spec(l, iterable_e, callback, result_type, s).0.b;
            &&& (m.known)(p.lam)
            &&& leaves_output(m, p.lam, p.o.out)
            &&& fits(m, p.before.b, r)
            &&& is_open(p.before.b)
            &&& last.blocks.len() < u32::MAX
            &&& last.temp_types.len() < u32::MAX
            &&& part_stands(p.before.b, last, code)
            &&& is_at(p.before.b, r)
            &&& p.iterable.0 < p.before.b.temp_types.len()
            &&& r.vals[p.iterable] == Value::Items(items)
        }),
    ensures
        ({
            let p = map_states(l, iterable_e, callback, result_type, s);
            let (s2, t) = lower_filter_spec(l, iterable_e, callback, result_type, s);
            let mem = Mem { outs: r.mem.outs.insert(t, Seq::empty()), ..r.mem };
            &&& comes_to(code, sem, r, r2)
            &&& is_at(s2.b, r2)
            &&& r2.vals[t] == Value::Made
            &&& r2.mem.outs[t] == kept_values(m, p.lam, items, items.len())
            &&& r2.mem == effects(filter_effect(m, p.lam, items, t), 0, items.len(), mem)
        }),
{
    reveal(lower_filter_spec);
    reveal(push_if_spec);
    let p = map_states(l, iterable_e, callback, result_type, s);
    let (s2, t) = lower_filter_spec(l, iterable_e, callback, result_type, s);
    let last = s2.b;
    let iterable_ty = iterable_e.ty();
    let out_ty = out_elem_type(result_type);
    let start = St { b: p.start, c: p.before.c };
    let (b1, keep) = as_bool_spec(p.val, &p.val_ty, p.applied.b);
    let b2 = push_if_states(keep, p.o.out, p.o.flat, &out_ty, p.frame.elem, &p.elem_ty, b1).meet;
    assert(last == end_combinator_loop_spec(&p.frame, LoopFlow::Fallthrough, b2) && t == p.o.out);
    output_local(&out_ty, result_type, p.before.b);
    applying_local(l, &p.lam, p.frame.elem, &p.elem_ty, p.frame.i, start, code, sem, m);
    truth_local(p.val, &p.val_ty, p.applied.b);
    push_if_adds(keep, p.o.out, p.o.flat, &out_ty, p.frame.elem, &p.elem_ty, b1);
    local_adds_up(p.applied.b, b1, b2);
    local_adds_up(p.start, p.applied.b, b2);
    loop_start_adds(p.iterable, &iterable_ty, p.elem_ty, p.made);
    loop_end_adds(&p.frame, b2);
    loop_local(p.iterable, &iterable_ty, p.elem_ty, p.made, b2);
    halves_stand(p.before.b, p.made, last, code);
    assert(whole_loop(p.iterable, &iterable_ty, p.elem_ty, p.made, b2, code));
    loop_lies(p.iterable, &iterable_ty, p.elem_ty, p.made);
    loop_ends(p.iterable, &iterable_ty, p.elem_ty, p.made, b2, code);
    halves_stand(p.start, p.applied.b, b2, code);
    halves_stand(p.applied.b, b1, b2, code);
    let r1 = output_runs(&out_ty, result_type, p.before.b, code, sem, r);
    let effect = filter_effect(m, p.lam, items, t);
    let inv = |k: int, mem: Mem| k >= 0 && mem == effects(effect, 0, k as nat, r1.mem);
    assert forall|k: int, q: Run|
        0 <= k < items.len() && inv(k, q.mem) && same_below(p.made, r1, q)
            && #[trigger] starts_body(p.start, p.frame, items, k, q) implies exists|q2: Run|
        {
            &&& #[trigger] comes_to(code, sem, q, q2)
            &&& passed(p.start, b2, q, q2)
            &&& inv(k + 1, q2.mem)
        } by {
        assert(fits(m, p.start, q));
        let q1 = applying_runs(
            l,
            &p.lam,
            p.frame.elem,
            &p.elem_ty,
            p.frame.i,
            start,
            code,
            sem,
            m,
            items[k],
            k,
            q,
        );
        let q2 = truth_runs(p.val, &p.val_ty, p.applied.b, code, sem, q1);
        assert(q2.vals[p.frame.elem] == items[k]);
        let q3 = push_if_runs(
            keep,
            p.o.out,
            p.o.flat,
            &out_ty,
            p.frame.elem,
            &p.elem_ty,
            b1,
            code,
            sem,
            q2,
        );
        comes_further(code, sem, q, q1, q2);
        comes_further(code, sem, q, q2, q3);
        one_effect_more(effect, 0, k as nat, r1.mem);
        assert(same_below(p.start, q, q2));
        assert(inv(k + 1, q3.mem));
    }
    assert(effects(effect, 0, 0, r1.mem) == r1.mem);
    assert(inv(0, r1.mem));
    let r2 = loop_runs_its_body_for_every_element(
        p.iterable,
        &iterable_ty,
        p.elem_ty,
        p.made,
        b2,
        code,
        sem,
        items,
        inv,
        r1,
    );
    comes_further(code, sem, r, r1, r2);
    filter_pushes(m, p.lam, items, t, items.len(), r1.mem);
    r2
}

} // verus!
