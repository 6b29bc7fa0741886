//! Expressions as they run, where it is known what they mean, and the scopes around them.

use crate::ast::TypedExpr;
use crate::builder::{FState, Owned, free_shells, has_temp, release_all};
use crate::control::{lower_cond_as_bool_spec, lower_scoped_cond_spec};
use crate::ctx::{Lower, St, low};
use crate::fusion::{emit_local, truth_local, truth_runs};
use crate::ir::{BasicBlock, Instruction, Temp};
use crate::list::{List, one};
use crate::looping::{halves_stand, part_stands};
use crate::loops::as_bool_spec;
use crate::run::{
    Mem, Oracle, Run, Value, after_instr, comes_further, comes_to, comes_to_itself, emitted_runs,
    is_at, is_open, local_adds_up, same_below, stays_local,
};
use vstd::prelude::*;

verus! {

/// What expressions do: the value that they give, and what they change besides, in terms of what
/// has been changed before. This holds of the expressions that are known, where the first
/// temporaries, `outer` of them, have the values `fixed`.
pub struct Sense {
    pub known: spec_fn(TypedExpr) -> bool,
    pub outer: nat,
    pub fixed: Map<Temp, Value>,
    pub value: spec_fn(TypedExpr, Mem) -> Value,
    pub effect: spec_fn(TypedExpr, Mem) -> Mem,
}

/// The temporaries that the meaning of the expressions rests on are there, with their values.
pub open spec fn suits(w: Sense, b: FState, r: Run) -> bool {
    &&& w.outer <= b.temp_types.len()
    &&& forall|t: Temp| t.0 < w.outer ==> #[trigger] r.vals[t] == w.fixed[t]
}

/// What an expression is lowered to.
pub open spec fn emitted_for(l: Lower, e: TypedExpr, s: St) -> (St, Temp) {
    low(l, &e, s)
}

/// The code of an expression stands where it was emitted, and a run is in front of it.
pub open spec fn expr_stands(l: Lower, code: Seq<BasicBlock>, e: TypedExpr, s: St, r: Run) -> bool {
    let s2 = emitted_for(l, e, s).0;
    &&& is_open(s.b)
    &&& s2.b.blocks.len() < u32::MAX
    &&& s2.b.temp_types.len() < u32::MAX
    &&& part_stands(s.b, s2.b, code)
    &&& is_at(s.b, r)
}

/// A run has come through the code of an expression: it has found the value and made the changes
/// that the meaning of the expression tells.
pub open spec fn expr_ran(l: Lower, w: Sense, e: TypedExpr, s: St, r: Run, r2: Run) -> bool {
    let (s2, t) = emitted_for(l, e, s);
    &&& is_at(s2.b, r2)
    &&& same_below(s.b, r, r2)
    &&& t.0 < s2.b.temp_types.len()
    &&& r2.vals[t] == (w.value)(e, r.mem)
    &&& r2.mem == (w.effect)(e, r.mem)
}

/// The expressions that are known are lowered in the current block and in new ones, and their code
/// does what they mean.
pub open spec fn exprs_mean(l: Lower, code: Seq<BasicBlock>, sem: Oracle, w: Sense) -> bool {
    &&& forall|e: TypedExpr, s: St|
        (w.known)(e) ==> stays_local(s.b, (#[trigger] emitted_for(l, e, s)).0.b)
    &&& forall|e: TypedExpr, s: St, r: Run|
        (w.known)(e) && suits(w, s.b, r) && #[trigger] expr_stands(l, code, e, s, r)
            ==> exists|r2: Run|
            {
                &&& #[trigger] comes_to(code, sem, r, r2)
                &&& expr_ran(l, w, e, s, r, r2)
            }
}

/// An expression that is known stays local.
pub(crate) proof fn expr_local(
    l: Lower,
    e: &TypedExpr,
    s: St,
    code: Seq<BasicBlock>,
    sem: Oracle,
    w: Sense,
)
    requires
        exprs_mean(l, code, sem, w),
        (w.known)(*e),
    ensures
        stays_local(s.b, low(l, e, s).0.b),
{
    assert(stays_local(s.b, emitted_for(l, *e, s).0.b));
}

/// An expression that is known runs.
pub(crate) proof fn expr_runs(
    l: Lower,
    e: &TypedExpr,
    s: St,
    code: Seq<BasicBlock>,
    sem: Oracle,
    w: Sense,
    r: Run,
) -> (r2: Run)
    requires
        exprs_mean(l, code, sem, w),
        (w.known)(*e),
        suits(w, s.b, r),
        is_open(s.b),
        low(l, e, s).0.b.blocks.len() < u32::MAX,
        low(l, e, s).0.b.temp_types.len() < u32::MAX,
        part_stands(s.b, low(l, e, s).0.b, code),
        is_at(s.b, r),
    ensures
        ({
            let (s2, t) = low(l, e, s);
            &&& comes_to(code, sem, r, r2)
            &&& is_open(s2.b)
            &&& is_at(s2.b, r2)
            &&& same_below(s.b, r, r2)
            &&& suits(w, s2.b, r2)
            &&& t.0 < s2.b.temp_types.len()
            &&& r2.vals[t] == (w.value)(*e, r.mem)
            &&& r2.mem == (w.effect)(*e, r.mem)
        }),
{
    expr_local(l, e, s, code, sem, w);
    assert(expr_stands(l, code, *e, s, r));
    choose|r2: Run|
        {
            &&& #[trigger] comes_to(code, sem, r, r2)
            &&& expr_ran(l, w, *e, s, r, r2)
        }
}

// Scopes.

/// A reference is given back.
pub open spec fn release_of(o: &Owned) -> Instruction {
    Instruction::Release { val: o.temp, ty: o.ty }
}

/// Giving back references stays in the block.
proof fn release_all_local(b: FState, owned: &List<Owned>, keep: &List<Temp>)
    ensures
        stays_local(b, release_all(b, owned, keep)),
        release_all(b, owned, keep).temp_types == b.temp_types,
        release_all(b, owned, keep).blocks.len() == b.blocks.len(),
        release_all(b, owned, keep).env == b.env,
    decreases owned,
{
    match owned {
        List::Nil => {},
        List::Cons(n) => {
            let i = release_of(&n.head);
            let b1 = if has_temp(keep, n.head.temp) {
                b
            } else {
                b.emit(i)
            };
            emit_local(b, i);
            release_all_local(b1, &n.tail, keep);
            local_adds_up(b, b1, release_all(b, owned, keep));
            reveal(FState::emit);
        },
    }
}

/// Giving back references changes nothing that counts here.
proof fn release_all_runs(
    b: FState,
    owned: &List<Owned>,
    keep: &List<Temp>,
    code: Seq<BasicBlock>,
    sem: Oracle,
    r: Run,
) -> (r2: Run)
    requires
        is_open(b),
        release_all(b, owned, keep).blocks.len() < u32::MAX,
        release_all(b, owned, keep).temp_types.len() < u32::MAX,
        part_stands(b, release_all(b, owned, keep), code),
        is_at(b, r),
    ensures
        comes_to(code, sem, r, r2),
        is_at(release_all(b, owned, keep), r2),
        r2.vals == r.vals,
        r2.mem == r.mem,
        r2.from == r.from,
    decreases owned,
{
    match owned {
        List::Nil => {
            comes_to_itself(code, sem, r);
            r
        },
        List::Cons(n) => {
            let i = release_of(&n.head);
            if has_temp(keep, n.head.temp) {
                release_all_runs(b, &n.tail, keep, code, sem, r)
            } else {
                let b1 = b.emit(i);
                emit_local(b, i);
                release_all_local(b1, &n.tail, keep);
                halves_stand(b, b1, release_all(b, owned, keep), code);
                emitted_runs(b, i, code, sem, r);
                let r1 = after_instr(sem, i, r);
                let r2 = release_all_runs(b1, &n.tail, keep, code, sem, r1);
                comes_further(code, sem, r, r1, r2);
                r2
            }
        },
    }
}

/// Freeing shells stays in the block.
proof fn free_shells_local(b: FState, shells: &List<Temp>, keep: &List<Temp>)
    ensures
        stays_local(b, free_shells(b, shells, keep)),
        free_shells(b, shells, keep).temp_types == b.temp_types,
        free_shells(b, shells, keep).blocks.len() == b.blocks.len(),
        free_shells(b, shells, keep).env == b.env,
    decreases shells,
{
    match shells {
        List::Nil => {},
        List::Cons(n) => {
            let i = Instruction::FreeBoxShell { val: n.head };
            let b1 = if has_temp(keep, n.head) {
                b
            } else {
                b.emit(i)
            };
            emit_local(b, i);
            free_shells_local(b1, &n.tail, keep);
            local_adds_up(b, b1, free_shells(b, shells, keep));
            reveal(FState::emit);
        },
    }
}

/// Freeing shells changes nothing that counts here.
proof fn free_shells_runs(
    b: FState,
    shells: &List<Temp>,
    keep: &List<Temp>,
    code: Seq<BasicBlock>,
    sem: Oracle,
    r: Run,
) -> (r2: Run)
    requires
        is_open(b),
        free_shells(b, shells, keep).blocks.len() < u32::MAX,
        free_shells(b, shells, keep).temp_types.len() < u32::MAX,
        part_stands(b, free_shells(b, shells, keep), code),
        is_at(b, r),
    ensures
        comes_to(code, sem, r, r2),
        is_at(free_shells(b, shells, keep), r2),
        r2.vals == r.vals,
        r2.mem == r.mem,
        r2.from == r.from,
    decreases shells,
{
    match shells {
        List::Nil => {
            comes_to_itself(code, sem, r);
            r
        },
        List::Cons(n) => {
            let i = Instruction::FreeBoxShell { val: n.head };
            if has_temp(keep, n.head) {
                free_shells_runs(b, &n.tail, keep, code, sem, r)
            } else {
                let b1 = b.emit(i);
                emit_local(b, i);
                free_shells_local(b1, &n.tail, keep);
                halves_stand(b, b1, free_shells(b, shells, keep), code);
                emitted_runs(b, i, code, sem, r);
                let r1 = after_instr(sem, i, r);
                let r2 = free_shells_runs(b1, &n.tail, keep, code, sem, r1);
                comes_further(code, sem, r, r1, r2);
                r2
            }
        },
    }
}

/// Closing a scope stays in the block.
pub(crate) proof fn scope_end_local(b: FState, keep: &List<Temp>)
    ensures
        stays_local(b, b.pop_scope_releasing_keep(keep)),
        b.pop_scope_releasing_keep(keep).temp_types == b.temp_types,
        b.pop_scope_releasing_keep(keep).blocks.len() == b.blocks.len(),
        b.pop_scope_releasing_keep(keep).env.current_block == b.env.current_block,
{
    reveal(FState::pop_scope_releasing_keep);
    reveal(FState::discard_scope);
    match b.env.scopes {
        List::Nil => {},
        List::Cons(n) => {
            let b1 = release_all(b, &n.head.owned, keep);
            release_all_local(b, &n.head.owned, keep);
            free_shells_local(b1, &n.head.shells, keep);
            local_adds_up(b, b1, free_shells(b1, &n.head.shells, keep));
        },
    }
}

/// Closing a scope changes nothing that counts here.
pub(crate) proof fn scope_end_runs(
    b: FState,
    keep: &List<Temp>,
    code: Seq<BasicBlock>,
    sem: Oracle,
    r: Run,
) -> (r2: Run)
    requires
        is_open(b),
        b.pop_scope_releasing_keep(keep).blocks.len() < u32::MAX,
        b.pop_scope_releasing_keep(keep).temp_types.len() < u32::MAX,
        part_stands(b, b.pop_scope_releasing_keep(keep), code),
        is_at(b, r),
    ensures
        comes_to(code, sem, r, r2),
        is_at(b.pop_scope_releasing_keep(keep), r2),
        r2.vals == r.vals,
        r2.mem == r.mem,
        r2.from == r.from,
{
    reveal(FState::pop_scope_releasing_keep);
    reveal(FState::discard_scope);
    reveal(FState::is_terminated);
    match b.env.scopes {
        List::Nil => {
            comes_to_itself(code, sem, r);
            r
        },
        List::Cons(n) => {
            let b1 = release_all(b, &n.head.owned, keep);
            let b2 = free_shells(b1, &n.head.shells, keep);
            release_all_local(b, &n.head.owned, keep);
            free_shells_local(b1, &n.head.shells, keep);
            assert(part_stands(b, b2, code));
            halves_stand(b, b1, b2, code);
            let r1 = release_all_runs(b, &n.head.owned, keep, code, sem, r);
            let r2 = free_shells_runs(b1, &n.head.shells, keep, code, sem, r1);
            comes_further(code, sem, r, r1, r2);
            r2
        },
    }
}

// Conditions.

/// A condition stays local.
pub(crate) proof fn cond_local(
    l: Lower,
    e: &TypedExpr,
    s: St,
    code: Seq<BasicBlock>,
    sem: Oracle,
    w: Sense,
)
    requires
        exprs_mean(l, code, sem, w),
        (w.known)(*e),
    ensures
        stays_local(s.b, lower_cond_as_bool_spec(l, e, s).0.b),
        stays_local(low(l, e, s).0.b, lower_cond_as_bool_spec(l, e, s).0.b),
{
    reveal(lower_cond_as_bool_spec);
    expr_local(l, e, s, code, sem, w);
    let (s1, t) = low(l, e, s);
    let ty = s1.b.temp_ty_or(t, e.ty());
    truth_local(t, &ty, s1.b);
    local_adds_up(s.b, s1.b, as_bool_spec(t, &ty, s1.b).0);
}

/// A condition gives the value of its expression.
pub(crate) proof fn cond_runs(
    l: Lower,
    e: &TypedExpr,
    s: St,
    code: Seq<BasicBlock>,
    sem: Oracle,
    w: Sense,
    r: Run,
) -> (r2: Run)
    requires
        exprs_mean(l, code, sem, w),
        (w.known)(*e),
        suits(w, s.b, r),
        is_open(s.b),
        lower_cond_as_bool_spec(l, e, s).0.b.blocks.len() < u32::MAX,
        lower_cond_as_bool_spec(l, e, s).0.b.temp_types.len() < u32::MAX,
        part_stands(s.b, lower_cond_as_bool_spec(l, e, s).0.b, code),
        is_at(s.b, r),
    ensures
        ({
            let (s2, t) = lower_cond_as_bool_spec(l, e, s);
            &&& comes_to(code, sem, r, r2)
            &&& is_open(s2.b)
            &&& is_at(s2.b, r2)
            &&& same_below(s.b, r, r2)
            &&& t.0 < s2.b.temp_types.len()
            &&& r2.vals[t] == (w.value)(*e, r.mem)
            &&& r2.mem == (w.effect)(*e, r.mem)
        }),
{
    cond_local(l, e, s, code, sem, w);
    expr_local(l, e, s, code, sem, w);
    reveal(lower_cond_as_bool_spec);
    let (s1, t) = low(l, e, s);
    let ty = s1.b.temp_ty_or(t, e.ty());
    let s2 = lower_cond_as_bool_spec(l, e, s).0;
    halves_stand(s.b, s1.b, s2.b, code);
    let r1 = expr_runs(l, e, s, code, sem, w, r);
    let r2 = truth_runs(t, &ty, s1.b, code, sem, r1);
    comes_further(code, sem, r, r1, r2);
    r2
}

/// A condition in a scope of its own stays local.
pub(crate) proof fn scoped_cond_local(
    l: Lower,
    e: &TypedExpr,
    s: St,
    code: Seq<BasicBlock>,
    sem: Oracle,
    w: Sense,
)
    requires
        exprs_mean(l, code, sem, w),
        (w.known)(*e),
    ensures
        stays_local(s.b, lower_scoped_cond_spec(l, e, s).0.b),
{
    reveal(lower_scoped_cond_spec);
    reveal(FState::push_scope);
    let s0 = St { b: s.b.push_scope(), c: s.c };
    let (s1, t) = lower_cond_as_bool_spec(l, e, s0);
    cond_local(l, e, s0, code, sem, w);
    scope_end_local(s1.b, &one(t));
    local_adds_up(s0.b, s1.b, lower_scoped_cond_spec(l, e, s).0.b);
}

/// A condition in a scope of its own gives the value of its expression.
pub(crate) proof fn scoped_cond_runs(
    l: Lower,
    e: &TypedExpr,
    s: St,
    code: Seq<BasicBlock>,
    sem: Oracle,
    w: Sense,
    r: Run,
) -> (r2: Run)
    requires
        exprs_mean(l, code, sem, w),
        (w.known)(*e),
        suits(w, s.b, r),
        is_open(s.b),
        lower_scoped_cond_spec(l, e, s).0.b.blocks.len() < u32::MAX,
        lower_scoped_cond_spec(l, e, s).0.b.temp_types.len() < u32::MAX,
        part_stands(s.b, lower_scoped_cond_spec(l, e, s).0.b, code),
        is_at(s.b, r),
    ensures
        ({
            let (s2, t) = lower_scoped_cond_spec(l, e, s);
            &&& comes_to(code, sem, r, r2)
            &&& is_open(s2.b)
            &&& is_at(s2.b, r2)
            &&& same_below(s.b, r, r2)
            &&& t.0 < s2.b.temp_types.len()
            &&& r2.vals[t] == (w.value)(*e, r.mem)
            &&& r2.mem == (w.effect)(*e, r.mem)
        }),
{
    reveal(lower_scoped_cond_spec);
    reveal(FState::push_scope);
    let s0 = St { b: s.b.push_scope(), c: s.c };
    let (s1, t) = lower_cond_as_bool_spec(l, e, s0);
    let s2 = lower_scoped_cond_spec(l, e, s).0;
    cond_local(l, e, s0, code, sem, w);
    scope_end_local(s1.b, &one(t));
    assert(is_open(s0.b) && part_stands(s0.b, s2.b, code) && is_at(s0.b, r));
    halves_stand(s0.b, s1.b, s2.b, code);
    let r1 = cond_runs(l, e, s0, code, sem, w, r);
    let r2 = scope_end_runs(s1.b, &one(t), code, sem, r1);
    comes_further(code, sem, r, r1, r2);
    r2
}

} // verus!
