//! Array literals, as they run.

use crate::ast::TypedExpr;
use crate::builder::FState;
use crate::coerce::{anon_object_slot_repr_differs, coerce_to_slot_type_spec, free_box_shells_spec};
use crate::ctx::{Lower, St, low};
use crate::direct::alike;
use crate::expr::{
    array_literal_elem_type, lower_elements_spec, lower_make_array_spec, store_element_spec,
};
use crate::fusion::emit_local;
use crate::ir::{BasicBlock, Instruction, Temp};
use crate::list::List;
use crate::looping::{halves_stand, part_stands};
use crate::operating::{carried_local, carried_runs, carries, shells_local, shells_run};
use crate::repr::{is_sealed_scalar_array, is_sealed_scalar_repr};
use crate::run::{
    Mem, Oracle, Run, Value, after_instr, comes_further, comes_to, comes_to_itself, emitted_runs,
    instrs, is_at, is_open, local_adds_up, made_runs, same_below, stays_local, values_of,
};
use crate::sense::{Sense, expr_local, expr_runs, exprs_mean, suits};
use crate::types::Type;
use vstd::prelude::*;

verus! {

/// The references of an element go into the array: at most it is counted once more.
proof fn transfer_is(t: Temp, e: &TypedExpr, consumes: bool, b: FState) -> (counted: Option<Type>)
    ensures
        match counted {
            Some(ty) => b.transfer_into_container(t, e, consumes) == b.emit(
                Instruction::Retain { val: t, ty },
            ),
            None => alike(b.transfer_into_container(t, e, consumes), b),
        },
{
    reveal(FState::transfer_into_container);
    reveal(FState::unregister_owned);
    let ty = b.temp_ty_or(t, e.ty());
    if b.transfer_into_container(t, e, consumes) == b.emit(Instruction::Retain { val: t, ty }) {
        Some(ty)
    } else {
        None
    }
}

/// The states in which an element is stored: converted, with its references, and as the array holds
/// it.
proof fn storing(t: Temp, e: &TypedExpr, elem_ty: &Type, b: FState) -> (p: (FState, Temp, FState))
    ensures
        ({
            let (b3, o) = store_element_spec(t, e, elem_ty, b);
            &&& carries(b, t, p.0, p.1)
            &&& p.2 == p.0 || p.2 == p.0.transfer_into_container(p.1, e, true)
            &&& carries(p.2, p.1, b3, o.temp)
        }),
{
    reveal(store_element_spec);
    reveal(coerce_to_slot_type_spec);
    let projects = anon_object_slot_repr_differs(&e.ty(), elem_ty);
    let (b1, t1) = if projects {
        b.coerce(t, &e.ty(), elem_ty)
    } else {
        (b, t)
    };
    let ety = if projects {
        *elem_ty
    } else {
        e.ty()
    };
    assert(carries(b, t, b1, t1)) by {
        let from = e.ty();
        let x = b.coerce(t, &from, elem_ty);
    }
    let materializes = is_sealed_scalar_repr(&ety)
        && !is_sealed_scalar_repr(elem_ty);
    let b2 = if !materializes && !projects {
        b1.transfer_into_container(t1, e, true)
    } else {
        b1
    };
    let (b3, o) = store_element_spec(t, e, elem_ty, b);
    assert(carries(b2, t1, b3, o.temp)) by {
        let x = b2.coerce(t1, &ety, elem_ty);
    }
    (b1, t1, b2)
}

/// The code of one element, and what the array holds for it.
pub open spec fn one_element(l: Lower, e: &TypedExpr, elem_ty: &Type, s: St) -> (St, Temp) {
    let (s1, t) = low(l, e, s);
    let (b, o) = store_element_spec(t, e, elem_ty, s1.b);
    (St { b, c: s1.c }, o.temp)
}

/// An element stays local.
proof fn one_element_local(
    l: Lower,
    e: &TypedExpr,
    elem_ty: &Type,
    s: St,
    code: Seq<BasicBlock>,
    sem: Oracle,
    w: Sense,
)
    requires
        exprs_mean(l, code, sem, w),
        (w.known)(*e),
    ensures
        stays_local(s.b, one_element(l, e, elem_ty, s).0.b),
        stays_local(low(l, e, s).0.b, one_element(l, e, elem_ty, s).0.b),
{
    let (s1, t) = low(l, e, s);
    let (s2, x) = one_element(l, e, elem_ty, s);
    expr_local(l, e, s, code, sem, w);
    let (b1, t1, b2) = storing(t, e, elem_ty, s1.b);
    carried_local(s1.b, t, b1, t1);
    carried_local(b2, t1, s2.b, x);
    let counted = transfer_is(t1, e, true, b1);
    if let Some(ty) = counted {
        emit_local(b1, Instruction::Retain { val: t1, ty });
    }
    local_adds_up(s1.b, b1, b2);
    local_adds_up(s1.b, b2, s2.b);
    local_adds_up(s.b, s1.b, s2.b);
}

/// An element has its value.
proof fn one_element_runs(
    l: Lower,
    e: &TypedExpr,
    elem_ty: &Type,
    s: St,
    code: Seq<BasicBlock>,
    sem: Oracle,
    w: Sense,
    r: Run,
) -> (r2: Run)
    requires
        exprs_mean(l, code, sem, w),
        (w.known)(*e),
        suits(w, s.b, r),
        is_open(s.b),
        one_element(l, e, elem_ty, s).0.b.blocks.len() < u32::MAX,
        one_element(l, e, elem_ty, s).0.b.temp_types.len() < u32::MAX,
        part_stands(s.b, one_element(l, e, elem_ty, s).0.b, code),
        is_at(s.b, r),
    ensures
        ({
            let (s2, t) = one_element(l, e, elem_ty, s);
            &&& comes_to(code, sem, r, r2)
            &&& is_at(s2.b, r2)
            &&& same_below(s.b, r, r2)
            &&& t.0 < s2.b.temp_types.len()
            &&& r2.vals[t] == (w.value)(*e, r.mem)
            &&& r2.mem == (w.effect)(*e, r.mem)
        }),
{
    let (s1, t) = low(l, e, s);
    let (s2, x) = one_element(l, e, elem_ty, s);
    one_element_local(l, e, elem_ty, s, code, sem, w);
    expr_local(l, e, s, code, sem, w);
    let (b1, t1, b2) = storing(t, e, elem_ty, s1.b);
    carried_local(s1.b, t, b1, t1);
    carried_local(b2, t1, s2.b, x);
    let counted = transfer_is(t1, e, true, b1);
    if let Some(ty) = counted {
        emit_local(b1, Instruction::Retain { val: t1, ty });
    }
    local_adds_up(b1, b2, s2.b);
    halves_stand(s.b, s1.b, s2.b, code);
    halves_stand(s1.b, b1, s2.b, code);
    halves_stand(b1, b2, s2.b, code);
    let r1 = expr_runs(l, e, s, code, sem, w, r);
    let r2 = carried_runs(s1.b, t, b1, t1, code, sem, r1);
    comes_further(code, sem, r, r1, r2);
    let r3 = match counted {
        Some(ty) => if b2 == b1 {
            comes_to_itself(code, sem, r2);
            r2
        } else {
            let i = Instruction::Retain { val: t1, ty };
            emitted_runs(b1, i, code, sem, r2);
            after_instr(sem, i, r2)
        },
        None => {
            comes_to_itself(code, sem, r2);
            r2
        },
    };
    comes_further(code, sem, r, r2, r3);
    assert(r3.vals == r2.vals && r3.mem == r2.mem);
    assert(t1.0 < b2.temp_types.len()) by {
        reveal(FState::emit);
    }
    let r4 = carried_runs(b2, t1, s2.b, x, code, sem, r3);
    comes_further(code, sem, r, r3, r4);
    r4
}

/// The values of expressions, in order; what one changes the later ones find.
pub open spec fn values_in_turn(es: &List<TypedExpr>, w: Sense, mem: Mem) -> Seq<Value>
    decreases es,
{
    match es {
        List::Nil => Seq::empty(),
        List::Cons(n) => seq![(w.value)(n.head, mem)] + values_in_turn(
            &n.tail,
            w,
            (w.effect)(n.head, mem),
        ),
    }
}

/// What expressions change, in order.
pub open spec fn effects_in_turn(es: &List<TypedExpr>, w: Sense, mem: Mem) -> Mem
    decreases es,
{
    match es {
        List::Nil => mem,
        List::Cons(n) => effects_in_turn(&n.tail, w, (w.effect)(n.head, mem)),
    }
}

/// The expressions are known.
pub open spec fn exprs_known(es: &List<TypedExpr>, w: Sense) -> bool
    decreases es,
{
    match es {
        List::Nil => true,
        List::Cons(n) => (w.known)(n.head) && exprs_known(&n.tail, w),
    }
}

/// The elements stay local.
proof fn elements_local(
    l: Lower,
    es: &List<TypedExpr>,
    elem_ty: &Type,
    s: St,
    code: Seq<BasicBlock>,
    sem: Oracle,
    w: Sense,
)
    requires
        exprs_mean(l, code, sem, w),
        exprs_known(es, w),
    ensures
        stays_local(s.b, lower_elements_spec(l, es, elem_ty, false, s).0.b),
    decreases es,
{
    reveal(lower_elements_spec);
    match es {
        List::Nil => {},
        List::Cons(n) => {
            let s1 = one_element(l, &n.head, elem_ty, s).0;
            one_element_local(l, &n.head, elem_ty, s, code, sem, w);
            elements_local(l, &n.tail, elem_ty, s1, code, sem, w);
            local_adds_up(s.b, s1.b, lower_elements_spec(l, es, elem_ty, false, s).0.b);
        },
    }
}

/// The elements have their values, in order.
proof fn elements_run(
    l: Lower,
    es: &List<TypedExpr>,
    elem_ty: &Type,
    s: St,
    code: Seq<BasicBlock>,
    sem: Oracle,
    w: Sense,
    r: Run,
) -> (r2: Run)
    requires
        exprs_mean(l, code, sem, w),
        exprs_known(es, w),
        suits(w, s.b, r),
        is_open(s.b),
        lower_elements_spec(l, es, elem_ty, false, s).0.b.blocks.len() < u32::MAX,
        lower_elements_spec(l, es, elem_ty, false, s).0.b.temp_types.len() < u32::MAX,
        part_stands(s.b, lower_elements_spec(l, es, elem_ty, false, s).0.b, code),
        is_at(s.b, r),
    ensures
        ({
            let (s2, elems) = lower_elements_spec(l, es, elem_ty, false, s);
            &&& comes_to(code, sem, r, r2)
            &&& is_open(s2.b)
            &&& is_at(s2.b, r2)
            &&& same_below(s.b, r, r2)
            &&& values_of(&elems.temps, r2.vals) == values_in_turn(es, w, r.mem)
            &&& r2.mem == effects_in_turn(es, w, r.mem)
        }),
    decreases es,
{
    reveal(lower_elements_spec);
    let (s2, elems) = lower_elements_spec(l, es, elem_ty, false, s);
    match es {
        List::Nil => {
            comes_to_itself(code, sem, r);
            r
        },
        List::Cons(n) => {
            let (s1, t) = one_element(l, &n.head, elem_ty, s);
            one_element_local(l, &n.head, elem_ty, s, code, sem, w);
            elements_local(l, &n.tail, elem_ty, s1, code, sem, w);
            halves_stand(s.b, s1.b, s2.b, code);
            let r1 = one_element_runs(l, &n.head, elem_ty, s, code, sem, w, r);
            let r2 = elements_run(l, &n.tail, elem_ty, s1, code, sem, w, r1);
            comes_further(code, sem, r, r1, r2);
            assert(r2.vals[t] == r1.vals[t]);
            r2
        },
    }
}

/// A run of what an array literal is lowered to, other than one of packed records, gives a
/// collection of the values of its elements, in order, which are evaluated in order, each once.
pub proof fn array_literal_runs_to_its_elements(
    l: Lower,
    es: &List<TypedExpr>,
    ty: &Type,
    s: St,
    code: Seq<BasicBlock>,
    sem: Oracle,
    w: Sense,
    r: Run,
) -> (r2: Run)
    requires
        exprs_mean(l, code, sem, w),
        exprs_known(es, w),
        !is_sealed_scalar_array(ty),
        suits(w, s.b, r),
        is_open(s.b),
        lower_make_array_spec(l, es, ty, s).0.b.blocks.len() < u32::MAX,
        lower_make_array_spec(l, es, ty, s).0.b.temp_types.len() < u32::MAX,
        part_stands(s.b, lower_make_array_spec(l, es, ty, s).0.b, code),
        is_at(s.b, r),
    ensures
        ({
            let (s2, t) = lower_make_array_spec(l, es, ty, s);
            &&& comes_to(code, sem, r, r2)
            &&& is_at(s2.b, r2)
            &&& same_below(s.b, r, r2)
            &&& r2.vals[t] == Value::Items(values_in_turn(es, w, r.mem))
            &&& r2.mem == effects_in_turn(es, w, r.mem)
        }),
{
    reveal(lower_make_array_spec);
    let (s2, t) = lower_make_array_spec(l, es, ty, s);
    let elem_ty = array_literal_elem_type(ty);
    let (s1, elems) = lower_elements_spec(l, es, &elem_ty, false, s);
    let i = Instruction::MakeArray {
        dst: t,
        elements: elems.temps,
        elem_ty,
        inline: false,
        columnar: false,
    };
    let b2 = s1.b.alloc_temp(*ty).0.emit(i);
    let b3 = free_box_shells_spec(&elems.shells, b2);
    assert(alike(s2.b, b3)) by {
        reveal(FState::register_owned);
    }
    elements_local(l, es, &elem_ty, s, code, sem, w);
    shells_local(&elems.shells, b2);
    assert(stays_local(s1.b, b2) && s1.b.temp_types.len() < u32::MAX && t.0
        == s1.b.temp_types.len()) by {
        reveal(FState::alloc_temp);
        reveal(FState::emit);
        reveal_with_fuel(instrs, 2);
    }
    local_adds_up(s1.b, b2, b3);
    assert(part_stands(s.b, b3, code));
    halves_stand(s.b, s1.b, b3, code);
    halves_stand(s1.b, b2, b3, code);
    let r1 = elements_run(l, es, &elem_ty, s, code, sem, w, r);
    made_runs(s1.b, *ty, i, code, sem, r1);
    let r2 = after_instr(sem, i, r1);
    comes_further(code, sem, r, r1, r2);
    let r3 = shells_run(&elems.shells, b2, code, sem, r2);
    comes_further(code, sem, r, r2, r3);
    r3
}

} // verus!
