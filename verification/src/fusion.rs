//! Fused loops, as they run.

use crate::ast::BinOp;
use crate::builder::FState;
use crate::coerce::{box_to_json_spec, coerce_arg_to_param_repr_spec, push_output_spec};
use crate::ctx::{Lower, St};
use crate::flowing::{
    Flow, Meaning, Seen, arriving, arriving_tracks, counted, end_effect, first_of_later, flow,
    flow_all, flow_all_tracks, last_value_flows_last, later_of, let_through, own_counters, placed,
    step_lambda, taken, tracks,
};
use crate::fuse::{
    Terminal, advance_counter_spec, first_counter, fm_apply_spec, fm_filter_spec,
    fm_next_index_spec, fm_process_spec, later_counters, mapped_type, run_flat_terminal_spec,
    stage_takes_index, terminal_takes_index,
};
use crate::ir::{BasicBlock, BlockId, Const, FlatElemKind, Instruction, Intrinsic, Temp, Terminator};
use crate::laws::element_is_given_back_once;
use crate::list::{List, prepend, two};
use crate::looping::{
    body_keeps, closed, closed_local, closed_runs, closed_stands, halves_stand, loop_end_adds,
    loop_ends, loop_lies, loop_local, loop_runs_its_body_for_every_element, loop_start_adds,
    part_stands, passed, starts_body, whole_loop,
};
use crate::loops::{
    ElemAccess, LoopFlow, LoopFrame, TypedTemp, as_bool_spec, begin_combinator_loop_spec,
    elem_and_index, end_combinator_loop_spec, fm_reclaim_elem_spec, inline_lambda_body_spec,
};
use crate::recognize::{
    FuseStage, Lambda, combinator_read_elem_ty_spec, is_borrowed_heap_elem, takes_three, takes_two,
};
use crate::repr::{is_rc_type, is_sealed_scalar_repr, is_union_ty};
use crate::run::{
    Mem, Oracle, Run, Value, after_instr, cell_read_runs, comes_further, comes_one_step, comes_to,
    comes_to_itself, constant_runs, conversion_runs, current, emitted_runs, goes_on, instrs, is_at,
    is_here, is_open, local_adds_up, operator_runs, pushed, same_below, stays_local, step,
};
use crate::types::{Type, json, same_type};
use vstd::prelude::*;

verus! {

// Pieces of code that stay in one block.

/// Code that stays in one block has run: it has come from `r` to `r2` and has left alone the
/// temporaries of `b`.
pub open spec fn ran_on(
    b: FState,
    b2: FState,
    code: Seq<BasicBlock>,
    sem: Oracle,
    r: Run,
    r2: Run,
) -> bool {
    &&& goes_on(b, b2)
    &&& is_here(b, code)
    &&& comes_to(code, sem, r, r2)
    &&& is_at(b2, r2)
    &&& same_below(b, r, r2)
}

/// Two pieces in turn.
pub(crate) proof fn ran_in_turn(
    a: FState,
    b: FState,
    c: FState,
    code: Seq<BasicBlock>,
    sem: Oracle,
    r: Run,
    r1: Run,
    r2: Run,
)
    requires
        ran_on(a, b, code, sem, r, r1),
        ran_on(b, c, code, sem, r1, r2),
    ensures
        ran_on(a, c, code, sem, r, r2),
{
    comes_further(code, sem, r, r1, r2);
}

/// Some run that is where code is emitted next in `b`.
pub open spec fn some_run_at(b: FState, r: Run) -> Run {
    Run { block: b.env.current_block, at: current(b).len(), ..r }
}

/// Giving back an element changes nothing that counts here.
pub(crate) proof fn reclaim_runs(
    elem: Temp,
    elem_ty: &Type,
    b: FState,
    code: Seq<BasicBlock>,
    sem: Oracle,
    r: Run,
) -> (r2: Run)
    requires
        is_open(b),
        is_here(fm_reclaim_elem_spec(elem, elem_ty, b), code),
        is_at(b, r),
    ensures
        ran_on(b, fm_reclaim_elem_spec(elem, elem_ty, b), code, sem, r, r2),
        r2.mem == r.mem,
        fm_reclaim_elem_spec(elem, elem_ty, b).temp_types == b.temp_types,
{
    element_is_given_back_once(elem, elem_ty, b);
    let b2 = fm_reclaim_elem_spec(elem, elem_ty, b);
    let i = Instruction::Release { val: elem, ty: *elem_ty };
    if b2 == b.emit(i) && (is_union_ty(elem_ty) || is_sealed_scalar_repr(elem_ty)) {
        emitted_runs(b, i, code, sem, r);
        after_instr(sem, i, r)
    } else {
        comes_to_itself(code, sem, r);
        r
    }
}

/// A value as a truth value.
pub(crate) proof fn truth_runs(
    t: Temp,
    ty: &Type,
    b: FState,
    code: Seq<BasicBlock>,
    sem: Oracle,
    r: Run,
) -> (r2: Run)
    requires
        is_open(b),
        as_bool_spec(t, ty, b).0.temp_types.len() < u32::MAX,
        is_here(as_bool_spec(t, ty, b).0, code),
        is_at(b, r),
        t.0 < b.temp_types.len(),
    ensures
        ({
            let (b2, keep) = as_bool_spec(t, ty, b);
            &&& ran_on(b, b2, code, sem, r, r2)
            &&& r2.mem == r.mem
            &&& r2.vals[keep] == r.vals[t]
            &&& keep.0 < b2.temp_types.len()
        }),
{
    reveal(as_bool_spec);
    if ty is Bool {
        comes_to_itself(code, sem, r);
        r
    } else {
        assert(b.temp_types.len() < u32::MAX) by {
            reveal(FState::coerce);
            reveal(FState::alloc_temp);
            reveal(FState::emit);
        }
        conversion_runs(b, t, ty, &Type::Bool, code, sem, r);
        let keep = b.coerce(t, ty, &Type::Bool).1;
        after_instr(
            sem,
            Instruction::Coerce { dst: keep, src: t, from_ty: *ty, to_ty: Type::Bool },
            r,
        )
    }
}

/// A counter that is read and advanced gives the position.
pub(crate) proof fn advance_runs(
    cell: Temp,
    b: FState,
    code: Seq<BasicBlock>,
    sem: Oracle,
    r: Run,
    pos: int,
) -> (r2: Run)
    requires
        is_open(b),
        advance_counter_spec(cell, b).0.temp_types.len() < u32::MAX,
        is_here(advance_counter_spec(cell, b).0, code),
        is_at(b, r),
        r.mem.cells[cell] == Value::Number(pos),
    ensures
        ({
            let (b2, t) = advance_counter_spec(cell, b);
            &&& ran_on(b, b2, code, sem, r, r2)
            &&& r2.mem == counted(Some(cell), pos, r.mem)
            &&& r2.vals[t] == Value::Number(pos)
            &&& t.0 < b2.temp_types.len()
        }),
{
    reveal(advance_counter_spec);
    let number = Type::Int32;
    let (b1, cur) = b.cell_get(cell, &number);
    let (b2, one) = b1.const_temp(Const::Int(1, Type::Int32));
    let (b3, next) = b2.binary(BinOp::Add, cur, one, &number, &number);
    let set = Instruction::CellSet { cell, value: next, ty: Type::Int32 };
    let b4 = b3.emit(set);
    assert(is_open(b1) && is_open(b2) && is_open(b3) && b.temp_types.len() < u32::MAX
        && b1.temp_types.len() < u32::MAX && b2.temp_types.len() < u32::MAX
        && b3.temp_types.len() == b.temp_types.len() + 3) by {
        reveal(FState::cell_get);
        reveal(FState::const_temp);
        reveal(FState::binary);
        reveal(FState::alloc_temp);
        reveal(FState::emit);
    }
    emitted_runs(b3, set, code, sem, some_run_at(b3, r));
    operator_runs(b2, BinOp::Add, cur, one, &number, &number, code, sem, some_run_at(b2, r));
    constant_runs(b1, Const::Int(1, Type::Int32), code, sem, some_run_at(b1, r));
    cell_read_runs(b, cell, &number, code, sem, r);
    let r1 = after_instr(sem, Instruction::CellGet { dst: cur, cell, ty: number }, r);
    constant_runs(b1, Const::Int(1, Type::Int32), code, sem, r1);
    let i2 = Instruction::Const { dst: one, value: Const::Int(1, Type::Int32) };
    let r2 = after_instr(sem, i2, r1);
    operator_runs(b2, BinOp::Add, cur, one, &number, &number, code, sem, r2);
    let i3 = Instruction::Binary {
        dst: next,
        op: BinOp::Add,
        lhs: cur,
        rhs: one,
        operand_ty: number,
        ty: number,
    };
    let r3 = after_instr(sem, i3, r2);
    emitted_runs(b3, set, code, sem, r3);
    let r4 = after_instr(sem, set, r3);
    ran_in_turn(b, b1, b2, code, sem, r, r1, r2);
    ran_in_turn(b, b2, b3, code, sem, r, r2, r3);
    ran_in_turn(b, b3, b4, code, sem, r, r3, r4);
    r4
}

/// The position before the next step is counted, where something counts it.
pub(crate) proof fn next_index_runs(
    counters: &List<Option<Temp>>,
    b: FState,
    code: Seq<BasicBlock>,
    sem: Oracle,
    r: Run,
    pos: int,
) -> (r2: Run)
    requires
        is_open(b),
        fm_next_index_spec(counters, b).0.temp_types.len() < u32::MAX,
        is_here(fm_next_index_spec(counters, b).0, code),
        is_at(b, r),
        first_counter(counters) is Some ==> r.mem.cells[first_counter(counters)->Some_0]
            == Value::Number(pos),
    ensures
        ({
            let (b2, t) = fm_next_index_spec(counters, b);
            &&& ran_on(b, b2, code, sem, r, r2)
            &&& r2.mem == counted(first_counter(counters), pos, r.mem)
            &&& first_counter(counters) is Some ==> r2.vals[t] == Value::Number(pos)
            &&& t.0 < b2.temp_types.len()
        }),
{
    reveal(fm_next_index_spec);
    match first_counter(counters) {
        Some(cell) => advance_runs(cell, b, code, sem, r, pos),
        None => {
            let zero = Const::Int(0, Type::Int32);
            assert(b.temp_types.len() < u32::MAX) by {
                reveal(FState::const_temp);
                reveal(FState::alloc_temp);
                reveal(FState::emit);
            }
            constant_runs(b, zero, code, sem, r);
            let t = b.const_temp(zero).1;
            after_instr(sem, Instruction::Const { dst: t, value: zero }, r)
        },
    }
}

/// What is pushed is behind what was pushed before.
pub(crate) proof fn push_runs(
    out: Temp,
    flat: Option<FlatElemKind>,
    elem_ty: &Type,
    val: Temp,
    val_ty: &Type,
    borrowed: bool,
    b: FState,
    code: Seq<BasicBlock>,
    sem: Oracle,
    r: Run,
) -> (r2: Run)
    requires
        is_open(b),
        push_output_spec(out, flat, elem_ty, val, val_ty, borrowed, b).temp_types.len() < u32::MAX,
        is_here(push_output_spec(out, flat, elem_ty, val, val_ty, borrowed, b), code),
        is_at(b, r),
        val.0 < b.temp_types.len(),
    ensures
        ({
            let b2 = push_output_spec(out, flat, elem_ty, val, val_ty, borrowed, b);
            &&& ran_on(b, b2, code, sem, r, r2)
            &&& r2.mem == pushed(r.mem, out, r.vals[val])
        }),
{
    reveal(push_output_spec);
    reveal(box_to_json_spec);
    let (b1, dst) = b.alloc_temp(Type::Null);
    let last = push_output_spec(out, flat, elem_ty, val, val_ty, borrowed, b);
    assert(b.temp_types.len() < u32::MAX && b1.temp_types.len() == b.temp_types.len() + 1
        && b1.blocks == b.blocks && b1.env == b.env && dst.0 == b.temp_types.len()) by {
        reveal(FState::alloc_temp);
        reveal(FState::emit);
        reveal(FState::coerce);
    }
    match flat {
        Some(kind) => {
            let converts = is_union_ty(val_ty) || (val_ty.is_numeric() && elem_ty.is_numeric()
                && !same_type(val_ty, elem_ty));
            let (b2, scalar) = if converts {
                b1.coerce(val, val_ty, elem_ty)
            } else {
                (b1, val)
            };
            assert(is_open(b2) && b1.temp_types.len() < u32::MAX && b2.env.current_block
                == b.env.current_block) by {
                reveal(FState::alloc_temp);
                reveal(FState::emit);
                reveal(FState::coerce);
            }
            let push = Instruction::CallIntrinsic {
                dst,
                intrinsic: Intrinsic::FlatArrayPush(kind),
                args: two(out, scalar),
                ret_ty: Type::Null,
            };
            emitted_runs(b2, push, code, sem, some_run_at(b2, r));
            let r1 = if converts {
                conversion_runs(b1, val, val_ty, elem_ty, code, sem, r);
                let i = Instruction::Coerce {
                    dst: scalar,
                    src: val,
                    from_ty: *val_ty,
                    to_ty: *elem_ty,
                };
                after_instr(sem, i, r)
            } else {
                comes_to_itself(code, sem, r);
                r
            };
            emitted_runs(b2, push, code, sem, r1);
            let r2 = after_instr(sem, push, r1);
            comes_further(code, sem, r, r1, r2);
            r2
        },
        None => {
            let keep = Instruction::Retain { val, ty: *val_ty };
            let retains = borrowed && is_rc_type(val_ty) && !is_union_ty(val_ty);
            let b2 = if retains {
                b1.emit(keep)
            } else {
                b1
            };
            let (b3, boxed) = if is_union_ty(val_ty) {
                (b2, val)
            } else {
                b2.coerce(val, val_ty, &json())
            };
            let push = Instruction::CallIntrinsic {
                dst,
                intrinsic: Intrinsic::Push,
                args: two(out, boxed),
                ret_ty: Type::Null,
            };
            let b4 = b3.emit(push);
            let free = Instruction::Release { val: boxed, ty: json() };
            let b5 = if boxed != val {
                b4.emit(free)
            } else {
                b4
            };
            assert(last == b5);
            assert(is_open(b2) && is_open(b3) && is_open(b4) && b2.temp_types == b1.temp_types
                && b1.temp_types.len() < u32::MAX) by {
                reveal(FState::alloc_temp);
                reveal(FState::emit);
                reveal(FState::coerce);
            }
            if boxed != val {
                emitted_runs(b4, free, code, sem, some_run_at(b4, r));
            }
            emitted_runs(b3, push, code, sem, some_run_at(b3, r));
            if !is_union_ty(val_ty) {
                conversion_runs(b2, val, val_ty, &json(), code, sem, some_run_at(b2, r));
            }
            let r1 = if retains {
                emitted_runs(b1, keep, code, sem, r);
                after_instr(sem, keep, r)
            } else {
                comes_to_itself(code, sem, r);
                r
            };
            let r2 = if is_union_ty(val_ty) {
                r1
            } else {
                conversion_runs(b2, val, val_ty, &json(), code, sem, r1);
                let i = Instruction::Coerce {
                    dst: boxed,
                    src: val,
                    from_ty: *val_ty,
                    to_ty: json(),
                };
                let r2 = after_instr(sem, i, r1);
                comes_further(code, sem, r, r1, r2);
                r2
            };
            emitted_runs(b3, push, code, sem, r2);
            let r3 = after_instr(sem, push, r2);
            comes_further(code, sem, r, r2, r3);
            if boxed != val {
                emitted_runs(b4, free, code, sem, r3);
                let r4 = after_instr(sem, free, r3);
                comes_further(code, sem, r, r3, r4);
                r4
            } else {
                r3
            }
        },
    }
}

// What stays local.

/// An instruction is added to the current block.
pub(crate) proof fn emit_local(b: FState, i: Instruction)
    ensures
        stays_local(b, b.emit(i)),
        b.emit(i).temp_types == b.temp_types,
        b.emit(i).blocks.len() == b.blocks.len(),
        b.emit(i).env == b.env,
        is_open(b) ==> goes_on(b, b.emit(i)),
{
    reveal(FState::emit);
    reveal_with_fuel(instrs, 2);
}

/// A temporary is added to no block.
pub(crate) proof fn alloc_local(b: FState, ty: Type)
    ensures
        stays_local(b, b.alloc_temp(ty).0),
        b.alloc_temp(ty).0.blocks == b.blocks,
        b.alloc_temp(ty).0.env.current_block == b.env.current_block,
{
    reveal(FState::alloc_temp);
}

/// A conversion is added to the current block.
pub(crate) proof fn coerce_local(b: FState, src: Temp, from: &Type, to: &Type)
    ensures
        stays_local(b, b.coerce(src, from, to).0),
{
    reveal(FState::coerce);
    let (b1, dst) = b.alloc_temp(*to);
    alloc_local(b, *to);
    emit_local(b1, Instruction::Coerce { dst, src, from_ty: *from, to_ty: *to });
}

/// Giving back an element adds to the current block.
pub(crate) proof fn reclaim_local(elem: Temp, elem_ty: &Type, b: FState)
    ensures
        stays_local(b, fm_reclaim_elem_spec(elem, elem_ty, b)),
        fm_reclaim_elem_spec(elem, elem_ty, b).temp_types == b.temp_types,
        fm_reclaim_elem_spec(elem, elem_ty, b).blocks.len() == b.blocks.len(),
        fm_reclaim_elem_spec(elem, elem_ty, b).env == b.env,
        is_open(b) ==> goes_on(b, fm_reclaim_elem_spec(elem, elem_ty, b)),
{
    element_is_given_back_once(elem, elem_ty, b);
    emit_local(b, Instruction::Release { val: elem, ty: *elem_ty });
}

/// A truth value is made in the current block.
pub(crate) proof fn truth_local(t: Temp, ty: &Type, b: FState)
    ensures
        stays_local(b, as_bool_spec(t, ty, b).0),
{
    reveal(as_bool_spec);
    coerce_local(b, t, ty, &Type::Bool);
}

/// A position is counted in the current block.
pub(crate) proof fn next_index_local(counters: &List<Option<Temp>>, b: FState)
    ensures
        stays_local(b, fm_next_index_spec(counters, b).0),
{
    reveal(fm_next_index_spec);
    reveal(advance_counter_spec);
    reveal(FState::cell_get);
    reveal(FState::const_temp);
    reveal(FState::binary);
    reveal(FState::alloc_temp);
    reveal(FState::emit);
    reveal_with_fuel(instrs, 5);
}

/// What is pushed is pushed in the current block.
pub(crate) proof fn push_local(
    out: Temp,
    flat: Option<FlatElemKind>,
    elem_ty: &Type,
    val: Temp,
    val_ty: &Type,
    borrowed: bool,
    b: FState,
)
    ensures
        stays_local(b, push_output_spec(out, flat, elem_ty, val, val_ty, borrowed, b)),
{
    reveal(push_output_spec);
    reveal(box_to_json_spec);
    reveal(FState::coerce);
    reveal(FState::alloc_temp);
    reveal(FState::emit);
    reveal_with_fuel(instrs, 5);
}

// The functions of the steps.

/// A function is inlined.
pub open spec fn inlined(l: Lower, lam: Lambda, args: List<TypedTemp>, s: St) -> (St, TypedTemp) {
    inline_lambda_body_spec(l, &lam, &args, s)
}

/// The values of arguments.
pub open spec fn values_in(args: &List<TypedTemp>, vals: Map<Temp, Value>) -> Seq<Value>
    decreases args,
{
    match args {
        List::Nil => Seq::empty(),
        List::Cons(n) => seq![vals[n.head.temp]] + values_in(&n.tail, vals),
    }
}

/// The code of an inlined function stands where it was emitted, and a run is in front of it.
pub open spec fn body_stands(
    l: Lower,
    code: Seq<BasicBlock>,
    lam: Lambda,
    args: List<TypedTemp>,
    s: St,
    r: Run,
) -> bool {
    let s2 = inlined(l, lam, args, s).0;
    &&& is_open(s.b)
    &&& s2.b.blocks.len() < u32::MAX
    &&& s2.b.temp_types.len() < u32::MAX
    &&& part_stands(s.b, s2.b, code)
    &&& is_at(s.b, r)
}

/// A run has come through the code of an inlined function: it has found the value and made the
/// changes that the meaning of the function tells.
pub open spec fn body_ran(
    l: Lower,
    m: Meaning,
    lam: Lambda,
    args: List<TypedTemp>,
    s: St,
    r: Run,
    r2: Run,
) -> bool {
    let (s2, t) = inlined(l, lam, args, s);
    let given = taken(lam, values_in(&args, r.vals));
    &&& is_at(s2.b, r2)
    &&& same_below(s.b, r, r2)
    &&& t.temp.0 < s2.b.temp_types.len()
    &&& r2.vals[t.temp] == (m.value)(lam, given)
    &&& r2.mem == (m.effect)(lam, given, r.mem)
}

/// The temporaries that the meaning of the functions rests on are there, with their values.
pub open spec fn fits(m: Meaning, b: FState, r: Run) -> bool {
    &&& m.outer <= b.temp_types.len()
    &&& forall|t: Temp| t.0 < m.outer ==> #[trigger] r.vals[t] == m.fixed[t]
}

/// The functions that are known are inlined in the current block and in new ones, and their code
/// does what they mean.
pub open spec fn bodies_mean(l: Lower, code: Seq<BasicBlock>, sem: Oracle, m: Meaning) -> bool {
    &&& forall|lam: Lambda, args: List<TypedTemp>, s: St|
        (m.known)(lam) ==> stays_local(s.b, (#[trigger] inlined(l, lam, args, s)).0.b)
    &&& forall|lam: Lambda, args: List<TypedTemp>, s: St, r: Run|
        (m.known)(lam) && fits(m, s.b, r) && #[trigger] body_stands(l, code, lam, args, s, r)
            ==> exists|r2: Run|
            {
                &&& #[trigger] comes_to(code, sem, r, r2)
                &&& body_ran(l, m, lam, args, s, r, r2)
            }
}

/// The function at the end of the chain, if there is one, is known.
pub open spec fn end_known(m: Meaning, terminal: &Terminal) -> bool {
    match terminal {
        Terminal::Run { lam } => (m.known)(*lam),
        Terminal::MapInto { lam, .. } => (m.known)(*lam),
        Terminal::FilterInto { lam, .. } => (m.known)(*lam),
        Terminal::PushInto { .. } => true,
        Terminal::ReduceInto { lam, .. } => (m.known)(*lam),
    }
}

/// The functions of the steps and of the end of the chain are known.
pub open spec fn all_known(m: Meaning, stages: &List<FuseStage>, terminal: &Terminal) -> bool
    decreases stages,
{
    match stages {
        List::Nil => end_known(m, terminal),
        List::Cons(n) => (m.known)(step_lambda(&n.head)) && all_known(m, &n.tail, terminal),
    }
}

/// What the code from `a` to `b` has done: it has come from `r` to `r2` and has left alone the
/// temporaries of `a`.
pub open spec fn came_through(
    a: FState,
    b: FState,
    code: Seq<BasicBlock>,
    sem: Oracle,
    r: Run,
    r2: Run,
) -> bool {
    comes_to(code, sem, r, r2) && is_at(b, r2) && same_below(a, r, r2)
}

/// A function with a value and its position, of which it takes the position only where it has a
/// parameter for it.
pub(crate) proof fn step_body_runs(
    l: Lower,
    lam: &Lambda,
    elem: Temp,
    elem_ty: &Type,
    idx: Temp,
    s: St,
    code: Seq<BasicBlock>,
    sem: Oracle,
    m: Meaning,
    x: Value,
    pos: int,
    r: Run,
) -> (r2: Run)
    requires
        bodies_mean(l, code, sem, m),
        (m.known)(*lam),
        fits(m, s.b, r),
        body_stands(l, code, *lam, elem_and_index(elem, elem_ty, idx), s, r),
        r.vals[elem] == x,
        takes_two(&lam.params) ==> r.vals[idx] == Value::Number(pos),
    ensures
        ({
            let (s2, t) = inline_lambda_body_spec(l, lam, &elem_and_index(elem, elem_ty, idx), s);
            let given = taken(*lam, placed(x, pos));
            &&& stays_local(s.b, s2.b)
            &&& is_open(s2.b)
            &&& came_through(s.b, s2.b, code, sem, r, r2)
            &&& t.temp.0 < s2.b.temp_types.len()
            &&& r2.vals[t.temp] == (m.value)(*lam, given)
            &&& r2.mem == (m.effect)(*lam, given, r.mem)
        }),
{
    let args = elem_and_index(elem, elem_ty, idx);
    let r2 = choose|r2: Run|
        {
            &&& #[trigger] comes_to(code, sem, r, r2)
            &&& body_ran(l, m, *lam, args, s, r, r2)
        };
    assert(stays_local(s.b, inlined(l, *lam, args, s).0.b));
    reveal_with_fuel(values_in, 3);
    assert(values_in(&args, r.vals) =~= seq![x, r.vals[idx]]);
    assert(taken(*lam, values_in(&args, r.vals)) =~= taken(*lam, placed(x, pos))) by {
        if !takes_two(&lam.params) {
            match lam.params {
                List::Nil => {},
                List::Cons(n) => {
                    assert(n.tail.len() == 0);
                },
            }
            assert(lam.params.len() <= 1);
        }
    }
    r2
}

/// A function with an accumulator, a value and its position.
pub(crate) proof fn fold_body_runs(
    l: Lower,
    lam: &Lambda,
    acc: Temp,
    acc_ty: &Type,
    elem: Temp,
    elem_ty: &Type,
    idx: Temp,
    s: St,
    code: Seq<BasicBlock>,
    sem: Oracle,
    m: Meaning,
    x: Value,
    pos: int,
    r: Run,
) -> (r2: Run)
    requires
        bodies_mean(l, code, sem, m),
        (m.known)(*lam),
        fits(m, s.b, r),
        body_stands(
            l,
            code,
            *lam,
            prepend(TypedTemp { temp: acc, ty: *acc_ty }, elem_and_index(elem, elem_ty, idx)),
            s,
            r,
        ),
        r.vals[elem] == x,
        takes_three(&lam.params) ==> r.vals[idx] == Value::Number(pos),
    ensures
        ({
            let args = prepend(
                TypedTemp { temp: acc, ty: *acc_ty },
                elem_and_index(elem, elem_ty, idx),
            );
            let (s2, t) = inline_lambda_body_spec(l, lam, &args, s);
            let given = taken(*lam, seq![r.vals[acc]] + placed(x, pos));
            &&& stays_local(s.b, s2.b)
            &&& is_open(s2.b)
            &&& came_through(s.b, s2.b, code, sem, r, r2)
            &&& t.temp.0 < s2.b.temp_types.len()
            &&& r2.vals[t.temp] == (m.value)(*lam, given)
            &&& r2.mem == (m.effect)(*lam, given, r.mem)
        }),
{
    let args = prepend(TypedTemp { temp: acc, ty: *acc_ty }, elem_and_index(elem, elem_ty, idx));
    let r2 = choose|r2: Run|
        {
            &&& #[trigger] comes_to(code, sem, r, r2)
            &&& body_ran(l, m, *lam, args, s, r, r2)
        };
    assert(stays_local(s.b, inlined(l, *lam, args, s).0.b));
    reveal_with_fuel(values_in, 4);
    assert(values_in(&args, r.vals) =~= seq![r.vals[acc], x, r.vals[idx]]);
    assert(taken(*lam, values_in(&args, r.vals)) =~= taken(
        *lam,
        seq![r.vals[acc]] + placed(x, pos),
    )) by {
        if !takes_three(&lam.params) {
            match lam.params {
                List::Nil => {},
                List::Cons(n) => match n.tail {
                    List::Nil => {},
                    List::Cons(k) => {
                        assert(k.tail.len() == 0);
                    },
                },
            }
            assert(lam.params.len() <= 2) by {
                reveal_with_fuel(List::len, 3);
            }
        }
    }
    r2
}

// Branches.

/// Two blocks are made and control goes to one of them; code goes on in the second one.
pub open spec fn branched(b: FState, cond: Temp, first: &'static str, second: &'static str) -> (
    FState,
    BlockId,
    BlockId,
) {
    let (b1, x) = b.alloc_block(first);
    let (b2, y) = b1.alloc_block(second);
    let term = Terminator::CondJump { cond, then_block: x, else_block: y };
    (b2.terminate(term).switch_to(y), x, y)
}

/// The second block is ended by a jump; code goes on in the first one.
pub open spec fn other_branch(b: FState, to: BlockId, first: BlockId) -> FState {
    b.terminate(Terminator::Jump(to)).switch_to(first)
}

/// How the blocks lie where an element is given back in the second one.
pub(crate) proof fn branch_lies(
    b: FState,
    cond: Temp,
    first: &'static str,
    second: &'static str,
    elem: Temp,
    elem_ty: &Type,
    to: BlockId,
)
    requires
        is_open(b),
        b.blocks.len() + 2 < u32::MAX,
    ensures
        ({
            let (b1, x, y) = branched(b, cond, first, second);
            let b2 = fm_reclaim_elem_spec(elem, elem_ty, b1);
            let b3 = other_branch(b2, to, x);
            let n = b.blocks.len() as int;
            let k = b.env.current_block.0 as int;
            &&& x.0 == n && y.0 == n + 1
            &&& is_open(b1) && b1.env.current_block == y && current(b1) =~= Seq::empty()
            &&& b1.temp_types == b.temp_types && b2.temp_types == b.temp_types && b3.temp_types
                == b.temp_types
            &&& is_open(b3) && b3.env.current_block == x && current(b3) =~= Seq::empty()
            &&& b3.blocks.len() == n + 2
            &&& b3.blocks[k].code == b.blocks[k].code
            &&& b3.blocks[k].term == (Terminator::CondJump { cond, then_block: x, else_block: y })
            &&& b3.blocks[n + 1].code == b2.blocks[n + 1].code
            &&& b3.blocks[n + 1].term == Terminator::Jump(to)
            &&& b2.env.current_block == y && b2.blocks.len() == n + 2
            &&& stays_local(b, b3)
        }),
{
    element_is_given_back_once(elem, elem_ty, branched(b, cond, first, second).0);
    reveal(FState::alloc_block);
    reveal(FState::terminate);
    reveal(FState::switch_to);
    reveal(FState::emit);
    reveal_with_fuel(instrs, 2);
}

/// A branch stays local.
pub(crate) proof fn branch_local(
    b: FState,
    cond: Temp,
    first: &'static str,
    second: &'static str,
    elem: Temp,
    elem_ty: &Type,
    to: BlockId,
)
    ensures
        ({
            let (b1, x, y) = branched(b, cond, first, second);
            let b2 = fm_reclaim_elem_spec(elem, elem_ty, b1);
            stays_local(b, other_branch(b2, to, x))
        }),
{
    let (b1, x, y) = branched(b, cond, first, second);
    let b2 = fm_reclaim_elem_spec(elem, elem_ty, b1);
    let b3 = other_branch(b2, to, x);
    reclaim_local(elem, elem_ty, b1);
    assert(b.blocks.len() <= b3.blocks.len() && b3.temp_types == b.temp_types && (
    b3.blocks.len() < u32::MAX ==> b.blocks.len() + 2 < u32::MAX)) by {
        reveal(FState::alloc_block);
        reveal(FState::terminate);
        reveal(FState::switch_to);
    }
    if b3.blocks.len() < u32::MAX && is_open(b) {
        branch_lies(b, cond, first, second, elem, elem_ty, to);
    }
}

/// From the end of its block a run comes to the first of the two where the condition holds; else it
/// comes through the second one to where that jumps to.
pub(crate) proof fn branch_runs(
    b: FState,
    cond: Temp,
    first: &'static str,
    second: &'static str,
    elem: Temp,
    elem_ty: &Type,
    to: BlockId,
    code: Seq<BasicBlock>,
    sem: Oracle,
    r: Run,
) -> (r2: Run)
    requires
        is_open(b),
        b.blocks.len() + 2 < u32::MAX,
        is_at(b, r),
        ({
            let (b1, x, y) = branched(b, cond, first, second);
            let b2 = fm_reclaim_elem_spec(elem, elem_ty, b1);
            part_stands(b, other_branch(b2, to, x), code)
        }),
    ensures
        ({
            let (b1, x, y) = branched(b, cond, first, second);
            let b2 = fm_reclaim_elem_spec(elem, elem_ty, b1);
            let b3 = other_branch(b2, to, x);
            &&& comes_to(code, sem, r, r2)
            &&& if r.vals[cond] == Value::Truth(true) {
                is_at(b3, r2)
            } else {
                r2.block == to && r2.at == 0
            }
            &&& same_below(b, r, r2)
            &&& r2.mem == r.mem
        }),
{
    branch_lies(b, cond, first, second, elem, elem_ty, to);
    let (b1, x, y) = branched(b, cond, first, second);
    let b2 = fm_reclaim_elem_spec(elem, elem_ty, b1);
    let b3 = other_branch(b2, to, x);
    let k = b.env.current_block.0 as int;
    assert(code[k] == b3.blocks[k]);
    assert(code[y.0 as int] == b3.blocks[y.0 as int]);
    let r1 = step(code, sem, r);
    comes_one_step(code, sem, r);
    if r.vals[cond] == Value::Truth(true) {
        r1
    } else {
        assert(is_here(b2, code));
        let r2 = reclaim_runs(elem, elem_ty, b1, code, sem, r1);
        let r3 = step(code, sem, r2);
        comes_one_step(code, sem, r2);
        comes_further(code, sem, r, r1, r2);
        comes_further(code, sem, r, r2, r3);
        r3
    }
}

// The end of a chain with flattening.

/// The blocks in which a value is pushed or not.
pub open spec fn pushed_or_not(
    cond: Temp,
    out: Temp,
    flat: Option<FlatElemKind>,
    elem_ty: &Type,
    val: Temp,
    val_ty: &Type,
    b: FState,
) -> (FState, FState, FState) {
    let (b, keep_block) = b.alloc_block("fm_ffilter_keep");
    let (b, drop_block) = b.alloc_block("fm_ffilter_drop");
    let (b, join_block) = b.alloc_block("fm_ffilter_skip");
    let term = Terminator::CondJump { cond, then_block: keep_block, else_block: drop_block };
    let first = b.terminate(term).switch_to(keep_block);
    let b = push_output_spec(out, flat, elem_ty, val, val_ty, false, first);
    let b = fm_reclaim_elem_spec(val, val_ty, b);
    let second = b.terminate(Terminator::Jump(join_block)).switch_to(drop_block);
    let b = fm_reclaim_elem_spec(val, val_ty, second);
    (first, second, b.terminate(Terminator::Jump(join_block)).switch_to(join_block))
}

/// How the blocks lie in which a value is pushed or not.
pub(crate) proof fn pushed_or_not_lies(
    cond: Temp,
    out: Temp,
    flat: Option<FlatElemKind>,
    elem_ty: &Type,
    val: Temp,
    val_ty: &Type,
    b: FState,
)
    requires
        is_open(b),
        b.blocks.len() + 3 < u32::MAX,
        pushed_or_not(cond, out, flat, elem_ty, val, val_ty, b).2.temp_types.len() < u32::MAX,
    ensures
        ({
            let (first, second, last) = pushed_or_not(cond, out, flat, elem_ty, val, val_ty, b);
            let done1 = fm_reclaim_elem_spec(
                val,
                val_ty,
                push_output_spec(out, flat, elem_ty, val, val_ty, false, first),
            );
            let done2 = fm_reclaim_elem_spec(val, val_ty, second);
            let n = b.blocks.len() as int;
            let k = b.env.current_block.0 as int;
            &&& is_open(first) && first.env.current_block.0 == n && current(first) =~= Seq::empty()
            &&& is_open(second) && second.env.current_block.0 == n + 1 && current(second)
                =~= Seq::empty()
            &&& is_open(last) && last.env.current_block.0 == n + 2 && current(last) =~= Seq::empty()
            &&& last.blocks.len() == n + 3
            &&& first.temp_types == b.temp_types && b.temp_types.len() <= done1.temp_types.len()
            &&& done1.temp_types.len() == last.temp_types.len() && second.temp_types
                == done1.temp_types
            &&& done1.env.current_block.0 == n && done1.blocks.len() == n + 3
            &&& done2.env.current_block.0 == n + 1 && done2.blocks.len() == n + 3
            &&& last.blocks[k].code == b.blocks[k].code
            &&& last.blocks[k].term == (Terminator::CondJump {
                cond,
                then_block: BlockId(n as u32),
                else_block: BlockId((n + 1) as u32),
            })
            &&& last.blocks[n].code == done1.blocks[n].code
            &&& last.blocks[n].term == Terminator::Jump(BlockId((n + 2) as u32))
            &&& last.blocks[n + 1].code == done2.blocks[n + 1].code
            &&& last.blocks[n + 1].term == Terminator::Jump(BlockId((n + 2) as u32))
            &&& stays_local(b, last)
        }),
{
    let (first, second, last) = pushed_or_not(cond, out, flat, elem_ty, val, val_ty, b);
    let mid = push_output_spec(out, flat, elem_ty, val, val_ty, false, first);
    let done1 = fm_reclaim_elem_spec(val, val_ty, mid);
    let done2 = fm_reclaim_elem_spec(val, val_ty, second);
    push_local(out, flat, elem_ty, val, val_ty, false, first);
    reclaim_local(val, val_ty, mid);
    local_adds_up(first, mid, done1);
    reclaim_local(val, val_ty, second);
    reveal(FState::alloc_block);
    reveal(FState::terminate);
    reveal(FState::switch_to);
    assert(mid.blocks.len() == first.blocks.len() && mid.env.current_block
        == first.env.current_block) by {
        reveal(push_output_spec);
        reveal(box_to_json_spec);
        reveal(FState::coerce);
        reveal(FState::alloc_temp);
        reveal(FState::emit);
    }
    let n = b.blocks.len() as int;
    assert(is_open(first) && first.env.current_block.0 == n);
    assert(stays_local(first, done1));
    assert(done1.blocks[n + 1] == first.blocks[n + 1]);
    assert(done1.blocks[n + 2] == first.blocks[n + 2]);
    assert forall|j: int| 0 <= j < n implies #[trigger] done1.blocks[j] == first.blocks[j] by {}
    assert(is_open(second));
    assert(done2.blocks[n] == second.blocks[n]);
    assert(done2.blocks[n + 2] == second.blocks[n + 2]);
    assert forall|j: int| 0 <= j < n implies #[trigger] done2.blocks[j] == second.blocks[j] by {}
}

/// What the end of a chain with flattening emits stays local.
pub(crate) proof fn end_local(
    l: Lower,
    terminal: &Terminal,
    val: Temp,
    val_ty: &Type,
    idx: Temp,
    s: St,
    code: Seq<BasicBlock>,
    sem: Oracle,
    m: Meaning,
)
    requires
        bodies_mean(l, code, sem, m),
        end_known(m, terminal),
    ensures
        stays_local(s.b, run_flat_terminal_spec(l, terminal, val, val_ty, idx, s).b),
{
    reveal(run_flat_terminal_spec);
    let args = elem_and_index(val, val_ty, idx);
    let last = run_flat_terminal_spec(l, terminal, val, val_ty, idx, s).b;
    match terminal {
        Terminal::Run { lam } => {
            let (s1, res) = inlined(l, *lam, args, s);
            let i = Instruction::Release { val: res.temp, ty: res.ty };
            emit_local(s1.b, i);
            reclaim_local(val, val_ty, s1.b.emit(i));
            local_adds_up(s.b, s1.b, s1.b.emit(i));
            local_adds_up(s.b, s1.b.emit(i), last);
        },
        Terminal::MapInto { lam, out, flat, elem_ty } => {
            let (s1, mapped) = inlined(l, *lam, args, s);
            let b2 = push_output_spec(*out, *flat, elem_ty, mapped.temp, &mapped.ty, false, s1.b);
            push_local(*out, *flat, elem_ty, mapped.temp, &mapped.ty, false, s1.b);
            reclaim_local(val, val_ty, b2);
            local_adds_up(s.b, s1.b, b2);
            if mapped.temp != val {
                local_adds_up(s.b, b2, last);
            }
        },
        Terminal::FilterInto { lam, out, flat, elem_ty } => {
            let (s1, pred) = inlined(l, *lam, args, s);
            let (b2, keep) = as_bool_spec(pred.temp, &pred.ty, s1.b);
            truth_local(pred.temp, &pred.ty, s1.b);
            local_adds_up(s.b, s1.b, b2);
            let (first, second, b3) = pushed_or_not(keep, *out, *flat, elem_ty, val, val_ty, b2);
            assert(last == b3);
            let mid = push_output_spec(*out, *flat, elem_ty, val, val_ty, false, first);
            push_local(*out, *flat, elem_ty, val, val_ty, false, first);
            reclaim_local(val, val_ty, mid);
            reclaim_local(val, val_ty, second);
            assert(b2.blocks.len() <= b3.blocks.len() && b2.temp_types.len()
                <= b3.temp_types.len() && (b3.blocks.len() < u32::MAX ==> b2.blocks.len() + 3
                < u32::MAX)) by {
                reveal(FState::alloc_block);
                reveal(FState::terminate);
                reveal(FState::switch_to);
            }
            if b3.blocks.len() < u32::MAX && b3.temp_types.len() < u32::MAX && is_open(b2) {
                pushed_or_not_lies(keep, *out, *flat, elem_ty, val, val_ty, b2);
            }
            assert(stays_local(b2, b3));
            local_adds_up(s.b, b2, b3);
        },
        Terminal::PushInto { out, flat, elem_ty } => {
            let borrowed = is_borrowed_heap_elem(val_ty);
            let b2 = push_output_spec(*out, *flat, elem_ty, val, val_ty, borrowed, s.b);
            push_local(*out, *flat, elem_ty, val, val_ty, borrowed, s.b);
            reclaim_local(val, val_ty, b2);
            local_adds_up(s.b, b2, last);
        },
        Terminal::ReduceInto { lam, cell, acc_ty } => {
            let (b1, cur) = s.b.cell_get(*cell, acc_ty);
            reveal(FState::cell_get);
            alloc_local(s.b, *acc_ty);
            let got = Instruction::CellGet { dst: cur, cell: *cell, ty: *acc_ty };
            emit_local(s.b.alloc_temp(*acc_ty).0, got);
            local_adds_up(s.b, s.b.alloc_temp(*acc_ty).0, b1);
            let with = prepend(TypedTemp { temp: cur, ty: *acc_ty }, args);
            let (s2, next) = inlined(l, *lam, with, St { b: b1, c: s.c });
            local_adds_up(s.b, b1, s2.b);
            reveal(coerce_arg_to_param_repr_spec);
            let (b3, acc_next) = coerce_arg_to_param_repr_spec(next.temp, &next.ty, acc_ty, s2.b);
            coerce_local(s2.b, next.temp, &next.ty, acc_ty);
            local_adds_up(s.b, s2.b, b3);
            let set = Instruction::CellSet { cell: *cell, value: acc_next, ty: *acc_ty };
            emit_local(b3, set);
            local_adds_up(s.b, b3, b3.emit(set));
            reclaim_local(val, val_ty, b3.emit(set));
            local_adds_up(s.b, b3.emit(set), last);
        },
    }
}

/// A value that came through a chain with flattening has the effect that the end of the chain is to
/// have.
pub(crate) proof fn end_runs(
    l: Lower,
    terminal: &Terminal,
    val: Temp,
    val_ty: &Type,
    idx: Temp,
    s: St,
    code: Seq<BasicBlock>,
    sem: Oracle,
    m: Meaning,
    x: Value,
    pos: int,
    r: Run,
) -> (r2: Run)
    requires
        bodies_mean(l, code, sem, m),
        end_known(m, terminal),
        fits(m, s.b, r),
        is_open(s.b),
        run_flat_terminal_spec(l, terminal, val, val_ty, idx, s).b.blocks.len() < u32::MAX,
        run_flat_terminal_spec(l, terminal, val, val_ty, idx, s).b.temp_types.len() < u32::MAX,
        part_stands(s.b, run_flat_terminal_spec(l, terminal, val, val_ty, idx, s).b, code),
        is_at(s.b, r),
        val.0 < s.b.temp_types.len(),
        idx.0 < s.b.temp_types.len(),
        r.vals[val] == x,
        terminal_takes_index(terminal) ==> r.vals[idx] == Value::Number(pos),
    ensures
        came_through(
            s.b,
            run_flat_terminal_spec(l, terminal, val, val_ty, idx, s).b,
            code,
            sem,
            r,
            r2,
        ),
        r2.mem == end_effect(m, terminal, x, pos, r.mem),
{
    reveal(run_flat_terminal_spec);
    let args = elem_and_index(val, val_ty, idx);
    let last = run_flat_terminal_spec(l, terminal, val, val_ty, idx, s).b;
    match terminal {
        Terminal::Run { lam } => {
            let (s1, res) = inlined(l, *lam, args, s);
            let i = Instruction::Release { val: res.temp, ty: res.ty };
            let b2 = s1.b.emit(i);
            emit_local(s1.b, i);
            reclaim_local(val, val_ty, b2);
            local_adds_up(s1.b, b2, last);
            halves_stand(s.b, s1.b, last, code);
            let r1 = step_body_runs(l, lam, val, val_ty, idx, s, code, sem, m, x, pos, r);
            halves_stand(s1.b, b2, last, code);
            emitted_runs(s1.b, i, code, sem, r1);
            let r2 = after_instr(sem, i, r1);
            let r3 = reclaim_runs(val, val_ty, b2, code, sem, r2);
            comes_further(code, sem, r, r1, r2);
            comes_further(code, sem, r, r2, r3);
            r3
        },
        Terminal::MapInto { lam, out, flat, elem_ty } => {
            let (s1, mapped) = inlined(l, *lam, args, s);
            let b2 = push_output_spec(*out, *flat, elem_ty, mapped.temp, &mapped.ty, false, s1.b);
            push_local(*out, *flat, elem_ty, mapped.temp, &mapped.ty, false, s1.b);
            reclaim_local(val, val_ty, b2);
            if mapped.temp != val {
                local_adds_up(s1.b, b2, last);
            }
            halves_stand(s.b, s1.b, last, code);
            let r1 = step_body_runs(l, lam, val, val_ty, idx, s, code, sem, m, x, pos, r);
            if mapped.temp != val {
                halves_stand(s1.b, b2, last, code);
            }
            let r2 = push_runs(
                *out,
                *flat,
                elem_ty,
                mapped.temp,
                &mapped.ty,
                false,
                s1.b,
                code,
                sem,
                r1,
            );
            comes_further(code, sem, r, r1, r2);
            if mapped.temp != val {
                let r3 = reclaim_runs(val, val_ty, b2, code, sem, r2);
                comes_further(code, sem, r, r2, r3);
                r3
            } else {
                r2
            }
        },
        Terminal::FilterInto { lam, out, flat, elem_ty } => {
            let (s1, pred) = inlined(l, *lam, args, s);
            let (b2, keep) = as_bool_spec(pred.temp, &pred.ty, s1.b);
            truth_local(pred.temp, &pred.ty, s1.b);
            let (first, second, b3) = pushed_or_not(keep, *out, *flat, elem_ty, val, val_ty, b2);
            assert(last == b3);
            let mid = push_output_spec(*out, *flat, elem_ty, val, val_ty, false, first);
            push_local(*out, *flat, elem_ty, val, val_ty, false, first);
            reclaim_local(val, val_ty, mid);
            reclaim_local(val, val_ty, second);
            assert(b2.blocks.len() + 3 < u32::MAX && b2.temp_types.len() <= b3.temp_types.len())
                by {
                reveal(FState::alloc_block);
                reveal(FState::terminate);
                reveal(FState::switch_to);
            }
            assert(is_open(s1.b) && is_open(b2));
            pushed_or_not_lies(keep, *out, *flat, elem_ty, val, val_ty, b2);
            local_adds_up(s1.b, b2, b3);
            halves_stand(s.b, s1.b, last, code);
            halves_stand(s1.b, b2, last, code);
            let r1 = step_body_runs(l, lam, val, val_ty, idx, s, code, sem, m, x, pos, r);
            let r2 = truth_runs(pred.temp, &pred.ty, s1.b, code, sem, r1);
            comes_further(code, sem, r, r1, r2);
            let n = b2.blocks.len() as int;
            let k = b2.env.current_block.0 as int;
            assert(code[k] == b3.blocks[k]);
            assert(code[n] == b3.blocks[n]);
            assert(code[n + 1] == b3.blocks[n + 1]);
            let r3 = step(code, sem, r2);
            comes_one_step(code, sem, r2);
            comes_further(code, sem, r, r2, r3);
            if r2.vals[keep] == Value::Truth(true) {
                let done = fm_reclaim_elem_spec(val, val_ty, mid);
                assert(is_here(done, code));
                assert(is_open(mid) && is_here(mid, code)) by {
                    assert(goes_on(mid, done));
                }
                let r4 = push_runs(*out, *flat, elem_ty, val, val_ty, false, first, code, sem, r3);
                let r5 = reclaim_runs(val, val_ty, mid, code, sem, r4);
                let r6 = step(code, sem, r5);
                comes_one_step(code, sem, r5);
                comes_further(code, sem, r, r3, r4);
                comes_further(code, sem, r, r4, r5);
                comes_further(code, sem, r, r5, r6);
                r6
            } else {
                let done = fm_reclaim_elem_spec(val, val_ty, second);
                assert(is_here(done, code));
                let r4 = reclaim_runs(val, val_ty, second, code, sem, r3);
                let r5 = step(code, sem, r4);
                comes_one_step(code, sem, r4);
                comes_further(code, sem, r, r3, r4);
                comes_further(code, sem, r, r4, r5);
                r5
            }
        },
        Terminal::PushInto { out, flat, elem_ty } => {
            let borrowed = is_borrowed_heap_elem(val_ty);
            let b2 = push_output_spec(*out, *flat, elem_ty, val, val_ty, borrowed, s.b);
            push_local(*out, *flat, elem_ty, val, val_ty, borrowed, s.b);
            reclaim_local(val, val_ty, b2);
            halves_stand(s.b, b2, last, code);
            let r1 = push_runs(*out, *flat, elem_ty, val, val_ty, borrowed, s.b, code, sem, r);
            let r2 = reclaim_runs(val, val_ty, b2, code, sem, r1);
            comes_further(code, sem, r, r1, r2);
            r2
        },
        Terminal::ReduceInto { lam, cell, acc_ty } => {
            let (b1, cur) = s.b.cell_get(*cell, acc_ty);
            let got = Instruction::CellGet { dst: cur, cell: *cell, ty: *acc_ty };
            assert(stays_local(s.b, b1)) by {
                reveal(FState::cell_get);
                alloc_local(s.b, *acc_ty);
                emit_local(s.b.alloc_temp(*acc_ty).0, got);
                local_adds_up(s.b, s.b.alloc_temp(*acc_ty).0, b1);
            }
            let with = prepend(TypedTemp { temp: cur, ty: *acc_ty }, args);
            let s1 = St { b: b1, c: s.c };
            let (s2, next) = inlined(l, *lam, with, s1);
            let (b3, acc_next) = coerce_arg_to_param_repr_spec(next.temp, &next.ty, acc_ty, s2.b);
            assert(stays_local(s2.b, b3)) by {
                reveal(coerce_arg_to_param_repr_spec);
                coerce_local(s2.b, next.temp, &next.ty, acc_ty);
            }
            let set = Instruction::CellSet { cell: *cell, value: acc_next, ty: *acc_ty };
            let b4 = b3.emit(set);
            emit_local(b3, set);
            reclaim_local(val, val_ty, b4);
            local_adds_up(b3, b4, last);
            local_adds_up(s2.b, b3, last);
            local_adds_up(b1, s2.b, last);
            halves_stand(s.b, b1, last, code);
            halves_stand(b1, s2.b, last, code);
            halves_stand(s2.b, b3, last, code);
            halves_stand(b3, b4, last, code);
            assert(s.b.temp_types.len() < u32::MAX);
            cell_read_runs(s.b, *cell, acc_ty, code, sem, r);
            let r1 = after_instr(sem, got, r);
            let r2 = fold_body_runs(
                l,
                lam,
                cur,
                acc_ty,
                val,
                val_ty,
                idx,
                s1,
                code,
                sem,
                m,
                x,
                pos,
                r1,
            );
            comes_further(code, sem, r, r1, r2);
            reveal(coerce_arg_to_param_repr_spec);
            let r3 = if b3 == s2.b && acc_next == next.temp {
                r2
            } else {
                conversion_runs(s2.b, next.temp, &next.ty, acc_ty, code, sem, r2);
                let i = Instruction::Coerce {
                    dst: acc_next,
                    src: next.temp,
                    from_ty: next.ty,
                    to_ty: *acc_ty,
                };
                let r3 = after_instr(sem, i, r2);
                comes_further(code, sem, r, r2, r3);
                r3
            };
            emitted_runs(b3, set, code, sem, r3);
            let r4 = after_instr(sem, set, r3);
            comes_further(code, sem, r, r3, r4);
            let r5 = reclaim_runs(val, val_ty, b4, code, sem, r4);
            comes_further(code, sem, r, r4, r5);
            r5
        },
    }
}

// The steps of a chain with flattening.

/// The first of the steps, or the end of the chain where there is none, wants to know the position.
pub open spec fn first_wants(stages: &List<FuseStage>, terminal: &Terminal) -> bool {
    match stages {
        List::Nil => terminal_takes_index(terminal),
        List::Cons(n) => stage_takes_index(&n.head),
    }
}

/// Whoever wants to know the position has a counter.
pub open spec fn served(
    stages: &List<FuseStage>,
    counters: &List<Option<Temp>>,
    terminal: &Terminal,
) -> bool
    decreases stages, 1nat,
{
    &&& first_wants(stages, terminal) ==> first_counter(counters) is Some
    &&& later_served(stages, counters, terminal)
}

/// Whoever wants to know the position behind the first step has a counter.
pub open spec fn later_served(
    stages: &List<FuseStage>,
    counters: &List<Option<Temp>>,
    terminal: &Terminal,
) -> bool
    decreases stages, 0nat,
{
    match stages {
        List::Nil => true,
        List::Cons(n) => served(&n.tail, &later_counters(counters), terminal),
    }
}

/// The functions of the steps that flatten give collections.
pub open spec fn flattens(m: Meaning, stages: &List<FuseStage>) -> bool
    decreases stages,
{
    match stages {
        List::Nil => true,
        List::Cons(n) => {
            &&& match n.head {
                FuseStage::FlatMap { lam, .. } => forall|args: Seq<Value>|
                    (#[trigger] (m.value)(lam, args)) is Items,
                _ => true,
            }
            &&& flattens(m, &n.tail)
        },
    }
}

/// The function of a step stays local.
pub(crate) proof fn apply_local(
    l: Lower,
    lam: &Lambda,
    elem: Temp,
    elem_ty: &Type,
    idx: Temp,
    s: St,
    code: Seq<BasicBlock>,
    sem: Oracle,
    m: Meaning,
)
    requires
        bodies_mean(l, code, sem, m),
        (m.known)(*lam),
    ensures
        stays_local(s.b, fm_apply_spec(l, lam, elem, elem_ty, idx, s).0.b),
{
    reveal(fm_apply_spec);
    let s1 = inlined(l, *lam, elem_and_index(elem, elem_ty, idx), s).0;
    reclaim_local(elem, elem_ty, s1.b);
    local_adds_up(s.b, s1.b, fm_reclaim_elem_spec(elem, elem_ty, s1.b));
}

/// The function of a step runs.
pub(crate) proof fn apply_runs(
    l: Lower,
    lam: &Lambda,
    elem: Temp,
    elem_ty: &Type,
    idx: Temp,
    s: St,
    code: Seq<BasicBlock>,
    sem: Oracle,
    m: Meaning,
    x: Value,
    pos: int,
    r: Run,
) -> (r2: Run)
    requires
        bodies_mean(l, code, sem, m),
        (m.known)(*lam),
        fits(m, s.b, r),
        is_open(s.b),
        fm_apply_spec(l, lam, elem, elem_ty, idx, s).0.b.blocks.len() < u32::MAX,
        fm_apply_spec(l, lam, elem, elem_ty, idx, s).0.b.temp_types.len() < u32::MAX,
        part_stands(s.b, fm_apply_spec(l, lam, elem, elem_ty, idx, s).0.b, code),
        is_at(s.b, r),
        r.vals[elem] == x,
        takes_two(&lam.params) ==> r.vals[idx] == Value::Number(pos),
    ensures
        ({
            let (s2, t) = fm_apply_spec(l, lam, elem, elem_ty, idx, s);
            let given = taken(*lam, placed(x, pos));
            &&& is_open(s2.b)
            &&& came_through(s.b, s2.b, code, sem, r, r2)
            &&& t.temp.0 < s2.b.temp_types.len()
            &&& r2.vals[t.temp] == (m.value)(*lam, given)
            &&& r2.mem == (m.effect)(*lam, given, r.mem)
        }),
{
    reveal(fm_apply_spec);
    let (s1, made) = inlined(l, *lam, elem_and_index(elem, elem_ty, idx), s);
    let last = fm_apply_spec(l, lam, elem, elem_ty, idx, s).0.b;
    reclaim_local(elem, elem_ty, s1.b);
    if made.temp != elem {
        halves_stand(s.b, s1.b, last, code);
    }
    let r1 = step_body_runs(l, lam, elem, elem_ty, idx, s, code, sem, m, x, pos, r);
    if made.temp != elem {
        let r2 = reclaim_runs(elem, elem_ty, s1.b, code, sem, r1);
        comes_further(code, sem, r, r1, r2);
        r2
    } else {
        r1
    }
}

/// A step that drops elements stays local.
pub(crate) proof fn filter_local(
    l: Lower,
    lam: &Lambda,
    elem: Temp,
    elem_ty: &Type,
    idx: Temp,
    skip_block: BlockId,
    s: St,
    code: Seq<BasicBlock>,
    sem: Oracle,
    m: Meaning,
)
    requires
        bodies_mean(l, code, sem, m),
        (m.known)(*lam),
    ensures
        stays_local(s.b, fm_filter_spec(l, lam, elem, elem_ty, idx, skip_block, s).b),
{
    reveal(fm_filter_spec);
    let (s1, pred) = inlined(l, *lam, elem_and_index(elem, elem_ty, idx), s);
    let (b2, keep) = as_bool_spec(pred.temp, &pred.ty, s1.b);
    truth_local(pred.temp, &pred.ty, s1.b);
    branch_local(b2, keep, "fm_keep", "fm_drop", elem, elem_ty, skip_block);
    local_adds_up(s.b, s1.b, b2);
    local_adds_up(s.b, b2, fm_filter_spec(l, lam, elem, elem_ty, idx, skip_block, s).b);
}

/// A step that drops elements runs: it goes on where its function holds of the element, else it
/// skips.
pub(crate) proof fn filter_runs(
    l: Lower,
    lam: &Lambda,
    elem: Temp,
    elem_ty: &Type,
    idx: Temp,
    skip_block: BlockId,
    s: St,
    code: Seq<BasicBlock>,
    sem: Oracle,
    m: Meaning,
    x: Value,
    pos: int,
    r: Run,
) -> (r2: Run)
    requires
        bodies_mean(l, code, sem, m),
        (m.known)(*lam),
        fits(m, s.b, r),
        is_open(s.b),
        fm_filter_spec(l, lam, elem, elem_ty, idx, skip_block, s).b.blocks.len() < u32::MAX,
        fm_filter_spec(l, lam, elem, elem_ty, idx, skip_block, s).b.temp_types.len() < u32::MAX,
        part_stands(s.b, fm_filter_spec(l, lam, elem, elem_ty, idx, skip_block, s).b, code),
        is_at(s.b, r),
        r.vals[elem] == x,
        takes_two(&lam.params) ==> r.vals[idx] == Value::Number(pos),
    ensures
        ({
            let s2 = fm_filter_spec(l, lam, elem, elem_ty, idx, skip_block, s);
            let given = taken(*lam, placed(x, pos));
            &&& comes_to(code, sem, r, r2)
            &&& if (m.value)(*lam, given) == Value::Truth(true) {
                is_at(s2.b, r2)
            } else {
                r2.block == skip_block && r2.at == 0
            }
            &&& is_open(s2.b)
            &&& same_below(s.b, r, r2)
            &&& r2.mem == (m.effect)(*lam, given, r.mem)
        }),
{
    reveal(fm_filter_spec);
    let (s1, pred) = inlined(l, *lam, elem_and_index(elem, elem_ty, idx), s);
    let (b2, keep) = as_bool_spec(pred.temp, &pred.ty, s1.b);
    let last = fm_filter_spec(l, lam, elem, elem_ty, idx, skip_block, s).b;
    truth_local(pred.temp, &pred.ty, s1.b);
    branch_local(b2, keep, "fm_keep", "fm_drop", elem, elem_ty, skip_block);
    local_adds_up(s1.b, b2, last);
    halves_stand(s.b, s1.b, last, code);
    halves_stand(s1.b, b2, last, code);
    assert(b2.blocks.len() + 2 < u32::MAX) by {
        reclaim_local(elem, elem_ty, branched(b2, keep, "fm_keep", "fm_drop").0);
        reveal(FState::alloc_block);
        reveal(FState::terminate);
        reveal(FState::switch_to);
    }
    let r1 = step_body_runs(l, lam, elem, elem_ty, idx, s, code, sem, m, x, pos, r);
    let r2 = truth_runs(pred.temp, &pred.ty, s1.b, code, sem, r1);
    let r3 = branch_runs(b2, keep, "fm_keep", "fm_drop", elem, elem_ty, skip_block, code, sem, r2);
    comes_further(code, sem, r, r1, r2);
    comes_further(code, sem, r, r2, r3);
    r3
}

/// The steps stay local.
pub(crate) proof fn steps_local(
    l: Lower,
    stages: &List<FuseStage>,
    elem: Temp,
    elem_ty: &Type,
    idx: Temp,
    counters: &List<Option<Temp>>,
    skip_block: BlockId,
    terminal: &Terminal,
    s: St,
    code: Seq<BasicBlock>,
    sem: Oracle,
    m: Meaning,
)
    requires
        bodies_mean(l, code, sem, m),
        all_known(m, stages, terminal),
    ensures
        stays_local(
            s.b,
            fm_process_spec(l, stages, elem, elem_ty, idx, counters, skip_block, terminal, s).b,
        ),
    decreases stages, 0nat,
{
    reveal(fm_process_spec);
    let last = fm_process_spec(l, stages, elem, elem_ty, idx, counters, skip_block, terminal, s);
    match stages {
        List::Nil => end_local(l, terminal, elem, elem_ty, idx, s, code, sem, m),
        List::Cons(n) => {
            let later = later_counters(counters);
            match &n.head {
                FuseStage::Filter { lam } => {
                    let s1 = fm_filter_spec(l, lam, elem, elem_ty, idx, skip_block, s);
                    filter_local(l, lam, elem, elem_ty, idx, skip_block, s, code, sem, m);
                    let (b2, next) = fm_next_index_spec(&later, s1.b);
                    next_index_local(&later, s1.b);
                    let s2 = St { b: b2, c: s1.c };
                    steps_local(
                        l,
                        &n.tail,
                        elem,
                        elem_ty,
                        next,
                        &later,
                        skip_block,
                        terminal,
                        s2,
                        code,
                        sem,
                        m,
                    );
                    local_adds_up(s.b, s1.b, b2);
                    local_adds_up(s.b, b2, last.b);
                },
                FuseStage::MapEach { lam, out_elem_ty } => {
                    let (s1, mapped) = fm_apply_spec(l, lam, elem, elem_ty, idx, s);
                    apply_local(l, lam, elem, elem_ty, idx, s, code, sem, m);
                    let next_ty = mapped_type(&mapped.ty, out_elem_ty);
                    let (b2, next) = fm_next_index_spec(&later, s1.b);
                    next_index_local(&later, s1.b);
                    let s2 = St { b: b2, c: s1.c };
                    steps_local(
                        l,
                        &n.tail,
                        mapped.temp,
                        &next_ty,
                        next,
                        &later,
                        skip_block,
                        terminal,
                        s2,
                        code,
                        sem,
                        m,
                    );
                    local_adds_up(s.b, s1.b, b2);
                    local_adds_up(s.b, b2, last.b);
                },
                FuseStage::FlatMap { lam, .. } => {
                    let (s1, inner) = fm_apply_spec(l, lam, elem, elem_ty, idx, s);
                    apply_local(l, lam, elem, elem_ty, idx, s, code, sem, m);
                    inner_loop_local(l, &n.tail, lam, inner, &later, terminal, s1, code, sem, m);
                    let p = inner_loop(l, &n.tail, lam, inner, &later, terminal, s1);
                    let i = Instruction::Release { val: inner.temp, ty: inner.ty };
                    emit_local(p.end, i);
                    local_adds_up(s.b, s1.b, p.end);
                    local_adds_up(s.b, p.end, last.b);
                },
            }
        },
    }
}

/// The states of the loop over what a step that flattens gave.
pub struct InnerLoop {
    pub read_ty: Type,
    /// Where the body starts.
    pub start: FState,
    pub frame: LoopFrame,
    pub idx: Temp,
    /// Where the later steps start.
    pub from: St,
    pub cont: BlockId,
    /// Where the later steps end.
    pub to: St,
    /// Behind the loop.
    pub end: FState,
}

/// The loop over what a step that flattens gave.
pub open spec fn inner_loop(
    l: Lower,
    stages: &List<FuseStage>,
    lam: &Lambda,
    inner: TypedTemp,
    counters: &List<Option<Temp>>,
    terminal: &Terminal,
    s: St,
) -> InnerLoop {
    let read_ty = combinator_read_elem_ty_spec(&lam.body, s);
    let access = ElemAccess::Materialize(read_ty);
    let (start, frame) = begin_combinator_loop_spec(inner.temp, &inner.ty, access, s.b);
    let (b, cont) = start.alloc_block("fm_inner_cont");
    let (b, idx) = fm_next_index_spec(counters, b);
    let from = St { b, c: s.c };
    let to = fm_process_spec(l, stages, frame.elem, &read_ty, idx, counters, cont, terminal, from);
    let end = end_combinator_loop_spec(&frame, LoopFlow::Fallthrough, closed(to.b, cont));
    InnerLoop { read_ty, start, frame, idx, from, cont, to, end }
}

/// The loop over what a step that flattens gave stays local.
pub(crate) proof fn inner_loop_local(
    l: Lower,
    stages: &List<FuseStage>,
    lam: &Lambda,
    inner: TypedTemp,
    counters: &List<Option<Temp>>,
    terminal: &Terminal,
    s: St,
    code: Seq<BasicBlock>,
    sem: Oracle,
    m: Meaning,
)
    requires
        bodies_mean(l, code, sem, m),
        all_known(m, stages, terminal),
    ensures
        ({
            let p = inner_loop(l, stages, lam, inner, counters, terminal, s);
            let bc = p.start.alloc_block("fm_inner_cont").0;
            &&& stays_local(bc, p.from.b)
            &&& stays_local(p.from.b, p.to.b)
            &&& stays_local(bc, p.to.b)
            &&& stays_local(p.start, closed(p.to.b, p.cont))
            &&& stays_local(s.b, p.end)
        }),
    decreases stages, 1nat,
{
    let p = inner_loop(l, stages, lam, inner, counters, terminal, s);
    let bc = p.start.alloc_block("fm_inner_cont").0;
    next_index_local(counters, bc);
    steps_local(
        l,
        stages,
        p.frame.elem,
        &p.read_ty,
        p.idx,
        counters,
        p.cont,
        terminal,
        p.from,
        code,
        sem,
        m,
    );
    local_adds_up(bc, p.from.b, p.to.b);
    closed_local(p.start, "fm_inner_cont", p.to.b);
    loop_local(inner.temp, &inner.ty, p.read_ty, s.b, closed(p.to.b, p.cont));
}

/// A value that comes to the first of the steps runs through them: it comes behind their code or,
/// where a step drops it, to the block to skip to, and what has changed by then is what `flow`
/// says.
pub proof fn steps_run(
    l: Lower,
    stages: &List<FuseStage>,
    elem: Temp,
    elem_ty: &Type,
    idx: Temp,
    counters: &List<Option<Temp>>,
    skip_block: BlockId,
    terminal: &Terminal,
    s: St,
    code: Seq<BasicBlock>,
    sem: Oracle,
    m: Meaning,
    x: Value,
    pos: int,
    f: Flow,
    all: &List<Option<Temp>>,
    all_top: nat,
    r: Run,
) -> (r2: Run)
    requires
        bodies_mean(l, code, sem, m),
        all_known(m, stages, terminal),
        fits(m, s.b, r),
        is_open(s.b),
        ({
            let s2 = fm_process_spec(
                l,
                stages,
                elem,
                elem_ty,
                idx,
                counters,
                skip_block,
                terminal,
                s,
            );
            &&& s2.b.blocks.len() < u32::MAX
            &&& s2.b.temp_types.len() < u32::MAX
            &&& part_stands(s.b, s2.b, code)
        }),
        is_at(s.b, r),
        elem.0 < s.b.temp_types.len(),
        idx.0 < s.b.temp_types.len(),
        r.vals[elem] == x,
        first_wants(stages, terminal) ==> r.vals[idx] == Value::Number(pos),
        r.mem == f.mem,
        later_of(all, all_top, counters, stages.len()),
        own_counters(m, all, all_top, terminal),
        tracks(all, all_top, f),
        later_served(stages, counters, terminal),
        flattens(m, stages),
    ensures
        ({
            let s2 = fm_process_spec(
                l,
                stages,
                elem,
                elem_ty,
                idx,
                counters,
                skip_block,
                terminal,
                s,
            );
            &&& comes_to(code, sem, r, r2)
            &&& is_at(s2.b, r2) || (r2.block == skip_block && r2.at == 0)
            &&& same_below(s.b, r, r2)
            &&& r2.mem == flow(m, stages, counters, terminal, x, pos, f).mem
        }),
    decreases stages, 0nat,
{
    reveal(fm_process_spec);
    let last = fm_process_spec(l, stages, elem, elem_ty, idx, counters, skip_block, terminal, s);
    match stages {
        List::Nil => end_runs(l, terminal, elem, elem_ty, idx, s, code, sem, m, x, pos, r),
        List::Cons(n) => {
            let later = later_counters(counters);
            let lam = step_lambda(&n.head);
            let args = taken(lam, placed(x, pos));
            let f1 = Flow {
                trace: f.trace.push(Seen { left: stages.len(), value: x, pos }),
                mem: (m.effect)(lam, args, f.mem),
                ..f
            };
            let through = let_through(m, &n.head, x, pos);
            assert(flow(m, stages, counters, terminal, x, pos, f) == flow_all(
                m,
                &n.tail,
                &later,
                terminal,
                through,
                f1,
            ));
            first_of_later(all, all_top, counters, stages.len());
            assert(tracks(all, all_top, f1));
            match &n.head {
                FuseStage::Filter { lam } => {
                    let s1 = fm_filter_spec(l, lam, elem, elem_ty, idx, skip_block, s);
                    filter_local(l, lam, elem, elem_ty, idx, skip_block, s, code, sem, m);
                    later_steps_local(
                        l,
                        &n.tail,
                        elem,
                        elem_ty,
                        &later,
                        skip_block,
                        terminal,
                        s1,
                        code,
                        sem,
                        m,
                    );
                    halves_stand(s.b, s1.b, last.b, code);
                    let r1 = filter_runs(
                        l,
                        lam,
                        elem,
                        elem_ty,
                        idx,
                        skip_block,
                        s,
                        code,
                        sem,
                        m,
                        x,
                        pos,
                        r,
                    );
                    if (m.value)(*lam, args) == Value::Truth(true) {
                        assert(through =~= seq![x]);
                        let r2 = later_steps_run(
                            l,
                            &n.tail,
                            elem,
                            elem_ty,
                            &later,
                            skip_block,
                            terminal,
                            s1,
                            code,
                            sem,
                            m,
                            x,
                            f1,
                            all,
                            all_top,
                            r1,
                        );
                        comes_further(code, sem, r, r1, r2);
                        r2
                    } else {
                        r1
                    }
                },
                FuseStage::MapEach { lam, out_elem_ty } => {
                    let (s1, mapped) = fm_apply_spec(l, lam, elem, elem_ty, idx, s);
                    let next_ty = mapped_type(&mapped.ty, out_elem_ty);
                    apply_local(l, lam, elem, elem_ty, idx, s, code, sem, m);
                    later_steps_local(
                        l,
                        &n.tail,
                        mapped.temp,
                        &next_ty,
                        &later,
                        skip_block,
                        terminal,
                        s1,
                        code,
                        sem,
                        m,
                    );
                    halves_stand(s.b, s1.b, last.b, code);
                    let r1 = apply_runs(l, lam, elem, elem_ty, idx, s, code, sem, m, x, pos, r);
                    let y = (m.value)(*lam, args);
                    assert(through =~= seq![y]);
                    let r2 = later_steps_run(
                        l,
                        &n.tail,
                        mapped.temp,
                        &next_ty,
                        &later,
                        skip_block,
                        terminal,
                        s1,
                        code,
                        sem,
                        m,
                        y,
                        f1,
                        all,
                        all_top,
                        r1,
                    );
                    comes_further(code, sem, r, r1, r2);
                    r2
                },
                FuseStage::FlatMap { lam, .. } => {
                    let (s1, inner) = fm_apply_spec(l, lam, elem, elem_ty, idx, s);
                    apply_local(l, lam, elem, elem_ty, idx, s, code, sem, m);
                    inner_loop_local(l, &n.tail, lam, inner, &later, terminal, s1, code, sem, m);
                    let p = inner_loop(l, &n.tail, lam, inner, &later, terminal, s1);
                    let i = Instruction::Release { val: inner.temp, ty: inner.ty };
                    emit_local(p.end, i);
                    local_adds_up(s1.b, p.end, last.b);
                    halves_stand(s.b, s1.b, last.b, code);
                    halves_stand(s1.b, p.end, last.b, code);
                    let r1 = apply_runs(l, lam, elem, elem_ty, idx, s, code, sem, m, x, pos, r);
                    let y = (m.value)(*lam, args);
                    assert(y is Items);
                    let r2 = inner_loop_runs(
                        l,
                        &n.tail,
                        lam,
                        inner,
                        &later,
                        terminal,
                        s1,
                        code,
                        sem,
                        m,
                        through,
                        f1,
                        all,
                        all_top,
                        r1,
                    );
                    emitted_runs(p.end, i, code, sem, r2);
                    let r3 = after_instr(sem, i, r2);
                    comes_further(code, sem, r, r1, r2);
                    comes_further(code, sem, r, r2, r3);
                    r3
                },
            }
        },
    }
}

/// The steps behind a step stay local.
pub(crate) proof fn later_steps_local(
    l: Lower,
    stages: &List<FuseStage>,
    elem: Temp,
    elem_ty: &Type,
    counters: &List<Option<Temp>>,
    skip_block: BlockId,
    terminal: &Terminal,
    s: St,
    code: Seq<BasicBlock>,
    sem: Oracle,
    m: Meaning,
)
    requires
        bodies_mean(l, code, sem, m),
        all_known(m, stages, terminal),
    ensures
        ({
            let (b, idx) = fm_next_index_spec(counters, s.b);
            let from = St { b, c: s.c };
            let s2 = fm_process_spec(
                l,
                stages,
                elem,
                elem_ty,
                idx,
                counters,
                skip_block,
                terminal,
                from,
            );
            &&& stays_local(s.b, b)
            &&& stays_local(b, s2.b)
            &&& stays_local(s.b, s2.b)
        }),
{
    let (b, idx) = fm_next_index_spec(counters, s.b);
    let from = St { b, c: s.c };
    next_index_local(counters, s.b);
    steps_local(l, stages, elem, elem_ty, idx, counters, skip_block, terminal, from, code, sem, m);
    let s2 = fm_process_spec(l, stages, elem, elem_ty, idx, counters, skip_block, terminal, from);
    local_adds_up(s.b, b, s2.b);
}

/// A value that comes to the steps behind a step is counted and runs through them.
pub(crate) proof fn later_steps_run(
    l: Lower,
    stages: &List<FuseStage>,
    elem: Temp,
    elem_ty: &Type,
    counters: &List<Option<Temp>>,
    skip_block: BlockId,
    terminal: &Terminal,
    s: St,
    code: Seq<BasicBlock>,
    sem: Oracle,
    m: Meaning,
    x: Value,
    f: Flow,
    all: &List<Option<Temp>>,
    all_top: nat,
    r: Run,
) -> (r2: Run)
    requires
        bodies_mean(l, code, sem, m),
        all_known(m, stages, terminal),
        fits(m, s.b, r),
        is_open(s.b),
        ({
            let (b, idx) = fm_next_index_spec(counters, s.b);
            let from = St { b, c: s.c };
            let s2 = fm_process_spec(
                l,
                stages,
                elem,
                elem_ty,
                idx,
                counters,
                skip_block,
                terminal,
                from,
            );
            &&& s2.b.blocks.len() < u32::MAX
            &&& s2.b.temp_types.len() < u32::MAX
            &&& part_stands(s.b, s2.b, code)
        }),
        is_at(s.b, r),
        elem.0 < s.b.temp_types.len(),
        r.vals[elem] == x,
        r.mem == f.mem,
        later_of(all, all_top, counters, stages.len()),
        own_counters(m, all, all_top, terminal),
        tracks(all, all_top, f),
        served(stages, counters, terminal),
        flattens(m, stages),
    ensures
        ({
            let (b, idx) = fm_next_index_spec(counters, s.b);
            let from = St { b, c: s.c };
            let s2 = fm_process_spec(
                l,
                stages,
                elem,
                elem_ty,
                idx,
                counters,
                skip_block,
                terminal,
                from,
            );
            let coming = arriving(counters, stages.len(), f);
            &&& comes_to(code, sem, r, r2)
            &&& is_at(s2.b, r2) || (r2.block == skip_block && r2.at == 0)
            &&& same_below(s.b, r, r2)
            &&& r2.mem == flow(m, stages, counters, terminal, x, f.seen[stages.len()], coming).mem
            &&& flow_all(m, stages, counters, terminal, seq![x], f) == flow(
                m,
                stages,
                counters,
                terminal,
                x,
                f.seen[stages.len()],
                coming,
            )
        }),
    decreases stages, 1nat,
{
    let (b, idx) = fm_next_index_spec(counters, s.b);
    let from = St { b, c: s.c };
    let s2 = fm_process_spec(l, stages, elem, elem_ty, idx, counters, skip_block, terminal, from);
    let pos = f.seen[stages.len()];
    let coming = arriving(counters, stages.len(), f);
    later_steps_local(l, stages, elem, elem_ty, counters, skip_block, terminal, s, code, sem, m);
    halves_stand(s.b, b, s2.b, code);
    first_of_later(all, all_top, counters, stages.len());
    arriving_tracks(m, terminal, all, all_top, counters, stages.len(), f);
    let r1 = next_index_runs(counters, s.b, code, sem, r, pos);
    let r2 = steps_run(
        l,
        stages,
        elem,
        elem_ty,
        idx,
        counters,
        skip_block,
        terminal,
        from,
        code,
        sem,
        m,
        x,
        pos,
        coming,
        all,
        all_top,
        r1,
    );
    comes_further(code, sem, r, r1, r2);
    last_value_flows_last(m, stages, counters, terminal, Seq::empty(), x, f);
    assert(Seq::<Value>::empty().push(x) =~= seq![x]);
    r2
}

/// The loop over what a step that flattens gave runs: its elements go through the later steps, one
/// after another.
pub(crate) proof fn inner_loop_runs(
    l: Lower,
    stages: &List<FuseStage>,
    lam: &Lambda,
    inner: TypedTemp,
    counters: &List<Option<Temp>>,
    terminal: &Terminal,
    s: St,
    code: Seq<BasicBlock>,
    sem: Oracle,
    m: Meaning,
    ys: Seq<Value>,
    f: Flow,
    all: &List<Option<Temp>>,
    all_top: nat,
    r: Run,
) -> (r2: Run)
    requires
        bodies_mean(l, code, sem, m),
        all_known(m, stages, terminal),
        fits(m, s.b, r),
        is_open(s.b),
        ({
            let p = inner_loop(l, stages, lam, inner, counters, terminal, s);
            &&& p.end.blocks.len() < u32::MAX
            &&& p.end.temp_types.len() < u32::MAX
            &&& part_stands(s.b, p.end, code)
        }),
        is_at(s.b, r),
        inner.temp.0 < s.b.temp_types.len(),
        r.vals[inner.temp] == Value::Items(ys),
        r.mem == f.mem,
        later_of(all, all_top, counters, stages.len()),
        own_counters(m, all, all_top, terminal),
        tracks(all, all_top, f),
        served(stages, counters, terminal),
        flattens(m, stages),
    ensures
        ({
            let p = inner_loop(l, stages, lam, inner, counters, terminal, s);
            &&& comes_to(code, sem, r, r2)
            &&& is_open(p.end)
            &&& is_at(p.end, r2)
            &&& same_below(s.b, r, r2)
            &&& r2.mem == flow_all(m, stages, counters, terminal, ys, f).mem
        }),
    decreases stages, 2nat,
{
    let p = inner_loop(l, stages, lam, inner, counters, terminal, s);
    let bc = p.start.alloc_block("fm_inner_cont").0;
    let b2 = closed(p.to.b, p.cont);
    inner_loop_local(l, stages, lam, inner, counters, terminal, s, code, sem, m);
    loop_start_adds(inner.temp, &inner.ty, p.read_ty, s.b);
    loop_end_adds(&p.frame, b2);
    assert(whole_loop(inner.temp, &inner.ty, p.read_ty, s.b, b2, code));
    loop_lies(inner.temp, &inner.ty, p.read_ty, s.b);
    loop_ends(inner.temp, &inner.ty, p.read_ty, s.b, b2, code);
    assert(p.to.b.blocks.len() == b2.blocks.len() && p.to.b.temp_types.len()
        == b2.temp_types.len()) by {
        reveal(FState::terminate);
        reveal(FState::switch_to);
    }
    closed_stands(p.start, "fm_inner_cont", p.to.b, code);
    let inv = |k: int, mem: Mem|
        mem == flow_all(m, stages, counters, terminal, ys.take(k), f).mem;
    assert forall|k: int, q: Run|
        0 <= k < ys.len() && inv(k, q.mem) && same_below(s.b, r, q) && #[trigger] starts_body(
            p.start,
            p.frame,
            ys,
            k,
            q,
        ) implies exists|q2: Run|
        {
            &&& #[trigger] comes_to(code, sem, q, q2)
            &&& passed(p.start, b2, q, q2)
            &&& inv(k + 1, q2.mem)
        } by {
        let g = flow_all(m, stages, counters, terminal, ys.take(k), f);
        flow_all_tracks(m, stages, counters, terminal, ys.take(k), f, all, all_top);
        let from = St { b: bc, c: s.c };
        assert(is_open(bc) && is_at(bc, q) && bc.temp_types == p.start.temp_types) by {
            reveal(FState::alloc_block);
        }
        let q1 = later_steps_run(
            l,
            stages,
            p.frame.elem,
            &p.read_ty,
            counters,
            p.cont,
            terminal,
            from,
            code,
            sem,
            m,
            ys[k],
            g,
            all,
            all_top,
            q,
        );
        last_value_flows_last(m, stages, counters, terminal, ys.take(k), ys[k], f);
        assert(ys.take(k).push(ys[k]) =~= ys.take(k + 1));
        let q2 = closed_runs(p.start, "fm_inner_cont", p.to.b, code, sem, q1);
        comes_further(code, sem, q, q1, q2);
    }
    assert(body_keeps(code, sem, s.b, r, p.start, b2, p.frame, ys, inv));
    assert(ys.take(0) =~= Seq::empty());
    assert(ys.take(ys.len() as int) =~= ys);
    loop_runs_its_body_for_every_element(
        inner.temp,
        &inner.ty,
        p.read_ty,
        s.b,
        b2,
        code,
        sem,
        ys,
        inv,
        r,
    )
}

} // verus!
