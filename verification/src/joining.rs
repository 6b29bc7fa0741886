//! The merge of two runs of an array, as it runs.

use crate::ast::BinOp;
use crate::builder::FState;
use crate::coerce::coerce_arg_to_param_repr_spec;
use crate::collect::{SortArrays, copy_elem_spec, emit_merge_spec};
use crate::counting::operations_add;
use crate::ctx::{Lower, St};
use crate::finding::{one_step_further, operation, phi};
use crate::flowing::{Meaning, taken};
use crate::fusion::{bodies_mean, body_ran, body_stands, coerce_local, fits, inlined, values_in};
use crate::ir::{BasicBlock, BlockId, Const, Instruction, Temp, Terminator};
use crate::list::{List, two};
use crate::looping::{halves_stand, part_stands};
use crate::loops::TypedTemp;
use crate::merging::{Order, merged};
use crate::recognize::Lambda;
use crate::run::{
    Mem, Oracle, Run, Value, after_instr, comes_further, comes_to, comes_to_itself, constant_runs,
    conversion_runs, current, incoming_from, instrs, is_at, is_here, is_open, local_adds_up,
    operator_runs, same_below, stays_local,
};
use crate::types::Type;
use vstd::prelude::*;

verus! {

/// The blocks and temporaries of a merge.
pub struct MergeParts {
    pub pre: BlockId,
    pub header: BlockId,
    pub body: BlockId,
    pub take_l: BlockId,
    pub take_r: BlockId,
    pub order: BlockId,
    pub advance: BlockId,
    pub exit: BlockId,
    pub after_l: BlockId,
    pub mi: Temp,
    pub mj: Temp,
    pub mk: Temp,
    pub mi_next: Temp,
    pub mj_next: Temp,
    pub mk_next: Temp,
    pub left: Temp,
    pub right: Temp,
}

/// An element of an array is read.
pub open spec fn element(arrays: &SortArrays, dst: Temp, object: Temp, key: Temp) -> Instruction {
    Instruction::Index {
        dst,
        object,
        key,
        obj_ty: arrays.result_ty,
        key_ty: Type::Int64,
        result_ty: arrays.elem_ty,
        nonneg: false,
    }
}

/// An element of an array is written.
pub open spec fn written(arrays: &SortArrays, object: Temp, key: Temp, value: Temp) -> Instruction {
    Instruction::IndexSet {
        object,
        key,
        value,
        obj_ty: arrays.result_ty,
        key_ty: Type::Int64,
        val_ty: arrays.elem_ty,
    }
}

/// The merge up to where the two elements are to be compared.
pub open spec fn merge_start(
    arrays: &SortArrays,
    lo: Temp,
    mid: Temp,
    hi: Temp,
    b: FState,
) -> (FState, MergeParts) {
    let pre = b.env.current_block;
    let (b, header) = b.alloc_block("sort_m_hdr");
    let (b, body) = b.alloc_block("sort_m_body");
    let (b, take_l) = b.alloc_block("sort_m_takel");
    let (b, take_r) = b.alloc_block("sort_m_taker");
    let (b, order) = b.alloc_block("sort_m_cmp");
    let (b, advance) = b.alloc_block("sort_m_adv");
    let (b, exit) = b.alloc_block("sort_m_exit");
    let (b, mi) = b.alloc_temp(Type::Int64);
    let (b, mj) = b.alloc_temp(Type::Int64);
    let (b, mk) = b.alloc_temp(Type::Int64);
    let (b, mi_next) = b.alloc_temp(Type::Int64);
    let (b, mj_next) = b.alloc_temp(Type::Int64);
    let (b, mk_next) = b.alloc_temp(Type::Int64);
    let b = b.terminate(Terminator::Jump(header)).switch_to(header);
    let b = b.emit(phi(mi, Type::Int64, lo, pre, mi_next, advance));
    let b = b.emit(phi(mj, Type::Int64, mid, pre, mj_next, advance));
    let b = b.emit(phi(mk, Type::Int64, lo, pre, mk_next, advance));
    let (b, cond) = b.binary(BinOp::Lt, mk, hi, &Type::Int64, &Type::Bool);
    let b = b.terminate(
        Terminator::CondJump { cond, then_block: body, else_block: exit },
    ).switch_to(body);
    let (b, l_done) = b.binary(BinOp::GtEq, mi, mid, &Type::Int64, &Type::Bool);
    let (b, after_l) = b.alloc_block("sort_m_chk_r");
    let b = b.terminate(
        Terminator::CondJump { cond: l_done, then_block: take_r, else_block: after_l },
    ).switch_to(after_l);
    let (b, r_done) = b.binary(BinOp::GtEq, mj, hi, &Type::Int64, &Type::Bool);
    let b = b.terminate(
        Terminator::CondJump { cond: r_done, then_block: take_l, else_block: order },
    ).switch_to(order);
    let (b, left) = b.index(
        arrays.out,
        mi,
        &arrays.result_ty,
        &Type::Int64,
        &arrays.elem_ty,
        false,
    );
    let (b, right) = b.index(
        arrays.out,
        mj,
        &arrays.result_ty,
        &Type::Int64,
        &arrays.elem_ty,
        false,
    );
    (
        b,
        MergeParts {
            pre,
            header,
            body,
            take_l,
            take_r,
            order,
            advance,
            exit,
            after_l,
            mi,
            mj,
            mk,
            mi_next,
            mj_next,
            mk_next,
            left,
            right,
        },
    )
}

/// The comparison of the two elements: it is true where the left one goes first.
pub open spec fn merge_choice(
    l: Lower,
    arrays: &SortArrays,
    p: MergeParts,
    order: &Lambda,
    s: St,
) -> (St, Temp) {
    let (s1, raw) = inlined(l, *order, compared(arrays, p), s);
    let (b2, ord) = coerce_arg_to_param_repr_spec(raw.temp, &raw.ty, &Type::Int32, s1.b);
    let (b3, zero) = b2.const_temp(Const::Int(0, Type::Int32));
    let (b4, take_left) = b3.binary(BinOp::LtEq, ord, zero, &Type::Int32, &Type::Bool);
    (St { b: b4, c: s1.c }, take_left)
}

/// The two elements that are compared.
pub open spec fn compared(arrays: &SortArrays, p: MergeParts) -> List<TypedTemp> {
    two(
        TypedTemp { temp: p.left, ty: arrays.elem_ty },
        TypedTemp { temp: p.right, ty: arrays.elem_ty },
    )
}

/// The rest of the merge, behind the comparison.
pub open spec fn merge_end(
    arrays: &SortArrays,
    p: MergeParts,
    take_left: Temp,
    b: FState,
) -> FState {
    let b = b.terminate(
        Terminator::CondJump { cond: take_left, then_block: p.take_l, else_block: p.take_r },
    ).switch_to(p.take_l);
    let b = copy_elem_spec(arrays, arrays.out, p.mi, arrays.work, p.mk, b);
    let (b, mi_inc) = b.binary(BinOp::Add, p.mi, arrays.one_c, &Type::Int64, &Type::Int64);
    let b = b.terminate(Terminator::Jump(p.advance)).switch_to(p.take_r);
    let b = copy_elem_spec(arrays, arrays.out, p.mj, arrays.work, p.mk, b);
    let (b, mj_inc) = b.binary(BinOp::Add, p.mj, arrays.one_c, &Type::Int64, &Type::Int64);
    let b = b.terminate(Terminator::Jump(p.advance)).switch_to(p.advance);
    let b = b.emit(phi(p.mi_next, Type::Int64, mi_inc, p.take_l, p.mi, p.take_r));
    let b = b.emit(phi(p.mj_next, Type::Int64, p.mj, p.take_l, mj_inc, p.take_r));
    let b = b.emit(operation(p.mk_next, BinOp::Add, p.mk, arrays.one_c, Type::Int64, Type::Int64));
    b.terminate(Terminator::Jump(p.header)).switch_to(p.exit)
}

/// A merge is made of these.
pub(crate) proof fn merge_is(
    l: Lower,
    arrays: &SortArrays,
    lo: Temp,
    mid: Temp,
    hi: Temp,
    order: &Lambda,
    s: St,
)
    ensures
        ({
            let (b1, p) = merge_start(arrays, lo, mid, hi, s.b);
            let (s2, take_left) = merge_choice(l, arrays, p, order, St { b: b1, c: s.c });
            let b3 = merge_end(arrays, p, take_left, s2.b);
            emit_merge_spec(l, arrays, lo, mid, hi, order, s) == (St { b: b3, c: s2.c }, p.exit)
        }),
{
    reveal(emit_merge_spec);
}

/// There is room for the merge.
pub open spec fn merge_room(b: FState) -> bool {
    is_open(b) && b.blocks.len() + 8 < u32::MAX && b.temp_types.len() + 11 < u32::MAX
}

/// How much the start of the merge adds.
#[verifier::rlimit(60)]
#[verifier::spinoff_prover]
pub(crate) proof fn merge_start_adds(arrays: &SortArrays, lo: Temp, mid: Temp, hi: Temp, b: FState)
    ensures
        ({
            let b1 = merge_start(arrays, lo, mid, hi, b).0;
            &&& b.blocks.len() <= b1.blocks.len()
            &&& b.temp_types.len() <= b1.temp_types.len()
            &&& b1.blocks.len() < u32::MAX ==> b1.blocks.len() == b.blocks.len() + 8
            &&& b1.temp_types.len() < u32::MAX ==> b1.temp_types.len() == b.temp_types.len() + 11
        }),
{
    operations_add();
}

/// How the start of the merge lies.
#[verifier::rlimit(90)]
#[verifier::spinoff_prover]
pub(crate) proof fn merge_lies(arrays: &SortArrays, lo: Temp, mid: Temp, hi: Temp, b: FState)
    requires
        merge_room(b),
    ensures
        ({
            let (b1, p) = merge_start(arrays, lo, mid, hi, b);
            let n = b.blocks.len() as int;
            let t = b.temp_types.len() as int;
            let cond = Temp((t + 6) as u32);
            let l_done = Temp((t + 7) as u32);
            let r_done = Temp((t + 8) as u32);
            &&& p.pre == b.env.current_block
            &&& p.header.0 == n && p.body.0 == n + 1 && p.take_l.0 == n + 2 && p.take_r.0 == n + 3
            &&& p.order.0 == n + 4 && p.advance.0 == n + 5 && p.exit.0 == n + 6 && p.after_l.0 == n
                + 7
            &&& p.mi.0 == t && p.mj.0 == t + 1 && p.mk.0 == t + 2
            &&& p.mi_next.0 == t + 3 && p.mj_next.0 == t + 4 && p.mk_next.0 == t + 5
            &&& p.left.0 == t + 9 && p.right.0 == t + 10
            &&& b1.temp_types.len() == t + 11 && b1.blocks.len() == n + 8
            &&& b1.env.current_block == p.order && is_open(b1)
            &&& current(b1) == seq![
                element(arrays, p.left, arrays.out, p.mi),
                element(arrays, p.right, arrays.out, p.mj),
            ]
            &&& instrs(&b1.blocks[p.pre.0 as int].code) == current(b)
            &&& b1.blocks[p.pre.0 as int].term == Terminator::Jump(p.header)
            &&& instrs(&b1.blocks[n].code) == seq![
                phi(p.mi, Type::Int64, lo, p.pre, p.mi_next, p.advance),
                phi(p.mj, Type::Int64, mid, p.pre, p.mj_next, p.advance),
                phi(p.mk, Type::Int64, lo, p.pre, p.mk_next, p.advance),
                operation(cond, BinOp::Lt, p.mk, hi, Type::Int64, Type::Bool),
            ]
            &&& b1.blocks[n].term == (Terminator::CondJump {
                cond,
                then_block: p.body,
                else_block: p.exit,
            })
            &&& instrs(&b1.blocks[n + 1].code) == seq![
                operation(l_done, BinOp::GtEq, p.mi, mid, Type::Int64, Type::Bool),
            ]
            &&& b1.blocks[n + 1].term == (Terminator::CondJump {
                cond: l_done,
                then_block: p.take_r,
                else_block: p.after_l,
            })
            &&& instrs(&b1.blocks[n + 7].code) == seq![
                operation(r_done, BinOp::GtEq, p.mj, hi, Type::Int64, Type::Bool),
            ]
            &&& b1.blocks[n + 7].term == (Terminator::CondJump {
                cond: r_done,
                then_block: p.take_l,
                else_block: p.order,
            })
            &&& instrs(&b1.blocks[n + 2].code) == Seq::<Instruction>::empty() && b1.blocks[n
                + 2].term is Unreachable
            &&& instrs(&b1.blocks[n + 3].code) == Seq::<Instruction>::empty() && b1.blocks[n
                + 3].term is Unreachable
            &&& instrs(&b1.blocks[n + 5].code) == Seq::<Instruction>::empty() && b1.blocks[n
                + 5].term is Unreachable
            &&& instrs(&b1.blocks[n + 6].code) == Seq::<Instruction>::empty() && b1.blocks[n
                + 6].term is Unreachable
            &&& forall|j: int|
                0 <= j < n && j != p.pre.0 ==> #[trigger] b1.blocks[j] == b.blocks[j]
        }),
{
    reveal(FState::alloc_temp);
    reveal(FState::alloc_block);
    reveal(FState::emit);
    reveal(FState::terminate);
    reveal(FState::switch_to);
    reveal(FState::binary);
    reveal(FState::index);
    reveal_with_fuel(instrs, 5);
    let (b1, p) = merge_start(arrays, lo, mid, hi, b);
    let n = b.blocks.len() as int;
    let t = b.temp_types.len() as int;
    assert(current(b1) =~= seq![
        element(arrays, p.left, arrays.out, p.mi),
        element(arrays, p.right, arrays.out, p.mj),
    ]);
    assert(instrs(&b1.blocks[n].code) =~= seq![
        phi(p.mi, Type::Int64, lo, p.pre, p.mi_next, p.advance),
        phi(p.mj, Type::Int64, mid, p.pre, p.mj_next, p.advance),
        phi(p.mk, Type::Int64, lo, p.pre, p.mk_next, p.advance),
        operation(Temp((t + 6) as u32), BinOp::Lt, p.mk, hi, Type::Int64, Type::Bool),
    ]);
    assert(instrs(&b1.blocks[n + 1].code) =~= seq![
        operation(Temp((t + 7) as u32), BinOp::GtEq, p.mi, mid, Type::Int64, Type::Bool),
    ]);
    assert(instrs(&b1.blocks[n + 7].code) =~= seq![
        operation(Temp((t + 8) as u32), BinOp::GtEq, p.mj, hi, Type::Int64, Type::Bool),
    ]);
}

/// How the end of the merge lies.
#[verifier::rlimit(90)]
#[verifier::spinoff_prover]
pub(crate) proof fn merge_end_lies(arrays: &SortArrays, p: MergeParts, take_left: Temp, b: FState)
    requires
        is_open(b),
        b.temp_types.len() + 4 < u32::MAX,
        p.take_l.0 < b.blocks.len() && p.take_r.0 < b.blocks.len() && p.advance.0 < b.blocks.len()
            && p.exit.0 < b.blocks.len(),
        p.take_l != p.take_r && p.take_l != p.advance && p.take_l != p.exit && p.take_r != p.advance
            && p.take_r != p.exit && p.advance != p.exit,
        b.env.current_block != p.take_l && b.env.current_block != p.take_r && b.env.current_block
            != p.advance && b.env.current_block != p.exit,
        instrs(&b.blocks[p.take_l.0 as int].code) == Seq::<Instruction>::empty(),
        instrs(&b.blocks[p.take_r.0 as int].code) == Seq::<Instruction>::empty(),
        instrs(&b.blocks[p.advance.0 as int].code) == Seq::<Instruction>::empty(),
        instrs(&b.blocks[p.exit.0 as int].code) == Seq::<Instruction>::empty(),
        b.blocks[p.exit.0 as int].term is Unreachable,
    ensures
        ({
            let last = merge_end(arrays, p, take_left, b);
            let t = b.temp_types.len() as int;
            let c = b.env.current_block.0 as int;
            let (v, mi_inc) = (Temp(t as u32), Temp((t + 1) as u32));
            let (u, mj_inc) = (Temp((t + 2) as u32), Temp((t + 3) as u32));
            &&& last.temp_types.len() == t + 4 && last.blocks.len() == b.blocks.len()
            &&& last.env.current_block == p.exit && is_open(last) && current(last)
                == Seq::<Instruction>::empty()
            &&& instrs(&last.blocks[c].code) == current(b)
            &&& last.blocks[c].term == (Terminator::CondJump {
                cond: take_left,
                then_block: p.take_l,
                else_block: p.take_r,
            })
            &&& instrs(&last.blocks[p.take_l.0 as int].code) == seq![
                element(arrays, v, arrays.out, p.mi),
                written(arrays, arrays.work, p.mk, v),
                operation(mi_inc, BinOp::Add, p.mi, arrays.one_c, Type::Int64, Type::Int64),
            ]
            &&& last.blocks[p.take_l.0 as int].term == Terminator::Jump(p.advance)
            &&& instrs(&last.blocks[p.take_r.0 as int].code) == seq![
                element(arrays, u, arrays.out, p.mj),
                written(arrays, arrays.work, p.mk, u),
                operation(mj_inc, BinOp::Add, p.mj, arrays.one_c, Type::Int64, Type::Int64),
            ]
            &&& last.blocks[p.take_r.0 as int].term == Terminator::Jump(p.advance)
            &&& instrs(&last.blocks[p.advance.0 as int].code) == seq![
                phi(p.mi_next, Type::Int64, mi_inc, p.take_l, p.mi, p.take_r),
                phi(p.mj_next, Type::Int64, p.mj, p.take_l, mj_inc, p.take_r),
                operation(p.mk_next, BinOp::Add, p.mk, arrays.one_c, Type::Int64, Type::Int64),
            ]
            &&& last.blocks[p.advance.0 as int].term == Terminator::Jump(p.header)
            &&& forall|j: int|
                0 <= j < b.blocks.len() && j != c && j != p.take_l.0 && j != p.take_r.0 && j
                    != p.advance.0 ==> #[trigger] last.blocks[j] == b.blocks[j]
        }),
{
    reveal(copy_elem_spec);
    reveal(FState::alloc_temp);
    reveal(FState::emit);
    reveal(FState::terminate);
    reveal(FState::switch_to);
    reveal(FState::binary);
    reveal(FState::index);
    reveal_with_fuel(instrs, 4);
    let last = merge_end(arrays, p, take_left, b);
    let t = b.temp_types.len() as int;
    let (v, mi_inc) = (Temp(t as u32), Temp((t + 1) as u32));
    let (u, mj_inc) = (Temp((t + 2) as u32), Temp((t + 3) as u32));
    assert(instrs(&last.blocks[p.take_l.0 as int].code) =~= seq![
        element(arrays, v, arrays.out, p.mi),
        written(arrays, arrays.work, p.mk, v),
        operation(mi_inc, BinOp::Add, p.mi, arrays.one_c, Type::Int64, Type::Int64),
    ]);
    assert(instrs(&last.blocks[p.take_r.0 as int].code) =~= seq![
        element(arrays, u, arrays.out, p.mj),
        written(arrays, arrays.work, p.mk, u),
        operation(mj_inc, BinOp::Add, p.mj, arrays.one_c, Type::Int64, Type::Int64),
    ]);
    assert(instrs(&last.blocks[p.advance.0 as int].code) =~= seq![
        phi(p.mi_next, Type::Int64, mi_inc, p.take_l, p.mi, p.take_r),
        phi(p.mj_next, Type::Int64, p.mj, p.take_l, mj_inc, p.take_r),
        operation(p.mk_next, BinOp::Add, p.mk, arrays.one_c, Type::Int64, Type::Int64),
    ]);
}

// The comparison.

/// Two values.
pub open spec fn pair(x: Value, y: Value) -> Seq<Value> {
    seq![x, y]
}

/// The function compares: for two elements it gives a number, and changes nothing.
pub open spec fn compares(m: Meaning, order: Lambda, num: spec_fn(Value, Value) -> int) -> bool {
    forall|x: Value, y: Value, mem: Mem|
        #![trigger (m.effect)(order, taken(order, pair(x, y)), mem)]
        {
            &&& (m.value)(order, taken(order, pair(x, y))) == Value::Number(num(x, y))
            &&& (m.effect)(order, taken(order, pair(x, y)), mem) == mem
        }
}

/// An element may stand in front of another where the number is not positive.
pub open spec fn not_positive(num: spec_fn(Value, Value) -> int) -> Order {
    |x: Value, y: Value| num(x, y) <= 0
}

/// The comparison stays local.
pub(crate) proof fn choice_local(
    l: Lower,
    arrays: &SortArrays,
    p: MergeParts,
    order: &Lambda,
    s: St,
    code: Seq<BasicBlock>,
    sem: Oracle,
    m: Meaning,
)
    requires
        bodies_mean(l, code, sem, m),
        (m.known)(*order),
    ensures
        ({
            let (s1, raw) = inlined(l, *order, compared(arrays, p), s);
            let (b2, ord) = coerce_arg_to_param_repr_spec(raw.temp, &raw.ty, &Type::Int32, s1.b);
            let (b3, zero) = b2.const_temp(Const::Int(0, Type::Int32));
            let b4 = merge_choice(l, arrays, p, order, s).0.b;
            &&& stays_local(s.b, s1.b)
            &&& stays_local(s1.b, b2)
            &&& stays_local(b2, b3)
            &&& stays_local(b3, b4)
            &&& stays_local(s.b, b4)
            &&& b4.temp_types.len() < u32::MAX ==> b3.temp_types.len() + 1 == b4.temp_types.len()
                && b2.temp_types.len() + 1 == b3.temp_types.len()
        }),
{
    let (s1, raw) = inlined(l, *order, compared(arrays, p), s);
    let (b2, ord) = coerce_arg_to_param_repr_spec(raw.temp, &raw.ty, &Type::Int32, s1.b);
    let (b3, zero) = b2.const_temp(Const::Int(0, Type::Int32));
    let b4 = merge_choice(l, arrays, p, order, s).0.b;
    reveal(coerce_arg_to_param_repr_spec);
    coerce_local(s1.b, raw.temp, &raw.ty, &Type::Int32);
    assert(stays_local(b2, b3) && stays_local(b3, b4)) by {
        reveal(FState::const_temp);
        reveal(FState::binary);
        reveal(FState::alloc_temp);
        reveal(FState::emit);
        reveal_with_fuel(instrs, 2);
    }
    operations_add();
    local_adds_up(s.b, s1.b, b2);
    local_adds_up(s.b, b2, b3);
    local_adds_up(s.b, b3, b4);
}

/// The comparison tells whether the left element may stand in front of the right one.
proof fn choice_runs(
    l: Lower,
    arrays: &SortArrays,
    p: MergeParts,
    order: &Lambda,
    s: St,
    code: Seq<BasicBlock>,
    sem: Oracle,
    m: Meaning,
    num: spec_fn(Value, Value) -> int,
    r: Run,
) -> (r2: Run)
    requires
        bodies_mean(l, code, sem, m),
        (m.known)(*order),
        compares(m, *order, num),
        fits(m, s.b, r),
        is_open(s.b),
        merge_choice(l, arrays, p, order, s).0.b.blocks.len() < u32::MAX,
        merge_choice(l, arrays, p, order, s).0.b.temp_types.len() < u32::MAX,
        part_stands(s.b, merge_choice(l, arrays, p, order, s).0.b, code),
        is_at(s.b, r),
    ensures
        ({
            let (s2, t) = merge_choice(l, arrays, p, order, s);
            &&& comes_to(code, sem, r, r2)
            &&& is_at(s2.b, r2)
            &&& same_below(s.b, r, r2)
            &&& r2.vals[t] == Value::Truth(num(r.vals[p.left], r.vals[p.right]) <= 0)
            &&& r2.mem == r.mem
        }),
{
    choice_local(l, arrays, p, order, s, code, sem, m);
    let args = compared(arrays, p);
    let (s1, raw) = inlined(l, *order, args, s);
    let (b2, ord) = coerce_arg_to_param_repr_spec(raw.temp, &raw.ty, &Type::Int32, s1.b);
    let c = Const::Int(0, Type::Int32);
    let (b3, zero) = b2.const_temp(c);
    let (s4, t) = merge_choice(l, arrays, p, order, s);
    let b4 = s4.b;
    local_adds_up(b2, b3, b4);
    local_adds_up(s1.b, b2, b4);
    halves_stand(s.b, s1.b, b4, code);
    halves_stand(s1.b, b2, b4, code);
    halves_stand(b2, b3, b4, code);
    assert(body_stands(l, code, *order, args, s, r));
    let r1 = choose|r1: Run|
        {
            &&& #[trigger] comes_to(code, sem, r, r1)
            &&& body_ran(l, m, *order, args, s, r, r1)
        };
    reveal_with_fuel(values_in, 3);
    let x = r.vals[p.left];
    let y = r.vals[p.right];
    assert(values_in(&args, r.vals) =~= pair(x, y));
    assert((m.effect)(*order, taken(*order, pair(x, y)), r.mem) == r.mem);
    assert(r1.vals[raw.temp] == Value::Number(num(x, y)));
    reveal(coerce_arg_to_param_repr_spec);
    let r2 = if b2 == s1.b && ord == raw.temp {
        comes_to_itself(code, sem, r1);
        r1
    } else {
        assert(s1.b.temp_types.len() < u32::MAX);
        conversion_runs(s1.b, raw.temp, &raw.ty, &Type::Int32, code, sem, r1);
        let i = Instruction::Coerce {
            dst: ord,
            src: raw.temp,
            from_ty: raw.ty,
            to_ty: Type::Int32,
        };
        after_instr(sem, i, r1)
    };
    comes_further(code, sem, r, r1, r2);
    assert(r2.vals[ord] == Value::Number(num(x, y)) && ord.0 < b2.temp_types.len());
    constant_runs(b2, c, code, sem, r2);
    let r3 = after_instr(sem, Instruction::Const { dst: zero, value: c }, r2);
    comes_further(code, sem, r, r2, r3);
    let number = Type::Int32;
    let truth = Type::Bool;
    operator_runs(b3, BinOp::LtEq, ord, zero, &number, &truth, code, sem, r3);
    let r4 = after_instr(sem, operation(t, BinOp::LtEq, ord, zero, number, truth), r3);
    comes_further(code, sem, r, r3, r4);
    assert(same_below(s.b, r, r1));
    assert(same_below(s.b, r, r2));
    r4
}

// The merge.

/// The code of a merge stands.
pub open spec fn merge_stands(
    l: Lower,
    arrays: &SortArrays,
    lo: Temp,
    mid: Temp,
    hi: Temp,
    order: &Lambda,
    s: St,
    code: Seq<BasicBlock>,
) -> bool {
    let (b1, p) = merge_start(arrays, lo, mid, hi, s.b);
    let (s2, take_left) = merge_choice(l, arrays, p, order, St { b: b1, c: s.c });
    let last = merge_end(arrays, p, take_left, s2.b);
    &&& merge_room(s.b)
    &&& stays_local(b1, s2.b)
    &&& s2.b.blocks.len() < u32::MAX
    &&& s2.b.temp_types.len() + 4 < u32::MAX
    &&& part_stands(s.b, last, code)
}

/// How the merge stands.
pub(crate) proof fn merge_code(
    l: Lower,
    arrays: &SortArrays,
    lo: Temp,
    mid: Temp,
    hi: Temp,
    order: &Lambda,
    s: St,
    code: Seq<BasicBlock>,
)
    requires
        merge_stands(l, arrays, lo, mid, hi, order, s, code),
    ensures
        ({
            let (b1, p) = merge_start(arrays, lo, mid, hi, s.b);
            let (s2, take_left) = merge_choice(l, arrays, p, order, St { b: b1, c: s.c });
            let last = merge_end(arrays, p, take_left, s2.b);
            let c = s2.b.env.current_block.0 as int;
            let n = s.b.blocks.len() as int;
            &&& is_open(s2.b) && is_open(last) && current(last) == Seq::<Instruction>::empty()
            &&& last.env.current_block == p.exit
            &&& last.blocks.len() == s2.b.blocks.len()
            &&& last.temp_types.len() == s2.b.temp_types.len() + 4
            &&& part_stands(b1, s2.b, code)
            &&& code[p.pre.0 as int] == b1.blocks[p.pre.0 as int]
            &&& code[n] == b1.blocks[n]
            &&& code[n + 1] == b1.blocks[n + 1]
            &&& code[n + 7] == b1.blocks[n + 7]
            &&& instrs(&code[c].code) == current(s2.b)
            &&& code[c].term == last.blocks[c].term
            &&& code[p.take_l.0 as int] == last.blocks[p.take_l.0 as int]
            &&& code[p.take_r.0 as int] == last.blocks[p.take_r.0 as int]
            &&& code[p.advance.0 as int] == last.blocks[p.advance.0 as int]
            &&& is_here(b1, code)
            &&& stays_local(s.b, last)
        }),
{
    let (b1, p) = merge_start(arrays, lo, mid, hi, s.b);
    let (s2, take_left) = merge_choice(l, arrays, p, order, St { b: b1, c: s.c });
    let last = merge_end(arrays, p, take_left, s2.b);
    let c = s2.b.env.current_block.0 as int;
    let n = s.b.blocks.len() as int;
    let pre = p.pre.0 as int;
    merge_lies(arrays, lo, mid, hi, s.b);
    assert(s2.b.blocks[n] == b1.blocks[n]);
    assert(s2.b.blocks[n + 1] == b1.blocks[n + 1]);
    assert(s2.b.blocks[n + 2] == b1.blocks[n + 2]);
    assert(s2.b.blocks[n + 3] == b1.blocks[n + 3]);
    assert(s2.b.blocks[n + 5] == b1.blocks[n + 5]);
    assert(s2.b.blocks[n + 6] == b1.blocks[n + 6]);
    assert(s2.b.blocks[n + 7] == b1.blocks[n + 7]);
    assert(s2.b.blocks[pre] == b1.blocks[pre]);
    merge_end_lies(arrays, p, take_left, s2.b);
    assert(code[pre] == last.blocks[pre]);
    assert(code[n] == last.blocks[n]);
    assert(code[n + 1] == last.blocks[n + 1]);
    assert(code[n + 2] == last.blocks[n + 2]);
    assert(code[n + 3] == last.blocks[n + 3]);
    assert(code[n + 5] == last.blocks[n + 5]);
    assert(code[n + 7] == last.blocks[n + 7]);
    assert(code[c] == last.blocks[c]);
    assert forall|j: int|
        0 <= j < s2.b.blocks.len() && j != c && (j == b1.env.current_block.0 || b1.blocks.len()
            <= j) implies #[trigger] code[j] == s2.b.blocks[j] by {
        assert(code[j] == last.blocks[j]);
    }
    assert forall|j: int| 0 <= j < s.b.blocks.len() && j != pre implies #[trigger] last.blocks[j]
        == s.b.blocks[j] by {
        assert(s2.b.blocks[j] == b1.blocks[j]);
    }
    if c != p.order.0 {
        assert(code[p.order.0 as int] == s2.b.blocks[p.order.0 as int]);
    }
}

/// The values that a merge needs: the arrays, what they hold, and the bounds.
pub open spec fn merge_ready(
    arrays: &SortArrays,
    lo: Temp,
    mid: Temp,
    hi: Temp,
    b: FState,
    from: Seq<Value>,
    x: int,
    y: int,
    z: int,
    r: Run,
) -> bool {
    &&& arrays.out != arrays.work
    &&& arrays.out.0 < b.temp_types.len() && arrays.work.0 < b.temp_types.len()
    &&& arrays.one_c.0 < b.temp_types.len()
    &&& lo.0 < b.temp_types.len() && mid.0 < b.temp_types.len() && hi.0 < b.temp_types.len()
    &&& r.vals[arrays.out] == Value::Made && r.vals[arrays.work] == Value::Made
    &&& r.vals[arrays.one_c] == Value::Number(1)
    &&& r.vals[lo] == Value::Number(x) && r.vals[mid] == Value::Number(y) && r.vals[hi]
        == Value::Number(z)
    &&& 0 <= x <= y <= z <= from.len()
    &&& r.mem.outs[arrays.out] == from
    &&& r.mem.outs.dom().contains(arrays.work)
    &&& r.mem.outs[arrays.work].len() == from.len()
}

/// What has been merged when the merge is at `i` in the left run and at `j` in the right one, and
/// what will be.
pub open spec fn merging(
    le: Order,
    from: Seq<Value>,
    to: Seq<Value>,
    y: int,
    z: int,
    i: int,
    j: int,
) -> Seq<Value> {
    to.take(i + j - y) + merged(le, from.subrange(i, y), from.subrange(j, z)) + to.skip(z)
}

/// Taking the next element of the left run leaves the result the same.
proof fn takes_left(le: Order, from: Seq<Value>, to: Seq<Value>, y: int, z: int, i: int, j: int)
    requires
        0 <= i < y <= j <= z <= from.len(),
        to.len() == from.len(),
        j == z || le(from[i], from[j]),
    ensures
        merging(le, from, to.update(i + j - y, from[i]), y, z, i + 1, j) == merging(
            le,
            from,
            to,
            y,
            z,
            i,
            j,
        ),
{
    let k = i + j - y;
    let xs = from.subrange(i, y);
    let ys = from.subrange(j, z);
    let us = from.subrange(i + 1, y);
    assert(xs.drop_first() =~= us);
    assert(xs[0] == from[i]);
    if j < z {
        assert(ys[0] == from[j]);
    }
    assert(merged(le, xs, ys) =~= seq![from[i]] + merged(le, us, ys));
    let after = to.update(k, from[i]);
    assert(after.take(k + 1) =~= to.take(k) + seq![from[i]]);
    assert(after.skip(z) =~= to.skip(z));
    assert(merging(le, from, after, y, z, i + 1, j) =~= merging(le, from, to, y, z, i, j));
}

/// Taking the next element of the right run leaves the result the same.
proof fn takes_right(le: Order, from: Seq<Value>, to: Seq<Value>, y: int, z: int, i: int, j: int)
    requires
        0 <= i <= y <= j < z <= from.len(),
        to.len() == from.len(),
        i == y || !le(from[i], from[j]),
    ensures
        merging(le, from, to.update(i + j - y, from[j]), y, z, i, j + 1) == merging(
            le,
            from,
            to,
            y,
            z,
            i,
            j,
        ),
{
    let k = i + j - y;
    let xs = from.subrange(i, y);
    let ys = from.subrange(j, z);
    let vs = from.subrange(j + 1, z);
    assert(ys.drop_first() =~= vs);
    assert(ys[0] == from[j]);
    if i < y {
        assert(xs[0] == from[i]);
    }
    assert(merged(le, xs, ys) =~= seq![from[j]] + merged(le, xs, vs));
    let after = to.update(k, from[j]);
    assert(after.take(k + 1) =~= to.take(k) + seq![from[j]]);
    assert(after.skip(z) =~= to.skip(z));
    assert(merging(le, from, after, y, z, i, j + 1) =~= merging(le, from, to, y, z, i, j));
}

/// From the block that takes an element of the left run, or of the right one, a run comes back to
/// the header.
#[verifier::rlimit(60)]
#[verifier::spinoff_prover]
proof fn take_runs(
    l: Lower,
    arrays: &SortArrays,
    lo: Temp,
    mid: Temp,
    hi: Temp,
    order: &Lambda,
    s: St,
    code: Seq<BasicBlock>,
    sem: Oracle,
    from: Seq<Value>,
    x: int,
    y: int,
    z: int,
    i: int,
    j: int,
    left: bool,
    r: Run,
) -> (r2: Run)
    requires
        merge_stands(l, arrays, lo, mid, hi, order, s, code),
        merge_ready(arrays, lo, mid, hi, s.b, from, x, y, z, r),
        x <= i <= y <= j <= z,
        left ==> i < y,
        !left ==> j < z,
        ({
            let p = merge_start(arrays, lo, mid, hi, s.b).1;
            &&& r.block == if left {
                p.take_l
            } else {
                p.take_r
            }
            &&& r.at == 0
            &&& r.vals[p.mi] == Value::Number(i)
            &&& r.vals[p.mj] == Value::Number(j)
            &&& r.vals[p.mk] == Value::Number(i + j - y)
        }),
    ensures
        ({
            let p = merge_start(arrays, lo, mid, hi, s.b).1;
            let to = r.mem.outs[arrays.work];
            let v = if left {
                from[i]
            } else {
                from[j]
            };
            &&& comes_to(code, sem, r, r2)
            &&& r2.block == p.header && r2.at == 0 && r2.from == p.advance
            &&& r2.vals[p.mi_next] == Value::Number(if left { i + 1 } else { i })
            &&& r2.vals[p.mj_next] == Value::Number(if left { j } else { j + 1 })
            &&& r2.vals[p.mk_next] == Value::Number(i + j - y + 1)
            &&& same_below(s.b, r, r2)
            &&& r2.mem == Mem {
                outs: r.mem.outs.insert(arrays.work, to.update(i + j - y, v)),
                ..r.mem
            }
        }),
{
    merge_lies(arrays, lo, mid, hi, s.b);
    merge_code(l, arrays, lo, mid, hi, order, s, code);
    let (b1, p) = merge_start(arrays, lo, mid, hi, s.b);
    let (s2, take_left) = merge_choice(l, arrays, p, order, St { b: b1, c: s.c });
    let n = s.b.blocks.len() as int;
    assert(s2.b.blocks[n + 2] == b1.blocks[n + 2]);
    assert(s2.b.blocks[n + 3] == b1.blocks[n + 3]);
    assert(s2.b.blocks[n + 5] == b1.blocks[n + 5]);
    assert(s2.b.blocks[n + 6] == b1.blocks[n + 6]);
    merge_end_lies(arrays, p, take_left, s2.b);
    reveal_with_fuel(incoming_from, 3);
    comes_to_itself(code, sem, r);
    let r1 = one_step_further(code, sem, r, r);
    let r2 = one_step_further(code, sem, r, r1);
    let r3 = one_step_further(code, sem, r, r2);
    assert(same_below(s.b, r, r3));
    let r4 = one_step_further(code, sem, r, r3);
    assert(r4.block == p.advance && r4.at == 0 && r4.from == r.block);
    let r5 = one_step_further(code, sem, r, r4);
    assert(r5.vals[p.mi_next] == Value::Number(if left { i + 1 } else { i }));
    let r6 = one_step_further(code, sem, r, r5);
    assert(r6.vals[p.mj_next] == Value::Number(if left { j } else { j + 1 }));
    let r7 = one_step_further(code, sem, r, r6);
    assert(r7.vals[p.mk_next] == Value::Number(i + j - y + 1));
    one_step_further(code, sem, r, r7)
}

/// From the header a run comes to the body where there is more to merge, else to the exit.
proof fn merge_header_runs(
    l: Lower,
    arrays: &SortArrays,
    lo: Temp,
    mid: Temp,
    hi: Temp,
    order: &Lambda,
    s: St,
    code: Seq<BasicBlock>,
    sem: Oracle,
    from: Seq<Value>,
    x: int,
    y: int,
    z: int,
    i: int,
    j: int,
    r: Run,
) -> (r2: Run)
    requires
        merge_stands(l, arrays, lo, mid, hi, order, s, code),
        merge_ready(arrays, lo, mid, hi, s.b, from, x, y, z, r),
        at_header(arrays, lo, mid, hi, s.b, y, i, j, r),
    ensures
        ({
            let p = merge_start(arrays, lo, mid, hi, s.b).1;
            &&& comes_to(code, sem, r, r2)
            &&& r2.at == 0
            &&& r2.block == if i + j - y < z {
                p.body
            } else {
                p.exit
            }
            &&& r2.vals[p.mi] == Value::Number(i)
            &&& r2.vals[p.mj] == Value::Number(j)
            &&& r2.vals[p.mk] == Value::Number(i + j - y)
            &&& same_below(s.b, r, r2)
            &&& r2.mem == r.mem
        }),
{
    merge_lies(arrays, lo, mid, hi, s.b);
    merge_code(l, arrays, lo, mid, hi, order, s, code);
    let (b1, p) = merge_start(arrays, lo, mid, hi, s.b);
    reveal_with_fuel(incoming_from, 3);
    comes_to_itself(code, sem, r);
    let r1 = one_step_further(code, sem, r, r);
    assert(r1.vals[p.mi] == Value::Number(i));
    let r2 = one_step_further(code, sem, r, r1);
    assert(r2.vals[p.mj] == Value::Number(j));
    let r3 = one_step_further(code, sem, r, r2);
    assert(r3.vals[p.mk] == Value::Number(i + j - y));
    let r4 = one_step_further(code, sem, r, r3);
    assert(r4.vals[Temp((s.b.temp_types.len() + 6) as u32)] == Value::Truth(i + j - y < z));
    one_step_further(code, sem, r, r4)
}

/// A run is at the header of the merge, which is at `i` in the left run and at `j` in the right
/// one.
pub open spec fn at_header(
    arrays: &SortArrays,
    lo: Temp,
    mid: Temp,
    hi: Temp,
    b: FState,
    y: int,
    i: int,
    j: int,
    r: Run,
) -> bool {
    let p = merge_start(arrays, lo, mid, hi, b).1;
    &&& r.block == p.header && r.at == 0
    &&& (r.from == p.pre && r.vals[lo] == Value::Number(i) && r.vals[mid] == Value::Number(j) && j
        == y) || (r.from == p.advance && r.vals[p.mi_next] == Value::Number(i)
        && r.vals[p.mj_next] == Value::Number(j) && r.vals[p.mk_next] == Value::Number(i + j - y))
}

/// From the body a run comes to where the element that goes first is taken.
proof fn merge_body_runs(
    l: Lower,
    arrays: &SortArrays,
    lo: Temp,
    mid: Temp,
    hi: Temp,
    order: &Lambda,
    s: St,
    code: Seq<BasicBlock>,
    sem: Oracle,
    m: Meaning,
    num: spec_fn(Value, Value) -> int,
    from: Seq<Value>,
    x: int,
    y: int,
    z: int,
    i: int,
    j: int,
    r: Run,
) -> (rl: (Run, bool))
    requires
        bodies_mean(l, code, sem, m),
        (m.known)(*order),
        compares(m, *order, num),
        fits(m, s.b, r),
        merge_stands(l, arrays, lo, mid, hi, order, s, code),
        merge_ready(arrays, lo, mid, hi, s.b, from, x, y, z, r),
        x <= i <= y <= j <= z,
        i + j - y < z,
        ({
            let p = merge_start(arrays, lo, mid, hi, s.b).1;
            &&& r.block == p.body && r.at == 0
            &&& r.vals[p.mi] == Value::Number(i)
            &&& r.vals[p.mj] == Value::Number(j)
            &&& r.vals[p.mk] == Value::Number(i + j - y)
        }),
    ensures
        ({
            let p = merge_start(arrays, lo, mid, hi, s.b).1;
            let (r2, left) = rl;
            &&& comes_to(code, sem, r, r2)
            &&& left ==> i < y && (j == z || num(from[i], from[j]) <= 0)
            &&& !left ==> j < z && (i == y || num(from[i], from[j]) > 0)
            &&& r2.at == 0
            &&& r2.block == if left {
                p.take_l
            } else {
                p.take_r
            }
            &&& r2.vals[p.mi] == Value::Number(i)
            &&& r2.vals[p.mj] == Value::Number(j)
            &&& r2.vals[p.mk] == Value::Number(i + j - y)
            &&& same_below(s.b, r, r2)
            &&& r2.mem == r.mem
        }),
{
    merge_lies(arrays, lo, mid, hi, s.b);
    merge_code(l, arrays, lo, mid, hi, order, s, code);
    let (b1, p) = merge_start(arrays, lo, mid, hi, s.b);
    let (s2, take_left) = merge_choice(l, arrays, p, order, St { b: b1, c: s.c });
    comes_to_itself(code, sem, r);
    let r1 = one_step_further(code, sem, r, r);
    assert(r1.vals[Temp((s.b.temp_types.len() + 7) as u32)] == Value::Truth(i >= y));
    let r2 = one_step_further(code, sem, r, r1);
    if i >= y {
        (r2, false)
    } else {
        let r3 = one_step_further(code, sem, r, r2);
        assert(r3.vals[Temp((s.b.temp_types.len() + 8) as u32)] == Value::Truth(j >= z));
        let r4 = one_step_further(code, sem, r, r3);
        if j >= z {
            (r4, true)
        } else {
            assert(r4.block == p.order && r4.at == 0);
            let here = instrs(&code[p.order.0 as int].code);
            assert(here[0] == current(b1)[0] && here[1] == current(b1)[1]);
            let r5 = one_step_further(code, sem, r, r4);
            assert(r5.vals[p.left] == from[i]);
            let r6 = one_step_further(code, sem, r, r5);
            assert(r6.vals[p.right] == from[j] && r6.vals[p.left] == from[i]);
            assert(is_at(b1, r6));
            assert(fits(m, b1, r6));
            let r7 = choice_runs(l, arrays, p, order, St { b: b1, c: s.c }, code, sem, m, num, r6);
            comes_further(code, sem, r, r6, r7);
            let n = s.b.blocks.len() as int;
            assert(s2.b.blocks[n + 2] == b1.blocks[n + 2]);
            assert(s2.b.blocks[n + 3] == b1.blocks[n + 3]);
            assert(s2.b.blocks[n + 5] == b1.blocks[n + 5]);
            assert(s2.b.blocks[n + 6] == b1.blocks[n + 6]);
            merge_end_lies(arrays, p, take_left, s2.b);
            let r8 = one_step_further(code, sem, r, r7);
            (r8, num(from[i], from[j]) <= 0)
        }
    }
}

/// From the header a run comes to the exit with the rest merged.
proof fn merge_rest_runs(
    l: Lower,
    arrays: &SortArrays,
    lo: Temp,
    mid: Temp,
    hi: Temp,
    order: &Lambda,
    s: St,
    code: Seq<BasicBlock>,
    sem: Oracle,
    m: Meaning,
    num: spec_fn(Value, Value) -> int,
    from: Seq<Value>,
    x: int,
    y: int,
    z: int,
    i: int,
    j: int,
    r: Run,
) -> (r2: Run)
    requires
        bodies_mean(l, code, sem, m),
        (m.known)(*order),
        compares(m, *order, num),
        fits(m, s.b, r),
        merge_stands(l, arrays, lo, mid, hi, order, s, code),
        merge_ready(arrays, lo, mid, hi, s.b, from, x, y, z, r),
        x <= i <= y <= j <= z,
        at_header(arrays, lo, mid, hi, s.b, y, i, j, r),
    ensures
        ({
            let p = merge_start(arrays, lo, mid, hi, s.b).1;
            let to = r.mem.outs[arrays.work];
            &&& comes_to(code, sem, r, r2)
            &&& r2.block == p.exit && r2.at == 0
            &&& same_below(s.b, r, r2)
            &&& r2.mem == Mem {
                outs: r.mem.outs.insert(
                    arrays.work,
                    merging(not_positive(num), from, to, y, z, i, j),
                ),
                ..r.mem
            }
        }),
    decreases z - i + z - j,
{
    let p = merge_start(arrays, lo, mid, hi, s.b).1;
    let le = not_positive(num);
    let to = r.mem.outs[arrays.work];
    let r1 = merge_header_runs(l, arrays, lo, mid, hi, order, s, code, sem, from, x, y, z, i, j, r);
    if i + j - y < z {
        let (r2, left) = merge_body_runs(
            l,
            arrays,
            lo,
            mid,
            hi,
            order,
            s,
            code,
            sem,
            m,
            num,
            from,
            x,
            y,
            z,
            i,
            j,
            r1,
        );
        comes_further(code, sem, r, r1, r2);
        let r3 = take_runs(
            l,
            arrays,
            lo,
            mid,
            hi,
            order,
            s,
            code,
            sem,
            from,
            x,
            y,
            z,
            i,
            j,
            left,
            r2,
        );
        comes_further(code, sem, r, r2, r3);
        let i2 = if left {
            i + 1
        } else {
            i
        };
        let j2 = if left {
            j
        } else {
            j + 1
        };
        if left {
            takes_left(le, from, to, y, z, i, j);
        } else {
            takes_right(le, from, to, y, z, i, j);
        }
        let r4 = merge_rest_runs(
            l,
            arrays,
            lo,
            mid,
            hi,
            order,
            s,
            code,
            sem,
            m,
            num,
            from,
            x,
            y,
            z,
            i2,
            j2,
            r3,
        );
        comes_further(code, sem, r, r3, r4);
        assert(r4.mem.outs =~= r.mem.outs.insert(arrays.work, merging(le, from, to, y, z, i, j)));
        r4
    } else {
        assert(from.subrange(i, y) =~= Seq::empty());
        assert(from.subrange(j, z) =~= Seq::empty());
        assert(merging(le, from, to, y, z, i, j) =~= to);
        assert(r.mem.outs =~= r.mem.outs.insert(arrays.work, to));
        r1
    }
}

/// A run of a merge comes behind it with the two runs of the one array merged into the other: the
/// other holds between the bounds what the two runs are merged to, and outside what it held.
pub proof fn merge_merges(
    l: Lower,
    arrays: &SortArrays,
    lo: Temp,
    mid: Temp,
    hi: Temp,
    order: &Lambda,
    s: St,
    code: Seq<BasicBlock>,
    sem: Oracle,
    m: Meaning,
    num: spec_fn(Value, Value) -> int,
    from: Seq<Value>,
    x: int,
    y: int,
    z: int,
    r: Run,
) -> (r2: Run)
    requires
        bodies_mean(l, code, sem, m),
        (m.known)(*order),
        compares(m, *order, num),
        fits(m, s.b, r),
        is_open(s.b),
        ({
            let last = emit_merge_spec(l, arrays, lo, mid, hi, order, s).0.b;
            &&& last.blocks.len() < u32::MAX
            &&& last.temp_types.len() < u32::MAX
            &&& part_stands(s.b, last, code)
        }),
        is_at(s.b, r),
        merge_ready(arrays, lo, mid, hi, s.b, from, x, y, z, r),
    ensures
        ({
            let last = emit_merge_spec(l, arrays, lo, mid, hi, order, s).0.b;
            let to = r.mem.outs[arrays.work];
            let le = not_positive(num);
            &&& stays_local(s.b, last)
            &&& comes_to(code, sem, r, r2)
            &&& is_open(last)
            &&& is_at(last, r2)
            &&& same_below(s.b, r, r2)
            &&& r2.mem == Mem {
                outs: r.mem.outs.insert(
                    arrays.work,
                    to.take(x) + merged(le, from.subrange(x, y), from.subrange(y, z)) + to.skip(z),
                ),
                ..r.mem
            }
        }),
{
    merge_is(l, arrays, lo, mid, hi, order, s);
    let (b1, p) = merge_start(arrays, lo, mid, hi, s.b);
    let s1 = St { b: b1, c: s.c };
    let (s2, take_left) = merge_choice(l, arrays, p, order, s1);
    choice_local(l, arrays, p, order, s1, code, sem, m);
    merge_start_adds(arrays, lo, mid, hi, s.b);
    merge_end_adds(arrays, p, take_left, s2.b);
    assert(merge_stands(l, arrays, lo, mid, hi, order, s, code));
    merge_lies(arrays, lo, mid, hi, s.b);
    merge_code(l, arrays, lo, mid, hi, order, s, code);
    comes_to_itself(code, sem, r);
    let r1 = one_step_further(code, sem, r, r);
    assert(at_header(arrays, lo, mid, hi, s.b, y, x, y, r1));
    let r2 = merge_rest_runs(
        l,
        arrays,
        lo,
        mid,
        hi,
        order,
        s,
        code,
        sem,
        m,
        num,
        from,
        x,
        y,
        z,
        x,
        y,
        r1,
    );
    comes_further(code, sem, r, r1, r2);
    r2
}

/// How much the end of the merge adds.
pub(crate) proof fn merge_end_adds(arrays: &SortArrays, p: MergeParts, take_left: Temp, b: FState)
    ensures
        ({
            let last = merge_end(arrays, p, take_left, b);
            &&& last.blocks.len() == b.blocks.len()
            &&& b.temp_types.len() <= last.temp_types.len()
            &&& last.temp_types.len() < u32::MAX ==> last.temp_types.len() == b.temp_types.len() + 4
        }),
{
    reveal(copy_elem_spec);
    operations_add();
}

} // verus!
