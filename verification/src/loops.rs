//! Counted loops over collections, and calls of their bodies.

use crate::ast::{BinOp, TypedExpr, TypedParam};
use crate::builder::{
    Cell, FState, FuncBuilder, grew, grown, has_temp, newer, steady_but, undefined,
};
use crate::coerce::{
    coerce_arg_to_param, coerce_arg_to_param_repr, coerce_arg_to_param_repr_spec,
    coerce_arg_to_param_spec, free_arg_box_shells, free_arg_box_shells_spec, lower_coerce_arg,
    lower_coerce_arg_spec,
};
use crate::ctx::{Lower, LowerCtx, St, low, on, on_b, on_c, on_ctx, ran, st, valid};
use crate::expr::{lower_at, lower_expr};
use crate::ir::{BlockId, CallTarget, Const, Incoming, Instruction, Intrinsic, Temp, Terminator};
use crate::list::{List, one, prepend, two};
use crate::recognize::{FnTarget, Lambda};
use crate::repr::{is_rc_type, is_sealed_scalar_repr, is_union_ty};
use crate::text::Text;
use crate::types::Type;
use crate::valid::{
    boxed_call_ok, call_args_ok, callee_ok, cells_ok, cells_tail, flow_ok, fn_target_ok,
    group_valid, inlined_ok, loop_frame_ok, temp_ok, temps_ok, temps_tail, typed_ok, typed_tail,
    typed_temp_ok,
};
use vstd::prelude::*;

verus! {

broadcast use group_valid;

/// A value and its type.
pub struct TypedTemp {
    pub temp: Temp,
    pub ty: Type,
}

/// The arguments of a loop body: the element and its index.
pub open spec fn elem_and_index_spec(elem: Temp, elem_ty: &Type, idx: Temp) -> List<TypedTemp> {
    two(TypedTemp { temp: elem, ty: elem_ty.dup() }, TypedTemp { temp: idx, ty: Type::Int32 })
}

/// The arguments of a loop body: the element and its index.
#[verifier::when_used_as_spec(elem_and_index_spec)]
pub fn elem_and_index(elem: Temp, elem_ty: &Type, idx: Temp) -> (r: List<TypedTemp>)
    ensures
        r == elem_and_index_spec(elem, elem_ty, idx),
        forall|n: nat| temp_ok(elem, n) && temp_ok(idx, n) ==> #[trigger] typed_ok(&r, n),
{
    two(TypedTemp { temp: elem, ty: elem_ty.dup() }, TypedTemp { temp: idx, ty: Type::Int32 })
}

/// How many items a list holds, at most the largest machine integer.
pub open spec fn count_spec<T>(l: &List<T>) -> usize {
    if l.len() <= usize::MAX {
        l.len() as usize
    } else {
        usize::MAX
    }
}

/// Counts the items of a list, up to the largest machine integer.
#[verifier::when_used_as_spec(count_spec)]
pub fn count<T>(l: &List<T>) -> (r: usize)
    ensures
        r == count_spec(l),
    decreases l,
{
    match l {
        List::Nil => 0,
        List::Cons(n) => {
            let rest: usize = count(&n.tail);
            if rest < usize::MAX {
                rest + 1
            } else {
                rest
            }
        },
    }
}

/// What `emit_iterable_len` does to the function under construction.
#[verifier::opaque]
pub open spec fn emit_iterable_len_spec(
    iterable: Temp,
    iterable_ty: &Type,
    b: FState,
) -> (FState, Temp) {
    if is_union_ty(iterable_ty) {
        b.call(CallTarget::Named(Text::Fixed("lin_iterable_length")), one(iterable), &Type::Int64)
    } else {
        b.call_intrinsic(Intrinsic::Length, one(iterable), &Type::Int64)
    }
}

/// Emits the length of a collection.
pub fn emit_iterable_len(iterable: Temp, iterable_ty: &Type, b: &mut FuncBuilder) -> (r: Temp)
    ensures
        (final(b)@, r) == emit_iterable_len_spec(iterable, iterable_ty, old(b)@),
        grown(old(b)@, final(b)@, 0),
        old(b)@.wf() && temp_ok(iterable, old(b)@.temp_types.len())
            ==> final(b)@.wf() && temp_ok(r, final(b)@.temp_types.len()),
{
    reveal(emit_iterable_len_spec);
    if is_union_ty(iterable_ty) {
        b.call(CallTarget::Named(Text::Fixed("lin_iterable_length")), one(iterable), &Type::Int64)
    } else {
        b.call_intrinsic(Intrinsic::Length, one(iterable), &Type::Int64)
    }
}

/// What `as_bool` does to the function under construction.
#[verifier::opaque]
pub open spec fn as_bool_spec(t: Temp, ty: &Type, b: FState) -> (FState, Temp) {
    if matches!(ty, Type::Bool) {
        (b, t)
    } else {
        b.coerce(t, ty, &Type::Bool)
    }
}

/// Converts a value to a truth value, where it is none.
pub fn as_bool(t: Temp, ty: &Type, b: &mut FuncBuilder) -> (r: Temp)
    ensures
        (final(b)@, r) == as_bool_spec(t, ty, old(b)@),
        grown(old(b)@, final(b)@, 0),
        old(b)@.wf() && temp_ok(t, old(b)@.temp_types.len())
            ==> final(b)@.wf() && temp_ok(r, final(b)@.temp_types.len()),
{
    reveal(as_bool_spec);
    if matches!(ty, Type::Bool) {
        t
    } else {
        b.coerce(t, ty, &Type::Bool)
    }
}

/// What `emit_min_i64` does to the function under construction.
#[verifier::opaque]
pub open spec fn emit_min_i64_spec(x: Temp, y: Temp, b: FState) -> (FState, Temp) {
    let (b, cond) = b.binary(BinOp::Lt, x, y, &Type::Int64, &Type::Bool);
    let (b, then_b) = b.alloc_block("min_a");
    let (b, else_b) = b.alloc_block("min_b");
    let (b, mrg) = b.alloc_block("min_mrg");
    let b = b.terminate(Terminator::CondJump { cond, then_block: then_b, else_block: else_b });
    let b = b.switch_to(then_b);
    let b = b.terminate(Terminator::Jump(mrg));
    let b = b.switch_to(else_b);
    let b = b.terminate(Terminator::Jump(mrg));
    let b = b.switch_to(mrg);
    let (b, out) = b.alloc_temp(Type::Int64);
    let b = b.emit(
        Instruction::Phi {
            dst: out,
            ty: Type::Int64,
            incomings: two(Incoming { val: x, pred: then_b }, Incoming { val: y, pred: else_b }),
        },
    );
    (b, out)
}

/// Emits the smaller of two integers.
pub fn emit_min_i64(x: Temp, y: Temp, b: &mut FuncBuilder) -> (r: Temp)
    ensures
        (final(b)@, r) == emit_min_i64_spec(x, y, old(b)@),
        grown(old(b)@, final(b)@, 0),
        old(b)@.wf() && temp_ok(x, old(b)@.temp_types.len()) && temp_ok(y, old(b)@.temp_types.len())
            ==> final(b)@.wf() && temp_ok(r, final(b)@.temp_types.len()),
{
    reveal(emit_min_i64_spec);
    let cond = b.binary(BinOp::Lt, x, y, &Type::Int64, &Type::Bool);
    let then_b = b.alloc_block("min_a");
    let else_b = b.alloc_block("min_b");
    let mrg = b.alloc_block("min_mrg");
    b.terminate(Terminator::CondJump { cond, then_block: then_b, else_block: else_b });
    b.switch_to(then_b);
    b.terminate(Terminator::Jump(mrg));
    b.switch_to(else_b);
    b.terminate(Terminator::Jump(mrg));
    b.switch_to(mrg);
    let out = b.alloc_temp(Type::Int64);
    b.emit(
        Instruction::Phi {
            dst: out,
            ty: Type::Int64,
            incomings: two(Incoming { val: x, pred: then_b }, Incoming { val: y, pred: else_b }),
        },
    );
    out
}

/// How a loop reads its elements.
pub enum ElemAccess {
    /// By an instruction, in the type.
    Materialize(Type),
    /// In place: the body gets the array itself.
    Packed,
}

/// How control leaves the body of a loop.
pub enum LoopFlow {
    Fallthrough,
    /// The loop goes on only where the value is true.
    ContinueIf(Temp),
}

/// A loop whose body is being emitted.
pub struct LoopFrame {
    pub header: BlockId,
    pub latch: BlockId,
    pub exit: BlockId,
    /// The counter, and its value in the next round.
    pub i: Temp,
    pub i_next: Temp,
    /// The element, or the array where the element is read in place.
    pub elem: Temp,
}

/// The blocks of the loop exist.
pub open spec fn frame_ok(frame: LoopFrame, b: FState) -> bool {
    frame.header.0 < b.blocks.len() && frame.latch.0 < b.blocks.len() && frame.exit.0
        < b.blocks.len()
}

/// The next value of the counter is not defined yet.
pub open spec fn frame_open(frame: &LoopFrame, b: FState) -> bool {
    undefined(b, frame.i_next)
}

/// What `begin_combinator_loop` does to the function under construction.
#[verifier::opaque]
pub open spec fn begin_combinator_loop_spec(
    iterable: Temp,
    iterable_ty: &Type,
    access: ElemAccess,
    b: FState,
) -> (FState, LoopFrame) {
    let (b, len) = emit_iterable_len_spec(iterable, iterable_ty, b);
    let (b, zero) = b.const_temp(Const::Int(0, Type::Int64));
    let preheader = b.env.current_block;
    let (b, header) = b.alloc_block("for_header");
    let (b, body) = b.alloc_block("for_body");
    let (b, latch) = b.alloc_block("for_latch");
    let (b, exit) = b.alloc_block("for_exit");
    let (b, i) = b.alloc_temp(Type::Int64);
    let (b, i_next) = b.alloc_temp(Type::Int64);
    let b = b.terminate(Terminator::Jump(header));
    let b = b.switch_to(header);
    let b = b.emit(
        Instruction::Phi {
            dst: i,
            ty: Type::Int64,
            incomings: two(
                Incoming { val: zero, pred: preheader },
                Incoming { val: i_next, pred: latch },
            ),
        },
    );
    let (b, cond) = b.binary(BinOp::Lt, i, len, &Type::Int64, &Type::Bool);
    let b = b.terminate(Terminator::CondJump { cond, then_block: body, else_block: exit });
    let b = b.switch_to(body);
    let (b, elem) = match &access {
        ElemAccess::Materialize(elem_ty) => {
            b.index(iterable, i, iterable_ty, &Type::Int64, elem_ty, false)
        },
        ElemAccess::Packed => (b, iterable),
    };
    (b, LoopFrame { header, latch, exit, i, i_next, elem })
}

/// Starts a loop over a collection and goes to its body.
pub fn begin_combinator_loop(
    iterable: Temp,
    iterable_ty: &Type,
    access: ElemAccess,
    b: &mut FuncBuilder,
) -> (r: LoopFrame)
    ensures
        (final(b)@, r) == begin_combinator_loop_spec(iterable, iterable_ty, access, old(b)@),
        grown(old(b)@, final(b)@, 0),
        old(b)@.wf() && temp_ok(iterable, old(b)@.temp_types.len())
            ==> final(b)@.wf()
                && loop_frame_ok(&r, final(b)@.temp_types.len())
                && frame_open(&r, final(b)@),
        old(b)@.blocks.len() > 0 ==> frame_ok(r, final(b)@),
        newer(old(b)@, final(b)@, r.i_next),
{
    reveal(begin_combinator_loop_spec);
    let len = emit_iterable_len(iterable, iterable_ty, b);
    let zero = b.const_temp(Const::Int(0, Type::Int64));
    let preheader = b.env.current_block;
    let header = b.alloc_block("for_header");
    let body = b.alloc_block("for_body");
    let latch = b.alloc_block("for_latch");
    let exit = b.alloc_block("for_exit");
    let i = b.alloc_temp(Type::Int64);
    let i_next = b.alloc_temp(Type::Int64);
    b.terminate(Terminator::Jump(header));
    b.switch_to(header);
    b.emit(
        Instruction::Phi {
            dst: i,
            ty: Type::Int64,
            incomings: two(
                Incoming { val: zero, pred: preheader },
                Incoming { val: i_next, pred: latch },
            ),
        },
    );
    let cond = b.binary(BinOp::Lt, i, len, &Type::Int64, &Type::Bool);
    b.terminate(Terminator::CondJump { cond, then_block: body, else_block: exit });
    b.switch_to(body);
    let elem = match &access {
        ElemAccess::Materialize(elem_ty) => {
            b.index(iterable, i, iterable_ty, &Type::Int64, elem_ty, false)
        },
        ElemAccess::Packed => iterable,
    };
    LoopFrame { header, latch, exit, i, i_next, elem }
}

/// What `end_combinator_loop` does to the function under construction.
#[verifier::opaque]
pub open spec fn end_combinator_loop_spec(frame: &LoopFrame, flow: LoopFlow, b: FState) -> FState {
    let b = match flow {
        LoopFlow::Fallthrough => if !b.is_terminated() {
            b.terminate(Terminator::Jump(frame.latch))
        } else {
            b
        },
        LoopFlow::ContinueIf(keep) => {
            b.terminate(
                Terminator::CondJump {
                    cond: keep,
                    then_block: frame.latch,
                    else_block: frame.exit,
                },
            )
        },
    };
    let b = b.switch_to(frame.latch);
    let (b, one_c) = b.const_temp(Const::Int(1, Type::Int64));
    let b = b.emit(
        Instruction::Binary {
            dst: frame.i_next,
            op: BinOp::Add,
            lhs: frame.i,
            rhs: one_c,
            operand_ty: Type::Int64,
            ty: Type::Int64,
        },
    );
    let b = b.terminate(Terminator::Jump(frame.header));
    b.switch_to(frame.exit)
}

/// Ends a loop whose body has been emitted and goes on behind it.
pub fn end_combinator_loop(frame: &LoopFrame, flow: LoopFlow, b: &mut FuncBuilder)
    ensures
        final(b)@ == end_combinator_loop_spec(frame, flow, old(b)@),
        grew(old(b)@, final(b)@, 0),
        steady_but(old(b)@, final(b)@, set![frame.i_next]),
        old(b)@.wf()
            && loop_frame_ok(frame, old(b)@.temp_types.len())
            && flow_ok(&flow, old(b)@.temp_types.len())
            && frame_ok(*frame, old(b)@)
            && frame_open(frame, old(b)@)
            ==> final(b)@.wf(),
{
    reveal(end_combinator_loop_spec);
    match flow {
        LoopFlow::Fallthrough => if !b.is_current_block_terminated() {
            b.terminate(Terminator::Jump(frame.latch));
        },
        LoopFlow::ContinueIf(keep) => {
            b.terminate(
                Terminator::CondJump {
                    cond: keep,
                    then_block: frame.latch,
                    else_block: frame.exit,
                },
            );
        },
    }
    b.switch_to(frame.latch);
    let one_c = b.const_temp(Const::Int(1, Type::Int64));
    b.emit(
        Instruction::Binary {
            dst: frame.i_next,
            op: BinOp::Add,
            lhs: frame.i,
            rhs: one_c,
            operand_ty: Type::Int64,
            ty: Type::Int64,
        },
    );
    b.terminate(Terminator::Jump(frame.header));
    b.switch_to(frame.exit);
}

/// What `free_combinator_elem_box` does to the function under construction.
#[verifier::opaque]
pub open spec fn free_combinator_elem_box_spec(elem: Temp, elem_ty: &Type, b: FState) -> FState {
    if is_union_ty(elem_ty) {
        b.emit(Instruction::FreeBoxShell { val: elem })
    } else {
        b
    }
}

/// Frees the shell of an element that was read as a box.
pub fn free_combinator_elem_box(elem: Temp, elem_ty: &Type, b: &mut FuncBuilder)
    ensures
        final(b)@ == free_combinator_elem_box_spec(elem, elem_ty, old(b)@),
        grown(old(b)@, final(b)@, 0),
        old(b)@.wf() && temp_ok(elem, old(b)@.temp_types.len()) ==> final(b)@.wf(),
{
    reveal(free_combinator_elem_box_spec);
    if is_union_ty(elem_ty) {
        b.emit(Instruction::FreeBoxShell { val: elem });
    }
}

/// What `free_combinator_elem_box_full` does to the function under construction.
#[verifier::opaque]
pub open spec fn free_combinator_elem_box_full_spec(elem: Temp, elem_ty: &Type, b: FState) -> FState
{
    if is_union_ty(elem_ty) {
        b.emit(Instruction::Release { val: elem, ty: elem_ty.dup() })
    } else {
        b
    }
}

/// Releases an element that was read as a box.
pub fn free_combinator_elem_box_full(elem: Temp, elem_ty: &Type, b: &mut FuncBuilder)
    ensures
        final(b)@ == free_combinator_elem_box_full_spec(elem, elem_ty, old(b)@),
        grown(old(b)@, final(b)@, 0),
        old(b)@.wf() && temp_ok(elem, old(b)@.temp_types.len()) ==> final(b)@.wf(),
{
    reveal(free_combinator_elem_box_full_spec);
    if is_union_ty(elem_ty) {
        b.emit(Instruction::Release { val: elem, ty: elem_ty.dup() });
    }
}

/// What `free_combinator_sealed_elem` does to the function under construction.
#[verifier::opaque]
pub open spec fn free_combinator_sealed_elem_spec(elem: Temp, elem_ty: &Type, b: FState) -> FState {
    if is_sealed_scalar_repr(elem_ty) {
        b.emit(Instruction::Release { val: elem, ty: elem_ty.dup() })
    } else {
        b
    }
}

/// Releases an element that was read as a packed record.
pub fn free_combinator_sealed_elem(elem: Temp, elem_ty: &Type, b: &mut FuncBuilder)
    ensures
        final(b)@ == free_combinator_sealed_elem_spec(elem, elem_ty, old(b)@),
        grown(old(b)@, final(b)@, 0),
        old(b)@.wf() && temp_ok(elem, old(b)@.temp_types.len()) ==> final(b)@.wf(),
{
    reveal(free_combinator_sealed_elem_spec);
    if is_sealed_scalar_repr(elem_ty) {
        b.emit(Instruction::Release { val: elem, ty: elem_ty.dup() });
    }
}

/// What `fm_reclaim_elem` does to the function under construction.
#[verifier::opaque]
pub open spec fn fm_reclaim_elem_spec(elem: Temp, elem_ty: &Type, b: FState) -> FState {
    let b = free_combinator_elem_box_full_spec(elem, elem_ty, b);
    free_combinator_sealed_elem_spec(elem, elem_ty, b)
}

/// Releases an element that was read as a box or a packed record.
pub fn fm_reclaim_elem(elem: Temp, elem_ty: &Type, b: &mut FuncBuilder)
    ensures
        final(b)@ == fm_reclaim_elem_spec(elem, elem_ty, old(b)@),
        grown(old(b)@, final(b)@, 0),
        old(b)@.wf() && temp_ok(elem, old(b)@.temp_types.len()) ==> final(b)@.wf(),
{
    reveal(fm_reclaim_elem_spec);
    free_combinator_elem_box_full(elem, elem_ty, b);
    free_combinator_sealed_elem(elem, elem_ty, b);
}

/// The arguments of a call, and those of them that are boxes to give back.
pub struct CallArgs {
    pub args: List<Temp>,
    pub boxes: List<Temp>,
}

/// What `closure_args` does to the function under construction.
#[verifier::opaque]
pub open spec fn closure_args_spec(
    raw_args: &List<TypedTemp>,
    param_tys: &List<Type>,
    b: FState,
) -> (FState, List<Temp>)
    decreases raw_args,
{
    match raw_args {
        List::Nil => (b, List::Nil),
        List::Cons(a) => match param_tys {
            List::Nil => (b, List::Nil),
            List::Cons(p) => {
                let (b, arg) = coerce_arg_to_param_spec(a.head.temp, &a.head.ty, Some(&p.head), b);
                let (b, rest) = closure_args_spec(&a.tail, &p.tail, b);
                (b, prepend(arg, rest))
            },
        },
    }
}

/// Boxes the arguments of a closure where its parameters are boxes; as many arguments as
/// there are parameters.
pub fn closure_args(
    raw_args: &List<TypedTemp>,
    param_tys: &List<Type>,
    b: &mut FuncBuilder,
) -> (r: List<Temp>)
    ensures
        (final(b)@, r) == closure_args_spec(raw_args, param_tys, old(b)@),
        grown(old(b)@, final(b)@, 0),
        old(b)@.wf() && typed_ok(raw_args, old(b)@.temp_types.len())
            ==> final(b)@.wf() && temps_ok(&r, final(b)@.temp_types.len()),
    decreases raw_args,
{
    reveal(closure_args_spec);
    proof {
        typed_tail(raw_args, old(b)@.temp_types.len());
    }
    match raw_args {
        List::Nil => List::Nil,
        List::Cons(a) => match param_tys {
            List::Nil => List::Nil,
            List::Cons(p) => {
                let arg = coerce_arg_to_param(a.head.temp, &a.head.ty, Some(&p.head), b);
                let rest = closure_args(&a.tail, &p.tail, b);
                prepend(arg, rest)
            },
        },
    }
}

/// What `closure_args_with_boxes` does to the function under construction.
#[verifier::opaque]
pub open spec fn closure_args_with_boxes_spec(
    raw_args: &List<TypedTemp>,
    param_tys: &List<Type>,
    b: FState,
) -> (FState, CallArgs)
    decreases raw_args,
{
    match raw_args {
        List::Nil => (b, CallArgs { args: List::Nil, boxes: List::Nil }),
        List::Cons(a) => match param_tys {
            List::Nil => (b, CallArgs { args: List::Nil, boxes: List::Nil }),
            List::Cons(p) => {
                let (b, arg) = coerce_arg_to_param_spec(a.head.temp, &a.head.ty, Some(&p.head), b);
                let (b, rest) = closure_args_with_boxes_spec(&a.tail, &p.tail, b);
                let boxes = if is_union_ty(&p.head) || is_union_ty(&a.head.ty) {
                    prepend(arg, rest.boxes)
                } else {
                    rest.boxes
                };
                (b, CallArgs { args: prepend(arg, rest.args), boxes })
            },
        },
    }
}

/// As `closure_args`, with the arguments that are boxes.
pub fn closure_args_with_boxes(
    raw_args: &List<TypedTemp>,
    param_tys: &List<Type>,
    b: &mut FuncBuilder,
) -> (r: CallArgs)
    ensures
        (final(b)@, r) == closure_args_with_boxes_spec(raw_args, param_tys, old(b)@),
        grown(old(b)@, final(b)@, 0),
        old(b)@.wf() && typed_ok(raw_args, old(b)@.temp_types.len())
            ==> final(b)@.wf() && call_args_ok(&r, final(b)@.temp_types.len()),
    decreases raw_args,
{
    reveal(closure_args_with_boxes_spec);
    proof {
        typed_tail(raw_args, old(b)@.temp_types.len());
    }
    match raw_args {
        List::Nil => CallArgs { args: List::Nil, boxes: List::Nil },
        List::Cons(a) => match param_tys {
            List::Nil => CallArgs { args: List::Nil, boxes: List::Nil },
            List::Cons(p) => {
                let arg = coerce_arg_to_param(a.head.temp, &a.head.ty, Some(&p.head), b);
                let rest = closure_args_with_boxes(&a.tail, &p.tail, b);
                let boxes = if is_union_ty(&p.head) || is_union_ty(&a.head.ty) {
                    prepend(arg, rest.boxes)
                } else {
                    rest.boxes
                };
                CallArgs { args: prepend(arg, rest.args), boxes }
            },
        },
    }
}

/// What `call_body_closure` does to the function under construction.
#[verifier::opaque]
pub open spec fn call_body_closure_spec(
    body: Temp,
    raw_args: &List<TypedTemp>,
    param_tys: &List<Type>,
    ret_ty: &Type,
    b: FState,
) -> (FState, Temp) {
    let (b, call_args) = closure_args_spec(raw_args, param_tys, b);
    b.call(CallTarget::Indirect(body), call_args, ret_ty)
}

/// Calls a closure with as many arguments as it has parameters.
pub fn call_body_closure(
    body: Temp,
    raw_args: &List<TypedTemp>,
    param_tys: &List<Type>,
    ret_ty: &Type,
    b: &mut FuncBuilder,
) -> (r: Temp)
    ensures
        (final(b)@, r) == call_body_closure_spec(body, raw_args, param_tys, ret_ty, old(b)@),
        grown(old(b)@, final(b)@, 0),
        old(b)@.wf()
            && temp_ok(body, old(b)@.temp_types.len())
            && typed_ok(raw_args, old(b)@.temp_types.len())
            ==> final(b)@.wf() && temp_ok(r, final(b)@.temp_types.len()),
{
    reveal(call_body_closure_spec);
    let call_args = closure_args(raw_args, param_tys, b);
    b.call(CallTarget::Indirect(body), call_args, ret_ty)
}

/// The result of a call, and the arguments that are boxes to give back.
pub struct BoxedCall {
    pub dst: Temp,
    pub boxes: List<Temp>,
}

/// What `call_body_closure_with_elem_boxes` does to the function under construction.
#[verifier::opaque]
pub open spec fn call_body_closure_with_elem_boxes_spec(
    body: Temp,
    raw_args: &List<TypedTemp>,
    param_tys: &List<Type>,
    ret_ty: &Type,
    b: FState,
) -> (FState, BoxedCall) {
    let (b, call_args) = closure_args_with_boxes_spec(raw_args, param_tys, b);
    let (b, dst) = b.call(CallTarget::Indirect(body), call_args.args, ret_ty);
    (b, BoxedCall { dst, boxes: call_args.boxes })
}

/// Calls a closure with as many arguments as it has parameters, and tells which of them are
/// boxes.
pub fn call_body_closure_with_elem_boxes(
    body: Temp,
    raw_args: &List<TypedTemp>,
    param_tys: &List<Type>,
    ret_ty: &Type,
    b: &mut FuncBuilder,
) -> (r: BoxedCall)
    ensures
        (final(b)@, r) == call_body_closure_with_elem_boxes_spec(
            body,
            raw_args,
            param_tys,
            ret_ty,
            old(b)@,
        ),
        grown(old(b)@, final(b)@, 0),
        old(b)@.wf()
            && temp_ok(body, old(b)@.temp_types.len())
            && typed_ok(raw_args, old(b)@.temp_types.len())
            ==> final(b)@.wf() && boxed_call_ok(&r, final(b)@.temp_types.len()),
{
    reveal(call_body_closure_with_elem_boxes_spec);
    let call_args = closure_args_with_boxes(raw_args, param_tys, b);
    let dst = b.call(CallTarget::Indirect(body), call_args.args, ret_ty);
    BoxedCall { dst, boxes: call_args.boxes }
}

/// What `direct_args` does to the function under construction.
#[verifier::opaque]
pub open spec fn direct_args_spec(
    raw_args: &List<TypedTemp>,
    param_tys: &List<Type>,
    b: FState,
) -> (FState, CallArgs)
    decreases raw_args,
{
    match raw_args {
        List::Nil => (b, CallArgs { args: List::Nil, boxes: List::Nil }),
        List::Cons(a) => match param_tys {
            List::Nil => (b, CallArgs { args: List::Nil, boxes: List::Nil }),
            List::Cons(p) => {
                let (b, arg) = lower_coerce_arg_spec(a.head.temp, &a.head.ty, Some(&p.head), b);
                let (b, rest) = direct_args_spec(&a.tail, &p.tail, b);
                let boxes = if is_union_ty(&p.head)
                    && !is_union_ty(&a.head.ty)
                    && !is_rc_type(&a.head.ty) {
                    prepend(arg, rest.boxes)
                } else {
                    rest.boxes
                };
                (b, CallArgs { args: prepend(arg, rest.args), boxes })
            },
        },
    }
}

/// Converts the arguments of a function that is called directly; as many as it has
/// parameters. The boxes are those made for scalars.
pub fn direct_args(
    raw_args: &List<TypedTemp>,
    param_tys: &List<Type>,
    b: &mut FuncBuilder,
) -> (r: CallArgs)
    ensures
        (final(b)@, r) == direct_args_spec(raw_args, param_tys, old(b)@),
        grown(old(b)@, final(b)@, 0),
        old(b)@.wf() && typed_ok(raw_args, old(b)@.temp_types.len())
            ==> final(b)@.wf() && call_args_ok(&r, final(b)@.temp_types.len()),
    decreases raw_args,
{
    reveal(direct_args_spec);
    proof {
        typed_tail(raw_args, old(b)@.temp_types.len());
    }
    match raw_args {
        List::Nil => CallArgs { args: List::Nil, boxes: List::Nil },
        List::Cons(a) => match param_tys {
            List::Nil => CallArgs { args: List::Nil, boxes: List::Nil },
            List::Cons(p) => {
                let arg = lower_coerce_arg(a.head.temp, &a.head.ty, Some(&p.head), b);
                let rest = direct_args(&a.tail, &p.tail, b);
                let boxes = if is_union_ty(&p.head)
                    && !is_union_ty(&a.head.ty)
                    && !is_rc_type(&a.head.ty) {
                    prepend(arg, rest.boxes)
                } else {
                    rest.boxes
                };
                CallArgs { args: prepend(arg, rest.args), boxes }
            },
        },
    }
}

/// The same target.
pub open spec fn dup_target_spec(target: &CallTarget) -> CallTarget {
    match target {
        CallTarget::Direct(f) => CallTarget::Direct(*f),
        CallTarget::Named(n) => CallTarget::Named(n.dup()),
        CallTarget::Indirect(t) => CallTarget::Indirect(*t),
    }
}

/// What a call calls, once more.
#[verifier::when_used_as_spec(dup_target_spec)]
pub fn dup_target(target: &CallTarget) -> (r: CallTarget)
    ensures
        r == dup_target_spec(target),
        forall|n: nat| callee_ok(target, n) ==> #[trigger] callee_ok(&r, n),
{
    match target {
        CallTarget::Direct(f) => CallTarget::Direct(*f),
        CallTarget::Named(n) => CallTarget::Named(n.dup()),
        CallTarget::Indirect(t) => CallTarget::Indirect(*t),
    }
}

/// What `call_body_direct` does to the function under construction.
#[verifier::opaque]
pub open spec fn call_body_direct_spec(
    f: &FnTarget,
    raw_args: &List<TypedTemp>,
    ret_ty: &Type,
    b: FState,
) -> (FState, Temp) {
    let (b, call_args) = direct_args_spec(raw_args, &f.params, b);
    let (b, dst) = b.call(dup_target(&f.target), call_args.args, ret_ty);
    let b = free_arg_box_shells_spec(&call_args.boxes, dst, b);
    (b, dst)
}

/// Calls a function directly with as many arguments as it has parameters, and frees the
/// boxes made for scalars.
pub fn call_body_direct(
    f: &FnTarget,
    raw_args: &List<TypedTemp>,
    ret_ty: &Type,
    b: &mut FuncBuilder,
) -> (r: Temp)
    ensures
        (final(b)@, r) == call_body_direct_spec(f, raw_args, ret_ty, old(b)@),
        grown(old(b)@, final(b)@, 0),
        old(b)@.wf()
            && fn_target_ok(f, old(b)@.temp_types.len())
            && typed_ok(raw_args, old(b)@.temp_types.len())
            ==> final(b)@.wf() && temp_ok(r, final(b)@.temp_types.len()),
{
    reveal(call_body_direct_spec);
    let call_args = direct_args(raw_args, &f.params, b);
    let dst = b.call(dup_target(&f.target), call_args.args, ret_ty);
    free_arg_box_shells(&call_args.boxes, dst, b);
    dst
}

/// What `free_new_cells` does to the function under construction.
#[verifier::opaque]
pub open spec fn free_new_cells_spec(
    cells: &List<Cell>,
    stop: usize,
    block: BlockId,
    keep: &List<Temp>,
    b: FState,
) -> FState
    decreases cells,
{
    match cells {
        List::Nil => b,
        List::Cons(n) => if count(cells) > stop {
            let b = free_new_cells_spec(&n.tail, stop, block, keep, b);
            if n.head.block == block
                && !has_temp(&b.env.escaping_cells, n.head.temp)
                && !has_temp(keep, n.head.temp) {
                b.emit(Instruction::FreeCell { cell: n.head.temp, ty: n.head.ty.dup() })
            } else {
                b
            }
        } else {
            b
        },
    }
}

/// Frees the heap cells that were made in `block` after the first `stop` ones, apart from
/// those that escape and those that are kept.
pub fn free_new_cells(
    cells: &List<Cell>,
    stop: usize,
    block: BlockId,
    keep: &List<Temp>,
    b: &mut FuncBuilder,
)
    ensures
        final(b)@ == free_new_cells_spec(cells, stop, block, keep, old(b)@),
        grown(old(b)@, final(b)@, 0),
        old(b)@.wf() && cells_ok(cells, old(b)@.temp_types.len()) ==> final(b)@.wf(),
    decreases cells,
{
    reveal(free_new_cells_spec);
    proof {
        cells_tail(cells, old(b)@.temp_types.len());
        temps_tail(keep, old(b)@.temp_types.len());
    }
    match cells {
        List::Nil => {},
        List::Cons(n) => if count(cells) > stop {
            free_new_cells(&n.tail, stop, block, keep, b);
            if n.head.block == block
                && !has_temp(&b.env.escaping_cells, n.head.temp)
                && !has_temp(keep, n.head.temp) {
                b.emit(Instruction::FreeCell { cell: n.head.temp, ty: n.head.ty.dup() });
            }
        },
    }
}

/// An argument is a scalar and its parameter a box.
pub open spec fn boxes_scalar_spec(arg_ty: &Type, param_ty: &Type) -> bool {
    (arg_ty.is_flat_scalar() || matches!(arg_ty, Type::Bool)) && is_union_ty(param_ty)
}

/// Whether an argument is a scalar and its parameter a box.
#[verifier::when_used_as_spec(boxes_scalar_spec)]
pub fn boxes_scalar(arg_ty: &Type, param_ty: &Type) -> (r: bool)
    ensures
        r == boxes_scalar_spec(arg_ty, param_ty),
{
    (arg_ty.is_flat_scalar() || matches!(arg_ty, Type::Bool)) && is_union_ty(param_ty)
}

/// What `bind_lambda_args` does to the function under construction.
#[verifier::opaque]
pub open spec fn bind_lambda_args_spec(
    params: &List<TypedParam>,
    args: &List<TypedTemp>,
    b: FState,
) -> (FState, List<Temp>)
    decreases params,
{
    match params {
        List::Nil => (b, List::Nil),
        List::Cons(p) => match args {
            List::Nil => (b, List::Nil),
            List::Cons(a) => {
                let (b, bound) = coerce_arg_to_param_repr_spec(
                    a.head.temp,
                    &a.head.ty,
                    &p.head.ty,
                    b,
                );
                let b = b.set_slot(p.head.slot, bound);
                let (b, rest) = bind_lambda_args_spec(&p.tail, &a.tail, b);
                (b, if bound != a.head.temp && boxes_scalar(&a.head.ty, &p.head.ty) {
                    prepend(bound, rest)
                } else {
                    rest
                })
            },
        },
    }
}

/// Binds the parameters of an inlined function to its arguments. Returns the boxes that were
/// made for scalars.
pub fn bind_lambda_args(
    params: &List<TypedParam>,
    args: &List<TypedTemp>,
    b: &mut FuncBuilder,
) -> (r: List<Temp>)
    ensures
        (final(b)@, r) == bind_lambda_args_spec(params, args, old(b)@),
        grown(old(b)@, final(b)@, 0),
        old(b)@.wf() && typed_ok(args, old(b)@.temp_types.len())
            ==> final(b)@.wf() && temps_ok(&r, final(b)@.temp_types.len()),
    decreases params,
{
    reveal(bind_lambda_args_spec);
    proof {
        typed_tail(args, old(b)@.temp_types.len());
    }
    match params {
        List::Nil => List::Nil,
        List::Cons(p) => match args {
            List::Nil => List::Nil,
            List::Cons(a) => {
                let bound = coerce_arg_to_param_repr(a.head.temp, &a.head.ty, &p.head.ty, b);
                b.set_slot(p.head.slot, bound);
                let rest = bind_lambda_args(&p.tail, &a.tail, b);
                if bound != a.head.temp && boxes_scalar(&a.head.ty, &p.head.ty) {
                    prepend(bound, rest)
                } else {
                    rest
                }
            },
        },
    }
}

/// The value of an inlined function, its type, and the boxes made for its arguments.
pub struct Inlined {
    pub val: Temp,
    pub ty: Type,
    pub boxes: List<Temp>,
}

/// What `inline_lambda_body_tracking_elem_boxes` does to the state, where `l` lowers the
/// expressions inside.
#[verifier::opaque]
pub open spec fn inline_lambda_body_tracking_elem_boxes_spec(
    l: Lower,
    lam: &Lambda,
    args: &List<TypedTemp>,
    s: St,
) -> (St, Inlined) {
    let s = on_b(s, s.b.push_scope());
    let cells_before: usize = count(&s.b.env.created_cells);
    let body_start_block = s.b.env.current_block;
    let (s, boxes) = on(s, bind_lambda_args_spec(&lam.params, args, s.b));
    let s = on_b(s, s.b.scan_body(&lam.body));
    let (s, raw) = low(l, &lam.body, s);
    let body_ty = s.b.temp_ty_or(raw, lam.body.ty());
    let s = if !s.b.is_terminated() {
        let cells = s.b.env.created_cells.dup();
        on_b(s, free_new_cells_spec(&cells, cells_before, body_start_block, &one(raw), s.b))
    } else {
        s
    };
    let s = on_b(s, s.b.pop_scope_releasing_keep(&prepend(raw, boxes.dup())));
    (s, Inlined { val: raw, ty: body_ty, boxes })
}

/// Lowers the body of a function in place, its parameters bound to the arguments. What the
/// body makes and its value does not need is given back; the boxes made for scalar arguments
/// are left to the caller.
pub fn inline_lambda_body_tracking_elem_boxes(
    lam: &Lambda,
    args: &List<TypedTemp>,
    b: &mut FuncBuilder,
    ctx: &mut LowerCtx,
) -> (r: Inlined)
    ensures
        (st(final(b), final(ctx)), r) == inline_lambda_body_tracking_elem_boxes_spec(
            lower_at(old(ctx).room.left()),
            lam,
            args,
            st(old(b), old(ctx)),
        ),
        ran(*old(b), *old(ctx), *final(b), *final(ctx)),
        valid(st(old(b), old(ctx))) && typed_ok(args, old(b)@.temp_types.len())
            ==> valid(st(final(b), final(ctx))) && inlined_ok(&r, final(b)@.temp_types.len()),
    decreases old(ctx).room.left(), 1nat, 0nat,
{
    reveal(inline_lambda_body_tracking_elem_boxes_spec);
    b.push_scope();
    let cells_before: usize = count(&b.env.created_cells);
    let body_start_block = b.env.current_block;
    let boxes = bind_lambda_args(&lam.params, args, b);
    b.scan_body(&lam.body);
    let raw = lower_expr(&lam.body, b, ctx);
    let body_ty = b.temp_ty_or(raw, lam.body.ty());
    if !b.is_current_block_terminated() {
        let cells = b.env.created_cells.dup();
        free_new_cells(&cells, cells_before, body_start_block, &one(raw), b);
    }
    b.pop_scope_releasing_keep(&prepend(raw, boxes.dup()));
    Inlined { val: raw, ty: body_ty, boxes }
}

/// What `inline_lambda_body` does to the state, where `l` lowers the expressions inside.
#[verifier::opaque]
pub open spec fn inline_lambda_body_spec(
    l: Lower,
    lam: &Lambda,
    args: &List<TypedTemp>,
    s: St,
) -> (St, TypedTemp) {
    let (s, r) = inline_lambda_body_tracking_elem_boxes_spec(l, lam, args, s);
    let s = on_b(s, free_arg_box_shells_spec(&r.boxes, r.val, s.b));
    (s, TypedTemp { temp: r.val, ty: r.ty })
}

/// Lowers the body of a function in place and frees the boxes made for scalar arguments.
pub fn inline_lambda_body(
    lam: &Lambda,
    args: &List<TypedTemp>,
    b: &mut FuncBuilder,
    ctx: &mut LowerCtx,
) -> (r: TypedTemp)
    ensures
        (st(final(b), final(ctx)), r) == inline_lambda_body_spec(
            lower_at(old(ctx).room.left()),
            lam,
            args,
            st(old(b), old(ctx)),
        ),
        ran(*old(b), *old(ctx), *final(b), *final(ctx)),
        valid(st(old(b), old(ctx))) && typed_ok(args, old(b)@.temp_types.len())
            ==> valid(st(final(b), final(ctx))) && typed_temp_ok(&r, final(b)@.temp_types.len()),
    decreases old(ctx).room.left(), 2nat, 0nat,
{
    reveal(inline_lambda_body_spec);
    let r = inline_lambda_body_tracking_elem_boxes(lam, args, b, ctx);
    free_arg_box_shells(&r.boxes, r.val, b);
    TypedTemp { temp: r.val, ty: r.ty }
}

/// What `inline_lambda_body_packed_view` does to the state, where `l` lowers the expressions
/// inside.
#[verifier::opaque]
pub open spec fn inline_lambda_body_packed_view_spec(
    l: Lower,
    lam: &Lambda,
    array: Temp,
    index: Temp,
    elem_ty: &Type,
    idx: Temp,
    s: St,
) -> (St, TypedTemp) {
    let s = on_b(s, s.b.push_scope());
    let s = match &lam.params {
        List::Nil => s,
        List::Cons(p) => {
            let s = on_c(
                s,
                s.c.add_packed(
                    p.head.slot,
                    crate::ctx::PackedElem { array, index, elem_ty: elem_ty.dup() },
                ),
            );
            match &p.tail {
                List::Nil => s,
                List::Cons(q) => {
                    let (s, bound) = on(
                        s,
                        coerce_arg_to_param_repr_spec(idx, &Type::Int32, &q.head.ty, s.b),
                    );
                    on_b(s, s.b.set_slot(q.head.slot, bound))
                },
            }
        },
    };
    let s = on_b(s, s.b.scan_body(&lam.body));
    let (s, raw) = low(l, &lam.body, s);
    let body_ty = s.b.temp_ty_or(raw, lam.body.ty());
    let s = on_b(s, s.b.pop_scope_releasing_keep(&one(raw)));
    let s = match &lam.params {
        List::Nil => s,
        List::Cons(p) => on_c(s, s.c.drop_packed(p.head.slot)),
    };
    (s, TypedTemp { temp: raw, ty: body_ty })
}

/// Lowers the body of a function in place, its first parameter standing for an element of a
/// packed array that is read where it lies, the second for the index.
pub fn inline_lambda_body_packed_view(
    lam: &Lambda,
    array: Temp,
    index: Temp,
    elem_ty: &Type,
    idx: Temp,
    b: &mut FuncBuilder,
    ctx: &mut LowerCtx,
) -> (r: TypedTemp)
    ensures
        (st(final(b), final(ctx)), r) == inline_lambda_body_packed_view_spec(
            lower_at(old(ctx).room.left()),
            lam,
            array,
            index,
            elem_ty,
            idx,
            st(old(b), old(ctx)),
        ),
        ran(*old(b), *old(ctx), *final(b), *final(ctx)),
        valid(st(old(b), old(ctx)))
            && temp_ok(array, old(b)@.temp_types.len())
            && temp_ok(index, old(b)@.temp_types.len())
            && temp_ok(idx, old(b)@.temp_types.len())
            ==> valid(st(final(b), final(ctx))) && typed_temp_ok(&r, final(b)@.temp_types.len()),
    decreases old(ctx).room.left(), 1nat, 0nat,
{
    reveal(inline_lambda_body_packed_view_spec);
    b.push_scope();
    match &lam.params {
        List::Nil => {},
        List::Cons(p) => {
            ctx.add_packed(
                p.head.slot,
                crate::ctx::PackedElem { array, index, elem_ty: elem_ty.dup() },
            );
            match &p.tail {
                List::Nil => {},
                List::Cons(q) => {
                    let bound = coerce_arg_to_param_repr(idx, &Type::Int32, &q.head.ty, b);
                    b.set_slot(q.head.slot, bound);
                },
            }
        },
    }
    b.scan_body(&lam.body);
    let raw = lower_expr(&lam.body, b, ctx);
    let body_ty = b.temp_ty_or(raw, lam.body.ty());
    b.pop_scope_releasing_keep(&one(raw));
    match &lam.params {
        List::Nil => {},
        List::Cons(p) => {
            ctx.drop_packed(p.head.slot);
        },
    }
    TypedTemp { temp: raw, ty: body_ty }
}

/// What `lower_callback_in_safe_ctx` does to the state, where `l` lowers the expressions inside.
#[verifier::opaque]
pub open spec fn lower_callback_in_safe_ctx_spec(l: Lower, expr: &TypedExpr, s: St) -> (St, Temp) {
    let (s, before) = on_ctx(s, s.c.enter_safe());
    let (s, t) = low(l, expr, s);
    let s = on_c(s, s.c.leave_safe(before));
    (s, t)
}

/// Lowers a callback that does not escape the combinator it is given to.
pub fn lower_callback_in_safe_ctx(
    expr: &TypedExpr,
    b: &mut FuncBuilder,
    ctx: &mut LowerCtx,
) -> (r: Temp)
    ensures
        (st(final(b), final(ctx)), r) == lower_callback_in_safe_ctx_spec(
            lower_at(old(ctx).room.left()),
            expr,
            st(old(b), old(ctx)),
        ),
        ran(*old(b), *old(ctx), *final(b), *final(ctx)),
        valid(st(old(b), old(ctx)))
            ==> valid(st(final(b), final(ctx))) && temp_ok(r, final(b)@.temp_types.len()),
    decreases old(ctx).room.left(), 1nat, 0nat,
{
    reveal(lower_callback_in_safe_ctx_spec);
    let before = ctx.enter_safe();
    let t = lower_expr(expr, b, ctx);
    ctx.leave_safe(before);
    t
}

/// What `lower_exprs` does to the state, where `l` lowers the expressions inside.
#[verifier::opaque]
pub open spec fn lower_exprs_spec(l: Lower, args: &List<TypedExpr>, s: St) -> (St, List<Temp>)
    decreases args,
{
    match args {
        List::Nil => (s, List::Nil),
        List::Cons(n) => {
            let (s, t) = low(l, &n.head, s);
            let (s, rest) = lower_exprs_spec(l, &n.tail, s);
            (s, prepend(t, rest))
        },
    }
}

/// Lowers the expressions in order.
pub fn lower_exprs(
    args: &List<TypedExpr>,
    b: &mut FuncBuilder,
    ctx: &mut LowerCtx,
) -> (r: List<Temp>)
    ensures
        (st(final(b), final(ctx)), r) == lower_exprs_spec(
            lower_at(old(ctx).room.left()),
            args,
            st(old(b), old(ctx)),
        ),
        ran(*old(b), *old(ctx), *final(b), *final(ctx)),
        valid(st(old(b), old(ctx)))
            ==> valid(st(final(b), final(ctx))) && temps_ok(&r, final(b)@.temp_types.len()),
    decreases old(ctx).room.left(), 1nat, args.len(),
{
    reveal(lower_exprs_spec);
    match args {
        List::Nil => List::Nil,
        List::Cons(n) => {
            let t = lower_expr(&n.head, b, ctx);
            let rest = lower_exprs(&n.tail, b, ctx);
            prepend(t, rest)
        },
    }
}

} // verus!
