//! What emitted code does when it runs, on idealised values: numbers are unbounded, and a
//! conversion changes how a value is held, not the value.

use crate::ast::BinOp;
use crate::builder::FState;
use crate::defs::def_of;
use crate::ir::{
    BasicBlock, BlockId, CallTarget, Const, FuncId, Incoming, Instruction, Intrinsic, IrUnaryOp,
    Spanned, Temp, Terminator, const_type,
};
use crate::list::{List, one};
use crate::loops::emit_iterable_len_spec;
use crate::repr::is_union_ty;
use crate::text::Text;
use crate::types::Type;
use std::rc::Rc;
use vstd::prelude::*;

verus! {

/// A value.
pub enum Value {
    Number(int),
    Truth(bool),
    /// The elements of a collection.
    Items(Seq<Value>),
    /// The null value.
    Null,
    /// A string.
    Text(Seq<char>),
    /// An array that the code itself fills. What it holds is in `Mem::outs`.
    Made,
    /// A function with the values that it has captured, in order.
    Function(FuncId, Seq<Value>),
    /// Any other value.
    Other(int),
}

/// A call that code makes.
pub struct Call {
    pub callee: CallTarget,
    pub args: Seq<Value>,
}

/// What code changes besides temporaries.
pub struct Mem {
    /// The contents of heap cells, by the temporaries that hold the cells.
    pub cells: Map<Temp, Value>,
    /// What has been pushed to arrays, by the temporaries that hold the arrays.
    pub outs: Map<Temp, Seq<Value>>,
    /// The calls made so far.
    pub calls: Seq<Call>,
}

/// A run: where it is, the block that it came from, the values of the temporaries, and the rest.
pub struct Run {
    pub block: BlockId,
    pub at: nat,
    pub from: BlockId,
    pub vals: Map<Temp, Value>,
    pub mem: Mem,
}

/// What instructions give that are not explained here.
pub type Oracle = spec_fn(Instruction, Map<Temp, Value>, Mem) -> Value;

/// What an operator makes of two truth values; only the two that questions use count.
pub open spec fn truth_of(op: BinOp, x: bool, y: bool) -> bool {
    match op {
        BinOp::And => x && y,
        BinOp::Or => x || y,
        _ => x,
    }
}

/// What an operator makes of two values, as far as loops use it.
pub open spec fn value_of_op(op: BinOp, x: Value, y: Value) -> Value {
    match (x, y) {
        (Value::Number(x), Value::Number(y)) => match op {
            BinOp::Lt => Value::Truth(x < y),
            BinOp::LtEq => Value::Truth(x <= y),
            BinOp::Gt => Value::Truth(x > y),
            BinOp::GtEq => Value::Truth(x >= y),
            BinOp::Add => Value::Number(x + y),
            BinOp::Sub => Value::Number(x - y),
            BinOp::Mul => Value::Number(x * y),
            _ => Value::Number(x),
        },
        (Value::Truth(x), Value::Truth(y)) => Value::Truth(truth_of(op, x, y)),
        _ => x,
    }
}

/// The number of elements of a collection.
pub open spec fn length_of(v: Value) -> Value {
    match v {
        Value::Items(xs) => Value::Number(xs.len() as int),
        _ => Value::Number(0),
    }
}

/// The element of a collection at an index.
pub open spec fn element_of(v: Value, key: Value) -> Value {
    match (v, key) {
        (Value::Items(xs), Value::Number(k)) => xs[k],
        _ => v,
    }
}

/// The element at an index of a collection or of an array that the code itself fills.
pub open spec fn read_of(v: Value, filled: Seq<Value>, key: Value) -> Value {
    match (v, key) {
        (Value::Made, Value::Number(k)) => filled[k],
        _ => element_of(v, key),
    }
}

/// The texts of strings, one behind the other.
pub open spec fn joined(vs: Seq<Value>) -> Seq<char>
    decreases vs.len(),
{
    if vs.len() == 0 {
        Seq::empty()
    } else {
        (match vs[0] {
            Value::Text(t) => t,
            _ => Seq::empty(),
        }) + joined(vs.drop_first())
    }
}

/// The negation of a truth value.
pub open spec fn negated(v: Value) -> Value {
    match v {
        Value::Truth(x) => Value::Truth(!x),
        _ => v,
    }
}

/// The temporary that a phi takes its value from, where control comes from `from`.
pub open spec fn incoming_from(incomings: &List<Incoming>, from: BlockId) -> Temp
    decreases incomings,
{
    match incomings {
        List::Nil => Temp(0),
        List::Cons(n) => if n.head.pred == from {
            n.head.val
        } else {
            incoming_from(&n.tail, from)
        },
    }
}

/// The first of the temporaries.
pub open spec fn first_temp(l: &List<Temp>) -> Temp {
    match l {
        List::Nil => Temp(0),
        List::Cons(n) => n.head,
    }
}

/// The second of the temporaries.
pub open spec fn next_temp(l: &List<Temp>) -> Temp {
    match l {
        List::Nil => Temp(0),
        List::Cons(n) => first_temp(&n.tail),
    }
}

/// The values of the temporaries, in order.
pub open spec fn values_of(l: &List<Temp>, vals: Map<Temp, Value>) -> Seq<Value>
    decreases l,
{
    match l {
        List::Nil => Seq::empty(),
        List::Cons(n) => seq![vals[n.head]] + values_of(&n.tail, vals),
    }
}

/// The call asks the run-time system for the length of a collection.
pub open spec fn asks_length(callee: CallTarget) -> bool {
    callee == CallTarget::Named(Text::Fixed("lin_iterable_length"))
}

/// The value that an instruction gives its temporary.
pub open spec fn given_value(sem: Oracle, i: Instruction, r: Run) -> Value {
    match i {
        Instruction::Const { value: Const::Int(v, _), .. } => Value::Number(v as int),
        Instruction::Const { value: Const::Bool(v), .. } => Value::Truth(v),
        Instruction::Const { value: Const::Null, .. } => Value::Null,
        Instruction::Const { value: Const::Str(t), .. } => Value::Text(t@),
        Instruction::Binary { op, lhs, rhs, .. } => value_of_op(op, r.vals[lhs], r.vals[rhs]),
        Instruction::Unary { op: IrUnaryOp::Not, operand, .. } => negated(r.vals[operand]),
        Instruction::Phi { incomings, .. } => r.vals[incoming_from(&incomings, r.from)],
        Instruction::Coerce { src, .. } => r.vals[src],
        Instruction::CellGet { cell, .. } => r.mem.cells[cell],
        Instruction::CloneBox { src, .. } => r.vals[src],
        Instruction::Index { object, key, .. } => read_of(
            r.vals[object],
            r.mem.outs[object],
            r.vals[key],
        ),
        Instruction::MakeArray { elements, .. } => Value::Items(values_of(&elements, r.vals)),
        Instruction::MakeClosure { func, captures, .. } => Value::Function(
            func,
            values_of(&captures, r.vals),
        ),
        Instruction::EnvCapture { env, index, .. } => element_of(
            r.vals[env],
            Value::Number(index as int),
        ),
        Instruction::CallIntrinsic { intrinsic: Intrinsic::Length, args, .. } => length_of(
            r.vals[first_temp(&args)],
        ),
        Instruction::CallIntrinsic { intrinsic: Intrinsic::FlatArrayAlloc(_), .. } => Value::Made,
        Instruction::CallIntrinsic { intrinsic: Intrinsic::ArrayAlloc, .. } => Value::Made,
        Instruction::CallIntrinsic {
            intrinsic: Intrinsic::StringBuildN,
            args,
            ..
        } => Value::Text(joined(values_of(&args, r.vals))),
        Instruction::Call { callee, args, .. } => if asks_length(callee) {
            length_of(r.vals[first_temp(&args)])
        } else {
            sem(i, r.vals, r.mem)
        },
        _ => sem(i, r.vals, r.mem),
    }
}

/// What is pushed to an array is behind what was pushed before.
pub open spec fn pushed(mem: Mem, out: Temp, v: Value) -> Mem {
    Mem { outs: mem.outs.insert(out, mem.outs[out].push(v)), ..mem }
}

/// An element of an array that the code itself fills is replaced.
pub open spec fn replaced(mem: Mem, out: Temp, key: Value, v: Value) -> Mem {
    match key {
        Value::Number(k) => Mem { outs: mem.outs.insert(out, mem.outs[out].update(k, v)), ..mem },
        _ => mem,
    }
}

/// What an instruction changes besides its temporary.
pub open spec fn changed(i: Instruction, r: Run) -> Mem {
    match i {
        Instruction::MakeCell { dst, init, .. } => Mem {
            cells: r.mem.cells.insert(dst, r.vals[init]),
            ..r.mem
        },
        Instruction::CellSet { cell, value, .. } => Mem {
            cells: r.mem.cells.insert(cell, r.vals[value]),
            ..r.mem
        },
        Instruction::IndexSet { object, key, value, .. } => replaced(
            r.mem,
            object,
            r.vals[key],
            r.vals[value],
        ),
        Instruction::CallIntrinsic { dst, intrinsic: Intrinsic::FlatArrayAlloc(_), .. } => Mem {
            outs: r.mem.outs.insert(dst, Seq::empty()),
            ..r.mem
        },
        Instruction::CallIntrinsic { dst, intrinsic: Intrinsic::ArrayAlloc, .. } => Mem {
            outs: r.mem.outs.insert(dst, Seq::empty()),
            ..r.mem
        },
        Instruction::CallIntrinsic { intrinsic: Intrinsic::Push, args, .. } => pushed(
            r.mem,
            first_temp(&args),
            r.vals[next_temp(&args)],
        ),
        Instruction::CallIntrinsic { intrinsic: Intrinsic::FlatArrayPush(_), args, .. } => pushed(
            r.mem,
            first_temp(&args),
            r.vals[next_temp(&args)],
        ),
        Instruction::Call { callee, args, .. } => if asks_length(callee) {
            r.mem
        } else {
            Mem {
                calls: r.mem.calls.push(Call { callee, args: values_of(&args, r.vals) }),
                ..r.mem
            }
        },
        _ => r.mem,
    }
}

/// A run after an instruction.
pub open spec fn after_instr(sem: Oracle, i: Instruction, r: Run) -> Run {
    Run {
        at: r.at + 1,
        vals: match def_of(&i) {
            Some(t) => r.vals.insert(t, given_value(sem, i, r)),
            None => r.vals,
        },
        mem: changed(i, r),
        ..r
    }
}

/// A run that enters a block.
pub open spec fn entering(r: Run, block: BlockId) -> Run {
    Run { block, at: 0, from: r.block, ..r }
}

/// A run after the end of its block. It stays where the function is left.
pub open spec fn after_term(t: Terminator, r: Run) -> Run {
    match t {
        Terminator::Jump(block) => entering(r, block),
        Terminator::CondJump { cond, then_block, else_block } => entering(
            r,
            if r.vals[cond] == Value::Truth(true) {
                then_block
            } else {
                else_block
            },
        ),
        _ => r,
    }
}

/// The instructions of a block, first to last.
pub open spec fn instrs(code: &List<Rc<Spanned>>) -> Seq<Instruction>
    decreases code,
{
    match code {
        List::Nil => Seq::empty(),
        List::Cons(n) => instrs(&n.tail).push(n.head.instr),
    }
}

/// One step of a run.
pub open spec fn step(code: Seq<BasicBlock>, sem: Oracle, r: Run) -> Run {
    let block = code[r.block.0 as int];
    let is = instrs(&block.code);
    if r.at < is.len() {
        after_instr(sem, is[r.at as int], r)
    } else {
        after_term(block.term, r)
    }
}

/// A run after `n` steps.
pub open spec fn steps(code: Seq<BasicBlock>, sem: Oracle, n: nat, r: Run) -> Run
    decreases n,
{
    if n == 0 {
        r
    } else {
        steps(code, sem, (n - 1) as nat, step(code, sem, r))
    }
}

/// A run comes to a later one.
#[verifier::opaque]
pub open spec fn comes_to(code: Seq<BasicBlock>, sem: Oracle, r: Run, later: Run) -> bool {
    exists|n: nat| #[trigger] steps(code, sem, n, r) == later
}

/// Steps add up.
proof fn steps_add_up(code: Seq<BasicBlock>, sem: Oracle, m: nat, n: nat, r: Run)
    ensures
        steps(code, sem, m + n, r) == steps(code, sem, n, steps(code, sem, m, r)),
    decreases m,
{
    if m > 0 {
        steps_add_up(code, sem, (m - 1) as nat, n, step(code, sem, r));
    }
}

/// A run comes to where it is.
pub proof fn comes_to_itself(code: Seq<BasicBlock>, sem: Oracle, r: Run)
    ensures
        comes_to(code, sem, r, r),
{
    reveal(comes_to);
    assert(steps(code, sem, 0, r) == r);
}

/// A run comes to where a later one comes to.
pub proof fn comes_further(code: Seq<BasicBlock>, sem: Oracle, a: Run, b: Run, c: Run)
    requires
        comes_to(code, sem, a, b),
        comes_to(code, sem, b, c),
    ensures
        comes_to(code, sem, a, c),
{
    reveal(comes_to);
    let m = choose|m: nat| #[trigger] steps(code, sem, m, a) == b;
    let n = choose|n: nat| #[trigger] steps(code, sem, n, b) == c;
    steps_add_up(code, sem, m, n, a);
}

/// A run comes to the state after one step.
pub proof fn comes_one_step(code: Seq<BasicBlock>, sem: Oracle, r: Run)
    ensures
        comes_to(code, sem, r, step(code, sem, r)),
{
    reveal(comes_to);
    reveal_with_fuel(steps, 2);
    assert(steps(code, sem, 1, r) == step(code, sem, r));
}

// Code that stands where it was emitted.

/// The block in which code is emitted exists and has not been ended.
pub open spec fn is_open(b: FState) -> bool {
    b.env.current_block.0 < b.blocks.len() && b.blocks[b.env.current_block.0 as int].term
        is Unreachable
}

/// The instructions of the block in which code is emitted.
pub open spec fn current(b: FState) -> Seq<Instruction> {
    instrs(&b.blocks[b.env.current_block.0 as int].code)
}

/// The instructions of `b` begin with those of `a`.
pub open spec fn begins(a: Seq<Instruction>, b: Seq<Instruction>) -> bool {
    a.len() <= b.len() && forall|i: int| 0 <= i < a.len() ==> #[trigger] b[i] == a[i]
}

/// From `a` to `b` code has been added to the current block and to new blocks, and to no other;
/// it goes on in an open block. Nothing is said where blocks or temporaries have run out.
pub open spec fn stays_local(a: FState, b: FState) -> bool {
    &&& a.temp_types.len() <= b.temp_types.len()
    &&& a.blocks.len() <= b.blocks.len()
    &&& b.blocks.len() < u32::MAX && b.temp_types.len() < u32::MAX && is_open(a) ==> {
        let k = a.env.current_block.0 as int;
        &&& is_open(b)
        &&& b.env.current_block == a.env.current_block || a.blocks.len()
            <= b.env.current_block.0
        &&& begins(current(a), instrs(&b.blocks[k].code))
        &&& forall|j: int|
            0 <= j < a.blocks.len() && j != k ==> #[trigger] b.blocks[j] == a.blocks[j]
    }
}

/// The run is where code is emitted next.
pub open spec fn is_at(b: FState, r: Run) -> bool {
    r.block == b.env.current_block && r.at == current(b).len()
}

/// The temporaries of `b` have the same values in both runs.
pub open spec fn same_below(b: FState, r: Run, later: Run) -> bool {
    forall|t: Temp| t.0 < b.temp_types.len() ==> #[trigger] later.vals[t] == r.vals[t]
}

/// What stays local adds up.
pub proof fn local_adds_up(a: FState, b: FState, c: FState)
    requires
        stays_local(a, b),
        stays_local(b, c),
    ensures
        stays_local(a, c),
{
}

/// What was emitted to the current block stands there in `code`.
pub open spec fn is_here(b: FState, code: Seq<BasicBlock>) -> bool {
    let k = b.env.current_block.0 as int;
    &&& k < b.blocks.len()
    &&& k < code.len()
    &&& begins(current(b), instrs(&code[k].code))
}

/// Code goes on in the same block.
pub open spec fn goes_on(a: FState, b: FState) -> bool {
    &&& is_open(b)
    &&& stays_local(a, b)
    &&& b.blocks.len() == a.blocks.len()
    &&& b.env.current_block == a.env.current_block
    &&& forall|j: int|
        0 <= j < a.blocks.len() && j != a.env.current_block.0 ==> #[trigger] b.blocks[j]
            == a.blocks[j]
}

/// An instruction that stands where it was emitted is what the run does next.
pub proof fn emitted_runs(b: FState, i: Instruction, code: Seq<BasicBlock>, sem: Oracle, r: Run)
    requires
        is_open(b),
        is_here(b.emit(i), code),
        is_at(b, r),
    ensures
        goes_on(b, b.emit(i)),
        b.emit(i).temp_types == b.temp_types,
        b.emit(i).env == b.env,
        is_here(b, code),
        current(b.emit(i)) == current(b).push(i),
        comes_to(code, sem, r, after_instr(sem, i, r)),
        is_at(b.emit(i), after_instr(sem, i, r)),
{
    reveal(FState::emit);
    let k = b.env.current_block.0 as int;
    let next = b.emit(i);
    assert(instrs(&next.blocks[k].code) =~= current(b).push(i)) by {
        reveal_with_fuel(instrs, 2);
    }
    assert(current(next)[current(b).len() as int] == i);
    assert(instrs(&code[k].code)[current(b).len() as int] == i);
    assert forall|j: int| 0 <= j < current(b).len() implies #[trigger] instrs(&code[k].code)[j]
        == current(b)[j] by {
        assert(current(next)[j] == current(b)[j]);
    }
    comes_one_step(code, sem, r);
}

/// The run after an instruction that makes a new temporary of `b`.
pub open spec fn made(b: FState, b2: FState, i: Instruction, sem: Oracle, r: Run, r2: Run) -> bool {
    &&& goes_on(b, b2)
    &&& b2.temp_types.len() == b.temp_types.len() + 1
    &&& current(b2) == current(b).push(i)
    &&& is_at(b2, r2)
    &&& same_below(b, r, r2)
    &&& r2 == after_instr(sem, i, r)
}

/// An instruction that gives a new temporary its value runs where it stands.
pub proof fn made_runs(
    b: FState,
    ty: Type,
    i: Instruction,
    code: Seq<BasicBlock>,
    sem: Oracle,
    r: Run,
)
    requires
        is_open(b),
        b.temp_types.len() < u32::MAX,
        def_of(&i) == Some(b.alloc_temp(ty).1),
        is_here(b.alloc_temp(ty).0.emit(i), code),
        is_at(b, r),
    ensures
        made(b, b.alloc_temp(ty).0.emit(i), i, sem, r, after_instr(sem, i, r)),
        is_here(b, code),
        comes_to(code, sem, r, after_instr(sem, i, r)),
{
    reveal(FState::alloc_temp);
    emitted_runs(b.alloc_temp(ty).0, i, code, sem, r);
}

/// A constant runs where it stands.
pub proof fn constant_runs(b: FState, c: Const, code: Seq<BasicBlock>, sem: Oracle, r: Run)
    requires
        is_open(b),
        b.temp_types.len() < u32::MAX,
        is_here(b.const_temp(c).0, code),
        is_at(b, r),
    ensures
        ({
            let (b2, t) = b.const_temp(c);
            let i = Instruction::Const { dst: t, value: c };
            &&& t.0 == b.temp_types.len()
            &&& made(b, b2, i, sem, r, after_instr(sem, i, r))
            &&& is_here(b, code)
            &&& comes_to(code, sem, r, after_instr(sem, i, r))
        }),
{
    let (b2, t) = b.const_temp(c);
    let i = Instruction::Const { dst: t, value: c };
    let ty = const_type(&c);
    assert(b2.blocks == b.alloc_temp(ty).0.emit(i).blocks && b2.env.current_block == b.alloc_temp(
        ty,
    ).0.emit(i).env.current_block && t == b.alloc_temp(ty).1 && b2.temp_types == b.alloc_temp(
        ty,
    ).0.emit(i).temp_types && t.0 == b.temp_types.len()) by {
        reveal(FState::const_temp);
        reveal(FState::alloc_temp);
        reveal(FState::emit);
    }
    made_runs(b, ty, i, code, sem, r);
}

/// An operator runs where it stands.
pub proof fn operator_runs(
    b: FState,
    op: BinOp,
    lhs: Temp,
    rhs: Temp,
    operand_ty: &Type,
    ty: &Type,
    code: Seq<BasicBlock>,
    sem: Oracle,
    r: Run,
)
    requires
        is_open(b),
        b.temp_types.len() < u32::MAX,
        is_here(b.binary(op, lhs, rhs, operand_ty, ty).0, code),
        is_at(b, r),
    ensures
        ({
            let (b2, t) = b.binary(op, lhs, rhs, operand_ty, ty);
            let i = Instruction::Binary { dst: t, op, lhs, rhs, operand_ty: *operand_ty, ty: *ty };
            &&& t.0 == b.temp_types.len()
            &&& made(b, b2, i, sem, r, after_instr(sem, i, r))
            &&& is_here(b, code)
            &&& comes_to(code, sem, r, after_instr(sem, i, r))
        }),
{
    reveal(FState::binary);
    let (b2, t) = b.binary(op, lhs, rhs, operand_ty, ty);
    let i = Instruction::Binary { dst: t, op, lhs, rhs, operand_ty: *operand_ty, ty: *ty };
    assert(t.0 == b.temp_types.len()) by {
        reveal(FState::alloc_temp);
    }
    made_runs(b, *ty, i, code, sem, r);
}

/// A negation runs where it stands.
pub proof fn negation_runs(b: FState, operand: Temp, code: Seq<BasicBlock>, sem: Oracle, r: Run)
    requires
        is_open(b),
        b.temp_types.len() < u32::MAX,
        is_here(b.not(operand).0, code),
        is_at(b, r),
    ensures
        ({
            let (b2, t) = b.not(operand);
            let i = Instruction::Unary { dst: t, op: IrUnaryOp::Not, operand, ty: Type::Bool };
            &&& t.0 == b.temp_types.len()
            &&& made(b, b2, i, sem, r, after_instr(sem, i, r))
            &&& is_here(b, code)
            &&& comes_to(code, sem, r, after_instr(sem, i, r))
        }),
{
    reveal(FState::not);
    let (b2, t) = b.not(operand);
    let i = Instruction::Unary { dst: t, op: IrUnaryOp::Not, operand, ty: Type::Bool };
    assert(t.0 == b.temp_types.len()) by {
        reveal(FState::alloc_temp);
    }
    made_runs(b, Type::Bool, i, code, sem, r);
}

/// A conversion runs where it stands.
pub proof fn conversion_runs(
    b: FState,
    src: Temp,
    from: &Type,
    to: &Type,
    code: Seq<BasicBlock>,
    sem: Oracle,
    r: Run,
)
    requires
        is_open(b),
        b.temp_types.len() < u32::MAX,
        is_here(b.coerce(src, from, to).0, code),
        is_at(b, r),
    ensures
        ({
            let (b2, t) = b.coerce(src, from, to);
            let i = Instruction::Coerce { dst: t, src, from_ty: *from, to_ty: *to };
            &&& t.0 == b.temp_types.len()
            &&& made(b, b2, i, sem, r, after_instr(sem, i, r))
            &&& is_here(b, code)
            &&& comes_to(code, sem, r, after_instr(sem, i, r))
        }),
{
    reveal(FState::coerce);
    let (b2, t) = b.coerce(src, from, to);
    let i = Instruction::Coerce { dst: t, src, from_ty: *from, to_ty: *to };
    assert(t.0 == b.temp_types.len()) by {
        reveal(FState::alloc_temp);
    }
    made_runs(b, *to, i, code, sem, r);
}

/// The read of an element runs where it stands.
pub proof fn element_runs(
    b: FState,
    object: Temp,
    key: Temp,
    obj_ty: &Type,
    result_ty: &Type,
    code: Seq<BasicBlock>,
    sem: Oracle,
    r: Run,
)
    requires
        is_open(b),
        b.temp_types.len() < u32::MAX,
        is_here(b.index(object, key, obj_ty, &Type::Int64, result_ty, false).0, code),
        is_at(b, r),
    ensures
        ({
            let (b2, t) = b.index(object, key, obj_ty, &Type::Int64, result_ty, false);
            let i = Instruction::Index {
                dst: t,
                object,
                key,
                obj_ty: *obj_ty,
                key_ty: Type::Int64,
                result_ty: *result_ty,
                nonneg: false,
            };
            &&& t.0 == b.temp_types.len()
            &&& made(b, b2, i, sem, r, after_instr(sem, i, r))
            &&& is_here(b, code)
            &&& comes_to(code, sem, r, after_instr(sem, i, r))
        }),
{
    reveal(FState::index);
    let (b2, t) = b.index(object, key, obj_ty, &Type::Int64, result_ty, false);
    let i = Instruction::Index {
        dst: t,
        object,
        key,
        obj_ty: *obj_ty,
        key_ty: Type::Int64,
        result_ty: *result_ty,
        nonneg: false,
    };
    assert(t.0 == b.temp_types.len()) by {
        reveal(FState::alloc_temp);
    }
    made_runs(b, *result_ty, i, code, sem, r);
}

/// The read of a cell runs where it stands.
pub proof fn cell_read_runs(
    b: FState,
    cell: Temp,
    ty: &Type,
    code: Seq<BasicBlock>,
    sem: Oracle,
    r: Run,
)
    requires
        is_open(b),
        b.temp_types.len() < u32::MAX,
        is_here(b.cell_get(cell, ty).0, code),
        is_at(b, r),
    ensures
        ({
            let (b2, t) = b.cell_get(cell, ty);
            let i = Instruction::CellGet { dst: t, cell, ty: *ty };
            &&& t.0 == b.temp_types.len()
            &&& made(b, b2, i, sem, r, after_instr(sem, i, r))
            &&& is_here(b, code)
            &&& comes_to(code, sem, r, after_instr(sem, i, r))
        }),
{
    reveal(FState::cell_get);
    let (b2, t) = b.cell_get(cell, ty);
    let i = Instruction::CellGet { dst: t, cell, ty: *ty };
    assert(t.0 == b.temp_types.len()) by {
        reveal(FState::alloc_temp);
    }
    made_runs(b, *ty, i, code, sem, r);
}

/// The length of a collection is asked for where that stands.
pub proof fn length_runs(
    b: FState,
    iterable: Temp,
    iterable_ty: &Type,
    code: Seq<BasicBlock>,
    sem: Oracle,
    r: Run,
)
    requires
        is_open(b),
        b.temp_types.len() < u32::MAX,
        is_here(emit_iterable_len_spec(iterable, iterable_ty, b).0, code),
        is_at(b, r),
    ensures
        ({
            let (b2, t) = emit_iterable_len_spec(iterable, iterable_ty, b);
            let r2 = Run { at: r.at + 1, vals: r.vals.insert(t, length_of(r.vals[iterable])), ..r };
            &&& t.0 == b.temp_types.len()
            &&& goes_on(b, b2)
            &&& b2.temp_types.len() == b.temp_types.len() + 1
            &&& is_at(b2, r2)
            &&& is_here(b, code)
            &&& comes_to(code, sem, r, r2)
        }),
{
    reveal(emit_iterable_len_spec);
    reveal(FState::call);
    reveal(FState::call_intrinsic);
    let (b2, t) = emit_iterable_len_spec(iterable, iterable_ty, b);
    assert(t.0 == b.temp_types.len()) by {
        reveal(FState::alloc_temp);
    }
    let i = if is_union_ty(iterable_ty) {
        Instruction::Call {
            dst: t,
            callee: CallTarget::Named(Text::Fixed("lin_iterable_length")),
            args: one(iterable),
            ret_ty: Type::Int64,
        }
    } else {
        Instruction::CallIntrinsic {
            dst: t,
            intrinsic: Intrinsic::Length,
            args: one(iterable),
            ret_ty: Type::Int64,
        }
    };
    made_runs(b, Type::Int64, i, code, sem, r);
}

} // verus!
