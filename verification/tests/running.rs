use std::collections::HashMap;
use std::rc::Rc;

use lin_ir::ast::{BinOp, Span, TypedExpr, TypedParam};
use lin_ir::builder::{Entry, FuncBuilder};
use lin_ir::ctx::{LowerCtx, Tables};
use lin_ir::expr::lower_expr;
use lin_ir::fuse::{emit_flatmap_fused_loop, Terminal};
use lin_ir::ir::{Const, FuncId, Instruction, Intrinsic, Temp, Terminator};
use lin_ir::list::{list_of, List};
use lin_ir::recognize::{FuseStage, Lambda};
use lin_ir::text::Text;
use lin_ir::types::Type;

#[derive(Clone, Debug, PartialEq)]
enum Value {
    Number(i64),
    Truth(bool),
    Items(Vec<Value>),
    Other,
}

/// A run of emitted code. Calls are answered by `answer`, which is given the arguments.
struct Machine<'a> {
    vals: HashMap<u32, Value>,
    cells: HashMap<u32, Value>,
    outs: HashMap<u32, Vec<Value>>,
    calls: Vec<Vec<Value>>,
    answer: &'a dyn Fn(&[Value]) -> Value,
}

fn sp() -> Span {
    Span { start: 0, end: 1 }
}

fn num(v: i64) -> TypedExpr {
    TypedExpr::IntLit(v, Type::Int32, sp())
}

fn get(slot: usize, ty: Type) -> TypedExpr {
    TypedExpr::LocalGet { slot, ty, span: sp() }
}

fn array(t: Type) -> Type {
    Type::Array(Rc::new(t))
}

fn param(slot: usize) -> TypedParam {
    TypedParam { slot, name: Text::Fixed("p"), ty: Type::Int32, default: None }
}

fn lambda(params: Vec<TypedParam>, body: TypedExpr, ret: Type) -> TypedExpr {
    TypedExpr::Function {
        name: None,
        params: list_of(params),
        body: Rc::new(body),
        ret_type: ret,
        captures: List::Nil,
        span: sp(),
    }
}

fn binary(op: BinOp, l: TypedExpr, r: TypedExpr, ty: Type) -> TypedExpr {
    TypedExpr::BinaryOp { left: Rc::new(l), op, right: Rc::new(r), result_type: ty, span: sp() }
}

fn call(func: TypedExpr, args: Vec<TypedExpr>, ty: Type) -> TypedExpr {
    TypedExpr::Call {
        func: Rc::new(func),
        args: list_of(args),
        result_type: ty,
        is_tail: false,
        partial: false,
        span: sp(),
    }
}

fn temps(l: &List<Temp>) -> Vec<u32> {
    let mut out = Vec::new();
    let mut cur = l;
    while let List::Cons(n) = cur {
        out.push(n.head.0);
        cur = &n.tail;
    }
    out
}

fn operation(op: BinOp, l: &Value, r: &Value) -> Value {
    match (op, l, r) {
        (BinOp::Add, Value::Number(a), Value::Number(b)) => Value::Number(a + b),
        (BinOp::Mul, Value::Number(a), Value::Number(b)) => Value::Number(a * b),
        (BinOp::Lt, Value::Number(a), Value::Number(b)) => Value::Truth(a < b),
        (BinOp::LtEq, Value::Number(a), Value::Number(b)) => Value::Truth(a <= b),
        (BinOp::Gt, Value::Number(a), Value::Number(b)) => Value::Truth(a > b),
        (BinOp::And, Value::Truth(a), Value::Truth(b)) => Value::Truth(*a && *b),
        (BinOp::Or, Value::Truth(a), Value::Truth(b)) => Value::Truth(*a || *b),
        _ => panic!("{:?} {:?} {:?}", op, l, r),
    }
}

impl Machine<'_> {
    fn val(&self, t: Temp) -> Value {
        self.vals[&t.0].clone()
    }

    fn args(&self, l: &List<Temp>) -> Vec<Value> {
        temps(l).iter().map(|t| self.vals[t].clone()).collect()
    }

    fn set(&mut self, t: Temp, v: Value) {
        self.vals.insert(t.0, v);
    }

    fn instr(&mut self, i: &Instruction, from: u32) {
        match i {
            Instruction::Const { dst, value } => {
                let v = match value {
                    Const::Int(v, _) => Value::Number(*v),
                    Const::Bool(v) => Value::Truth(*v),
                    _ => Value::Other,
                };
                self.set(*dst, v);
            }
            Instruction::Phi { dst, incomings, .. } => {
                let mut cur = incomings;
                while let List::Cons(n) = cur {
                    if n.head.pred.0 == from {
                        let v = self.val(n.head.val);
                        self.set(*dst, v);
                    }
                    cur = &n.tail;
                }
            }
            Instruction::Binary { dst, op, lhs, rhs, .. } => {
                let v = operation(*op, &self.val(*lhs), &self.val(*rhs));
                self.set(*dst, v);
            }
            Instruction::Unary { dst, operand, .. } => {
                let v = match self.val(*operand) {
                    Value::Truth(x) => Value::Truth(!x),
                    v => v,
                };
                self.set(*dst, v);
            }
            Instruction::Coerce { dst, src, .. } => {
                let v = self.val(*src);
                self.set(*dst, v);
            }
            Instruction::MakeCell { dst, init, .. } => {
                let v = self.val(*init);
                self.cells.insert(dst.0, v);
            }
            Instruction::CellGet { dst, cell, .. } => {
                let v = self.cells[&cell.0].clone();
                self.set(*dst, v);
            }
            Instruction::CellSet { cell, value, .. } => {
                let v = self.val(*value);
                self.cells.insert(cell.0, v);
            }
            Instruction::Index { dst, object, key, .. } => {
                match (self.val(*object), self.val(*key)) {
                    (Value::Items(xs), Value::Number(k)) => self.set(*dst, xs[k as usize].clone()),
                    other => panic!("{:?}", other),
                }
            }
            Instruction::MakeArray { dst, elements, .. } => {
                let v = Value::Items(self.args(elements));
                self.set(*dst, v);
            }
            Instruction::CallIntrinsic { dst, intrinsic, args, .. } => match intrinsic {
                Intrinsic::Length => match &self.args(args)[0] {
                    Value::Items(xs) => {
                        let n = xs.len() as i64;
                        self.set(*dst, Value::Number(n));
                    }
                    v => panic!("{:?}", v),
                },
                Intrinsic::Push | Intrinsic::FlatArrayPush(_) => {
                    let v = self.args(args)[1].clone();
                    self.outs.entry(temps(args)[0]).or_default().push(v);
                }
                _ => self.set(*dst, Value::Other),
            },
            Instruction::Call { dst, args, .. } => {
                let given = self.args(args);
                let v = (self.answer)(&given);
                self.calls.push(given);
                self.set(*dst, v);
            }
            Instruction::Release { .. }
            | Instruction::Retain { .. }
            | Instruction::ReleaseIfDistinct { .. }
            | Instruction::FreeCell { .. } => {}
            i => panic!("{:?}", i),
        }
    }

    /// Runs the blocks from the first on to the one that has not been ended.
    fn run(&mut self, b: &FuncBuilder) {
        let mut at = 0;
        let mut from = 0;
        let mut fuel = 10_000;
        loop {
            let block = &b.blocks[at as usize];
            let mut is = Vec::new();
            let mut cur = &block.code;
            while let List::Cons(n) = cur {
                is.push(&n.head.instr);
                cur = &n.tail;
            }
            for i in is.into_iter().rev() {
                self.instr(i, from);
            }
            from = at;
            at = match &block.term {
                Terminator::Jump(to) => to.0,
                Terminator::CondJump { cond, then_block, else_block } => {
                    if self.val(*cond) == Value::Truth(true) {
                        then_block.0
                    } else {
                        else_block.0
                    }
                }
                _ => return,
            };
            fuel -= 1;
            assert!(fuel > 0);
        }
    }
}

fn numbers(xs: &[i64]) -> Vec<Value> {
    xs.iter().map(|x| Value::Number(*x)).collect()
}

fn builder(names: Vec<(usize, &str)>) -> FuncBuilder {
    let ops: Vec<Entry<String>> =
        names.into_iter().map(|(slot, n)| Entry { slot, value: n.to_string() }).collect();
    let mut b = FuncBuilder::new(FuncId(0), None, Type::Null, list_of(ops));
    b.push_scope();
    b
}

fn ctx() -> LowerCtx {
    LowerCtx::new(Tables::new(), List::Nil, Type::Null, 10)
}

fn machine<'a>(answer: &'a dyn Fn(&[Value]) -> Value) -> Machine<'a> {
    Machine {
        vals: HashMap::new(),
        cells: HashMap::new(),
        outs: HashMap::new(),
        calls: Vec::new(),
        answer,
    }
}

fn no_call(_: &[Value]) -> Value {
    Value::Other
}

/// Lowers `op` on the numbers with an inlined callback and runs it.
fn ask(op: &str, xs: &[i64], test: BinOp, bound: i64) -> Value {
    let mut b = builder(vec![(1, op)]);
    let mut c = ctx();
    let src = b.alloc_temp(array(Type::Int32));
    b.set_slot(2, src);
    let pred = lambda(
        vec![param(20)],
        binary(test, get(20, Type::Int32), num(bound), Type::Bool),
        Type::Bool,
    );
    let e = call(get(1, Type::Null), vec![get(2, array(Type::Int32)), pred], Type::Bool);
    let t = lower_expr(&e, &mut b, &mut c);
    let mut m = machine(&no_call);
    m.set(src, Value::Items(numbers(xs)));
    m.run(&b);
    m.val(t)
}

/// Lowers `op` on the numbers with a callback that is a value and runs it: the answer, and what the
/// callback was asked.
fn ask_by_calls(op: &str, xs: &[i64], pred: &dyn Fn(&[Value]) -> Value) -> (Value, Vec<Value>) {
    let mut b = builder(vec![(1, op)]);
    let mut c = ctx();
    let src = b.alloc_temp(array(Type::Int32));
    b.set_slot(2, src);
    let ty = || Type::Function {
        params: list_of(vec![Type::Int32]),
        ret: Rc::new(Type::Bool),
        required: 1,
    };
    let f = b.alloc_temp(ty());
    b.set_slot(3, f);
    let e = call(get(1, Type::Null), vec![get(2, array(Type::Int32)), get(3, ty())], Type::Bool);
    let t = lower_expr(&e, &mut b, &mut c);
    let mut m = machine(pred);
    m.set(src, Value::Items(numbers(xs)));
    m.set(f, Value::Other);
    m.run(&b);
    (m.val(t), m.calls.iter().map(|args| args[0].clone()).collect())
}

const SAMPLES: [&[i64]; 5] = [&[], &[1], &[7], &[1, 7, 2], &[7, 8, 9]];

#[test]
fn some_and_every_run_to_the_quantifiers() {
    for xs in SAMPLES {
        assert_eq!(ask("lin_some", xs, BinOp::Gt, 5), Value::Truth(xs.iter().any(|x| *x > 5)));
        assert_eq!(ask("lin_every", xs, BinOp::Gt, 5), Value::Truth(xs.iter().all(|x| *x > 5)));
    }
}

#[test]
fn every_runs_to_the_negation_of_some_of_the_opposite() {
    for xs in SAMPLES {
        let one = ask("lin_some", xs, BinOp::LtEq, 5) == Value::Truth(true);
        assert_eq!(ask("lin_every", xs, BinOp::Gt, 5), Value::Truth(!one));
    }
}

#[test]
fn callback_is_called_in_order_until_the_answer_is_settled() {
    let above = |args: &[Value]| match args[0] {
        Value::Number(x) => Value::Truth(x > 5),
        _ => Value::Truth(false),
    };
    let below = |args: &[Value]| match args[0] {
        Value::Number(x) => Value::Truth(x <= 5),
        _ => Value::Truth(false),
    };
    let xs = [1, 2, 7, 8];
    assert_eq!(ask_by_calls("lin_some", &xs, &above), (Value::Truth(true), numbers(&[1, 2, 7])));
    assert_eq!(ask_by_calls("lin_every", &xs, &below), (Value::Truth(false), numbers(&[1, 2, 7])));
    assert_eq!(ask_by_calls("lin_every", &xs, &above), (Value::Truth(false), numbers(&[1])));
    assert_eq!(ask_by_calls("lin_some", &[], &above), (Value::Truth(false), vec![]));
    assert_eq!(ask_by_calls("lin_every", &[], &above), (Value::Truth(true), vec![]));
}

/// The function of a step, of a value in slot 40 and its position in slot 41.
fn step(body: TypedExpr) -> Lambda {
    Lambda { params: list_of(vec![param(40), param(41)]), body: Rc::new(body) }
}

fn x() -> TypedExpr {
    get(40, Type::Int32)
}

fn at() -> TypedExpr {
    get(41, Type::Int32)
}

#[test]
fn fused_chain_runs_as_if_eager() {
    let mut b = builder(vec![(1, "lin_map"), (2, "lin_filter")]);
    let mut c = ctx();
    let src = b.alloc_temp(array(Type::Int32));
    b.set_slot(3, src);
    let two = || vec![param(40), param(41)];
    let doubled = call(
        get(1, Type::Null),
        vec![
            get(3, array(Type::Int32)),
            lambda(two(), binary(BinOp::Mul, x(), num(2), Type::Int32), Type::Int32),
        ],
        array(Type::Int32),
    );
    let kept = call(
        get(2, Type::Null),
        vec![
            doubled,
            lambda(two(), binary(BinOp::Gt, x(), num(5), Type::Bool), Type::Bool),
        ],
        array(Type::Int32),
    );
    let placed = call(
        get(1, Type::Null),
        vec![
            kept,
            lambda(
                two(),
                binary(
                    BinOp::Add,
                    binary(BinOp::Mul, x(), num(10), Type::Int32),
                    at(),
                    Type::Int32,
                ),
                Type::Int32,
            ),
        ],
        array(Type::Int32),
    );
    let t = lower_expr(&placed, &mut b, &mut c);
    let mut m = machine(&no_call);
    m.set(src, Value::Items(numbers(&[1, 3, 2, 5, 4])));
    m.run(&b);
    let eager: Vec<i64> = [1, 3, 2, 5, 4]
        .iter()
        .map(|v| v * 2)
        .filter(|v| *v > 5)
        .enumerate()
        .map(|(i, v)| v * 10 + i as i64)
        .collect();
    assert_eq!(eager, vec![60, 101, 82]);
    assert_eq!(m.outs[&t.0], numbers(&eager));
}

#[test]
fn flattening_chain_runs_as_if_eager() {
    let mut b = builder(vec![]);
    let mut c = ctx();
    let src = b.alloc_temp(array(Type::Int32));
    let out = b.alloc_temp(array(Type::Int32));
    let pair = TypedExpr::MakeArray {
        elements: list_of(vec![x(), binary(BinOp::Add, x(), at(), Type::Int32)]),
        ty: array(Type::Int32),
        span: sp(),
    };
    let stages = list_of(vec![
        FuseStage::FlatMap { lam: step(pair), inner_elem_ty: Type::Int32 },
        FuseStage::Filter { lam: step(binary(BinOp::Gt, x(), num(3), Type::Bool)) },
        FuseStage::MapEach {
            lam: step(binary(
                BinOp::Add,
                binary(BinOp::Mul, x(), num(10), Type::Int32),
                at(),
                Type::Int32,
            )),
            out_elem_ty: Type::Int32,
        },
    ]);
    let terminal = Terminal::PushInto { out, flat: None, elem_ty: Type::Int32 };
    let numbers_ty = array(Type::Int32);
    emit_flatmap_fused_loop(
        src,
        &numbers_ty,
        &Type::Int32,
        &stages,
        false,
        &terminal,
        &mut b,
        &mut c,
    );
    let xs = [4i64, 1, 3, 6];
    let mut m = machine(&no_call);
    m.set(src, Value::Items(numbers(&xs)));
    m.set(out, Value::Other);
    m.run(&b);
    let eager: Vec<i64> = xs
        .iter()
        .enumerate()
        .flat_map(|(i, v)| vec![*v, *v + i as i64])
        .filter(|v| *v > 3)
        .enumerate()
        .map(|(i, v)| v * 10 + i as i64)
        .collect();
    assert_eq!(eager, vec![40, 41, 52, 63, 94]);
    assert_eq!(m.outs[&out.0], numbers(&eager));
}
