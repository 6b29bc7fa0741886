use std::rc::Rc;

use lin_ir::ast::{
    BinOp, Capture, FieldInit, MatchArm, Span, TypedExpr, TypedParam, TypedPattern, TypedStmt,
    TypedStringPart, UnaryOp,
};
use lin_ir::builder::{Entry, FuncBuilder};
use lin_ir::ctx::{ImportFn, ImportVal, LowerCtx, Tables};
use lin_ir::expr::lower_expr;
use lin_ir::ir::{
    BlockId, CallTarget, Const, FuncId, Function, Instruction, IrParam, Spanned, Temp, Terminator,
};
use lin_ir::list::{list_of, List};
use lin_ir::recognize::capture_resolvable;
use lin_ir::text::Text;
use lin_ir::types::{json, Field, Type};

fn sp() -> Span {
    Span { start: 3, end: 7 }
}

fn num(v: i64) -> TypedExpr {
    TypedExpr::IntLit(v, Type::Int32, sp())
}

fn string(s: &str) -> TypedExpr {
    TypedExpr::StringLit(s.to_string(), Type::Str, sp())
}

fn get(slot: usize, ty: Type) -> TypedExpr {
    TypedExpr::LocalGet { slot, ty, span: sp() }
}

fn array(t: Type) -> Type {
    Type::Array(Rc::new(t))
}

fn fun(params: Vec<Type>, ret: Type) -> Type {
    let required = params.len();
    Type::Function { params: list_of(params), ret: Rc::new(ret), required }
}

fn param(slot: usize, ty: Type) -> TypedParam {
    TypedParam { slot, name: Text::Fixed("p"), ty, default: None }
}

fn lambda(params: Vec<TypedParam>, body: TypedExpr, ret: Type) -> TypedExpr {
    TypedExpr::Function {
        name: None,
        params: list_of(params),
        body: Rc::new(body),
        ret_type: ret,
        captures: List::Nil,
        span: sp(),
    }
}

fn binary(op: BinOp, l: TypedExpr, r: TypedExpr, ty: Type) -> TypedExpr {
    TypedExpr::BinaryOp { left: Rc::new(l), op, right: Rc::new(r), result_type: ty, span: sp() }
}

fn call(func: TypedExpr, args: Vec<TypedExpr>, ty: Type) -> TypedExpr {
    TypedExpr::Call {
        func: Rc::new(func),
        args: list_of(args),
        result_type: ty,
        is_tail: false,
        partial: false,
        span: sp(),
    }
}

fn record(fields: Vec<(&str, Type)>, sealed: bool) -> Type {
    let fields: Vec<Field> =
        fields.into_iter().map(|(n, ty)| Field { name: n.to_string(), ty }).collect();
    Type::Object { fields: list_of(fields), sealed, name: None }
}

fn make_record(fields: Vec<(&str, TypedExpr)>, ty: Type) -> TypedExpr {
    let fields: Vec<FieldInit> = fields
        .into_iter()
        .map(|(n, value)| FieldInit { name: n.to_string(), value })
        .collect();
    TypedExpr::MakeObject {
        fields: list_of(fields),
        spreads: List::Nil,
        computed_fields: List::Nil,
        ty,
        span: sp(),
    }
}

fn make_array(elements: Vec<TypedExpr>, ty: Type) -> TypedExpr {
    TypedExpr::MakeArray { elements: list_of(elements), ty, span: sp() }
}

fn items<T>(l: &List<T>) -> Vec<&T> {
    let mut out = Vec::new();
    let mut cur = l;
    while let List::Cons(n) = cur {
        out.push(&n.head);
        cur = &n.tail;
    }
    out
}

fn names(pairs: Vec<(usize, &str)>) -> List<Entry<String>> {
    list_of(pairs.into_iter().map(|(slot, n)| Entry { slot, value: n.to_string() }).collect())
}

fn builder(intrinsics: Vec<(usize, &str)>) -> FuncBuilder {
    let mut b = FuncBuilder::new(FuncId(0), None, Type::Null, names(intrinsics));
    b.push_scope();
    b
}

fn ctx_with(tables: Tables) -> LowerCtx {
    LowerCtx::new(tables, List::Nil, record(vec![("message", Type::Str)], false), 10)
}

fn ctx() -> LowerCtx {
    ctx_with(Tables::new())
}

fn show_const(c: &Const) -> String {
    match c {
        Const::Int(v, _) => format!("{}", v),
        Const::Float(v, _) => format!("f{}", v),
        Const::Bool(v) => format!("{}", v),
        Const::Null => "null".to_string(),
        Const::Str(t) => format!("\"{}\"", t.render()),
    }
}

fn ts(l: &List<Temp>) -> String {
    let v: Vec<String> = items(l).iter().map(|t| format!("t{}", t.0)).collect();
    v.join(",")
}

fn show(i: &Instruction) -> String {
    match i {
        Instruction::Const { dst, value } => format!("t{} = {}", dst.0, show_const(value)),
        Instruction::Call { dst, callee, args, .. } => {
            let c = match callee {
                CallTarget::Direct(f) => format!("f{}", f.0),
                CallTarget::Named(n) => n.render(),
                CallTarget::Indirect(t) => format!("*t{}", t.0),
            };
            format!("t{} = call {}({})", dst.0, c, ts(args))
        }
        Instruction::CallIntrinsic { dst, intrinsic, args, .. } => {
            format!("t{} = {:?}({})", dst.0, intrinsic, ts(args))
        }
        Instruction::Coerce { dst, src, .. } => format!("t{} = coerce t{}", dst.0, src.0),
        Instruction::Retain { val, .. } => format!("retain t{}", val.0),
        Instruction::Release { val, .. } => format!("release t{}", val.0),
        Instruction::ReleaseIfDistinct { val, other } => {
            format!("release t{} unless t{}", val.0, other.0)
        }
        Instruction::FreeBoxShell { val } => format!("free t{}", val.0),
        Instruction::FreeBoxShellIfDistinct { val, other } => {
            format!("free t{} unless t{}", val.0, other.0)
        }
        Instruction::CloneBox { dst, src, .. } => format!("t{} = clone t{}", dst.0, src.0),
        Instruction::Binary { dst, op, lhs, rhs, .. } => {
            format!("t{} = t{} {:?} t{}", dst.0, lhs.0, op, rhs.0)
        }
        Instruction::Unary { dst, operand, .. } => format!("t{} = not t{}", dst.0, operand.0),
        Instruction::Phi { dst, incomings, .. } => {
            let v: Vec<String> = items(incomings)
                .iter()
                .map(|x| format!("t{}@{}", x.val.0, x.pred.0))
                .collect();
            format!("t{} = phi {}", dst.0, v.join(" "))
        }
        Instruction::Index { dst, object, key, nonneg, .. } => {
            format!("t{} = t{}[t{}]{}", dst.0, object.0, key.0, if *nonneg { " nonneg" } else { "" })
        }
        Instruction::IndexSet { object, key, value, .. } => {
            format!("t{}[t{}] = t{}", object.0, key.0, value.0)
        }
        Instruction::FieldGet { dst, object, field, .. } => {
            format!("t{} = t{}.{}", dst.0, object.0, field)
        }
        Instruction::SealedArrayFieldGet { dst, array, index, field, .. } => {
            format!("t{} = packed t{}[t{}].{}", dst.0, array.0, index.0, field)
        }
        Instruction::MakeObject { dst, fields, .. } => {
            let v: Vec<String> = items(fields)
                .iter()
                .map(|x| format!("{}:t{}", x.name, x.temp.0))
                .collect();
            format!("t{} = {{{}}}", dst.0, v.join(","))
        }
        Instruction::MakeArray { dst, elements, .. } => format!("t{} = [{}]", dst.0, ts(elements)),
        Instruction::MakeClosure { dst, func, captures, .. } => {
            format!("t{} = closure f{}({})", dst.0, func.0, ts(captures))
        }
        Instruction::MakeNamedClosure { dst, sym, .. } => {
            format!("t{} = closure {}", dst.0, sym.render())
        }
        Instruction::MakeCell { dst, init, .. } => format!("t{} = cell t{}", dst.0, init.0),
        Instruction::CellGet { dst, cell, .. } => format!("t{} = get t{}", dst.0, cell.0),
        Instruction::CellSet { cell, value, .. } => format!("set t{} t{}", cell.0, value.0),
        Instruction::FreeCell { cell, .. } => format!("freecell t{}", cell.0),
        Instruction::GlobalValGet { dst, slot, .. } => format!("t{} = global {}", dst.0, slot),
        Instruction::GlobalValSet { slot, value, .. } => format!("global {} = t{}", slot, value.0),
        Instruction::IsType { dst, val, .. } => format!("t{} = is t{}", dst.0, val.0),
        Instruction::HasPattern { dst, val, .. } => format!("t{} = has t{}", dst.0, val.0),
        other => format!("{:?}", other),
    }
}

fn code_of(list: &List<Rc<Spanned>>) -> Vec<String> {
    let mut v: Vec<String> = items(list).iter().map(|s| show(&s.instr)).collect();
    v.reverse();
    v
}

fn code(b: &FuncBuilder, block: usize) -> Vec<String> {
    code_of(&b.blocks[block].code)
}

fn term(t: &Terminator) -> String {
    match t {
        Terminator::Unreachable => "open".to_string(),
        Terminator::Jump(b) => format!("jump {}", b.0),
        Terminator::CondJump { cond, then_block, else_block } => {
            format!("if t{} {} else {}", cond.0, then_block.0, else_block.0)
        }
        Terminator::Return(None) => "return".to_string(),
        Terminator::Return(Some(t)) => format!("return t{}", t.0),
        Terminator::TailCall { args } => format!("tail({})", ts(args)),
    }
}

fn labels(b: &FuncBuilder) -> Vec<&'static str> {
    b.blocks.iter().map(|x| x.label).collect()
}

fn function_code(f: &Function, block: usize) -> Vec<String> {
    code_of(&items(&f.blocks)[block].code)
}

fn lower(e: &TypedExpr) -> (FuncBuilder, LowerCtx, Temp) {
    let mut b = builder(vec![]);
    let mut c = ctx();
    let t = lower_expr(e, &mut b, &mut c);
    (b, c, t)
}

fn every_jump_exists(b: &FuncBuilder) -> bool {
    b.blocks.iter().all(|x| match &x.term {
        Terminator::Jump(t) => (t.0 as usize) < b.blocks.len(),
        Terminator::CondJump { then_block, else_block, .. } => {
            (then_block.0 as usize) < b.blocks.len() && (else_block.0 as usize) < b.blocks.len()
        }
        _ => true,
    })
}

#[test]
fn integer_literal_is_one_constant() {
    let (b, _, t) = lower(&num(42));
    assert_eq!(t.0, 0);
    assert_eq!(code(&b, 0), vec!["t0 = 42"]);
    assert!(matches!(b.temp_types[0], Type::Int32));
    assert!(b.temp_is_nonneg_int_const(t));
}

#[test]
fn negative_literal_is_not_known_nonnegative() {
    let (b, _, t) = lower(&num(-1));
    assert!(!b.temp_is_nonneg_int_const(t));
}

#[test]
fn string_literal_is_owned_by_the_scope() {
    let (b, _, t) = lower(&string("hi"));
    assert_eq!(code(&b, 0), vec!["t0 = \"hi\""]);
    assert!(b.is_owned_in_current_scope(t));
}

#[test]
fn other_literals() {
    let (b, _, _) = lower(&TypedExpr::BoolLit(true, sp()));
    assert_eq!(code(&b, 0), vec!["t0 = true"]);
    let (b, _, _) = lower(&TypedExpr::NullLit(sp()));
    assert_eq!(code(&b, 0), vec!["t0 = null"]);
    let (b, _, _) = lower(&TypedExpr::FloatLit(5, Type::Float64, sp()));
    assert_eq!(code(&b, 0), vec!["t0 = f5"]);
}

#[test]
fn source_spans_are_attached_and_restored() {
    let (b, _, _) = lower(&num(1));
    assert!(b.env.current_span.is_none());
    let spanned = items(&b.blocks[0].code);
    assert!(spanned[0].span == Some(sp()));
}

#[test]
fn deep_nesting_is_lowered() {
    let mut e = num(1);
    for k in 0..300 {
        e = binary(BinOp::Add, e, num(k), Type::Int32);
    }
    let (b, c, t) = lower(&e);
    assert!(!c.env.too_deep);
    assert_eq!(t.0, 600);
    assert_eq!(code(&b, 0).len(), 601);
}

#[test]
fn arithmetic_on_plain_operands() {
    let (b, _, t) = lower(&binary(BinOp::Add, num(1), num(2), Type::Int32));
    assert_eq!(code(&b, 0), vec!["t0 = 1", "t1 = 2", "t2 = t0 Add t1"]);
    assert_eq!(t.0, 2);
}

#[test]
fn arithmetic_with_a_dynamic_operand_boxes_the_other() {
    let mut b = builder(vec![]);
    let mut c = ctx();
    let d = b.alloc_temp(json());
    b.set_slot(5, d);
    let e = binary(BinOp::Add, get(5, json()), num(2), json());
    let t = lower_expr(&e, &mut b, &mut c);
    assert_eq!(
        code(&b, 0),
        vec!["t1 = 2", "t2 = coerce t1", "t3 = t0 Add t2", "free t2"]
    );
    assert!(b.is_owned_in_current_scope(t));
}

#[test]
fn comparison_does_not_convert() {
    let (b, _, _) = lower(&binary(BinOp::Eq, num(1), TypedExpr::NullLit(sp()), Type::Bool));
    assert_eq!(code(&b, 0), vec!["t0 = 1", "t1 = null", "t2 = t0 Eq t1"]);
}

#[test]
fn and_runs_the_right_operand_only_where_needed() {
    let e = binary(
        BinOp::And,
        TypedExpr::BoolLit(true, sp()),
        TypedExpr::BoolLit(false, sp()),
        Type::Bool,
    );
    let (b, _, t) = lower(&e);
    assert_eq!(labels(&b), vec!["entry", "sc_rhs", "sc_merge"]);
    assert_eq!(term(&b.blocks[0].term), "if t0 1 else 2");
    assert_eq!(code(&b, 1), vec!["t1 = false"]);
    assert_eq!(term(&b.blocks[1].term), "jump 2");
    assert_eq!(code(&b, 2), vec!["t2 = phi t0@0 t1@1"]);
    assert_eq!(t.0, 2);
}

#[test]
fn negation_of_a_box_takes_its_truth_value() {
    let mut b = builder(vec![]);
    let mut c = ctx();
    let d = b.alloc_temp(json());
    b.set_slot(5, d);
    let e = TypedExpr::UnaryOp {
        op: UnaryOp::Not,
        operand: Rc::new(get(5, json())),
        result_type: Type::Bool,
        span: sp(),
    };
    lower_expr(&e, &mut b, &mut c);
    assert_eq!(code(&b, 0), vec!["t1 = coerce t0", "t2 = not t1"]);
}

#[test]
fn reading_a_counted_local_counts_it() {
    let mut b = builder(vec![]);
    let mut c = ctx();
    let d = b.alloc_temp(array(Type::Int32));
    b.set_slot(1, d);
    let t = lower_expr(&get(1, array(Type::Int32)), &mut b, &mut c);
    assert_eq!(t.0, 0);
    assert_eq!(code(&b, 0), vec!["retain t0"]);
    assert!(b.is_owned_in_current_scope(t));
}

#[test]
fn reading_a_box_as_a_plain_value_opens_it() {
    let mut b = builder(vec![]);
    let mut c = ctx();
    let d = b.alloc_temp(json());
    b.set_slot(1, d);
    lower_expr(&get(1, Type::Int32), &mut b, &mut c);
    assert_eq!(code(&b, 0), vec!["t1 = coerce t0"]);
}

#[test]
fn imported_and_global_names() {
    let mut tables = Tables::new();
    tables.import_fn_slots.insert(1, ImportFn { sym: "m_f".to_string(), params: List::Nil });
    tables.import_val_slots.insert(2, ImportVal { wrapper: "m_v".to_string(), ty: Type::Str });
    tables.global_fn_slots.insert(3, FuncId(7));
    tables.global_val_slots.insert(4, Type::Int32);
    let mut c = ctx_with(tables);
    let mut b = builder(vec![]);
    let f = fun(vec![], Type::Null);
    lower_expr(&get(1, f), &mut b, &mut c);
    lower_expr(&get(2, Type::Str), &mut b, &mut c);
    lower_expr(&get(3, fun(vec![], Type::Null)), &mut b, &mut c);
    lower_expr(&get(4, Type::Int32), &mut b, &mut c);
    lower_expr(&get(9, Type::Int32), &mut b, &mut c);
    assert_eq!(
        code(&b, 0),
        vec![
            "t0 = closure m_f",
            "t1 = call m_v()",
            "t2 = closure f7()",
            "t3 = global 4"
        ]
    );
    assert_eq!(b.temp_types.len(), 5);
}

#[test]
fn a_variable_in_a_cell_is_read_and_written_through_it() {
    let mut c = ctx_with(Tables::new());
    let mut b = builder(vec![]);
    b.cell_vars.insert(1);
    let e = TypedExpr::Block {
        stmts: list_of(vec![
            TypedStmt::Var {
                slot: 1,
                name: None,
                value: Rc::new(num(1)),
                ty: Type::Int32,
                span: sp(),
            },
            TypedStmt::Expr(TypedExpr::LocalSet {
                slot: 1,
                value: Rc::new(num(2)),
                ty: Type::Int32,
                span: sp(),
            }),
        ]),
        expr: Rc::new(get(1, Type::Int32)),
        ty: Type::Int32,
        span: sp(),
    };
    lower_expr(&e, &mut b, &mut c);
    assert_eq!(
        code(&b, 0),
        vec!["t0 = 1", "t1 = cell t0", "t2 = 2", "set t1 t2", "t3 = get t1"]
    );
}

#[test]
fn a_block_releases_what_it_made_and_hands_its_result_on() {
    let e = TypedExpr::Block {
        stmts: list_of(vec![TypedStmt::Expr(string("unused"))]),
        expr: Rc::new(string("kept")),
        ty: Type::Str,
        span: sp(),
    };
    let (b, _, t) = lower(&e);
    assert_eq!(code(&b, 0), vec!["t0 = \"unused\"", "t1 = \"kept\"", "release t0"]);
    assert_eq!(t.0, 1);
    assert!(b.is_owned_in_current_scope(t));
    assert_eq!(items(&b.env.scopes).len(), 1);
}

#[test]
fn a_block_restores_shadowed_variables() {
    let mut b = builder(vec![]);
    let mut c = ctx();
    let d = b.alloc_temp(Type::Int32);
    b.set_slot(1, d);
    let e = TypedExpr::Block {
        stmts: list_of(vec![TypedStmt::Val {
            slot: 2,
            name: None,
            value: Rc::new(num(5)),
            ty: Type::Int32,
            span: sp(),
        }]),
        expr: Rc::new(get(2, Type::Int32)),
        ty: Type::Int32,
        span: sp(),
    };
    lower_expr(&e, &mut b, &mut c);
    assert_eq!(b.slot(1).map(|t| t.0), Some(0));
}

#[test]
fn if_joins_values_and_reassigned_variables() {
    let mut b = builder(vec![]);
    let mut c = ctx();
    let d = b.alloc_temp(Type::Int32);
    b.set_slot(1, d);
    let set = TypedExpr::LocalSet {
        slot: 1,
        value: Rc::new(num(2)),
        ty: Type::Int32,
        span: sp(),
    };
    let e = TypedExpr::If {
        cond: Rc::new(TypedExpr::BoolLit(true, sp())),
        then_br: Rc::new(set),
        else_br: Rc::new(num(3)),
        result_type: Type::Int32,
        span: sp(),
    };
    let t = lower_expr(&e, &mut b, &mut c);
    assert_eq!(labels(&b), vec!["entry", "if_then", "if_else", "if_merge"]);
    assert_eq!(term(&b.blocks[0].term), "if t1 1 else 2");
    assert_eq!(code(&b, 3), vec!["t4 = phi t2@1 t3@2", "t5 = phi t2@1 t0@2"]);
    assert_eq!(t.0, 4);
    assert_eq!(b.slot(1).map(|t| t.0), Some(5));
    assert!(every_jump_exists(&b));
}

#[test]
fn match_tries_arms_in_order() {
    let e = TypedExpr::Match {
        scrutinee: Rc::new(num(1)),
        arms: list_of(vec![
            MatchArm {
                pattern: TypedPattern::Literal(Rc::new(num(1))),
                guard: None,
                body: num(10),
            },
            MatchArm { pattern: TypedPattern::Wildcard(sp()), guard: None, body: num(20) },
        ]),
        result_type: Type::Int32,
        span: sp(),
    };
    let (b, _, t) = lower(&e);
    assert_eq!(
        labels(&b),
        vec!["entry", "match_merge", "match_arm", "match_next", "match_arm", "match_next"]
    );
    assert_eq!(code(&b, 0), vec!["t0 = 1", "t1 = 1", "t2 = t0 Eq t1"]);
    assert_eq!(term(&b.blocks[0].term), "if t2 2 else 3");
    assert_eq!(term(&b.blocks[3].term), "jump 4");
    assert_eq!(code(&b, 1), vec![format!("t{} = phi t3@2 t4@4", t.0)]);
    assert!(every_jump_exists(&b));
}

#[test]
fn array_literal_of_scalars_and_boxes() {
    let (b, _, t) = lower(&make_array(vec![num(1), num(2)], array(Type::Int32)));
    assert_eq!(code(&b, 0), vec!["t0 = 1", "t1 = 2", "t2 = [t0,t1]"]);
    assert!(b.is_owned_in_current_scope(t));
    let (b, _, _) = lower(&make_array(vec![num(1)], array(json())));
    assert_eq!(code(&b, 0), vec!["t0 = 1", "t1 = coerce t0", "t2 = [t1]", "free t1"]);
}

#[test]
fn mixed_numbers_are_widened_in_an_array_literal() {
    let e = make_array(
        vec![num(0), TypedExpr::FloatLit(9, Type::Float64, sp())],
        array(Type::Float64),
    );
    let (b, _, _) = lower(&e);
    assert_eq!(code(&b, 0), vec!["t0 = 0", "t1 = coerce t0", "t2 = f9", "t3 = [t1,t2]"]);
}

#[test]
fn record_literal_into_a_packed_slot() {
    let open = record(vec![("x", Type::Int32), ("y", Type::Int32)], false);
    let packed = record(vec![("x", Type::Int32), ("y", Type::Int32)], true);
    let e = TypedExpr::Coerce {
        expr: Rc::new(make_record(vec![("x", num(1)), ("y", num(2))], open)),
        from: record(vec![("x", Type::Int32), ("y", Type::Int32)], false),
        to: packed,
        span: sp(),
    };
    let (b, _, t) = lower(&e);
    assert_eq!(code(&b, 0), vec!["t0 = 1", "t1 = 2", "t2 = {x:t0,y:t1}"]);
    assert!(b.is_owned_in_current_scope(t));
}

#[test]
fn record_literal_that_misses_a_field_is_converted() {
    let open = record(vec![("x", Type::Int32)], false);
    let packed = record(vec![("x", Type::Int32), ("y", Type::Int32)], true);
    let e = TypedExpr::Coerce {
        expr: Rc::new(make_record(vec![("x", num(1))], open)),
        from: record(vec![("x", Type::Int32)], false),
        to: packed,
        span: sp(),
    };
    let (b, _, _) = lower(&e);
    assert_eq!(code(&b, 0), vec!["t0 = 1", "t1 = {x:t0}", "t2 = coerce t1"]);
}

fn shape() -> Type {
    Type::Union(list_of(vec![
        record(
            vec![("kind", Type::StrLit("leaf".to_string())), ("value", Type::Int32)],
            true,
        ),
        record(
            vec![
                ("kind", Type::StrLit("node".to_string())),
                ("left", Type::Named("Tree".to_string())),
            ],
            true,
        ),
    ]))
}

#[test]
fn nested_sum_literals_become_nodes() {
    let leaf = make_record(
        vec![("kind", string("leaf")), ("value", num(1))],
        record(vec![("kind", Type::Str), ("value", Type::Int32)], false),
    );
    let node = make_record(
        vec![("kind", string("node")), ("left", leaf)],
        record(vec![("kind", Type::Str), ("left", json())], false),
    );
    let mut b = builder(vec![]);
    let mut c = ctx();
    let t = lin_ir::literal::lower_value_into_slot(&node, &shape(), &mut b, &mut c);
    let lines = code(&b, 0);
    assert_eq!(
        lines,
        vec![
            "t0 = \"node\"",
            "t1 = \"leaf\"",
            "t2 = 1",
            "t3 = {kind:t1,value:t2}",
            "t4 = {kind:t0,left:t3}",
        ]
    );
    assert!(matches!(&b.temp_types[0], Type::StrLit(s) if s == "node"));
    assert!(matches!(&b.temp_types[1], Type::StrLit(s) if s == "leaf"));
    assert!(b.is_owned_in_current_scope(t));
    assert!(!b.is_owned_in_scope(Temp(3)));
}

#[test]
fn a_literal_without_a_fixed_discriminant_is_no_node() {
    let mut b = builder(vec![]);
    let mut c = ctx();
    let d = b.alloc_temp(Type::Str);
    b.set_slot(1, d);
    let e = make_record(
        vec![("kind", get(1, Type::Str)), ("value", num(1))],
        record(vec![("kind", Type::Str), ("value", Type::Int32)], false),
    );
    let t = lin_ir::literal::try_lower_sum_literal(&e, &shape(), &mut b, &mut c);
    assert!(t.is_none());
    assert!(code(&b, 0).is_empty());
    assert_eq!(b.blocks.len(), 1);
    assert_eq!(b.temp_types.len(), 1);
}

#[test]
fn packed_array_fields_are_read_in_place() {
    let point = record(vec![("x", Type::Int32), ("y", Type::Int32)], true);
    let points = array(record(vec![("x", Type::Int32), ("y", Type::Int32)], true));
    let mut b = builder(vec![]);
    let mut c = ctx();
    let a = b.alloc_temp(array(record(vec![("x", Type::Int32), ("y", Type::Int32)], true)));
    b.set_slot(1, a);
    let elem = TypedExpr::Index {
        object: Rc::new(get(1, points)),
        key: Rc::new(num(0)),
        result_type: point,
        span: sp(),
    };
    let e = TypedExpr::FieldGet {
        object: Rc::new(elem),
        field: "y".to_string(),
        result_type: Type::Int32,
        span: sp(),
    };
    lower_expr(&e, &mut b, &mut c);
    assert_eq!(code(&b, 0), vec!["t1 = 0", "t2 = packed t0[t1].y"]);
}

#[test]
fn missing_field_of_a_packed_record_is_null() {
    let mut b = builder(vec![]);
    let mut c = ctx();
    let p = b.alloc_temp(record(vec![("x", Type::Int32)], true));
    b.set_slot(1, p);
    let e = TypedExpr::Index {
        object: Rc::new(get(1, record(vec![("x", Type::Int32)], true))),
        key: Rc::new(string("nope")),
        result_type: Type::Null,
        span: sp(),
    };
    lower_expr(&e, &mut b, &mut c);
    assert_eq!(code(&b, 0), vec!["retain t0", "t1 = null"]);
}

#[test]
fn indexing_a_dictionary_copies_the_box() {
    let mut b = builder(vec![]);
    let mut c = ctx();
    let dict = Type::Dict { value: Rc::new(json()) };
    let p = b.alloc_temp(Type::Dict { value: Rc::new(json()) });
    b.set_slot(1, p);
    let e = TypedExpr::Index {
        object: Rc::new(get(1, dict)),
        key: Rc::new(string("k")),
        result_type: json(),
        span: sp(),
    };
    let t = lower_expr(&e, &mut b, &mut c);
    assert_eq!(code(&b, 0), vec!["t1 = \"k\"", "t2 = t0[t1]", "t3 = clone t2"]);
    assert!(b.is_owned_in_current_scope(t));
}

#[test]
fn indexing_an_array_gives_a_fresh_box() {
    let mut b = builder(vec![]);
    let mut c = ctx();
    let p = b.alloc_temp(array(json()));
    b.set_slot(1, p);
    let e = TypedExpr::Index {
        object: Rc::new(get(1, array(json()))),
        key: Rc::new(num(0)),
        result_type: json(),
        span: sp(),
    };
    let t = lower_expr(&e, &mut b, &mut c);
    assert_eq!(code(&b, 0), vec!["t1 = 0", "t2 = t0[t1]"]);
    assert!(b.is_owned_in_current_scope(t));
}

#[test]
fn nested_dictionary_assignment_makes_the_level() {
    let inner = || Type::Dict { value: Rc::new(Type::Int32) };
    let outer = || Type::Dict { value: Rc::new(Type::Dict { value: Rc::new(Type::Int32) }) };
    let mut b = builder(vec![]);
    let mut c = ctx();
    let p = b.alloc_temp(outer());
    b.set_slot(1, p);
    let level = TypedExpr::Index {
        object: Rc::new(get(1, outer())),
        key: Rc::new(string("a")),
        result_type: inner(),
        span: sp(),
    };
    let e = TypedExpr::IndexSet {
        object: Rc::new(level),
        key: Rc::new(string("b")),
        value: Rc::new(num(1)),
        obj_ty: inner(),
        span: sp(),
    };
    lower_expr(&e, &mut b, &mut c);
    assert_eq!(labels(&b), vec!["entry", "viv_create", "viv_have", "viv_merge"]);
    assert_eq!(
        code(&b, 0),
        vec!["t1 = \"a\"", "t2 = t0[t1]", "t3 = null", "t4 = t2 Eq t3"]
    );
    assert_eq!(term(&b.blocks[1].term), "jump 3");
    assert_eq!(term(&b.blocks[2].term), "jump 3");
    assert_eq!(
        code(&b, 1),
        vec!["t6 = {}", "retain t6", "t7 = \"a\"", "t0[t7] = t6", "t8 = coerce t6", "release t7"]
    );
    assert_eq!(code(&b, 2), vec!["t9 = clone t2"]);
    assert_eq!(
        code(&b, 3),
        vec!["t5 = phi t8@1 t9@2", "t10 = \"b\"", "t11 = 1", "t5[t10] = t11"]
    );
    assert!(every_jump_exists(&b));
}

#[test]
fn interpolated_strings() {
    let e = TypedExpr::StringInterp { parts: List::Nil, span: sp() };
    let (b, _, _) = lower(&e);
    assert_eq!(code(&b, 0), vec!["t0 = \"\""]);
    let e = TypedExpr::StringInterp {
        parts: list_of(vec![TypedStringPart::Literal("only".to_string())]),
        span: sp(),
    };
    let (b, _, t) = lower(&e);
    assert_eq!(code(&b, 0), vec!["t0 = \"only\""]);
    assert_eq!(t.0, 0);
    let e = TypedExpr::StringInterp {
        parts: list_of(vec![
            TypedStringPart::Literal("n=".to_string()),
            TypedStringPart::Expr(num(4)),
        ]),
        span: sp(),
    };
    let (b, _, t) = lower(&e);
    assert_eq!(
        code(&b, 0),
        vec![
            "t0 = \"n=\"",
            "t1 = 4",
            "t2 = ToString(t1)",
            "t3 = StringBuildN(t0,t2)",
            "release t2"
        ]
    );
    assert!(b.is_owned_in_current_scope(t));
}

#[test]
fn is_tests_box_the_value() {
    let e = TypedExpr::Is {
        expr: Rc::new(num(1)),
        pattern: TypedPattern::TypeCheck(Type::Int32, sp()),
        span: sp(),
    };
    let (b, _, _) = lower(&e);
    assert_eq!(code(&b, 0), vec!["t0 = 1", "t1 = coerce t0", "t2 = is t1"]);
    let e = TypedExpr::Is {
        expr: Rc::new(num(1)),
        pattern: TypedPattern::Object { fields: List::Nil, span: sp() },
        span: sp(),
    };
    let (b, _, _) = lower(&e);
    assert_eq!(code(&b, 0), vec!["t0 = 1", "t1 = coerce t0", "t2 = true"]);
}

#[test]
fn calls_of_imported_functions_use_their_symbol() {
    let mut tables = Tables::new();
    tables.import_fn_slots.insert(
        1,
        ImportFn { sym: "m_f".to_string(), params: list_of(vec![json(), Type::Int64]) },
    );
    let mut c = ctx_with(tables);
    let mut b = builder(vec![]);
    let f = fun(vec![json(), Type::Int64], Type::Int32);
    let e = call(get(1, f), vec![string("a"), num(2)], Type::Int32);
    lower_expr(&e, &mut b, &mut c);
    assert_eq!(
        code(&b, 0),
        vec![
            "t0 = \"a\"",
            "t1 = coerce t0",
            "t2 = 2",
            "t3 = coerce t2",
            "t4 = call m_f(t1,t3)",
            "free t1 unless t4"
        ]
    );
}

#[test]
fn a_call_that_leaves_arguments_out_goes_to_the_adapter() {
    let mut tables = Tables::new();
    tables.import_fn_slots.insert(
        1,
        ImportFn { sym: "m_f".to_string(), params: list_of(vec![Type::Int32, Type::Int32]) },
    );
    tables.global_fn_slots.insert(2, FuncId(7));
    let mut c = ctx_with(tables);
    let mut b = builder(vec![]);
    let f = || fun(vec![Type::Int32, Type::Int32], Type::Int32);
    lower_expr(&call(get(1, f()), vec![num(1)], Type::Int32), &mut b, &mut c);
    lower_expr(&call(get(2, f()), vec![num(1)], Type::Int32), &mut b, &mut c);
    assert_eq!(
        code(&b, 0),
        vec!["t0 = 1", "t1 = call m_f$default1(t0)", "t2 = 1", "t3 = call f7(t2)"]
    );
}

#[test]
fn a_tail_call_ends_the_block() {
    let mut tables = Tables::new();
    tables.global_fn_slots.insert(1, FuncId(7));
    let mut c = ctx_with(tables);
    let mut b = builder(vec![]);
    let s = b.alloc_temp(Type::Str);
    b.register_owned(s, Type::Str);
    let e = TypedExpr::Call {
        func: Rc::new(get(1, fun(vec![Type::Int32], Type::Int32))),
        args: list_of(vec![num(5)]),
        result_type: Type::Int32,
        is_tail: true,
        partial: false,
        span: sp(),
    };
    lower_expr(&e, &mut b, &mut c);
    assert_eq!(code(&b, 0), vec!["t1 = 5", "release t0"]);
    assert_eq!(term(&b.blocks[0].term), "tail(t1)");
    assert_eq!(labels(&b), vec!["entry", "tco_post"]);
    assert_eq!(b.env.current_block.0, 1);
}

fn tail_call(args: Vec<TypedExpr>, params: Vec<Type>) -> TypedExpr {
    TypedExpr::Call {
        func: Rc::new(get(1, fun(params, Type::Int32))),
        args: list_of(args),
        result_type: Type::Int32,
        is_tail: true,
        partial: false,
        span: sp(),
    }
}

#[test]
fn a_tail_call_gives_back_parameters_that_it_passes_on_unchanged() {
    let mut tables = Tables::new();
    tables.global_fn_slots.insert(1, FuncId(7));
    let mut c = ctx_with(tables);
    let mut b = builder(vec![]);
    let x = b.alloc_temp(Type::Str);
    let y = b.alloc_temp(Type::Str);
    b.set_slot(2, x);
    b.set_slot(3, y);
    b.set_params(list_of(vec![
        IrParam { temp: x, ty: Type::Str },
        IrParam { temp: y, ty: Type::Str },
    ]));
    let e = tail_call(
        vec![get(2, Type::Str), get(3, Type::Str)],
        vec![Type::Str, Type::Str],
    );
    lower_expr(&e, &mut b, &mut c);
    assert_eq!(code(&b, 0), vec!["retain t0", "retain t1", "release t1", "release t0"]);
    assert_eq!(term(&b.blocks[0].term), "tail(t0,t1)");
}

#[test]
fn a_tail_call_hands_on_one_reference_for_each_argument() {
    let mut tables = Tables::new();
    tables.global_fn_slots.insert(1, FuncId(7));
    let mut c = ctx_with(tables);
    let mut b = builder(vec![]);
    let x = b.alloc_temp(Type::Str);
    let y = b.alloc_temp(Type::Str);
    b.set_slot(2, x);
    b.set_slot(3, y);
    b.set_params(list_of(vec![
        IrParam { temp: x, ty: Type::Str },
        IrParam { temp: y, ty: Type::Str },
    ]));
    let swapped = tail_call(
        vec![get(3, Type::Str), get(2, Type::Str)],
        vec![Type::Str, Type::Str],
    );
    lower_expr(&swapped, &mut b, &mut c);
    assert_eq!(code(&b, 0), vec!["retain t1", "retain t0"]);
    assert_eq!(term(&b.blocks[0].term), "tail(t1,t0)");

    let mut b = builder(vec![]);
    let z = b.alloc_temp(Type::Str);
    b.register_owned(z, Type::Str);
    b.set_slot(2, z);
    lower_expr(&tail_call(vec![get(2, Type::Str)], vec![Type::Str]), &mut b, &mut c);
    assert_eq!(code(&b, 0), vec!["retain t0", "release t0"]);
}

#[test]
fn unknown_operations_are_called_by_name() {
    let mut b = builder(vec![(1, "lin_frobnicate"), (2, "lin_length"), (3, "lin_stream_for")]);
    let mut c = ctx();
    let f = || fun(vec![], Type::Int32);
    lower_expr(&call(get(1, f()), vec![num(1)], Type::Int32), &mut b, &mut c);
    lower_expr(&call(get(2, f()), vec![string("abc")], Type::Int32), &mut b, &mut c);
    lower_expr(&call(get(3, f()), vec![], Type::Int32), &mut b, &mut c);
    assert_eq!(
        code(&b, 0),
        vec![
            "t0 = 1",
            "t1 = call lin_frobnicate(t0)",
            "t2 = \"abc\"",
            "t3 = Length(t2)",
            "t4 = call lin_stream_for()"
        ]
    );
}

#[test]
fn pushing_a_fresh_value_hands_its_reference_over() {
    let mut b = builder(vec![(1, "lin_push")]);
    let mut c = ctx();
    let a = b.alloc_temp(array(Type::Str));
    b.set_slot(2, a);
    let e = call(
        get(1, fun(vec![], Type::Null)),
        vec![get(2, array(Type::Str)), string("x")],
        Type::Null,
    );
    lower_expr(&e, &mut b, &mut c);
    assert_eq!(code(&b, 0), vec!["retain t0", "t1 = \"x\"", "t2 = Push(t0,t1)"]);
    assert!(!b.is_owned_in_scope(Temp(1)));
}

#[test]
fn a_range_loop_counts_without_an_array() {
    let mut b = builder(vec![(1, "lin_for"), (2, "lin_range"), (3, "lin_print")]);
    let mut c = ctx();
    let arr = b.alloc_temp(array(Type::Int32));
    b.set_slot(9, arr);
    let body = TypedExpr::Index {
        object: Rc::new(get(9, array(Type::Int32))),
        key: Rc::new(get(20, Type::Int32)),
        result_type: Type::Int32,
        span: sp(),
    };
    let range = call(get(2, fun(vec![], json())), vec![num(0), num(10)], array(Type::Int32));
    let e = call(
        get(1, fun(vec![], Type::Null)),
        vec![range, lambda(vec![param(20, Type::Int32)], body, Type::Int32)],
        Type::Null,
    );
    lower_expr(&e, &mut b, &mut c);
    assert_eq!(labels(&b), vec!["entry", "range_for_header", "range_for_body", "range_for_exit"]);
    assert_eq!(code(&b, 1), vec!["t3 = phi t1@0 t4@2", "t5 = t3 Lt t2"]);
    assert_eq!(
        code(&b, 2),
        vec!["t6 = t0[t3] nonneg", "release t6", "t7 = 1", "t4 = t3 Add t7"]
    );
    assert_eq!(term(&b.blocks[2].term), "jump 1");
    assert!(items(&b.env.nonneg_range_ivs).is_empty());
}

#[test]
fn a_range_loop_from_a_negative_start_promises_nothing() {
    let mut b = builder(vec![(1, "lin_for"), (2, "lin_range")]);
    let mut c = ctx();
    let arr = b.alloc_temp(array(Type::Int32));
    b.set_slot(9, arr);
    let body = TypedExpr::Index {
        object: Rc::new(get(9, array(Type::Int32))),
        key: Rc::new(get(20, Type::Int32)),
        result_type: Type::Int32,
        span: sp(),
    };
    let range = call(get(2, fun(vec![], json())), vec![num(-3), num(10)], array(Type::Int32));
    let e = call(
        get(1, fun(vec![], Type::Null)),
        vec![range, lambda(vec![param(20, Type::Int32)], body, Type::Int32)],
        Type::Null,
    );
    lower_expr(&e, &mut b, &mut c);
    assert_eq!(code(&b, 2)[0], "t6 = t0[t3]");
}

fn inc(slot: usize) -> TypedExpr {
    lambda(
        vec![param(slot, Type::Int32)],
        binary(BinOp::Add, get(slot, Type::Int32), num(1), Type::Int32),
        Type::Int32,
    )
}

#[test]
fn map_inlines_its_callback() {
    let mut b = builder(vec![(1, "lin_map")]);
    let mut c = ctx();
    let src = make_array(vec![num(1), num(2)], array(Type::Int32));
    let e = call(get(1, fun(vec![], json())), vec![src, inc(20)], array(Type::Int32));
    let t = lower_expr(&e, &mut b, &mut c);
    assert_eq!(labels(&b), vec!["entry", "for_header", "for_body", "for_latch", "for_exit"]);
    assert_eq!(
        code(&b, 0),
        vec![
            "t0 = 1",
            "t1 = 2",
            "t2 = [t0,t1]",
            "t3 = FlatArrayAlloc(I32)()",
            "t4 = Length(t2)",
            "t5 = 0"
        ]
    );
    assert_eq!(code(&b, 1), vec!["t6 = phi t5@0 t7@3", "t8 = t6 Lt t4"]);
    assert_eq!(
        code(&b, 2),
        vec![
            "t9 = t2[t6]",
            "t10 = coerce t6",
            "t11 = 1",
            "t12 = t9 Add t11",
            "t13 = FlatArrayPush(I32)(t3,t12)"
        ]
    );
    assert_eq!(code(&b, 3), vec!["t14 = 1", "t7 = t6 Add t14"]);
    assert_eq!(t.0, 3);
    assert!(b.is_owned_in_current_scope(t));
}

#[test]
fn a_chain_of_combinators_is_one_loop() {
    let mut b = builder(vec![(1, "lin_map"), (2, "lin_filter")]);
    let mut c = ctx();
    let src = make_array(vec![num(1), num(2)], array(Type::Int32));
    let keep = lambda(
        vec![param(21, Type::Int32)],
        binary(BinOp::Gt, get(21, Type::Int32), num(1), Type::Bool),
        Type::Bool,
    );
    let filtered = call(get(2, fun(vec![], json())), vec![src, keep], array(Type::Int32));
    let e = call(get(1, fun(vec![], json())), vec![filtered, inc(20)], array(Type::Int32));
    lower_expr(&e, &mut b, &mut c);
    let l = labels(&b);
    assert_eq!(l.iter().filter(|x| **x == "for_header").count(), 1);
    assert!(l.contains(&"fuse_keep") && l.contains(&"fuse_drop") && l.contains(&"fuse_cont"));
    assert!(every_jump_exists(&b));
}

#[test]
fn reduce_carries_its_accumulator() {
    let mut b = builder(vec![(1, "lin_reduce")]);
    let mut c = ctx();
    let src = make_array(vec![num(1), num(2)], array(Type::Int32));
    let sum = lambda(
        vec![param(20, Type::Int32), param(21, Type::Int32)],
        binary(BinOp::Add, get(20, Type::Int32), get(21, Type::Int32), Type::Int32),
        Type::Int32,
    );
    let e = call(get(1, fun(vec![], json())), vec![src, num(0), sum], Type::Int32);
    let t = lower_expr(&e, &mut b, &mut c);
    assert_eq!(labels(&b), vec!["entry", "reduce_header", "reduce_body", "reduce_exit"]);
    assert_eq!(
        code(&b, 1),
        vec!["t6 = phi t5@0 t7@2", "t8 = phi t3@0 t12@2", "t9 = t6 Lt t4"]
    );
    assert_eq!(
        code(&b, 2),
        vec!["t10 = coerce t6", "t11 = t2[t6]", "t12 = t8 Add t11", "t13 = 1", "t7 = t6 Add t13"]
    );
    assert_eq!(t.0, 8);
}

#[test]
fn reduce_with_a_named_function_feeds_its_result_back() {
    let mut tables = Tables::new();
    tables.global_fn_slots.insert(5, FuncId(7));
    let mut c = ctx_with(tables);
    let mut b = builder(vec![(1, "lin_reduce")]);
    let src = make_array(vec![num(1)], array(Type::Int32));
    let f = get(5, fun(vec![Type::Int32, Type::Int32], Type::Int32));
    let e = call(get(1, fun(vec![], json())), vec![src, num(0), f], Type::Int32);
    lower_expr(&e, &mut b, &mut c);
    let body = code(&b, 2);
    let result = body.iter().find(|x| x.contains("call f7")).unwrap();
    let dst = result.split(' ').next().unwrap();
    assert!(code(&b, 1)[1].ends_with(&format!("{}@2", dst)));
}

#[test]
fn some_and_every_stop_when_settled() {
    let pred = || {
        lambda(
            vec![param(20, Type::Int32)],
            binary(BinOp::Gt, get(20, Type::Int32), num(1), Type::Bool),
            Type::Bool,
        )
    };
    for (name, init, op) in [("lin_some", "false", "Or"), ("lin_every", "true", "And")] {
        let mut b = builder(vec![(1, name)]);
        let mut c = ctx();
        let src = make_array(vec![num(1)], array(Type::Int32));
        let e = call(get(1, fun(vec![], json())), vec![src, pred()], Type::Bool);
        let t = lower_expr(&e, &mut b, &mut c);
        assert!(code(&b, 0).contains(&format!("t4 = {}", init)));
        assert_eq!(t.0, 7);
        assert!(code(&b, 2).last().unwrap().starts_with(&format!("t8 = t7 {}", op)));
        assert!(every_jump_exists(&b));
    }
}

#[test]
fn find_converts_its_result() {
    let mut b = builder(vec![(1, "lin_find")]);
    let mut c = ctx();
    let src = make_array(vec![num(1)], array(Type::Int32));
    let pred = lambda(
        vec![param(20, Type::Int32)],
        binary(BinOp::Gt, get(20, Type::Int32), num(1), Type::Bool),
        Type::Bool,
    );
    let res = Type::Union(list_of(vec![Type::Int32, Type::Null]));
    let e = call(get(1, fun(vec![], json())), vec![src, pred], res);
    lower_expr(&e, &mut b, &mut c);
    let exit = b.env.current_block.0 as usize;
    assert_eq!(b.blocks[exit].label, "find_exit");
    assert_eq!(code(&b, exit).len(), 1);
    assert!(code(&b, exit)[0].contains("coerce"));
}

#[test]
fn sorting_numbers_merges_runs() {
    let mut b = builder(vec![(1, "lin_sort")]);
    let mut c = ctx();
    let src = make_array(vec![num(2), num(1)], array(Type::Int32));
    let order = lambda(
        vec![param(20, Type::Int32), param(21, Type::Int32)],
        binary(BinOp::Sub, get(20, Type::Int32), get(21, Type::Int32), Type::Int32),
        Type::Int32,
    );
    let e = call(get(1, fun(vec![], json())), vec![src, order], array(Type::Int32));
    lower_expr(&e, &mut b, &mut c);
    let l = labels(&b);
    for want in ["sort_copy_hdr", "sort_w_hdr", "sort_lo_hdr", "sort_m_hdr", "sort_cb_hdr"] {
        assert!(l.contains(&want));
    }
    assert_eq!(l.iter().filter(|x| **x == "min_mrg").count(), 2);
    assert_eq!(b.blocks[b.env.current_block.0 as usize].label, "sort_w_exit");
    assert!(every_jump_exists(&b));
}

#[test]
fn a_closure_captures_with_a_reference_of_its_own() {
    let mut b = builder(vec![]);
    let mut c = ctx();
    let s = b.alloc_temp(Type::Str);
    b.set_slot(1, s);
    let e = TypedExpr::Function {
        name: Some("f".to_string()),
        params: list_of(vec![param(2, Type::Int32)]),
        body: Rc::new(get(1, Type::Str)),
        ret_type: Type::Str,
        captures: list_of(vec![Capture { outer_slot: 1, ty: Type::Str, is_mutable: false }]),
        span: sp(),
    };
    let t = lower_expr(&e, &mut b, &mut c);
    assert_eq!(code(&b, 0), vec!["retain t0", "t1 = closure f10(t0)"]);
    assert!(b.is_owned_in_current_scope(t));
    assert_eq!(c.pending_functions.len(), 1);
    let f = &c.pending_functions[0];
    assert!(f.is_closure);
    assert_eq!(items(&f.params).len(), 2);
    assert!(matches!(f.ret_ty, Type::TypeVar(u32::MAX)));
    let body = function_code(f, 0);
    assert!(body.contains(&"retain t2".to_string()));
    assert!(body.contains(&"t3 = coerce t2".to_string()));
    assert_eq!(term(&items(&f.blocks)[0].term), "return t3");
}

#[test]
fn entry_block_stays_current_for_straight_code() {
    let (b, c, _) = lower(&binary(BinOp::Mul, num(6), num(7), Type::Int64));
    assert!(b.env.current_block == BlockId(0));
    assert!(!b.env.exhausted && !c.env.exhausted);
}

#[test]
fn a_record_that_is_projected_into_a_dictionary_is_handed_over() {
    let wide = || record(vec![("a", Type::Int32), ("b", Type::Int32)], false);
    let narrow = || record(vec![("a", Type::Int32)], false);
    let dict = || Type::Dict { value: Rc::new(narrow()) };
    let mut b = builder(vec![]);
    let mut c = ctx();
    let d = b.alloc_temp(dict());
    let r = b.alloc_temp(wide());
    b.set_slot(1, d);
    b.set_slot(2, r);
    let e = TypedExpr::IndexSet {
        object: Rc::new(get(1, dict())),
        key: Rc::new(string("k")),
        value: Rc::new(get(2, wide())),
        obj_ty: dict(),
        span: sp(),
    };
    lower_expr(&e, &mut b, &mut c);
    assert_eq!(
        code(&b, 0),
        vec!["t2 = \"k\"", "retain t1", "t3 = coerce t1", "t0[t2] = t3", "retain t3"]
    );
}

fn dump(b: &FuncBuilder) -> Vec<String> {
    let mut out = Vec::new();
    for (i, block) in b.blocks.iter().enumerate() {
        out.push(format!("{}:", block.label));
        out.extend(code(b, i));
        out.push(term(&block.term));
    }
    out
}

fn is_even() -> TypedExpr {
    lambda(
        vec![param(5, Type::Int32)],
        binary(BinOp::Eq, get(5, Type::Int32), num(0), Type::Bool),
        Type::Bool,
    )
}

fn over_numbers(op: &str, callback: TypedExpr, ty: Type) -> FuncBuilder {
    let mut b = builder(vec![(1, op)]);
    let mut c = ctx();
    let xs = b.alloc_temp(array(Type::Int32));
    b.set_slot(2, xs);
    let e = call(
        get(1, Type::Null),
        vec![get(2, array(Type::Int32)), callback],
        ty,
    );
    lower_expr(&e, &mut b, &mut c);
    b
}

#[test]
fn filter_pushes_what_it_keeps() {
    let b = over_numbers("lin_filter", is_even(), array(Type::Int32));
    assert_eq!(
        dump(&b),
        vec![
            "entry:",
            "retain t0",
            "t1 = FlatArrayAlloc(I32)()",
            "t2 = Length(t0)",
            "t3 = 0",
            "jump 1",
            "for_header:",
            "t4 = phi t3@0 t5@3",
            "t6 = t4 Lt t2",
            "if t6 2 else 4",
            "for_body:",
            "t7 = t0[t4]",
            "t8 = coerce t4",
            "t9 = coerce t7",
            "t10 = 0",
            "t11 = t9 Eq t10",
            "if t11 5 else 6",
            "for_latch:",
            "t14 = 1",
            "t5 = t4 Add t14",
            "jump 1",
            "for_exit:",
            "open",
            "filter_keep:",
            "t13 = coerce t7",
            "t12 = FlatArrayPush(I32)(t1,t13)",
            "free t7",
            "jump 7",
            "filter_drop:",
            "release t7",
            "jump 7",
            "filter_skip:",
            "jump 3",
        ]
    );
}

#[test]
fn while_stops_at_the_first_false() {
    let b = over_numbers("lin_while", is_even(), Type::Null);
    assert_eq!(
        dump(&b),
        vec![
            "entry:",
            "retain t0",
            "t1 = Length(t0)",
            "t2 = 0",
            "jump 1",
            "for_header:",
            "t3 = phi t2@0 t4@3",
            "t5 = t3 Lt t1",
            "if t5 2 else 4",
            "for_body:",
            "t6 = t0[t3]",
            "t7 = coerce t3",
            "t8 = coerce t6",
            "t9 = 0",
            "t10 = t8 Eq t9",
            "release t6",
            "if t10 3 else 4",
            "for_latch:",
            "t11 = 1",
            "t4 = t3 Add t11",
            "jump 1",
            "for_exit:",
            "t12 = null",
            "open",
        ]
    );
}

#[test]
fn for_releases_what_the_body_returns() {
    let body = lambda(vec![param(5, Type::Int32)], string("a"), Type::Str);
    let b = over_numbers("lin_for", body, Type::Null);
    assert_eq!(
        dump(&b),
        vec![
            "entry:",
            "retain t0",
            "t1 = Length(t0)",
            "t2 = 0",
            "jump 1",
            "for_header:",
            "t3 = phi t2@0 t4@3",
            "t5 = t3 Lt t1",
            "if t5 2 else 4",
            "for_body:",
            "t6 = t0[t3]",
            "t7 = coerce t3",
            "t8 = coerce t6",
            "t9 = \"a\"",
            "release t9",
            "release t6",
            "jump 3",
            "for_latch:",
            "t10 = 1",
            "t4 = t3 Add t10",
            "jump 1",
            "for_exit:",
            "t11 = null",
            "open",
        ]
    );
}

#[test]
fn a_range_fills_an_array() {
    let mut b = builder(vec![(1, "lin_range")]);
    let mut c = ctx();
    let e = call(get(1, Type::Null), vec![num(0), num(3)], array(Type::Int32));
    lower_expr(&e, &mut b, &mut c);
    assert_eq!(
        dump(&b),
        vec![
            "entry:",
            "t0 = 0",
            "t1 = 3",
            "t2 = FlatArrayAlloc(I32)()",
            "jump 1",
            "range_header:",
            "t3 = phi t0@0 t4@2",
            "t5 = t3 Lt t1",
            "if t5 2 else 3",
            "range_body:",
            "t6 = FlatArrayPush(I32)(t2,t3)",
            "t7 = 1",
            "t4 = t3 Add t7",
            "jump 1",
            "range_exit:",
            "open",
        ]
    );
}

#[test]
fn a_loop_without_arguments_runs_its_condition() {
    let mut tables = Tables::new();
    tables.import_fn_slots.insert(
        1,
        ImportFn { sym: "std_iter_while".to_string(), params: List::Nil },
    );
    let mut c = ctx_with(tables);
    let mut b = builder(vec![]);
    let e = call(
        get(1, Type::Null),
        vec![lambda(vec![], TypedExpr::BoolLit(false, sp()), Type::Bool)],
        Type::Null,
    );
    lower_expr(&e, &mut b, &mut c);
    assert_eq!(
        dump(&b),
        vec![
            "entry:",
            "jump 1",
            "while_header:",
            "t0 = false",
            "if t0 1 else 2",
            "while_exit:",
            "t1 = null",
            "open",
        ]
    );
}

#[test]
fn entries_are_walked_without_an_array() {
    let mut tables = Tables::new();
    tables.import_fn_slots.insert(
        1,
        ImportFn { sym: "std_object_entries".to_string(), params: List::Nil },
    );
    let mut c = ctx_with(tables);
    let mut b = builder(vec![]);
    let dict = || Type::Dict { value: Rc::new(Type::Int32) };
    let d = b.alloc_temp(dict());
    b.set_slot(2, d);
    let e = call(
        get(1, Type::Null),
        vec![get(2, dict()), lambda(vec![param(5, json())], num(1), Type::Int32)],
        Type::Null,
    );
    lower_expr(&e, &mut b, &mut c);
    assert_eq!(
        dump(&b),
        vec![
            "entry:",
            "retain t0",
            "t1 = call lin_map_raw_len(t0)",
            "t2 = 0",
            "jump 1",
            "entries_header:",
            "t3 = phi t2@0 t4@3",
            "t5 = t3 Lt t1",
            "if t5 2 else 4",
            "entries_body:",
            "t6 = call lin_map_raw_key_at(t0,t3)",
            "t7 = call lin_map_raw_value_at(t0,t3)",
            "t8 = [t6,t7]",
            "t9 = coerce t8",
            "t10 = 1",
            "release t10",
            "release t9",
            "jump 3",
            "entries_latch:",
            "t11 = 1",
            "t4 = t3 Add t11",
            "jump 1",
            "entries_exit:",
            "t12 = null",
            "open",
        ]
    );
}

#[test]
fn an_iteration_collects_until_its_condition_fails() {
    let mut b = builder(vec![(1, "lin_iter")]);
    let mut c = ctx();
    let state = || fun(vec![json()], json());
    for slot in [2usize, 3, 4] {
        let t = b.alloc_temp(state());
        b.set_slot(slot, t);
    }
    let e = call(
        get(1, Type::Null),
        vec![num(0), get(2, state()), get(3, state()), get(4, state())],
        array(json()),
    );
    lower_expr(&e, &mut b, &mut c);
    assert_eq!(
        dump(&b),
        vec![
            "entry:",
            "t3 = 0",
            "retain t0",
            "retain t1",
            "retain t2",
            "t4 = ArrayAlloc()",
            "t5 = call *t3()",
            "jump 1",
            "iter_header:",
            "t6 = phi t5@0 t7@2",
            "t8 = call *t0(t6)",
            "if t8 2 else 3",
            "iter_body:",
            "t9 = call *t2(t6)",
            "t10 = Push(t4,t9)",
            "t7 = call *t1(t6)",
            "jump 1",
            "iter_exit:",
            "open",
        ]
    );
}

#[test]
fn a_flattening_callback_is_a_loop_in_a_loop() {
    let mut tables = Tables::new();
    tables.import_fn_slots.insert(
        1,
        ImportFn { sym: "std_iter_flatMap".to_string(), params: List::Nil },
    );
    let mut c = ctx_with(tables);
    let mut b = builder(vec![]);
    let xs = b.alloc_temp(array(Type::Int32));
    b.set_slot(2, xs);
    let f = lambda(
        vec![param(5, Type::Int32)],
        make_array(vec![get(5, Type::Int32)], array(Type::Int32)),
        array(Type::Int32),
    );
    let e = call(
        get(1, Type::Null),
        vec![get(2, array(Type::Int32)), f],
        array(Type::Int32),
    );
    lower_expr(&e, &mut b, &mut c);
    assert_eq!(
        dump(&b),
        vec![
            "entry:",
            "t1 = FlatArrayAlloc(I32)()",
            "retain t0",
            "t2 = Length(t0)",
            "t3 = 0",
            "jump 1",
            "for_header:",
            "t4 = phi t3@0 t5@3",
            "t6 = t4 Lt t2",
            "if t6 2 else 4",
            "for_body:",
            "t7 = t0[t4]",
            "t8 = coerce t4",
            "t9 = coerce t7",
            "t10 = [t9]",
            "release t7",
            "t11 = Length(t10)",
            "t12 = 0",
            "jump 6",
            "for_latch:",
            "t20 = 1",
            "t5 = t4 Add t20",
            "jump 1",
            "for_exit:",
            "open",
            "fm_src_cont:",
            "jump 3",
            "for_header:",
            "t13 = phi t12@2 t14@8",
            "t15 = t13 Lt t11",
            "if t15 7 else 9",
            "for_body:",
            "t16 = t10[t13]",
            "t17 = 0",
            "t18 = FlatArrayPush(I32)(t1,t16)",
            "jump 10",
            "for_latch:",
            "t19 = 1",
            "t14 = t13 Add t19",
            "jump 6",
            "for_exit:",
            "release t10",
            "jump 5",
            "fm_inner_cont:",
            "jump 8",
        ]
    );
}

#[test]
fn a_dynamic_value_is_checked_against_a_type() {
    let mut b = builder(vec![]);
    let mut c = ctx();
    let e = TypedExpr::FromJson {
        target: Type::Int32,
        value: Rc::new(num(1)),
        result_type: json(),
        named_defs: List::Nil,
        span: sp(),
    };
    lower_expr(&e, &mut b, &mut c);
    assert_eq!(
        dump(&b),
        vec![
            "entry:",
            "t0 = 1",
            "t1 = coerce t0",
            "t2 = FromJson { target: Int32, named_defs: Nil }(t1)",
            "open",
        ]
    );
}

#[test]
fn reduce_with_a_closure_carries_a_box() {
    let mut b = builder(vec![(1, "lin_reduce")]);
    let mut c = ctx();
    let xs = b.alloc_temp(array(Type::Int32));
    let f = b.alloc_temp(fun(vec![json(), json()], json()));
    b.set_slot(2, xs);
    b.set_slot(3, f);
    let e = call(
        get(1, Type::Null),
        vec![
            get(2, array(Type::Int32)),
            num(0),
            get(3, fun(vec![json(), json()], json())),
        ],
        Type::Int32,
    );
    lower_expr(&e, &mut b, &mut c);
    assert_eq!(
        dump(&b),
        vec![
            "entry:",
            "retain t0",
            "t2 = 0",
            "t3 = coerce t2",
            "retain t1",
            "t4 = Length(t0)",
            "t5 = 0",
            "jump 1",
            "reduce_header:",
            "t6 = phi t5@0 t7@2",
            "t8 = phi t3@0 t9@2",
            "t10 = t6 Lt t4",
            "if t10 2 else 3",
            "reduce_body:",
            "t11 = t0[t6]",
            "t9 = call *t1(t8,t11)",
            "release t11 unless t9",
            "t12 = 1",
            "t7 = t6 Add t12",
            "jump 1",
            "reduce_exit:",
            "t13 = coerce t8",
            "open",
        ]
    );
}

fn range_loop(step: Option<i64>, params: Vec<TypedParam>, body: TypedExpr) -> FuncBuilder {
    let mut tables = Tables::new();
    tables.range3_spec_slots.insert(3, ());
    let mut c = ctx_with(tables);
    let mut b = builder(vec![(1, "lin_for"), (2, "lin_range")]);
    let range = match step {
        None => call(get(2, fun(vec![], json())), vec![num(5), num(8)], array(Type::Int32)),
        Some(s) => call(
            get(3, fun(vec![], json())),
            vec![num(5), num(8), num(s)],
            array(Type::Int32),
        ),
    };
    let e = call(
        get(1, fun(vec![], Type::Null)),
        vec![range, lambda(params, body, Type::Int32)],
        Type::Null,
    );
    lower_expr(&e, &mut b, &mut c);
    b
}

#[test]
fn a_range_loop_counts_positions_from_zero() {
    let b = range_loop(
        None,
        vec![param(20, Type::Int32), param(21, Type::Int32)],
        binary(BinOp::Add, get(20, Type::Int32), get(21, Type::Int32), Type::Int32),
    );
    assert_eq!(
        dump(&b),
        vec![
            "entry:",
            "t0 = 5",
            "t1 = 8",
            "t2 = 0",
            "jump 1",
            "range_for_header:",
            "t3 = phi t0@0 t4@2",
            "t5 = phi t2@0 t6@2",
            "t7 = t3 Lt t1",
            "if t7 2 else 3",
            "range_for_body:",
            "t8 = t3 Add t5",
            "release t8",
            "t9 = 1",
            "t4 = t3 Add t9",
            "t10 = 1",
            "t6 = t5 Add t10",
            "jump 1",
            "range_for_exit:",
            "t11 = null",
            "open",
        ]
    );
}

#[test]
fn a_range_with_a_step_goes_on_in_the_direction_of_the_step() {
    let b = range_loop(Some(-2), vec![param(20, Type::Int32)], get(20, Type::Int32));
    assert_eq!(
        dump(&b),
        vec![
            "entry:",
            "t0 = 5",
            "t1 = 8",
            "t2 = -2",
            "jump 1",
            "range_for_header:",
            "t3 = phi t0@0 t4@2",
            "t5 = 0",
            "t6 = t2 Gt t5",
            "t7 = t3 Lt t1",
            "t8 = t6 And t7",
            "t9 = t2 Lt t5",
            "t10 = t3 Gt t1",
            "t11 = t9 And t10",
            "t12 = t8 Or t11",
            "if t12 2 else 3",
            "range_for_body:",
            "release t3",
            "t4 = t3 Add t2",
            "jump 1",
            "range_for_exit:",
            "t13 = null",
            "open",
        ]
    );
}

#[test]
fn positions_behind_a_filter_count_what_passed_it() {
    let mut b = builder(vec![(1, "lin_map"), (2, "lin_filter")]);
    let mut c = ctx();
    let src = make_array(vec![num(5), num(6), num(7)], array(Type::Int32));
    let keep = lambda(
        vec![param(21, Type::Int32)],
        binary(BinOp::Gt, get(21, Type::Int32), num(5), Type::Bool),
        Type::Bool,
    );
    let place = lambda(
        vec![param(22, Type::Int32), param(23, Type::Int32)],
        get(23, Type::Int32),
        Type::Int32,
    );
    let filtered = call(get(2, fun(vec![], json())), vec![src, keep], array(Type::Int32));
    let e = call(get(1, fun(vec![], json())), vec![filtered, place], array(Type::Int32));
    lower_expr(&e, &mut b, &mut c);
    assert_eq!(
        dump(&b),
        vec![
            "entry:",
            "t0 = FlatArrayAlloc(I32)()",
            "t1 = 5",
            "t2 = 6",
            "t3 = 7",
            "t4 = [t1,t2,t3]",
            "t5 = 0",
            "t6 = cell t5",
            "t7 = Length(t4)",
            "t8 = 0",
            "jump 1",
            "for_header:",
            "t9 = phi t8@0 t10@3",
            "t11 = t9 Lt t7",
            "if t11 2 else 4",
            "for_body:",
            "t12 = t4[t9]",
            "t13 = coerce t9",
            "t14 = 5",
            "t15 = t12 Gt t14",
            "if t15 6 else 7",
            "for_latch:",
            "t20 = 1",
            "t10 = t9 Add t20",
            "jump 1",
            "for_exit:",
            "freecell t6",
            "open",
            "fuse_cont:",
            "jump 3",
            "fuse_keep:",
            "t16 = get t6",
            "t17 = 1",
            "t18 = t16 Add t17",
            "set t6 t18",
            "t19 = FlatArrayPush(I32)(t0,t16)",
            "jump 5",
            "fuse_drop:",
            "jump 5",
        ]
    );
}

#[test]
fn a_packed_element_is_released_once_whether_kept_or_not() {
    let point = || record(vec![("x", Type::Int32), ("s", Type::Str)], true);
    let mut b = builder(vec![(1, "lin_filter")]);
    let mut c = ctx();
    let xs = b.alloc_temp(array(point()));
    b.set_slot(2, xs);
    let keep = lambda(vec![param(5, point())], TypedExpr::BoolLit(true, sp()), Type::Bool);
    let e = call(
        get(1, Type::Null),
        vec![get(2, array(point())), keep],
        array(point()),
    );
    lower_expr(&e, &mut b, &mut c);
    assert_eq!(
        dump(&b),
        vec![
            "entry:",
            "retain t0",
            "t1 = ArrayAlloc()",
            "t2 = Length(t0)",
            "t3 = 0",
            "jump 1",
            "for_header:",
            "t4 = phi t3@0 t5@3",
            "t6 = t4 Lt t2",
            "if t6 2 else 4",
            "for_body:",
            "t7 = t0[t4]",
            "t8 = coerce t4",
            "t9 = true",
            "if t9 5 else 6",
            "for_latch:",
            "t12 = 1",
            "t5 = t4 Add t12",
            "jump 1",
            "for_exit:",
            "open",
            "filter_keep:",
            "t11 = coerce t7",
            "t10 = Push(t1,t11)",
            "release t11",
            "release t7",
            "jump 7",
            "filter_drop:",
            "release t7",
            "jump 7",
            "filter_skip:",
            "jump 3",
        ]
    );
}

#[test]
fn a_closure_that_is_not_fresh_is_retained_for_a_call() {
    let f = || fun(vec![Type::Int32], Type::Int32);
    let mut tables = Tables::new();
    tables.import_fn_slots.insert(
        1,
        ImportFn { sym: "m_apply".to_string(), params: list_of(vec![f()]) },
    );
    let mut c = ctx_with(tables);
    let mut b = builder(vec![]);
    let held = b.alloc_temp(f());
    b.set_slot(2, held);
    let apply = || get(1, fun(vec![f()], Type::Int32));
    lower_expr(&call(apply(), vec![get(2, f())], Type::Int32), &mut b, &mut c);
    lower_expr(&call(apply(), vec![inc(20)], Type::Int32), &mut b, &mut c);
    assert_eq!(
        dump(&b),
        vec![
            "entry:",
            "retain t0",
            "retain t0",
            "t1 = call m_apply(t0)",
            "t2 = closure f10()",
            "t3 = call m_apply(t2)",
            "open",
        ]
    );
    assert!(b.is_owned_in_scope(held));
    assert!(!b.is_owned_in_scope(Temp(2)));
}

#[test]
fn a_capture_fits_a_cell_that_holds_it_as_it_is_read() {
    let mut b = builder(vec![]);
    let c = ctx();
    let cell = b.alloc_temp(json());
    b.set_slot(1, cell);
    b.set_cell_slot(1, json());
    let capture = |ty: Type| Capture { outer_slot: 1, ty, is_mutable: true };
    assert!(capture_resolvable(&capture(json()), &b, &c));
    assert!(capture_resolvable(&capture(Type::Null), &b, &c));
    assert!(!capture_resolvable(&capture(Type::Str), &b, &c));
    b.set_cell_slot(1, Type::Str);
    assert!(capture_resolvable(&capture(Type::Str), &b, &c));
    assert!(!capture_resolvable(&capture(json()), &b, &c));
    let plain = b.alloc_temp(Type::Str);
    b.set_slot(2, plain);
    let at = |is_mutable| Capture { outer_slot: 2, ty: Type::Str, is_mutable };
    assert!(capture_resolvable(&at(false), &b, &c));
    assert!(!capture_resolvable(&at(true), &b, &c));
}

#[test]
fn variables_of_a_function_live_in_cells_where_its_own_body_asks_for_it() {
    let body = TypedExpr::Block {
        stmts: list_of(vec![
            TypedStmt::Var {
                slot: 30,
                name: None,
                value: Rc::new(string("a")),
                ty: Type::Str,
                span: sp(),
            },
            TypedStmt::Expr(TypedExpr::If {
                cond: Rc::new(TypedExpr::BoolLit(true, sp())),
                then_br: Rc::new(TypedExpr::LocalSet {
                    slot: 30,
                    value: Rc::new(string("b")),
                    ty: Type::Str,
                    span: sp(),
                }),
                else_br: Rc::new(TypedExpr::NullLit(sp())),
                result_type: Type::Null,
                span: sp(),
            }),
        ]),
        expr: Rc::new(num(1)),
        ty: Type::Int32,
        span: sp(),
    };
    let (b, c, _) = lower(&lambda(vec![], body, Type::Int32));
    assert!(b.cell_vars.is_empty());
    let f = &c.pending_functions[0];
    assert!(function_code(f, 0).iter().any(|x| x.contains("= cell t")));
}

fn search_in(elem: Type) -> FuncBuilder {
    let mut b = builder(vec![(1, "lin_find")]);
    let mut c = ctx();
    let xs = b.alloc_temp(array(elem.dup()));
    b.set_slot(2, xs);
    let pred = lambda(vec![param(5, elem.dup())], TypedExpr::BoolLit(true, sp()), Type::Bool);
    let e = call(get(1, Type::Null), vec![get(2, array(elem)), pred], json());
    lower_expr(&e, &mut b, &mut c);
    b
}

fn block_of(b: &FuncBuilder, label: &str) -> Vec<String> {
    let k = b.blocks.iter().position(|x| x.label == label).unwrap();
    code(b, k)
}

#[test]
fn an_element_that_is_found_is_owned_by_its_box() {
    let strings = search_in(Type::Str);
    assert_eq!(block_of(&strings, "find_keep"), vec!["retain t14", "t17 = coerce t14"]);
    assert!(block_of(&strings, "find_skip").is_empty());
    let records = search_in(record(vec![("x", Type::Int32), ("s", Type::Str)], true));
    assert_eq!(block_of(&records, "find_keep"), vec!["t17 = coerce t14", "release t14"]);
    assert_eq!(block_of(&records, "find_skip"), vec!["release t14"]);
    let boxes = search_in(json());
    assert!(block_of(&boxes, "find_keep").is_empty());
    assert_eq!(block_of(&boxes, "find_skip"), vec!["release t14"]);
}

#[test]
fn the_scope_owns_a_reduced_dictionary() {
    let dict = || Type::Dict { value: Rc::new(Type::Int32) };
    let mut b = builder(vec![(1, "lin_reduce")]);
    let mut c = ctx();
    let xs = b.alloc_temp(array(Type::Int32));
    let d = b.alloc_temp(dict());
    b.set_slot(2, xs);
    b.set_slot(3, d);
    let f = lambda(vec![param(20, dict()), param(21, Type::Int32)], get(20, dict()), dict());
    let e = call(
        get(1, Type::Null),
        vec![get(2, array(Type::Int32)), get(3, dict()), f],
        dict(),
    );
    let t = lower_expr(&e, &mut b, &mut c);
    assert!(labels(&b).contains(&"hreduce_header"));
    assert!(!b.is_owned_in_scope(d));
    assert!(b.is_owned_in_current_scope(t));
}
