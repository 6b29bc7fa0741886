use std::collections::HashSet;
use std::rc::Rc;

use lin_ir::analysis::{
    collect_branch_reassigned_var_slots_stmts, collect_mutable_capture_slots_expr,
    elem_used_only_for_scalar_fields, expr_is_fresh_alloc, expr_reassigns_slot, stmt_defines_slot,
    stmt_reassigns_slot,
};
use lin_ir::ast::{
    BinOp, BoundField, Capture, MatchArm, Span, TypedExpr, TypedPattern, TypedStmt,
};
use lin_ir::builder::FuncBuilder;
use lin_ir::ir::FuncId;
use lin_ir::list::{list_of, List};
use lin_ir::types::{json, Field, Type};

fn sp() -> Span {
    Span { start: 0, end: 0 }
}

fn num(v: i64) -> TypedExpr {
    TypedExpr::IntLit(v, Type::Int32, sp())
}

fn text(s: &str) -> TypedExpr {
    TypedExpr::StringLit(s.to_string(), Type::Str, sp())
}

fn get(slot: usize, ty: Type) -> TypedExpr {
    TypedExpr::LocalGet { slot, ty, span: sp() }
}

fn set(slot: usize, value: TypedExpr, ty: Type) -> TypedExpr {
    TypedExpr::LocalSet { slot, value: Rc::new(value), ty, span: sp() }
}

fn when(cond: TypedExpr, a: TypedExpr, b: TypedExpr, ty: Type) -> TypedExpr {
    TypedExpr::If {
        cond: Rc::new(cond),
        then_br: Rc::new(a),
        else_br: Rc::new(b),
        result_type: ty,
        span: sp(),
    }
}

fn var(slot: usize, value: TypedExpr, ty: Type) -> TypedStmt {
    TypedStmt::Var { slot, name: None, value: Rc::new(value), ty, span: sp() }
}

fn val(slot: usize, value: TypedExpr, ty: Type) -> TypedStmt {
    TypedStmt::Val { slot, name: None, value: Rc::new(value), ty, span: sp() }
}

fn closure(captures: Vec<Capture>, body: TypedExpr) -> TypedExpr {
    TypedExpr::Function {
        name: None,
        params: List::Nil,
        body: Rc::new(body),
        ret_type: Type::Null,
        captures: list_of(captures),
        span: sp(),
    }
}

fn call(args: Vec<TypedExpr>) -> TypedExpr {
    TypedExpr::Call {
        func: Rc::new(get(90, Type::Null)),
        args: list_of(args),
        result_type: Type::Str,
        is_tail: false,
        partial: false,
        span: sp(),
    }
}

fn point() -> Type {
    Type::Object {
        fields: list_of(vec![Field { name: "x".to_string(), ty: Type::Int32 }]),
        sealed: true,
        name: None,
    }
}

fn field(slot: usize) -> TypedExpr {
    TypedExpr::FieldGet {
        object: Rc::new(get(slot, point())),
        field: "x".to_string(),
        result_type: Type::Int32,
        span: sp(),
    }
}

fn indexed(slot: usize, key: TypedExpr) -> TypedExpr {
    TypedExpr::Index {
        object: Rc::new(get(slot, point())),
        key: Rc::new(key),
        result_type: Type::Int32,
        span: sp(),
    }
}

fn add(l: TypedExpr, r: TypedExpr) -> TypedExpr {
    TypedExpr::BinaryOp {
        left: Rc::new(l),
        op: BinOp::Add,
        right: Rc::new(r),
        result_type: Type::Int32,
        span: sp(),
    }
}

fn arm(guard: Option<TypedExpr>, body: TypedExpr) -> MatchArm {
    MatchArm { pattern: TypedPattern::Wildcard(sp()), guard: guard.map(Rc::new), body }
}

fn matching(arms: Vec<MatchArm>, ty: Type) -> TypedExpr {
    TypedExpr::Match {
        scrutinee: Rc::new(num(1)),
        arms: list_of(arms),
        result_type: ty,
        span: sp(),
    }
}

#[test]
fn fresh_values() {
    assert!(expr_is_fresh_alloc(&call(vec![])));
    assert!(expr_is_fresh_alloc(&closure(vec![], num(1))));
    assert!(!expr_is_fresh_alloc(&get(1, Type::Str)));
}

#[test]
fn a_branching_expression_is_fresh_where_every_branch_is() {
    let fresh = when(num(1), call(vec![]), call(vec![]), Type::Str);
    let mixed = when(num(1), call(vec![]), get(1, Type::Str), Type::Str);
    assert!(expr_is_fresh_alloc(&fresh));
    assert!(!expr_is_fresh_alloc(&mixed));
    assert!(expr_is_fresh_alloc(&matching(vec![arm(None, call(vec![]))], Type::Str)));
    assert!(!expr_is_fresh_alloc(&matching(
        vec![arm(None, call(vec![])), arm(None, get(1, Type::Str))],
        Type::Str,
    )));
}

#[test]
fn statements_define_slots() {
    assert!(stmt_defines_slot(&val(4, num(1), Type::Int32), 4));
    assert!(!stmt_defines_slot(&val(4, num(1), Type::Int32), 5));
    assert!(stmt_defines_slot(&var(4, num(1), Type::Int32), 4));
    let d = TypedStmt::Destructure {
        obj_slot: 1,
        fields: list_of(vec![BoundField { key: "x".to_string(), slot: 6, ty: Type::Int32 }]),
        value: Rc::new(num(1)),
        span: sp(),
    };
    assert!(stmt_defines_slot(&d, 6));
    assert!(!stmt_defines_slot(&d, 7));
    assert!(!stmt_defines_slot(&TypedStmt::Expr(set(4, num(1), Type::Int32)), 4));
}

#[test]
fn assignments_are_found_anywhere_but_in_functions() {
    let assign = set(3, num(1), Type::Int32);
    assert!(expr_reassigns_slot(&assign, 3));
    assert!(!expr_reassigns_slot(&assign, 4));
    let nested = when(num(1), add(num(1), set(3, num(1), Type::Int32)), num(2), Type::Int32);
    assert!(expr_reassigns_slot(&nested, 3));
    let guarded = matching(vec![arm(Some(set(3, num(1), Type::Int32)), num(1))], Type::Int32);
    assert!(expr_reassigns_slot(&guarded, 3));
    assert!(!expr_reassigns_slot(&closure(vec![], set(3, num(1), Type::Int32)), 3));
    assert!(stmt_reassigns_slot(&TypedStmt::Expr(set(3, num(1), Type::Int32)), 3));
    assert!(stmt_reassigns_slot(&val(9, set(3, num(1), Type::Int32), Type::Int32), 3));
}

#[test]
fn elements_used_only_for_their_fields() {
    assert!(elem_used_only_for_scalar_fields(&field(1), 1));
    assert!(elem_used_only_for_scalar_fields(&indexed(1, text("x")), 1));
    assert!(elem_used_only_for_scalar_fields(&add(field(1), num(2)), 1));
    assert!(!elem_used_only_for_scalar_fields(&get(1, point()), 1));
    assert!(elem_used_only_for_scalar_fields(&get(2, point()), 1));
    assert!(!elem_used_only_for_scalar_fields(&call(vec![get(1, point())]), 1));
    assert!(!elem_used_only_for_scalar_fields(&indexed(1, get(5, Type::Str)), 1));
    let captured = closure(
        vec![Capture { outer_slot: 1, ty: point(), is_mutable: false }],
        field(1),
    );
    assert!(!elem_used_only_for_scalar_fields(&captured, 1));
    let guarded = matching(vec![arm(Some(get(1, point())), num(1))], Type::Int32);
    assert!(!elem_used_only_for_scalar_fields(&guarded, 1));
}

#[test]
fn mutable_captures_are_collected() {
    let mut out = HashSet::new();
    let inner = closure(vec![Capture { outer_slot: 8, ty: Type::Str, is_mutable: true }], num(1));
    let outer = closure(
        vec![
            Capture { outer_slot: 3, ty: Type::Int32, is_mutable: true },
            Capture { outer_slot: 4, ty: Type::Int32, is_mutable: false },
        ],
        call(vec![inner]),
    );
    collect_mutable_capture_slots_expr(&outer, &mut out);
    let mut found: Vec<usize> = out.into_iter().collect();
    found.sort();
    assert_eq!(found, vec![3, 8]);
}

#[test]
fn counted_variables_assigned_to_in_branches_are_collected() {
    let stmts = list_of(vec![
        var(1, text("a"), Type::Str),
        var(2, num(1), Type::Int32),
        var(3, text("c"), Type::Str),
        TypedStmt::Expr(set(3, text("d"), Type::Str)),
        TypedStmt::Expr(when(
            num(1),
            set(1, text("b"), Type::Str),
            set(2, num(2), Type::Int32),
            Type::Null,
        )),
    ]);
    let mut owning = HashSet::new();
    let mut out = HashSet::new();
    collect_branch_reassigned_var_slots_stmts(&stmts, false, &mut owning, &mut out);
    let found: Vec<usize> = out.into_iter().collect();
    assert_eq!(found, vec![1]);
    assert!(owning.contains(&1) && owning.contains(&3) && !owning.contains(&2));
}

#[test]
fn what_was_found_before_stays_found() {
    let mut owning: HashSet<usize> = [5usize].into_iter().collect();
    let mut out: HashSet<usize> = [6usize].into_iter().collect();
    let stmts = list_of(vec![TypedStmt::Expr(when(
        num(1),
        set(5, text("b"), json()),
        num(1),
        Type::Null,
    ))]);
    collect_branch_reassigned_var_slots_stmts(&stmts, false, &mut owning, &mut out);
    assert!(out.contains(&5) && out.contains(&6));
    assert!(owning.contains(&5));
}

#[test]
fn variables_that_live_in_cells() {
    let stmts = list_of(vec![
        var(1, text("a"), Type::Str),
        var(2, num(1), Type::Int32),
        var(3, num(1), Type::Int32),
        TypedStmt::Expr(when(num(1), set(1, text("b"), Type::Str), num(2), Type::Null)),
        TypedStmt::Expr(closure(
            vec![Capture { outer_slot: 2, ty: Type::Int32, is_mutable: true }],
            num(1),
        )),
    ]);
    let mut b = FuncBuilder::new(FuncId(0), None, Type::Null, List::Nil);
    b.scan_stmts(&stmts);
    assert!(b.is_cell_var(1));
    assert!(b.is_cell_var(2));
    assert!(!b.is_cell_var(3));
}

#[test]
fn functions_inside_are_not_looked_through_for_branches() {
    let body = TypedExpr::Block {
        stmts: list_of(vec![
            var(7, text("a"), Type::Str),
            TypedStmt::Expr(when(num(1), set(7, text("b"), Type::Str), num(2), Type::Null)),
        ]),
        expr: Rc::new(num(1)),
        ty: Type::Int32,
        span: sp(),
    };
    let stmts = list_of(vec![val(1, closure(vec![], body), Type::Null)]);
    let mut owning = HashSet::new();
    let mut out = HashSet::new();
    collect_branch_reassigned_var_slots_stmts(&stmts, false, &mut owning, &mut out);
    assert!(out.is_empty());
    assert!(owning.is_empty());
}

#[test]
fn a_body_is_scanned_for_its_own_variables() {
    let body = TypedExpr::Block {
        stmts: list_of(vec![
            var(7, text("a"), Type::Str),
            TypedStmt::Expr(when(num(1), set(7, text("b"), Type::Str), num(2), Type::Null)),
            TypedStmt::Expr(closure(
                vec![Capture { outer_slot: 8, ty: Type::Int32, is_mutable: true }],
                num(1),
            )),
        ]),
        expr: Rc::new(num(1)),
        ty: Type::Int32,
        span: sp(),
    };
    let mut b = FuncBuilder::new(FuncId(0), None, Type::Null, List::Nil);
    b.cell_vars.insert(3);
    b.scan_body(&body);
    let mut found: Vec<usize> = b.cell_vars.iter().copied().collect();
    found.sort();
    assert_eq!(found, vec![3, 7, 8]);
}
