use std::rc::Rc;

use lin_ir::ast::{BinOp, Span, TypedExpr, TypedParam, TypedStmt};
use lin_ir::builder::{Entry, FuncBuilder};
use lin_ir::coerce::{
    coerce_and_own_store, coerce_if_branch, coerce_to_slot_type, lower_coerce_arg,
    move_streamish_arg, own_for_read, own_for_store,
};
use lin_ir::ctx::{ImportFn, LowerCtx, Tables};
use lin_ir::expr::lower_expr;
use lin_ir::func::effective_return;
use lin_ir::ir::{BlockId, CallTarget, FuncId, Instruction, Temp};
use lin_ir::list::{list_of, List};
use lin_ir::literal::{try_lower_elem_field, try_lower_sealed_literal};
use lin_ir::loops::free_new_cells;
use lin_ir::recognize::{extract_fuse_chain, stream_combinator_intrinsic_name};
use lin_ir::repr::{is_union_ty, needs_owning};
use lin_ir::text::Text;
use lin_ir::types::{json, same_type, Field, Type};

fn sp() -> Span {
    Span { start: 0, end: 1 }
}

fn num(v: i64) -> TypedExpr {
    TypedExpr::IntLit(v, Type::Int32, sp())
}

fn get(slot: usize, ty: Type) -> TypedExpr {
    TypedExpr::LocalGet { slot, ty, span: sp() }
}

fn array(t: Type) -> Type {
    Type::Array(Rc::new(t))
}

fn add(l: TypedExpr, r: TypedExpr) -> TypedExpr {
    TypedExpr::BinaryOp {
        left: Rc::new(l),
        op: BinOp::Add,
        right: Rc::new(r),
        result_type: Type::Int32,
        span: sp(),
    }
}

fn call(slot: usize, args: Vec<TypedExpr>, ty: Type) -> TypedExpr {
    TypedExpr::Call {
        func: Rc::new(get(slot, Type::Null)),
        args: list_of(args),
        result_type: ty,
        is_tail: false,
        partial: false,
        span: sp(),
    }
}

fn lambda(slot: usize, ty: Type, body: TypedExpr, ret: Type) -> TypedExpr {
    TypedExpr::Function {
        name: None,
        params: list_of(vec![TypedParam { slot, name: Text::Fixed("p"), ty, default: None }]),
        body: Rc::new(body),
        ret_type: ret,
        captures: List::Nil,
        span: sp(),
    }
}

fn point() -> Type {
    Type::Object {
        fields: list_of(vec![Field { name: "x".to_string(), ty: Type::Int32 }]),
        sealed: true,
        name: None,
    }
}

fn builder() -> FuncBuilder {
    let ops = list_of(vec![
        Entry { slot: 100, value: "lin_map".to_string() },
        Entry { slot: 101, value: "lin_filter".to_string() },
    ]);
    let mut b = FuncBuilder::new(FuncId(0), None, Type::Null, ops);
    b.push_scope();
    b
}

fn ctx() -> LowerCtx {
    LowerCtx::new(Tables::new(), List::Nil, Type::Null, 10)
}

fn items<T>(l: &List<T>) -> Vec<&T> {
    let mut out = Vec::new();
    let mut cur = l;
    while let List::Cons(n) = cur {
        out.push(&n.head);
        cur = &n.tail;
    }
    out
}

fn owned(b: &FuncBuilder) -> Vec<u32> {
    let mut out = Vec::new();
    for scope in items(&b.env.scopes) {
        for o in items(&scope.owned) {
            out.push(o.temp.0);
        }
    }
    out
}

fn code(b: &FuncBuilder) -> Vec<String> {
    let mut v: Vec<String> =
        items(&b.blocks[0].code).iter().map(|s| format!("{:?}", s.instr)).collect();
    v.reverse();
    v
}

fn emitted(b: &FuncBuilder) -> usize {
    b.blocks.iter().map(|x| items(&x.code).len()).sum()
}

#[test]
fn unregistering_undoes_registering() {
    let mut b = builder();
    let s = b.alloc_temp(Type::Str);
    let t = b.alloc_temp(Type::Str);
    b.register_owned(s, Type::Str);
    b.register_owned(t, Type::Str);
    assert!(b.is_owned_in_current_scope(t) && b.is_owned_in_scope(t));
    b.unregister_owned(t);
    assert_eq!(owned(&b), vec![s.0]);
}

#[test]
fn scalars_are_not_registered() {
    let mut b = builder();
    let t = b.alloc_temp(Type::Int32);
    b.register_owned(t, Type::Int32);
    assert!(owned(&b).is_empty());
}

#[test]
fn an_empty_scope_leaves_no_trace() {
    let mut b = builder();
    b.push_scope();
    b.pop_scope_releasing_keep(&List::Nil);
    assert_eq!(emitted(&b), 0);
    assert_eq!(items(&b.env.scopes).len(), 1);
}

#[test]
fn the_end_of_a_scope_gives_back_what_is_not_kept() {
    let mut b = builder();
    b.push_scope();
    let s = b.alloc_temp(Type::Str);
    let t = b.alloc_temp(Type::Str);
    b.register_owned(s, Type::Str);
    b.register_owned(t, Type::Str);
    b.pop_scope_releasing_keep(&list_of(vec![t]));
    let lines = code(&b);
    assert_eq!(lines.len(), 1);
    assert!(lines[0].starts_with("Release") && lines[0].contains("Temp(0)"));
}

#[test]
fn a_slot_of_the_own_type_emits_nothing() {
    for ty in [Type::Int32, Type::Str, json(), point(), array(Type::Int32)] {
        let mut b = builder();
        let t = b.alloc_temp(ty.dup());
        assert_eq!(coerce_to_slot_type(t, &ty, &ty, &mut b), t);
        assert_eq!(emitted(&b), 0);
    }
}

#[test]
fn a_converted_value_has_the_type_of_the_slot() {
    let mut b = builder();
    let t = b.alloc_temp(Type::Int32);
    for (slot_ty, n) in [(json(), 1u32), (Type::Int64, 2), (Type::Float64, 3)] {
        let r = coerce_to_slot_type(t, &Type::Int32, &slot_ty, &mut b);
        assert_eq!(r, Temp(n));
        assert!(same_type(&b.temp_types[n as usize], &slot_ty));
    }
}

#[test]
fn values_that_are_read_are_owned() {
    for ty in [Type::Int32, Type::Str, json(), array(Type::Int32)] {
        let mut b = builder();
        let t = b.alloc_temp(ty.dup());
        let r = own_for_read(t, &ty, &mut b);
        assert_eq!(b.is_owned_in_current_scope(r), needs_owning(&ty));
    }
}

#[test]
fn stores_register_nothing() {
    let mut b = builder();
    let t = b.alloc_temp(Type::Str);
    own_for_store(t, &Type::Str, &mut b);
    coerce_and_own_store(t, &Type::Str, &json(), &mut b);
    assert!(owned(&b).is_empty());
    assert!(emitted(&b) > 0);
}

#[test]
fn all_branches_own_alike() {
    for result in [Type::Int32, Type::Str, json()] {
        for value in [result.dup(), json()] {
            let mut b = builder();
            let t = b.alloc_temp(value.dup());
            let br = coerce_if_branch(t, &value, &result, &mut b);
            assert_eq!(br.owned, needs_owning(&result));
            assert!(items(&br.keep).iter().any(|k| **k == br.val));
        }
    }
}

#[test]
fn only_streams_move_into_a_call() {
    let stream = Type::Stream(Rc::new(Type::Str));
    let mut b = builder();
    let s = b.alloc_temp(Type::Str);
    b.register_owned(s, Type::Str);
    move_streamish_arg(&Type::Str, s, &mut b);
    assert_eq!(owned(&b), vec![s.0]);
    move_streamish_arg(&stream, s, &mut b);
    assert!(owned(&b).is_empty());
}

#[test]
fn arguments_are_boxed_by_one_conversion() {
    for ty in [Type::Str, Type::Int32] {
        let mut b = builder();
        let t = b.alloc_temp(ty.dup());
        let r = lower_coerce_arg(t, &ty, Some(&json()), &mut b);
        assert_eq!(r, Temp(1));
        let lines = code(&b);
        assert_eq!(lines.len(), 1);
        assert!(lines[0].starts_with("Coerce"));
        assert!(owned(&b).is_empty());
    }
}

#[test]
fn functions_that_are_only_values_return_boxes() {
    assert!(is_union_ty(&effective_return(None, true, &Type::Int32)));
    assert!(same_type(&effective_return(None, true, &Type::Null), &Type::Null));
    assert!(same_type(&effective_return(None, false, &Type::Int32), &Type::Int32));
    assert!(same_type(&effective_return(Some(&Type::Str), true, &Type::Int32), &Type::Str));
}

#[test]
fn an_import_of_another_library_stays_a_call() {
    for (sym, called) in [("my_iter_for", true), ("std_array_length", false)] {
        let mut tables = Tables::new();
        tables
            .import_fn_slots
            .insert(5, ImportFn { sym: sym.to_string(), params: list_of(vec![array(Type::Str)]) });
        let mut c = LowerCtx::new(tables, List::Nil, Type::Null, 10);
        let mut b = builder();
        let xs = b.alloc_temp(array(Type::Str));
        b.set_slot(1, xs);
        lower_expr(&call(5, vec![get(1, array(Type::Str))], Type::Int32), &mut b, &mut c);
        let named = items(&b.blocks[0].code).iter().any(|s| {
            matches!(&s.instr, Instruction::Call { callee: CallTarget::Named(n), .. }
                if n.render() == sym)
        });
        assert_eq!(named, called, "{}", sym);
    }
}

#[test]
fn stream_operations_need_a_stream() {
    let sym = "std_iter_map".to_string();
    let on_array = list_of(vec![get(1, array(Type::Str)), get(2, Type::Null)]);
    let on_stream = list_of(vec![get(1, Type::Stream(Rc::new(Type::Str))), get(2, Type::Null)]);
    assert_eq!(stream_combinator_intrinsic_name(&sym, &on_array), None);
    assert_eq!(stream_combinator_intrinsic_name(&sym, &on_stream), Some("lin_stream_map"));
    let other = "my_iter_map".to_string();
    assert_eq!(stream_combinator_intrinsic_name(&other, &on_stream), None);
}

#[test]
fn a_variable_that_a_block_leaves_alone_keeps_its_value() {
    let mut b = builder();
    let mut c = ctx();
    let x = b.alloc_temp(Type::Int32);
    let y = b.alloc_temp(Type::Int32);
    b.set_slot(1, x);
    b.set_slot(2, y);
    let e = TypedExpr::Block {
        stmts: list_of(vec![
            TypedStmt::Val {
                slot: 3,
                name: None,
                value: Rc::new(num(1)),
                ty: Type::Int32,
                span: sp(),
            },
            TypedStmt::Expr(TypedExpr::LocalSet {
                slot: 2,
                value: Rc::new(num(7)),
                ty: Type::Int32,
                span: sp(),
            }),
        ]),
        expr: Rc::new(num(2)),
        ty: Type::Int32,
        span: sp(),
    };
    lower_expr(&e, &mut b, &mut c);
    assert_eq!(b.slot(1), Some(x));
    assert!(b.slot(2).is_some() && b.slot(2) != Some(y));
}

#[test]
fn an_assignment_in_the_last_expression_of_a_block_persists() {
    let mut b = builder();
    let mut c = ctx();
    let x = b.alloc_temp(Type::Int32);
    let y = b.alloc_temp(Type::Int32);
    b.set_slot(1, x);
    b.set_slot(2, y);
    let e = TypedExpr::Block {
        stmts: List::Nil,
        expr: Rc::new(TypedExpr::LocalSet {
            slot: 1,
            value: Rc::new(num(7)),
            ty: Type::Int32,
            span: sp(),
        }),
        ty: Type::Int32,
        span: sp(),
    };
    let t = lower_expr(&e, &mut b, &mut c);
    assert_eq!(b.slot(1), Some(t));
    assert_eq!(b.slot(2), Some(y));
}

#[test]
fn nesting_does_not_matter() {
    let e = || add(num(1), add(num(2), num(3)));
    let run = |outer: bool| {
        let mut b = builder();
        let mut c = ctx();
        let whole = if outer { add(e(), num(4)) } else { e() };
        lower_expr(&whole, &mut b, &mut c);
        assert!(!c.env.too_deep);
        code(&b)
    };
    let alone = run(false);
    let inside = run(true);
    assert_eq!(alone[..], inside[..alone.len()]);
}

#[test]
fn special_reads_apply_or_do_nothing() {
    let mut b = builder();
    let mut c = ctx();
    let r = try_lower_elem_field(&get(1, point()), &"x".to_string(), &Type::Int32, &mut b, &mut c);
    assert_eq!(r, None);
    assert_eq!(emitted(&b), 0);
    assert!(b.temp_types.is_empty());
    let r = try_lower_sealed_literal(&num(1), &point(), &mut b, &mut c);
    assert_eq!(r, None);
    assert_eq!(emitted(&b), 0);
    assert!(b.temp_types.is_empty());
}

#[test]
fn chains_of_combinators_are_taken_apart() {
    let b = builder();
    let c = ctx();
    let xs = || get(1, array(Type::Int32));
    let inc = || lambda(2, Type::Int32, add(get(2, Type::Int32), num(1)), Type::Int32);
    let chain = call(
        101,
        vec![
            call(100, vec![xs(), inc()], array(Type::Int32)),
            lambda(3, Type::Int32, TypedExpr::BoolLit(true, sp()), Type::Bool),
        ],
        array(Type::Int32),
    );
    let r = extract_fuse_chain(&chain, &b, &c);
    assert_eq!(items(&r.stages).len(), 2);
    assert!(matches!(r.base, TypedExpr::LocalGet { slot: 1, .. }));
    let plain = xs();
    let r = extract_fuse_chain(&plain, &b, &c);
    assert!(items(&r.stages).is_empty());
}

#[test]
fn spans_and_scopes_are_as_before() {
    let mut b = builder();
    let mut c = ctx();
    b.env.current_span = Some(Span { start: 8, end: 9 });
    lower_expr(&lambda(2, Type::Int32, add(get(2, Type::Int32), num(1)), Type::Int32), &mut b, &mut c);
    assert_eq!(b.env.current_span, Some(Span { start: 8, end: 9 }));
    assert_eq!(items(&b.env.scopes).len(), 1);
    assert!(!c.env.too_deep);
    assert!(!c.env.in_safe_callback);
    assert_eq!(c.pending_functions.len(), 1);
}

fn defined(b: &FuncBuilder) -> Vec<u32> {
    let mut out = Vec::new();
    for block in &b.blocks {
        for s in items(&block.code) {
            let text = format!("{:?}", s.instr);
            if let Some(at) = text.find("{ dst: Temp(") {
                let rest = &text[at + 12..];
                let end = rest.find(')').unwrap();
                out.push(rest[..end].parse().unwrap());
            }
        }
    }
    out
}

#[test]
fn no_temporary_is_defined_twice() {
    let ops = list_of(vec![
        Entry { slot: 100, value: "lin_map".to_string() },
        Entry { slot: 101, value: "lin_filter".to_string() },
        Entry { slot: 102, value: "lin_find".to_string() },
        Entry { slot: 103, value: "lin_some".to_string() },
        Entry { slot: 104, value: "lin_for".to_string() },
    ]);
    for op in [100usize, 101, 102, 103, 104] {
        for elem in [Type::Int32, Type::Str, json(), point()] {
            let mut b = FuncBuilder::new(FuncId(0), None, Type::Null, ops.dup());
            b.push_scope();
            let mut c = ctx();
            let xs = b.alloc_temp(array(elem.dup()));
            b.set_slot(1, xs);
            let f = lambda(2, elem.dup(), TypedExpr::BoolLit(true, sp()), Type::Bool);
            let e = call(op, vec![get(1, array(elem.dup())), f], array(Type::Bool));
            lower_expr(&e, &mut b, &mut c);
            let mut all = defined(&b);
            let n = all.len();
            assert!(n > 3);
            all.sort();
            all.dedup();
            assert_eq!(all.len(), n);
            assert!(all.iter().all(|t| (*t as usize) < b.temp_types.len()));
            for block in &b.blocks {
                for s in items(&block.code) {
                    if let Instruction::Phi { incomings, .. } = &s.instr {
                        assert!(items(incomings)
                            .iter()
                            .all(|x| (x.pred.0 as usize) < b.blocks.len()));
                    }
                }
            }
        }
    }
}

#[test]
fn cells_that_escape_or_were_made_elsewhere_are_not_freed() {
    let mut b = builder();
    let own = b.alloc_temp(Type::Null);
    let escaping = b.alloc_temp(Type::Null);
    let kept = b.alloc_temp(Type::Null);
    let elsewhere = b.alloc_temp(Type::Null);
    b.add_cell(own, Type::Str);
    b.add_cell(escaping, Type::Str);
    b.add_cell(kept, Type::Str);
    b.mark_escaping(escaping);
    let other = b.alloc_block("other");
    b.switch_to(other);
    b.add_cell(elsewhere, Type::Str);
    b.switch_to(BlockId(0));
    let cells = b.env.created_cells.dup();
    free_new_cells(&cells, 0, BlockId(0), &list_of(vec![kept]), &mut b);
    let lines = code(&b);
    assert_eq!(lines.len(), 1);
    assert!(lines[0].starts_with("FreeCell") && lines[0].contains("Temp(0)"));
    free_new_cells(&cells, 4, BlockId(0), &List::Nil, &mut b);
    assert_eq!(code(&b).len(), 1);
}
