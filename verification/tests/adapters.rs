use std::rc::Rc;

use lin_ir::adapter::{
    default_cannot_inhabit_param, lower_adapter, lower_replacements, register_default_adapters,
    Replacement,
};
use lin_ir::ast::{Span, TypedExpr, TypedParam};
use lin_ir::ctx::{LowerCtx, Tables};
use lin_ir::ir::{CallTarget, FuncId, Function, Instruction, Terminator};
use lin_ir::list::{list_of, List};
use lin_ir::text::Text;
use lin_ir::types::{json, same_type, Type};

fn sp() -> Span {
    Span { start: 1, end: 2 }
}

fn num(v: i64) -> TypedExpr {
    TypedExpr::IntLit(v, Type::Int32, sp())
}

fn param(slot: usize, ty: Type, default: Option<TypedExpr>) -> TypedParam {
    TypedParam { slot, name: Text::Fixed("p"), ty, default: default.map(Rc::new) }
}

fn three_params() -> List<TypedParam> {
    list_of(vec![
        param(1, Type::Int32, None),
        param(2, Type::Int32, Some(num(20))),
        param(3, Type::Int32, Some(num(30))),
    ])
}

fn ctx() -> LowerCtx {
    let mut tables = Tables::new();
    tables.global_fn_slots.insert(7, FuncId(4));
    LowerCtx::new(tables, List::Nil, Type::Null, 10)
}

fn items<T>(l: &List<T>) -> Vec<&T> {
    let mut out = Vec::new();
    let mut cur = l;
    while let List::Cons(n) = cur {
        out.push(&n.head);
        cur = &n.tail;
    }
    out
}

fn calls(f: &Function) -> Vec<(String, usize)> {
    let mut out = Vec::new();
    for block in items(&f.blocks) {
        let mut code = items(&block.code);
        code.reverse();
        for s in code {
            if let Instruction::Call { callee, args, .. } = &s.instr {
                let name = match callee {
                    CallTarget::Direct(f) => format!("f{}", f.0),
                    CallTarget::Named(n) => n.render(),
                    CallTarget::Indirect(t) => format!("*t{}", t.0),
                };
                out.push((name, items(args).len()));
            }
        }
    }
    out
}

fn register(params: &List<TypedParam>, c: &mut LowerCtx) {
    register_default_adapters(FuncId(4), 7, &Text::Fixed("main_f"), params, &Type::Int32, sp(), c);
}

#[test]
fn one_adapter_for_each_number_of_arguments() {
    let mut c = ctx();
    register(&three_params(), &mut c);
    let symbols: Vec<String> = c.pending_adapters.iter().map(|a| a.symbol.render()).collect();
    assert_eq!(symbols, vec!["main_f$default1", "main_f$default2"]);
    let arities: Vec<usize> = c.pending_adapters.iter().map(|a| a.arity).collect();
    assert_eq!(arities, vec![1, 2]);
    let d = c.default_descriptors.get(4).unwrap();
    assert_eq!((d.required, d.total), (1, 3));
    let entries: Vec<u32> = items(&d.entries).iter().map(|f| f.0).collect();
    assert_eq!(entries, vec![10, 11, 4]);
}

#[test]
fn registering_a_second_time_changes_nothing() {
    let mut c = ctx();
    register(&three_params(), &mut c);
    register(&three_params(), &mut c);
    assert_eq!(c.pending_adapters.len(), 2);
    assert_eq!(c.env.next_func, 12);
}

#[test]
fn a_function_without_defaults_has_no_adapters() {
    let mut c = ctx();
    register(&list_of(vec![param(1, Type::Int32, None)]), &mut c);
    assert!(c.pending_adapters.is_empty());
    assert!(!c.default_descriptors.has(4));
}

#[test]
fn an_unfit_default_registers_nothing() {
    let mut c = ctx();
    let unfit = TypedExpr::NullLit(sp());
    assert!(default_cannot_inhabit_param(&Type::Null, &Type::Int32));
    assert!(!default_cannot_inhabit_param(&Type::Null, &json()));
    assert!(!default_cannot_inhabit_param(&Type::Int32, &Type::Int32));
    register(&list_of(vec![param(1, Type::Int32, None), param(2, Type::Int32, Some(unfit))]), &mut c);
    assert!(c.pending_adapters.is_empty());
    assert!(!c.default_descriptors.has(4));
}

#[test]
fn an_adapter_calls_the_real_function_with_all_arguments() {
    let mut c = ctx();
    register(&three_params(), &mut c);
    let spec = c.pending_adapters.remove(0);
    lower_adapter(&spec, &mut c);
    assert_eq!(c.pending_functions.len(), 1);
    let f = &c.pending_functions[0];
    assert_eq!(f.id, FuncId(10));
    assert_eq!(f.name.as_ref().map(|n| n.render()), Some("main_f$default1".to_string()));
    assert_eq!(items(&f.params).len(), 1);
    assert_eq!(calls(f), vec![("f4".to_string(), 3)]);
    assert!(same_type(&f.ret_ty, &Type::Int32));
    assert!(!c.env.too_deep);
}

#[test]
fn the_later_adapter_takes_more_arguments() {
    let mut c = ctx();
    register(&three_params(), &mut c);
    let spec = c.pending_adapters.remove(1);
    lower_adapter(&spec, &mut c);
    let f = &c.pending_functions[0];
    assert_eq!(f.id, FuncId(11));
    assert_eq!(items(&f.params).len(), 2);
    assert_eq!(calls(f), vec![("f4".to_string(), 3)]);
}

fn lambda(ret: Type, body: TypedExpr) -> TypedExpr {
    TypedExpr::Function {
        name: None,
        params: list_of(vec![param(1, Type::Int32, None)]),
        body: Rc::new(body),
        ret_type: ret,
        captures: List::Nil,
        span: sp(),
    }
}

fn fn_type(ret: Type) -> Type {
    Type::Function { params: list_of(vec![Type::Int32]), ret: Rc::new(ret), required: 1 }
}

#[test]
fn a_replacing_function_has_the_symbol_of_what_it_replaces() {
    let mut c = ctx();
    let r = Replacement {
        sym: "std_time_now".to_string(),
        is_function: true,
        value: Rc::new(lambda(Type::Int32, num(5))),
        ty: fn_type(Type::Int32),
        span: sp(),
    };
    lower_replacements(&list_of(vec![r]), &mut c);
    assert_eq!(c.pending_functions.len(), 1);
    let f = &c.pending_functions[0];
    assert_eq!(f.name.as_ref().map(|n| n.render()), Some("std_time_now".to_string()));
    assert_eq!(items(&f.params).len(), 1);
    assert!(same_type(&f.ret_ty, &Type::Int32));
}

#[test]
fn a_function_value_that_replaces_is_called_with_the_declared_parameters() {
    let mut c = ctx();
    let r = Replacement {
        sym: "std_time_now".to_string(),
        is_function: true,
        value: Rc::new(TypedExpr::LocalGet { slot: 7, ty: fn_type(Type::Int32), span: sp() }),
        ty: fn_type(Type::Int32),
        span: sp(),
    };
    lower_replacements(&list_of(vec![r]), &mut c);
    let f = &c.pending_functions[0];
    assert_eq!(f.id, FuncId(10));
    assert_eq!(f.name.as_ref().map(|n| n.render()), Some("std_time_now".to_string()));
    assert_eq!(calls(f), vec![("f4".to_string(), 1)]);
    let declared: Vec<String> = items(&items(&f.blocks)[0].code)
        .iter()
        .filter_map(|s| match &s.instr {
            Instruction::DebugDeclare { name, .. } => Some(name.render()),
            _ => None,
        })
        .collect();
    assert_eq!(declared, vec!["__rp0"]);
}

#[test]
fn a_replacing_value_is_returned_by_a_function() {
    let mut c = ctx();
    let r = Replacement {
        sym: "config_limit".to_string(),
        is_function: false,
        value: Rc::new(num(5)),
        ty: json(),
        span: sp(),
    };
    lower_replacements(&list_of(vec![r]), &mut c);
    let all: Vec<&Function> = c.pending_functions.iter().chain(c.functions.iter()).collect();
    assert_eq!(all.len(), 1);
    let f = all[0];
    assert_eq!(f.name.as_ref().map(|n| n.render()), Some("config_limit__val".to_string()));
    assert_eq!(items(&f.params).len(), 0);
    let blocks = items(&f.blocks);
    assert_eq!(blocks.len(), 1);
    assert!(matches!(blocks[0].term, Terminator::Return(Some(_))));
    let boxed = items(&blocks[0].code)
        .iter()
        .filter(|s| matches!(s.instr, Instruction::Coerce { .. }))
        .count();
    assert_eq!(boxed, 1);
}

#[test]
fn no_replacements_change_nothing() {
    let mut c = ctx();
    lower_replacements(&List::Nil, &mut c);
    assert!(c.pending_functions.is_empty() && c.functions.is_empty());
    assert_eq!(c.env.next_func, 10);
}
