//! Functions that the program does not contain: adapters that fill in default arguments, and
//! replacements of functions and values of other modules.

use crate::ast::{Capture, Span, TypedExpr, TypedParam, TypedStmt, function_type, required_params};
use crate::builder::{FState, FuncBuilder};
use crate::call::default_symbol;
use crate::coerce::{coerce_to_slot_type, coerce_to_slot_type_spec};
use crate::ctx::{
    AdapterSpec, CState, CtxEnv, DefaultAdapter, DefaultDescriptor, Lower, LowerCtx, St,
    below_nil_is_nil, ctx_kept, low, on, on_b, ran, st, valid,
};
use crate::expr::{lower_at, lower_expr};
use crate::func::{lower_function_expr_with_id, lower_function_expr_with_id_spec, returns_nothing};
use crate::ir::{FuncId, Terminator};
use crate::list::{List, cons, one, prepend, share, share_spec};
use crate::loops::count;
use crate::recognize::fn_params;
use crate::repr::{is_nullable_sealed_record, is_union_ty};
use crate::text::{Text, join};
use crate::types::Type;
use crate::valid::group_valid;
use std::rc::Rc;
use vstd::prelude::*;

verus! {

broadcast use group_valid;

/// The list without its first `n` items.
pub open spec fn drop_params_spec(params: &List<TypedParam>, n: usize) -> List<TypedParam>
    decreases params,
{
    if n == 0 {
        params.dup()
    } else {
        match params {
            List::Nil => List::Nil,
            List::Cons(p) => drop_params(&p.tail, one_less(n)),
        }
    }
}

/// The list without its first `n` items.
#[verifier::when_used_as_spec(drop_params_spec)]
pub fn drop_params(params: &List<TypedParam>, n: usize) -> (r: List<TypedParam>)
    ensures
        r == drop_params_spec(params, n),
    decreases params,
{
    if n == 0 {
        return params.dup();
    }
    match params {
        List::Nil => List::Nil,
        List::Cons(p) => drop_params(&p.tail, one_less(n)),
    }
}

/// The number in front of `n`.
pub open spec fn one_less_spec(n: usize) -> usize {
    if n > 0 {
        (n - 1) as usize
    } else {
        0
    }
}

/// The number in front of `n`; zero has none.
#[verifier::when_used_as_spec(one_less_spec)]
pub fn one_less(n: usize) -> (r: usize)
    ensures
        r == one_less_spec(n),
{
    if n > 0 {
        n - 1
    } else {
        0
    }
}

/// The number behind `n`.
pub open spec fn one_more_spec(n: usize) -> usize {
    if n < usize::MAX {
        (n + 1) as usize
    } else {
        n
    }
}

/// The number behind `n`; the largest one has none.
#[verifier::when_used_as_spec(one_more_spec)]
pub fn one_more(n: usize) -> (r: usize)
    ensures
        r == one_more_spec(n),
{
    if n < usize::MAX {
        n + 1
    } else {
        n
    }
}

/// A default cannot be a value of the parameter.
pub open spec fn default_cannot_inhabit_param_spec(default_ty: &Type, param_ty: &Type) -> bool {
    matches!(default_ty, Type::Null)
        && !matches!(param_ty, Type::Null)
        && !is_union_ty(param_ty)
        && !is_nullable_sealed_record(param_ty)
        && !matches!(param_ty, Type::TypeVar(_))
}

/// Whether a default cannot be a value of the parameter: null for a type that has no null.
#[verifier::when_used_as_spec(default_cannot_inhabit_param_spec)]
pub fn default_cannot_inhabit_param(default_ty: &Type, param_ty: &Type) -> (r: bool)
    ensures
        r == default_cannot_inhabit_param_spec(default_ty, param_ty),
{
    matches!(default_ty, Type::Null)
        && !matches!(param_ty, Type::Null)
        && !is_union_ty(param_ty)
        && !is_nullable_sealed_record(param_ty)
        && !matches!(param_ty, Type::TypeVar(_))
}

/// The default of a parameter cannot be a value of it.
pub open spec fn default_invalid_spec(param: &TypedParam) -> bool {
    match &param.default {
        Some(d) => default_cannot_inhabit_param(&d.ty(), &param.ty),
        None => false,
    }
}

/// Whether the default of a parameter, if there is one, cannot be a value of it.
#[verifier::when_used_as_spec(default_invalid_spec)]
pub fn default_invalid(param: &TypedParam) -> (r: bool)
    ensures
        r == default_invalid_spec(param),
{
    match &param.default {
        Some(d) => default_cannot_inhabit_param(&d.ty(), &param.ty),
        None => false,
    }
}

/// One of the defaults cannot be a value of its parameter.
pub open spec fn some_default_invalid_spec(params: &List<TypedParam>) -> bool
    decreases params,
{
    match params {
        List::Nil => false,
        List::Cons(n) => default_invalid(&n.head) || some_default_invalid(&n.tail),
    }
}

/// Whether one of the defaults cannot be a value of its parameter.
#[verifier::when_used_as_spec(some_default_invalid_spec)]
pub fn some_default_invalid(params: &List<TypedParam>) -> (r: bool)
    ensures
        r == some_default_invalid_spec(params),
    decreases params,
{
    match params {
        List::Nil => false,
        List::Cons(n) => default_invalid(&n.head) || some_default_invalid(&n.tail),
    }
}

/// All parameters have defaults.
pub open spec fn all_have_defaults_spec(params: &List<TypedParam>) -> bool
    decreases params,
{
    match params {
        List::Nil => true,
        List::Cons(n) => n.head.default.is_some() && all_have_defaults(&n.tail),
    }
}

/// Whether all parameters have defaults.
#[verifier::when_used_as_spec(all_have_defaults_spec)]
pub fn all_have_defaults(params: &List<TypedParam>) -> (r: bool)
    ensures
        r == all_have_defaults_spec(params),
    decreases params,
{
    match params {
        List::Nil => true,
        List::Cons(n) => n.head.default.is_some() && all_have_defaults(&n.tail),
    }
}

/// The first `n` parameters without their defaults.
pub open spec fn given_params_spec(params: &List<TypedParam>, n: usize) -> List<TypedParam>
    decreases params,
{
    if n == 0 {
        List::Nil
    } else {
        match params {
            List::Nil => List::Nil,
            List::Cons(p) => {
                prepend(
                    TypedParam {
                        slot: p.head.slot,
                        name: p.head.name.dup(),
                        ty: p.head.ty.dup(),
                        default: None,
                    },
                    given_params(&p.tail, one_less(n)),
                )
            },
        }
    }
}

/// The first `n` parameters without their defaults.
#[verifier::when_used_as_spec(given_params_spec)]
pub fn given_params(params: &List<TypedParam>, n: usize) -> (r: List<TypedParam>)
    ensures
        r == given_params_spec(params, n),
    decreases params,
{
    if n == 0 {
        return List::Nil;
    }
    match params {
        List::Nil => List::Nil,
        List::Cons(p) => prepend(
            TypedParam {
                slot: p.head.slot,
                name: p.head.name.dup(),
                ty: p.head.ty.dup(),
                default: None,
            },
            given_params(&p.tail, one_less(n)),
        ),
    }
}

/// The statements that bind the parameters to their defaults.
pub open spec fn default_stmts_spec(params: &List<TypedParam>, span: Span) -> List<TypedStmt>
    decreases params,
{
    match params {
        List::Nil => List::Nil,
        List::Cons(n) => match &n.head.default {
            Some(d) => {
                prepend(
                    TypedStmt::Val {
                        slot: n.head.slot,
                        name: None,
                        value: share_spec(d),
                        ty: n.head.ty.dup(),
                        span,
                    },
                    default_stmts(&n.tail, span),
                )
            },
            None => default_stmts(&n.tail, span),
        },
    }
}

/// The statements that bind the parameters to their defaults.
#[verifier::when_used_as_spec(default_stmts_spec)]
pub fn default_stmts(params: &List<TypedParam>, span: Span) -> (r: List<TypedStmt>)
    ensures
        r == default_stmts_spec(params, span),
    decreases params,
{
    match params {
        List::Nil => List::Nil,
        List::Cons(n) => match &n.head.default {
            Some(d) => prepend(
                TypedStmt::Val {
                    slot: n.head.slot,
                    name: None,
                    value: share(d),
                    ty: n.head.ty.dup(),
                    span,
                },
                default_stmts(&n.tail, span),
            ),
            None => default_stmts(&n.tail, span),
        },
    }
}

/// Reads of the variables of the parameters.
pub open spec fn param_reads_spec(params: &List<TypedParam>, span: Span) -> List<TypedExpr>
    decreases params,
{
    match params {
        List::Nil => List::Nil,
        List::Cons(n) => {
            prepend(
                TypedExpr::LocalGet { slot: n.head.slot, ty: n.head.ty.dup(), span },
                param_reads(&n.tail, span),
            )
        },
    }
}

/// Reads of the variables of the parameters.
#[verifier::when_used_as_spec(param_reads_spec)]
pub fn param_reads(params: &List<TypedParam>, span: Span) -> (r: List<TypedExpr>)
    ensures
        r == param_reads_spec(params, span),
    decreases params,
{
    match params {
        List::Nil => List::Nil,
        List::Cons(n) => prepend(
            TypedExpr::LocalGet { slot: n.head.slot, ty: n.head.ty.dup(), span },
            param_reads(&n.tail, span),
        ),
    }
}

/// The body of an adapter.
pub open spec fn adapter_body_spec(spec: &AdapterSpec) -> TypedExpr {
    let call = TypedExpr::Call {
        func: Rc::new(
            TypedExpr::LocalGet {
                slot: spec.real_slot,
                ty: spec.real_fn_ty.dup(),
                span: spec.span,
            },
        ),
        args: param_reads(&spec.params, spec.span),
        result_type: spec.ret_type.dup(),
        is_tail: false,
        partial: false,
        span: spec.span,
    };
    TypedExpr::Block {
        stmts: default_stmts(&drop_params(&spec.params, spec.arity), spec.span),
        expr: Rc::new(call),
        ty: spec.ret_type.dup(),
        span: spec.span,
    }
}

/// The body of an adapter: binds the parameters that are left out to their defaults and calls
/// the real function with all of them.
#[verifier::when_used_as_spec(adapter_body_spec)]
pub fn adapter_body(spec: &AdapterSpec) -> (r: TypedExpr)
    ensures
        r == adapter_body_spec(spec),
{
    let call = TypedExpr::Call {
        func: Rc::new(
            TypedExpr::LocalGet {
                slot: spec.real_slot,
                ty: spec.real_fn_ty.dup(),
                span: spec.span,
            },
        ),
        args: param_reads(&spec.params, spec.span),
        result_type: spec.ret_type.dup(),
        is_tail: false,
        partial: false,
        span: spec.span,
    };
    TypedExpr::Block {
        stmts: default_stmts(&drop_params(&spec.params, spec.arity), spec.span),
        expr: Rc::new(call),
        ty: spec.ret_type.dup(),
        span: spec.span,
    }
}

/// The variable of a parameter that the program does not contain.
pub open spec fn synthetic_slot_spec(i: usize) -> usize {
    if i <= usize::MAX - usize::MAX / 2 {
        (usize::MAX / 2 + i) as usize
    } else {
        usize::MAX
    }
}

/// The variable of the parameter number `i` of a function that the program does not contain:
/// far behind the variables of the program.
#[verifier::when_used_as_spec(synthetic_slot_spec)]
pub fn synthetic_slot(i: usize) -> (r: usize)
    ensures
        r == synthetic_slot_spec(i),
{
    if i <= usize::MAX - usize::MAX / 2 {
        usize::MAX / 2 + i
    } else {
        usize::MAX
    }
}

/// Parameters of the types, numbered from `i` on.
pub open spec fn synthetic_params_spec(types: &List<Type>, i: usize) -> List<TypedParam>
    decreases types,
{
    match types {
        List::Nil => List::Nil,
        List::Cons(n) => {
            prepend(
                TypedParam {
                    slot: synthetic_slot(i),
                    name: join(Text::Fixed("__rp"), Text::Number(i)),
                    ty: n.head.dup(),
                    default: None,
                },
                synthetic_params(&n.tail, one_more(i)),
            )
        },
    }
}

/// Parameters of the types, numbered from `i` on.
#[verifier::when_used_as_spec(synthetic_params_spec)]
pub fn synthetic_params(types: &List<Type>, i: usize) -> (r: List<TypedParam>)
    ensures
        r == synthetic_params_spec(types, i),
    decreases types,
{
    match types {
        List::Nil => List::Nil,
        List::Cons(n) => prepend(
            TypedParam {
                slot: synthetic_slot(i),
                name: join(Text::Fixed("__rp"), Text::Number(i)),
                ty: n.head.dup(),
                default: None,
            },
            synthetic_params(&n.tail, one_more(i)),
        ),
    }
}

/// A function or a value that takes the place of an export of another module.
pub struct Replacement {
    pub sym: String,
    pub is_function: bool,
    pub value: Rc<TypedExpr>,
    pub ty: Type,
    pub span: Span,
}

/// The parameters, the body and the captured variables of a function.
pub struct FunctionParts {
    pub params: List<TypedParam>,
    pub body: Rc<TypedExpr>,
    pub captures: List<Capture>,
}

/// The result type of a function type.
pub open spec fn fn_ret_spec(ty: &Type) -> Type {
    match ty {
        Type::Function { ret, .. } => ret.dup(),
        _ => Type::Null,
    }
}

/// The result type of a function type; null of another type.
#[verifier::when_used_as_spec(fn_ret_spec)]
pub fn fn_ret(ty: &Type) -> (r: Type)
    ensures
        r == fn_ret_spec(ty),
{
    match ty {
        Type::Function { ret, .. } => ret.dup(),
        _ => Type::Null,
    }
}

/// The function that takes the place of an exported one.
pub open spec fn replacing_function_spec(rep: &Replacement) -> FunctionParts {
    match &*rep.value {
        TypedExpr::Function { params, body, captures, .. } => {
            FunctionParts { params: params.dup(), body: share_spec(body), captures: captures.dup() }
        },
        _ => {
            let params = synthetic_params(&fn_params(&rep.ty), 0);
            let call = TypedExpr::Call {
                func: share_spec(&rep.value),
                args: param_reads(&params, rep.span),
                result_type: fn_ret(&rep.ty),
                is_tail: false,
                partial: false,
                span: rep.span,
            };
            FunctionParts { params, body: Rc::new(call), captures: List::Nil }
        },
    }
}

/// The function that takes the place of an exported one: the function literal itself, or a
/// function that calls the replacing value.
#[verifier::when_used_as_spec(replacing_function_spec)]
pub fn replacing_function(rep: &Replacement) -> (r: FunctionParts)
    ensures
        r == replacing_function_spec(rep),
{
    match &*rep.value {
        TypedExpr::Function { params, body, captures, .. } => FunctionParts {
            params: params.dup(),
            body: share(body),
            captures: captures.dup(),
        },
        _ => {
            let params = synthetic_params(&fn_params(&rep.ty), 0);
            let call = TypedExpr::Call {
                func: share(&rep.value),
                args: param_reads(&params, rep.span),
                result_type: fn_ret(&rep.ty),
                is_tail: false,
                partial: false,
                span: rep.span,
            };
            FunctionParts { params, body: Rc::new(call), captures: List::Nil }
        },
    }
}

/// The adapters of a function for each number of arguments from `arity` to below `total`.
pub struct AdapterPlan {
    pub real_fid: FuncId,
    pub real_slot: usize,
    pub symbol_prefix: Text,
    pub real_fn_ty: Type,
    pub params: List<TypedParam>,
    pub ret_type: Type,
    pub span: Span,
}

/// The adapter for `arity` arguments.
pub open spec fn adapter_spec_spec(
    plan: &AdapterPlan,
    adapter_fid: FuncId,
    arity: usize,
) -> AdapterSpec {
    AdapterSpec {
        adapter_fid,
        symbol: default_symbol(plan.symbol_prefix.dup(), arity),
        real_slot: plan.real_slot,
        real_fn_ty: plan.real_fn_ty.dup(),
        params: plan.params.dup(),
        arity,
        ret_type: plan.ret_type.dup(),
        span: plan.span,
    }
}

/// The adapter for `arity` arguments.
#[verifier::when_used_as_spec(adapter_spec_spec)]
pub fn adapter_spec(plan: &AdapterPlan, adapter_fid: FuncId, arity: usize) -> (r: AdapterSpec)
    ensures
        r == adapter_spec_spec(plan, adapter_fid, arity),
{
    AdapterSpec {
        adapter_fid,
        symbol: default_symbol(plan.symbol_prefix.dup(), arity),
        real_slot: plan.real_slot,
        real_fn_ty: plan.real_fn_ty.dup(),
        params: plan.params.dup(),
        arity,
        ret_type: plan.ret_type.dup(),
        span: plan.span,
    }
}

/// One more adapter is known and waits to be lowered.
pub open spec fn with_adapter(plan: &AdapterPlan, arity: usize, c: CState) -> (CState, FuncId) {
    let (c, fid) = c.alloc_func_id();
    (
        CState {
            pending_adapters: c.pending_adapters.push(adapter_spec(plan, fid, arity)),
            env: CtxEnv {
                default_adapters: cons(
                    DefaultAdapter { target: plan.real_fid, arity, adapter: fid },
                    c.env.default_adapters,
                ),
                ..c.env
            },
            ..c
        },
        fid,
    )
}

/// The adapters for each number of arguments from `arity` to below `total` are known; their
/// functions in order, the real one last.
pub open spec fn with_adapters(plan: &AdapterPlan, arity: usize, total: usize, c: CState) -> (
    CState,
    List<FuncId>,
)
    decreases total - arity,
{
    if arity >= total {
        (c, cons(plan.real_fid, List::Nil))
    } else {
        let (c, fid) = with_adapter(plan, arity, c);
        let (c, rest) = with_adapters(plan, (arity + 1) as usize, total, c);
        (c, cons(fid, rest))
    }
}

/// Makes the adapters for each number of arguments from `arity` to below `total`.
fn add_adapters(plan: &AdapterPlan, arity: usize, total: usize, ctx: &mut LowerCtx) -> (r: List<
    FuncId,
>)
    ensures
        (final(ctx)@, r) == with_adapters(plan, arity, total, old(ctx)@),
        final(ctx).room.left() == old(ctx).room.left(),
    decreases total - arity,
{
    if arity >= total {
        return prepend(plan.real_fid, List::Nil);
    }
    let fid = ctx.alloc_func_id();
    ctx.pending_adapters.push(adapter_spec(plan, fid, arity));
    ctx.env.default_adapters =
    prepend(
        DefaultAdapter { target: plan.real_fid, arity, adapter: fid },
        ctx.env.default_adapters.dup(),
    );
    let rest = add_adapters(plan, arity + 1, total, ctx);
    prepend(fid, rest)
}

/// The functions of a descriptor are found under the number of the real function.
pub open spec fn descriptor_key_spec(fid: FuncId) -> usize {
    fid.0 as usize
}

/// The key of the descriptor of a function.
#[verifier::when_used_as_spec(descriptor_key_spec)]
pub fn descriptor_key(fid: FuncId) -> (r: usize)
    ensures
        r == descriptor_key_spec(fid),
{
    fid.0 as usize
}

/// The adapters of a function with defaults are registered, unless it has none, they are
/// registered already, or a default cannot be a value of its parameter.
pub open spec fn register_default_adapters_spec(
    real_fid: FuncId,
    real_slot: usize,
    symbol_prefix: &Text,
    params: &List<TypedParam>,
    ret_type: &Type,
    span: Span,
    c: CState,
) -> CState {
    let total = count(params);
    let required = required_params(params);
    if required == total || c.default_descriptors.contains_key(descriptor_key(real_fid))
        || some_default_invalid(&drop_params(params, required)) {
        c
    } else {
        let plan = AdapterPlan {
            real_fid,
            real_slot,
            symbol_prefix: *symbol_prefix,
            real_fn_ty: function_type(params, ret_type),
            params: *params,
            ret_type: *ret_type,
            span,
        };
        let (c, entries) = with_adapters(&plan, required, total, c);
        CState {
            default_descriptors: c.default_descriptors.insert(
                descriptor_key(real_fid),
                DefaultDescriptor { required, total, entries },
            ),
            ..c
        }
    }
}

/// Registers the adapters of a function whose last parameters have defaults: one for each
/// number of arguments that a call may give, from the required ones to all but one, and the
/// descriptor that lists them with the function itself behind. Nothing is registered for a
/// function without defaults, for one that has a descriptor, and for one with a default that
/// cannot be a value of its parameter.
pub fn register_default_adapters(
    real_fid: FuncId,
    real_slot: usize,
    symbol_prefix: &Text,
    params: &List<TypedParam>,
    ret_type: &Type,
    span: Span,
    ctx: &mut LowerCtx,
)
    ensures
        final(ctx)@ == register_default_adapters_spec(
            real_fid,
            real_slot,
            symbol_prefix,
            params,
            ret_type,
            span,
            old(ctx)@,
        ),
        final(ctx).room.left() == old(ctx).room.left(),
{
    let total: usize = count(params);
    let required: usize = required_params(params);
    if required == total || ctx.default_descriptors.has(descriptor_key(real_fid))
        || some_default_invalid(&drop_params(params, required)) {
        return ;
    }
    let plan = AdapterPlan {
        real_fid,
        real_slot,
        symbol_prefix: symbol_prefix.dup(),
        real_fn_ty: function_type(params, ret_type),
        params: params.dup(),
        ret_type: ret_type.dup(),
        span,
    };
    let entries = add_adapters(&plan, required, total, ctx);
    ctx.default_descriptors.insert(
        descriptor_key(real_fid),
        DefaultDescriptor { required, total, entries },
    );
}

/// A function without a body of its own, in which another one is lowered.
pub open spec fn host(id: FuncId, c: CState) -> FState {
    FuncBuilder::new_spec(id, None, Type::Null, c.env.intrinsics).push_scope()
}

/// What `lower_adapter` does to the context, where `l` lowers expressions.
pub open spec fn lower_adapter_spec(l: Lower, spec: &AdapterSpec, c: CState) -> CState {
    let (c, host_id) = c.alloc_func_id();
    let (s, _) = lower_function_expr_with_id_spec(
        l,
        Some(spec.adapter_fid),
        None,
        Some(spec.symbol),
        &given_params(&spec.params, spec.arity),
        &adapter_body(spec),
        &spec.ret_type,
        &List::Nil,
        St { b: host(host_id, c), c },
    );
    s.c
}

/// Lowers an adapter: a function with the parameters that a call gives, which binds the
/// others to their defaults and calls the real function.
pub fn lower_adapter(spec: &AdapterSpec, ctx: &mut LowerCtx)
    requires
        all_have_defaults(&drop_params(&spec.params, spec.arity)),
    ensures
        final(ctx)@ == lower_adapter_spec(lower_at(old(ctx).room.left()), spec, old(ctx)@),
        ctx_kept(*old(ctx), *final(ctx)),
        old(ctx)@.functions_ok() && old(ctx).env.packed_elem_slots is Nil
            ==> final(ctx)@.functions_ok(),
{
    let host_id = ctx.alloc_func_id();
    let mut host = FuncBuilder::new(host_id, None, Type::Null, ctx.env.intrinsics.dup());
    host.push_scope();
    let params = given_params(&spec.params, spec.arity);
    let body = adapter_body(spec);
    let _ = lower_function_expr_with_id(
        Some(spec.adapter_fid),
        None,
        Some(spec.symbol.dup()),
        &params,
        &body,
        &spec.ret_type,
        &List::Nil,
        &mut host,
        ctx,
    );
}

/// What the lowering of a replacing function does to the context.
pub open spec fn replace_function_spec(l: Lower, r: &Replacement, c: CState) -> CState {
    let (c, fid) = c.alloc_func_id();
    let (c, host_id) = c.alloc_func_id();
    let f = replacing_function(r);
    let (s, _) = lower_function_expr_with_id_spec(
        l,
        Some(fid),
        None,
        Some(Text::Owned(r.sym)),
        &f.params,
        &f.body,
        &fn_ret(&r.ty),
        &f.captures,
        St { b: host(host_id, c), c },
    );
    s.c
}

/// Lowers a function that takes the place of an exported one, under its symbol.
fn replace_function(r: &Replacement, ctx: &mut LowerCtx)
    ensures
        final(ctx)@ == replace_function_spec(lower_at(old(ctx).room.left()), r, old(ctx)@),
        ctx_kept(*old(ctx), *final(ctx)),
        old(ctx)@.functions_ok() && old(ctx).env.packed_elem_slots is Nil
            ==> final(ctx)@.functions_ok() && final(ctx).env.packed_elem_slots is Nil,
{
    let fid = ctx.alloc_func_id();
    let host_id = ctx.alloc_func_id();
    let mut host = FuncBuilder::new(host_id, None, Type::Null, ctx.env.intrinsics.dup());
    host.push_scope();
    let f = replacing_function(r);
    let _ = lower_function_expr_with_id(
        Some(fid),
        None,
        Some(Text::Owned(r.sym.clone())),
        &f.params,
        &f.body,
        &fn_ret(&r.ty),
        &f.captures,
        &mut host,
        ctx,
    );
}

/// What `lower_returned_value` does to the state, where `l` lowers the expressions inside.
#[verifier::opaque]
pub open spec fn lower_returned_value_spec(l: Lower, value: &TypedExpr, ty: &Type, s: St) -> St {
    let s = on_b(s, s.b.push_scope());
    let s = on_b(s, s.b.scan_body(value));
    let (s, raw) = low(l, value, s);
    let (s, t) = on(s, coerce_to_slot_type_spec(raw, &value.ty(), ty, s.b));
    let s = on_b(s, s.b.pop_scope_releasing_keep(&one(t)));
    if !s.b.is_terminated() {
        if returns_nothing(ty) {
            on_b(s, s.b.terminate(Terminator::Return(None)))
        } else {
            on_b(s, s.b.terminate(Terminator::Return(Some(t))))
        }
    } else {
        s
    }
}

/// Lowers a value as the body of a function that returns it.
pub fn lower_returned_value(value: &TypedExpr, ty: &Type, b: &mut FuncBuilder, ctx: &mut LowerCtx)
    ensures
        st(final(b), final(ctx)) == lower_returned_value_spec(
            lower_at(old(ctx).room.left()),
            value,
            ty,
            st(old(b), old(ctx)),
        ),
        ran(*old(b), *old(ctx), *final(b), *final(ctx)),
        valid(st(old(b), old(ctx))) ==> valid(st(final(b), final(ctx))),
    decreases old(ctx).room.left(), 1nat, 0nat,
{
    reveal(lower_returned_value_spec);
    b.push_scope();
    b.scan_body(value);
    let raw = lower_expr(value, b, ctx);
    let t = coerce_to_slot_type(raw, &value.ty(), ty, b);
    b.pop_scope_releasing_keep(&one(t));
    if !b.is_current_block_terminated() {
        if returns_nothing(ty) {
            b.terminate(Terminator::Return(None));
        } else {
            b.terminate(Terminator::Return(Some(t)));
        }
    }
}

/// What the lowering of a replacing value does to the context.
pub open spec fn replace_value_spec(l: Lower, r: &Replacement, c: CState) -> CState {
    let (c, fid) = c.alloc_func_id();
    let name = join(Text::Owned(r.sym), Text::Fixed("__val"));
    let b = FuncBuilder::new_spec(fid, Some(name), r.ty, c.env.intrinsics);
    let s = lower_returned_value_spec(l, &r.value, &r.ty, St { b, c });
    s.c.push_function(FuncBuilder::finish_spec(s.b)).note_exhausted(s.b.env.exhausted)
}

/// Lowers a value that takes the place of an exported one: a function that returns it.
fn replace_value(r: &Replacement, ctx: &mut LowerCtx)
    ensures
        final(ctx)@ == replace_value_spec(lower_at(old(ctx).room.left()), r, old(ctx)@),
        ctx_kept(*old(ctx), *final(ctx)),
        old(ctx)@.functions_ok() && old(ctx).env.packed_elem_slots is Nil
            ==> final(ctx)@.functions_ok() && final(ctx).env.packed_elem_slots is Nil,
{
    let fid = ctx.alloc_func_id();
    let name = join(Text::Owned(r.sym.clone()), Text::Fixed("__val"));
    let mut b = FuncBuilder::new(fid, Some(name), r.ty.dup(), ctx.env.intrinsics.dup());
    lower_returned_value(&r.value, &r.ty, &mut b, ctx);
    proof {
        if old(ctx).env.packed_elem_slots is Nil {
            below_nil_is_nil(&ctx.env.packed_elem_slots);
        }
    }
    let exhausted = b.env.exhausted;
    ctx.push_function(b.finish());
    ctx.note_exhausted(exhausted);
}

/// What `lower_replacements` does to the context, where `l` lowers expressions.
pub open spec fn lower_replacements_spec(l: Lower, rs: &List<Replacement>, c: CState) -> CState
    decreases rs,
{
    match rs {
        List::Nil => c,
        List::Cons(n) => {
            let c = if n.head.is_function {
                replace_function_spec(l, &n.head, c)
            } else {
                replace_value_spec(l, &n.head, c)
            };
            lower_replacements_spec(l, &n.tail, c)
        },
    }
}

/// Lowers the functions and values that take the place of exports of other modules, in
/// order.
pub fn lower_replacements(rs: &List<Replacement>, ctx: &mut LowerCtx)
    ensures
        final(ctx)@ == lower_replacements_spec(lower_at(old(ctx).room.left()), rs, old(ctx)@),
        ctx_kept(*old(ctx), *final(ctx)),
        old(ctx)@.functions_ok() && old(ctx).env.packed_elem_slots is Nil
            ==> final(ctx)@.functions_ok(),
    decreases rs,
{
    match rs {
        List::Nil => {},
        List::Cons(n) => {
            if n.head.is_function {
                replace_function(&n.head, ctx);
            } else {
                replace_value(&n.head, ctx);
            }
            lower_replacements(&n.tail, ctx);
        },
    }
}

} // verus!
