//! The typed source tree.

use crate::list::{List, cons, prepend};
use crate::text::Text;
use crate::types::Type;
use std::rc::Rc;
use vstd::prelude::*;

verus! {

/// A range of source text.
#[derive(Debug, Clone, Copy, PartialEq, Eq, Structural)]
pub struct Span {
    pub start: u32,
    pub end: u32,
}

/// A binary operator.
#[derive(Debug, Clone, Copy, PartialEq, Eq, Structural)]
pub enum BinOp {
    Add,
    Sub,
    Mul,
    Div,
    Mod,
    BAnd,
    BOr,
    BXor,
    Shl,
    Shr,
    Eq,
    NotEq,
    Lt,
    LtEq,
    Gt,
    GtEq,
    And,
    Or,
}

/// A unary operator.
#[derive(Debug, Clone, Copy, PartialEq, Eq, Structural)]
pub enum UnaryOp {
    Not,
    BNot,
}

/// A typed expression.
#[allow(inconsistent_fields)]
#[derive(Debug)]
pub enum TypedExpr {
    IntLit(i64, Type, Span),
    /// A floating-point literal, by its bit pattern.
    FloatLit(u64, Type, Span),
    StringLit(String, Type, Span),
    BoolLit(bool, Span),
    NullLit(Span),
    LocalGet { slot: usize, ty: Type, span: Span },
    LocalSet { slot: usize, value: Rc<TypedExpr>, ty: Type, span: Span },
    BinaryOp {
        left: Rc<TypedExpr>,
        op: BinOp,
        right: Rc<TypedExpr>,
        result_type: Type,
        span: Span,
    },
    UnaryOp { op: UnaryOp, operand: Rc<TypedExpr>, result_type: Type, span: Span },
    Coerce { expr: Rc<TypedExpr>, from: Type, to: Type, span: Span },
    Call {
        func: Rc<TypedExpr>,
        args: List<TypedExpr>,
        result_type: Type,
        is_tail: bool,
        partial: bool,
        span: Span,
    },
    If {
        cond: Rc<TypedExpr>,
        then_br: Rc<TypedExpr>,
        else_br: Rc<TypedExpr>,
        result_type: Type,
        span: Span,
    },
    FromJson {
        target: Type,
        value: Rc<TypedExpr>,
        result_type: Type,
        named_defs: List<NamedDef>,
        span: Span,
    },
    Match { scrutinee: Rc<TypedExpr>, arms: List<MatchArm>, result_type: Type, span: Span },
    Block { stmts: List<TypedStmt>, expr: Rc<TypedExpr>, ty: Type, span: Span },
    Function {
        name: Option<String>,
        params: List<TypedParam>,
        body: Rc<TypedExpr>,
        ret_type: Type,
        captures: List<Capture>,
        span: Span,
    },
    MakeObject {
        fields: List<FieldInit>,
        spreads: List<TypedExpr>,
        computed_fields: List<ComputedField>,
        ty: Type,
        span: Span,
    },
    MakeArray { elements: List<TypedExpr>, ty: Type, span: Span },
    Index { object: Rc<TypedExpr>, key: Rc<TypedExpr>, result_type: Type, span: Span },
    IndexSet {
        object: Rc<TypedExpr>,
        key: Rc<TypedExpr>,
        value: Rc<TypedExpr>,
        obj_ty: Type,
        span: Span,
    },
    FieldGet { object: Rc<TypedExpr>, field: String, result_type: Type, span: Span },
    StringInterp { parts: List<TypedStringPart>, span: Span },
    Is { expr: Rc<TypedExpr>, pattern: TypedPattern, span: Span },
    Has { expr: Rc<TypedExpr>, pattern: TypedPattern, span: Span },
}

/// The definition of a named type.
#[derive(Debug)]
pub struct NamedDef {
    pub name: String,
    pub ty: Type,
}

/// A field of a record literal.
#[derive(Debug)]
pub struct FieldInit {
    pub name: String,
    pub value: TypedExpr,
}

/// A field of a record literal whose name is computed.
#[derive(Debug)]
pub struct ComputedField {
    pub key: TypedExpr,
    pub value: TypedExpr,
}

/// A piece of an interpolated string.
#[derive(Debug)]
pub enum TypedStringPart {
    Literal(String),
    Expr(TypedExpr),
}

/// An arm of a `match`.
#[derive(Debug)]
pub struct MatchArm {
    pub pattern: TypedPattern,
    pub guard: Option<Rc<TypedExpr>>,
    pub body: TypedExpr,
}

/// A pattern.
#[derive(Debug)]
pub enum TypedPattern {
    TypeCheck(Type, Span),
    /// A check of a value against a type and all that it refers to.
    TypeCheckDeep(Type, List<NamedDef>, Span),
    /// Binds the value to a slot.
    Binding(usize, Type, Span),
    Wildcard(Span),
    Literal(Rc<TypedExpr>),
    Object { fields: List<PatternField>, span: Span },
    Array { span: Span },
}

/// A field that a record pattern asks for, and the string that it has to be where the
/// pattern says so.
#[derive(Debug)]
pub struct PatternField {
    pub key: String,
    pub equals: Option<String>,
}

/// A parameter of a function.
#[derive(Debug)]
pub struct TypedParam {
    pub slot: usize,
    pub name: Text,
    pub ty: Type,
    pub default: Option<Rc<TypedExpr>>,
}

/// A variable that a function captures.
#[derive(Debug)]
pub struct Capture {
    pub outer_slot: usize,
    pub ty: Type,
    pub is_mutable: bool,
}

/// A name that a destructuring statement binds.
#[derive(Debug)]
pub struct BoundField {
    pub key: String,
    pub slot: usize,
    pub ty: Type,
}

/// A statement.
#[derive(Debug)]
pub enum TypedStmt {
    Val { slot: usize, name: Option<String>, value: Rc<TypedExpr>, ty: Type, span: Span },
    Var { slot: usize, name: Option<String>, value: Rc<TypedExpr>, ty: Type, span: Span },
    Expr(TypedExpr),
    Destructure { obj_slot: usize, fields: List<BoundField>, value: Rc<TypedExpr>, span: Span },
    ArrayDestructure { slots: List<usize>, value: Rc<TypedExpr>, span: Span },
    Import { span: Span },
    ForeignImport { span: Span },
}

/// The types of the parameters.
pub open spec fn param_types_spec(params: &List<TypedParam>) -> List<Type>
    decreases params,
{
    match params {
        List::Nil => List::Nil,
        List::Cons(n) => cons(n.head.ty, param_types_spec(&n.tail)),
    }
}

/// The types of the parameters, in order.
#[verifier::when_used_as_spec(param_types_spec)]
pub fn param_types(params: &List<TypedParam>) -> (r: List<Type>)
    ensures
        r == param_types_spec(params),
    decreases params,
{
    match params {
        List::Nil => List::Nil,
        List::Cons(n) => prepend(n.head.ty.dup(), param_types(&n.tail)),
    }
}

/// How many parameters have no default.
pub open spec fn required_count(params: &List<TypedParam>) -> nat
    decreases params,
{
    match params {
        List::Nil => 0,
        List::Cons(n) => required_count(&n.tail) + (if n.head.default is None { 1nat } else {
            0nat
        }),
    }
}

/// The number of required parameters as a machine integer, at most the largest one.
pub open spec fn required_params_spec(params: &List<TypedParam>) -> usize {
    if required_count(params) <= usize::MAX {
        required_count(params) as usize
    } else {
        usize::MAX
    }
}

/// How many parameters have no default.
#[verifier::when_used_as_spec(required_params_spec)]
pub fn required_params(params: &List<TypedParam>) -> (r: usize)
    ensures
        r == required_params_spec(params),
    decreases params,
{
    match params {
        List::Nil => 0,
        List::Cons(n) => {
            let rest: usize = required_params(&n.tail);
            if n.head.default.is_none() && rest < usize::MAX {
                rest + 1
            } else {
                rest
            }
        },
    }
}

impl TypedExpr {
    /// The type of the expression.
    pub open spec fn ty_spec(&self) -> Type
        decreases self,
    {
        match self {
            TypedExpr::IntLit(_, ty, _) => *ty,
            TypedExpr::FloatLit(_, ty, _) => *ty,
            TypedExpr::StringLit(_, ty, _) => *ty,
            TypedExpr::BoolLit(_, _) => Type::Bool,
            TypedExpr::NullLit(_) => Type::Null,
            TypedExpr::LocalGet { ty, .. } => *ty,
            TypedExpr::LocalSet { ty, .. } => *ty,
            TypedExpr::BinaryOp { result_type, .. } => *result_type,
            TypedExpr::UnaryOp { result_type, .. } => *result_type,
            TypedExpr::Coerce { to, .. } => *to,
            TypedExpr::Call { result_type, .. } => *result_type,
            TypedExpr::If { result_type, .. } => *result_type,
            TypedExpr::FromJson { result_type, .. } => *result_type,
            TypedExpr::Match { result_type, .. } => *result_type,
            TypedExpr::Block { ty, .. } => *ty,
            TypedExpr::Function { params, ret_type, .. } => function_type(params, ret_type),
            TypedExpr::MakeObject { ty, .. } => *ty,
            TypedExpr::MakeArray { ty, .. } => *ty,
            TypedExpr::Index { result_type, .. } => *result_type,
            TypedExpr::IndexSet { value, .. } => value.ty_spec(),
            TypedExpr::FieldGet { result_type, .. } => *result_type,
            TypedExpr::StringInterp { .. } => Type::Str,
            TypedExpr::Is { .. } => Type::Bool,
            TypedExpr::Has { .. } => Type::Bool,
        }
    }

    /// The type of the expression.
    #[verifier::when_used_as_spec(ty_spec)]
    pub fn ty(&self) -> (r: Type)
        ensures
            r == self.ty_spec(),
        decreases self,
    {
        match self {
            TypedExpr::IntLit(_, ty, _) => ty.dup(),
            TypedExpr::FloatLit(_, ty, _) => ty.dup(),
            TypedExpr::StringLit(_, ty, _) => ty.dup(),
            TypedExpr::BoolLit(_, _) => Type::Bool,
            TypedExpr::NullLit(_) => Type::Null,
            TypedExpr::LocalGet { ty, .. } => ty.dup(),
            TypedExpr::LocalSet { ty, .. } => ty.dup(),
            TypedExpr::BinaryOp { result_type, .. } => result_type.dup(),
            TypedExpr::UnaryOp { result_type, .. } => result_type.dup(),
            TypedExpr::Coerce { to, .. } => to.dup(),
            TypedExpr::Call { result_type, .. } => result_type.dup(),
            TypedExpr::If { result_type, .. } => result_type.dup(),
            TypedExpr::FromJson { result_type, .. } => result_type.dup(),
            TypedExpr::Match { result_type, .. } => result_type.dup(),
            TypedExpr::Block { ty, .. } => ty.dup(),
            TypedExpr::Function { params, ret_type, .. } => function_type(params, ret_type),
            TypedExpr::MakeObject { ty, .. } => ty.dup(),
            TypedExpr::MakeArray { ty, .. } => ty.dup(),
            TypedExpr::Index { result_type, .. } => result_type.dup(),
            TypedExpr::IndexSet { value, .. } => value.ty(),
            TypedExpr::FieldGet { result_type, .. } => result_type.dup(),
            TypedExpr::StringInterp { .. } => Type::Str,
            TypedExpr::Is { .. } => Type::Bool,
            TypedExpr::Has { .. } => Type::Bool,
        }
    }

    /// Where the expression stands in the source text.
    pub open spec fn span_spec(&self) -> Span {
        match self {
            TypedExpr::IntLit(_, _, span) => *span,
            TypedExpr::FloatLit(_, _, span) => *span,
            TypedExpr::StringLit(_, _, span) => *span,
            TypedExpr::BoolLit(_, span) => *span,
            TypedExpr::NullLit(span) => *span,
            TypedExpr::LocalGet { span, .. } => *span,
            TypedExpr::LocalSet { span, .. } => *span,
            TypedExpr::BinaryOp { span, .. } => *span,
            TypedExpr::UnaryOp { span, .. } => *span,
            TypedExpr::Coerce { span, .. } => *span,
            TypedExpr::Call { span, .. } => *span,
            TypedExpr::If { span, .. } => *span,
            TypedExpr::FromJson { span, .. } => *span,
            TypedExpr::Match { span, .. } => *span,
            TypedExpr::Block { span, .. } => *span,
            TypedExpr::Function { span, .. } => *span,
            TypedExpr::MakeObject { span, .. } => *span,
            TypedExpr::MakeArray { span, .. } => *span,
            TypedExpr::Index { span, .. } => *span,
            TypedExpr::IndexSet { span, .. } => *span,
            TypedExpr::FieldGet { span, .. } => *span,
            TypedExpr::StringInterp { span, .. } => *span,
            TypedExpr::Is { span, .. } => *span,
            TypedExpr::Has { span, .. } => *span,
        }
    }

    /// Where the expression stands in the source text.
    #[verifier::when_used_as_spec(span_spec)]
    pub fn span(&self) -> (r: Span)
        ensures
            r == self.span_spec(),
    {
        match self {
            TypedExpr::IntLit(_, _, span) => *span,
            TypedExpr::FloatLit(_, _, span) => *span,
            TypedExpr::StringLit(_, _, span) => *span,
            TypedExpr::BoolLit(_, span) => *span,
            TypedExpr::NullLit(span) => *span,
            TypedExpr::LocalGet { span, .. } => *span,
            TypedExpr::LocalSet { span, .. } => *span,
            TypedExpr::BinaryOp { span, .. } => *span,
            TypedExpr::UnaryOp { span, .. } => *span,
            TypedExpr::Coerce { span, .. } => *span,
            TypedExpr::Call { span, .. } => *span,
            TypedExpr::If { span, .. } => *span,
            TypedExpr::FromJson { span, .. } => *span,
            TypedExpr::Match { span, .. } => *span,
            TypedExpr::Block { span, .. } => *span,
            TypedExpr::Function { span, .. } => *span,
            TypedExpr::MakeObject { span, .. } => *span,
            TypedExpr::MakeArray { span, .. } => *span,
            TypedExpr::Index { span, .. } => *span,
            TypedExpr::IndexSet { span, .. } => *span,
            TypedExpr::FieldGet { span, .. } => *span,
            TypedExpr::StringInterp { span, .. } => *span,
            TypedExpr::Is { span, .. } => *span,
            TypedExpr::Has { span, .. } => *span,
        }
    }
}

/// The type of a function with these parameters and this result.
pub open spec fn function_type_spec(params: &List<TypedParam>, ret_type: &Type) -> Type {
    Type::Function {
        params: param_types(params),
        ret: Rc::new(*ret_type),
        required: required_params(params),
    }
}

/// The type of a function with these parameters and this result.
#[verifier::when_used_as_spec(function_type_spec)]
pub fn function_type(params: &List<TypedParam>, ret_type: &Type) -> (r: Type)
    ensures
        r == function_type_spec(params, ret_type),
{
    Type::Function {
        params: param_types(params),
        ret: Rc::new(ret_type.dup()),
        required: required_params(params),
    }
}

} // verus!
