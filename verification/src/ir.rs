//! The intermediate representation: functions of basic blocks over numbered temporaries.

use crate::ast::{BinOp, NamedDef, Span};
use crate::list::List;
use crate::text::Text;
use crate::types::Type;
use std::rc::Rc;
use vstd::prelude::*;

verus! {

/// A value that one instruction defines.
#[derive(Debug, Clone, Copy, PartialEq, Eq, Structural)]
pub struct Temp(pub u32);

/// A basic block of a function.
#[derive(Debug, Clone, Copy, PartialEq, Eq, Structural)]
pub struct BlockId(pub u32);

/// A function of the program.
#[derive(Debug, Clone, Copy, PartialEq, Eq, Structural)]
pub struct FuncId(pub u32);

/// A constant.
#[derive(Debug)]
pub enum Const {
    Int(i64, Type),
    /// A floating-point number, by its bit pattern.
    Float(u64, Type),
    Bool(bool),
    Null,
    Str(Text),
}

/// The type that a constant has.
pub open spec fn const_type_spec(c: &Const) -> Type {
    match c {
        Const::Int(_, t) => *t,
        Const::Float(_, t) => *t,
        Const::Bool(_) => Type::Bool,
        Const::Null => Type::Null,
        Const::Str(_) => Type::Str,
    }
}

/// The type that a constant has.
#[verifier::when_used_as_spec(const_type_spec)]
pub fn const_type(c: &Const) -> (r: Type)
    ensures
        r == const_type_spec(c),
{
    match c {
        Const::Int(_, t) => t.dup(),
        Const::Float(_, t) => t.dup(),
        Const::Bool(_) => Type::Bool,
        Const::Null => Type::Null,
        Const::Str(_) => Type::Str,
    }
}

/// What a call calls.
#[derive(Debug)]
pub enum CallTarget {
    Direct(FuncId),
    Named(Text),
    Indirect(Temp),
}

/// The element kinds of arrays whose elements lie unboxed side by side.
#[derive(Debug, Clone, Copy, PartialEq, Eq, Structural)]
pub enum FlatElemKind {
    I8,
    I16,
    I32,
    I64,
    U8,
    U16,
    U32,
    U64,
    F32,
    F64,
}

impl FlatElemKind {
    /// The kind of a flat element type.
    pub open spec fn from_type_spec(ty: &Type) -> Option<FlatElemKind> {
        match ty {
            Type::Int8 => Some(FlatElemKind::I8),
            Type::Int16 => Some(FlatElemKind::I16),
            Type::Int32 => Some(FlatElemKind::I32),
            Type::Int64 => Some(FlatElemKind::I64),
            Type::UInt8 => Some(FlatElemKind::U8),
            Type::UInt16 => Some(FlatElemKind::U16),
            Type::UInt32 => Some(FlatElemKind::U32),
            Type::UInt64 => Some(FlatElemKind::U64),
            Type::Float32 => Some(FlatElemKind::F32),
            Type::Float64 => Some(FlatElemKind::F64),
            _ => None,
        }
    }

    /// The kind of a number type; `None` for every other type.
    #[verifier::when_used_as_spec(from_type_spec)]
    pub fn from_type(ty: &Type) -> (r: Option<FlatElemKind>)
        ensures
            r == FlatElemKind::from_type_spec(ty),
            r is Some <==> ty.is_flat_scalar(),
    {
        match ty {
            Type::Int8 => Some(FlatElemKind::I8),
            Type::Int16 => Some(FlatElemKind::I16),
            Type::Int32 => Some(FlatElemKind::I32),
            Type::Int64 => Some(FlatElemKind::I64),
            Type::UInt8 => Some(FlatElemKind::U8),
            Type::UInt16 => Some(FlatElemKind::U16),
            Type::UInt32 => Some(FlatElemKind::U32),
            Type::UInt64 => Some(FlatElemKind::U64),
            Type::Float32 => Some(FlatElemKind::F32),
            Type::Float64 => Some(FlatElemKind::F64),
            _ => None,
        }
    }
}

/// An operation that the run-time system provides.
#[derive(Debug)]
pub enum Intrinsic {
    Print,
    ToString,
    Length,
    Push,
    ObjectSetDyn,
    ArraySetDyn,
    Keys,
    ValueKey,
    ToJson,
    ArrayAllocate,
    ArrayAllocateFilled,
    Concat,
    Async,
    Await,
    Exit,
    Parallel,
    Race,
    Timeout,
    Retry,
    ThreadPool,
    SharedNew,
    SharedGet,
    SharedSet,
    SharedWithLock,
    Freeze,
    Worker,
    Serve,
    Request,
    Message,
    Close,
    StreamOpen,
    StreamRead,
    StreamClose,
    StreamMap,
    StreamFilter,
    StreamTake,
    StreamDrop,
    StreamTakeWhile,
    StreamDropWhile,
    StreamFlatMap,
    StreamFlatten,
    StreamConcat,
    StreamSliding,
    StreamPairwise,
    StreamIntersperse,
    StreamDedup,
    StreamZipWith,
    StreamCount,
    StreamRepeat,
    StreamCycle,
    StreamGunzip,
    StreamGzip,
    StreamInflate,
    StreamDeflate,
    StreamUntar,
    StreamManifest,
    StreamFiles,
    StreamTarEntries,
    TarHeader,
    TarBody,
    StreamReduce,
    StreamFind,
    StreamSome,
    StreamEvery,
    StreamWhile,
    StreamFor,
    StreamLines,
    StreamChunks,
    StreamWrite,
    StreamWriteLines,
    StreamDrain,
    StreamCollect,
    StreamReadText,
    StreamTcp,
    StreamStdout,
    StreamStdin,
    StreamPromise,
    StringBuildN,
    FlatArrayAlloc(FlatElemKind),
    FlatArrayPush(FlatElemKind),
    ArrayAlloc,
    FromJson { target: Type, named_defs: List<NamedDef> },
}

/// How the environment of a closure gives up a captured value.
#[derive(Debug)]
pub enum CaptureRelease {
    /// Nothing has to be given up.
    Plain,
    Move,
    Tagged,
    Str,
    Array,
    Sealed,
    Object,
    Closure,
}

/// A unary machine operation.
#[derive(Debug, Clone, Copy, PartialEq, Eq, Structural)]
pub enum IrUnaryOp {
    Not,
}

/// A field of a record under construction.
#[derive(Debug)]
pub struct NamedTemp {
    pub name: String,
    pub temp: Temp,
}

/// A field of a record under construction whose name is computed.
#[derive(Debug)]
pub struct KeyedTemp {
    pub key: Temp,
    pub value: Temp,
}

/// A value that a phi takes when control comes from `pred`.
#[derive(Debug)]
pub struct Incoming {
    pub val: Temp,
    pub pred: BlockId,
}

/// An instruction.
#[allow(inconsistent_fields)]
#[derive(Debug)]
pub enum Instruction {
    Const { dst: Temp, value: Const },
    Call { dst: Temp, callee: CallTarget, args: List<Temp>, ret_ty: Type },
    CallIntrinsic { dst: Temp, intrinsic: Intrinsic, args: List<Temp>, ret_ty: Type },
    /// Changes the representation of a value.
    Coerce { dst: Temp, src: Temp, from_ty: Type, to_ty: Type },
    Retain { val: Temp, ty: Type },
    Release { val: Temp, ty: Type },
    ReleaseIfDistinct { val: Temp, other: Temp },
    ReleaseRawIfDistinct { val: Temp, other: Temp, ty: Type },
    FreeBoxShell { val: Temp },
    FreeBoxShellIfDistinct { val: Temp, other: Temp },
    CloneBox { dst: Temp, src: Temp, ty: Type },
    MakeCell { dst: Temp, init: Temp, ty: Type },
    CellGet { dst: Temp, cell: Temp, ty: Type },
    CellSet { cell: Temp, value: Temp, ty: Type },
    FreeCell { cell: Temp, ty: Type },
    GlobalValGet { dst: Temp, slot: usize, ty: Type, immutable: bool },
    GlobalValSet { slot: usize, value: Temp, ty: Type, immutable: bool },
    /// Reads an element. With `nonneg` the key counts from a constant that is not negative.
    Index {
        dst: Temp,
        object: Temp,
        key: Temp,
        obj_ty: Type,
        key_ty: Type,
        result_ty: Type,
        nonneg: bool,
    },
    IndexSet { object: Temp, key: Temp, value: Temp, obj_ty: Type, key_ty: Type, val_ty: Type },
    FieldGet { dst: Temp, object: Temp, field: String, obj_ty: Type, result_ty: Type },
    FieldSet { object: Temp, field: String, value: Temp, obj_ty: Type, val_ty: Type },
    SealedArrayFieldGet {
        dst: Temp,
        array: Temp,
        index: Temp,
        field: String,
        arr_ty: Type,
        result_ty: Type,
    },
    BoxedArrayFieldGet {
        dst: Temp,
        array: Temp,
        index: Temp,
        field: String,
        arr_ty: Type,
        result_ty: Type,
    },
    MakeObject {
        dst: Temp,
        fields: List<NamedTemp>,
        spreads: List<Temp>,
        computed_fields: List<KeyedTemp>,
        ty: Type,
        stack: bool,
    },
    MakeArray { dst: Temp, elements: List<Temp>, elem_ty: Type, inline: bool, columnar: bool },
    MakeClosure {
        dst: Temp,
        func: FuncId,
        captures: List<Temp>,
        capture_kinds: List<CaptureRelease>,
        ret_ty: Type,
    },
    MakeNamedClosure { dst: Temp, sym: Text, ty: Type },
    EnvCapture { dst: Temp, env: Temp, index: u32, ty: Type },
    DebugDeclare { temp: Temp, name: Text, ty: Type, param_no: Option<u32>, span: Span },
    Phi { dst: Temp, ty: Type, incomings: List<Incoming> },
    Binary { dst: Temp, op: BinOp, lhs: Temp, rhs: Temp, operand_ty: Type, ty: Type },
    Unary { dst: Temp, op: IrUnaryOp, operand: Temp, ty: Type },
    IsType { dst: Temp, val: Temp, ty: Type },
    HasPattern { dst: Temp, val: Temp, required_fields: List<String> },
    MatchesSchema { dst: Temp, val: Temp, target: Type, named_defs: List<NamedDef> },
}

/// How a block ends.
#[derive(Debug)]
pub enum Terminator {
    /// The block has not been ended.
    Unreachable,
    Jump(BlockId),
    CondJump { cond: Temp, then_block: BlockId, else_block: BlockId },
    Return(Option<Temp>),
    TailCall { args: List<Temp> },
}

/// An instruction and the source text that it stands for.
#[derive(Debug)]
pub struct Spanned {
    pub instr: Instruction,
    pub span: Option<Span>,
}

/// A basic block. Its instructions are kept last first.
#[derive(Debug)]
pub struct BasicBlock {
    pub label: &'static str,
    pub code: List<Rc<Spanned>>,
    pub term: Terminator,
    pub span: Option<Span>,
}

/// A parameter of a lowered function.
#[derive(Debug)]
pub struct IrParam {
    pub temp: Temp,
    pub ty: Type,
}

/// A lowered function. The block at position `i` is the one that `BlockId(i)` names, and
/// `temp_types` holds at position `i` the type of `Temp(i)`.
#[derive(Debug)]
pub struct Function {
    pub id: FuncId,
    pub name: Option<Text>,
    pub params: List<IrParam>,
    pub is_closure: bool,
    pub ret_ty: Type,
    pub blocks: List<BasicBlock>,
    pub temp_types: List<Type>,
}

} // verus!
