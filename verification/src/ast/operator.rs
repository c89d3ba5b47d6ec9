//! The operators of a function body, as the passes and the lifter read them.

use vstd::prelude::*;

verus! {

/// The four number types.
#[derive(Clone, Copy, Debug, PartialEq, Eq, Structural)]
pub enum NumType {
    I32,
    I64,
    F32,
    F64,
}

/// The type of a local variable.
#[derive(Clone, Copy, Debug, PartialEq, Eq, Structural)]
pub enum ValType {
    I32,
    I64,
    F32,
    F64,
    V128,
    Ref,
}

/// The type of a block: nothing, a single result, or a function type by
/// its index.
#[derive(Clone, Copy, Debug, PartialEq, Eq, Structural)]
pub enum BlockType {
    Empty,
    Type(ValType),
    FuncType(u32),
}

/// The immediate of a memory access.
#[derive(Clone, Copy, Debug, PartialEq, Eq, Structural)]
pub struct MemArg {
    pub memory: u32,
    pub offset: u64,
}

/// Operations with one operand.
#[derive(Clone, Copy, Debug, PartialEq, Eq, Structural)]
pub enum UnOpKind {
    Clz,
    Ctz,
    Popcnt,
    Abs,
    Neg,
    Ceil,
    Floor,
    Trunc,
    Nearest,
    Sqrt,
    Wrap,
    TruncS,
    TruncU,
    SaturateS,
    SaturateU,
    ExtendS,
    ExtendU,
    Extend8S,
    Extend16S,
    Extend32S,
    ConvertS,
    ConvertU,
    Demote,
    Promote,
    Reinterpret,
}

/// An operation with one operand, with the types of its result and its
/// operand.
#[derive(Clone, Copy, Debug, PartialEq, Eq, Structural)]
pub struct UnOpType {
    pub kind: UnOpKind,
    pub result: NumType,
    pub operand: NumType,
}

/// Operations with two operands of one type and a result of that type.
#[derive(Clone, Copy, Debug, PartialEq, Eq, Structural)]
pub enum BinOpKind {
    Add,
    Sub,
    Mul,
    Div,
    DivS,
    DivU,
    RemS,
    RemU,
    And,
    Or,
    Xor,
    Shl,
    ShrS,
    ShrU,
    Rotl,
    Rotr,
    Min,
    Max,
    Copysign,
}

#[derive(Clone, Copy, Debug, PartialEq, Eq, Structural)]
pub struct BinOpType {
    pub kind: BinOpKind,
    pub ty: NumType,
}

/// Comparisons of two operands of one type.
#[derive(Clone, Copy, Debug, PartialEq, Eq, Structural)]
pub enum CmpOpKind {
    Eq,
    Ne,
    Lt,
    Gt,
    Le,
    Ge,
    LtS,
    LtU,
    GtS,
    GtU,
    LeS,
    LeU,
    GeS,
    GeU,
}

#[derive(Clone, Copy, Debug, PartialEq, Eq, Structural)]
pub struct CmpOpType {
    pub kind: CmpOpKind,
    pub ty: NumType,
}

/// What a load reads and how it widens it.
#[allow(non_camel_case_types)]
#[derive(Clone, Copy, Debug, PartialEq, Eq, Structural)]
pub enum LoadType {
    I32,
    I64,
    F32,
    F64,
    I32_I8,
    I32_U8,
    I32_I16,
    I32_U16,
    I64_I8,
    I64_U8,
    I64_I16,
    I64_U16,
    I64_I32,
    I64_U32,
}

/// What a store writes and how it narrows it.
#[allow(non_camel_case_types)]
#[derive(Clone, Copy, Debug, PartialEq, Eq, Structural)]
pub enum StoreType {
    I32,
    I64,
    F32,
    F64,
    I32_N8,
    I32_N16,
    I64_N8,
    I64_N16,
    I64_N32,
}

/// One operator of a function body.
///
/// Numeric operators are grouped by arity, loads and stores by what they
/// access; floating-point constants carry their bit pattern. An operator
/// that the lifter has no translation for is `Unsupported`.
#[allow(inconsistent_fields)]
#[derive(Clone, Debug, PartialEq)]
pub enum Operator {
    Unreachable,
    Nop,
    Block { blockty: BlockType },
    Loop { blockty: BlockType },
    If { blockty: BlockType },
    Else,
    End,
    Br { relative_depth: u32 },
    BrIf { relative_depth: u32 },
    BrTable { targets: Vec<u32>, default: u32 },
    Return,
    Call { function_index: u32 },
    CallIndirect { type_index: u32, table_index: u32 },
    Drop,
    Select,
    LocalGet { local_index: u32 },
    LocalSet { local_index: u32 },
    LocalTee { local_index: u32 },
    GlobalGet { global_index: u32 },
    GlobalSet { global_index: u32 },
    Load { load_type: LoadType, memarg: MemArg },
    Store { store_type: StoreType, memarg: MemArg },
    MemorySize { mem: u32 },
    MemoryGrow { mem: u32 },
    MemoryCopy { dst_mem: u32, src_mem: u32 },
    MemoryFill { mem: u32 },
    I32Const { value: i32 },
    I64Const { value: i64 },
    F32Const { bits: u32 },
    F64Const { bits: u64 },
    I32Eqz,
    I64Eqz,
    UnOp(UnOpType),
    BinOp(BinOpType),
    CmpOp(CmpOpType),
    Unsupported,
}

/// An index of the module as a machine index.
pub open spec fn to_index(x: u32) -> usize {
    x as usize
}

/// An index of the module as a machine index.
pub fn index_of(x: u32) -> (i: usize)
    ensures
        i == to_index(x),
{
    x as usize
}

/// How an operator takes part in the block structure.
#[derive(Clone, Copy, Debug, PartialEq, Eq, Structural)]
pub enum Shape {
    /// `Block`
    Block,
    /// `Loop`
    Loop,
    /// `If`
    If,
    /// `Else`
    Else,
    /// `End`
    End,
    /// `Unreachable`, `Br`, `BrTable` and `Return`: nothing after them in
    /// their block is executed.
    Exit,
    /// Every other operator.
    Plain,
}

impl Operator {
    /// The part of the operator in the block structure.
    pub open spec fn shape(&self) -> Shape {
        match self {
            Operator::Block { .. } => Shape::Block,
            Operator::Loop { .. } => Shape::Loop,
            Operator::If { .. } => Shape::If,
            Operator::Else => Shape::Else,
            Operator::End => Shape::End,
            Operator::Unreachable => Shape::Exit,
            Operator::Br { .. } => Shape::Exit,
            Operator::BrTable { .. } => Shape::Exit,
            Operator::Return => Shape::Exit,
            _ => Shape::Plain,
        }
    }

    /// Computes the part of the operator in the block structure.
    pub fn get_shape(&self) -> (shape: Shape)
        ensures
            shape == self.shape(),
    {
        match self {
            Operator::Block { .. } => Shape::Block,
            Operator::Loop { .. } => Shape::Loop,
            Operator::If { .. } => Shape::If,
            Operator::Else => Shape::Else,
            Operator::End => Shape::End,
            Operator::Unreachable => Shape::Exit,
            Operator::Br { .. } => Shape::Exit,
            Operator::BrTable { .. } => Shape::Exit,
            Operator::Return => Shape::Exit,
            _ => Shape::Plain,
        }
    }
}

} // verus!
