//! The operation vocabulary of the computational graph: core (tier 1)
//! operations for arithmetic, comparison, logic, shifts, control flow,
//! memory, functions, I/O and closures, and structured (tier 2) operations
//! for aggregates, casts and enums. Operand types are inferred from the
//! typed data-flow edges, except where an operation creates a type.

use vstd::prelude::*;
use crate::ids::{FunctionId, TypeId};

verus! {

/// Binary arithmetic operators.
#[derive(Debug, Clone, Copy, PartialEq, Eq, Structural)]
pub enum ArithOp {
    Add,
    Sub,
    Mul,
    Div,
    Rem,
}

/// Unary arithmetic operators.
#[derive(Debug, Clone, Copy, PartialEq, Eq, Structural)]
pub enum UnaryArithOp {
    Neg,
    Abs,
}

/// Comparison operators.
#[derive(Debug, Clone, Copy, PartialEq, Eq, Structural)]
pub enum CmpOp {
    Eq,
    Ne,
    Lt,
    Le,
    Gt,
    Ge,
}

/// Logical operators.
#[derive(Debug, Clone, Copy, PartialEq, Eq, Structural)]
pub enum LogicOp {
    And,
    Or,
    Xor,
}

/// Shift operators.
#[derive(Debug, Clone, Copy, PartialEq, Eq, Structural)]
pub enum ShiftOp {
    Shl,
    ShrLogical,
    ShrArith,
}

/// Constant literal values of `Const` nodes. Floating-point constants are
/// held as the IEEE-754 bits of their `f64` value (an `F32` constant is
/// widened to `f64`; narrowing happens when lowering to LLVM).
#[derive(Debug, Clone, Copy, PartialEq, Eq, Structural)]
pub enum ConstValue {
    Bool(bool),
    I8(i8),
    I16(i16),
    I32(i32),
    I64(i64),
    F32(u64),
    F64(u64),
    Unit,
}

/// Core (tier 1) operations.
#[derive(Debug, Clone, Copy, PartialEq, Eq, Structural)]
pub enum ComputeOp {
    Const { value: ConstValue },
    BinaryArith { op: ArithOp },
    UnaryArith { op: UnaryArithOp },
    Compare { op: CmpOp },
    BinaryLogic { op: LogicOp },
    Not,
    Shift { op: ShiftOp },
    IfElse,
    Loop,
    Match,
    Branch,
    Jump,
    Phi,
    Alloc,
    Load,
    Store,
    GetElementPtr,
    Call { target: FunctionId },
    IndirectCall,
    Return,
    Parameter { index: u32 },
    Print,
    ReadLine,
    FileOpen,
    FileRead,
    FileWrite,
    FileClose,
    MakeClosure { function: FunctionId },
    CaptureAccess { index: u32 },
}

/// Control-flow operations: the structured forms and the low-level ones.
pub open spec fn spec_is_control_flow(op: ComputeOp) -> bool {
    ||| op is IfElse
    ||| op is Loop
    ||| op is Match
    ||| op is Branch
    ||| op is Jump
    ||| op is Phi
}

/// Console and file I/O operations.
pub open spec fn spec_is_io(op: ComputeOp) -> bool {
    ||| op is Print
    ||| op is ReadLine
    ||| op is FileOpen
    ||| op is FileRead
    ||| op is FileWrite
    ||| op is FileClose
}

/// Basic-block terminators.
pub open spec fn spec_is_terminator(op: ComputeOp) -> bool {
    op is Return || op is Branch || op is Jump
}

impl ComputeOp {
    /// Returns `true` for control-flow operations.
    pub fn is_control_flow(&self) -> (r: bool)
        ensures
            r == spec_is_control_flow(*self),
    {
        match self {
            ComputeOp::IfElse | ComputeOp::Loop | ComputeOp::Match | ComputeOp::Branch | ComputeOp::Jump
            | ComputeOp::Phi => true,
            _ => false,
        }
    }

    /// Returns `true` for I/O operations.
    pub fn is_io(&self) -> (r: bool)
        ensures
            r == spec_is_io(*self),
    {
        match self {
            ComputeOp::Print | ComputeOp::ReadLine | ComputeOp::FileOpen | ComputeOp::FileRead
            | ComputeOp::FileWrite | ComputeOp::FileClose => true,
            _ => false,
        }
    }

    /// Returns `true` for basic-block terminators.
    pub fn is_terminator(&self) -> (r: bool)
        ensures
            r == spec_is_terminator(*self),
    {
        match self {
            ComputeOp::Return | ComputeOp::Branch | ComputeOp::Jump => true,
            _ => false,
        }
    }
}

/// Structured (tier 2) operations.
#[derive(Debug, Clone, Copy, PartialEq, Eq, Structural)]
pub enum StructuredOp {
    StructCreate { type_id: TypeId },
    StructGet { field_index: u32 },
    StructSet { field_index: u32 },
    ArrayCreate { length: u32 },
    ArrayGet,
    ArraySet,
    Cast { target_type: TypeId },
    EnumCreate { type_id: TypeId, variant_index: u32 },
    EnumDiscriminant,
    EnumPayload { variant_index: u32 },
}

/// An operation of either tier.
#[derive(Debug, Clone, Copy, PartialEq, Eq, Structural)]
pub enum ComputeNodeOp {
    Core(ComputeOp),
    Structured(StructuredOp),
}

impl ComputeNodeOp {
    /// The tier: 1 for core operations, 2 for structured ones.
    pub fn tier(&self) -> (r: u8)
        ensures
            r == (if *self is Core { 1u8 } else { 2u8 }),
    {
        match self {
            ComputeNodeOp::Core(_) => 1,
            ComputeNodeOp::Structured(_) => 2,
        }
    }

    /// Control flow: only core control-flow operations.
    pub fn is_control_flow(&self) -> (r: bool)
        ensures
            r == (*self matches ComputeNodeOp::Core(op) && spec_is_control_flow(op)),
    {
        match self {
            ComputeNodeOp::Core(op) => op.is_control_flow(),
            ComputeNodeOp::Structured(_) => false,
        }
    }

    /// Terminators: only core terminators.
    pub fn is_terminator(&self) -> (r: bool)
        ensures
            r == (*self matches ComputeNodeOp::Core(op) && spec_is_terminator(op)),
    {
        match self {
            ComputeNodeOp::Core(op) => op.is_terminator(),
            ComputeNodeOp::Structured(_) => false,
        }
    }

    /// I/O: only core I/O operations.
    pub fn is_io(&self) -> (r: bool)
        ensures
            r == (*self matches ComputeNodeOp::Core(op) && spec_is_io(op)),
    {
        match self {
            ComputeNodeOp::Core(op) => op.is_io(),
            ComputeNodeOp::Structured(_) => false,
        }
    }
}

/// A node of the computational graph: an operation and the function that
/// owns it (function boundaries in the flat graph).
#[derive(Debug, Clone, Copy, PartialEq, Eq, Structural)]
pub struct ComputeNode {
    pub op: ComputeNodeOp,
    pub owner: FunctionId,
}

impl ComputeNode {
    /// A node with the given operation and owner.
    pub fn new(op: ComputeNodeOp, owner: FunctionId) -> (n: Self)
        ensures
            n == (ComputeNode { op, owner }),
    {
        ComputeNode { op, owner }
    }

    /// A node wrapping a core (tier 1) operation.
    pub fn core_node(op: ComputeOp, owner: FunctionId) -> (n: Self)
        ensures
            n == (ComputeNode { op: ComputeNodeOp::Core(op), owner }),
    {
        ComputeNode { op: ComputeNodeOp::Core(op), owner }
    }

    /// A node wrapping a structured (tier 2) operation.
    pub fn structured(op: StructuredOp, owner: FunctionId) -> (n: Self)
        ensures
            n == (ComputeNode { op: ComputeNodeOp::Structured(op), owner }),
    {
        ComputeNode { op: ComputeNodeOp::Structured(op), owner }
    }

    /// The tier of the node's operation.
    pub fn tier(&self) -> (r: u8)
        ensures
            r == (if self.op is Core { 1u8 } else { 2u8 }),
    {
        self.op.tier()
    }

    /// Whether the node is a control-flow operation.
    pub fn is_control_flow(&self) -> (r: bool)
        ensures
            r == (self.op matches ComputeNodeOp::Core(op) && spec_is_control_flow(op)),
    {
        self.op.is_control_flow()
    }

    /// Whether the node is a basic-block terminator.
    pub fn is_terminator(&self) -> (r: bool)
        ensures
            r == (self.op matches ComputeNodeOp::Core(op) && spec_is_terminator(op)),
    {
        self.op.is_terminator()
    }

    /// Whether the node is an I/O operation.
    pub fn is_io(&self) -> (r: bool)
        ensures
            r == (self.op matches ComputeNodeOp::Core(op) && spec_is_io(op)),
    {
        self.op.is_io()
    }
}

} // verus!
