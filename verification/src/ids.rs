//! Stable identifier newtypes for graph entities.
//!
//! Every identifier is a distinct wrapper over `u32`, so that a node id can
//! never be passed where an edge, function or module id is expected.

use vstd::prelude::*;
use crate::text::{decimal_seq, u64_to_decimal};

verus! {

/// Stable node identifier in the computational graph.
#[derive(Debug, Clone, Copy, PartialEq, Eq, Hash, Structural)]
pub struct NodeId(pub u32);

/// Stable edge identifier in the computational graph.
#[derive(Debug, Clone, Copy, PartialEq, Eq, Hash, Structural)]
pub struct EdgeId(pub u32);

/// Function identity within the program graph.
#[derive(Debug, Clone, Copy, PartialEq, Eq, Hash, Structural)]
pub struct FunctionId(pub u32);

/// Module identity within the program graph.
#[derive(Debug, Clone, Copy, PartialEq, Eq, Hash, Structural)]
pub struct ModuleId(pub u32);

/// Nominal type identity: an index into the program's type registry.
#[derive(Debug, Clone, Copy, PartialEq, Eq, Hash, Structural)]
pub struct TypeId(pub u32);

impl NodeId {
    /// The display form of the id: its inner value in decimal.
    pub fn to_string(&self) -> (s: String)
        ensures
            s@ == decimal_seq(self.0 as nat),
    {
        u64_to_decimal(self.0 as u64)
    }
}

impl EdgeId {
    /// The display form of the id: its inner value in decimal.
    pub fn to_string(&self) -> (s: String)
        ensures
            s@ == decimal_seq(self.0 as nat),
    {
        u64_to_decimal(self.0 as u64)
    }
}

impl FunctionId {
    /// The display form of the id: its inner value in decimal.
    pub fn to_string(&self) -> (s: String)
        ensures
            s@ == decimal_seq(self.0 as nat),
    {
        u64_to_decimal(self.0 as u64)
    }
}

impl ModuleId {
    /// The display form of the id: its inner value in decimal.
    pub fn to_string(&self) -> (s: String)
        ensures
            s@ == decimal_seq(self.0 as nat),
    {
        u64_to_decimal(self.0 as u64)
    }
}

impl TypeId {
    /// The pre-registered id of the built-in Bool type.
    pub fn bool() -> (t: TypeId)
        ensures
            t == TypeId(0),
    {
        TypeId(0)
    }

    /// The pre-registered id of the built-in I8 type.
    pub fn int8() -> (t: TypeId)
        ensures
            t == TypeId(1),
    {
        TypeId(1)
    }

    /// The pre-registered id of the built-in I16 type.
    pub fn int16() -> (t: TypeId)
        ensures
            t == TypeId(2),
    {
        TypeId(2)
    }

    /// The pre-registered id of the built-in I32 type.
    pub fn int32() -> (t: TypeId)
        ensures
            t == TypeId(3),
    {
        TypeId(3)
    }

    /// The pre-registered id of the built-in I64 type.
    pub fn int64() -> (t: TypeId)
        ensures
            t == TypeId(4),
    {
        TypeId(4)
    }

    /// The pre-registered id of the built-in F32 type.
    pub fn float32() -> (t: TypeId)
        ensures
            t == TypeId(5),
    {
        TypeId(5)
    }

    /// The pre-registered id of the built-in F64 type.
    pub fn float64() -> (t: TypeId)
        ensures
            t == TypeId(6),
    {
        TypeId(6)
    }

    /// The pre-registered id of the built-in Unit type.
    pub fn unit() -> (t: TypeId)
        ensures
            t == TypeId(7),
    {
        TypeId(7)
    }

    /// The pre-registered id of the built-in Never type.
    pub fn never() -> (t: TypeId)
        ensures
            t == TypeId(8),
    {
        TypeId(8)
    }


    /// The display form of the id: `TypeId(<n>)`.
    pub fn to_string(&self) -> (s: String)
        ensures
            s@ == "TypeId("@ + decimal_seq(self.0 as nat) + ")"@,
    {
        let mut s = String::from_str("TypeId(");
        let digits = u64_to_decimal(self.0 as u64);
        s.append(digits.as_str());
        s.append(")");
        s
    }
}

} // verus!
