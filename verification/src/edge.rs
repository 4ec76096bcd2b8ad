//! Edge types for both graph layers.
//!
//! The computational graph uses [`FlowEdge`] for data flow (typed SSA value
//! passing) and control flow (execution ordering, branch selection). The
//! semantic graph uses [`SemanticEdge`] for structural relationships.

use vstd::prelude::*;
use crate::ids::TypeId;

verus! {

/// Edge types in the computational graph.
#[derive(Debug, Clone)]
pub enum FlowEdge {
    /// SSA-style data dependency from an output port of the source to an
    /// input port of the target, carrying a value of `value_type`.
    Data { source_port: u16, target_port: u16, value_type: TypeId },
    /// Control dependency; `branch_index` selects a branch arm, `None` for
    /// unconditional ordering.
    Control { branch_index: Option<u16> },
}

impl FlowEdge {
    /// Returns `true` if this is a data flow edge.
    pub fn is_data(&self) -> (r: bool)
        ensures
            r == (*self is Data),
    {
        match self {
            FlowEdge::Data { .. } => true,
            FlowEdge::Control { .. } => false,
        }
    }

    /// Returns `true` if this is a control flow edge.
    pub fn is_control(&self) -> (r: bool)
        ensures
            r == (*self is Control),
    {
        match self {
            FlowEdge::Data { .. } => false,
            FlowEdge::Control { .. } => true,
        }
    }

    /// The value type carried by a data edge; `None` for control edges.
    pub fn value_type(&self) -> (r: Option<TypeId>)
        ensures
            match *self {
                FlowEdge::Data { value_type, .. } => r == Some(value_type),
                FlowEdge::Control { .. } => r is None,
            },
    {
        match self {
            FlowEdge::Data { value_type, .. } => Some(*value_type),
            FlowEdge::Control { .. } => None,
        }
    }
}

/// Edge types in the semantic graph.
#[derive(Debug, Clone, Copy, PartialEq, Eq, Structural)]
pub enum SemanticEdge {
    /// Module contains a child (module, function, or type definition).
    Contains,
    /// Function calls another function.
    Calls,
    /// Function or type references another type.
    UsesType,
    /// Function implements a specification.
    Implements,
    /// Test validates a specification or function.
    Validates,
    /// Documentation describes an entity.
    Documents,
}

} // verus!
