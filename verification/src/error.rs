//! Core errors of the graph data model.

use vstd::prelude::*;
use crate::ids::{FunctionId, ModuleId, NodeId, TypeId};

verus! {

/// Errors produced by the core graph data model.
#[derive(Debug, Clone)]
pub enum CoreError {
    /// A type name was registered twice.
    DuplicateTypeName { name: String },
    /// A type id is not in the type registry.
    TypeNotFound { id: TypeId },
    /// A node id is not in the graph.
    NodeNotFound { id: NodeId },
    /// A function id is not known.
    FunctionNotFound { id: FunctionId },
    /// A module id is not known.
    ModuleNotFound { id: ModuleId },
    /// An edge failed validation.
    InvalidEdge { reason: String },
    /// A dual-graph invariant was violated.
    GraphInconsistency { reason: String },
    /// A propagation flush exceeded its replay limit.
    PropagationLoopDetected { reason: String },
}

} // verus!
