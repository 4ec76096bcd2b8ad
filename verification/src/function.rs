//! Function definitions with closure and nesting support.
//!
//! A function's body lives as compute nodes owned by its id in the flat
//! computational graph; [`FunctionDef`] is its metadata. Closures carry a
//! non-empty capture list and a parent function.

use vstd::prelude::*;
use crate::ids::{FunctionId, ModuleId, NodeId, TypeId};
use crate::types::Visibility;

verus! {

/// How a variable is captured by a closure.
#[derive(Debug, Clone, Copy, PartialEq, Eq, Structural)]
pub enum CaptureMode {
    /// Capture by value (move semantics).
    ByValue,
    /// Capture by immutable reference.
    ByRef,
    /// Capture by mutable reference.
    ByMutRef,
}

/// A single captured variable in a closure.
#[derive(Debug, Clone)]
pub struct Capture {
    /// Original variable name in the enclosing scope.
    pub name: String,
    /// Type of the captured value.
    pub captured_type: TypeId,
    /// How this variable is captured.
    pub mode: CaptureMode,
}

/// Full function definition: identity, signature, captures and nesting.
#[derive(Debug, Clone)]
pub struct FunctionDef {
    pub id: FunctionId,
    pub name: String,
    pub module: ModuleId,
    pub visibility: Visibility,
    /// Named, typed parameters in declaration order.
    pub params: Vec<(String, TypeId)>,
    pub return_type: TypeId,
    /// Entry point in the compute graph, once the body exists.
    pub entry_node: Option<NodeId>,
    /// Captured variables (empty for non-closures).
    pub captures: Vec<Capture>,
    pub is_closure: bool,
    /// The enclosing function of a nested function or closure.
    pub parent_function: Option<FunctionId>,
}

impl FunctionDef {
    /// Creates a non-closure, top-level, public function with no captures and
    /// no entry node yet.
    pub fn new(
        id: FunctionId,
        name: String,
        module: ModuleId,
        params: Vec<(String, TypeId)>,
        return_type: TypeId,
    ) -> (f: Self)
        ensures
            f.id == id,
            f.name@ == name@,
            f.module == module,
            f.visibility == Visibility::Public,
            f.params@ == params@,
            f.return_type == return_type,
            f.entry_node is None,
            f.captures@.len() == 0,
            !f.is_closure,
            f.parent_function is None,
    {
        FunctionDef {
            id,
            name,
            module,
            visibility: Visibility::Public,
            params,
            return_type,
            entry_node: None,
            captures: Vec::new(),
            is_closure: false,
            parent_function: None,
        }
    }

    /// Creates a private closure nested in `parent` with the given captures.
    pub fn closure(
        id: FunctionId,
        name: String,
        module: ModuleId,
        parent: FunctionId,
        params: Vec<(String, TypeId)>,
        return_type: TypeId,
        captures: Vec<Capture>,
    ) -> (f: Self)
        ensures
            f.id == id,
            f.name@ == name@,
            f.module == module,
            f.visibility == Visibility::Private,
            f.params@ == params@,
            f.return_type == return_type,
            f.entry_node is None,
            f.captures@ == captures@,
            f.is_closure,
            f.parent_function == Some(parent),
    {
        FunctionDef {
            id,
            name,
            module,
            visibility: Visibility::Private,
            params,
            return_type,
            entry_node: None,
            captures,
            is_closure: true,
            parent_function: Some(parent),
        }
    }

    /// Returns `true` if this function is a closure.
    pub fn is_closure(&self) -> (r: bool)
        ensures
            r == self.is_closure,
    {
        self.is_closure
    }

    /// Returns `true` if this function is nested inside another function.
    pub fn is_nested(&self) -> (r: bool)
        ensures
            r == (self.parent_function is Some),
    {
        self.parent_function.is_some()
    }

    /// Returns the number of parameters.
    pub fn arity(&self) -> (n: usize)
        ensures
            n == self.params@.len(),
    {
        self.params.len()
    }

    /// Returns the number of captured variables.
    pub fn capture_count(&self) -> (n: usize)
        ensures
            n == self.captures@.len(),
    {
        self.captures.len()
    }
}

} // verus!
