//! Scalar types, visibility and enum-variant metadata of the lmlang type
//! system.

use vstd::prelude::*;
use indexmap::IndexMap;
use crate::ids::{ModuleId, TypeId};

verus! {

/// Scalar (primitive) types with a direct LLVM mapping. Signedness is a
/// property of operations, not of types, so there are no unsigned integers.
#[derive(Debug, Clone, Copy, PartialEq, Eq, Structural)]
pub enum ScalarType {
    Bool,
    I8,
    I16,
    I32,
    I64,
    F32,
    F64,
}

/// Visibility of a type, function or module across module boundaries.
#[derive(Debug, Clone, Copy, PartialEq, Eq, Structural)]
pub enum Visibility {
    Public,
    Private,
}

/// A single variant within an enum definition.
#[derive(Debug, Clone, Copy, PartialEq, Eq, Structural)]
pub struct EnumVariant {
    /// Index of this variant (used as discriminant).
    pub index: u32,
    /// Payload type, if any (`None` = unit variant).
    pub payload: Option<TypeId>,
}

/// The insertion-ordered map of the `indexmap` crate, carried opaquely by
/// struct and enum definitions.
#[verifier::external_type_specification]
#[verifier::external_body]
#[verifier::reject_recursive_types(K)]
#[verifier::reject_recursive_types(V)]
#[verifier::reject_recursive_types(S)]
pub struct ExIndexMap<K, V, S>(IndexMap<K, V, S>);

/// `Clone::clone` of `indexmap::IndexMap`: copies the entries and the hasher.
/// The map is opaque here, so nothing is stated of the copy.
pub assume_specification<K, V, S>[<IndexMap<K, V, S> as Clone>::clone](m: &IndexMap<K, V, S>) -> (r: IndexMap<K, V, S>)
    where
        K: Clone,
        V: Clone,
        S: Clone,
;

/// Named struct definition with insertion-ordered fields.
#[derive(Debug, Clone)]
pub struct StructDef {
    pub name: String,
    pub type_id: TypeId,
    pub fields: IndexMap<String, TypeId>,
    pub module: ModuleId,
    pub visibility: Visibility,
}

/// Named enum (tagged union) definition with insertion-ordered variants.
#[derive(Debug, Clone)]
pub struct EnumDef {
    pub name: String,
    pub type_id: TypeId,
    pub variants: IndexMap<String, EnumVariant>,
    pub module: ModuleId,
    pub visibility: Visibility,
}

/// The lmlang type system: each variant is a distinct kind of type, and
/// every type is known by its nominal [`TypeId`].
#[derive(Debug, Clone)]
pub enum LmType {
    /// Scalar types mapping directly to LLVM primitives.
    Scalar(ScalarType),
    /// Fixed-size array `[T; N]`.
    Array { element: TypeId, length: u32 },
    /// Named struct with ordered fields.
    Struct(StructDef),
    /// Named enum / tagged union.
    Enum(EnumDef),
    /// Pointer or reference to another type.
    Pointer { pointee: TypeId, mutable: bool },
    /// Function signature.
    Function { params: Vec<TypeId>, return_type: TypeId },
    /// The zero-size unit type.
    Unit,
    /// The diverging never type.
    Never,
}

} // verus!
