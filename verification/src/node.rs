//! Semantic-graph nodes (modules, functions, types, specs, tests and
//! docs) and their metadata: ownership, provenance, deterministic summaries,
//! retrieval embeddings and function signatures.

use vstd::prelude::*;
use crate::ids::{FunctionId, ModuleId, TypeId};
use crate::module::ModuleDef;
use crate::text::{
    cat, chars_of, clone_opt, count_words, decimal_seq, hex_seq, trim, trim_str, u64_to_decimal, u64_to_hex, word_count,
};
use crate::types::Visibility;

verus! {

/// FNV-1a 64-bit offset basis.
pub const FNV_OFFSET_BASIS: u64 = 0xcbf29ce484222325;

/// FNV-1a 64-bit prime.
pub const FNV_PRIME: u64 = 0x100000001b3;

/// One FNV-1a round: xor in the byte, then multiply by the prime modulo 2^64.
pub open spec fn fnv_step(hash: u64, byte: u8) -> u64 {
    (hash ^ (byte as u64)).wrapping_mul(FNV_PRIME)
}

/// The 64-bit FNV-1a hash of a byte sequence.
pub open spec fn fnv1a(bytes: Seq<u8>) -> u64
    decreases bytes.len(),
{
    if bytes.len() == 0 {
        FNV_OFFSET_BASIS
    } else {
        fnv_step(fnv1a(bytes.drop_last()), bytes.last())
    }
}

/// The deterministic checksum of a string: the FNV-1a hash of its UTF-8
/// bytes as 16 lowercase hexadecimal digits.
pub open spec fn checksum_of(s: Seq<char>) -> Seq<char> {
    hex_seq(fnv1a(vstd::utf8::encode_utf8(s)) as nat, 16)
}

/// The deterministic checksum of a string: FNV-1a over its UTF-8 bytes,
/// rendered as 16 lowercase hexadecimal digits.
pub fn stable_checksum(input: &str) -> (r: String)
    ensures
        r@ == checksum_of(input@),
{
    let bytes = input.as_bytes();
    let mut hash: u64 = FNV_OFFSET_BASIS;
    let mut i: usize = 0;
    while i < bytes.len()
        invariant
            bytes@ == vstd::utf8::encode_utf8(input@),
            i <= bytes@.len(),
            hash == fnv1a(bytes@.subrange(0, i as int)),
        decreases bytes@.len() - i,
    {
        proof {
            let t = bytes@.subrange(0, i + 1);
            assert(t.drop_last() =~= bytes@.subrange(0, i as int));
        }
        hash = (hash ^ (bytes[i] as u64)).wrapping_mul(FNV_PRIME);
        i = i + 1;
    }
    proof {
        assert(bytes@.subrange(0, bytes@.len() as int) =~= bytes@);
    }
    u64_to_hex(hash, 16)
}

/// Ownership metadata for semantic entities.
#[derive(Debug, Clone, PartialEq, Eq)]
pub struct OwnershipMetadata {
    /// Owning module.
    pub module: Option<ModuleId>,
    /// Owning function, when applicable.
    pub function: Option<FunctionId>,
    /// Optional owning domain (e.g. "runtime", "tests", "docs").
    pub domain: Option<String>,
}

impl Default for OwnershipMetadata {
    fn default() -> (r: Self)
        ensures
            r.module is None,
            r.function is None,
            r.domain is None,
    {
        OwnershipMetadata { module: None, function: None, domain: None }
    }
}

/// Provenance metadata for semantic entities.
#[derive(Debug, Clone, PartialEq, Eq)]
pub struct ProvenanceMetadata {
    /// Source system that generated this semantic artifact.
    pub source: String,
    /// Monotonic semantic version for the artifact.
    pub version: u64,
    /// Creation timestamp (epoch milliseconds).
    pub created_at_ms: u64,
    /// Last update timestamp (epoch milliseconds).
    pub updated_at_ms: u64,
}

impl Default for ProvenanceMetadata {
    fn default() -> (r: Self)
        ensures
            r.source@ == "lmlang"@,
            r.version == 1,
            r.created_at_ms == 0,
            r.updated_at_ms == 0,
    {
        ProvenanceMetadata {
            source: String::from_str("lmlang"),
            version: 1,
            created_at_ms: 0,
            updated_at_ms: 0,
        }
    }
}

/// Deterministic summary payload for semantic retrieval and synchronization.
#[derive(Debug, Clone, PartialEq, Eq)]
pub struct SemanticSummaryPayload {
    /// Short deterministic title.
    pub title: String,
    /// Deterministic summary text.
    pub body: String,
    /// Deterministic checksum for stable identity/equality checks.
    pub checksum: String,
    /// Approximate token count.
    pub token_count: u32,
}

impl Default for SemanticSummaryPayload {
    fn default() -> (r: Self)
        ensures
            r.title@.len() == 0,
            r.body@.len() == 0,
            r.checksum@.len() == 0,
            r.token_count == 0,
    {
        SemanticSummaryPayload {
            title: String::new(),
            body: String::new(),
            checksum: String::new(),
            token_count: 0,
        }
    }
}

impl SemanticSummaryPayload {
    /// Builds the summary of an entity from its kind, identifier and body
    /// text: the title is `kind:identifier`, the body is the trimmed text,
    /// the checksum covers `kind|identifier|trimmed body`, and the token count
    /// is the number of white-space separated words of the body.
    pub fn deterministic(kind: &str, identifier: &str, body: &str) -> (r: Self)
        ensures
            r.title@ == kind@ + ":"@ + identifier@,
            r.body@ == trim(body@),
            r.checksum@ == checksum_of(kind@ + "|"@ + identifier@ + "|"@ + trim(body@)),
            r.token_count == word_count(body@) as u32,
    {
        let trimmed = trim_str(body);
        let mut normalized = String::from_str(kind);
        normalized.append("|");
        normalized.append(identifier);
        normalized.append("|");
        normalized.append(trimmed.as_str());
        let mut title = String::from_str(kind);
        title.append(":");
        title.append(identifier);
        let checksum = stable_checksum(normalized.as_str());
        let chars = chars_of(body);
        let words = count_words(chars.as_slice());
        SemanticSummaryPayload { title, body: trimmed, checksum, token_count: words as u32 }
    }
}

/// Function type signature: parameter names and types, and return type.
#[derive(Debug, Clone)]
pub struct FunctionSignature {
    /// Named parameters with their types.
    pub params: Vec<(String, TypeId)>,
    /// Return type of the function.
    pub return_type: TypeId,
}

impl OwnershipMetadata {
    /// A field-by-field copy.
    pub fn duplicate(&self) -> (r: Self)
        ensures
            r == *self,
    {
        OwnershipMetadata { module: self.module, function: self.function, domain: clone_opt(&self.domain) }
    }
}

impl ProvenanceMetadata {
    /// A field-by-field copy.
    pub fn duplicate(&self) -> (r: Self)
        ensures
            r == *self,
    {
        ProvenanceMetadata {
            source: self.source.clone(),
            version: self.version,
            created_at_ms: self.created_at_ms,
            updated_at_ms: self.updated_at_ms,
        }
    }
}

impl SemanticSummaryPayload {
    /// A field-by-field copy.
    pub fn duplicate(&self) -> (r: Self)
        ensures
            r == *self,
    {
        SemanticSummaryPayload {
            title: self.title.clone(),
            body: self.body.clone(),
            checksum: self.checksum.clone(),
            token_count: self.token_count,
        }
    }
}

/// A retrieval embedding. Its components are `f32` values; the graph holds
/// them by what determines them: either the IEEE-754 bits of each component,
/// or the seed and dimension of the deterministic embedding derived from a
/// summary text (component `i` is the mean of two seed bytes scaled to
/// `[0, 1]`; it is materialised outside the verified core).
#[derive(Debug, Clone, PartialEq, Eq)]
pub enum EmbeddingVector {
    /// Explicit components, as `f32` bits.
    Components(Vec<u32>),
    /// The deterministic embedding of `seed` with `dims` components.
    Seeded { seed: String, dims: usize },
}

/// The number of components of an embedding.
pub open spec fn embedding_len(e: EmbeddingVector) -> nat {
    match e {
        EmbeddingVector::Components(v) => v@.len(),
        EmbeddingVector::Seeded { dims, .. } => dims as nat,
    }
}

impl EmbeddingVector {
    /// The number of components.
    pub fn len(&self) -> (n: usize)
        ensures
            n == embedding_len(*self),
    {
        match self {
            EmbeddingVector::Components(v) => v.len(),
            EmbeddingVector::Seeded { dims, .. } => *dims,
        }
    }
}

/// Embeddings for semantic retrieval.
#[derive(Debug, Clone, PartialEq, Eq)]
pub struct EmbeddingPayload {
    /// Embedding of the semantic node itself.
    pub node_embedding: Option<EmbeddingVector>,
    /// Embedding of the enclosing semantic subgraph's summary.
    pub subgraph_summary_embedding: Option<EmbeddingVector>,
}

impl Default for EmbeddingPayload {
    fn default() -> (r: Self)
        ensures
            r.node_embedding is None,
            r.subgraph_summary_embedding is None,
    {
        EmbeddingPayload { node_embedding: None, subgraph_summary_embedding: None }
    }
}

impl EmbeddingPayload {
    /// The dimension of the node embedding, when present.
    pub fn node_dim(&self) -> (r: Option<usize>)
        ensures
            match self.node_embedding {
                Some(e) => r == Some(embedding_len(e) as usize),
                None => r is None,
            },
    {
        match &self.node_embedding {
            Some(e) => Some(e.len()),
            None => None,
        }
    }

    /// The dimension of the subgraph-summary embedding, when present.
    pub fn summary_dim(&self) -> (r: Option<usize>)
        ensures
            match self.subgraph_summary_embedding {
                Some(e) => r == Some(embedding_len(e) as usize),
                None => r is None,
            },
    {
        match &self.subgraph_summary_embedding {
            Some(e) => Some(e.len()),
            None => None,
        }
    }
}

/// Shared semantic metadata bundled with every semantic entity.
#[derive(Debug, Clone, PartialEq, Eq)]
pub struct SemanticMetadata {
    pub ownership: OwnershipMetadata,
    pub provenance: ProvenanceMetadata,
    pub summary: SemanticSummaryPayload,
    pub embeddings: EmbeddingPayload,
    /// Optional complexity score.
    pub complexity: Option<u32>,
}

impl Default for SemanticMetadata {
    fn default() -> (r: Self)
        ensures
            r.ownership.module is None,
            r.ownership.function is None,
            r.ownership.domain is None,
            r.provenance.source@ == "lmlang"@,
            r.provenance.version == 1,
            r.provenance.created_at_ms == 0,
            r.provenance.updated_at_ms == 0,
            r.summary.title@.len() == 0,
            r.summary.body@.len() == 0,
            r.summary.checksum@.len() == 0,
            r.summary.token_count == 0,
            r.embeddings.node_embedding is None,
            r.embeddings.subgraph_summary_embedding is None,
            r.complexity is None,
    {
        SemanticMetadata {
            ownership: OwnershipMetadata::default(),
            provenance: ProvenanceMetadata::default(),
            summary: SemanticSummaryPayload::default(),
            embeddings: EmbeddingPayload::default(),
            complexity: None,
        }
    }
}

/// `s` is the deterministic summary of `kind`, `identifier` and `body` (see
/// [`SemanticSummaryPayload::deterministic`]).
pub open spec fn summary_is(s: SemanticSummaryPayload, kind: Seq<char>, identifier: Seq<char>, body: Seq<char>) -> bool {
    &&& s.title@ == kind + ":"@ + identifier
    &&& s.body@ == trim(body)
    &&& s.checksum@ == checksum_of(kind + "|"@ + identifier + "|"@ + trim(body))
    &&& s.token_count == word_count(body) as u32
}

/// The metadata a semantic entity starts with: the given ownership, default
/// provenance (`lmlang`, version 1, time 0), the deterministic summary of
/// `kind`, `identifier` and `body`, no embeddings and no complexity.
pub open spec fn fresh_metadata(
    module: Option<ModuleId>,
    function: Option<FunctionId>,
    m: SemanticMetadata,
    kind: Seq<char>,
    identifier: Seq<char>,
    body: Seq<char>,
) -> bool {
    &&& m.ownership.module == module
    &&& m.ownership.function == function
    &&& m.ownership.domain is None
    &&& m.provenance.source@ == "lmlang"@
    &&& m.provenance.version == 1
    &&& m.provenance.created_at_ms == 0
    &&& m.provenance.updated_at_ms == 0
    &&& m.summary.title@ == kind + ":"@ + identifier
    &&& m.summary.body@ == trim(body)
    &&& m.summary.checksum@ == checksum_of(kind + "|"@ + identifier + "|"@ + trim(body))
    &&& m.summary.token_count == word_count(body) as u32
    &&& m.embeddings.node_embedding is None
    &&& m.embeddings.subgraph_summary_embedding is None
    &&& m.complexity is None
}

impl SemanticMetadata {
    /// Metadata owned by a module, with the deterministic summary of
    /// `kind`, `identifier` and `body`.
    pub fn with_module(kind: &str, module: ModuleId, identifier: &str, body: &str) -> (r: Self)
        ensures
            fresh_metadata(Some(module), None, r, kind@, identifier@, body@),
    {
        SemanticMetadata {
            ownership: OwnershipMetadata { module: Some(module), function: None, domain: None },
            provenance: ProvenanceMetadata::default(),
            summary: SemanticSummaryPayload::deterministic(kind, identifier, body),
            embeddings: EmbeddingPayload::default(),
            complexity: None,
        }
    }

    /// Metadata owned by a function of a module, with the deterministic
    /// summary of `kind`, `identifier` and `body`.
    pub fn with_function(kind: &str, module: ModuleId, function: FunctionId, identifier: &str, body: &str) -> (r:
        Self)
        ensures
            fresh_metadata(Some(module), Some(function), r, kind@, identifier@, body@),
    {
        SemanticMetadata {
            ownership: OwnershipMetadata { module: Some(module), function: Some(function), domain: None },
            provenance: ProvenanceMetadata::default(),
            summary: SemanticSummaryPayload::deterministic(kind, identifier, body),
            embeddings: EmbeddingPayload::default(),
            complexity: None,
        }
    }
}

/// A copy of a parameter list.
pub fn clone_params(params: &Vec<(String, TypeId)>) -> (r: Vec<(String, TypeId)>)
    ensures
        r@ == params@,
{
    let mut out: Vec<(String, TypeId)> = Vec::new();
    let mut i: usize = 0;
    while i < params.len()
        invariant
            i <= params@.len(),
            out@ == params@.subrange(0, i as int),
        decreases params@.len() - i,
    {
        let p = (params[i].0.clone(), params[i].1);
        out.push(p);
        i = i + 1;
        proof {
            assert(out@ =~= params@.subrange(0, i as int));
        }
    }
    out
}

impl FunctionSignature {
    /// A field-by-field copy.
    pub fn duplicate(&self) -> (r: Self)
        ensures
            r.params@ == self.params@,
            r.return_type == self.return_type,
    {
        FunctionSignature { params: clone_params(&self.params), return_type: self.return_type }
    }
}

/// Module semantic node payload.
#[derive(Debug, Clone)]
pub struct ModuleNode {
    pub module: ModuleDef,
    pub metadata: SemanticMetadata,
}

/// Function summary in the semantic graph: identity and signature (the full
/// definition lives in the program's function table).
#[derive(Debug, Clone)]
pub struct FunctionSummary {
    pub name: String,
    pub function_id: FunctionId,
    pub module: ModuleId,
    pub visibility: Visibility,
    pub signature: FunctionSignature,
    pub metadata: SemanticMetadata,
}

/// A named type (struct or enum) defined in a module.
#[derive(Debug, Clone)]
pub struct TypeDefNode {
    pub name: String,
    pub type_id: TypeId,
    pub module: ModuleId,
    pub visibility: Visibility,
    pub metadata: SemanticMetadata,
}

/// A specification artifact.
#[derive(Debug, Clone)]
pub struct SpecNode {
    pub spec_id: String,
    pub title: String,
    pub metadata: SemanticMetadata,
}

/// A test artifact, possibly targeting a function.
#[derive(Debug, Clone)]
pub struct TestNode {
    pub test_id: String,
    pub title: String,
    pub target_function: Option<FunctionId>,
    pub metadata: SemanticMetadata,
}

/// A documentation artifact.
#[derive(Debug, Clone)]
pub struct DocNode {
    pub doc_id: String,
    pub title: String,
    pub metadata: SemanticMetadata,
}

/// A node of the semantic graph.
#[derive(Debug, Clone)]
pub enum SemanticNode {
    Module(ModuleNode),
    Function(FunctionSummary),
    TypeDef(TypeDefNode),
    Spec(SpecNode),
    Test(TestNode),
    Doc(DocNode),
}

/// The kind name of a semantic node.
pub open spec fn kind_name(n: SemanticNode) -> Seq<char> {
    match n {
        SemanticNode::Module(_) => "module"@,
        SemanticNode::Function(_) => "function"@,
        SemanticNode::TypeDef(_) => "type"@,
        SemanticNode::Spec(_) => "spec"@,
        SemanticNode::Test(_) => "test"@,
        SemanticNode::Doc(_) => "doc"@,
    }
}

/// The human-oriented label of a semantic node.
pub open spec fn label_of(n: SemanticNode) -> Seq<char> {
    match n {
        SemanticNode::Module(x) => x.module.name@,
        SemanticNode::Function(x) => x.name@,
        SemanticNode::TypeDef(x) => x.name@,
        SemanticNode::Spec(x) => x.title@,
        SemanticNode::Test(x) => x.title@,
        SemanticNode::Doc(x) => x.title@,
    }
}

/// The metadata of a semantic node.
pub open spec fn metadata_of(n: SemanticNode) -> SemanticMetadata {
    match n {
        SemanticNode::Module(x) => x.metadata,
        SemanticNode::Function(x) => x.metadata,
        SemanticNode::TypeDef(x) => x.metadata,
        SemanticNode::Spec(x) => x.metadata,
        SemanticNode::Test(x) => x.metadata,
        SemanticNode::Doc(x) => x.metadata,
    }
}

/// The node with its metadata replaced.
pub open spec fn with_metadata(n: SemanticNode, m: SemanticMetadata) -> SemanticNode {
    match n {
        SemanticNode::Module(x) => SemanticNode::Module(ModuleNode { metadata: m, ..x }),
        SemanticNode::Function(x) => SemanticNode::Function(FunctionSummary { metadata: m, ..x }),
        SemanticNode::TypeDef(x) => SemanticNode::TypeDef(TypeDefNode { metadata: m, ..x }),
        SemanticNode::Spec(x) => SemanticNode::Spec(SpecNode { metadata: m, ..x }),
        SemanticNode::Test(x) => SemanticNode::Test(TestNode { metadata: m, ..x }),
        SemanticNode::Doc(x) => SemanticNode::Doc(DocNode { metadata: m, ..x }),
    }
}

impl SemanticNode {
    /// The entity kind: `module`, `function`, `type`, `spec`, `test` or `doc`.
    pub fn kind(&self) -> (r: &'static str)
        ensures
            r@ == kind_name(*self),
    {
        match self {
            SemanticNode::Module(_) => "module",
            SemanticNode::Function(_) => "function",
            SemanticNode::TypeDef(_) => "type",
            SemanticNode::Spec(_) => "spec",
            SemanticNode::Test(_) => "test",
            SemanticNode::Doc(_) => "doc",
        }
    }

    /// The entity's label: the module or function or type name, or the
    /// artifact title.
    pub fn label(&self) -> (r: String)
        ensures
            r@ == label_of(*self),
    {
        match self {
            SemanticNode::Module(n) => n.module.name.clone(),
            SemanticNode::Function(n) => n.name.clone(),
            SemanticNode::TypeDef(n) => n.name.clone(),
            SemanticNode::Spec(n) => n.title.clone(),
            SemanticNode::Test(n) => n.title.clone(),
            SemanticNode::Doc(n) => n.title.clone(),
        }
    }

    /// The entity's metadata.
    pub fn metadata(&self) -> (r: &SemanticMetadata)
        ensures
            *r == metadata_of(*self),
    {
        match self {
            SemanticNode::Module(n) => &n.metadata,
            SemanticNode::Function(n) => &n.metadata,
            SemanticNode::TypeDef(n) => &n.metadata,
            SemanticNode::Spec(n) => &n.metadata,
            SemanticNode::Test(n) => &n.metadata,
            SemanticNode::Doc(n) => &n.metadata,
        }
    }

    /// Replaces the entity's metadata, keeping everything else.
    pub fn set_metadata(&mut self, m: SemanticMetadata)
        ensures
            *final(self) == with_metadata(*old(self), m),
    {
        match self {
            SemanticNode::Module(n) => n.metadata = m,
            SemanticNode::Function(n) => n.metadata = m,
            SemanticNode::TypeDef(n) => n.metadata = m,
            SemanticNode::Spec(n) => n.metadata = m,
            SemanticNode::Test(n) => n.metadata = m,
            SemanticNode::Doc(n) => n.metadata = m,
        }
    }

    /// Replaces the summary in the entity's metadata, keeping everything else.
    pub fn set_summary(&mut self, summary: SemanticSummaryPayload)
        ensures
            *final(self) == with_metadata(*old(self), SemanticMetadata { summary, ..metadata_of(*old(self)) }),
    {
        match self {
            SemanticNode::Module(n) => n.metadata.summary = summary,
            SemanticNode::Function(n) => n.metadata.summary = summary,
            SemanticNode::TypeDef(n) => n.metadata.summary = summary,
            SemanticNode::Spec(n) => n.metadata.summary = summary,
            SemanticNode::Test(n) => n.metadata.summary = summary,
            SemanticNode::Doc(n) => n.metadata.summary = summary,
        }
    }

    /// Replaces the embeddings in the entity's metadata, keeping everything
    /// else.
    pub fn set_embeddings(&mut self, embeddings: EmbeddingPayload)
        ensures
            *final(self) == with_metadata(*old(self), SemanticMetadata { embeddings, ..metadata_of(*old(self)) }),
    {
        match self {
            SemanticNode::Module(n) => n.metadata.embeddings = embeddings,
            SemanticNode::Function(n) => n.metadata.embeddings = embeddings,
            SemanticNode::TypeDef(n) => n.metadata.embeddings = embeddings,
            SemanticNode::Spec(n) => n.metadata.embeddings = embeddings,
            SemanticNode::Test(n) => n.metadata.embeddings = embeddings,
            SemanticNode::Doc(n) => n.metadata.embeddings = embeddings,
        }
    }

    /// The owning module: a module node's own id, otherwise the metadata's
    /// module ownership.
    pub fn module_id(&self) -> (r: Option<ModuleId>)
        ensures
            r == match *self {
                SemanticNode::Module(n) => Some(n.module.id),
                _ => metadata_of(*self).ownership.module,
            },
    {
        match self {
            SemanticNode::Module(n) => Some(n.module.id),
            _ => self.metadata().ownership.module,
        }
    }

    /// The owning function: a function node's own id, otherwise the
    /// metadata's function ownership.
    pub fn function_id(&self) -> (r: Option<FunctionId>)
        ensures
            r == match *self {
                SemanticNode::Function(n) => Some(n.function_id),
                _ => metadata_of(*self).ownership.function,
            },
    {
        match self {
            SemanticNode::Function(n) => Some(n.function_id),
            _ => self.metadata().ownership.function,
        }
    }
}

/// A counter advanced by one, wrapping to 0 past `u64::MAX`.
pub open spec fn bump(v: u64) -> u64 {
    if v == u64::MAX { 0 } else { (v + 1) as u64 }
}

fn bump_exec(v: u64) -> (r: u64)
    ensures
        r == bump(v),
{
    if v == u64::MAX { 0 } else { v + 1 }
}

/// The dimension of the deterministic embeddings of refreshed summaries.
pub const SUMMARY_EMBEDDING_DIMS: usize = 8;

/// The metadata after a refresh: summary `s`, the provenance version and
/// update time advanced by one, the embeddings derived from the summary's
/// body and checksum, the complexity `complexity`; ownership unchanged.
pub open spec fn refreshed_metadata(before: SemanticMetadata, after: SemanticMetadata, complexity: Option<u32>) -> bool {
    &&& after.ownership == before.ownership
    &&& after.provenance == ProvenanceMetadata {
        version: bump(before.provenance.version),
        updated_at_ms: bump(before.provenance.updated_at_ms),
        ..before.provenance
    }
    &&& after.embeddings.node_embedding == Some(
        EmbeddingVector::Seeded { seed: after.summary.body, dims: SUMMARY_EMBEDDING_DIMS },
    )
    &&& after.embeddings.subgraph_summary_embedding == Some(
        EmbeddingVector::Seeded { seed: after.summary.checksum, dims: SUMMARY_EMBEDDING_DIMS },
    )
    &&& after.complexity == complexity
}

/// The summary body of a refreshed module.
pub open spec fn module_summary_text(name: Seq<char>, function_count: nat) -> Seq<char> {
    "module "@ + name + " contains "@ + decimal_seq(function_count) + " function summaries"@
}

/// The summary body of a refreshed function.
pub open spec fn function_summary_text(name: Seq<char>, node_count: nat, return_type: TypeId) -> Seq<char> {
    "fn "@ + name + " has "@ + decimal_seq(node_count) + " compute nodes and return type "@ + decimal_seq(
        return_type.0 as nat,
    )
}

/// A module node refreshed for `name` and `function_count` functions; any
/// other node is left as it is.
pub open spec fn module_refreshed(before: SemanticNode, after: SemanticNode, name: Seq<char>, function_count: nat) -> bool {
    match before {
        SemanticNode::Module(x) => after matches SemanticNode::Module(y) && y.module == x.module && summary_is(
            y.metadata.summary,
            "module"@,
            name,
            module_summary_text(name, function_count),
        ) && refreshed_metadata(x.metadata, y.metadata, x.metadata.complexity),
        _ => after == before,
    }
}

/// A function node refreshed with the definition's signature and
/// visibility and `node_count` compute nodes; any other node is left as it
/// is.
pub open spec fn function_refreshed(
    before: SemanticNode,
    after: SemanticNode,
    params: Seq<(String, TypeId)>,
    return_type: TypeId,
    visibility: Visibility,
    node_count: u32,
) -> bool {
    match before {
        SemanticNode::Function(x) => after matches SemanticNode::Function(y) && y.name == x.name && y.function_id
            == x.function_id && y.module == x.module && y.visibility == visibility && y.signature.params@ == params
            && y.signature.return_type == return_type && summary_is(
            y.metadata.summary,
            "function"@,
            x.name@,
            function_summary_text(x.name@, node_count as nat, return_type),
        ) && refreshed_metadata(x.metadata, y.metadata, Some(node_count)),
        _ => after == before,
    }
}

fn refresh_metadata(m: &mut SemanticMetadata, summary: SemanticSummaryPayload, complexity: Option<u32>)
    ensures
        final(m).summary == summary,
        refreshed_metadata(*old(m), *final(m), complexity),
{
    let node_seed = summary.body.clone();
    let summary_seed = summary.checksum.clone();
    m.summary = summary;
    m.complexity = complexity;
    m.provenance.version = bump_exec(m.provenance.version);
    m.provenance.updated_at_ms = bump_exec(m.provenance.updated_at_ms);
    m.embeddings = EmbeddingPayload {
        node_embedding: Some(EmbeddingVector::Seeded { seed: node_seed, dims: SUMMARY_EMBEDDING_DIMS }),
        subgraph_summary_embedding: Some(EmbeddingVector::Seeded { seed: summary_seed, dims: SUMMARY_EMBEDDING_DIMS }),
    };
}

impl SemanticNode {
    /// Refreshes a module node: its summary becomes `module <name> contains
    /// <n> function summaries`, its version and update time advance, and
    /// its embeddings derive from the new summary. Other nodes are left as
    /// they are.
    pub fn refresh_module(&mut self, name: &str, function_count: usize)
        ensures
            module_refreshed(*old(self), *final(self), name@, function_count as nat),
    {
        match self {
            SemanticNode::Module(n) => {
                let mut body = cat("module ", name);
                body.append(" contains ");
                body.append(u64_to_decimal(function_count as u64).as_str());
                body.append(" function summaries");
                let summary = SemanticSummaryPayload::deterministic("module", name, body.as_str());
                let complexity = n.metadata.complexity;
                refresh_metadata(&mut n.metadata, summary, complexity);
            },
            _ => {},
        }
    }

    /// Refreshes a function node from its definition: signature and
    /// visibility, a summary `fn <name> has <n> compute nodes and return
    /// type <t>`, complexity `n`, advanced version and update time, and
    /// embeddings derived from the new summary. Other nodes are left as they
    /// are.
    pub fn refresh_function(&mut self, params: Vec<(String, TypeId)>, return_type: TypeId, visibility: Visibility, node_count: u32)
        ensures
            function_refreshed(*old(self), *final(self), params@, return_type, visibility, node_count),
    {
        match self {
            SemanticNode::Function(n) => {
                n.signature.params = params;
                n.signature.return_type = return_type;
                n.visibility = visibility;
                let mut body = cat("fn ", n.name.as_str());
                body.append(" has ");
                body.append(u64_to_decimal(node_count as u64).as_str());
                body.append(" compute nodes and return type ");
                body.append(u64_to_decimal(return_type.0 as u64).as_str());
                let summary = SemanticSummaryPayload::deterministic("function", n.name.as_str(), body.as_str());
                refresh_metadata(&mut n.metadata, summary, Some(node_count));
            },
            _ => {},
        }
    }
}

} // verus!
