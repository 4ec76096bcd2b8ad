//! The observability view of a program: layers and presets that filter the
//! dual semantic/compute graph, the ids and labels of its nodes and
//! groups, query term normalisation, and the suggested prompts.

use vstd::prelude::*;
use crate::api_error::ApiError;
use crate::edge::SemanticEdge;
use crate::lock_api::{active_program_check, inactive_program_text};
use crate::ids::{FunctionId, ModuleId, NodeId, TypeId};
use crate::ops::{ComputeNodeOp, ComputeOp, StructuredOp};
use crate::text::{
    cat, cat3, chars_of, decimal_seq, lower_chars, lower_seq, pieces, slice_range, split_pieces, string_of,
    u64_to_decimal,
};

verus! {

/// The layer of the dual graph a node belongs to.
#[derive(Debug, Clone, Copy, PartialEq, Eq, Structural)]
pub enum ObservabilityLayer {
    Semantic,
    Compute,
}

/// Which part of the dual graph a view shows.
#[derive(Debug, Clone, Copy, PartialEq, Eq, Structural)]
pub enum ObservabilityPreset {
    All,
    SemanticOnly,
    ComputeOnly,
    Interop,
}

impl Default for ObservabilityPreset {
    fn default() -> (r: Self)
        ensures
            r == ObservabilityPreset::All,
    {
        ObservabilityPreset::All
    }
}

/// The value of a boolean request field that is absent: `true`.
pub fn default_true() -> (r: bool)
    ensures
        r,
{
    true
}

/// The number of results of a query that names none: five.
pub fn default_max_results() -> (r: usize)
    ensures
        r == 5,
{
    5
}

/// Request for the observability graph.
#[derive(Debug, Clone, PartialEq, Eq)]
pub struct ObservabilityGraphRequest {
    pub preset: ObservabilityPreset,
    pub include_cross_layer: bool,
}

/// A function's group of nodes in the observability graph.
#[derive(Debug, Clone, PartialEq, Eq)]
pub struct ObservabilityGroupView {
    pub id: String,
    pub function_id: FunctionId,
    pub function_name: String,
    pub module_id: ModuleId,
    pub semantic_anchor_id: Option<String>,
    pub compute_node_ids: Vec<String>,
}

/// A node of the observability graph.
#[derive(Debug, Clone, PartialEq, Eq)]
pub struct ObservabilityNodeView {
    pub id: String,
    pub layer: ObservabilityLayer,
    pub kind: String,
    pub label: String,
    pub short_label: String,
    pub group_id: Option<String>,
    pub function_id: Option<FunctionId>,
    pub function_name: Option<String>,
    pub module_id: Option<ModuleId>,
    pub compute_node_id: Option<NodeId>,
    pub semantic_node_id: Option<u32>,
    pub summary: Option<String>,
}

/// An edge of the observability graph.
#[derive(Debug, Clone, PartialEq, Eq)]
pub struct ObservabilityEdgeView {
    pub id: String,
    pub from: String,
    pub to: String,
    pub from_layer: ObservabilityLayer,
    pub to_layer: ObservabilityLayer,
    pub edge_kind: String,
    pub cross_layer: bool,
    pub value_type: Option<TypeId>,
    pub source_port: Option<u16>,
    pub target_port: Option<u16>,
    pub branch_index: Option<u16>,
    pub relationship: Option<SemanticEdge>,
}

/// A natural-language query over the observability graph.
#[derive(Debug, Clone, PartialEq, Eq)]
pub struct ObservabilityQueryRequest {
    pub query: String,
    pub max_results: usize,
    pub selected_candidate_id: Option<String>,
}

/// A suggested prompt shown beside the query box.
#[derive(Debug, Clone, PartialEq, Eq)]
pub struct SuggestedPromptChipView {
    pub id: String,
    pub label: String,
    pub query: String,
}

/// The summary tab of a query result.
#[derive(Debug, Clone, PartialEq, Eq)]
pub struct QuerySummaryTabView {
    pub title: String,
    pub body: String,
    pub module_id: Option<ModuleId>,
    pub function_id: Option<FunctionId>,
    pub function_name: Option<String>,
    pub complexity: Option<u32>,
}

/// One relationship of a query result.
#[derive(Debug, Clone, PartialEq, Eq)]
pub struct QueryRelationshipItemView {
    pub direction: String,
    pub edge_kind: String,
    pub node_id: String,
    pub label: String,
}

/// The relationships tab of a query result.
#[derive(Debug, Clone, PartialEq, Eq)]
pub struct QueryRelationshipsTabView {
    pub mini_graph_node_ids: Vec<String>,
    pub mini_graph_edge_ids: Vec<String>,
    pub items: Vec<QueryRelationshipItemView>,
}

/// One contract of a query result.
#[derive(Debug, Clone, PartialEq, Eq)]
pub struct QueryContractEntryView {
    pub node_id: String,
    pub contract_kind: String,
    pub message: String,
}

/// The contracts tab of a query result.
#[derive(Debug, Clone, PartialEq, Eq)]
pub struct QueryContractsTabView {
    pub has_contracts: bool,
    pub entries: Vec<QueryContractEntryView>,
}

/// The graph id of a compute node: `compute:<id>`.
pub fn observability_compute_node_id(node_id: NodeId) -> (r: String)
    ensures
        r@ == "compute:"@ + decimal_seq(node_id.0 as nat),
{
    cat("compute:", u64_to_decimal(node_id.0 as u64).as_str())
}

/// The graph id of a semantic node: `semantic:<id>`.
pub fn observability_semantic_node_id(node_id: u32) -> (r: String)
    ensures
        r@ == "semantic:"@ + decimal_seq(node_id as nat),
{
    cat("semantic:", u64_to_decimal(node_id as u64).as_str())
}

/// The graph id of a function's group: `function:<id>`.
pub fn observability_group_id(function_id: FunctionId) -> (r: String)
    ensures
        r@ == "function:"@ + decimal_seq(function_id.0 as nat),
{
    cat("function:", u64_to_decimal(function_id.0 as u64).as_str())
}

/// The sort rank of a layer: semantic nodes before compute nodes.
pub fn layer_rank(layer: ObservabilityLayer) -> (r: u8)
    ensures
        r == (if layer == ObservabilityLayer::Semantic { 0u8 } else { 1u8 }),
{
    match layer {
        ObservabilityLayer::Semantic => 0,
        ObservabilityLayer::Compute => 1,
    }
}

/// Whether a preset shows the nodes of a layer.
pub open spec fn shows_layer(preset: ObservabilityPreset, layer: ObservabilityLayer) -> bool {
    match preset {
        ObservabilityPreset::All | ObservabilityPreset::Interop => true,
        ObservabilityPreset::SemanticOnly => layer == ObservabilityLayer::Semantic,
        ObservabilityPreset::ComputeOnly => layer == ObservabilityLayer::Compute,
    }
}

/// Whether a preset shows the nodes of a layer.
pub fn preset_includes_layer(preset: ObservabilityPreset, layer: ObservabilityLayer) -> (r: bool)
    ensures
        r == shows_layer(preset, layer),
{
    match preset {
        ObservabilityPreset::All | ObservabilityPreset::Interop => true,
        ObservabilityPreset::SemanticOnly => layer == ObservabilityLayer::Semantic,
        ObservabilityPreset::ComputeOnly => layer == ObservabilityLayer::Compute,
    }
}

/// Whether a preset shows an edge: all of them, the edges inside one
/// layer, or only the cross-layer edges.
pub open spec fn shows_edge(preset: ObservabilityPreset, cross: bool, from: ObservabilityLayer, to: ObservabilityLayer) -> bool {
    match preset {
        ObservabilityPreset::All => true,
        ObservabilityPreset::SemanticOnly => !cross && from == ObservabilityLayer::Semantic && to
            == ObservabilityLayer::Semantic,
        ObservabilityPreset::ComputeOnly => !cross && from == ObservabilityLayer::Compute && to
            == ObservabilityLayer::Compute,
        ObservabilityPreset::Interop => cross,
    }
}

/// Whether a preset shows an edge.
pub fn preset_includes_edge(preset: ObservabilityPreset, edge: &ObservabilityEdgeView) -> (r: bool)
    ensures
        r == shows_edge(preset, edge.cross_layer, edge.from_layer, edge.to_layer),
{
    match preset {
        ObservabilityPreset::All => true,
        ObservabilityPreset::SemanticOnly => !edge.cross_layer && edge.from_layer == ObservabilityLayer::Semantic
            && edge.to_layer == ObservabilityLayer::Semantic,
        ObservabilityPreset::ComputeOnly => !edge.cross_layer && edge.from_layer == ObservabilityLayer::Compute
            && edge.to_layer == ObservabilityLayer::Compute,
        ObservabilityPreset::Interop => edge.cross_layer,
    }
}

/// An edge a single-layer preset shows has both ends in the layers the
/// preset shows; the interop preset shows only cross-layer edges.
pub proof fn lemma_preset_edges_respect_layers(
    preset: ObservabilityPreset,
    cross: bool,
    from: ObservabilityLayer,
    to: ObservabilityLayer,
)
    ensures
        shows_edge(preset, cross, from, to) ==> shows_layer(preset, from) && shows_layer(preset, to),
        shows_edge(ObservabilityPreset::Interop, cross, from, to) <==> cross,
{
}

/// The lower-case name of a semantic relationship.
pub fn semantic_edge_kind(edge: SemanticEdge) -> (r: String)
    ensures
        r@ == (match edge {
            SemanticEdge::Contains => "contains"@,
            SemanticEdge::Calls => "calls"@,
            SemanticEdge::UsesType => "usestype"@,
            SemanticEdge::Implements => "implements"@,
            SemanticEdge::Validates => "validates"@,
            SemanticEdge::Documents => "documents"@,
        }),
{
    match edge {
        SemanticEdge::Contains => String::from_str("contains"),
        SemanticEdge::Calls => String::from_str("calls"),
        SemanticEdge::UsesType => String::from_str("usestype"),
        SemanticEdge::Implements => String::from_str("implements"),
        SemanticEdge::Validates => String::from_str("validates"),
        SemanticEdge::Documents => String::from_str("documents"),
    }
}

/// A label cut to `max_len` characters, with `...` appended when cut.
pub open spec fn abbreviated(label: Seq<char>, max_len: nat) -> Seq<char> {
    if label.len() <= max_len {
        label
    } else {
        label.subrange(0, max_len as int) + "..."@
    }
}

/// A label cut to `max_len` characters, with `...` appended when cut.
pub fn abbreviate_label(label: &str, max_len: usize) -> (r: String)
    ensures
        r@ == abbreviated(label@, max_len as nat),
{
    let chars = chars_of(label);
    if chars.len() <= max_len {
        String::from_str(label)
    } else {
        let head = string_of(slice_range(chars.as_slice(), 0, max_len).as_slice());
        cat(head.as_str(), "...")
    }
}

/// The name of a core operation's kind.
pub open spec fn core_kind_name(op: ComputeOp) -> Seq<char> {
    match op {
        ComputeOp::Const { .. } => "Const"@,
        ComputeOp::BinaryArith { .. } => "BinaryArith"@,
        ComputeOp::UnaryArith { .. } => "UnaryArith"@,
        ComputeOp::Compare { .. } => "Compare"@,
        ComputeOp::BinaryLogic { .. } => "BinaryLogic"@,
        ComputeOp::Not => "Not"@,
        ComputeOp::Shift { .. } => "Shift"@,
        ComputeOp::IfElse => "IfElse"@,
        ComputeOp::Loop => "Loop"@,
        ComputeOp::Match => "Match"@,
        ComputeOp::Branch => "Branch"@,
        ComputeOp::Jump => "Jump"@,
        ComputeOp::Phi => "Phi"@,
        ComputeOp::Alloc => "Alloc"@,
        ComputeOp::Load => "Load"@,
        ComputeOp::Store => "Store"@,
        ComputeOp::GetElementPtr => "GetElementPtr"@,
        ComputeOp::Call { .. } => "Call"@,
        ComputeOp::IndirectCall => "IndirectCall"@,
        ComputeOp::Return => "Return"@,
        ComputeOp::Parameter { .. } => "Parameter"@,
        ComputeOp::Print => "Print"@,
        ComputeOp::ReadLine => "ReadLine"@,
        ComputeOp::FileOpen => "FileOpen"@,
        ComputeOp::FileRead => "FileRead"@,
        ComputeOp::FileWrite => "FileWrite"@,
        ComputeOp::FileClose => "FileClose"@,
        ComputeOp::MakeClosure { .. } => "MakeClosure"@,
        ComputeOp::CaptureAccess { .. } => "CaptureAccess"@,
    }
}

/// The debug rendering of a structured operation.
pub open spec fn structured_debug(op: StructuredOp) -> Seq<char> {
    match op {
        StructuredOp::StructCreate { type_id } => "StructCreate { type_id: TypeId("@ + decimal_seq(type_id.0 as nat)
            + ") }"@,
        StructuredOp::StructGet { field_index } => "StructGet { field_index: "@ + decimal_seq(field_index as nat)
            + " }"@,
        StructuredOp::StructSet { field_index } => "StructSet { field_index: "@ + decimal_seq(field_index as nat)
            + " }"@,
        StructuredOp::ArrayCreate { length } => "ArrayCreate { length: "@ + decimal_seq(length as nat) + " }"@,
        StructuredOp::ArrayGet => "ArrayGet"@,
        StructuredOp::ArraySet => "ArraySet"@,
        StructuredOp::Cast { target_type } => "Cast { target_type: TypeId("@ + decimal_seq(target_type.0 as nat)
            + ") }"@,
        StructuredOp::EnumCreate { type_id, variant_index } => "EnumCreate { type_id: TypeId("@ + decimal_seq(
            type_id.0 as nat,
        ) + "), variant_index: "@ + decimal_seq(variant_index as nat) + " }"@,
        StructuredOp::EnumDiscriminant => "EnumDiscriminant"@,
        StructuredOp::EnumPayload { variant_index } => "EnumPayload { variant_index: "@ + decimal_seq(
            variant_index as nat,
        ) + " }"@,
    }
}

fn core_kind_str(op: &ComputeOp) -> (r: &'static str)
    ensures
        r@ == core_kind_name(*op),
{
    match op {
        ComputeOp::Const { .. } => "Const",
        ComputeOp::BinaryArith { .. } => "BinaryArith",
        ComputeOp::UnaryArith { .. } => "UnaryArith",
        ComputeOp::Compare { .. } => "Compare",
        ComputeOp::BinaryLogic { .. } => "BinaryLogic",
        ComputeOp::Not => "Not",
        ComputeOp::Shift { .. } => "Shift",
        ComputeOp::IfElse => "IfElse",
        ComputeOp::Loop => "Loop",
        ComputeOp::Match => "Match",
        ComputeOp::Branch => "Branch",
        ComputeOp::Jump => "Jump",
        ComputeOp::Phi => "Phi",
        ComputeOp::Alloc => "Alloc",
        ComputeOp::Load => "Load",
        ComputeOp::Store => "Store",
        ComputeOp::GetElementPtr => "GetElementPtr",
        ComputeOp::Call { .. } => "Call",
        ComputeOp::IndirectCall => "IndirectCall",
        ComputeOp::Return => "Return",
        ComputeOp::Parameter { .. } => "Parameter",
        ComputeOp::Print => "Print",
        ComputeOp::ReadLine => "ReadLine",
        ComputeOp::FileOpen => "FileOpen",
        ComputeOp::FileRead => "FileRead",
        ComputeOp::FileWrite => "FileWrite",
        ComputeOp::FileClose => "FileClose",
        ComputeOp::MakeClosure { .. } => "MakeClosure",
        ComputeOp::CaptureAccess { .. } => "CaptureAccess",
    }
}

fn dec32(n: u32) -> (r: String)
    ensures
        r@ == decimal_seq(n as nat),
{
    u64_to_decimal(n as u64)
}

fn structured_debug_string(op: &StructuredOp) -> (r: String)
    ensures
        r@ == structured_debug(*op),
{
    match op {
        StructuredOp::StructCreate { type_id } => cat3("StructCreate { type_id: TypeId(", dec32(type_id.0).as_str(), ") }"),
        StructuredOp::StructGet { field_index } => cat3("StructGet { field_index: ", dec32(*field_index).as_str(), " }"),
        StructuredOp::StructSet { field_index } => cat3("StructSet { field_index: ", dec32(*field_index).as_str(), " }"),
        StructuredOp::ArrayCreate { length } => cat3("ArrayCreate { length: ", dec32(*length).as_str(), " }"),
        StructuredOp::ArrayGet => String::from_str("ArrayGet"),
        StructuredOp::ArraySet => String::from_str("ArraySet"),
        StructuredOp::Cast { target_type } => cat3("Cast { target_type: TypeId(", dec32(target_type.0).as_str(), ") }"),
        StructuredOp::EnumCreate { type_id, variant_index } => {
            let mut s = cat3("EnumCreate { type_id: TypeId(", dec32(type_id.0).as_str(), "), variant_index: ");
            s.append(dec32(*variant_index).as_str());
            s.append(" }");
            s
        },
        StructuredOp::EnumDiscriminant => String::from_str("EnumDiscriminant"),
        StructuredOp::EnumPayload { variant_index } => cat3(
            "EnumPayload { variant_index: ",
            dec32(*variant_index).as_str(),
            " }",
        ),
    }
}

/// The name of an operation's kind: the variant name of a core operation,
/// the debug rendering of a structured one.
pub fn op_kind_name(op: &ComputeNodeOp) -> (r: String)
    ensures
        r@ == (match *op {
            ComputeNodeOp::Core(inner) => core_kind_name(inner),
            ComputeNodeOp::Structured(inner) => structured_debug(inner),
        }),
{
    match op {
        ComputeNodeOp::Core(inner) => String::from_str(core_kind_str(inner)),
        ComputeNodeOp::Structured(inner) => structured_debug_string(inner),
    }
}

/// The search terms of a text: its maximal runs of ASCII letters and
/// digits, lower-cased.
pub fn normalized_terms(input: &str) -> (r: Vec<String>)
    ensures
        r@.len() == pieces(input@, false).len(),
        forall|k: int| 0 <= k < r@.len() ==> (#[trigger] r@[k])@ == lower_seq(pieces(input@, false)[k]),
{
    let chars = chars_of(input);
    let parts = split_pieces(chars.as_slice(), false);
    let mut out: Vec<String> = Vec::new();
    for k in 0..parts.len()
        invariant
            parts@.len() == pieces(input@, false).len(),
            forall|j: int| 0 <= j < parts@.len() ==> (#[trigger] parts@[j])@ == pieces(input@, false)[j],
            out@.len() == k,
            forall|j: int| 0 <= j < k ==> (#[trigger] out@[j])@ == lower_seq(pieces(input@, false)[j]),
    {
        out.push(string_of(lower_chars(parts[k].as_slice()).as_slice()));
    }
    out
}

fn chip(id: &str, label: &str, query: &str) -> (r: SuggestedPromptChipView)
    ensures
        r.id@ == id@,
        r.label@ == label@,
        r.query@ == query@,
{
    SuggestedPromptChipView { id: String::from_str(id), label: String::from_str(label), query: String::from_str(query) }
}

/// The suggested prompts, in display order.
pub fn default_prompt_chips() -> (r: Vec<SuggestedPromptChipView>)
    ensures
        r@.len() == 4,
        r@[0].id@ == "chip-overview"@ && r@[0].label@ == "Program Overview"@ && r@[0].query@
            == "show the high level structure"@,
        r@[1].id@ == "chip-contracts"@ && r@[1].label@ == "Contract Checks"@ && r@[1].query@
            == "which functions enforce contracts"@,
        r@[2].id@ == "chip-data-flow"@ && r@[2].label@ == "Data Flow"@ && r@[2].query@
            == "trace how values flow through main"@,
        r@[3].id@ == "chip-interpreter"@ && r@[3].label@ == "Execution Path"@ && r@[3].query@
            == "what does the interpreter execute first"@,
{
    let mut v: Vec<SuggestedPromptChipView> = Vec::new();
    v.push(chip("chip-overview", "Program Overview", "show the high level structure"));
    v.push(chip("chip-contracts", "Contract Checks", "which functions enforce contracts"));
    v.push(chip("chip-data-flow", "Data Flow", "trace how values flow through main"));
    v.push(chip("chip-interpreter", "Execution Path", "what does the interpreter execute first"));
    v
}

/// Optimisation levels of the code generator.
#[derive(Debug, Clone, Copy, PartialEq, Eq, Structural)]
pub enum OptLevel {
    O0,
    O1,
    O2,
    O3,
}

/// Parses an optimisation level name, `O0` to `O3` in either case of the
/// letter; anything else is a bad request.
pub fn parse_opt_level(s: &str) -> (r: Result<OptLevel, String>)
    ensures
        s@ == "O0"@ || s@ == "o0"@ ==> r == Ok::<OptLevel, String>(OptLevel::O0),
        s@ == "O1"@ || s@ == "o1"@ ==> r == Ok::<OptLevel, String>(OptLevel::O1),
        s@ == "O2"@ || s@ == "o2"@ ==> r == Ok::<OptLevel, String>(OptLevel::O2),
        s@ == "O3"@ || s@ == "o3"@ ==> r == Ok::<OptLevel, String>(OptLevel::O3),
        !(s@ == "O0"@ || s@ == "o0"@ || s@ == "O1"@ || s@ == "o1"@ || s@ == "O2"@ || s@ == "o2"@ || s@ == "O3"@
            || s@ == "o3"@) ==> (r matches Err(m) && m@ == "invalid optimization level '"@ + s@
            + "', expected O0/O1/O2/O3"@),
{
    proof {
        reveal_strlit("O0");
        reveal_strlit("o0");
        reveal_strlit("O1");
        reveal_strlit("o1");
        reveal_strlit("O2");
        reveal_strlit("o2");
        reveal_strlit("O3");
        reveal_strlit("o3");
        assert("O0"@[1] == '0' && "o0"@[1] == '0' && "O1"@[1] == '1' && "o1"@[1] == '1');
        assert("O2"@[1] == '2' && "o2"@[1] == '2' && "O3"@[1] == '3' && "o3"@[1] == '3');
    }
    if crate::text::str_eq(s, "O0") || crate::text::str_eq(s, "o0") {
        Ok(OptLevel::O0)
    } else if crate::text::str_eq(s, "O1") || crate::text::str_eq(s, "o1") {
        Ok(OptLevel::O1)
    } else if crate::text::str_eq(s, "O2") || crate::text::str_eq(s, "o2") {
        Ok(OptLevel::O2)
    } else if crate::text::str_eq(s, "O3") || crate::text::str_eq(s, "o3") {
        Ok(OptLevel::O3)
    } else {
        Err(cat3("invalid optimization level '", s, "', expected O0/O1/O2/O3"))
    }
}

/// Observability requests must name the active program; otherwise they
/// fail with `BadRequest` naming both programs.
pub fn ensure_active_program(active: i64, requested: i64) -> (r: Result<(), ApiError>)
    ensures
        active == requested <==> r is Ok,
        r matches Err(e) ==> (e matches ApiError::BadRequest(m) && m@ == inactive_program_text(requested, active)),
{
    active_program_check(requested, active)
}

/// The graph payload of the observability UI.
#[derive(Debug, Clone)]
pub struct ObservabilityGraphResponse {
    pub preset: ObservabilityPreset,
    pub node_count: usize,
    pub edge_count: usize,
    pub nodes: Vec<ObservabilityNodeView>,
    pub edges: Vec<ObservabilityEdgeView>,
    pub groups: Vec<ObservabilityGroupView>,
}

} // verus!
