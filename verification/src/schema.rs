//! Request and response payloads of the server API, and the projections of
//! library values into them.
//!
//! Free-form JSON values travel as JSON text. Agent ids are the 128-bit
//! values of their UUIDs.

use vstd::prelude::*;
use crate::autonomy::{
    diagnostics_class_name, stop_reason_code_name, AutonomyDiagnostics, StopReason,
};
use crate::edge::SemanticEdge;
use crate::ids::{EdgeId, FunctionId, ModuleId, NodeId, TypeId};
use crate::text::{clone_opt, clone_strings, opt_view};
use crate::types::Visibility;
use crate::project_agent::{ProjectAgentMessage, ProjectAgentSession};
use crate::propagation::PropagationConflictDiagnostic;

verus! {

/// A structured diagnostic error: a machine-readable code, a message and
/// optional graph context.
#[derive(Debug, Clone, PartialEq, Eq)]
pub struct DiagnosticError {
    pub code: String,
    pub message: String,
    pub details: Option<DiagnosticDetails>,
}

/// A non-blocking diagnostic warning.
#[derive(Debug, Clone, PartialEq, Eq)]
pub struct DiagnosticWarning {
    pub code: String,
    pub message: String,
}

/// Graph context of a diagnostic error.
#[derive(Debug, Clone, PartialEq, Eq)]
pub struct DiagnosticDetails {
    pub source_node: Option<NodeId>,
    pub target_node: Option<NodeId>,
    pub edge_path: Option<Vec<EdgeId>>,
    pub expected_type: Option<TypeId>,
    pub actual_type: Option<TypeId>,
    pub function_id: Option<FunctionId>,
    pub port: Option<u16>,
}

/// Response of a verification run.
#[derive(Debug, Clone, PartialEq, Eq)]
pub struct VerifyResponse {
    pub valid: bool,
    pub errors: Vec<DiagnosticError>,
    pub warnings: Vec<DiagnosticWarning>,
}

/// Response of a proposed edit batch.
#[derive(Debug, Clone, PartialEq, Eq)]
pub struct ProposeEditResponse {
    pub valid: bool,
    pub created: Vec<CreatedEntity>,
    pub errors: Vec<DiagnosticError>,
    pub warnings: Vec<DiagnosticWarning>,
    pub committed: bool,
}

/// An entity created by a mutation.
#[derive(Debug, Clone, Copy, PartialEq, Eq)]
pub enum CreatedEntity {
    Node { id: NodeId },
    Edge { id: EdgeId },
    Function { id: FunctionId },
    Module { id: ModuleId },
}

/// Request for an explicit propagation queue flush.
#[derive(Debug, Clone, PartialEq, Eq)]
pub struct FlushPropagationRequest {
    pub dry_run: bool,
    pub events: Vec<PropagationEventSeed>,
}

/// A propagation event to enqueue before a flush, by kind name.
#[derive(Debug, Clone, PartialEq, Eq)]
pub struct PropagationEventSeed {
    pub kind: String,
    pub function_id: u32,
    pub node_id: Option<u32>,
    pub op_kind: Option<String>,
    pub contract_name: Option<String>,
}

/// Response of a propagation flush.
#[derive(Debug, Clone)]
pub struct FlushPropagationResponse {
    pub processed_events: usize,
    pub applied_events: usize,
    pub skipped_events: usize,
    pub generated_events: usize,
    pub remaining_queue: usize,
    pub refreshed_semantic_nodes: Vec<u32>,
    pub refreshed_summary_nodes: Vec<u32>,
    pub diagnostics: Vec<PropagationConflictDiagnostic>,
}

/// Request to compile the program.
#[derive(Debug, Clone, PartialEq, Eq)]
pub struct CompileRequest {
    pub opt_level: String,
    pub target_triple: Option<String>,
    pub debug_symbols: bool,
    pub entry_function: Option<String>,
    pub output_dir: Option<String>,
}

/// The optimisation level of a compile request that names none.
pub fn default_opt_level() -> (r: String)
    ensures
        r@ == "O0"@,
{
    String::from_str("O0")
}

/// Response of a compilation.
#[derive(Debug, Clone, PartialEq, Eq)]
pub struct CompileResponse {
    pub binary_path: String,
    pub target_triple: String,
    pub binary_size: u64,
    pub compilation_time_ms: u64,
}

/// Request to simulate one function; the inputs as JSON text.
#[derive(Debug, Clone, PartialEq, Eq)]
pub struct SimulateRequest {
    pub function_id: FunctionId,
    pub inputs: Vec<String>,
    pub trace_enabled: Option<bool>,
}

/// One entry of the edit history.
#[derive(Debug, Clone, PartialEq, Eq)]
pub struct HistoryEntry {
    pub id: String,
    pub timestamp: String,
    pub description: Option<String>,
    pub undone: bool,
}

/// The edit history.
#[derive(Debug, Clone, PartialEq, Eq)]
pub struct ListHistoryResponse {
    pub entries: Vec<HistoryEntry>,
    pub total: usize,
}

/// Response of an undo.
#[derive(Debug, Clone, PartialEq, Eq)]
pub struct UndoResponse {
    pub success: bool,
    pub restored_edit: Option<HistoryEntry>,
}

/// Response of a redo.
#[derive(Debug, Clone, PartialEq, Eq)]
pub struct RedoResponse {
    pub success: bool,
    pub reapplied_edit: Option<HistoryEntry>,
}

/// Request to create a named checkpoint.
#[derive(Debug, Clone, PartialEq, Eq)]
pub struct CreateCheckpointRequest {
    pub name: String,
    pub description: Option<String>,
}

/// Response of a checkpoint creation.
#[derive(Debug, Clone, PartialEq, Eq)]
pub struct CreateCheckpointResponse {
    pub name: String,
    pub timestamp: String,
}

/// The named checkpoints.
#[derive(Debug, Clone, PartialEq, Eq)]
pub struct ListCheckpointsResponse {
    pub checkpoints: Vec<CheckpointView>,
}

/// One named checkpoint.
#[derive(Debug, Clone, PartialEq, Eq)]
pub struct CheckpointView {
    pub name: String,
    pub timestamp: String,
    pub description: Option<String>,
    pub edit_position: i64,
}

/// Response of a checkpoint restore.
#[derive(Debug, Clone, PartialEq, Eq)]
pub struct RestoreCheckpointResponse {
    pub success: bool,
    pub name: String,
}

/// Request for the difference between two checkpoints.
#[derive(Debug, Clone, PartialEq, Eq)]
pub struct DiffRequest {
    pub from_checkpoint: Option<String>,
    pub to_checkpoint: Option<String>,
}

/// The difference between two program versions.
#[derive(Debug, Clone, PartialEq, Eq)]
pub struct DiffResponse {
    pub added_nodes: Vec<NodeId>,
    pub removed_nodes: Vec<NodeId>,
    pub modified_nodes: Vec<NodeId>,
    pub added_edges: Vec<EdgeId>,
    pub removed_edges: Vec<EdgeId>,
}

/// Request to acquire locks on functions, in mode `"read"` or `"write"`.
#[derive(Debug, Clone, PartialEq, Eq)]
pub struct AcquireLockRequest {
    pub function_ids: Vec<u32>,
    pub mode: String,
    pub description: Option<String>,
}

/// The locks granted.
#[derive(Debug, Clone, PartialEq, Eq)]
pub struct AcquireLockResponse {
    pub grants: Vec<LockGrantView>,
}

/// One granted lock.
#[derive(Debug, Clone, PartialEq, Eq)]
pub struct LockGrantView {
    pub function_id: u32,
    pub mode: String,
    pub expires_at: String,
}

/// Request to release locks.
#[derive(Debug, Clone, PartialEq, Eq)]
pub struct ReleaseLockRequest {
    pub function_ids: Vec<u32>,
}

/// The locks released.
#[derive(Debug, Clone, PartialEq, Eq)]
pub struct ReleaseLockResponse {
    pub released: Vec<u32>,
}

/// The current locks.
#[derive(Debug, Clone, PartialEq, Eq)]
pub struct LockStatusResponse {
    pub locks: Vec<LockStatusView>,
}

/// One current lock.
#[derive(Debug, Clone, PartialEq, Eq)]
pub struct LockStatusView {
    pub function_id: u32,
    pub state: String,
    pub holders: Vec<String>,
    pub holder_description: Option<String>,
    pub expires_at: Option<String>,
}

/// Request to create a program.
#[derive(Debug, Clone, PartialEq, Eq)]
pub struct CreateProgramRequest {
    pub name: String,
}

/// An agent's model-provider configuration as the API shows it: the key
/// itself is never shown, only whether one is set.
#[derive(Debug, Clone, PartialEq, Eq)]
pub struct AgentLlmConfigView {
    pub provider: Option<String>,
    pub model: Option<String>,
    pub api_base_url: Option<String>,
    pub system_prompt: Option<String>,
    pub api_key_configured: bool,
}

/// Request to register an agent.
#[derive(Debug, Clone, PartialEq, Eq)]
pub struct RegisterAgentRequest {
    pub name: Option<String>,
    pub provider: Option<String>,
    pub model: Option<String>,
    pub api_base_url: Option<String>,
    pub api_key: Option<String>,
    pub system_prompt: Option<String>,
}

/// Request to update an agent's configuration.
#[derive(Debug, Clone, PartialEq, Eq)]
pub struct UpdateAgentConfigRequest {
    pub provider: Option<String>,
    pub model: Option<String>,
    pub api_base_url: Option<String>,
    pub api_key: Option<String>,
    pub system_prompt: Option<String>,
}

/// One transcript entry as the API shows it.
#[derive(Debug, Clone, PartialEq, Eq)]
pub struct AgentChatMessageView {
    pub role: String,
    pub content: String,
    pub timestamp: String,
}

/// A project-agent session as the API shows it.
#[derive(Debug, Clone, PartialEq, Eq)]
pub struct ProgramAgentSessionView {
    pub program_id: i64,
    pub agent_id: u128,
    pub name: Option<String>,
    pub run_status: String,
    pub active_goal: Option<String>,
    pub assigned_at: String,
    pub started_at: Option<String>,
    pub stopped_at: Option<String>,
    pub updated_at: String,
    pub message_count: usize,
}

/// Request to start a build run.
#[derive(Debug, Clone, PartialEq, Eq)]
pub struct StartProgramAgentRequest {
    pub goal: String,
}

/// Request to stop a build run.
#[derive(Debug, Clone, PartialEq, Eq)]
pub struct StopProgramAgentRequest {
    pub reason: Option<String>,
}

/// Request to chat with a project agent.
#[derive(Debug, Clone, PartialEq, Eq)]
pub struct ChatWithProgramAgentRequest {
    pub message: String,
}

/// The API view of a transcript, entry by entry.
pub fn to_transcript_view(messages: &[ProjectAgentMessage]) -> (r: Vec<AgentChatMessageView>)
    ensures
        r@.len() == messages@.len(),
        forall|i: int| 0 <= i < messages@.len() ==> (#[trigger] r@[i]).role == messages@[i].role
            && r@[i].content == messages@[i].content && r@[i].timestamp == messages@[i].timestamp,
{
    let mut out: Vec<AgentChatMessageView> = Vec::new();
    for i in 0..messages.len()
        invariant
            out@.len() == i,
            forall|j: int| 0 <= j < i ==> (#[trigger] out@[j]).role == messages@[j].role
                && out@[j].content == messages@[j].content && out@[j].timestamp == messages@[j].timestamp,
    {
        let m = &messages[i];
        out.push(AgentChatMessageView {
            role: m.role.clone(),
            content: m.content.clone(),
            timestamp: m.timestamp.clone(),
        });
    }
    out
}

/// The API view of a session: its fields, with the transcript reduced to
/// its length.
pub fn to_session_view(session: &ProjectAgentSession) -> (r: ProgramAgentSessionView)
    ensures
        r.program_id == session.program_id,
        r.agent_id == session.agent_id.0,
        r.name == session.name,
        r.run_status == session.run_status,
        r.active_goal == session.active_goal,
        r.assigned_at == session.assigned_at,
        r.started_at == session.started_at,
        r.stopped_at == session.stopped_at,
        r.updated_at == session.updated_at,
        r.message_count == session.transcript@.len(),
{
    ProgramAgentSessionView {
        program_id: session.program_id,
        agent_id: session.agent_id.0,
        name: clone_opt(&session.name),
        run_status: session.run_status.clone(),
        active_goal: clone_opt(&session.active_goal),
        assigned_at: session.assigned_at.clone(),
        started_at: clone_opt(&session.started_at),
        stopped_at: clone_opt(&session.stopped_at),
        updated_at: session.updated_at.clone(),
        message_count: session.transcript.len(),
    }
}

/// Verbosity of a graph query response.
#[derive(Debug, Clone, Copy, PartialEq, Eq, Structural)]
pub enum DetailLevel {
    /// Ids and names only.
    Summary,
    /// Most fields populated.
    Standard,
    /// Everything, edge lists included.
    Full,
}

impl Default for DetailLevel {
    fn default() -> (r: Self)
        ensures
            r == DetailLevel::Standard,
    {
        DetailLevel::Standard
    }
}

/// Query parameter selecting a detail level.
#[derive(Debug, Clone, Copy, PartialEq, Eq, Structural)]
pub struct DetailQuery {
    pub detail: Option<DetailLevel>,
}

/// An edge of the computational graph as the API shows it.
#[derive(Debug, Clone, PartialEq, Eq)]
pub struct EdgeView {
    pub id: EdgeId,
    pub from: NodeId,
    pub to: NodeId,
    /// `data` or `control`.
    pub kind: String,
    pub value_type: Option<TypeId>,
    pub source_port: Option<u16>,
    pub target_port: Option<u16>,
    pub branch_index: Option<u16>,
}

/// A function as the API shows it.
#[derive(Debug, Clone, PartialEq, Eq)]
pub struct FunctionView {
    pub id: FunctionId,
    pub name: String,
    pub module: ModuleId,
    pub params: Vec<(String, TypeId)>,
    pub return_type: TypeId,
    pub visibility: Visibility,
    pub is_closure: bool,
    pub node_count: usize,
}

/// The default hop radius of a neighborhood query.
pub fn default_max_hops() -> (r: u32)
    ensures
        r == 1,
{
    1
}

/// Request for the neighborhood of a node.
#[derive(Debug, Clone, Copy, PartialEq, Eq, Structural)]
pub struct NeighborhoodRequest {
    pub node_id: NodeId,
    /// Maximum hops from the center (capped at 3 by the service).
    pub max_hops: u32,
    pub detail: DetailLevel,
}

/// Request for searching nodes.
#[derive(Debug, Clone, PartialEq, Eq)]
pub struct SearchRequest {
    /// Op type name to filter by (such as `Const`).
    pub filter_type: Option<String>,
    pub owner_function: Option<FunctionId>,
    pub value_type: Option<TypeId>,
    pub detail: DetailLevel,
}

/// Request for the semantic graph.
#[derive(Debug, Clone, Copy, PartialEq, Eq, Structural)]
pub struct SemanticQueryRequest {
    pub include_embeddings: bool,
}

/// Ownership metadata of a semantic node.
#[derive(Debug, Clone, PartialEq, Eq)]
pub struct SemanticOwnershipView {
    pub module: Option<ModuleId>,
    pub function: Option<FunctionId>,
    pub domain: Option<String>,
}

/// Provenance metadata of a semantic node.
#[derive(Debug, Clone, PartialEq, Eq)]
pub struct SemanticProvenanceView {
    pub source: String,
    pub version: u64,
    pub created_at_ms: u64,
    pub updated_at_ms: u64,
}

/// An edge of the semantic graph.
#[derive(Debug, Clone, Copy, PartialEq, Eq)]
pub struct SemanticEdgeView {
    pub id: u32,
    pub from: u32,
    pub to: u32,
    pub relationship: SemanticEdge,
}

/// Request for a verification run: scope `local` or `full`, and the nodes
/// touched by recent edits.
#[derive(Debug, Clone, PartialEq, Eq)]
pub struct VerifyRequest {
    pub scope: String,
    pub affected_nodes: Option<Vec<NodeId>>,
}

/// A function whose content hash differs from the one an agent expected.
#[derive(Debug, Clone, PartialEq, Eq)]
pub struct ConflictDetail {
    pub function_id: FunctionId,
    pub expected_hash: String,
    pub current_hash: String,
    pub changes: FunctionDiff,
}

/// The current content of a function, reported with a hash conflict: all
/// of its nodes and intra-function edges count as added.
#[derive(Debug, Clone, PartialEq, Eq)]
pub struct FunctionDiff {
    pub added_nodes: Vec<NodeId>,
    pub removed_nodes: Vec<NodeId>,
    pub modified_nodes: Vec<NodeId>,
    pub added_edges: Vec<EdgeId>,
    pub removed_edges: Vec<EdgeId>,
}

/// A stop reason as the agent-control API shows it.
#[derive(Debug, Clone, PartialEq, Eq)]
pub struct ExecutionStopReasonView {
    pub code: String,
    pub message: String,
    pub detail: Option<String>,
}

/// Execution diagnostics as the agent-control API shows them.
#[derive(Debug, Clone, PartialEq, Eq)]
pub struct ExecutionDiagnosticsView {
    pub class: String,
    pub retryable: bool,
    pub summary: String,
    pub key_diagnostics: Vec<String>,
    pub detail: Option<String>,
}

/// A stop reason with its code by wire name.
pub fn to_stop_reason_view(reason: &StopReason) -> (r: ExecutionStopReasonView)
    ensures
        r.code@ == stop_reason_code_name(reason.code),
        r.message@ == reason.message@,
        opt_view(r.detail) == opt_view(reason.detail),
{
    ExecutionStopReasonView {
        code: String::from_str(reason.code.as_str()),
        message: reason.message.clone(),
        detail: reason.detail.clone(),
    }
}

/// Diagnostics with their class by wire name and their messages as the key
/// diagnostics.
pub fn to_diagnostics_view(diagnostics: &AutonomyDiagnostics) -> (r: ExecutionDiagnosticsView)
    ensures
        r.class@ == diagnostics_class_name(diagnostics.class),
        r.retryable == diagnostics.retryable,
        r.summary@ == diagnostics.summary@,
        r.key_diagnostics@ == diagnostics.messages@,
        opt_view(r.detail) == opt_view(diagnostics.detail),
{
    ExecutionDiagnosticsView {
        class: String::from_str(diagnostics.class.as_str()),
        retryable: diagnostics.retryable,
        summary: diagnostics.summary.clone(),
        key_diagnostics: clone_strings(&diagnostics.messages),
        detail: diagnostics.detail.clone(),
    }
}

} // verus!
