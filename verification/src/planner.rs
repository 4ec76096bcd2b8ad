//! The planner contract for autonomous action planning: plan actions and
//! their request payloads, structured planner failures, and the planner
//! outcomes handed to the run loop, with their one-line summaries.
//!
//! Payloads the library only counts (graph mutations, simulation inputs)
//! travel as JSON text.

use vstd::prelude::*;
use crate::ids::FunctionId;
use crate::text::{cat, cat3, decimal_seq, opt_view, u64_to_decimal};

verus! {

/// The planner contract version accepted by the server.
pub const AUTONOMY_PLAN_CONTRACT_V1: &'static str = "2026-02-19";

/// The contract version assumed when a plan names none.
pub fn default_plan_contract_version() -> (r: String)
    ensures
        r@ == "2026-02-19"@,
{
    String::from_str("2026-02-19")
}

/// Scope of a verification run: the affected subgraph only, or the whole
/// program.
#[derive(Debug, Clone, Copy, PartialEq, Eq, Structural)]
pub enum VerifyScope {
    Local,
    Full,
}

/// Machine-readable planner failure codes.
#[derive(Debug, Clone, Copy, PartialEq, Eq, Structural)]
pub enum AutonomyPlanFailureCode {
    ClarificationNeeded,
    UnsupportedGoal,
    UnsafePlan,
    PlannerUnavailable,
    ValidationFailed,
}

/// The wire name of a failure code.
pub open spec fn failure_code_name(c: AutonomyPlanFailureCode) -> Seq<char> {
    match c {
        AutonomyPlanFailureCode::ClarificationNeeded => "clarification_needed"@,
        AutonomyPlanFailureCode::UnsupportedGoal => "unsupported_goal"@,
        AutonomyPlanFailureCode::UnsafePlan => "unsafe_plan"@,
        AutonomyPlanFailureCode::PlannerUnavailable => "planner_unavailable"@,
        AutonomyPlanFailureCode::ValidationFailed => "validation_failed"@,
    }
}

impl AutonomyPlanFailureCode {
    /// The wire name of the code.
    pub fn as_str(&self) -> (r: &'static str)
        ensures
            r@ == failure_code_name(*self),
    {
        match self {
            AutonomyPlanFailureCode::ClarificationNeeded => "clarification_needed",
            AutonomyPlanFailureCode::UnsupportedGoal => "unsupported_goal",
            AutonomyPlanFailureCode::UnsafePlan => "unsafe_plan",
            AutonomyPlanFailureCode::PlannerUnavailable => "planner_unavailable",
            AutonomyPlanFailureCode::ValidationFailed => "validation_failed",
        }
    }
}

/// Structured planner-side failure.
#[derive(Debug, Clone, PartialEq, Eq)]
pub struct AutonomyPlanFailure {
    pub code: AutonomyPlanFailureCode,
    pub message: String,
    pub detail: Option<String>,
    pub retryable: bool,
}

/// Mutation-batch action payload: the mutations as JSON text.
#[derive(Debug, Clone, PartialEq, Eq)]
pub struct AutonomyPlanMutationRequest {
    pub mutations: Vec<String>,
    pub dry_run: bool,
}

/// Verify action payload.
#[derive(Debug, Clone, PartialEq, Eq)]
pub struct AutonomyPlanVerifyRequest {
    pub scope: Option<VerifyScope>,
}

/// Compile action payload.
#[derive(Debug, Clone, PartialEq, Eq)]
pub struct AutonomyPlanCompileRequest {
    pub opt_level: String,
    pub target_triple: Option<String>,
    pub debug_symbols: bool,
    pub entry_function: Option<String>,
    pub output_dir: Option<String>,
}

/// The optimisation level assumed when a compile action names none.
pub fn default_compile_opt_level() -> (r: String)
    ensures
        r@ == "O0"@,
{
    String::from_str("O0")
}

/// Simulate action payload: the inputs as JSON text.
#[derive(Debug, Clone, PartialEq, Eq)]
pub struct AutonomyPlanSimulateRequest {
    pub function_id: Option<FunctionId>,
    pub inputs: Vec<String>,
    pub trace_enabled: Option<bool>,
}

/// Inspect/query action payload.
#[derive(Debug, Clone, PartialEq, Eq)]
pub struct AutonomyPlanInspectRequest {
    pub query: Option<String>,
    pub max_results: Option<usize>,
}

/// Supported history operations.
#[derive(Debug, Clone, Copy, PartialEq, Eq, Structural)]
pub enum AutonomyPlanHistoryOperation {
    ListEntries,
    ListCheckpoints,
    Undo,
    Redo,
    RestoreCheckpoint,
    Diff,
}

/// History action payload.
#[derive(Debug, Clone, PartialEq, Eq)]
pub struct AutonomyPlanHistoryRequest {
    pub operation: Option<AutonomyPlanHistoryOperation>,
    pub checkpoint: Option<String>,
    pub from_checkpoint: Option<String>,
    pub to_checkpoint: Option<String>,
    pub limit: Option<usize>,
}

/// One ordered planner action, with its optional rationale.
#[derive(Debug, Clone, PartialEq, Eq)]
pub enum AutonomyPlanAction {
    MutateBatch { request: AutonomyPlanMutationRequest, rationale: Option<String> },
    Verify { request: AutonomyPlanVerifyRequest, rationale: Option<String> },
    Compile { request: AutonomyPlanCompileRequest, rationale: Option<String> },
    Simulate { request: AutonomyPlanSimulateRequest, rationale: Option<String> },
    Inspect { request: AutonomyPlanInspectRequest, rationale: Option<String> },
    History { request: AutonomyPlanHistoryRequest, rationale: Option<String> },
}

/// A one-line projection of a planner action for transcripts.
#[derive(Debug, Clone, PartialEq, Eq)]
pub struct PlannerActionSummary {
    pub kind: String,
    pub summary: String,
}

/// `true` or `false`, as `Display` prints a boolean.
pub open spec fn bool_text(b: bool) -> Seq<char> {
    if b { "true"@ } else { "false"@ }
}

/// The debug rendering of an optional verify scope.
pub open spec fn scope_debug(s: Option<VerifyScope>) -> Seq<char> {
    match s {
        None => "None"@,
        Some(VerifyScope::Local) => "Some(Local)"@,
        Some(VerifyScope::Full) => "Some(Full)"@,
    }
}

/// The debug rendering of an optional history operation.
pub open spec fn operation_debug(o: Option<AutonomyPlanHistoryOperation>) -> Seq<char> {
    match o {
        None => "None"@,
        Some(AutonomyPlanHistoryOperation::ListEntries) => "Some(ListEntries)"@,
        Some(AutonomyPlanHistoryOperation::ListCheckpoints) => "Some(ListCheckpoints)"@,
        Some(AutonomyPlanHistoryOperation::Undo) => "Some(Undo)"@,
        Some(AutonomyPlanHistoryOperation::Redo) => "Some(Redo)"@,
        Some(AutonomyPlanHistoryOperation::RestoreCheckpoint) => "Some(RestoreCheckpoint)"@,
        Some(AutonomyPlanHistoryOperation::Diff) => "Some(Diff)"@,
    }
}

/// An optional text, or a placeholder when absent.
pub open spec fn or_text(o: Option<Seq<char>>, placeholder: Seq<char>) -> Seq<char> {
    match o {
        Some(s) => s,
        None => placeholder,
    }
}

/// The kind and one-line summary of a planner action.
pub open spec fn action_summary(a: AutonomyPlanAction) -> (Seq<char>, Seq<char>) {
    match a {
        AutonomyPlanAction::MutateBatch { request, .. } => (
            "mutate_batch"@,
            decimal_seq(request.mutations@.len()) + " mutation(s), dry_run="@ + bool_text(request.dry_run),
        ),
        AutonomyPlanAction::Verify { request, .. } => ("verify"@, "scope="@ + scope_debug(request.scope)),
        AutonomyPlanAction::Compile { request, .. } => (
            "compile"@,
            "entry_function="@ + or_text(opt_view(request.entry_function), "<none>"@) + ", opt_level="@
                + request.opt_level@,
        ),
        AutonomyPlanAction::Simulate { request, .. } => (
            "simulate"@,
            "function_id="@ + (match request.function_id {
                Some(f) => decimal_seq(f.0 as nat),
                None => "<none>"@,
            }) + ", inputs="@ + decimal_seq(request.inputs@.len()),
        ),
        AutonomyPlanAction::Inspect { request, .. } => (
            "inspect"@,
            "query='"@ + or_text(opt_view(request.query), "<none>"@) + "', max_results="@ + (match request.max_results {
                Some(m) => decimal_seq(m as nat),
                None => "<default>"@,
            }),
        ),
        AutonomyPlanAction::History { request, .. } => (
            "history"@,
            "operation="@ + operation_debug(request.operation),
        ),
    }
}

fn bool_str(b: bool) -> (r: &'static str)
    ensures
        r@ == bool_text(b),
{
    if b { "true" } else { "false" }
}

fn scope_str(s: Option<VerifyScope>) -> (r: &'static str)
    ensures
        r@ == scope_debug(s),
{
    match s {
        None => "None",
        Some(VerifyScope::Local) => "Some(Local)",
        Some(VerifyScope::Full) => "Some(Full)",
    }
}

fn operation_str(o: Option<AutonomyPlanHistoryOperation>) -> (r: &'static str)
    ensures
        r@ == operation_debug(o),
{
    match o {
        None => "None",
        Some(AutonomyPlanHistoryOperation::ListEntries) => "Some(ListEntries)",
        Some(AutonomyPlanHistoryOperation::ListCheckpoints) => "Some(ListCheckpoints)",
        Some(AutonomyPlanHistoryOperation::Undo) => "Some(Undo)",
        Some(AutonomyPlanHistoryOperation::Redo) => "Some(Redo)",
        Some(AutonomyPlanHistoryOperation::RestoreCheckpoint) => "Some(RestoreCheckpoint)",
        Some(AutonomyPlanHistoryOperation::Diff) => "Some(Diff)",
    }
}

fn opt_or(o: &Option<String>, placeholder: &str) -> (r: String)
    ensures
        r@ == or_text(opt_view(*o), placeholder@),
{
    match o {
        Some(s) => s.clone(),
        None => String::from_str(placeholder),
    }
}

/// The kind and one-line summary of one planner action.
pub fn summarize_action(action: &AutonomyPlanAction) -> (r: PlannerActionSummary)
    ensures
        (r.kind@, r.summary@) == action_summary(*action),
{
    match action {
        AutonomyPlanAction::MutateBatch { request, .. } => {
            let mut s = u64_to_decimal(request.mutations.len() as u64);
            s.append(" mutation(s), dry_run=");
            s.append(bool_str(request.dry_run));
            PlannerActionSummary { kind: String::from_str("mutate_batch"), summary: s }
        },
        AutonomyPlanAction::Verify { request, .. } => PlannerActionSummary {
            kind: String::from_str("verify"),
            summary: cat("scope=", scope_str(request.scope)),
        },
        AutonomyPlanAction::Compile { request, .. } => {
            let entry = opt_or(&request.entry_function, "<none>");
            let mut s = cat3("entry_function=", entry.as_str(), ", opt_level=");
            s.append(request.opt_level.as_str());
            PlannerActionSummary { kind: String::from_str("compile"), summary: s }
        },
        AutonomyPlanAction::Simulate { request, .. } => {
            let id = match request.function_id {
                Some(f) => u64_to_decimal(f.0 as u64),
                None => String::from_str("<none>"),
            };
            let mut s = cat3("function_id=", id.as_str(), ", inputs=");
            s.append(u64_to_decimal(request.inputs.len() as u64).as_str());
            PlannerActionSummary { kind: String::from_str("simulate"), summary: s }
        },
        AutonomyPlanAction::Inspect { request, .. } => {
            let q = opt_or(&request.query, "<none>");
            let m = match request.max_results {
                Some(v) => u64_to_decimal(v as u64),
                None => String::from_str("<default>"),
            };
            let mut s = cat3("query='", q.as_str(), "', max_results=");
            s.append(m.as_str());
            PlannerActionSummary { kind: String::from_str("inspect"), summary: s }
        },
        AutonomyPlanAction::History { request, .. } => PlannerActionSummary {
            kind: String::from_str("history"),
            summary: cat("operation=", operation_str(request.operation)),
        },
    }
}

/// The summaries of a list of planner actions, in order.
pub fn summarize_actions(actions: &[AutonomyPlanAction]) -> (r: Vec<PlannerActionSummary>)
    ensures
        r@.len() == actions@.len(),
        forall|i: int| 0 <= i < actions@.len() ==> ((#[trigger] r@[i]).kind@, r@[i].summary@)
            == action_summary(actions@[i]),
{
    let mut out: Vec<PlannerActionSummary> = Vec::new();
    for i in 0..actions.len()
        invariant
            out@.len() == i,
            forall|j: int| 0 <= j < i ==> ((#[trigger] out@[j]).kind@, out@[j].summary@)
                == action_summary(actions@[j]),
    {
        out.push(summarize_action(&actions[i]));
    }
    out
}

/// A planner rejection with a stable machine-readable code.
#[derive(Debug, Clone, PartialEq, Eq)]
pub struct PlannerRejected {
    pub code: String,
    pub message: String,
    pub retryable: bool,
    pub version: Option<String>,
}

/// A planner acceptance: the validated actions, summarised.
#[derive(Debug, Clone, PartialEq, Eq)]
pub struct PlannerAccepted {
    pub version: String,
    pub goal: String,
    pub action_count: usize,
    pub actions: Vec<PlannerActionSummary>,
}

/// A structured planner outcome.
#[derive(Debug, Clone, PartialEq, Eq)]
pub enum PlannerOutcome {
    Accepted(PlannerAccepted),
    Rejected(PlannerRejected),
}

impl PlannerOutcome {
    /// `"accepted"` or `"failed"`.
    pub fn status(&self) -> (r: &'static str)
        ensures
            r@ == (if *self is Accepted { "accepted"@ } else { "failed"@ }),
    {
        match self {
            PlannerOutcome::Accepted(_) => "accepted",
            PlannerOutcome::Rejected(_) => "failed",
        }
    }
}

/// Retry context for targeted repair planning.
#[derive(Debug, Clone, PartialEq, Eq)]
pub struct PlannerRepairContext {
    pub attempt: u32,
    pub max_attempts: u32,
    pub action_kind: String,
    pub error_class: String,
    pub retryable: bool,
    pub summary: String,
    pub key_diagnostics: Vec<String>,
    pub stop_reason_code: Option<String>,
}

/// The program-authoring guide embedded in every planner prompt.
pub const PLANNER_GUIDE: &'static str = r#"Program-authoring guide (lmlang graph edits):
- To write or change program logic, emit `mutate_batch` actions with concrete `request.mutations`.
- Mutation `type` values must match exactly one of:
  AddFunction, AddModule, InsertNode, ModifyNode, AddEdge, AddControlEdge, RemoveNode, RemoveEdge.
- Built-in TypeId map: Bool=0, I8=1, I16=2, I32=3, I64=4, F32=5, F64=6, Unit=7, Never=8.
- For new functions, default `module` is 0 and `visibility` is `Public` or `Private`.
- Prefer this safe pipeline for build goals:
  1) mutate_batch
  2) verify (`scope`: `Full` or `Local`)
  3) optional compile (`entry_function`, `opt_level`: O0/O1/O2/O3)
  4) optional run (`entry_function`) to execute compiled program and capture stdout/stderr
  5) optional simulate/inspect/history for debugging
- Inspect query shortcuts for graph/db context:
  `overview`, `semantic`, `search:<term>`, `function:<id>`, `node:<id>`, `neighborhood:<node_id>:<hops>`

Mutation examples:
1) Create function:
{
  "type": "mutate_batch",
  "request": {
    "mutations": [{
      "type": "AddFunction",
      "name": "calculator_add",
      "module": 0,
      "params": [["lhs", 3], ["rhs", 3]],
      "return_type": 3,
      "visibility": "Public"
    }],
    "dry_run": false
  }
}

2) Add return node:
{
  "type": "mutate_batch",
  "request": {
    "mutations": [{
      "type": "InsertNode",
      "op": {"Core": "Return"},
      "owner": 1
    }],
    "dry_run": false
  }
}

3) Add typed data edge:
{
  "type": "mutate_batch",
  "request": {
    "mutations": [{
      "type": "AddEdge",
      "from": 10,
      "to": 11,
      "source_port": 0,
      "target_port": 0,
      "value_type": 3
    }],
    "dry_run": false
  }
}"#;

/// The opening of every planner prompt, up to the contract version.
pub const PROMPT_HEAD: &'static str = "You are the lmlang autonomous planner.\nReturn only JSON with no markdown and no surrounding text.\nUse planner contract version '";

/// The rules of every planner prompt, after the contract version.
pub const PROMPT_RULES: &'static str = "'.\nAllowed action types: mutate_batch, verify, compile, run, simulate, inspect, history.\nRules:\n- Use an ordered actions array for executable plans.\n- If no safe plan exists, return a structured failure object and empty actions.\n- Keep payloads minimal and deterministic.\n";

/// The extra rule of a retry prompt.
pub const REPAIR_RULE: &'static str = "- Use latest execution diagnostics to prioritize targeted repair actions before unrelated changes.\n";

/// The header of the diagnostics block of a retry prompt.
pub const REPAIR_HEADER: &'static str = "\n\nLatest execution diagnostics:\n";

/// The transcript block when there is no transcript.
pub const NO_TRANSCRIPT: &'static str = "No recent transcript.";

/// The program-authoring guide embedded in every planner prompt.
pub fn planner_programming_guide() -> (r: &'static str)
    ensures
        r@ == PLANNER_GUIDE@,
{
    PLANNER_GUIDE
}

/// The first `n` lines, joined by newlines.
pub open spec fn joined_lines(lines: Seq<Seq<char>>, n: nat) -> Seq<char>
    decreases n,
{
    if n == 0 {
        Seq::empty()
    } else if n == 1 {
        lines[0]
    } else {
        joined_lines(lines, (n - 1) as nat) + "\n"@ + lines[n - 1]
    }
}

/// The planner prompt for a goal, the recent transcript and, on a retry,
/// the latest execution diagnostics as pretty-printed JSON.
pub open spec fn planner_prompt(goal: Seq<char>, transcript: Seq<Seq<char>>, repair: Option<Seq<char>>) -> Seq<char> {
    let block = if transcript.len() == 0 { NO_TRANSCRIPT@ } else { joined_lines(transcript, transcript.len()) };
    let rule = if repair is Some { REPAIR_RULE@ } else { Seq::empty() };
    let tail = match repair {
        Some(raw) => REPAIR_HEADER@ + raw,
        None => Seq::empty(),
    };
    PROMPT_HEAD@ + AUTONOMY_PLAN_CONTRACT_V1@ + PROMPT_RULES@ + rule + "\n"@ + PLANNER_GUIDE@ + "\n\nGoal:\n"@
        + goal + "\n\nRecent transcript:\n"@ + block + tail
}

/// Builds the planner prompt (see [`planner_prompt`]). `repair_json` is the
/// retry context as pretty-printed JSON, present exactly on a retry.
pub fn build_planner_prompt(goal: &str, transcript: &[String], repair_json: Option<&str>) -> (r: String)
    ensures
        r@ == planner_prompt(goal@, transcript@.map_values(|s: String| s@), match repair_json {
            Some(raw) => Some(raw@),
            None => None,
        }),
{
    let ghost lines = transcript@.map_values(|s: String| s@);
    let mut block = String::new();
    if transcript.len() == 0 {
        block.append(NO_TRANSCRIPT);
    } else {
        let mut i: usize = 0;
        while i < transcript.len()
            invariant
                i <= transcript@.len(),
                lines == transcript@.map_values(|s: String| s@),
                block@ == joined_lines(lines, i as nat),
            decreases transcript@.len() - i,
        {
            if i > 0 {
                block.append("\n");
            }
            block.append(transcript[i].as_str());
            i = i + 1;
        }
    }
    let mut out = String::from_str(PROMPT_HEAD);
    out.append(AUTONOMY_PLAN_CONTRACT_V1);
    out.append(PROMPT_RULES);
    if repair_json.is_some() {
        out.append(REPAIR_RULE);
    }
    out.append("\n");
    out.append(planner_programming_guide());
    out.append("\n\nGoal:\n");
    out.append(goal);
    out.append("\n\nRecent transcript:\n");
    out.append(block.as_str());
    match repair_json {
        Some(raw) => {
            out.append(REPAIR_HEADER);
            out.append(raw);
        },
        None => {},
    }
    out
}

/// A rejected planner outcome.
pub fn planner_rejected(code: &str, message: &str, retryable: bool, version: Option<String>) -> (r: PlannerOutcome)
    ensures
        r matches PlannerOutcome::Rejected(x) && x.code@ == code@ && x.message@ == message@
            && x.retryable == retryable && x.version == version,
{
    PlannerOutcome::Rejected(PlannerRejected {
        code: String::from_str(code),
        message: String::from_str(message),
        retryable,
        version,
    })
}

/// The rejection for a structured planner failure: its wire code, message
/// and retryability.
pub fn planner_rejected_from_failure(failure: &AutonomyPlanFailure, version: Option<String>) -> (r: PlannerOutcome)
    ensures
        r matches PlannerOutcome::Rejected(x) && x.code@ == failure_code_name(failure.code)
            && x.message@ == failure.message@ && x.retryable == failure.retryable && x.version == version,
{
    planner_rejected(failure.code.as_str(), failure.message.as_str(), failure.retryable, version)
}

/// The rejection when the agent has no configured planner provider.
pub fn planner_unconfigured() -> (r: PlannerOutcome)
    ensures
        r matches PlannerOutcome::Rejected(x) && x.code@ == "planner_unconfigured"@
            && x.message@ == "Planner provider is not configured for this agent."@ && !x.retryable
            && x.version is None,
{
    planner_rejected("planner_unconfigured", "Planner provider is not configured for this agent.", false, None)
}

/// The rejection when the planner provider request failed with `error`.
pub fn planner_provider_failed(error: &str) -> (r: PlannerOutcome)
    ensures
        r matches PlannerOutcome::Rejected(x) && x.code@ == "planner_provider_error"@
            && x.message@ == "Planner provider request failed: "@ + error@ && x.retryable
            && x.version is None,
{
    let message = cat("Planner provider request failed: ", error);
    planner_rejected("planner_provider_error", message.as_str(), true, None)
}

/// The joined `kind (summary)` list of accepted actions, separated by `; `.
pub open spec fn actions_text(actions: Seq<PlannerActionSummary>, n: nat) -> Seq<char>
    decreases n,
{
    if n == 0 {
        Seq::empty()
    } else if n == 1 {
        actions[0].kind@ + " ("@ + actions[0].summary@ + ")"@
    } else {
        actions_text(actions, (n - 1) as nat) + "; "@ + actions[n - 1].kind@ + " ("@ + actions[n - 1].summary@
            + ")"@
    }
}

/// The run loop's one-line summary of an accepted plan.
pub open spec fn accepted_text(a: PlannerAccepted) -> Seq<char> {
    decimal_seq(a.action_count as nat) + " action(s) validated for '"@ + a.goal@ + "': "@ + actions_text(
        a.actions@,
        a.actions@.len(),
    )
}

/// The run loop's one-line summary of an accepted plan:
/// `"{n} action(s) validated for '{goal}': {kind} ({summary}); ..."`.
pub fn accepted_step_summary(accepted: &PlannerAccepted) -> (r: String)
    ensures
        r@ == accepted_text(*accepted),
{
    let mut s = u64_to_decimal(accepted.action_count as u64);
    s.append(" action(s) validated for '");
    s.append(accepted.goal.as_str());
    s.append("': ");
    let ghost prefix = s@;
    let n = accepted.actions.len();
    for i in 0..n
        invariant
            n == accepted.actions@.len(),
            s@ == prefix + actions_text(accepted.actions@, i as nat),
    {
        if i > 0 {
            s.append("; ");
        }
        s.append(accepted.actions[i].kind.as_str());
        s.append(" (");
        s.append(accepted.actions[i].summary.as_str());
        s.append(")");
        assert(s@ =~= prefix + actions_text(accepted.actions@, (i + 1) as nat));
    }
    s
}

/// The run loop's reason for a rejected plan: `"[{code}] {message}"`.
pub fn rejected_step_reason(rejected: &PlannerRejected) -> (r: String)
    ensures
        r@ == "["@ + rejected.code@ + "] "@ + rejected.message@,
{
    let mut s = cat3("[", rejected.code.as_str(), "] ");
    s.append(rejected.message.as_str());
    s
}

} // verus!
