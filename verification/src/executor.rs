//! Deterministic execution of a validated planner plan, one action at a
//! time, with fail-fast semantics.
//!
//! Each action is first checked and turned into the program-service
//! operation it asks for ([`plan_action_call`]); the caller performs that
//! operation and hands its reply back to [`action_result`], which turns it
//! into typed execution evidence. The plan's outcome is then
//! [`complete_plan`] when every action succeeded, or [`fail_plan`] at the
//! first failed one. JSON details (service responses, error payloads)
//! travel as JSON text produced by the caller.

use vstd::prelude::*;
use crate::api_error::{classified, classify_api_error, ApiError};
use crate::autonomy::{
    results_view, ActionResultView, AttemptView, AutonomyActionExecutionResult, AutonomyActionStatus,
    AutonomyExecutionAttemptSummary, AutonomyExecutionError, AutonomyExecutionErrorCode,
    AutonomyExecutionOutcome, AutonomyExecutionStatus, ExecutionErrorView, OutcomeView, StopReason,
    StopReasonCode, StopReasonView,
};
use crate::ids::FunctionId;
use crate::planner::{bool_text, AutonomyPlanAction, AutonomyPlanHistoryOperation, AutonomyPlanHistoryRequest, VerifyScope};
use crate::schema::{
    CompileRequest, CompileResponse, ListCheckpointsResponse, ListHistoryResponse, ProposeEditResponse,
    RedoResponse, RestoreCheckpointResponse, SimulateRequest, UndoResponse, VerifyResponse,
};
use crate::text::{
    cat, cat3, chars_of, clone_opt, clone_strings, contains_chars, contains_seq, decimal_seq, opt_view,
    string_of, trim, trim_str, u64_to_decimal,
};

verus! {

/// The program-service operation a planner action asks for.
#[derive(Debug, Clone, PartialEq, Eq)]
pub enum ServiceCall {
    /// Propose an edit batch (mutations as JSON text).
    ProposeEdit { mutations: Vec<String>, dry_run: bool },
    Verify { scope: VerifyScope },
    Compile { request: CompileRequest },
    Simulate { request: SimulateRequest },
    Overview,
    Semantic { include_embeddings: bool },
    /// Search nodes by `filter`, keeping at most `max_results` of them.
    Search { filter: String, max_results: Option<usize> },
    ListHistory,
    ListCheckpoints,
    Undo,
    Redo,
    RestoreCheckpoint { checkpoint: String },
    Diff { from_checkpoint: Option<String>, to_checkpoint: Option<String> },
}

/// The reply of the program service to a [`ServiceCall`], with the JSON
/// text of the full response (and of the parts the evidence embeds).
#[derive(Debug, Clone)]
pub enum ServiceReply {
    Edit { response: ProposeEditResponse, errors_json: String, response_json: String },
    Verify { response: VerifyResponse, errors_json: String, response_json: String },
    Compile { response: CompileResponse, response_json: String },
    Simulate { success: bool, error_json: String, response_json: String },
    Overview { function_count: usize, node_count: usize, edge_count: usize, response_json: String },
    Semantic { node_count: usize, edge_count: usize, response_json: String },
    Search { total_count: usize, response_json: String },
    History { response: ListHistoryResponse, response_json: String },
    Checkpoints { response: ListCheckpointsResponse, response_json: String },
    Undo { response: UndoResponse, response_json: String },
    Redo { response: RedoResponse, response_json: String },
    Restored { response: RestoreCheckpointResponse, response_json: String },
    Diff { response_json: String },
}

/// The evidence kind of a planner action.
pub open spec fn action_kind(a: AutonomyPlanAction) -> Seq<char> {
    match a {
        AutonomyPlanAction::MutateBatch { .. } => "mutate_batch"@,
        AutonomyPlanAction::Verify { .. } => "verify"@,
        AutonomyPlanAction::Compile { .. } => "compile"@,
        AutonomyPlanAction::Simulate { .. } => "simulate"@,
        AutonomyPlanAction::Inspect { .. } => "inspect"@,
        AutonomyPlanAction::History { .. } => "history"@,
    }
}

/// The evidence of an action whose payload is unusable: a non-retryable
/// invalid-payload failure whose summary and message are both `message`.
pub open spec fn invalid_payload_view(action_index: usize, kind: Seq<char>, message: Seq<char>) -> ActionResultView {
    ActionResultView {
        action_index,
        kind,
        status: AutonomyActionStatus::Failed,
        summary: message,
        error: Some(ExecutionErrorView {
            code: AutonomyExecutionErrorCode::InvalidActionPayload,
            message,
            retryable: false,
            details: None,
            diagnostics: None,
        }),
        detail: None,
        diagnostics: None,
    }
}

/// The evidence of an unusable payload.
pub fn invalid_payload_result(action_index: usize, kind: &str, message: &str) -> (r: AutonomyActionExecutionResult)
    ensures
        r@ == invalid_payload_view(action_index, kind@, message@),
{
    AutonomyActionExecutionResult::failed(
        action_index,
        kind,
        message,
        AutonomyExecutionError::new(AutonomyExecutionErrorCode::InvalidActionPayload, message, false),
    )
}

/// What the checks of an inspect query decide: `None` for the overview,
/// `Some((true, x))` for a semantic query (`x` says whether embeddings are
/// included, as text "1" or "0"), `Some((false, filter))` for a search.
pub open spec fn inspect_target(query: Option<Seq<char>>) -> Option<(bool, Seq<char>)> {
    let q = match query {
        Some(q) => trim(q),
        None => Seq::empty(),
    };
    if q.len() == 0 || q == "overview"@ {
        None
    } else if q.len() >= 8 && q.subrange(0, 8) == "semantic"@ {
        Some((true, if contains_seq(q, "with_embeddings"@) { "1"@ } else { "0"@ }))
    } else if q.len() >= 7 && q.subrange(0, 7) == "search:"@ && trim(q.subrange(7, q.len() as int)).len() > 0 {
        Some((false, trim(q.subrange(7, q.len() as int))))
    } else {
        Some((false, q))
    }
}

/// The service call an action asks for, or the evidence of its unusable
/// payload.
pub open spec fn call_for(action_index: usize, a: AutonomyPlanAction) -> Result<ServiceCall, ActionResultView> {
    match a {
        AutonomyPlanAction::MutateBatch { request, .. } => if request.mutations@.len() == 0 {
            Err(invalid_payload_view(action_index, "mutate_batch"@, "mutate_batch request requires at least one mutation"@))
        } else {
            Ok(ServiceCall::ProposeEdit { mutations: request.mutations, dry_run: request.dry_run })
        },
        AutonomyPlanAction::Verify { request, .. } => match request.scope {
            None => Err(invalid_payload_view(action_index, "verify"@, "verify request requires `scope`"@)),
            Some(scope) => Ok(ServiceCall::Verify { scope }),
        },
        AutonomyPlanAction::Compile { request, .. } => match request.entry_function {
            None => Err(invalid_payload_view(action_index, "compile"@, "compile request requires `entry_function`"@)),
            Some(entry) => if trim(entry@).len() == 0 {
                Err(invalid_payload_view(
                    action_index,
                    "compile"@,
                    "compile request `entry_function` must not be empty"@,
                ))
            } else {
                Ok(ServiceCall::Compile {
                    request: CompileRequest {
                        opt_level: request.opt_level,
                        target_triple: request.target_triple,
                        debug_symbols: request.debug_symbols,
                        entry_function: Some(entry),
                        output_dir: request.output_dir,
                    },
                })
            },
        },
        AutonomyPlanAction::Simulate { request, .. } => match request.function_id {
            None => Err(invalid_payload_view(action_index, "simulate"@, "simulate request requires `function_id`"@)),
            Some(function_id) => Ok(ServiceCall::Simulate {
                request: SimulateRequest {
                    function_id,
                    inputs: request.inputs,
                    trace_enabled: request.trace_enabled,
                },
            }),
        },
        AutonomyPlanAction::Inspect { .. } => Err(invalid_payload_view(action_index, "inspect"@, Seq::empty())),
        AutonomyPlanAction::History { request, .. } => match request.operation {
            None => Err(invalid_payload_view(action_index, "history"@, "history request requires `operation`"@)),
            Some(AutonomyPlanHistoryOperation::ListEntries) => Ok(ServiceCall::ListHistory),
            Some(AutonomyPlanHistoryOperation::ListCheckpoints) => Ok(ServiceCall::ListCheckpoints),
            Some(AutonomyPlanHistoryOperation::Undo) => Ok(ServiceCall::Undo),
            Some(AutonomyPlanHistoryOperation::Redo) => Ok(ServiceCall::Redo),
            Some(AutonomyPlanHistoryOperation::RestoreCheckpoint) => Err(
                invalid_payload_view(action_index, "history"@, Seq::empty()),
            ),
            Some(AutonomyPlanHistoryOperation::Diff) => if request.from_checkpoint is None
                && request.to_checkpoint is None {
                Err(invalid_payload_view(
                    action_index,
                    "history"@,
                    "history diff operation requires at least one checkpoint reference"@,
                ))
            } else {
                Ok(ServiceCall::Diff {
                    from_checkpoint: request.from_checkpoint,
                    to_checkpoint: request.to_checkpoint,
                })
            },
        },
    }
}

/// A history action asks the service for the operation it names: listing
/// entries lists the history, listing checkpoints lists the checkpoints,
/// undo undoes and redo redoes.
pub proof fn lemma_history_call_matches_operation(action_index: usize, request: AutonomyPlanHistoryRequest, rationale: Option<String>)
    ensures
        request.operation == Some(AutonomyPlanHistoryOperation::Redo) ==> call_for(
            action_index,
            AutonomyPlanAction::History { request, rationale },
        ) == Ok::<ServiceCall, ActionResultView>(ServiceCall::Redo),
        request.operation == Some(AutonomyPlanHistoryOperation::Undo) ==> call_for(
            action_index,
            AutonomyPlanAction::History { request, rationale },
        ) == Ok::<ServiceCall, ActionResultView>(ServiceCall::Undo),
        request.operation == Some(AutonomyPlanHistoryOperation::ListEntries) ==> call_for(
            action_index,
            AutonomyPlanAction::History { request, rationale },
        ) == Ok::<ServiceCall, ActionResultView>(ServiceCall::ListHistory),
        request.operation == Some(AutonomyPlanHistoryOperation::ListCheckpoints) ==> call_for(
            action_index,
            AutonomyPlanAction::History { request, rationale },
        ) == Ok::<ServiceCall, ActionResultView>(ServiceCall::ListCheckpoints),
        request.operation is None ==> call_for(action_index, AutonomyPlanAction::History { request, rationale }) is Err,
{
}

/// Each action asks for the service call of its own kind, carrying its
/// payload, or is refused when a required part of the payload is missing.
pub proof fn lemma_action_call_kinds(i: usize, action: AutonomyPlanAction)
    ensures
        action matches AutonomyPlanAction::MutateBatch { request, .. } ==> (if request.mutations@.len() == 0 {
            call_for(i, action) is Err
        } else {
            call_for(i, action) == Ok::<ServiceCall, ActionResultView>(
                ServiceCall::ProposeEdit { mutations: request.mutations, dry_run: request.dry_run },
            )
        }),
        action matches AutonomyPlanAction::Verify { request, .. } ==> (match request.scope {
            Some(scope) => call_for(i, action) == Ok::<ServiceCall, ActionResultView>(ServiceCall::Verify { scope }),
            None => call_for(i, action) is Err,
        }),
        action matches AutonomyPlanAction::Compile { request, .. } ==> (match request.entry_function {
            Some(e) => if trim(e@).len() == 0 {
                call_for(i, action) is Err
            } else {
                call_for(i, action) matches Ok(ServiceCall::Compile { request: c }) && c.entry_function == Some(e)
                    && c.opt_level == request.opt_level && c.target_triple == request.target_triple
                    && c.debug_symbols == request.debug_symbols && c.output_dir == request.output_dir
            },
            None => call_for(i, action) is Err,
        }),
        action matches AutonomyPlanAction::Simulate { request, .. } ==> (match request.function_id {
            Some(f) => call_for(i, action) matches Ok(ServiceCall::Simulate { request: c }) && c.function_id == f
                && c.inputs == request.inputs && c.trace_enabled == request.trace_enabled,
            None => call_for(i, action) is Err,
        }),
        action matches AutonomyPlanAction::History { request, .. } ==> (request.operation == Some(
            AutonomyPlanHistoryOperation::Diff,
        ) ==> if request.from_checkpoint is None && request.to_checkpoint is None {
            call_for(i, action) is Err
        } else {
            call_for(i, action) == Ok::<ServiceCall, ActionResultView>(
                ServiceCall::Diff { from_checkpoint: request.from_checkpoint, to_checkpoint: request.to_checkpoint },
            )
        }),
{
}

/// Whether a call came from the checks of an inspect action.
pub open spec fn inspect_call_ok(action_index: usize, request_query: Option<Seq<char>>, max_results: Option<usize>, r: Result<ServiceCall, ActionResultView>) -> bool {
    if max_results == Some(0usize) {
        r == Err::<ServiceCall, ActionResultView>(invalid_payload_view(
            action_index,
            "inspect"@,
            "inspect request `max_results` must be greater than 0 when provided"@,
        ))
    } else {
        match inspect_target(request_query) {
            None => r == Ok::<ServiceCall, ActionResultView>(ServiceCall::Overview),
            Some((true, x)) => r matches Ok(ServiceCall::Semantic { include_embeddings }) && include_embeddings == (x
                == "1"@),
            Some((false, f)) => r matches Ok(ServiceCall::Search { filter, max_results: m }) && filter@ == f && m
                == max_results,
        }
    }
}

/// Whether a call came from the checks of a restore action.
pub open spec fn restore_call_ok(action_index: usize, checkpoint: Option<Seq<char>>, r: Result<ServiceCall, ActionResultView>) -> bool {
    match checkpoint {
        Some(c) if trim(c).len() > 0 => r matches Ok(ServiceCall::RestoreCheckpoint { checkpoint }) && checkpoint@
            == trim(c),
        _ => r == Err::<ServiceCall, ActionResultView>(invalid_payload_view(
            action_index,
            "history"@,
            "history restore operation requires `checkpoint`"@,
        )),
    }
}

/// A restore action restores the named checkpoint, trimmed, and is refused
/// without a non-blank checkpoint name.
pub proof fn lemma_restore_call(i: usize, checkpoint: Option<Seq<char>>, r: Result<ServiceCall, ActionResultView>)
    requires
        restore_call_ok(i, checkpoint, r),
    ensures
        checkpoint is Some && trim(checkpoint->0).len() > 0 ==> (r matches Ok(
            ServiceCall::RestoreCheckpoint { checkpoint: k },
        ) && k@ == trim(checkpoint->0)),
        checkpoint is None ==> r is Err,
        checkpoint is Some && trim(checkpoint->0).len() == 0 ==> r is Err,
{
}

/// An inspect action with `max_results` zero is refused; one without a
/// query (or a blank one, or "overview") asks for the overview; a query
/// starting with "semantic" asks for the semantic view, with embeddings
/// exactly when it mentions "with_embeddings"; any other query searches.
pub proof fn lemma_inspect_call(i: usize, query: Option<Seq<char>>, max_results: Option<usize>, r: Result<ServiceCall, ActionResultView>)
    requires
        inspect_call_ok(i, query, max_results, r),
    ensures
        max_results == Some(0usize) ==> r is Err,
        max_results != Some(0usize) && (query is None || trim(query->0).len() == 0) ==> r == Ok::<ServiceCall, ActionResultView>(ServiceCall::Overview),
        max_results != Some(0usize) && query is Some && trim(query->0).len() >= 8 && trim(query->0).subrange(0, 8)
            == "semantic"@ ==> (r matches Ok(ServiceCall::Semantic { include_embeddings }) && include_embeddings == contains_seq(
            trim(query->0),
            "with_embeddings"@,
        )),
        max_results != Some(0usize) ==> !(r matches Ok(ServiceCall::Search { filter, .. }) && filter@.len() == 0),
{
    reveal_strlit("1");
    reveal_strlit("0");
    reveal_strlit("overview");
    reveal_strlit("semantic");
    assert("1"@ != "0"@) by {
        assert("1"@[0] != "0"@[0]);
    }
    if query is Some && trim(query->0).len() >= 8 && trim(query->0).subrange(0, 8) == "semantic"@ {
        let q = query->0;
        assert(trim(q) != "overview"@) by {
            assert(trim(q).subrange(0, 8)[0] == 's');
            assert("overview"@[0] == 'o');
        }
    }
}

fn starts_with_chars(s: &Vec<char>, p: &str) -> (r: bool)
    ensures
        r == (s@.len() >= p@.len() && s@.subrange(0, p@.len() as int) == p@),
{
    let pv = chars_of(p);
    if pv.len() > s.len() {
        return false;
    }
    let mut i: usize = 0;
    while i < pv.len()
        invariant
            pv@ == p@,
            pv@.len() <= s@.len(),
            i <= pv@.len(),
            forall|k: int| 0 <= k < i ==> s@[k] == pv@[k],
        decreases pv@.len() - i,
    {
        if s[i] != pv[i] {
            assert(s@.subrange(0, pv@.len() as int)[i as int] != p@[i as int]);
            return false;
        }
        i = i + 1;
    }
    assert(s@.subrange(0, pv@.len() as int) =~= p@);
    true
}

/// Checks an action's payload and returns the service call it asks for,
/// or the evidence of its unusable payload.
pub fn plan_action_call(action_index: usize, action: AutonomyPlanAction) -> (r: Result<ServiceCall, AutonomyActionExecutionResult>)
    ensures
        ({
            let rv = match r {
                Ok(c) => Ok::<ServiceCall, ActionResultView>(c),
                Err(x) => Err::<ServiceCall, ActionResultView>(x@),
            };
            match action {
                AutonomyPlanAction::Inspect { request, .. } => inspect_call_ok(
                    action_index,
                    opt_view(request.query),
                    request.max_results,
                    rv,
                ),
                AutonomyPlanAction::History { request, .. } => if request.operation == Some(
                    AutonomyPlanHistoryOperation::RestoreCheckpoint,
                ) {
                    restore_call_ok(action_index, opt_view(request.checkpoint), rv)
                } else {
                    rv == call_for(action_index, action)
                },
                _ => rv == call_for(action_index, action),
            }
        }),
{
    match action {
        AutonomyPlanAction::MutateBatch { request, .. } => {
            if request.mutations.len() == 0 {
                return Err(invalid_payload_result(
                    action_index,
                    "mutate_batch",
                    "mutate_batch request requires at least one mutation",
                ));
            }
            Ok(ServiceCall::ProposeEdit { mutations: request.mutations, dry_run: request.dry_run })
        },
        AutonomyPlanAction::Verify { request, .. } => match request.scope {
            None => Err(invalid_payload_result(action_index, "verify", "verify request requires `scope`")),
            Some(scope) => Ok(ServiceCall::Verify { scope }),
        },
        AutonomyPlanAction::Compile { request, .. } => match request.entry_function {
            None => Err(invalid_payload_result(action_index, "compile", "compile request requires `entry_function`")),
            Some(entry) => {
                let trimmed = trim_str(entry.as_str());
                if trimmed.as_str().is_empty() {
                    return Err(invalid_payload_result(
                        action_index,
                        "compile",
                        "compile request `entry_function` must not be empty",
                    ));
                }
                Ok(ServiceCall::Compile {
                    request: CompileRequest {
                        opt_level: request.opt_level,
                        target_triple: request.target_triple,
                        debug_symbols: request.debug_symbols,
                        entry_function: Some(entry),
                        output_dir: request.output_dir,
                    },
                })
            },
        },
        AutonomyPlanAction::Simulate { request, .. } => match request.function_id {
            None => Err(invalid_payload_result(action_index, "simulate", "simulate request requires `function_id`")),
            Some(function_id) => Ok(ServiceCall::Simulate {
                request: SimulateRequest { function_id, inputs: request.inputs, trace_enabled: request.trace_enabled },
            }),
        },
        AutonomyPlanAction::Inspect { request, .. } => {
            if request.max_results == Some(0usize) {
                return Err(invalid_payload_result(
                    action_index,
                    "inspect",
                    "inspect request `max_results` must be greater than 0 when provided",
                ));
            }
            let q: Vec<char> = match &request.query {
                Some(text) => chars_of(trim_str(text.as_str()).as_str()),
                None => Vec::new(),
            };
            let overview = chars_of("overview");
            if q.len() == 0 || crate::text::chars_eq(q.as_slice(), overview.as_slice()) {
                return Ok(ServiceCall::Overview);
            }
            proof {
                reveal_strlit("semantic");
                reveal_strlit("search:");
            }
            if starts_with_chars(&q, "semantic") {
                let marker = chars_of("with_embeddings");
                let include_embeddings = contains_chars(q.as_slice(), marker.as_slice());
                proof {
                    reveal_strlit("1");
                    reveal_strlit("0");
                    assert("1"@ != "0"@) by {
                        assert("1"@[0] != "0"@[0]);
                    }
                }
                return Ok(ServiceCall::Semantic { include_embeddings });
            }
            if starts_with_chars(&q, "search:") {
                let rest = crate::text::slice_range(q.as_slice(), 7, q.len());
                let rest_str = string_of(rest.as_slice());
                let filter = trim_str(rest_str.as_str());
                if !filter.as_str().is_empty() {
                    return Ok(ServiceCall::Search { filter, max_results: request.max_results });
                }
            }
            Ok(ServiceCall::Search { filter: string_of(q.as_slice()), max_results: request.max_results })
        },
        AutonomyPlanAction::History { request, .. } => match request.operation {
            None => Err(invalid_payload_result(action_index, "history", "history request requires `operation`")),
            Some(AutonomyPlanHistoryOperation::ListEntries) => Ok(ServiceCall::ListHistory),
            Some(AutonomyPlanHistoryOperation::ListCheckpoints) => Ok(ServiceCall::ListCheckpoints),
            Some(AutonomyPlanHistoryOperation::Undo) => Ok(ServiceCall::Undo),
            Some(AutonomyPlanHistoryOperation::Redo) => Ok(ServiceCall::Redo),
            Some(AutonomyPlanHistoryOperation::RestoreCheckpoint) => {
                let checkpoint = match &request.checkpoint {
                    Some(c) => {
                        let t = trim_str(c.as_str());
                        if !t.as_str().is_empty() {
                            Some(t)
                        } else {
                            None
                        }
                    },
                    None => None,
                };
                match checkpoint {
                    Some(checkpoint) => Ok(ServiceCall::RestoreCheckpoint { checkpoint }),
                    None => Err(invalid_payload_result(
                        action_index,
                        "history",
                        "history restore operation requires `checkpoint`",
                    )),
                }
            },
            Some(AutonomyPlanHistoryOperation::Diff) => {
                if request.from_checkpoint.is_none() && request.to_checkpoint.is_none() {
                    return Err(invalid_payload_result(
                        action_index,
                        "history",
                        "history diff operation requires at least one checkpoint reference",
                    ));
                }
                Ok(ServiceCall::Diff { from_checkpoint: request.from_checkpoint, to_checkpoint: request.to_checkpoint })
            },
        },
    }
}

/// The evidence kind of a service call's action.
pub open spec fn call_kind(c: ServiceCall) -> Seq<char> {
    match c {
        ServiceCall::ProposeEdit { .. } => "mutate_batch"@,
        ServiceCall::Verify { .. } => "verify"@,
        ServiceCall::Compile { .. } => "compile"@,
        ServiceCall::Simulate { .. } => "simulate"@,
        ServiceCall::Overview | ServiceCall::Semantic { .. } | ServiceCall::Search { .. } => "inspect"@,
        _ => "history"@,
    }
}

/// The evidence summary when a service call fails.
pub open spec fn call_failure_summary(c: ServiceCall) -> Seq<char> {
    match c {
        ServiceCall::ProposeEdit { .. } => "mutation execution failed"@,
        ServiceCall::Verify { .. } => "verify action failed"@,
        ServiceCall::Compile { .. } => "compile action failed"@,
        ServiceCall::Simulate { .. } => "simulate action failed"@,
        ServiceCall::Overview => "overview query failed"@,
        ServiceCall::Semantic { .. } => "semantic query failed"@,
        ServiceCall::Search { .. } => "search query failed"@,
        ServiceCall::ListHistory => "history listing failed"@,
        ServiceCall::ListCheckpoints => "checkpoint listing failed"@,
        ServiceCall::Undo => "undo failed"@,
        ServiceCall::Redo => "redo failed"@,
        ServiceCall::RestoreCheckpoint { .. } => "restore checkpoint failed"@,
        ServiceCall::Diff { .. } => "diff failed"@,
    }
}

/// Whether a reply answers a call.
pub open spec fn reply_fits(c: ServiceCall, r: ServiceReply) -> bool {
    match (c, r) {
        (ServiceCall::ProposeEdit { .. }, ServiceReply::Edit { .. }) => true,
        (ServiceCall::Verify { .. }, ServiceReply::Verify { .. }) => true,
        (ServiceCall::Compile { request }, ServiceReply::Compile { .. }) => request.entry_function is Some,
        (ServiceCall::Simulate { .. }, ServiceReply::Simulate { .. }) => true,
        (ServiceCall::Overview, ServiceReply::Overview { .. }) => true,
        (ServiceCall::Semantic { .. }, ServiceReply::Semantic { .. }) => true,
        (ServiceCall::Search { .. }, ServiceReply::Search { .. }) => true,
        (ServiceCall::ListHistory, ServiceReply::History { .. }) => true,
        (ServiceCall::ListCheckpoints, ServiceReply::Checkpoints { .. }) => true,
        (ServiceCall::Undo, ServiceReply::Undo { .. }) => true,
        (ServiceCall::Redo, ServiceReply::Redo { .. }) => true,
        (ServiceCall::RestoreCheckpoint { .. }, ServiceReply::Restored { .. }) => true,
        (ServiceCall::Diff { .. }, ServiceReply::Diff { .. }) => true,
        _ => false,
    }
}

/// Successful evidence with a JSON detail.
pub open spec fn ok_view(action_index: usize, kind: Seq<char>, summary: Seq<char>, detail: Seq<char>) -> ActionResultView {
    ActionResultView {
        action_index,
        kind,
        status: AutonomyActionStatus::Succeeded,
        summary,
        error: None,
        detail: Some(detail),
        diagnostics: None,
    }
}

/// Failed evidence.
pub open spec fn failed_view(
    action_index: usize,
    kind: Seq<char>,
    summary: Seq<char>,
    error: ExecutionErrorView,
    detail: Option<Seq<char>>,
) -> ActionResultView {
    ActionResultView {
        action_index,
        kind,
        status: AutonomyActionStatus::Failed,
        summary,
        error: Some(error),
        detail,
        diagnostics: None,
    }
}

/// A retryable validation failure with JSON details.
pub open spec fn validation_error(message: Seq<char>, details: Seq<char>) -> ExecutionErrorView {
    ExecutionErrorView {
        code: AutonomyExecutionErrorCode::ValidationFailed,
        message,
        retryable: true,
        details: Some(details),
        diagnostics: None,
    }
}

/// Whether the evidence of a reply is a success, and the evidence itself.
pub open spec fn reply_result(action_index: usize, c: ServiceCall, r: ServiceReply) -> (bool, ActionResultView) {
    match (c, r) {
        (ServiceCall::ProposeEdit { mutations, dry_run }, ServiceReply::Edit { response, errors_json, response_json }) =>
            if !response.valid {
            (false, failed_view(
                action_index,
                "mutate_batch"@,
                "mutation batch rejected by validator with "@ + decimal_seq(response.errors@.len()) + " error(s)"@,
                validation_error("mutation batch rejected by service validation"@, errors_json@),
                Some(response_json@),
            ))
        } else {
            (true, ok_view(
                action_index,
                "mutate_batch"@,
                if dry_run {
                    "validated "@ + decimal_seq(mutations@.len()) + " mutation(s) in dry-run mode"@
                } else {
                    "applied "@ + decimal_seq(mutations@.len()) + " mutation(s)"@
                },
                response_json@,
            ))
        },
        (ServiceCall::Verify { .. }, ServiceReply::Verify { response, errors_json, response_json }) => if !response.valid {
            (false, failed_view(
                action_index,
                "verify"@,
                "verification failed with "@ + decimal_seq(response.errors@.len()) + " error(s)"@,
                validation_error("verify action reported type errors"@, errors_json@),
                Some(response_json@),
            ))
        } else {
            (true, ok_view(action_index, "verify"@, "verification passed"@, response_json@))
        },
        (ServiceCall::Compile { request }, ServiceReply::Compile { response, response_json }) => (true, ok_view(
            action_index,
            "compile"@,
            "compiled `"@ + opt_view(request.entry_function)->0 + "` ("@ + decimal_seq(response.binary_size as nat)
                + " bytes, "@ + decimal_seq(response.compilation_time_ms as nat) + " ms)"@,
            response_json@,
        )),
        (ServiceCall::Simulate { .. }, ServiceReply::Simulate { success, error_json, response_json }) => if !success {
            (false, failed_view(
                action_index,
                "simulate"@,
                "simulation reported unsuccessful status"@,
                validation_error("simulation returned success=false"@, error_json@),
                Some(response_json@),
            ))
        } else {
            (true, ok_view(action_index, "simulate"@, "simulation completed"@, response_json@))
        },
        (ServiceCall::Overview, ServiceReply::Overview { function_count, node_count, edge_count, response_json }) => (
            true,
            ok_view(
                action_index,
                "inspect"@,
                "overview: "@ + decimal_seq(function_count as nat) + " function(s), "@ + decimal_seq(node_count as nat)
                    + " node(s), "@ + decimal_seq(edge_count as nat) + " edge(s)"@,
                response_json@,
            ),
        ),
        (ServiceCall::Semantic { .. }, ServiceReply::Semantic { node_count, edge_count, response_json }) => (
            true,
            ok_view(
                action_index,
                "inspect"@,
                "semantic query returned "@ + decimal_seq(node_count as nat) + " node(s) and "@ + decimal_seq(
                    edge_count as nat,
                ) + " edge(s)"@,
                response_json@,
            ),
        ),
        (ServiceCall::Search { .. }, ServiceReply::Search { total_count, response_json }) => (true, ok_view(
            action_index,
            "inspect"@,
            "search query matched "@ + decimal_seq(total_count as nat) + " node(s)"@,
            response_json@,
        )),
        (ServiceCall::ListHistory, ServiceReply::History { response, response_json }) => (true, ok_view(
            action_index,
            "history"@,
            "listed "@ + decimal_seq(response.total as nat) + " history entrie(s)"@,
            response_json@,
        )),
        (ServiceCall::ListCheckpoints, ServiceReply::Checkpoints { response, response_json }) => (true, ok_view(
            action_index,
            "history"@,
            "listed "@ + decimal_seq(response.checkpoints@.len()) + " checkpoint(s)"@,
            response_json@,
        )),
        (ServiceCall::Undo, ServiceReply::Undo { response, response_json }) => (true, ok_view(
            action_index,
            "history"@,
            "undo success="@ + bool_text(response.success),
            response_json@,
        )),
        (ServiceCall::Redo, ServiceReply::Redo { response, response_json }) => (true, ok_view(
            action_index,
            "history"@,
            "redo success="@ + bool_text(response.success),
            response_json@,
        )),
        (ServiceCall::RestoreCheckpoint { .. }, ServiceReply::Restored { response, response_json }) => (true, ok_view(
            action_index,
            "history"@,
            "restored checkpoint `"@ + response.name@ + "`"@,
            response_json@,
        )),
        (_, ServiceReply::Diff { response_json }) => (true, ok_view(
            action_index,
            "history"@,
            "computed history diff"@,
            response_json@,
        )),
        _ => (false, ok_view(action_index, Seq::empty(), Seq::empty(), Seq::empty())),
    }
}

fn ok_result(action_index: usize, kind: &str, summary: String, detail: String) -> (r: AutonomyActionExecutionResult)
    ensures
        r@ == ok_view(action_index, kind@, summary@, detail@),
{
    AutonomyActionExecutionResult::succeeded(action_index, kind, summary.as_str()).with_detail(detail)
}

fn validation_failure(action_index: usize, kind: &str, summary: String, message: &str, details: String, detail: String)
    -> (r: AutonomyActionExecutionResult)
    ensures
        r@ == failed_view(action_index, kind@, summary@, validation_error(message@, details@), Some(detail@)),
{
    AutonomyActionExecutionResult::failed(
        action_index,
        kind,
        summary.as_str(),
        AutonomyExecutionError::new(AutonomyExecutionErrorCode::ValidationFailed, message, true).with_details(details),
    ).with_detail(detail)
}

fn kind_of_call(c: &ServiceCall) -> (r: &'static str)
    ensures
        r@ == call_kind(*c),
{
    match c {
        ServiceCall::ProposeEdit { .. } => "mutate_batch",
        ServiceCall::Verify { .. } => "verify",
        ServiceCall::Compile { .. } => "compile",
        ServiceCall::Simulate { .. } => "simulate",
        ServiceCall::Overview | ServiceCall::Semantic { .. } | ServiceCall::Search { .. } => "inspect",
        _ => "history",
    }
}

fn failure_summary_of_call(c: &ServiceCall) -> (r: &'static str)
    ensures
        r@ == call_failure_summary(*c),
{
    match c {
        ServiceCall::ProposeEdit { .. } => "mutation execution failed",
        ServiceCall::Verify { .. } => "verify action failed",
        ServiceCall::Compile { .. } => "compile action failed",
        ServiceCall::Simulate { .. } => "simulate action failed",
        ServiceCall::Overview => "overview query failed",
        ServiceCall::Semantic { .. } => "semantic query failed",
        ServiceCall::Search { .. } => "search query failed",
        ServiceCall::ListHistory => "history listing failed",
        ServiceCall::ListCheckpoints => "checkpoint listing failed",
        ServiceCall::Undo => "undo failed",
        ServiceCall::Redo => "redo failed",
        ServiceCall::RestoreCheckpoint { .. } => "restore checkpoint failed",
        ServiceCall::Diff { .. } => "diff failed",
    }
}

fn dec(n: u64) -> (r: String)
    ensures
        r@ == decimal_seq(n as nat),
{
    u64_to_decimal(n)
}

fn bool_word(b: bool) -> (r: &'static str)
    ensures
        r@ == bool_text(b),
{
    if b { "true" } else { "false" }
}

/// The evidence of one executed action: from the call made and the
/// service's reply, or its error with the JSON text of the error's payload.
pub fn action_result(action_index: usize, call: &ServiceCall, reply: Result<ServiceReply, (ApiError, String)>)
    -> (r: Result<AutonomyActionExecutionResult, AutonomyActionExecutionResult>)
    requires
        reply matches Ok(rep) ==> reply_fits(*call, rep),
    ensures
        match reply {
            Err((e, payload)) => r matches Err(x) && x@ == failed_view(
                action_index,
                call_kind(*call),
                call_failure_summary(*call),
                classified(e, payload@),
                None,
            ),
            Ok(rep) => (r is Ok) == reply_result(action_index, *call, rep).0 && match r {
                Ok(x) => x@ == reply_result(action_index, *call, rep).1,
                Err(x) => x@ == reply_result(action_index, *call, rep).1,
            },
        },
{
    match reply {
        Err((e, payload)) => {
            let classified_error = classify_api_error(e, payload);
            Err(AutonomyActionExecutionResult::failed(
                action_index,
                kind_of_call(call),
                failure_summary_of_call(call),
                classified_error,
            ))
        },
        Ok(rep) => match (call, rep) {
            (ServiceCall::ProposeEdit { mutations, dry_run }, ServiceReply::Edit { response, errors_json, response_json }) => {
                if !response.valid {
                    let summary = cat3(
                        "mutation batch rejected by validator with ",
                        dec(response.errors.len() as u64).as_str(),
                        " error(s)",
                    );
                    Err(validation_failure(
                        action_index,
                        "mutate_batch",
                        summary,
                        "mutation batch rejected by service validation",
                        errors_json,
                        response_json,
                    ))
                } else {
                    let n = dec(mutations.len() as u64);
                    let summary = if *dry_run {
                        cat3("validated ", n.as_str(), " mutation(s) in dry-run mode")
                    } else {
                        cat3("applied ", n.as_str(), " mutation(s)")
                    };
                    Ok(ok_result(action_index, "mutate_batch", summary, response_json))
                }
            },
            (ServiceCall::Verify { .. }, ServiceReply::Verify { response, errors_json, response_json }) => {
                if !response.valid {
                    let summary = cat3(
                        "verification failed with ",
                        dec(response.errors.len() as u64).as_str(),
                        " error(s)",
                    );
                    Err(validation_failure(
                        action_index,
                        "verify",
                        summary,
                        "verify action reported type errors",
                        errors_json,
                        response_json,
                    ))
                } else {
                    Ok(ok_result(action_index, "verify", String::from_str("verification passed"), response_json))
                }
            },
            (ServiceCall::Compile { request }, ServiceReply::Compile { response, response_json }) => {
                let entry = match &request.entry_function {
                    Some(e) => e.clone(),
                    None => String::new(),
                };
                let mut summary = cat3("compiled `", entry.as_str(), "` (");
                summary.append(dec(response.binary_size).as_str());
                summary.append(" bytes, ");
                summary.append(dec(response.compilation_time_ms).as_str());
                summary.append(" ms)");
                Ok(ok_result(action_index, "compile", summary, response_json))
            },
            (ServiceCall::Simulate { .. }, ServiceReply::Simulate { success, error_json, response_json }) => {
                if !success {
                    Err(validation_failure(
                        action_index,
                        "simulate",
                        String::from_str("simulation reported unsuccessful status"),
                        "simulation returned success=false",
                        error_json,
                        response_json,
                    ))
                } else {
                    Ok(ok_result(action_index, "simulate", String::from_str("simulation completed"), response_json))
                }
            },
            (ServiceCall::Overview, ServiceReply::Overview { function_count, node_count, edge_count, response_json }) => {
                let mut summary = cat3("overview: ", dec(function_count as u64).as_str(), " function(s), ");
                summary.append(dec(node_count as u64).as_str());
                summary.append(" node(s), ");
                summary.append(dec(edge_count as u64).as_str());
                summary.append(" edge(s)");
                Ok(ok_result(action_index, "inspect", summary, response_json))
            },
            (ServiceCall::Semantic { .. }, ServiceReply::Semantic { node_count, edge_count, response_json }) => {
                let mut summary = cat3("semantic query returned ", dec(node_count as u64).as_str(), " node(s) and ");
                summary.append(dec(edge_count as u64).as_str());
                summary.append(" edge(s)");
                Ok(ok_result(action_index, "inspect", summary, response_json))
            },
            (ServiceCall::Search { .. }, ServiceReply::Search { total_count, response_json }) => {
                let summary = cat3("search query matched ", dec(total_count as u64).as_str(), " node(s)");
                Ok(ok_result(action_index, "inspect", summary, response_json))
            },
            (ServiceCall::ListHistory, ServiceReply::History { response, response_json }) => {
                let summary = cat3("listed ", dec(response.total as u64).as_str(), " history entrie(s)");
                Ok(ok_result(action_index, "history", summary, response_json))
            },
            (ServiceCall::ListCheckpoints, ServiceReply::Checkpoints { response, response_json }) => {
                let summary = cat3("listed ", dec(response.checkpoints.len() as u64).as_str(), " checkpoint(s)");
                Ok(ok_result(action_index, "history", summary, response_json))
            },
            (ServiceCall::Undo, ServiceReply::Undo { response, response_json }) => {
                let summary = cat("undo success=", bool_word(response.success));
                Ok(ok_result(action_index, "history", summary, response_json))
            },
            (ServiceCall::Redo, ServiceReply::Redo { response, response_json }) => {
                let summary = cat("redo success=", bool_word(response.success));
                Ok(ok_result(action_index, "history", summary, response_json))
            },
            (ServiceCall::RestoreCheckpoint { .. }, ServiceReply::Restored { response, response_json }) => {
                let summary = cat3("restored checkpoint `", response.name.as_str(), "`");
                Ok(ok_result(action_index, "history", summary, response_json))
            },
            (_, ServiceReply::Diff { response_json }) => {
                Ok(ok_result(action_index, "history", String::from_str("computed history diff"), response_json))
            },
            (_, _) => {
                assert(false);
                Err(ok_result(action_index, "", String::new(), String::new()))
            },
        },
    }
}

/// The number of succeeded results among the first `n`.
pub open spec fn succeeded_count(rs: Seq<ActionResultView>, n: nat) -> nat
    decreases n,
{
    if n == 0 {
        0
    } else {
        succeeded_count(rs, (n - 1) as nat) + if rs[n - 1].status == AutonomyActionStatus::Succeeded {
            1nat
        } else {
            0nat
        }
    }
}

/// The single attempt of an executed plan.
pub open spec fn plan_attempt(action_count: usize, results: Seq<ActionResultView>, stop: StopReasonView) -> AttemptView {
    AttemptView {
        attempt: 1,
        max_attempts: 1,
        planner_status: "accepted"@,
        action_count,
        succeeded_actions: succeeded_count(results, results.len()) as usize,
        action_results: results,
        stop_reason: Some(stop),
    }
}

/// The attempt summary of an executed plan: one attempt of one, with the
/// results so far and the stop reason.
pub fn build_attempt_summary(action_count: usize, action_results: Vec<AutonomyActionExecutionResult>, stop_reason: StopReason)
    -> (r: AutonomyExecutionAttemptSummary)
    ensures
        r@ == plan_attempt(action_count, results_view(action_results@), stop_reason@),
{
    let n = action_results.len();
    let mut succeeded: usize = 0;
    for i in 0..n
        invariant
            n == action_results@.len(),
            succeeded == succeeded_count(results_view(action_results@), i as nat),
            succeeded <= i,
    {
        assert(results_view(action_results@)[i as int] == action_results@[i as int]@);
        if action_results[i].status == AutonomyActionStatus::Succeeded {
            succeeded = succeeded + 1;
        }
    }
    AutonomyExecutionAttemptSummary {
        attempt: 1,
        max_attempts: 1,
        planner_status: String::from_str("accepted"),
        action_count,
        succeeded_actions: succeeded,
        action_results,
        stop_reason: Some(stop_reason),
    }
}

/// The outcome of a plan whose actions all succeeded.
pub fn complete_plan(goal: &str, version: &str, action_count: usize, action_results: Vec<AutonomyActionExecutionResult>)
    -> (r: AutonomyExecutionOutcome)
    ensures
        ({
            let stop = StopReasonView {
                code: StopReasonCode::Completed,
                message: "All planner actions completed."@,
                detail: None,
            };
            r@ == (OutcomeView {
                goal: goal@,
                version: version@,
                status: AutonomyExecutionStatus::Succeeded,
                attempts: seq![plan_attempt(action_count, results_view(action_results@), stop)],
                stop_reason: stop,
            })
        }),
{
    let stop_reason = StopReason::new(StopReasonCode::Completed, "All planner actions completed.");
    let attempt = build_attempt_summary(action_count, action_results, stop_reason.duplicate());
    AutonomyExecutionOutcome::from_single_attempt(goal, version, AutonomyExecutionStatus::Succeeded, attempt, stop_reason)
}

/// The stop reason of a plan stopped at a failed action: retryable or not
/// as the action's error says (not retryable without an error), with the
/// action's summary as message and `detail_json` as detail.
pub open spec fn failure_stop(last: ActionResultView, detail_json: Seq<char>) -> StopReasonView {
    StopReasonView {
        code: if last.error matches Some(e) && e.retryable {
            StopReasonCode::ActionFailedRetryable
        } else {
            StopReasonCode::ActionFailedNonRetryable
        },
        message: last.summary,
        detail: Some(detail_json),
    }
}

/// The outcome of a plan stopped at its first failed action, the last of
/// `action_results`; `detail_json` is the JSON text of that action's
/// index, kind and error.
pub fn fail_plan(
    goal: &str,
    version: &str,
    action_count: usize,
    action_results: Vec<AutonomyActionExecutionResult>,
    detail_json: String,
) -> (r: AutonomyExecutionOutcome)
    requires
        action_results@.len() > 0,
    ensures
        ({
            let rs = results_view(action_results@);
            let stop = failure_stop(rs.last(), detail_json@);
            r@ == (OutcomeView {
                goal: goal@,
                version: version@,
                status: AutonomyExecutionStatus::Failed,
                attempts: seq![plan_attempt(action_count, rs, stop)],
                stop_reason: stop,
            })
        }),
{
    let last = &action_results[action_results.len() - 1];
    assert(results_view(action_results@).last() == last@);
    let retryable = match &last.error {
        Some(e) => e.retryable,
        None => false,
    };
    let code = if retryable { StopReasonCode::ActionFailedRetryable } else { StopReasonCode::ActionFailedNonRetryable };
    let stop_reason = StopReason::new(code, last.summary.as_str()).with_detail(detail_json);
    let attempt = build_attempt_summary(action_count, action_results, stop_reason.duplicate());
    AutonomyExecutionOutcome::from_single_attempt(goal, version, AutonomyExecutionStatus::Failed, attempt, stop_reason)
}

/// A plan's execution stops at its first failed action: whatever came
/// before succeeded, and the outcome's attempt counts exactly those.
pub proof fn lemma_fail_fast_counts(results: Seq<ActionResultView>, n: nat)
    requires
        n <= results.len(),
        forall|i: int| 0 <= i < n ==> (#[trigger] results[i]).status == AutonomyActionStatus::Succeeded,
    ensures
        succeeded_count(results, n) == n,
    decreases n,
{
    if n > 0 {
        lemma_fail_fast_counts(results, (n - 1) as nat);
    }
}

} // verus!
