use lmlang::api_error::{classify_api_error, core_error_message, ApiError};
use lmlang::autonomy::{AutonomyActionStatus, AutonomyExecutionErrorCode, AutonomyExecutionStatus, StopReasonCode};
use lmlang::error::CoreError;
use lmlang::executor::{
    action_result, build_attempt_summary, complete_plan, fail_plan, invalid_payload_result, plan_action_call,
    ServiceCall, ServiceReply,
};
use lmlang::ids::{FunctionId, NodeId};
use lmlang::lock_manager::{AgentId, LockDenial, LockError};
use lmlang::planner::{
    AutonomyPlanAction, AutonomyPlanCompileRequest, AutonomyPlanHistoryOperation, AutonomyPlanHistoryRequest,
    AutonomyPlanInspectRequest, AutonomyPlanMutationRequest, AutonomyPlanSimulateRequest, AutonomyPlanVerifyRequest,
    VerifyScope,
};
use lmlang::schema::{
    CompileResponse, DiagnosticError, ListHistoryResponse, ProposeEditResponse, RestoreCheckpointResponse,
    UndoResponse,
};
use lmlang::verify_scope::find_verification_scope;

fn inspect(query: Option<&str>, max: Option<usize>) -> AutonomyPlanAction {
    AutonomyPlanAction::Inspect {
        request: AutonomyPlanInspectRequest { query: query.map(|q| q.to_string()), max_results: max },
        rationale: None,
    }
}

fn history(op: Option<AutonomyPlanHistoryOperation>, checkpoint: Option<&str>) -> AutonomyPlanAction {
    AutonomyPlanAction::History {
        request: AutonomyPlanHistoryRequest {
            operation: op,
            checkpoint: checkpoint.map(|c| c.to_string()),
            from_checkpoint: None,
            to_checkpoint: None,
            limit: None,
        },
        rationale: None,
    }
}

#[test]
fn mutate_batch_empty_mutations_is_invalid_payload() {
    let action = AutonomyPlanAction::MutateBatch {
        request: AutonomyPlanMutationRequest { mutations: vec![], dry_run: false },
        rationale: None,
    };
    let err = plan_action_call(0, action).unwrap_err();
    assert_eq!(err.status, AutonomyActionStatus::Failed);
    assert_eq!(err.kind, "mutate_batch");
    let e = err.error.unwrap();
    assert_eq!(e.code, AutonomyExecutionErrorCode::InvalidActionPayload);
    assert!(!e.retryable);
    assert_eq!(e.message, "mutate_batch request requires at least one mutation");
}

#[test]
fn verify_without_scope_is_invalid_payload() {
    let action = AutonomyPlanAction::Verify { request: AutonomyPlanVerifyRequest { scope: None }, rationale: None };
    let err = plan_action_call(1, action).unwrap_err();
    assert_eq!(err.action_index, 1);
    assert_eq!(err.error.unwrap().message, "verify request requires `scope`");
    let ok = plan_action_call(
        1,
        AutonomyPlanAction::Verify { request: AutonomyPlanVerifyRequest { scope: Some(VerifyScope::Local) }, rationale: None },
    );
    assert_eq!(ok.unwrap(), ServiceCall::Verify { scope: VerifyScope::Local });
}

#[test]
fn simulate_without_function_id_is_invalid_payload() {
    let action = AutonomyPlanAction::Simulate {
        request: AutonomyPlanSimulateRequest { function_id: None, inputs: vec![], trace_enabled: None },
        rationale: None,
    };
    let err = plan_action_call(0, action).unwrap_err();
    assert_eq!(err.error.unwrap().code, AutonomyExecutionErrorCode::InvalidActionPayload);
}

#[test]
fn compile_requires_nonblank_entry_function() {
    let mk = |entry: Option<&str>| AutonomyPlanAction::Compile {
        request: AutonomyPlanCompileRequest {
            opt_level: "O1".to_string(),
            target_triple: None,
            debug_symbols: false,
            entry_function: entry.map(|e| e.to_string()),
            output_dir: None,
        },
        rationale: None,
    };
    assert_eq!(
        plan_action_call(0, mk(None)).unwrap_err().summary,
        "compile request requires `entry_function`"
    );
    assert_eq!(
        plan_action_call(0, mk(Some("   "))).unwrap_err().summary,
        "compile request `entry_function` must not be empty"
    );
    match plan_action_call(0, mk(Some("main"))).unwrap() {
        ServiceCall::Compile { request } => {
            assert_eq!(request.entry_function.as_deref(), Some("main"));
            assert_eq!(request.opt_level, "O1");
        }
        other => panic!("unexpected {:?}", other),
    }
}

#[test]
fn inspect_zero_max_results_is_invalid_payload() {
    let err = plan_action_call(0, inspect(Some("search:return"), Some(0))).unwrap_err();
    assert_eq!(
        err.error.unwrap().message,
        "inspect request `max_results` must be greater than 0 when provided"
    );
}

#[test]
fn inspect_queries_route_to_service_calls() {
    assert_eq!(plan_action_call(0, inspect(None, None)).unwrap(), ServiceCall::Overview);
    assert_eq!(plan_action_call(0, inspect(Some("  overview "), None)).unwrap(), ServiceCall::Overview);
    assert_eq!(plan_action_call(0, inspect(Some("   "), None)).unwrap(), ServiceCall::Overview);
    assert_eq!(
        plan_action_call(0, inspect(Some("semantic with_embeddings"), None)).unwrap(),
        ServiceCall::Semantic { include_embeddings: true }
    );
    assert_eq!(
        plan_action_call(0, inspect(Some("semantic"), None)).unwrap(),
        ServiceCall::Semantic { include_embeddings: false }
    );
    assert_eq!(
        plan_action_call(0, inspect(Some("search: Return "), Some(3))).unwrap(),
        ServiceCall::Search { filter: "Return".to_string(), max_results: Some(3) }
    );
    assert_eq!(
        plan_action_call(0, inspect(Some("search:  "), None)).unwrap(),
        ServiceCall::Search { filter: "search:".to_string(), max_results: None }
    );
    assert_eq!(
        plan_action_call(0, inspect(Some("Add"), None)).unwrap(),
        ServiceCall::Search { filter: "Add".to_string(), max_results: None }
    );
}

#[test]
fn history_without_operation_is_invalid_payload() {
    let err = plan_action_call(0, history(None, None)).unwrap_err();
    assert_eq!(err.error.unwrap().message, "history request requires `operation`");
    let err = plan_action_call(0, history(Some(AutonomyPlanHistoryOperation::RestoreCheckpoint), Some("  "))).unwrap_err();
    assert_eq!(err.summary, "history restore operation requires `checkpoint`");
    assert_eq!(
        plan_action_call(0, history(Some(AutonomyPlanHistoryOperation::RestoreCheckpoint), Some(" cp1 "))).unwrap(),
        ServiceCall::RestoreCheckpoint { checkpoint: "cp1".to_string() }
    );
    let err = plan_action_call(0, history(Some(AutonomyPlanHistoryOperation::Diff), None)).unwrap_err();
    assert_eq!(err.summary, "history diff operation requires at least one checkpoint reference");
    assert_eq!(plan_action_call(0, history(Some(AutonomyPlanHistoryOperation::Undo), None)).unwrap(), ServiceCall::Undo);
}

#[test]
fn replies_become_evidence() {
    let call = ServiceCall::ProposeEdit { mutations: vec!["{}".to_string()], dry_run: true };
    let ok = action_result(
        2,
        &call,
        Ok(ServiceReply::Edit {
            response: ProposeEditResponse { valid: true, created: vec![], errors: vec![], warnings: vec![], committed: false },
            errors_json: "[]".to_string(),
            response_json: "{}".to_string(),
        }),
    )
    .unwrap();
    assert_eq!(ok.summary, "validated 1 mutation(s) in dry-run mode");
    assert_eq!(ok.detail.as_deref(), Some("{}"));
    let bad = action_result(
        2,
        &call,
        Ok(ServiceReply::Edit {
            response: ProposeEditResponse {
                valid: false,
                created: vec![],
                errors: vec![DiagnosticError { code: "X".to_string(), message: "m".to_string(), details: None }],
                warnings: vec![],
                committed: false,
            },
            errors_json: "[1]".to_string(),
            response_json: "{}".to_string(),
        }),
    )
    .unwrap_err();
    assert_eq!(bad.summary, "mutation batch rejected by validator with 1 error(s)");
    let e = bad.error.unwrap();
    assert_eq!(e.message, "mutation batch rejected by service validation");
    assert_eq!(e.details.as_deref(), Some("[1]"));
    assert!(e.retryable);

    let compile = ServiceCall::Compile {
        request: lmlang::schema::CompileRequest {
            opt_level: "O0".to_string(),
            target_triple: None,
            debug_symbols: false,
            entry_function: Some("main".to_string()),
            output_dir: None,
        },
    };
    let ok = action_result(
        0,
        &compile,
        Ok(ServiceReply::Compile {
            response: CompileResponse {
                binary_path: "a".to_string(),
                target_triple: "t".to_string(),
                binary_size: 2048,
                compilation_time_ms: 15,
            },
            response_json: "{}".to_string(),
        }),
    )
    .unwrap();
    assert_eq!(ok.summary, "compiled `main` (2048 bytes, 15 ms)");

    let r = action_result(
        0,
        &ServiceCall::ListHistory,
        Ok(ServiceReply::History { response: ListHistoryResponse { entries: vec![], total: 4 }, response_json: "{}".to_string() }),
    )
    .unwrap();
    assert_eq!(r.summary, "listed 4 history entrie(s)");
    let r = action_result(
        0,
        &ServiceCall::Undo,
        Ok(ServiceReply::Undo { response: UndoResponse { success: false, restored_edit: None }, response_json: "{}".to_string() }),
    )
    .unwrap();
    assert_eq!(r.summary, "undo success=false");
    let r = action_result(
        0,
        &ServiceCall::RestoreCheckpoint { checkpoint: "cp".to_string() },
        Ok(ServiceReply::Restored {
            response: RestoreCheckpointResponse { success: true, name: "cp".to_string() },
            response_json: "{}".to_string(),
        }),
    )
    .unwrap();
    assert_eq!(r.summary, "restored checkpoint `cp`");
    let r = action_result(
        0,
        &ServiceCall::Overview,
        Ok(ServiceReply::Overview { function_count: 1, node_count: 2, edge_count: 3, response_json: "{}".to_string() }),
    )
    .unwrap();
    assert_eq!(r.summary, "overview: 1 function(s), 2 node(s), 3 edge(s)");
}

#[test]
fn compile_action_failure_is_classified() {
    let compile = ServiceCall::Compile {
        request: lmlang::schema::CompileRequest {
            opt_level: "O0".to_string(),
            target_triple: None,
            debug_symbols: false,
            entry_function: Some("missing_entry".to_string()),
            output_dir: None,
        },
    };
    let err = action_result(
        0,
        &compile,
        Err((ApiError::NotFound("function 'missing_entry' not found".to_string()), String::new())),
    )
    .unwrap_err();
    assert_eq!(err.summary, "compile action failed");
    let e = err.error.unwrap();
    assert_eq!(e.code, AutonomyExecutionErrorCode::NotFound);
    assert!(e.retryable);
}

#[test]
fn api_errors_classify_and_render() {
    let e = classify_api_error(ApiError::BadRequest("bad".to_string()), String::new());
    assert_eq!(e.code, AutonomyExecutionErrorCode::BadRequest);
    assert!(!e.retryable);
    let e = classify_api_error(
        ApiError::ValidationFailed(vec![DiagnosticError { code: "A".to_string(), message: "b".to_string(), details: None }]),
        "[x]".to_string(),
    );
    assert_eq!(e.message, "validation failed with 1 error(s)");
    assert_eq!(e.details.as_deref(), Some("[x]"));
    let denial = LockDenial {
        function_id: FunctionId(7),
        holder_agent_id: AgentId(1),
        holder_name: None,
        holder_description: None,
        queue_position: 1,
    };
    let e = classify_api_error(ApiError::LockDenied(denial.clone()), "{}".to_string());
    assert_eq!(e.message, "lock denied while executing action");
    let (status, code, message) = ApiError::LockDenied(denial).response_parts();
    assert_eq!((status, code, message.as_str()), (423, "LOCK_DENIED", "function 7 is locked by another agent"));
    let (status, code, _) = ApiError::TooManyRetries("x".to_string()).response_parts();
    assert_eq!((status, code), (429, "TOO_MANY_RETRIES"));
    assert_eq!(ApiError::Conflict("dup".to_string()).to_string(), "conflict: dup");
}

#[test]
fn lock_and_core_errors_translate() {
    let agent = AgentId(0x0123_4567_89ab_cdef_0011_2233_4455_6677);
    assert_eq!(agent.to_string(), "01234567-89ab-cdef-0011-223344556677");
    match ApiError::from_lock_error(LockError::NotHeld { function_id: FunctionId(3), agent_id: agent }) {
        ApiError::BadRequest(m) => assert_eq!(
            m,
            "agent 01234567-89ab-cdef-0011-223344556677 does not hold lock on function 3"
        ),
        other => panic!("unexpected {:?}", other),
    }
    match ApiError::from_lock_error(LockError::FunctionNotFound(FunctionId(9))) {
        ApiError::NotFound(m) => assert_eq!(m, "function 9 not found"),
        other => panic!("unexpected {:?}", other),
    }
    let core = CoreError::NodeNotFound { id: NodeId(5) };
    assert_eq!(core_error_message(&core), "node not found: NodeId(5)");
    match ApiError::from_core_error(&core) {
        ApiError::NotFound(m) => assert_eq!(m, "node not found: NodeId(5)"),
        other => panic!("unexpected {:?}", other),
    }
    match ApiError::from_core_error(&CoreError::DuplicateTypeName { name: "Foo".to_string() }) {
        ApiError::Conflict(m) => assert_eq!(m, "duplicate type name: 'Foo'"),
        other => panic!("unexpected {:?}", other),
    }
}

#[test]
fn plans_complete_or_fail_fast() {
    let ok = lmlang::autonomy::AutonomyActionExecutionResult::succeeded(0, "verify", "verification passed");
    let outcome = complete_plan("goal", "2026-02-19", 1, vec![ok.clone()]);
    assert_eq!(outcome.status, AutonomyExecutionStatus::Succeeded);
    assert_eq!(outcome.stop_reason.code, StopReasonCode::Completed);
    assert_eq!(outcome.stop_reason.message, "All planner actions completed.");
    assert_eq!(outcome.attempts[0].succeeded_actions, 1);
    assert_eq!(outcome.attempts[0].planner_status, "accepted");

    let bad = invalid_payload_result(1, "verify", "verify request requires `scope`");
    let outcome = fail_plan("goal", "v", 3, vec![ok, bad], "{\"action_index\":1}".to_string());
    assert_eq!(outcome.status, AutonomyExecutionStatus::Failed);
    assert_eq!(outcome.stop_reason.code, StopReasonCode::ActionFailedNonRetryable);
    assert_eq!(outcome.stop_reason.message, "verify request requires `scope`");
    assert_eq!(outcome.attempts[0].action_count, 3);
    assert_eq!(outcome.attempts[0].succeeded_actions, 1);
    assert_eq!(outcome.attempts[0].action_results.len(), 2);

    let summary = build_attempt_summary(0, vec![], lmlang::autonomy::StopReason::new(StopReasonCode::Completed, "x"));
    assert_eq!(summary.succeeded_actions, 0);
    assert_eq!(summary.max_attempts, 1);
}

#[test]
fn verification_scope_adds_transitive_callers() {
    let calls = vec![
        (FunctionId(1), vec![FunctionId(2)]),
        (FunctionId(2), vec![FunctionId(3)]),
        (FunctionId(4), vec![FunctionId(5)]),
        (FunctionId(6), vec![FunctionId(3), FunctionId(5)]),
    ];
    let scope = find_verification_scope(&calls, &[FunctionId(3)]);
    assert_eq!(scope, vec![FunctionId(1), FunctionId(2), FunctionId(3), FunctionId(6)]);
    let scope = find_verification_scope(&calls, &[FunctionId(5), FunctionId(5)]);
    assert_eq!(scope, vec![FunctionId(4), FunctionId(5), FunctionId(6)]);
    assert!(find_verification_scope(&calls, &[]).is_empty());
    let cyclic = vec![(FunctionId(1), vec![FunctionId(2)]), (FunctionId(2), vec![FunctionId(1)])];
    assert_eq!(find_verification_scope(&cyclic, &[FunctionId(2)]), vec![FunctionId(1), FunctionId(2)]);
}
