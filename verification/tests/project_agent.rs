use lmlang::autonomy::{
    bounded_attempt_history, AutonomyActionExecutionResult, AutonomyActionStatus, AutonomyDiagnostics,
    AutonomyDiagnosticsClass, AutonomyExecutionAttemptSummary, AutonomyExecutionError,
    AutonomyExecutionErrorCode, AutonomyExecutionOutcome, AutonomyExecutionStatus, StopReason,
    StopReasonCode,
};
use lmlang::lock_manager::AgentId;
use lmlang::project_agent::ProjectAgentManager;

fn attempt_with(results: Vec<AutonomyActionExecutionResult>, stop: Option<StopReason>) -> AutonomyExecutionAttemptSummary {
    AutonomyExecutionAttemptSummary {
        attempt: 1,
        max_attempts: 3,
        planner_status: "accepted".to_string(),
        action_count: results.len(),
        succeeded_actions: 0,
        action_results: results,
        stop_reason: stop,
    }
}

#[test]
fn execution_evidence_can_be_recorded_on_session() {
    let mut manager = ProjectAgentManager::new();
    let program_id = 42;
    let agent_id = AgentId(0x1234_5678);
    manager.assign(program_id, agent_id, Some("runner".to_string()));
    manager
        .start(program_id, agent_id, "build calculator".to_string())
        .expect("start");

    let attempt = AutonomyExecutionAttemptSummary {
        attempt: 1,
        max_attempts: 3,
        planner_status: "accepted".to_string(),
        action_count: 2,
        succeeded_actions: 1,
        action_results: vec![AutonomyActionExecutionResult::succeeded(
            0,
            "mutate_batch",
            "applied 1 mutation",
        )],
        stop_reason: None,
    };
    let session = manager
        .append_execution_attempt(program_id, agent_id, attempt)
        .expect("append attempt");
    assert_eq!(session.execution_attempts.len(), 1);
    assert!(session.stop_reason.is_none());

    let stop_reason = StopReason::new(StopReasonCode::Completed, "all actions complete");
    let outcome = AutonomyExecutionOutcome::from_single_attempt(
        "build calculator",
        "2026-02-19",
        AutonomyExecutionStatus::Succeeded,
        session.execution_attempts[0]
            .clone()
            .with_stop_reason(stop_reason.clone()),
        stop_reason,
    );
    let session = manager
        .set_execution_outcome(program_id, agent_id, outcome)
        .expect("set outcome");
    assert_eq!(
        session.stop_reason.as_ref().map(|reason| reason.code),
        Some(StopReasonCode::Completed)
    );
    assert!(session.execution.is_some());
    assert_eq!(session.execution_attempts.len(), 1);
}

#[test]
fn transcript_behavior_remains_compatible_with_execution_evidence() {
    let mut manager = ProjectAgentManager::new();
    let program_id = 7;
    let agent_id = AgentId(99);
    manager.assign(program_id, agent_id, None);

    let attempt = AutonomyExecutionAttemptSummary {
        attempt: 1,
        max_attempts: 1,
        planner_status: "accepted".to_string(),
        action_count: 1,
        succeeded_actions: 0,
        action_results: vec![AutonomyActionExecutionResult::failed(
            0,
            "verify",
            "verification failed",
            AutonomyExecutionError::new(AutonomyExecutionErrorCode::ValidationFailed, "invalid graph", true),
        )],
        stop_reason: Some(StopReason::new(StopReasonCode::VerifyFailed, "verify returned diagnostics")),
    };
    manager
        .append_execution_attempt(program_id, agent_id, attempt)
        .expect("append attempt");
    manager
        .append_message(program_id, agent_id, "assistant", "continuing autonomous loop".to_string())
        .expect("append message");

    let session = manager.get(program_id, agent_id).expect("session exists");
    assert!(session
        .transcript
        .iter()
        .any(|msg| msg.role == "assistant" && msg.content == "continuing autonomous loop"));
}

#[test]
fn verify_failure_diagnostics_are_persisted_in_session_attempts() {
    let mut manager = ProjectAgentManager::new();
    let program_id = 77;
    let agent_id = AgentId(5);
    manager.assign(program_id, agent_id, None);

    let diagnostics = AutonomyDiagnostics::new(
        AutonomyDiagnosticsClass::VerifyFailure,
        true,
        "verify gate reported 1 diagnostic(s)",
    )
    .with_messages(vec!["[TYPE_MISMATCH] type mismatch at node 3".to_string()]);
    let error = AutonomyExecutionError::new(
        AutonomyExecutionErrorCode::ValidationFailed,
        "post-execution verify failed",
        true,
    )
    .with_diagnostics(diagnostics.clone());
    let attempt = AutonomyExecutionAttemptSummary {
        attempt: 1,
        max_attempts: 3,
        planner_status: "accepted".to_string(),
        action_count: 1,
        succeeded_actions: 0,
        action_results: vec![AutonomyActionExecutionResult::failed(
            0,
            "verify_gate",
            "post-execution verify failed with 1 diagnostic(s)",
            error,
        )
        .with_diagnostics(diagnostics)],
        stop_reason: Some(StopReason::new(StopReasonCode::VerifyFailed, "post-execution verify gate failed")),
    };

    let session = manager
        .append_execution_attempt(program_id, agent_id, attempt)
        .expect("append attempt");
    let persisted = session.execution_attempts[0].action_results[0]
        .diagnostics
        .as_ref()
        .expect("verify diagnostics persisted");
    let latest = session
        .latest_execution_diagnostics()
        .expect("latest diagnostics context available");
    assert_eq!(persisted.class, AutonomyDiagnosticsClass::VerifyFailure);
    assert!(persisted.retryable);
    assert_eq!(latest.attempt, 1);
    assert_eq!(latest.action.kind, "verify_gate");
}

#[test]
fn compile_failure_diagnostics_survive_outcome_projection() {
    let mut manager = ProjectAgentManager::new();
    let program_id = 78;
    let agent_id = AgentId(6);
    manager.assign(program_id, agent_id, Some("runner".to_string()));
    manager
        .start(program_id, agent_id, "build calculator".to_string())
        .expect("start");

    let diagnostics = AutonomyDiagnostics::new(AutonomyDiagnosticsClass::CompileFailure, false, "compile action failed")
        .with_messages(vec!["bad request: unsupported opt level O9".to_string()]);
    let error = AutonomyExecutionError::new(
        AutonomyExecutionErrorCode::BadRequest,
        "bad request: invalid opt level `O9`",
        false,
    )
    .with_diagnostics(diagnostics.clone());
    let attempt = AutonomyExecutionAttemptSummary {
        attempt: 1,
        max_attempts: 3,
        planner_status: "accepted".to_string(),
        action_count: 1,
        succeeded_actions: 0,
        action_results: vec![AutonomyActionExecutionResult::failed(0, "compile", "compile action failed", error)
            .with_diagnostics(diagnostics)],
        stop_reason: Some(StopReason::new(StopReasonCode::ActionFailedNonRetryable, "compile action failed")),
    };
    let outcome = AutonomyExecutionOutcome::from_single_attempt(
        "build calculator",
        "2026-02-19",
        AutonomyExecutionStatus::Failed,
        attempt,
        StopReason::new(StopReasonCode::ActionFailedNonRetryable, "compile action failed"),
    );

    let session = manager
        .set_execution_outcome(program_id, agent_id, outcome)
        .expect("set outcome");
    let persisted = session.execution_attempts[0].action_results[0]
        .diagnostics
        .as_ref()
        .expect("compile diagnostics persisted");
    let latest = session
        .latest_execution_diagnostics()
        .expect("latest diagnostics context available");
    assert_eq!(persisted.class, AutonomyDiagnosticsClass::CompileFailure);
    assert!(!persisted.retryable);
    assert_eq!(latest.attempt, 1);
    assert_eq!(latest.action.kind, "compile");
}

#[test]
fn assign_creates_idle_session_and_reassign_renames() {
    let mut manager = ProjectAgentManager::new();
    let s = manager.assign_at(1, AgentId(2), Some("first".to_string()), 100);
    assert_eq!(s.run_status, "idle");
    assert_eq!(s.assigned_at, "100");
    assert_eq!(s.updated_at, "100");
    assert!(s.transcript.is_empty());
    manager.start_at(1, AgentId(2), "goal".to_string(), 150).unwrap();
    let s = manager.assign_at(1, AgentId(2), Some("second".to_string()), 200);
    assert_eq!(s.name.as_deref(), Some("second"));
    assert_eq!(s.assigned_at, "100");
    assert_eq!(s.updated_at, "200");
    assert_eq!(s.run_status, "running");
    assert_eq!(s.transcript.len(), 1);
}

#[test]
fn operations_on_unassigned_agent_fail() {
    let mut manager = ProjectAgentManager::new();
    manager.assign_at(1, AgentId(2), None, 10);
    let msg = "agent is not assigned to this project";
    assert_eq!(manager.start_at(1, AgentId(3), "g".to_string(), 11).unwrap_err(), msg);
    assert_eq!(manager.stop_at(2, AgentId(2), None, 11).unwrap_err(), msg);
    assert_eq!(manager.set_run_status_at(9, AgentId(2), "running", None, 11).unwrap_err(), msg);
    assert_eq!(manager.append_message_at(1, AgentId(9), "user", "x".to_string(), 11).unwrap_err(), msg);
    assert_eq!(manager.chat_at(1, AgentId(9), "x".to_string(), None, None, 11, 12).unwrap_err(), msg);
    assert!(manager.get(1, AgentId(3)).is_none());
}

#[test]
fn start_and_stop_record_transcript_notes() {
    let mut manager = ProjectAgentManager::new();
    manager.assign_at(4, AgentId(1), None, 10);
    let s = manager.start_at(4, AgentId(1), "build calculator".to_string(), 20).unwrap();
    assert_eq!(s.run_status, "running");
    assert_eq!(s.active_goal.as_deref(), Some("build calculator"));
    assert_eq!(s.started_at.as_deref(), Some("20"));
    assert_eq!(s.transcript[0].role, "system");
    assert_eq!(s.transcript[0].content, "Build started: build calculator");
    let s = manager.stop_at(4, AgentId(1), None, 30).unwrap();
    assert_eq!(s.run_status, "stopped");
    assert_eq!(s.stopped_at.as_deref(), Some("30"));
    let reason = s.stop_reason.unwrap();
    assert_eq!(reason.code, StopReasonCode::OperatorStopped);
    assert_eq!(reason.message, "no reason provided");
    assert_eq!(s.transcript[1].content, "Build stopped: no reason provided");
    assert_eq!(s.transcript[1].timestamp, "30");
}

#[test]
fn chat_replies_follow_run_state() {
    let mut manager = ProjectAgentManager::new();
    manager.assign_at(4, AgentId(1), None, 10);
    let (_, reply) = manager.chat_at(4, AgentId(1), "hi".to_string(), None, None, 11, 12).unwrap();
    assert_eq!(reply, "Agent is idle. Start a run to begin building, then continue chat for iteration.");
    manager.start_at(4, AgentId(1), "calc".to_string(), 13).unwrap();
    let (s, reply) = manager
        .chat_at(4, AgentId(1), "go".to_string(), Some("done".to_string()), None, 14, 15)
        .unwrap();
    assert_eq!(
        reply,
        "Acknowledged. Continuing work on 'calc'. Next step: inspect graph state and apply a safe mutation batch.\n\nAction result: done"
    );
    let n = s.transcript.len();
    assert_eq!(s.transcript[n - 2].role, "user");
    assert_eq!(s.transcript[n - 2].timestamp, "14");
    assert_eq!(s.transcript[n - 1].role, "assistant");
    assert_eq!(s.transcript[n - 1].content, reply);
    assert_eq!(s.updated_at, "15");
    manager.stop_at(4, AgentId(1), Some("pause".to_string()), 16).unwrap();
    let (_, reply) = manager
        .chat_at(4, AgentId(1), "more".to_string(), Some("note".to_string()), Some("custom".to_string()), 17, 18)
        .unwrap();
    assert_eq!(reply, "custom");
    let (_, reply) = manager.chat_at(4, AgentId(1), "more".to_string(), None, None, 19, 20).unwrap();
    assert_eq!(reply, "Agent is stopped. Start the build run before requesting new work.");
}

#[test]
fn set_run_status_running_clears_stop() {
    let mut manager = ProjectAgentManager::new();
    manager.assign_at(4, AgentId(1), None, 10);
    manager.stop_at(4, AgentId(1), Some("x".to_string()), 11).unwrap();
    let s = manager
        .set_run_status_at(4, AgentId(1), "running", Some("resumed".to_string()), 12)
        .unwrap();
    assert!(s.stopped_at.is_none());
    assert!(s.stop_reason.is_none());
    assert_eq!(s.started_at.as_deref(), Some("12"));
    assert_eq!(s.transcript.last().unwrap().content, "resumed");
    let s = manager.set_run_status_at(4, AgentId(1), "idle", None, 13).unwrap();
    assert_eq!(s.run_status, "idle");
    assert_eq!(s.started_at.as_deref(), Some("12"));
    assert_eq!(s.transcript.len(), 2);
}

#[test]
fn attempt_and_outcome_notes_are_exact() {
    let mut manager = ProjectAgentManager::new();
    manager.assign_at(4, AgentId(1), None, 10);
    let mut attempt = attempt_with(vec![], None);
    attempt.attempt = 2;
    attempt.action_count = 5;
    attempt.succeeded_actions = 4;
    let s = manager.append_execution_attempt_at(4, AgentId(1), attempt.clone(), 11).unwrap();
    assert_eq!(
        s.transcript.last().unwrap().content,
        "Execution attempt 2/3 recorded (5 action(s), 4 succeeded)."
    );
    let outcome = AutonomyExecutionOutcome::from_single_attempt(
        "g",
        "v",
        AutonomyExecutionStatus::Failed,
        attempt,
        StopReason::new(StopReasonCode::RetryBudgetExhausted, "out of retries"),
    );
    let s = manager.set_execution_outcome_at(4, AgentId(1), outcome, 12).unwrap();
    assert_eq!(
        s.transcript.last().unwrap().content,
        "Autonomous execution Failed: [retry_budget_exhausted] out of retries"
    );
    assert_eq!(s.run_status, "stopped");
    assert_eq!(s.stopped_at.as_deref(), Some("12"));
}

#[test]
fn list_for_program_orders_by_update_time_descending() {
    let mut manager = ProjectAgentManager::new();
    manager.assign_at(1, AgentId(10), None, 300);
    manager.assign_at(2, AgentId(11), None, 999);
    manager.assign_at(1, AgentId(12), None, 500);
    manager.assign_at(1, AgentId(13), None, 300);
    let list = manager.list_for_program(1);
    let ids: Vec<u128> = list.iter().map(|s| s.agent_id.0).collect();
    assert_eq!(ids, vec![12, 13, 10]);
    assert!(manager.list_for_program(3).is_empty());
}

#[test]
fn latest_diagnostics_prefers_own_then_error_diagnostics() {
    let d1 = AutonomyDiagnostics::new(AutonomyDiagnosticsClass::ActionFailure, false, "one");
    let d2 = AutonomyDiagnostics::new(AutonomyDiagnosticsClass::CompileFailure, true, "two");
    let err = AutonomyExecutionError::new(AutonomyExecutionErrorCode::Conflict, "e", false).with_diagnostics(d2);
    let a0 = AutonomyActionExecutionResult::succeeded(0, "a", "s").with_diagnostics(d1);
    let a1 = AutonomyActionExecutionResult::failed(1, "b", "f", err);
    let a2 = AutonomyActionExecutionResult::succeeded(2, "c", "s");
    let att = attempt_with(vec![a0.clone(), a1, a2], None);
    assert_eq!(att.latest_diagnostics().unwrap().summary, "two");
    let att = attempt_with(vec![a0], None);
    assert_eq!(att.latest_diagnostics().unwrap().summary, "one");
    let att = attempt_with(vec![], None);
    assert!(att.latest_diagnostics().is_none());
}

#[test]
fn terminal_stop_reason_falls_back() {
    let fallback = StopReason::new(StopReasonCode::Completed, "done");
    let att = attempt_with(vec![], None);
    assert_eq!(att.terminal_stop_reason(Some(&fallback)).unwrap().message, "done");
    let att = att.with_stop_reason(StopReason::new(StopReasonCode::VerifyFailed, "own"));
    assert_eq!(att.terminal_stop_reason(Some(&fallback)).unwrap().message, "own");
}

#[test]
fn bounded_history_keeps_most_recent() {
    let mut atts = Vec::new();
    for i in 0..5u32 {
        let mut a = attempt_with(vec![], None);
        a.attempt = i;
        atts.push(a);
    }
    let tail = bounded_attempt_history(&atts, 2);
    assert_eq!(tail.len(), 2);
    assert_eq!(tail[0].attempt, 3);
    assert_eq!(bounded_attempt_history(&atts, 10).len(), 5);
    assert_eq!(bounded_attempt_history(&atts, 0).len(), 0);
}

#[test]
fn stop_reason_codes_have_wire_names() {
    assert_eq!(StopReasonCode::Completed.as_str(), "completed");
    assert_eq!(
        StopReasonCode::PlannerRejectedRetryBudgetExhausted.as_str(),
        "planner_rejected_retry_budget_exhausted"
    );
    assert_eq!(StopReasonCode::OperatorStopped.as_str(), "operator_stopped");
    assert_eq!(AutonomyActionExecutionResult::succeeded(0, "k", "s").status, AutonomyActionStatus::Succeeded);
}

#[test]
fn latest_execution_diagnostics_skips_successes_and_evidence_free_failures() {
    let mut manager = ProjectAgentManager::new();
    manager.assign_at(1, AgentId(1), None, 1);
    let mut bare_failure = AutonomyActionExecutionResult::succeeded(0, "bare", "s");
    bare_failure.status = AutonomyActionStatus::Failed;
    let with_err = AutonomyActionExecutionResult::failed(
        1,
        "witherr",
        "f",
        AutonomyExecutionError::new(AutonomyExecutionErrorCode::NotFound, "nf", false),
    );
    let mut first = attempt_with(vec![with_err, bare_failure.clone()], None);
    first.attempt = 1;
    let mut second = attempt_with(vec![bare_failure], None);
    second.attempt = 2;
    manager.append_execution_attempt_at(1, AgentId(1), first, 2).unwrap();
    let s = manager.append_execution_attempt_at(1, AgentId(1), second, 3).unwrap();
    let ctx = s.latest_execution_diagnostics().unwrap();
    assert_eq!(ctx.attempt, 1);
    assert_eq!(ctx.action.kind, "witherr");
    let s = manager.start_at(1, AgentId(1), "again".to_string(), 4).unwrap();
    assert!(s.latest_execution_diagnostics().is_none());
}
