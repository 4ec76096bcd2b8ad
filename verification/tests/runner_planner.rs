use lmlang::ids::FunctionId;
use lmlang::lock_manager::AgentId;
use lmlang::planner::{
    accepted_step_summary, build_planner_prompt, planner_programming_guide, default_compile_opt_level, default_plan_contract_version, planner_provider_failed,
    planner_rejected_from_failure, planner_unconfigured, rejected_step_reason, summarize_action, summarize_actions,
    AutonomyPlanAction, AutonomyPlanCompileRequest, AutonomyPlanFailure, AutonomyPlanFailureCode,
    AutonomyPlanHistoryOperation, AutonomyPlanHistoryRequest, AutonomyPlanInspectRequest,
    AutonomyPlanMutationRequest, AutonomyPlanSimulateRequest, AutonomyPlanVerifyRequest, PlannerAccepted,
    PlannerActionSummary, PlannerOutcome, VerifyScope, AUTONOMY_PLAN_CONTRACT_V1,
};
use lmlang::project_agent::ProjectAgentManager;
use lmlang::runner::{
    command_event, decide_before_planner, deterministic_hello_world_step, next_loop_state, planner_decision,
    planner_transcript, session_keeps_running, StepDecision, StepEvent,
};

fn session_with(messages: &[&str]) -> lmlang::project_agent::ProjectAgentSession {
    let mut m = ProjectAgentManager::new();
    m.assign_at(1, AgentId(1), None, 1);
    let mut s = m.get(1, AgentId(1)).unwrap();
    for (i, text) in messages.iter().enumerate() {
        s = m
            .append_message_at(1, AgentId(1), "system", text.to_string(), 2 + i as u64)
            .unwrap();
    }
    s
}

#[test]
fn hello_world_goal_walks_scaffold_compile_run_done() {
    let goal = "Bootstrap Hello World and run it";
    let s = session_with(&[]);
    assert_eq!(
        deterministic_hello_world_step(goal, &s),
        Some(StepDecision::Command("create hello world program".to_string()))
    );
    let s = session_with(&["Hello World scaffold ready"]);
    assert_eq!(
        deterministic_hello_world_step(goal, &s),
        Some(StepDecision::Command("compile program".to_string()))
    );
    let s = session_with(&["hello world scaffold ready", "Compiled hello_world ok"]);
    assert_eq!(
        deterministic_hello_world_step(goal, &s),
        Some(StepDecision::Command("run program".to_string()))
    );
    let s = session_with(&["hello world scaffold ready", "compiled hello_world", "Program executed: 0"]);
    assert_eq!(deterministic_hello_world_step(goal, &s), Some(StepDecision::Done));
}

#[test]
fn hello_world_step_ignores_other_goals_and_plain_goals_finish_after_scaffold() {
    let s = session_with(&["hello world scaffold ready"]);
    assert_eq!(deterministic_hello_world_step("build a calculator", &s), None);
    assert_eq!(deterministic_hello_world_step("hello world", &s), Some(StepDecision::Done));
    assert_eq!(
        deterministic_hello_world_step("compile hello world", &s),
        Some(StepDecision::Command("compile program".to_string()))
    );
}

#[test]
fn marks_do_not_match_across_messages() {
    let s = session_with(&["hello world", "scaffold ready"]);
    assert_eq!(
        deterministic_hello_world_step("hello world", &s),
        Some(StepDecision::Command("create hello world program".to_string()))
    );
}

#[test]
fn decide_before_planner_falls_back_to_noop() {
    let s = session_with(&[]);
    assert_eq!(decide_before_planner("calc", &s, None), Some(StepDecision::Noop));
    assert_eq!(decide_before_planner("calc", &s, Some(false)), Some(StepDecision::Noop));
    assert_eq!(decide_before_planner("calc", &s, Some(true)), None);
    assert_eq!(
        decide_before_planner("hello world", &s, Some(true)),
        Some(StepDecision::Command("create hello world program".to_string()))
    );
}

#[test]
fn loop_stops_after_third_failure() {
    let fail = |n: u8| {
        next_loop_state(
            n,
            StepEvent::CommandFailed { command: "compile program".to_string(), error: "boom".to_string() },
        )
    };
    let (f, e) = fail(0);
    assert_eq!(f, 1);
    assert!(!e.exit);
    assert_eq!(
        e.message,
        Some(("system".to_string(), "Autonomous step `compile program` failed: boom".to_string()))
    );
    let (f, e) = fail(1);
    assert_eq!(f, 2);
    assert!(!e.exit);
    let (f, e) = fail(2);
    assert_eq!(f, 3);
    assert!(e.exit);
    assert_eq!(
        e.status,
        Some(("stopped".to_string(), "Autonomous loop stopped after repeated failures.".to_string()))
    );
    let (f, _) = fail(255);
    assert_eq!(f, 255);
}

#[test]
fn loop_step_messages_are_exact() {
    let (f, e) = next_loop_state(
        2,
        StepEvent::CommandCompleted { command: "run program".to_string(), summary: "ok".to_string() },
    );
    assert_eq!(f, 0);
    assert_eq!(
        e.message,
        Some(("assistant".to_string(), "Autonomous step `run program` complete. ok".to_string()))
    );
    let (f, e) = next_loop_state(1, StepEvent::CommandUnmapped { command: "dance".to_string() });
    assert_eq!(f, 1);
    assert_eq!(
        e.message.unwrap().1,
        "Autonomous step skipped: command `dance` did not map to an action."
    );
    let (_, e) = next_loop_state(0, StepEvent::PlannerAccepted { summary: "2 action(s)".to_string() });
    assert!(e.exit);
    assert_eq!(e.status.unwrap().0, "idle");
    let (f, e) = next_loop_state(2, StepEvent::PlannerRejected { reason: "[x] y".to_string() });
    assert_eq!(f, 3);
    assert_eq!(
        e.status.unwrap().1,
        "Autonomous loop stopped after repeated planner rejections."
    );
    let (_, e) = next_loop_state(0, StepEvent::Done);
    assert_eq!(e.status.unwrap().1, "Autonomous run reached done state.");
    let (f, e) = next_loop_state(1, StepEvent::Noop);
    assert_eq!(f, 1);
    assert!(e.message.is_none() && e.status.is_none() && !e.exit);
}

#[test]
fn command_event_maps_outcomes() {
    assert_eq!(
        command_event("c".to_string(), Ok(None)),
        StepEvent::CommandUnmapped { command: "c".to_string() }
    );
    assert_eq!(
        command_event("c".to_string(), Err("e".to_string())),
        StepEvent::CommandFailed { command: "c".to_string(), error: "e".to_string() }
    );
}

#[test]
fn session_keeps_running_only_when_running() {
    let mut m = ProjectAgentManager::new();
    m.assign_at(1, AgentId(1), None, 1);
    let s = m.get(1, AgentId(1)).unwrap();
    assert!(!session_keeps_running(Some(&s)));
    let s = m.start_at(1, AgentId(1), "g".to_string(), 2).unwrap();
    assert!(session_keeps_running(Some(&s)));
    assert!(!session_keeps_running(None));
}

#[test]
fn planner_transcript_keeps_last_eight() {
    let texts: Vec<String> = (0..10).map(|i| format!("m{}", i)).collect();
    let refs: Vec<&str> = texts.iter().map(|s| s.as_str()).collect();
    let s = session_with(&refs);
    let t = planner_transcript(&s);
    assert_eq!(t.len(), 8);
    assert_eq!(t[0], "system: m2");
    assert_eq!(t[7], "system: m9");
}

#[test]
fn action_summaries_are_exact() {
    let mutate = AutonomyPlanAction::MutateBatch {
        request: AutonomyPlanMutationRequest { mutations: vec!["{}".to_string(), "{}".to_string()], dry_run: false },
        rationale: None,
    };
    let verify = AutonomyPlanAction::Verify { request: AutonomyPlanVerifyRequest { scope: Some(VerifyScope::Full) }, rationale: None };
    let compile = AutonomyPlanAction::Compile {
        request: AutonomyPlanCompileRequest {
            opt_level: default_compile_opt_level(),
            target_triple: None,
            debug_symbols: false,
            entry_function: None,
            output_dir: None,
        },
        rationale: None,
    };
    let simulate = AutonomyPlanAction::Simulate {
        request: AutonomyPlanSimulateRequest { function_id: Some(FunctionId(4)), inputs: vec!["1".to_string()], trace_enabled: None },
        rationale: None,
    };
    let inspect = AutonomyPlanAction::Inspect {
        request: AutonomyPlanInspectRequest { query: Some("overview".to_string()), max_results: None },
        rationale: None,
    };
    let history = AutonomyPlanAction::History {
        request: AutonomyPlanHistoryRequest {
            operation: Some(AutonomyPlanHistoryOperation::ListEntries),
            checkpoint: None,
            from_checkpoint: None,
            to_checkpoint: None,
            limit: None,
        },
        rationale: None,
    };
    let all = summarize_actions(&[mutate, verify, compile, simulate, inspect, history]);
    let got: Vec<(String, String)> = all.into_iter().map(|a| (a.kind, a.summary)).collect();
    assert_eq!(got[0], ("mutate_batch".to_string(), "2 mutation(s), dry_run=false".to_string()));
    assert_eq!(got[1], ("verify".to_string(), "scope=Some(Full)".to_string()));
    assert_eq!(got[2], ("compile".to_string(), "entry_function=<none>, opt_level=O0".to_string()));
    assert_eq!(got[3], ("simulate".to_string(), "function_id=4, inputs=1".to_string()));
    assert_eq!(got[4], ("inspect".to_string(), "query='overview', max_results=<default>".to_string()));
    assert_eq!(got[5], ("history".to_string(), "operation=Some(ListEntries)".to_string()));
    let v = summarize_action(&AutonomyPlanAction::Verify { request: AutonomyPlanVerifyRequest { scope: None }, rationale: None });
    assert_eq!(v.summary, "scope=None");
}

#[test]
fn planner_outcomes_render_for_the_loop() {
    let accepted = PlannerAccepted {
        version: default_plan_contract_version(),
        goal: "calc".to_string(),
        action_count: 2,
        actions: vec![
            PlannerActionSummary { kind: "verify".to_string(), summary: "scope=Some(Full)".to_string() },
            PlannerActionSummary { kind: "compile".to_string(), summary: "x".to_string() },
        ],
    };
    assert_eq!(
        accepted_step_summary(&accepted),
        "2 action(s) validated for 'calc': verify (scope=Some(Full)); compile (x)"
    );
    let outcome = PlannerOutcome::Accepted(accepted);
    assert_eq!(outcome.status(), "accepted");
    match planner_decision(&outcome) {
        StepDecision::PlannerAccepted(s) => assert!(s.starts_with("2 action(s)")),
        other => panic!("unexpected {:?}", other),
    }
    let failure = AutonomyPlanFailure {
        code: AutonomyPlanFailureCode::UnsupportedGoal,
        message: "goal requires unavailable runtime".to_string(),
        detail: None,
        retryable: false,
    };
    let rejected = planner_rejected_from_failure(&failure, Some(AUTONOMY_PLAN_CONTRACT_V1.to_string()));
    assert_eq!(rejected.status(), "failed");
    match &rejected {
        PlannerOutcome::Rejected(x) => {
            assert_eq!(x.code, "unsupported_goal");
            assert_eq!(rejected_step_reason(x), "[unsupported_goal] goal requires unavailable runtime");
            assert_eq!(x.version.as_deref(), Some("2026-02-19"));
        }
        _ => panic!("expected rejection"),
    }
    match planner_unconfigured() {
        PlannerOutcome::Rejected(x) => assert_eq!(x.code, "planner_unconfigured"),
        _ => panic!("expected rejection"),
    }
    match planner_provider_failed("timeout") {
        PlannerOutcome::Rejected(x) => {
            assert_eq!(x.message, "Planner provider request failed: timeout");
            assert!(x.retryable);
        }
        _ => panic!("expected rejection"),
    }
}

#[test]
fn build_planner_prompt_omits_diagnostics_for_first_attempt() {
    let prompt = build_planner_prompt(
        "build calculator",
        &[String::from("user: create calculator")],
        None,
    );
    assert!(!prompt.contains("Latest execution diagnostics"));
    assert!(!prompt.contains("targeted repair actions before unrelated changes"));
    assert!(prompt.contains("Program-authoring guide"));
    assert!(prompt.contains("AddFunction"));
    assert!(prompt.contains("TypeId map"));
}

#[test]
fn build_planner_prompt_includes_diagnostics_for_retries() {
    let mut context = serde_json::Map::new();
    context.insert("attempt".to_string(), serde_json::Value::from(2));
    context.insert("max_attempts".to_string(), serde_json::Value::from(3));
    context.insert("action_kind".to_string(), serde_json::Value::from("compile"));
    context.insert("error_class".to_string(), serde_json::Value::from("compile_failure"));
    context.insert("retryable".to_string(), serde_json::Value::from(true));
    context.insert("summary".to_string(), serde_json::Value::from("compile action failed"));
    context.insert(
        "key_diagnostics".to_string(),
        serde_json::Value::from(vec!["bad request: invalid opt level O9"]),
    );
    context.insert(
        "stop_reason_code".to_string(),
        serde_json::Value::from("action_failed_retryable"),
    );
    let raw = serde_json::to_string_pretty(&serde_json::Value::Object(context)).unwrap();
    let prompt = build_planner_prompt(
        "build calculator",
        &[String::from("system: attempt 1 failed")],
        Some(raw.as_str()),
    );
    assert!(prompt.contains("Latest execution diagnostics"));
    assert!(prompt.contains("\"action_kind\": \"compile\""));
    assert!(prompt.contains("targeted repair actions before unrelated changes"));
}

#[test]
fn planner_prompt_has_exact_layout() {
    let prompt = build_planner_prompt("g", &[], None);
    let expected = format!(
        "You are the lmlang autonomous planner.\nReturn only JSON with no markdown and no surrounding text.\nUse planner contract version '2026-02-19'.\nAllowed action types: mutate_batch, verify, compile, run, simulate, inspect, history.\nRules:\n- Use an ordered actions array for executable plans.\n- If no safe plan exists, return a structured failure object and empty actions.\n- Keep payloads minimal and deterministic.\n\n{}\n\nGoal:\ng\n\nRecent transcript:\nNo recent transcript.",
        planner_programming_guide()
    );
    assert_eq!(prompt, expected);
    let two = build_planner_prompt("g", &[String::from("a"), String::from("b")], Some("{}"));
    assert!(two.ends_with("Recent transcript:\na\nb\n\nLatest execution diagnostics:\n{}"));
    assert!(planner_programming_guide().starts_with("Program-authoring guide (lmlang graph edits):"));
}
