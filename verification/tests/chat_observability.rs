use lmlang::agent_registry::AgentRegistry;
use lmlang::api_error::ApiError;
use lmlang::chat::{
    read_chat_message, ChatIntent, normalize_provider, parse_agent_name, parse_project_name, parse_start_goal, text_after, text_after_pair,
    token_after, token_after_pair,
};
use lmlang::edge::SemanticEdge;
use lmlang::ids::{FunctionId, NodeId, TypeId};
use lmlang::lock_api::{acquire_locks_at, active_program_check, lock_status_view, release_locks};
use lmlang::lock_manager::{AgentId, LockManager};
use lmlang::observability::{
    abbreviate_label, default_prompt_chips, layer_rank, normalized_terms, observability_compute_node_id,
    observability_group_id, observability_semantic_node_id, op_kind_name, parse_opt_level, preset_includes_edge,
    preset_includes_layer, semantic_edge_kind, ObservabilityEdgeView, ObservabilityLayer, ObservabilityPreset, OptLevel,
};
use lmlang::ops::{ComputeNodeOp, ComputeOp, StructuredOp};
use lmlang::project_agent::ProjectAgentManager;
use lmlang::schema::{to_session_view, to_transcript_view};

fn chat(message: &str) -> (String, String) {
    (message.to_string(), message.to_lowercase())
}

#[test]
fn text_after_finds_phrase_case_insensitively() {
    let (m, l) = chat("Please Create Project  Named \"Calc\".");
    assert_eq!(text_after(&m, &l, "create project").as_deref(), Some("Named \"Calc\"."));
    assert_eq!(text_after(&m, &l, "missing"), None);
    let (m, l) = chat("set system prompt   be terse  ");
    assert_eq!(text_after_pair(&m, &l, "system", "prompt").as_deref(), Some("be terse"));
}

#[test]
fn project_names_are_cleaned() {
    let (m, l) = chat("Create project named \"Calc\"");
    assert_eq!(parse_project_name(&m, &l).as_deref(), Some("Calc"));
    let (m, l) = chat("Create project named \"Calc\".");
    assert_eq!(parse_project_name(&m, &l).as_deref(), Some("Calc\""));
    let (m, l) = chat("new project called 'todo app'");
    assert_eq!(parse_project_name(&m, &l).as_deref(), Some("todo app"));
    let (m, l) = chat("create project");
    assert_eq!(parse_project_name(&m, &l), None);
    let (m, l) = chat("create project named named demo");
    assert_eq!(parse_project_name(&m, &l).as_deref(), Some("demo"));
}

#[test]
fn agent_names_stop_at_config_keywords() {
    let (m, l) = chat("register agent Code Bot provider openrouter model gpt");
    assert_eq!(parse_agent_name(&m, &l).as_deref(), Some("Code Bot"));
    let (m, l) = chat("add agent   Helper");
    assert_eq!(parse_agent_name(&m, &l).as_deref(), Some("Helper"));
    let (m, l) = chat("register agent MODEL x");
    assert_eq!(parse_agent_name(&m, &l), None);
    let (m, l) = chat("hello");
    assert_eq!(parse_agent_name(&m, &l), None);
}

#[test]
fn start_goals_are_unquoted() {
    let (m, l) = chat("Start build \"a calculator\"");
    assert_eq!(parse_start_goal(&m, &l).as_deref(), Some("a calculator"));
    let (m, l) = chat("start build   ");
    assert_eq!(parse_start_goal(&m, &l), None);
}

#[test]
fn tokens_after_keywords() {
    assert_eq!(token_after("use Model \"gpt-4\" please", "model").as_deref(), Some("gpt-4"));
    assert_eq!(token_after("use Model \"gpt-4\", please", "model").as_deref(), Some("gpt-4\""));
    assert_eq!(token_after("model", "model"), None);
    assert_eq!(token_after("api key 'sk-1',", "key").as_deref(), Some("sk-1'"));
    assert_eq!(token_after_pair("set API key abc", "api", "key").as_deref(), Some("abc"));
    assert_eq!(token_after_pair("api key", "api", "key"), None);
    assert_eq!(token_after_pair("base url http://x base url", "base", "url").as_deref(), Some("http://x"));
}

#[test]
fn providers_are_normalized() {
    assert_eq!(normalize_provider(None).unwrap(), None);
    assert_eq!(normalize_provider(Some("  ")).unwrap(), None);
    assert_eq!(normalize_provider(Some(" OpenAI-Compatible ")).unwrap().as_deref(), Some("openai_compatible"));
    assert_eq!(normalize_provider(Some("openrouter")).unwrap().as_deref(), Some("openrouter"));
    match normalize_provider(Some("acme")) {
        Err(ApiError::BadRequest(m)) => assert_eq!(m, "unsupported provider 'acme': use openrouter or openai_compatible"),
        other => panic!("unexpected {:?}", other),
    }
}

#[test]
fn observability_ids_and_presets() {
    assert_eq!(observability_compute_node_id(NodeId(4)), "compute:4");
    assert_eq!(observability_semantic_node_id(9), "semantic:9");
    assert_eq!(observability_group_id(FunctionId(2)), "function:2");
    assert_eq!(layer_rank(ObservabilityLayer::Semantic), 0);
    assert_eq!(layer_rank(ObservabilityLayer::Compute), 1);
    assert!(preset_includes_layer(ObservabilityPreset::Interop, ObservabilityLayer::Compute));
    assert!(!preset_includes_layer(ObservabilityPreset::SemanticOnly, ObservabilityLayer::Compute));
    let edge = ObservabilityEdgeView {
        id: "e".to_string(),
        from: "a".to_string(),
        to: "b".to_string(),
        from_layer: ObservabilityLayer::Semantic,
        to_layer: ObservabilityLayer::Compute,
        edge_kind: "x".to_string(),
        cross_layer: true,
        value_type: None,
        source_port: None,
        target_port: None,
        branch_index: None,
        relationship: None,
    };
    assert!(preset_includes_edge(ObservabilityPreset::Interop, &edge));
    assert!(!preset_includes_edge(ObservabilityPreset::SemanticOnly, &edge));
    assert!(preset_includes_edge(ObservabilityPreset::All, &edge));
    assert_eq!(ObservabilityPreset::default(), ObservabilityPreset::All);
    assert_eq!(semantic_edge_kind(SemanticEdge::UsesType), "usestype");
}

#[test]
fn labels_terms_and_kinds() {
    assert_eq!(abbreviate_label("hello", 5), "hello");
    assert_eq!(abbreviate_label("héllo world", 5), "héllo...");
    assert_eq!(normalized_terms("Trace how_values flow->MAIN!"), vec!["trace", "how", "values", "flow", "main"]);
    assert!(normalized_terms("--").is_empty());
    assert_eq!(op_kind_name(&ComputeNodeOp::Core(ComputeOp::Call { target: FunctionId(1) })), "Call");
    assert_eq!(
        op_kind_name(&ComputeNodeOp::Structured(StructuredOp::EnumCreate { type_id: TypeId(3), variant_index: 1 })),
        "EnumCreate { type_id: TypeId(3), variant_index: 1 }"
    );
    assert_eq!(op_kind_name(&ComputeNodeOp::Structured(StructuredOp::ArrayGet)), "ArrayGet");
    let chips = default_prompt_chips();
    assert_eq!(chips.len(), 4);
    assert_eq!(chips[2].id, "chip-data-flow");
    assert_eq!(parse_opt_level("o2"), Ok(OptLevel::O2));
    assert_eq!(
        parse_opt_level("O9"),
        Err("invalid optimization level 'O9', expected O0/O1/O2/O3".to_string())
    );
}

#[test]
fn lock_endpoints_follow_the_manager() {
    let mut m = LockManager::new(60_000);
    let a = AgentId(1);
    let b = AgentId(2);
    let resp = acquire_locks_at(&mut m, &a, vec![3, 1], "write", None, 0).unwrap();
    let ids: Vec<u32> = resp.grants.iter().map(|g| g.function_id).collect();
    assert_eq!(ids, vec![1, 3]);
    assert!(resp.grants.iter().all(|g| g.mode == "write"));
    match acquire_locks_at(&mut m, &b, vec![3], "read", None, 0) {
        Err(ApiError::LockDenied(d)) => assert_eq!(d.function_id, FunctionId(3)),
        other => panic!("unexpected {:?}", other),
    }
    match acquire_locks_at(&mut m, &b, vec![3], "share", None, 0) {
        Err(ApiError::BadRequest(msg)) => assert_eq!(msg, "invalid lock mode 'share': expected 'read' or 'write'"),
        other => panic!("unexpected {:?}", other),
    }
    let status = lock_status_view(m.status_at(0));
    assert_eq!(status.locks.len(), 2);
    assert_eq!(status.locks[0].holders, vec!["00000000-0000-0000-0000-000000000001".to_string()]);
    let released = release_locks(&mut m, &a, vec![1, 3]).unwrap();
    assert_eq!(released.released, vec![1, 3]);
    match release_locks(&mut m, &a, vec![1]) {
        Err(ApiError::BadRequest(msg)) => assert_eq!(
            msg,
            "agent 00000000-0000-0000-0000-000000000001 does not hold lock on function 1"
        ),
        other => panic!("unexpected {:?}", other),
    }
    assert!(active_program_check(3, 3).is_ok());
    match active_program_check(-2, 7) {
        Err(ApiError::BadRequest(msg)) => assert_eq!(msg, "program -2 is not the active program (active: 7)"),
        other => panic!("unexpected {:?}", other),
    }
}

#[test]
fn agent_registry_tracks_and_sweeps() {
    let mut r = AgentRegistry::new();
    let a = r.register_at(Some("alpha".to_string()), 1_000);
    let b = r.register_at(None, 1_000);
    assert_ne!(a, b);
    assert_eq!((a.0 >> 76) & 0xF, 4);
    assert_eq!(r.get(&a).unwrap().name.as_deref(), Some("alpha"));
    r.touch_at(&b, 5_000);
    assert_eq!(r.get(&b).unwrap().last_active, 5_000);
    assert_eq!(r.list().len(), 2);
    assert_eq!(r.sweep_inactive_at(3_000, 5_500), 1);
    assert!(r.get(&a).is_none());
    assert!(r.get(&b).is_some());
    assert!(r.deregister(&b));
    assert!(!r.deregister(&b));
    assert!(r.list().is_empty());
}

#[test]
fn session_views_summarize_sessions() {
    let mut m = ProjectAgentManager::new();
    m.assign_at(5, AgentId(9), Some("n".to_string()), 10);
    let s = m.start_at(5, AgentId(9), "goal".to_string(), 11).unwrap();
    let v = to_session_view(&s);
    assert_eq!(v.program_id, 5);
    assert_eq!(v.agent_id, 9);
    assert_eq!(v.run_status, "running");
    assert_eq!(v.message_count, 1);
    let t = to_transcript_view(&s.transcript);
    assert_eq!(t[0].content, "Build started: goal");
    assert_eq!(t[0].timestamp, "11");
}

#[test]
fn chat_message_intents_follow_phrase_order() {
    let (m, l, i) = read_chat_message("  Create Project demo  ").unwrap();
    assert_eq!(m, "Create Project demo");
    assert_eq!(l, "create project demo");
    assert_eq!(i, ChatIntent::CreateProject);
    assert_eq!(read_chat_message("please ADD AGENT bob").unwrap().2, ChatIntent::RegisterAgent);
    assert_eq!(read_chat_message("set model gpt").unwrap().2, ChatIntent::ConfigureAgent);
    assert_eq!(read_chat_message("assign agent now").unwrap().2, ChatIntent::AssignAgent);
    assert_eq!(read_chat_message("start build: hello").unwrap().2, ChatIntent::StartBuild);
    assert_eq!(read_chat_message("stop build").unwrap().2, ChatIntent::StopBuild);
    assert_eq!(read_chat_message("new project and start build").unwrap().2, ChatIntent::CreateProject);
    assert_eq!(read_chat_message("please compile it").unwrap().2, ChatIntent::Delegate { ensure_running: true });
    assert_eq!(read_chat_message("hello there").unwrap().2, ChatIntent::Delegate { ensure_running: false });
}

#[test]
fn empty_chat_message_is_refused() {
    match read_chat_message(" \t\n ") {
        Err(ApiError::BadRequest(m)) => assert_eq!(m, "message must not be empty"),
        other => panic!("unexpected {:?}", other.map(|t| t.0)),
    }
}
