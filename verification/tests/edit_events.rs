use lmlang::api_error::ApiError;
use lmlang::edit_events::{enqueue_propagation_for_mutations, enqueue_seed_events, seed_event};
use lmlang::edits::Mutation;
use lmlang::ids::{FunctionId, NodeId, TypeId};
use lmlang::ops::{ComputeNodeOp, ComputeOp};
use lmlang::program_graph::ProgramGraph;
use lmlang::propagation::{ComputeEvent, PropagationEventKind, PropagationLayer, SemanticEvent};
use lmlang::schema::PropagationEventSeed;
use lmlang::types::Visibility;

fn seed(kind: &str, node_id: Option<u32>) -> PropagationEventSeed {
    PropagationEventSeed { kind: kind.into(), function_id: 2, node_id, op_kind: None, contract_name: None }
}

#[test]
fn seeds_name_their_events() {
    let (layer, kind) = seed_event(&seed("semantic.function_created", None)).unwrap();
    assert_eq!(layer, PropagationLayer::Semantic);
    assert_eq!(kind, PropagationEventKind::Semantic(SemanticEvent::FunctionCreated { function_id: FunctionId(2) }));

    let (_, kind) = seed_event(&seed("semantic.contract_added", None)).unwrap();
    assert_eq!(
        kind,
        PropagationEventKind::Semantic(SemanticEvent::ContractAdded { function_id: FunctionId(2), contract_name: "contract".into() })
    );

    let (layer, kind) = seed_event(&seed("compute.node_inserted", Some(7))).unwrap();
    assert_eq!(layer, PropagationLayer::Compute);
    assert_eq!(
        kind,
        PropagationEventKind::Compute(ComputeEvent::NodeInserted {
            function_id: FunctionId(2),
            node_id: NodeId(7),
            op_kind: "Unknown".into()
        })
    );
}

#[test]
fn bad_seeds_are_bad_requests() {
    match seed_event(&seed("compute.node_removed", None)).unwrap_err() {
        ApiError::BadRequest(m) => assert_eq!(m, "node_id required for compute.node_removed"),
        other => panic!("unexpected {:?}", other),
    }
    match seed_event(&seed("semantic.nope", None)).unwrap_err() {
        ApiError::BadRequest(m) => assert_eq!(m, "unknown propagation event kind 'semantic.nope'"),
        other => panic!("unexpected {:?}", other),
    }
}

#[test]
fn seed_enqueueing_stops_at_first_bad_seed() {
    let mut graph = ProgramGraph::new("main");
    let seeds = vec![
        seed("compute.control_flow_changed", None),
        seed("bogus", None),
        seed("semantic.function_created", None),
    ];
    assert!(enqueue_seed_events(&mut graph, &seeds).is_err());
    assert_eq!(graph.pending_propagation_events().len(), 1);
}

#[test]
fn committed_mutations_raise_events() {
    let mut graph = ProgramGraph::new("main");
    let root = graph.modules.root_id();
    let f = graph.add_function("f".into(), root, vec![], TypeId::unit(), Visibility::Public).unwrap();
    let n0 = graph.add_compute_node(ComputeNodeOp::Core(ComputeOp::Parameter { index: 0 }), f).unwrap();
    let n1 = graph.add_compute_node(ComputeNodeOp::Core(ComputeOp::Return), f).unwrap();
    let mutations = vec![
        Mutation::AddFunction { name: "f".into(), module: root, params: vec![], return_type: TypeId::unit(), visibility: Visibility::Public },
        Mutation::InsertNode { op: ComputeNodeOp::Core(ComputeOp::Return), owner: f },
        Mutation::RemoveNode { node_id: NodeId(99) },
        Mutation::AddControlEdge { from: n0, to: n1, branch_index: None },
    ];
    let kinds = vec![String::new(), "Core(Return)".to_string(), String::new(), String::new()];
    enqueue_propagation_for_mutations(&mut graph, &mutations, &kinds);
    let events = graph.pending_propagation_events();
    assert_eq!(events.len(), 3);
    assert_eq!(events[0].kind, PropagationEventKind::Semantic(SemanticEvent::FunctionCreated { function_id: f }));
    assert_eq!(
        events[1].kind,
        PropagationEventKind::Compute(ComputeEvent::NodeInserted { function_id: f, node_id: n1, op_kind: "Core(Return)".into() })
    );
    assert_eq!(events[2].kind, PropagationEventKind::Compute(ComputeEvent::ControlFlowChanged { function_id: f }));
    assert_eq!(events[1].id, events[0].id + 1);
}
