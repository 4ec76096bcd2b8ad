use lmlang::edge::SemanticEdge;
use lmlang::error::CoreError;
use lmlang::function::{Capture, CaptureMode};
use lmlang::ids::{FunctionId, TypeId};
use lmlang::ops::{ArithOp, ComputeNodeOp, ComputeOp};
use lmlang::program_graph::ProgramGraph;
use lmlang::propagation::{
    ComputeEvent, ConflictPriorityClass, PropagationEventKind, PropagationLayer, SemanticEvent,
};
use lmlang::types::{LmType, Visibility};
use petgraph::stable_graph::NodeIndex;

#[test]
fn basic_program_graph_construction() {
    let mut graph = ProgramGraph::new("main");
    let root = graph.modules.root_id();
    let add_fn = graph
        .add_function(
            "add".into(),
            root,
            vec![("a".into(), TypeId::int32()), ("b".into(), TypeId::int32())],
            TypeId::int32(),
            Visibility::Public,
        )
        .unwrap();
    let param_a = graph.add_core_op(ComputeOp::Parameter { index: 0 }, add_fn).unwrap();
    let param_b = graph.add_core_op(ComputeOp::Parameter { index: 1 }, add_fn).unwrap();
    let sum = graph.add_core_op(ComputeOp::BinaryArith { op: ArithOp::Add }, add_fn).unwrap();
    graph.add_data_edge(param_a, sum, 0, 0, TypeId::int32()).unwrap();
    graph.add_data_edge(param_b, sum, 0, 1, TypeId::int32()).unwrap();
    assert_eq!(graph.node_count(), 3);
    assert_eq!(graph.edge_count(), 2);
    assert_eq!(graph.function_count(), 1);
}

#[test]
fn adding_function_creates_semantic_node() {
    let mut graph = ProgramGraph::new("main");
    let root = graph.modules.root_id();
    assert_eq!(graph.semantic_node_count(), 1);
    graph.add_function("foo".into(), root, vec![], TypeId::unit(), Visibility::Public).unwrap();
    assert_eq!(graph.semantic_node_count(), 2);
}

#[test]
fn adding_compute_nodes_does_not_create_semantic_nodes() {
    let mut graph = ProgramGraph::new("main");
    let root = graph.modules.root_id();
    let f = graph.add_function("f".into(), root, vec![], TypeId::unit(), Visibility::Public).unwrap();
    let sem_count_before = graph.semantic_node_count();
    graph.add_core_op(ComputeOp::Parameter { index: 0 }, f).unwrap();
    graph.add_core_op(ComputeOp::Return, f).unwrap();
    assert_eq!(graph.semantic_node_count(), sem_count_before);
}

#[test]
fn add_compute_node_nonexistent_owner_errors() {
    let mut graph = ProgramGraph::new("main");
    let result = graph.add_core_op(ComputeOp::Parameter { index: 0 }, FunctionId(999));
    assert!(result.is_err());
    match result {
        Err(CoreError::FunctionNotFound { id }) => assert_eq!(id, FunctionId(999)),
        _ => panic!("expected FunctionNotFound error"),
    }
}

#[test]
fn remove_compute_node_removes_node_and_edges() {
    let mut graph = ProgramGraph::new("main");
    let root = graph.modules.root_id();
    let f = graph.add_function("f".into(), root, vec![], TypeId::unit(), Visibility::Public).unwrap();
    let a = graph.add_core_op(ComputeOp::Parameter { index: 0 }, f).unwrap();
    let b = graph.add_core_op(ComputeOp::BinaryArith { op: ArithOp::Add }, f).unwrap();
    let c = graph.add_core_op(ComputeOp::Return, f).unwrap();
    graph.add_data_edge(a, b, 0, 0, TypeId::int32()).unwrap();
    graph.add_data_edge(b, c, 0, 0, TypeId::int32()).unwrap();
    assert_eq!(graph.node_count(), 3);
    assert_eq!(graph.edge_count(), 2);
    let removed = graph.remove_compute_node(b).unwrap();
    assert!(matches!(removed.op, ComputeNodeOp::Core(ComputeOp::BinaryArith { op: ArithOp::Add })));
    assert_eq!(graph.node_count(), 2);
    assert_eq!(graph.edge_count(), 0);
}

#[test]
fn function_nodes_returns_correct_nodes() {
    let mut graph = ProgramGraph::new("main");
    let root = graph.modules.root_id();
    let f1 = graph.add_function("f1".into(), root, vec![], TypeId::unit(), Visibility::Public).unwrap();
    let f2 = graph.add_function("f2".into(), root, vec![], TypeId::unit(), Visibility::Public).unwrap();
    let n1 = graph.add_core_op(ComputeOp::Parameter { index: 0 }, f1).unwrap();
    let n2 = graph.add_core_op(ComputeOp::Return, f1).unwrap();
    let _n3 = graph.add_core_op(ComputeOp::Parameter { index: 0 }, f2).unwrap();
    let f1_nodes = graph.function_nodes(f1);
    assert_eq!(f1_nodes.len(), 2);
    assert!(f1_nodes.contains(&n1));
    assert!(f1_nodes.contains(&n2));
}

#[test]
fn add_module_creates_semantic_node_and_edge() {
    let mut graph = ProgramGraph::new("main");
    let root = graph.modules.root_id();
    assert_eq!(graph.semantic_node_count(), 1);
    assert_eq!(graph.semantic_edge_count(), 0);
    let _child = graph.add_module("child".into(), root, Visibility::Public).unwrap();
    assert_eq!(graph.semantic_node_count(), 2);
    assert_eq!(graph.semantic_edge_count(), 1);
}

#[test]
fn closure_creates_semantic_node() {
    let mut graph = ProgramGraph::new("main");
    let root = graph.modules.root_id();
    let parent_fn = graph.add_function("parent".into(), root, vec![], TypeId::unit(), Visibility::Public).unwrap();
    let sem_before = graph.semantic_node_count();
    let _closure = graph
        .add_closure(
            "lambda".into(),
            root,
            parent_fn,
            vec![("x".into(), TypeId::int32())],
            TypeId::int32(),
            vec![Capture { name: "y".into(), captured_type: TypeId::int32(), mode: CaptureMode::ByValue }],
        )
        .unwrap();
    assert_eq!(graph.semantic_node_count(), sem_before + 1);
}

#[test]
fn read_only_accessors() {
    let graph = ProgramGraph::new("main");
    assert_eq!(graph.compute().node_count(), 0);
    assert_eq!(graph.semantic().node_count(), 1);
}

#[test]
fn test_multi_function_program_with_closure() {
    let mut graph = ProgramGraph::new("main");
    let root = graph.modules.root_id();
    let i32_id = TypeId::int32();

    let add_fn_id = graph
        .add_function(
            "add".into(),
            root,
            vec![("a".into(), i32_id), ("b".into(), i32_id)],
            i32_id,
            Visibility::Public,
        )
        .unwrap();
    let param_a = graph.add_core_op(ComputeOp::Parameter { index: 0 }, add_fn_id).unwrap();
    let param_b = graph.add_core_op(ComputeOp::Parameter { index: 1 }, add_fn_id).unwrap();
    let sum = graph.add_core_op(ComputeOp::BinaryArith { op: ArithOp::Add }, add_fn_id).unwrap();
    let add_ret = graph.add_core_op(ComputeOp::Return, add_fn_id).unwrap();
    graph.add_data_edge(param_a, sum, 0, 0, i32_id).unwrap();
    graph.add_data_edge(param_b, sum, 0, 1, i32_id).unwrap();
    graph.add_data_edge(sum, add_ret, 0, 0, i32_id).unwrap();
    graph.get_function_mut(add_fn_id).unwrap().entry_node = Some(param_a);

    let fn_i32_to_i32 = graph.types.register(LmType::Function { params: vec![i32_id], return_type: i32_id });

    let make_adder_id = graph
        .add_function(
            "make_adder".into(),
            root,
            vec![("offset".into(), i32_id)],
            fn_i32_to_i32,
            Visibility::Public,
        )
        .unwrap();

    let adder_fn_id = graph
        .add_closure(
            "adder".into(),
            root,
            make_adder_id,
            vec![("x".into(), i32_id)],
            i32_id,
            vec![Capture { name: "offset".into(), captured_type: i32_id, mode: CaptureMode::ByValue }],
        )
        .unwrap();

    let param_x = graph.add_core_op(ComputeOp::Parameter { index: 0 }, adder_fn_id).unwrap();
    let cap_offset = graph.add_core_op(ComputeOp::CaptureAccess { index: 0 }, adder_fn_id).unwrap();
    let call_add = graph.add_core_op(ComputeOp::Call { target: add_fn_id }, adder_fn_id).unwrap();
    let adder_ret = graph.add_core_op(ComputeOp::Return, adder_fn_id).unwrap();
    graph.add_data_edge(param_x, call_add, 0, 0, i32_id).unwrap();
    graph.add_data_edge(cap_offset, call_add, 0, 1, i32_id).unwrap();
    graph.add_data_edge(call_add, adder_ret, 0, 0, i32_id).unwrap();
    graph.get_function_mut(adder_fn_id).unwrap().entry_node = Some(param_x);

    let ma_param_offset = graph.add_core_op(ComputeOp::Parameter { index: 0 }, make_adder_id).unwrap();
    let make_closure = graph.add_core_op(ComputeOp::MakeClosure { function: adder_fn_id }, make_adder_id).unwrap();
    let ma_ret = graph.add_core_op(ComputeOp::Return, make_adder_id).unwrap();
    graph.add_data_edge(ma_param_offset, make_closure, 0, 0, i32_id).unwrap();
    graph.add_data_edge(make_closure, ma_ret, 0, 0, fn_i32_to_i32).unwrap();
    graph.get_function_mut(make_adder_id).unwrap().entry_node = Some(ma_param_offset);

    assert_eq!(graph.function_count(), 3);
    assert_eq!(graph.node_count(), 11);
    assert_eq!(graph.edge_count(), 8);
    let add_nodes = graph.function_nodes(add_fn_id);
    assert_eq!(add_nodes.len(), 4);

    let adder_def = graph.get_function(adder_fn_id).unwrap();
    assert!(adder_def.is_closure);
    assert_eq!(adder_def.captures.len(), 1);
    assert_eq!(adder_def.captures[0].name, "offset");
    assert_eq!(adder_def.parent_function, Some(make_adder_id));

    assert_eq!(graph.semantic_node_count(), 4);
    assert_eq!(graph.semantic_edge_count(), 3);
    let sem = graph.semantic();
    for edge_idx in sem.edge_indices() {
        let edge_weight = &sem[edge_idx];
        assert_eq!(*edge_weight, SemanticEdge::Contains, "All semantic edges should be Contains");
    }

    let rt_add = graph.get_function(add_fn_id).unwrap();
    assert_eq!(rt_add.name, "add");
    assert_eq!(rt_add.params.len(), 2);
    assert_eq!(rt_add.entry_node, Some(param_a));
}

#[test]
fn semantic_helpers_create_and_update_rich_nodes() {
    let mut graph = ProgramGraph::new("main");
    let root = graph.modules.root_id();
    let f = graph
        .add_function("work".into(), root, vec![("x".into(), TypeId::int32())], TypeId::int32(), Visibility::Public)
        .unwrap();
    let spec_idx = graph.add_spec_node(root, "SPEC-8".into(), "must be deterministic".into()).unwrap();
    let test_idx = graph.add_test_node(root, "TEST-8".into(), "deterministic replay".into(), Some(f)).unwrap();
    let doc_idx = graph.add_doc_node(root, "DOC-8".into(), "phase 8 notes".into()).unwrap();
    graph.add_semantic_edge(spec_idx, test_idx, SemanticEdge::Validates).unwrap();
    graph.add_semantic_edge(doc_idx, spec_idx, SemanticEdge::Documents).unwrap();
    graph.update_semantic_summary(spec_idx, "spec", "SPEC-8", "all updates are deterministic").unwrap();
    graph
        .update_semantic_embeddings(
            spec_idx,
            Some(vec![0.1f32.to_bits(), 0.2f32.to_bits(), 0.3f32.to_bits()]),
            Some(vec![0.4f32.to_bits(), 0.5f32.to_bits(), 0.6f32.to_bits()]),
        )
        .unwrap();
    let spec_node = graph.semantic().node_weight(NodeIndex::new(spec_idx as usize)).unwrap();
    assert_eq!(spec_node.kind(), "spec");
    assert_eq!(spec_node.metadata().embeddings.node_dim(), Some(3));
    assert_eq!(spec_node.metadata().embeddings.summary_dim(), Some(3));
    assert!(!spec_node.metadata().summary.checksum.is_empty());
}

#[test]
fn propagation_flush_is_deterministic_and_idempotent() {
    let mut graph = ProgramGraph::new("main");
    let root = graph.modules.root_id();
    let f = graph
        .add_function("flush_me".into(), root, vec![("x".into(), TypeId::int32())], TypeId::int32(), Visibility::Public)
        .unwrap();
    let node_id = graph.add_core_op(ComputeOp::Parameter { index: 0 }, f).unwrap();
    graph.enqueue_propagation(
        PropagationLayer::Compute,
        PropagationEventKind::Compute(ComputeEvent::NodeInserted {
            function_id: f,
            node_id,
            op_kind: "Parameter".to_string(),
        }),
    );
    graph.enqueue_propagation(
        PropagationLayer::Compute,
        PropagationEventKind::Compute(ComputeEvent::ControlFlowChanged { function_id: f }),
    );
    let first = graph.flush_propagation().unwrap();
    assert_eq!(first.remaining_queue, 0);
    assert!(first.applied_events >= 1);
    let second = graph.flush_propagation().unwrap();
    assert_eq!(second.processed_events, 0);
    assert_eq!(second.applied_events, 0);
    assert_eq!(second.diagnostics.len(), 0);
}

#[test]
fn propagation_conflict_emits_diagnostic_required() {
    let mut graph = ProgramGraph::new("main");
    let root = graph.modules.root_id();
    let f = graph
        .add_function("conflict".into(), root, vec![("x".into(), TypeId::int32())], TypeId::int32(), Visibility::Public)
        .unwrap();
    let n = graph.add_core_op(ComputeOp::Parameter { index: 0 }, f).unwrap();
    graph.enqueue_propagation(
        PropagationLayer::Compute,
        PropagationEventKind::Compute(ComputeEvent::NodeModified {
            function_id: f,
            node_id: n,
            op_kind: "Parameter".to_string(),
        }),
    );
    graph.enqueue_propagation(
        PropagationLayer::Semantic,
        PropagationEventKind::Semantic(SemanticEvent::FunctionSignatureChanged { function_id: f }),
    );
    let report = graph.flush_propagation().unwrap();
    assert!(report.diagnostics.iter().any(|d| d.precedence == ConflictPriorityClass::DiagnosticRequired));
}

#[test]
fn flush_refreshes_function_and_module_summaries() {
    let mut graph = ProgramGraph::new("main");
    let root = graph.modules.root_id();
    let callee = graph.add_function("callee".into(), root, vec![], TypeId::int32(), Visibility::Private).unwrap();
    let caller = graph.add_function("caller".into(), root, vec![], TypeId::int32(), Visibility::Public).unwrap();
    graph.add_core_op(ComputeOp::Call { target: callee }, caller).unwrap();
    graph.add_core_op(ComputeOp::Call { target: callee }, caller).unwrap();
    graph.add_core_op(ComputeOp::Call { target: FunctionId(77) }, caller).unwrap();
    graph.enqueue_propagation(
        PropagationLayer::Semantic,
        PropagationEventKind::Semantic(SemanticEvent::ContractAdded {
            function_id: caller,
            contract_name: "pure".to_string(),
        }),
    );
    let edges_before = graph.semantic_edge_count();
    let nodes_before = graph.semantic_node_count();
    let report = graph.flush_propagation().unwrap();
    assert_eq!(report.applied_events, 1);
    // one Calls edge to the known callee, plus Contains and Implements to the new spec node
    assert_eq!(graph.semantic_edge_count(), edges_before + 3);
    assert_eq!(graph.semantic_node_count(), nodes_before + 1);
    let caller_idx = graph.function_semantic_indices()[caller.0 as usize];
    let root_idx = graph.module_semantic_indices()[&0u32];
    assert!(report.refreshed_semantic_nodes.contains(&caller_idx));
    assert_eq!(report.refreshed_summary_nodes, vec![root_idx]);
    let node = graph.semantic().node_weight(NodeIndex::new(caller_idx as usize)).unwrap();
    assert_eq!(node.metadata().summary.body, "fn caller has 3 compute nodes and return type 3");
    assert_eq!(node.metadata().complexity, Some(3));
    assert_eq!(node.metadata().provenance.version, 2);
    let module = graph.semantic().node_weight(NodeIndex::new(root_idx as usize)).unwrap();
    assert_eq!(module.metadata().summary.body, "module main contains 2 function summaries");
    // flushing again with an unknown function fails
    graph.enqueue_propagation(
        PropagationLayer::Semantic,
        PropagationEventKind::Semantic(SemanticEvent::FunctionCreated { function_id: FunctionId(50) }),
    );
    match graph.flush_propagation() {
        Err(CoreError::FunctionNotFound { id }) => assert_eq!(id, FunctionId(50)),
        _ => panic!("expected FunctionNotFound"),
    }
    assert!(graph.pending_propagation_events().is_empty());
}

#[test]
fn compute_edits_undo_and_errors() {
    let mut graph = ProgramGraph::new("main");
    let root = graph.modules.root_id();
    let f = graph.add_function("f".into(), root, vec![], TypeId::unit(), Visibility::Public).unwrap();
    let a = graph.add_core_op(ComputeOp::Alloc, f).unwrap();
    let old = graph.modify_compute_node_op(a, ComputeNodeOp::Core(ComputeOp::Load)).unwrap();
    assert!(matches!(old, ComputeNodeOp::Core(ComputeOp::Alloc)));
    assert!(matches!(graph.get_compute_node(a).unwrap().op, ComputeNodeOp::Core(ComputeOp::Load)));
    let e = graph.add_control_edge(a, a, Some(1)).unwrap();
    assert!(graph.remove_edge(e).is_ok());
    match graph.remove_edge(e) {
        Err(CoreError::InvalidEdge { reason }) => assert_eq!(reason, format!("edge not found: EdgeId({})", e.0)),
        _ => panic!("expected InvalidEdge"),
    }
    match graph.add_semantic_edge(0, 999, SemanticEdge::Calls) {
        Err(CoreError::InvalidEdge { reason }) => assert_eq!(reason, "invalid semantic edge 0 -> 999"),
        _ => panic!("expected InvalidEdge"),
    }
    match graph.update_semantic_summary(999, "k", "i", "b") {
        Err(CoreError::GraphInconsistency { reason }) => assert_eq!(reason, "semantic node 999 not found"),
        _ => panic!("expected GraphInconsistency"),
    }
    assert!(matches!(
        graph.add_closure("c".into(), root, FunctionId(9), vec![], TypeId::unit(), vec![]),
        Err(CoreError::FunctionNotFound { id }) if id == FunctionId(9)
    ));
    assert!(graph.remove_compute_node(a).is_ok());
    assert!(graph.get_compute_node(a).is_none());
}
