use lmlang::conflict::{build_function_diff, check_hashes};
use lmlang::ids::{EdgeId, FunctionId, TypeId};
use lmlang::ops::{ArithOp, ComputeNodeOp, ComputeOp};
use lmlang::program_graph::ProgramGraph;
use lmlang::types::Visibility;

fn two_functions() -> (ProgramGraph, FunctionId, FunctionId) {
    let mut graph = ProgramGraph::new("main");
    let root = graph.modules.root_id();
    let f = graph.add_function("f".into(), root, vec![], TypeId::int32(), Visibility::Public).unwrap();
    let g = graph.add_function("g".into(), root, vec![], TypeId::int32(), Visibility::Public).unwrap();
    (graph, f, g)
}

#[test]
fn diff_lists_function_nodes_and_only_intra_function_edges() {
    let (mut graph, f, g) = two_functions();
    let a = graph.add_compute_node(ComputeNodeOp::Core(ComputeOp::Parameter { index: 0 }), f).unwrap();
    let b = graph
        .add_compute_node(ComputeNodeOp::Core(ComputeOp::BinaryArith { op: ArithOp::Add }), f)
        .unwrap();
    let c = graph.add_compute_node(ComputeNodeOp::Core(ComputeOp::Return), g).unwrap();
    let inner = graph.add_data_edge(a, b, 0, 0, TypeId::int32()).unwrap();
    let _cross = graph.add_data_edge(b, c, 0, 0, TypeId::int32()).unwrap();

    let diff = build_function_diff(&graph, f);
    assert_eq!(diff.added_nodes, vec![a, b]);
    assert_eq!(diff.added_edges, vec![inner]);
    assert!(diff.removed_nodes.is_empty());
    assert!(diff.modified_nodes.is_empty());
    assert!(diff.removed_edges.is_empty());

    let diff_g = build_function_diff(&graph, g);
    assert_eq!(diff_g.added_nodes, vec![c]);
    assert!(diff_g.added_edges.is_empty());
}

#[test]
fn matching_hashes_pass() {
    let (graph, f, g) = two_functions();
    let expected = vec![(f, "aa".to_string()), (g, "bb".to_string())];
    let current = vec!["aa".to_string(), "bb".to_string()];
    assert!(check_hashes(&graph, &expected, &current).is_ok());
}

#[test]
fn mismatched_hash_reports_conflict_with_current_content() {
    let (mut graph, f, g) = two_functions();
    let n = graph.add_compute_node(ComputeNodeOp::Core(ComputeOp::Return), g).unwrap();
    let expected = vec![(f, "aa".to_string()), (g, "bb".to_string())];
    let current = vec!["aa".to_string(), "cc".to_string()];
    let conflicts = check_hashes(&graph, &expected, &current).unwrap_err();
    assert_eq!(conflicts.len(), 1);
    assert_eq!(conflicts[0].function_id, g);
    assert_eq!(conflicts[0].expected_hash, "bb");
    assert_eq!(conflicts[0].current_hash, "cc");
    assert_eq!(conflicts[0].changes.added_nodes, vec![n]);
    assert_eq!(conflicts[0].changes.added_edges, Vec::<EdgeId>::new());
}

#[test]
fn every_mismatch_is_reported_in_order() {
    let (graph, f, g) = two_functions();
    let expected = vec![(g, "1".to_string()), (f, "2".to_string())];
    let current = vec!["x".to_string(), "y".to_string()];
    let conflicts = check_hashes(&graph, &expected, &current).unwrap_err();
    let ids: Vec<FunctionId> = conflicts.iter().map(|c| c.function_id).collect();
    assert_eq!(ids, vec![g, f]);
}
