use lmlang::ids::TypeId;
use lmlang::observability::{ObservabilityGraphRequest, ObservabilityLayer, ObservabilityPreset};
use lmlang::observability_graph::observability_graph;
use lmlang::ops::{ComputeNodeOp, ComputeOp};
use lmlang::program_graph::ProgramGraph;
use lmlang::types::Visibility;

fn small_program() -> ProgramGraph {
    let mut graph = ProgramGraph::new("main");
    let root = graph.modules.root_id();
    let f = graph.add_function("f".into(), root, vec![], TypeId::int32(), Visibility::Public).unwrap();
    let a = graph.add_compute_node(ComputeNodeOp::Core(ComputeOp::Parameter { index: 0 }), f).unwrap();
    let b = graph.add_compute_node(ComputeNodeOp::Core(ComputeOp::Return), f).unwrap();
    graph.add_data_edge(a, b, 0, 0, TypeId::int32()).unwrap();
    graph
}

fn ids_of_nodes(r: &lmlang::observability::ObservabilityGraphResponse) -> Vec<String> {
    r.nodes.iter().map(|n| n.id.clone()).collect()
}

fn ids_of_edges(r: &lmlang::observability::ObservabilityGraphResponse) -> Vec<String> {
    r.edges.iter().map(|e| e.id.clone()).collect()
}

#[test]
fn all_preset_shows_both_layers_and_every_edge_kind() {
    let graph = small_program();
    let r = observability_graph(
        &graph,
        &ObservabilityGraphRequest { preset: ObservabilityPreset::All, include_cross_layer: true },
    )
    .unwrap();
    assert_eq!(ids_of_nodes(&r), vec!["semantic:0", "semantic:1", "compute:0", "compute:1"]);
    assert_eq!(
        ids_of_edges(&r),
        vec!["compute-edge:0", "cross-edge:0:compute:0", "cross-edge:0:compute:1", "semantic-edge:0"]
    );
    assert_eq!(r.node_count, 4);
    assert_eq!(r.edge_count, 4);
    assert_eq!(r.groups.len(), 1);
    assert_eq!(r.groups[0].id, "function:0");
    assert_eq!(r.groups[0].function_name, "f");
    assert_eq!(r.groups[0].semantic_anchor_id.as_deref(), Some("semantic:1"));
    assert_eq!(r.groups[0].compute_node_ids, vec!["compute:0", "compute:1"]);

    let compute0 = &r.nodes[2];
    assert_eq!(compute0.layer, ObservabilityLayer::Compute);
    assert_eq!(compute0.kind, "Parameter");
    assert_eq!(compute0.label, "Parameter #0");
    assert_eq!(compute0.group_id.as_deref(), Some("function:0"));
    assert_eq!(compute0.function_name.as_deref(), Some("f"));

    let function_node = &r.nodes[1];
    assert_eq!(function_node.kind, "function");
    assert_eq!(function_node.label, "f");
    assert_eq!(function_node.semantic_node_id, Some(1));

    let data = &r.edges[0];
    assert_eq!(data.edge_kind, "data");
    assert_eq!(data.from, "compute:0");
    assert_eq!(data.to, "compute:1");
    let boundary = &r.edges[1];
    assert!(boundary.cross_layer);
    assert_eq!(boundary.from, "semantic:1");
    assert_eq!(boundary.edge_kind, "function_boundary");
    assert_eq!(r.edges[3].edge_kind, "contains");
}

#[test]
fn without_cross_layer_no_boundary_edges() {
    let graph = small_program();
    let r = observability_graph(
        &graph,
        &ObservabilityGraphRequest { preset: ObservabilityPreset::All, include_cross_layer: false },
    )
    .unwrap();
    assert_eq!(ids_of_edges(&r), vec!["compute-edge:0", "semantic-edge:0"]);
}

#[test]
fn single_layer_presets_filter_nodes_and_edges() {
    let graph = small_program();
    let sem = observability_graph(
        &graph,
        &ObservabilityGraphRequest { preset: ObservabilityPreset::SemanticOnly, include_cross_layer: true },
    )
    .unwrap();
    assert_eq!(ids_of_nodes(&sem), vec!["semantic:0", "semantic:1"]);
    assert_eq!(ids_of_edges(&sem), vec!["semantic-edge:0"]);

    let comp = observability_graph(
        &graph,
        &ObservabilityGraphRequest { preset: ObservabilityPreset::ComputeOnly, include_cross_layer: true },
    )
    .unwrap();
    assert_eq!(ids_of_nodes(&comp), vec!["compute:0", "compute:1"]);
    assert_eq!(ids_of_edges(&comp), vec!["compute-edge:0"]);
}

#[test]
fn interop_preset_keeps_only_boundary_edges() {
    let graph = small_program();
    let r = observability_graph(
        &graph,
        &ObservabilityGraphRequest { preset: ObservabilityPreset::Interop, include_cross_layer: true },
    )
    .unwrap();
    assert_eq!(r.nodes.len(), 4);
    assert_eq!(ids_of_edges(&r), vec!["cross-edge:0:compute:0", "cross-edge:0:compute:1"]);
}

#[test]
fn node_ids_are_ordered_as_text() {
    let mut graph = ProgramGraph::new("main");
    let root = graph.modules.root_id();
    for i in 0..11 {
        graph
            .add_function(format!("f{}", i), root, vec![], TypeId::unit(), Visibility::Public)
            .unwrap();
    }
    let r = observability_graph(
        &graph,
        &ObservabilityGraphRequest { preset: ObservabilityPreset::SemanticOnly, include_cross_layer: false },
    )
    .unwrap();
    let ids = ids_of_nodes(&r);
    assert_eq!(ids.len(), 12);
    assert_eq!(&ids[..5], &["semantic:0", "semantic:1", "semantic:10", "semantic:11", "semantic:2"]);
    assert_eq!(r.groups.len(), 11);
    assert_eq!(r.groups[10].id, "function:10");
}

#[test]
fn every_shown_edge_joins_shown_nodes() {
    let graph = small_program();
    for preset in [
        ObservabilityPreset::All,
        ObservabilityPreset::SemanticOnly,
        ObservabilityPreset::ComputeOnly,
        ObservabilityPreset::Interop,
    ] {
        let r = observability_graph(&graph, &ObservabilityGraphRequest { preset, include_cross_layer: true }).unwrap();
        let ids = ids_of_nodes(&r);
        for e in &r.edges {
            assert!(ids.contains(&e.from), "{} missing", e.from);
            assert!(ids.contains(&e.to), "{} missing", e.to);
        }
    }
}
