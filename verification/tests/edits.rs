use lmlang::api_error::ApiError;
use lmlang::edits::{
    apply_edit_command, apply_mutation, apply_mutations, empty_edit_response, mutation_failed_response,
    validated_edit_response, EditCommand, Mutation,
};
use lmlang::schema::DiagnosticError;
use lmlang::ids::{EdgeId, FunctionId, ModuleId, NodeId, TypeId};
use lmlang::ops::{ArithOp, ComputeNodeOp, ComputeOp};
use lmlang::program_graph::ProgramGraph;
use lmlang::schema::CreatedEntity;
use lmlang::types::Visibility;

fn graph_with_function() -> (ProgramGraph, FunctionId) {
    let mut graph = ProgramGraph::new("main");
    let root = graph.modules.root_id();
    let f = graph
        .add_function("f".into(), root, vec![], TypeId::int32(), Visibility::Public)
        .unwrap();
    (graph, f)
}

fn param(index: u32) -> ComputeNodeOp {
    ComputeNodeOp::Core(ComputeOp::Parameter { index })
}

#[test]
fn insert_node_mutation_creates_node_and_records_command() {
    let (mut graph, f) = graph_with_function();
    let (created, cmd) = apply_mutation(
        &mut graph,
        &Mutation::InsertNode { op: param(0), owner: f },
    )
    .unwrap();
    let id = match created {
        Some(CreatedEntity::Node { id }) => id,
        other => panic!("unexpected {:?}", other),
    };
    match cmd {
        EditCommand::InsertNode { node_id, op, owner } => {
            assert_eq!(node_id, id);
            assert_eq!(op, param(0));
            assert_eq!(owner, f);
        }
        other => panic!("unexpected {:?}", other),
    }
    assert_eq!(graph.node_count(), 1);
    assert_eq!(graph.get_compute_node(id).unwrap().owner, f);
}

#[test]
fn insert_node_for_unknown_function_is_not_found() {
    let (mut graph, _) = graph_with_function();
    let err = apply_mutation(
        &mut graph,
        &Mutation::InsertNode { op: param(0), owner: FunctionId(9) },
    )
    .unwrap_err();
    match err {
        ApiError::NotFound(m) => assert_eq!(m, "function not found: FunctionId(9)"),
        other => panic!("unexpected {:?}", other),
    }
    assert_eq!(graph.node_count(), 0);
}

#[test]
fn modify_missing_node_reports_node_not_found_message() {
    let (mut graph, _) = graph_with_function();
    let err = apply_mutation(
        &mut graph,
        &Mutation::ModifyNode { node_id: NodeId(42), new_op: param(1) },
    )
    .unwrap_err();
    match err {
        ApiError::NotFound(m) => assert_eq!(m, "node 42 not found"),
        other => panic!("unexpected {:?}", other),
    }
}

#[test]
fn modify_node_records_old_op_and_owner() {
    let (mut graph, f) = graph_with_function();
    let n = graph.add_compute_node(param(0), f).unwrap();
    let (created, cmd) = apply_mutation(
        &mut graph,
        &Mutation::ModifyNode { node_id: n, new_op: param(3) },
    )
    .unwrap();
    assert!(created.is_none());
    match cmd {
        EditCommand::ModifyNode { node_id, old_op, new_op, owner } => {
            assert_eq!(node_id, n);
            assert_eq!(old_op, param(0));
            assert_eq!(new_op, param(3));
            assert_eq!(owner, f);
        }
        other => panic!("unexpected {:?}", other),
    }
    assert_eq!(graph.get_compute_node(n).unwrap().op, param(3));
}

#[test]
fn add_edge_and_remove_edge_mutations() {
    let (mut graph, f) = graph_with_function();
    let a = graph.add_compute_node(param(0), f).unwrap();
    let b = graph
        .add_compute_node(ComputeNodeOp::Core(ComputeOp::BinaryArith { op: ArithOp::Add }), f)
        .unwrap();
    let (created, _) = apply_mutation(
        &mut graph,
        &Mutation::AddEdge { from: a, to: b, source_port: 0, target_port: 1, value_type: TypeId::int32() },
    )
    .unwrap();
    let e = match created {
        Some(CreatedEntity::Edge { id }) => id,
        other => panic!("unexpected {:?}", other),
    };
    assert_eq!(graph.edge_count(), 1);
    let (_, cmd) = apply_mutation(&mut graph, &Mutation::RemoveEdge { edge_id: e }).unwrap();
    match cmd {
        EditCommand::RemoveEdge { edge_id, from, to, .. } => {
            assert_eq!(edge_id, e);
            assert_eq!(from, a);
            assert_eq!(to, b);
        }
        other => panic!("unexpected {:?}", other),
    }
    assert_eq!(graph.edge_count(), 0);
}

#[test]
fn remove_missing_edge_mutation_reports_edge_not_found() {
    let (mut graph, _) = graph_with_function();
    let err = apply_mutation(&mut graph, &Mutation::RemoveEdge { edge_id: EdgeId(5) }).unwrap_err();
    match err {
        ApiError::NotFound(m) => assert_eq!(m, "edge 5 not found"),
        other => panic!("unexpected {:?}", other),
    }
}

#[test]
fn add_edge_from_missing_node_is_not_found() {
    let (mut graph, f) = graph_with_function();
    let a = graph.add_compute_node(param(0), f).unwrap();
    let err = apply_mutation(
        &mut graph,
        &Mutation::AddControlEdge { from: NodeId(77), to: a, branch_index: None },
    )
    .unwrap_err();
    match err {
        ApiError::NotFound(m) => assert_eq!(m, "node not found: NodeId(77)"),
        other => panic!("unexpected {:?}", other),
    }
}

#[test]
fn add_module_without_parent_goes_under_root() {
    let (mut graph, _) = graph_with_function();
    let root = graph.modules.root_id();
    let (created, cmd) = apply_mutation(
        &mut graph,
        &Mutation::AddModule { name: "util".into(), parent: None, visibility: Visibility::Private },
    )
    .unwrap();
    let m = match created {
        Some(CreatedEntity::Module { id }) => id,
        other => panic!("unexpected {:?}", other),
    };
    match cmd {
        EditCommand::AddModule { module_id, name, parent, .. } => {
            assert_eq!(module_id, m);
            assert_eq!(name, "util");
            assert_eq!(parent, root);
        }
        other => panic!("unexpected {:?}", other),
    }
}

#[test]
fn add_function_in_unknown_module_is_not_found() {
    let (mut graph, _) = graph_with_function();
    let err = apply_mutation(
        &mut graph,
        &Mutation::AddFunction {
            name: "g".into(),
            module: ModuleId(50),
            params: vec![],
            return_type: TypeId::unit(),
            visibility: Visibility::Public,
        },
    )
    .unwrap_err();
    match err {
        ApiError::NotFound(m) => assert_eq!(m, "module not found: ModuleId(50)"),
        other => panic!("unexpected {:?}", other),
    }
    assert_eq!(graph.function_count(), 1);
}

#[test]
fn replaying_recorded_commands_rebuilds_the_same_shape() {
    let (mut graph, f) = graph_with_function();
    let (_, c1) = apply_mutation(&mut graph, &Mutation::InsertNode { op: param(0), owner: f }).unwrap();
    let (_, c2) = apply_mutation(&mut graph, &Mutation::InsertNode { op: param(1), owner: f }).unwrap();
    let (mut replay, _) = graph_with_function();
    let batch = EditCommand::Batch { commands: vec![c1, c2] };
    apply_edit_command(&mut replay, &batch).unwrap();
    assert_eq!(replay.node_count(), graph.node_count());
    assert_eq!(replay.function_nodes(f).len(), 2);
}

#[test]
fn batch_stops_at_first_failing_command() {
    let (mut graph, f) = graph_with_function();
    let batch = EditCommand::Batch {
        commands: vec![
            EditCommand::InsertNode { node_id: NodeId(0), op: param(0), owner: f },
            EditCommand::RemoveEdge {
                edge_id: EdgeId(9),
                from: NodeId(0),
                to: NodeId(0),
                removed_edge: lmlang::edge::FlowEdge::Control { branch_index: None },
            },
            EditCommand::InsertNode { node_id: NodeId(1), op: param(1), owner: f },
        ],
    };
    let err = apply_edit_command(&mut graph, &batch).unwrap_err();
    match err {
        ApiError::BadRequest(m) => assert_eq!(m, "invalid edge: edge not found: EdgeId(9)"),
        other => panic!("unexpected {:?}", other),
    }
    assert_eq!(graph.node_count(), 1);
}

#[test]
fn replaying_remove_node_command_removes_it() {
    let (mut graph, f) = graph_with_function();
    let n = graph.add_compute_node(param(0), f).unwrap();
    apply_edit_command(
        &mut graph,
        &EditCommand::ModifyNode { node_id: n, old_op: param(0), new_op: param(2), owner: f },
    )
    .unwrap();
    assert_eq!(graph.get_compute_node(n).unwrap().op, param(2));
    let removed = graph.get_compute_node(n).unwrap().clone();
    apply_edit_command(&mut graph, &EditCommand::RemoveNode { node_id: n, removed_node: removed }).unwrap();
    assert_eq!(graph.node_count(), 0);
    let err = apply_edit_command(
        &mut graph,
        &EditCommand::ModifyNode { node_id: n, old_op: param(0), new_op: param(2), owner: f },
    )
    .unwrap_err();
    match err {
        ApiError::NotFound(m) => assert_eq!(m, format!("node not found: NodeId({})", n.0)),
        other => panic!("unexpected {:?}", other),
    }
}

#[test]
fn batch_of_mutations_reports_entities_in_order() {
    let (mut graph, f) = graph_with_function();
    let muts = vec![
        Mutation::InsertNode { op: param(0), owner: f },
        Mutation::InsertNode { op: param(1), owner: f },
        Mutation::AddEdge { from: NodeId(0), to: NodeId(1), source_port: 0, target_port: 0, value_type: TypeId::int32() },
    ];
    let (created, cmds) = apply_mutations(&mut graph, &muts).unwrap();
    assert_eq!(cmds.len(), 3);
    assert_eq!(
        created,
        vec![
            CreatedEntity::Node { id: NodeId(0) },
            CreatedEntity::Node { id: NodeId(1) },
            CreatedEntity::Edge { id: EdgeId(0) },
        ]
    );
    assert_eq!(graph.node_count(), 2);
    assert_eq!(graph.edge_count(), 1);
}

#[test]
fn batch_stops_at_first_failing_mutation() {
    let (mut graph, f) = graph_with_function();
    let muts = vec![
        Mutation::InsertNode { op: param(0), owner: f },
        Mutation::RemoveNode { node_id: NodeId(40) },
        Mutation::InsertNode { op: param(1), owner: f },
    ];
    let err = apply_mutations(&mut graph, &muts).unwrap_err();
    match &err {
        ApiError::NotFound(m) => assert_eq!(m, "node not found: NodeId(40)"),
        other => panic!("unexpected {:?}", other),
    }
    assert_eq!(graph.node_count(), 1);
    let response = mutation_failed_response(&err);
    assert!(!response.valid);
    assert!(!response.committed);
    assert_eq!(response.errors.len(), 1);
    assert_eq!(response.errors[0].code, "MUTATION_FAILED");
    assert_eq!(response.errors[0].message, "not found: node not found: NodeId(40)");
}

#[test]
fn edit_responses_follow_mode_and_validation() {
    let empty = empty_edit_response();
    assert!(empty.valid && !empty.committed && empty.created.is_empty());

    let created = vec![CreatedEntity::Node { id: NodeId(3) }];
    let problem = DiagnosticError { code: "TYPE_MISMATCH".into(), message: "bad".into(), details: None };

    let dry_ok = validated_edit_response(true, created.clone(), vec![]);
    assert!(dry_ok.valid && !dry_ok.committed);
    assert_eq!(dry_ok.created, created);

    let dry_bad = validated_edit_response(true, created.clone(), vec![problem.clone()]);
    assert!(!dry_bad.valid && !dry_bad.committed);
    assert_eq!(dry_bad.created, created);

    let commit = validated_edit_response(false, created.clone(), vec![]);
    assert!(commit.valid && commit.committed);
    assert_eq!(commit.created, created);

    let refused = validated_edit_response(false, created, vec![problem]);
    assert!(!refused.valid && !refused.committed);
    assert!(refused.created.is_empty());
    assert_eq!(refused.errors.len(), 1);
}
