use lmlang::clock::humanize_system_time;
use lmlang::ids::{FunctionId, NodeId};
use lmlang::lock_manager::{AgentId, LockError, LockManager, LockMode};
use lmlang::ops::{ComputeNode, ComputeNodeOp, ComputeOp, StructuredOp};
use lmlang::propagation::{
    classify_conflict, ComputeEvent, ConflictPriorityClass, PropagationEventKind, PropagationLayer,
    PropagationQueue, SemanticEvent,
};

const TTL: u64 = 60_000;

#[test]
fn write_lock_excludes_other_agents_until_released() {
    let mut m = LockManager::new(TTL);
    let a = AgentId(1);
    let b = AgentId(2);
    let f = FunctionId(10);
    let g = m.try_acquire_write_at(&a, f, Some("edit".to_string()), 1_000).unwrap();
    assert_eq!(g.function_id, f);
    assert_eq!(g.mode, LockMode::Write);
    match m.try_acquire_write_at(&b, f, None, 1_001) {
        Err(LockError::AlreadyHeldBy(d)) => {
            assert_eq!(d.holder_agent_id, a);
            assert_eq!(d.holder_description.as_deref(), Some("edit"));
            assert_eq!(d.queue_position, 1);
        }
        other => panic!("expected denial, got {:?}", other.map(|g| g.function_id)),
    }
    assert!(m.try_acquire_read_at(&b, f, 1_002).is_err());
    m.release(&a, f).unwrap();
    assert!(m.try_acquire_write_at(&b, f, None, 1_003).is_ok());
}

#[test]
fn read_locks_are_shared_and_block_writers() {
    let mut m = LockManager::new(TTL);
    let f = FunctionId(3);
    m.try_acquire_read_at(&AgentId(1), f, 0).unwrap();
    m.try_acquire_read_at(&AgentId(2), f, 0).unwrap();
    assert!(m.try_acquire_write_at(&AgentId(3), f, None, 0).is_err());
    m.release(&AgentId(1), f).unwrap();
    m.release(&AgentId(2), f).unwrap();
    assert!(m.try_acquire_write_at(&AgentId(3), f, None, 0).is_ok());
}

#[test]
fn release_of_unheld_lock_is_an_error() {
    let mut m = LockManager::new(TTL);
    match m.release(&AgentId(1), FunctionId(4)) {
        Err(LockError::NotHeld { function_id, agent_id }) => {
            assert_eq!(function_id, FunctionId(4));
            assert_eq!(agent_id, AgentId(1));
        }
        _ => panic!("expected NotHeld"),
    }
}

#[test]
fn batch_write_is_all_or_nothing() {
    let mut m = LockManager::new(TTL);
    let a = AgentId(1);
    let b = AgentId(2);
    m.try_acquire_write_at(&b, FunctionId(2), None, 0).unwrap();
    let err = m
        .batch_acquire_write_at(&a, &[FunctionId(3), FunctionId(1), FunctionId(2)], None, 0)
        .err()
        .unwrap();
    match err {
        LockError::BatchPartialFailure { failed, .. } => assert_eq!(failed.function_id, FunctionId(2)),
        _ => panic!("expected batch failure"),
    }
    assert!(m.try_acquire_write_at(&b, FunctionId(1), None, 0).is_ok());
    assert!(m.verify_write_locks(&a, &[FunctionId(1)]).is_err());
    m.release_all(&b);
    let grants = m
        .batch_acquire_write_at(&a, &[FunctionId(3), FunctionId(1), FunctionId(2)], None, 0)
        .unwrap();
    let ids: Vec<u32> = grants.iter().map(|g| g.function_id.0).collect();
    assert_eq!(ids, vec![1, 2, 3]);
    assert!(m.verify_write_locks(&a, &[FunctionId(1), FunctionId(2), FunctionId(3)]).is_ok());
}

#[test]
fn release_all_frees_everything_an_agent_holds() {
    let mut m = LockManager::new(TTL);
    let a = AgentId(7);
    m.try_acquire_write_at(&a, FunctionId(1), None, 0).unwrap();
    m.try_acquire_read_at(&a, FunctionId(2), 0).unwrap();
    let mut released: Vec<u32> = m.release_all(&a).iter().map(|f| f.0).collect();
    released.sort();
    assert_eq!(released, vec![1, 2]);
    assert!(m.status_at(0).is_empty());
}

#[test]
fn expired_locks_are_swept_and_status_is_sorted() {
    let mut m = LockManager::new(1_000);
    m.try_acquire_write_at(&AgentId(1), FunctionId(5), None, 0).unwrap();
    m.try_acquire_read_at(&AgentId(2), FunctionId(2), 500).unwrap();
    let mut status = m.status_at(600);
    status.sort_by_key(|e| e.function_id.0);
    let ids: Vec<u32> = status.iter().map(|e| e.function_id.0).collect();
    assert_eq!(ids, vec![2, 5]);
    assert_eq!(status[1].state, "write");
    assert_eq!(status[0].state, "read");
    let mut swept: Vec<u32> = m.sweep_expired_locks_at(1_200).iter().map(|f| f.0).collect();
    swept.sort();
    assert_eq!(swept, vec![5]);
    assert_eq!(m.status_at(1_200).len(), 1);
}

#[test]
fn humanized_times_are_iso8601() {
    assert_eq!(humanize_system_time(Some(0)), "1970-01-01T00:00:00Z");
    assert_eq!(humanize_system_time(Some(951_782_400)), "2000-02-29T00:00:00Z");
    assert_eq!(humanize_system_time(Some(1_700_000_000)), "2023-11-14T22:13:20Z");
    assert_eq!(humanize_system_time(None), "unknown");
}

#[test]
fn queue_plan_is_deterministic_and_idempotent() {
    let mut q = PropagationQueue::new();
    let f = FunctionId(1);
    q.enqueue_propagation(
        PropagationLayer::Compute,
        PropagationEventKind::Compute(ComputeEvent::NodeInserted {
            function_id: f,
            node_id: NodeId(0),
            op_kind: "Parameter".to_string(),
        }),
    );
    q.enqueue_propagation(
        PropagationLayer::Compute,
        PropagationEventKind::Compute(ComputeEvent::ControlFlowChanged { function_id: f }),
    );
    let first = q.plan_flush_propagation();
    assert!(q.pending_propagation_events().is_empty());
    assert!(!first.to_apply.is_empty());
    assert_eq!(first.processed_events, 2);
    let second = q.plan_flush_propagation();
    assert_eq!(second.processed_events, 0);
    assert!(second.to_apply.is_empty());
    assert!(second.diagnostics.is_empty());
}

#[test]
fn queue_plan_reports_diagnostic_required_conflicts() {
    let mut q = PropagationQueue::new();
    let f = FunctionId(1);
    q.enqueue_propagation(
        PropagationLayer::Compute,
        PropagationEventKind::Compute(ComputeEvent::NodeModified {
            function_id: f,
            node_id: NodeId(0),
            op_kind: "Parameter".to_string(),
        }),
    );
    q.enqueue_propagation(
        PropagationLayer::Semantic,
        PropagationEventKind::Semantic(SemanticEvent::FunctionSignatureChanged { function_id: f }),
    );
    let plan = q.plan_flush_propagation();
    assert!(plan
        .diagnostics
        .iter()
        .any(|d| d.precedence == ConflictPriorityClass::DiagnosticRequired));
}

#[test]
fn semantic_events_flush_before_compute_events() {
    let mut q = PropagationQueue::new();
    let f = FunctionId(2);
    let compute_id = q.enqueue_propagation(
        PropagationLayer::Compute,
        PropagationEventKind::Compute(ComputeEvent::ControlFlowChanged { function_id: f }),
    );
    let semantic_id = q.enqueue_propagation(
        PropagationLayer::Semantic,
        PropagationEventKind::Semantic(SemanticEvent::FunctionCreated { function_id: FunctionId(3) }),
    );
    let plan = q.plan_flush_propagation();
    let order: Vec<u64> = plan.to_apply.iter().map(|e| e.id).collect();
    assert_eq!(order, vec![semantic_id, compute_id]);
}

#[test]
fn duplicate_events_are_skipped() {
    let mut q = PropagationQueue::new();
    let kind = PropagationEventKind::Compute(ComputeEvent::ControlFlowChanged { function_id: FunctionId(4) });
    q.enqueue_propagation(PropagationLayer::Compute, kind.clone());
    q.enqueue_propagation(PropagationLayer::Compute, kind);
    let plan = q.plan_flush_propagation();
    assert_eq!(plan.processed_events, 2);
    assert_eq!(plan.skipped_events, 1);
    assert_eq!(plan.to_apply.len(), 1);
}

#[test]
fn conflict_classes() {
    let sem = PropagationEventKind::Semantic(SemanticEvent::FunctionSignatureChanged { function_id: FunctionId(1) });
    let comp = PropagationEventKind::Compute(ComputeEvent::NodeModified {
        function_id: FunctionId(1),
        node_id: NodeId(1),
        op_kind: "Add".to_string(),
    });
    assert_eq!(classify_conflict(&comp, &sem), ConflictPriorityClass::DiagnosticRequired);
}

#[test]
fn compute_node_classification() {
    let n = ComputeNode::core_node(ComputeOp::Return, FunctionId(1));
    assert_eq!(n.tier(), 1);
    assert!(n.is_terminator());
    assert!(!n.is_io());
    let n = ComputeNode::core_node(ComputeOp::Print, FunctionId(1));
    assert!(n.is_io());
    assert!(!n.is_control_flow());
    let n = ComputeNode::core_node(ComputeOp::Branch, FunctionId(1));
    assert!(n.is_control_flow());
    assert!(n.is_terminator());
    let n = ComputeNode::structured(StructuredOp::ArrayCreate { length: 3 }, FunctionId(2));
    assert_eq!(n.tier(), 2);
    assert!(!n.is_control_flow());
    let n = ComputeNode::new(ComputeNodeOp::Core(ComputeOp::IfElse), FunctionId(2));
    assert!(n.is_control_flow());
    assert!(!n.is_terminator());
}
