use lmlang::api_error::ApiError;
use lmlang::ids::FunctionId;
use lmlang::lock_api::acquire_locks;
use lmlang::lock_manager::{AgentId, LockError, LockManager};

#[test]
fn denied_write_leaves_holder_in_place() {
    let mut lm = LockManager::with_default_ttl();
    let a = AgentId(1);
    let b = AgentId(2);
    lm.try_acquire_write(&a, FunctionId(7), Some("editing".into())).unwrap();
    match lm.try_acquire_write(&b, FunctionId(7), None) {
        Err(LockError::AlreadyHeldBy(d)) => {
            assert_eq!(d.function_id, FunctionId(7));
            assert_eq!(d.holder_agent_id, a);
            assert_eq!(d.holder_description.as_deref(), Some("editing"));
        }
        other => panic!("unexpected {:?}", other),
    }
    let status = lm.status();
    assert_eq!(status.len(), 1);
    assert_eq!(status[0].state, "write");
}

#[test]
fn denied_read_reports_queue_place_stably() {
    let mut lm = LockManager::with_default_ttl();
    let a = AgentId(1);
    let b = AgentId(2);
    lm.try_acquire_write(&a, FunctionId(3), None).unwrap();
    let first = match lm.try_acquire_read(&b, FunctionId(3)) {
        Err(LockError::AlreadyHeldBy(d)) => d.queue_position,
        other => panic!("unexpected {:?}", other),
    };
    let second = match lm.try_acquire_read(&b, FunctionId(3)) {
        Err(LockError::AlreadyHeldBy(d)) => d.queue_position,
        other => panic!("unexpected {:?}", other),
    };
    assert_eq!(first, 1);
    assert_eq!(second, 1);
    assert!(lm.try_acquire_read(&a, FunctionId(3)).is_ok());
}

#[test]
fn acquire_locks_succeeds_on_free_functions_and_is_denied_on_held_ones() {
    let mut lm = LockManager::with_default_ttl();
    let a = AgentId(1);
    let b = AgentId(2);
    let ok = acquire_locks(&mut lm, &a, vec![1, 2], "WRITE", None).unwrap();
    assert_eq!(ok.grants.len(), 2);
    match acquire_locks(&mut lm, &b, vec![2, 0], "write", None) {
        Err(ApiError::LockDenied(d)) => assert_eq!(d.function_id, FunctionId(2)),
        other => panic!("unexpected {:?}", other),
    }
    // the lock taken on function 0 before the denial was released again
    assert!(lm.try_acquire_write(&a, FunctionId(0), None).is_ok());
    let reads = acquire_locks(&mut lm, &b, vec![9], "read", None).unwrap();
    assert_eq!(reads.grants[0].mode, "read");
}
