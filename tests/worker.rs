use aether_kernel::execution::{AetherKernel, ExecutionContext, ExecutionResult, ExecutionStatus};
use aether_kernel::worker::Worker;

#[test]
fn test_worker_creation() {
    let worker = Worker::new("worker-1".to_string(), vec!["test-type".to_string()]);

    assert_eq!(worker.id, "worker-1");
    assert_eq!(worker.workflow_types, vec!["test-type"]);
    assert_eq!(worker.poll_interval_ms, 100);
    assert_eq!(worker.max_tasks_per_poll, 10);
}

#[test]
fn test_worker_builder_pattern() {
    let worker = Worker::new("worker-1".to_string(), vec![])
        .with_poll_interval(500)
        .with_max_tasks_per_poll(5);

    assert_eq!(worker.poll_interval_ms, 500);
    assert_eq!(worker.max_tasks_per_poll, 5);
}

#[test]
fn execution_results() {
    let _ctx = ExecutionContext::new();
    let ok = ExecutionResult::success();
    assert_eq!(ok.status, ExecutionStatus::Completed);
    assert!(ok.error.is_none());
    let bad = ExecutionResult::failed("x".to_string());
    assert_eq!(bad.status, ExecutionStatus::Failed);
    assert_eq!(bad.error, Some("x".to_string()));
    assert_eq!(ExecutionResult::new(ExecutionStatus::Pending).status, ExecutionStatus::Pending);
    assert!(AetherKernel::new().start().is_ok());
}
