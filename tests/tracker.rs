use aether_kernel::tracker::{StepExecutionStatus, WorkflowTracker};

#[test]
fn test_tracker_workflow_lifecycle() {
    let mut tracker = WorkflowTracker::new();

    tracker.start_workflow("wf-1".to_string(), "test-type".to_string());

    let step = tracker.step_started("wf-1", "step-1", vec![1, 2, 3], vec![]);

    assert_eq!(step.status, StepExecutionStatus::Running);
    assert!(step.started_at.is_some());

    tracker.step_completed("wf-1", "step-1", vec![4, 5, 6]);

    let execution = tracker.get_execution("wf-1").unwrap();
    assert!(execution.has_step("step-1"));
    assert_eq!(execution.current_step, None);

    tracker.step_started("wf-1", "step-2", vec![], vec!["step-1".to_string()]);

    tracker.step_failed("wf-1", "step-2", "Test error".to_string());

    let execution = tracker.get_execution("wf-1").unwrap();
    let step2 = execution.get_step("step-2").unwrap();
    assert!(matches!(
        &step2.status,
        StepExecutionStatus::Failed { error } if error == "Test error"
    ));
}

#[test]
fn test_get_active_executions() {
    let mut tracker = WorkflowTracker::new();

    tracker.start_workflow("wf-1".to_string(), "test".to_string());
    tracker.start_workflow("wf-2".to_string(), "test".to_string());

    let active = tracker.get_active_executions();
    assert_eq!(active.len(), 2);

    tracker.workflow_completed("wf-1");

    let active = tracker.get_active_executions();
    assert_eq!(active.len(), 1);
    assert_eq!(active[0].workflow_id, "wf-2");
}

#[test]
fn failure_counts_attempts_and_sets_current_step() {
    let mut tracker = WorkflowTracker::new();
    tracker.start_workflow("w".to_string(), "t".to_string());
    tracker.step_started("w", "s", vec![], vec![]);
    tracker.step_failed("w", "s", "e1".to_string());
    tracker.step_failed("w", "s", "e2".to_string());
    let e = tracker.get_execution("w").unwrap();
    let s = e.get_step("s").unwrap();
    assert_eq!(s.attempt, 3);
    assert!(s.completed_at.is_some());
    assert_eq!(e.current_step, Some("s".to_string()));
    assert_eq!(s.status.name(), "failed");
}

#[test]
fn unknown_workflow_is_a_silent_no_op() {
    let mut tracker = WorkflowTracker::new();
    let step = tracker.step_started("ghost", "s", vec![1], vec![]);
    assert_eq!(step.attempt, 1);
    tracker.step_completed("ghost", "s", vec![]);
    tracker.workflow_failed("ghost");
    assert!(tracker.get_execution("ghost").is_none());
    assert!(tracker.get_all_executions().is_empty());
}

#[test]
fn remove_and_clear() {
    let mut tracker = WorkflowTracker::new();
    tracker.start_workflow("a".to_string(), "t".to_string());
    tracker.start_workflow("b".to_string(), "t".to_string());
    tracker.start_workflow("a".to_string(), "t2".to_string());
    assert_eq!(tracker.get_all_executions().len(), 2);
    assert_eq!(tracker.get_execution("a").unwrap().workflow_type, "t2");
    tracker.remove("a");
    assert_eq!(tracker.get_all_executions().len(), 1);
    tracker.clear();
    assert!(tracker.get_all_executions().is_empty());
}

#[test]
fn finished_workflow_clears_current_step() {
    let mut tracker = WorkflowTracker::new();
    tracker.start_workflow("a".to_string(), "t".to_string());
    tracker.step_started("a", "s", vec![], vec![]);
    tracker.workflow_failed("a");
    let e = tracker.get_execution("a").unwrap();
    assert!(e.completed_at.is_some());
    assert_eq!(e.current_step, None);
    assert!(tracker.get_active_executions().is_empty());
}

use aether_kernel::clock::Timestamp;
use aether_kernel::dashboard::{workflow_detail, workflow_history};

#[test]
fn history_is_ordered_by_start_time() {
    let mut tracker = WorkflowTracker::new();
    tracker.start_workflow("w".to_string(), "t".to_string());
    tracker.step_started_at("w", "late", vec![], vec![], Timestamp { seconds: 20, nanos: 0 });
    tracker.step_started_at("w", "early", vec![], vec![], Timestamp { seconds: 10, nanos: 0 });
    tracker.step_completed_at("w", "early", vec![], Timestamp { seconds: 13, nanos: 0 });
    let e = tracker.get_execution("w").unwrap();
    let history = workflow_history(&e);
    assert_eq!(history.len(), 2);
    assert_eq!(history[0].step_name, "early");
    assert_eq!(history[0].timestamp, 10);
    assert_eq!(history[0].duration_ms, Some(3000));
    assert_eq!(history[0].status, "completed");
    assert_eq!(history[1].step_name, "late");
    assert_eq!(history[1].duration_ms, None);
    let detail = workflow_detail(&e);
    assert_eq!(detail.step_executions[0].step_name, "late");
    assert_eq!(detail.completed_at, None);
}
