use aether_kernel::broadcaster::EventType;
use aether_kernel::persistence::{L0MemoryStore, Persistence};
use aether_kernel::scheduler::{can_worker_handle_task, Scheduler, WorkerInfo};
use aether_kernel::clock::Timestamp;
use aether_kernel::state_machine::{Workflow, WorkflowState};
use aether_kernel::task::ResourceType;
use aether_kernel::tracker::StepExecutionStatus;

#[test]
fn test_task_scheduling() {
    let mut store = L0MemoryStore::new();

    let workflow = Workflow::new("test-wf".to_string(), "test-type".to_string(), b"test-input".to_vec());

    store.save_workflow(&workflow);

    let started_state = workflow.state.start().unwrap();
    store.update_workflow_state("test-wf", started_state);

    let mut scheduler = Scheduler::new(store);

    scheduler.register_worker(
        "worker-1".to_string(),
        "test-service".to_string(),
        "test-group".to_string(),
        vec!["test-type".to_string()],
        vec![],
    );

    let tasks = scheduler.poll_tasks("worker-1", 1);
    assert_eq!(tasks.len(), 1);
    assert_eq!(tasks[0].step_name, "start");
}

#[test]
fn test_tracker_integration() {
    let store = L0MemoryStore::new();
    let mut scheduler = Scheduler::new(store);

    scheduler.tracker.start_workflow("wf-1".to_string(), "test-type".to_string());

    let step = scheduler.tracker.step_started("wf-1", "step-1", vec![1, 2, 3], vec![]);

    assert_eq!(step.status, StepExecutionStatus::Running);

    scheduler.tracker.step_completed("wf-1", "step-1", vec![4, 5, 6]);

    let execution = scheduler.tracker.get_execution("wf-1");
    assert!(execution.is_some());
    assert_eq!(execution.unwrap().step_executions.len(), 1);
}

#[test]
fn test_broadcaster() {
    let store = L0MemoryStore::new();
    let mut scheduler = Scheduler::new(store);

    let mut rx = scheduler.broadcaster.subscribe();

    let count = scheduler
        .broadcaster
        .broadcast_step_completed("wf-1", "test-type", "step-1", vec![1, 2, 3])
        .unwrap();

    assert_eq!(count, 1);

    let event = rx.try_recv().unwrap();
    assert_eq!(event.workflow_id, "wf-1");
    assert_eq!(event.event_type, EventType::StepCompleted);
}

fn running_store(ids: &[(&str, &str)]) -> L0MemoryStore {
    let mut store = L0MemoryStore::new();
    for (id, ty) in ids {
        let w = Workflow::new(id.to_string(), ty.to_string(), vec![1]);
        store.save_workflow(&w);
        store.update_workflow_state(id, WorkflowState::Running { current_step: None });
    }
    store
}

#[test]
fn poll_is_bounded_and_skips_other_states() {
    let mut store = running_store(&[("a", "t"), ("b", "t"), ("c", "t")]);
    let pending = Workflow::new("d".to_string(), "t".to_string(), vec![]);
    store.save_workflow(&pending);
    store.save_workflow(&Workflow::new("e".to_string(), "t".to_string(), vec![]));
    store.update_workflow_state("e", WorkflowState::Running { current_step: Some("x".to_string()) });
    let mut scheduler = Scheduler::new(store);
    scheduler.register_worker("w".to_string(), "s".to_string(), "g".to_string(), vec!["t".to_string()], vec![]);
    assert_eq!(scheduler.poll_tasks("w", 2).len(), 2);
    assert_eq!(scheduler.poll_tasks("w", 10).len(), 3);
    assert!(scheduler.poll_tasks("w", 0).is_empty());
}

#[test]
fn worker_with_matching_resource_gets_the_task() {
    let store = running_store(&[("a", "t")]);
    let mut scheduler = Scheduler::new(store);
    scheduler.register_worker(
        "w".to_string(),
        "s".to_string(),
        "g".to_string(),
        vec![],
        vec![("anything".to_string(), ResourceType::Step)],
    );
    scheduler.register_worker(
        "v".to_string(),
        "s".to_string(),
        "g".to_string(),
        vec![],
        vec![("x".to_string(), ResourceType::Activity)],
    );
    assert_eq!(scheduler.poll_tasks("w", 5).len(), 1);
    assert!(scheduler.poll_tasks("v", 5).is_empty());
}

#[test]
fn capability_match_rules() {
    let worker = WorkerInfo {
        id: "w".to_string(),
        service_name: "svc".to_string(),
        group: "g".to_string(),
        workflow_types: vec!["echo".to_string()],
        resources: vec![("proc".to_string(), ResourceType::Activity)],
        last_seen: Timestamp { seconds: 0, nanos: 0 },
    };
    assert!(can_worker_handle_task(&worker, &None, &None, ResourceType::Step, "echo"));
    assert!(!can_worker_handle_task(&worker, &None, &None, ResourceType::Step, "other"));
    assert!(can_worker_handle_task(&worker, &None, &Some("proc".to_string()), ResourceType::Activity, "other"));
    assert!(!can_worker_handle_task(&worker, &None, &Some("nope".to_string()), ResourceType::Activity, "other"));
    assert!(can_worker_handle_task(&worker, &Some("svc".to_string()), &None, ResourceType::Workflow, "x"));
    assert!(!can_worker_handle_task(&worker, &Some("else".to_string()), &None, ResourceType::Workflow, "x"));
    assert!(can_worker_handle_task(&worker, &Some("else".to_string()), &None, ResourceType::Activity, "x"));
}

#[test]
fn completion_of_unknown_task_changes_nothing() {
    let store = running_store(&[("a", "t")]);
    let mut scheduler = Scheduler::new(store);
    scheduler.complete_task("a-start", vec![5]);
    assert_eq!(scheduler.persistence.get_step_result("a", "start"), None);
}

#[test]
fn poll_records_dispatch_and_completion_advances() {
    let store = running_store(&[("a", "t")]);
    let mut scheduler = Scheduler::new(store);
    scheduler.tracker.start_workflow("a".to_string(), "t".to_string());
    let mut rx = scheduler.broadcaster.subscribe();
    scheduler.register_worker("w".to_string(), "s".to_string(), "g".to_string(), vec!["t".to_string()], vec![]);
    let tasks = scheduler.poll_tasks("w", 10);
    assert_eq!(tasks[0].task_id, "a-start");
    let started = rx.try_recv().unwrap();
    assert_eq!(started.event_type, EventType::StepStarted);
    assert_eq!(started.workflow_type, "t");
    let e = scheduler.tracker.get_execution("a").unwrap();
    assert_eq!(e.get_step("start").unwrap().status, StepExecutionStatus::Running);

    scheduler.complete_task("a-start", vec![7]);
    assert_eq!(scheduler.persistence.get_step_result("a", "start"), Some(vec![7]));
    let w = scheduler.persistence.get_workflow("a").unwrap();
    assert!(matches!(w.state, WorkflowState::Running { current_step: None }));
    let done = rx.try_recv().unwrap();
    assert_eq!(done.event_type, EventType::StepCompleted);
    assert_eq!(done.workflow_type, "t");
    assert!(rx.try_recv().is_err());
    scheduler.complete_task("a-start", vec![8]);
    assert_eq!(scheduler.persistence.get_step_result("a", "start"), Some(vec![7]));
}
