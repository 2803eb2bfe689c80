use aether_kernel::persistence::{L0MemoryStore, L1SnapshotStore, Persistence};
use aether_kernel::state_machine::{Workflow, WorkflowState};

#[test]
fn test_l0_memory_store() {
    let mut store = L0MemoryStore::new();

    let workflow = Workflow::new("test-wf".to_string(), "test-type".to_string(), b"test-input".to_vec());

    store.save_workflow(&workflow);

    let retrieved = store.get_workflow("test-wf");
    assert!(retrieved.is_some());
    assert_eq!(retrieved.unwrap().workflow_type, "test-type");
}

#[test]
fn test_list_workflows_by_type() {
    let mut store = L0MemoryStore::new();

    let wf1 = Workflow::new("wf1".to_string(), "type-a".to_string(), b"input".to_vec());
    let wf2 = Workflow::new("wf2".to_string(), "type-b".to_string(), b"input".to_vec());
    let wf3 = Workflow::new("wf3".to_string(), "type-a".to_string(), b"input".to_vec());

    store.save_workflow(&wf1);
    store.save_workflow(&wf2);
    store.save_workflow(&wf3);

    let type_a_workflows = store.list_workflows(Some("type-a"));
    assert_eq!(type_a_workflows.len(), 2);

    let all_workflows = store.list_workflows(None);
    assert_eq!(all_workflows.len(), 3);
}

#[test]
fn test_step_results() {
    let mut store = L0MemoryStore::new();

    let workflow = Workflow::new("wf1".to_string(), "test".to_string(), b"input".to_vec());
    store.save_workflow(&workflow);

    store.save_step_result("wf1", "step1", b"result1".to_vec());
    store.save_step_result("wf1", "step2", b"result2".to_vec());

    let step1_result = store.get_step_result("wf1", "step1");
    assert_eq!(step1_result, Some(b"result1".to_vec()));

    let step3_result = store.get_step_result("wf1", "step3");
    assert_eq!(step3_result, None);
}

#[test]
fn test_update_workflow_state() {
    let mut store = L0MemoryStore::new();

    let workflow = Workflow::new("wf1".to_string(), "test".to_string(), b"input".to_vec());
    store.save_workflow(&workflow);

    let initial = store.get_workflow("wf1").unwrap();
    assert!(matches!(initial.state, WorkflowState::Pending));

    store.update_workflow_state("wf1", WorkflowState::Running { current_step: None });

    let updated = store.get_workflow("wf1").unwrap();
    assert!(matches!(updated.state, WorkflowState::Running { .. }));
}

#[test]
fn save_then_get_returns_the_workflow() {
    let mut store = L1SnapshotStore::new(5);
    assert_eq!(store.snapshot_interval(), 5);
    let w = Workflow::new("id-1".to_string(), "t".to_string(), vec![1, 2, 3]);
    store.save_workflow(&w);
    let got = store.get_workflow("id-1").unwrap();
    assert_eq!(got.id, "id-1");
    assert_eq!(got.workflow_type, "t");
    assert_eq!(got.input, vec![1, 2, 3]);
    assert_eq!(got.started_at, w.started_at);
    assert_eq!(got.updated_at, w.updated_at);
    assert!(store.get_workflow("other").is_none());
}

#[test]
fn save_is_an_upsert_and_update_refreshes_time() {
    let mut store = L0MemoryStore::new();
    let w = Workflow::new("a".to_string(), "t1".to_string(), vec![]);
    store.save_workflow(&w);
    let w2 = Workflow::new("a".to_string(), "t2".to_string(), vec![9]);
    store.save_workflow(&w2);
    assert_eq!(store.list_workflows(None).len(), 1);
    assert_eq!(store.get_workflow("a").unwrap().workflow_type, "t2");

    store.update_workflow_state("a", WorkflowState::Cancelled);
    let got = store.get_workflow("a").unwrap();
    assert!(matches!(got.state, WorkflowState::Cancelled));
    assert!(got.updated_at.seconds >= got.started_at.seconds);

    store.update_workflow_state("missing", WorkflowState::Cancelled);
    assert!(store.get_workflow("missing").is_none());
}

#[test]
fn list_filter_matches_exactly() {
    let mut store = L0MemoryStore::new();
    store.save_workflow(&Workflow::new("1".to_string(), "a".to_string(), vec![]));
    store.save_workflow(&Workflow::new("2".to_string(), "ab".to_string(), vec![]));
    let only_a = store.list_workflows(Some("a"));
    assert_eq!(only_a.len(), 1);
    assert_eq!(only_a[0].id, "1");
    assert!(store.list_workflows(Some("zzz")).is_empty());
}

#[test]
fn step_result_is_an_upsert() {
    let mut store = L0MemoryStore::new();
    store.save_step_result("w", "s", vec![1]);
    store.save_step_result("w", "s", vec![2]);
    assert_eq!(store.get_step_result("w", "s"), Some(vec![2]));
    assert_eq!(store.get_step_result("x", "s"), None);
}
