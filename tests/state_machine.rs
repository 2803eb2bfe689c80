use aether_kernel::state_machine::{Workflow, WorkflowState};

#[test]
fn test_workflow_lifecycle() {
    let workflow = Workflow::new("wf-1".to_string(), "test-workflow".to_string(), b"input".to_vec());

    assert!(matches!(workflow.state, WorkflowState::Pending));

    let started = workflow.state.start().unwrap();
    assert!(matches!(started, WorkflowState::Running { .. }));

    let step_started = started.step_started("step1").unwrap();
    assert!(matches!(
        step_started,
        WorkflowState::Running { current_step: Some(ref step) } if step == "step1"
    ));

    let step_completed = step_started.step_completed().unwrap();
    assert!(matches!(step_completed, WorkflowState::Running { current_step: None }));

    let completed = step_completed.complete(b"result".to_vec()).unwrap();
    assert!(matches!(
        completed,
        WorkflowState::Completed { result } if result == b"result"
    ));
}

fn all_states() -> Vec<WorkflowState> {
    vec![
        WorkflowState::Pending,
        WorkflowState::Running { current_step: None },
        WorkflowState::Running { current_step: Some("s".to_string()) },
        WorkflowState::Completed { result: vec![1] },
        WorkflowState::Failed { error: "e".to_string() },
        WorkflowState::Cancelled,
    ]
}

#[test]
fn terminal_states_reject_every_transition() {
    for s in all_states() {
        let terminal = matches!(
            s,
            WorkflowState::Completed { .. } | WorkflowState::Failed { .. } | WorkflowState::Cancelled
        );
        if terminal {
            assert!(s.start().is_none());
            assert!(s.step_started("x").is_none());
            assert!(s.step_completed().is_none());
            assert!(s.complete(vec![]).is_none());
            assert!(s.fail("x".to_string()).is_none());
            assert!(s.cancel().is_none());
        }
    }
}

#[test]
fn transitions_follow_the_state_graph() {
    let pending = WorkflowState::Pending;
    assert!(pending.step_started("a").is_none());
    assert!(pending.step_completed().is_none());
    assert!(pending.complete(vec![]).is_none());
    assert!(pending.fail("x".to_string()).is_none());
    assert!(matches!(pending.cancel(), Some(WorkflowState::Cancelled)));

    let running = WorkflowState::Running { current_step: Some("a".to_string()) };
    assert!(running.start().is_none());
    assert!(matches!(running.fail("boom".to_string()), Some(WorkflowState::Failed { error }) if error == "boom"));
    assert!(matches!(running.cancel(), Some(WorkflowState::Cancelled)));
    assert!(matches!(running.step_completed(), Some(WorkflowState::Running { current_step: None })));
}

#[test]
fn cancel_is_a_no_op_on_completed_and_works_on_pending() {
    let done = WorkflowState::Completed { result: vec![7] };
    assert!(done.cancel().is_none());
    assert!(matches!(WorkflowState::Pending.cancel(), Some(WorkflowState::Cancelled)));
}

#[test]
fn new_workflow_has_equal_timestamps_and_no_steps() {
    let w = Workflow::new("a".to_string(), "t".to_string(), vec![]);
    assert_eq!(w.started_at, w.updated_at);
    assert!(w.started_at.seconds > 0);
    assert!(w.steps_completed.is_empty());
    assert!(!w.is_complete());
    assert!(!w.is_failed());
    assert!(w.can_retry("start", 3));
    let mut w2 = w.clone();
    w2.steps_completed.push(("start".to_string(), vec![1]));
    assert!(!w2.can_retry("start", 3));
    assert!(w2.can_retry("other", 3));
}
