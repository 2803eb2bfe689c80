use aether_kernel::api::default_timeout;
use aether_kernel::broadcaster::{EventPayload, EventType};
use aether_kernel::dashboard::{answer, ApiRequest, ApiResponse};
use aether_kernel::persistence::{L0MemoryStore, Persistence};
use aether_kernel::scheduler::{ClientService, KernelError, Scheduler, StepStatus};
use aether_kernel::state_machine::{Workflow, WorkflowState};
use aether_kernel::tracker::StepExecutionStatus;
use aether_kernel::workflow::WorkflowExecutor;

fn service() -> ClientService<L0MemoryStore> {
    ClientService::new(Scheduler::new(L0MemoryStore::new()))
}

#[test]
fn happy_path() {
    let mut svc = service();
    let x = svc.start_workflow("echo".to_string(), vec![0x01, 0x02]);
    assert_eq!(x.len(), 36);
    let reg = svc.register("w1".to_string(), "svc".to_string(), "g".to_string(), vec!["echo".to_string()], vec![]);
    assert_eq!(reg.unwrap().0, "aether-server-1");
    let tasks = svc.poll_tasks("w1", 10);
    assert_eq!(tasks.len(), 1);
    assert_eq!(tasks[0].step_name, "start");
    assert_eq!(tasks[0].input, vec![0x01, 0x02]);
    assert!(svc.complete_step(&format!("{}-start", x), vec![0x09], String::new()));
    assert_eq!(svc.scheduler.persistence.get_step_result(&x, "start"), Some(vec![0x09]));
    let w = svc.scheduler.persistence.get_workflow(&x).unwrap();
    assert!(matches!(w.state, WorkflowState::Running { current_step: None }));
    let e = svc.scheduler.tracker.get_execution(&x).unwrap();
    assert_eq!(e.get_step("start").unwrap().status, StepExecutionStatus::Completed);
}

#[test]
fn unknown_worker_gets_nothing() {
    let mut svc = service();
    svc.start_workflow("echo".to_string(), vec![]);
    assert!(svc.poll_tasks("ghost", 5).is_empty());
}

#[test]
fn type_mismatch_gets_nothing() {
    let mut svc = service();
    svc.start_workflow("echo".to_string(), vec![]);
    svc.register("w".to_string(), "svc".to_string(), "g".to_string(), vec!["other".to_string()], vec![]).unwrap();
    assert!(svc.poll_tasks("w", 5).is_empty());
}

#[test]
fn cancellation_after_start() {
    let mut svc = service();
    let x = svc.start_workflow("t".to_string(), vec![]);
    assert_eq!(svc.cancel_workflow(&x), Ok(true));
    let w = svc.scheduler.persistence.get_workflow(&x).unwrap();
    assert!(matches!(w.state, WorkflowState::Cancelled));
    assert!(svc.complete_step(&format!("{}-start", x), vec![], String::new()));
    let w = svc.scheduler.persistence.get_workflow(&x).unwrap();
    assert!(matches!(w.state, WorkflowState::Cancelled));
    assert_eq!(svc.cancel_workflow(&x), Ok(true));
    let r = svc.await_result(&x).unwrap();
    assert_eq!(r.state, 4);
}

#[test]
fn failure_reporting() {
    let mut svc = service();
    let x = svc.start_workflow("t".to_string(), vec![]);
    svc.register("w".to_string(), "s".to_string(), "g".to_string(), vec!["t".to_string()], vec![]).unwrap();
    svc.poll_tasks("w", 1);
    let mut rx = svc.scheduler.broadcaster.subscribe();
    assert!(svc.report_step(&x, "start", StepStatus::Failed, vec![], vec![], "boom".to_string()));
    let e = svc.scheduler.tracker.get_execution(&x).unwrap();
    let s = e.get_step("start").unwrap();
    assert_eq!(s.status, StepExecutionStatus::Failed { error: "boom".to_string() });
    assert_eq!(s.attempt, 2);
    let ev = rx.try_recv().unwrap();
    assert_eq!(ev.event_type, EventType::StepFailed);
    assert_eq!(ev.workflow_type, "t");
    assert!(matches!(ev.payload, EventPayload::StepFailed(ref p) if p.attempt == 1 && p.error == "boom"));
}

#[test]
fn report_started_and_completed() {
    let mut svc = service();
    let x = svc.start_workflow("t".to_string(), vec![]);
    svc.report_step(&x, "a", StepStatus::Started, vec![3], vec![], String::new());
    assert_eq!(svc.scheduler.tracker.get_execution(&x).unwrap().current_step, Some("a".to_string()));
    svc.report_step(&x, "a", StepStatus::Completed, vec![], vec![4], String::new());
    let e = svc.scheduler.tracker.get_execution(&x).unwrap();
    assert_eq!(e.get_step("a").unwrap().output, Some(vec![4]));
    assert_eq!(e.current_step, None);
}

#[test]
fn failed_completion_fails_the_workflow() {
    let mut svc = service();
    let x = svc.start_workflow("t".to_string(), vec![]);
    svc.complete_step(&x, vec![], "bad".to_string());
    let st = svc.get_workflow_status(&x).unwrap();
    assert_eq!(st.state, 3);
    assert_eq!(st.error, "bad");
    let r = svc.await_result(&x).unwrap();
    assert_eq!((r.state, r.error.as_str()), (3, "bad"));
}

#[test]
fn status_and_errors() {
    let mut svc = service();
    assert_eq!(svc.get_workflow_status("nope").unwrap_err(), KernelError::NotFound);
    assert_eq!(svc.await_result("nope").unwrap_err(), KernelError::NotFound);
    assert_eq!(svc.cancel_workflow("nope"), Err(KernelError::NotFound));
    let x = svc.start_workflow_with_id("fixed".to_string(), "t".to_string(), vec![]);
    assert_eq!(x, "fixed");
    let st = svc.get_workflow_status("fixed").unwrap();
    assert_eq!((st.state, st.current_step.as_str(), st.completed_at), (1, "", 0));
    assert_eq!(svc.await_result("fixed").unwrap_err(), KernelError::FailedPrecondition);
    let bad = svc.register("w".to_string(), "s".to_string(), "g".to_string(), vec![], vec![("r".to_string(), 7)]);
    assert_eq!(bad.unwrap_err(), KernelError::InvalidArgument);
    assert!(svc.poll_tasks("w", 0).is_empty());
    assert!(svc.heartbeat("w"));
    assert_eq!(default_timeout(), 30);
}

#[test]
fn completed_workflow_reports_its_result() {
    let mut svc = service();
    let x = svc.start_workflow_with_id("c".to_string(), "t".to_string(), vec![]);
    svc.scheduler.persistence.update_workflow_state(&x, WorkflowState::Completed { result: vec![5] });
    let st = svc.get_workflow_status(&x).unwrap();
    assert_eq!(st.state, 2);
    assert_eq!(st.result, vec![5]);
    let r = svc.await_result(&x).unwrap();
    assert_eq!((r.state, r.result), (2, vec![5]));
    assert_eq!(svc.cancel_workflow(&x), Ok(true));
    assert_eq!(svc.await_result(&x).unwrap().state, 2);
}

#[test]
fn executor_runs_one_workflow() {
    let w = Workflow::new("e".to_string(), "t".to_string(), vec![1]);
    let mut ex = WorkflowExecutor::new(w);
    assert!(ex.poll_task().is_none());
    assert!(ex.start().is_ok());
    assert!(ex.start().is_err());
    let t = ex.poll_task().unwrap();
    assert_eq!(t.task_id, "e-start");
    assert!(ex.complete_step("start", vec![2]).is_ok());
    assert_eq!(ex.workflow().steps_completed, vec![("start".to_string(), vec![2])]);
    assert!(ex.complete_step("start", vec![3]).is_ok());
    assert_eq!(ex.workflow().steps_completed.len(), 1);
}

#[test]
fn dashboard_answers_from_the_tracker() {
    let mut svc = service();
    let x = svc.start_workflow_with_id("d".to_string(), "t".to_string(), vec![]);
    svc.report_step(&x, "a", StepStatus::Started, vec![], vec![], String::new());
    match answer(&svc.scheduler.tracker, &ApiRequest::ListActiveWorkflows) {
        ApiResponse::WorkflowList { workflows } => assert_eq!(workflows.len(), 1),
        _ => panic!("expected a list"),
    }
    match answer(&svc.scheduler.tracker, &ApiRequest::GetWorkflow { workflow_id: "d".to_string() }) {
        ApiResponse::WorkflowDetail { detail } => {
            assert_eq!(detail.step_executions.len(), 1);
            assert_eq!(detail.step_executions[0].status, "running");
        }
        _ => panic!("expected a detail"),
    }
    match answer(&svc.scheduler.tracker, &ApiRequest::GetWorkflowHistory { workflow_id: "zz".to_string() }) {
        ApiResponse::Error { message } => assert_eq!(message, "Workflow not found: zz"),
        _ => panic!("expected an error"),
    }
}
