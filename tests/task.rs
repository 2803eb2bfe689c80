use aether_kernel::scheduler::KernelError;
use aether_kernel::task::{make_task_id, parse_task_id, ResourceType, RetryPolicy};

#[test]
fn task_id_parses_at_last_dash() {
    let (w, s) = parse_task_id("550e8400-e29b-41d4-a716-446655440000-start").unwrap();
    assert_eq!(w, "550e8400-e29b-41d4-a716-446655440000");
    assert_eq!(s, "start");
}

#[test]
fn task_id_without_dash_is_rejected() {
    assert_eq!(parse_task_id("nodash").unwrap_err(), KernelError::InvalidArgument);
    assert!(parse_task_id("").is_err());
    let (w, s) = parse_task_id("-x").unwrap();
    assert_eq!(w, "");
    assert_eq!(s, "x");
}

#[test]
fn task_id_round_trip() {
    let id = make_task_id("a-b-c", "start");
    assert_eq!(id, "a-b-c-start");
    let (w, s) = parse_task_id(&id).unwrap();
    assert_eq!((w.as_str(), s.as_str()), ("a-b-c", "start"));
}

#[test]
fn resource_type_codes() {
    assert_eq!(ResourceType::from_code(0), Some(ResourceType::Step));
    assert_eq!(ResourceType::from_code(1), Some(ResourceType::Activity));
    assert_eq!(ResourceType::from_code(2), Some(ResourceType::Workflow));
    assert_eq!(ResourceType::from_code(3), None);
    assert_eq!(ResourceType::Workflow.code(), 2);
    let p = RetryPolicy::default_policy();
    assert_eq!((p.max_attempts, p.initial_interval, p.backoff_multiplier_milli), (3, 1000, 2000));
}

use aether_kernel::task::Task;
use aether_kernel::task_stream::TaskStream;

fn task(id: &str) -> Task {
    Task {
        task_id: id.to_string(),
        workflow_id: "w".to_string(),
        step_name: "start".to_string(),
        target_service: None,
        target_resource: None,
        resource_type: ResourceType::Step,
        input: vec![],
        retry: None,
        workflow_type: "t".to_string(),
    }
}

#[test]
fn stream_sends_each_task_once_until_acknowledged() {
    let mut stream = TaskStream::new();
    let first = stream.offer(vec![task("a"), task("b"), task("a")]);
    assert_eq!(first.iter().map(|t| t.task_id.as_str()).collect::<Vec<_>>(), vec!["a", "b"]);
    assert!(stream.was_sent("a"));
    assert!(stream.offer(vec![task("a"), task("b")]).is_empty());
    stream.ack("a");
    assert!(!stream.was_sent("a"));
    let again = stream.offer(vec![task("a"), task("b")]);
    assert_eq!(again.len(), 1);
    assert_eq!(again[0].task_id, "a");
}
