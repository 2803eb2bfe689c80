use aether_kernel::broadcaster::{BroadcastError, EventBroadcaster, EventPayload, EventType, WorkflowEvent};
use tokio::sync::broadcast::error::TryRecvError;

#[test]
fn test_broadcast_step_started() {
    let mut broadcaster = EventBroadcaster::new();
    let mut rx = broadcaster.subscribe();

    let count = broadcaster
        .broadcast_step_started("wf-1", "test-type", "step-1", vec![1, 2, 3])
        .unwrap();

    assert_eq!(count, 1);

    let event = rx.try_recv().unwrap();
    assert_eq!(event.workflow_id, "wf-1");
    assert_eq!(event.event_type, EventType::StepStarted);

    if let EventPayload::StepStarted(payload) = event.payload {
        assert_eq!(payload.step_name, "step-1");
        assert_eq!(payload.input, vec![1, 2, 3]);
    } else {
        panic!("Expected StepStarted payload");
    }
}

#[test]
fn test_multiple_subscribers() {
    let mut broadcaster = EventBroadcaster::new();
    let mut rx1 = broadcaster.subscribe();
    let mut rx2 = broadcaster.subscribe();

    broadcaster
        .broadcast_step_completed("wf-1", "test", "step-1", vec![4, 5, 6])
        .unwrap();

    let event1 = rx1.try_recv().unwrap();
    let event2 = rx2.try_recv().unwrap();

    assert_eq!(event1.event_type, EventType::StepCompleted);
    assert_eq!(event2.event_type, EventType::StepCompleted);
}

#[test]
fn broadcast_without_subscribers_fails() {
    let mut broadcaster = EventBroadcaster::new();
    assert_eq!(broadcaster.subscriber_count(), 0);
    let r = broadcaster.broadcast_workflow_failed("w", "t", "e".to_string());
    assert_eq!(r, Err(BroadcastError::NoSubscribers));
}

#[test]
fn fan_out_reaches_every_subscriber_once() {
    let mut broadcaster = EventBroadcaster::new();
    let mut rxs: Vec<_> = (0..4).map(|_| broadcaster.subscribe()).collect();
    assert_eq!(broadcaster.subscriber_count(), 4);
    let n = broadcaster.broadcast_workflow_completed("w", "t", vec![1]).unwrap();
    assert_eq!(n, 4);
    for rx in rxs.iter_mut() {
        let e = rx.try_recv().unwrap();
        assert_eq!(e.event_type, EventType::WorkflowCompleted);
        assert!(matches!(rx.try_recv(), Err(TryRecvError::Empty)));
    }
}

#[test]
fn subscriber_sees_only_later_events() {
    let mut broadcaster = EventBroadcaster::new();
    let _first = broadcaster.subscribe();
    broadcaster.broadcast_step_failed("w", "t", "s", "e".to_string(), 1).unwrap();
    let mut late = broadcaster.subscribe();
    assert!(matches!(late.try_recv(), Err(TryRecvError::Empty)));
}

#[test]
fn slow_subscriber_lags_then_catches_up() {
    // the channel rounds its room of 1000 events up to 1024

    let mut broadcaster = EventBroadcaster::new();
    let mut fast = broadcaster.subscribe();
    let mut slow = broadcaster.subscribe();
    for i in 0..1034u32 {
        broadcaster
            .broadcast_step_failed("w", "t", "s", "e".to_string(), i)
            .unwrap();
        let e = fast.try_recv().unwrap();
        assert!(matches!(e.payload, EventPayload::StepFailed(ref p) if p.attempt == i));
    }
    match slow.try_recv() {
        Err(TryRecvError::Lagged(n)) => assert_eq!(n, 10),
        other => panic!("expected a lag, got {:?}", other.map(|e| e.timestamp)),
    }
    let next = slow.try_recv().unwrap();
    assert!(matches!(next.payload, EventPayload::StepFailed(ref p) if p.attempt == 10));
    assert_eq!(broadcaster.broadcast_step_started("w", "t", "s", vec![]).unwrap(), 2);
}

#[test]
fn events_carry_aligned_kinds() {
    let e = WorkflowEvent::workflow_cancelled("w", "t");
    assert_eq!(e.event_type, EventType::WorkflowCancelled);
    assert_eq!(e.payload.kind(), EventType::WorkflowCancelled);
    assert!(e.timestamp > 0);
    let f = WorkflowEvent::step_failed("w", "t", "s", "boom".to_string(), 2);
    assert_eq!(f.payload.kind(), EventType::StepFailed);
    assert_eq!(f.workflow_type, "t");
}

#[test]
fn event_with_given_time() {
    let e = WorkflowEvent::new_at(
        EventType::WorkflowFailed,
        "w".to_string(),
        "t".to_string(),
        EventPayload::WorkflowFailed(aether_kernel::broadcaster::WorkflowFailedPayload { error: "x".to_string() }),
        1234,
    );
    assert_eq!(e.timestamp, 1234);
    assert_eq!(e.payload.kind(), EventType::WorkflowFailed);
}
