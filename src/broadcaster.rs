use crate::clock::now;
use tokio::sync::broadcast::error::SendError;
use tokio::sync::broadcast::{Receiver, Sender};
use vstd::prelude::*;

verus! {

#[verifier::external_type_specification]
#[verifier::external_body]
#[verifier::reject_recursive_types(T)]
pub struct ExSender<T>(Sender<T>);

#[verifier::external_type_specification]
#[verifier::external_body]
#[verifier::reject_recursive_types(T)]
pub struct ExReceiver<T>(Receiver<T>);

#[verifier::external_type_specification]
#[verifier::external_body]
#[verifier::reject_recursive_types(T)]
pub struct ExSendError<T>(SendError<T>);

/// Relies on tokio's `broadcast::channel`, which panics on a capacity of zero
/// or above half the address space.
pub assume_specification<T: Clone>[ tokio::sync::broadcast::channel::<T> ](capacity: usize) -> (
    Sender<T>,
    Receiver<T>,
)
    requires
        0 < capacity <= usize::MAX / 2,
;

/// Relies on tokio's `Sender::send`: it fails only when no receiver is
/// subscribed, and otherwise returns the number of receivers, at least one.
pub assume_specification<T>[ Sender::<T>::send ](s: &Sender<T>, value: T) -> (r: Result<
    usize,
    SendError<T>,
>)
    ensures
        r matches Ok(n) ==> n >= 1,
;

/// Relies on tokio's `Sender::subscribe`: a receiver of the values sent from
/// now on.
pub assume_specification<T>[ Sender::<T>::subscribe ](s: &Sender<T>) -> Receiver<T>;

/// Relies on tokio's `Sender::receiver_count`.
pub assume_specification<T>[ Sender::<T>::receiver_count ](s: &Sender<T>) -> usize;

/// Relies on tokio's `Clone for Sender`: another handle to the same channel.
pub assume_specification<T>[ <Sender<T> as Clone>::clone ](s: &Sender<T>) -> Sender<T>;

/// The kind of a lifecycle event.
#[derive(Debug, Clone, Copy, PartialEq, Eq, Structural)]
pub enum EventType {
    StepStarted,
    StepCompleted,
    StepFailed,
    WorkflowCompleted,
    WorkflowFailed,
    WorkflowCancelled,
}

/// A step began with the given input.
#[derive(Debug, Clone)]
pub struct StepStartedPayload {
    pub step_name: String,
    pub input: Vec<u8>,
}

/// A step ended with the given output.
#[derive(Debug, Clone)]
pub struct StepCompletedPayload {
    pub step_name: String,
    pub output: Vec<u8>,
}

/// A step failed on the given attempt.
#[derive(Debug, Clone)]
pub struct StepFailedPayload {
    pub step_name: String,
    pub error: String,
    pub attempt: u32,
}

/// A workflow finished with the given result.
#[derive(Debug, Clone)]
pub struct WorkflowCompletedPayload {
    pub result: Vec<u8>,
}

/// A workflow failed with the given error.
#[derive(Debug, Clone)]
pub struct WorkflowFailedPayload {
    pub error: String,
}

/// A workflow was cancelled.
#[derive(Debug, Clone)]
pub struct WorkflowCancelledPayload {}

/// The data of an event, one variant per kind.
#[derive(Debug, Clone)]
pub enum EventPayload {
    StepStarted(StepStartedPayload),
    StepCompleted(StepCompletedPayload),
    StepFailed(StepFailedPayload),
    WorkflowCompleted(WorkflowCompletedPayload),
    WorkflowFailed(WorkflowFailedPayload),
    WorkflowCancelled(WorkflowCancelledPayload),
}

impl EventPayload {
    /// The kind that the payload belongs to.
    pub open spec fn spec_kind(&self) -> EventType {
        match self {
            EventPayload::StepStarted(_) => EventType::StepStarted,
            EventPayload::StepCompleted(_) => EventType::StepCompleted,
            EventPayload::StepFailed(_) => EventType::StepFailed,
            EventPayload::WorkflowCompleted(_) => EventType::WorkflowCompleted,
            EventPayload::WorkflowFailed(_) => EventType::WorkflowFailed,
            EventPayload::WorkflowCancelled(_) => EventType::WorkflowCancelled,
        }
    }

    /// The kind that the payload belongs to.
    pub fn kind(&self) -> (r: EventType)
        ensures
            r == self.spec_kind(),
    {
        match self {
            EventPayload::StepStarted(_) => EventType::StepStarted,
            EventPayload::StepCompleted(_) => EventType::StepCompleted,
            EventPayload::StepFailed(_) => EventType::StepFailed,
            EventPayload::WorkflowCompleted(_) => EventType::WorkflowCompleted,
            EventPayload::WorkflowFailed(_) => EventType::WorkflowFailed,
            EventPayload::WorkflowCancelled(_) => EventType::WorkflowCancelled,
        }
    }
}

/// A lifecycle event: kind, workflow, Unix-seconds time and payload.
#[derive(Debug, Clone)]
pub struct WorkflowEvent {
    pub event_type: EventType,
    pub workflow_id: String,
    pub workflow_type: String,
    pub timestamp: u64,
    pub payload: EventPayload,
}

impl WorkflowEvent {
    /// An event stamped with `timestamp`, in Unix seconds.
    pub fn new_at(
        event_type: EventType,
        workflow_id: String,
        workflow_type: String,
        payload: EventPayload,
        timestamp: u64,
    ) -> (r: WorkflowEvent)
        ensures
            r.event_type == event_type,
            r.workflow_id == workflow_id,
            r.workflow_type == workflow_type,
            r.payload == payload,
            r.timestamp == timestamp,
    {
        WorkflowEvent { event_type, workflow_id, workflow_type, timestamp, payload }
    }

    /// An event stamped with the current time.
    pub fn new(
        event_type: EventType,
        workflow_id: String,
        workflow_type: String,
        payload: EventPayload,
    ) -> (r: WorkflowEvent)
        ensures
            r.event_type == event_type,
            r.workflow_id == workflow_id,
            r.workflow_type == workflow_type,
            r.payload == payload,
    {
        let t = now();
        WorkflowEvent::new_at(event_type, workflow_id, workflow_type, payload, t.unix_seconds())
    }

    /// The kind and the payload agree.
    pub open spec fn is_aligned(&self) -> bool {
        self.event_type == self.payload.spec_kind()
    }

    /// A `StepStarted` event.
    pub fn step_started(workflow_id: &str, workflow_type: &str, step_name: &str, input: Vec<u8>) -> (r:
        WorkflowEvent)
        ensures
            r.is_aligned(),
            r.workflow_id@ == workflow_id@,
            r.workflow_type@ == workflow_type@,
            r.payload matches EventPayload::StepStarted(p) && p.step_name@ == step_name@ && p.input
                == input,
    {
        let payload = EventPayload::StepStarted(
            StepStartedPayload { step_name: step_name.to_string(), input },
        );
        WorkflowEvent::new(
            EventType::StepStarted,
            workflow_id.to_string(),
            workflow_type.to_string(),
            payload,
        )
    }

    /// A `StepCompleted` event.
    pub fn step_completed(
        workflow_id: &str,
        workflow_type: &str,
        step_name: &str,
        output: Vec<u8>,
    ) -> (r: WorkflowEvent)
        ensures
            r.is_aligned(),
            r.workflow_id@ == workflow_id@,
            r.workflow_type@ == workflow_type@,
            r.payload matches EventPayload::StepCompleted(p) && p.step_name@ == step_name@
                && p.output == output,
    {
        let payload = EventPayload::StepCompleted(
            StepCompletedPayload { step_name: step_name.to_string(), output },
        );
        WorkflowEvent::new(
            EventType::StepCompleted,
            workflow_id.to_string(),
            workflow_type.to_string(),
            payload,
        )
    }

    /// A `StepFailed` event.
    pub fn step_failed(
        workflow_id: &str,
        workflow_type: &str,
        step_name: &str,
        error: String,
        attempt: u32,
    ) -> (r: WorkflowEvent)
        ensures
            r.is_aligned(),
            r.workflow_id@ == workflow_id@,
            r.workflow_type@ == workflow_type@,
            r.payload matches EventPayload::StepFailed(p) && p.step_name@ == step_name@ && p.error
                == error && p.attempt == attempt,
    {
        let payload = EventPayload::StepFailed(
            StepFailedPayload { step_name: step_name.to_string(), error, attempt },
        );
        WorkflowEvent::new(
            EventType::StepFailed,
            workflow_id.to_string(),
            workflow_type.to_string(),
            payload,
        )
    }

    /// A `WorkflowCompleted` event.
    pub fn workflow_completed(workflow_id: &str, workflow_type: &str, result: Vec<u8>) -> (r:
        WorkflowEvent)
        ensures
            r.is_aligned(),
            r.workflow_id@ == workflow_id@,
            r.workflow_type@ == workflow_type@,
            r.payload matches EventPayload::WorkflowCompleted(p) && p.result == result,
    {
        let payload = EventPayload::WorkflowCompleted(WorkflowCompletedPayload { result });
        WorkflowEvent::new(
            EventType::WorkflowCompleted,
            workflow_id.to_string(),
            workflow_type.to_string(),
            payload,
        )
    }

    /// A `WorkflowFailed` event.
    pub fn workflow_failed(workflow_id: &str, workflow_type: &str, error: String) -> (r:
        WorkflowEvent)
        ensures
            r.is_aligned(),
            r.workflow_id@ == workflow_id@,
            r.workflow_type@ == workflow_type@,
            r.payload matches EventPayload::WorkflowFailed(p) && p.error == error,
    {
        let payload = EventPayload::WorkflowFailed(WorkflowFailedPayload { error });
        WorkflowEvent::new(
            EventType::WorkflowFailed,
            workflow_id.to_string(),
            workflow_type.to_string(),
            payload,
        )
    }

    /// A `WorkflowCancelled` event.
    pub fn workflow_cancelled(workflow_id: &str, workflow_type: &str) -> (r: WorkflowEvent)
        ensures
            r.is_aligned(),
            r.workflow_id@ == workflow_id@,
            r.workflow_type@ == workflow_type@,
            r.payload is WorkflowCancelled,
    {
        WorkflowEvent::new(
            EventType::WorkflowCancelled,
            workflow_id.to_string(),
            workflow_type.to_string(),
            EventPayload::WorkflowCancelled(WorkflowCancelledPayload {  }),
        )
    }
}

/// Why a broadcast reached nobody.
#[derive(Debug, Clone, Copy, PartialEq, Eq, Structural)]
pub enum BroadcastError {
    NoSubscribers,
}

/// The number of events a subscriber may fall behind before it lags.
pub const EVENT_CAPACITY: usize = 1000;

/// `e` announces that step `step` of workflow `wid`, of type `wtype`, started
/// with `input`.
pub open spec fn is_step_started_event(
    e: WorkflowEvent,
    wid: Seq<char>,
    wtype: Seq<char>,
    step: Seq<char>,
    input: Seq<u8>,
) -> bool {
    &&& e.event_type == EventType::StepStarted
    &&& e.workflow_id@ == wid
    &&& e.workflow_type@ == wtype
    &&& (e.payload matches EventPayload::StepStarted(p) && p.step_name@ == step && p.input@ == input)
}

/// `e` announces that step `step` of workflow `wid`, of type `wtype`,
/// completed with `output`.
pub open spec fn is_step_completed_event(
    e: WorkflowEvent,
    wid: Seq<char>,
    wtype: Seq<char>,
    step: Seq<char>,
    output: Seq<u8>,
) -> bool {
    &&& e.event_type == EventType::StepCompleted
    &&& e.workflow_id@ == wid
    &&& e.workflow_type@ == wtype
    &&& (e.payload matches EventPayload::StepCompleted(p) && p.step_name@ == step && p.output@
        == output)
}

/// `e` announces that step `step` of workflow `wid`, of type `wtype`, failed
/// with `error` on attempt `attempt`.
pub open spec fn is_step_failed_event(
    e: WorkflowEvent,
    wid: Seq<char>,
    wtype: Seq<char>,
    step: Seq<char>,
    error: Seq<char>,
    attempt: u32,
) -> bool {
    &&& e.event_type == EventType::StepFailed
    &&& e.workflow_id@ == wid
    &&& e.workflow_type@ == wtype
    &&& (e.payload matches EventPayload::StepFailed(p) && p.step_name@ == step && p.error@
        == error && p.attempt == attempt)
}

/// `e` announces that workflow `wid`, of type `wtype`, completed with `result`.
pub open spec fn is_workflow_completed_event(
    e: WorkflowEvent,
    wid: Seq<char>,
    wtype: Seq<char>,
    result: Seq<u8>,
) -> bool {
    &&& e.event_type == EventType::WorkflowCompleted
    &&& e.workflow_id@ == wid
    &&& e.workflow_type@ == wtype
    &&& (e.payload matches EventPayload::WorkflowCompleted(p) && p.result@ == result)
}

/// `e` announces that workflow `wid`, of type `wtype`, failed with `error`.
pub open spec fn is_workflow_failed_event(
    e: WorkflowEvent,
    wid: Seq<char>,
    wtype: Seq<char>,
    error: Seq<char>,
) -> bool {
    &&& e.event_type == EventType::WorkflowFailed
    &&& e.workflow_id@ == wid
    &&& e.workflow_type@ == wtype
    &&& (e.payload matches EventPayload::WorkflowFailed(p) && p.error@ == error)
}

/// `after` is `before` with one more event, which meets `is_event`.
pub open spec fn one_more(
    before: Seq<WorkflowEvent>,
    after: Seq<WorkflowEvent>,
    is_event: spec_fn(WorkflowEvent) -> bool,
) -> bool {
    &&& after.len() == before.len() + 1
    &&& after.drop_last() == before
    &&& is_event(after.last())
}

/// Fans lifecycle events out to every current subscriber.
pub struct EventBroadcaster {
    tx: Sender<WorkflowEvent>,
    log: Ghost<Seq<WorkflowEvent>>,
}

impl Clone for EventBroadcaster {
    fn clone(&self) -> (r: Self)
        ensures
            r.sent() == self.sent(),
    {
        EventBroadcaster { tx: self.tx.clone(), log: Ghost(self.log@) }
    }
}

impl EventBroadcaster {
    /// The events handed to the channel through this handle, oldest first.
    pub closed spec fn sent(&self) -> Seq<WorkflowEvent> {
        self.log@
    }

    /// A broadcaster with room for a fixed number of events and no subscriber.
    pub fn new() -> (r: EventBroadcaster)
        ensures
            r.sent() == Seq::<WorkflowEvent>::empty(),
    {
        let (tx, _rx) = tokio::sync::broadcast::channel(EVENT_CAPACITY);
        EventBroadcaster { tx, log: Ghost(Seq::empty()) }
    }

    /// Another sending handle to the same channel.
    pub fn get_sender(&self) -> (r: Sender<WorkflowEvent>) {
        self.tx.clone()
    }

    /// A receiver of the events broadcast from now on.
    pub fn subscribe(&self) -> (r: Receiver<WorkflowEvent>) {
        self.tx.subscribe()
    }

    /// Delivers `event` to every current subscriber and returns how many
    /// there are; fails when there is none. The event is handed to the
    /// channel either way.
    pub fn broadcast(&mut self, event: WorkflowEvent) -> (r: Result<usize, BroadcastError>)
        ensures
            final(self).sent() == old(self).sent().push(event),
            r matches Ok(n) ==> n >= 1,
    {
        self.log = Ghost(self.log@.push(event));
        match self.tx.send(event) {
            Ok(n) => Ok(n),
            Err(_) => Err(BroadcastError::NoSubscribers),
        }
    }

    /// The number of current subscribers.
    pub fn subscriber_count(&self) -> (r: usize) {
        self.tx.receiver_count()
    }

    /// Broadcasts a `StepStarted` event.
    pub fn broadcast_step_started(
        &mut self,
        workflow_id: &str,
        workflow_type: &str,
        step_name: &str,
        input: Vec<u8>,
    ) -> (r: Result<usize, BroadcastError>)
        ensures
            one_more(
                old(self).sent(),
                final(self).sent(),
                |e| is_step_started_event(e, workflow_id@, workflow_type@, step_name@, input@),
            ),
            r matches Ok(n) ==> n >= 1,
    {
        let r = self.broadcast(WorkflowEvent::step_started(workflow_id, workflow_type, step_name, input));
        assert(self.sent().drop_last() =~= old(self).sent());
        r
    }

    /// Broadcasts a `StepCompleted` event.
    pub fn broadcast_step_completed(
        &mut self,
        workflow_id: &str,
        workflow_type: &str,
        step_name: &str,
        output: Vec<u8>,
    ) -> (r: Result<usize, BroadcastError>)
        ensures
            one_more(
                old(self).sent(),
                final(self).sent(),
                |e| is_step_completed_event(e, workflow_id@, workflow_type@, step_name@, output@),
            ),
            r matches Ok(n) ==> n >= 1,
    {
        let r = self.broadcast(
            WorkflowEvent::step_completed(workflow_id, workflow_type, step_name, output),
        );
        assert(self.sent().drop_last() =~= old(self).sent());
        r
    }

    /// Broadcasts a `StepFailed` event.
    pub fn broadcast_step_failed(
        &mut self,
        workflow_id: &str,
        workflow_type: &str,
        step_name: &str,
        error: String,
        attempt: u32,
    ) -> (r: Result<usize, BroadcastError>)
        ensures
            one_more(
                old(self).sent(),
                final(self).sent(),
                |e|
                    is_step_failed_event(
                        e,
                        workflow_id@,
                        workflow_type@,
                        step_name@,
                        error@,
                        attempt,
                    ),
            ),
            r matches Ok(n) ==> n >= 1,
    {
        let r = self.broadcast(
            WorkflowEvent::step_failed(workflow_id, workflow_type, step_name, error, attempt),
        );
        assert(self.sent().drop_last() =~= old(self).sent());
        r
    }

    /// Broadcasts a `WorkflowCompleted` event.
    pub fn broadcast_workflow_completed(
        &mut self,
        workflow_id: &str,
        workflow_type: &str,
        result: Vec<u8>,
    ) -> (r: Result<usize, BroadcastError>)
        ensures
            one_more(
                old(self).sent(),
                final(self).sent(),
                |e| is_workflow_completed_event(e, workflow_id@, workflow_type@, result@),
            ),
            r matches Ok(n) ==> n >= 1,
    {
        let r = self.broadcast(WorkflowEvent::workflow_completed(workflow_id, workflow_type, result));
        assert(self.sent().drop_last() =~= old(self).sent());
        r
    }

    /// Broadcasts a `WorkflowFailed` event.
    pub fn broadcast_workflow_failed(
        &mut self,
        workflow_id: &str,
        workflow_type: &str,
        error: String,
    ) -> (r: Result<usize, BroadcastError>)
        ensures
            one_more(
                old(self).sent(),
                final(self).sent(),
                |e| is_workflow_failed_event(e, workflow_id@, workflow_type@, error@),
            ),
            r matches Ok(n) ==> n >= 1,
    {
        let r = self.broadcast(WorkflowEvent::workflow_failed(workflow_id, workflow_type, error));
        assert(self.sent().drop_last() =~= old(self).sent());
        r
    }
}

} // verus!
