use vstd::prelude::*;

verus! {

/// The default number of tasks a worker asks for in one poll.
pub const DEFAULT_TASKS_PER_POLL: usize = 10;

/// The default pause between two polls of a worker, in milliseconds.
pub const DEFAULT_WORKER_POLL_MS: u64 = 100;

/// The settings of an in-process worker; the poll interval is in
/// milliseconds.
pub struct Worker {
    pub id: String,
    pub workflow_types: Vec<String>,
    pub poll_interval_ms: u64,
    pub max_tasks_per_poll: usize,
}

impl Worker {
    /// A worker that polls every 100 ms for up to 10 tasks.
    pub fn new(id: String, workflow_types: Vec<String>) -> (r: Worker)
        ensures
            r.id == id,
            r.workflow_types == workflow_types,
            r.poll_interval_ms == DEFAULT_WORKER_POLL_MS,
            r.max_tasks_per_poll == DEFAULT_TASKS_PER_POLL,
    {
        Worker {
            id,
            workflow_types,
            poll_interval_ms: DEFAULT_WORKER_POLL_MS,
            max_tasks_per_poll: DEFAULT_TASKS_PER_POLL,
        }
    }

    /// The same worker with another poll interval, in milliseconds.
    pub fn with_poll_interval(self, interval_ms: u64) -> (r: Worker)
        ensures
            r == (Worker { poll_interval_ms: interval_ms, ..self }),
    {
        let mut w = self;
        w.poll_interval_ms = interval_ms;
        w
    }

    /// The same worker with another batch size.
    pub fn with_max_tasks_per_poll(self, max: usize) -> (r: Worker)
        ensures
            r == (Worker { max_tasks_per_poll: max, ..self }),
    {
        let mut w = self;
        w.max_tasks_per_poll = max;
        w
    }
}

} // verus!
