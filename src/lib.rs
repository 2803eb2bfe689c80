//! Orchestration kernel of a durable workflow server: the workflow state
//! machine, persistence backends, the execution tracker, the event
//! broadcaster and the task dispatcher.

pub mod api;
pub mod broadcaster;
pub mod clock;
pub mod dashboard;
pub mod execution;
pub mod persistence;
pub mod scheduler;
pub mod service_registry;
pub mod state_machine;
pub mod task;
pub mod task_stream;
pub mod templates;
pub mod text;
pub mod tracker;
pub mod worker;
pub mod workflow;
