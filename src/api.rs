use vstd::prelude::*;

verus! {

/// Options of a workflow submission.
#[derive(Debug, Clone)]
pub struct WorkflowOptions {
    pub workflow_id: Option<String>,
}

/// The answer to a workflow submission.
#[derive(Debug, Clone)]
pub struct CreateWorkflowResponse {
    pub workflow_id: String,
    pub status: String,
}

/// The status of a workflow.
#[derive(Debug, Clone)]
pub struct WorkflowStatusResponse {
    pub workflow_id: String,
    pub status: String,
    pub current_step: Option<String>,
    pub error: Option<String>,
}

/// The answer to a cancellation.
#[derive(Debug, Clone)]
pub struct CancelWorkflowResponse {
    pub success: bool,
    pub message: String,
}

/// A resource a registering worker offers, with its kind by name.
#[derive(Debug, Clone)]
pub struct ResourceInfo {
    pub name: String,
    pub resource_type: String,
}

/// A worker registration.
#[derive(Debug, Clone)]
pub struct RegisterWorkerRequest {
    pub service_name: String,
    pub resources: Vec<ResourceInfo>,
}

/// The identity given to a registered worker.
#[derive(Debug, Clone)]
pub struct RegisterWorkerResponse {
    pub worker_id: String,
    pub session_token: String,
}

/// The answer to a heartbeat, with the seconds until the next one is due.
#[derive(Debug, Clone)]
pub struct HeartbeatResponse {
    pub success: bool,
    pub next_heartbeat: u64,
}

/// A step report: its status by name and an optional message.
#[derive(Debug, Clone)]
pub struct ReportStepRequest {
    pub status: String,
    pub message: Option<String>,
}

/// The answer to a step report or completion.
#[derive(Debug, Clone)]
pub struct StepResponse {
    pub success: bool,
}

/// Counters of the kernel.
#[derive(Debug, Clone)]
pub struct MetricsResponse {
    pub active_workflows: u64,
    pub registered_workers: u64,
    pub pending_tasks: u64,
}

/// The seconds a result request waits by default.
pub const DEFAULT_RESULT_TIMEOUT_SECS: u64 = 30;

/// The seconds a result request waits when it names no timeout.
pub fn default_timeout() -> (r: u64)
    ensures
        r == DEFAULT_RESULT_TIMEOUT_SECS,
{
    DEFAULT_RESULT_TIMEOUT_SECS
}

/// The query of a result request.
#[derive(Debug, Clone)]
pub struct ResultQuery {
    pub timeout: u64,
}

/// The query of a worker's task socket.
#[derive(Debug, Clone)]
pub struct WsQuery {
    pub token: String,
}

/// The seconds until a worker's next heartbeat is due.
pub const HEARTBEAT_INTERVAL_SECS: u64 = 30;

/// Acknowledges a worker's heartbeat.
pub fn heartbeat_response() -> (r: HeartbeatResponse)
    ensures
        r.success,
        r.next_heartbeat == HEARTBEAT_INTERVAL_SECS,
{
    HeartbeatResponse { success: true, next_heartbeat: HEARTBEAT_INTERVAL_SECS }
}

} // verus!
