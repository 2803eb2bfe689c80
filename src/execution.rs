use vstd::prelude::*;

verus! {

/// The context in which a step executes.
pub struct ExecutionContext {}

impl ExecutionContext {
    /// An empty context.
    pub fn new() -> (r: ExecutionContext) {
        ExecutionContext {  }
    }
}

/// The progress of an execution.
#[derive(Debug, Clone, Copy, PartialEq, Eq, Structural)]
pub enum ExecutionStatus {
    Pending,
    Running,
    Completed,
    Failed,
}

/// The outcome of an execution.
pub struct ExecutionResult {
    pub status: ExecutionStatus,
    pub output: Option<String>,
    pub error: Option<String>,
}

impl ExecutionResult {
    /// An outcome with the given status and neither output nor error.
    pub fn new(status: ExecutionStatus) -> (r: ExecutionResult)
        ensures
            r.status == status,
            r.output is None,
            r.error is None,
    {
        ExecutionResult { status, output: None, error: None }
    }

    /// A completed outcome.
    pub fn success() -> (r: ExecutionResult)
        ensures
            r.status == ExecutionStatus::Completed,
            r.output is None,
            r.error is None,
    {
        Self::new(ExecutionStatus::Completed)
    }

    /// A failed outcome with the given error.
    pub fn failed(error: String) -> (r: ExecutionResult)
        ensures
            r.status == ExecutionStatus::Failed,
            r.output is None,
            r.error == Some(error),
    {
        ExecutionResult { status: ExecutionStatus::Failed, output: None, error: Some(error) }
    }
}

/// The kernel as a whole.
pub struct AetherKernel {}

impl AetherKernel {
    /// A kernel.
    pub fn new() -> (r: AetherKernel) {
        AetherKernel {  }
    }

    /// Starts the kernel; starting always succeeds.
    pub fn start(&self) -> (r: Result<(), String>)
        ensures
            r is Ok,
    {
        Ok(())
    }
}

} // verus!
