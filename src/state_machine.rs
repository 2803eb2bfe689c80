use crate::clock::{now, Timestamp};
use crate::text::str_eq;
use vstd::prelude::*;

verus! {

/// The mathematical value of a workflow state.
pub enum StateModel {
    Pending,
    Running { current_step: Option<Seq<char>> },
    Completed { result: Seq<u8> },
    Failed { error: Seq<char> },
    Cancelled,
}

/// The guarded operations of the state machine, with their arguments.
pub enum Transition {
    Start,
    StepStarted { step: Seq<char> },
    StepCompleted,
    Complete { result: Seq<u8> },
    Fail { error: Seq<char> },
    Cancel,
}

impl StateModel {
    /// `Completed`, `Failed` and `Cancelled` are final.
    pub open spec fn is_terminal(self) -> bool {
        self is Completed || self is Failed || self is Cancelled
    }

    /// The state that `t` leads to from `self`, or `None` where `t` is not
    /// allowed from `self`.
    pub open spec fn apply(self, t: Transition) -> Option<StateModel> {
        match t {
            Transition::Start => if self is Pending {
                Some(StateModel::Running { current_step: None })
            } else {
                None
            },
            Transition::StepStarted { step } => if self is Running {
                Some(StateModel::Running { current_step: Some(step) })
            } else {
                None
            },
            Transition::StepCompleted => if self is Running {
                Some(StateModel::Running { current_step: None })
            } else {
                None
            },
            Transition::Complete { result } => if self is Running {
                Some(StateModel::Completed { result })
            } else {
                None
            },
            Transition::Fail { error } => if self is Running {
                Some(StateModel::Failed { error })
            } else {
                None
            },
            Transition::Cancel => if self is Pending || self is Running {
                Some(StateModel::Cancelled)
            } else {
                None
            },
        }
    }

    /// The states from which each operation is allowed.
    pub open spec fn enabled(self, t: Transition) -> bool {
        match t {
            Transition::Start => self is Pending,
            Transition::Cancel => self is Pending || self is Running,
            _ => self is Running,
        }
    }

    /// The edges of the state graph: `Pending` goes to `Running` with no
    /// current step or to `Cancelled`; `Running` goes to `Running`, to
    /// `Completed`, to `Failed` or to `Cancelled`; nothing leaves a final state.
    pub open spec fn legal_edge(self, to: StateModel) -> bool {
        match self {
            StateModel::Pending => to == (StateModel::Running { current_step: None }) || to
                is Cancelled,
            StateModel::Running { .. } => to is Running || to is Completed || to is Failed
                || to is Cancelled,
            _ => false,
        }
    }

    /// The target that an operation names: its arguments fix the successor.
    pub open spec fn fits(t: Transition, to: StateModel) -> bool {
        match t {
            Transition::Start => to == (StateModel::Running { current_step: None }),
            Transition::StepStarted { step } => to == (StateModel::Running {
                current_step: Some(step),
            }),
            Transition::StepCompleted => to == (StateModel::Running { current_step: None }),
            Transition::Complete { result } => to == (StateModel::Completed { result }),
            Transition::Fail { error } => to == (StateModel::Failed { error }),
            Transition::Cancel => to is Cancelled,
        }
    }
}

/// Every operation, from every state, either moves along a legal edge to the
/// one successor that its arguments name, or is rejected; from a final state
/// every operation is rejected.
pub proof fn lemma_state_machine_safety(s: StateModel, t: Transition)
    ensures
        s.apply(t) is Some <==> s.enabled(t),
        forall|to: StateModel|
            s.apply(t) == Some(to) <==> (s.enabled(t) && s.legal_edge(to) && StateModel::fits(
                t,
                to,
            )),
        forall|a: StateModel, b: StateModel|
            StateModel::fits(t, a) && StateModel::fits(t, b) ==> a == b,
        s.is_terminal() ==> s.apply(t) is None,
{
}

/// Cancelling a completed workflow is rejected, so its state stays as it
/// was; cancelling a pending workflow yields `Cancelled`.
pub proof fn lemma_cancel_idempotent(result: Seq<u8>)
    ensures
        (StateModel::Completed { result }).apply(Transition::Cancel) is None,
        StateModel::Pending.apply(Transition::Cancel) == Some(StateModel::Cancelled),
{
}

/// The lifecycle state of a workflow.
#[derive(Debug)]
pub enum WorkflowState {
    Pending,
    Running { current_step: Option<String> },
    Completed { result: Vec<u8> },
    Failed { error: String },
    Cancelled,
}

pub open spec fn opt_str_view(o: Option<String>) -> Option<Seq<char>> {
    match o {
        Some(s) => Some(s@),
        None => None,
    }
}

impl View for WorkflowState {
    type V = StateModel;

    open spec fn view(&self) -> StateModel {
        match self {
            WorkflowState::Pending => StateModel::Pending,
            WorkflowState::Running { current_step } => StateModel::Running {
                current_step: opt_str_view(*current_step),
            },
            WorkflowState::Completed { result } => StateModel::Completed { result: result@ },
            WorkflowState::Failed { error } => StateModel::Failed { error: error@ },
            WorkflowState::Cancelled => StateModel::Cancelled,
        }
    }
}

/// The view of an optional state.
pub open spec fn opt_state_view(o: Option<WorkflowState>) -> Option<StateModel> {
    match o {
        Some(s) => Some(s@),
        None => None,
    }
}

/// Copies a byte buffer.
pub fn copy_bytes(v: &Vec<u8>) -> (r: Vec<u8>)
    ensures
        r@ == v@,
{
    let mut r: Vec<u8> = Vec::new();
    let mut i: usize = 0;
    while i < v.len()
        invariant
            i <= v@.len(),
            r@ == v@.subrange(0, i as int),
        decreases v@.len() - i,
    {
        r.push(v[i]);
        i = i + 1;
    }
    assert(r@ =~= v@);
    r
}

/// Copies an optional string.
pub fn copy_opt_string(o: &Option<String>) -> (r: Option<String>)
    ensures
        opt_str_view(r) == opt_str_view(*o),
{
    match o {
        Some(s) => Some(s.clone()),
        None => None,
    }
}

impl Clone for WorkflowState {
    fn clone(&self) -> (r: Self)
        ensures
            r@ == self@,
    {
        match self {
            WorkflowState::Pending => WorkflowState::Pending,
            WorkflowState::Running { current_step } => WorkflowState::Running {
                current_step: copy_opt_string(current_step),
            },
            WorkflowState::Completed { result } => WorkflowState::Completed {
                result: copy_bytes(result),
            },
            WorkflowState::Failed { error } => WorkflowState::Failed { error: error.clone() },
            WorkflowState::Cancelled => WorkflowState::Cancelled,
        }
    }
}

impl WorkflowState {
    /// `Pending` to `Running` with no current step.
    pub fn start(&self) -> (r: Option<WorkflowState>)
        ensures
            opt_state_view(r) == self@.apply(Transition::Start),
    {
        match self {
            WorkflowState::Pending => Some(WorkflowState::Running { current_step: None }),
            _ => None,
        }
    }

    /// A step begins: `Running` to `Running` with `step_name` as current step.
    pub fn step_started(&self, step_name: &str) -> (r: Option<WorkflowState>)
        ensures
            opt_state_view(r) == self@.apply(Transition::StepStarted { step: step_name@ }),
    {
        match self {
            WorkflowState::Running { .. } => Some(
                WorkflowState::Running { current_step: Some(step_name.to_string()) },
            ),
            _ => None,
        }
    }

    /// The current step ends without finishing the workflow.
    pub fn step_completed(&self) -> (r: Option<WorkflowState>)
        ensures
            opt_state_view(r) == self@.apply(Transition::StepCompleted),
    {
        match self {
            WorkflowState::Running { .. } => Some(WorkflowState::Running { current_step: None }),
            _ => None,
        }
    }

    /// `Running` to `Completed` with the given result.
    pub fn complete(&self, result: Vec<u8>) -> (r: Option<WorkflowState>)
        ensures
            opt_state_view(r) == self@.apply(Transition::Complete { result: result@ }),
    {
        match self {
            WorkflowState::Running { .. } => Some(WorkflowState::Completed { result }),
            _ => None,
        }
    }

    /// `Running` to `Failed` with the given error.
    pub fn fail(&self, error: String) -> (r: Option<WorkflowState>)
        ensures
            opt_state_view(r) == self@.apply(Transition::Fail { error: error@ }),
    {
        match self {
            WorkflowState::Running { .. } => Some(WorkflowState::Failed { error }),
            _ => None,
        }
    }

    /// `Pending` or `Running` to `Cancelled`.
    pub fn cancel(&self) -> (r: Option<WorkflowState>)
        ensures
            opt_state_view(r) == self@.apply(Transition::Cancel),
    {
        match self {
            WorkflowState::Pending => Some(WorkflowState::Cancelled),
            WorkflowState::Running { .. } => Some(WorkflowState::Cancelled),
            _ => None,
        }
    }
}


/// The mathematical value of a workflow record.
pub struct WorkflowModel {
    pub id: Seq<char>,
    pub workflow_type: Seq<char>,
    pub state: StateModel,
    pub input: Seq<u8>,
    pub steps_completed: Seq<(Seq<char>, Seq<u8>)>,
    pub started_at: Timestamp,
    pub updated_at: Timestamp,
}

/// A durable workflow: identity, type, input, state, the outputs of the steps
/// completed so far (in insertion order) and its two timestamps.
#[derive(Debug)]
pub struct Workflow {
    pub id: String,
    pub workflow_type: String,
    pub state: WorkflowState,
    pub input: Vec<u8>,
    pub steps_completed: Vec<(String, Vec<u8>)>,
    pub started_at: Timestamp,
    pub updated_at: Timestamp,
}

pub open spec fn step_output_view(p: (String, Vec<u8>)) -> (Seq<char>, Seq<u8>) {
    (p.0@, p.1@)
}

impl View for Workflow {
    type V = WorkflowModel;

    open spec fn view(&self) -> WorkflowModel {
        WorkflowModel {
            id: self.id@,
            workflow_type: self.workflow_type@,
            state: self.state@,
            input: self.input@,
            steps_completed: self.steps_completed@.map_values(|p| step_output_view(p)),
            started_at: self.started_at,
            updated_at: self.updated_at,
        }
    }
}

impl WorkflowModel {
    /// Step names are unique, and the last update is not before the start.
    pub open spec fn wf(self) -> bool {
        &&& forall|i: int, j: int|
            0 <= i < j < self.steps_completed.len() ==> self.steps_completed[i].0
                != self.steps_completed[j].0
        &&& self.started_at.spec_le(self.updated_at)
    }

    /// `step` has a recorded output.
    pub open spec fn has_step(self, step: Seq<char>) -> bool {
        exists|i: int| 0 <= i < self.steps_completed.len() && self.steps_completed[i].0 == step
    }
}

/// Copies a list of step outputs.
fn copy_step_outputs(v: &Vec<(String, Vec<u8>)>) -> (r: Vec<(String, Vec<u8>)>)
    ensures
        r@.map_values(|p| step_output_view(p)) == v@.map_values(|p| step_output_view(p)),
{
    let mut r: Vec<(String, Vec<u8>)> = Vec::new();
    let mut i: usize = 0;
    while i < v.len()
        invariant
            i <= v@.len(),
            r@.len() == i,
            forall|k: int| 0 <= k < i ==> step_output_view(r@[k]) == step_output_view(v@[k]),
        decreases v@.len() - i,
    {
        let name = v[i].0.clone();
        let out = copy_bytes(&v[i].1);
        r.push((name, out));
        i = i + 1;
    }
    assert(r@.map_values(|p| step_output_view(p)) =~= v@.map_values(|p| step_output_view(p)));
    r
}

impl Clone for Workflow {
    fn clone(&self) -> (r: Self)
        ensures
            r@ == self@,
    {
        Workflow {
            id: self.id.clone(),
            workflow_type: self.workflow_type.clone(),
            state: self.state.clone(),
            input: copy_bytes(&self.input),
            steps_completed: copy_step_outputs(&self.steps_completed),
            started_at: self.started_at,
            updated_at: self.updated_at,
        }
    }
}

impl Workflow {
    /// A new `Pending` workflow with no step outputs, stamped with the current
    /// time.
    pub fn new(id: String, workflow_type: String, input: Vec<u8>) -> (r: Workflow)
        ensures
            r@.id == id@,
            r@.workflow_type == workflow_type@,
            r@.input == input@,
            r@.state == StateModel::Pending,
            r@.steps_completed.len() == 0,
            r@.started_at == r@.updated_at,
            r@.wf(),
    {
        let t = now();
        Workflow {
            id,
            workflow_type,
            state: WorkflowState::Pending,
            input,
            steps_completed: Vec::new(),
            started_at: t,
            updated_at: t,
        }
    }

    /// The workflow is `Completed`.
    pub fn is_complete(&self) -> (r: bool)
        ensures
            r == self@.state is Completed,
    {
        match self.state {
            WorkflowState::Completed { .. } => true,
            _ => false,
        }
    }

    /// The workflow is `Failed`.
    pub fn is_failed(&self) -> (r: bool)
        ensures
            r == self@.state is Failed,
    {
        match self.state {
            WorkflowState::Failed { .. } => true,
            _ => false,
        }
    }

    /// A step may run again only while no output is recorded for it.
    pub fn can_retry(&self, step_name: &str, max_attempts: u32) -> (r: bool)
        ensures
            r == !self@.has_step(step_name@),
    {
        let mut i: usize = 0;
        while i < self.steps_completed.len()
            invariant
                i <= self.steps_completed@.len(),
                forall|k: int| 0 <= k < i ==> self@.steps_completed[k].0 != step_name@,
            decreases self.steps_completed@.len() - i,
        {
            if str_eq(self.steps_completed[i].0.as_str(), step_name) {
                assert(self@.steps_completed[i as int].0 == step_name@);
                return false;
            }
            i = i + 1;
        }
        true
    }
}

} // verus!
