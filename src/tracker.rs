use crate::clock::{now, Timestamp};
use crate::state_machine::{copy_bytes, copy_opt_string, opt_str_view};
use crate::text::str_eq;
use vstd::prelude::*;

verus! {

/// The mathematical value of a step's status.
pub enum StatusModel {
    Pending,
    Running,
    Completed,
    Failed { error: Seq<char> },
    Cancelled,
}

/// The mathematical value of a step's record.
pub struct StepModel {
    pub step_name: Seq<char>,
    pub status: StatusModel,
    pub started_at: Option<Timestamp>,
    pub completed_at: Option<Timestamp>,
    pub input: Seq<u8>,
    pub output: Option<Seq<u8>>,
    pub attempt: u32,
    pub dependencies: Seq<Seq<char>>,
}

/// The mathematical value of a workflow's record.
pub struct ExecutionModel {
    pub workflow_id: Seq<char>,
    pub workflow_type: Seq<char>,
    pub steps: Seq<StepModel>,
    pub started_at: Timestamp,
    pub completed_at: Option<Timestamp>,
    pub current_step: Option<Seq<char>>,
}

/// The lower-case name of a status.
pub open spec fn status_name(s: StatusModel) -> Seq<char> {
    match s {
        StatusModel::Pending => "pending"@,
        StatusModel::Running => "running"@,
        StatusModel::Completed => "completed"@,
        StatusModel::Failed { .. } => "failed"@,
        StatusModel::Cancelled => "cancelled"@,
    }
}

/// The status of one step as the tracker sees it.
#[derive(Debug, PartialEq, Eq)]
pub enum StepExecutionStatus {
    Pending,
    Running,
    Completed,
    Failed { error: String },
    Cancelled,
}

impl View for StepExecutionStatus {
    type V = StatusModel;

    open spec fn view(&self) -> StatusModel {
        match self {
            StepExecutionStatus::Pending => StatusModel::Pending,
            StepExecutionStatus::Running => StatusModel::Running,
            StepExecutionStatus::Completed => StatusModel::Completed,
            StepExecutionStatus::Failed { error } => StatusModel::Failed { error: error@ },
            StepExecutionStatus::Cancelled => StatusModel::Cancelled,
        }
    }
}

impl Clone for StepExecutionStatus {
    fn clone(&self) -> (r: Self)
        ensures
            r@ == self@,
    {
        match self {
            StepExecutionStatus::Pending => StepExecutionStatus::Pending,
            StepExecutionStatus::Running => StepExecutionStatus::Running,
            StepExecutionStatus::Completed => StepExecutionStatus::Completed,
            StepExecutionStatus::Failed { error } => StepExecutionStatus::Failed {
                error: error.clone(),
            },
            StepExecutionStatus::Cancelled => StepExecutionStatus::Cancelled,
        }
    }
}

impl StepExecutionStatus {
    /// The lower-case name of the status, as shown to observers.
    pub fn name(&self) -> (r: &'static str)
        ensures
            r@ == status_name(self@),
    {
        match self {
            StepExecutionStatus::Pending => "pending",
            StepExecutionStatus::Running => "running",
            StepExecutionStatus::Completed => "completed",
            StepExecutionStatus::Failed { .. } => "failed",
            StepExecutionStatus::Cancelled => "cancelled",
        }
    }
}

/// The record of one step of one workflow.
#[derive(Debug)]
pub struct StepExecution {
    pub step_name: String,
    pub status: StepExecutionStatus,
    pub started_at: Option<Timestamp>,
    pub completed_at: Option<Timestamp>,
    pub input: Vec<u8>,
    pub output: Option<Vec<u8>>,
    pub attempt: u32,
    pub dependencies: Vec<String>,
}

pub open spec fn opt_bytes(o: Option<Vec<u8>>) -> Option<Seq<u8>> {
    match o {
        Some(b) => Some(b@),
        None => None,
    }
}

pub open spec fn strings_view(v: Seq<String>) -> Seq<Seq<char>> {
    v.map_values(|s: String| s@)
}

impl View for StepExecution {
    type V = StepModel;

    open spec fn view(&self) -> StepModel {
        StepModel {
            step_name: self.step_name@,
            status: self.status@,
            started_at: self.started_at,
            completed_at: self.completed_at,
            input: self.input@,
            output: opt_bytes(self.output),
            attempt: self.attempt,
            dependencies: strings_view(self.dependencies@),
        }
    }
}

/// Copies a list of strings.
pub fn copy_strings(v: &Vec<String>) -> (r: Vec<String>)
    ensures
        strings_view(r@) == strings_view(v@),
{
    let mut r: Vec<String> = Vec::new();
    let mut i: usize = 0;
    while i < v.len()
        invariant
            i <= v@.len(),
            r@.len() == i,
            forall|k: int| 0 <= k < i ==> r@[k]@ == v@[k]@,
        decreases v@.len() - i,
    {
        r.push(v[i].clone());
        i = i + 1;
    }
    assert(strings_view(r@) =~= strings_view(v@));
    r
}

fn copy_opt_bytes(o: &Option<Vec<u8>>) -> (r: Option<Vec<u8>>)
    ensures
        opt_bytes(r) == opt_bytes(*o),
{
    match o {
        Some(b) => Some(copy_bytes(b)),
        None => None,
    }
}

impl Clone for StepExecution {
    fn clone(&self) -> (r: Self)
        ensures
            r@ == self@,
    {
        StepExecution {
            step_name: self.step_name.clone(),
            status: self.status.clone(),
            started_at: self.started_at,
            completed_at: self.completed_at,
            input: copy_bytes(&self.input),
            output: copy_opt_bytes(&self.output),
            attempt: self.attempt,
            dependencies: copy_strings(&self.dependencies),
        }
    }
}

/// The record of one workflow: its steps in the order they first started.
#[derive(Debug)]
pub struct WorkflowExecution {
    pub workflow_id: String,
    pub workflow_type: String,
    pub step_executions: Vec<StepExecution>,
    pub started_at: Timestamp,
    pub completed_at: Option<Timestamp>,
    pub current_step: Option<String>,
}

pub open spec fn steps_view(v: Seq<StepExecution>) -> Seq<StepModel> {
    v.map_values(|s: StepExecution| s@)
}

impl View for WorkflowExecution {
    type V = ExecutionModel;

    open spec fn view(&self) -> ExecutionModel {
        ExecutionModel {
            workflow_id: self.workflow_id@,
            workflow_type: self.workflow_type@,
            steps: steps_view(self.step_executions@),
            started_at: self.started_at,
            completed_at: self.completed_at,
            current_step: opt_str_view(self.current_step),
        }
    }
}

fn copy_steps(v: &Vec<StepExecution>) -> (r: Vec<StepExecution>)
    ensures
        steps_view(r@) == steps_view(v@),
{
    let mut r: Vec<StepExecution> = Vec::new();
    let mut i: usize = 0;
    while i < v.len()
        invariant
            i <= v@.len(),
            r@.len() == i,
            forall|k: int| 0 <= k < i ==> r@[k]@ == v@[k]@,
        decreases v@.len() - i,
    {
        r.push(v[i].clone());
        i = i + 1;
    }
    assert(steps_view(r@) =~= steps_view(v@));
    r
}

impl Clone for WorkflowExecution {
    fn clone(&self) -> (r: Self)
        ensures
            r@ == self@,
    {
        WorkflowExecution {
            workflow_id: self.workflow_id.clone(),
            workflow_type: self.workflow_type.clone(),
            step_executions: copy_steps(&self.step_executions),
            started_at: self.started_at,
            completed_at: self.completed_at,
            current_step: copy_opt_string(&self.current_step),
        }
    }
}

/// A record of a step that has just started.
pub open spec fn started_step(
    name: Seq<char>,
    input: Seq<u8>,
    deps: Seq<Seq<char>>,
    t: Timestamp,
) -> StepModel {
    StepModel {
        step_name: name,
        status: StatusModel::Running,
        started_at: Some(t),
        completed_at: None,
        input,
        output: None,
        attempt: 1,
        dependencies: deps,
    }
}

/// Replaces the records named like `st`, or appends `st` where there is none.
pub open spec fn upsert_step(steps: Seq<StepModel>, st: StepModel) -> Seq<StepModel> {
    if exists|i: int| 0 <= i < steps.len() && steps[i].step_name == st.step_name {
        steps.map_values(|x: StepModel| if x.step_name == st.step_name { st } else { x })
    } else {
        steps.push(st)
    }
}

/// The step `name` completed with `output` at `t`.
pub open spec fn completed_step(x: StepModel, output: Seq<u8>, t: Timestamp) -> StepModel {
    StepModel { status: StatusModel::Completed, completed_at: Some(t), output: Some(output), ..x }
}

/// One more attempt, saturating at the largest count.
pub open spec fn next_attempt(a: u32) -> u32 {
    if a < u32::MAX {
        (a + 1) as u32
    } else {
        a
    }
}

/// The step failed with `error` at `t`.
pub open spec fn failed_step(x: StepModel, error: Seq<char>, t: Timestamp) -> StepModel {
    StepModel {
        status: StatusModel::Failed { error },
        completed_at: Some(t),
        attempt: next_attempt(x.attempt),
        ..x
    }
}

/// What a completion (no error) or a failure does to a step record.
pub open spec fn step_change(error: Option<Seq<char>>, output: Seq<u8>, t: Timestamp) -> spec_fn(
    StepModel,
) -> StepModel {
    |x: StepModel|
        match error {
            None => completed_step(x, output, t),
            Some(e) => failed_step(x, e, t),
        }
}

/// Applies `f` to the steps named `name`.
pub open spec fn map_step(
    steps: Seq<StepModel>,
    name: Seq<char>,
    f: spec_fn(StepModel) -> StepModel,
) -> Seq<StepModel> {
    steps.map_values(|x: StepModel| if x.step_name == name { f(x) } else { x })
}

impl WorkflowExecution {
    /// The record of step `name`, if any.
    pub fn get_step(&self, name: &str) -> (r: Option<StepExecution>)
        ensures
            r matches Some(s) ==> exists|i: int|
                0 <= i < self@.steps.len() && self@.steps[i].step_name == name@ && self@.steps[i]
                    == s@ && forall|k: int| 0 <= k < i ==> self@.steps[k].step_name != name@,
            r is None ==> forall|i: int|
                0 <= i < self@.steps.len() ==> self@.steps[i].step_name != name@,
    {
        let mut i: usize = 0;
        while i < self.step_executions.len()
            invariant
                i <= self.step_executions@.len(),
                forall|k: int| 0 <= k < i ==> self.step_executions@[k]@.step_name != name@,
            decreases self.step_executions@.len() - i,
        {
            if str_eq(self.step_executions[i].step_name.as_str(), name) {
                let s = self.step_executions[i].clone();
                assert(self@.steps[i as int] == s@);
                return Some(s);
            }
            i = i + 1;
        }
        None
    }

    /// A step named `name` has a record.
    pub fn has_step(&self, name: &str) -> (r: bool)
        ensures
            r == exists|i: int| 0 <= i < self@.steps.len() && self@.steps[i].step_name == name@,
    {
        let found = self.get_step(name);
        match found {
            Some(_) => true,
            None => false,
        }
    }

    /// Records `st` under its name, replacing an earlier record of that name.
    fn put_step(&mut self, st: StepExecution)
        ensures
            final(self)@ == (ExecutionModel {
                steps: upsert_step(old(self)@.steps, st@),
                ..old(self)@
            }),
    {
        let ghost sv = st@;
        let ghost old_steps = old(self)@.steps;
        let mut out: Vec<StepExecution> = Vec::new();
        let mut found = false;
        let mut i: usize = 0;
        while i < self.step_executions.len()
            invariant
                i <= self.step_executions@.len(),
                sv == st@,
                old_steps == steps_view(self.step_executions@),
                out@.len() == i,
                found == exists|k: int| 0 <= k < i && old_steps[k].step_name == sv.step_name,
                forall|k: int|
                    0 <= k < i ==> out@[k]@ == (if old_steps[k].step_name == sv.step_name {
                        sv
                    } else {
                        old_steps[k]
                    }),
            decreases self.step_executions@.len() - i,
        {
            assert(old_steps[i as int] == self.step_executions@[i as int]@);
            if str_eq(self.step_executions[i].step_name.as_str(), st.step_name.as_str()) {
                out.push(st.clone());
                found = true;
            } else {
                out.push(self.step_executions[i].clone());
            }
            i = i + 1;
        }
        if !found {
            out = copy_steps(&self.step_executions);
            out.push(st);
            assert(steps_view(out@) =~= old_steps.push(sv));
        } else {
            assert(steps_view(out@) =~= old_steps.map_values(
                |x: StepModel| if x.step_name == sv.step_name { sv } else { x },
            ));
        }
        self.step_executions = out;
        assert(self@.steps == upsert_step(old_steps, sv));
    }
}

impl WorkflowExecution {
    /// Applies `f` to every record named `name`, keeping the others.
    fn map_steps(&mut self, name: &str, output: &Vec<u8>, error: &Option<String>, t: Timestamp)
        ensures
            final(self)@ == (ExecutionModel {
                steps: map_step(old(self)@.steps, name@, step_change(opt_str_view(*error), output@, t)),
                ..old(self)@
            }),
    {
        let ghost old_steps = old(self)@.steps;
        let ghost f = step_change(opt_str_view(*error), output@, t);
        let mut out: Vec<StepExecution> = Vec::new();
        let mut i: usize = 0;
        while i < self.step_executions.len()
            invariant
                i <= self.step_executions@.len(),
                old_steps == steps_view(self.step_executions@),
                f == step_change(opt_str_view(*error), output@, t),
                out@.len() == i,
                forall|k: int|
                    0 <= k < i ==> out@[k]@ == (if old_steps[k].step_name == name@ {
                        f(old_steps[k])
                    } else {
                        old_steps[k]
                    }),
            decreases self.step_executions@.len() - i,
        {
            assert(old_steps[i as int] == self.step_executions@[i as int]@);
            let mut st = self.step_executions[i].clone();
            if str_eq(st.step_name.as_str(), name) {
                st.completed_at = Some(t);
                match error {
                    None => {
                        st.status = StepExecutionStatus::Completed;
                        st.output = Some(copy_bytes(output));
                    },
                    Some(e) => {
                        st.status = StepExecutionStatus::Failed { error: e.clone() };
                        if st.attempt < u32::MAX {
                            st.attempt = st.attempt + 1;
                        }
                    },
                }
            }
            out.push(st);
            i = i + 1;
        }
        assert(steps_view(out@) =~= map_step(old_steps, name@, f));
        self.step_executions = out;
    }
}

/// Applies `f` to the records of workflow `id`, keeping the others.
pub open spec fn on_execution(
    s: Seq<ExecutionModel>,
    id: Seq<char>,
    f: spec_fn(ExecutionModel) -> ExecutionModel,
) -> Seq<ExecutionModel> {
    s.map_values(|x: ExecutionModel| if x.workflow_id == id { f(x) } else { x })
}

/// A new record of workflow `id`, started at `t`.
pub open spec fn fresh_execution(id: Seq<char>, workflow_type: Seq<char>, t: Timestamp) -> ExecutionModel {
    ExecutionModel {
        workflow_id: id,
        workflow_type,
        steps: Seq::empty(),
        started_at: t,
        completed_at: None,
        current_step: None,
    }
}

/// Replaces the records of `e`'s workflow by `e`, or appends `e`.
pub open spec fn upsert_execution(s: Seq<ExecutionModel>, e: ExecutionModel) -> Seq<ExecutionModel> {
    if exists|i: int| 0 <= i < s.len() && s[i].workflow_id == e.workflow_id {
        on_execution(s, e.workflow_id, |x: ExecutionModel| e)
    } else {
        s.push(e)
    }
}

/// The record after step `st` started.
pub open spec fn after_step_started(e: ExecutionModel, st: StepModel) -> ExecutionModel {
    ExecutionModel { steps: upsert_step(e.steps, st), current_step: Some(st.step_name), ..e }
}

/// The record after step `name` completed with `output` at `t`.
pub open spec fn after_step_completed(
    e: ExecutionModel,
    name: Seq<char>,
    output: Seq<u8>,
    t: Timestamp,
) -> ExecutionModel {
    ExecutionModel {
        steps: map_step(e.steps, name, step_change(None, output, t)),
        current_step: None,
        ..e
    }
}

/// The record after step `name` failed with `error` at `t`.
pub open spec fn after_step_failed(
    e: ExecutionModel,
    name: Seq<char>,
    error: Seq<char>,
    t: Timestamp,
) -> ExecutionModel {
    ExecutionModel {
        steps: map_step(e.steps, name, step_change(Some(error), Seq::empty(), t)),
        current_step: Some(name),
        ..e
    }
}

/// The record after the workflow finished at `t`.
pub open spec fn after_finished(e: ExecutionModel, t: Timestamp) -> ExecutionModel {
    ExecutionModel { completed_at: Some(t), current_step: None, ..e }
}

/// The records after step `name` of workflow `id` completed with `output` at `t`.
pub open spec fn with_step_completed(
    s: Seq<ExecutionModel>,
    id: Seq<char>,
    name: Seq<char>,
    output: Seq<u8>,
    t: Timestamp,
) -> Seq<ExecutionModel> {
    on_execution(s, id, |e| after_step_completed(e, name, output, t))
}

/// The records after step `name` of workflow `id` failed with `error` at `t`.
pub open spec fn with_step_failed(
    s: Seq<ExecutionModel>,
    id: Seq<char>,
    name: Seq<char>,
    error: Seq<char>,
    t: Timestamp,
) -> Seq<ExecutionModel> {
    on_execution(s, id, |e| after_step_failed(e, name, error, t))
}

/// The records after workflow `id` finished at `t`.
pub open spec fn with_finished(s: Seq<ExecutionModel>, id: Seq<char>, t: Timestamp) -> Seq<
    ExecutionModel,
> {
    on_execution(s, id, |e| after_finished(e, t))
}

/// The workflow has not finished.
pub open spec fn is_active(e: ExecutionModel) -> bool {
    e.completed_at is None
}

pub open spec fn executions_view(v: Seq<WorkflowExecution>) -> Seq<ExecutionModel> {
    v.map_values(|e: WorkflowExecution| e@)
}

/// Step names are unique within a record.
pub open spec fn steps_unique(s: Seq<StepModel>) -> bool {
    forall|a: int, b: int| 0 <= a < b < s.len() ==> s[a].step_name != s[b].step_name
}

/// At most one record per workflow, and one step record per step name.
pub open spec fn records_wf(s: Seq<ExecutionModel>) -> bool {
    &&& forall|i: int, j: int| 0 <= i < j < s.len() ==> s[i].workflow_id != s[j].workflow_id
    &&& forall|i: int| 0 <= i < s.len() ==> steps_unique(#[trigger] s[i].steps)
}

/// Replacing a record by one of the same workflow with unique step names
/// keeps the records well formed.
proof fn lemma_records_update(s: Seq<ExecutionModel>, i: int, e: ExecutionModel)
    requires
        records_wf(s),
        0 <= i < s.len(),
        e.workflow_id == s[i].workflow_id,
        steps_unique(e.steps),
    ensures
        records_wf(s.update(i, e)),
{
    let u = s.update(i, e);
    assert forall|a: int, b: int| 0 <= a < b < u.len() implies u[a].workflow_id
        != u[b].workflow_id by {
        assert(s[a].workflow_id != s[b].workflow_id);
    }
    assert forall|k: int| 0 <= k < u.len() implies steps_unique(#[trigger] u[k].steps) by {
        if k != i {
            assert(u[k] == s[k]);
        }
    }
}

/// Upserting a step record keeps step names unique.
proof fn lemma_upsert_step_unique(steps: Seq<StepModel>, st: StepModel)
    requires
        steps_unique(steps),
    ensures
        steps_unique(upsert_step(steps, st)),
{
    let u = upsert_step(steps, st);
    if exists|i: int| 0 <= i < steps.len() && steps[i].step_name == st.step_name {
        assert forall|a: int, b: int| 0 <= a < b < u.len() implies u[a].step_name
            != u[b].step_name by {
            assert(u[a].step_name == steps[a].step_name);
            assert(u[b].step_name == steps[b].step_name);
        }
    } else {
        assert forall|a: int, b: int| 0 <= a < b < u.len() implies u[a].step_name
            != u[b].step_name by {
            if b == steps.len() {
                assert(u[a] == steps[a]);
            } else {
                assert(u[a] == steps[a]);
                assert(u[b] == steps[b]);
            }
        }
    }
}

/// Completing or failing a step keeps step names unique.
proof fn lemma_map_step_unique(
    steps: Seq<StepModel>,
    name: Seq<char>,
    error: Option<Seq<char>>,
    output: Seq<u8>,
    t: Timestamp,
)
    requires
        steps_unique(steps),
    ensures
        steps_unique(map_step(steps, name, step_change(error, output, t))),
{
    let u = map_step(steps, name, step_change(error, output, t));
    assert forall|a: int, b: int| 0 <= a < b < u.len() implies u[a].step_name
        != u[b].step_name by {
        assert(u[a].step_name == steps[a].step_name);
        assert(u[b].step_name == steps[b].step_name);
    }
}

/// The process-lifetime index of workflow records, for observers.
pub struct WorkflowTracker {
    executions: Vec<WorkflowExecution>,
}

impl WorkflowTracker {
    /// The records in the order their workflows were first tracked.
    pub closed spec fn model(&self) -> Seq<ExecutionModel> {
        executions_view(self.executions@)
    }

    /// At most one record per workflow.
    pub open spec fn inv(&self) -> bool {
        records_wf(self.model())
    }

    /// An empty tracker.
    pub fn new() -> (r: WorkflowTracker)
        ensures
            r.inv(),
            r.model() == Seq::<ExecutionModel>::empty(),
    {
        let r = WorkflowTracker { executions: Vec::new() };
        assert(r.model() =~= Seq::<ExecutionModel>::empty());
        r
    }

    /// The position of the record of workflow `id`.
    fn find(&self, id: &str) -> (r: Option<usize>)
        requires
            self.inv(),
        ensures
            r matches Some(i) ==> i < self.model().len() && self.model()[i as int].workflow_id
                == id@ && forall|k: int|
                0 <= k < self.model().len() && k != i ==> self.model()[k].workflow_id != id@,
            r is None ==> forall|k: int|
                0 <= k < self.model().len() ==> self.model()[k].workflow_id != id@,
    {
        let mut i: usize = 0;
        while i < self.executions.len()
            invariant
                self.inv(),
                i <= self.executions@.len(),
                forall|k: int| 0 <= k < i ==> self.model()[k].workflow_id != id@,
            decreases self.executions@.len() - i,
        {
            assert(self.model()[i as int] == self.executions@[i as int]@);
            if str_eq(self.executions[i].workflow_id.as_str(), id) {
                assert forall|k: int|
                    0 <= k < self.model().len() && k != i implies self.model()[k].workflow_id
                    != id@ by {
                    if k < i {
                    } else {
                        assert(self.model()[i as int].workflow_id != self.model()[k].workflow_id);
                    }
                }
                return Some(i);
            }
            i = i + 1;
        }
        None
    }

    /// Replacing the record at `i`, the one of workflow `id`, is applying the
    /// change to the records of `id`.
    proof fn lemma_update_is_on_execution(
        s: Seq<ExecutionModel>,
        i: int,
        id: Seq<char>,
        f: spec_fn(ExecutionModel) -> ExecutionModel,
    )
        requires
            0 <= i < s.len(),
            s[i].workflow_id == id,
            forall|k: int| 0 <= k < s.len() && k != i ==> s[k].workflow_id != id,
        ensures
            s.update(i, f(s[i])) == on_execution(s, id, f),
    {
        assert(s.update(i, f(s[i])) =~= on_execution(s, id, f));
    }

    /// Starts (or restarts) tracking workflow `id` at `t`.
    pub fn start_workflow_at(&mut self, workflow_id: String, workflow_type: String, t: Timestamp)
        requires
            old(self).inv(),
        ensures
            final(self).inv(),
            final(self).model() == upsert_execution(
                old(self).model(),
                fresh_execution(workflow_id@, workflow_type@, t),
            ),
    {
        let ghost e = fresh_execution(workflow_id@, workflow_type@, t);
        let pos = self.find(workflow_id.as_str());
        let rec = WorkflowExecution {
            workflow_id,
            workflow_type,
            step_executions: Vec::new(),
            started_at: t,
            completed_at: None,
            current_step: None,
        };
        assert(steps_view(rec.step_executions@) =~= Seq::<StepModel>::empty());
        assert(rec@ =~= e);
        match pos {
            Some(i) => {
                self.executions.set(i, rec);
                proof {
                    Self::lemma_update_is_on_execution(
                        old(self).model(),
                        i as int,
                        e.workflow_id,
                        |x: ExecutionModel| e,
                    );
                    assert(self.model() =~= old(self).model().update(i as int, e));
                    lemma_records_update(old(self).model(), i as int, e);
                }
            },
            None => {
                self.executions.push(rec);
                assert(self.model() =~= old(self).model().push(e));
                proof {
                    let u = self.model();
                    let m = old(self).model();
                    assert forall|a: int, b: int| 0 <= a < b < u.len() implies u[a].workflow_id
                        != u[b].workflow_id by {
                        if b == m.len() {
                            assert(u[a] == m[a]);
                        } else {
                            assert(u[a] == m[a]);
                            assert(u[b] == m[b]);
                        }
                    }
                    assert forall|k: int| 0 <= k < u.len() implies steps_unique(
                        #[trigger] u[k].steps,
                    ) by {
                        if k < m.len() {
                            assert(u[k] == m[k]);
                        }
                    }
                }
            },
        }
    }

    /// Starts (or restarts) tracking workflow `id` now.
    pub fn start_workflow(&mut self, workflow_id: String, workflow_type: String)
        requires
            old(self).inv(),
        ensures
            final(self).inv(),
            exists|t: Timestamp|
                final(self).model() == upsert_execution(
                    old(self).model(),
                    fresh_execution(workflow_id@, workflow_type@, t),
                ),
    {
        let t = now();
        self.start_workflow_at(workflow_id, workflow_type, t);
    }

    /// Records that step `step_name` of workflow `workflow_id` started at `t`,
    /// and returns the step's new record; nothing is recorded where the
    /// workflow is not tracked.
    pub fn step_started_at(
        &mut self,
        workflow_id: &str,
        step_name: &str,
        input: Vec<u8>,
        dependencies: Vec<String>,
        t: Timestamp,
    ) -> (r: StepExecution)
        requires
            old(self).inv(),
        ensures
            final(self).inv(),
            r@ == started_step(step_name@, input@, strings_view(dependencies@), t),
            final(self).model() == on_execution(
                old(self).model(),
                workflow_id@,
                |e| after_step_started(e, r@),
            ),
    {
        let st = StepExecution {
            step_name: step_name.to_string(),
            status: StepExecutionStatus::Running,
            started_at: Some(t),
            completed_at: None,
            input,
            output: None,
            attempt: 1,
            dependencies,
        };
        let ghost sv = st@;
        match self.find(workflow_id) {
            Some(i) => {
                let ghost old_e = self.model()[i as int];
                assert(old_e == self.executions@[i as int]@);
                self.executions[i].put_step(st.clone());
                self.executions[i].current_step = Some(step_name.to_string());
                proof {
                    let f = |e| after_step_started(e, sv);
                    assert(self.executions@[i as int]@ =~= f(old_e));
                    Self::lemma_update_is_on_execution(old(self).model(), i as int, workflow_id@, f);
                    assert(self.model() =~= old(self).model().update(i as int, f(old_e)));
                    lemma_upsert_step_unique(old_e.steps, sv);
                    lemma_records_update(old(self).model(), i as int, f(old_e));
                }
            },
            None => {
                proof {
                    assert(old(self).model() =~= on_execution(
                        old(self).model(),
                        workflow_id@,
                        |e| after_step_started(e, sv),
                    ));
                }
            },
        }
        st
    }

    /// Records that a step started now; see `step_started_at`.
    pub fn step_started(
        &mut self,
        workflow_id: &str,
        step_name: &str,
        input: Vec<u8>,
        dependencies: Vec<String>,
    ) -> (r: StepExecution)
        requires
            old(self).inv(),
        ensures
            final(self).inv(),
            exists|t: Timestamp| r@ == started_step(step_name@, input@, strings_view(dependencies@), t),
            final(self).model() == on_execution(
                old(self).model(),
                workflow_id@,
                |e| after_step_started(e, r@),
            ),
    {
        let t = now();
        self.step_started_at(workflow_id, step_name, input, dependencies, t)
    }

    /// Marks step `step_name` of workflow `workflow_id` completed with
    /// `output` at `t` and clears the current step; nothing happens where the
    /// workflow is not tracked.
    pub fn step_completed_at(&mut self, workflow_id: &str, step_name: &str, output: Vec<u8>, t: Timestamp)
        requires
            old(self).inv(),
        ensures
            final(self).inv(),
            final(self).model() == with_step_completed(old(self).model(), workflow_id@, step_name@, output@, t),
    {
        let ghost f = |e| after_step_completed(e, step_name@, output@, t);
        match self.find(workflow_id) {
            Some(i) => {
                let ghost old_e = self.model()[i as int];
                assert(old_e == self.executions@[i as int]@);
                self.executions[i].map_steps(step_name, &output, &None, t);
                self.executions[i].current_step = None;
                proof {
                    assert(self.executions@[i as int]@ =~= f(old_e));
                    Self::lemma_update_is_on_execution(old(self).model(), i as int, workflow_id@, f);
                    assert(self.model() =~= old(self).model().update(i as int, f(old_e)));
                    lemma_map_step_unique(old_e.steps, step_name@, None, output@, t);
                    lemma_records_update(old(self).model(), i as int, f(old_e));
                }
            },
            None => {
                assert(old(self).model() =~= on_execution(old(self).model(), workflow_id@, f));
            },
        }
    }

    /// Marks a step completed now; see `step_completed_at`.
    pub fn step_completed(&mut self, workflow_id: &str, step_name: &str, output: Vec<u8>)
        requires
            old(self).inv(),
        ensures
            final(self).inv(),
            exists|t: Timestamp|
                final(self).model() == with_step_completed(old(self).model(), workflow_id@, step_name@, output@, t),
    {
        let t = now();
        self.step_completed_at(workflow_id, step_name, output, t);
    }

    /// Marks step `step_name` of workflow `workflow_id` failed with `error` at
    /// `t`, counts one more attempt, and makes it the current step; nothing
    /// happens where the workflow is not tracked.
    pub fn step_failed_at(&mut self, workflow_id: &str, step_name: &str, error: String, t: Timestamp)
        requires
            old(self).inv(),
        ensures
            final(self).inv(),
            final(self).model() == with_step_failed(old(self).model(), workflow_id@, step_name@, error@, t),
    {
        let ghost f = |e| after_step_failed(e, step_name@, error@, t);
        let empty: Vec<u8> = Vec::new();
        let err = Some(error);
        match self.find(workflow_id) {
            Some(i) => {
                let ghost old_e = self.model()[i as int];
                assert(old_e == self.executions@[i as int]@);
                self.executions[i].map_steps(step_name, &empty, &err, t);
                self.executions[i].current_step = Some(step_name.to_string());
                proof {
                    assert(empty@ =~= Seq::<u8>::empty());
                    assert(self.executions@[i as int]@ =~= f(old_e));
                    Self::lemma_update_is_on_execution(old(self).model(), i as int, workflow_id@, f);
                    assert(self.model() =~= old(self).model().update(i as int, f(old_e)));
                    lemma_map_step_unique(old_e.steps, step_name@, Some(error@), Seq::empty(), t);
                    lemma_records_update(old(self).model(), i as int, f(old_e));
                }
            },
            None => {
                assert(old(self).model() =~= on_execution(old(self).model(), workflow_id@, f));
            },
        }
    }

    /// Marks a step failed now; see `step_failed_at`.
    pub fn step_failed(&mut self, workflow_id: &str, step_name: &str, error: String)
        requires
            old(self).inv(),
        ensures
            final(self).inv(),
            exists|t: Timestamp|
                final(self).model() == with_step_failed(old(self).model(), workflow_id@, step_name@, error@, t),
    {
        let t = now();
        self.step_failed_at(workflow_id, step_name, error, t);
    }

    /// Marks workflow `workflow_id` finished at `t` and clears its current
    /// step; nothing happens where it is not tracked.
    pub fn finish_at(&mut self, workflow_id: &str, t: Timestamp)
        requires
            old(self).inv(),
        ensures
            final(self).inv(),
            final(self).model() == with_finished(old(self).model(), workflow_id@, t),
    {
        let ghost f = |e| after_finished(e, t);
        match self.find(workflow_id) {
            Some(i) => {
                let ghost old_e = self.model()[i as int];
                assert(old_e == self.executions@[i as int]@);
                self.executions[i].completed_at = Some(t);
                self.executions[i].current_step = None;
                proof {
                    assert(self.executions@[i as int]@ =~= f(old_e));
                    Self::lemma_update_is_on_execution(old(self).model(), i as int, workflow_id@, f);
                    assert(self.model() =~= old(self).model().update(i as int, f(old_e)));
                    lemma_records_update(old(self).model(), i as int, f(old_e));
                }
            },
            None => {
                assert(old(self).model() =~= on_execution(old(self).model(), workflow_id@, f));
            },
        }
    }

    /// Marks a workflow completed now; see `finish_at`.
    pub fn workflow_completed(&mut self, workflow_id: &str)
        requires
            old(self).inv(),
        ensures
            final(self).inv(),
            exists|t: Timestamp|
                final(self).model() == with_finished(old(self).model(), workflow_id@, t),
    {
        let t = now();
        self.finish_at(workflow_id, t);
    }

    /// Marks a workflow failed now; see `finish_at`.
    pub fn workflow_failed(&mut self, workflow_id: &str)
        requires
            old(self).inv(),
        ensures
            final(self).inv(),
            exists|t: Timestamp|
                final(self).model() == with_finished(old(self).model(), workflow_id@, t),
    {
        let t = now();
        self.finish_at(workflow_id, t);
    }

    /// A copy of the record of workflow `workflow_id`.
    pub fn get_execution(&self, workflow_id: &str) -> (r: Option<WorkflowExecution>)
        requires
            self.inv(),
        ensures
            r matches Some(e) ==> exists|i: int|
                0 <= i < self.model().len() && self.model()[i].workflow_id == workflow_id@
                    && self.model()[i] == e@,
            r is None ==> forall|i: int|
                0 <= i < self.model().len() ==> self.model()[i].workflow_id != workflow_id@,
    {
        match self.find(workflow_id) {
            Some(i) => {
                let e = self.executions[i].clone();
                assert(self.model()[i as int] == e@);
                Some(e)
            },
            None => None,
        }
    }

    /// Copies of the records of unfinished workflows, in order.
    pub fn get_active_executions(&self) -> (r: Vec<WorkflowExecution>)
        ensures
            executions_view(r@) == self.model().filter(|e: ExecutionModel| is_active(e)),
    {
        let ghost keep = |e: ExecutionModel| is_active(e);
        let mut r: Vec<WorkflowExecution> = Vec::new();
        let mut i: usize = 0;
        while i < self.executions.len()
            invariant
                i <= self.executions@.len(),
                keep == (|e: ExecutionModel| is_active(e)),
                executions_view(r@) == self.model().subrange(0, i as int).filter(keep),
            decreases self.executions@.len() - i,
        {
            assert(self.model()[i as int] == self.executions@[i as int]@);
            proof {
                assert(self.model().subrange(0, i + 1) =~= self.model().subrange(
                    0,
                    i as int,
                ).push(self.model()[i as int]));
                self.model().subrange(0, i as int).lemma_filter_push(self.model()[i as int], keep);
            }
            if self.executions[i].completed_at.is_none() {
                let e = self.executions[i].clone();
                r.push(e);
                assert(executions_view(r@) =~= self.model().subrange(0, i + 1).filter(keep));
            } else {
                assert(executions_view(r@) =~= self.model().subrange(0, i + 1).filter(keep));
            }
            i = i + 1;
        }
        assert(self.model().subrange(0, i as int) =~= self.model());
        r
    }

    /// Copies of all records, in order.
    pub fn get_all_executions(&self) -> (r: Vec<WorkflowExecution>)
        ensures
            executions_view(r@) == self.model(),
    {
        let mut r: Vec<WorkflowExecution> = Vec::new();
        let mut i: usize = 0;
        while i < self.executions.len()
            invariant
                i <= self.executions@.len(),
                r@.len() == i,
                forall|k: int| 0 <= k < i ==> r@[k]@ == self.model()[k],
            decreases self.executions@.len() - i,
        {
            assert(self.model()[i as int] == self.executions@[i as int]@);
            r.push(self.executions[i].clone());
            i = i + 1;
        }
        assert(executions_view(r@) =~= self.model());
        r
    }

    /// Forgets every record.
    pub fn clear(&mut self)
        ensures
            final(self).inv(),
            final(self).model() == Seq::<ExecutionModel>::empty(),
    {
        self.executions = Vec::new();
        assert(self.model() =~= Seq::<ExecutionModel>::empty());
    }

    /// Forgets the record of workflow `workflow_id`.
    pub fn remove(&mut self, workflow_id: &str)
        requires
            old(self).inv(),
        ensures
            final(self).inv(),
            final(self).model() == old(self).model().filter(
                |e: ExecutionModel| e.workflow_id != workflow_id@,
            ),
    {
        match self.find(workflow_id) {
            Some(i) => {
                let ghost m = self.model();
                self.executions.remove(i);
                proof {
                    let keep = |e: ExecutionModel| e.workflow_id != workflow_id@;
                    assert(self.model() =~= m.remove(i as int));
                    lemma_filter_remove_one(m, i as int, keep);
                    let u = self.model();
                    assert forall|a: int, b: int| 0 <= a < b < u.len() implies u[a].workflow_id
                        != u[b].workflow_id by {
                        let a2 = if a < i { a } else { a + 1 };
                        let b2 = if b < i { b } else { b + 1 };
                        assert(u[a] == m[a2]);
                        assert(u[b] == m[b2]);
                    }
                    assert forall|k: int| 0 <= k < u.len() implies steps_unique(
                        #[trigger] u[k].steps,
                    ) by {
                        let k2 = if k < i { k } else { k + 1 };
                        assert(u[k] == m[k2]);
                    }
                }
            },
            None => {
                proof {
                    let keep = |e: ExecutionModel| e.workflow_id != workflow_id@;
                    assert(old(self).model().filter(keep) =~= old(self).model()) by {
                        lemma_filter_keeps_all(old(self).model(), keep);
                    }
                }
            },
        }
    }
}

/// Filtering by a predicate that every element meets changes nothing.
pub proof fn lemma_filter_keeps_all<A>(s: Seq<A>, keep: spec_fn(A) -> bool)
    requires
        forall|k: int| 0 <= k < s.len() ==> keep(s[k]),
    ensures
        s.filter(keep) == s,
    decreases s.len(),
{
    if s.len() == 0 {
        assert(s.filter(keep) =~= s);
    } else {
        lemma_filter_keeps_all(s.drop_last(), keep);
        assert(s =~= s.drop_last().push(s.last()));
        s.drop_last().lemma_filter_push(s.last(), keep);
    }
}

/// Dropping the one element that fails `keep` is filtering by `keep`.
pub proof fn lemma_filter_remove_one<A>(s: Seq<A>, i: int, keep: spec_fn(A) -> bool)
    requires
        0 <= i < s.len(),
        !keep(s[i]),
        forall|k: int| 0 <= k < s.len() && k != i ==> keep(s[k]),
    ensures
        s.remove(i) == s.filter(keep),
    decreases s.len(),
{
    let init = s.drop_last();
    let last = s[s.len() - 1];
    assert(s =~= init.push(last));
    init.lemma_filter_push(last, keep);
    if i == s.len() - 1 {
        assert(s.remove(i) =~= init);
        lemma_filter_keeps_all(init, keep);
    } else {
        lemma_filter_remove_one(init, i, keep);
        assert(s.remove(i) =~= s.drop_last().remove(i).push(s.last()));
    }
}

/// A step record has an end time exactly when its status is final.
pub open spec fn step_wf(s: StepModel) -> bool {
    s.completed_at is Some <==> (s.status is Completed || s.status is Failed || s.status is Cancelled)
}

/// Every record the tracker writes for a step has an end time exactly when
/// its status is final; completing a step keeps its attempt count and failing
/// it never lowers the count; a finished workflow has no current step.
pub proof fn lemma_tracker_records_well_formed(
    x: StepModel,
    e: ExecutionModel,
    name: Seq<char>,
    input: Seq<u8>,
    deps: Seq<Seq<char>>,
    output: Seq<u8>,
    error: Seq<char>,
    t: Timestamp,
)
    ensures
        step_wf(started_step(name, input, deps, t)),
        step_wf(completed_step(x, output, t)),
        step_wf(failed_step(x, error, t)),
        completed_step(x, output, t).attempt == x.attempt,
        failed_step(x, error, t).attempt >= x.attempt,
        x.attempt < u32::MAX ==> failed_step(x, error, t).attempt == x.attempt + 1,
        after_finished(e, t).current_step is None,
        after_finished(e, t).completed_at == Some(t),
{
}

/// Record `i` is that of workflow `wid`, and its `j`-th step is the first one
/// named `step`.
pub open spec fn is_first_step(
    s: Seq<ExecutionModel>,
    wid: Seq<char>,
    step: Seq<char>,
    i: int,
    j: int,
) -> bool {
    &&& 0 <= i < s.len()
    &&& s[i].workflow_id == wid
    &&& 0 <= j < s[i].steps.len()
    &&& s[i].steps[j].step_name == step
    &&& forall|k: int| 0 <= k < j ==> s[i].steps[k].step_name != step
}

/// The attempt count of step `step` of workflow `wid` as recorded, or 1 where
/// no such step is recorded.
pub open spec fn attempt_before(s: Seq<ExecutionModel>, wid: Seq<char>, step: Seq<char>) -> u32 {
    if exists|i: int, j: int| is_first_step(s, wid, step, i, j) {
        let (i, j) = choose|i: int, j: int| is_first_step(s, wid, step, i, j);
        s[i].steps[j].attempt
    } else {
        1
    }
}

/// Under unique workflow ids, the first step of a name is a single record.
pub proof fn lemma_first_step_unique(
    s: Seq<ExecutionModel>,
    wid: Seq<char>,
    step: Seq<char>,
    i: int,
    j: int,
    i2: int,
    j2: int,
)
    requires
        forall|a: int, b: int| 0 <= a < b < s.len() ==> s[a].workflow_id != s[b].workflow_id,
        is_first_step(s, wid, step, i, j),
        is_first_step(s, wid, step, i2, j2),
    ensures
        i == i2,
        j == j2,
{
    if i < i2 {
        assert(s[i].workflow_id != s[i2].workflow_id);
    } else if i2 < i {
        assert(s[i2].workflow_id != s[i].workflow_id);
    }
    if j < j2 {
        assert(s[i].steps[j].step_name != step);
    } else if j2 < j {
        assert(s[i].steps[j2].step_name != step);
    }
}

} // verus!
