use crate::clock::Timestamp;
use crate::state_machine::{copy_opt_string, opt_str_view};
use crate::text::append_str;
use crate::tracker::{
    status_name, ExecutionModel, StepExecution, StepModel, WorkflowExecution, WorkflowTracker,
};
use vstd::prelude::*;

verus! {

/// A dashboard request.
#[derive(Debug, Clone)]
pub enum ApiRequest {
    ListActiveWorkflows,
    GetWorkflow { workflow_id: String },
    GetWorkflowHistory { workflow_id: String },
}

/// A dashboard answer.
#[derive(Debug, Clone)]
pub enum ApiResponse {
    WorkflowList { workflows: Vec<WorkflowInfoDto> },
    WorkflowDetail { detail: WorkflowDetailDto },
    WorkflowHistory { history: Vec<StepHistoryDto> },
    Error { message: String },
}

/// A workflow in a list.
#[derive(Debug, Clone)]
pub struct WorkflowInfoDto {
    pub workflow_id: String,
    pub workflow_type: String,
    pub current_step: Option<String>,
    pub started_at: u64,
}

/// A workflow with its steps.
#[derive(Debug, Clone)]
pub struct WorkflowDetailDto {
    pub workflow_id: String,
    pub workflow_type: String,
    pub current_step: Option<String>,
    pub step_executions: Vec<StepExecutionDto>,
    pub started_at: u64,
    pub completed_at: Option<u64>,
}

/// A step of a workflow.
#[derive(Debug, Clone)]
pub struct StepExecutionDto {
    pub step_name: String,
    pub status: String,
    pub started_at: Option<u64>,
    pub completed_at: Option<u64>,
    pub attempt: u32,
}

/// A step on a workflow's timeline.
#[derive(Debug, Clone)]
pub struct StepHistoryDto {
    pub step_name: String,
    pub status: String,
    pub timestamp: u64,
    pub duration_ms: Option<u64>,
}

/// The seconds of an optional time, as an unsigned count.
pub open spec fn opt_secs(t: Option<Timestamp>) -> Option<u64> {
    match t {
        Some(x) => Some(x.seconds as u64),
        None => None,
    }
}

fn secs(t: Option<Timestamp>) -> (r: Option<u64>)
    ensures
        r == opt_secs(t),
{
    match t {
        Some(x) => Some(x.seconds as u64),
        None => None,
    }
}

/// `d` is the list entry of record `e`.
pub open spec fn is_info_of(d: WorkflowInfoDto, e: ExecutionModel) -> bool {
    &&& d.workflow_id@ == e.workflow_id
    &&& d.workflow_type@ == e.workflow_type
    &&& opt_str_view(d.current_step) == e.current_step
    &&& d.started_at == e.started_at.seconds as u64
}

/// `d` is the entry of step record `s`.
pub open spec fn is_step_dto_of(d: StepExecutionDto, s: StepModel) -> bool {
    &&& d.step_name@ == s.step_name
    &&& d.status@ == status_name(s.status)
    &&& d.started_at == opt_secs(s.started_at)
    &&& d.completed_at == opt_secs(s.completed_at)
    &&& d.attempt == s.attempt
}

/// `d` is the detail of record `e`, its steps in order.
pub open spec fn is_detail_of(d: WorkflowDetailDto, e: ExecutionModel) -> bool {
    &&& d.workflow_id@ == e.workflow_id
    &&& d.workflow_type@ == e.workflow_type
    &&& opt_str_view(d.current_step) == e.current_step
    &&& d.started_at == e.started_at.seconds as u64
    &&& d.completed_at == opt_secs(e.completed_at)
    &&& d.step_executions@.len() == e.steps.len()
    &&& forall|k: int|
        0 <= k < e.steps.len() ==> is_step_dto_of(#[trigger] d.step_executions@[k], e.steps[k])
}

/// How long a step took, in whole milliseconds (saturating), once it has
/// both a start and an end.
pub open spec fn duration_of(start: Option<Timestamp>, end: Option<Timestamp>) -> Option<u64> {
    match (start, end) {
        (Some(a), Some(b)) => {
            let d: u64 = if b.seconds >= a.seconds {
                (b.seconds - a.seconds) as u64
            } else {
                0
            };
            Some(
                if d <= u64::MAX / 1000 {
                    (d * 1000) as u64
                } else {
                    u64::MAX
                },
            )
        },
        _ => None,
    }
}

/// `h` is the timeline entry of step record `s`: its start time (zero where it
/// has none) and its duration.
pub open spec fn is_history_of(h: StepHistoryDto, s: StepModel) -> bool {
    &&& h.step_name@ == s.step_name
    &&& h.status@ == status_name(s.status)
    &&& h.timestamp == (match s.started_at {
        Some(t) => t.seconds as u64,
        None => 0,
    })
    &&& h.duration_ms == duration_of(s.started_at, s.completed_at)
}

/// Entry `h` is the timeline entry of one of `steps`.
pub open spec fn from_some_step(h: StepHistoryDto, steps: Seq<StepModel>) -> bool {
    exists|j: int| 0 <= j < steps.len() && is_history_of(h, steps[j])
}

/// Step record `st` has a timeline entry in `r`.
pub open spec fn listed(r: Seq<StepHistoryDto>, st: StepModel) -> bool {
    exists|i: int| 0 <= i < r.len() && is_history_of(r[i], st)
}

/// `r` is the timeline of `steps`: one entry per step, ordered by start time.
pub open spec fn is_timeline_of(r: Seq<StepHistoryDto>, steps: Seq<StepModel>) -> bool {
    &&& r.len() == steps.len()
    &&& forall|i: int, j: int| 0 <= i < j < r.len() ==> r[i].timestamp <= r[j].timestamp
    &&& forall|i: int| 0 <= i < r.len() ==> from_some_step(#[trigger] r[i], steps)
    &&& forall|j: int| 0 <= j < steps.len() ==> listed(r, #[trigger] steps[j])
}

/// The list entry of a workflow record.
pub fn workflow_info(e: &WorkflowExecution) -> (r: WorkflowInfoDto)
    ensures
        is_info_of(r, e@),
{
    WorkflowInfoDto {
        workflow_id: e.workflow_id.clone(),
        workflow_type: e.workflow_type.clone(),
        current_step: copy_opt_string(&e.current_step),
        started_at: e.started_at.seconds as u64,
    }
}

/// The step entry of a step record.
pub fn step_execution_dto(s: &StepExecution) -> (r: StepExecutionDto)
    ensures
        is_step_dto_of(r, s@),
{
    StepExecutionDto {
        step_name: s.step_name.clone(),
        status: s.status.name().to_string(),
        started_at: secs(s.started_at),
        completed_at: secs(s.completed_at),
        attempt: s.attempt,
    }
}

/// The detail of a workflow record, its steps in order.
pub fn workflow_detail(e: &WorkflowExecution) -> (r: WorkflowDetailDto)
    ensures
        is_detail_of(r, e@),
{
    let mut steps: Vec<StepExecutionDto> = Vec::new();
    let mut i: usize = 0;
    while i < e.step_executions.len()
        invariant
            i <= e.step_executions@.len(),
            steps@.len() == i,
            forall|k: int| 0 <= k < i ==> is_step_dto_of(#[trigger] steps@[k], e@.steps[k]),
        decreases e.step_executions@.len() - i,
    {
        assert(e@.steps[i as int] == e.step_executions@[i as int]@);
        steps.push(step_execution_dto(&e.step_executions[i]));
        i = i + 1;
    }
    WorkflowDetailDto {
        workflow_id: e.workflow_id.clone(),
        workflow_type: e.workflow_type.clone(),
        current_step: copy_opt_string(&e.current_step),
        step_executions: steps,
        started_at: e.started_at.seconds as u64,
        completed_at: secs(e.completed_at),
    }
}

/// The timeline entry of a step record.
pub fn step_history_dto(s: &StepExecution) -> (r: StepHistoryDto)
    ensures
        is_history_of(r, s@),
{
    let duration_ms = match (s.started_at, s.completed_at) {
        (Some(a), Some(b)) => {
            let d: u64 = if b.seconds >= a.seconds {
                (b.seconds as i128 - a.seconds as i128) as u64
            } else {
                0
            };
            Some(
                if d <= u64::MAX / 1000 {
                    d * 1000
                } else {
                    u64::MAX
                },
            )
        },
        _ => None,
    };
    let timestamp = match s.started_at {
        Some(t) => t.seconds as u64,
        None => 0,
    };
    StepHistoryDto {
        step_name: s.step_name.clone(),
        status: s.status.name().to_string(),
        timestamp,
        duration_ms,
    }
}

/// Relies on `slice::sort_by_key`: a stable sort by the key, here the
/// timestamp, that keeps the entries.
#[verifier::external_body]
fn sort_by_timestamp(v: &mut Vec<StepHistoryDto>)
    ensures
        final(v)@.len() == old(v)@.len(),
        final(v)@.to_multiset() == old(v)@.to_multiset(),
        forall|i: int, j: int|
            0 <= i < j < final(v)@.len() ==> final(v)@[i].timestamp <= final(v)@[j].timestamp,
{
    v.sort_by_key(|h| h.timestamp);
}

/// The timeline of a workflow record: one entry per step, by start time.
pub fn workflow_history(e: &WorkflowExecution) -> (r: Vec<StepHistoryDto>)
    ensures
        is_timeline_of(r@, e@.steps),
{
    let mut history: Vec<StepHistoryDto> = Vec::new();
    let mut i: usize = 0;
    while i < e.step_executions.len()
        invariant
            i <= e.step_executions@.len(),
            history@.len() == i,
            forall|k: int| 0 <= k < i ==> is_history_of(#[trigger] history@[k], e@.steps[k]),
        decreases e.step_executions@.len() - i,
    {
        assert(e@.steps[i as int] == e.step_executions@[i as int]@);
        history.push(step_history_dto(&e.step_executions[i]));
        i = i + 1;
    }
    let ghost pre = history@;
    sort_by_timestamp(&mut history);
    proof {
        broadcast use vstd::seq_lib::group_to_multiset_ensures;

        let post = history@;
        assert forall|a: int| 0 <= a < post.len() implies from_some_step(
            #[trigger] post[a],
            e@.steps,
        ) by {
            assert(post.contains(post[a]));
            assert(post.to_multiset().count(post[a]) > 0);
            assert(pre.contains(post[a]));
            let k = choose|k: int| 0 <= k < pre.len() && pre[k] == post[a];
            assert(is_history_of(pre[k], e@.steps[k]));
        }
        assert forall|j: int| 0 <= j < e@.steps.len() implies listed(
            post,
            #[trigger] e@.steps[j],
        ) by {
            assert(pre.contains(pre[j]));
            assert(pre.to_multiset().count(pre[j]) > 0);
            assert(post.contains(pre[j]));
            let a = choose|a: int| 0 <= a < post.len() && post[a] == pre[j];
            assert(is_history_of(pre[j], e@.steps[j]));
            assert(is_history_of(post[a], e@.steps[j]));
        }
    }
    history
}

/// The error answer for an unknown workflow.
fn not_found(workflow_id: &str) -> (r: ApiResponse)
    ensures
        r matches ApiResponse::Error { message } && message@ == "Workflow not found: "@
            + workflow_id@,
{
    let mut message = String::new();
    append_str(&mut message, "Workflow not found: ");
    append_str(&mut message, workflow_id);
    proof {
        reveal_strlit("Workflow not found: ");
        assert(message@ =~= "Workflow not found: "@ + workflow_id@);
    }
    ApiResponse::Error { message }
}

/// Answers a dashboard request from the tracker: the unfinished workflows in
/// order, one workflow's detail, or its timeline; an error naming the
/// workflow where it is not tracked.
pub fn answer(tracker: &WorkflowTracker, request: &ApiRequest) -> (r: ApiResponse)
    requires
        tracker.inv(),
    ensures
        request is ListActiveWorkflows ==> (r matches ApiResponse::WorkflowList { workflows } && {
            let active = tracker.model().filter(|x: ExecutionModel| crate::tracker::is_active(x));
            &&& workflows@.len() == active.len()
            &&& forall|k: int| 0 <= k < active.len() ==> is_info_of(#[trigger] workflows@[k], active[k])
        }),
        request matches ApiRequest::GetWorkflow { workflow_id } ==> match r {
            ApiResponse::WorkflowDetail { detail } => exists|i: int|
                0 <= i < tracker.model().len() && tracker.model()[i].workflow_id == workflow_id@
                    && is_detail_of(detail, tracker.model()[i]),
            ApiResponse::Error { message } => message@ == "Workflow not found: "@ + workflow_id@
                && forall|i: int|
                0 <= i < tracker.model().len() ==> tracker.model()[i].workflow_id != workflow_id@,
            _ => false,
        },
        request matches ApiRequest::GetWorkflowHistory { workflow_id } ==> match r {
            ApiResponse::WorkflowHistory { history } => exists|i: int|
                0 <= i < tracker.model().len() && tracker.model()[i].workflow_id == workflow_id@
                    && is_timeline_of(history@, tracker.model()[i].steps),
            ApiResponse::Error { message } => message@ == "Workflow not found: "@ + workflow_id@
                && forall|i: int|
                0 <= i < tracker.model().len() ==> tracker.model()[i].workflow_id != workflow_id@,
            _ => false,
        },
{
    match request {
        ApiRequest::ListActiveWorkflows => {
            let active = tracker.get_active_executions();
            let mut workflows: Vec<WorkflowInfoDto> = Vec::new();
            let mut i: usize = 0;
            while i < active.len()
                invariant
                    i <= active@.len(),
                    workflows@.len() == i,
                    forall|k: int| 0 <= k < i ==> is_info_of(#[trigger] workflows@[k], active@[k]@),
                decreases active@.len() - i,
            {
                workflows.push(workflow_info(&active[i]));
                i = i + 1;
            }
            proof {
                let act = tracker.model().filter(|x: ExecutionModel| crate::tracker::is_active(x));
                assert forall|k: int| 0 <= k < act.len() implies is_info_of(
                    #[trigger] workflows@[k],
                    act[k],
                ) by {
                    assert(crate::tracker::executions_view(active@)[k] == active@[k]@);
                }
            }
            ApiResponse::WorkflowList { workflows }
        },
        ApiRequest::GetWorkflow { workflow_id } => match tracker.get_execution(
            workflow_id.as_str(),
        ) {
            Some(e) => ApiResponse::WorkflowDetail { detail: workflow_detail(&e) },
            None => not_found(workflow_id.as_str()),
        },
        ApiRequest::GetWorkflowHistory { workflow_id } => match tracker.get_execution(
            workflow_id.as_str(),
        ) {
            Some(e) => ApiResponse::WorkflowHistory { history: workflow_history(&e) },
            None => not_found(workflow_id.as_str()),
        },
    }
}

} // verus!
