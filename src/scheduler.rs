use crate::broadcaster::{
    is_step_completed_event, is_step_failed_event, is_step_started_event,
    is_workflow_completed_event, one_more, EventBroadcaster, WorkflowEvent,
};
use crate::clock::{now, Timestamp};
use crate::persistence::{is_listing, workflow_views, Persistence};
use crate::service_registry::ServiceRegistry;
use crate::state_machine::{copy_bytes, StateModel, Workflow, WorkflowModel, WorkflowState};
use crate::task::{make_task_id, task_id_of, ResourceType, Task, TaskModel};
use crate::text::str_eq;
use crate::tracker::{
    attempt_before, is_first_step, lemma_first_step_unique, after_step_started, fresh_execution, on_execution, upsert_execution, started_step, strings_view, with_step_completed,
    ExecutionModel, WorkflowTracker,
};
use vstd::prelude::*;

verus! {

/// The mathematical value of a registered worker.
pub struct WorkerModel {
    pub id: Seq<char>,
    pub service_name: Seq<char>,
    pub group: Seq<char>,
    pub workflow_types: Seq<Seq<char>>,
    pub resources: Seq<(Seq<char>, ResourceType)>,
    pub last_seen: Timestamp,
}

/// A registered worker and what it declared it can run.
#[derive(Debug)]
pub struct WorkerInfo {
    pub id: String,
    pub service_name: String,
    pub group: String,
    pub workflow_types: Vec<String>,
    pub resources: Vec<(String, ResourceType)>,
    pub last_seen: Timestamp,
}

pub open spec fn resources_view(v: Seq<(String, ResourceType)>) -> Seq<(Seq<char>, ResourceType)> {
    v.map_values(|p: (String, ResourceType)| (p.0@, p.1))
}

impl View for WorkerInfo {
    type V = WorkerModel;

    open spec fn view(&self) -> WorkerModel {
        WorkerModel {
            id: self.id@,
            service_name: self.service_name@,
            group: self.group@,
            workflow_types: strings_view(self.workflow_types@),
            resources: resources_view(self.resources@),
            last_seen: self.last_seen,
        }
    }
}

/// The worker offers a resource of kind `rt`, named `target_resource` when
/// one is named.
pub open spec fn provides_resource(
    w: WorkerModel,
    target_resource: Option<Seq<char>>,
    rt: ResourceType,
) -> bool {
    exists|i: int|
        0 <= i < w.resources.len() && w.resources[i].1 == rt && match target_resource {
            Some(name) => w.resources[i].0 == name,
            None => true,
        }
}

/// The worker may run a task with these targets, of a workflow of type
/// `workflow_type`: an untargeted task goes to a worker that lists the type or
/// offers a matching resource; a targeted one goes to the target service or to
/// a worker that offers a matching resource.
pub open spec fn can_handle(
    w: WorkerModel,
    target_service: Option<Seq<char>>,
    target_resource: Option<Seq<char>>,
    rt: ResourceType,
    workflow_type: Seq<char>,
) -> bool {
    match target_service {
        None => w.workflow_types.contains(workflow_type) || provides_resource(
            w,
            target_resource,
            rt,
        ),
        Some(s) => w.service_name == s || provides_resource(w, target_resource, rt),
    }
}

/// The one step a workflow offers: `start`, while it runs with no step in
/// flight.
pub open spec fn has_next_step(w: WorkflowModel) -> bool {
    w.state == (StateModel::Running { current_step: None })
}

/// A workflow whose next step the worker may take.
pub open spec fn eligible(w: WorkflowModel, worker: WorkerModel) -> bool {
    has_next_step(w) && can_handle(worker, None, None, ResourceType::Step, w.workflow_type)
}

/// The task that hands out the `start` step of `w`.
pub open spec fn start_task(w: WorkflowModel) -> TaskModel {
    TaskModel {
        task_id: task_id_of(w.id, "start"@),
        workflow_id: w.id,
        step_name: "start"@,
        target_service: None,
        target_resource: None,
        resource_type: ResourceType::Step,
        input: w.input,
        retry: None,
        workflow_type: w.workflow_type,
    }
}

pub open spec fn tasks_view(v: Seq<Task>) -> Seq<TaskModel> {
    v.map_values(|t: Task| t@)
}

/// `r` is a batch of at most `max` tasks, one per eligible stored workflow,
/// that takes every eligible workflow unless the batch is full.
pub open spec fn is_poll_result(
    m: Map<Seq<char>, WorkflowModel>,
    worker: WorkerModel,
    max: nat,
    r: Seq<TaskModel>,
) -> bool {
    &&& r.len() <= max
    &&& forall|i: int|
        0 <= i < r.len() ==> m.contains_key(#[trigger] r[i].workflow_id) && eligible(
            m[r[i].workflow_id],
            worker,
        ) && r[i] == start_task(m[r[i].workflow_id])
    &&& forall|i: int, j: int| 0 <= i < j < r.len() ==> r[i].workflow_id != r[j].workflow_id
    &&& r.len() < max ==> forall|id: Seq<char>|
        m.contains_key(id) && eligible(m[id], worker) ==> exists|i: int|
            0 <= i < r.len() && (#[trigger] r[i]).workflow_id == id
}

/// Where the next step of a workflow runs.
#[derive(Debug)]
pub struct StepDescriptor {
    pub step_name: String,
    pub target_service: Option<String>,
    pub target_resource: Option<String>,
    pub resource_type: ResourceType,
}

/// The next step of `workflow`: `start`, untargeted, while it runs with no step
/// in flight; nothing otherwise.
pub fn find_next_step(workflow: &Workflow) -> (r: Option<StepDescriptor>)
    ensures
        r is Some <==> has_next_step(workflow@),
        r matches Some(d) ==> d.step_name@ == "start"@ && d.target_service is None
            && d.target_resource is None && d.resource_type == ResourceType::Step,
{
    match &workflow.state {
        WorkflowState::Running { current_step } => {
            if current_step.is_none() {
                let name = "start".to_string();
                proof {
                    reveal_strlit("start");
                }
                Some(
                    StepDescriptor {
                        step_name: name,
                        target_service: None,
                        target_resource: None,
                        resource_type: ResourceType::Step,
                    },
                )
            } else {
                None
            }
        },
        _ => None,
    }
}

/// The worker offers a resource of kind `resource_type`, named
/// `target_resource` when one is named.
fn worker_provides(
    worker: &WorkerInfo,
    target_resource: &Option<String>,
    resource_type: ResourceType,
) -> (r: bool)
    ensures
        r == provides_resource(
            worker@,
            crate::state_machine::opt_str_view(*target_resource),
            resource_type,
        ),
{
    let ghost tr = crate::state_machine::opt_str_view(*target_resource);
    let mut i: usize = 0;
    while i < worker.resources.len()
        invariant
            i <= worker.resources@.len(),
            tr == crate::state_machine::opt_str_view(*target_resource),
            forall|k: int|
                0 <= k < i ==> !(worker@.resources[k].1 == resource_type && match tr {
                    Some(name) => worker@.resources[k].0 == name,
                    None => true,
                }),
        decreases worker.resources@.len() - i,
    {
        assert(worker@.resources[i as int] == (worker.resources@[i as int].0@, worker.resources@[i as int].1));
        if worker.resources[i].1 == resource_type {
            let name_ok = match target_resource {
                Some(name) => str_eq(worker.resources[i].0.as_str(), name.as_str()),
                None => true,
            };
            if name_ok {
                return true;
            }
        }
        i = i + 1;
    }
    false
}

/// The worker lists `workflow_type`.
fn worker_lists_type(worker: &WorkerInfo, workflow_type: &str) -> (r: bool)
    ensures
        r == worker@.workflow_types.contains(workflow_type@),
{
    let mut i: usize = 0;
    while i < worker.workflow_types.len()
        invariant
            i <= worker.workflow_types@.len(),
            forall|k: int| 0 <= k < i ==> worker@.workflow_types[k] != workflow_type@,
        decreases worker.workflow_types@.len() - i,
    {
        assert(worker@.workflow_types[i as int] == worker.workflow_types@[i as int]@);
        if str_eq(worker.workflow_types[i].as_str(), workflow_type) {
            assert(worker@.workflow_types[i as int] == workflow_type@);
            return true;
        }
        i = i + 1;
    }
    false
}

/// Whether `worker` may run a task with these targets for a workflow of type
/// `workflow_type`.
pub fn can_worker_handle_task(
    worker: &WorkerInfo,
    target_service: &Option<String>,
    target_resource: &Option<String>,
    resource_type: ResourceType,
    workflow_type: &str,
) -> (r: bool)
    ensures
        r == can_handle(
            worker@,
            crate::state_machine::opt_str_view(*target_service),
            crate::state_machine::opt_str_view(*target_resource),
            resource_type,
            workflow_type@,
        ),
{
    match target_service {
        None => worker_lists_type(worker, workflow_type) || worker_provides(
            worker,
            target_resource,
            resource_type,
        ),
        Some(target) => str_eq(worker.service_name.as_str(), target.as_str()) || worker_provides(
            worker,
            target_resource,
            resource_type,
        ),
    }
}

/// A worker record.
pub open spec fn worker_model(
    id: Seq<char>,
    service_name: Seq<char>,
    group: Seq<char>,
    workflow_types: Seq<Seq<char>>,
    resources: Seq<(Seq<char>, ResourceType)>,
    last_seen: Timestamp,
) -> WorkerModel {
    WorkerModel { id, service_name, group, workflow_types, resources, last_seen }
}

pub open spec fn workers_view(v: Seq<WorkerInfo>) -> Seq<WorkerModel> {
    v.map_values(|w: WorkerInfo| w@)
}

/// Replaces the worker with `w`'s id by `w`, or appends `w`.
pub open spec fn upsert_worker(s: Seq<WorkerModel>, w: WorkerModel) -> Seq<WorkerModel> {
    if exists|i: int| 0 <= i < s.len() && s[i].id == w.id {
        s.map_values(|x: WorkerModel| if x.id == w.id { w } else { x })
    } else {
        s.push(w)
    }
}

/// The worker registered under `id`.
pub open spec fn worker_with_id(s: Seq<WorkerModel>, id: Seq<char>) -> Option<WorkerModel> {
    if exists|i: int| 0 <= i < s.len() && s[i].id == id {
        Some(s[choose|i: int| 0 <= i < s.len() && s[i].id == id])
    } else {
        None
    }
}

/// Replaces the running task with `t`'s id by `t`, or appends `t`.
pub open spec fn upsert_task(s: Seq<TaskModel>, t: TaskModel) -> Seq<TaskModel> {
    if exists|i: int| 0 <= i < s.len() && s[i].task_id == t.task_id {
        s.map_values(|x: TaskModel| if x.task_id == t.task_id { t } else { x })
    } else {
        s.push(t)
    }
}

/// Upserts the tasks `ts` one after the other.
pub open spec fn upsert_tasks(s: Seq<TaskModel>, ts: Seq<TaskModel>) -> Seq<TaskModel>
    decreases ts.len(),
{
    if ts.len() == 0 {
        s
    } else {
        upsert_task(upsert_tasks(s, ts.drop_last()), ts.last())
    }
}

/// The running task with id `id`.
pub open spec fn task_with_id(s: Seq<TaskModel>, id: Seq<char>) -> Option<TaskModel> {
    if exists|i: int| 0 <= i < s.len() && s[i].task_id == id {
        Some(s[choose|i: int| 0 <= i < s.len() && s[i].task_id == id])
    } else {
        None
    }
}

/// The stored workflows after a step of workflow `id` completed: a running
/// workflow moves to `Running` with no current step and a refreshed update
/// time; any other stays as it was.
pub open spec fn advanced(
    before: Map<Seq<char>, WorkflowModel>,
    after: Map<Seq<char>, WorkflowModel>,
    id: Seq<char>,
) -> bool {
    if before.contains_key(id) && before[id].state.apply(
        crate::state_machine::Transition::StepCompleted,
    ) is Some {
        &&& after == before.insert(id, after[id])
        &&& crate::persistence::is_refreshed(
            before[id],
            StateModel::Running { current_step: None },
            after[id],
        )
    } else {
        after == before
    }
}

/// The tracker's records after the tasks `ts` were handed out one after the
/// other, the `k`-th marked started at `times[k]`.
pub open spec fn dispatched(
    s: Seq<ExecutionModel>,
    ts: Seq<TaskModel>,
    times: Seq<Timestamp>,
) -> Seq<ExecutionModel>
    decreases ts.len(),
{
    if ts.len() == 0 {
        s
    } else {
        let t = ts.last();
        on_execution(
            dispatched(s, ts.drop_last(), times),
            t.workflow_id,
            |e|
                after_step_started(
                    e,
                    started_step(t.step_name, t.input, Seq::empty(), times[ts.len() - 1]),
                ),
        )
    }
}

/// Only the first `ts.len()` times matter.
proof fn lemma_dispatched_prefix(
    s: Seq<ExecutionModel>,
    ts: Seq<TaskModel>,
    a: Seq<Timestamp>,
    b: Seq<Timestamp>,
)
    requires
        a.len() >= ts.len(),
        b.len() >= ts.len(),
        forall|i: int| 0 <= i < ts.len() ==> a[i] == b[i],
    ensures
        dispatched(s, ts, a) == dispatched(s, ts, b),
    decreases ts.len(),
{
    if ts.len() > 0 {
        lemma_dispatched_prefix(s, ts.drop_last(), a, b);
    }
}

/// `after` is `before` followed by one `StepStarted` event per task of `ts`,
/// in order, each with the task's workflow, type, step and input.
pub open spec fn started_events(
    before: Seq<WorkflowEvent>,
    after: Seq<WorkflowEvent>,
    ts: Seq<TaskModel>,
) -> bool {
    &&& after.len() == before.len() + ts.len()
    &&& after.subrange(0, before.len() as int) == before
    &&& forall|k: int|
        0 <= k < ts.len() ==> is_step_started_event(
            after[before.len() + k],
            (#[trigger] ts[k]).workflow_id,
            ts[k].workflow_type,
            ts[k].step_name,
            ts[k].input,
        )
}

/// Completing step `step` of stored workflow `w` with `result` announces
/// `StepCompleted`, then `WorkflowCompleted` exactly when the workflow's new
/// state is `Completed`.
pub open spec fn completion_events(
    before: Seq<WorkflowEvent>,
    after: Seq<WorkflowEvent>,
    w: WorkflowModel,
    step: Seq<char>,
    result: Seq<u8>,
) -> bool {
    let n = before.len() as int;
    if w.state.apply(crate::state_machine::Transition::StepCompleted) matches Some(
        StateModel::Completed { .. },
    ) {
        &&& after.len() == n + 2
        &&& after.subrange(0, n) == before
        &&& is_step_completed_event(after[n], w.id, w.workflow_type, step, result)
        &&& is_workflow_completed_event(after[n + 1], w.id, w.workflow_type, result)
    } else {
        &&& after.len() == n + 1
        &&& after.subrange(0, n) == before
        &&& is_step_completed_event(after[n], w.id, w.workflow_type, step, result)
    }
}

/// Worker registry and dispatcher: matches running workflows to polling
/// workers, and applies completions.
pub struct Scheduler<P: Persistence> {
    pub persistence: P,
    pub service_registry: ServiceRegistry,
    pub tracker: WorkflowTracker,
    pub broadcaster: EventBroadcaster,
    active_workers: Vec<WorkerInfo>,
    running_tasks: Vec<Task>,
}

impl<P: Persistence> Scheduler<P> {
    /// The backend.
    pub closed spec fn store(&self) -> P {
        self.persistence
    }

    /// The tracker's records.
    pub closed spec fn records(&self) -> Seq<crate::tracker::ExecutionModel> {
        self.tracker.model()
    }

    /// The events handed to the broadcaster, oldest first.
    pub closed spec fn events(&self) -> Seq<WorkflowEvent> {
        self.broadcaster.sent()
    }

    /// The registered workers, in order of first registration.
    pub closed spec fn workers(&self) -> Seq<WorkerModel> {
        workers_view(self.active_workers@)
    }

    /// The tasks handed out and not yet completed.
    pub closed spec fn running(&self) -> Seq<TaskModel> {
        tasks_view(self.running_tasks@)
    }

    /// The backend, tracker and tables are well formed; worker ids and task ids
    /// are unique.
    pub closed spec fn inv(&self) -> bool {
        &&& self.persistence.inv()
        &&& self.tracker.inv()
        &&& self.service_registry.inv()
        &&& forall|i: int, j: int|
            0 <= i < j < self.workers().len() ==> self.workers()[i].id != self.workers()[j].id
        &&& forall|i: int, j: int|
            0 <= i < j < self.running().len() ==> self.running()[i].task_id
                != self.running()[j].task_id
    }

    /// The invariant holds after the backend or the tracker changed, where
    /// each stays well formed and the worker and task tables stay as they were.
    proof fn lemma_inv_frame(a: Scheduler<P>, b: Scheduler<P>)
        requires
            a.inv(),
            b.persistence.inv(),
            b.tracker.inv(),
            b.service_registry == a.service_registry,
            b.active_workers == a.active_workers,
            b.running_tasks == a.running_tasks,
        ensures
            b.inv(),
            b.workers() == a.workers(),
            b.running() == a.running(),
    {
        assert(b.workers() == a.workers());
        assert(b.running() == a.running());
    }

    /// A dispatcher over `persistence` with no worker and no running task.
    pub fn new(persistence: P) -> (r: Scheduler<P>)
        requires
            persistence.inv(),
        ensures
            r.inv(),
            r.store() == persistence,
            r.records() == Seq::<crate::tracker::ExecutionModel>::empty(),
            r.workers() == Seq::<WorkerModel>::empty(),
            r.running() == Seq::<TaskModel>::empty(),
            r.events() == Seq::<WorkflowEvent>::empty(),
    {
        let r = Scheduler {
            persistence,
            service_registry: ServiceRegistry::new(),
            tracker: WorkflowTracker::new(),
            broadcaster: EventBroadcaster::new(),
            active_workers: Vec::new(),
            running_tasks: Vec::new(),
        };
        assert(r.workers() =~= Seq::<WorkerModel>::empty());
        assert(r.running() =~= Seq::<TaskModel>::empty());
        r
    }

    /// The position of the worker registered under `id`.
    fn find_worker(&self, id: &str) -> (r: Option<usize>)
        requires
            self.inv(),
        ensures
            r is None <==> worker_with_id(self.workers(), id@) is None,
            r matches Some(i) ==> i < self.workers().len() && worker_with_id(self.workers(), id@)
                == Some(self.workers()[i as int]) && self.workers()[i as int].id == id@,
    {
        let mut i: usize = 0;
        while i < self.active_workers.len()
            invariant
                self.inv(),
                i <= self.active_workers@.len(),
                forall|k: int| 0 <= k < i ==> self.workers()[k].id != id@,
            decreases self.active_workers@.len() - i,
        {
            assert(self.workers()[i as int] == self.active_workers@[i as int]@);
            if str_eq(self.active_workers[i].id.as_str(), id) {
                let ghost s = self.workers();
                assert(s[i as int].id == id@);
                let ghost j = choose|j: int| 0 <= j < s.len() && s[j].id == id@;
                assert(j == i) by {
                    if j < i {
                    } else if j > i {
                        assert(s[i as int].id != s[j].id);
                    }
                }
                return Some(i);
            }
            i = i + 1;
        }
        None
    }

    /// The position of the running task with id `id`.
    fn find_running(&self, id: &str) -> (r: Option<usize>)
        requires
            self.inv(),
        ensures
            r is None <==> task_with_id(self.running(), id@) is None,
            r matches Some(i) ==> i < self.running().len() && task_with_id(self.running(), id@)
                == Some(self.running()[i as int]) && self.running()[i as int].task_id == id@,
    {
        let mut i: usize = 0;
        while i < self.running_tasks.len()
            invariant
                self.inv(),
                i <= self.running_tasks@.len(),
                forall|k: int| 0 <= k < i ==> self.running()[k].task_id != id@,
            decreases self.running_tasks@.len() - i,
        {
            assert(self.running()[i as int] == self.running_tasks@[i as int]@);
            if str_eq(self.running_tasks[i].task_id.as_str(), id) {
                let ghost s = self.running();
                assert(s[i as int].task_id == id@);
                let ghost j = choose|j: int| 0 <= j < s.len() && s[j].task_id == id@;
                assert(j == i) by {
                    if j < i {
                    } else if j > i {
                        assert(s[i as int].task_id != s[j].task_id);
                    }
                }
                return Some(i);
            }
            i = i + 1;
        }
        None
    }

    /// Registers a worker under `worker_id` now, replacing an earlier
    /// registration under that id.
    pub fn register_worker(
        &mut self,
        worker_id: String,
        service_name: String,
        group: String,
        workflow_types: Vec<String>,
        resources: Vec<(String, ResourceType)>,
    )
        requires
            old(self).inv(),
        ensures
            final(self).inv(),
            final(self).store() == old(self).store(),
            final(self).records() == old(self).records(),
            final(self).running() == old(self).running(),
            final(self).events() == old(self).events(),
            exists|t: Timestamp|
                final(self).workers() == upsert_worker(
                    old(self).workers(),
                    worker_model(
                        worker_id@,
                        service_name@,
                        group@,
                        strings_view(workflow_types@),
                        resources_view(resources@),
                        t,
                    ),
                ),
    {
        let pos = self.find_worker(worker_id.as_str());
        let info = WorkerInfo {
            id: worker_id,
            service_name,
            group,
            workflow_types,
            resources,
            last_seen: now(),
        };
        let ghost w = info@;
        let ghost s = old(self).workers();
        assert(w == worker_model(
            worker_id@,
            service_name@,
            group@,
            strings_view(workflow_types@),
            resources_view(resources@),
            w.last_seen,
        ));
        match pos {
            Some(i) => {
                self.active_workers.set(i, info);
                proof {
                    assert forall|k: int| 0 <= k < s.len() && k != i implies s[k].id != w.id by {
                        if k < i {
                            assert(s[k].id != s[i as int].id);
                        } else {
                            assert(s[i as int].id != s[k].id);
                        }
                    }
                    assert(self.workers() =~= s.map_values(
                        |x: WorkerModel| if x.id == w.id { w } else { x },
                    ));
                    assert(self.workers() == upsert_worker(s, w));
                }
            },
            None => {
                self.active_workers.push(info);
                assert(self.workers() =~= s.push(w));
                assert(self.workers() == upsert_worker(s, w));
            },
        }
    }

    /// The tasks that `worker` can take now: the `start` step of each running
    /// workflow with no step in flight that it can handle, at most
    /// `max_tasks` of them.
    fn find_available_tasks(&self, worker: &WorkerInfo, max_tasks: usize) -> (r: Vec<Task>)
        requires
            self.inv(),
        ensures
            is_poll_result(self.store().workflows(), worker@, max_tasks as nat, tasks_view(r@)),
    {
        let workflows = self.persistence.list_workflows(None);
        let ghost m = self.persistence.workflows();
        let ghost lv = workflow_views(workflows@);
        proof {
            self.persistence.lemma_keys_are_ids();
        }
        let mut tasks: Vec<Task> = Vec::new();
        let ghost mut idx: Seq<int> = Seq::empty();
        let mut i: usize = 0;
        while i < workflows.len()
            invariant
                self.inv(),
                m == self.persistence.workflows(),
                lv == workflow_views(workflows@),
                is_listing(m, None, lv),
                forall|id: Seq<char>| #[trigger] m.contains_key(id) ==> m[id].id == id,
                i <= workflows@.len(),
                tasks@.len() <= max_tasks,
                idx.len() == tasks@.len(),
                forall|j: int|
                    0 <= j < tasks@.len() ==> 0 <= #[trigger] idx[j] < i && tasks@[j]@
                        == start_task(lv[idx[j]]) && eligible(lv[idx[j]], worker@),
                forall|j: int, k: int| 0 <= j < k < tasks@.len() ==> idx[j] < idx[k],
                tasks@.len() < max_tasks ==> forall|k: int|
                    0 <= k < i && eligible(lv[k], worker@) ==> exists|j: int|
                        0 <= j < tasks@.len() && #[trigger] idx[j] == k,
            ensures
                tasks@.len() >= max_tasks || i == workflows@.len(),
            decreases workflows@.len() - i,
        {
            if tasks.len() >= max_tasks {
                break;
            }
            let w = &workflows[i];
            assert(lv[i as int] == w@);
            match find_next_step(w) {
                Some(d) => {
                    if can_worker_handle_task(
                        worker,
                        &d.target_service,
                        &d.target_resource,
                        d.resource_type,
                        w.workflow_type.as_str(),
                    ) {
                        let task = Task {
                            task_id: make_task_id(w.id.as_str(), d.step_name.as_str()),
                            workflow_id: w.id.clone(),
                            step_name: d.step_name,
                            target_service: d.target_service,
                            target_resource: d.target_resource,
                            resource_type: d.resource_type,
                            input: copy_bytes(&w.input),
                            retry: None,
                            workflow_type: w.workflow_type.clone(),
                        };
                        let ghost old_idx = idx;
                        let ghost old_tasks = tasks@;
                        tasks.push(task);
                        proof {
                            idx = idx.push(i as int);
                            let last = tasks@.len() - 1;
                            assert(tasks@[last]@ == start_task(lv[i as int]));
                            assert forall|j: int| 0 <= j < tasks@.len() implies 0
                                <= #[trigger] idx[j] < i + 1 && tasks@[j]@ == start_task(
                                lv[idx[j]],
                            ) && eligible(lv[idx[j]], worker@) by {
                                if j < last {
                                    assert(idx[j] == old_idx[j]);
                                    assert(tasks@[j] == old_tasks[j]);
                                }
                            }
                            if tasks@.len() < max_tasks {
                                assert forall|k: int|
                                    0 <= k < i + 1 && eligible(
                                        lv[k],
                                        worker@,
                                    ) implies exists|j: int|
                                    0 <= j < tasks@.len() && #[trigger] idx[j] == k by {
                                    if k == i {
                                        assert(idx[last] == k);
                                    } else {
                                        let j = choose|j: int|
                                            0 <= j < old_idx.len() && #[trigger] old_idx[j] == k;
                                        assert(idx[j] == k);
                                    }
                                }
                            }
                        }
                    }
                },
                None => {},
            }
            i = i + 1;
        }
        proof {
            let tv = tasks_view(tasks@);
            assert forall|j: int| 0 <= j < tv.len() implies m.contains_key(
                #[trigger] tv[j].workflow_id,
            ) && eligible(m[tv[j].workflow_id], worker@) && tv[j] == start_task(
                m[tv[j].workflow_id],
            ) by {
                assert(tv[j] == tasks@[j]@);
                assert(m.contains_key(lv[idx[j]].id));
            }
            assert forall|a: int, b: int|
                0 <= a < b < tv.len() implies tv[a].workflow_id != tv[b].workflow_id by {
                assert(tv[a] == tasks@[a]@);
                assert(tv[b] == tasks@[b]@);
                assert(idx[a] < idx[b]);
            }
            if tv.len() < max_tasks {
                assert forall|id: Seq<char>|
                    m.contains_key(id) && eligible(m[id], worker@) implies exists|j: int|
                    0 <= j < tv.len() && (#[trigger] tv[j]).workflow_id == id by {
                    let k = choose|k: int| 0 <= k < lv.len() && (#[trigger] lv[k]).id == id;
                    assert(m.contains_key(lv[k].id));
                    let j = choose|j: int| 0 <= j < tasks@.len() && #[trigger] idx[j] == k;
                    assert(tv[j] == tasks@[j]@);
                }
            }
        }
        tasks
    }

    /// Records `task` as running, replacing a running task with its id.
    fn put_running(&mut self, task: Task)
        requires
            old(self).inv(),
        ensures
            final(self).inv(),
            final(self).store() == old(self).store(),
            final(self).records() == old(self).records(),
            final(self).workers() == old(self).workers(),
            final(self).running() == upsert_task(old(self).running(), task@),
            final(self).events() == old(self).events(),
    {
        let pos = self.find_running(task.task_id.as_str());
        let ghost t = task@;
        let ghost s = old(self).running();
        match pos {
            Some(i) => {
                self.running_tasks.set(i, task);
                proof {
                    assert forall|k: int| 0 <= k < s.len() && k != i implies s[k].task_id
                        != t.task_id by {
                        if k < i {
                            assert(s[k].task_id != s[i as int].task_id);
                        } else {
                            assert(s[i as int].task_id != s[k].task_id);
                        }
                    }
                    assert(self.running() =~= s.map_values(
                        |x: TaskModel| if x.task_id == t.task_id { t } else { x },
                    ));
                    assert forall|a: int, b: int|
                        0 <= a < b < self.running().len() implies self.running()[a].task_id
                        != self.running()[b].task_id by {
                        assert(self.running()[a].task_id == s[a].task_id);
                        assert(self.running()[b].task_id == s[b].task_id);
                    }
                }
            },
            None => {
                self.running_tasks.push(task);
                assert(self.running() =~= s.push(t));
                proof {
                    assert forall|a: int, b: int|
                        0 <= a < b < self.running().len() implies self.running()[a].task_id
                        != self.running()[b].task_id by {
                        if b == s.len() {
                            assert(s[a].task_id != t.task_id);
                        }
                    }
                }
            },
        }
        assert(self.workers() == old(self).workers());
    }

    /// Hands out up to `max_tasks` tasks to the worker registered under
    /// `worker_id`; an unknown worker gets none. Each task handed out is
    /// recorded as running, marked started in the tracker and announced to
    /// subscribers.
    pub fn poll_tasks(&mut self, worker_id: &str, max_tasks: usize) -> (r: Vec<Task>)
        requires
            old(self).inv(),
        ensures
            final(self).inv(),
            final(self).store() == old(self).store(),
            final(self).workers() == old(self).workers(),
            match worker_with_id(old(self).workers(), worker_id@) {
                None => r@.len() == 0 && final(self).running() == old(self).running()
                    && final(self).records() == old(self).records() && final(self).events() == old(
                    self,
                ).events(),
                Some(w) => is_poll_result(
                    old(self).store().workflows(),
                    w,
                    max_tasks as nat,
                    tasks_view(r@),
                ) && final(self).running() == upsert_tasks(old(self).running(), tasks_view(r@))
                    && started_events(old(self).events(), final(self).events(), tasks_view(r@))
                    && exists|times: Seq<Timestamp>|
                    times.len() == r@.len() && final(self).records() == #[trigger] dispatched(
                        old(self).records(),
                        tasks_view(r@),
                        times,
                    ),
            },
    {
        match self.find_worker(worker_id) {
            None => {
                let r: Vec<Task> = Vec::new();
                r
            },
            Some(i) => {
                let tasks = self.find_available_tasks(&self.active_workers[i], max_tasks);
                let ghost tv = tasks_view(tasks@);
                assert(old(self).events().subrange(0, old(self).events().len() as int) =~= old(
                    self,
                ).events());
                let ghost mut times: Seq<Timestamp> = Seq::empty();
                let mut k: usize = 0;
                while k < tasks.len()
                    invariant
                        self.inv(),
                        k <= tasks@.len(),
                        tv == tasks_view(tasks@),
                        self.store() == old(self).store(),
                        self.workers() == old(self).workers(),
                        self.running() == upsert_tasks(old(self).running(), tv.take(k as int)),
                        times.len() == k,
                        self.records() == dispatched(old(self).records(), tv.take(k as int), times),
                        started_events(old(self).events(), self.events(), tv.take(k as int)),
                    decreases tasks@.len() - k,
                {
                    let t = &tasks[k];
                    assert(tv[k as int] == t@);
                    self.put_running(t.clone());
                    let ghost prev = self.records();
                    let deps: Vec<String> = Vec::new();
                    assert(strings_view(deps@) =~= Seq::<Seq<char>>::empty());
                    let st = self.tracker.step_started(
                        t.workflow_id.as_str(),
                        t.step_name.as_str(),
                        copy_bytes(&t.input),
                        deps,
                    );
                    proof {
                        let when = choose|when: Timestamp|
                            st@ == started_step(t@.step_name, t@.input, Seq::empty(), when);
                        let old_times = times;
                        times = times.push(when);
                        lemma_dispatched_prefix(
                            old(self).records(),
                            tv.take(k as int),
                            old_times,
                            times,
                        );
                        assert(tv.take(k + 1).drop_last() =~= tv.take(k as int));
                        assert(tv.take(k + 1).last() == t@);
                        assert(self.records() == dispatched(
                            old(self).records(),
                            tv.take(k + 1),
                            times,
                        ));
                    }
                    let ghost ev_before = self.events();
                    let _ = self.broadcaster.broadcast_step_started(
                        t.workflow_id.as_str(),
                        t.workflow_type.as_str(),
                        t.step_name.as_str(),
                        copy_bytes(&t.input),
                    );
                    proof {
                        assert(tv.take(k + 1).drop_last() =~= tv.take(k as int));
                        let e0 = old(self).events();
                        let e1 = self.events();
                        let tk = tv.take(k + 1);
                        assert(e1.subrange(0, e0.len() as int) =~= e0) by {
                            assert(e1.drop_last() == ev_before);
                            assert(ev_before.subrange(0, e0.len() as int) == e0);
                        }
                        assert forall|j: int| 0 <= j < tk.len() implies is_step_started_event(
                            e1[e0.len() + j],
                            (#[trigger] tk[j]).workflow_id,
                            tk[j].workflow_type,
                            tk[j].step_name,
                            tk[j].input,
                        ) by {
                            if j < k {
                                assert(tk[j] == tv.take(k as int)[j]);
                                assert(e1[e0.len() + j] == ev_before[e0.len() + j]);
                            } else {
                                assert(tk[j] == t@);
                                assert(e1[e0.len() + j] == e1.last());
                            }
                        }
                    }
                    k = k + 1;
                }
                assert(tv.take(k as int) =~= tv);
                assert(self.records() == dispatched(old(self).records(), tv, times));
                tasks
            },
        }
    }

    /// Completes the running task `task_id` with output `result`: the task
    /// stops running, the output is stored, and a running workflow moves on to
    /// `Running` with no current step. An unknown task id changes nothing, so
    /// a retried completion is harmless.
    pub fn complete_task(&mut self, task_id: &str, result: Vec<u8>)
        requires
            old(self).inv(),
        ensures
            final(self).inv(),
            final(self).workers() == old(self).workers(),
            match task_with_id(old(self).running(), task_id@) {
                None => final(self).store() == old(self).store() && final(self).running() == old(
                    self,
                ).running() && final(self).records() == old(self).records() && final(self).events()
                    == old(self).events(),
                Some(t) => (old(self).store().workflows().contains_key(t.workflow_id)
                    ==> completion_events(
                    old(self).events(),
                    final(self).events(),
                    old(self).store().workflows()[t.workflow_id],
                    t.step_name,
                    result@,
                )) && (!old(self).store().workflows().contains_key(t.workflow_id)
                    ==> final(self).events() == old(self).events()) && final(self).running() == old(self).running().filter(
                    |x: TaskModel| x.task_id != task_id@,
                ) && final(self).store().step_results() == old(self).store().step_results().insert(
                    (t.workflow_id, t.step_name),
                    result@,
                ) && advanced(
                    old(self).store().workflows(),
                    final(self).store().workflows(),
                    t.workflow_id,
                ) && (old(self).store().workflows().contains_key(t.workflow_id) ==> exists|
                    when: Timestamp,
                |
                    final(self).records() == #[trigger] with_step_completed(
                        old(self).records(),
                        t.workflow_id,
                        t.step_name,
                        result@,
                        when,
                    )) && (!old(self).store().workflows().contains_key(t.workflow_id)
                    ==> final(self).records() == old(self).records()),
            },
    {
        match self.find_running(task_id) {
            None => {},
            Some(i) => {
                let ghost s = self.running();
                let task = self.running_tasks.remove(i);
                proof {
                    let keep = |x: TaskModel| x.task_id != task_id@;
                    assert(self.running() =~= s.remove(i as int));
                    assert forall|k: int| 0 <= k < s.len() && k != i implies keep(s[k]) by {
                        if k < i {
                            assert(s[k].task_id != s[i as int].task_id);
                        } else {
                            assert(s[i as int].task_id != s[k].task_id);
                        }
                    }
                    crate::tracker::lemma_filter_remove_one(s, i as int, keep);
                    assert forall|a: int, b: int|
                        0 <= a < b < self.running().len() implies self.running()[a].task_id
                        != self.running()[b].task_id by {
                        let a2 = if a < i { a } else { a + 1 };
                        let b2 = if b < i { b } else { b + 1 };
                        assert(self.running()[a] == s[a2]);
                        assert(self.running()[b] == s[b2]);
                    }
                }
                let ghost before = self.persistence.workflows();
                let wid = task.workflow_id.as_str();
                let step = task.step_name.as_str();
                self.persistence.save_step_result(wid, step, copy_bytes(&result));
                match self.persistence.get_workflow(wid) {
                    Some(workflow) => {
                        let ghost records_before = self.tracker.model();
                        let out = copy_bytes(&result);
                        self.tracker.step_completed(wid, step, out);
                        proof {
                            let when = choose|when: Timestamp|
                                self.tracker.model() == with_step_completed(
                                    records_before,
                                    task@.workflow_id,
                                    task@.step_name,
                                    out@,
                                    when,
                                );
                            assert(self.records() == with_step_completed(
                                old(self).records(),
                                task@.workflow_id,
                                task@.step_name,
                                result@,
                                when,
                            ));
                        }
                        let ghost ev0 = self.events();
                        proof {
                            self.persistence.lemma_keys_are_ids();
                        }
                        let _ = self.broadcaster.broadcast_step_completed(
                            wid,
                            workflow.workflow_type.as_str(),
                            step,
                            copy_bytes(&result),
                        );
                        proof {
                            let e1 = self.events();
                            assert(e1.subrange(0, ev0.len() as int) =~= ev0);
                            assert(e1[ev0.len() as int] == e1.last());
                            assert(completion_events(
                                old(self).events(),
                                self.events(),
                                old(self).store().workflows()[task@.workflow_id],
                                task@.step_name,
                                result@,
                            ));
                        }
                        match workflow.state.step_completed() {
                            Some(new_state) => {
                                let is_completed = match new_state {
                                    WorkflowState::Completed { .. } => true,
                                    _ => false,
                                };
                                self.persistence.update_workflow_state(wid, new_state);
                                if is_completed {
                                    self.tracker.workflow_completed(wid);
                                    let _ = self.broadcaster.broadcast_workflow_completed(
                                        wid,
                                        workflow.workflow_type.as_str(),
                                        result,
                                    );
                                }
                            },
                            None => {},
                        }
                    },
                    None => {},
                }
            },
        }
        assert(self.workers() == old(self).workers());
    }
}

/// A worker that lists the type of the one stored workflow, running with no
/// step in flight, receives exactly one task: its `start` step. A worker that
/// can handle no such task receives none.
pub proof fn lemma_dispatch_matching(
    m: Map<Seq<char>, WorkflowModel>,
    worker: WorkerModel,
    max: nat,
    r: Seq<TaskModel>,
    w: WorkflowModel,
)
    requires
        is_poll_result(m, worker, max, r),
        m == Map::<Seq<char>, WorkflowModel>::empty().insert(w.id, w),
        w.state == (StateModel::Running { current_step: None }),
        max >= 1,
    ensures
        worker.workflow_types.contains(w.workflow_type) ==> r.len() == 1 && r[0].step_name
            == "start"@ && r[0].workflow_id == w.id && r[0].input == w.input,
        !can_handle(worker, None, None, ResourceType::Step, w.workflow_type) ==> r.len() == 0,
{
    if r.len() > 1 {
        assert(m.contains_key(r[0].workflow_id));
        assert(m.contains_key(r[1].workflow_id));
    }
    if worker.workflow_types.contains(w.workflow_type) {
        assert(eligible(m[w.id], worker));
        if r.len() == 0 {
            assert(m.contains_key(w.id));
        }
        assert(m.contains_key(r[0].workflow_id));
    }
    if !can_handle(worker, None, None, ResourceType::Step, w.workflow_type) && r.len() > 0 {
        assert(m.contains_key(r[0].workflow_id));
    }
}

/// Completing the task of a step of a running workflow leaves the workflow
/// `Running` with no current step, and its output readable under the step.
pub proof fn lemma_completion_advances_state(
    before: Map<Seq<char>, WorkflowModel>,
    after: Map<Seq<char>, WorkflowModel>,
    results_before: Map<(Seq<char>, Seq<char>), Seq<u8>>,
    results_after: Map<(Seq<char>, Seq<char>), Seq<u8>>,
    id: Seq<char>,
    step: Seq<char>,
    output: Seq<u8>,
)
    requires
        advanced(before, after, id),
        before.contains_key(id),
        before[id].state is Running,
        results_after == results_before.insert((id, step), output),
    ensures
        after.contains_key(id),
        after[id].state == (StateModel::Running { current_step: None }),
        results_after.contains_key((id, step)),
        results_after[(id, step)] == output,
{
}

/// The error kinds that the kernel reports to its adapters.
#[derive(Debug, Clone, Copy, PartialEq, Eq, Structural)]
pub enum KernelError {
    NotFound,
    InvalidArgument,
    FailedPrecondition,
    Timeout,
    Internal,
}

impl KernelError {
    /// The name of the error kind on the wire.
    pub fn code(&self) -> (r: &'static str)
        ensures
            r@ == (match self {
                KernelError::NotFound => "NOT_FOUND"@,
                KernelError::InvalidArgument => "INVALID_ARGUMENT"@,
                KernelError::FailedPrecondition => "FAILED_PRECONDITION"@,
                KernelError::Timeout => "TIMEOUT"@,
                KernelError::Internal => "INTERNAL"@,
            }),
    {
        match self {
            KernelError::NotFound => "NOT_FOUND",
            KernelError::InvalidArgument => "INVALID_ARGUMENT",
            KernelError::FailedPrecondition => "FAILED_PRECONDITION",
            KernelError::Timeout => "TIMEOUT",
            KernelError::Internal => "INTERNAL",
        }
    }
}

/// The wire code of a workflow state: 0 to 4 from `Pending` to `Cancelled`.
pub open spec fn state_code(s: StateModel) -> i32 {
    match s {
        StateModel::Pending => 0,
        StateModel::Running { .. } => 1,
        StateModel::Completed { .. } => 2,
        StateModel::Failed { .. } => 3,
        StateModel::Cancelled => 4,
    }
}

/// The status of a workflow as the client sees it.
#[derive(Debug)]
pub struct WorkflowStatus {
    pub workflow_id: String,
    pub state: i32,
    pub current_step: String,
    pub result: Vec<u8>,
    pub error: String,
    pub started_at: i64,
    pub completed_at: i64,
}

/// The status reported for workflow `w`: its state code; its current step,
/// result and error, each empty where the state has none; its start time; and
/// its last update time once it completed, zero before.
pub open spec fn is_status_of(r: WorkflowStatus, w: WorkflowModel) -> bool {
    &&& r.workflow_id@ == w.id
    &&& r.state == state_code(w.state)
    &&& r.current_step@ == (match w.state {
        StateModel::Running { current_step: Some(s) } => s,
        _ => Seq::empty(),
    })
    &&& r.result@ == (match w.state {
        StateModel::Completed { result } => result,
        _ => Seq::empty(),
    })
    &&& r.error@ == (match w.state {
        StateModel::Failed { error } => error,
        _ => Seq::empty(),
    })
    &&& r.started_at == w.started_at.seconds
    &&& r.completed_at == (match w.state {
        StateModel::Completed { .. } => w.updated_at.seconds,
        _ => 0,
    })
}

/// The outcome of a finished workflow.
#[derive(Debug)]
pub struct WorkflowResult {
    pub result: Vec<u8>,
    pub error: String,
    pub state: i32,
}

/// The step statuses a worker reports.
#[derive(Debug, Clone, Copy, PartialEq, Eq, Structural)]
pub enum StepStatus {
    Started,
    Completed,
    Failed,
}

/// The status that an upper-case status name stands for: `STARTED` and
/// `RUNNING` both mean a start.
pub open spec fn status_named(n: Seq<char>) -> Option<StepStatus> {
    if n == "STARTED"@ || n == "RUNNING"@ {
        Some(StepStatus::Started)
    } else if n == "COMPLETED"@ {
        Some(StepStatus::Completed)
    } else if n == "FAILED"@ {
        Some(StepStatus::Failed)
    } else {
        None
    }
}

impl StepStatus {
    /// The status an upper-case name stands for; `None` for any other name.
    pub fn from_name(n: &str) -> (r: Option<StepStatus>)
        ensures
            r == status_named(n@),
    {
        proof {
            reveal_strlit("STARTED");
            reveal_strlit("RUNNING");
            reveal_strlit("COMPLETED");
            reveal_strlit("FAILED");
        }
        if str_eq(n, "STARTED") || str_eq(n, "RUNNING") {
            Some(StepStatus::Started)
        } else if str_eq(n, "COMPLETED") {
            Some(StepStatus::Completed)
        } else if str_eq(n, "FAILED") {
            Some(StepStatus::Failed)
        } else {
            None
        }
    }
}

/// The name under which this server answers registrations.
pub const SERVER_ID: &'static str = "aether-server-1";

/// The batch size used when a poll asks for no particular number.
pub const DEFAULT_MAX_TASKS: usize = 10;

/// Relies on uuid's `Uuid::new_v4` and its `Display`, which writes the
/// hyphenated form of 36 characters.
#[verifier::external_body]
fn new_workflow_id() -> (r: String)
    ensures
        r@.len() == 36,
{
    uuid::Uuid::new_v4().to_string()
}

/// Resources whose kinds are given by wire code, with the kinds decoded.
pub open spec fn coded_resources(v: Seq<(String, i32)>) -> Seq<(Seq<char>, ResourceType)> {
    Seq::new(v.len(), |i: int| (v[i].0@, ResourceType::from_code_spec(v[i].1)))
}

/// The declared type of stored workflow `id`, or empty where none is stored.
pub open spec fn declared_type(m: Map<Seq<char>, WorkflowModel>, id: Seq<char>) -> Seq<char> {
    if m.contains_key(id) {
        m[id].workflow_type
    } else {
        Seq::empty()
    }
}

/// The kernel's operations for clients and workers.
pub struct ClientService<P: Persistence> {
    pub scheduler: Scheduler<P>,
}

impl<P: Persistence> ClientService<P> {
    /// The dispatcher behind the service.
    pub closed spec fn sched(&self) -> Scheduler<P> {
        self.scheduler
    }

    pub open spec fn inv(&self) -> bool {
        self.sched().inv()
    }

    /// A service over `scheduler`.
    pub fn new(scheduler: Scheduler<P>) -> (r: ClientService<P>)
        ensures
            r.sched() == scheduler,
    {
        ClientService { scheduler }
    }

    /// Creates workflow `workflow_id` of type `workflow_type` with `input`,
    /// starts it, begins tracking it, and returns its id.
    pub fn start_workflow_with_id(
        &mut self,
        workflow_id: String,
        workflow_type: String,
        input: Vec<u8>,
    ) -> (r: String)
        requires
            old(self).inv(),
        ensures
            final(self).inv(),
            r@ == workflow_id@,
            final(self).sched().store().step_results() == old(self).sched().store().step_results(),
            final(self).sched().store().workflows() == old(self).sched().store().workflows().insert(
                workflow_id@,
                final(self).sched().store().workflows()[workflow_id@],
            ),
            ({
                let w = final(self).sched().store().workflows()[workflow_id@];
                &&& w.id == workflow_id@
                &&& w.workflow_type == workflow_type@
                &&& w.input == input@
                &&& w.state == (StateModel::Running { current_step: None })
                &&& w.steps_completed.len() == 0
                &&& w.wf()
            }),
            final(self).sched().workers() == old(self).sched().workers(),
            final(self).sched().running() == old(self).sched().running(),
            final(self).sched().events() == old(self).sched().events(),
            exists|when: Timestamp|
                final(self).sched().records() == upsert_execution(
                    old(self).sched().records(),
                    #[trigger] fresh_execution(workflow_id@, workflow_type@, when),
                ),
    {
        let workflow = Workflow::new(workflow_id.clone(), workflow_type.clone(), input);
        self.scheduler.persistence.save_workflow(&workflow);
        match workflow.state.start() {
            Some(started) => {
                self.scheduler.persistence.update_workflow_state(workflow_id.as_str(), started);
            },
            None => {},
        }
        let ghost records_before = self.scheduler.tracker.model();
        let ghost type_view = workflow_type@;
        self.scheduler.tracker.start_workflow(workflow_id.clone(), workflow_type);
        proof {
            let when = choose|when: Timestamp|
                self.scheduler.tracker.model() == upsert_execution(
                    records_before,
                    fresh_execution(workflow_id@, type_view, when),
                );
            assert(self.sched().records() == upsert_execution(
                old(self).sched().records(),
                fresh_execution(workflow_id@, type_view, when),
            ));
            Scheduler::<P>::lemma_inv_frame(old(self).scheduler, self.scheduler);
            let m = self.scheduler.persistence.workflows();
            assert(m[workflow_id@].started_at == workflow@.started_at);
        }
        workflow_id
    }

    /// Creates a workflow under a fresh random id and starts it; see
    /// `start_workflow_with_id`.
    pub fn start_workflow(&mut self, workflow_type: String, input: Vec<u8>) -> (r: String)
        requires
            old(self).inv(),
        ensures
            final(self).inv(),
            r@.len() == 36,
            final(self).sched().store().step_results() == old(self).sched().store().step_results(),
            final(self).sched().store().workflows() == old(self).sched().store().workflows().insert(
                r@,
                final(self).sched().store().workflows()[r@],
            ),
            ({
                let w = final(self).sched().store().workflows()[r@];
                &&& w.id == r@
                &&& w.workflow_type == workflow_type@
                &&& w.input == input@
                &&& w.state == (StateModel::Running { current_step: None })
                &&& w.steps_completed.len() == 0
            }),
            final(self).sched().workers() == old(self).sched().workers(),
            final(self).sched().running() == old(self).sched().running(),
            final(self).sched().events() == old(self).sched().events(),
            exists|when: Timestamp|
                final(self).sched().records() == upsert_execution(
                    old(self).sched().records(),
                    #[trigger] fresh_execution(r@, workflow_type@, when),
                ),
    {
        let id = new_workflow_id();
        self.start_workflow_with_id(id, workflow_type, input)
    }

    /// The status of workflow `workflow_id`; `NotFound` where it is not stored.
    pub fn get_workflow_status(&self, workflow_id: &str) -> (r: Result<WorkflowStatus, KernelError>)
        requires
            self.inv(),
        ensures
            !self.sched().store().workflows().contains_key(workflow_id@) ==> r == Err::<
                WorkflowStatus,
                KernelError,
            >(KernelError::NotFound),
            self.sched().store().workflows().contains_key(workflow_id@) ==> (r matches Ok(st)
                && is_status_of(st, self.sched().store().workflows()[workflow_id@])),
    {
        match self.scheduler.persistence.get_workflow(workflow_id) {
            None => Err(KernelError::NotFound),
            Some(w) => {
                let (state, current_step, result, error, completed_at) = match w.state {
                    WorkflowState::Pending => (0, String::new(), Vec::new(), String::new(), 0),
                    WorkflowState::Running { current_step } => {
                        let cs = match current_step {
                            Some(c) => c,
                            None => String::new(),
                        };
                        (1, cs, Vec::new(), String::new(), 0)
                    },
                    WorkflowState::Completed { result } => (
                        2,
                        String::new(),
                        result,
                        String::new(),
                        w.updated_at.seconds,
                    ),
                    WorkflowState::Failed { error } => (3, String::new(), Vec::new(), error, 0),
                    WorkflowState::Cancelled => (4, String::new(), Vec::new(), String::new(), 0),
                };
                let st = WorkflowStatus {
                    workflow_id: w.id,
                    state,
                    current_step,
                    result,
                    error,
                    started_at: w.started_at.seconds,
                    completed_at,
                };
                proof {
                    self.scheduler.persistence.lemma_keys_are_ids();
                    assert(st.result@ =~= (match w@.state {
                        StateModel::Completed { result } => result,
                        _ => Seq::empty(),
                    }));
                }
                Ok(st)
            },
        }
    }

    /// The outcome of workflow `workflow_id` once it is final; `NotFound` where
    /// it is not stored, `FailedPrecondition` while it is pending or running.
    pub fn await_result(&self, workflow_id: &str) -> (r: Result<WorkflowResult, KernelError>)
        requires
            self.inv(),
        ensures
            !self.sched().store().workflows().contains_key(workflow_id@) ==> r == Err::<
                WorkflowResult,
                KernelError,
            >(KernelError::NotFound),
            self.sched().store().workflows().contains_key(workflow_id@) ==> ({
                let s = self.sched().store().workflows()[workflow_id@].state;
                match s {
                    StateModel::Completed { result } => r matches Ok(o) && o.result@ == result
                        && o.error@.len() == 0 && o.state == 2,
                    StateModel::Failed { error } => r matches Ok(o) && o.result@.len() == 0
                        && o.error@ == error && o.state == 3,
                    StateModel::Cancelled => r matches Ok(o) && o.result@.len() == 0
                        && o.error@.len() == 0 && o.state == 4,
                    _ => r == Err::<WorkflowResult, KernelError>(KernelError::FailedPrecondition),
                }
            }),
    {
        match self.scheduler.persistence.get_workflow(workflow_id) {
            None => Err(KernelError::NotFound),
            Some(w) => match w.state {
                WorkflowState::Completed { result } => Ok(
                    WorkflowResult { result, error: String::new(), state: 2 },
                ),
                WorkflowState::Failed { error } => Ok(
                    WorkflowResult { result: Vec::new(), error, state: 3 },
                ),
                WorkflowState::Cancelled => Ok(
                    WorkflowResult { result: Vec::new(), error: String::new(), state: 4 },
                ),
                _ => Err(KernelError::FailedPrecondition),
            },
        }
    }

    /// Cancels workflow `workflow_id` where it is pending or running; a final
    /// workflow stays as it is. `NotFound` where it is not stored.
    pub fn cancel_workflow(&mut self, workflow_id: &str) -> (r: Result<bool, KernelError>)
        requires
            old(self).inv(),
        ensures
            final(self).inv(),
            final(self).sched().workers() == old(self).sched().workers(),
            final(self).sched().running() == old(self).sched().running(),
            final(self).sched().records() == old(self).sched().records(),
            final(self).sched().events() == old(self).sched().events(),
            final(self).sched().store().step_results() == old(self).sched().store().step_results(),
            !old(self).sched().store().workflows().contains_key(workflow_id@) ==> r == Err::<
                bool,
                KernelError,
            >(KernelError::NotFound) && final(self).sched().store().workflows() == old(
                self,
            ).sched().store().workflows(),
            old(self).sched().store().workflows().contains_key(workflow_id@) ==> ({
                let w = old(self).sched().store().workflows()[workflow_id@];
                let m = final(self).sched().store().workflows();
                &&& r == Ok::<bool, KernelError>(true)
                &&& w.state.apply(crate::state_machine::Transition::Cancel) is None ==> m == old(
                    self,
                ).sched().store().workflows()
                &&& w.state.apply(crate::state_machine::Transition::Cancel) is Some ==> m == old(
                    self,
                ).sched().store().workflows().insert(workflow_id@, m[workflow_id@])
                    && crate::persistence::is_refreshed(w, StateModel::Cancelled, m[workflow_id@])
            }),
    {
        match self.scheduler.persistence.get_workflow(workflow_id) {
            None => Err(KernelError::NotFound),
            Some(w) => {
                match w.state.cancel() {
                    Some(cancelled) => {
                        self.scheduler.persistence.update_workflow_state(workflow_id, cancelled);
                    },
                    None => {},
                }
                proof {
                    Scheduler::<P>::lemma_inv_frame(old(self).scheduler, self.scheduler);
                }
                Ok(true)
            },
        }
    }

    /// Registers a worker whose resources carry wire codes of resource kinds;
    /// `InvalidArgument`, with nothing registered, where a code is unknown.
    /// Returns the server's name and the workflow types it supports.
    pub fn register(
        &mut self,
        worker_id: String,
        service_name: String,
        group: String,
        workflow_types: Vec<String>,
        resources: Vec<(String, i32)>,
    ) -> (r: Result<(String, Vec<String>), KernelError>)
        requires
            old(self).inv(),
        ensures
            final(self).inv(),
            final(self).sched().store() == old(self).sched().store(),
            final(self).sched().running() == old(self).sched().running(),
            final(self).sched().records() == old(self).sched().records(),
            final(self).sched().events() == old(self).sched().events(),
            (exists|i: int| 0 <= i < resources@.len() && !(0 <= #[trigger] resources@[i].1 <= 2))
                ==> r == Err::<(String, Vec<String>), KernelError>(KernelError::InvalidArgument)
                && final(self).sched().workers() == old(self).sched().workers(),
            (forall|i: int| 0 <= i < resources@.len() ==> 0 <= #[trigger] resources@[i].1 <= 2)
                ==> (r matches Ok((id, types)) && id@ == SERVER_ID@ && types@.len() == 0) && exists|
                t: Timestamp,
            |
                final(self).sched().workers() == upsert_worker(
                    old(self).sched().workers(),
                    #[trigger] worker_model(
                        worker_id@,
                        service_name@,
                        group@,
                        strings_view(workflow_types@),
                        coded_resources(resources@),
                        t,
                    ),
                ),
    {
        let mut converted: Vec<(String, ResourceType)> = Vec::new();
        let mut i: usize = 0;
        while i < resources.len()
            invariant
                old(self).inv(),
                self.scheduler == old(self).scheduler,
                i <= resources@.len(),
                converted@.len() == i,
                forall|k: int| 0 <= k < i ==> 0 <= #[trigger] resources@[k].1 <= 2,
                forall|k: int|
                    0 <= k < i ==> (#[trigger] converted@[k]).0@ == resources@[k].0@
                        && converted@[k].1 == ResourceType::from_code_spec(resources@[k].1),
            decreases resources@.len() - i,
        {
            match ResourceType::from_code(resources[i].1) {
                Some(rt) => {
                    converted.push((resources[i].0.clone(), rt));
                },
                None => {
                    proof {
                        Scheduler::<P>::lemma_inv_frame(old(self).scheduler, self.scheduler);
                    }
                    return Err(KernelError::InvalidArgument);
                },
            }
            i = i + 1;
        }
        let ghost cv = resources_view(converted@);
        assert(cv =~= coded_resources(resources@));
        self.scheduler.register_worker(worker_id, service_name, group, workflow_types, converted);
        let id = SERVER_ID.to_string();
        proof {
            reveal_strlit("aether-server-1");
        }
        Ok((id, Vec::new()))
    }

    /// Hands tasks to a worker; a non-positive `max_tasks` asks for the default
    /// batch size.
    pub fn poll_tasks(&mut self, worker_id: &str, max_tasks: i32) -> (r: Vec<Task>)
        requires
            old(self).inv(),
        ensures
            final(self).inv(),
            final(self).sched().store() == old(self).sched().store(),
            final(self).sched().workers() == old(self).sched().workers(),
            match worker_with_id(old(self).sched().workers(), worker_id@) {
                None => r@.len() == 0 && final(self).sched().running() == old(
                    self,
                ).sched().running() && final(self).sched().records() == old(self).sched().records()
                    && final(self).sched().events() == old(self).sched().events(),
                Some(w) => is_poll_result(
                    old(self).sched().store().workflows(),
                    w,
                    if max_tasks > 0 {
                        max_tasks as nat
                    } else {
                        DEFAULT_MAX_TASKS as nat
                    },
                    tasks_view(r@),
                ) && final(self).sched().running() == upsert_tasks(
                    old(self).sched().running(),
                    tasks_view(r@),
                ) && started_events(
                    old(self).sched().events(),
                    final(self).sched().events(),
                    tasks_view(r@),
                ) && exists|times: Seq<Timestamp>|
                    times.len() == r@.len() && final(self).sched().records() == #[trigger] dispatched(
                        old(self).sched().records(),
                        tasks_view(r@),
                        times,
                    ),
            },
    {
        let max: usize = if max_tasks > 0 {
            max_tasks as usize
        } else {
            DEFAULT_MAX_TASKS
        };
        self.scheduler.poll_tasks(worker_id, max)
    }

    /// A worker reports the end of a task. A non-empty `error` fails the
    /// workflow stored under `task_id` where it is running; an empty one
    /// completes the task with `result`.
    pub fn complete_step(&mut self, task_id: &str, result: Vec<u8>, error: String) -> (r: bool)
        requires
            old(self).inv(),
        ensures
            final(self).inv(),
            r,
            final(self).sched().workers() == old(self).sched().workers(),
            error@.len() > 0 ==> final(self).sched().running() == old(self).sched().running()
                && final(self).sched().records() == old(self).sched().records()
                && final(self).sched().events() == old(self).sched().events(),
            error@.len() == 0 ==> match task_with_id(old(self).sched().running(), task_id@) {
                None => final(self).sched().running() == old(self).sched().running()
                    && final(self).sched().records() == old(self).sched().records()
                    && final(self).sched().events() == old(self).sched().events(),
                Some(t) => final(self).sched().running() == old(self).sched().running().filter(
                    |x: TaskModel| x.task_id != task_id@,
                ) && (old(self).sched().store().workflows().contains_key(t.workflow_id) ==> (
                completion_events(
                    old(self).sched().events(),
                    final(self).sched().events(),
                    old(self).sched().store().workflows()[t.workflow_id],
                    t.step_name,
                    result@,
                ) && exists|when: Timestamp|
                    final(self).sched().records() == #[trigger] with_step_completed(
                        old(self).sched().records(),
                        t.workflow_id,
                        t.step_name,
                        result@,
                        when,
                    ))) && (!old(self).sched().store().workflows().contains_key(t.workflow_id)
                    ==> final(self).sched().records() == old(self).sched().records()
                    && final(self).sched().events() == old(self).sched().events()),
            },
            error@.len() > 0 ==> {
                let before = old(self).sched().store().workflows();
                let after = final(self).sched().store().workflows();
                &&& final(self).sched().store().step_results() == old(
                    self,
                ).sched().store().step_results()
                &&& if before.contains_key(task_id@) && before[task_id@].state is Running {
                    after == before.insert(task_id@, after[task_id@])
                        && crate::persistence::is_refreshed(
                        before[task_id@],
                        StateModel::Failed { error: error@ },
                        after[task_id@],
                    )
                } else {
                    after == before
                }
            },
            error@.len() == 0 ==> match task_with_id(old(self).sched().running(), task_id@) {
                None => final(self).sched().store() == old(self).sched().store(),
                Some(t) => final(self).sched().store().step_results() == old(
                    self,
                ).sched().store().step_results().insert((t.workflow_id, t.step_name), result@)
                    && advanced(
                    old(self).sched().store().workflows(),
                    final(self).sched().store().workflows(),
                    t.workflow_id,
                ),
            },
    {
        if !error.as_str().is_empty() {
            match self.scheduler.persistence.get_workflow(task_id) {
                Some(workflow) => {
                    match workflow.state.fail(error) {
                        Some(failed) => {
                            self.scheduler.persistence.update_workflow_state(task_id, failed);
                        },
                        None => {},
                    }
                },
                None => {},
            }
            proof {
                Scheduler::<P>::lemma_inv_frame(old(self).scheduler, self.scheduler);
            }
        } else {
            self.scheduler.complete_task(task_id, result);
        }
        true
    }

    /// The type of workflow `workflow_id`, or an empty string where it is not
    /// stored.
    fn workflow_type_of(&self, workflow_id: &str) -> (r: String)
        requires
            self.inv(),
        ensures
            r@ == declared_type(self.sched().store().workflows(), workflow_id@),
    {
        match self.scheduler.persistence.get_workflow(workflow_id) {
            Some(w) => w.workflow_type,
            None => String::new(),
        }
    }

    /// A worker reports progress of a step: the tracker records it and
    /// subscribers hear of it; the stored workflow does not change. A failure
    /// is announced with the attempt count that the step had when it was
    /// reported.
    pub fn report_step(
        &mut self,
        workflow_id: &str,
        step_name: &str,
        status: StepStatus,
        input: Vec<u8>,
        output: Vec<u8>,
        error: String,
    ) -> (r: bool)
        requires
            old(self).inv(),
        ensures
            final(self).inv(),
            r,
            final(self).sched().store() == old(self).sched().store(),
            final(self).sched().workers() == old(self).sched().workers(),
            final(self).sched().running() == old(self).sched().running(),
            status == StepStatus::Started ==> exists|t: Timestamp|
                final(self).sched().records() == crate::tracker::on_execution(
                    old(self).sched().records(),
                    workflow_id@,
                    |e|
                        crate::tracker::after_step_started(
                            e,
                            #[trigger] crate::tracker::started_step(
                                step_name@,
                                input@,
                                Seq::empty(),
                                t,
                            ),
                        ),
                ),
            status == StepStatus::Completed ==> exists|t: Timestamp|
                final(self).sched().records() == crate::tracker::with_step_completed(
                    old(self).sched().records(),
                    workflow_id@,
                    step_name@,
                    output@,
                    t,
                ),
            status == StepStatus::Failed ==> exists|t: Timestamp|
                final(self).sched().records() == crate::tracker::with_step_failed(
                    old(self).sched().records(),
                    workflow_id@,
                    step_name@,
                    error@,
                    t,
                ),
            status == StepStatus::Started ==> one_more(
                old(self).sched().events(),
                final(self).sched().events(),
                |e|
                    is_step_started_event(
                        e,
                        workflow_id@,
                        declared_type(old(self).sched().store().workflows(), workflow_id@),
                        step_name@,
                        input@,
                    ),
            ),
            status == StepStatus::Completed ==> one_more(
                old(self).sched().events(),
                final(self).sched().events(),
                |e|
                    is_step_completed_event(
                        e,
                        workflow_id@,
                        declared_type(old(self).sched().store().workflows(), workflow_id@),
                        step_name@,
                        output@,
                    ),
            ),
            status == StepStatus::Failed ==> one_more(
                old(self).sched().events(),
                final(self).sched().events(),
                |e|
                    is_step_failed_event(
                        e,
                        workflow_id@,
                        declared_type(old(self).sched().store().workflows(), workflow_id@),
                        step_name@,
                        error@,
                        attempt_before(old(self).sched().records(), workflow_id@, step_name@),
                    ),
            ),
    {
        let workflow_type = self.workflow_type_of(workflow_id);
        let ghost recs = old(self).sched().records();
        let ghost wid = workflow_id@;
        let ghost sn = step_name@;
        match status {
            StepStatus::Started => {
                let deps: Vec<String> = Vec::new();
                proof {
                    assert(strings_view(deps@) =~= Seq::<Seq<char>>::empty());
                }
                let st = self.scheduler.tracker.step_started(
                    workflow_id,
                    step_name,
                    copy_bytes(&input),
                    deps,
                );
                let _ = self.scheduler.broadcaster.broadcast_step_started(
                    workflow_id,
                    workflow_type.as_str(),
                    step_name,
                    input,
                );
            },
            StepStatus::Completed => {
                let ghost before = self.scheduler.tracker.model();
                let out = copy_bytes(&output);
                self.scheduler.tracker.step_completed(workflow_id, step_name, out);
                proof {
                    let t = choose|t: Timestamp|
                        self.scheduler.tracker.model() == crate::tracker::with_step_completed(
                            before,
                            workflow_id@,
                            step_name@,
                            out@,
                            t,
                        );
                    assert(self.scheduler.tracker.model() == crate::tracker::with_step_completed(
                        old(self).scheduler.tracker.model(),
                        workflow_id@,
                        step_name@,
                        output@,
                        t,
                    ));
                    assert(self.sched().records() == crate::tracker::with_step_completed(
                        old(self).sched().records(),
                        workflow_id@,
                        step_name@,
                        output@,
                        t,
                    ));
                }
                let _ = self.scheduler.broadcaster.broadcast_step_completed(
                    workflow_id,
                    workflow_type.as_str(),
                    step_name,
                    output,
                );
            },
            StepStatus::Failed => {
                let attempt: u32 = match self.scheduler.tracker.get_execution(workflow_id) {
                    Some(e) => match e.get_step(step_name) {
                        Some(st) => {
                            proof {
                                let i = choose|i: int|
                                    0 <= i < recs.len() && recs[i].workflow_id == wid && recs[i]
                                        == e@;
                                let j = choose|j: int|
                                    0 <= j < e@.steps.len() && e@.steps[j].step_name == sn
                                        && e@.steps[j] == st@ && forall|k: int|
                                        0 <= k < j ==> e@.steps[k].step_name != sn;
                                assert(is_first_step(recs, wid, sn, i, j));
                                let (i2, j2) = choose|i2: int, j2: int|
                                    is_first_step(recs, wid, sn, i2, j2);
                                lemma_first_step_unique(recs, wid, sn, i, j, i2, j2);
                            }
                            st.attempt
                        },
                        None => {
                            proof {
                                let i = choose|i: int|
                                    0 <= i < recs.len() && recs[i].workflow_id == wid && recs[i]
                                        == e@;
                                if exists|i2: int, j2: int| is_first_step(recs, wid, sn, i2, j2) {
                                    let (i2, j2) = choose|i2: int, j2: int|
                                        is_first_step(recs, wid, sn, i2, j2);
                                    if i2 < i {
                                        assert(recs[i2].workflow_id != recs[i].workflow_id);
                                    } else if i < i2 {
                                        assert(recs[i].workflow_id != recs[i2].workflow_id);
                                    }
                                    assert(e@.steps[j2].step_name == sn);
                                }
                            }
                            1
                        },
                    },
                    None => {
                        proof {
                            if exists|i2: int, j2: int| is_first_step(recs, wid, sn, i2, j2) {
                                let (i2, j2) = choose|i2: int, j2: int|
                                    is_first_step(recs, wid, sn, i2, j2);
                                assert(recs[i2].workflow_id == wid);
                            }
                        }
                        1
                    },
                };
                assert(attempt == attempt_before(recs, wid, sn));
                let ghost before = self.scheduler.tracker.model();
                let err = error.clone();
                self.scheduler.tracker.step_failed(workflow_id, step_name, err);
                proof {
                    let t = choose|t: Timestamp|
                        self.scheduler.tracker.model() == crate::tracker::with_step_failed(
                            before,
                            workflow_id@,
                            step_name@,
                            err@,
                            t,
                        );
                    assert(self.scheduler.tracker.model() == crate::tracker::with_step_failed(
                        old(self).scheduler.tracker.model(),
                        workflow_id@,
                        step_name@,
                        error@,
                        t,
                    ));
                    assert(self.sched().records() == crate::tracker::with_step_failed(
                        old(self).sched().records(),
                        workflow_id@,
                        step_name@,
                        error@,
                        t,
                    ));
                }
                let _ = self.scheduler.broadcaster.broadcast_step_failed(
                    workflow_id,
                    workflow_type.as_str(),
                    step_name,
                    error,
                    attempt,
                );
            },
        }
        proof {
            Scheduler::<P>::lemma_inv_frame(old(self).scheduler, self.scheduler);
        }
        true
    }

    /// Acknowledges a heartbeat.
    pub fn heartbeat(&self, worker_id: &str) -> (r: bool)
        ensures
            r,
    {
        true
    }
}

} // verus!
