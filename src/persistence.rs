use crate::clock::now;
use crate::state_machine::{copy_bytes, StateModel, Workflow, WorkflowModel, WorkflowState};
use crate::text::str_eq;
use vstd::prelude::*;

verus! {

/// The optional type filter of a listing.
pub open spec fn opt_type_view(filter: Option<&str>) -> Option<Seq<char>> {
    match filter {
        Some(t) => Some(t@),
        None => None,
    }
}

/// `w` passes the optional exact-match filter on its type.
pub open spec fn type_matches(w: WorkflowModel, filter: Option<Seq<char>>) -> bool {
    match filter {
        Some(t) => w.workflow_type == t,
        None => true,
    }
}

/// `r` lists, once each, exactly the stored workflows that pass the filter.
pub open spec fn is_listing(
    m: Map<Seq<char>, WorkflowModel>,
    filter: Option<Seq<char>>,
    r: Seq<WorkflowModel>,
) -> bool {
    &&& forall|i: int|
        0 <= i < r.len() ==> m.contains_key(#[trigger] r[i].id) && m[r[i].id] == r[i]
            && type_matches(r[i], filter)
    &&& forall|id: Seq<char>|
        m.contains_key(id) && type_matches(m[id], filter) ==> exists|i: int|
            0 <= i < r.len() && (#[trigger] r[i]).id == id
    &&& forall|i: int, j: int| 0 <= i < j < r.len() ==> r[i].id != r[j].id
}

/// `new` is `old` with state `state` and an update time not before the old one.
pub open spec fn is_refreshed(old: WorkflowModel, state: StateModel, new: WorkflowModel) -> bool {
    &&& new == WorkflowModel { state, updated_at: new.updated_at, ..old }
    &&& old.updated_at.spec_le(new.updated_at)
}

/// The views of a list of workflows.
pub open spec fn workflow_views(v: Seq<Workflow>) -> Seq<WorkflowModel> {
    v.map_values(|w: Workflow| w@)
}

/// The view of an optional byte buffer.
pub open spec fn opt_bytes_view(o: Option<Vec<u8>>) -> Option<Seq<u8>> {
    match o {
        Some(b) => Some(b@),
        None => None,
    }
}

/// The storage contract that every backend keeps: workflows keyed by id,
/// step outputs keyed by workflow id and step name, and no reordering of the
/// writes to one id (the latest write is what reads return).
pub trait Persistence {
    /// The backend's internal invariant.
    spec fn inv(&self) -> bool;

    /// The stored workflows, by id.
    spec fn workflows(&self) -> Map<Seq<char>, WorkflowModel>;

    /// The stored step outputs, by workflow id and step name.
    spec fn step_results(&self) -> Map<(Seq<char>, Seq<char>), Seq<u8>>;

    /// Every stored workflow is stored under its own id.
    proof fn lemma_keys_are_ids(&self)
        requires
            self.inv(),
        ensures
            forall|id: Seq<char>|
                #[trigger] self.workflows().contains_key(id) ==> self.workflows()[id].id == id,
    ;

    /// Upserts `workflow` by id.
    fn save_workflow(&mut self, workflow: &Workflow)
        requires
            old(self).inv(),
        ensures
            final(self).inv(),
            final(self).workflows() == old(self).workflows().insert(workflow@.id, workflow@),
            final(self).step_results() == old(self).step_results(),
    ;

    /// The workflow stored under `id`.
    fn get_workflow(&self, id: &str) -> (r: Option<Workflow>)
        requires
            self.inv(),
        ensures
            r is Some <==> self.workflows().contains_key(id@),
            r matches Some(w) ==> w@ == self.workflows()[id@],
    ;

    /// The stored workflows whose type equals the filter, or all of them.
    fn list_workflows(&self, workflow_type: Option<&str>) -> (r: Vec<Workflow>)
        requires
            self.inv(),
        ensures
            is_listing(self.workflows(), opt_type_view(workflow_type), workflow_views(r@)),
    ;

    /// Replaces the state of the workflow stored under `id` and refreshes its
    /// update time; does nothing where no workflow has that id.
    fn update_workflow_state(&mut self, id: &str, state: WorkflowState)
        requires
            old(self).inv(),
        ensures
            final(self).inv(),
            final(self).step_results() == old(self).step_results(),
            !old(self).workflows().contains_key(id@) ==> final(self).workflows() == old(
                self,
            ).workflows(),
            old(self).workflows().contains_key(id@) ==> {
                &&& final(self).workflows() == old(self).workflows().insert(
                    id@,
                    final(self).workflows()[id@],
                )
                &&& is_refreshed(old(self).workflows()[id@], state@, final(self).workflows()[id@])
            },
    ;

    /// Upserts the output of a step.
    fn save_step_result(&mut self, workflow_id: &str, step_name: &str, result: Vec<u8>)
        requires
            old(self).inv(),
        ensures
            final(self).inv(),
            final(self).workflows() == old(self).workflows(),
            final(self).step_results() == old(self).step_results().insert(
                (workflow_id@, step_name@),
                result@,
            ),
    ;

    /// The output stored for a step.
    fn get_step_result(&self, workflow_id: &str, step_name: &str) -> (r: Option<Vec<u8>>)
        requires
            self.inv(),
        ensures
            opt_bytes_view(r) == (if self.step_results().contains_key((workflow_id@, step_name@)) {
                Some(self.step_results()[(workflow_id@, step_name@)])
            } else {
                None
            }),
    ;
}

/// The output of one step of one workflow.
pub struct StepRecord {
    pub workflow_id: String,
    pub step_name: String,
    pub output: Vec<u8>,
}

/// In-memory tables shared by the volatile backends: workflows and step
/// outputs, each in insertion order with unique keys.
pub struct MemoryTables {
    workflows: Vec<Workflow>,
    steps: Vec<StepRecord>,
    wf_map: Ghost<Map<Seq<char>, WorkflowModel>>,
    step_map: Ghost<Map<(Seq<char>, Seq<char>), Seq<u8>>>,
}

impl MemoryTables {
    pub open spec fn step_key(r: StepRecord) -> (Seq<char>, Seq<char>) {
        (r.workflow_id@, r.step_name@)
    }

    pub closed spec fn inv(&self) -> bool {
        self.workflows_inv() && self.steps_inv()
    }

    /// Workflow ids are unique, and the ghost map holds exactly the stored
    /// workflows.
    pub closed spec fn workflows_inv(&self) -> bool {
        &&& forall|i: int|
            0 <= i < self.workflows@.len() ==> self.wf_map@.contains_key(
                #[trigger] self.workflows@[i]@.id,
            ) && self.wf_map@[self.workflows@[i]@.id] == self.workflows@[i]@
        &&& forall|id: Seq<char>|
            #[trigger] self.wf_map@.contains_key(id) ==> exists|i: int|
                0 <= i < self.workflows@.len() && self.workflows@[i]@.id == id
        &&& forall|i: int, j: int|
            0 <= i < j < self.workflows@.len() ==> self.workflows@[i]@.id
                != self.workflows@[j]@.id
    }

    /// Step keys are unique, and the ghost map holds exactly the stored
    /// outputs.
    pub closed spec fn steps_inv(&self) -> bool {
        &&& forall|i: int|
            0 <= i < self.steps@.len() ==> self.step_map@.contains_key(
                #[trigger] Self::step_key(self.steps@[i]),
            ) && self.step_map@[Self::step_key(self.steps@[i])] == self.steps@[i].output@
        &&& forall|k: (Seq<char>, Seq<char>)|
            #[trigger] self.step_map@.contains_key(k) ==> exists|i: int|
                0 <= i < self.steps@.len() && Self::step_key(self.steps@[i]) == k
        &&& forall|i: int, j: int|
            0 <= i < j < self.steps@.len() ==> Self::step_key(self.steps@[i]) != Self::step_key(
                self.steps@[j],
            )
    }

    pub closed spec fn workflow_map(&self) -> Map<Seq<char>, WorkflowModel> {
        self.wf_map@
    }

    pub closed spec fn step_result_map(&self) -> Map<(Seq<char>, Seq<char>), Seq<u8>> {
        self.step_map@
    }

    /// Empty tables.
    pub fn new() -> (r: MemoryTables)
        ensures
            r.inv(),
            r.workflow_map() == Map::<Seq<char>, WorkflowModel>::empty(),
            r.step_result_map() == Map::<(Seq<char>, Seq<char>), Seq<u8>>::empty(),
    {
        MemoryTables {
            workflows: Vec::new(),
            steps: Vec::new(),
            wf_map: Ghost(Map::empty()),
            step_map: Ghost(Map::empty()),
        }
    }

    proof fn lemma_keys_are_ids(&self)
        requires
            self.inv(),
        ensures
            forall|id: Seq<char>|
                #[trigger] self.workflow_map().contains_key(id) ==> self.workflow_map()[id].id
                    == id,
    {
        assert forall|id: Seq<char>| #[trigger]
            self.workflow_map().contains_key(id) implies self.workflow_map()[id].id == id by {
            let i = choose|i: int| 0 <= i < self.workflows@.len() && self.workflows@[i]@.id == id;
            assert(self.wf_map@.contains_key(self.workflows@[i]@.id));
        }
    }

    /// The position of the workflow with id `id`.
    fn find_workflow(&self, id: &str) -> (r: Option<usize>)
        requires
            self.inv(),
        ensures
            r matches Some(i) ==> i < self.workflows@.len() && self.workflows@[i as int]@.id
                == id@,
            r is None ==> !self.wf_map@.contains_key(id@),
    {
        let mut i: usize = 0;
        while i < self.workflows.len()
            invariant
                i <= self.workflows@.len(),
                forall|k: int| 0 <= k < i ==> self.workflows@[k]@.id != id@,
            decreases self.workflows@.len() - i,
        {
            if str_eq(self.workflows[i].id.as_str(), id) {
                return Some(i);
            }
            i = i + 1;
        }
        None
    }

    /// The position of the output of step `step_name` of `workflow_id`.
    fn find_step(&self, workflow_id: &str, step_name: &str) -> (r: Option<usize>)
        requires
            self.inv(),
        ensures
            r matches Some(i) ==> i < self.steps@.len() && Self::step_key(self.steps@[i as int])
                == (workflow_id@, step_name@),
            r is None ==> !self.step_map@.contains_key((workflow_id@, step_name@)),
    {
        let mut i: usize = 0;
        while i < self.steps.len()
            invariant
                i <= self.steps@.len(),
                forall|k: int|
                    0 <= k < i ==> Self::step_key(self.steps@[k]) != (workflow_id@, step_name@),
            decreases self.steps@.len() - i,
        {
            if str_eq(self.steps[i].workflow_id.as_str(), workflow_id) && str_eq(
                self.steps[i].step_name.as_str(),
                step_name,
            ) {
                return Some(i);
            }
            i = i + 1;
        }
        None
    }

    fn save_workflow(&mut self, workflow: &Workflow)
        requires
            old(self).inv(),
        ensures
            final(self).inv(),
            final(self).workflow_map() == old(self).workflow_map().insert(
                workflow@.id,
                workflow@,
            ),
            final(self).step_result_map() == old(self).step_result_map(),
    {
        let w = workflow.clone();
        let pos = self.find_workflow(workflow.id.as_str());
        match pos {
            Some(i) => {
                self.workflows.set(i, w);
            },
            None => {
                self.workflows.push(w);
            },
        }
        self.wf_map = Ghost(self.wf_map@.insert(workflow@.id, workflow@));
        proof {
            let n = self.workflows@.len();
            let ghost p: int = match pos {
                Some(i) => i as int,
                None => n - 1,
            };
            assert(self.workflows@[p]@ == workflow@);
            assert forall|i: int| 0 <= i < n && i != p implies self.workflows@[i]
                == old(self).workflows@[i] && (#[trigger] self.workflows@[i])@.id
                != workflow@.id by {
                if pos is None {
                    assert(old(self).wf_map@.contains_key(old(self).workflows@[i]@.id));
                }
            }
            assert forall|i: int|
                0 <= i < n implies self.wf_map@.contains_key(
                #[trigger] self.workflows@[i]@.id,
            ) && self.wf_map@[self.workflows@[i]@.id] == self.workflows@[i]@ by {
                if i != p {
                    assert(self.workflows@[i] == old(self).workflows@[i]);
                }
            }
            assert forall|i: int, j: int|
                0 <= i < j < n implies self.workflows@[i]@.id != self.workflows@[j]@.id by {
                if i != p && j != p {
                    assert(self.workflows@[i] == old(self).workflows@[i]);
                    assert(self.workflows@[j] == old(self).workflows@[j]);
                } else if i == p {
                    assert(self.workflows@[j] == old(self).workflows@[j]);
                } else {
                    assert(self.workflows@[i] == old(self).workflows@[i]);
                }
            }
            assert forall|id: Seq<char>| #[trigger]
                self.wf_map@.contains_key(id) implies exists|i: int|
                0 <= i < n && self.workflows@[i]@.id == id by {
                if id != workflow@.id {
                    let k = choose|k: int|
                        0 <= k < old(self).workflows@.len() && old(self).workflows@[k]@.id == id;
                    assert(self.workflows@[k]@.id == id);
                } else {
                    match pos {
                        Some(i) => assert(self.workflows@[i as int]@.id == id),
                        None => assert(self.workflows@[n - 1]@.id == id),
                    }
                }
            }
        }
    }

    fn get_workflow(&self, id: &str) -> (r: Option<Workflow>)
        requires
            self.inv(),
        ensures
            r is Some <==> self.workflow_map().contains_key(id@),
            r matches Some(w) ==> w@ == self.workflow_map()[id@],
    {
        match self.find_workflow(id) {
            Some(i) => {
                assert(self.wf_map@.contains_key(self.workflows@[i as int]@.id));
                Some(self.workflows[i].clone())
            },
            None => None,
        }
    }

    fn list_workflows(&self, workflow_type: Option<&str>) -> (r: Vec<Workflow>)
        requires
            self.inv(),
        ensures
            is_listing(self.workflow_map(), opt_type_view(workflow_type), workflow_views(r@)),
    {
        let ghost filter = opt_type_view(workflow_type);
        let mut r: Vec<Workflow> = Vec::new();
        let ghost mut idx: Seq<int> = Seq::empty();
        let mut i: usize = 0;
        while i < self.workflows.len()
            invariant
                self.inv(),
                i <= self.workflows@.len(),
                filter == opt_type_view(workflow_type),
                idx.len() == r@.len(),
                forall|j: int|
                    0 <= j < r@.len() ==> 0 <= #[trigger] idx[j] < i && r@[j]@
                        == self.workflows@[idx[j]]@ && type_matches(r@[j]@, filter),
                forall|j: int, k: int| 0 <= j < k < r@.len() ==> idx[j] < idx[k],
                forall|k: int|
                    0 <= k < i && type_matches(self.workflows@[k]@, filter) ==> exists|j: int|
                        0 <= j < r@.len() && #[trigger] idx[j] == k,
            decreases self.workflows@.len() - i,
        {
            let keep = match workflow_type {
                Some(t) => str_eq(self.workflows[i].workflow_type.as_str(), t),
                None => true,
            };
            if keep {
                let ghost old_r = r@;
                r.push(self.workflows[i].clone());
                proof {
                    let ghost old_idx = idx;
                    idx = idx.push(i as int);
                    assert forall|j: int| 0 <= j < old_idx.len() implies idx[j] == old_idx[j] by {}
                    let last = r@.len() - 1;
                    assert(idx[last] == i);
                    assert(r@[last]@ == self.workflows@[i as int]@);
                    assert(type_matches(r@[last]@, filter));
                    assert forall|j: int| 0 <= j < r@.len() implies 0 <= #[trigger] idx[j] < i + 1
                        && r@[j]@ == self.workflows@[idx[j]]@ && type_matches(r@[j]@, filter) by {
                        if j < last {
                            assert(r@[j] == old_r[j]);
                        }
                    }
                    assert forall|k: int|
                        0 <= k < i + 1 && type_matches(
                            self.workflows@[k]@,
                            filter,
                        ) implies exists|j: int| 0 <= j < r@.len() && #[trigger] idx[j] == k by {
                        if k == i {
                            assert(idx[r@.len() - 1] == k);
                        } else {
                            let j = choose|j: int|
                                0 <= j < old_idx.len() && #[trigger] old_idx[j] == k;
                            assert(idx[j] == k);
                        }
                    }
                }
            }
            i = i + 1;
        }
        proof {
            let rv = workflow_views(r@);
            assert forall|j: int| 0 <= j < rv.len() implies self.wf_map@.contains_key(
                #[trigger] rv[j].id,
            ) && self.wf_map@[rv[j].id] == rv[j] && type_matches(rv[j], filter) by {
                assert(rv[j] == r@[j]@);
                assert(self.wf_map@.contains_key(self.workflows@[idx[j]]@.id));
            }
            assert forall|id: Seq<char>|
                self.wf_map@.contains_key(id) && type_matches(
                    self.wf_map@[id],
                    filter,
                ) implies exists|j: int| 0 <= j < rv.len() && (#[trigger] rv[j]).id == id by {
                let k = choose|k: int|
                    0 <= k < self.workflows@.len() && self.workflows@[k]@.id == id;
                assert(self.wf_map@.contains_key(self.workflows@[k]@.id));
                let j = choose|j: int| 0 <= j < r@.len() && #[trigger] idx[j] == k;
                assert(rv[j] == r@[j]@);
            }
            assert forall|a: int, b: int| 0 <= a < b < rv.len() implies rv[a].id != rv[b].id by {
                assert(rv[a] == r@[a]@);
                assert(rv[b] == r@[b]@);
                assert(idx[a] < idx[b]);
            }
        }
        r
    }

    fn update_workflow_state(&mut self, id: &str, state: WorkflowState)
        requires
            old(self).inv(),
        ensures
            final(self).inv(),
            final(self).step_result_map() == old(self).step_result_map(),
            !old(self).workflow_map().contains_key(id@) ==> final(self).workflow_map() == old(
                self,
            ).workflow_map(),
            old(self).workflow_map().contains_key(id@) ==> {
                &&& final(self).workflow_map() == old(self).workflow_map().insert(
                    id@,
                    final(self).workflow_map()[id@],
                )
                &&& is_refreshed(
                    old(self).workflow_map()[id@],
                    state@,
                    final(self).workflow_map()[id@],
                )
            },
    {
        match self.find_workflow(id) {
            Some(i) => {
                proof {
                    assert(self.wf_map@.contains_key(self.workflows@[i as int]@.id));
                }
                let mut w = self.workflows[i].clone();
                w.state = state;
                w.updated_at = now().latest(w.updated_at);
                let ghost wv = w@;
                self.workflows.set(i, w);
                self.wf_map = Ghost(self.wf_map@.insert(id@, wv));
                proof {
                    let n = self.workflows@.len();
                    assert(self.workflows@[i as int]@ == wv);
                    assert(wv.id == id@);
                    assert forall|k: int| 0 <= k < n && k != i implies self.workflows@[k]
                        == old(self).workflows@[k] && (#[trigger] self.workflows@[k])@.id
                        != id@ by {}
                    assert forall|k: int|
                        0 <= k < n implies self.wf_map@.contains_key(
                        #[trigger] self.workflows@[k]@.id,
                    ) && self.wf_map@[self.workflows@[k]@.id] == self.workflows@[k]@ by {
                        if k != i {
                            assert(self.workflows@[k] == old(self).workflows@[k]);
                        }
                    }
                    assert forall|a: int, b: int|
                        0 <= a < b < n implies self.workflows@[a]@.id != self.workflows@[b]@.id by {
                        if a != i && b != i {
                            assert(self.workflows@[a] == old(self).workflows@[a]);
                            assert(self.workflows@[b] == old(self).workflows@[b]);
                        } else if a == i {
                            assert(self.workflows@[b] == old(self).workflows@[b]);
                        } else {
                            assert(self.workflows@[a] == old(self).workflows@[a]);
                        }
                    }
                    assert(wv =~= WorkflowModel {
                        state: state@,
                        updated_at: wv.updated_at,
                        ..old(self).wf_map@[id@]
                    });
                    assert forall|x: Seq<char>| #[trigger]
                        self.wf_map@.contains_key(x) implies exists|k: int|
                        0 <= k < self.workflows@.len() && self.workflows@[k]@.id == x by {
                        if x != id@ {
                            let k = choose|k: int|
                                0 <= k < old(self).workflows@.len()
                                    && old(self).workflows@[k]@.id == x;
                            assert(self.workflows@[k]@.id == x);
                        } else {
                            assert(self.workflows@[i as int]@.id == x);
                        }
                    }
                    assert(self.workflows_inv());
                    assert(self.steps_inv());
                }
            },
            None => {},
        }
    }

    fn save_step_result(&mut self, workflow_id: &str, step_name: &str, result: Vec<u8>)
        requires
            old(self).inv(),
        ensures
            final(self).inv(),
            final(self).workflow_map() == old(self).workflow_map(),
            final(self).step_result_map() == old(self).step_result_map().insert(
                (workflow_id@, step_name@),
                result@,
            ),
    {
        let ghost key = (workflow_id@, step_name@);
        let ghost out = result@;
        let rec = StepRecord {
            workflow_id: workflow_id.to_string(),
            step_name: step_name.to_string(),
            output: result,
        };
        let pos = self.find_step(workflow_id, step_name);
        match pos {
            Some(i) => {
                self.steps.set(i, rec);
            },
            None => {
                self.steps.push(rec);
            },
        }
        self.step_map = Ghost(self.step_map@.insert(key, out));
        proof {
            let n = self.steps@.len();
            assert forall|k: (Seq<char>, Seq<char>)| #[trigger]
                self.step_map@.contains_key(k) implies exists|i: int|
                0 <= i < n && Self::step_key(self.steps@[i]) == k by {
                if k != key {
                    let j = choose|j: int|
                        0 <= j < old(self).steps@.len() && Self::step_key(old(self).steps@[j])
                            == k;
                    assert(Self::step_key(self.steps@[j]) == k);
                } else {
                    match pos {
                        Some(i) => assert(Self::step_key(self.steps@[i as int]) == k),
                        None => assert(Self::step_key(self.steps@[n - 1]) == k),
                    }
                }
            }
        }
    }

    fn get_step_result(&self, workflow_id: &str, step_name: &str) -> (r: Option<Vec<u8>>)
        requires
            self.inv(),
        ensures
            opt_bytes_view(r) == (if self.step_result_map().contains_key(
                (workflow_id@, step_name@),
            ) {
                Some(self.step_result_map()[(workflow_id@, step_name@)])
            } else {
                None
            }),
    {
        match self.find_step(workflow_id, step_name) {
            Some(i) => {
                assert(self.step_map@.contains_key(Self::step_key(self.steps@[i as int])));
                Some(copy_bytes(&self.steps[i].output))
            },
            None => None,
        }
    }
}

/// The volatile backend: two in-memory tables for the life of the process.
pub struct L0MemoryStore {
    tables: MemoryTables,
}

impl L0MemoryStore {
    /// An empty store.
    pub fn new() -> (r: L0MemoryStore)
        ensures
            r.inv(),
            r.workflows() == Map::<Seq<char>, WorkflowModel>::empty(),
            r.step_results() == Map::<(Seq<char>, Seq<char>), Seq<u8>>::empty(),
    {
        L0MemoryStore { tables: MemoryTables::new() }
    }
}

impl Persistence for L0MemoryStore {
    closed spec fn inv(&self) -> bool {
        self.tables.inv()
    }

    closed spec fn workflows(&self) -> Map<Seq<char>, WorkflowModel> {
        self.tables.workflow_map()
    }

    closed spec fn step_results(&self) -> Map<(Seq<char>, Seq<char>), Seq<u8>> {
        self.tables.step_result_map()
    }

    proof fn lemma_keys_are_ids(&self) {
        self.tables.lemma_keys_are_ids();
    }

    fn save_workflow(&mut self, workflow: &Workflow) {
        self.tables.save_workflow(workflow);
    }

    fn get_workflow(&self, id: &str) -> (r: Option<Workflow>) {
        self.tables.get_workflow(id)
    }

    fn list_workflows(&self, workflow_type: Option<&str>) -> (r: Vec<Workflow>) {
        self.tables.list_workflows(workflow_type)
    }

    fn update_workflow_state(&mut self, id: &str, state: WorkflowState) {
        self.tables.update_workflow_state(id, state);
    }

    fn save_step_result(&mut self, workflow_id: &str, step_name: &str, result: Vec<u8>) {
        self.tables.save_step_result(workflow_id, step_name, result);
    }

    fn get_step_result(&self, workflow_id: &str, step_name: &str) -> (r: Option<Vec<u8>>) {
        self.tables.get_step_result(workflow_id, step_name)
    }
}

/// The snapshot backend: the same in-memory tables, with the number of state
/// changes between two checkpoints.
pub struct L1SnapshotStore {
    tables: MemoryTables,
    snapshot_interval: usize,
}

impl L1SnapshotStore {
    /// An empty store that checkpoints every `snapshot_interval` changes.
    pub fn new(snapshot_interval: usize) -> (r: L1SnapshotStore)
        ensures
            r.inv(),
            r.workflows() == Map::<Seq<char>, WorkflowModel>::empty(),
            r.step_results() == Map::<(Seq<char>, Seq<char>), Seq<u8>>::empty(),
            r.interval() == snapshot_interval,
    {
        L1SnapshotStore { tables: MemoryTables::new(), snapshot_interval }
    }

    /// The checkpoint interval the store was made with.
    pub closed spec fn interval(&self) -> usize {
        self.snapshot_interval
    }

    /// The number of state changes between two checkpoints.
    pub fn snapshot_interval(&self) -> (r: usize)
        ensures
            r == self.interval(),
    {
        self.snapshot_interval
    }
}

impl Persistence for L1SnapshotStore {
    closed spec fn inv(&self) -> bool {
        self.tables.inv()
    }

    closed spec fn workflows(&self) -> Map<Seq<char>, WorkflowModel> {
        self.tables.workflow_map()
    }

    closed spec fn step_results(&self) -> Map<(Seq<char>, Seq<char>), Seq<u8>> {
        self.tables.step_result_map()
    }

    proof fn lemma_keys_are_ids(&self) {
        self.tables.lemma_keys_are_ids();
    }

    fn save_workflow(&mut self, workflow: &Workflow) {
        self.tables.save_workflow(workflow);
    }

    fn get_workflow(&self, id: &str) -> (r: Option<Workflow>) {
        self.tables.get_workflow(id)
    }

    fn list_workflows(&self, workflow_type: Option<&str>) -> (r: Vec<Workflow>) {
        self.tables.list_workflows(workflow_type)
    }

    fn update_workflow_state(&mut self, id: &str, state: WorkflowState) {
        self.tables.update_workflow_state(id, state);
    }

    fn save_step_result(&mut self, workflow_id: &str, step_name: &str, result: Vec<u8>) {
        self.tables.save_step_result(workflow_id, step_name, result);
    }

    fn get_step_result(&self, workflow_id: &str, step_name: &str) -> (r: Option<Vec<u8>>) {
        self.tables.get_step_result(workflow_id, step_name)
    }
}

/// The durability levels a kernel can be started with.
#[derive(Debug, Clone, Copy, PartialEq, Eq, Structural)]
pub enum PersistenceLevel {
    L0Memory,
    L1Snapshot,
    L2StateActionLog,
}

/// How the kernel stores its workflows.
#[derive(Debug, Clone)]
pub struct PersistenceConfig {
    pub level: PersistenceLevel,
    pub backend: String,
    pub path: Option<String>,
}

/// Saving a workflow and reading it back by id gives the workflow saved.
pub proof fn lemma_save_get_round_trip<P: Persistence>(before: P, after: P, w: WorkflowModel)
    requires
        after.workflows() == before.workflows().insert(w.id, w),
    ensures
        after.workflows().contains_key(w.id),
        after.workflows()[w.id] == w,
{
}

/// A listing filtered by type holds exactly the stored workflows of that
/// type; an unfiltered one holds all stored workflows.
pub proof fn lemma_list_filtering(
    m: Map<Seq<char>, WorkflowModel>,
    t: Option<Seq<char>>,
    r: Seq<WorkflowModel>,
    id: Seq<char>,
)
    requires
        is_listing(m, t, r),
    ensures
        (exists|i: int| 0 <= i < r.len() && r[i].id == id) ==> m.contains_key(id) && type_matches(
            m[id],
            t,
        ),
        m.contains_key(id) && m[id].id == id && type_matches(m[id], t) ==> exists|i: int|
            0 <= i < r.len() && r[i].id == id,
        t is None ==> forall|i: int| 0 <= i < r.len() ==> type_matches(r[i], t),
{
    if exists|i: int| 0 <= i < r.len() && r[i].id == id {
        let i = choose|i: int| 0 <= i < r.len() && r[i].id == id;
        assert(m.contains_key(r[i].id));
    }
}

/// Saving a step output and reading it back gives that output; a step never
/// saved reads as absent.
pub proof fn lemma_step_result_round_trip<P: Persistence>(
    before: P,
    after: P,
    workflow_id: Seq<char>,
    step: Seq<char>,
    output: Seq<u8>,
    other: Seq<char>,
)
    requires
        after.step_results() == before.step_results().insert((workflow_id, step), output),
        other != step,
        !before.step_results().contains_key((workflow_id, other)),
    ensures
        after.step_results().contains_key((workflow_id, step)),
        after.step_results()[(workflow_id, step)] == output,
        !after.step_results().contains_key((workflow_id, other)),
{
}

} // verus!
