use crate::state_machine::{
    copy_bytes, step_output_view, StateModel, Transition, Workflow, WorkflowModel,
};
use crate::task::{make_task_id, ResourceType, Task};
use crate::text::{append_str, str_eq};
use vstd::prelude::*;

verus! {

/// Records `out` as the output of step `name`, replacing an earlier output of
/// that step and otherwise appending it.
pub open spec fn record_output(
    s: Seq<(Seq<char>, Seq<u8>)>,
    name: Seq<char>,
    out: Seq<u8>,
) -> Seq<(Seq<char>, Seq<u8>)> {
    if exists|i: int| 0 <= i < s.len() && s[i].0 == name {
        s.map_values(|p: (Seq<char>, Seq<u8>)| if p.0 == name { (name, out) } else { p })
    } else {
        s.push((name, out))
    }
}

/// Runs one workflow in process: starts it, hands out its `start` step and
/// records step outputs.
pub struct WorkflowExecutor {
    workflow: Workflow,
}

impl WorkflowExecutor {
    pub closed spec fn model(&self) -> WorkflowModel {
        self.workflow@
    }

    /// An executor of `workflow`.
    pub fn new(workflow: Workflow) -> (r: WorkflowExecutor)
        ensures
            r.model() == workflow@,
    {
        WorkflowExecutor { workflow }
    }

    /// Starts the workflow; an error where it is not pending.
    pub fn start(&mut self) -> (r: Result<(), String>)
        ensures
            r is Ok <==> old(self).model().state.apply(Transition::Start) is Some,
            r is Ok ==> final(self).model() == (WorkflowModel {
                state: StateModel::Running { current_step: None },
                ..old(self).model()
            }),
            r is Err ==> final(self).model() == old(self).model(),
    {
        match self.workflow.state.start() {
            Some(s) => {
                self.workflow.state = s;
                Ok(())
            },
            None => {
                let mut msg = String::new();
                append_str(&mut msg, "Cannot start workflow from current state");
                Err(msg)
            },
        }
    }

    /// The `start` task of the workflow, while it runs with no step in flight.
    pub fn poll_task(&mut self) -> (r: Option<Task>)
        ensures
            final(self).model() == old(self).model(),
            r is Some <==> old(self).model().state == (StateModel::Running { current_step: None }),
            r matches Some(t) ==> t@ == crate::scheduler::start_task(old(self).model()),
    {
        match &self.workflow.state {
            crate::state_machine::WorkflowState::Running { current_step: None } => {
                proof {
                    reveal_strlit("start");
                }
                Some(
                    Task {
                        task_id: make_task_id(self.workflow.id.as_str(), "start"),
                        workflow_id: self.workflow.id.clone(),
                        step_name: "start".to_string(),
                        target_service: None,
                        target_resource: None,
                        resource_type: ResourceType::Step,
                        input: copy_bytes(&self.workflow.input),
                        retry: None,
                        workflow_type: self.workflow.workflow_type.clone(),
                    },
                )
            },
            _ => None,
        }
    }

    /// Records the output of step `step_name`, then ends the current step; an
    /// error, with the output still recorded, where the workflow is not running.
    pub fn complete_step(&mut self, step_name: &str, result: Vec<u8>) -> (r: Result<(), String>)
        ensures
            final(self).model().steps_completed == record_output(
                old(self).model().steps_completed,
                step_name@,
                result@,
            ),
            r is Ok <==> old(self).model().state is Running,
            r is Ok ==> final(self).model().state == (StateModel::Running { current_step: None }),
            r is Err ==> final(self).model().state == old(self).model().state,
            final(self).model().id == old(self).model().id,
            final(self).model().input == old(self).model().input,
            final(self).model().workflow_type == old(self).model().workflow_type,
    {
        let ghost old_s = self.workflow@.steps_completed;
        let ghost rv = result@;
        let mut out: Vec<(String, Vec<u8>)> = Vec::new();
        let mut found = false;
        let mut i: usize = 0;
        while i < self.workflow.steps_completed.len()
            invariant
                i <= self.workflow.steps_completed@.len(),
                old_s == self.workflow@.steps_completed,
                rv == result@,
                out@.len() == i,
                found == exists|k: int| 0 <= k < i && old_s[k].0 == step_name@,
                forall|k: int|
                    0 <= k < i ==> step_output_view(out@[k]) == (if old_s[k].0 == step_name@ {
                        (step_name@, rv)
                    } else {
                        old_s[k]
                    }),
            decreases self.workflow.steps_completed@.len() - i,
        {
            assert(old_s[i as int] == step_output_view(self.workflow.steps_completed@[i as int]));
            if str_eq(self.workflow.steps_completed[i].0.as_str(), step_name) {
                out.push((step_name.to_string(), copy_bytes(&result)));
                found = true;
            } else {
                let name = self.workflow.steps_completed[i].0.clone();
                let bytes = copy_bytes(&self.workflow.steps_completed[i].1);
                out.push((name, bytes));
            }
            i = i + 1;
        }
        if !found {
            out.push((step_name.to_string(), result));
            assert(out@.map_values(|p| step_output_view(p)) =~= old_s.push((step_name@, rv)));
        } else {
            assert(out@.map_values(|p| step_output_view(p)) =~= old_s.map_values(
                |p: (Seq<char>, Seq<u8>)| if p.0 == step_name@ { (step_name@, rv) } else { p },
            ));
        }
        self.workflow.steps_completed = out;
        match self.workflow.state.step_completed() {
            Some(s) => {
                self.workflow.state = s;
                Ok(())
            },
            None => {
                let mut msg = String::new();
                append_str(&mut msg, "Cannot complete step from current state");
                Err(msg)
            },
        }
    }

    /// The workflow as it stands.
    pub fn workflow(&self) -> (r: &Workflow)
        ensures
            r@ == self.model(),
    {
        &self.workflow
    }
}

} // verus!
