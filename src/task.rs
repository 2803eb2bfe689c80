use crate::scheduler::KernelError;
use crate::state_machine::{copy_opt_string, opt_str_view};
use crate::text::{append_str, chars_of, string_of_range};
use vstd::prelude::*;

verus! {

/// The kind of a resource that a service offers and a task asks for.
#[derive(Debug, Clone, Copy, PartialEq, Eq, Structural)]
pub enum ResourceType {
    Step,
    Activity,
    Workflow,
}

impl ResourceType {
    /// The wire code of the kind: 0, 1 or 2.
    pub open spec fn spec_code(self) -> i32 {
        match self {
            ResourceType::Step => 0,
            ResourceType::Activity => 1,
            ResourceType::Workflow => 2,
        }
    }

    /// The wire code of the kind.
    pub fn code(&self) -> (r: i32)
        ensures
            r == self.spec_code(),
    {
        match self {
            ResourceType::Step => 0,
            ResourceType::Activity => 1,
            ResourceType::Workflow => 2,
        }
    }

    /// The kind with wire code `value`, where it is one.
    pub open spec fn from_code_spec(value: i32) -> ResourceType {
        if value == 0 {
            ResourceType::Step
        } else if value == 1 {
            ResourceType::Activity
        } else {
            ResourceType::Workflow
        }
    }

    /// The kind with the given wire code; `None` for an unknown code.
    pub fn from_code(value: i32) -> (r: Option<ResourceType>)
        ensures
            r is Some <==> 0 <= value <= 2,
            r is Some ==> r->Some_0.spec_code() == value && r->Some_0 == Self::from_code_spec(value),
    {
        if value == 0 {
            Some(ResourceType::Step)
        } else if value == 1 {
            Some(ResourceType::Activity)
        } else if value == 2 {
            Some(ResourceType::Workflow)
        } else {
            None
        }
    }
}

/// Retry settings of a resource.
#[derive(Debug)]
pub struct ResourceMetadata {
    pub max_attempts: Option<u32>,
    pub timeout: Option<u64>,
    pub input_schema: Option<String>,
    pub output_schema: Option<String>,
}

/// The mathematical value of resource metadata.
pub struct MetadataModel {
    pub max_attempts: Option<u32>,
    pub timeout: Option<u64>,
    pub input_schema: Option<Seq<char>>,
    pub output_schema: Option<Seq<char>>,
}

impl View for ResourceMetadata {
    type V = MetadataModel;

    open spec fn view(&self) -> MetadataModel {
        MetadataModel {
            max_attempts: self.max_attempts,
            timeout: self.timeout,
            input_schema: opt_str_view(self.input_schema),
            output_schema: opt_str_view(self.output_schema),
        }
    }
}

impl Clone for ResourceMetadata {
    fn clone(&self) -> (r: Self)
        ensures
            r@ == self@,
    {
        ResourceMetadata {
            max_attempts: self.max_attempts,
            timeout: self.timeout,
            input_schema: copy_opt_string(&self.input_schema),
            output_schema: copy_opt_string(&self.output_schema),
        }
    }
}

/// A named resource that a service offers.
#[derive(Debug)]
pub struct ServiceResource {
    pub name: String,
    pub resource_type: ResourceType,
    pub metadata: Option<ResourceMetadata>,
}

/// The mathematical value of a resource.
pub struct ResourceModel {
    pub name: Seq<char>,
    pub resource_type: ResourceType,
    pub metadata: Option<MetadataModel>,
}

impl View for ServiceResource {
    type V = ResourceModel;

    open spec fn view(&self) -> ResourceModel {
        ResourceModel {
            name: self.name@,
            resource_type: self.resource_type,
            metadata: match self.metadata {
                Some(m) => Some(m@),
                None => None,
            },
        }
    }
}

impl Clone for ServiceResource {
    fn clone(&self) -> (r: Self)
        ensures
            r@ == self@,
    {
        ServiceResource {
            name: self.name.clone(),
            resource_type: self.resource_type,
            metadata: match &self.metadata {
                Some(m) => Some(m.clone()),
                None => None,
            },
        }
    }
}

/// How a failed task is retried. The backoff multiplier is kept in
/// thousandths: 2000 stands for a factor of 2.
#[derive(Debug, Clone, Copy, PartialEq, Eq, Structural)]
pub struct RetryPolicy {
    pub max_attempts: u32,
    pub initial_interval: u64,
    pub backoff_multiplier_milli: u32,
}

impl RetryPolicy {
    /// Three attempts, one second apart at first, doubling each time.
    pub fn default_policy() -> (r: RetryPolicy)
        ensures
            r.max_attempts == 3,
            r.initial_interval == 1000,
            r.backoff_multiplier_milli == 2000,
    {
        RetryPolicy { max_attempts: 3, initial_interval: 1000, backoff_multiplier_milli: 2000 }
    }
}

/// The mathematical value of a task.
pub struct TaskModel {
    pub task_id: Seq<char>,
    pub workflow_id: Seq<char>,
    pub step_name: Seq<char>,
    pub target_service: Option<Seq<char>>,
    pub target_resource: Option<Seq<char>>,
    pub resource_type: ResourceType,
    pub input: Seq<u8>,
    pub retry: Option<RetryPolicy>,
    pub workflow_type: Seq<char>,
}

/// A step handed to a worker.
#[derive(Debug)]
pub struct Task {
    pub task_id: String,
    pub workflow_id: String,
    pub step_name: String,
    pub target_service: Option<String>,
    pub target_resource: Option<String>,
    pub resource_type: ResourceType,
    pub input: Vec<u8>,
    pub retry: Option<RetryPolicy>,
    pub workflow_type: String,
}

impl View for Task {
    type V = TaskModel;

    open spec fn view(&self) -> TaskModel {
        TaskModel {
            task_id: self.task_id@,
            workflow_id: self.workflow_id@,
            step_name: self.step_name@,
            target_service: opt_str_view(self.target_service),
            target_resource: opt_str_view(self.target_resource),
            resource_type: self.resource_type,
            input: self.input@,
            retry: self.retry,
            workflow_type: self.workflow_type@,
        }
    }
}

impl Clone for Task {
    fn clone(&self) -> (r: Self)
        ensures
            r@ == self@,
    {
        Task {
            task_id: self.task_id.clone(),
            workflow_id: self.workflow_id.clone(),
            step_name: self.step_name.clone(),
            target_service: copy_opt_string(&self.target_service),
            target_resource: copy_opt_string(&self.target_resource),
            resource_type: self.resource_type,
            input: crate::state_machine::copy_bytes(&self.input),
            retry: self.retry,
            workflow_type: self.workflow_type.clone(),
        }
    }
}

/// The id of the task that runs `step` of workflow `workflow_id`.
pub open spec fn task_id_of(workflow_id: Seq<char>, step: Seq<char>) -> Seq<char> {
    workflow_id + seq!['-'] + step
}

/// Builds `<workflow_id>-<step_name>`.
pub fn make_task_id(workflow_id: &str, step_name: &str) -> (r: String)
    ensures
        r@ == task_id_of(workflow_id@, step_name@),
{
    let mut r = String::new();
    append_str(&mut r, workflow_id);
    append_str(&mut r, "-");
    append_str(&mut r, step_name);
    proof {
        reveal_strlit("-");
        assert(r@ =~= task_id_of(workflow_id@, step_name@));
    }
    r
}

/// Splits a task id at its last `-` into workflow id and step name; an
/// invalid-argument error where it holds no `-`.
pub fn parse_task_id(task_id: &str) -> (r: Result<(String, String), KernelError>)
    ensures
        r is Err <==> !task_id@.contains('-'),
        r matches Err(e) ==> e == KernelError::InvalidArgument,
        r matches Ok((w, s)) ==> task_id@ == task_id_of(w@, s@) && !s@.contains('-'),
{
    let cs = chars_of(task_id);
    let mut i: usize = cs.len();
    while i > 0
        invariant
            i <= cs@.len(),
            cs@ == task_id@,
            forall|k: int| i <= k < cs@.len() ==> cs@[k] != '-',
        decreases i,
    {
        if cs[i - 1] == '-' {
            let w = string_of_range(&cs, 0, i - 1);
            let s = string_of_range(&cs, i, cs.len());
            proof {
                assert(task_id@ =~= task_id_of(w@, s@));
                assert forall|k: int| 0 <= k < s@.len() implies s@[k] != '-' by {
                    assert(s@[k] == cs@[i + k]);
                }
            }
            return Ok((w, s));
        }
        i = i - 1;
    }
    proof {
        assert forall|k: int| 0 <= k < task_id@.len() implies task_id@[k] != '-' by {}
    }
    Err(KernelError::InvalidArgument)
}

/// A task id holds a single split into a workflow id and a step name without `-`.
proof fn lemma_task_id_split_unique(w1: Seq<char>, s1: Seq<char>, w2: Seq<char>, s2: Seq<char>)
    requires
        task_id_of(w1, s1) == task_id_of(w2, s2),
        !s1.contains('-'),
        !s2.contains('-'),
    ensures
        w1 == w2,
        s1 == s2,
{
    let t = task_id_of(w1, s1);
    let n1 = w1.len() as int;
    let n2 = w2.len() as int;
    assert(t == task_id_of(w2, s2));
    assert(t.len() == n1 + 1 + s1.len());
    assert(t[n1] == '-');
    assert(t[n2] == '-');
    if n1 < n2 {
        assert(t[n2] == s1[n2 - n1 - 1]);
        assert(s1.contains('-'));
    } else if n2 < n1 {
        assert(t[n1] == s2[n1 - n2 - 1]);
        assert(s2.contains('-'));
    } else {
        assert(w1 =~= t.subrange(0, n1));
        assert(w2 =~= t.subrange(0, n2));
        assert(s1 =~= t.subrange(n1 + 1, t.len() as int));
        assert(s2 =~= t.subrange(n2 + 1, t.len() as int));
    }
}

/// Parsing the id built from a workflow id and a step name without `-`
/// gives back that workflow id and that step name.
pub proof fn lemma_parse_task_id_round_trip(
    workflow_id: Seq<char>,
    step: Seq<char>,
    w: Seq<char>,
    s: Seq<char>,
)
    requires
        !step.contains('-'),
        task_id_of(workflow_id, step) == task_id_of(w, s),
        !s.contains('-'),
    ensures
        w == workflow_id,
        s == step,
{
    lemma_task_id_split_unique(workflow_id, step, w, s);
}

} // verus!
