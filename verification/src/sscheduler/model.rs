//! Node model of the string-keyed scheduler.

use crate::schemas::JsonValue;
use vstd::prelude::*;

verus! {

/// Task metadata as written in the working directory.
#[derive(Clone, Debug, PartialEq)]
pub struct TaskMeta {
    /// Name of the task function. Used for caching.
    pub fname: String,
}

/// Artifacts.
#[derive(Clone, Debug, PartialEq)]
pub struct Artifact {
    /// Artifact name.
    pub name: String,
    /// Artifact path.
    pub path: String,
}

/// Task output.
#[derive(Clone, Debug, PartialEq)]
pub struct TaskOutput {
    /// Output value.
    pub output: JsonValue,
    /// Output artifacts.
    pub artifacts: Vec<Artifact>,
}

/// Possible successful statuses.
#[derive(Clone, Debug, PartialEq)]
pub enum NodeResult {
    /// Node completed, no special info carried.
    Node,
    /// Cached task.
    Cached,
    /// Completed task. It carries the successful job id.
    Task(String),
    /// Result of a branch. It carries the selected branch.
    If(bool),
    /// One-of result. It carries the uid of the selected node.
    OneOf(String),
}

/// Possible failures.
#[derive(Clone, Debug, PartialEq)]
pub enum NodeFailure {
    /// Generic node failure.
    Node,
    /// Failed task. It carries the failed job id.
    Task(String),
}

/// Node statuses.
#[derive(Clone, Debug, PartialEq)]
pub enum JobStatus {
    /// Node not submitted yet.
    NotSubmitted,
    /// Node ready for submission.
    ReadyForSubmission,
    /// Task is running (carries the Slurm job id).
    Running(String),
    /// Node completed.
    Completed(NodeResult),
    /// Node skipped (e.g., because of a branch).
    Skipped,
    /// Node execution failed.
    Failed(NodeFailure),
}

/// Text shown for a completion.
pub open spec fn node_result_text(r: NodeResult) -> Seq<char> {
    match r {
        NodeResult::Node => "Completed"@,
        NodeResult::If(b) => "Completed ("@ + (if b {
            "true"@
        } else {
            "false"@
        }) + ")"@,
        NodeResult::OneOf(uid) => "Completed ("@ + uid@ + ")"@,
        NodeResult::Task(id) => "Completed ("@ + id@ + ")"@,
        NodeResult::Cached => "Completed (Cached)"@,
    }
}

/// Text shown for a failure.
pub open spec fn node_failure_text(f: NodeFailure) -> Seq<char> {
    match f {
        NodeFailure::Node => "Failed"@,
        NodeFailure::Task(id) => "Failed ("@ + id@ + ")"@,
    }
}

/// Text shown for a status in the log table.
pub open spec fn job_status_text(s: JobStatus) -> Seq<char> {
    match s {
        JobStatus::NotSubmitted => "Not Submitted"@,
        JobStatus::ReadyForSubmission => "Ready for Submission"@,
        JobStatus::Running(id) => "Running ("@ + id@ + ")"@,
        JobStatus::Completed(r) => node_result_text(r),
        JobStatus::Skipped => "Skipped"@,
        JobStatus::Failed(f) => node_failure_text(f),
    }
}

fn wrapped(head: &str, inner: &str) -> (r: String)
    ensures
        r@ == head@ + inner@ + ")"@,
{
    let mut r = String::from_str(head);
    r.append(inner);
    r.append(")");
    r
}

impl NodeResult {
    /// A copy that verified code can rely on.
    pub fn copied(&self) -> (r: Self)
        ensures
            r == *self,
    {
        match self {
            NodeResult::Node => NodeResult::Node,
            NodeResult::Cached => NodeResult::Cached,
            NodeResult::Task(s) => NodeResult::Task(s.clone()),
            NodeResult::If(b) => NodeResult::If(*b),
            NodeResult::OneOf(s) => NodeResult::OneOf(s.clone()),
        }
    }

    /// Text shown for the completion.
    pub fn display_string(&self) -> (s: String)
        ensures
            s@ == node_result_text(*self),
    {
        match self {
            NodeResult::Node => String::from_str("Completed"),
            NodeResult::If(b) => if *b {
                wrapped("Completed (", "true")
            } else {
                wrapped("Completed (", "false")
            },
            NodeResult::OneOf(uid) => wrapped("Completed (", uid.as_str()),
            NodeResult::Task(id) => wrapped("Completed (", id.as_str()),
            NodeResult::Cached => String::from_str("Completed (Cached)"),
        }
    }
}

impl NodeFailure {
    /// A copy that verified code can rely on.
    pub fn copied(&self) -> (r: Self)
        ensures
            r == *self,
    {
        match self {
            NodeFailure::Node => NodeFailure::Node,
            NodeFailure::Task(s) => NodeFailure::Task(s.clone()),
        }
    }

    /// Text shown for the failure.
    pub fn display_string(&self) -> (s: String)
        ensures
            s@ == node_failure_text(*self),
    {
        match self {
            NodeFailure::Node => String::from_str("Failed"),
            NodeFailure::Task(id) => wrapped("Failed (", id.as_str()),
        }
    }
}

impl JobStatus {
    /// All statuses start as not submitted.
    pub fn initial() -> (r: Self)
        ensures
            r == JobStatus::NotSubmitted,
    {
        JobStatus::NotSubmitted
    }

    /// A copy that verified code can rely on.
    pub fn copied(&self) -> (r: Self)
        ensures
            r == *self,
    {
        match self {
            JobStatus::NotSubmitted => JobStatus::NotSubmitted,
            JobStatus::ReadyForSubmission => JobStatus::ReadyForSubmission,
            JobStatus::Running(s) => JobStatus::Running(s.clone()),
            JobStatus::Completed(r) => JobStatus::Completed(r.copied()),
            JobStatus::Skipped => JobStatus::Skipped,
            JobStatus::Failed(f) => JobStatus::Failed(f.copied()),
        }
    }

    /// Text shown for the status in the log table.
    pub fn display_string(&self) -> (s: String)
        ensures
            s@ == job_status_text(*self),
    {
        match self {
            JobStatus::NotSubmitted => String::from_str("Not Submitted"),
            JobStatus::ReadyForSubmission => String::from_str("Ready for Submission"),
            JobStatus::Running(id) => wrapped("Running (", id.as_str()),
            JobStatus::Completed(r) => r.display_string(),
            JobStatus::Skipped => String::from_str("Skipped"),
            JobStatus::Failed(f) => f.display_string(),
        }
    }
}

/// Tasks start with no try used.
pub fn initial_try_num() -> (r: u32)
    ensures
        r == 0,
{
    0
}

/// Parent types.
#[derive(Clone, Debug, PartialEq)]
pub enum ParentType {
    /// No data exchange, the dependence is only logical.
    Logical,
    /// Node takes a parent artifact as input.
    Artifact {
        /// Key in the task function signature.
        key: String,
        /// Artifact name.
        name: String,
        /// Artifact path.
        path: String,
    },
    /// Node takes the parent output as input.
    Output { key: String },
    /// Branch dependence.
    Branch { branch: bool },
}

/// Node parent.
#[derive(Clone, Debug, PartialEq)]
pub struct Parent {
    /// Parent uid.
    pub uid: String,
    /// Relationship.
    pub parent_type: ParentType,
}

/// Task static input keyword argument.
#[derive(Clone, Debug, PartialEq)]
pub struct InputKwarg {
    /// Input key in the function signature.
    pub key: String,
    /// Static input value.
    pub value: JsonValue,
}

/// Task execution mode.
#[derive(Clone, Copy, Debug, PartialEq, Eq)]
pub enum ExecMode {
    /// Wrap an existing task.
    Wrap,
    /// External script.
    Ext,
}

/// Command used to launch a task.
#[derive(Clone, Copy, Debug, PartialEq, Eq)]
pub enum Cmd {
    /// Slurm.
    Sbatch,
    /// Local execution.
    Bash,
}

impl Cmd {
    /// The program that runs the task.
    pub fn as_str(&self) -> (s: &'static str)
        ensures
            s@ == crate::schemas::cmd_name(match self {
                Cmd::Sbatch => crate::schemas::Cmd::Sbatch,
                Cmd::Bash => crate::schemas::Cmd::Bash,
            }),
    {
        proof {
            reveal_strlit("sbatch");
            reveal_strlit("bash");
        }
        match self {
            Cmd::Sbatch => "sbatch",
            Cmd::Bash => "bash",
        }
    }
}

/// User task.
#[derive(Clone, Debug, PartialEq)]
pub struct Task {
    /// Task function name.
    pub fname: String,
    /// Task name. By default it's equal to the function name.
    pub name: String,
    /// Caching.
    pub caching: bool,
    /// Execution mode.
    pub mode: ExecMode,
    /// Command used.
    pub cmd: Cmd,
    /// Try number.
    pub try_num: u32,
    /// Number of retries.
    pub retries: u32,
    /// Slurm sbatch script.
    pub launch_script: String,
    /// Static input kwargs.
    pub input_kwargs: Vec<InputKwarg>,
}

/// Two tasks hold the same values (their keyword arguments as lists).
pub open spec fn same_task(a: Task, b: Task) -> bool {
    &&& a.fname == b.fname
    &&& a.name == b.name
    &&& a.caching == b.caching
    &&& a.mode == b.mode
    &&& a.cmd == b.cmd
    &&& a.try_num == b.try_num
    &&& a.retries == b.retries
    &&& a.launch_script == b.launch_script
    &&& a.input_kwargs@ == b.input_kwargs@
}

impl Task {
    /// A copy that verified code can rely on (see `same_task`).
    pub fn copied(&self) -> (r: Self)
        ensures
            same_task(r, *self),
    {
        let mut kwargs: Vec<InputKwarg> = Vec::new();
        let mut i: usize = 0;
        while i < self.input_kwargs.len()
            invariant
                i <= self.input_kwargs@.len(),
                kwargs@ == self.input_kwargs@.take(i as int),
            decreases self.input_kwargs@.len() - i,
        {
            let k = &self.input_kwargs[i];
            kwargs.push(InputKwarg { key: k.key.clone(), value: k.value.copied() });
            assert(kwargs@ =~= self.input_kwargs@.take(i + 1));
            i = i + 1;
        }
        assert(self.input_kwargs@.take(self.input_kwargs@.len() as int) =~= self.input_kwargs@);
        let r = Task {
            fname: self.fname.clone(),
            name: self.name.clone(),
            caching: self.caching,
            mode: self.mode,
            cmd: self.cmd,
            try_num: self.try_num,
            retries: self.retries,
            launch_script: self.launch_script.clone(),
            input_kwargs: kwargs,
        };
        r
    }
}

/// Node types.
#[derive(Clone, Debug, PartialEq)]
pub enum NodeBehavior {
    /// Pipeline root.
    RootNode,
    /// Pipeline end.
    EndNode,
    /// Branch node.
    IfNode,
    /// One-of node.
    OneOfNode,
    /// User-defined task.
    TaskNode(Task),
}

/// Graph node.
#[derive(Clone, Debug, PartialEq)]
pub struct Node {
    /// Node unique id.
    pub uid: String,
    /// Output artifacts.
    pub output_artifacts: Vec<Artifact>,
    /// Node type.
    pub behavior: NodeBehavior,
    /// Node status.
    pub status: JobStatus,
    /// Node parents.
    pub parents: Vec<Parent>,
    /// Children uids.
    pub children: Vec<String>,
}

/// The status a node shows a child linked to it by `ptype`: a branch that
/// chose the other side shows it as skipped; any other node shows its own
/// status.
pub open spec fn status_for_child(n: Node, ptype: ParentType) -> JobStatus {
    match (n.behavior, ptype, n.status) {
        (
            NodeBehavior::IfNode,
            ParentType::Branch { branch: child_b },
            JobStatus::Completed(NodeResult::If(b)),
        ) => if b != child_b {
            JobStatus::Skipped
        } else {
            n.status
        },
        _ => n.status,
    }
}

impl Node {
    /// The status this node shows a child (see `status_for_child`).
    pub fn get_status_for_child(&self, ptype: &ParentType) -> (r: JobStatus)
        ensures
            r == status_for_child(*self, *ptype),
    {
        if let NodeBehavior::IfNode = self.behavior {
            if let ParentType::Branch { branch: child_b } = ptype {
                if let JobStatus::Completed(NodeResult::If(branch)) = self.status {
                    if branch != *child_b {
                        return JobStatus::Skipped;
                    }
                }
            }
        }
        self.status.copied()
    }
}

/// Pipeline metadata.
#[derive(Clone, Debug, PartialEq)]
pub struct DAGMetadata {
    /// Pipeline name.
    pub name: String,
    /// Pipeline creation datetime.
    pub creation_dt: String,
}

/// Pipeline.
#[derive(Clone, Debug, PartialEq)]
pub struct DAG {
    /// Pipeline metadata.
    pub meta: DAGMetadata,
    /// Pipeline nodes.
    pub nodes: Vec<Node>,
}

/// Output of a condition task: tasks used as conditions return a Boolean,
/// which selects the side of a branch.
#[derive(Clone, Copy, Debug, PartialEq, Eq)]
pub struct BooleanOutput {
    /// Task output.
    pub output: bool,
}

} // verus!
