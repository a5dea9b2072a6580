//! Plain data of a compiled pipeline: node parents, scripts, artifacts,
//! Slurm overrides and JSON values as the scheduler reads them.

use vstd::prelude::*;

verus! {

/// A JSON value as far as the scheduler looks into it: `null`, a
/// Boolean, a string, or any other value kept as its JSON text.
#[derive(Clone, Debug, PartialEq)]
pub enum JsonValue {
    Null,
    Bool(bool),
    Text(String),
    Json(String),
}

impl JsonValue {
    /// A copy that verified code can rely on.
    pub fn copied(&self) -> (r: Self)
        ensures
            r == *self,
    {
        match self {
            JsonValue::Null => JsonValue::Null,
            JsonValue::Bool(b) => JsonValue::Bool(*b),
            JsonValue::Text(s) => JsonValue::Text(s.clone()),
            JsonValue::Json(s) => JsonValue::Json(s.clone()),
        }
    }
}

/// Pipeline metadata. `extra` and `kwargs` hold JSON text.
#[derive(Clone, Debug, PartialEq)]
pub struct DAGMeta {
    pub pipeline_name: String,
    pub hash: String,
    pub timestamp: String,
    pub extra: String,
    pub import_path: String,
    pub kwargs: String,
}

/// Task metadata as written in the task directory.
#[derive(Clone, Debug, PartialEq)]
pub struct TaskMeta {
    /// Task function name.
    pub fn_name: String,
    /// Task name. By default it's equal to the function name.
    pub name: String,
}

/// Task output.
#[derive(Clone, Debug, PartialEq)]
pub struct TaskOutput {
    /// Output value.
    pub output: JsonValue,
    /// Output artifacts.
    pub artifacts: Vec<Artifact>,
}

/// Task execution mode.
#[derive(Clone, Copy, Debug, PartialEq, Eq)]
pub enum ExecMode {
    /// Wrap an existing task.
    Wrap,
    /// External script.
    Ext,
}

/// Task static input kwargs.
#[derive(Clone, Debug, PartialEq)]
pub struct Kwarg {
    /// Input key in the function signature.
    pub key: String,
    /// Static input value.
    pub value: JsonValue,
}

/// Command used to launch a task.
#[derive(Clone, Copy, Debug, PartialEq, Eq)]
pub enum Cmd {
    /// Slurm.
    Sbatch,
    /// Local execution.
    Bash,
}

/// Program name of a command.
pub open spec fn cmd_name(cmd: Cmd) -> Seq<char> {
    match cmd {
        Cmd::Sbatch => seq!['s', 'b', 'a', 't', 'c', 'h'],
        Cmd::Bash => seq!['b', 'a', 's', 'h'],
    }
}

impl Cmd {
    /// The program that runs the task.
    pub fn as_str(&self) -> (s: &'static str)
        ensures
            s@ == cmd_name(*self),
    {
        proof {
            reveal_strlit("sbatch");
            reveal_strlit("bash");
        }
        match self {
            Cmd::Sbatch => "sbatch",
            Cmd::Bash => "bash",
        }
    }
}

/// Cache scope of a task.
#[derive(Clone, Copy, Debug, PartialEq, Eq)]
pub enum Scope {
    /// Local task.
    Local,
    /// Global task.
    Global,
}

/// Inline script.
#[derive(Clone, Debug, PartialEq)]
pub struct ScriptContent {
    pub content: String,
}

/// Script given by path.
#[derive(Clone, Debug, PartialEq)]
pub struct ScriptPath {
    pub path: String,
}

/// Task script.
#[derive(Clone, Debug, PartialEq)]
pub enum Script {
    Script(ScriptContent),
    ScriptPath(ScriptPath),
}

/// Artifacts.
#[derive(Clone, Debug, PartialEq)]
pub struct Artifact {
    /// Artifact name.
    pub name: String,
    /// Artifact path.
    pub path: String,
}

/// Parent types.
#[derive(Clone, Debug, PartialEq)]
pub enum ParentKind {
    /// No data exchange, the dependence is only logical.
    Logical,
    /// Node takes a parent artifact as input.
    Artifact {
        /// Key in the task function signature.
        key: String,
        /// Artifact name.
        name: String,
        /// Artifact path.
        path: String,
    },
    /// Node takes the parent output as input.
    Output { key: String },
    /// Branch dependence.
    Branch { branch: bool },
}

/// Node parent.
#[derive(Clone, Debug, PartialEq)]
pub struct Parent {
    /// Parent UID.
    pub uid: usize,
    /// Relationship.
    pub kind: ParentKind,
}

/// Slurm options a task may override.
#[derive(Clone, Debug, PartialEq, Default)]
pub struct SlurmOverride {
    pub job_name: Option<String>,
    pub nodes: Option<usize>,
    pub partition: Option<String>,
    pub qos: Option<String>,
    pub gpus_per_node: Option<usize>,
    pub ntasks_per_node: Option<String>,
    pub output: Option<String>,
    pub error: Option<String>,
    pub account: Option<String>,
    pub cpus_per_task: Option<usize>,
    pub mem: Option<String>,
    pub time: Option<String>,
}

impl SlurmOverride {
    /// No option overridden.
    pub open spec fn is_empty(&self) -> bool {
        &&& self.job_name is None
        &&& self.nodes is None
        &&& self.partition is None
        &&& self.qos is None
        &&& self.gpus_per_node is None
        &&& self.ntasks_per_node is None
        &&& self.output is None
        &&& self.error is None
        &&& self.account is None
        &&& self.cpus_per_task is None
        &&& self.mem is None
        &&& self.time is None
    }

    /// An override that changes nothing.
    pub fn new() -> (r: Self)
        ensures
            r.is_empty(),
    {
        SlurmOverride {
            job_name: None,
            nodes: None,
            partition: None,
            qos: None,
            gpus_per_node: None,
            ntasks_per_node: None,
            output: None,
            error: None,
            account: None,
            cpus_per_task: None,
            mem: None,
            time: None,
        }
    }
}

} // verus!
