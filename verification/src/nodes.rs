//! Graph nodes: the pipeline root and end, tasks, branches and one-of joins.

use crate::schemas::{
    Artifact, Cmd, ExecMode, JsonValue, Kwarg, Parent, ParentKind, Scope, Script, SlurmOverride,
};
use crate::status::{Completed, Status};
use vstd::prelude::*;

verus! {

/// Access to the uids of a node's children.
pub trait Children {
    fn children(&self) -> &[usize];
}

/// Access to the uids of a node's parents.
pub trait Parents {
    fn parents(&self) -> Vec<usize>;
}

/// The status a node shows to a child that depends on it through `kind`.
pub trait ProvideStatus {
    fn provide_status<'b>(&self, status: &'b Status, kind: &ParentKind) -> &'b Status;
}

/// A user task.
#[derive(Clone, Debug, PartialEq)]
pub struct Task {
    /// Node unique id.
    pub uid: usize,
    /// Node parents.
    pub parents: Vec<Parent>,
    /// Task function name.
    pub fn_name: String,
    /// Task name. By default it's equal to the function name.
    pub name: String,
    /// Pipeline name.
    pub pipeline_name: String,
    /// Caching.
    pub cache: bool,
    /// Local or global task.
    pub scope: Scope,
    /// Number of cached runs kept.
    pub cache_size: usize,
    /// Input keys ignored when comparing with the cache.
    pub cache_ignore: Vec<String>,
    /// Execution mode.
    pub mode: ExecMode,
    /// Command used.
    pub cmd: Cmd,
    /// Number of retries.
    pub retries: usize,
    /// Script.
    pub script: Script,
    /// Environment variables to be set.
    pub envs: Vec<(String, JsonValue)>,
    /// Slurm override.
    pub slurm: SlurmOverride,
    /// Static input kwargs.
    pub kwargs: Vec<Kwarg>,
    /// Task tags.
    pub tags: Vec<String>,
    /// Output artifacts.
    pub artifacts: Vec<Artifact>,
    /// Children uids.
    pub children: Vec<usize>,
    pub debug: bool,
}

/// Pipeline root.
#[derive(Clone, Debug, PartialEq)]
pub struct Root {
    pub uid: usize,
    pub pipeline_name: String,
    pub parents: Vec<Parent>,
    pub children: Vec<usize>,
}

/// Pipeline end.
#[derive(Clone, Debug, PartialEq)]
pub struct End {
    pub uid: usize,
    pub pipeline_name: String,
    pub parents: Vec<Parent>,
    pub children: Vec<usize>,
    pub artifacts: Vec<Artifact>,
}

/// Branch on the Boolean output of a parent.
#[derive(Clone, Debug, PartialEq)]
pub struct Branch {
    pub uid: usize,
    pub pipeline_name: String,
    pub parents: Vec<Parent>,
    pub children: Vec<usize>,
    pub artifacts: Vec<Artifact>,
}

/// Join that takes the data of the first parent that completed.
#[derive(Clone, Debug, PartialEq)]
pub struct OneOf {
    pub uid: usize,
    pub pipeline_name: String,
    pub parents: Vec<Parent>,
    pub children: Vec<usize>,
    pub artifacts: Vec<Artifact>,
}

/// Graph node.
#[derive(Clone, Debug, PartialEq)]
pub enum Node {
    Root(Root),
    End(End),
    Task(Task),
    Branch(Branch),
    OneOf(OneOf),
}

/// Uid of a node.
pub open spec fn node_uid(n: Node) -> usize {
    match n {
        Node::Root(x) => x.uid,
        Node::End(x) => x.uid,
        Node::Task(x) => x.uid,
        Node::Branch(x) => x.uid,
        Node::OneOf(x) => x.uid,
    }
}

/// Parents of a node.
pub open spec fn node_parents(n: Node) -> Seq<Parent> {
    match n {
        Node::Root(x) => x.parents@,
        Node::End(x) => x.parents@,
        Node::Task(x) => x.parents@,
        Node::Branch(x) => x.parents@,
        Node::OneOf(x) => x.parents@,
    }
}

/// Children of a node.
pub open spec fn node_children(n: Node) -> Seq<usize> {
    match n {
        Node::Root(x) => x.children@,
        Node::End(x) => x.children@,
        Node::Task(x) => x.children@,
        Node::Branch(x) => x.children@,
        Node::OneOf(x) => x.children@,
    }
}

/// Uids of a parent list.
pub open spec fn parent_uids(p: Seq<Parent>) -> Seq<usize> {
    p.map_values(|x: Parent| x.uid)
}

/// The status that a parent with status `status` shows to a child linked
/// by `kind`: a completed branch shows `Skipped` to the children of the
/// branch that was not taken; every other node shows its own status.
pub open spec fn provided_status(n: Node, status: Status, kind: ParentKind) -> Status {
    match n {
        Node::Branch(_) => branch_provided_status(status, kind),
        _ => status,
    }
}

/// What a branch shows to a child.
pub open spec fn branch_provided_status(status: Status, kind: ParentKind) -> Status {
    match (status, kind) {
        (Status::Completed(Completed::Branch(selected)), ParentKind::Branch { branch }) => {
            if branch != selected {
                Status::Skipped
            } else {
                status
            }
        },
        _ => status,
    }
}

/// `a` and `b` are the same node but for their children.
pub open spec fn same_but_children(a: Node, b: Node) -> bool {
    match (a, b) {
        (Node::Root(x), Node::Root(y)) => x.uid == y.uid && x.pipeline_name == y.pipeline_name
            && x.parents == y.parents,
        (Node::End(x), Node::End(y)) => x.uid == y.uid && x.pipeline_name == y.pipeline_name
            && x.parents == y.parents && x.artifacts == y.artifacts,
        (Node::Branch(x), Node::Branch(y)) => x.uid == y.uid && x.pipeline_name == y.pipeline_name
            && x.parents == y.parents && x.artifacts == y.artifacts,
        (Node::OneOf(x), Node::OneOf(y)) => x.uid == y.uid && x.pipeline_name == y.pipeline_name
            && x.parents == y.parents && x.artifacts == y.artifacts,
        (Node::Task(x), Node::Task(y)) => x == Task { children: x.children, ..y },
        _ => false,
    }
}

impl Node {
    /// The node's unique id.
    pub fn get_uid(&self) -> (r: usize)
        ensures
            r == node_uid(*self),
    {
        match self {
            Node::Root(n) => n.uid,
            Node::End(n) => n.uid,
            Node::OneOf(n) => n.uid,
            Node::Task(n) => n.uid,
            Node::Branch(n) => n.uid,
        }
    }

    /// Replace the node's children.
    pub fn set_children(&mut self, children: Vec<usize>)
        ensures
            same_but_children(*old(self), *final(self)),
            node_children(*final(self)) == children@,
    {
        match self {
            Node::Root(n) => n.children = children,
            Node::End(n) => n.children = children,
            Node::OneOf(n) => n.children = children,
            Node::Task(n) => n.children = children,
            Node::Branch(n) => n.children = children,
        }
    }
}

fn parent_uid_list(parents: &Vec<Parent>) -> (r: Vec<usize>)
    ensures
        r@ == parent_uids(parents@),
{
    let mut r: Vec<usize> = Vec::new();
    let mut i: usize = 0;
    while i < parents.len()
        invariant
            0 <= i <= parents@.len(),
            r@ == parent_uids(parents@.take(i as int)),
        decreases parents@.len() - i,
    {
        r.push(parents[i].uid);
        assert(parents@.take(i + 1) =~= parents@.take(i as int).push(parents@[i as int]));
        assert(r@ =~= parent_uids(parents@.take(i + 1)));
        i = i + 1;
    }
    assert(parents@.take(parents@.len() as int) =~= parents@);
    r
}

impl Children for Task {
    fn children(&self) -> (r: &[usize])
        ensures
            r@ == self.children@,
    {
        self.children.as_slice()
    }
}

impl Children for Root {
    fn children(&self) -> (r: &[usize])
        ensures
            r@ == self.children@,
    {
        self.children.as_slice()
    }
}

impl Children for End {
    fn children(&self) -> (r: &[usize])
        ensures
            r@ == self.children@,
    {
        self.children.as_slice()
    }
}

impl Children for Branch {
    fn children(&self) -> (r: &[usize])
        ensures
            r@ == self.children@,
    {
        self.children.as_slice()
    }
}

impl Children for OneOf {
    fn children(&self) -> (r: &[usize])
        ensures
            r@ == self.children@,
    {
        self.children.as_slice()
    }
}

impl Children for Node {
    fn children(&self) -> (r: &[usize])
        ensures
            r@ == node_children(*self),
    {
        match self {
            Node::Root(n) => n.children(),
            Node::End(n) => n.children(),
            Node::OneOf(n) => n.children(),
            Node::Task(n) => n.children(),
            Node::Branch(n) => n.children(),
        }
    }
}

impl Parents for Task {
    fn parents(&self) -> (r: Vec<usize>)
        ensures
            r@ == parent_uids(self.parents@),
    {
        parent_uid_list(&self.parents)
    }
}

impl Parents for Root {
    fn parents(&self) -> (r: Vec<usize>)
        ensures
            r@ == parent_uids(self.parents@),
    {
        parent_uid_list(&self.parents)
    }
}

impl Parents for End {
    fn parents(&self) -> (r: Vec<usize>)
        ensures
            r@ == parent_uids(self.parents@),
    {
        parent_uid_list(&self.parents)
    }
}

impl Parents for Branch {
    fn parents(&self) -> (r: Vec<usize>)
        ensures
            r@ == parent_uids(self.parents@),
    {
        parent_uid_list(&self.parents)
    }
}

impl Parents for OneOf {
    fn parents(&self) -> (r: Vec<usize>)
        ensures
            r@ == parent_uids(self.parents@),
    {
        parent_uid_list(&self.parents)
    }
}

impl Parents for Node {
    fn parents(&self) -> (r: Vec<usize>)
        ensures
            r@ == parent_uids(node_parents(*self)),
    {
        match self {
            Node::Root(n) => n.parents(),
            Node::End(n) => n.parents(),
            Node::OneOf(n) => n.parents(),
            Node::Task(n) => n.parents(),
            Node::Branch(n) => n.parents(),
        }
    }
}

impl ProvideStatus for Task {
    fn provide_status<'b>(&self, status: &'b Status, _kind: &ParentKind) -> (r: &'b Status)
        ensures
            *r == *status,
    {
        status
    }
}

impl ProvideStatus for Root {
    fn provide_status<'b>(&self, status: &'b Status, _kind: &ParentKind) -> (r: &'b Status)
        ensures
            *r == *status,
    {
        status
    }
}

impl ProvideStatus for End {
    fn provide_status<'b>(&self, status: &'b Status, _kind: &ParentKind) -> (r: &'b Status)
        ensures
            *r == *status,
    {
        status
    }
}

impl ProvideStatus for OneOf {
    fn provide_status<'b>(&self, status: &'b Status, _kind: &ParentKind) -> (r: &'b Status)
        ensures
            *r == *status,
    {
        status
    }
}

impl ProvideStatus for Branch {
    fn provide_status<'b>(&self, status: &'b Status, kind: &ParentKind) -> (r: &'b Status)
        ensures
            *r == branch_provided_status(*status, *kind),
    {
        if let Status::Completed(Completed::Branch(selected_branch)) = status {
            if let ParentKind::Branch { branch } = kind {
                if *branch != *selected_branch {
                    return &Status::Skipped;
                }
            }
        }
        status
    }
}

impl ProvideStatus for Node {
    fn provide_status<'b>(&self, status: &'b Status, kind: &ParentKind) -> (r: &'b Status)
        ensures
            *r == provided_status(*self, *status, *kind),
    {
        match self {
            Node::Root(n) => n.provide_status(status, kind),
            Node::End(n) => n.provide_status(status, kind),
            Node::OneOf(n) => n.provide_status(status, kind),
            Node::Task(n) => n.provide_status(status, kind),
            Node::Branch(n) => n.provide_status(status, kind),
        }
    }
}

} // verus!
