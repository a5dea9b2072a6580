//! Submission of the string-keyed scheduler: each ready node is run by
//! its kind, within the limit of concurrent tasks.

use crate::cache::{answered, copied_to};
use crate::schemas::JsonValue;
use crate::sscheduler::backend::{get_running_tasks, running_tasks};
use crate::sscheduler::caching::{cache_round_node, read_input_and_cache_tasks};
use crate::sscheduler::graph::node_index;
use crate::sscheduler::limiters::{held_back, limit_cached_tasks_same_name};
use crate::sscheduler::model::{
    same_task, status_for_child, JobStatus, Node, NodeBehavior, NodeFailure, NodeResult, Parent,
    Task, TaskOutput,
};
use crate::sscheduler::status_management::{find_node, find_updated, node_by_uid, parents_known, updated_status};
use crate::sscheduler::updates::nodemap_wf;
use vstd::prelude::*;

verus! {

/// The status parent `p` shows its child.
pub open spec fn shown_status(p: Parent, nodes: Seq<Node>) -> JobStatus {
    status_for_child(node_by_uid(nodes, p.uid@).unwrap(), p.parent_type)
}

/// The first parent that shows its child a completed status.
pub open spec fn completed_parent(parents: Seq<Parent>, nodes: Seq<Node>) -> Option<int>
    decreases parents.len(),
{
    if parents.len() == 0 {
        None
    } else {
        match completed_parent(parents.drop_last(), nodes) {
            Some(k) => Some(k),
            None => if shown_status(parents.last(), nodes) is Completed {
                Some(parents.len() - 1)
            } else {
                None
            },
        }
    }
}

/// Every ready branch or one-of node has a parent that shows it a
/// completed status, the one whose result it takes.
pub open spec fn choices_fed(nodes: Seq<Node>) -> bool {
    forall|i: int|
        0 <= i < nodes.len() && (#[trigger] nodes[i]).status is ReadyForSubmission && (
        nodes[i].behavior is IfNode || nodes[i].behavior is OneOfNode) ==> completed_parent(
            nodes[i].parents@,
            nodes,
        ) is Some
}

/// Every task can count one more try.
pub open spec fn tries_countable(nodes: Seq<Node>) -> bool {
    forall|i: int|
        0 <= i < nodes.len() ==> match (#[trigger] nodes[i]).behavior {
            NodeBehavior::TaskNode(t) => t.try_num < u32::MAX,
            _ => true,
        }
}

/// The position, among the parents of `node`, of the first that shows it
/// a completed status (see `completed_parent`).
pub fn find_completed_parent_uid(node: &Node, nodes: &[Node]) -> (r: Option<usize>)
    requires
        parents_known(node.parents@, nodes@),
    ensures
        match r {
            Some(k) => k < node.parents@.len() && completed_parent(node.parents@, nodes@) == Some(
                k as int,
            ),
            None => completed_parent(node.parents@, nodes@) is None,
        },
{
    let mut k: usize = 0;
    while k < node.parents.len()
        invariant
            k <= node.parents@.len(),
            parents_known(node.parents@, nodes@),
            completed_parent(node.parents@.take(k as int), nodes@) is None,
        decreases node.parents@.len() - k,
    {
        assert(node.parents@.take(k + 1).drop_last() =~= node.parents@.take(k as int));
        assert(node.parents@.take(k + 1).last() == node.parents@[k as int]);
        let p = &node.parents[k];
        assert(node_by_uid(nodes@, node.parents@[k as int].uid@) is Some);
        if let Some(j) = find_node(nodes, p.uid.as_str()) {
            if let JobStatus::Completed(_) = nodes[j].get_status_for_child(&p.parent_type) {
                proof {
                    lemma_completed_parent_prefix(node.parents@, nodes@, k as int + 1);
                }
                return Some(k);
            }
        }
        k = k + 1;
    }
    assert(node.parents@.take(node.parents@.len() as int) =~= node.parents@);
    None
}

proof fn lemma_completed_parent_prefix(parents: Seq<Parent>, nodes: Seq<Node>, n: int)
    requires
        0 <= n <= parents.len(),
        completed_parent(parents.take(n), nodes) is Some,
    ensures
        completed_parent(parents, nodes) == completed_parent(parents.take(n), nodes),
    decreases parents.len() - n,
{
    if n < parents.len() {
        assert(parents.take(n + 1).drop_last() =~= parents.take(n));
        lemma_completed_parent_prefix(parents, nodes, n + 1);
    } else {
        assert(parents.take(n) =~= parents);
    }
}

/// A parent that shows a completed status is found.
pub proof fn lemma_completed_parent_some(parents: Seq<Parent>, nodes: Seq<Node>, k: int)
    requires
        0 <= k < parents.len(),
        shown_status(parents[k], nodes) is Completed,
    ensures
        completed_parent(parents, nodes) matches Some(j) && 0 <= j <= k,
    decreases parents.len(),
{
    if k < parents.len() - 1 {
        assert(parents.drop_last()[k] == parents[k]);
        lemma_completed_parent_some(parents.drop_last(), nodes, k);
    } else {
        assert(parents.last() == parents[k]);
        lemma_completed_parent_range(parents.drop_last(), nodes);
    }
}

/// A found parent is a parent.
pub proof fn lemma_completed_parent_range(parents: Seq<Parent>, nodes: Seq<Node>)
    ensures
        completed_parent(parents, nodes) matches Some(j) ==> 0 <= j < parents.len() && shown_status(
            parents[j],
            nodes,
        ) is Completed,
    decreases parents.len(),
{
    if parents.len() > 0 {
        lemma_completed_parent_range(parents.drop_last(), nodes);
        if let Some(j) = completed_parent(parents.drop_last(), nodes) {
            assert(parents.drop_last()[j] == parents[j]);
        }
    }
}

/// The branch `node` takes: the Boolean that `read_choice` reads from the
/// output of its first completed parent.
pub fn submit_ifnode<B: Fn(String) -> Result<bool, String>>(
    node: &Node,
    nodes: &[Node],
    read_choice: &B,
) -> (r: Result<bool, String>)
    requires
        parents_known(node.parents@, nodes@),
        completed_parent(node.parents@, nodes@) is Some,
        forall|p: String| read_choice.requires((p,)),
    ensures
        answered(
            *read_choice,
            node.parents@[completed_parent(node.parents@, nodes@)->Some_0].uid@,
            r,
        ),
{
    let k = find_completed_parent_uid(node, nodes).unwrap();
    let u = node.parents[k].uid.clone();
    let ghost gu = u;
    let r = read_choice(u);
    assert(read_choice.ensures((gu,), r));
    r
}

/// Complete a one-of node with the data of its first completed parent,
/// copied by `copy_output`; its uid on success.
pub fn submit_oneofnode<C: Fn(String, String) -> Result<u64, String>>(
    node: &Node,
    nodes: &[Node],
    copy_output: &C,
) -> (r: Result<String, String>)
    requires
        parents_known(node.parents@, nodes@),
        completed_parent(node.parents@, nodes@) is Some,
        forall|a: String, b: String| copy_output.requires((a, b)),
    ensures
        ({
            let p = node.parents@[completed_parent(node.parents@, nodes@)->Some_0].uid@;
            exists|c: Result<u64, String>|
                #[trigger] copied_to(*copy_output, p, node.uid@, c) && match c {
                    Ok(_) => r matches Ok(u) && u@ == p,
                    Err(e) => r == Err::<String, String>(e),
                }
        }),
{
    let k = find_completed_parent_uid(node, nodes).unwrap();
    let src = node.parents[k].uid.clone();
    let dst = node.uid.clone();
    let ghost (gs, gd) = (src, dst);
    let c = copy_output(src, dst);
    assert(copy_output.ensures((gs, gd), c));
    assert(copied_to(*copy_output, gs@, node.uid@, c));
    match c {
        Ok(_) => Ok(node.parents[k].uid.clone()),
        Err(e) => Err(e),
    }
}

/// Runs ready nodes: `max_concurrency` tasks at most (0: no limit), of
/// which `nrunning` run.
pub struct Submitter {
    pub max_concurrency: usize,
    pub nrunning: usize,
}

/// `submit_job`, handed the uid `uid` and a copy of `task`, gave `res`.
pub open spec fn job_submitted<S: Fn(String, Task) -> Result<String, String>>(
    submit_job: S,
    uid: Seq<char>,
    task: Task,
    res: Result<String, String>,
) -> bool {
    exists|u: String, t: Task| u@ == uid && same_task(t, task) && #[trigger] submit_job.ensures((u, t), res)
}

/// One more running task, the count staying within `usize`.
pub open spec fn count_one_more(n: usize) -> usize {
    if n < usize::MAX {
        (n + 1) as usize
    } else {
        n
    }
}

/// Submitting the node `node` of `nodes` gave `r` and took the submitter
/// from `before` to `after`: the root and the end complete; a task waits
/// (not submitted) at the limit of running tasks, and otherwise runs with
/// the job id `submit_job` gives, or fails; a one-of node completes with
/// the data of its first completed parent, or fails; a branch completes
/// with the Boolean read from its first completed parent, or fails.
pub open spec fn node_submitted<
    S: Fn(String, Task) -> Result<String, String>,
    B: Fn(String) -> Result<bool, String>,
    C: Fn(String, String) -> Result<u64, String>,
>(
    before: Submitter,
    after: Submitter,
    node: Node,
    nodes: Seq<Node>,
    r: JobStatus,
    submit_job: S,
    read_choice: B,
    copy_output: C,
) -> bool {
    &&& after.max_concurrency == before.max_concurrency
    &&& match node.behavior {
        NodeBehavior::RootNode | NodeBehavior::EndNode => r == JobStatus::Completed(NodeResult::Node)
            && after == before,
        NodeBehavior::TaskNode(t) => if before.max_concurrency > 0 && before.nrunning
            >= before.max_concurrency {
            r == JobStatus::NotSubmitted && after == before
        } else {
            exists|res: Result<String, String>|
                #[trigger] job_submitted(submit_job, node.uid@, t, res) && match res {
                    Ok(id) => r == JobStatus::Running(id) && after.nrunning == count_one_more(
                        before.nrunning,
                    ),
                    Err(_) => r == JobStatus::Failed(NodeFailure::Node) && after == before,
                }
        },
        NodeBehavior::OneOfNode => {
            let p = node.parents@[completed_parent(node.parents@, nodes)->Some_0].uid@;
            &&& after == before
            &&& exists|c: Result<u64, String>|
                #[trigger] copied_to(copy_output, p, node.uid@, c) && match c {
                    Ok(_) => r matches JobStatus::Completed(NodeResult::OneOf(u)) && u@ == p,
                    Err(_) => r == JobStatus::Failed(NodeFailure::Node),
                }
        },
        NodeBehavior::IfNode => {
            let p = node.parents@[completed_parent(node.parents@, nodes)->Some_0].uid@;
            &&& after == before
            &&& exists|res: Result<bool, String>|
                #[trigger] answered(read_choice, p, res) && match res {
                    Ok(b) => r == JobStatus::Completed(NodeResult::If(b)),
                    Err(_) => r == JobStatus::Failed(NodeFailure::Node),
                }
        },
    }
}

impl Submitter {
    /// A submitter with nothing running.
    pub fn new(max_concurrency: usize) -> (r: Self)
        ensures
            r.max_concurrency == max_concurrency,
            r.nrunning == 0,
    {
        Submitter { max_concurrency, nrunning: 0 }
    }

    /// Count the running tasks.
    pub fn set_number_of_running_jobs(&mut self, nodes: &[Node])
        ensures
            final(self).max_concurrency == old(self).max_concurrency,
            final(self).nrunning == running_tasks(nodes@).len(),
    {
        let jobs = get_running_tasks(nodes);
        proof {
            assert(jobs@.len() == crate::sscheduler::backend::pairs_view(jobs@).len());
        }
        self.nrunning = jobs.len();
    }

    /// Run a task by `submit_job`; it runs with the job id given, or
    /// fails.
    pub fn submit_tasknode<S: Fn(String, Task) -> Result<String, String>>(
        &mut self,
        task: &Task,
        uid: &String,
        submit_job: &S,
    ) -> (r: JobStatus)
        requires
            forall|u: String, t: Task| submit_job.requires((u, t)),
        ensures
            final(self).max_concurrency == old(self).max_concurrency,
            exists|res: Result<String, String>|
                #[trigger] job_submitted(*submit_job, uid@, *task, res) && match res {
                    Ok(id) => r == JobStatus::Running(id) && final(self).nrunning == count_one_more(
                        old(self).nrunning,
                    ),
                    Err(_) => r == JobStatus::Failed(NodeFailure::Node) && *final(self) == *old(self),
                },
    {
        let u = uid.clone();
        let t = task.copied();
        let ghost (gu, gt) = (u, t);
        let res = submit_job(u, t);
        assert(submit_job.ensures((gu, gt), res));
        assert(job_submitted(*submit_job, uid@, *task, res));
        match res {
            Ok(job_id) => {
                if self.nrunning < usize::MAX {
                    self.nrunning = self.nrunning + 1;
                }
                JobStatus::Running(job_id)
            },
            Err(_) => JobStatus::Failed(NodeFailure::Node),
        }
    }

    /// Run the node at position `i` by its kind (see `node_submitted`).
    pub fn submit_node<
        S: Fn(String, Task) -> Result<String, String>,
        B: Fn(String) -> Result<bool, String>,
        C: Fn(String, String) -> Result<u64, String>,
    >(
        &mut self,
        i: usize,
        nodes: &[Node],
        submit_job: &S,
        read_choice: &B,
        copy_output: &C,
    ) -> (r: JobStatus)
        requires
            i < nodes@.len(),
            nodes@[i as int].behavior is IfNode || nodes@[i as int].behavior is OneOfNode
                ==> parents_known(nodes@[i as int].parents@, nodes@) && completed_parent(
                nodes@[i as int].parents@,
                nodes@,
            ) is Some,
            forall|u: String, t: Task| submit_job.requires((u, t)),
            forall|p: String| read_choice.requires((p,)),
            forall|a: String, b: String| copy_output.requires((a, b)),
        ensures
            node_submitted(
                *old(self),
                *final(self),
                nodes@[i as int],
                nodes@,
                r,
                *submit_job,
                *read_choice,
                *copy_output,
            ),
    {
        let node = &nodes[i];
        match &node.behavior {
            NodeBehavior::RootNode | NodeBehavior::EndNode => JobStatus::Completed(NodeResult::Node),
            NodeBehavior::TaskNode(task) => {
                if self.max_concurrency > 0 && self.nrunning >= self.max_concurrency {
                    return JobStatus::NotSubmitted;
                }
                self.submit_tasknode(task, &node.uid, submit_job)
            },
            NodeBehavior::OneOfNode => match submit_oneofnode(node, nodes, copy_output) {
                Ok(uid) => JobStatus::Completed(NodeResult::OneOf(uid)),
                Err(_) => JobStatus::Failed(NodeFailure::Node),
            },
            NodeBehavior::IfNode => match submit_ifnode(node, nodes, read_choice) {
                Err(_) => JobStatus::Failed(NodeFailure::Node),
                Ok(branch) => JobStatus::Completed(NodeResult::If(branch)),
            },
        }
    }
}

/// The positions of the ready nodes, in order.
pub open spec fn ready_positions(nodes: Seq<Node>) -> Seq<int>
    decreases nodes.len(),
{
    if nodes.len() == 0 {
        Seq::empty()
    } else if nodes.last().status is ReadyForSubmission {
        ready_positions(nodes.drop_last()).push(nodes.len() - 1)
    } else {
        ready_positions(nodes.drop_last())
    }
}

pub proof fn lemma_ready_positions_range(nodes: Seq<Node>)
    ensures
        forall|j: int|
            0 <= j < ready_positions(nodes).len() ==> 0 <= #[trigger] ready_positions(nodes)[j]
                < nodes.len() && nodes[ready_positions(nodes)[j]].status is ReadyForSubmission,
    decreases nodes.len(),
{
    if nodes.len() > 0 {
        lemma_ready_positions_range(nodes.drop_last());
        assert forall|j: int| 0 <= j < ready_positions(nodes.drop_last()).len() implies nodes.drop_last()[
            ready_positions(nodes.drop_last())[j]] == nodes[ready_positions(nodes.drop_last())[j]] by {
            assert(0 <= ready_positions(nodes.drop_last())[j] < nodes.drop_last().len());
        }
    }
}

/// The ready nodes of `nodes` were submitted in order, the submitter
/// going through `states`, each giving its uid and status in `r` (see
/// `node_submitted`).
pub open spec fn statuses_submitted<
    S: Fn(String, Task) -> Result<String, String>,
    B: Fn(String) -> Result<bool, String>,
    C: Fn(String, String) -> Result<u64, String>,
>(
    states: Seq<Submitter>,
    nodes: Seq<Node>,
    r: Seq<(String, JobStatus)>,
    submit_job: S,
    read_choice: B,
    copy_output: C,
) -> bool {
    let pos = ready_positions(nodes);
    &&& r.len() == pos.len()
    &&& states.len() == pos.len() + 1
    &&& forall|j: int|
        0 <= j < r.len() ==> (#[trigger] r[j]).0 == nodes[pos[j]].uid && node_submitted(
            states[j],
            states[j + 1],
            nodes[pos[j]],
            nodes,
            r[j].1,
            submit_job,
            read_choice,
            copy_output,
        )
}

impl Submitter {
    /// Submit every ready node, in order (see `statuses_submitted`).
    pub fn find_updated_statuses<
        S: Fn(String, Task) -> Result<String, String>,
        B: Fn(String) -> Result<bool, String>,
        C: Fn(String, String) -> Result<u64, String>,
    >(
        &mut self,
        nodes: &[Node],
        submit_job: &S,
        read_choice: &B,
        copy_output: &C,
    ) -> (r: Vec<(String, JobStatus)>)
        requires
            nodemap_wf(nodes@),
            choices_fed(nodes@),
            forall|u: String, t: Task| submit_job.requires((u, t)),
            forall|p: String| read_choice.requires((p,)),
            forall|a: String, b: String| copy_output.requires((a, b)),
        ensures
            exists|states: Seq<Submitter>|
                states[0] == *old(self) && states.last() == *final(self) && #[trigger] statuses_submitted(
                    states,
                    nodes@,
                    r@,
                    *submit_job,
                    *read_choice,
                    *copy_output,
                ),
    {
        let mut r: Vec<(String, JobStatus)> = Vec::new();
        let ghost mut states: Seq<Submitter> = seq![*self];
        let mut i: usize = 0;
        while i < nodes.len()
            invariant
                i <= nodes@.len(),
                nodemap_wf(nodes@),
                choices_fed(nodes@),
                forall|u: String, t: Task| submit_job.requires((u, t)),
                forall|p: String| read_choice.requires((p,)),
                forall|a: String, b: String| copy_output.requires((a, b)),
                states[0] == *old(self),
                states.last() == *self,
                r@.len() == ready_positions(nodes@.take(i as int)).len(),
                states.len() == r@.len() + 1,
                forall|j: int|
                    0 <= j < r@.len() ==> (#[trigger] r@[j]).0 == nodes@[ready_positions(
                        nodes@.take(i as int),
                    )[j]].uid && node_submitted(
                        states[j],
                        states[j + 1],
                        nodes@[ready_positions(nodes@.take(i as int))[j]],
                        nodes@,
                        r@[j].1,
                        *submit_job,
                        *read_choice,
                        *copy_output,
                    ),
            decreases nodes@.len() - i,
        {
            assert(nodes@.take(i + 1).drop_last() =~= nodes@.take(i as int));
            assert(nodes@.take(i + 1).last() == nodes@[i as int]);
            if let JobStatus::ReadyForSubmission = nodes[i].status {
                let ghost before = *self;
                assert(parents_known(nodes@[i as int].parents@, nodes@));
                let s = self.submit_node(i, nodes, submit_job, read_choice, copy_output);
                proof {
                    states = states.push(*self);
                }
                r.push((nodes[i].uid.clone(), s));
            }
            i = i + 1;
        }
        assert(nodes@.take(nodes@.len() as int) =~= nodes@);
        assert(statuses_submitted(states, nodes@, r@, *submit_job, *read_choice, *copy_output));
        r
    }
}

/// A task that runs or failed counts one more try.
pub open spec fn tried(n: Node) -> Node {
    match n.behavior {
        NodeBehavior::TaskNode(t) => if n.status is Running || n.status is Failed {
            Node {
                behavior: NodeBehavior::TaskNode(Task { try_num: (t.try_num + 1) as u32, ..t }),
                ..n
            }
        } else {
            n
        },
        _ => n,
    }
}

/// A node with the status last submitted for it, if any, and its try
/// counted (see `tried`).
pub open spec fn submitted_update(n: Node, updated: Seq<(String, JobStatus)>) -> Node {
    match updated_status(updated, n.uid@) {
        Some(s) => tried(Node { status: s, ..n }),
        None => n,
    }
}

/// Give each node the status submitted for it (see `submitted_update`).
pub fn update_status(nodes: &mut Vec<Node>, updated: &[(String, JobStatus)])
    requires
        tries_countable(old(nodes)@),
    ensures
        final(nodes)@ == old(nodes)@.map_values(|n: Node| submitted_update(n, updated@)),
{
    let ghost o = nodes@;
    let mut i: usize = 0;
    while i < nodes.len()
        invariant
            i <= nodes@.len(),
            nodes@.len() == o.len(),
            o == old(nodes)@,
            tries_countable(o),
            forall|k: int| i <= k < nodes@.len() ==> #[trigger] nodes@[k] == o[k],
            forall|k: int| 0 <= k < i ==> #[trigger] nodes@[k] == submitted_update(o[k], updated@),
        decreases nodes@.len() - i,
    {
        let mut node = nodes.remove(i);
        assert(node == o[i as int]);
        if let Some(j) = find_updated(updated, node.uid.as_str()) {
            node.status = updated[j].1.copied();
            let bump = match node.status {
                JobStatus::Running(_) | JobStatus::Failed(_) => true,
                _ => false,
            };
            if bump {
                if let NodeBehavior::TaskNode(t) = &mut node.behavior {
                    assert(t.try_num < u32::MAX);
                    t.try_num = t.try_num + 1;
                }
            }
        }
        nodes.insert(i, node);
        i = i + 1;
    }
    assert(nodes@ =~= o.map_values(|n: Node| submitted_update(n, updated@)));
}

/// `b` is `a` where only ready tasks may have a new status.
pub open spec fn ready_tasks_moved(a: Seq<Node>, b: Seq<Node>) -> bool {
    &&& b.len() == a.len()
    &&& forall|i: int|
        0 <= i < a.len() ==> #[trigger] b[i] == (Node { status: b[i].status, ..a[i] }) && (b[i] != a[i]
            ==> a[i].status is ReadyForSubmission && a[i].behavior is TaskNode)
}

proof fn lemma_node_by_uid_index(s: Seq<Node>, u: Seq<char>)
    ensures
        match node_index(s, u) {
            Some(j) => 0 <= j < s.len() && node_by_uid(s, u) == Some(s[j]),
            None => node_by_uid(s, u) is None,
        },
    decreases s.len(),
{
    if s.len() > 0 && s.last().uid@ != u {
        lemma_node_by_uid_index(s.drop_last(), u);
    }
}

proof fn lemma_node_index_same_uids(a: Seq<Node>, b: Seq<Node>, u: Seq<char>)
    requires
        a.len() == b.len(),
        forall|i: int| 0 <= i < a.len() ==> (#[trigger] a[i]).uid == b[i].uid,
    ensures
        node_index(a, u) == node_index(b, u),
    decreases a.len(),
{
    if a.len() > 0 {
        assert(a.last().uid == b.last().uid);
        lemma_node_index_same_uids(a.drop_last(), b.drop_last(), u);
    }
}

/// Moving the statuses of ready tasks keeps a node map well formed, keeps
/// the parents that ready branch and one-of nodes take their result from,
/// and keeps every try countable.
pub proof fn lemma_ready_tasks_moved_keeps(a: Seq<Node>, b: Seq<Node>)
    requires
        ready_tasks_moved(a, b),
        nodemap_wf(a),
        choices_fed(a),
        tries_countable(a),
    ensures
        nodemap_wf(b),
        choices_fed(b),
        tries_countable(b),
{
    assert forall|i: int| 0 <= i < a.len() implies (#[trigger] a[i]).uid == b[i].uid by {
        assert(b[i] == (Node { status: b[i].status, ..a[i] }));
    }
    assert forall|u: Seq<char>| #![trigger node_index(a, u)] node_index(a, u) == node_index(b, u) by {
        lemma_node_index_same_uids(a, b, u);
    }
    assert forall|i: int, j: int| 0 <= i < j < b.len() implies b[i].uid@ != b[j].uid@ by {
        assert(a[i].uid == b[i].uid);
        assert(a[j].uid == b[j].uid);
    }
    assert forall|i: int| 0 <= i < b.len() implies parents_known((#[trigger] b[i]).parents@, b) by {
        assert(b[i] == (Node { status: b[i].status, ..a[i] }));
        assert(parents_known(a[i].parents@, a));
        assert forall|k: int| 0 <= k < b[i].parents@.len() implies (#[trigger] node_by_uid(
            b,
            b[i].parents@[k].uid@,
        )) is Some by {
            let u = b[i].parents@[k].uid@;
            assert(node_by_uid(a, a[i].parents@[k].uid@) is Some);
            lemma_node_by_uid_index(a, u);
            lemma_node_by_uid_index(b, u);
            lemma_node_index_same_uids(a, b, u);
        }
    }
    assert forall|i: int|
        0 <= i < b.len() && (#[trigger] b[i]).status is ReadyForSubmission && (b[i].behavior is IfNode
            || b[i].behavior is OneOfNode) implies completed_parent(b[i].parents@, b) is Some by {
        assert(b[i] == (Node { status: b[i].status, ..a[i] }));
        assert(b[i] == a[i]);
        let ps = a[i].parents@;
        assert(completed_parent(ps, a) is Some);
        lemma_completed_parent_range(ps, a);
        let k = completed_parent(ps, a)->Some_0;
        let u = ps[k].uid@;
        assert(parents_known(a[i].parents@, a));
        assert(node_by_uid(a, u) is Some);
        lemma_node_by_uid_index(a, u);
        lemma_node_by_uid_index(b, u);
        lemma_node_index_same_uids(a, b, u);
        let j = node_index(a, u)->Some_0;
        assert(a[j].status is Completed);
        assert(b[j] == a[j]);
        assert(shown_status(ps[k], b) == shown_status(ps[k], a));
        lemma_completed_parent_some(ps, b, k);
    }
    assert forall|i: int| 0 <= i < b.len() implies match (#[trigger] b[i]).behavior {
        NodeBehavior::TaskNode(t) => t.try_num < u32::MAX,
        _ => true,
    } by {
        assert(b[i] == (Node { status: b[i].status, ..a[i] }));
        assert(match a[i].behavior {
            NodeBehavior::TaskNode(t) => t.try_num < u32::MAX,
            _ => true,
        });
    }
}

/// One submission round took the nodes `before` to `after`: every ready
/// task had its cache checked (`mid1`, see `cache_round_node`), cacheable
/// tasks of a running or earlier name were held back (`mid2`, see
/// `held_back`), then every ready node was submitted (see
/// `statuses_submitted`) and took its new status (see
/// `submitted_update`).
pub open spec fn submit_round<
    RO: Fn(String) -> Result<TaskOutput, String>,
    CC: Fn(String, String) -> Result<u64, String>,
    RC: Fn(String) -> Result<Vec<(String, JsonValue)>, String>,
    E: Fn(String) -> bool,
    SI: Fn(String, Vec<(String, JsonValue)>) -> Result<(), String>,
    S: Fn(String, Task) -> Result<String, String>,
    B: Fn(String) -> Result<bool, String>,
    C: Fn(String, String) -> Result<u64, String>,
>(
    before: Seq<Node>,
    mid1: Seq<Node>,
    mid2: Seq<Node>,
    states: Seq<Submitter>,
    updated: Seq<(String, JobStatus)>,
    after: Seq<Node>,
    read_output: RO,
    copy_cache: CC,
    read_cached: RC,
    exists_fn: E,
    save_input: SI,
    submit_job: S,
    read_choice: B,
    copy_output: C,
) -> bool {
    &&& mid1.len() == before.len()
    &&& forall|i: int|
        0 <= i < before.len() ==> #[trigger] cache_round_node(
            before[i],
            mid1[i],
            read_output,
            copy_cache,
            read_cached,
            exists_fn,
            save_input,
        )
    &&& mid2.len() == mid1.len()
    &&& forall|i: int|
        0 <= i < mid1.len() ==> #[trigger] mid2[i] == if held_back(mid1, i) {
            Node { status: JobStatus::NotSubmitted, ..mid1[i] }
        } else {
            mid1[i]
        }
    &&& statuses_submitted(states, mid2, updated, submit_job, read_choice, copy_output)
    &&& after == mid2.map_values(|n: Node| submitted_update(n, updated))
}

impl Submitter {
    /// One submission round (see `submit_round`); the count of running
    /// tasks starts from the tasks running before it.
    pub fn submit<
        RO: Fn(String) -> Result<TaskOutput, String>,
        CC: Fn(String, String) -> Result<u64, String>,
        RC: Fn(String) -> Result<Vec<(String, JsonValue)>, String>,
        E: Fn(String) -> bool,
        SI: Fn(String, Vec<(String, JsonValue)>) -> Result<(), String>,
        S: Fn(String, Task) -> Result<String, String>,
        B: Fn(String) -> Result<bool, String>,
        C: Fn(String, String) -> Result<u64, String>,
    >(
        &mut self,
        nodes: &mut Vec<Node>,
        read_output: &RO,
        copy_cache: &CC,
        read_cached: &RC,
        exists_fn: &E,
        save_input: &SI,
        submit_job: &S,
        read_choice: &B,
        copy_output: &C,
    )
        requires
            nodemap_wf(old(nodes)@),
            choices_fed(old(nodes)@),
            tries_countable(old(nodes)@),
            forall|p: String| read_output.requires((p,)),
            forall|a: String, b: String| copy_cache.requires((a, b)),
            forall|p: String| read_cached.requires((p,)),
            forall|p: String| exists_fn.requires((p,)),
            forall|a: String, v: Vec<(String, JsonValue)>| save_input.requires((a, v)),
            forall|u: String, t: Task| submit_job.requires((u, t)),
            forall|p: String| read_choice.requires((p,)),
            forall|a: String, b: String| copy_output.requires((a, b)),
        ensures
            exists|
                mid1: Seq<Node>,
                mid2: Seq<Node>,
                states: Seq<Submitter>,
                updated: Seq<(String, JobStatus)>,
            |
                states[0] == (Submitter {
                    max_concurrency: old(self).max_concurrency,
                    nrunning: running_tasks(old(nodes)@).len() as usize,
                }) && states.last() == *final(self) && #[trigger] submit_round(
                    old(nodes)@,
                    mid1,
                    mid2,
                    states,
                    updated,
                    final(nodes)@,
                    *read_output,
                    *copy_cache,
                    *read_cached,
                    *exists_fn,
                    *save_input,
                    *submit_job,
                    *read_choice,
                    *copy_output,
                ),
    {
        let ghost before = nodes@;
        self.set_number_of_running_jobs(nodes.as_slice());
        let ghost start = *self;
        read_input_and_cache_tasks(nodes, read_output, copy_cache, read_cached, exists_fn, save_input);
        let ghost mid1 = nodes@;
        proof {
            assert forall|i: int| 0 <= i < before.len() implies #[trigger] mid1[i] == (Node {
                status: mid1[i].status,
                ..before[i]
            }) && (mid1[i] != before[i] ==> before[i].status is ReadyForSubmission
                && before[i].behavior is TaskNode) by {
                assert(cache_round_node(
                    before[i],
                    mid1[i],
                    *read_output,
                    *copy_cache,
                    *read_cached,
                    *exists_fn,
                    *save_input,
                ));
            }
            lemma_ready_tasks_moved_keeps(before, mid1);
        }
        limit_cached_tasks_same_name(nodes);
        let ghost mid2 = nodes@;
        proof {
            assert forall|i: int| 0 <= i < mid1.len() implies #[trigger] mid2[i] == (Node {
                status: mid2[i].status,
                ..mid1[i]
            }) && (mid2[i] != mid1[i] ==> mid1[i].status is ReadyForSubmission
                && mid1[i].behavior is TaskNode) by {
                if held_back(mid1, i) {
                    assert(crate::sscheduler::limiters::ready_cacheable(mid1[i]));
                }
            }
            lemma_ready_tasks_moved_keeps(mid1, mid2);
        }
        let updated = self.find_updated_statuses(nodes.as_slice(), submit_job, read_choice, copy_output);
        update_status(nodes, updated.as_slice());
        let ghost states = choose|states: Seq<Submitter>|
            states[0] == start && states.last() == *self && #[trigger] statuses_submitted(
                states,
                mid2,
                updated@,
                *submit_job,
                *read_choice,
                *copy_output,
            );
        assert(submit_round(
            before,
            mid1,
            mid2,
            states,
            updated@,
            nodes@,
            *read_output,
            *copy_cache,
            *read_cached,
            *exists_fn,
            *save_input,
            *submit_job,
            *read_choice,
            *copy_output,
        ));
    }
}

/// Whether every ready branch or one-of node has a completed parent (see
/// `choices_fed`).
pub fn choices_are_fed(nodes: &[Node]) -> (r: bool)
    requires
        nodemap_wf(nodes@),
    ensures
        r == choices_fed(nodes@),
{
    let mut i: usize = 0;
    while i < nodes.len()
        invariant
            i <= nodes@.len(),
            nodemap_wf(nodes@),
            forall|k: int|
                0 <= k < i && (#[trigger] nodes@[k]).status is ReadyForSubmission && (
                nodes@[k].behavior is IfNode || nodes@[k].behavior is OneOfNode) ==> completed_parent(
                    nodes@[k].parents@,
                    nodes@,
                ) is Some,
        decreases nodes@.len() - i,
    {
        let chooses = match nodes[i].behavior {
            NodeBehavior::IfNode | NodeBehavior::OneOfNode => true,
            _ => false,
        };
        if chooses {
            if let JobStatus::ReadyForSubmission = nodes[i].status {
                assert(parents_known(nodes@[i as int].parents@, nodes@));
                if find_completed_parent_uid(&nodes[i], nodes).is_none() {
                    return false;
                }
            }
        }
        i = i + 1;
    }
    true
}

/// Whether every task can count one more try (see `tries_countable`).
pub fn tries_can_count(nodes: &[Node]) -> (r: bool)
    ensures
        r == tries_countable(nodes@),
{
    let mut i: usize = 0;
    while i < nodes.len()
        invariant
            i <= nodes@.len(),
            forall|k: int|
                0 <= k < i ==> match (#[trigger] nodes@[k]).behavior {
                    NodeBehavior::TaskNode(t) => t.try_num < u32::MAX,
                    _ => true,
                },
        decreases nodes@.len() - i,
    {
        if let NodeBehavior::TaskNode(t) = &nodes[i].behavior {
            if t.try_num == u32::MAX {
                return false;
            }
        }
        i = i + 1;
    }
    true
}

} // verus!
