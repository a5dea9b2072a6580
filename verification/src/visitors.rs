//! The status of a node follows from the statuses its parents show it.
//! The visitor walks the graph from the nodes whose status changed and
//! settles the status of every node it reaches.

use crate::blocking::{branch_evaluated, oneof_copied, submit_branch, submit_oneof};
use crate::context::{Ctx, Job};
use crate::nodes::{
    node_children, node_parents, node_uid, provided_status, Branch, Children, End, Node, OneOf,
    ProvideStatus, Root, Task,
};
use crate::schemas::{JsonValue, Parent};
use crate::settings::Cfg;
use crate::workdirs::{get_task_cache_path, task_cache_path};
use crate::status::{
    all_completed_spec, all_failed_or_skipped_spec, all_final_spec, all_parents_completed,
    all_parents_failed_or_skipped, deref_seq, first_completed_parent, is_final_spec,
    some_failed_or_skipped_spec, some_parents_failed_or_skipped, Completed, Failed, Status,
};
use vstd::prelude::*;

verus! {

/// Every uid the graph mentions (a node's own, its parents', its
/// children's) indexes the node list.
pub open spec fn graph_in_range(nodes: Seq<Node>) -> bool {
    forall|i: int|
        0 <= i < nodes.len() ==> {
            &&& node_uid(#[trigger] nodes[i]) < nodes.len()
            &&& forall|k: int|
                0 <= k < node_parents(nodes[i]).len() ==> (#[trigger] node_parents(nodes[i])[k]).uid
                    < nodes.len()
            &&& forall|k: int|
                0 <= k < node_children(nodes[i]).len() ==> #[trigger] node_children(nodes[i])[k]
                    < nodes.len()
        }
}

/// The node at position `i` has uid `i`.
pub open spec fn indexed_by_uid(nodes: Seq<Node>) -> bool {
    forall|i: int| 0 <= i < nodes.len() ==> node_uid(#[trigger] nodes[i]) == i
}

/// The statuses the parents of a node show it.
pub open spec fn provided_statuses(nodes: Seq<Node>, statuses: Seq<Status>, parents: Seq<Parent>) -> Seq<
    Status,
> {
    Seq::new(
        parents.len(),
        |i: int|
            provided_status(
                nodes[parents[i].uid as int],
                statuses[parents[i].uid as int],
                parents[i].kind,
            ),
    )
}

/// Everything but the statuses and the job queue is left as it was.
pub open spec fn same_but_statuses_and_jobs(a: Ctx, b: Ctx) -> bool {
    &&& a.updated == b.updated
    &&& a.try_nums == b.try_nums
    &&& a.local_jobs == b.local_jobs
    &&& a.slurm_jobs == b.slurm_jobs
    &&& a.running_cacheable == b.running_cacheable
}

/// New status of a root node, if it changes: completed once every parent
/// completed, skipped once some parent failed or was skipped.
pub open spec fn root_next(ps: Seq<Status>) -> Option<Status> {
    if all_completed_spec(ps) {
        Some(Status::Completed(Completed::Generic))
    } else if some_failed_or_skipped_spec(ps) {
        Some(Status::Skipped)
    } else {
        None
    }
}

/// New status of an end node, if it changes: completed once every parent
/// completed, skipped once every parent is final otherwise.
pub open spec fn end_next(ps: Seq<Status>) -> Option<Status> {
    if all_completed_spec(ps) {
        Some(Status::Completed(Completed::Generic))
    } else if all_final_spec(ps) {
        Some(Status::Skipped)
    } else {
        None
    }
}

/// The statuses with `uid` set to `s`, if there is a new status.
pub open spec fn apply_next(statuses: Seq<Status>, uid: usize, next: Option<Status>) -> Seq<Status> {
    match next {
        Some(s) => statuses.update(uid as int, s),
        None => statuses,
    }
}

/// Status of a branch once evaluated.
pub open spec fn branch_status(r: Result<bool, String>) -> Status {
    match r {
        Ok(b) => Status::Completed(Completed::Branch(b)),
        Err(_) => Status::Failed(Failed::Generic),
    }
}

/// Status of a one-of node once its data was copied (or not).
pub open spec fn oneof_status(target: usize, r: Result<u64, String>) -> Status {
    match r {
        Ok(_) => Status::Completed(Completed::OneOf(target)),
        Err(_) => Status::Failed(Failed::Generic),
    }
}

/// A task visited with status `NotSubmitted` whose parents all completed:
/// a cacheable task whose cache matches completes as cached; a cacheable
/// task otherwise waits for a cache check; any other task is queued.
pub open spec fn ready_task_step<V: Fn(usize, String) -> bool>(
    task: Task,
    cfg: Cfg,
    before: Ctx,
    after: Ctx,
    validate_cache: V,
) -> bool {
    if !task.cache {
        &&& after.statuses@ == before.statuses@.update(task.uid as int, Status::ReadyForSubmission)
        &&& after.jobs@ == before.jobs@.push(Job::Task(task.uid))
    } else {
        exists|c: bool, p: String|
            p@ == task_cache_path(task, cfg.cachedir@, cfg.local_cachedir@)
                && #[trigger] validate_cache.ensures((task.uid, p), c) && if c {
                &&& after.statuses@ == before.statuses@.update(
                    task.uid as int,
                    Status::Completed(Completed::Cached),
                )
                &&& after.jobs@ == before.jobs@
            } else {
                &&& after.statuses@ == before.statuses@.update(
                    task.uid as int,
                    Status::ReadyForSubmission,
                )
                &&& after.jobs@ == before.jobs@.push(Job::ValidateCache(task.uid, true))
            }
    }
}

/// One visit of a task.
pub open spec fn task_step<V: Fn(usize, String) -> bool>(
    ps: Seq<Status>,
    task: Task,
    cfg: Cfg,
    before: Ctx,
    after: Ctx,
    validate_cache: V,
) -> bool {
    match before.statuses@[task.uid as int] {
        Status::ReadyForSubmission => {
            &&& after.statuses@ == before.statuses@
            &&& after.jobs@ == before.jobs@.push(Job::Task(task.uid))
        },
        Status::NotSubmitted => if all_completed_spec(ps) {
            ready_task_step(task, cfg, before, after, validate_cache)
        } else if some_failed_or_skipped_spec(ps) {
            &&& after.statuses@ == before.statuses@.update(task.uid as int, Status::Skipped)
            &&& after.jobs@ == before.jobs@
        } else {
            &&& after.statuses@ == before.statuses@
            &&& after.jobs@ == before.jobs@
        },
        _ => {
            &&& after.statuses@ == before.statuses@
            &&& after.jobs@ == before.jobs@
        },
    }
}

/// Appended jobs are task submissions or cache checks.
pub open spec fn visit_job(j: Job) -> bool {
    j is Task || j matches Job::ValidateCache(_, true)
}

/// Number of `false` entries.
pub open spec fn unvisited(v: Seq<bool>) -> nat
    decreases v.len(),
{
    if v.len() == 0 {
        0
    } else {
        unvisited(v.drop_last()) + if v.last() {
            0nat
        } else {
            1nat
        }
    }
}

/// Marking an unvisited entry lowers the count by one.
pub proof fn lemma_unvisited_update(v: Seq<bool>, i: int)
    requires
        0 <= i < v.len(),
        !v[i],
    ensures
        unvisited(v.update(i, true)) + 1 == unvisited(v),
    decreases v.len(),
{
    if i == v.len() - 1 {
        assert(v.update(i, true).drop_last() =~= v.drop_last());
    } else {
        lemma_unvisited_update(v.drop_last(), i);
        assert(v.update(i, true).drop_last() =~= v.drop_last().update(i, true));
    }
}

/// How visiting `node` settles it: the statuses and jobs of `after` follow
/// from those of `before` by the rule of its kind (see `visit_root`,
/// `visit_end`, `visit_branch`, `visit_oneof` and `visit_task`).
pub open spec fn node_settled<
    R: Fn(String) -> Result<JsonValue, String>,
    C: Fn(String, String) -> Result<u64, String>,
    V: Fn(usize, String) -> bool,
>(
    nodes: Seq<Node>,
    cfg: Cfg,
    node: Node,
    before: Ctx,
    after: Ctx,
    read_output: R,
    copy_data: C,
    validate_cache: V,
) -> bool {
    match node {
        Node::Root(x) => {
            &&& after.statuses@ == apply_next(
                before.statuses@,
                x.uid,
                root_next(provided_statuses(nodes, before.statuses@, x.parents@)),
            )
            &&& after.jobs@ == before.jobs@
        },
        Node::End(x) => {
            &&& after.statuses@ == apply_next(
                before.statuses@,
                x.uid,
                end_next(provided_statuses(nodes, before.statuses@, x.parents@)),
            )
            &&& after.jobs@ == before.jobs@
        },
        Node::Branch(x) => {
            let ps = provided_statuses(nodes, before.statuses@, x.parents@);
            &&& after.jobs@ == before.jobs@
            &&& if all_completed_spec(ps) {
                exists|r: Result<bool, String>|
                    #[trigger] branch_evaluated(x.parents@, cfg.dagdir@, read_output, r)
                        && after.statuses@ == before.statuses@.update(x.uid as int, branch_status(r))
            } else if some_failed_or_skipped_spec(ps) {
                after.statuses@ == before.statuses@.update(x.uid as int, Status::Skipped)
            } else {
                after.statuses@ == before.statuses@
            }
        },
        Node::OneOf(x) => {
            &&& after.jobs@ == before.jobs@
            &&& match first_completed_parent(x.parents@, before.statuses@) {
                Some(t) => exists|r: Result<u64, String>|
                    #[trigger] oneof_copied(x.uid, t, cfg.dagdir@, copy_data, r)
                        && after.statuses@ == before.statuses@.update(x.uid as int, oneof_status(t, r)),
                None => if all_failed_or_skipped_spec(
                    provided_statuses(nodes, before.statuses@, x.parents@),
                ) {
                    after.statuses@ == before.statuses@.update(x.uid as int, Status::Skipped)
                } else {
                    after.statuses@ == before.statuses@
                },
            }
        },
        Node::Task(x) => task_step(
            provided_statuses(nodes, before.statuses@, x.parents@),
            x,
            cfg,
            before,
            after,
            validate_cache,
        ),
    }
}

/// The children of a node not visited yet, in order (a child listed twice
/// is queued twice).
pub open spec fn fresh_children(ch: Seq<usize>, visited: Seq<bool>) -> Seq<usize>
    decreases ch.len(),
{
    if ch.len() == 0 {
        Seq::empty()
    } else {
        let r = fresh_children(ch.drop_last(), visited);
        if !visited[ch.last() as int] {
            r.push(ch.last())
        } else {
            r
        }
    }
}

/// `mid` is the context `c` after its first queued uid `u` was taken off
/// and the node at `u` was settled (left alone when its status is final).
pub open spec fn uid_settled<
    R: Fn(String) -> Result<JsonValue, String>,
    C: Fn(String, String) -> Result<u64, String>,
    V: Fn(usize, String) -> bool,
>(
    nodes: Seq<Node>,
    cfg: Cfg,
    u: usize,
    c: Ctx,
    mid: Ctx,
    read_output: R,
    copy_data: C,
    validate_cache: V,
) -> bool {
    &&& mid.updated@ == c.updated@.drop_first()
    &&& mid.try_nums == c.try_nums
    &&& mid.local_jobs == c.local_jobs
    &&& mid.slurm_jobs == c.slurm_jobs
    &&& mid.running_cacheable == c.running_cacheable
    &&& if is_final_spec(c.statuses@[u as int]) {
        mid.statuses == c.statuses && mid.jobs == c.jobs
    } else {
        node_settled(nodes, cfg, nodes[u as int], c, mid, read_output, copy_data, validate_cache)
    }
}

/// Step `i` of a walk, from state `i` (visited marks, context) to state
/// `i + 1`: the first queued uid is taken off; a visited one is dropped;
/// otherwise it is marked, its node settled, and its children not visited
/// yet are queued.
pub open spec fn visit_step_at<
    R: Fn(String) -> Result<JsonValue, String>,
    C: Fn(String, String) -> Result<u64, String>,
    V: Fn(usize, String) -> bool,
>(
    nodes: Seq<Node>,
    cfg: Cfg,
    trace: Seq<(Seq<bool>, Ctx)>,
    i: int,
    read_output: R,
    copy_data: C,
    validate_cache: V,
) -> bool {
    let v = trace[i].0;
    let c = trace[i].1;
    let v2 = trace[i + 1].0;
    let c2 = trace[i + 1].1;
    let u = c.updated@[0];
    &&& c.updated@.len() > 0
    &&& if v[u as int] {
        &&& v2 == v
        &&& c2.updated@ == c.updated@.drop_first()
        &&& c2.statuses == c.statuses
        &&& c2.jobs == c.jobs
        &&& c2.try_nums == c.try_nums
        &&& c2.local_jobs == c.local_jobs
        &&& c2.slurm_jobs == c.slurm_jobs
        &&& c2.running_cacheable == c.running_cacheable
    } else {
        &&& v2 == v.update(u as int, true)
        &&& exists|mid: Ctx|
            #[trigger] uid_settled(nodes, cfg, u, c, mid, read_output, copy_data, validate_cache)
                && c2.updated@ == mid.updated@ + fresh_children(node_children(nodes[u as int]), v2)
                && c2.statuses == mid.statuses && c2.jobs == mid.jobs && c2.try_nums == mid.try_nums
                && c2.local_jobs == mid.local_jobs && c2.slurm_jobs == mid.slurm_jobs
                && c2.running_cacheable == mid.running_cacheable
    }
}

/// A walk as a trace of states (visited marks, context): it starts with
/// nothing visited from `ctx`, and each state follows from the one before
/// (see `visit_step_at`).
pub open spec fn visit_trace<
    R: Fn(String) -> Result<JsonValue, String>,
    C: Fn(String, String) -> Result<u64, String>,
    V: Fn(usize, String) -> bool,
>(
    nodes: Seq<Node>,
    cfg: Cfg,
    ctx: Ctx,
    trace: Seq<(Seq<bool>, Ctx)>,
    read_output: R,
    copy_data: C,
    validate_cache: V,
) -> bool {
    &&& trace.len() >= 1
    &&& trace[0].0 == Seq::new(nodes.len(), |i: int| false)
    &&& trace[0].1 == ctx
    &&& forall|i: int|
        0 <= i < trace.len() - 1 ==> #[trigger] visit_step_at(
            nodes,
            cfg,
            trace,
            i,
            read_output,
            copy_data,
            validate_cache,
        )
}

/// Graph walker.
pub struct NodeVisitor<'a, 'b> {
    pub nodes: &'a [Node],
    pub cfg: &'b Cfg,
}

impl<'a, 'b> NodeVisitor<'a, 'b> {
    /// The statuses the parents of a node show it.
    fn get_parent_statuses<'c>(&self, parents: &[Parent], statuses: &'c [Status]) -> (r: Vec<
        &'c Status,
    >)
        requires
            forall|k: int|
                0 <= k < parents@.len() ==> (#[trigger] parents@[k]).uid < self.nodes@.len()
                    && parents@[k].uid < statuses@.len(),
        ensures
            deref_seq(r@) == provided_statuses(self.nodes@, statuses@, parents@),
    {
        let mut r: Vec<&'c Status> = Vec::new();
        let mut i: usize = 0;
        while i < parents.len()
            invariant
                0 <= i <= parents@.len(),
                forall|k: int|
                    0 <= k < parents@.len() ==> (#[trigger] parents@[k]).uid < self.nodes@.len()
                        && parents@[k].uid < statuses@.len(),
                deref_seq(r@) == provided_statuses(self.nodes@, statuses@, parents@).take(i as int),
            decreases parents@.len() - i,
        {
            let p = &parents[i];
            let s = self.nodes[p.uid].provide_status(&statuses[p.uid], &p.kind);
            assert(*s == provided_status(self.nodes@[p.uid as int], statuses@[p.uid as int], p.kind));
            let ghost before_r = r@;
            assert(before_r.len() == deref_seq(before_r).len());
            assert(before_r.len() == i);
            r.push(s);
            assert(r@ == before_r.push(s));
            assert(r@.len() == i + 1);
            assert(r@[i as int] == s);
            assert(deref_seq(r@)[i as int] == *s);
            assert(deref_seq(r@) =~= provided_statuses(self.nodes@, statuses@, parents@).take(
                i + 1,
            ));
            i = i + 1;
        }
        assert(provided_statuses(self.nodes@, statuses@, parents@).take(parents@.len() as int)
            =~= provided_statuses(self.nodes@, statuses@, parents@));
        r
    }

    /// Settle a root node.
    pub fn visit_root(&self, node: &Root, ctx: &mut Ctx)
        requires
            node.uid < old(ctx).statuses@.len(),
            forall|k: int|
                0 <= k < node.parents@.len() ==> (#[trigger] node.parents@[k]).uid
                    < self.nodes@.len() && node.parents@[k].uid < old(ctx).statuses@.len(),
        ensures
            final(ctx).statuses@ == apply_next(
                old(ctx).statuses@,
                node.uid,
                root_next(provided_statuses(self.nodes@, old(ctx).statuses@, node.parents@)),
            ),
            final(ctx).jobs == old(ctx).jobs,
            same_but_statuses_and_jobs(*old(ctx), *final(ctx)),
    {
        let parent_statuses = self.get_parent_statuses(node.parents.as_slice(), ctx.statuses.as_slice());
        if all_parents_completed(parent_statuses.as_slice()) {
            ctx.statuses.set(node.uid, Status::Completed(Completed::Generic));
        } else if some_parents_failed_or_skipped(parent_statuses.as_slice()) {
            ctx.statuses.set(node.uid, Status::Skipped);
        }
    }

    /// Settle an end node.
    pub fn visit_end(&self, node: &End, ctx: &mut Ctx)
        requires
            node.uid < old(ctx).statuses@.len(),
            forall|k: int|
                0 <= k < node.parents@.len() ==> (#[trigger] node.parents@[k]).uid
                    < self.nodes@.len() && node.parents@[k].uid < old(ctx).statuses@.len(),
        ensures
            final(ctx).statuses@ == apply_next(
                old(ctx).statuses@,
                node.uid,
                end_next(provided_statuses(self.nodes@, old(ctx).statuses@, node.parents@)),
            ),
            final(ctx).jobs == old(ctx).jobs,
            same_but_statuses_and_jobs(*old(ctx), *final(ctx)),
    {
        let parent_statuses = self.get_parent_statuses(node.parents.as_slice(), ctx.statuses.as_slice());
        if all_parents_completed(parent_statuses.as_slice()) {
            ctx.statuses.set(node.uid, Status::Completed(Completed::Generic));
        } else {
            let mut all_final = true;
            let mut i: usize = 0;
            while i < parent_statuses.len()
                invariant
                    0 <= i <= parent_statuses@.len(),
                    all_final == (forall|j: int|
                        0 <= j < i ==> is_final_spec(#[trigger] deref_seq(parent_statuses@)[j])),
                decreases parent_statuses@.len() - i,
            {
                assert(deref_seq(parent_statuses@)[i as int] == *parent_statuses@[i as int]);
                if !parent_statuses[i].is_final() {
                    all_final = false;
                }
                i = i + 1;
            }
            if all_final {
                ctx.statuses.set(node.uid, Status::Skipped);
            }
        }
    }

    /// Settle a branch: once every parent completed, read the Boolean output
    /// of its target; skip it once some parent failed or was skipped.
    pub fn visit_branch<R: Fn(String) -> Result<JsonValue, String>>(
        &self,
        node: &Branch,
        ctx: &mut Ctx,
        read_output: &R,
    )
        requires
            node.uid < old(ctx).statuses@.len(),
            forall|k: int|
                0 <= k < node.parents@.len() ==> (#[trigger] node.parents@[k]).uid
                    < self.nodes@.len() && node.parents@[k].uid < old(ctx).statuses@.len(),
            forall|p: String| read_output.requires((p,)),
        ensures
            final(ctx).jobs == old(ctx).jobs,
            same_but_statuses_and_jobs(*old(ctx), *final(ctx)),
            ({
                let ps = provided_statuses(self.nodes@, old(ctx).statuses@, node.parents@);
                if all_completed_spec(ps) {
                    exists|r: Result<bool, String>|
                        #[trigger] branch_evaluated(node.parents@, self.cfg.dagdir@, *read_output, r)
                            && final(ctx).statuses@ == old(ctx).statuses@.update(
                            node.uid as int,
                            branch_status(r),
                        )
                } else if some_failed_or_skipped_spec(ps) {
                    final(ctx).statuses@ == old(ctx).statuses@.update(node.uid as int, Status::Skipped)
                } else {
                    final(ctx).statuses@ == old(ctx).statuses@
                }
            }),
    {
        let parent_statuses = self.get_parent_statuses(node.parents.as_slice(), ctx.statuses.as_slice());
        if all_parents_completed(parent_statuses.as_slice()) {
            let r = submit_branch(node, self.cfg, read_output);
            let status = match &r {
                Ok(choice) => Status::Completed(Completed::Branch(*choice)),
                Err(_) => Status::Failed(Failed::Generic),
            };
            ctx.statuses.set(node.uid, status);
        } else if some_parents_failed_or_skipped(parent_statuses.as_slice()) {
            ctx.statuses.set(node.uid, Status::Skipped);
        }
    }

    /// Settle a one-of node: once some parent completed, take the data of
    /// the first one (in the order of its parents); skip it once every
    /// parent failed or was skipped.
    pub fn visit_oneof<C: Fn(String, String) -> Result<u64, String>>(
        &self,
        node: &OneOf,
        ctx: &mut Ctx,
        copy_data: &C,
    )
        requires
            node.uid < old(ctx).statuses@.len(),
            forall|k: int|
                0 <= k < node.parents@.len() ==> (#[trigger] node.parents@[k]).uid
                    < self.nodes@.len() && node.parents@[k].uid < old(ctx).statuses@.len(),
            forall|s: String, d: String| copy_data.requires((s, d)),
        ensures
            final(ctx).jobs == old(ctx).jobs,
            same_but_statuses_and_jobs(*old(ctx), *final(ctx)),
            match first_completed_parent(node.parents@, old(ctx).statuses@) {
                Some(t) => exists|r: Result<u64, String>|
                    #[trigger] oneof_copied(node.uid, t, self.cfg.dagdir@, *copy_data, r)
                        && final(ctx).statuses@ == old(ctx).statuses@.update(
                        node.uid as int,
                        oneof_status(t, r),
                    ),
                None => if all_failed_or_skipped_spec(
                    provided_statuses(self.nodes@, old(ctx).statuses@, node.parents@),
                ) {
                    final(ctx).statuses@ == old(ctx).statuses@.update(node.uid as int, Status::Skipped)
                } else {
                    final(ctx).statuses@ == old(ctx).statuses@
                },
            },
    {
        let parent_statuses = self.get_parent_statuses(node.parents.as_slice(), ctx.statuses.as_slice());
        let completed = crate::status::find_completed_parent_in(
            node.parents.as_slice(),
            ctx.statuses.as_slice(),
        );
        if let Some(uid) = completed {
            let r = submit_oneof(node, uid, self.cfg, copy_data);
            let status = match &r {
                Ok(_) => Status::Completed(Completed::OneOf(uid)),
                Err(_) => Status::Failed(Failed::Generic),
            };
            ctx.statuses.set(node.uid, status);
        } else if all_parents_failed_or_skipped(parent_statuses.as_slice()) {
            ctx.statuses.set(node.uid, Status::Skipped);
        }
    }

    /// Settle a task: queue it once ready, skip it once some parent failed
    /// or was skipped; a cacheable task first looks for a matching cache.
    pub fn visit_task<V: Fn(usize, String) -> bool>(&self, node: &Task, ctx: &mut Ctx, validate_cache: &V)
        requires
            node.uid < old(ctx).statuses@.len(),
            forall|k: int|
                0 <= k < node.parents@.len() ==> (#[trigger] node.parents@[k]).uid
                    < self.nodes@.len() && node.parents@[k].uid < old(ctx).statuses@.len(),
            forall|u: usize, p: String| validate_cache.requires((u, p)),
        ensures
            same_but_statuses_and_jobs(*old(ctx), *final(ctx)),
            task_step(
                provided_statuses(self.nodes@, old(ctx).statuses@, node.parents@),
                *node,
                *self.cfg,
                *old(ctx),
                *final(ctx),
                *validate_cache,
            ),
    {
        match &ctx.statuses[node.uid] {
            Status::ReadyForSubmission => {
                ctx.jobs.push_back(Job::Task(node.uid));
            },
            Status::NotSubmitted => self.visit_not_submitted_task(node, ctx, validate_cache),
            _ => {},
        }
    }

    fn visit_not_submitted_task<V: Fn(usize, String) -> bool>(
        &self,
        task: &Task,
        ctx: &mut Ctx,
        validate_cache: &V,
    )
        requires
            task.uid < old(ctx).statuses@.len(),
            old(ctx).statuses@[task.uid as int] is NotSubmitted,
            forall|k: int|
                0 <= k < task.parents@.len() ==> (#[trigger] task.parents@[k]).uid
                    < self.nodes@.len() && task.parents@[k].uid < old(ctx).statuses@.len(),
            forall|u: usize, p: String| validate_cache.requires((u, p)),
        ensures
            same_but_statuses_and_jobs(*old(ctx), *final(ctx)),
            task_step(
                provided_statuses(self.nodes@, old(ctx).statuses@, task.parents@),
                *task,
                *self.cfg,
                *old(ctx),
                *final(ctx),
                *validate_cache,
            ),
    {
        let ghost before = ctx.statuses@;
        let parent_statuses = self.get_parent_statuses(task.parents.as_slice(), ctx.statuses.as_slice());
        if all_parents_completed(parent_statuses.as_slice()) {
            ctx.statuses.set(task.uid, Status::ReadyForSubmission);
            if task.cache {
                let path = get_task_cache_path(task, self.cfg);
                let ghost gp = path;
                let cached = validate_cache(task.uid, path);
                assert(validate_cache.ensures((task.uid, gp), cached));
                if cached {
                    ctx.statuses.set(task.uid, Status::Completed(Completed::Cached));
                    assert(ctx.statuses@ =~= before.update(
                        task.uid as int,
                        Status::Completed(Completed::Cached),
                    ));
                    return;
                }
                ctx.jobs.push_back(Job::ValidateCache(task.uid, true));
                return;
            }
            ctx.jobs.push_back(Job::Task(task.uid));
        } else if some_parents_failed_or_skipped(parent_statuses.as_slice()) {
            ctx.statuses.set(task.uid, Status::Skipped);
        }
    }
}


impl<'a, 'b> NodeVisitor<'a, 'b> {
    /// Walk the graph from the nodes queued in `ctx.updated`: every node
    /// reached is settled (unless its status is final), then its children
    /// are queued; each node is visited at most once per walk.
    pub fn visit<
        R: Fn(String) -> Result<JsonValue, String>,
        C: Fn(String, String) -> Result<u64, String>,
        V: Fn(usize, String) -> bool,
    >(&self, ctx: &mut Ctx, read_output: &R, copy_data: &C, validate_cache: &V)
        requires
            graph_in_range(self.nodes@),
            old(ctx).statuses@.len() == self.nodes@.len(),
            forall|k: int|
                0 <= k < old(ctx).updated@.len() ==> #[trigger] old(ctx).updated@[k]
                    < self.nodes@.len(),
            forall|p: String| read_output.requires((p,)),
            forall|s: String, d: String| copy_data.requires((s, d)),
            forall|u: usize, p: String| validate_cache.requires((u, p)),
        ensures
            final(ctx).updated@.len() == 0,
            final(ctx).statuses@.len() == old(ctx).statuses@.len(),
            final(ctx).try_nums == old(ctx).try_nums,
            final(ctx).local_jobs == old(ctx).local_jobs,
            final(ctx).slurm_jobs == old(ctx).slurm_jobs,
            final(ctx).running_cacheable == old(ctx).running_cacheable,
            final(ctx).jobs@.len() >= old(ctx).jobs@.len(),
            final(ctx).jobs@.take(old(ctx).jobs@.len() as int) == old(ctx).jobs@,
            forall|k: int|
                old(ctx).jobs@.len() <= k < final(ctx).jobs@.len() ==> visit_job(
                    #[trigger] final(ctx).jobs@[k],
                ),
            forall|i: int|
                0 <= i < old(ctx).statuses@.len() && final(ctx).statuses@[i] != old(ctx).statuses@[i]
                    ==> !(#[trigger] final(ctx).statuses@[i] is NotSubmitted),
            indexed_by_uid(self.nodes@) ==> forall|i: int|
                0 <= i < old(ctx).statuses@.len() && is_final_spec(old(ctx).statuses@[i]) ==> (
                #[trigger] final(ctx).statuses@[i]) == old(ctx).statuses@[i],
            exists|trace: Seq<(Seq<bool>, Ctx)>|
                #[trigger] visit_trace(
                    self.nodes@,
                    *self.cfg,
                    *old(ctx),
                    trace,
                    *read_output,
                    *copy_data,
                    *validate_cache,
                ) && trace.last().1 == *final(ctx),
    {
        let n = self.nodes.len();
        let ghost start = ctx.statuses@;
        let ghost start_jobs = ctx.jobs@;
        let mut visited: Vec<bool> = Vec::new();
        let mut k: usize = 0;
        while k < n
            invariant
                k <= n,
                visited@ == Seq::new(k as nat, |i: int| false),
            decreases n - k,
        {
            visited.push(false);
            k = k + 1;
            assert(visited@ =~= Seq::new(k as nat, |i: int| false));
        }
        let ghost mut trace: Seq<(Seq<bool>, Ctx)> = seq![(visited@, *ctx)];
        while ctx.updated.len() > 0
            invariant
                n == self.nodes@.len(),
                graph_in_range(self.nodes@),
                visited@.len() == n,
                ctx.statuses@.len() == n,
                start.len() == n,
                forall|k: int| 0 <= k < ctx.updated@.len() ==> #[trigger] ctx.updated@[k] < n,
                forall|p: String| read_output.requires((p,)),
                forall|s: String, d: String| copy_data.requires((s, d)),
                forall|u: usize, p: String| validate_cache.requires((u, p)),
                ctx.try_nums == old(ctx).try_nums,
                ctx.local_jobs == old(ctx).local_jobs,
                ctx.slurm_jobs == old(ctx).slurm_jobs,
                ctx.running_cacheable == old(ctx).running_cacheable,
                ctx.jobs@.len() >= start_jobs.len(),
                ctx.jobs@.take(start_jobs.len() as int) == start_jobs,
                forall|k: int|
                    start_jobs.len() <= k < ctx.jobs@.len() ==> visit_job(#[trigger] ctx.jobs@[k]),
                forall|i: int|
                    0 <= i < n && ctx.statuses@[i] != start[i] ==> !(
                    #[trigger] ctx.statuses@[i] is NotSubmitted),
                indexed_by_uid(self.nodes@) ==> forall|i: int|
                    0 <= i < n && is_final_spec(start[i]) ==> (#[trigger] ctx.statuses@[i])
                        == start[i],
                visit_trace(
                    self.nodes@,
                    *self.cfg,
                    *old(ctx),
                    trace,
                    *read_output,
                    *copy_data,
                    *validate_cache,
                ),
                trace.last() == (visited@, *ctx),
            decreases unvisited(visited@), ctx.updated@.len(),
        {
            let ghost c0 = *ctx;
            let ghost v0 = visited@;
            let uid = ctx.updated.pop_front().unwrap();
            assert(uid == c0.updated@[0]);
            if visited[uid] {
                proof {
                    let old_trace = trace;
                    trace = trace.push((visited@, *ctx));
                    assert(trace.drop_last() =~= old_trace);
                    assert(trace.drop_last() =~= old_trace);
                self.lemma_trace_push(old_trace, trace, *read_output, *copy_data, *validate_cache);
                }
                continue;
            }
            proof {
                lemma_unvisited_update(visited@, uid as int);
            }
            visited.set(uid, true);
            let node = &self.nodes[uid];
            assert(node_uid(self.nodes@[uid as int]) < n);
            let ghost before = *ctx;
            assert forall|k: int| 0 <= k < node_parents(*node).len() implies (#[trigger] node_parents(
                *node,
            )[k]).uid < n by {
                assert(node_parents(self.nodes@[uid as int])[k] == node_parents(*node)[k]);
            }
            if !ctx.statuses[uid].is_final() {
                match node {
                    Node::Root(x) => self.visit_root(x, ctx),
                    Node::End(x) => self.visit_end(x, ctx),
                    Node::Branch(x) => self.visit_branch(x, ctx, read_output),
                    Node::OneOf(x) => self.visit_oneof(x, ctx, copy_data),
                    Node::Task(x) => self.visit_task(x, ctx, validate_cache),
                }
                assert forall|i: int|
                    0 <= i < n && ctx.statuses@[i] != start[i] implies !(
                    #[trigger] ctx.statuses@[i] is NotSubmitted) by {
                    if ctx.statuses@[i] != before.statuses@[i] {
                        assert(i == node_uid(*node));
                    }
                }
                assert(indexed_by_uid(self.nodes@) ==> forall|i: int|
                    0 <= i < n && is_final_spec(start[i]) ==> (#[trigger] ctx.statuses@[i])
                        == start[i]) by {
                    if indexed_by_uid(self.nodes@) {
                        assert(node_uid(self.nodes@[uid as int]) == uid);
                        assert forall|i: int|
                            0 <= i < n && is_final_spec(start[i]) implies (
                            #[trigger] ctx.statuses@[i]) == start[i] by {
                            if i == uid {
                                assert(!is_final_spec(before.statuses@[i]));
                            } else {
                                assert(ctx.statuses@[i] == before.statuses@[i]);
                            }
                        }
                    }
                }
                assert(ctx.jobs@.take(start_jobs.len() as int) =~= start_jobs);
            }
            let children = node.children();
            let ghost mid = *ctx;
            assert(uid_settled(
                self.nodes@,
                *self.cfg,
                uid,
                c0,
                mid,
                *read_output,
                *copy_data,
                *validate_cache,
            ));
            assert(children@.take(0) =~= Seq::<usize>::empty());
            let mut c: usize = 0;
            while c < children.len()
                invariant
                    ctx.statuses == mid.statuses,
                    ctx.jobs == mid.jobs,
                    ctx.try_nums == mid.try_nums,
                    ctx.local_jobs == mid.local_jobs,
                    ctx.slurm_jobs == mid.slurm_jobs,
                    ctx.running_cacheable == mid.running_cacheable,
                    n == self.nodes@.len(),
                    graph_in_range(self.nodes@),
                    uid < n,
                    children@ == node_children(self.nodes@[uid as int]),
                    0 <= c <= children@.len(),
                    visited@.len() == n,
                    forall|k: int| 0 <= k < ctx.updated@.len() ==> #[trigger] ctx.updated@[k] < n,
                    ctx.updated@ == mid.updated@ + fresh_children(children@.take(c as int), visited@),
                decreases children@.len() - c,
            {
                let child = children[c];
                assert(child == node_children(self.nodes@[uid as int])[c as int]);
                assert(children@.take(c + 1).drop_last() =~= children@.take(c as int));
                assert(children@.take(c + 1).last() == child);
                if !visited[child] {
                    ctx.updated.push_back(child);
                }
                c = c + 1;
            }
            proof {
                assert(children@.take(children@.len() as int) =~= children@);
                let old_trace = trace;
                assert(old_trace.last() == (v0, c0));
                trace = trace.push((visited@, *ctx));
                assert(visit_step_at(
                    self.nodes@,
                    *self.cfg,
                    trace,
                    old_trace.len() - 1,
                    *read_output,
                    *copy_data,
                    *validate_cache,
                )) by {
                    assert(trace[old_trace.len() - 1] == (v0, c0));
                    assert(trace[old_trace.len() as int] == (visited@, *ctx));
                }
                assert(trace.drop_last() =~= old_trace);
                self.lemma_trace_push(old_trace, trace, *read_output, *copy_data, *validate_cache);
            }
        }
    }
}

impl<'a, 'b> NodeVisitor<'a, 'b> {
    /// Adding a state whose step from the last holds extends a walk.
    proof fn lemma_trace_push<
        R: Fn(String) -> Result<JsonValue, String>,
        C: Fn(String, String) -> Result<u64, String>,
        V: Fn(usize, String) -> bool,
    >(
        &self,
        old_trace: Seq<(Seq<bool>, Ctx)>,
        trace: Seq<(Seq<bool>, Ctx)>,
        read_output: R,
        copy_data: C,
        validate_cache: V,
    )
        requires
            old_trace.len() >= 1,
            trace.len() == old_trace.len() + 1,
            trace.drop_last() == old_trace,
            forall|i: int|
                0 <= i < old_trace.len() - 1 ==> #[trigger] visit_step_at(
                    self.nodes@,
                    *self.cfg,
                    old_trace,
                    i,
                    read_output,
                    copy_data,
                    validate_cache,
                ),
            visit_step_at(
                self.nodes@,
                *self.cfg,
                trace,
                old_trace.len() - 1,
                read_output,
                copy_data,
                validate_cache,
            ),
        ensures
            forall|i: int|
                0 <= i < trace.len() - 1 ==> #[trigger] visit_step_at(
                    self.nodes@,
                    *self.cfg,
                    trace,
                    i,
                    read_output,
                    copy_data,
                    validate_cache,
                ),
            trace[0] == old_trace[0],
    {
        assert(trace[0] == trace.drop_last()[0]);
        assert forall|i: int| 0 <= i < trace.len() - 1 implies #[trigger] visit_step_at(
            self.nodes@,
            *self.cfg,
            trace,
            i,
            read_output,
            copy_data,
            validate_cache,
        ) by {
            if i < old_trace.len() - 1 {
                assert(trace[i] == old_trace[i]);
                assert(trace[i + 1] == old_trace[i + 1]);
                assert(visit_step_at(
                    self.nodes@,
                    *self.cfg,
                    old_trace,
                    i,
                    read_output,
                    copy_data,
                    validate_cache,
                ));
            }
        }
    }
}

} // verus!
