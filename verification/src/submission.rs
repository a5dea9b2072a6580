//! Submission of queued jobs: retries, concurrency limits, caching and
//! the completion of branch and one-of nodes.

use crate::context::{name_set, Ctx, Job};
use crate::nodes::{node_uid, Node, Task};
use crate::blocking::{self, branch_evaluated, get_node_dir, node_dir, oneof_copied};
use crate::nodes::{Branch, OneOf};
use crate::schemas::{Cmd, DAGMeta, JsonValue, TaskOutput};
use crate::visitors::{branch_status, indexed_by_uid, oneof_status};
use crate::workdirs::{get_task_cache_path, task_cache_path};
use crate::settings::Cfg;
use crate::status::{is_running_spec, Completed, Failed, JobType, Status};
use std::collections::VecDeque;
use vstd::prelude::*;

verus! {

/// The fields of the context other than statuses, queues and try counts
/// are left as they were.
pub open spec fn same_jobs_and_names(a: Ctx, b: Ctx) -> bool {
    &&& a.local_jobs == b.local_jobs
    &&& a.slurm_jobs == b.slurm_jobs
    &&& a.running_cacheable == b.running_cacheable
}

/// What a failure of `task` does to the context: past the allowed number of
/// retries the task fails and its children are to be visited; otherwise it
/// is queued for resubmission.
pub open spec fn retried(task: Task, before: Ctx, after: Ctx, failure: Failed) -> bool {
    let uid = task.uid;
    &&& after.try_nums == before.try_nums
    &&& same_jobs_and_names(before, after)
    &&& if before.try_nums@[uid as int] > task.retries {
        &&& after.statuses@ == before.statuses@.update(uid as int, Status::Failed(failure))
        &&& after.updated@ == before.updated@.push(uid)
        &&& after.jobs@ == before.jobs@
    } else {
        &&& after.statuses@ == before.statuses@
        &&& after.updated@ == before.updated@
        &&& after.jobs@ == before.jobs@.push(Job::Task(uid))
    }
}

/// Handle a failed try of `task`: fail it for good once its tries exceed
/// the allowed retries, resubmit it otherwise.
pub fn handle_retries(task: &Task, ctx: &mut Ctx, failure: Failed)
    requires
        task.uid < old(ctx).try_nums@.len(),
        task.uid < old(ctx).statuses@.len(),
    ensures
        retried(*task, *old(ctx), *final(ctx), failure),
{
    let try_num = ctx.try_nums[task.uid];
    if try_num > task.retries {
        ctx.statuses.set(task.uid, Status::Failed(failure));
        ctx.updated.push_back(task.uid);
    } else {
        ctx.jobs.push_back(Job::Task(task.uid));
    }
}

} // verus!

verus! {

/// Weight of the retries a task may still use.
pub open spec fn tries_left(nodes: Seq<Node>, try_nums: Seq<usize>, u: usize) -> nat {
    match nodes[u as int] {
        Node::Task(t) => if try_nums[u as int] <= t.retries {
            (t.retries - try_nums[u as int] + 1) as nat
        } else {
            0
        },
        _ => 0,
    }
}

/// An upper bound of the jobs a queued job can still cause.
pub open spec fn job_weight(nodes: Seq<Node>, try_nums: Seq<usize>, j: Job) -> nat {
    match j {
        Job::Task(u) => 1 + tries_left(nodes, try_nums, u),
        Job::ValidateCache(u, _) => 2 + tries_left(nodes, try_nums, u),
        Job::SaveExtOutput(_, _) => 2,
        _ => 1,
    }
}

/// Total weight of a job queue.
pub open spec fn queue_weight(nodes: Seq<Node>, try_nums: Seq<usize>, q: Seq<Job>) -> nat
    decreases q.len(),
{
    if q.len() == 0 {
        0
    } else {
        job_weight(nodes, try_nums, q[0]) + queue_weight(nodes, try_nums, q.drop_first())
    }
}

/// Appending a job adds its weight.
pub proof fn lemma_queue_weight_push(nodes: Seq<Node>, try_nums: Seq<usize>, q: Seq<Job>, j: Job)
    ensures
        queue_weight(nodes, try_nums, q.push(j)) == queue_weight(nodes, try_nums, q) + job_weight(
            nodes,
            try_nums,
            j,
        ),
    decreases q.len(),
{
    if q.len() == 0 {
        assert(q.push(j).drop_first() =~= Seq::<Job>::empty());
        assert(q.push(j)[0] == j);
        assert(queue_weight(nodes, try_nums, q.push(j).drop_first()) == 0);
        assert(queue_weight(nodes, try_nums, q.push(j)) == job_weight(nodes, try_nums, j)
            + queue_weight(nodes, try_nums, q.push(j).drop_first()));
    } else {
        assert(q.push(j).drop_first() =~= q.drop_first().push(j));
        assert(q.push(j)[0] == q[0]);
        lemma_queue_weight_push(nodes, try_nums, q.drop_first(), j);
    }
}

/// Raising one try count never raises the weight of a queue.
pub proof fn lemma_queue_weight_bump(
    nodes: Seq<Node>,
    try_nums: Seq<usize>,
    u: int,
    v: usize,
    q: Seq<Job>,
)
    requires
        0 <= u < try_nums.len(),
        v >= try_nums[u],
        jobs_in_range(q, try_nums.len()),
    ensures
        queue_weight(nodes, try_nums.update(u, v), q) <= queue_weight(nodes, try_nums, q),
    decreases q.len(),
{
    if q.len() > 0 {
        let w = job_uid(q[0]);
        assert(w < try_nums.len());
        assert(tries_left(nodes, try_nums.update(u, v), w) <= tries_left(nodes, try_nums, w));
        assert(job_weight(nodes, try_nums.update(u, v), q[0]) <= job_weight(nodes, try_nums, q[0]));
        assert(jobs_in_range(q.drop_first(), try_nums.len())) by {
            assert forall|k: int| 0 <= k < q.drop_first().len() implies job_uid(
                #[trigger] q.drop_first()[k],
            ) < try_nums.len() by {
                assert(q.drop_first()[k] == q[k + 1]);
            }
        }
        lemma_queue_weight_bump(nodes, try_nums, u, v, q.drop_first());
    }
}

/// Whether the running jobs reach the limit (0 means no limit).
pub open spec fn at_capacity_spec(ctx: Ctx, max_concurrency: usize) -> bool {
    max_concurrency != 0 && ctx.nrunning_spec() >= max_concurrency
}

fn at_capacity(ctx: &Ctx, max_concurrency: usize) -> (r: bool)
    ensures
        r == at_capacity_spec(*ctx, max_concurrency),
{
    if max_concurrency == 0 {
        return false;
    }
    let s = ctx.slurm_jobs.len();
    if s >= max_concurrency {
        return true;
    }
    ctx.local_jobs.len() >= max_concurrency - s
}

/// Job submitter: jobs held back wait in `held_jobs` for the next round.
pub struct Submitter<'a> {
    pub cfg: &'a Cfg,
    pub meta: &'a DAGMeta,
    pub held_jobs: VecDeque<Job>,
}

/// Every uid a context indexes by is in range for the node list.
pub open spec fn ctx_fits(nodes: Seq<Node>, ctx: Ctx) -> bool {
    &&& ctx.statuses@.len() == nodes.len()
    &&& ctx.try_nums@.len() == nodes.len()
    &&& forall|i: int| 0 <= i < nodes.len() ==> node_uid(#[trigger] nodes[i]) < nodes.len()
}

/// The uid a job refers to.
pub open spec fn job_uid(j: Job) -> usize {
    match j {
        Job::Task(u) => u,
        Job::OneOf(u, _) => u,
        Job::Branch(u) => u,
        Job::ValidateCache(u, _) => u,
        Job::SaveCache(u) => u,
        Job::SaveExtOutput(u, _) => u,
    }
}

/// Every job of the queue refers to a node of the list.
pub open spec fn jobs_in_range(q: Seq<Job>, n: nat) -> bool {
    forall|k: int| 0 <= k < q.len() ==> job_uid(#[trigger] q[k]) < n
}

/// What submitting `task` did, given the try number it was submitted with
/// and the answer of the submission.
pub open spec fn submission_recorded(
    task: Task,
    before: Ctx,
    after: Ctx,
    r: Result<JobType, String>,
) -> bool {
    match r {
        Ok(JobType::Slurm(id)) => {
            &&& after.statuses@ == before.statuses@.update(
                task.uid as int,
                Status::Pending(JobType::Slurm(id)),
            )
            &&& after.slurm_jobs@ == before.slurm_jobs@.push((task.uid, id))
            &&& after.local_jobs == before.local_jobs
            &&& after.updated == before.updated
            &&& after.jobs == before.jobs
        },
        Ok(JobType::Local(pid)) => {
            &&& after.statuses@ == before.statuses@.update(
                task.uid as int,
                Status::Running(JobType::Local(pid)),
            )
            &&& after.local_jobs@ == before.local_jobs@.push((task.uid, pid))
            &&& after.slurm_jobs == before.slurm_jobs
            &&& after.updated == before.updated
            &&& after.jobs == before.jobs
        },
        Err(_) => retried(task, before, after, Failed::Generic),
    }
}

impl<'a> Submitter<'a> {
    /// Record the answer of a submission of `task`: a Slurm job is pending,
    /// a local process is running; a failed submission goes through the
    /// retry rules.
    pub fn record_submission(task: &Task, ctx: &mut Ctx, r: Result<JobType, String>)
        requires
            task.uid < old(ctx).try_nums@.len(),
            task.uid < old(ctx).statuses@.len(),
        ensures
            final(ctx).try_nums == old(ctx).try_nums,
            final(ctx).running_cacheable == old(ctx).running_cacheable,
            submission_recorded(*task, *old(ctx), *final(ctx), r),
    {
        match r {
            Ok(JobType::Slurm(job_id)) => {
                let id = job_id.clone();
                ctx.slurm_jobs.push((task.uid, id));
                ctx.statuses.set(task.uid, Status::Pending(JobType::Slurm(job_id)));
            },
            Ok(JobType::Local(pid)) => {
                ctx.local_jobs.push((task.uid, pid));
                ctx.statuses.set(task.uid, Status::Running(JobType::Local(pid)));
            },
            Err(_) => {
                handle_retries(task, ctx, Failed::Generic);
            },
        }
    }
}

/// The answer of a Slurm submission as a job reference.
pub open spec fn slurm_answer(a: Result<String, String>) -> Result<JobType, String> {
    match a {
        Ok(id) => Ok(JobType::Slurm(id)),
        Err(e) => Err(e),
    }
}

/// The answer of a local submission as a job reference.
pub open spec fn local_answer(a: Result<u32, String>) -> Result<JobType, String> {
    match a {
        Ok(pid) => Ok(JobType::Local(pid)),
        Err(e) => Err(e),
    }
}

/// After the try count of `task` was raised, the answer `r` of its
/// submission is recorded, and a cacheable task that now runs is listed
/// among the running cacheable names.
pub open spec fn submitted_with(task: Task, before: Ctx, after: Ctx, r: Result<JobType, String>) -> bool {
    &&& submission_recorded(
        task,
        Ctx { try_nums: after.try_nums, ..before },
        Ctx { running_cacheable: before.running_cacheable, ..after },
        r,
    )
    &&& if task.cache && is_running_spec(after.statuses@[task.uid as int]) {
        name_set(after.running_cacheable@) == name_set(before.running_cacheable@).insert(
            task.name@,
        )
    } else {
        after.running_cacheable == before.running_cacheable
    }
}

/// What `handle_task_submission` did to the submitter and the context.
pub open spec fn task_submission_step<
    S: Fn(usize, usize) -> Result<String, String>,
    L: Fn(usize, usize) -> Result<u32, String>,
>(
    task: Task,
    max_concurrency: usize,
    held_before: Seq<Job>,
    held_after: Seq<Job>,
    before: Ctx,
    after: Ctx,
    submit_slurm: S,
    submit_local: L,
) -> bool {
    let uid = task.uid;
    if at_capacity_spec(before, max_concurrency) {
        &&& held_after == held_before.push(Job::Task(uid))
        &&& after == before
    } else if before.try_nums@[uid as int] == usize::MAX {
        &&& held_after == held_before
        &&& after.statuses@ == before.statuses@.update(uid as int, Status::Failed(Failed::Generic))
        &&& after.updated@ == before.updated@.push(uid)
        &&& after.jobs == before.jobs
        &&& after.try_nums == before.try_nums
        &&& same_jobs_and_names(before, after)
    } else {
        let t = (before.try_nums@[uid as int] + 1) as usize;
        &&& held_after == held_before
        &&& after.try_nums@ == before.try_nums@.update(uid as int, t)
        &&& task.cmd == Cmd::Sbatch ==> exists|a: Result<String, String>|
            #[trigger] submit_slurm.ensures((uid, t), a) && submitted_with(
                task,
                before,
                after,
                slurm_answer(a),
            )
        &&& task.cmd == Cmd::Bash ==> exists|a: Result<u32, String>|
            #[trigger] submit_local.ensures((uid, t), a) && submitted_with(
                task,
                before,
                after,
                local_answer(a),
            )
    }
}

impl<'a> Submitter<'a> {
    /// Submit a task, unless the running jobs reach the concurrency limit,
    /// in which case the job is held back for the next round.
    pub fn handle_task_submission<
        S: Fn(usize, usize) -> Result<String, String>,
        L: Fn(usize, usize) -> Result<u32, String>,
    >(&mut self, task: &Task, ctx: &mut Ctx, submit_slurm: &S, submit_local: &L)
        requires
            task.uid < old(ctx).try_nums@.len(),
            task.uid < old(ctx).statuses@.len(),
            forall|u: usize, t: usize| submit_slurm.requires((u, t)),
            forall|u: usize, t: usize| submit_local.requires((u, t)),
        ensures
            final(self).cfg == old(self).cfg,
            final(self).meta == old(self).meta,
            final(ctx).statuses@.len() == old(ctx).statuses@.len(),
            final(ctx).try_nums@ == old(ctx).try_nums@ || (old(ctx).try_nums@[task.uid as int]
                < usize::MAX && final(ctx).try_nums@ == old(ctx).try_nums@.update(
                task.uid as int,
                (old(ctx).try_nums@[task.uid as int] + 1) as usize,
            )),
            final(ctx).jobs@ == old(ctx).jobs@ || (final(ctx).jobs@ == old(ctx).jobs@.push(
                Job::Task(task.uid),
            ) && final(ctx).try_nums@[task.uid as int] <= task.retries && final(ctx).try_nums@
                == old(ctx).try_nums@.update(
                task.uid as int,
                (old(ctx).try_nums@[task.uid as int] + 1) as usize,
            )),
            at_capacity_spec(*old(ctx), old(self).cfg.max_concurrency) ==> final(ctx).nrunning_spec()
                == old(ctx).nrunning_spec(),
            final(ctx).nrunning_spec() <= old(ctx).nrunning_spec() + 1,
            final(self).held_jobs@ == old(self).held_jobs@ || final(self).held_jobs@ == old(
                self,
            ).held_jobs@.push(Job::Task(task.uid)),
            task_submission_step(
                *task,
                old(self).cfg.max_concurrency,
                old(self).held_jobs@,
                final(self).held_jobs@,
                *old(ctx),
                *final(ctx),
                *submit_slurm,
                *submit_local,
            ),
    {
        if at_capacity(ctx, self.cfg.max_concurrency) {
            self.held_jobs.push_back(Job::Task(task.uid));
            return;
        }
        let current = ctx.try_nums[task.uid];
        if current == usize::MAX {
            ctx.statuses.set(task.uid, Status::Failed(Failed::Generic));
            ctx.updated.push_back(task.uid);
            return;
        }
        let try_num = current + 1;
        ctx.try_nums.set(task.uid, try_num);
        let ghost mid = *ctx;
        let r = match task.cmd {
            Cmd::Sbatch => {
                let a = submit_slurm(task.uid, try_num);
                assert(submit_slurm.ensures((task.uid, try_num), a));
                let ghost ga = a;
                let r = match a {
                    Ok(id) => Ok(JobType::Slurm(id)),
                    Err(e) => Err(e),
                };
                assert(r == slurm_answer(ga));
                r
            },
            Cmd::Bash => {
                let a = submit_local(task.uid, try_num);
                assert(submit_local.ensures((task.uid, try_num), a));
                let ghost ga = a;
                let r = match a {
                    Ok(pid) => Ok(JobType::Local(pid)),
                    Err(e) => Err(e),
                };
                assert(r == local_answer(ga));
                r
            },
        };
        let ghost rr = r;
        Self::record_submission(task, ctx, r);
        let ghost recorded = *ctx;
        if task.cache && ctx.statuses[task.uid].is_running() {
            ctx.add_running_cacheable(task.name.as_str());
        }
        assert(Ctx { running_cacheable: mid.running_cacheable, ..*ctx } == recorded);
        assert(submitted_with(*task, *old(ctx), *ctx, rr));
    }
}


impl<'a> Submitter<'a> {
    /// A submitter with nothing held back.
    pub fn new(cfg: &'a Cfg, meta: &'a DAGMeta) -> (r: Self)
        ensures
            r.cfg == cfg,
            r.meta == meta,
            r.held_jobs@.len() == 0,
    {
        Submitter { cfg, meta, held_jobs: VecDeque::new() }
    }

    /// Complete a branch with the choice read from its target, or fail it.
    pub fn submit_branch<R: Fn(String) -> Result<JsonValue, String>>(
        &mut self,
        branch: &Branch,
        ctx: &mut Ctx,
        read_output: &R,
    )
        requires
            branch.uid < old(ctx).statuses@.len(),
            forall|p: String| read_output.requires((p,)),
        ensures
            *final(self) == *old(self),
            final(ctx).jobs == old(ctx).jobs,
            final(ctx).try_nums == old(ctx).try_nums,
            same_jobs_and_names(*old(ctx), *final(ctx)),
            final(ctx).updated@ == old(ctx).updated@.push(branch.uid),
            exists|r: Result<bool, String>|
                #[trigger] branch_evaluated(branch.parents@, old(self).cfg.dagdir@, *read_output, r)
                    && final(ctx).statuses@ == old(ctx).statuses@.update(
                    branch.uid as int,
                    branch_status(r),
                ),
    {
        let r = blocking::submit_branch(branch, self.cfg, read_output);
        let status = match &r {
            Ok(choice) => Status::Completed(Completed::Branch(*choice)),
            Err(_) => Status::Failed(Failed::Generic),
        };
        ctx.statuses.set(branch.uid, status);
        ctx.updated.push_back(branch.uid);
    }

    /// Complete a one-of node with the data of `target`, or fail it.
    pub fn submit_oneof<C: Fn(String, String) -> Result<u64, String>>(
        &mut self,
        oneof: &OneOf,
        target: usize,
        ctx: &mut Ctx,
        copy_data: &C,
    )
        requires
            oneof.uid < old(ctx).statuses@.len(),
            forall|s: String, d: String| copy_data.requires((s, d)),
        ensures
            *final(self) == *old(self),
            final(ctx).jobs == old(ctx).jobs,
            final(ctx).try_nums == old(ctx).try_nums,
            same_jobs_and_names(*old(ctx), *final(ctx)),
            final(ctx).updated@ == old(ctx).updated@.push(oneof.uid),
            exists|r: Result<u64, String>|
                #[trigger] oneof_copied(oneof.uid, target, old(self).cfg.dagdir@, *copy_data, r)
                    && final(ctx).statuses@ == old(ctx).statuses@.update(
                    oneof.uid as int,
                    oneof_status(target, r),
                ),
    {
        let r = blocking::submit_oneof(oneof, target, self.cfg, copy_data);
        let status = match &r {
            Ok(_) => Status::Completed(Completed::OneOf(target)),
            Err(_) => Status::Failed(Failed::Generic),
        };
        ctx.statuses.set(oneof.uid, status);
        ctx.updated.push_back(oneof.uid);
    }

    /// Save a task's data into its cache; the task no longer counts as a
    /// running cacheable task and its children are to be visited.
    pub fn submit_save_cache<K: Fn(String, String, usize) -> Result<u64, String>>(
        &mut self,
        task: &Task,
        ctx: &mut Ctx,
        save_cache: &K,
    )
        requires
            forall|s: String, d: String, n: usize| save_cache.requires((s, d, n)),
        ensures
            *final(self) == *old(self),
            final(ctx).jobs == old(ctx).jobs,
            final(ctx).try_nums == old(ctx).try_nums,
            final(ctx).statuses == old(ctx).statuses,
            final(ctx).local_jobs == old(ctx).local_jobs,
            final(ctx).slurm_jobs == old(ctx).slurm_jobs,
            final(ctx).updated@ == old(ctx).updated@.push(task.uid),
            name_set(final(ctx).running_cacheable@) == name_set(old(ctx).running_cacheable@).remove(
                task.name@,
            ),
            exists|src: String, dst: String, r: Result<u64, String>|
                src@ == node_dir(old(self).cfg.dagdir@, task.uid as nat) && dst@ == task_cache_path(
                    *task,
                    old(self).cfg.cachedir@,
                    old(self).cfg.local_cachedir@,
                ) && #[trigger] save_cache.ensures((src, dst, task.cache_size), r),
    {
        let src = get_node_dir(self.cfg.dagdir.as_str(), task.uid);
        let dst = get_task_cache_path(task, self.cfg);
        let ghost (gs, gd) = (src, dst);
        let r = save_cache(src, dst, task.cache_size);
        assert(save_cache.ensures((gs, gd, task.cache_size), r));
        ctx.remove_running_cacheable(task.name.as_str());
        ctx.updated.push_back(task.uid);
    }

    /// Check the cache of a task. While another cacheable task of the same
    /// name runs the check waits; a task not checked yet whose cache
    /// matches completes as cached; otherwise the task is ready and queued.
    pub fn handle_cache_validation<V: Fn(usize, String) -> bool>(
        &mut self,
        task: &Task,
        ctx: &mut Ctx,
        already_checked: bool,
        validate_cache: &V,
    )
        requires
            task.uid < old(ctx).statuses@.len(),
            forall|u: usize, p: String| validate_cache.requires((u, p)),
        ensures
            final(self).cfg == old(self).cfg,
            final(self).meta == old(self).meta,
            final(ctx).try_nums == old(ctx).try_nums,
            same_jobs_and_names(*old(ctx), *final(ctx)),
            if task.cache && name_set(old(ctx).running_cacheable@).contains(task.name@) {
                &&& final(self).held_jobs@ == old(self).held_jobs@.push(
                    Job::ValidateCache(task.uid, false),
                )
                &&& *final(ctx) == *old(ctx)
            } else {
                &&& final(self).held_jobs == old(self).held_jobs
                &&& if already_checked {
                    &&& final(ctx).statuses@ == old(ctx).statuses@.update(
                        task.uid as int,
                        Status::ReadyForSubmission,
                    )
                    &&& final(ctx).jobs@ == old(ctx).jobs@.push(Job::Task(task.uid))
                    &&& final(ctx).updated == old(ctx).updated
                } else {
                    exists|c: bool, p: String|
                        p@ == task_cache_path(*task, old(self).cfg.cachedir@, old(self).cfg.local_cachedir@)
                            && #[trigger] validate_cache.ensures((task.uid, p), c) && if c {
                            &&& final(ctx).statuses@ == old(ctx).statuses@.update(
                                task.uid as int,
                                Status::Completed(Completed::Cached),
                            )
                            &&& final(ctx).jobs == old(ctx).jobs
                            &&& final(ctx).updated@ == old(ctx).updated@.push(task.uid)
                        } else {
                            &&& final(ctx).statuses@ == old(ctx).statuses@.update(
                                task.uid as int,
                                Status::ReadyForSubmission,
                            )
                            &&& final(ctx).jobs@ == old(ctx).jobs@.push(Job::Task(task.uid))
                            &&& final(ctx).updated == old(ctx).updated
                        }
                }
            },
    {
        if task.cache && ctx.is_running_cacheable(task.name.as_str()) {
            self.held_jobs.push_back(Job::ValidateCache(task.uid, false));
            return;
        }
        if !already_checked {
            let path = get_task_cache_path(task, self.cfg);
            let ghost gp = path;
            let cached = validate_cache(task.uid, path);
            assert(validate_cache.ensures((task.uid, gp), cached));
            if cached {
                ctx.statuses.set(task.uid, Status::Completed(Completed::Cached));
                ctx.updated.push_back(task.uid);
                return;
            }
        }
        ctx.statuses.set(task.uid, Status::ReadyForSubmission);
        ctx.jobs.push_back(Job::Task(task.uid));
    }

    /// Save the empty output of an external task that completed; on success
    /// it completes (and its cache is saved), otherwise it fails.
    pub fn submit_save_ext_output<S: Fn(String, TaskOutput) -> Result<(), String>>(
        &mut self,
        task: &Task,
        job_type: JobType,
        ctx: &mut Ctx,
        save_output: &S,
    )
        requires
            task.uid < old(ctx).statuses@.len(),
            forall|p: String, o: TaskOutput| save_output.requires((p, o)),
        ensures
            *final(self) == *old(self),
            final(ctx).try_nums == old(ctx).try_nums,
            same_jobs_and_names(*old(ctx), *final(ctx)),
            final(ctx).updated@ == old(ctx).updated@.push(task.uid),
            exists|p: String, o: TaskOutput, r: Result<(), String>|
                p@ == node_dir(old(self).cfg.dagdir@, task.uid as nat) && o.output == JsonValue::Null
                    && o.artifacts@ == task.artifacts@ && #[trigger] save_output.ensures((p, o), r)
                    && match r {
                    Ok(_) => {
                        &&& final(ctx).statuses@ == old(ctx).statuses@.update(
                            task.uid as int,
                            Status::Completed(Completed::Job(job_type)),
                        )
                        &&& final(ctx).jobs@ == if task.cache {
                            old(ctx).jobs@.push(Job::SaveCache(task.uid))
                        } else {
                            old(ctx).jobs@
                        }
                    },
                    Err(_) => {
                        &&& final(ctx).statuses@ == old(ctx).statuses@.update(
                            task.uid as int,
                            Status::Failed(Failed::Job(job_type)),
                        )
                        &&& final(ctx).jobs == old(ctx).jobs
                    },
                },
    {
        let r = blocking::submit_save_ext_output(task, self.cfg, save_output);
        let status = match r {
            Ok(_) => {
                if task.cache {
                    ctx.jobs.push_back(Job::SaveCache(task.uid));
                }
                Status::Completed(Completed::Job(job_type))
            },
            Err(_) => Status::Failed(Failed::Job(job_type)),
        };
        ctx.statuses.set(task.uid, status);
        ctx.updated.push_back(task.uid);
    }
}


/// The branch `b` was evaluated: its choice, read from its target through
/// `read_output`, completes it (or fails it), and its children are to be
/// visited.
pub open spec fn branch_done<R: Fn(String) -> Result<JsonValue, String>>(
    cfg: Cfg,
    b: Branch,
    before: Ctx,
    after: Ctx,
    read_output: R,
) -> bool {
    &&& after.jobs == before.jobs
    &&& after.try_nums == before.try_nums
    &&& same_jobs_and_names(before, after)
    &&& after.updated@ == before.updated@.push(b.uid)
    &&& exists|r: Result<bool, String>|
        #[trigger] branch_evaluated(b.parents@, cfg.dagdir@, read_output, r)
            && after.statuses@ == before.statuses@.update(b.uid as int, branch_status(r))
}

/// The one-of node `o` took the data of `target` through `copy_data`
/// (completing, or failing), and its children are to be visited.
pub open spec fn oneof_done<C: Fn(String, String) -> Result<u64, String>>(
    cfg: Cfg,
    o: OneOf,
    target: usize,
    before: Ctx,
    after: Ctx,
    copy_data: C,
) -> bool {
    &&& after.jobs == before.jobs
    &&& after.try_nums == before.try_nums
    &&& same_jobs_and_names(before, after)
    &&& after.updated@ == before.updated@.push(o.uid)
    &&& exists|r: Result<u64, String>|
        #[trigger] oneof_copied(o.uid, target, cfg.dagdir@, copy_data, r)
            && after.statuses@ == before.statuses@.update(o.uid as int, oneof_status(target, r))
}

/// The data of task `t` was handed to `save_cache` for its cache folder;
/// it no longer counts as a running cacheable task and its children are to
/// be visited.
pub open spec fn save_cache_done<K: Fn(String, String, usize) -> Result<u64, String>>(
    cfg: Cfg,
    t: Task,
    before: Ctx,
    after: Ctx,
    save_cache: K,
) -> bool {
    &&& after.jobs == before.jobs
    &&& after.try_nums == before.try_nums
    &&& after.statuses == before.statuses
    &&& after.local_jobs == before.local_jobs
    &&& after.slurm_jobs == before.slurm_jobs
    &&& after.updated@ == before.updated@.push(t.uid)
    &&& name_set(after.running_cacheable@) == name_set(before.running_cacheable@).remove(t.name@)
    &&& exists|src: String, dst: String, r: Result<u64, String>|
        src@ == node_dir(cfg.dagdir@, t.uid as nat) && dst@ == task_cache_path(
            t,
            cfg.cachedir@,
            cfg.local_cachedir@,
        ) && #[trigger] save_cache.ensures((src, dst, t.cache_size), r)
}

/// The cache check of task `t` (see `handle_cache_validation`): held back
/// while a task of its name runs; otherwise completed as cached when an
/// unchecked cache matches, or made ready and queued.
pub open spec fn cache_check_done<V: Fn(usize, String) -> bool>(
    cfg: Cfg,
    t: Task,
    already_checked: bool,
    held_before: Seq<Job>,
    held_after: Seq<Job>,
    before: Ctx,
    after: Ctx,
    validate_cache: V,
) -> bool {
    &&& after.try_nums == before.try_nums
    &&& same_jobs_and_names(before, after)
    &&& if t.cache && name_set(before.running_cacheable@).contains(t.name@) {
        &&& held_after == held_before.push(Job::ValidateCache(t.uid, false))
        &&& after == before
    } else {
        &&& held_after == held_before
        &&& if already_checked {
            &&& after.statuses@ == before.statuses@.update(t.uid as int, Status::ReadyForSubmission)
            &&& after.jobs@ == before.jobs@.push(Job::Task(t.uid))
            &&& after.updated == before.updated
        } else {
            exists|c: bool, p: String|
                p@ == task_cache_path(t, cfg.cachedir@, cfg.local_cachedir@)
                    && #[trigger] validate_cache.ensures((t.uid, p), c) && if c {
                    &&& after.statuses@ == before.statuses@.update(
                        t.uid as int,
                        Status::Completed(Completed::Cached),
                    )
                    &&& after.jobs == before.jobs
                    &&& after.updated@ == before.updated@.push(t.uid)
                } else {
                    &&& after.statuses@ == before.statuses@.update(
                        t.uid as int,
                        Status::ReadyForSubmission,
                    )
                    &&& after.jobs@ == before.jobs@.push(Job::Task(t.uid))
                    &&& after.updated == before.updated
                }
        }
    }
}

/// The empty output of the external task `t` was handed to `save_output`:
/// on success it completes with job `job_type` (its cache to be saved when
/// it caches), otherwise it fails; its children are to be visited.
pub open spec fn ext_output_done<O: Fn(String, TaskOutput) -> Result<(), String>>(
    cfg: Cfg,
    t: Task,
    job_type: JobType,
    before: Ctx,
    after: Ctx,
    save_output: O,
) -> bool {
    &&& after.try_nums == before.try_nums
    &&& same_jobs_and_names(before, after)
    &&& after.updated@ == before.updated@.push(t.uid)
    &&& exists|p: String, o: TaskOutput, r: Result<(), String>|
        p@ == node_dir(cfg.dagdir@, t.uid as nat) && o.output == JsonValue::Null
            && o.artifacts@ == t.artifacts@ && #[trigger] save_output.ensures((p, o), r) && match r {
            Ok(_) => {
                &&& after.statuses@ == before.statuses@.update(
                    t.uid as int,
                    Status::Completed(Completed::Job(job_type)),
                )
                &&& after.jobs@ == if t.cache {
                    before.jobs@.push(Job::SaveCache(t.uid))
                } else {
                    before.jobs@
                }
            },
            Err(_) => {
                &&& after.statuses@ == before.statuses@.update(
                    t.uid as int,
                    Status::Failed(Failed::Job(job_type)),
                )
                &&& after.jobs == before.jobs
            },
        }
}

/// `p` is `c` with the first queued job taken off.
pub open spec fn popped(c: Ctx, p: Ctx) -> bool {
    &&& p.jobs@ == c.jobs@.drop_first()
    &&& p.statuses == c.statuses
    &&& p.updated == c.updated
    &&& p.try_nums == c.try_nums
    &&& p.local_jobs == c.local_jobs
    &&& p.slurm_jobs == c.slurm_jobs
    &&& p.running_cacheable == c.running_cacheable
}

/// Carrying out `job` took the held jobs from `hb` to `ha` and the context
/// from `p` (the job already taken off its queue) to `after`. A job whose
/// node is not of the kind it names does nothing.
pub open spec fn job_done<
    S: Fn(usize, usize) -> Result<String, String>,
    L: Fn(usize, usize) -> Result<u32, String>,
    R: Fn(String) -> Result<JsonValue, String>,
    C: Fn(String, String) -> Result<u64, String>,
    K: Fn(String, String, usize) -> Result<u64, String>,
    V: Fn(usize, String) -> bool,
    O: Fn(String, TaskOutput) -> Result<(), String>,
>(
    nodes: Seq<Node>,
    cfg: Cfg,
    job: Job,
    hb: Seq<Job>,
    ha: Seq<Job>,
    p: Ctx,
    after: Ctx,
    submit_slurm: S,
    submit_local: L,
    read_output: R,
    copy_data: C,
    save_cache: K,
    validate_cache: V,
    save_output: O,
) -> bool {
    let unchanged = ha == hb && after == p;
    match job {
        Job::Task(uid) => match nodes[uid as int] {
            Node::Task(t) => task_submission_step(
                t,
                cfg.max_concurrency,
                hb,
                ha,
                p,
                after,
                submit_slurm,
                submit_local,
            ),
            _ => unchanged,
        },
        Job::Branch(uid) => match nodes[uid as int] {
            Node::Branch(b) => ha == hb && branch_done(cfg, b, p, after, read_output),
            _ => unchanged,
        },
        Job::OneOf(uid, target) => match nodes[uid as int] {
            Node::OneOf(o) => ha == hb && oneof_done(cfg, o, target, p, after, copy_data),
            _ => unchanged,
        },
        Job::SaveCache(uid) => match nodes[uid as int] {
            Node::Task(t) => ha == hb && save_cache_done(cfg, t, p, after, save_cache),
            _ => unchanged,
        },
        Job::ValidateCache(uid, already_checked) => match nodes[uid as int] {
            Node::Task(t) => cache_check_done(cfg, t, already_checked, hb, ha, p, after, validate_cache),
            _ => unchanged,
        },
        Job::SaveExtOutput(uid, job_type) => match nodes[uid as int] {
            Node::Task(t) => ha == hb && ext_output_done(cfg, t, job_type, p, after, save_output),
            _ => unchanged,
        },
    }
}

/// Step `i` of a submission trace: the first queued job of state `i` was
/// taken off and carried out, giving state `i + 1` (held jobs, context).
pub open spec fn submit_step_at<
    S: Fn(usize, usize) -> Result<String, String>,
    L: Fn(usize, usize) -> Result<u32, String>,
    R: Fn(String) -> Result<JsonValue, String>,
    C: Fn(String, String) -> Result<u64, String>,
    K: Fn(String, String, usize) -> Result<u64, String>,
    V: Fn(usize, String) -> bool,
    O: Fn(String, TaskOutput) -> Result<(), String>,
>(
    nodes: Seq<Node>,
    cfg: Cfg,
    trace: Seq<(Seq<Job>, Ctx)>,
    i: int,
    submit_slurm: S,
    submit_local: L,
    read_output: R,
    copy_data: C,
    save_cache: K,
    validate_cache: V,
    save_output: O,
) -> bool {
    &&& trace[i].1.jobs@.len() > 0
    &&& exists|p: Ctx|
        #[trigger] popped(trace[i].1, p) && job_done(
            nodes,
            cfg,
            trace[i].1.jobs@[0],
            trace[i].0,
            trace[i + 1].0,
            p,
            trace[i + 1].1,
            submit_slurm,
            submit_local,
            read_output,
            copy_data,
            save_cache,
            validate_cache,
            save_output,
        )
}

/// `c` is the context `ctx` with the jobs `held` put in front of its
/// queue, last held first.
pub open spec fn held_requeued(held: Seq<Job>, ctx: Ctx, c: Ctx) -> bool {
    &&& c.jobs@ == held.reverse() + ctx.jobs@
    &&& c.statuses == ctx.statuses
    &&& c.updated == ctx.updated
    &&& c.try_nums == ctx.try_nums
    &&& c.local_jobs == ctx.local_jobs
    &&& c.slurm_jobs == ctx.slurm_jobs
    &&& c.running_cacheable == ctx.running_cacheable
}

/// A submission round as a trace of states (held jobs, context): it starts
/// with nothing held and the held jobs put back in front of the queue, and
/// each state follows from the one before by carrying out the first
/// queued job.
pub open spec fn submit_trace<
    S: Fn(usize, usize) -> Result<String, String>,
    L: Fn(usize, usize) -> Result<u32, String>,
    R: Fn(String) -> Result<JsonValue, String>,
    C: Fn(String, String) -> Result<u64, String>,
    K: Fn(String, String, usize) -> Result<u64, String>,
    V: Fn(usize, String) -> bool,
    O: Fn(String, TaskOutput) -> Result<(), String>,
>(
    nodes: Seq<Node>,
    cfg: Cfg,
    held: Seq<Job>,
    ctx: Ctx,
    trace: Seq<(Seq<Job>, Ctx)>,
    submit_slurm: S,
    submit_local: L,
    read_output: R,
    copy_data: C,
    save_cache: K,
    validate_cache: V,
    save_output: O,
) -> bool {
    &&& trace.len() >= 1
    &&& trace[0].0.len() == 0
    &&& held_requeued(held, ctx, trace[0].1)
    &&& forall|i: int|
        0 <= i < trace.len() - 1 ==> #[trigger] submit_step_at(
            nodes,
            cfg,
            trace,
            i,
            submit_slurm,
            submit_local,
            read_output,
            copy_data,
            save_cache,
            validate_cache,
            save_output,
        )
}

/// A job that waits for the next round: a task held back by the
/// concurrency limit, or a cache check held back by a running twin.
pub open spec fn held_job(j: Job) -> bool {
    j is Task || j matches Job::ValidateCache(_, false)
}

impl<'a> Submitter<'a> {
    /// Carry out the queued jobs, after the jobs held back in the previous
    /// round (which go first, in reverse order). Jobs that cannot run now
    /// are held back; nothing else is left in the queue. Whenever the
    /// running jobs were within the concurrency limit, they still are.
    pub fn submit<
        S: Fn(usize, usize) -> Result<String, String>,
        L: Fn(usize, usize) -> Result<u32, String>,
        R: Fn(String) -> Result<JsonValue, String>,
        C: Fn(String, String) -> Result<u64, String>,
        K: Fn(String, String, usize) -> Result<u64, String>,
        V: Fn(usize, String) -> bool,
        O: Fn(String, TaskOutput) -> Result<(), String>,
    >(
        &mut self,
        nodes: &[Node],
        ctx: &mut Ctx,
        submit_slurm: &S,
        submit_local: &L,
        read_output: &R,
        copy_data: &C,
        save_cache: &K,
        validate_cache: &V,
        save_output: &O,
    )
        requires
            indexed_by_uid(nodes@),
            ctx_fits(nodes@, *old(ctx)),
            jobs_in_range(old(ctx).jobs@, nodes@.len()),
            jobs_in_range(old(self).held_jobs@, nodes@.len()),
            forall|u: usize, t: usize| submit_slurm.requires((u, t)),
            forall|u: usize, t: usize| submit_local.requires((u, t)),
            forall|p: String| read_output.requires((p,)),
            forall|s: String, d: String| copy_data.requires((s, d)),
            forall|s: String, d: String, n: usize| save_cache.requires((s, d, n)),
            forall|u: usize, p: String| validate_cache.requires((u, p)),
            forall|p: String, o: TaskOutput| save_output.requires((p, o)),
        ensures
            final(self).cfg == old(self).cfg,
            final(self).meta == old(self).meta,
            final(ctx).jobs@.len() == 0,
            ctx_fits(nodes@, *final(ctx)),
            jobs_in_range(final(self).held_jobs@, nodes@.len()),
            forall|k: int|
                0 <= k < final(self).held_jobs@.len() ==> held_job(#[trigger] final(self).held_jobs@[k]),
            old(self).cfg.max_concurrency != 0 && old(ctx).nrunning_spec()
                <= old(self).cfg.max_concurrency ==> final(ctx).nrunning_spec()
                <= old(self).cfg.max_concurrency,
            exists|trace: Seq<(Seq<Job>, Ctx)>|
                #[trigger] submit_trace(
                    nodes@,
                    *old(self).cfg,
                    old(self).held_jobs@,
                    *old(ctx),
                    trace,
                    *submit_slurm,
                    *submit_local,
                    *read_output,
                    *copy_data,
                    *save_cache,
                    *validate_cache,
                    *save_output,
                ) && trace.last().0 == final(self).held_jobs@ && trace.last().1 == *final(ctx),
    {
        let n = nodes.len();
        let ghost h0 = self.held_jobs@;
        let ghost q0 = ctx.jobs@;
        let ghost cfg0 = *self.cfg;
        let ghost max = self.cfg.max_concurrency;
        let ghost start_nr = ctx.nrunning_spec();
        while self.held_jobs.len() > 0
            invariant
                n == nodes@.len(),
                ctx_fits(nodes@, *ctx),
                jobs_in_range(ctx.jobs@, n as nat),
                jobs_in_range(self.held_jobs@, n as nat),
                self.cfg == old(self).cfg,
                self.meta == old(self).meta,
                ctx.local_jobs == old(ctx).local_jobs,
                ctx.slurm_jobs == old(ctx).slurm_jobs,
                ctx.statuses == old(ctx).statuses,
                ctx.updated == old(ctx).updated,
                ctx.try_nums == old(ctx).try_nums,
                ctx.running_cacheable == old(ctx).running_cacheable,
                self.held_jobs@.len() <= h0.len(),
                self.held_jobs@ == h0.skip(h0.len() - self.held_jobs@.len()),
                ctx.jobs@ == h0.take(h0.len() - self.held_jobs@.len()).reverse() + q0,
            decreases self.held_jobs@.len(),
        {
            let ghost h = self.held_jobs@;
            let ghost jq = ctx.jobs@;
            let job = self.held_jobs.pop_front().unwrap();
            assert(job_uid(job) < n) by {
                assert(h[0] == job);
            }
            assert forall|k: int| 0 <= k < self.held_jobs@.len() implies job_uid(
                #[trigger] self.held_jobs@[k],
            ) < n by {
                assert(self.held_jobs@[k] == h[k + 1]);
            }
            ctx.jobs.push_front(job);
            assert forall|k: int| 0 <= k < ctx.jobs@.len() implies job_uid(#[trigger] ctx.jobs@[k])
                < n by {
                if k > 0 {
                    assert(ctx.jobs@[k] == jq[k - 1]);
                }
            }
            proof {
                let m = h0.len() - h.len();
                assert(h[0] == h0[m]);
                assert(self.held_jobs@ =~= h0.skip(m + 1));
                assert(h0.take(m + 1).reverse() =~= seq![h0[m]] + h0.take(m).reverse());
                assert(ctx.jobs@ =~= h0.take(m + 1).reverse() + q0);
            }
        }
        assert(self.held_jobs@.len() == 0);
        assert(h0.take(h0.len() as int) =~= h0);
        let ghost mut trace: Seq<(Seq<Job>, Ctx)> = seq![(self.held_jobs@, *ctx)];
        assert(self.held_jobs@ =~= Seq::<Job>::empty());
        while ctx.jobs.len() > 0
            invariant
                n == nodes@.len(),
                indexed_by_uid(nodes@),
                ctx_fits(nodes@, *ctx),
                jobs_in_range(ctx.jobs@, n as nat),
                jobs_in_range(self.held_jobs@, n as nat),
                forall|k: int| 0 <= k < self.held_jobs@.len() ==> held_job(#[trigger] self.held_jobs@[k]),
                self.cfg == old(self).cfg,
                self.meta == old(self).meta,
                max == self.cfg.max_concurrency,
                max != 0 && start_nr <= max ==> ctx.nrunning_spec() <= max,
                forall|u: usize, t: usize| submit_slurm.requires((u, t)),
                forall|u: usize, t: usize| submit_local.requires((u, t)),
                forall|p: String| read_output.requires((p,)),
                forall|s: String, d: String| copy_data.requires((s, d)),
                forall|s: String, d: String, n: usize| save_cache.requires((s, d, n)),
                forall|u: usize, p: String| validate_cache.requires((u, p)),
                forall|p: String, o: TaskOutput| save_output.requires((p, o)),
                cfg0 == *self.cfg,
                submit_trace(
                    nodes@,
                    cfg0,
                    h0,
                    *old(ctx),
                    trace,
                    *submit_slurm,
                    *submit_local,
                    *read_output,
                    *copy_data,
                    *save_cache,
                    *validate_cache,
                    *save_output,
                ),
                trace.last() == (self.held_jobs@, *ctx),
            decreases queue_weight(nodes@, ctx.try_nums@, ctx.jobs@),
        {
            let ghost before = *ctx;
            let ghost q = ctx.jobs@;
            let ghost tn = ctx.try_nums@;
            let ghost held0 = self.held_jobs@;
            let job = ctx.jobs.pop_front().unwrap();
            let ghost p = *ctx;
            assert(popped(before, p));
            assert(job == before.jobs@[0]);
            let ghost rest = ctx.jobs@;
            assert(rest =~= q.drop_first());
            assert(queue_weight(nodes@, tn, q) == job_weight(nodes@, tn, job) + queue_weight(
                nodes@,
                tn,
                rest,
            ));
            assert(jobs_in_range(rest, n as nat)) by {
                assert forall|k: int| 0 <= k < rest.len() implies job_uid(#[trigger] rest[k]) < n by {
                    assert(rest[k] == q[k + 1]);
                }
            }
            assert(job_uid(job) < n) by {
                assert(q[0] == job);
            }
            match job {
                Job::Task(uid) => {
                    if let Node::Task(task) = &nodes[uid] {
                        assert(node_uid(nodes@[uid as int]) == uid);
                        self.handle_task_submission(task, ctx, submit_slurm, submit_local);
                        proof {
                            lemma_queue_weight_bump(
                                nodes@,
                                tn,
                                uid as int,
                                ctx.try_nums@[uid as int],
                                rest,
                            );
                            if ctx.jobs@ != rest {
                                lemma_queue_weight_push(nodes@, ctx.try_nums@, rest, Job::Task(uid));
                            }
                            if ctx.try_nums@ == tn {
                                assert(ctx.try_nums@ == tn.update(uid as int, tn[uid as int]));
                            }
                        }
                    }
                },
                Job::Branch(uid) => {
                    if let Node::Branch(branch) = &nodes[uid] {
                        self.submit_branch(branch, ctx, read_output);
                    }
                },
                Job::OneOf(uid, target) => {
                    if let Node::OneOf(oneof) = &nodes[uid] {
                        self.submit_oneof(oneof, target, ctx, copy_data);
                    }
                },
                Job::SaveCache(uid) => {
                    if let Node::Task(task) = &nodes[uid] {
                        self.submit_save_cache(task, ctx, save_cache);
                    }
                },
                Job::ValidateCache(uid, already_checked) => {
                    if let Node::Task(task) = &nodes[uid] {
                        assert(node_uid(nodes@[uid as int]) == uid);
                        self.handle_cache_validation(task, ctx, already_checked, validate_cache);
                        proof {
                            if ctx.jobs@ != rest {
                                lemma_queue_weight_push(nodes@, ctx.try_nums@, rest, Job::Task(uid));
                            }
                        }
                    }
                },
                Job::SaveExtOutput(uid, job_type) => {
                    if let Node::Task(task) = &nodes[uid] {
                        self.submit_save_ext_output(task, job_type, ctx, save_output);
                        proof {
                            if ctx.jobs@ != rest {
                                lemma_queue_weight_push(
                                    nodes@,
                                    ctx.try_nums@,
                                    rest,
                                    Job::SaveCache(uid),
                                );
                            }
                        }
                    }
                },
            }
            assert(jobs_in_range(self.held_jobs@, n as nat)) by {
                assert forall|k: int| 0 <= k < self.held_jobs@.len() implies job_uid(
                    #[trigger] self.held_jobs@[k],
                ) < n by {
                    if k < held0.len() {
                        assert(self.held_jobs@[k] == held0[k]);
                    }
                }
            }
            assert forall|k: int| 0 <= k < self.held_jobs@.len() implies held_job(
                #[trigger] self.held_jobs@[k],
            ) by {
                if k < held0.len() {
                    assert(self.held_jobs@[k] == held0[k]);
                }
            }
            assert(jobs_in_range(ctx.jobs@, n as nat)) by {
                assert forall|k: int| 0 <= k < ctx.jobs@.len() implies job_uid(#[trigger] ctx.jobs@[k])
                    < n by {
                    if k < rest.len() {
                        assert(ctx.jobs@[k] == rest[k]);
                    }
                }
            }
            proof {
                let old_trace = trace;
                assert(job_done(
                    nodes@,
                    cfg0,
                    job,
                    held0,
                    self.held_jobs@,
                    p,
                    *ctx,
                    *submit_slurm,
                    *submit_local,
                    *read_output,
                    *copy_data,
                    *save_cache,
                    *validate_cache,
                    *save_output,
                ));
                trace = trace.push((self.held_jobs@, *ctx));
                assert forall|i: int| 0 <= i < trace.len() - 1 implies #[trigger] submit_step_at(
                    nodes@,
                    cfg0,
                    trace,
                    i,
                    *submit_slurm,
                    *submit_local,
                    *read_output,
                    *copy_data,
                    *save_cache,
                    *validate_cache,
                    *save_output,
                ) by {
                    assert(trace[i] == old_trace[i]);
                    if i < old_trace.len() - 1 {
                        assert(trace[i + 1] == old_trace[i + 1]);
                        assert(submit_step_at(
                            nodes@,
                            cfg0,
                            old_trace,
                            i,
                            *submit_slurm,
                            *submit_local,
                            *read_output,
                            *copy_data,
                            *save_cache,
                            *validate_cache,
                            *save_output,
                        ));
                    } else {
                        assert(old_trace[i] == (held0, before));
                        assert(trace[i + 1] == (self.held_jobs@, *ctx));
                        assert(popped(trace[i].1, p));
                    }
                }
                assert(trace[0] == old_trace[0]);
            }
        }
    }
}

} // verus!
