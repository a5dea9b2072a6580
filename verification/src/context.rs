//! Scheduler context: statuses, try counts, queues of updated nodes and
//! pending jobs, and the jobs that are running.

use crate::nodes::{node_uid, Node, Task};
use crate::status::{Failed, JobType, Status};
use crate::submission::handle_retries;
use crate::text::{concat_str, decimal, decimal_string, str_eq};
use std::collections::VecDeque;
use vstd::prelude::*;

verus! {

/// Work the submitter has to carry out for a node.
#[derive(Clone, Debug, PartialEq)]
pub enum Job {
    /// Submit a task.
    Task(usize),
    /// Complete a one-of node with the data of the given parent.
    OneOf(usize, usize),
    /// Evaluate a branch.
    Branch(usize),
    /// Check the cache of a task; the flag tells whether it was already checked.
    ValidateCache(usize, bool),
    /// Save a task's data into its cache.
    SaveCache(usize),
    /// Save the (empty) output of an external task.
    SaveExtOutput(usize, JobType),
}

/// Scheduler context.
pub struct Ctx {
    /// Nodes whose status changed and whose children must be visited.
    pub updated: VecDeque<usize>,
    /// Status of each node, indexed by uid.
    pub statuses: Vec<Status>,
    /// Jobs waiting for the submitter.
    pub jobs: VecDeque<Job>,
    /// Number of submissions of each node, indexed by uid.
    pub try_nums: Vec<usize>,
    /// Running local processes: node uid and pid.
    pub local_jobs: Vec<(usize, u32)>,
    /// Submitted Slurm jobs: node uid and job id.
    pub slurm_jobs: Vec<(usize, String)>,
    /// Names of cacheable tasks that are running.
    pub running_cacheable: Vec<String>,
}

/// The set of names held by a list of strings.
pub open spec fn name_set(v: Seq<String>) -> Set<Seq<char>> {
    Set::new(|s: Seq<char>| exists|i: int| 0 <= i < v.len() && (#[trigger] v[i])@ == s)
}

/// Adding a string adds its characters to the set of names.
pub proof fn lemma_name_set_push(v: Seq<String>, x: String)
    ensures
        name_set(v.push(x)) == name_set(v).insert(x@),
{
    let w = v.push(x);
    assert forall|s: Seq<char>| name_set(w).contains(s) implies name_set(v).insert(x@).contains(s) by {
        let i = choose|i: int| 0 <= i < w.len() && (#[trigger] w[i])@ == s;
        if i < v.len() {
            assert(v[i] == w[i]);
        }
    }
    assert forall|s: Seq<char>| name_set(v).insert(x@).contains(s) implies name_set(w).contains(s) by {
        if s == x@ {
            assert(w[v.len() as int]@ == s);
        } else {
            let i = choose|i: int| 0 <= i < v.len() && (#[trigger] v[i])@ == s;
            assert(w[i] == v[i]);
        }
    }
    assert(name_set(w) =~= name_set(v).insert(x@));
}

/// Smallest uid of a non-empty node list.
pub open spec fn min_uid(s: Seq<Node>) -> usize
    decreases s.len(),
{
    if s.len() <= 1 {
        node_uid(s[0])
    } else {
        let m = min_uid(s.drop_last());
        let u = node_uid(s.last());
        if u < m {
            u
        } else {
            m
        }
    }
}

/// Largest uid of a non-empty node list.
pub open spec fn max_uid(s: Seq<Node>) -> usize
    decreases s.len(),
{
    if s.len() <= 1 {
        node_uid(s[0])
    } else {
        let m = max_uid(s.drop_last());
        let u = node_uid(s.last());
        if u > m {
            u
        } else {
            m
        }
    }
}

/// The uids of a node list are compatible with indexing: the smallest is 0
/// and the largest is the number of nodes minus one.
pub open spec fn uids_span_nodes(s: Seq<Node>) -> bool {
    s.len() > 0 && min_uid(s) == 0 && max_uid(s) == s.len() - 1
}

/// Message of `Ctx::new` when the uids do not match the number of nodes.
pub open spec fn uid_mismatch_message(min: nat, max: nat, n: nat) -> Seq<char> {
    "Min uid '"@ + decimal(min) + "', max uid '"@ + decimal(max) + "', and number of nodes '"@
        + decimal(n) + "' do not correspond."@
}

/// Every slot of `v` holds `NotSubmitted`.
pub open spec fn all_not_submitted(v: Seq<Status>) -> bool {
    forall|i: int| 0 <= i < v.len() ==> (#[trigger] v[i]) is NotSubmitted
}

/// A fresh context for `n` nodes.
pub open spec fn is_fresh(ctx: Ctx, n: nat) -> bool {
    &&& ctx.statuses@.len() == n
    &&& all_not_submitted(ctx.statuses@)
    &&& ctx.try_nums@ == Seq::new(n, |i: int| 0usize)
    &&& ctx.updated@.len() == 0
    &&& ctx.jobs@.len() == 0
    &&& ctx.local_jobs@.len() == 0
    &&& ctx.slurm_jobs@.len() == 0
    &&& ctx.running_cacheable@.len() == 0
}

/// Slurm jobs recorded by a status list: every pending or running Slurm
/// job, in uid order.
pub open spec fn slurm_jobs_of(statuses: Seq<Status>) -> Seq<(usize, Seq<char>)>
    decreases statuses.len(),
{
    if statuses.len() == 0 {
        Seq::empty()
    } else {
        let rest = slurm_jobs_of(statuses.drop_last());
        let uid = (statuses.len() - 1) as usize;
        match statuses.last() {
            Status::Pending(JobType::Slurm(id)) => rest.push((uid, id@)),
            Status::Running(JobType::Slurm(id)) => rest.push((uid, id@)),
            _ => rest,
        }
    }
}

/// View of a list of Slurm jobs.
pub open spec fn slurm_view(v: Seq<(usize, String)>) -> Seq<(usize, Seq<char>)> {
    v.map_values(|j: (usize, String)| (j.0, j.1@))
}

/// The context as a mathematical value; running cacheable task names are
/// kept as a set.
pub struct CtxState {
    pub updated: Seq<usize>,
    pub statuses: Seq<Status>,
    pub jobs: Seq<Job>,
    pub try_nums: Seq<usize>,
    pub local_jobs: Seq<(usize, u32)>,
    pub slurm_jobs: Seq<(usize, String)>,
    pub cacheable: Set<Seq<char>>,
}

impl View for Ctx {
    type V = CtxState;

    open spec fn view(&self) -> CtxState {
        CtxState {
            updated: self.updated@,
            statuses: self.statuses@,
            jobs: self.jobs@,
            try_nums: self.try_nums@,
            local_jobs: self.local_jobs@,
            slurm_jobs: self.slurm_jobs@,
            cacheable: name_set(self.running_cacheable@),
        }
    }
}

/// What a restart does to a task whose local process was running: the
/// process is gone, so the try fails; past its retries the task fails for
/// good and its children are to be visited, otherwise it is queued again.
/// Any other task is left alone.
pub open spec fn local_restart_step(t: Task, v: CtxState) -> CtxState {
    match v.statuses[t.uid as int] {
        Status::Running(JobType::Local(pid)) => if v.try_nums[t.uid as int] > t.retries {
            CtxState {
                statuses: v.statuses.update(
                    t.uid as int,
                    Status::Failed(Failed::Job(JobType::Local(pid))),
                ),
                updated: v.updated.push(t.uid),
                ..v
            }
        } else {
            CtxState { jobs: v.jobs.push(Job::Task(t.uid)), ..v }
        },
        _ => v,
    }
}

/// The restart step applied to each task node of the list, in order.
pub open spec fn locals_restarted(nodes: Seq<Node>, v: CtxState) -> CtxState
    decreases nodes.len(),
{
    if nodes.len() == 0 {
        v
    } else {
        let w = locals_restarted(nodes.drop_last(), v);
        match nodes.last() {
            Node::Task(t) => local_restart_step(t, w),
            _ => w,
        }
    }
}

/// Every task of the list has a status and a try count in the checkpoint.
pub open spec fn checkpoint_fits(nodes: Seq<Node>, statuses: Seq<Status>, try_nums: Seq<usize>) -> bool {
    forall|i: int|
        0 <= i < nodes.len() ==> (#[trigger] nodes[i] is Task ==> node_uid(nodes[i])
            < statuses.len() && node_uid(nodes[i]) < try_nums.len())
}

/// `r` is the context rebuilt from checkpointed statuses and try counts:
/// the statuses are kept, but for local processes, which cannot survive a
/// restart and go through the retry rules; the Slurm jobs pending or
/// running are followed.
pub open spec fn restored_from(statuses: Seq<Status>, try_nums: Seq<usize>, r: Ctx) -> bool {
    &&& r.statuses@.len() == statuses.len()
    &&& r.try_nums@ == try_nums
    &&& r.local_jobs@.len() == 0
    &&& r.running_cacheable@.len() == 0
    &&& slurm_view(r.slurm_jobs@) == slurm_jobs_of(r.statuses@)
    &&& forall|i: int|
        0 <= i < statuses.len() && !(statuses[i] matches Status::Running(JobType::Local(_)))
            ==> #[trigger] r.statuses@[i] == statuses[i]
    &&& forall|i: int|
        0 <= i < statuses.len() && r.statuses@[i] != statuses[i] ==> (#[trigger] r.statuses@[i]) is Failed
}

impl Ctx {
    /// Number of running jobs, Slurm and local.
    pub open spec fn nrunning_spec(&self) -> nat {
        self.slurm_jobs@.len() + self.local_jobs@.len()
    }

    /// Build a fresh context, after checking that the uids run from 0 to
    /// the number of nodes minus one.
    pub fn new(nodes: &[Node]) -> (r: Result<Ctx, String>)
        ensures
            r is Ok <==> uids_span_nodes(nodes@),
            r matches Ok(ctx) ==> is_fresh(ctx, nodes@.len()),
            nodes@.len() == 0 ==> (r matches Err(m) && m@ == "Failed to compute min uid"@),
            nodes@.len() > 0 && !uids_span_nodes(nodes@) ==> (r matches Err(m) && m@
                == uid_mismatch_message(
                min_uid(nodes@) as nat,
                max_uid(nodes@) as nat,
                nodes@.len(),
            )),
    {
        let nnodes = nodes.len();
        if nnodes == 0 {
            return Err(String::from_str("Failed to compute min uid"));
        }
        let mut min = nodes[0].get_uid();
        let mut max = nodes[0].get_uid();
        let mut i: usize = 1;
        while i < nnodes
            invariant
                nnodes == nodes@.len(),
                1 <= i <= nnodes,
                min == min_uid(nodes@.take(i as int)),
                max == max_uid(nodes@.take(i as int)),
            decreases nnodes - i,
        {
            let u = nodes[i].get_uid();
            assert(nodes@.take(i + 1).drop_last() =~= nodes@.take(i as int));
            if u < min {
                min = u;
            }
            if u > max {
                max = u;
            }
            i = i + 1;
        }
        assert(nodes@.take(nnodes as int) =~= nodes@);
        if min != 0 || max != nnodes - 1 {
            let mut msg = concat_str("Min uid '", decimal_string(min as u64).as_str());
            msg.append("', max uid '");
            msg.append(decimal_string(max as u64).as_str());
            msg.append("', and number of nodes '");
            msg.append(decimal_string(nnodes as u64).as_str());
            msg.append("' do not correspond.");
            assert(msg@ =~= uid_mismatch_message(min as nat, max as nat, nnodes as nat));
            return Err(msg);
        }
        let mut statuses: Vec<Status> = Vec::with_capacity(nnodes);
        let mut try_nums: Vec<usize> = Vec::with_capacity(nnodes);
        let mut k: usize = 0;
        while k < nnodes
            invariant
                k <= nnodes,
                statuses@.len() == k,
                all_not_submitted(statuses@),
                try_nums@ == Seq::new(k as nat, |i: int| 0usize),
            decreases nnodes - k,
        {
            statuses.push(Status::NotSubmitted);
            try_nums.push(0);
            assert(try_nums@ =~= Seq::new((k + 1) as nat, |i: int| 0usize));
            k = k + 1;
        }
        Ok(Ctx {
            statuses,
            updated: VecDeque::new(),
            jobs: VecDeque::new(),
            try_nums,
            running_cacheable: Vec::new(),
            local_jobs: Vec::new(),
            slurm_jobs: Vec::new(),
        })
    }

    /// Number of running jobs, Slurm and local.
    pub fn nrunning(&self) -> (r: usize)
        requires
            self.nrunning_spec() <= usize::MAX,
        ensures
            r == self.nrunning_spec(),
    {
        self.slurm_jobs.len() + self.local_jobs.len()
    }

    /// Whether a cacheable task of this name is running.
    pub fn is_running_cacheable(&self, name: &str) -> (r: bool)
        ensures
            r == name_set(self.running_cacheable@).contains(name@),
    {
        let mut i: usize = 0;
        while i < self.running_cacheable.len()
            invariant
                0 <= i <= self.running_cacheable@.len(),
                forall|j: int| 0 <= j < i ==> self.running_cacheable@[j]@ != name@,
            decreases self.running_cacheable@.len() - i,
        {
            if str_eq(self.running_cacheable[i].as_str(), name) {
                assert(self.running_cacheable@[i as int]@ == name@);
                return true;
            }
            i = i + 1;
        }
        false
    }

    /// Record a running cacheable task name.
    pub fn add_running_cacheable(&mut self, name: &str)
        ensures
            name_set(final(self).running_cacheable@) == name_set(old(self).running_cacheable@).insert(
                name@,
            ),
            final(self).statuses == old(self).statuses,
            final(self).try_nums == old(self).try_nums,
            final(self).updated == old(self).updated,
            final(self).jobs == old(self).jobs,
            final(self).local_jobs == old(self).local_jobs,
            final(self).slurm_jobs == old(self).slurm_jobs,
    {
        let ghost before = self.running_cacheable@;
        if !self.is_running_cacheable(name) {
            let s = String::from_str(name);
            proof {
                lemma_name_set_push(before, s);
            }
            self.running_cacheable.push(s);
        } else {
            assert(name_set(before) =~= name_set(before).insert(name@));
        }
    }

    /// Forget a running cacheable task name.
    pub fn remove_running_cacheable(&mut self, name: &str)
        ensures
            name_set(final(self).running_cacheable@) == name_set(old(self).running_cacheable@).remove(
                name@,
            ),
            final(self).statuses == old(self).statuses,
            final(self).try_nums == old(self).try_nums,
            final(self).updated == old(self).updated,
            final(self).jobs == old(self).jobs,
            final(self).local_jobs == old(self).local_jobs,
            final(self).slurm_jobs == old(self).slurm_jobs,
    {
        let ghost before = self.running_cacheable@;
        let mut kept: Vec<String> = Vec::new();
        let mut i: usize = 0;
        assert(name_set(kept@) =~= name_set(before.take(0)).remove(name@));
        while i < self.running_cacheable.len()
            invariant
                0 <= i <= self.running_cacheable@.len(),
                self.running_cacheable@ == before,
                name_set(kept@) == name_set(before.take(i as int)).remove(name@),
            decreases self.running_cacheable@.len() - i,
        {
            let item = self.running_cacheable[i].clone();
            proof {
                assert(before.take(i + 1) =~= before.take(i as int).push(item));
                lemma_name_set_push(before.take(i as int), item);
            }
            if !str_eq(item.as_str(), name) {
                proof {
                    lemma_name_set_push(kept@, item);
                }
                kept.push(item);
                assert(name_set(kept@) =~= name_set(before.take(i + 1)).remove(name@));
            } else {
                assert(name_set(kept@) =~= name_set(before.take(i + 1)).remove(name@));
            }
            i = i + 1;
        }
        assert(before.take(before.len() as int) =~= before);
        self.running_cacheable = kept;
    }

    /// Rebuild a context from a checkpoint: local processes cannot survive a
    /// restart, so running local tasks count as failed (and are retried if
    /// they may be); pending and running Slurm jobs are followed again.
    pub fn from_checkpoint(nodes: &[Node], statuses: Vec<Status>, try_nums: Vec<usize>) -> (r: Self)
        requires
            checkpoint_fits(nodes@, statuses@, try_nums@),
        ensures
            restored_from(statuses@, try_nums@, r),
    {
        let mut ctx = Ctx {
            statuses,
            try_nums,
            updated: VecDeque::new(),
            jobs: VecDeque::new(),
            running_cacheable: Vec::new(),
            local_jobs: Vec::new(),
            slurm_jobs: Vec::new(),
        };
        ctx.mark_all_local_running_jobs_as_failed(nodes);
        ctx.collect_running_slurm_jobs();
        ctx
    }

    fn mark_all_local_running_jobs_as_failed(&mut self, nodes: &[Node])
        requires
            forall|i: int|
                0 <= i < nodes@.len() ==> (#[trigger] nodes@[i] is Task ==> node_uid(nodes@[i])
                    < old(self).statuses@.len() && node_uid(nodes@[i]) < old(
                    self,
                ).try_nums@.len()),
        ensures
            final(self).statuses@.len() == old(self).statuses@.len(),
            final(self).try_nums == old(self).try_nums,
            final(self).local_jobs == old(self).local_jobs,
            final(self).slurm_jobs == old(self).slurm_jobs,
            final(self).running_cacheable == old(self).running_cacheable,
            forall|i: int|
                0 <= i < old(self).statuses@.len() && !(old(self).statuses@[i] matches Status::Running(
                    JobType::Local(_),
                )) ==> #[trigger] final(self).statuses@[i] == old(self).statuses@[i],
            forall|i: int|
                0 <= i < old(self).statuses@.len() && final(self).statuses@[i] != old(
                    self,
                ).statuses@[i] ==> (#[trigger] final(self).statuses@[i]) is Failed,
            final(self)@ == locals_restarted(nodes@, old(self)@),
    {
        let ghost start = self.statuses@;
        assert(nodes@.take(0) =~= Seq::<Node>::empty());
        let mut k: usize = 0;
        while k < nodes.len()
            invariant
                0 <= k <= nodes@.len(),
                forall|i: int|
                    0 <= i < nodes@.len() ==> (#[trigger] nodes@[i] is Task ==> node_uid(nodes@[i])
                        < self.statuses@.len() && node_uid(nodes@[i]) < self.try_nums@.len()),
                self.statuses@.len() == start.len(),
                self.try_nums == old(self).try_nums,
                self.local_jobs == old(self).local_jobs,
                self.slurm_jobs == old(self).slurm_jobs,
                self.running_cacheable == old(self).running_cacheable,
                forall|i: int|
                    0 <= i < start.len() && !(start[i] matches Status::Running(JobType::Local(_)))
                        ==> #[trigger] self.statuses@[i] == start[i],
                forall|i: int|
                    0 <= i < start.len() && self.statuses@[i] != start[i] ==> (
                    #[trigger] self.statuses@[i]) is Failed,
                self@ == locals_restarted(nodes@.take(k as int), old(self)@),
            decreases nodes@.len() - k,
        {
            assert(nodes@.take(k + 1).drop_last() =~= nodes@.take(k as int));
            assert(nodes@.take(k + 1).last() == nodes@[k as int]);
            if let Node::Task(task) = &nodes[k] {
                assert(nodes@[k as int] is Task);
                if let Status::Running(JobType::Local(pid)) = &self.statuses[task.uid] {
                    let failure = Failed::Job(JobType::Local(*pid));
                    handle_retries(task, self, failure);
                }
            }
            k = k + 1;
        }
        assert(nodes@.take(nodes@.len() as int) =~= nodes@);
    }

    fn collect_running_slurm_jobs(&mut self)
        requires
            old(self).slurm_jobs@.len() == 0,
        ensures
            slurm_view(final(self).slurm_jobs@) == slurm_jobs_of(final(self).statuses@),
            final(self).statuses == old(self).statuses,
            final(self).try_nums == old(self).try_nums,
            final(self).local_jobs == old(self).local_jobs,
            final(self).running_cacheable == old(self).running_cacheable,
            final(self).updated == old(self).updated,
            final(self).jobs == old(self).jobs,
    {
        let mut uid: usize = 0;
        while uid < self.statuses.len()
            invariant
                0 <= uid <= self.statuses@.len(),
                self.statuses == old(self).statuses,
                self.try_nums == old(self).try_nums,
                self.local_jobs == old(self).local_jobs,
                self.running_cacheable == old(self).running_cacheable,
                self.updated == old(self).updated,
                self.jobs == old(self).jobs,
                slurm_view(self.slurm_jobs@) == slurm_jobs_of(self.statuses@.take(uid as int)),
            decreases self.statuses@.len() - uid,
        {
            assert(self.statuses@.take(uid + 1).drop_last() =~= self.statuses@.take(uid as int));
            assert(self.statuses@.take(uid + 1).last() == self.statuses@[uid as int]);
            let id = match &self.statuses[uid] {
                Status::Pending(JobType::Slurm(job_id)) => Some(job_id.clone()),
                Status::Running(JobType::Slurm(job_id)) => Some(job_id.clone()),
                _ => None,
            };
            if let Some(job_id) = id {
                self.slurm_jobs.push((uid, job_id));
            }
            assert(slurm_view(self.slurm_jobs@) =~= slurm_jobs_of(self.statuses@.take(uid + 1)));
            uid = uid + 1;
        }
        assert(self.statuses@.take(self.statuses@.len() as int) =~= self.statuses@);
    }
}

} // verus!
