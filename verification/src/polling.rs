//! Polling of running jobs: reading the states that Slurm reports and
//! turning them into node statuses and follow-up jobs.

use crate::context::{Ctx, CtxState, Job};
use crate::nodes::{node_uid, Node, Task};
use crate::visitors::indexed_by_uid;
use crate::pattern::{pattern_compiles, regex_group, Pattern};
use crate::schemas::ExecMode;
use crate::settings::Cfg;
use crate::status::{Completed, Failed, JobType, Status};
use crate::submission::handle_retries;
use crate::text::{concat_str, lines, split_lines, str_eq};
use std::collections::HashMap;
use vstd::prelude::*;

verus! {

broadcast use vstd::std_specs::hash::group_hash_axioms;

/// The status `r` stands for the Slurm state `state` of job `job_id`.
pub open spec fn reads_as(state: Seq<char>, job_id: Seq<char>, r: Status) -> bool {
    if state == "COMPLETED"@ {
        r matches Status::Completed(Completed::Job(JobType::Slurm(id))) && id@ == job_id
    } else if state == "CONFIGURING"@ || state == "PENDING"@ {
        r matches Status::Pending(JobType::Slurm(id)) && id@ == job_id
    } else if state == "RUNNING"@ || state == "COMPLETING"@ {
        r matches Status::Running(JobType::Slurm(id)) && id@ == job_id
    } else {
        r matches Status::Failed(Failed::Job(JobType::Slurm(id))) && id@ == job_id
    }
}

/// Status of a Slurm job from the state name `sacct` reports: completed,
/// pending (also while configuring), running (also while completing), and
/// failed for any other state.
pub fn get_status_from_string(status_string: &str, job_id: &str) -> (r: Status)
    ensures
        reads_as(status_string@, job_id@, r),
{
    let job_type = JobType::Slurm(String::from_str(job_id));
    if str_eq(status_string, "COMPLETED") {
        Status::Completed(Completed::Job(job_type))
    } else if str_eq(status_string, "CONFIGURING") || str_eq(status_string, "PENDING") {
        Status::Pending(job_type)
    } else if str_eq(status_string, "RUNNING") || str_eq(status_string, "COMPLETING") {
        Status::Running(job_type)
    } else {
        Status::Failed(Failed::Job(job_type))
    }
}

/// Pattern that finds the state of job `job_id` in a line of `sacct`
/// output: the id, blanks, and the state word in the group `status`.
pub open spec fn slurm_status_pattern(job_id: Seq<char>) -> Seq<char> {
    job_id + "\\s+(?<status>\\w+)"@
}

/// The group `group` of the first line of `ls` that the pattern matches.
pub open spec fn first_group(pattern: Seq<char>, ls: Seq<Seq<char>>, group: Seq<char>) -> Option<
    Seq<char>,
>
    decreases ls.len(),
{
    if ls.len() == 0 {
        None
    } else {
        match regex_group(pattern, ls[0], group) {
            Some(g) => Some(g),
            None => first_group(pattern, ls.drop_first(), group),
        }
    }
}

/// The state `sacct` reports for a job in `stdout`.
pub open spec fn slurm_state(job_id: Seq<char>, stdout: Seq<char>) -> Option<Seq<char>> {
    first_group(slurm_status_pattern(job_id), lines(stdout), "status"@)
}

proof fn lemma_first_group_split(pattern: Seq<char>, ls: Seq<Seq<char>>, group: Seq<char>, i: int)
    requires
        0 <= i < ls.len(),
        first_group(pattern, ls.take(i), group) is None,
    ensures
        first_group(pattern, ls.take(i + 1), group) == match regex_group(pattern, ls[i], group) {
            Some(g) => Some(g),
            None => None,
        },
        first_group(pattern, ls, group) == match regex_group(pattern, ls[i], group) {
            Some(g) => Some(g),
            None => first_group(pattern, ls.skip(i + 1), group),
        },
    decreases i,
{
    assert(first_group(pattern, Seq::<Seq<char>>::empty(), group) is None);
    if i == 0 {
        assert(ls.take(1).drop_first() =~= Seq::<Seq<char>>::empty());
        assert(ls.drop_first() =~= ls.skip(1));
        assert(ls.take(1)[0] == ls[0]);
    } else {
        assert(ls.take(i)[0] == ls[0]);
        assert(ls.take(i + 1)[0] == ls[0]);
        assert(ls.take(i).drop_first() =~= ls.drop_first().take(i - 1));
        assert(ls.take(i + 1).drop_first() =~= ls.drop_first().take(i));
        assert(ls.drop_first().skip(i) =~= ls.skip(i + 1));
        assert(ls.drop_first()[i - 1] == ls[i]);
        assert(regex_group(pattern, ls[0], group) is None);
        lemma_first_group_split(pattern, ls.drop_first(), group, i - 1);
    }
}

/// The state of job `job_id` in `sacct` output: the word after the id on
/// the first line that holds the id followed by blanks.
pub fn parse_slurm_status(job_id: &str, stdout: &str) -> (r: Option<String>)
    requires
        pattern_compiles(slurm_status_pattern(job_id@)),
    ensures
        match r {
            Some(s) => slurm_state(job_id@, stdout@) == Some(s@),
            None => slurm_state(job_id@, stdout@) is None,
        },
{
    let matched = concat_str(job_id, "\\s+(?<status>\\w+)");
    let re = match Pattern::compile(matched.as_str()) {
        Some(p) => p,
        None => {
            return None;
        },
    };
    let ls = split_lines(stdout);
    let ghost pattern = slurm_status_pattern(job_id@);
    let ghost lv = lines(stdout@);
    assert(ls@.map_values(|l: String| l@) == lv);
    let mut i: usize = 0;
    while i < ls.len()
        invariant
            i <= ls@.len(),
            ls@.map_values(|l: String| l@) == lv,
            re.source() == pattern,
            pattern == slurm_status_pattern(job_id@),
            lv == lines(stdout@),
            first_group(pattern, lv.take(i as int), "status"@) is None,
        decreases ls@.len() - i,
    {
        assert(ls@.map_values(|l: String| l@)[i as int] == ls@[i as int]@);
        proof {
            lemma_first_group_split(pattern, lv, "status"@, i as int);
        }
        let line = ls[i].as_str();
        assert(line@ == lv[i as int]);
        match re.group(line, "status") {
            Some(s) => {
                assert(regex_group(pattern, lv[i as int], "status"@) == Some(s@));
                assert(first_group(pattern, lv, "status"@) == Some(s@));
                return Some(s);
            },
            None => {},
        }
        i = i + 1;
    }
    assert(lv.take(lv.len() as int) =~= lv);
    None
}

/// The Slurm ids of the jobs, joined by commas.
pub open spec fn joined_ids(jobs: Seq<(usize, String)>) -> Seq<char>
    decreases jobs.len(),
{
    if jobs.len() == 0 {
        Seq::empty()
    } else if jobs.len() == 1 {
        jobs[0].1@
    } else {
        joined_ids(jobs.drop_last()) + seq![','] + jobs.last().1@
    }
}

fn join_job_ids(jobs: &[(usize, String)]) -> (s: String)
    ensures
        s@ == joined_ids(jobs@),
{
    let mut s = String::new();
    let mut i: usize = 0;
    while i < jobs.len()
        invariant
            i <= jobs@.len(),
            s@ == joined_ids(jobs@.take(i as int)),
        decreases jobs@.len() - i,
    {
        assert(jobs@.take(i + 1).drop_last() =~= jobs@.take(i as int));
        assert(jobs@.take(i + 1).last() == jobs@[i as int]);
        if i > 0 {
            proof {
                reveal_strlit(",");
            }
            s.append(",");
        } else {
            assert(jobs@.take(1)[0] == jobs@[0]);
        }
        s.append(jobs[i].1.as_str());
        i = i + 1;
    }
    assert(jobs@.take(jobs@.len() as int) =~= jobs@);
    s
}

/// Every job id makes a valid Slurm pattern (see `slurm_status_pattern`).
pub open spec fn slurm_ids_compile(jobs: Seq<(usize, String)>) -> bool {
    forall|k: int| 0 <= k < jobs.len() ==> pattern_compiles(slurm_status_pattern((#[trigger] jobs[k]).1@))
}

/// Whether every job id makes a valid Slurm pattern.
pub fn slurm_ids_valid(jobs: &[(usize, String)]) -> (r: bool)
    ensures
        r == slurm_ids_compile(jobs@),
{
    let mut i: usize = 0;
    while i < jobs.len()
        invariant
            i <= jobs@.len(),
            forall|k: int| 0 <= k < i ==> pattern_compiles(slurm_status_pattern((#[trigger] jobs@[k]).1@)),
        decreases jobs@.len() - i,
    {
        let matched = concat_str(jobs[i].1.as_str(), "\\s+(?<status>\\w+)");
        if Pattern::compile(matched.as_str()).is_none() {
            return false;
        }
        i = i + 1;
    }
    true
}

/// Uid, job id and state of each job whose state is found in `stdout`, in
/// the order of the jobs.
pub open spec fn slurm_found(jobs: Seq<(usize, String)>, stdout: Seq<char>) -> Seq<
    (usize, Seq<char>, Seq<char>),
>
    decreases jobs.len(),
{
    if jobs.len() == 0 {
        Seq::empty()
    } else {
        let prev = slurm_found(jobs.drop_last(), stdout);
        let j = jobs.last();
        match slurm_state(j.1@, stdout) {
            Some(state) => prev.push((j.0, j.1@, state)),
            None => prev,
        }
    }
}

/// `r` holds, for each job found, its uid and the status its state reads as.
pub open spec fn statuses_read(found: Seq<(usize, Seq<char>, Seq<char>)>, r: Seq<(usize, Status)>) -> bool {
    &&& r.len() == found.len()
    &&& forall|k: int|
        0 <= k < r.len() ==> (#[trigger] r[k]).0 == found[k].0 && reads_as(
            found[k].2,
            found[k].1,
            r[k].1,
        )
}

/// Statuses of the jobs whose state `sacct` reported in `stdout`.
pub fn read_slurm_statuses(jobs: &[(usize, String)], stdout: &str) -> (r: Vec<(usize, Status)>)
    requires
        slurm_ids_compile(jobs@),
    ensures
        statuses_read(slurm_found(jobs@, stdout@), r@),
{
    let mut out: Vec<(usize, Status)> = Vec::new();
    let mut i: usize = 0;
    while i < jobs.len()
        invariant
            i <= jobs@.len(),
            slurm_ids_compile(jobs@),
            statuses_read(slurm_found(jobs@.take(i as int), stdout@), out@),
        decreases jobs@.len() - i,
    {
        let ghost before = out@;
        assert(jobs@.take(i + 1).drop_last() =~= jobs@.take(i as int));
        assert(jobs@.take(i + 1).last() == jobs@[i as int]);
        let uid = jobs[i].0;
        let job_id = jobs[i].1.as_str();
        assert(pattern_compiles(slurm_status_pattern(jobs@[i as int].1@)));
        match parse_slurm_status(job_id, stdout) {
            Some(state) => {
                let status = get_status_from_string(state.as_str(), job_id);
                out.push((uid, status));
                assert(out@ == before.push((uid, status)));
            },
            None => {},
        }
        i = i + 1;
    }
    assert(jobs@.take(jobs@.len() as int) =~= jobs@);
    out
}

/// What polling Slurm gives for `jobs`: nothing to ask when there is no
/// job id; otherwise `ask` is called once with the ids joined by commas, a
/// failure is handed back, and the statuses are read from its answer;
/// `Ok(None)` when it answered but a job id makes no valid pattern.
pub open spec fn slurm_polled<A: Fn(String) -> Result<String, String>>(
    jobs: Seq<(usize, String)>,
    ask: A,
    r: Result<Option<Vec<(usize, Status)>>, String>,
) -> bool {
    if joined_ids(jobs).len() == 0 {
        r matches Ok(Some(v)) && v@.len() == 0
    } else {
        exists|ids: String, a: Result<String, String>|
            ids@ == joined_ids(jobs) && #[trigger] ask.ensures((ids,), a) && match a {
                Ok(out) => if slurm_ids_compile(jobs) {
                    r matches Ok(Some(v)) && statuses_read(slurm_found(jobs, out@), v@)
                } else {
                    r matches Ok(None)
                },
                Err(e) => r == Err::<Option<Vec<(usize, Status)>>, String>(e),
            }
    }
}

/// Ask Slurm (through `ask`, which runs `sacct` on the comma-separated job
/// ids) for the states of `jobs`, and read their statuses (see
/// `slurm_polled`).
pub fn poll_slurm<A: Fn(String) -> Result<String, String>>(jobs: &[(usize, String)], ask: &A) -> (r:
    Result<Option<Vec<(usize, Status)>>, String>)
    requires
        forall|s: String| ask.requires((s,)),
    ensures
        slurm_polled(jobs@, *ask, r),
{
    let job_ids = join_job_ids(jobs);
    if job_ids.unicode_len() == 0 {
        return Ok(Some(Vec::new()));
    }
    let ghost ids = job_ids;
    let a = ask(job_ids);
    assert(ask.ensures((ids,), a));
    match a {
        Ok(stdout) => if slurm_ids_valid(jobs) {
            Ok(Some(read_slurm_statuses(jobs, stdout.as_str())))
        } else {
            Ok(None)
        },
        Err(e) => Err(e),
    }
}

/// A failed try of `task`: past its retries it fails for good and its
/// children are to be visited; otherwise it is queued again.
pub open spec fn retry_step(task: Task, failure: Failed, v: CtxState) -> CtxState {
    let uid = task.uid;
    if v.try_nums[uid as int] > task.retries {
        CtxState {
            statuses: v.statuses.update(uid as int, Status::Failed(failure)),
            updated: v.updated.push(uid),
            ..v
        }
    } else {
        CtxState { jobs: v.jobs.push(Job::Task(uid)), ..v }
    }
}

/// What a new Slurm status of `task` does to the context. A pending or
/// running job is followed again; a failure goes through the retry rules;
/// a completed job no longer counts as a running cacheable task and, for an
/// external task, its output is to be saved, otherwise its children are to
/// be visited and its cache saved when it caches; any other status is
/// recorded and its children are to be visited.
pub open spec fn slurm_status_step(task: Task, status: Status, v: CtxState) -> CtxState {
    let uid = task.uid;
    match status {
        Status::Pending(JobType::Slurm(id)) => CtxState {
            slurm_jobs: v.slurm_jobs.push((uid, id)),
            statuses: v.statuses.update(uid as int, status),
            ..v
        },
        Status::Running(JobType::Slurm(id)) => CtxState {
            slurm_jobs: v.slurm_jobs.push((uid, id)),
            statuses: v.statuses.update(uid as int, status),
            ..v
        },
        Status::Failed(failure) => retry_step(task, failure, v),
        Status::Completed(Completed::Job(job_type)) => {
            let w = CtxState {
                cacheable: v.cacheable.remove(task.name@),
                statuses: v.statuses.update(uid as int, status),
                ..v
            };
            if task.mode is Ext {
                CtxState { jobs: w.jobs.push(Job::SaveExtOutput(uid, job_type)), ..w }
            } else if task.cache {
                CtxState { updated: w.updated.push(uid), jobs: w.jobs.push(Job::SaveCache(uid)), ..w }
            } else {
                CtxState { updated: w.updated.push(uid), ..w }
            }
        },
        _ => CtxState {
            statuses: v.statuses.update(uid as int, status),
            updated: v.updated.push(uid),
            ..v
        },
    }
}

/// Every Slurm job still followed is marked as failed to contact, and
/// its children are to be visited.
pub open spec fn fail_all(jobs: Seq<(usize, String)>, v: CtxState) -> CtxState
    decreases jobs.len(),
{
    if jobs.len() == 0 {
        v
    } else {
        let w = fail_all(jobs.drop_last(), v);
        let (uid, id) = jobs.last();
        CtxState {
            statuses: w.statuses.update(
                uid as int,
                Status::Failed(Failed::FailedToContact(JobType::Slurm(id))),
            ),
            updated: w.updated.push(uid),
            ..w
        }
    }
}

/// Polls Slurm for the jobs of the context. `nslurm_fails` counts the
/// polls in a row that could not reach Slurm; `missing_jobs` counts, for
/// each task, the polls in a row whose answer left its job out.
pub struct SlurmPoller<'a> {
    pub cfg: &'a Cfg,
    pub nslurm_fails: usize,
    pub missing_jobs: HashMap<usize, usize>,
}

impl<'a> SlurmPoller<'a> {
    /// Polls in a row whose answer left out the job of each task.
    pub open spec fn missing(&self) -> Map<usize, usize> {
        self.missing_jobs@
    }

    /// A poller with no failure counted.
    pub fn new(cfg: &'a Cfg) -> (r: Self)
        ensures
            r.cfg == cfg,
            r.nslurm_fails == 0,
            r.missing() == Map::<usize, usize>::empty(),
    {
        SlurmPoller { cfg, nslurm_fails: 0, missing_jobs: HashMap::new() }
    }

    /// Record a new Slurm status of `task` (see `slurm_status_step`).
    pub fn handle_new_slurm_status(&mut self, task: &Task, status: Status, ctx: &mut Ctx)
        requires
            task.uid < old(ctx).statuses@.len(),
            task.uid < old(ctx).try_nums@.len(),
        ensures
            *final(self) == *old(self),
            final(ctx)@ == slurm_status_step(*task, status, old(ctx)@),
    {
        let ghost v = ctx@;
        match &status {
            Status::Pending(JobType::Slurm(job_id)) | Status::Running(JobType::Slurm(job_id)) => {
                ctx.slurm_jobs.push((task.uid, job_id.clone()));
                ctx.statuses.set(task.uid, status);
            },
            Status::Failed(failure) => {
                handle_retries(task, ctx, failure.copied());
            },
            Status::Completed(Completed::Job(job_type)) => {
                ctx.remove_running_cacheable(task.name.as_str());
                let job_type = job_type.copied();
                match task.mode {
                    ExecMode::Ext => {
                        ctx.statuses.set(task.uid, status);
                        ctx.jobs.push_back(Job::SaveExtOutput(task.uid, job_type));
                        return;
                    },
                    _ => {},
                }
                ctx.statuses.set(task.uid, status);
                ctx.updated.push_back(task.uid);
                if task.cache {
                    ctx.jobs.push_back(Job::SaveCache(task.uid));
                }
            },
            _ => {
                ctx.statuses.set(task.uid, status);
                ctx.updated.push_back(task.uid);
            },
        }
    }

    /// Past the grace period without contact: every followed Slurm job
    /// fails, the failure count restarts and no job is followed any more.
    pub fn mark_all_jobs_as_failed(&mut self, ctx: &mut Ctx)
        requires
            forall|k: int|
                0 <= k < old(ctx).slurm_jobs@.len() ==> (#[trigger] old(ctx).slurm_jobs@[k]).0
                    < old(ctx).statuses@.len(),
        ensures
            final(self).cfg == old(self).cfg,
            final(self).missing() == old(self).missing(),
            final(self).nslurm_fails == 0,
            final(ctx)@ == fail_all(
                old(ctx).slurm_jobs@,
                CtxState { slurm_jobs: Seq::empty(), ..old(ctx)@ },
            ),
    {
        let mut jobs: Vec<(usize, String)> = Vec::new();
        std::mem::swap(&mut jobs, &mut ctx.slurm_jobs);
        let ghost base = ctx@;
        assert(base == CtxState { slurm_jobs: Seq::empty(), ..old(ctx)@ });
        let mut i: usize = 0;
        while i < jobs.len()
            invariant
                i <= jobs@.len(),
                jobs@ == old(ctx).slurm_jobs@,
                forall|k: int|
                    0 <= k < jobs@.len() ==> (#[trigger] jobs@[k]).0 < old(ctx).statuses@.len(),
                ctx.statuses@.len() == old(ctx).statuses@.len(),
                ctx@ == fail_all(jobs@.take(i as int), base),
            decreases jobs@.len() - i,
        {
            assert(jobs@.take(i + 1).drop_last() =~= jobs@.take(i as int));
            assert(jobs@.take(i + 1).last() == jobs@[i as int]);
            let uid = jobs[i].0;
            let job_type = JobType::Slurm(jobs[i].1.clone());
            ctx.statuses.set(uid, Status::Failed(Failed::FailedToContact(job_type)));
            ctx.updated.push_back(uid);
            i = i + 1;
        }
        assert(jobs@.take(jobs@.len() as int) =~= jobs@);
        self.nslurm_fails = 0;
    }
}

/// Whether `res` holds a status for `uid`.
pub open spec fn has_uid(res: Seq<(usize, Status)>, uid: usize) -> bool {
    exists|k: int| 0 <= k < res.len() && (#[trigger] res[k]).0 == uid
}

/// Miss counts, poll results and jobs still followed.
pub type MissState = (Map<usize, usize>, Seq<(usize, Status)>, Seq<(usize, String)>);

/// One followed job checked against the poll results: a job with a status
/// has its miss count restarted; a job left out is kept while its count
/// stays within the grace period, and otherwise fails to contact (with
/// its count restarted, for a later retry).
pub open spec fn missing_step(grace: usize, s: MissState, job: (usize, String)) -> MissState {
    let n: usize = if s.0.contains_key(job.0) {
        s.0[job.0]
    } else {
        0
    };
    if has_uid(s.1, job.0) {
        (s.0.insert(job.0, 0), s.1, s.2)
    } else if n >= grace {
        (
            s.0.insert(job.0, 0),
            s.1.push((job.0, Status::Failed(Failed::FailedToContact(JobType::Slurm(job.1))))),
            s.2,
        )
    } else {
        (s.0.insert(job.0, (n + 1) as usize), s.1, s.2.push(job))
    }
}

/// The followed jobs checked one after the other.
pub open spec fn missing_fold(grace: usize, s: MissState, jobs: Seq<(usize, String)>) -> MissState
    decreases jobs.len(),
{
    if jobs.len() == 0 {
        s
    } else {
        missing_step(grace, missing_fold(grace, s, jobs.drop_last()), jobs.last())
    }
}

fn contains_uid(res: &Vec<(usize, Status)>, uid: usize) -> (r: bool)
    ensures
        r == has_uid(res@, uid),
{
    let mut i: usize = 0;
    while i < res.len()
        invariant
            i <= res@.len(),
            forall|k: int| 0 <= k < i ==> (#[trigger] res@[k]).0 != uid,
        decreases res@.len() - i,
    {
        if res[i].0 == uid {
            return true;
        }
        i = i + 1;
    }
    false
}

/// The poll results applied to the context one after the other, each to
/// the task it belongs to.
pub open spec fn slurm_updates(nodes: Seq<Node>, res: Seq<(usize, Status)>, v: CtxState) -> CtxState
    decreases res.len(),
{
    if res.len() == 0 {
        v
    } else {
        let w = slurm_updates(nodes, res.drop_last(), v);
        let (uid, status) = res.last();
        if uid < nodes.len() {
            match nodes[uid as int] {
                Node::Task(t) => slurm_status_step(t, status, w),
                _ => w,
            }
        } else {
            w
        }
    }
}

/// What a poll does, given what polling Slurm gave (`r`). With an answer,
/// the failure count restarts, the jobs left out are handled (see
/// `missing_step`) and the statuses are applied. Without one, the failure
/// count grows and, once it reaches the grace period, every followed job
/// fails (see `fail_all`).
pub open spec fn slurm_poll_step(
    grace: usize,
    nodes: Seq<Node>,
    before: (usize, Map<usize, usize>, CtxState),
    r: Result<Vec<(usize, Status)>, String>,
    after: (usize, Map<usize, usize>, CtxState),
) -> bool {
    let (fails, missing, v) = before;
    match r {
        Ok(res) => {
            let m = missing_fold(grace, (missing, res@, Seq::empty()), v.slurm_jobs);
            &&& after.0 == 0
            &&& after.1 == m.0
            &&& after.2 == slurm_updates(nodes, m.1, CtxState { slurm_jobs: m.2, ..v })
        },
        Err(_) => {
            &&& after.1 == missing
            &&& if fails + 1 >= grace {
                &&& after.0 == 0
                &&& after.2 == fail_all(v.slurm_jobs, CtxState { slurm_jobs: Seq::empty(), ..v })
            } else {
                &&& after.0 == fails + 1
                &&& after.2 == v
            }
        },
    }
}

impl<'a> SlurmPoller<'a> {
    /// Check the jobs that were followed against the poll results (see
    /// `missing_fold`); the context follows no job afterwards, and the jobs
    /// to keep following are returned.
    pub fn handle_missing_jobs(
        &mut self,
        poll_result: &mut Vec<(usize, Status)>,
        ctx: &mut Ctx,
    ) -> (r: Vec<(usize, String)>)
        ensures
            final(self).cfg == old(self).cfg,
            final(self).nslurm_fails == old(self).nslurm_fails,
            (final(self).missing(), final(poll_result)@, r@) == missing_fold(
                old(self).cfg.grace_period,
                (old(self).missing(), old(poll_result)@, Seq::empty()),
                old(ctx).slurm_jobs@,
            ),
            final(ctx)@ == (CtxState { slurm_jobs: Seq::empty(), ..old(ctx)@ }),
    {
        let mut jobs: Vec<(usize, String)> = Vec::new();
        std::mem::swap(&mut jobs, &mut ctx.slurm_jobs);
        let grace = self.cfg.grace_period;
        let mut new_jobs: Vec<(usize, String)> = Vec::new();
        let mut i: usize = 0;
        while i < jobs.len()
            invariant
                i <= jobs@.len(),
                grace == self.cfg.grace_period,
                self.cfg == old(self).cfg,
                self.nslurm_fails == old(self).nslurm_fails,
                (self.missing(), poll_result@, new_jobs@) == missing_fold(
                    grace,
                    (old(self).missing(), old(poll_result)@, Seq::empty()),
                    jobs@.take(i as int),
                ),
            decreases jobs@.len() - i,
        {
            assert(jobs@.take(i + 1).drop_last() =~= jobs@.take(i as int));
            assert(jobs@.take(i + 1).last() == jobs@[i as int]);
            let uid = jobs[i].0;
            let nmiss: usize = match self.missing_jobs.get(&uid) {
                Some(n) => *n,
                None => 0,
            };
            if contains_uid(poll_result, uid) {
                self.missing_jobs.insert(uid, 0);
            } else if nmiss >= grace {
                self.missing_jobs.insert(uid, 0);
                let status = Status::Failed(Failed::FailedToContact(JobType::Slurm(jobs[i].1.clone())));
                poll_result.push((uid, status));
            } else {
                self.missing_jobs.insert(uid, nmiss + 1);
                new_jobs.push((uid, jobs[i].1.clone()));
            }
            i = i + 1;
        }
        assert(jobs@.take(jobs@.len() as int) =~= jobs@);
        new_jobs
    }

    /// Poll Slurm, through `ask`, for the jobs the context follows, and
    /// update the context with the answer (see `slurm_poll_step`). With no
    /// job followed, nothing happens. `false` when Slurm answered but a job
    /// id makes no valid pattern; nothing is changed then.
    pub fn poll<A: Fn(String) -> Result<String, String>>(
        &mut self,
        nodes: &[Node],
        ctx: &mut Ctx,
        ask: &A,
    ) -> (ok: bool)
        requires
            indexed_by_uid(nodes@),
            old(ctx).statuses@.len() == nodes@.len(),
            old(ctx).try_nums@.len() == nodes@.len(),
            forall|k: int|
                0 <= k < old(ctx).slurm_jobs@.len() ==> (#[trigger] old(ctx).slurm_jobs@[k]).0
                    < nodes@.len(),
            old(self).nslurm_fails < usize::MAX,
            forall|s: String| ask.requires((s,)),
        ensures
            final(self).cfg == old(self).cfg,
            old(ctx).slurm_jobs@.len() == 0 ==> ok && *final(self) == *old(self) && *final(ctx) == *old(ctx),
            old(ctx).slurm_jobs@.len() > 0 ==> exists|r: Result<Option<Vec<(usize, Status)>>, String>|
                #[trigger] slurm_polled(old(ctx).slurm_jobs@, *ask, r) && match r {
                    Ok(None) => !ok && *final(self) == *old(self) && *final(ctx) == *old(ctx),
                    Ok(Some(v)) => ok && slurm_poll_step(
                        old(self).cfg.grace_period,
                        nodes@,
                        (old(self).nslurm_fails, old(self).missing(), old(ctx)@),
                        Ok(v),
                        (final(self).nslurm_fails, final(self).missing(), final(ctx)@),
                    ),
                    Err(e) => ok && slurm_poll_step(
                        old(self).cfg.grace_period,
                        nodes@,
                        (old(self).nslurm_fails, old(self).missing(), old(ctx)@),
                        Err(e),
                        (final(self).nslurm_fails, final(self).missing(), final(ctx)@),
                    ),
                },
    {
        if ctx.slurm_jobs.len() == 0 {
            return true;
        }
        let polled = poll_slurm(&ctx.slurm_jobs, ask);
        let ghost r = polled;
        match polled {
            Ok(None) => {
                return false;
            },
            Ok(Some(mut poll_result)) => {
                self.nslurm_fails = 0;
                let ghost m = missing_fold(
                    self.cfg.grace_period,
                    (self.missing(), poll_result@, Seq::empty()),
                    ctx.slurm_jobs@,
                );
                let kept = self.handle_missing_jobs(&mut poll_result, ctx);
                ctx.slurm_jobs = kept;
                let ghost base = ctx@;
                assert(base == (CtxState { slurm_jobs: m.2, ..old(ctx)@ }));
                let mut i: usize = 0;
                while i < poll_result.len()
                    invariant
                        i <= poll_result@.len(),
                        indexed_by_uid(nodes@),
                        ctx.statuses@.len() == nodes@.len(),
                        ctx.try_nums@.len() == nodes@.len(),
                        self.cfg == old(self).cfg,
                        self.nslurm_fails == 0,
                        self.missing() == m.0,
                        poll_result@ == m.1,
                        ctx@ == slurm_updates(nodes@, poll_result@.take(i as int), base),
                    decreases poll_result@.len() - i,
                {
                    assert(poll_result@.take(i + 1).drop_last() =~= poll_result@.take(i as int));
                    assert(poll_result@.take(i + 1).last() == poll_result@[i as int]);
                    let uid = poll_result[i].0;
                    let status = poll_result[i].1.copied();
                    if uid < nodes.len() {
                        match &nodes[uid] {
                            Node::Task(task) => {
                                assert(node_uid(nodes@[uid as int]) == uid);
                                self.handle_new_slurm_status(task, status, ctx);
                            },
                            _ => {},
                        }
                    }
                    i = i + 1;
                }
                assert(poll_result@.take(poll_result@.len() as int) =~= poll_result@);
            },
            Err(_) => {
                self.nslurm_fails = self.nslurm_fails + 1;
                if self.nslurm_fails >= self.cfg.grace_period {
                    self.mark_all_jobs_as_failed(ctx);
                }
            },
        }
        true
    }
}

/// State of a local process, as waiting on it without blocking tells it.
#[derive(Clone, Copy, Debug, PartialEq, Eq)]
pub enum ProcessState {
    /// Still running.
    Running,
    /// Exited; the flag tells whether it succeeded.
    Exited(bool),
    /// The state could not be read.
    Unknown,
}

/// Status of the local process `pid` in state `state`.
pub open spec fn local_status(pid: u32, state: ProcessState) -> Status {
    match state {
        ProcessState::Running => Status::Running(JobType::Local(pid)),
        ProcessState::Exited(true) => Status::Completed(Completed::Job(JobType::Local(pid))),
        _ => Status::Failed(Failed::Job(JobType::Local(pid))),
    }
}

/// Status of a local process: running, completed when it exited with
/// success, failed when it exited otherwise or its state is unknown.
pub fn poll_local(pid: u32, state: ProcessState) -> (r: Status)
    ensures
        r == local_status(pid, state),
{
    match state {
        ProcessState::Running => Status::Running(JobType::Local(pid)),
        ProcessState::Exited(true) => Status::Completed(Completed::Job(JobType::Local(pid))),
        _ => Status::Failed(Failed::Job(JobType::Local(pid))),
    }
}

/// What the state of the local process `pid` of `task` does: a running
/// process is kept; a completed one records the status and, for an external
/// task, queues the saving of its output, otherwise no longer counts as a
/// running cacheable task, has its children visited and its cache saved
/// when it caches; a failed one goes through the retry rules.
pub open spec fn local_step(
    task: Task,
    pid: u32,
    state: ProcessState,
    v: CtxState,
    kept: Seq<(usize, u32)>,
) -> (CtxState, Seq<(usize, u32)>) {
    let uid = task.uid;
    let status = local_status(pid, state);
    match status {
        Status::Running(_) => (v, kept.push((uid, pid))),
        Status::Completed(_) => {
            let w = CtxState { statuses: v.statuses.update(uid as int, status), ..v };
            if task.mode is Ext {
                (CtxState { jobs: w.jobs.push(Job::SaveExtOutput(uid, JobType::Local(pid))), ..w }, kept)
            } else {
                let u = CtxState {
                    cacheable: w.cacheable.remove(task.name@),
                    updated: w.updated.push(uid),
                    ..w
                };
                if task.cache {
                    (CtxState { jobs: u.jobs.push(Job::SaveCache(uid)), ..u }, kept)
                } else {
                    (u, kept)
                }
            }
        },
        _ => (retry_step(task, Failed::Job(JobType::Local(pid)), v), kept),
    }
}

/// The local processes, each with the state read, applied one after the
/// other to the task it belongs to.
pub open spec fn local_updates(
    nodes: Seq<Node>,
    order: Seq<(usize, u32, ProcessState)>,
    v: CtxState,
    kept: Seq<(usize, u32)>,
) -> (CtxState, Seq<(usize, u32)>)
    decreases order.len(),
{
    if order.len() == 0 {
        (v, kept)
    } else {
        let w = local_updates(nodes, order.drop_last(), v, kept);
        let (uid, pid, state) = order.last();
        if uid < nodes.len() {
            match nodes[uid as int] {
                Node::Task(t) => local_step(t, pid, state, w.0, w.1),
                _ => w,
            }
        } else {
            w
        }
    }
}

/// `order` holds the local processes of `jobs`, last started first, each
/// with a state that `try_wait` may give for it.
pub open spec fn states_read<W: Fn(u32) -> ProcessState>(
    jobs: Seq<(usize, u32)>,
    order: Seq<(usize, u32, ProcessState)>,
    try_wait: W,
) -> bool {
    let n = jobs.len();
    &&& order.len() == n
    &&& forall|i: int|
        0 <= i < n ==> (#[trigger] order[i]).0 == jobs[n - 1 - i].0 && order[i].1 == jobs[n - 1
            - i].1 && try_wait.ensures((order[i].1,), order[i].2)
}

/// The context after the processes of `order` were handled; the processes
/// still running are the ones followed.
pub open spec fn local_result(nodes: Seq<Node>, order: Seq<(usize, u32, ProcessState)>, v: CtxState) -> CtxState {
    let done = local_updates(nodes, order, CtxState { local_jobs: Seq::empty(), ..v }, Seq::empty());
    CtxState { local_jobs: done.1, ..done.0 }
}

/// Polls the local processes.
pub struct LocalPoller;

impl LocalPoller {
    /// Handle the state of the local process `pid` of `task` (see
    /// `local_step`); a process still running is added to `local_jobs`.
    pub fn check_status(
        &mut self,
        pid: u32,
        state: ProcessState,
        task: &Task,
        ctx: &mut Ctx,
        local_jobs: &mut Vec<(usize, u32)>,
    )
        requires
            task.uid < old(ctx).statuses@.len(),
            task.uid < old(ctx).try_nums@.len(),
        ensures
            (final(ctx)@, final(local_jobs)@) == local_step(
                *task,
                pid,
                state,
                old(ctx)@,
                old(local_jobs)@,
            ),
    {
        let uid = task.uid;
        let status = poll_local(pid, state);
        match status {
            Status::Running(_) => {
                local_jobs.push((uid, pid));
            },
            Status::Completed(_) => {
                ctx.statuses.set(uid, status);
                self.handle_success(task, pid, ctx);
            },
            _ => {
                handle_retries(task, ctx, Failed::Job(JobType::Local(pid)));
            },
        }
    }

    /// The process of `task` completed: queue the saving of the output of
    /// an external task; otherwise forget the running cacheable name, visit
    /// the children and queue the saving of the cache if the task caches.
    pub fn handle_success(&self, task: &Task, pid: u32, ctx: &mut Ctx)
        ensures
            final(ctx)@ == if task.mode is Ext {
                CtxState {
                    jobs: old(ctx)@.jobs.push(Job::SaveExtOutput(task.uid, JobType::Local(pid))),
                    ..old(ctx)@
                }
            } else {
                let u = CtxState {
                    cacheable: old(ctx)@.cacheable.remove(task.name@),
                    updated: old(ctx)@.updated.push(task.uid),
                    ..old(ctx)@
                };
                if task.cache {
                    CtxState { jobs: u.jobs.push(Job::SaveCache(task.uid)), ..u }
                } else {
                    u
                }
            },
    {
        match task.mode {
            ExecMode::Ext => {
                ctx.jobs.push_back(Job::SaveExtOutput(task.uid, JobType::Local(pid)));
                return;
            },
            _ => {},
        }
        ctx.remove_running_cacheable(task.name.as_str());
        ctx.updated.push_back(task.uid);
        if task.cache {
            ctx.jobs.push_back(Job::SaveCache(task.uid));
        }
    }

    /// Read the state of each local process through `try_wait`, last
    /// started first, and update the context (see `local_updates`); the
    /// processes still running are followed further.
    pub fn poll<W: Fn(u32) -> ProcessState>(&mut self, nodes: &[Node], ctx: &mut Ctx, try_wait: &W)
        requires
            indexed_by_uid(nodes@),
            old(ctx).statuses@.len() == nodes@.len(),
            old(ctx).try_nums@.len() == nodes@.len(),
            forall|pid: u32| try_wait.requires((pid,)),
        ensures
            exists|order: Seq<(usize, u32, ProcessState)>|
                #[trigger] states_read(old(ctx).local_jobs@, order, *try_wait) && final(ctx)@
                    == local_result(nodes@, order, old(ctx)@),
    {
        let mut jobs: Vec<(usize, u32)> = Vec::new();
        std::mem::swap(&mut jobs, &mut ctx.local_jobs);
        let ghost all = jobs@;
        let ghost n = jobs@.len();
        let ghost base = ctx@;
        let mut kept: Vec<(usize, u32)> = Vec::new();
        let ghost mut order: Seq<(usize, u32, ProcessState)> = Seq::empty();
        while jobs.len() > 0
            invariant
                indexed_by_uid(nodes@),
                ctx.statuses@.len() == nodes@.len(),
                ctx.try_nums@.len() == nodes@.len(),
                ctx.local_jobs@.len() == 0,
                forall|pid: u32| try_wait.requires((pid,)),
                n == all.len(),
                jobs@ == all.take(jobs@.len() as int),
                order.len() == n - jobs@.len(),
                forall|i: int|
                    0 <= i < order.len() ==> (#[trigger] order[i]).0 == all[n - 1 - i].0
                        && order[i].1 == all[n - 1 - i].1 && try_wait.ensures(
                        (order[i].1,),
                        order[i].2,
                    ),
                (ctx@, kept@) == local_updates(nodes@, order, base, Seq::empty()),
            decreases jobs@.len(),
        {
            let ghost len = jobs@.len();
            let (uid, pid) = match jobs.pop() {
                Some(j) => j,
                None => {
                    return;
                },
            };
            assert(all[len - 1] == (uid, pid));
            assert(jobs@ =~= all.take(len - 1));
            let state = try_wait(pid);
            proof {
                let prev = order;
                order = order.push((uid, pid, state));
                assert(order.drop_last() =~= prev);
            }
            if uid < nodes.len() {
                match &nodes[uid] {
                    Node::Task(task) => {
                        assert(node_uid(nodes@[uid as int]) == uid);
                        let mut local = Vec::new();
                        std::mem::swap(&mut local, &mut kept);
                        self.check_status(pid, state, task, ctx, &mut local);
                        kept = local;
                    },
                    _ => {},
                }
            }
        }
        assert(base == (CtxState { local_jobs: Seq::empty(), ..old(ctx)@ }));
        assert(states_read(all, order, *try_wait));
        ctx.local_jobs = kept;
        assert(ctx@ == local_result(nodes@, order, old(ctx)@));
    }
}

} // verus!
