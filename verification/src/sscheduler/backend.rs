//! Slurm answers for the string-keyed scheduler: the status each running
//! job reads as, and the jobs to ask Slurm or to cancel.

use crate::cache::{answered, copied_to};
use crate::nonblocking::{
    convert_env_to_string, env_text, find_submitted_job_id, input_envs, pair_texts,
    submitted_job_id, texts, to_uppercase, uppercase, CommandPlan,
};
use crate::pattern::{pattern_compiles, Pattern};
use crate::polling::{parse_slurm_status, slurm_state, slurm_status_pattern};
use crate::schemas::JsonValue;
use crate::sscheduler::model::{
    Artifact, Cmd, ExecMode, JobStatus, Node, NodeBehavior, NodeFailure, NodeResult, Task,
};
use crate::sscheduler::status_management::{find_updated, updated_status};
use crate::text::{concat_str, decimal, decimal_string, str_eq};
use vstd::prelude::*;

verus! {

/// The status `r` stands for the state `state` found for job `job_id`
/// (none when it was not found): completed for `COMPLETED`, running while
/// pending, running or completing, failed otherwise.
pub open spec fn backend_status(job_id: Seq<char>, state: Option<Seq<char>>, r: JobStatus) -> bool {
    match state {
        None => r matches JobStatus::Failed(NodeFailure::Task(id)) && id@ == job_id,
        Some(s) => if s == "COMPLETED"@ {
            r matches JobStatus::Completed(NodeResult::Task(id)) && id@ == job_id
        } else if s == "PENDING"@ || s == "RUNNING"@ || s == "COMPLETING"@ {
            r matches JobStatus::Running(id) && id@ == job_id
        } else {
            r matches JobStatus::Failed(NodeFailure::Task(id)) && id@ == job_id
        },
    }
}

/// Status of job `job_id` from the `sacct` output (see `backend_status`).
pub fn extract_status(job_id: &str, slurm_status: &str) -> (r: JobStatus)
    requires
        pattern_compiles(slurm_status_pattern(job_id@)),
    ensures
        backend_status(job_id@, slurm_state(job_id@, slurm_status@), r),
{
    let id = String::from_str(job_id);
    match parse_slurm_status(job_id, slurm_status) {
        None => JobStatus::Failed(NodeFailure::Task(id)),
        Some(status) => {
            let s = status.as_str();
            if str_eq(s, "COMPLETED") {
                JobStatus::Completed(NodeResult::Task(id))
            } else if str_eq(s, "PENDING") || str_eq(s, "RUNNING") || str_eq(s, "COMPLETING") {
                JobStatus::Running(id)
            } else {
                JobStatus::Failed(NodeFailure::Task(id))
            }
        },
    }
}

/// Uid and job id of every running task, in node order.
pub open spec fn running_tasks(nodes: Seq<Node>) -> Seq<(Seq<char>, Seq<char>)>
    decreases nodes.len(),
{
    if nodes.len() == 0 {
        Seq::empty()
    } else {
        let n = nodes.last();
        match (n.status, n.behavior) {
            (JobStatus::Running(id), NodeBehavior::TaskNode(_)) => running_tasks(nodes.drop_last()).push(
                (n.uid@, id@),
            ),
            _ => running_tasks(nodes.drop_last()),
        }
    }
}

/// The views of a list of uid and job id pairs.
pub open spec fn pairs_view(v: Seq<(String, String)>) -> Seq<(Seq<char>, Seq<char>)> {
    v.map_values(|p: (String, String)| (p.0@, p.1@))
}

/// Uid and job id of every running task (see `running_tasks`).
pub fn get_running_tasks(nodes: &[Node]) -> (r: Vec<(String, String)>)
    ensures
        pairs_view(r@) == running_tasks(nodes@),
{
    let mut r: Vec<(String, String)> = Vec::new();
    let mut i: usize = 0;
    while i < nodes.len()
        invariant
            i <= nodes@.len(),
            pairs_view(r@) == running_tasks(nodes@.take(i as int)),
        decreases nodes@.len() - i,
    {
        assert(nodes@.take(i + 1).drop_last() =~= nodes@.take(i as int));
        assert(nodes@.take(i + 1).last() == nodes@[i as int]);
        if let JobStatus::Running(id) = &nodes[i].status {
            if let NodeBehavior::TaskNode(_) = &nodes[i].behavior {
                let ghost before = r@;
                r.push((nodes[i].uid.clone(), id.clone()));
                assert(pairs_view(r@) =~= pairs_view(before).push((nodes@[i as int].uid@, id@)));
            }
        }
        i = i + 1;
    }
    assert(nodes@.take(nodes@.len() as int) =~= nodes@);
    r
}

/// A job id that makes no valid pattern.
pub open spec fn bad_job_id(id: Seq<char>) -> bool {
    !pattern_compiles(slurm_status_pattern(id))
}

/// `s` is the failure of job `id`.
pub open spec fn failed_job(s: JobStatus, id: Seq<char>) -> bool {
    s matches JobStatus::Failed(NodeFailure::Task(x)) && x@ == id
}

/// Every job fails, when Slurm cannot be reached.
pub fn mark_all_jobs_as_failed(jobs: &[(String, String)]) -> (r: Vec<(String, JobStatus)>)
    ensures
        r@.len() == jobs@.len(),
        forall|k: int|
            0 <= k < jobs@.len() ==> (#[trigger] r@[k]).0@ == jobs@[k].0@ && failed_job(r@[k].1, jobs@[k].1@),
{
    let mut r: Vec<(String, JobStatus)> = Vec::new();
    let mut i: usize = 0;
    while i < jobs.len()
        invariant
            i <= jobs@.len(),
            r@.len() == i,
            forall|k: int|
                0 <= k < i ==> (#[trigger] r@[k]).0@ == jobs@[k].0@ && failed_job(r@[k].1, jobs@[k].1@),
        decreases jobs@.len() - i,
    {
        r.push((jobs[i].0.clone(), JobStatus::Failed(NodeFailure::Task(jobs[i].1.clone()))));
        i = i + 1;
    }
    r
}

/// No job id of `jobs` makes an invalid pattern.
pub open spec fn job_ids_compile(jobs: Seq<(String, String)>) -> bool {
    forall|k: int| 0 <= k < jobs.len() ==> !bad_job_id((#[trigger] jobs[k]).1@)
}

/// Whether every job id makes a valid pattern.
pub fn job_ids_valid(jobs: &[(String, String)]) -> (r: bool)
    ensures
        r == job_ids_compile(jobs@),
{
    let mut i: usize = 0;
    while i < jobs.len()
        invariant
            i <= jobs@.len(),
            forall|k: int| 0 <= k < i ==> !bad_job_id((#[trigger] jobs@[k]).1@),
        decreases jobs@.len() - i,
    {
        let matched = concat_str(jobs[i].1.as_str(), "\\s+(?<status>\\w+)");
        if Pattern::compile(matched.as_str()).is_none() {
            assert(bad_job_id(jobs@[i as int].1@));
            return false;
        }
        i = i + 1;
    }
    true
}

/// The statuses of the running jobs: all failed when Slurm could not be
/// reached, otherwise each read from the answer (see `extract_status`).
pub fn get_status_map(slurm_output: Result<String, String>, jobs: &[(String, String)]) -> (r: Vec<
    (String, JobStatus),
>)
    requires
        slurm_output is Ok ==> job_ids_compile(jobs@),
    ensures
        r@.len() == jobs@.len(),
        match slurm_output {
            Err(_) => forall|k: int|
                0 <= k < jobs@.len() ==> (#[trigger] r@[k]).0@ == jobs@[k].0@ && failed_job(r@[k].1, jobs@[k].1@),
            Ok(out) => forall|k: int|
                0 <= k < jobs@.len() ==> (#[trigger] r@[k]).0@ == jobs@[k].0@ && backend_status(
                    jobs@[k].1@,
                    slurm_state(jobs@[k].1@, out@),
                    r@[k].1,
                ),
        },
{
    let ghost so = slurm_output;
    match slurm_output {
        Err(_) => mark_all_jobs_as_failed(jobs),
        Ok(out) => {
            let mut r: Vec<(String, JobStatus)> = Vec::new();
            let mut i: usize = 0;
            while i < jobs.len()
                invariant
                    i <= jobs@.len(),
                    r@.len() == i,
                    so == Ok::<String, String>(out),
                    slurm_output == so,
                    job_ids_compile(jobs@),
                    forall|k: int|
                        0 <= k < i ==> (#[trigger] r@[k]).0@ == jobs@[k].0@ && backend_status(
                            jobs@[k].1@,
                            slurm_state(jobs@[k].1@, out@),
                            r@[k].1,
                        ),
                decreases jobs@.len() - i,
            {
                let job_id = jobs[i].1.as_str();
                assert(!bad_job_id(jobs@[i as int].1@));
                let status = extract_status(job_id, out.as_str());
                r.push((jobs[i].0.clone(), status));
                i = i + 1;
            }
            r
        },
    }
}

/// Ask Slurm for the states of the jobs through `ask` (which runs `sacct`
/// on the job ids joined by commas); nothing is asked when there is no job.
pub fn check_job_status<A: Fn(Vec<String>) -> Result<String, String>>(
    jobs: &[(String, String)],
    ask: &A,
) -> (r: Result<String, String>)
    requires
        forall|ids: Vec<String>| ask.requires((ids,)),
    ensures
        jobs@.len() == 0 ==> (r matches Ok(s) && s@.len() == 0),
        jobs@.len() > 0 ==> exists|ids: Vec<String>|
            ids@.map_values(|s: String| s@) == jobs@.map_values(|p: (String, String)| p.1@)
                && #[trigger] ask.ensures((ids,), r),
{
    if jobs.len() == 0 {
        return Ok(String::new());
    }
    let mut ids: Vec<String> = Vec::new();
    let mut i: usize = 0;
    while i < jobs.len()
        invariant
            i <= jobs@.len(),
            ids@.map_values(|s: String| s@) == jobs@.take(i as int).map_values(
                |p: (String, String)| p.1@,
            ),
        decreases jobs@.len() - i,
    {
        let ghost before = ids@;
        let id = jobs[i].1.clone();
        assert(id@ == jobs@[i as int].1@);
        ids.push(id);
        assert(ids@.map_values(|s: String| s@) =~= before.map_values(|s: String| s@).push(
            jobs@[i as int].1@,
        ));
        assert(jobs@.take(i + 1).map_values(|p: (String, String)| p.1@) =~= jobs@.take(
            i as int,
        ).map_values(|p: (String, String)| p.1@).push(jobs@[i as int].1@));
        assert(ids@.map_values(|s: String| s@) =~= jobs@.take(i + 1).map_values(
            |p: (String, String)| p.1@,
        ));
        i = i + 1;
    }
    assert(jobs@.take(jobs@.len() as int) =~= jobs@);
    let ghost g = ids;
    let r = ask(ids);
    assert(ask.ensures((g,), r));
    r
}

/// Cancel the jobs through `cancel` (which runs `scancel`); nothing is
/// run when there is no job.
pub fn kill_jobs<K: Fn(Vec<String>) -> Result<(), String>>(job_ids: Vec<String>, cancel: &K) -> (r:
    Result<(), String>)
    requires
        forall|ids: Vec<String>| cancel.requires((ids,)),
    ensures
        job_ids@.len() == 0 ==> r is Ok,
        job_ids@.len() > 0 ==> cancel.ensures((job_ids,), r),
{
    if job_ids.len() == 0 {
        return Ok(());
    }
    cancel(job_ids)
}

/// `ask` was handed the job ids of `jobs` and gave `out`; with no job
/// nothing was asked and the answer is empty.
pub open spec fn slurm_asked<A: Fn(Vec<String>) -> Result<String, String>>(
    jobs: Seq<(String, String)>,
    ask: A,
    out: Result<String, String>,
) -> bool {
    &&& jobs.len() == 0 ==> (out matches Ok(s) && s@.len() == 0)
    &&& jobs.len() > 0 ==> exists|ids: Vec<String>|
        ids@.map_values(|s: String| s@) == jobs.map_values(|p: (String, String)| p.1@)
            && #[trigger] ask.ensures((ids,), out)
}

/// The statuses read for `jobs` from the answer `out` (see
/// `get_status_map`); none when Slurm answered but a job id makes an
/// invalid pattern.
pub open spec fn statuses_from(
    jobs: Seq<(String, String)>,
    out: Result<String, String>,
    r: Option<Vec<(String, JobStatus)>>,
) -> bool {
    match out {
        Err(_) => r matches Some(v) && v@.len() == jobs.len() && forall|k: int|
            0 <= k < jobs.len() ==> (#[trigger] v@[k]).0@ == jobs[k].0@ && failed_job(
                v@[k].1,
                jobs[k].1@,
            ),
        Ok(o) => if job_ids_compile(jobs) {
            r matches Some(v) && v@.len() == jobs.len() && forall|k: int|
                0 <= k < jobs.len() ==> (#[trigger] v@[k]).0@ == jobs[k].0@ && backend_status(
                    jobs[k].1@,
                    slurm_state(jobs[k].1@, o@),
                    v@[k].1,
                )
        } else {
            r is None
        },
    }
}

/// Slurm was asked about the running tasks `jobs` of `nodes` and gave
/// `out`, from which the statuses `r` were read.
pub open spec fn slurm_map_read<A: Fn(Vec<String>) -> Result<String, String>>(
    nodes: Seq<Node>,
    ask: A,
    jobs: Seq<(String, String)>,
    out: Result<String, String>,
    r: Option<Vec<(String, JobStatus)>>,
) -> bool {
    &&& pairs_view(jobs) == running_tasks(nodes)
    &&& slurm_asked(jobs, ask, out)
    &&& statuses_from(jobs, out, r)
}

/// The statuses Slurm gives for the running tasks, through `ask` (see
/// `slurm_map_read`); none when Slurm answered but a job id makes an
/// invalid pattern.
pub fn get_slurm_status_map<A: Fn(Vec<String>) -> Result<String, String>>(
    nodes: &[Node],
    ask: &A,
) -> (r: Option<Vec<(String, JobStatus)>>)
    requires
        forall|ids: Vec<String>| ask.requires((ids,)),
    ensures
        exists|jobs: Seq<(String, String)>, out: Result<String, String>|
            #[trigger] slurm_map_read(nodes@, *ask, jobs, out, r),
{
    let jobs = get_running_tasks(nodes);
    let out = check_job_status(jobs.as_slice(), ask);
    let ghost go = out;
    if out.is_ok() && !job_ids_valid(jobs.as_slice()) {
        assert(slurm_map_read(nodes@, *ask, jobs@, go, None));
        return None;
    }
    let r = Some(get_status_map(out, jobs.as_slice()));
    assert(slurm_map_read(nodes@, *ask, jobs@, go, r));
    r
}

/// `save_empty_output`, handed the uid `uid` and the artifacts `arts`,
/// gave `r`.
pub open spec fn empty_output_saved<SE: Fn(String, Vec<Artifact>) -> Result<(), String>>(
    save_empty_output: SE,
    uid: Seq<char>,
    arts: Seq<Artifact>,
    r: Result<(), String>,
) -> bool {
    exists|u: String, a: Vec<Artifact>| u@ == uid && a@ == arts && #[trigger] save_empty_output.ensures((u, a), r)
}

/// The cache of a cacheable task was saved by its name (a failure is not
/// reported).
pub open spec fn cache_saved_by_name<CT: Fn(String, String) -> Result<u64, String>>(
    cache_task: CT,
    uid: Seq<char>,
    task: Task,
) -> bool {
    task.caching ==> exists|c: Result<u64, String>| #[trigger] copied_to(cache_task, task.name@, uid, c)
}

/// What keeping the result of a task that completed gives: an external
/// task has its empty output saved with its artifacts first, whose error
/// is returned; then a cacheable task has its cache saved.
pub open spec fn output_and_cache_saved<
    SE: Fn(String, Vec<Artifact>) -> Result<(), String>,
    CT: Fn(String, String) -> Result<u64, String>,
>(
    uid: Seq<char>,
    task: Task,
    arts: Seq<Artifact>,
    save_empty_output: SE,
    cache_task: CT,
    r: Result<(), String>,
) -> bool {
    if task.mode is Ext {
        exists|s: Result<(), String>|
            #[trigger] empty_output_saved(save_empty_output, uid, arts, s) && match s {
                Err(e) => r == Err::<(), String>(e),
                Ok(_) => r is Ok && cache_saved_by_name(cache_task, uid, task),
            }
    } else {
        r is Ok && cache_saved_by_name(cache_task, uid, task)
    }
}

fn copy_map_artifacts(a: &Vec<Artifact>) -> (r: Vec<Artifact>)
    ensures
        r@ == a@,
{
    let mut r: Vec<Artifact> = Vec::new();
    let mut i: usize = 0;
    while i < a.len()
        invariant
            0 <= i <= a@.len(),
            r@ == a@.take(i as int),
        decreases a@.len() - i,
    {
        r.push(Artifact { name: a[i].name.clone(), path: a[i].path.clone() });
        assert(r@ =~= a@.take(i + 1));
        i = i + 1;
    }
    assert(a@.take(a@.len() as int) =~= a@);
    r
}

/// Keep the result of a task that completed (see
/// `output_and_cache_saved`).
pub fn maybe_save_output_and_cache<
    SE: Fn(String, Vec<Artifact>) -> Result<(), String>,
    CT: Fn(String, String) -> Result<u64, String>,
>(
    uid: &String,
    task: &Task,
    artifacts: &Vec<Artifact>,
    save_empty_output: &SE,
    cache_task: &CT,
) -> (r: Result<(), String>)
    requires
        forall|u: String, a: Vec<Artifact>| save_empty_output.requires((u, a)),
        forall|a: String, b: String| cache_task.requires((a, b)),
    ensures
        output_and_cache_saved(uid@, *task, artifacts@, *save_empty_output, *cache_task, r),
{
    if let ExecMode::Ext = task.mode {
        let u = uid.clone();
        let a = copy_map_artifacts(artifacts);
        let ghost (gu, ga) = (u, a);
        let s = save_empty_output(u, a);
        assert(save_empty_output.ensures((gu, ga), s));
        assert(empty_output_saved(*save_empty_output, uid@, artifacts@, s));
        if let Err(e) = s {
            return Err(e);
        }
    }
    if task.caching {
        let n = task.name.clone();
        let u = uid.clone();
        let ghost (gn, gu) = (n, u);
        let c = cache_task(n, u);
        assert(cache_task.ensures((gn, gu), c));
        assert(copied_to(*cache_task, task.name@, uid@, c));
    }
    Ok(())
}

/// A node after Slurm gave it `status`: a task that completed keeps its
/// result (see `output_and_cache_saved`), and fails with its job id if
/// that fails; any other status is taken as it is.
pub open spec fn status_assigned<
    SE: Fn(String, Vec<Artifact>) -> Result<(), String>,
    CT: Fn(String, String) -> Result<u64, String>,
>(
    before: Node,
    after: Node,
    status: JobStatus,
    save_empty_output: SE,
    cache_task: CT,
) -> bool {
    match (status, before.behavior) {
        (JobStatus::Completed(NodeResult::Task(id)), NodeBehavior::TaskNode(t)) => exists|
            r: Result<(), String>,
        |
            #[trigger] output_and_cache_saved(
                before.uid@,
                t,
                before.output_artifacts@,
                save_empty_output,
                cache_task,
                r,
            ) && after == (Node {
                status: if r is Err {
                    JobStatus::Failed(NodeFailure::Task(id))
                } else {
                    status
                },
                ..before
            }),
        _ => after == (Node { status: status, ..before }),
    }
}

/// Give a node the status Slurm gave it (see `status_assigned`).
pub fn assign_node_status<
    SE: Fn(String, Vec<Artifact>) -> Result<(), String>,
    CT: Fn(String, String) -> Result<u64, String>,
>(node: &mut Node, status: JobStatus, save_empty_output: &SE, cache_task: &CT)
    requires
        forall|u: String, a: Vec<Artifact>| save_empty_output.requires((u, a)),
        forall|a: String, b: String| cache_task.requires((a, b)),
    ensures
        status_assigned(*old(node), *final(node), status, *save_empty_output, *cache_task),
{
    let ghost gs = status;
    node.status = status;
    let mut failure: Option<JobStatus> = None;
    if let JobStatus::Completed(NodeResult::Task(job_id)) = &node.status {
        if let NodeBehavior::TaskNode(task) = &node.behavior {
            let r = maybe_save_output_and_cache(
                &node.uid,
                task,
                &node.output_artifacts,
                save_empty_output,
                cache_task,
            );
            if r.is_err() {
                failure = Some(JobStatus::Failed(NodeFailure::Task(job_id.clone())));
            }
        }
    }
    if let Some(f) = failure {
        node.status = f;
    }
}

/// Give every node the status last recorded for it in `statuses` (see
/// `status_assigned`); the others are left alone.
pub fn update_status<
    SE: Fn(String, Vec<Artifact>) -> Result<(), String>,
    CT: Fn(String, String) -> Result<u64, String>,
>(
    nodes: &mut Vec<Node>,
    statuses: &[(String, JobStatus)],
    save_empty_output: &SE,
    cache_task: &CT,
)
    requires
        forall|u: String, a: Vec<Artifact>| save_empty_output.requires((u, a)),
        forall|a: String, b: String| cache_task.requires((a, b)),
    ensures
        final(nodes)@.len() == old(nodes)@.len(),
        forall|i: int|
            0 <= i < old(nodes)@.len() ==> match updated_status(statuses@, (#[trigger] old(nodes)@[i]).uid@) {
                Some(s) => status_assigned(old(nodes)@[i], final(nodes)@[i], s, *save_empty_output, *cache_task),
                None => final(nodes)@[i] == old(nodes)@[i],
            },
{
    let ghost o = nodes@;
    let mut i: usize = 0;
    while i < nodes.len()
        invariant
            i <= nodes@.len(),
            nodes@.len() == o.len(),
            o == old(nodes)@,
            forall|u: String, a: Vec<Artifact>| save_empty_output.requires((u, a)),
            forall|a: String, b: String| cache_task.requires((a, b)),
            forall|k: int| i <= k < nodes@.len() ==> #[trigger] nodes@[k] == o[k],
            forall|k: int|
                0 <= k < i ==> match updated_status(statuses@, (#[trigger] o[k]).uid@) {
                    Some(s) => status_assigned(o[k], nodes@[k], s, *save_empty_output, *cache_task),
                    None => nodes@[k] == o[k],
                },
        decreases nodes@.len() - i,
    {
        let mut node = nodes.remove(i);
        assert(node == o[i as int]);
        if let Some(j) = find_updated(statuses, node.uid.as_str()) {
            let s = statuses[j].1.copied();
            assign_node_status(&mut node, s, save_empty_output, cache_task);
        }
        nodes.insert(i, node);
        i = i + 1;
    }
}

/// The program that runs a task.
pub open spec fn program_of(c: Cmd) -> Seq<char> {
    crate::schemas::cmd_name(
        match c {
            Cmd::Sbatch => crate::schemas::Cmd::Sbatch,
            Cmd::Bash => crate::schemas::Cmd::Bash,
        },
    )
}

/// What every task run reads: its try number, the working directory, its
/// uid, function and task name.
pub open spec fn base_envs(uid: Seq<char>, task: Task, pipeline_dir: Seq<char>) -> Seq<
    (Seq<char>, Seq<char>),
> {
    seq![
        ("SDAG_TRY_NUM"@, decimal(task.try_num as nat)),
        ("SDAG_PIPELINE"@, pipeline_dir),
        ("SDAG_UID"@, uid),
        ("SDAG_TASK"@, task.fname@),
        ("SDAG_TASK_NAME"@, task.name@),
    ]
}

/// `p` runs the program of `task` with no argument yet and the
/// environment `envs`.
pub open spec fn plan_fits(p: CommandPlan, task: Task, envs: Seq<(Seq<char>, Seq<char>)>) -> bool {
    &&& p.program@ == program_of(task.cmd)
    &&& p.args@.len() == 0
    &&& pair_texts(p.envs@) == envs
}

/// What building the command of a task gives: the base environment (see
/// `base_envs`), then for an external task its saved input, each value
/// under the upper-case key; or the error of reading that input.
pub open spec fn command_built<RC: Fn(String) -> Result<Vec<(String, JsonValue)>, String>>(
    uid: Seq<char>,
    task: Task,
    pipeline_dir: Seq<char>,
    read_cached: RC,
    r: Result<CommandPlan, String>,
) -> bool {
    if task.mode is Ext {
        exists|ci: Result<Vec<(String, JsonValue)>, String>|
            #[trigger] answered(read_cached, uid, ci) && match ci {
                Err(e) => r == Err::<CommandPlan, String>(e),
                Ok(input) => r matches Ok(p) && plan_fits(
                    p,
                    task,
                    base_envs(uid, task, pipeline_dir) + input_envs(input@),
                ),
            }
    } else {
        r matches Ok(p) && plan_fits(p, task, base_envs(uid, task, pipeline_dir))
    }
}

fn push_pair(envs: &mut Vec<(String, String)>, name: &str, value: String)
    ensures
        pair_texts(final(envs)@) == pair_texts(old(envs)@).push((name@, value@)),
{
    let ghost v = value@;
    envs.push((String::from_str(name), value));
    assert(pair_texts(envs@) =~= pair_texts(old(envs)@).push((name@, v)));
}

/// Add the saved input of an external task to its environment, each value
/// under the upper-case key.
pub fn set_input_as_envs(envs: &mut Vec<(String, String)>, input: &[(String, JsonValue)])
    ensures
        pair_texts(final(envs)@) == pair_texts(old(envs)@) + input_envs(input@),
{
    let mut i: usize = 0;
    while i < input.len()
        invariant
            i <= input@.len(),
            pair_texts(envs@) == pair_texts(old(envs)@) + input_envs(input@.take(i as int)),
        decreases input@.len() - i,
    {
        let key = to_uppercase(input[i].0.as_str());
        let value = convert_env_to_string(&input[i].1);
        let ghost before = envs@;
        let ghost pair = (key@, value@);
        envs.push((key, value));
        assert(pair_texts(envs@) =~= pair_texts(before).push(pair));
        assert(input_envs(input@.take(i + 1)) =~= input_envs(input@.take(i as int)).push(
            (uppercase(input@[i as int].0@), env_text(input@[i as int].1)),
        ));
        i = i + 1;
    }
    assert(input@.take(input@.len() as int) =~= input@);
}

/// Build the command of a task (see `command_built`).
pub fn build_command<RC: Fn(String) -> Result<Vec<(String, JsonValue)>, String>>(
    uid: &String,
    task: &Task,
    pipeline_dir: &String,
    read_cached: &RC,
) -> (r: Result<CommandPlan, String>)
    requires
        forall|p: String| read_cached.requires((p,)),
    ensures
        command_built(uid@, *task, pipeline_dir@, *read_cached, r),
{
    let mut envs: Vec<(String, String)> = Vec::new();
    push_pair(&mut envs, "SDAG_TRY_NUM", decimal_string(task.try_num as u64));
    push_pair(&mut envs, "SDAG_PIPELINE", pipeline_dir.clone());
    push_pair(&mut envs, "SDAG_UID", uid.clone());
    push_pair(&mut envs, "SDAG_TASK", task.fname.clone());
    push_pair(&mut envs, "SDAG_TASK_NAME", task.name.clone());
    assert(pair_texts(envs@) =~= base_envs(uid@, *task, pipeline_dir@));
    if let ExecMode::Ext = task.mode {
        let u = uid.clone();
        let ghost gu = u;
        let ci = read_cached(u);
        assert(read_cached.ensures((gu,), ci));
        assert(answered(*read_cached, uid@, ci));
        match ci {
            Err(e) => {
                return Err(e);
            },
            Ok(input) => {
                set_input_as_envs(&mut envs, input.as_slice());
            },
        }
    }
    Ok(CommandPlan { program: String::from_str(task.cmd.as_str()), args: Vec::new(), envs })
}

/// The Slurm options of a task run: its job name, and its error and
/// output logs under `./logs/<pipeline>/`.
pub open spec fn sbatch_overrides(name: Seq<char>, pipeline: Seq<char>) -> Seq<Seq<char>> {
    seq![
        "--job-name="@ + name,
        "--error=./logs/"@ + pipeline + "/%x.%j.err"@,
        "--output=./logs/"@ + pipeline + "/%x.%j.out"@,
    ]
}

/// The Slurm options of a task run (see `sbatch_overrides`).
pub fn override_sbatch(name: &str, pipeline_name: &str) -> (r: Vec<String>)
    ensures
        texts(r@) == sbatch_overrides(name@, pipeline_name@),
{
    let mut args: Vec<String> = Vec::new();
    args.push(concat_str("--job-name=", name));
    let e = concat_str("--error=./logs/", pipeline_name);
    args.push(concat_str(e.as_str(), "/%x.%j.err"));
    let o = concat_str("--output=./logs/", pipeline_name);
    args.push(concat_str(o.as_str(), "/%x.%j.out"));
    assert(texts(args@) =~= sbatch_overrides(name@, pipeline_name@));
    args
}

/// `run` was handed a plan of the task's program with the environment
/// `envs` and the arguments `args`, and gave `r`.
pub open spec fn plan_run<T, X: Fn(CommandPlan) -> Result<T, String>>(
    run: X,
    task: Task,
    envs: Seq<(Seq<char>, Seq<char>)>,
    args: Seq<Seq<char>>,
    r: Result<T, String>,
) -> bool {
    exists|p: CommandPlan|
        p.program@ == program_of(task.cmd) && pair_texts(p.envs@) == envs && texts(p.args@) == args
            && #[trigger] run.ensures((p,), r)
}

/// What submitting a task to Slurm gives: the error of building its
/// command; otherwise its program is run by `run` with the Slurm options
/// (see `sbatch_overrides`) and the launch script, and the answer is the
/// error of the run, the job id it prints (see `submitted_job_id`), or an
/// error when it prints none.
pub open spec fn job_sent<
    RC: Fn(String) -> Result<Vec<(String, JsonValue)>, String>,
    X: Fn(CommandPlan) -> Result<String, String>,
>(
    uid: Seq<char>,
    task: Task,
    pipeline_dir: Seq<char>,
    pipeline_name: Seq<char>,
    read_cached: RC,
    run: X,
    r: Result<String, String>,
) -> bool {
    exists|b: Result<CommandPlan, String>|
        #[trigger] command_built(uid, task, pipeline_dir, read_cached, b) && match b {
            Err(e) => r == Err::<String, String>(e),
            Ok(p) => exists|out: Result<String, String>|
                #[trigger] plan_run(
                    run,
                    task,
                    pair_texts(p.envs@),
                    sbatch_overrides(task.name@, pipeline_name).push(task.launch_script@),
                    out,
                ) && match out {
                    Err(e) => r == Err::<String, String>(e),
                    Ok(stdout) => match submitted_job_id(stdout@) {
                        Some(id) => r matches Ok(x) && x@ == id,
                        None => r matches Err(e) && e@ == "Job id not found"@,
                    },
                },
        }
}

/// Submit a task to Slurm (see `job_sent`).
pub fn submit<
    RC: Fn(String) -> Result<Vec<(String, JsonValue)>, String>,
    X: Fn(CommandPlan) -> Result<String, String>,
>(
    uid: &String,
    task: &Task,
    pipeline_dir: &String,
    pipeline_name: &String,
    read_cached: &RC,
    run: &X,
) -> (r: Result<String, String>)
    requires
        forall|p: String| read_cached.requires((p,)),
        forall|p: CommandPlan| run.requires((p,)),
    ensures
        job_sent(uid@, *task, pipeline_dir@, pipeline_name@, *read_cached, *run, r),
{
    let b = build_command(uid, task, pipeline_dir, read_cached);
    let ghost gb = b;
    let mut plan = match b {
        Err(e) => {
            return Err(e);
        },
        Ok(p) => p,
    };
    let mut args = override_sbatch(task.name.as_str(), pipeline_name.as_str());
    let ghost before = texts(args@);
    args.push(task.launch_script.clone());
    assert(texts(args@) =~= before.push(task.launch_script@));
    plan.args = args;
    let ghost gp = plan;
    let out = run(plan);
    assert(run.ensures((gp,), out));
    assert(plan_run(
        *run,
        *task,
        pair_texts(gb->Ok_0.envs@),
        sbatch_overrides(task.name@, pipeline_name@).push(task.launch_script@),
        out,
    ));
    match out {
        Err(e) => Err(e),
        Ok(stdout) => match find_submitted_job_id(stdout.as_str()) {
            Some(id) => Ok(id),
            None => {
                let e = String::from_str("Job id not found");
                proof {
                    reveal_strlit("Job id not found");
                }
                Err(e)
            },
        },
    }
}

/// What running a task locally gives: the error of building its command;
/// otherwise its program is run by `run_local` with the launch script,
/// and the answer is the error of the run or of keeping its result (see
/// `output_and_cache_saved`).
pub open spec fn local_run<
    RC: Fn(String) -> Result<Vec<(String, JsonValue)>, String>,
    X: Fn(CommandPlan) -> Result<(), String>,
    SE: Fn(String, Vec<Artifact>) -> Result<(), String>,
    CT: Fn(String, String) -> Result<u64, String>,
>(
    uid: Seq<char>,
    task: Task,
    arts: Seq<Artifact>,
    pipeline_dir: Seq<char>,
    read_cached: RC,
    run_local: X,
    save_empty_output: SE,
    cache_task: CT,
    r: Result<(), String>,
) -> bool {
    exists|b: Result<CommandPlan, String>|
        #[trigger] command_built(uid, task, pipeline_dir, read_cached, b) && match b {
            Err(e) => r == Err::<(), String>(e),
            Ok(p) => exists|out: Result<(), String>|
                #[trigger] plan_run(run_local, task, pair_texts(p.envs@), seq![task.launch_script@], out)
                    && match out {
                    Err(e) => r == Err::<(), String>(e),
                    Ok(_) => output_and_cache_saved(uid, task, arts, save_empty_output, cache_task, r),
                },
        }
}

/// Run a task locally and keep its result (see `local_run`).
pub fn submit_local<
    RC: Fn(String) -> Result<Vec<(String, JsonValue)>, String>,
    X: Fn(CommandPlan) -> Result<(), String>,
    SE: Fn(String, Vec<Artifact>) -> Result<(), String>,
    CT: Fn(String, String) -> Result<u64, String>,
>(
    uid: &String,
    task: &Task,
    artifacts: &Vec<Artifact>,
    pipeline_dir: &String,
    read_cached: &RC,
    run_local: &X,
    save_empty_output: &SE,
    cache_task: &CT,
) -> (r: Result<(), String>)
    requires
        forall|p: String| read_cached.requires((p,)),
        forall|p: CommandPlan| run_local.requires((p,)),
        forall|u: String, a: Vec<Artifact>| save_empty_output.requires((u, a)),
        forall|a: String, b: String| cache_task.requires((a, b)),
    ensures
        local_run(
            uid@,
            *task,
            artifacts@,
            pipeline_dir@,
            *read_cached,
            *run_local,
            *save_empty_output,
            *cache_task,
            r,
        ),
{
    let b = build_command(uid, task, pipeline_dir, read_cached);
    let ghost gb = b;
    let mut plan = match b {
        Err(e) => {
            return Err(e);
        },
        Ok(p) => p,
    };
    let mut args: Vec<String> = Vec::new();
    args.push(task.launch_script.clone());
    assert(texts(args@) =~= seq![task.launch_script@]);
    plan.args = args;
    let ghost gp = plan;
    let out = run_local(plan);
    assert(run_local.ensures((gp,), out));
    assert(plan_run(*run_local, *task, pair_texts(gb->Ok_0.envs@), seq![task.launch_script@], out));
    match out {
        Err(e) => Err(e),
        Ok(_) => maybe_save_output_and_cache(uid, task, artifacts, save_empty_output, cache_task),
    }
}

} // verus!
