//! Running a single task outside a pipeline: the hash of its run and the
//! configuration it runs with.

use crate::nodes::Task;
use crate::nonblocking::{local_started, slurm_submitted, submit_local, submit_slurm, CommandPlan};
use crate::schemas::{Cmd, DAGMeta, JsonValue};
use crate::settings::{cachedir_of, dagdir_of, get_cache_paths, get_dagdir, local_cachedir_of, Cfg};
use vstd::prelude::*;

verus! {

/// Characters of a hyphenated lower-case UUID.
pub open spec fn uuid_char(c: char) -> bool {
    ('0' <= c <= '9') || ('a' <= c <= 'f') || c == '-'
}

/// Calls `uuid::Uuid::new_v4` and formats the UUID with `to_string`.
/// Claimed, as the `uuid` crate formats it (hyphenated, lower-case hex):
/// 36 characters, each a hex digit or a hyphen. The value is random.
#[verifier::external_body]
pub(crate) fn new_uuid_string() -> (r: String)
    ensures
        r@.len() == 36,
        forall|i: int| 0 <= i < 36 ==> uuid_char(#[trigger] r@[i]),
{
    uuid::Uuid::new_v4().to_string()
}

/// Hash of a single-task run: the task name, a hyphen and the first eight
/// characters of a random UUID.
pub fn get_runtask_hash(task_name: &str) -> (r: String)
    ensures
        exists|u: Seq<char>|
            u.len() == 8 && (forall|i: int| 0 <= i < 8 ==> uuid_char(#[trigger] u[i])) && r@
                == task_name@ + "-"@ + u,
{
    let long_hash = new_uuid_string();
    let short_hash = long_hash.as_str().substring_char(0, 8);
    let ghost u = short_hash@;
    assert(u =~= long_hash@.subrange(0, 8));
    assert(forall|i: int| 0 <= i < 8 ==> u[i] == long_hash@[i]);
    let mut r = String::from_str(task_name);
    r.append("-");
    r.append(short_hash);
    r
}

/// Metadata of a single-task run: the task's pipeline, the run hash and
/// timestamp, nothing extra, the pipeline as import path, no keyword
/// arguments (an empty JSON object).
pub open spec fn runtask_meta_spec(task: Task, hash: Seq<char>, timestamp: Seq<char>, m: DAGMeta) -> bool {
    &&& m.pipeline_name@ == task.pipeline_name@
    &&& m.hash@ == hash
    &&& m.timestamp@ == timestamp
    &&& m.extra@ == "null"@
    &&& m.import_path@ == task.pipeline_name@
    &&& m.kwargs@ == "{}"@
}

/// Metadata of a single-task run (see `runtask_meta_spec`).
pub fn runtask_meta(task: &Task, hash: String, timestamp: &str) -> (r: DAGMeta)
    ensures
        runtask_meta_spec(*task, hash@, timestamp@, r),
{
    DAGMeta {
        pipeline_name: task.pipeline_name.clone(),
        hash,
        timestamp: String::from_str(timestamp),
        extra: String::from_str("null"),
        import_path: task.pipeline_name.clone(),
        kwargs: String::from_str("{}"),
    }
}

/// Configuration of a single-task run: the run folder of `meta` under the
/// home directory, one job at a time, no fail-fast.
pub fn runtask_cfg(
    homedir: &str,
    meta: &DAGMeta,
    timestamp: &str,
    slurm_grace_period: usize,
    max_concurrent_runs: usize,
    time_between_polls: u64,
    log_level: &str,
) -> (r: Cfg)
    ensures
        r.homedir@ == homedir@,
        r.dagdir@ == dagdir_of(homedir@, meta.pipeline_name@, meta.hash@),
        r.cachedir@ == cachedir_of(homedir@),
        r.local_cachedir@ == local_cachedir_of(homedir@),
        r.timestamp@ == timestamp@,
        r.grace_period == slurm_grace_period,
        r.max_dagdirs == max_concurrent_runs,
        r.sleep_time == time_between_polls,
        r.log_level@ == log_level@,
        r.max_concurrency == 1,
        !r.fail_fast,
{
    let dagdir = get_dagdir(homedir, meta.pipeline_name.as_str(), meta.hash.as_str());
    let (cachedir, local_cachedir) = get_cache_paths(homedir);
    Cfg {
        homedir: String::from_str(homedir),
        dagdir,
        cachedir,
        local_cachedir,
        timestamp: String::from_str(timestamp),
        grace_period: slurm_grace_period,
        max_dagdirs: max_concurrent_runs,
        max_concurrency: 1,
        sleep_time: time_between_polls,
        log_level: String::from_str(log_level),
        fail_fast: false,
    }
}

/// What came of running a single task: submitted to Slurm with a job id,
/// run locally to the end (whether it succeeded), or failed to start.
pub enum JobOutcome {
    Submitted(String),
    Finished(bool),
    Failed(String),
}

/// The outcome `o` reports the answer `r` of a Slurm submission.
pub open spec fn slurm_outcome(r: Result<String, String>, o: JobOutcome) -> bool {
    match r {
        Ok(id) => o matches JobOutcome::Submitted(x) && x@ == id@,
        Err(e) => o matches JobOutcome::Failed(x) && x@ == e@,
    }
}

/// The outcome `o` reports the answer `r` of a local run.
pub open spec fn local_outcome(r: Result<bool, String>, o: JobOutcome) -> bool {
    match r {
        Ok(b) => o == JobOutcome::Finished(b),
        Err(e) => o matches JobOutcome::Failed(x) && x@ == e@,
    }
}

/// Run a single task, as its first try: a Slurm task is submitted (see
/// `slurm_submitted`), a local one is run to the end by `run_blocking`
/// (see `local_started`).
pub fn submit_job<
    R: Fn(String) -> Result<JsonValue, String>,
    SI: Fn(String, Vec<(String, JsonValue)>) -> Result<(), String>,
    LD: Fn(String, String) -> (),
    SS: Fn(String, String) -> Result<(), String>,
    X: Fn(CommandPlan) -> Result<(bool, String), String>,
    B: Fn(CommandPlan) -> Result<bool, String>,
>(
    task: &Task,
    cfg: &Cfg,
    meta: &DAGMeta,
    read: &R,
    save_input: &SI,
    make_log_dirs: &LD,
    save_script: &SS,
    run: &X,
    run_blocking: &B,
) -> (o: JobOutcome)
    requires
        forall|p: String| read.requires((p,)),
        forall|p: String, v: Vec<(String, JsonValue)>| save_input.requires((p, v)),
        forall|a: String, b: String| make_log_dirs.requires((a, b)),
        forall|p: String, t: String| save_script.requires((p, t)),
        forall|p: CommandPlan| run.requires((p,)),
        forall|p: CommandPlan| run_blocking.requires((p,)),
    ensures
        task.cmd is Sbatch ==> exists|r: Result<String, String>|
            #[trigger] slurm_submitted(
                *task,
                1,
                *cfg,
                *meta,
                *read,
                *save_input,
                *make_log_dirs,
                *save_script,
                *run,
                r,
            ) && slurm_outcome(r, o),
        task.cmd is Bash ==> exists|r: Result<bool, String>|
            #[trigger] local_started(
                *task,
                1,
                *cfg,
                *meta,
                *read,
                *save_script,
                *save_input,
                *run_blocking,
                r,
            ) && local_outcome(r, o),
{
    match task.cmd {
        Cmd::Sbatch => {
            let r = submit_slurm(task, 1, cfg, meta, read, save_input, make_log_dirs, save_script, run);
            match r {
                Ok(id) => JobOutcome::Submitted(id),
                Err(e) => JobOutcome::Failed(e),
            }
        },
        Cmd::Bash => {
            let r = submit_local(task, 1, cfg, meta, read, save_script, save_input, run_blocking);
            match r {
                Ok(b) => JobOutcome::Finished(b),
                Err(e) => JobOutcome::Failed(e),
            }
        },
    }
}

} // verus!
