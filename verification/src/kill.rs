//! Stopping a run: the lock files that signal a scheduler, and the jobs to
//! cancel when it is killed.

use crate::context::{Ctx, CtxState};
use crate::status::{Failed, JobType, Status};
use crate::text::{join_path, path_join};
use crate::workdirs::{file_name, find_pipeline_folder, pipeline_folder_found, FileNames};
use vstd::prelude::*;

verus! {

/// What creating the lock file `lock` in a run folder gives: nothing when
/// no run is found, otherwise the result of creating the file in the run
/// folder.
pub open spec fn lock_created<
    E: Fn(String) -> bool,
    L: Fn(String) -> Result<Vec<(String, u64)>, String>,
    C: Fn(String) -> Result<(), String>,
>(
    home: Seq<char>,
    name: Seq<char>,
    hash: Seq<char>,
    lock: Seq<char>,
    path_exists: E,
    list_runs: L,
    create_file: C,
    r: Option<Result<(), String>>,
) -> bool {
    exists|folder: Option<String>|
        #[trigger] pipeline_folder_found(home, name, hash, path_exists, list_runs, folder)
            && match folder {
            None => r is None,
            Some(f) => exists|p: String, c: Result<(), String>|
                p@ == path_join(f@, lock) && #[trigger] create_file.ensures((p,), c) && r == Some(
                    c,
                ),
        }
}

/// Create the lock file `lock` in the folder of run `hash` of pipeline
/// `name` (see `lock_created`).
pub fn create_lock<
    E: Fn(String) -> bool,
    L: Fn(String) -> Result<Vec<(String, u64)>, String>,
    C: Fn(String) -> Result<(), String>,
>(
    name: &str,
    hash: &str,
    homedir: &str,
    lock: &str,
    path_exists: &E,
    list_runs: &L,
    create_file: &C,
) -> (r: Option<Result<(), String>>)
    requires
        forall|p: String| path_exists.requires((p,)),
        forall|p: String| list_runs.requires((p,)),
        forall|p: String| create_file.requires((p,)),
    ensures
        lock_created(homedir@, name@, hash@, lock@, *path_exists, *list_runs, *create_file, r),
{
    let folder = find_pipeline_folder(homedir, name, hash, path_exists, list_runs);
    let ghost gf = folder;
    match folder {
        None => {
            assert(pipeline_folder_found(homedir@, name@, hash@, *path_exists, *list_runs, gf));
            None
        },
        Some(dagdir) => {
            let path = join_path(dagdir.as_str(), lock);
            let ghost gp = path;
            let c = create_file(path);
            assert(create_file.ensures((gp,), c));
            assert(pipeline_folder_found(homedir@, name@, hash@, *path_exists, *list_runs, gf));
            Some(c)
        },
    }
}

/// Signal the scheduler of run `hash` of pipeline `name` to stop and kill
/// its jobs, by creating its kill lock (see `lock_created`).
pub fn create_kill_lock<
    E: Fn(String) -> bool,
    L: Fn(String) -> Result<Vec<(String, u64)>, String>,
    C: Fn(String) -> Result<(), String>,
>(
    name: &str,
    hash: &str,
    homedir: &str,
    path_exists: &E,
    list_runs: &L,
    create_file: &C,
) -> (r: Option<Result<(), String>>)
    requires
        forall|p: String| path_exists.requires((p,)),
        forall|p: String| list_runs.requires((p,)),
        forall|p: String| create_file.requires((p,)),
    ensures
        lock_created(
            homedir@,
            name@,
            hash@,
            file_name(FileNames::Kill),
            *path_exists,
            *list_runs,
            *create_file,
            r,
        ),
{
    create_lock(name, hash, homedir, FileNames::Kill.as_str(), path_exists, list_runs, create_file)
}

/// Path of the kill lock of a run folder.
pub open spec fn kill_lock_path(dagdir: Seq<char>) -> Seq<char> {
    path_join(dagdir, file_name(FileNames::Kill))
}

/// Whether the scheduler of the run folder `dagdir` was told to stop: its
/// kill lock exists, as `path_exists` says.
pub fn is_scheduler_killed<E: Fn(String) -> bool>(dagdir: &str, path_exists: &E) -> (r: bool)
    requires
        forall|p: String| path_exists.requires((p,)),
    ensures
        exists|p: String| p@ == kill_lock_path(dagdir@) && #[trigger] path_exists.ensures((p,), r),
{
    let path = join_path(dagdir, FileNames::Kill.as_str());
    let ghost gp = path;
    let r = path_exists(path);
    assert(path_exists.ensures((gp,), r));
    r
}

/// Every Slurm job of `jobs`, in order, failed as a job.
pub open spec fn slurm_killed(jobs: Seq<(usize, String)>, statuses: Seq<Status>) -> Seq<Status>
    decreases jobs.len(),
{
    if jobs.len() == 0 {
        statuses
    } else {
        slurm_killed(jobs.drop_last(), statuses).update(
            jobs.last().0 as int,
            Status::Failed(Failed::Job(JobType::Slurm(jobs.last().1))),
        )
    }
}

/// Every local process of `jobs`, in order, failed as a job.
pub open spec fn local_killed(jobs: Seq<(usize, u32)>, statuses: Seq<Status>) -> Seq<Status>
    decreases jobs.len(),
{
    if jobs.len() == 0 {
        statuses
    } else {
        local_killed(jobs.drop_last(), statuses).update(
            jobs.last().0 as int,
            Status::Failed(Failed::Job(JobType::Local(jobs.last().1))),
        )
    }
}

/// Mark every running job as failed, Slurm jobs first, and give back what
/// to stop: the Slurm job ids to cancel and the local processes to kill.
pub fn kill_jobs(ctx: &mut Ctx) -> (r: (Vec<String>, Vec<u32>))
    requires
        forall|k: int|
            0 <= k < old(ctx).slurm_jobs@.len() ==> (#[trigger] old(ctx).slurm_jobs@[k]).0
                < old(ctx).statuses@.len(),
        forall|k: int|
            0 <= k < old(ctx).local_jobs@.len() ==> (#[trigger] old(ctx).local_jobs@[k]).0
                < old(ctx).statuses@.len(),
    ensures
        final(ctx)@ == (CtxState {
            statuses: local_killed(
                old(ctx).local_jobs@,
                slurm_killed(old(ctx).slurm_jobs@, old(ctx).statuses@),
            ),
            ..old(ctx)@
        }),
        r.0@ == old(ctx).slurm_jobs@.map_values(|j: (usize, String)| j.1),
        r.1@ == old(ctx).local_jobs@.map_values(|j: (usize, u32)| j.1),
{
    let mut ids: Vec<String> = Vec::new();
    let mut i: usize = 0;
    while i < ctx.slurm_jobs.len()
        invariant
            i <= ctx.slurm_jobs@.len(),
            ctx.slurm_jobs == old(ctx).slurm_jobs,
            ctx.local_jobs == old(ctx).local_jobs,
            ctx.updated == old(ctx).updated,
            ctx.jobs == old(ctx).jobs,
            ctx.try_nums == old(ctx).try_nums,
            ctx.running_cacheable == old(ctx).running_cacheable,
            forall|k: int|
                0 <= k < old(ctx).slurm_jobs@.len() ==> (#[trigger] old(ctx).slurm_jobs@[k]).0
                    < old(ctx).statuses@.len(),
            ctx.statuses@.len() == old(ctx).statuses@.len(),
            ctx.statuses@ == slurm_killed(ctx.slurm_jobs@.take(i as int), old(ctx).statuses@),
            ids@ == ctx.slurm_jobs@.take(i as int).map_values(|j: (usize, String)| j.1),
        decreases ctx.slurm_jobs@.len() - i,
    {
        assert(ctx.slurm_jobs@.take(i + 1).drop_last() =~= ctx.slurm_jobs@.take(i as int));
        assert(ctx.slurm_jobs@.take(i + 1).last() == ctx.slurm_jobs@[i as int]);
        let uid = ctx.slurm_jobs[i].0;
        let id = ctx.slurm_jobs[i].1.clone();
        ctx.statuses.set(uid, Status::Failed(Failed::Job(JobType::Slurm(id.clone()))));
        ids.push(id);
        assert(ids@ =~= ctx.slurm_jobs@.take(i + 1).map_values(|j: (usize, String)| j.1));
        i = i + 1;
    }
    assert(ctx.slurm_jobs@.take(ctx.slurm_jobs@.len() as int) =~= ctx.slurm_jobs@);
    let ghost mid = ctx.statuses@;
    let mut pids: Vec<u32> = Vec::new();
    let mut j: usize = 0;
    while j < ctx.local_jobs.len()
        invariant
            j <= ctx.local_jobs@.len(),
            ctx.slurm_jobs == old(ctx).slurm_jobs,
            ctx.local_jobs == old(ctx).local_jobs,
            ctx.updated == old(ctx).updated,
            ctx.jobs == old(ctx).jobs,
            ctx.try_nums == old(ctx).try_nums,
            ctx.running_cacheable == old(ctx).running_cacheable,
            mid.len() == old(ctx).statuses@.len(),
            forall|k: int|
                0 <= k < old(ctx).local_jobs@.len() ==> (#[trigger] old(ctx).local_jobs@[k]).0
                    < old(ctx).statuses@.len(),
            ctx.statuses@.len() == old(ctx).statuses@.len(),
            ctx.statuses@ == local_killed(ctx.local_jobs@.take(j as int), mid),
            pids@ == ctx.local_jobs@.take(j as int).map_values(|p: (usize, u32)| p.1),
        decreases ctx.local_jobs@.len() - j,
    {
        assert(ctx.local_jobs@.take(j + 1).drop_last() =~= ctx.local_jobs@.take(j as int));
        assert(ctx.local_jobs@.take(j + 1).last() == ctx.local_jobs@[j as int]);
        let uid = ctx.local_jobs[j].0;
        let pid = ctx.local_jobs[j].1;
        ctx.statuses.set(uid, Status::Failed(Failed::Job(JobType::Local(pid))));
        pids.push(pid);
        assert(pids@ =~= ctx.local_jobs@.take(j + 1).map_values(|p: (usize, u32)| p.1));
        j = j + 1;
    }
    assert(ctx.local_jobs@.take(ctx.local_jobs@.len() as int) =~= ctx.local_jobs@);
    (ids, pids)
}

} // verus!
