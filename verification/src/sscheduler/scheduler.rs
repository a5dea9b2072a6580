//! Starting a run of the string-keyed scheduler and deciding when it ends.

use crate::sscheduler::checkpoint::{checkpoint_loaded, Checkpointer};
use crate::sscheduler::model::{Cmd, JobStatus, Node, NodeBehavior, DAG};
use crate::sscheduler::state::LocalDirState;
use crate::settings::homedir_spec;
use crate::text::{join_path, path_join};
use vstd::prelude::*;

verus! {

/// What a run starts with: its working directory, its checkpoint settings,
/// the seconds between polls and the job limit (0: none).
pub struct Simulation {
    pub state: LocalDirState,
    pub checkpointer: Checkpointer,
    pub poll_time: u64,
    pub max_concurrency: usize,
}

/// Start a run of `dag` under `home_dir` (see `Simulation`): the working
/// directory is named by the pipeline, and the checkpoint keeps its
/// metadata and whether the run restarts.
pub fn start_simulation(
    home_dir: &str,
    dag: &DAG,
    wait_seconds: u64,
    max_concurrency: usize,
    restart: bool,
) -> (r: Simulation)
    ensures
        r.state.wf(),
        r.state.home() == home_dir@,
        r.state.pipeline() == path_join(home_dir@, dag.meta.name@),
        r.checkpointer.meta == dag.meta,
        r.checkpointer.restart == restart,
        r.poll_time == wait_seconds,
        r.max_concurrency == max_concurrency,
{
    let state = LocalDirState::new(home_dir, dag.meta.name.as_str());
    let checkpointer = Checkpointer { meta: dag.meta.copied(), restart };
    Simulation { state, checkpointer, poll_time: wait_seconds, max_concurrency }
}

/// Every task runs locally.
pub open spec fn all_local(before: Seq<Node>, after: Seq<Node>) -> bool {
    &&& after.len() == before.len()
    &&& forall|i: int|
        0 <= i < before.len() ==> #[trigger] after[i] == match before[i].behavior {
            NodeBehavior::TaskNode(t) => Node {
                behavior: NodeBehavior::TaskNode(crate::sscheduler::model::Task { cmd: Cmd::Bash, ..t }),
                ..before[i]
            },
            _ => before[i],
        }
}

/// Make every task run locally, for a local run.
pub fn mark_all_tasks_as_local(nodes: &mut Vec<Node>)
    ensures
        all_local(old(nodes)@, final(nodes)@),
{
    let mut i: usize = 0;
    while i < nodes.len()
        invariant
            i <= nodes@.len(),
            nodes@.len() == old(nodes)@.len(),
            forall|k: int| i <= k < nodes@.len() ==> #[trigger] nodes@[k] == old(nodes)@[k],
            forall|k: int|
                0 <= k < i ==> #[trigger] nodes@[k] == match old(nodes)@[k].behavior {
                    NodeBehavior::TaskNode(t) => Node {
                        behavior: NodeBehavior::TaskNode(
                            crate::sscheduler::model::Task { cmd: Cmd::Bash, ..t },
                        ),
                        ..old(nodes)@[k]
                    },
                    _ => old(nodes)@[k],
                },
        decreases nodes@.len() - i,
    {
        let mut node = nodes.remove(i);
        assert(node == old(nodes)@[i as int]);
        if let NodeBehavior::TaskNode(task) = &mut node.behavior {
            task.cmd = Cmd::Bash;
        }
        nodes.insert(i, node);
        i = i + 1;
    }
}

/// Whether every node reached a final status: completed, failed or
/// skipped.
pub fn is_simulation_completed(nodes: &[Node]) -> (r: bool)
    ensures
        r == forall|i: int|
            0 <= i < nodes@.len() ==> {
                let s = (#[trigger] nodes@[i]).status;
                s is Completed || s is Failed || s is Skipped
            },
{
    let mut i: usize = 0;
    while i < nodes.len()
        invariant
            i <= nodes@.len(),
            forall|k: int|
                0 <= k < i ==> {
                    let s = (#[trigger] nodes@[k]).status;
                    s is Completed || s is Failed || s is Skipped
                },
        decreases nodes@.len() - i,
    {
        match &nodes[i].status {
            JobStatus::Completed(_) | JobStatus::Failed(_) | JobStatus::Skipped => {},
            _ => {
                return false;
            },
        }
        i = i + 1;
    }
    true
}

/// Resolve the home directory from the value of `SDAG_HOME` and the
/// user's home directory (see `homedir_spec`).
pub fn find_home_dir(sdag_home: Option<&str>, user_home: Option<&str>) -> (r: Result<String, String>)
    ensures
        match homedir_spec(
            match sdag_home {
                Some(h) => Some(h@),
                None => None,
            },
            match user_home {
                Some(h) => Some(h@),
                None => None,
            },
        ) {
            Ok(p) => r matches Ok(s) && s@ == p,
            Err(_) => r matches Err(m) && m@
                == "Failed to identify a home directory. Please Set the 'SDAG_HOME' environment variable."@,
        },
{
    match sdag_home {
        Some(h) => Ok(join_path(h, ".sdag")),
        None => match user_home {
            Some(h) => Ok(join_path(h, ".sdag")),
            None => Err(
                String::from_str(
                    "Failed to identify a home directory. Please Set the 'SDAG_HOME' environment variable.",
                ),
            ),
        },
    }
}

/// The directory of each task node under the pipeline directory, with
/// the function name written in its metadata, in node order.
pub open spec fn task_dirs_of(pipeline: Seq<char>, nodes: Seq<Node>) -> Seq<(Seq<char>, Seq<char>)>
    decreases nodes.len(),
{
    if nodes.len() == 0 {
        Seq::empty()
    } else {
        let prev = task_dirs_of(pipeline, nodes.drop_last());
        match nodes.last().behavior {
            NodeBehavior::TaskNode(t) => prev.push((path_join(pipeline, nodes.last().uid@), t.fname@)),
            _ => prev,
        }
    }
}

/// The directories to create for the task nodes (see `task_dirs_of`).
pub fn task_dirs(state: &LocalDirState, nodes: &[Node]) -> (r: Vec<(String, String)>)
    ensures
        r@.map_values(|p: (String, String)| (p.0@, p.1@)) == task_dirs_of(state.pipeline(), nodes@),
{
    let mut r: Vec<(String, String)> = Vec::new();
    let mut i: usize = 0;
    while i < nodes.len()
        invariant
            i <= nodes@.len(),
            r@.map_values(|p: (String, String)| (p.0@, p.1@)) == task_dirs_of(
                state.pipeline(),
                nodes@.take(i as int),
            ),
        decreases nodes@.len() - i,
    {
        assert(nodes@.take(i + 1).drop_last() =~= nodes@.take(i as int));
        assert(nodes@.take(i + 1).last() == nodes@[i as int]);
        if let NodeBehavior::TaskNode(t) = &nodes[i].behavior {
            let ghost before = r@;
            let d = state.node_dir(nodes[i].uid.as_str());
            r.push((d, t.fname.clone()));
            assert(r@.map_values(|p: (String, String)| (p.0@, p.1@)) =~= before.map_values(
                |p: (String, String)| (p.0@, p.1@),
            ).push((path_join(state.pipeline(), nodes@[i as int].uid@), t.fname@)));
        }
        i = i + 1;
    }
    assert(nodes@.take(nodes@.len() as int) =~= nodes@);
    r
}

/// What preparing the pipeline gives: on a fresh run, the working
/// directory is prepared by `prepare` (handed the task directories, see
/// `task_dirs_of`) and the pipeline file `path` is copied into it by
/// `copy_dag`, and the pipeline is used as it is; on a restart, it is
/// loaded from the checkpoint (see `checkpoint_loaded`). The first error is
/// returned.
pub open spec fn dag_prepared<
    P: Fn(Vec<(String, String)>) -> Result<(), String>,
    C: Fn(String, String) -> Result<u64, String>,
    R: Fn(String) -> Result<DAG, String>,
    D: Fn(String) -> bool,
    F: Fn(String) -> bool,
>(
    dag: DAG,
    path: Seq<char>,
    restart: bool,
    pipeline: Seq<char>,
    prepare: P,
    copy_dag: C,
    read: R,
    is_dir: D,
    is_file: F,
    r: Result<DAG, String>,
) -> bool {
    if !restart {
        exists|dirs: Vec<(String, String)>, p: Result<(), String>|
            dirs@.map_values(|d: (String, String)| (d.0@, d.1@)) == task_dirs_of(pipeline, dag.nodes@)
                && #[trigger] prepare.ensures((dirs,), p) && match p {
                Err(e) => r == Err::<DAG, String>(e),
                Ok(_) => exists|c: Result<u64, String>|
                    #[trigger] crate::cache::copied_to(copy_dag, path, path_join(pipeline, "pipeline.json"@), c)
                        && match c {
                        Err(e) => r == Err::<DAG, String>(e),
                        Ok(_) => r == Ok::<DAG, String>(dag),
                    },
            }
    } else {
        exists|p: String, a: Result<DAG, String>|
            p@ == path_join(pipeline, "checkpoint.json"@) && #[trigger] read.ensures((p,), a)
                && checkpoint_loaded(pipeline, a, is_dir, is_file, r)
    }
}

/// Prepare the pipeline for a run (see `dag_prepared`); for a local run
/// every task then runs locally (see `all_local`).
pub fn prepare_dag<
    P: Fn(Vec<(String, String)>) -> Result<(), String>,
    C: Fn(String, String) -> Result<u64, String>,
    R: Fn(String) -> Result<DAG, String>,
    D: Fn(String) -> bool,
    F: Fn(String) -> bool,
>(
    dag: DAG,
    local: bool,
    path: &String,
    checkpointer: &Checkpointer,
    state: &LocalDirState,
    prepare: &P,
    copy_dag: &C,
    read: &R,
    is_dir: &D,
    is_file: &F,
) -> (r: Result<DAG, String>)
    requires
        state.wf(),
        forall|d: Vec<(String, String)>| prepare.requires((d,)),
        forall|a: String, b: String| copy_dag.requires((a, b)),
        forall|p: String| read.requires((p,)),
        forall|p: String| is_dir.requires((p,)),
        forall|p: String| is_file.requires((p,)),
    ensures
        exists|d: Result<DAG, String>|
            #[trigger] dag_prepared(
                dag,
                path@,
                checkpointer.restart,
                state.pipeline(),
                *prepare,
                *copy_dag,
                *read,
                *is_dir,
                *is_file,
                d,
            ) && match d {
                Err(e) => r == Err::<DAG, String>(e),
                Ok(g) => r matches Ok(h) && h.meta == g.meta && all_local_if(local, g.nodes@, h.nodes@),
            },
{
    let ghost gdag = dag;
    let d = if !checkpointer.restart {
        let dirs = task_dirs(state, dag.nodes.as_slice());
        let ghost gdirs = dirs;
        let p = prepare(dirs);
        assert(prepare.ensures((gdirs,), p));
        match p {
            Err(e) => Err(e),
            Ok(_) => {
                let src = path.clone();
                let dst = state.pipeline_copy_path();
                let ghost (gs, gd) = (src, dst);
                let c = copy_dag(src, dst);
                assert(copy_dag.ensures((gs, gd), c));
                assert(crate::cache::copied_to(
                    *copy_dag,
                    path@,
                    path_join(state.pipeline(), "pipeline.json"@),
                    c,
                ));
                match c {
                    Err(e) => Err(e),
                    Ok(_) => Ok(dag),
                }
            },
        }
    } else {
        checkpointer.load_checkpoint(state, read, is_dir, is_file)
    };
    let ghost gd = d;
    assert(dag_prepared(
        gdag,
        path@,
        checkpointer.restart,
        state.pipeline(),
        *prepare,
        *copy_dag,
        *read,
        *is_dir,
        *is_file,
        gd,
    ));
    match d {
        Err(e) => Err(e),
        Ok(mut g) => {
            if local {
                mark_all_tasks_as_local(&mut g.nodes);
            }
            Ok(g)
        },
    }
}

/// Every task runs locally when `local` is set; otherwise nothing changes.
pub open spec fn all_local_if(local: bool, before: Seq<Node>, after: Seq<Node>) -> bool {
    if local {
        all_local(before, after)
    } else {
        after == before
    }
}

} // verus!
