//! Layout of the working directories: file names, run folders, caches and
//! the retention of old runs.

use crate::nodes::{Node, Task};
use crate::schemas::Scope;
use crate::settings::Cfg;
use crate::cache::{answered, delete_old_cache, old_cache_deleted};
use crate::text::{decimal, decimal_string, join_path, path_join};
use vstd::prelude::*;

verus! {

/// Files of the working directories.
#[derive(Clone, Copy, Debug, PartialEq, Eq)]
pub enum FileNames {
    Input,
    Output,
    Meta,
    Checkpoint,
    DAG,
    Kill,
    Script,
}

/// Name of each file.
pub open spec fn file_name(f: FileNames) -> Seq<char> {
    match f {
        FileNames::Input => "input.json"@,
        FileNames::Output => "output.json"@,
        FileNames::Meta => "meta.json"@,
        FileNames::Checkpoint => "checkpoint.json"@,
        FileNames::DAG => "dag.json"@,
        FileNames::Kill => "kill.lock"@,
        FileNames::Script => "script.sh"@,
    }
}

impl FileNames {
    /// The file name.
    pub fn as_str(&self) -> (s: &'static str)
        ensures
            s@ == file_name(*self),
    {
        match self {
            FileNames::Input => "input.json",
            FileNames::Output => "output.json",
            FileNames::Meta => "meta.json",
            FileNames::Checkpoint => "checkpoint.json",
            FileNames::DAG => "dag.json",
            FileNames::Kill => "kill.lock",
            FileNames::Script => "script.sh",
        }
    }
}

/// Cache directory of a task: under the local cache, per pipeline, for a
/// local task; under the global cache otherwise.
pub open spec fn task_cache_path(task: Task, cachedir: Seq<char>, local_cachedir: Seq<char>) -> Seq<
    char,
> {
    match task.scope {
        Scope::Local => path_join(path_join(local_cachedir, task.pipeline_name@), task.name@),
        Scope::Global => path_join(cachedir, task.name@),
    }
}

/// Cache directory of a task.
pub fn get_task_cache_path(task: &Task, cfg: &Cfg) -> (r: String)
    ensures
        r@ == task_cache_path(*task, cfg.cachedir@, cfg.local_cachedir@),
{
    match task.scope {
        Scope::Local => {
            let p = join_path(cfg.local_cachedir.as_str(), task.pipeline_name.as_str());
            join_path(p.as_str(), task.name.as_str())
        },
        Scope::Global => join_path(cfg.cachedir.as_str(), task.name.as_str()),
    }
}

/// Folder of the runs of a pipeline: `<home>/pipelines/<name>`.
pub open spec fn pipeline_runs_dir(home: Seq<char>, name: Seq<char>) -> Seq<char> {
    path_join(path_join(home, "pipelines"@), name)
}

/// Folder of the runs of a pipeline.
pub fn get_pipeline_runs_dir(homedir: &str, pipeline_name: &str) -> (r: String)
    ensures
        r@ == pipeline_runs_dir(homedir@, pipeline_name@),
{
    let p = join_path(homedir, "pipelines");
    join_path(p.as_str(), pipeline_name)
}

/// `r` is what looking for the run `hash` of a pipeline finds: for a hash
/// other than `last`, the folder named by the hash, when `path_exists`
/// says it exists; for `last`, of the run folders that `list_runs` gives
/// with their modification times, the last of the listing among those
/// modified last (none when it fails or gives none).
pub open spec fn pipeline_folder_found<
    E: Fn(String) -> bool,
    L: Fn(String) -> Result<Vec<(String, u64)>, String>,
>(
    home: Seq<char>,
    name: Seq<char>,
    hash: Seq<char>,
    path_exists: E,
    list_runs: L,
    r: Option<String>,
) -> bool {
    &&& hash != "last"@ ==> exists|p: String, e: bool|
        p@ == path_join(pipeline_runs_dir(home, name), hash) && #[trigger] path_exists.ensures(
            (p,),
            e,
        ) && match r {
            Some(s) => e && s@ == p@,
            None => !e,
        }
    &&& hash == "last"@ ==> exists|p: String, l: Result<Vec<(String, u64)>, String>|
        p@ == pipeline_runs_dir(home, name) && #[trigger] list_runs.ensures((p,), l) && match l {
            Ok(v) => if v@.len() > 0 {
                exists|j: int| latest_in_listing(v@, j) && r == Some(v@[j].0)
            } else {
                r is None
            },
            Err(_) => r is None,
        }
}

/// Find the folder of a pipeline run (see `pipeline_folder_found`).
/// `path_exists` tells whether a path exists; `list_runs` lists the run
/// folders of a pipeline with their modification times.
pub fn find_pipeline_folder<
    E: Fn(String) -> bool,
    L: Fn(String) -> Result<Vec<(String, u64)>, String>,
>(homedir: &str, pipeline_name: &str, hash: &str, path_exists: &E, list_runs: &L) -> (r: Option<
    String,
>)
    requires
        forall|p: String| path_exists.requires((p,)),
        forall|p: String| list_runs.requires((p,)),
    ensures
        pipeline_folder_found(homedir@, pipeline_name@, hash@, *path_exists, *list_runs, r),
{
    proof {
        reveal_strlit("last");
    }
    let base = get_pipeline_runs_dir(homedir, pipeline_name);
    if !crate::text::str_eq(hash, "last") {
        let path = join_path(base.as_str(), hash);
        let ghost gp = path;
        let e = path_exists(path.clone());
        assert(path_exists.ensures((gp,), e));
        return if e {
            Some(path)
        } else {
            None
        };
    }
    let ghost gb = base;
    let l = list_runs(base);
    assert(list_runs.ensures((gb,), l));
    match l {
        Ok(v) => last_run(v),
        Err(_) => None,
    }
}

/// Number of old folders to delete before adding one, so that at most
/// `max` folders remain; 0 means no limit.
pub open spec fn folders_to_delete(existing: nat, max: nat) -> nat {
    if max > 0 && existing + 1 > max {
        (existing + 1 - max) as nat
    } else {
        0
    }
}

/// Number of old folders to delete before adding one.
pub fn count_folders_to_delete(existing: usize, max: usize) -> (r: usize)
    ensures
        r == folders_to_delete(existing as nat, max as nat),
        r <= existing,
{
    if max > 0 && existing >= max {
        existing - max + 1
    } else {
        0
    }
}

/// The tasks of a node list, in order.
pub open spec fn tasks_of(nodes: Seq<Node>) -> Seq<Task>
    decreases nodes.len(),
{
    if nodes.len() == 0 {
        Seq::empty()
    } else {
        match nodes.last() {
            Node::Task(t) => tasks_of(nodes.drop_last()).push(t),
            _ => tasks_of(nodes.drop_last()),
        }
    }
}

/// The tasks of a node list, in order.
pub fn filter_tasks(nodes: &[Node]) -> (r: Vec<&Task>)
    ensures
        r@.map_values(|t: &Task| *t) == tasks_of(nodes@),
{
    let mut r: Vec<&Task> = Vec::new();
    let mut i: usize = 0;
    while i < nodes.len()
        invariant
            0 <= i <= nodes@.len(),
            r@.map_values(|t: &Task| *t) == tasks_of(nodes@.take(i as int)),
        decreases nodes@.len() - i,
    {
        assert(nodes@.take(i + 1).drop_last() =~= nodes@.take(i as int));
        assert(nodes@.take(i + 1).last() == nodes@[i as int]);
        if let Node::Task(t) = &nodes[i] {
            r.push(t);
        }
        assert(r@.map_values(|t: &Task| *t) =~= tasks_of(nodes@.take(i + 1)));
        i = i + 1;
    }
    assert(nodes@.take(nodes@.len() as int) =~= nodes@);
    r
}

/// `make_node_dir`, handed the directory of task `t` under `path`, its
/// function name and its name, gave `r`.
pub open spec fn node_dir_made<N: Fn(String, String, String) -> Result<(), String>>(
    make_node_dir: N,
    path: Seq<char>,
    t: Task,
    r: Result<(), String>,
) -> bool {
    exists|a: String, b: String, c: String|
        a@ == path_join(path, decimal(t.uid as nat)) && b@ == t.fn_name@ && c@ == t.name@
            && #[trigger] make_node_dir.ensures((a, b, c), r)
}

/// `make_node_dir` succeeded for task `t`.
pub open spec fn node_dir_ok<N: Fn(String, String, String) -> Result<(), String>>(
    make_node_dir: N,
    path: Seq<char>,
    t: Task,
) -> bool {
    exists|x: Result<(), String>| x is Ok && #[trigger] node_dir_made(make_node_dir, path, t, x)
}

/// What making the task directories gives: each task in order gets its
/// directory and metadata; the first error stops it.
pub open spec fn node_dirs_made<N: Fn(String, String, String) -> Result<(), String>>(
    path: Seq<char>,
    tasks: Seq<&Task>,
    make_node_dir: N,
    r: Result<(), String>,
) -> bool {
    match r {
        Ok(_) => forall|i: int| 0 <= i < tasks.len() ==> #[trigger] node_dir_ok(make_node_dir, path, *tasks[i]),
        Err(e) => exists|k: int|
            0 <= k < tasks.len() && (forall|i: int|
                0 <= i < k ==> #[trigger] node_dir_ok(make_node_dir, path, *tasks[i])) && #[trigger] node_dir_made(
                make_node_dir,
                path,
                *tasks[k],
                Err::<(), String>(e),
            ),
    }
}

/// Make the directory of each task, with its metadata (see
/// `node_dirs_made`).
pub fn create_node_dirs<N: Fn(String, String, String) -> Result<(), String>>(
    path: &str,
    tasks: &[&Task],
    make_node_dir: &N,
) -> (r: Result<(), String>)
    requires
        forall|a: String, b: String, c: String| make_node_dir.requires((a, b, c)),
    ensures
        node_dirs_made(path@, tasks@, *make_node_dir, r),
{
    let mut i: usize = 0;
    while i < tasks.len()
        invariant
            i <= tasks@.len(),
            forall|a: String, b: String, c: String| make_node_dir.requires((a, b, c)),
            forall|j: int| 0 <= j < i ==> #[trigger] node_dir_ok(*make_node_dir, path@, *tasks@[j]),
        decreases tasks@.len() - i,
    {
        let t = tasks[i];
        let dir = join_path(path, decimal_string(t.uid as u64).as_str());
        let f = t.fn_name.clone();
        let n = t.name.clone();
        let ghost (ga, gb, gc) = (dir, f, n);
        let x = make_node_dir(dir, f, n);
        let ghost gx = x;
        assert(make_node_dir.ensures((ga, gb, gc), x));
        assert(node_dir_made(*make_node_dir, path@, *tasks@[i as int], x));
        if let Err(e) = x {
            return Err(e);
        }
        assert(node_dir_ok(*make_node_dir, path@, *tasks@[i as int]));
        i = i + 1;
    }
    Ok(())
}

/// The part of making a run directory after old ones are dropped: the
/// directory is created by `create_all`, then its task directories (see
/// `node_dirs_made`).
pub open spec fn dagdir_filled<
    C: Fn(String) -> Result<(), String>,
    N: Fn(String, String, String) -> Result<(), String>,
>(path: Seq<char>, tasks: Seq<&Task>, create_all: C, make_node_dir: N, r: Result<(), String>) -> bool {
    exists|c: Result<(), String>|
        #[trigger] answered(create_all, path, c) && match c {
            Err(e) => r == Err::<(), String>(e),
            Ok(_) => node_dirs_made(path, tasks, make_node_dir, r),
        }
}

/// What making the run directory `path` gives: an existing one is removed
/// first; in the folder of runs `parent`, if it exists, the oldest runs
/// are removed so that at most `max_dagdirs` remain with the new one (see
/// `old_cache_deleted`); then it is made and filled (see
/// `dagdir_filled`). The first error is returned.
pub open spec fn dagdir_created<
    E: Fn(String) -> bool,
    X: Fn(String) -> Result<(), String>,
    S: Fn(String) -> Result<Vec<String>, String>,
    C: Fn(String) -> Result<(), String>,
    N: Fn(String, String, String) -> Result<(), String>,
>(
    path: Seq<char>,
    parent: Option<Seq<char>>,
    max_dagdirs: usize,
    tasks: Seq<&Task>,
    exists_fn: E,
    remove: X,
    subfolders: S,
    create_all: C,
    make_node_dir: N,
    r: Result<(), String>,
) -> bool {
    exists|e: bool, x: Result<(), String>, d: Result<(), String>|
        #[trigger] dagdir_steps(path, parent, max_dagdirs, exists_fn, remove, subfolders, e, x, d)
            && if x is Err {
            r == x
        } else if d is Err {
            r == d
        } else {
            dagdir_filled(path, tasks, create_all, make_node_dir, r)
        }
}

/// The run directory was cleared (see `dir_cleared`, giving `x`), then, if
/// that succeeded and there is a folder of runs, old runs were dropped
/// from it (see `old_cache_deleted`, giving `d`, which is `Ok` otherwise).
pub open spec fn dagdir_steps<
    E: Fn(String) -> bool,
    X: Fn(String) -> Result<(), String>,
    S: Fn(String) -> Result<Vec<String>, String>,
>(
    path: Seq<char>,
    parent: Option<Seq<char>>,
    max_dagdirs: usize,
    exists_fn: E,
    remove: X,
    subfolders: S,
    e: bool,
    x: Result<(), String>,
    d: Result<(), String>,
) -> bool {
    &&& dir_cleared(path, exists_fn, remove, e, x)
    &&& x is Ok ==> match parent {
        None => d is Ok,
        Some(p) => old_cache_deleted(p, max_dagdirs, exists_fn, subfolders, remove, d),
    }
    &&& x is Err ==> d is Ok
}

/// `exists_fn` said whether `path` exists (`e`); if so `remove` removed
/// it, giving `x`, which is `Ok` otherwise.
pub open spec fn dir_cleared<E: Fn(String) -> bool, X: Fn(String) -> Result<(), String>>(
    path: Seq<char>,
    exists_fn: E,
    remove: X,
    e: bool,
    x: Result<(), String>,
) -> bool {
    &&& answered(exists_fn, path, e)
    &&& e ==> answered(remove, path, x)
    &&& !e ==> x is Ok
}

/// Make the run directory of a pipeline (see `dagdir_created`).
pub fn create_dagdir<
    E: Fn(String) -> bool,
    X: Fn(String) -> Result<(), String>,
    S: Fn(String) -> Result<Vec<String>, String>,
    C: Fn(String) -> Result<(), String>,
    N: Fn(String, String, String) -> Result<(), String>,
>(
    path: &String,
    parent: Option<&String>,
    max_dagdirs: usize,
    tasks: &[&Task],
    exists_fn: &E,
    remove: &X,
    subfolders: &S,
    create_all: &C,
    make_node_dir: &N,
) -> (r: Result<(), String>)
    requires
        forall|p: String| exists_fn.requires((p,)),
        forall|p: String| remove.requires((p,)),
        forall|p: String| subfolders.requires((p,)),
        forall|p: String| create_all.requires((p,)),
        forall|a: String, b: String, c: String| make_node_dir.requires((a, b, c)),
    ensures
        dagdir_created(
            path@,
            match parent {
                Some(p) => Some(p@),
                None => None,
            },
            max_dagdirs,
            tasks@,
            *exists_fn,
            *remove,
            *subfolders,
            *create_all,
            *make_node_dir,
            r,
        ),
{
    let ghost gparent = match parent {
        Some(p) => Some(p@),
        None => None,
    };
    let p0 = path.clone();
    let ghost g0 = p0;
    let e = exists_fn(p0);
    assert(exists_fn.ensures((g0,), e));
    assert(answered(*exists_fn, path@, e));
    let ghost mut gx: Result<(), String> = Ok(());
    if e {
        let p1 = path.clone();
        let ghost g1 = p1;
        let x = remove(p1);
        proof {
            gx = x;
        }
        assert(remove.ensures((g1,), x));
        assert(answered(*remove, path@, x));
        if let Err(err) = x {
            assert(dagdir_steps(path@, gparent, max_dagdirs, *exists_fn, *remove, *subfolders, e, gx, Ok(())));
            return Err(err);
        }
    }
    assert(dir_cleared(path@, *exists_fn, *remove, e, gx));
    let ghost mut gd: Result<(), String> = Ok(());
    if let Some(p) = parent {
        let d = delete_old_cache(p, max_dagdirs, exists_fn, subfolders, remove);
        proof {
            gd = d;
        }
        if let Err(err) = d {
            let r = Err(err);
            assert(dagdir_steps(path@, gparent, max_dagdirs, *exists_fn, *remove, *subfolders, e, gx, gd));
            return r;
        }
    }
    let p2 = path.clone();
    let ghost g2 = p2;
    let c = create_all(p2);
    assert(create_all.ensures((g2,), c));
    assert(answered(*create_all, path@, c));
    assert(dagdir_steps(path@, gparent, max_dagdirs, *exists_fn, *remove, *subfolders, e, gx, gd));
    if let Err(err) = c {
        let r = Err(err);
        assert(dagdir_filled(path@, tasks@, *create_all, *make_node_dir, r));
        assert(dagdir_created(
            path@,
            gparent,
            max_dagdirs,
            tasks@,
            *exists_fn,
            *remove,
            *subfolders,
            *create_all,
            *make_node_dir,
            r,
        ));
        return r;
    }
    let r = create_node_dirs(path.as_str(), tasks, make_node_dir);
    assert(dagdir_filled(path@, tasks@, *create_all, *make_node_dir, r));
    r
}

/// Folders listed by modification time (a count since a fixed epoch),
/// oldest first.
pub open spec fn oldest_first(s: Seq<(String, u64)>) -> bool {
    forall|i: int, j: int| 0 <= i < j < s.len() ==> (#[trigger] s[i]).1 <= (#[trigger] s[j]).1
}

/// `idx` tells where each entry of `r` stands in `folders` and `inv` where
/// each entry of `folders` went in `r`: every entry of `r` is the one of
/// `folders` at its place, the two maps undo each other, and entries with
/// the same time keep the order they had in `folders`.
pub open spec fn stable_placement(
    folders: Seq<(String, u64)>,
    r: Seq<(String, u64)>,
    idx: Seq<int>,
    inv: Seq<int>,
) -> bool {
    &&& idx.len() == r.len() && r.len() == folders.len() && inv.len() == folders.len()
    &&& forall|k: int| 0 <= k < r.len() ==> 0 <= #[trigger] idx[k] < folders.len() && r[k] == folders[idx[k]]
    &&& forall|j: int| 0 <= j < folders.len() ==> 0 <= #[trigger] inv[j] < r.len() && idx[inv[j]] == j
    &&& forall|k: int, l: int|
        0 <= k < l < r.len() && (#[trigger] r[k]).1 == (#[trigger] r[l]).1 ==> idx[k] < idx[l]
}

/// Order folders by modification time, oldest first, keeping the order of
/// folders modified at the same time (a stable sort): the run folders and
/// cache folders are pruned, and the last run found, in this order.
pub fn order_by_time(folders: Vec<(String, u64)>) -> (r: Vec<(String, u64)>)
    ensures
        r@.to_multiset() == folders@.to_multiset(),
        oldest_first(r@),
        exists|idx: Seq<int>, inv: Seq<int>| stable_placement(folders@, r@, idx, inv),
{
    let mut out: Vec<(String, u64)> = Vec::new();
    let mut i: usize = 0;
    let ghost mut idx: Seq<int> = Seq::empty();
    let ghost mut inv: Seq<int> = Seq::empty();
    assert(folders@.take(0) =~= Seq::<(String, u64)>::empty());
    while i < folders.len()
        invariant
            i <= folders@.len(),
            out@.to_multiset() == folders@.take(i as int).to_multiset(),
            oldest_first(out@),
            idx.len() == out@.len() && out@.len() == i && inv.len() == i,
            forall|k: int| 0 <= k < out@.len() ==> 0 <= #[trigger] idx[k] < i && out@[k] == folders@[idx[k]],
            forall|j: int| 0 <= j < i ==> 0 <= #[trigger] inv[j] < i && idx[inv[j]] == j,
            forall|k: int, l: int|
                0 <= k < l < out@.len() && (#[trigger] out@[k]).1 == (#[trigger] out@[l]).1 ==> idx[k] < idx[l],
        decreases folders@.len() - i,
    {
        let x = (folders[i].0.clone(), folders[i].1);
        assert(x == folders@[i as int]);
        let ghost old_out = out@;
        let mut pos: usize = 0;
        while pos < out.len() && out[pos].1 <= x.1
            invariant
                pos <= out@.len(),
                old_out == out@,
                forall|k: int| 0 <= k < pos ==> (#[trigger] old_out[k]).1 <= x.1,
            decreases out@.len() - pos,
        {
            pos = pos + 1;
        }
        out.insert(pos, x);
        proof {
            let new_out = out@;
            let old_idx = idx;
            let old_inv = inv;
            assert(new_out =~= old_out.insert(pos as int, x));
            assert(pos < old_out.len() ==> old_out[pos as int].1 > x.1);
            assert forall|a: int, b: int| 0 <= a < b < new_out.len() implies (#[trigger] new_out[a]).1
                <= (#[trigger] new_out[b]).1 by {
                if a < pos && b < pos {
                    assert(old_out[a].1 <= old_out[b].1);
                } else if a < pos && b == pos {
                } else if a < pos && b > pos {
                    assert(old_out[a].1 <= old_out[b - 1].1);
                } else if a == pos {
                    if pos < old_out.len() {
                        assert(old_out[pos as int].1 <= old_out[b - 1].1);
                    }
                } else {
                    assert(old_out[a - 1].1 <= old_out[b - 1].1);
                }
            }
            idx = old_idx.insert(pos as int, i as int);
            inv = old_inv.map_values(|p: int| if p >= pos { p + 1 } else { p }).push(pos as int);
            assert forall|k: int| 0 <= k < new_out.len() implies 0 <= #[trigger] idx[k] < i + 1
                && new_out[k] == folders@[idx[k]] by {
                if k < pos {
                    assert(idx[k] == old_idx[k]);
                } else if k > pos {
                    assert(idx[k] == old_idx[k - 1]);
                }
            }
            assert forall|j: int| 0 <= j < i + 1 implies 0 <= #[trigger] inv[j] < i + 1 && idx[inv[j]] == j by {
                if j < i {
                    assert(inv[j] == if old_inv[j] >= pos { old_inv[j] + 1 } else { old_inv[j] });
                    assert(old_idx[old_inv[j]] == j);
                }
            }
            assert forall|k: int, l: int|
                0 <= k < l < new_out.len() && (#[trigger] new_out[k]).1 == (#[trigger] new_out[l]).1 implies idx[k]
                < idx[l] by {
                if k == pos {
                    assert(old_out[pos as int].1 <= old_out[l - 1].1);
                } else if l == pos {
                    assert(idx[k] == old_idx[k]);
                } else if k < pos && l < pos {
                    assert(idx[k] == old_idx[k] && idx[l] == old_idx[l]);
                } else if k < pos {
                    assert(idx[k] == old_idx[k] && idx[l] == old_idx[l - 1]);
                    assert(old_out[k].1 == old_out[l - 1].1);
                } else {
                    assert(idx[k] == old_idx[k - 1] && idx[l] == old_idx[l - 1]);
                    assert(old_out[k - 1].1 == old_out[l - 1].1);
                }
            }
            assert(folders@.take(i + 1) =~= folders@.take(i as int).push(x));
            vstd::seq_lib::to_multiset_insert(old_out, pos as int, x);
            vstd::seq_lib::to_multiset_build(folders@.take(i as int), x);
        }
        i = i + 1;
    }
    assert(folders@.take(folders@.len() as int) =~= folders@);
    assert(stable_placement(folders@, out@, idx, inv));
    out
}

/// Entry `j` is the last folder of the listing among those modified last.
pub open spec fn latest_in_listing(folders: Seq<(String, u64)>, j: int) -> bool {
    &&& 0 <= j < folders.len()
    &&& forall|k: int| 0 <= k < folders.len() ==> (#[trigger] folders[k]).1 <= folders[j].1
    &&& forall|k: int| j < k < folders.len() ==> (#[trigger] folders[k]).1 < folders[j].1
}

/// The last entry of a stable ordering by time is the last of the listing
/// among those modified last.
proof fn lemma_last_is_latest(
    listing: Seq<(String, u64)>,
    sorted: Seq<(String, u64)>,
    idx: Seq<int>,
    inv: Seq<int>,
)
    requires
        stable_placement(listing, sorted, idx, inv),
        oldest_first(sorted),
        sorted.len() > 0,
    ensures
        latest_in_listing(listing, idx[sorted.len() - 1]),
        sorted[sorted.len() - 1] == listing[idx[sorted.len() - 1]],
{
    let n = sorted.len() as int;
    let j = idx[n - 1];
    assert(0 <= idx[n - 1] < listing.len() && sorted[n - 1] == listing[idx[n - 1]]);
    assert forall|k: int| 0 <= k < listing.len() implies (#[trigger] listing[k]).1 <= listing[j].1 by {
        let m = inv[k];
        assert(0 <= idx[m] < listing.len() && sorted[m] == listing[idx[m]]);
        if m < n - 1 {
            assert(sorted[m].1 <= sorted[n - 1].1);
        }
    }
    assert forall|k: int| j < k < listing.len() implies (#[trigger] listing[k]).1 < listing[j].1 by {
        let m = inv[k];
        assert(0 <= idx[m] < listing.len() && sorted[m] == listing[idx[m]]);
        if m < n - 1 {
            assert(sorted[m].1 <= sorted[n - 1].1);
            if sorted[m].1 == sorted[n - 1].1 {
                assert(idx[m] < idx[n - 1]);
            }
        }
    }
}

/// The last run folder: the last one once ordered by time (see
/// `order_by_time`), that is the last of the listing among those modified
/// last; none for an empty listing.
pub fn last_run(folders: Vec<(String, u64)>) -> (r: Option<String>)
    ensures
        folders@.len() == 0 ==> r is None,
        folders@.len() > 0 ==> exists|j: int| latest_in_listing(folders@, j) && r == Some(folders@[j].0),
{
    let ghost listing = folders@;
    let mut ordered = order_by_time(folders);
    let ghost sorted = ordered@;
    match ordered.pop() {
        None => None,
        Some(x) => {
            proof {
                let (idx, inv) = choose|idx: Seq<int>, inv: Seq<int>| stable_placement(listing, sorted, idx, inv);
                lemma_last_is_latest(listing, sorted, idx, inv);
                assert(x == sorted[sorted.len() - 1]);
            }
            Some(x.0)
        },
    }
}

} // verus!
