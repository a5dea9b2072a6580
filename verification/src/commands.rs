//! The commands of the scheduler, as far as they decide: setting up a run
//! or a restarted run, choosing the cache folder to prune, and when the
//! scheduling loop stops. Files, processes and the loop itself are driven
//! by the caller.

use crate::context::{checkpoint_fits, is_fresh, max_uid, min_uid, restored_from, uids_span_nodes, Ctx};
use crate::dag_setup::{add_children, children_linked, parents_within};
use crate::nodes::{node_parents, node_uid, same_but_children, Node};
use crate::schemas::DAGMeta;
use crate::settings::{cfg_for, Cfg};
use crate::status::{
    all_final_spec, any_node_failed, is_simulation_completed, reset_failed_or_skipped_status,
    reset_spec, Status,
};
use crate::text::{join_path, path_join, str_eq};
use vstd::prelude::*;

verus! {

broadcast use vstd::seq_lib::to_multiset_insert;

/// Uids never decrease along the list.
pub open spec fn uids_sorted(nodes: Seq<Node>) -> bool {
    forall|i: int, j: int|
        0 <= i < j < nodes.len() ==> node_uid(#[trigger] nodes[i]) <= node_uid(#[trigger] nodes[j])
}

/// Sort nodes by uid, keeping the order of equal uids.
pub fn sort_nodes_by_uid(nodes: Vec<Node>) -> (r: Vec<Node>)
    ensures
        r@.to_multiset() == nodes@.to_multiset(),
        uids_sorted(r@),
{
    let mut input = nodes;
    let ghost all = input@;
    let mut out: Vec<Node> = Vec::new();
    let mut rest: Vec<Node> = Vec::new();
    // Take the nodes from the front: reverse into `rest` and pop.
    while input.len() > 0
        invariant
            rest@ + input@.reverse() == all.reverse(),
        decreases input@.len(),
    {
        let ghost before = input@;
        let n = input.pop().unwrap();
        assert(before == input@.push(n));
        assert(before.reverse() =~= seq![n] + input@.reverse());
        rest.push(n);
        assert(rest@ + input@.reverse() =~= all.reverse());
    }
    assert(input@.reverse() =~= Seq::<Node>::empty());
    assert(rest@ =~= all.reverse());
    let ghost n = rest@.len();
    proof {
        assert(all.reverse().reverse() =~= all);
    }
    assert(out@ =~= all.take(0));
    while rest.len() > 0
        invariant
            n == all.len(),
            rest@.len() <= n,
            rest@ == all.reverse().take(rest@.len() as int),
            out@.to_multiset() == all.take(n - rest@.len()).to_multiset(),
            uids_sorted(out@),
        decreases rest@.len(),
    {
        let ghost len = rest@.len();
        let node = rest.pop().unwrap();
        assert(node == all[n - len]) by {
            assert(all.reverse()[len - 1] == all[n - 1 - (len - 1)]);
        }
        assert(rest@ =~= all.reverse().take(len - 1));
        let uid = node.get_uid();
        let ghost old_out = out@;
        let mut pos: usize = 0;
        while pos < out.len() && out[pos].get_uid() <= uid
            invariant
                pos <= out@.len(),
                old_out == out@,
                uid == node_uid(node),
                forall|k: int| 0 <= k < pos ==> node_uid(#[trigger] old_out[k]) <= uid,
            decreases out@.len() - pos,
        {
            pos = pos + 1;
        }
        out.insert(pos, node);
        proof {
            let new_out = out@;
            assert(new_out =~= old_out.insert(pos as int, node));
            assert forall|a: int, b: int| 0 <= a < b < new_out.len() implies node_uid(
                #[trigger] new_out[a],
            ) <= node_uid(#[trigger] new_out[b]) by {
                if a < pos && b < pos {
                    assert(node_uid(old_out[a]) <= node_uid(old_out[b]));
                } else if a < pos && b == pos {
                } else if a < pos && b > pos {
                    assert(node_uid(old_out[a]) <= node_uid(old_out[b - 1]));
                } else if a == pos {
                    if pos < old_out.len() {
                        assert(node_uid(old_out[pos as int]) <= node_uid(old_out[b - 1]));
                    }
                } else {
                    assert(node_uid(old_out[a - 1]) <= node_uid(old_out[b - 1]));
                }
            }
            assert(all.take(n - len + 1) =~= all.take(n - len).push(node));
            vstd::seq_lib::to_multiset_build(all.take(n - len), node);
        }
    }
    assert(all.take(n as int) =~= all);
    out
}

/// Set up a run: the nodes sorted by uid and linked to their children, the
/// configuration of the run under `homedir`, and a fresh context; the error
/// of `Ctx::new` when the uids do not run from 0 to the number of nodes
/// minus one.
pub fn run(
    nodes: Vec<Node>,
    meta: &DAGMeta,
    homedir: &str,
    log_level: &str,
    max_concurrency: usize,
    time_between_polls: u64,
    slurm_grace_period: usize,
    max_concurrent_runs: usize,
    fail_fast: bool,
) -> (r: Result<(Vec<Node>, Cfg, Ctx), String>)
    requires
        parents_within(nodes@),
    ensures
        exists|s: Seq<Node>|
            #[trigger] s.to_multiset() == nodes@.to_multiset() && uids_sorted(s) && match r {
                Ok(v) => {
                    &&& children_linked(s, v.0@)
                    &&& cfg_for(
                        v.1,
                        homedir@,
                        *meta,
                        log_level@,
                        max_concurrency,
                        time_between_polls,
                        slurm_grace_period,
                        max_concurrent_runs,
                        fail_fast,
                    )
                    &&& uids_span_nodes(v.0@)
                    &&& is_fresh(v.2, nodes@.len())
                },
                Err(_) => !uids_span_nodes(s),
            },
{
    let mut sorted = sort_nodes_by_uid(nodes);
    let ghost s = sorted@;
    proof {
        vstd::seq_lib::to_multiset_len(s);
        vstd::seq_lib::to_multiset_len(nodes@);
    }
    let cfg = Cfg::new(
        homedir,
        meta,
        log_level,
        max_concurrency,
        time_between_polls,
        slurm_grace_period,
        max_concurrent_runs,
        fail_fast,
    );
    proof {
        lemma_parents_within_perm(nodes@, s);
    }
    add_children(sorted.as_mut_slice());
    proof {
        lemma_same_uids(s, sorted@);
    }
    match Ctx::new(sorted.as_slice()) {
        Ok(ctx) => Ok((sorted, cfg, ctx)),
        Err(e) => Err(e),
    }
}

/// Reordering nodes keeps their parents within the list.
proof fn lemma_parents_within_perm(a: Seq<Node>, b: Seq<Node>)
    requires
        parents_within(a),
        a.to_multiset() == b.to_multiset(),
    ensures
        parents_within(b),
{
    vstd::seq_lib::to_multiset_len(a);
    vstd::seq_lib::to_multiset_len(b);
    assert forall|j: int, k: int|
        0 <= j < b.len() && 0 <= k < node_parents(b[j]).len() implies (#[trigger] node_parents(
        b[j],
    )[k]).uid < b.len() by {
        assert(b.contains(b[j]));
        vstd::seq_lib::to_multiset_contains(b, b[j]);
        vstd::seq_lib::to_multiset_contains(a, b[j]);
        let i = choose|i: int| 0 <= i < a.len() && a[i] == b[j];
        assert(node_parents(a[i])[k].uid < a.len());
    }
}

/// Linking children keeps the uids.
proof fn lemma_same_uids(s: Seq<Node>, t: Seq<Node>)
    requires
        children_linked(s, t),
    ensures
        forall|i: int| 0 <= i < s.len() ==> node_uid(#[trigger] t[i]) == node_uid(s[i]),
        uids_span_nodes(t) == uids_span_nodes(s),
{
    assert forall|i: int| 0 <= i < s.len() implies node_uid(#[trigger] t[i]) == node_uid(s[i]) by {
        assert(same_but_children(s[i], t[i]));
    }
    if s.len() > 0 {
        lemma_min_max_same(s, t);
    }
}

/// Lists with the same uids at each place have the same least and greatest
/// uid.
proof fn lemma_min_max_same(s: Seq<Node>, t: Seq<Node>)
    requires
        s.len() == t.len(),
        s.len() > 0,
        forall|i: int| 0 <= i < s.len() ==> node_uid(#[trigger] t[i]) == node_uid(s[i]),
    ensures
        min_uid(t) == min_uid(s),
        max_uid(t) == max_uid(s),
    decreases s.len(),
{
    assert(node_uid(t[0]) == node_uid(s[0]));
    if s.len() > 1 {
        assert forall|i: int| 0 <= i < s.len() - 1 implies node_uid(#[trigger] t.drop_last()[i])
            == node_uid(s.drop_last()[i]) by {
            assert(node_uid(t[i]) == node_uid(s[i]));
        }
        assert(node_uid(t.last()) == node_uid(s.last()));
        lemma_min_max_same(s.drop_last(), t.drop_last());
    }
}

/// `r` is the context rebuilt from the checkpointed statuses and try
/// counts after the failed and skipped nodes were given a new chance.
pub open spec fn restored_with_reset(statuses: Seq<Status>, try_nums: Seq<usize>, r: Ctx) -> bool {
    exists|s: Seq<Status>, t: Seq<usize>|
        #[trigger] restored_from(s, t, r) && s.len() == statuses.len() && t.len() == try_nums.len()
            && forall|k: int| 0 <= k < s.len() ==> (#[trigger] s[k], t[k]) == reset_spec(statuses, try_nums, k)
}

/// Set up a restarted run from its checkpoint: with `retry`, failed and
/// skipped nodes get a new chance (see `reset_spec`); the context is
/// rebuilt from the statuses and try counts (see `restored_from`); the
/// configuration is the checkpointed one with the new concurrency, poll
/// interval, log level and fail-fast setting.
pub fn restart_run(
    nodes: &[Node],
    statuses: Vec<Status>,
    try_nums: Vec<usize>,
    cfg: Cfg,
    retry: bool,
    max_concurrency: usize,
    time_between_polls: u64,
    log_level: &str,
    fail_fast: bool,
) -> (r: (Ctx, Cfg))
    requires
        statuses@.len() == try_nums@.len(),
        checkpoint_fits(nodes@, statuses@, try_nums@),
    ensures
        !retry ==> restored_from(statuses@, try_nums@, r.0),
        retry ==> restored_with_reset(statuses@, try_nums@, r.0),
        r.1 == (Cfg {
            max_concurrency,
            sleep_time: time_between_polls,
            log_level: r.1.log_level,
            fail_fast,
            ..cfg
        }),
        r.1.log_level@ == log_level@,
{
    let ghost (old_s, old_t) = (statuses@, try_nums@);
    let mut st = statuses;
    let mut tn = try_nums;
    if retry {
        reset_failed_or_skipped_status(&mut st, &mut tn);
    }
    let ghost (s, t) = (st@, tn@);
    let ctx = Ctx::from_checkpoint(nodes, st, tn);
    assert(restored_from(s, t, ctx));
    assert(retry ==> forall|k: int|
        0 <= k < s.len() ==> (#[trigger] s[k], t[k]) == reset_spec(old_s, old_t, k));
    assert(s.len() == old_s.len() && t.len() == old_t.len());
    assert(retry ==> restored_with_reset(old_s, old_t, ctx));
    let mut cfg = cfg;
    cfg.max_concurrency = max_concurrency;
    cfg.sleep_time = time_between_polls;
    cfg.log_level = String::from_str(log_level);
    cfg.fail_fast = fail_fast;
    (ctx, cfg)
}

/// Local cache folder of a task: `<home>/.cache/local/<pipeline>/<task>`.
pub open spec fn local_cache_folder(home: Seq<char>, pipeline: Seq<char>, task: Seq<char>) -> Seq<char> {
    path_join(path_join(path_join(path_join(home, ".cache"@), "local"@), pipeline), task)
}

/// Global cache folder of a task: `<home>/.cache/global/<task>`.
pub open spec fn global_cache_folder(home: Seq<char>, task: Seq<char>) -> Seq<char> {
    path_join(path_join(path_join(home, ".cache"@), "global"@), task)
}

/// `is_dir` said `d` of the path `p`.
pub open spec fn dir_seen<D: Fn(String) -> bool>(p: Seq<char>, is_dir: D, d: bool) -> bool {
    exists|s: String| s@ == p && #[trigger] is_dir.ensures((s,), d)
}

/// The local cache folder of a task to delete: the folder if it is one,
/// nothing otherwise.
pub fn clear_local_cache<D: Fn(String) -> bool>(
    task_name: &str,
    pipeline_name: &str,
    homedir: &str,
    is_dir: &D,
) -> (r: Option<String>)
    requires
        forall|p: String| is_dir.requires((p,)),
    ensures
        exists|d: bool|
            #[trigger] dir_seen(local_cache_folder(homedir@, pipeline_name@, task_name@), *is_dir, d)
                && match r {
                Some(p) => d && p@ == local_cache_folder(homedir@, pipeline_name@, task_name@),
                None => !d,
            },
{
    let a = join_path(homedir, ".cache");
    let b = join_path(a.as_str(), "local");
    let c = join_path(b.as_str(), pipeline_name);
    let path = join_path(c.as_str(), task_name);
    let ghost gp = path;
    assert(gp@ == local_cache_folder(homedir@, pipeline_name@, task_name@));
    let d = is_dir(path.clone());
    assert(is_dir.ensures((gp,), d));
    assert(dir_seen(gp@, *is_dir, d));
    if d {
        Some(path)
    } else {
        None
    }
}

/// The global cache folder of a task to delete: the folder if it is one;
/// otherwise, for the task name `all` with a full prune allowed, the whole
/// cache folder if it is one; nothing otherwise.
pub fn clear_global_cache<D: Fn(String) -> bool>(
    task_name: &str,
    allow_full_prune: bool,
    homedir: &str,
    is_dir: &D,
) -> (r: Option<String>)
    requires
        forall|p: String| is_dir.requires((p,)),
    ensures
        exists|d: bool|
            #[trigger] dir_seen(global_cache_folder(homedir@, task_name@), *is_dir, d) && if d {
                r matches Some(p) && p@ == global_cache_folder(homedir@, task_name@)
            } else if task_name@ == "all"@ && allow_full_prune {
                exists|e: bool|
                    #[trigger] dir_seen(path_join(homedir@, ".cache"@), *is_dir, e) && match r {
                        Some(p) => e && p@ == path_join(homedir@, ".cache"@),
                        None => !e,
                    }
            } else {
                r is None
            },
{
    let cache_dir = join_path(homedir, ".cache");
    let g = join_path(cache_dir.as_str(), "global");
    let path = join_path(g.as_str(), task_name);
    let ghost gp = path;
    assert(gp@ == global_cache_folder(homedir@, task_name@));
    let d = is_dir(path.clone());
    assert(is_dir.ensures((gp,), d));
    assert(dir_seen(gp@, *is_dir, d));
    if !d {
        if str_eq(task_name, "all") && allow_full_prune {
            let ghost gc = cache_dir;
            assert(gc@ == path_join(homedir@, ".cache"@));
            let e = is_dir(cache_dir.clone());
            assert(is_dir.ensures((gc,), e));
            assert(dir_seen(gc@, *is_dir, e));
            if e {
                return Some(cache_dir);
            }
        }
        return None;
    }
    Some(path)
}

/// The cache folder to delete for a task: its local cache in a pipeline
/// when one is named, its global cache otherwise (see `clear_local_cache`
/// and `clear_global_cache`).
pub fn prune_cache<D: Fn(String) -> bool>(
    task_name: &str,
    pipeline_name: Option<&str>,
    allow_full_prune: bool,
    homedir: &str,
    is_dir: &D,
) -> (r: Option<String>)
    requires
        forall|p: String| is_dir.requires((p,)),
    ensures
        match pipeline_name {
            Some(name) => exists|d: bool|
                #[trigger] dir_seen(local_cache_folder(homedir@, name@, task_name@), *is_dir, d)
                    && match r {
                    Some(p) => d && p@ == local_cache_folder(homedir@, name@, task_name@),
                    None => !d,
                },
            None => exists|d: bool|
                #[trigger] dir_seen(global_cache_folder(homedir@, task_name@), *is_dir, d) && if d {
                    r matches Some(p) && p@ == global_cache_folder(homedir@, task_name@)
                } else if task_name@ == "all"@ && allow_full_prune {
                    exists|e: bool|
                        #[trigger] dir_seen(path_join(homedir@, ".cache"@), *is_dir, e) && match r {
                            Some(p) => e && p@ == path_join(homedir@, ".cache"@),
                            None => !e,
                        }
                } else {
                    r is None
                },
        },
{
    match pipeline_name {
        Some(name) => clear_local_cache(task_name, name, homedir, is_dir),
        None => clear_global_cache(task_name, allow_full_prune, homedir, is_dir),
    }
}

/// What the scheduling loop does after a round.
#[derive(Clone, Copy, Debug, PartialEq, Eq)]
pub enum LoopDecision {
    /// Every node reached a final status.
    Completed,
    /// A node failed and the run fails fast: signal a kill and stop.
    FailFast,
    /// Wait for the next round.
    Continue,
}

/// What the scheduling loop does after a round: stop when every node
/// reached a final status; stop with a kill signal when a node failed and
/// the run fails fast; go on otherwise.
pub fn loop_decision(statuses: &[Status], fail_fast: bool) -> (r: LoopDecision)
    ensures
        r == if all_final_spec(statuses@) {
            LoopDecision::Completed
        } else if fail_fast && exists|k: int| 0 <= k < statuses@.len() && (#[trigger] statuses@[k]) is Failed {
            LoopDecision::FailFast
        } else {
            LoopDecision::Continue
        },
{
    if is_simulation_completed(statuses) {
        LoopDecision::Completed
    } else if fail_fast && any_node_failed(statuses) {
        LoopDecision::FailFast
    } else {
        LoopDecision::Continue
    }
}

/// The banner of the scheduler.
pub open spec fn banner_art() -> Seq<char> {
    "\n  _____ _____          _____\n / ____|  __ \\   /\\   / ____|\n| (___ | |  | | /  \\ | |  __\n \\___ \\| |  | |/ /\\ \\| | |_ |\n ____) | |__| / ____ \\ |__| |\n|_____/|_____/_/    \\_\\_____|"@
}

/// The banner line logged when a run starts: the banner in green, then
/// the version.
pub fn log_banner(version: &str) -> (r: String)
    ensures
        r@ == "\n\x1b[32m"@ + banner_art() + "\x1b[0m v"@ + version@ + "\n"@,
{
    let mut r = String::from_str("\n\x1b[32m");
    r.append("\n  _____ _____          _____\n / ____|  __ \\   /\\   / ____|\n| (___ | |  | | /  \\ | |  __\n \\___ \\| |  | |/ /\\ \\| | |_ |\n ____) | |__| / ____ \\ |__| |\n|_____/|_____/_/    \\_\\_____|");
    r.append("\x1b[0m v");
    r.append(version);
    r.append("\n");
    r
}

} // verus!
