//! Properties of the scheduler that span its functions.

use crate::context::{Ctx, Job};
use crate::dag_setup::{children_linked, is_link};
use crate::kill::{local_killed, slurm_killed};
use crate::nodes::{branch_provided_status, node_children, node_uid, Node, Task};
use crate::polling::{has_uid, missing_fold, missing_step, MissState};
use crate::schemas::ParentKind;
use crate::status::{
    all_completed_spec, all_failed_or_skipped_spec, reset_spec, some_failed_or_skipped_spec,
    Completed, Status,
};
use crate::submission::retried;
use crate::summary::{
    count_kind, is_completed, is_failed, is_not_submitted, is_pending, is_running_status,
    is_skipped,
};
use crate::status::Failed;
use crate::sscheduler::model::Node as MapNode;
use crate::sscheduler::status_management::updated_status;
use crate::sscheduler::updates::{
    lemma_node_by_uid_unique, lemma_propagated_grows, lemma_retry_keeps_nodemap,
    lemma_updated_status_entry, nodemap_wf, propagated, records_not_submitted, retry_spec,
    with_update,
};
use crate::sscheduler::submission::{
    lemma_ready_positions_range, node_submitted, ready_positions, statuses_submitted, submit_round,
    submitted_update, Submitter as MapSubmitter,
};
use crate::sscheduler::backend::running_tasks;
use crate::sscheduler::caching::{cache_round_node, caching_status};
use crate::sscheduler::limiters::{held_back, name_ready_before, name_running, ready_cacheable, task_name};
use crate::sscheduler::model::NodeBehavior as MapBehavior;
use crate::schemas::JsonValue;
use crate::sscheduler::model::TaskOutput as MapOutput;
use crate::sscheduler::model::{JobStatus as MapStatus, Task as MapTask};
use crate::sscheduler::summary::{count_tasks, map_recap_of, MapRecap};
use crate::summary::recap_of;
use crate::sscheduler::backend::backend_status;
use crate::sscheduler::model::{NodeFailure, NodeResult};
use crate::cache::{inputs_match, json_same};
use crate::nonblocking::{opt_arg, opt_num, opt_text, sbatch_args};
use crate::schemas::SlurmOverride;
use crate::text::decimal;
use crate::visitors::task_step;
use crate::settings::Cfg;
use vstd::prelude::*;

verus! {

/// After linking, the children of a node are exactly the nodes that name
/// it as a parent.
pub proof fn law_children_name_their_parent(before: Seq<Node>, after: Seq<Node>, u: int, v: usize)
    requires
        children_linked(before, after),
        0 <= u < before.len(),
    ensures
        node_children(after[u]).contains(v) <==> exists|jj: int, kk: int|
            #[trigger] is_link(before, u as usize, jj, kk) && node_uid(before[jj]) == v,
{
    assert(node_children(after[u]).to_set().contains(v) == node_children(after[u]).contains(v));
}

/// A completed branch shows its own status to the children on the side
/// it took, and `Skipped` to those on the other side.
pub proof fn law_branch_sides(taken: bool, side: bool)
    ensures
        branch_provided_status(
            Status::Completed(Completed::Branch(taken)),
            ParentKind::Branch { branch: side },
        ) == if taken == side {
            Status::Completed(Completed::Branch(taken))
        } else {
            Status::Skipped
        },
{
}

/// Statuses other than a branch completion are shown to every child as
/// they are.
pub proof fn law_branch_shows_others_unchanged(status: Status, kind: ParentKind)
    requires
        !(status matches Status::Completed(Completed::Branch(_))),
    ensures
        branch_provided_status(status, kind) == status,
{
}

/// A failure never fails a task for good while it has tries left: it is
/// queued again, its status unchanged.
pub proof fn law_retry_while_tries_left(task: Task, before: Ctx, after: Ctx, failure: Failed)
    requires
        retried(task, before, after, failure),
        before.try_nums@[task.uid as int] <= task.retries,
    ensures
        after.statuses@ == before.statuses@,
        after.jobs@ == before.jobs@.push(Job::Task(task.uid)),
{
}

/// Past its retries, a failure fails the task for good.
pub proof fn law_fail_when_no_tries_left(task: Task, before: Ctx, after: Ctx, failure: Failed)
    requires
        retried(task, before, after, failure),
        task.uid < before.statuses@.len(),
        before.try_nums@[task.uid as int] > task.retries,
    ensures
        after.statuses@[task.uid as int] == Status::Failed(failure),
        after.updated@ == before.updated@.push(task.uid),
        after.jobs@ == before.jobs@,
{
}

/// Every killed Slurm job leaves its node failed.
pub proof fn law_killed_slurm_jobs_fail(jobs: Seq<(usize, String)>, statuses: Seq<Status>, k: int)
    requires
        0 <= k < jobs.len(),
        forall|j: int| 0 <= j < jobs.len() ==> (#[trigger] jobs[j]).0 < statuses.len(),
    ensures
        slurm_killed(jobs, statuses)[jobs[k].0 as int] is Failed,
        slurm_killed(jobs, statuses).len() == statuses.len(),
    decreases jobs.len(),
{
    let prev = jobs.drop_last();
    assert(forall|j: int| 0 <= j < prev.len() ==> (#[trigger] prev[j]).0 == jobs[j].0);
    lemma_slurm_killed_len(prev, statuses);
    lemma_slurm_killed_len(jobs, statuses);
    if k < jobs.len() - 1 {
        law_killed_slurm_jobs_fail(prev, statuses, k);
        assert(prev[k] == jobs[k]);
    }
}

proof fn lemma_slurm_killed_len(jobs: Seq<(usize, String)>, statuses: Seq<Status>)
    requires
        forall|j: int| 0 <= j < jobs.len() ==> (#[trigger] jobs[j]).0 < statuses.len(),
    ensures
        slurm_killed(jobs, statuses).len() == statuses.len(),
    decreases jobs.len(),
{
    if jobs.len() > 0 {
        let prev = jobs.drop_last();
        assert(forall|j: int| 0 <= j < prev.len() ==> (#[trigger] prev[j]).0 == jobs[j].0);
        lemma_slurm_killed_len(prev, statuses);
    }
}

/// Every killed local process leaves its node failed.
pub proof fn law_killed_local_jobs_fail(jobs: Seq<(usize, u32)>, statuses: Seq<Status>, k: int)
    requires
        0 <= k < jobs.len(),
        forall|j: int| 0 <= j < jobs.len() ==> (#[trigger] jobs[j]).0 < statuses.len(),
    ensures
        local_killed(jobs, statuses)[jobs[k].0 as int] is Failed,
        local_killed(jobs, statuses).len() == statuses.len(),
    decreases jobs.len(),
{
    let prev = jobs.drop_last();
    assert(forall|j: int| 0 <= j < prev.len() ==> (#[trigger] prev[j]).0 == jobs[j].0);
    lemma_local_killed_len(prev, statuses);
    lemma_local_killed_len(jobs, statuses);
    if k < jobs.len() - 1 {
        law_killed_local_jobs_fail(prev, statuses, k);
        assert(prev[k] == jobs[k]);
    }
}

proof fn lemma_local_killed_len(jobs: Seq<(usize, u32)>, statuses: Seq<Status>)
    requires
        forall|j: int| 0 <= j < jobs.len() ==> (#[trigger] jobs[j]).0 < statuses.len(),
    ensures
        local_killed(jobs, statuses).len() == statuses.len(),
    decreases jobs.len(),
{
    if jobs.len() > 0 {
        let prev = jobs.drop_last();
        assert(forall|j: int| 0 <= j < prev.len() ==> (#[trigger] prev[j]).0 == jobs[j].0);
        lemma_local_killed_len(prev, statuses);
    }
}

/// Local processes are killed after the Slurm jobs, and a node failed by
/// the Slurm cancellation stays failed.
pub proof fn law_killed_stay_failed(jobs: Seq<(usize, u32)>, statuses: Seq<Status>, u: int)
    requires
        0 <= u < statuses.len(),
        statuses[u] is Failed,
        forall|j: int| 0 <= j < jobs.len() ==> (#[trigger] jobs[j]).0 < statuses.len(),
    ensures
        local_killed(jobs, statuses)[u] is Failed,
    decreases jobs.len(),
{
    if jobs.len() > 0 {
        let prev = jobs.drop_last();
        assert(forall|j: int| 0 <= j < prev.len() ==> (#[trigger] prev[j]).0 == jobs[j].0);
        law_killed_stay_failed(prev, statuses, u);
        lemma_local_killed_len(prev, statuses);
    }
}

/// A restarted run with retries holds no failed or skipped node.
pub proof fn law_reset_clears_failures(statuses: Seq<Status>, try_nums: Seq<usize>, k: int)
    ensures
        !(reset_spec(statuses, try_nums, k).0 is Failed),
        !(reset_spec(statuses, try_nums, k).0 is Skipped),
{
}

/// The parent rules agree with one another: completed parents leave no
/// failure or skip; when there is at least one parent and each failed or was
/// skipped, some did; only an empty list is both all completed and all
/// failed or skipped; and an empty list holds no failure or skip.
pub proof fn law_parent_rules_agree(s: Seq<Status>)
    ensures
        all_completed_spec(s) ==> !some_failed_or_skipped_spec(s),
        s.len() > 0 && all_failed_or_skipped_spec(s) ==> some_failed_or_skipped_spec(s),
        all_completed_spec(s) && all_failed_or_skipped_spec(s) ==> s.len() == 0,
        s.len() == 0 ==> !some_failed_or_skipped_spec(s),
{
    if s.len() > 0 {
        assert(s[0] is Completed ==> !(s[0] is Failed || s[0] is Skipped));
    }
}

/// The poll results keep the statuses Slurm gave; a job that Slurm
/// answered for is never failed as out of contact.
pub proof fn law_answered_jobs_kept(grace: usize, s: MissState, jobs: Seq<(usize, String)>, k: int)
    requires
        s.1.len() <= k < missing_fold(grace, s, jobs).1.len(),
    ensures
        missing_fold(grace, s, jobs).1.take(s.1.len() as int) == s.1,
        !has_uid(s.1, missing_fold(grace, s, jobs).1[k].0),
        missing_fold(grace, s, jobs).1[k].1 is Failed,
    decreases jobs.len(),
{
    lemma_fold_prefix(grace, s, jobs);
    if jobs.len() > 0 {
        let prev = missing_fold(grace, s, jobs.drop_last());
        lemma_fold_prefix(grace, s, jobs.drop_last());
        let job = jobs.last();
        let next = missing_step(grace, prev, job);
        if k < prev.1.len() {
            law_answered_jobs_kept(grace, s, jobs.drop_last(), k);
            assert(next.1[k] == prev.1[k]);
        } else {
            assert(!has_uid(prev.1, job.0));
            assert(next.1[k].0 == job.0);
            if has_uid(s.1, job.0) {
                let i = choose|i: int| 0 <= i < s.1.len() && (#[trigger] s.1[i]).0 == job.0;
                assert(prev.1.take(s.1.len() as int)[i] == prev.1[i]);
                assert(prev.1[i].0 == job.0);
            }
        }
    }
}

proof fn lemma_fold_prefix(grace: usize, s: MissState, jobs: Seq<(usize, String)>)
    ensures
        missing_fold(grace, s, jobs).1.len() >= s.1.len(),
        missing_fold(grace, s, jobs).1.take(s.1.len() as int) == s.1,
    decreases jobs.len(),
{
    if jobs.len() == 0 {
        assert(s.1.take(s.1.len() as int) =~= s.1);
    } else {
        lemma_fold_prefix(grace, s, jobs.drop_last());
        let prev = missing_fold(grace, s, jobs.drop_last());
        let next = missing_step(grace, prev, jobs.last());
        assert(next.1.take(s.1.len() as int) =~= prev.1.take(s.1.len() as int));
    }
}

proof fn lemma_recap_push(s: Seq<Status>, x: Status)
    ensures
        count_kind(s.push(x), |y: Status| is_completed(y)) + count_kind(s.push(x), |y: Status| is_skipped(y))
            + count_kind(s.push(x), |y: Status| is_failed(y)) + count_kind(s.push(x), |y: Status| is_pending(y))
            + count_kind(s.push(x), |y: Status| is_running_status(y)) + count_kind(
            s.push(x),
            |y: Status| is_not_submitted(y),
        ) == count_kind(s, |y: Status| is_completed(y)) + count_kind(s, |y: Status| is_skipped(y))
            + count_kind(s, |y: Status| is_failed(y)) + count_kind(s, |y: Status| is_pending(y))
            + count_kind(s, |y: Status| is_running_status(y)) + count_kind(
            s,
            |y: Status| is_not_submitted(y),
        ) + 1,
{
    reveal(Seq::filter);
    assert(s.push(x).drop_last() =~= s);
}

/// Every task is counted once in the final recap: the counts of the kinds
/// of status add up to the number of tasks.
pub proof fn law_recap_counts_every_task(s: Seq<Status>)
    ensures
        count_kind(s, |y: Status| is_completed(y)) + count_kind(s, |y: Status| is_skipped(y))
            + count_kind(s, |y: Status| is_failed(y)) + count_kind(s, |y: Status| is_pending(y))
            + count_kind(s, |y: Status| is_running_status(y)) + count_kind(
            s,
            |y: Status| is_not_submitted(y),
        ) == s.len(),
    decreases s.len(),
{
    if s.len() == 0 {
        reveal(Seq::filter);
    } else {
        law_recap_counts_every_task(s.drop_last());
        lemma_recap_push(s.drop_last(), s.last());
        assert(s.drop_last().push(s.last()) =~= s);
    }
}

/// A status round of a node map changes nothing but statuses, and a node
/// that was already submitted changes only by being retried: a running,
/// completed or skipped node keeps its status, and a failed task becomes
/// ready exactly when it has tries left.
pub proof fn law_update_moves_only_waiting_nodes(uid: Seq<char>, nodes: Seq<MapNode>, i: int)
    requires
        nodemap_wf(nodes),
        0 <= i < nodes.len(),
    ensures
        ({
            let r = nodes.map_values(|n: MapNode| retry_spec(n));
            let after = r.map_values(
                |n: MapNode| with_update(n, propagated(uid, r, Seq::empty(), r.len())),
            );
            &&& after[i].uid == nodes[i].uid
            &&& after[i].parents == nodes[i].parents
            &&& after[i].children == nodes[i].children
            &&& after[i].behavior == nodes[i].behavior
            &&& after[i].output_artifacts == nodes[i].output_artifacts
            &&& !(nodes[i].status is NotSubmitted) ==> after[i] == retry_spec(nodes[i])
        }),
{
    let r = nodes.map_values(|n: MapNode| retry_spec(n));
    let p = propagated(uid, r, Seq::empty(), r.len());
    lemma_retry_keeps_nodemap(nodes);
    lemma_propagated_grows(uid, r, Seq::empty(), r.len());
    if !(nodes[i].status is NotSubmitted) {
        lemma_updated_status_entry(p, r[i].uid@);
        if updated_status(p, r[i].uid@) is Some {
            let j = choose|j: int| 0 <= j < p.len() && (#[trigger] p[j]).0@ == r[i].uid@;
            assert(records_not_submitted(r, p[j]));
            lemma_node_by_uid_unique(r, i);
            assert(false);
        }
    }
}

/// Within a submission round of a node map with a task limit, a task
/// starts running only while fewer tasks than the limit are counted as
/// running, and the count never goes past the limit.
pub proof fn law_round_keeps_task_limit<
    S: Fn(String, MapTask) -> Result<String, String>,
    B: Fn(String) -> Result<bool, String>,
    C: Fn(String, String) -> Result<u64, String>,
>(
    states: Seq<MapSubmitter>,
    nodes: Seq<MapNode>,
    r: Seq<(String, MapStatus)>,
    submit_job: S,
    read_choice: B,
    copy_output: C,
    j: int,
)
    requires
        statuses_submitted(states, nodes, r, submit_job, read_choice, copy_output),
        states[0].max_concurrency > 0,
        states[0].nrunning <= states[0].max_concurrency,
        0 <= j < r.len(),
    ensures
        r[j].1 is Running ==> states[j].nrunning < states[0].max_concurrency,
        states[j + 1].nrunning <= states[0].max_concurrency,
        states[j + 1].max_concurrency == states[0].max_concurrency,
    decreases j,
{
    if j > 0 {
        law_round_keeps_task_limit(states, nodes, r, submit_job, read_choice, copy_output, j - 1);
    }
    assert(node_submitted(
        states[j],
        states[j + 1],
        nodes[ready_positions(nodes)[j]],
        nodes,
        r[j].1,
        submit_job,
        read_choice,
        copy_output,
    ));
}

proof fn lemma_task_counts_add_up(nodes: Seq<MapNode>)
    ensures
        count_tasks(nodes, |s: MapStatus| s is Completed) + count_tasks(nodes, |s: MapStatus| s is Skipped)
            + count_tasks(nodes, |s: MapStatus| s is Failed) + count_tasks(
            nodes,
            |s: MapStatus| s is Running,
        ) + count_tasks(nodes, |s: MapStatus| s is NotSubmitted || s is ReadyForSubmission)
            == count_tasks(nodes, |s: MapStatus| true),
    decreases nodes.len(),
{
    if nodes.len() > 0 {
        lemma_task_counts_add_up(nodes.drop_last());
    }
}

/// The recap of a node map counts every task exactly once.
pub proof fn law_map_recap_counts_every_task(nodes: Seq<MapNode>, r: MapRecap)
    requires
        map_recap_of(nodes, r),
    ensures
        r.completed + r.skipped + r.failed + r.running + r.not_submitted == count_tasks(
            nodes,
            |s: MapStatus| true,
        ),
{
    lemma_task_counts_add_up(nodes);
}

/// A task node that runs.
spec fn running_task(n: MapNode) -> bool {
    n.status is Running && n.behavior is TaskNode
}

/// How many of the submitted statuses start a task.
spec fn started(r: Seq<(String, MapStatus)>) -> nat
    decreases r.len(),
{
    if r.len() == 0 {
        0
    } else {
        started(r.drop_last()) + if r.last().1 is Running {
            1nat
        } else {
            0nat
        }
    }
}

/// Node lists that agree, place by place, on which nodes are running
/// tasks have as many running tasks.
proof fn lemma_same_running(a: Seq<MapNode>, b: Seq<MapNode>)
    requires
        a.len() == b.len(),
        forall|i: int| 0 <= i < a.len() ==> running_task(#[trigger] a[i]) == running_task(b[i]),
    ensures
        running_tasks(a).len() == running_tasks(b).len(),
    decreases a.len(),
{
    if a.len() > 0 {
        assert(running_task(a.last()) == running_task(b.last()));
        lemma_same_running(a.drop_last(), b.drop_last());
    }
}

/// The ready positions of a prefix start the ready positions of the list.
proof fn lemma_ready_prefix(s: Seq<MapNode>, k: int)
    requires
        0 <= k <= s.len(),
    ensures
        ready_positions(s.take(k)).len() <= ready_positions(s).len(),
        ready_positions(s.take(k)) == ready_positions(s).take(ready_positions(s.take(k)).len() as int),
    decreases s.len(),
{
    if k == s.len() {
        assert(s.take(k) =~= s);
    } else {
        assert(s.take(k) =~= s.drop_last().take(k));
        lemma_ready_prefix(s.drop_last(), k);
    }
}

/// Ready positions rise strictly.
proof fn lemma_ready_increasing(s: Seq<MapNode>)
    ensures
        forall|a: int, b: int|
            0 <= a < b < ready_positions(s).len() ==> #[trigger] ready_positions(s)[a] < #[trigger] ready_positions(
                s,
            )[b],
    decreases s.len(),
{
    if s.len() > 0 {
        lemma_ready_increasing(s.drop_last());
        lemma_ready_positions_range(s.drop_last());
    }
}

/// With distinct uids, the status recorded for a submitted node is its
/// own, and a node not submitted has none.
proof fn lemma_lookup(s: Seq<MapNode>, pos: Seq<int>, r: Seq<(String, MapStatus)>, k: int)
    requires
        pos.len() == r.len(),
        forall|a: int, b: int| 0 <= a < b < s.len() ==> s[a].uid@ != s[b].uid@,
        forall|j: int| 0 <= j < pos.len() ==> 0 <= #[trigger] pos[j] < s.len(),
        forall|a: int, b: int| 0 <= a < b < pos.len() ==> #[trigger] pos[a] != #[trigger] pos[b],
        forall|j: int| 0 <= j < r.len() ==> (#[trigger] r[j]).0@ == s[pos[j]].uid@,
        0 <= k < s.len(),
    ensures
        forall|j: int| 0 <= j < pos.len() && pos[j] == k ==> updated_status(r, s[k].uid@) == Some(r[j].1),
        (forall|j: int| 0 <= j < pos.len() ==> pos[j] != k) ==> updated_status(r, s[k].uid@) is None,
    decreases r.len(),
{
    if r.len() > 0 {
        let n = r.len() - 1;
        assert(r.last() == r[n]);
        lemma_lookup(s, pos.drop_last(), r.drop_last(), k);
        assert forall|j: int| 0 <= j < pos.len() && pos[j] == k implies updated_status(r, s[k].uid@)
            == Some(r[j].1) by {
            if j < n {
                assert(pos[j] != pos[n]);
                assert(pos.drop_last()[j] == pos[j]);
                assert(r.drop_last()[j] == r[j]);
            }
        }
        if forall|j: int| 0 <= j < pos.len() ==> pos[j] != k {
            assert(pos[n] != k);
            assert forall|j: int| 0 <= j < pos.drop_last().len() implies pos.drop_last()[j] != k by {
                assert(pos[j] != k);
            }
        }
    }
}

/// Submitting the ready nodes adds to the running tasks those whose
/// submission started them.
proof fn lemma_running_after(s: Seq<MapNode>, r: Seq<(String, MapStatus)>, k: int)
    requires
        forall|a: int, b: int| 0 <= a < b < s.len() ==> s[a].uid@ != s[b].uid@,
        r.len() == ready_positions(s).len(),
        forall|j: int| 0 <= j < r.len() ==> (#[trigger] r[j]).0@ == s[ready_positions(s)[j]].uid@,
        forall|j: int|
            0 <= j < r.len() && (#[trigger] r[j]).1 is Running ==> s[ready_positions(s)[j]].behavior is TaskNode,
        0 <= k <= s.len(),
    ensures
        running_tasks(s.map_values(|n: MapNode| submitted_update(n, r)).take(k)).len() == running_tasks(
            s.take(k),
        ).len() + started(r.take(ready_positions(s.take(k)).len() as int)),
    decreases k,
{
    let after = s.map_values(|n: MapNode| submitted_update(n, r));
    let pos = ready_positions(s);
    if k == 0 {
        assert(after.take(0) =~= Seq::<MapNode>::empty());
        assert(s.take(0) =~= Seq::<MapNode>::empty());
        assert(r.take(0) =~= Seq::<(String, MapStatus)>::empty());
    } else {
        lemma_running_after(s, r, k - 1);
        lemma_ready_prefix(s, k - 1);
        lemma_ready_prefix(s, k);
        lemma_ready_positions_range(s);
        lemma_ready_increasing(s);
        lemma_lookup(s, pos, r, k - 1);
        let m = ready_positions(s.take(k - 1)).len() as int;
        assert(after.take(k).drop_last() =~= after.take(k - 1));
        assert(s.take(k).drop_last() =~= s.take(k - 1));
        assert(after.take(k).last() == after[k - 1]);
        assert(s.take(k).last() == s[k - 1]);
        assert(after[k - 1] == submitted_update(s[k - 1], r));
        if s[k - 1].status is ReadyForSubmission {
            assert(ready_positions(s.take(k)) == ready_positions(s.take(k - 1)).push(k - 1));
            assert(pos[m] == k - 1) by {
                assert(ready_positions(s.take(k)) == pos.take(m + 1));
                assert(ready_positions(s.take(k))[m] == k - 1);
            }
            assert(updated_status(r, s[k - 1].uid@) == Some(r[m].1));
            assert(r.take(m + 1).drop_last() =~= r.take(m));
            assert(r.take(m + 1).last() == r[m]);
            assert(running_task(after[k - 1]) == (r[m].1 is Running));
        } else {
            assert(ready_positions(s.take(k)) == ready_positions(s.take(k - 1)));
            assert forall|j: int| 0 <= j < pos.len() implies pos[j] != k - 1 by {
                assert(s[pos[j]].status is ReadyForSubmission);
            }
            assert(after[k - 1] == s[k - 1]);
        }
    }
}

/// The running count of the submitter follows the tasks its round
/// started, never passing the limit.
proof fn lemma_counter_follows<
    S: Fn(String, MapTask) -> Result<String, String>,
    B: Fn(String) -> Result<bool, String>,
    C: Fn(String, String) -> Result<u64, String>,
>(
    states: Seq<MapSubmitter>,
    nodes: Seq<MapNode>,
    r: Seq<(String, MapStatus)>,
    submit_job: S,
    read_choice: B,
    copy_output: C,
    k: int,
)
    requires
        statuses_submitted(states, nodes, r, submit_job, read_choice, copy_output),
        states[0].max_concurrency > 0,
        states[0].nrunning <= states[0].max_concurrency,
        0 <= k <= r.len(),
    ensures
        states[k].nrunning == states[0].nrunning + started(r.take(k)),
        states[k].nrunning <= states[0].max_concurrency,
        states[k].max_concurrency == states[0].max_concurrency,
        forall|j: int|
            0 <= j < k && (#[trigger] r[j]).1 is Running ==> nodes[ready_positions(nodes)[j]].behavior is TaskNode,
    decreases k,
{
    if k == 0 {
        assert(r.take(0) =~= Seq::<(String, MapStatus)>::empty());
    } else {
        lemma_counter_follows(states, nodes, r, submit_job, read_choice, copy_output, k - 1);
        let j = k - 1;
        assert(node_submitted(
            states[j],
            states[j + 1],
            nodes[ready_positions(nodes)[j]],
            nodes,
            r[j].1,
            submit_job,
            read_choice,
            copy_output,
        ));
        assert(r.take(k).drop_last() =~= r.take(j));
        assert(r.take(k).last() == r[j]);
    }
}

/// After a submission round of a node map whose uids are distinct, with a
/// task limit set and the running tasks counted before it, the running
/// tasks are exactly those the submitter counts; so when no more tasks
/// than the limit ran before the round, no more run after it.
pub proof fn law_round_runs_within_limit<
    RO: Fn(String) -> Result<MapOutput, String>,
    CC: Fn(String, String) -> Result<u64, String>,
    RC: Fn(String) -> Result<Vec<(String, JsonValue)>, String>,
    E: Fn(String) -> bool,
    SI: Fn(String, Vec<(String, JsonValue)>) -> Result<(), String>,
    S: Fn(String, MapTask) -> Result<String, String>,
    B: Fn(String) -> Result<bool, String>,
    C: Fn(String, String) -> Result<u64, String>,
>(
    before: Seq<MapNode>,
    mid1: Seq<MapNode>,
    mid2: Seq<MapNode>,
    states: Seq<MapSubmitter>,
    updated: Seq<(String, MapStatus)>,
    after: Seq<MapNode>,
    read_output: RO,
    copy_cache: CC,
    read_cached: RC,
    exists_fn: E,
    save_input: SI,
    submit_job: S,
    read_choice: B,
    copy_output: C,
)
    requires
        submit_round(
            before,
            mid1,
            mid2,
            states,
            updated,
            after,
            read_output,
            copy_cache,
            read_cached,
            exists_fn,
            save_input,
            submit_job,
            read_choice,
            copy_output,
        ),
        nodemap_wf(before),
        states[0].max_concurrency > 0,
        states[0].nrunning == running_tasks(before).len(),
        running_tasks(before).len() <= states[0].max_concurrency,
    ensures
        running_tasks(after).len() == states.last().nrunning,
        running_tasks(after).len() <= states[0].max_concurrency,
{
    assert forall|i: int| 0 <= i < before.len() implies running_task(#[trigger] before[i])
        == running_task(mid2[i]) && before[i].uid == mid2[i].uid by {
        assert(cache_round_node(
            before[i],
            mid1[i],
            read_output,
            copy_cache,
            read_cached,
            exists_fn,
            save_input,
        ));
        if held_back(mid1, i) {
            assert(crate::sscheduler::limiters::ready_cacheable(mid1[i]));
        }
    }
    lemma_same_running(before, mid2);
    let pos = ready_positions(mid2);
    lemma_ready_positions_range(mid2);
    assert forall|a: int, b: int| 0 <= a < b < mid2.len() implies mid2[a].uid@ != mid2[b].uid@ by {
        assert(before[a].uid == mid2[a].uid && before[b].uid == mid2[b].uid);
    }
    lemma_counter_follows(states, mid2, updated, submit_job, read_choice, copy_output, updated.len() as int);
    assert(updated.take(updated.len() as int) =~= updated);
    assert(states.last() == states[updated.len() as int]);
    lemma_running_after(mid2, updated, mid2.len() as int);
    assert(mid2.take(mid2.len() as int) =~= mid2);
    assert(after.take(after.len() as int) =~= after);
    assert(after == mid2.map_values(|n: MapNode| submitted_update(n, updated)));
}

/// The first ready cacheable task named like the one at `i`.
proof fn lemma_first_ready(b: Seq<MapNode>, i: int) -> (j: int)
    requires
        0 <= i < b.len(),
        ready_cacheable(b[i]),
    ensures
        0 <= j <= i,
        ready_cacheable(b[j]),
        task_name(b[j]) == task_name(b[i]),
        !name_ready_before(b, j, task_name(b[i])),
    decreases i,
{
    if name_ready_before(b, i, task_name(b[i])) {
        let k = choose|k: int|
            0 <= k < i && ready_cacheable(b[k]) && #[trigger] task_name(b[k]) == task_name(b[i]);
        lemma_first_ready(b, k)
    } else {
        i
    }
}

/// Holding back cacheable tasks leaves at most one ready cacheable task of
/// each name, none of a name that has a running cacheable task, and,
/// for a name with ready cacheable tasks and none running, one of them
/// (the first) still ready; every other node is unchanged.
pub proof fn law_one_cacheable_task_per_name(before: Seq<MapNode>, after: Seq<MapNode>)
    requires
        after.len() == before.len(),
        forall|i: int|
            0 <= i < before.len() ==> #[trigger] after[i] == if held_back(before, i) {
                MapNode { status: MapStatus::NotSubmitted, ..before[i] }
            } else {
                before[i]
            },
    ensures
        forall|i: int|
            0 <= i < after.len() && ready_cacheable(#[trigger] after[i]) ==> !name_running(
                before,
                task_name(after[i]),
            ),
        forall|i: int, j: int|
            0 <= i < j < after.len() && ready_cacheable(#[trigger] after[i]) && ready_cacheable(
                #[trigger] after[j],
            ) ==> task_name(after[i]) != task_name(after[j]),
        forall|i: int|
            0 <= i < before.len() && ready_cacheable(#[trigger] before[i]) && !name_running(
                before,
                task_name(before[i]),
            ) ==> exists|j: int|
                0 <= j <= i && ready_cacheable(#[trigger] after[j]) && task_name(after[j])
                    == task_name(before[i]),
        forall|i: int|
            0 <= i < before.len() && after[i] != before[i] ==> ready_cacheable(#[trigger] before[i])
                && after[i].status is NotSubmitted,
{
    assert forall|i: int, j: int|
        0 <= i < j < after.len() && ready_cacheable(#[trigger] after[i]) && ready_cacheable(
            #[trigger] after[j],
        ) implies task_name(after[i]) != task_name(after[j]) by {
        assert(after[i] == before[i]);
        assert(after[j] == before[j]);
        if task_name(after[i]) == task_name(after[j]) {
            assert(name_ready_before(before, j, task_name(before[j])));
        }
    }
    assert forall|i: int|
        0 <= i < before.len() && ready_cacheable(#[trigger] before[i]) && !name_running(
            before,
            task_name(before[i]),
        ) implies exists|j: int|
        0 <= j <= i && ready_cacheable(#[trigger] after[j]) && task_name(after[j]) == task_name(
            before[i],
        ) by {
        let j = lemma_first_ready(before, i);
        assert(!held_back(before, j));
        assert(after[j] == before[j]);
    }
    assert forall|i: int| 0 <= i < before.len() && after[i] != before[i] implies ready_cacheable(
        #[trigger] before[i],
    ) && after[i].status is NotSubmitted by {
        assert(held_back(before, i));
    }
}

/// A ready cacheable task named `name`.
pub open spec fn ready_named(n: MapNode, name: Seq<char>) -> bool {
    ready_cacheable(n) && task_name(n) == name
}

/// How many ready cacheable tasks named `name` the list holds.
pub open spec fn count_ready_named(nodes: Seq<MapNode>, name: Seq<char>) -> nat
    decreases nodes.len(),
{
    if nodes.len() == 0 {
        0
    } else {
        count_ready_named(nodes.drop_last(), name) + if ready_named(nodes.last(), name) {
            1nat
        } else {
            0nat
        }
    }
}

/// The count is zero exactly when no entry is a ready cacheable task so
/// named.
proof fn lemma_count_zero(nodes: Seq<MapNode>, name: Seq<char>)
    ensures
        count_ready_named(nodes, name) == 0 <==> forall|i: int|
            0 <= i < nodes.len() ==> !ready_named(#[trigger] nodes[i], name),
    decreases nodes.len(),
{
    if nodes.len() > 0 {
        let init = nodes.drop_last();
        lemma_count_zero(init, name);
        assert forall|i: int| 0 <= i < init.len() implies #[trigger] init[i] == nodes[i] by {}
        if count_ready_named(nodes, name) != 0 {
            if !ready_named(nodes.last(), name) {
                let k = choose|k: int| 0 <= k < init.len() && ready_named(#[trigger] init[k], name);
                assert(nodes[k] == init[k]);
            }
        } else {
            assert forall|i: int| 0 <= i < nodes.len() implies !ready_named(#[trigger] nodes[i], name) by {
                if i < init.len() {
                    assert(nodes[i] == init[i]);
                }
            }
        }
    }
}

/// With no two entries ready cacheable tasks so named, the count is at
/// most one.
proof fn lemma_count_at_most_one(nodes: Seq<MapNode>, name: Seq<char>)
    requires
        forall|i: int, j: int|
            0 <= i < j < nodes.len() ==> !(ready_named(#[trigger] nodes[i], name) && ready_named(
                #[trigger] nodes[j],
                name,
            )),
    ensures
        count_ready_named(nodes, name) <= 1,
    decreases nodes.len(),
{
    if nodes.len() > 0 {
        let init = nodes.drop_last();
        assert forall|i: int| 0 <= i < init.len() implies #[trigger] init[i] == nodes[i] by {}
        if ready_named(nodes.last(), name) {
            assert forall|i: int| 0 <= i < init.len() implies !ready_named(#[trigger] init[i], name) by {
                assert(nodes[i] == init[i]);
                assert(nodes[nodes.len() - 1] == nodes.last());
            }
            lemma_count_zero(init, name);
        } else {
            assert forall|i: int, j: int|
                0 <= i < j < init.len() implies !(ready_named(#[trigger] init[i], name) && ready_named(
                #[trigger] init[j],
                name,
            )) by {
                assert(nodes[i] == init[i]);
                assert(nodes[j] == init[j]);
            }
            lemma_count_at_most_one(init, name);
        }
    }
}

/// Counted per name, holding back cacheable tasks leaves no ready
/// cacheable task of a name that has a running cacheable task, and
/// otherwise exactly as many as the smaller of one and the number that
/// were ready.
pub proof fn law_cacheable_ready_count(before: Seq<MapNode>, after: Seq<MapNode>, name: Seq<char>)
    requires
        after.len() == before.len(),
        forall|i: int|
            0 <= i < before.len() ==> #[trigger] after[i] == if held_back(before, i) {
                MapNode { status: MapStatus::NotSubmitted, ..before[i] }
            } else {
                before[i]
            },
    ensures
        count_ready_named(after, name) == if name_running(before, name) {
            0nat
        } else if count_ready_named(before, name) > 0 {
            1nat
        } else {
            0nat
        },
{
    law_one_cacheable_task_per_name(before, after);
    lemma_count_zero(before, name);
    lemma_count_zero(after, name);
    if name_running(before, name) {
        assert forall|i: int| 0 <= i < after.len() implies !ready_named(#[trigger] after[i], name) by {
            if ready_named(after[i], name) {
                assert(!name_running(before, task_name(after[i])));
            }
        }
    } else if count_ready_named(before, name) > 0 {
        let i = choose|i: int| 0 <= i < before.len() && ready_named(#[trigger] before[i], name);
        assert(ready_cacheable(before[i]));
        let j = choose|j: int|
            0 <= j <= i && ready_cacheable(#[trigger] after[j]) && task_name(after[j]) == task_name(
                before[i],
            );
        assert(ready_named(after[j], name));
        assert forall|a: int, b: int|
            0 <= a < b < after.len() implies !(ready_named(#[trigger] after[a], name) && ready_named(
            #[trigger] after[b],
            name,
        )) by {
            if ready_named(after[a], name) && ready_named(after[b], name) {
                assert(ready_cacheable(after[a]) && ready_cacheable(after[b]));
            }
        }
        lemma_count_at_most_one(after, name);
    } else {
        assert forall|i: int| 0 <= i < after.len() implies !ready_named(#[trigger] after[i], name) by {
            if ready_named(after[i], name) && after[i] != before[i] {
                assert(after[i].status is NotSubmitted);
            }
            if ready_named(after[i], name) {
                assert(ready_named(before[i], name));
            }
        }
    }
}

/// The recap counts each status by its kind: completed, skipped and failed
/// tasks each in their own count, pending and running apart, and waiting
/// tasks (not submitted or ready) together.
pub proof fn law_recap_counts_by_status(s: Seq<Status>)
    requires
        s.len() <= usize::MAX,
    ensures
        recap_of(s).completed == s.filter(|x: Status| x is Completed).len(),
        recap_of(s).skipped == s.filter(|x: Status| x is Skipped).len(),
        recap_of(s).failed == s.filter(|x: Status| x is Failed).len(),
        recap_of(s).pending == s.filter(|x: Status| x is Pending).len(),
        recap_of(s).running == s.filter(|x: Status| x is Running).len(),
        recap_of(s).not_submitted == s.filter(|x: Status| x is NotSubmitted || x is ReadyForSubmission).len(),
{
    let c = |x: Status| x is Completed;
    let k = |x: Status| x is Skipped;
    let f = |x: Status| x is Failed;
    let p = |x: Status| x is Pending;
    let r = |x: Status| x is Running;
    let n = |x: Status| x is NotSubmitted || x is ReadyForSubmission;
    assert((|x: Status| is_completed(x)) =~= c);
    assert((|x: Status| is_skipped(x)) =~= k);
    assert((|x: Status| is_failed(x)) =~= f);
    assert((|x: Status| is_pending(x)) =~= p);
    assert((|x: Status| is_running_status(x)) =~= r);
    assert((|x: Status| is_not_submitted(x)) =~= n);
    s.lemma_filter_len(c);
    s.lemma_filter_len(k);
    s.lemma_filter_len(f);
    s.lemma_filter_len(p);
    s.lemma_filter_len(r);
    s.lemma_filter_len(n);
}

/// Each state `sacct` reports reads as its status: `COMPLETED` as the
/// job's completion, `PENDING`, `RUNNING` and `COMPLETING` as the job
/// running, any other state, or none found, as the job's failure.
pub proof fn law_slurm_state_names(job_id: Seq<char>, state: Option<Seq<char>>, r: MapStatus)
    requires
        backend_status(job_id, state, r),
    ensures
        state == Some("COMPLETED"@) ==> (r matches MapStatus::Completed(NodeResult::Task(id)) && id@ == job_id),
        state == Some("PENDING"@) ==> (r matches MapStatus::Running(id) && id@ == job_id),
        state == Some("RUNNING"@) ==> (r matches MapStatus::Running(id) && id@ == job_id),
        state == Some("COMPLETING"@) ==> (r matches MapStatus::Running(id) && id@ == job_id),
        state is None ==> (r matches MapStatus::Failed(NodeFailure::Task(id)) && id@ == job_id),
        state matches Some(s) && s != "COMPLETED"@ && s != "PENDING"@ && s != "RUNNING"@ && s
            != "COMPLETING"@ ==> (r matches MapStatus::Failed(NodeFailure::Task(id)) && id@ == job_id),
{
    reveal_strlit("COMPLETED");
    reveal_strlit("PENDING");
    reveal_strlit("RUNNING");
    reveal_strlit("COMPLETING");
    assert("PENDING"@.len() != "COMPLETED"@.len());
    assert("RUNNING"@.len() != "COMPLETED"@.len());
}

/// JSON values other than numbers, arrays and objects are the same exactly
/// when they are equal: strings with the same text, the same boolean, two
/// nulls; values of different kinds never are.
pub proof fn law_json_same_is_equality(a: JsonValue, b: JsonValue)
    ensures
        a is Text && b is Text ==> (json_same(a, b) <==> a->Text_0@ == b->Text_0@),
        a is Bool && b is Bool ==> (json_same(a, b) <==> a->Bool_0 == b->Bool_0),
        a is Null && b is Null ==> json_same(a, b),
        (a is Null) != (b is Null) || (a is Bool) != (b is Bool) || (a is Text) != (b is Text) || (a is Json)
            != (b is Json) ==> !json_same(a, b),
{
}

/// Two inputs match only with the same keys, and under each key a string
/// of the one is the same string in the other, a boolean the same boolean,
/// a null a null.
pub proof fn law_matching_inputs_agree(a: Map<Seq<char>, JsonValue>, b: Map<Seq<char>, JsonValue>, key: Seq<char>)
    requires
        inputs_match(a, b),
        a.dom().contains(key),
    ensures
        b.dom().contains(key),
        a[key] is Text ==> b[key] is Text && b[key]->Text_0@ == a[key]->Text_0@,
        a[key] is Bool ==> b[key] == a[key],
        a[key] is Null ==> b[key] is Null,
{
    law_json_same_is_equality(a[key], b[key]);
}

/// Concatenating keeps what either part holds.
proof fn lemma_concat_contains(a: Seq<Seq<char>>, b: Seq<Seq<char>>, x: Seq<char>)
    ensures
        a.contains(x) ==> (a + b).contains(x),
        b.contains(x) ==> (a + b).contains(x),
{
    if a.contains(x) {
        let i = choose|i: int| 0 <= i < a.len() && a[i] == x;
        assert((a + b)[i] == x);
    }
    if b.contains(x) {
        let i = choose|i: int| 0 <= i < b.len() && b[i] == x;
        assert((a + b)[a.len() + i] == x);
    }
}

/// An option in one of the parts of the `sbatch` options is among them.
proof fn lemma_in_sbatch_args(o: SlurmOverride, name: Seq<char>, output: Seq<char>, error: Seq<char>, x: Seq<char>)
    requires
        seq![
            "--error="@ + error,
            "--output="@ + output,
            "--job-name="@ + match o.job_name {
                Some(j) => j@,
                None => name,
            },
        ].contains(x) || opt_arg("--nodes="@, opt_num(o.nodes)).contains(x) || opt_arg("--partition="@, opt_text(o.partition)).contains(x) || opt_arg("--qos="@, opt_text(o.qos)).contains(x) || opt_arg("--gpus-per-node="@, opt_num(o.gpus_per_node)).contains(x) || opt_arg("--ntasks-per-node="@, opt_text(o.ntasks_per_node)).contains(x) || opt_arg("--account="@, opt_text(o.account)).contains(x) || opt_arg("--cpus-per-task="@, opt_num(o.cpus_per_task)).contains(x) || opt_arg("--mem="@, opt_text(o.mem)).contains(x) || opt_arg("--time="@, opt_text(o.time)).contains(x),
    ensures
        sbatch_args(o, name, output, error).contains(x),
{
    let s0 = seq![
        "--error="@ + error,
        "--output="@ + output,
        "--job-name="@ + match o.job_name {
            Some(j) => j@,
            None => name,
        },
    ];
    let a1 = opt_arg("--nodes="@, opt_num(o.nodes));
    let s1 = s0 + a1;
    lemma_concat_contains(s0, a1, x);
    let a2 = opt_arg("--partition="@, opt_text(o.partition));
    let s2 = s1 + a2;
    lemma_concat_contains(s1, a2, x);
    let a3 = opt_arg("--qos="@, opt_text(o.qos));
    let s3 = s2 + a3;
    lemma_concat_contains(s2, a3, x);
    let a4 = opt_arg("--gpus-per-node="@, opt_num(o.gpus_per_node));
    let s4 = s3 + a4;
    lemma_concat_contains(s3, a4, x);
    let a5 = opt_arg("--ntasks-per-node="@, opt_text(o.ntasks_per_node));
    let s5 = s4 + a5;
    lemma_concat_contains(s4, a5, x);
    let a6 = opt_arg("--account="@, opt_text(o.account));
    let s6 = s5 + a6;
    lemma_concat_contains(s5, a6, x);
    let a7 = opt_arg("--cpus-per-task="@, opt_num(o.cpus_per_task));
    let s7 = s6 + a7;
    lemma_concat_contains(s6, a7, x);
    let a8 = opt_arg("--mem="@, opt_text(o.mem));
    let s8 = s7 + a8;
    lemma_concat_contains(s7, a8, x);
    let a9 = opt_arg("--time="@, opt_text(o.time));
    let s9 = s8 + a9;
    lemma_concat_contains(s8, a9, x);
    assert(sbatch_args(o, name, output, error) == s9);
}

/// The `sbatch` options hold the log paths, the job name (the override's
/// when there is one, the task's otherwise), and each resource the task
/// overrides, as its option with the override's value.
pub proof fn law_sbatch_args_carry_overrides(o: SlurmOverride, name: Seq<char>, output: Seq<char>, error: Seq<char>)
    ensures
        sbatch_args(o, name, output, error).contains("--error="@ + error),
        sbatch_args(o, name, output, error).contains("--output="@ + output),
        o.job_name matches Some(j) ==> sbatch_args(o, name, output, error).contains("--job-name="@ + j@),
        o.job_name is None ==> sbatch_args(o, name, output, error).contains("--job-name="@ + name),
        o.nodes matches Some(n) ==> sbatch_args(o, name, output, error).contains(
            "--nodes="@ + decimal(n as nat),
        ),
        o.partition matches Some(p) ==> sbatch_args(o, name, output, error).contains("--partition="@ + p@),
        o.qos matches Some(q) ==> sbatch_args(o, name, output, error).contains("--qos="@ + q@),
        o.gpus_per_node matches Some(g) ==> sbatch_args(o, name, output, error).contains(
            "--gpus-per-node="@ + decimal(g as nat),
        ),
        o.ntasks_per_node matches Some(t) ==> sbatch_args(o, name, output, error).contains(
            "--ntasks-per-node="@ + t@,
        ),
        o.account matches Some(a) ==> sbatch_args(o, name, output, error).contains("--account="@ + a@),
        o.cpus_per_task matches Some(c) ==> sbatch_args(o, name, output, error).contains(
            "--cpus-per-task="@ + decimal(c as nat),
        ),
        o.mem matches Some(m) ==> sbatch_args(o, name, output, error).contains("--mem="@ + m@),
        o.time matches Some(t) ==> sbatch_args(o, name, output, error).contains("--time="@ + t@),
{
    let j = match o.job_name {
        Some(j) => j@,
        None => name,
    };
    let s0 = seq!["--error="@ + error, "--output="@ + output, "--job-name="@ + j];
    assert(s0[0] == "--error="@ + error);
    lemma_in_sbatch_args(o, name, output, error, "--error="@ + error);
    assert(s0[1] == "--output="@ + output);
    lemma_in_sbatch_args(o, name, output, error, "--output="@ + output);
    assert(s0[2] == "--job-name="@ + j);
    lemma_in_sbatch_args(o, name, output, error, "--job-name="@ + j);
    if let Some(n) = o.nodes {
        let x = "--nodes="@ + decimal(n as nat);
        assert(opt_arg("--nodes="@, opt_num(o.nodes))[0] == x);
        lemma_in_sbatch_args(o, name, output, error, x);
    }
    if let Some(p) = o.partition {
        let x = "--partition="@ + p@;
        assert(opt_arg("--partition="@, opt_text(o.partition))[0] == x);
        lemma_in_sbatch_args(o, name, output, error, x);
    }
    if let Some(q) = o.qos {
        let x = "--qos="@ + q@;
        assert(opt_arg("--qos="@, opt_text(o.qos))[0] == x);
        lemma_in_sbatch_args(o, name, output, error, x);
    }
    if let Some(g) = o.gpus_per_node {
        let x = "--gpus-per-node="@ + decimal(g as nat);
        assert(opt_arg("--gpus-per-node="@, opt_num(o.gpus_per_node))[0] == x);
        lemma_in_sbatch_args(o, name, output, error, x);
    }
    if let Some(t) = o.ntasks_per_node {
        let x = "--ntasks-per-node="@ + t@;
        assert(opt_arg("--ntasks-per-node="@, opt_text(o.ntasks_per_node))[0] == x);
        lemma_in_sbatch_args(o, name, output, error, x);
    }
    if let Some(a) = o.account {
        let x = "--account="@ + a@;
        assert(opt_arg("--account="@, opt_text(o.account))[0] == x);
        lemma_in_sbatch_args(o, name, output, error, x);
    }
    if let Some(c) = o.cpus_per_task {
        let x = "--cpus-per-task="@ + decimal(c as nat);
        assert(opt_arg("--cpus-per-task="@, opt_num(o.cpus_per_task))[0] == x);
        lemma_in_sbatch_args(o, name, output, error, x);
    }
    if let Some(m) = o.mem {
        let x = "--mem="@ + m@;
        assert(opt_arg("--mem="@, opt_text(o.mem))[0] == x);
        lemma_in_sbatch_args(o, name, output, error, x);
    }
    if let Some(t) = o.time {
        let x = "--time="@ + t@;
        assert(opt_arg("--time="@, opt_text(o.time))[0] == x);
        lemma_in_sbatch_args(o, name, output, error, x);
    }
}

/// A waiting task visited becomes ready (or is taken from its cache) only
/// when every status its parents show it is a completion; it is skipped
/// when one of them failed or was skipped; otherwise it stays as it was,
/// and nothing is queued.
pub proof fn law_task_waits_for_all_parents<V: Fn(usize, String) -> bool>(
    ps: Seq<Status>,
    task: Task,
    cfg: Cfg,
    before: Ctx,
    after: Ctx,
    validate_cache: V,
)
    requires
        task_step(ps, task, cfg, before, after, validate_cache),
        task.uid < before.statuses@.len(),
        before.statuses@[task.uid as int] is NotSubmitted,
    ensures
        (forall|i: int| 0 <= i < ps.len() ==> (#[trigger] ps[i]) is Completed) ==> (after.statuses@[task.uid as int]
            is ReadyForSubmission || after.statuses@[task.uid as int] == Status::Completed(Completed::Cached)),
        !(forall|i: int| 0 <= i < ps.len() ==> (#[trigger] ps[i]) is Completed) ==> after.jobs@ == before.jobs@
            && !(after.statuses@[task.uid as int] is ReadyForSubmission),
        (exists|i: int| 0 <= i < ps.len() && ((#[trigger] ps[i]) is Failed || ps[i] is Skipped)) ==> after.statuses@
            == before.statuses@.update(task.uid as int, Status::Skipped),
        !(forall|i: int| 0 <= i < ps.len() ==> (#[trigger] ps[i]) is Completed) && !(exists|i: int|
            0 <= i < ps.len() && ((#[trigger] ps[i]) is Failed || ps[i] is Skipped)) ==> after.statuses@
            == before.statuses@ && after.jobs@ == before.jobs@,
{
    if exists|i: int| 0 <= i < ps.len() && ((#[trigger] ps[i]) is Failed || ps[i] is Skipped) {
        let i = choose|i: int| 0 <= i < ps.len() && ((#[trigger] ps[i]) is Failed || ps[i] is Skipped);
        assert(!(ps[i] is Completed));
    }
}

} // verus!
