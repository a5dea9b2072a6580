//! The end-of-run recap of the string-keyed scheduler: how many tasks
//! ended in each status.

use crate::sscheduler::model::{job_status_text, JobStatus, Node, NodeBehavior};
use vstd::prelude::*;

verus! {

broadcast use vstd::seq_lib::to_multiset_insert, vstd::seq_lib::to_multiset_build;

/// The number of task nodes whose status satisfies `f`.
pub open spec fn count_tasks(nodes: Seq<Node>, f: spec_fn(JobStatus) -> bool) -> nat
    decreases nodes.len(),
{
    if nodes.len() == 0 {
        0
    } else {
        count_tasks(nodes.drop_last(), f) + if nodes.last().behavior is TaskNode && f(
            nodes.last().status,
        ) {
            1nat
        } else {
            0nat
        }
    }
}

/// How many tasks ended completed, skipped, failed, still running, or not
/// submitted (ready ones included).
pub struct MapRecap {
    pub completed: usize,
    pub skipped: usize,
    pub failed: usize,
    pub running: usize,
    pub not_submitted: usize,
}

/// The recap of the tasks of `nodes`.
pub open spec fn map_recap_of(nodes: Seq<Node>, r: MapRecap) -> bool {
    &&& r.completed == count_tasks(nodes, |s: JobStatus| s is Completed)
    &&& r.skipped == count_tasks(nodes, |s: JobStatus| s is Skipped)
    &&& r.failed == count_tasks(nodes, |s: JobStatus| s is Failed)
    &&& r.running == count_tasks(nodes, |s: JobStatus| s is Running)
    &&& r.not_submitted == count_tasks(
        nodes,
        |s: JobStatus| s is NotSubmitted || s is ReadyForSubmission,
    )
}

proof fn lemma_count_tasks_bound(nodes: Seq<Node>, f: spec_fn(JobStatus) -> bool)
    ensures
        count_tasks(nodes, f) <= nodes.len(),
    decreases nodes.len(),
{
    if nodes.len() > 0 {
        lemma_count_tasks_bound(nodes.drop_last(), f);
    }
}

/// Count the tasks by the status they ended in (see `map_recap_of`).
pub fn get_final_recap(nodes: &[Node]) -> (r: MapRecap)
    ensures
        map_recap_of(nodes@, r),
{
    let mut r = MapRecap { completed: 0, skipped: 0, failed: 0, running: 0, not_submitted: 0 };
    let mut i: usize = 0;
    while i < nodes.len()
        invariant
            i <= nodes@.len(),
            map_recap_of(nodes@.take(i as int), r),
        decreases nodes@.len() - i,
    {
        let ghost p = nodes@.take(i as int);
        assert(nodes@.take(i + 1).drop_last() =~= p);
        assert(nodes@.take(i + 1).last() == nodes@[i as int]);
        proof {
            lemma_count_tasks_bound(p, |s: JobStatus| s is Completed);
            lemma_count_tasks_bound(p, |s: JobStatus| s is Skipped);
            lemma_count_tasks_bound(p, |s: JobStatus| s is Failed);
            lemma_count_tasks_bound(p, |s: JobStatus| s is Running);
            lemma_count_tasks_bound(p, |s: JobStatus| s is NotSubmitted || s is ReadyForSubmission);
        }
        if let NodeBehavior::TaskNode(_) = &nodes[i].behavior {
            match &nodes[i].status {
                JobStatus::Completed(_) => r.completed = r.completed + 1,
                JobStatus::Skipped => r.skipped = r.skipped + 1,
                JobStatus::Failed(_) => r.failed = r.failed + 1,
                JobStatus::Running(_) => r.running = r.running + 1,
                JobStatus::NotSubmitted | JobStatus::ReadyForSubmission => r.not_submitted =
                    r.not_submitted + 1,
            }
        }
        i = i + 1;
    }
    assert(nodes@.take(nodes@.len() as int) =~= nodes@);
    r
}

/// `a` comes before `b` in code-point order, comparing from index `i`
/// on: at the first index where they differ, the character of `a` is the
/// smaller one.
pub open spec fn chars_lt_from(a: Seq<char>, b: Seq<char>, i: nat) -> bool
    decreases a.len() - i,
{
    if i >= a.len() || i >= b.len() {
        false
    } else if a[i as int] != b[i as int] {
        a[i as int] < b[i as int]
    } else {
        chars_lt_from(a, b, i + 1)
    }
}

/// Order of node uids in the summary: shorter uids first, uids of the same
/// length in code-point order.
pub open spec fn uid_le(a: Seq<char>, b: Seq<char>) -> bool {
    a.len() < b.len() || (a.len() == b.len() && !chars_lt_from(b, a, 0))
}

/// The comparison cannot hold both ways.
proof fn lemma_lt_asym(a: Seq<char>, b: Seq<char>, i: nat)
    ensures
        chars_lt_from(a, b, i) ==> !chars_lt_from(b, a, i),
    decreases a.len() - i,
{
    if i < a.len() && i < b.len() && a[i as int] == b[i as int] {
        lemma_lt_asym(a, b, i + 1);
    }
}

/// Sequences of one length that compare neither way agree from `i` on.
proof fn lemma_lt_total(a: Seq<char>, b: Seq<char>, i: nat)
    requires
        a.len() == b.len(),
        !chars_lt_from(a, b, i),
        !chars_lt_from(b, a, i),
    ensures
        forall|k: int| i <= k < a.len() ==> a[k] == b[k],
    decreases a.len() - i,
{
    if i < a.len() {
        assert(a[i as int] == b[i as int]);
        lemma_lt_total(a, b, i + 1);
    }
}

/// The comparison is transitive.
proof fn lemma_lt_trans(a: Seq<char>, b: Seq<char>, c: Seq<char>, i: nat)
    requires
        a.len() == b.len(),
        b.len() == c.len(),
        chars_lt_from(a, b, i),
        chars_lt_from(b, c, i),
    ensures
        chars_lt_from(a, c, i),
    decreases a.len() - i,
{
    if a[i as int] == b[i as int] && b[i as int] == c[i as int] {
        lemma_lt_trans(a, b, c, i + 1);
    }
}

/// Two uids are in order one way or the other.
proof fn lemma_uid_le_total(a: Seq<char>, b: Seq<char>)
    ensures
        uid_le(a, b) || uid_le(b, a),
{
    lemma_lt_asym(a, b, 0);
}

/// The order of uids is transitive.
proof fn lemma_uid_le_trans(a: Seq<char>, b: Seq<char>, c: Seq<char>)
    requires
        uid_le(a, b),
        uid_le(b, c),
    ensures
        uid_le(a, c),
{
    if a.len() == b.len() && b.len() == c.len() && chars_lt_from(c, a, 0) {
        lemma_lt_asym(a, b, 0);
        if chars_lt_from(a, b, 0) {
            lemma_lt_trans(c, a, b, 0);
        } else {
            lemma_lt_total(a, b, 0);
            assert(a =~= b);
        }
    }
}

/// Whether uid `a` comes no later than uid `b` (see `uid_le`).
pub fn uid_before(a: &str, b: &str) -> (r: bool)
    ensures
        r == uid_le(a@, b@),
{
    let la = a.unicode_len();
    let lb = b.unicode_len();
    if la != lb {
        return la < lb;
    }
    let mut i: usize = 0;
    while i < la
        invariant
            la == a@.len(),
            lb == b@.len(),
            la == lb,
            i <= la,
            chars_lt_from(b@, a@, 0) == chars_lt_from(b@, a@, i as nat),
        decreases la - i,
    {
        let ca = a.get_char(i);
        let cb = b.get_char(i);
        if ca != cb {
            return !(cb < ca);
        }
        i = i + 1;
    }
    true
}

/// A line of the summary table of the node map.
pub struct MapRow {
    pub uid: String,
    pub task: String,
    pub status: String,
    pub num_tries: u32,
}

/// The plain values of a summary line: uid, task name, status text and
/// number of tries.
pub open spec fn map_row_view(r: MapRow) -> (Seq<char>, Seq<char>, Seq<char>, u32) {
    (r.uid@, r.task@, r.status@, r.num_tries)
}

/// The summary lines of the task nodes, in node order.
pub open spec fn task_map_rows(nodes: Seq<Node>) -> Seq<(Seq<char>, Seq<char>, Seq<char>, u32)>
    decreases nodes.len(),
{
    if nodes.len() == 0 {
        Seq::empty()
    } else {
        let n = nodes.last();
        match n.behavior {
            NodeBehavior::TaskNode(t) => task_map_rows(nodes.drop_last()).push(
                (n.uid@, t.name@, job_status_text(n.status), t.try_num),
            ),
            _ => task_map_rows(nodes.drop_last()),
        }
    }
}

/// Lines listed by uid (see `uid_le`).
pub open spec fn map_rows_sorted(s: Seq<(Seq<char>, Seq<char>, Seq<char>, u32)>) -> bool {
    forall|i: int, j: int| 0 <= i < j < s.len() ==> uid_le((#[trigger] s[i]).0, (#[trigger] s[j]).0)
}

/// The lines of the summary table of the node map: one per task node,
/// listed by uid, shorter uids first.
pub fn get_summary_rows(nodes: &[Node]) -> (r: Vec<MapRow>)
    ensures
        r@.map_values(|x: MapRow| map_row_view(x)).to_multiset() == task_map_rows(nodes@).to_multiset(),
        map_rows_sorted(r@.map_values(|x: MapRow| map_row_view(x))),
{
    let mut rows: Vec<MapRow> = Vec::new();
    let mut i: usize = 0;
    assert(rows@.map_values(|x: MapRow| map_row_view(x)) =~= task_map_rows(nodes@.take(0)));
    while i < nodes.len()
        invariant
            i <= nodes@.len(),
            rows@.map_values(|x: MapRow| map_row_view(x)).to_multiset() == task_map_rows(
                nodes@.take(i as int),
            ).to_multiset(),
            map_rows_sorted(rows@.map_values(|x: MapRow| map_row_view(x))),
        decreases nodes@.len() - i,
    {
        assert(nodes@.take(i + 1).drop_last() =~= nodes@.take(i as int));
        assert(nodes@.take(i + 1).last() == nodes@[i as int]);
        let ghost before = task_map_rows(nodes@.take(i as int));
        if let NodeBehavior::TaskNode(task) = &nodes[i].behavior {
            let row = MapRow {
                uid: nodes[i].uid.clone(),
                task: task.name.clone(),
                status: nodes[i].status.display_string(),
                num_tries: task.try_num,
            };
            let ghost rv = map_row_view(row);
            let ghost old_rows = rows@.map_values(|x: MapRow| map_row_view(x));
            let mut pos: usize = 0;
            while pos < rows.len() && uid_before(rows[pos].uid.as_str(), row.uid.as_str())
                invariant
                    pos <= rows@.len(),
                    old_rows == rows@.map_values(|x: MapRow| map_row_view(x)),
                    rv == map_row_view(row),
                    forall|k: int| 0 <= k < pos ==> uid_le((#[trigger] old_rows[k]).0, rv.0),
                decreases rows@.len() - pos,
            {
                pos = pos + 1;
            }
            proof {
                if pos < rows@.len() {
                    lemma_uid_le_total(old_rows[pos as int].0, rv.0);
                }
            }
            rows.insert(pos, row);
            proof {
                let new_rows = rows@.map_values(|x: MapRow| map_row_view(x));
                assert(new_rows =~= old_rows.insert(pos as int, rv));
                assert forall|a: int, b: int| 0 <= a < b < new_rows.len() implies uid_le(
                    (#[trigger] new_rows[a]).0,
                    (#[trigger] new_rows[b]).0,
                ) by {
                    if a < pos && b < pos {
                        assert(uid_le(old_rows[a].0, old_rows[b].0));
                    } else if a < pos && b == pos {
                    } else if a < pos && b > pos {
                        assert(uid_le(old_rows[a].0, old_rows[b - 1].0));
                    } else if a == pos {
                        assert(uid_le(rv.0, old_rows[pos as int].0));
                        if b - 1 > pos {
                            assert(uid_le(old_rows[pos as int].0, old_rows[b - 1].0));
                            lemma_uid_le_trans(rv.0, old_rows[pos as int].0, old_rows[b - 1].0);
                        }
                    } else {
                        assert(uid_le(old_rows[a - 1].0, old_rows[b - 1].0));
                    }
                }
                assert(task_map_rows(nodes@.take(i + 1)) == before.push(rv));
            }
        } else {
            assert(task_map_rows(nodes@.take(i + 1)) == before);
        }
        i = i + 1;
    }
    assert(nodes@.take(nodes@.len() as int) =~= nodes@);
    rows
}

} // verus!
