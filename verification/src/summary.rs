//! Contents of the summary and final recap tables; drawing them is left
//! to the caller.

use crate::context::Ctx;
use crate::nodes::{Node, Task};
use crate::status::{log_priority_spec, status_text, Status};
use crate::workdirs::tasks_of;
use vstd::prelude::*;

verus! {

broadcast use vstd::seq_lib::to_multiset_insert, vstd::seq_lib::to_multiset_build;

/// A line of the summary table. `priority` ranks the status: lines are
/// listed by status rank, then by uid.
pub struct SummaryRow {
    pub uid: usize,
    pub task: String,
    pub pipeline: String,
    pub status: String,
    pub try_num: usize,
    pub priority: u16,
}

/// A summary line as plain values: rank, uid, task, pipeline, status text
/// and number of tries.
pub type RowView = (u16, usize, Seq<char>, Seq<char>, Seq<char>, usize);

/// The plain values of a summary line.
pub open spec fn row_view(r: SummaryRow) -> RowView {
    (r.priority, r.uid, r.task@, r.pipeline@, r.status@, r.try_num)
}

/// The plain values of summary lines.
pub open spec fn rows_view(rows: Seq<SummaryRow>) -> Seq<RowView> {
    rows.map_values(|r: SummaryRow| row_view(r))
}

/// The summary line of a task.
pub open spec fn task_row(t: Task, statuses: Seq<Status>, try_nums: Seq<usize>) -> RowView {
    let s = statuses[t.uid as int];
    (log_priority_spec(s), t.uid, t.name@, t.pipeline_name@, status_text(s), try_nums[t.uid as int])
}

/// The summary lines of the tasks, in task order.
pub open spec fn task_rows(tasks: Seq<Task>, statuses: Seq<Status>, try_nums: Seq<usize>) -> Seq<
    RowView,
> {
    tasks.map_values(|t: Task| task_row(t, statuses, try_nums))
}

/// Line `a` comes no later than line `b`: lower rank, or same rank and a
/// uid no greater.
pub open spec fn row_le(a: RowView, b: RowView) -> bool {
    a.0 < b.0 || (a.0 == b.0 && a.1 <= b.1)
}

/// Lines listed by rank, then uid.
pub open spec fn rows_sorted(s: Seq<RowView>) -> bool {
    forall|i: int, j: int| 0 <= i < j < s.len() ==> row_le(#[trigger] s[i], #[trigger] s[j])
}

/// Every task of the list has a status and a try count.
pub open spec fn tasks_indexed(nodes: Seq<Node>, ctx: Ctx) -> bool {
    forall|i: int|
        0 <= i < nodes.len() ==> (#[trigger] nodes[i] matches Node::Task(t) ==> t.uid
            < ctx.statuses@.len() && t.uid < ctx.try_nums@.len())
}

/// The lines of the summary table: one per task, by status rank, then uid.
pub fn get_summary_rows(nodes: &[Node], ctx: &Ctx) -> (r: Vec<SummaryRow>)
    requires
        tasks_indexed(nodes@, *ctx),
    ensures
        rows_view(r@).to_multiset() == task_rows(
            tasks_of(nodes@),
            ctx.statuses@,
            ctx.try_nums@,
        ).to_multiset(),
        rows_sorted(rows_view(r@)),
{
    let mut rows: Vec<SummaryRow> = Vec::new();
    let mut i: usize = 0;
    assert(rows_view(rows@) =~= task_rows(tasks_of(nodes@.take(0)), ctx.statuses@, ctx.try_nums@));
    while i < nodes.len()
        invariant
            i <= nodes@.len(),
            tasks_indexed(nodes@, *ctx),
            rows_view(rows@).to_multiset() == task_rows(
                tasks_of(nodes@.take(i as int)),
                ctx.statuses@,
                ctx.try_nums@,
            ).to_multiset(),
            rows_sorted(rows_view(rows@)),
        decreases nodes@.len() - i,
    {
        assert(nodes@.take(i + 1).drop_last() =~= nodes@.take(i as int));
        assert(nodes@.take(i + 1).last() == nodes@[i as int]);
        let ghost before = tasks_of(nodes@.take(i as int));
        if let Node::Task(task) = &nodes[i] {
            let status = &ctx.statuses[task.uid];
            let row = SummaryRow {
                uid: task.uid,
                task: task.name.clone(),
                pipeline: task.pipeline_name.clone(),
                status: status.display_string(),
                try_num: ctx.try_nums[task.uid],
                priority: status.log_priority(),
            };
            let ghost rv = row_view(row);
            assert(rv == task_row(*task, ctx.statuses@, ctx.try_nums@));
            let ghost old_rows = rows_view(rows@);
            let mut pos: usize = 0;
            while pos < rows.len() && (rows[pos].priority < row.priority || (rows[pos].priority
                == row.priority && rows[pos].uid <= row.uid))
                invariant
                    pos <= rows@.len(),
                    old_rows == rows_view(rows@),
                    rv == row_view(row),
                    forall|k: int| 0 <= k < pos ==> row_le(#[trigger] old_rows[k], rv),
                decreases rows@.len() - pos,
            {
                pos = pos + 1;
            }
            proof {
                if pos < rows@.len() {
                    assert(!row_le(old_rows[pos as int], rv));
                }
            }
            rows.insert(pos, row);
            proof {
                let new_rows = rows_view(rows@);
                assert(new_rows =~= old_rows.insert(pos as int, rv));
                assert forall|a: int, b: int| 0 <= a < b < new_rows.len() implies row_le(
                    #[trigger] new_rows[a],
                    #[trigger] new_rows[b],
                ) by {
                    if a < pos && b < pos {
                        assert(row_le(old_rows[a], old_rows[b]));
                    } else if a < pos && b == pos {
                    } else if a < pos && b > pos {
                        assert(row_le(old_rows[a], old_rows[b - 1]));
                    } else if a == pos {
                        if pos < old_rows.len() {
                            assert(row_le(old_rows[pos as int], old_rows[b - 1]));
                        }
                    } else {
                        assert(row_le(old_rows[a - 1], old_rows[b - 1]));
                    }
                }
                assert(tasks_of(nodes@.take(i + 1)) == before.push(*task));
                assert(task_rows(before.push(*task), ctx.statuses@, ctx.try_nums@) =~= task_rows(
                    before,
                    ctx.statuses@,
                    ctx.try_nums@,
                ).push(rv));
            }
        } else {
            assert(tasks_of(nodes@.take(i + 1)) == before);
        }
        i = i + 1;
    }
    assert(nodes@.take(nodes@.len() as int) =~= nodes@);
    rows
}

/// Number of tasks ended in each kind of status.
#[derive(Clone, Copy, Debug, PartialEq, Eq)]
pub struct Recap {
    pub completed: usize,
    pub skipped: usize,
    pub failed: usize,
    pub pending: usize,
    pub running: usize,
    pub not_submitted: usize,
}

/// Statuses of the tasks, in task order.
pub open spec fn task_statuses(tasks: Seq<Task>, statuses: Seq<Status>) -> Seq<Status> {
    tasks.map_values(|t: Task| statuses[t.uid as int])
}

/// Number of statuses of a kind.
pub open spec fn count_kind(s: Seq<Status>, kind: spec_fn(Status) -> bool) -> nat {
    s.filter(kind).len()
}

/// Completed.
pub open spec fn is_completed(s: Status) -> bool {
    s is Completed
}

/// Skipped.
pub open spec fn is_skipped(s: Status) -> bool {
    s is Skipped
}

/// Failed.
pub open spec fn is_failed(s: Status) -> bool {
    s is Failed
}

/// Pending.
pub open spec fn is_pending(s: Status) -> bool {
    s is Pending
}

/// Running.
pub open spec fn is_running_status(s: Status) -> bool {
    s is Running
}

/// Not submitted, or ready for submission.
pub open spec fn is_not_submitted(s: Status) -> bool {
    s is NotSubmitted || s is ReadyForSubmission
}

/// The counts of the statuses of a list.
pub open spec fn recap_of(s: Seq<Status>) -> Recap {
    Recap {
        completed: count_kind(s, |x: Status| is_completed(x)) as usize,
        skipped: count_kind(s, |x: Status| is_skipped(x)) as usize,
        failed: count_kind(s, |x: Status| is_failed(x)) as usize,
        pending: count_kind(s, |x: Status| is_pending(x)) as usize,
        running: count_kind(s, |x: Status| is_running_status(x)) as usize,
        not_submitted: count_kind(s, |x: Status| is_not_submitted(x)) as usize,
    }
}

proof fn lemma_count_push(s: Seq<Status>, x: Status, kind: spec_fn(Status) -> bool)
    ensures
        count_kind(s.push(x), kind) == count_kind(s, kind) + if kind(x) {
            1nat
        } else {
            0nat
        },
        count_kind(s, kind) <= s.len(),
{
    reveal(Seq::filter);
    assert(s.push(x).drop_last() =~= s);
    s.lemma_filter_len(kind);
}

/// Final recap: the number of tasks in each kind of status.
pub fn get_final_recap(nodes: &[Node], ctx: &Ctx) -> (r: Recap)
    requires
        tasks_indexed(nodes@, *ctx),
    ensures
        r == recap_of(task_statuses(tasks_of(nodes@), ctx.statuses@)),
{
    let mut r = Recap { completed: 0, skipped: 0, failed: 0, pending: 0, running: 0, not_submitted: 0 };
    let mut i: usize = 0;
    proof {
        reveal(Seq::filter);
        assert(task_statuses(tasks_of(nodes@.take(0)), ctx.statuses@) =~= Seq::<Status>::empty());
    }
    while i < nodes.len()
        invariant
            i <= nodes@.len(),
            tasks_indexed(nodes@, *ctx),
            r == recap_of(task_statuses(tasks_of(nodes@.take(i as int)), ctx.statuses@)),
            task_statuses(tasks_of(nodes@.take(i as int)), ctx.statuses@).len() <= i,
        decreases nodes@.len() - i,
    {
        assert(nodes@.take(i + 1).drop_last() =~= nodes@.take(i as int));
        assert(nodes@.take(i + 1).last() == nodes@[i as int]);
        let ghost s = task_statuses(tasks_of(nodes@.take(i as int)), ctx.statuses@);
        if let Node::Task(task) = &nodes[i] {
            let status = &ctx.statuses[task.uid];
            proof {
                assert(task_statuses(tasks_of(nodes@.take(i + 1)), ctx.statuses@) =~= s.push(
                    *status,
                ));
                lemma_count_push(s, *status, |x: Status| is_completed(x));
                lemma_count_push(s, *status, |x: Status| is_skipped(x));
                lemma_count_push(s, *status, |x: Status| is_failed(x));
                lemma_count_push(s, *status, |x: Status| is_pending(x));
                lemma_count_push(s, *status, |x: Status| is_running_status(x));
                lemma_count_push(s, *status, |x: Status| is_not_submitted(x));
            }
            match status {
                Status::Completed(_) => r.completed = r.completed + 1,
                Status::Skipped => r.skipped = r.skipped + 1,
                Status::Failed(_) => r.failed = r.failed + 1,
                Status::Pending(_) => r.pending = r.pending + 1,
                Status::Running(_) => r.running = r.running + 1,
                Status::NotSubmitted | Status::ReadyForSubmission => {
                    r.not_submitted = r.not_submitted + 1
                },
            }
        } else {
            assert(task_statuses(tasks_of(nodes@.take(i + 1)), ctx.statuses@) == s);
        }
        i = i + 1;
    }
    assert(nodes@.take(nodes@.len() as int) =~= nodes@);
    r
}

} // verus!
