//! Node statuses and the predicates that decide on them.

use crate::schemas::Parent;
use crate::text::{concat_str, decimal, decimal_string};
use vstd::prelude::*;

verus! {

/// Where a job runs: a Slurm job id, or the pid of a local process.
#[derive(Clone, Debug, PartialEq)]
pub enum JobType {
    Slurm(String),
    Local(u32),
}

/// Ways a node completes.
#[derive(Clone, Debug, PartialEq)]
pub enum Completed {
    Cached,
    Branch(bool),
    Generic,
    OneOf(usize),
    Job(JobType),
}

/// Ways a node fails.
#[derive(Clone, Debug, PartialEq)]
pub enum Failed {
    Job(JobType),
    Generic,
    FailedToContact(JobType),
}

/// Node status.
#[derive(Clone, Debug, PartialEq)]
pub enum Status {
    /// Node not submitted yet.
    NotSubmitted,
    /// Node ready for submission.
    ReadyForSubmission,
    /// Job submitted and waiting to start.
    Pending(JobType),
    /// Job running.
    Running(JobType),
    /// Node completed.
    Completed(Completed),
    /// Node skipped (e.g., because of a branch).
    Skipped,
    /// Node execution failed.
    Failed(Failed),
}

/// Completed, failed or skipped: a node in such a status never runs again.
pub open spec fn is_final_spec(s: Status) -> bool {
    s is Completed || s is Failed || s is Skipped
}

/// Pending or running.
pub open spec fn is_running_spec(s: Status) -> bool {
    s is Pending || s is Running
}

/// Order in which statuses are listed in the summary.
pub open spec fn log_priority_spec(s: Status) -> u16 {
    match s {
        Status::NotSubmitted => 0,
        Status::ReadyForSubmission => 1,
        Status::Skipped => 2,
        Status::Completed(_) => 3,
        Status::Failed(_) => 4,
        Status::Pending(_) => 5,
        Status::Running(_) => 6,
    }
}

impl JobType {
    /// A copy that verified code can rely on.
    pub fn copied(&self) -> (r: Self)
        ensures
            r == *self,
    {
        match self {
            JobType::Slurm(id) => JobType::Slurm(id.clone()),
            JobType::Local(pid) => JobType::Local(*pid),
        }
    }
}

impl Completed {
    /// A copy that verified code can rely on.
    pub fn copied(&self) -> (r: Self)
        ensures
            r == *self,
    {
        match self {
            Completed::Cached => Completed::Cached,
            Completed::Branch(b) => Completed::Branch(*b),
            Completed::Generic => Completed::Generic,
            Completed::OneOf(u) => Completed::OneOf(*u),
            Completed::Job(j) => Completed::Job(j.copied()),
        }
    }
}

impl Failed {
    /// A copy that verified code can rely on.
    pub fn copied(&self) -> (r: Self)
        ensures
            r == *self,
    {
        match self {
            Failed::Job(j) => Failed::Job(j.copied()),
            Failed::Generic => Failed::Generic,
            Failed::FailedToContact(j) => Failed::FailedToContact(j.copied()),
        }
    }
}

impl Status {
    /// A copy that verified code can rely on.
    pub fn copied(&self) -> (r: Self)
        ensures
            r == *self,
    {
        match self {
            Status::NotSubmitted => Status::NotSubmitted,
            Status::ReadyForSubmission => Status::ReadyForSubmission,
            Status::Pending(j) => Status::Pending(j.copied()),
            Status::Running(j) => Status::Running(j.copied()),
            Status::Completed(c) => Status::Completed(c.copied()),
            Status::Skipped => Status::Skipped,
            Status::Failed(f) => Status::Failed(f.copied()),
        }
    }

    /// Completed, failed or skipped.
    pub fn is_final(&self) -> (r: bool)
        ensures
            r == is_final_spec(*self),
    {
        matches!(self, Status::Completed(_) | Status::Failed(_) | Status::Skipped)
    }

    /// Pending or running.
    pub fn is_running(&self) -> (r: bool)
        ensures
            r == is_running_spec(*self),
    {
        matches!(self, Status::Pending(_) | Status::Running(_))
    }

    /// Rank of the status in the summary table.
    pub fn log_priority(&self) -> (r: u16)
        ensures
            r == log_priority_spec(*self),
    {
        match self {
            Status::NotSubmitted => 0,
            Status::ReadyForSubmission => 1,
            Status::Skipped => 2,
            Status::Completed(_) => 3,
            Status::Failed(_) => 4,
            Status::Pending(_) => 5,
            Status::Running(_) => 6,
        }
    }
}

/// Text of a job reference, as shown in the summary.
pub open spec fn job_type_text(j: JobType) -> Seq<char> {
    match j {
        JobType::Slurm(id) => "job_id="@ + id@,
        JobType::Local(pid) => "pid="@ + decimal(pid as nat),
    }
}

/// Text of a completion.
pub open spec fn completed_text(c: Completed) -> Seq<char> {
    match c {
        Completed::Generic => "Completed"@,
        Completed::Branch(b) => "Completed ("@ + (if b {
            "true"@
        } else {
            "false"@
        }) + ")"@,
        Completed::OneOf(uid) => "Completed ("@ + decimal(uid as nat) + ")"@,
        Completed::Job(j) => "Completed ("@ + job_type_text(j) + ")"@,
        Completed::Cached => "Completed (cached)"@,
    }
}

/// Text of a failure.
pub open spec fn failed_text(f: Failed) -> Seq<char> {
    match f {
        Failed::Generic => "Failed"@,
        Failed::Job(j) => "Failed ("@ + job_type_text(j) + ")"@,
        Failed::FailedToContact(j) => "Failed to contact ("@ + job_type_text(j) + ")"@,
    }
}

/// Text of a status.
pub open spec fn status_text(s: Status) -> Seq<char> {
    match s {
        Status::NotSubmitted => "Not Submitted"@,
        Status::ReadyForSubmission => "Ready for Submission"@,
        Status::Pending(j) => "Pending ("@ + job_type_text(j) + ")"@,
        Status::Running(j) => "Running ("@ + job_type_text(j) + ")"@,
        Status::Completed(c) => completed_text(c),
        Status::Skipped => "Skipped"@,
        Status::Failed(f) => failed_text(f),
    }
}

/// `prefix`, `inner` and `")"` in one string.
fn wrapped(prefix: &str, inner: &str) -> (s: String)
    ensures
        s@ == prefix@ + inner@ + ")"@,
{
    let mut s = concat_str(prefix, inner);
    s.append(")");
    s
}

impl JobType {
    /// Text shown for the job.
    pub fn display_string(&self) -> (s: String)
        ensures
            s@ == job_type_text(*self),
    {
        match self {
            JobType::Slurm(id) => concat_str("job_id=", id.as_str()),
            JobType::Local(pid) => {
                let d = decimal_string(*pid as u64);
                concat_str("pid=", d.as_str())
            },
        }
    }
}

impl Completed {
    /// Text shown for the completion.
    pub fn display_string(&self) -> (s: String)
        ensures
            s@ == completed_text(*self),
    {
        match self {
            Completed::Generic => String::from_str("Completed"),
            Completed::Branch(b) => {
                if *b {
                    wrapped("Completed (", "true")
                } else {
                    wrapped("Completed (", "false")
                }
            },
            Completed::OneOf(uid) => {
                let d = decimal_string(*uid as u64);
                wrapped("Completed (", d.as_str())
            },
            Completed::Job(j) => {
                let t = j.display_string();
                wrapped("Completed (", t.as_str())
            },
            Completed::Cached => String::from_str("Completed (cached)"),
        }
    }
}

impl Failed {
    /// Text shown for the failure.
    pub fn display_string(&self) -> (s: String)
        ensures
            s@ == failed_text(*self),
    {
        match self {
            Failed::Generic => String::from_str("Failed"),
            Failed::Job(j) => {
                let t = j.display_string();
                wrapped("Failed (", t.as_str())
            },
            Failed::FailedToContact(j) => {
                let t = j.display_string();
                wrapped("Failed to contact (", t.as_str())
            },
        }
    }
}

impl Status {
    /// Text shown for the status in tables and logs.
    pub fn display_string(&self) -> (s: String)
        ensures
            s@ == status_text(*self),
    {
        match self {
            Status::NotSubmitted => String::from_str("Not Submitted"),
            Status::ReadyForSubmission => String::from_str("Ready for Submission"),
            Status::Pending(j) => {
                let t = j.display_string();
                wrapped("Pending (", t.as_str())
            },
            Status::Running(j) => {
                let t = j.display_string();
                wrapped("Running (", t.as_str())
            },
            Status::Completed(c) => c.display_string(),
            Status::Skipped => String::from_str("Skipped"),
            Status::Failed(f) => f.display_string(),
        }
    }
}

/// Every status of the sequence is a completion.
pub open spec fn all_completed_spec(s: Seq<Status>) -> bool {
    forall|i: int| 0 <= i < s.len() ==> (#[trigger] s[i]) is Completed
}

/// Some status of the sequence is a failure or a skip.
pub open spec fn some_failed_or_skipped_spec(s: Seq<Status>) -> bool {
    exists|i: int| 0 <= i < s.len() && ((#[trigger] s[i]) is Failed || s[i] is Skipped)
}

/// Every status of the sequence is a failure or a skip.
pub open spec fn all_failed_or_skipped_spec(s: Seq<Status>) -> bool {
    forall|i: int| 0 <= i < s.len() ==> ((#[trigger] s[i]) is Failed || s[i] is Skipped)
}

/// Every status of the sequence is final.
pub open spec fn all_final_spec(s: Seq<Status>) -> bool {
    forall|i: int| 0 <= i < s.len() ==> is_final_spec(#[trigger] s[i])
}

/// The statuses behind a slice of references.
pub open spec fn deref_seq(s: Seq<&Status>) -> Seq<Status> {
    Seq::new(s.len(), |i: int| *s[i])
}

/// Verify that all parents have completed successfully.
pub fn all_parents_completed(parent_statuses: &[&Status]) -> (r: bool)
    ensures
        r == all_completed_spec(deref_seq(parent_statuses@)),
{
    let mut i: usize = 0;
    while i < parent_statuses.len()
        invariant
            0 <= i <= parent_statuses@.len(),
            forall|j: int| 0 <= j < i ==> (*parent_statuses@[j]) is Completed,
        decreases parent_statuses@.len() - i,
    {
        if !matches!(parent_statuses[i], Status::Completed(_)) {
            assert(!(deref_seq(parent_statuses@)[i as int] is Completed));
            return false;
        }
        i = i + 1;
    }
    true
}

/// Check whether some parent failed or was skipped.
pub fn some_parents_failed_or_skipped(parent_statuses: &[&Status]) -> (r: bool)
    ensures
        r == some_failed_or_skipped_spec(deref_seq(parent_statuses@)),
{
    let mut i: usize = 0;
    while i < parent_statuses.len()
        invariant
            0 <= i <= parent_statuses@.len(),
            forall|j: int|
                0 <= j < i ==> !((*parent_statuses@[j]) is Failed || (*parent_statuses@[j]) is Skipped),
        decreases parent_statuses@.len() - i,
    {
        if matches!(parent_statuses[i], Status::Skipped | Status::Failed(_)) {
            assert(deref_seq(parent_statuses@)[i as int] == *parent_statuses@[i as int]);
            return true;
        }
        i = i + 1;
    }
    assert forall|j: int| 0 <= j < parent_statuses@.len() implies !((#[trigger] deref_seq(
        parent_statuses@,
    )[j]) is Failed || deref_seq(parent_statuses@)[j] is Skipped) by {}
    false
}

/// Check whether every parent has failed or has been skipped.
pub fn all_parents_failed_or_skipped(parent_statuses: &[&Status]) -> (r: bool)
    ensures
        r == all_failed_or_skipped_spec(deref_seq(parent_statuses@)),
{
    let mut i: usize = 0;
    while i < parent_statuses.len()
        invariant
            0 <= i <= parent_statuses@.len(),
            forall|j: int|
                0 <= j < i ==> ((*parent_statuses@[j]) is Failed || (*parent_statuses@[j]) is Skipped),
        decreases parent_statuses@.len() - i,
    {
        if !matches!(parent_statuses[i], Status::Skipped | Status::Failed(_)) {
            assert(deref_seq(parent_statuses@)[i as int] == *parent_statuses@[i as int]);
            return false;
        }
        i = i + 1;
    }
    true
}

/// Index of the first parent (in the order given) whose status is a completion.
pub open spec fn first_completed_parent(parents: Seq<Parent>, statuses: Seq<Status>) -> Option<usize>
    decreases parents.len(),
{
    if parents.len() == 0 {
        None
    } else if statuses[parents[0].uid as int] is Completed {
        Some(parents[0].uid)
    } else {
        first_completed_parent(parents.drop_first(), statuses)
    }
}

/// Every parent uid indexes the status list.
pub open spec fn parents_in_range(parents: Seq<Parent>, n: nat) -> bool {
    forall|i: int| 0 <= i < parents.len() ==> (#[trigger] parents[i]).uid < n
}

/// The uid of the first parent that completed, if any.
pub fn find_completed_parent(parents: &[Parent], statuses: &[&Status]) -> (r: Option<usize>)
    requires
        parents_in_range(parents@, statuses@.len()),
    ensures
        r == first_completed_parent(parents@, deref_seq(statuses@)),
{
    let mut i: usize = 0;
    assert(parents@.skip(0) =~= parents@);
    while i < parents.len()
        invariant
            0 <= i <= parents@.len(),
            parents_in_range(parents@, statuses@.len()),
            first_completed_parent(parents@, deref_seq(statuses@)) == first_completed_parent(
                parents@.skip(i as int),
                deref_seq(statuses@),
            ),
        decreases parents@.len() - i,
    {
        let uid = parents[i].uid;
        assert(parents@[i as int].uid < statuses@.len());
        assert(parents@.skip(i as int)[0] == parents@[i as int]);
        assert(parents@.skip(i as int).drop_first() =~= parents@.skip(i + 1));
        if matches!(statuses[uid], Status::Completed(_)) {
            return Some(uid);
        }
        i = i + 1;
    }
    assert(parents@.skip(i as int).len() == 0);
    None
}

} // verus!

verus! {

/// The uid of the first parent that completed, looking the statuses up in
/// the full status list.
pub fn find_completed_parent_in(parents: &[Parent], statuses: &[Status]) -> (r: Option<usize>)
    requires
        parents_in_range(parents@, statuses@.len()),
    ensures
        r == first_completed_parent(parents@, statuses@),
{
    let mut i: usize = 0;
    assert(parents@.skip(0) =~= parents@);
    while i < parents.len()
        invariant
            0 <= i <= parents@.len(),
            parents_in_range(parents@, statuses@.len()),
            first_completed_parent(parents@, statuses@) == first_completed_parent(
                parents@.skip(i as int),
                statuses@,
            ),
        decreases parents@.len() - i,
    {
        let uid = parents[i].uid;
        assert(parents@[i as int].uid < statuses@.len());
        assert(parents@.skip(i as int)[0] == parents@[i as int]);
        assert(parents@.skip(i as int).drop_first() =~= parents@.skip(i + 1));
        if matches!(statuses[uid], Status::Completed(_)) {
            return Some(uid);
        }
        i = i + 1;
    }
    None
}

/// Whether every node reached a final status: the run is over.
pub fn is_simulation_completed(statuses: &[Status]) -> (r: bool)
    ensures
        r == all_final_spec(statuses@),
{
    let mut i: usize = 0;
    while i < statuses.len()
        invariant
            i <= statuses@.len(),
            forall|k: int| 0 <= k < i ==> is_final_spec(#[trigger] statuses@[k]),
        decreases statuses@.len() - i,
    {
        if !statuses[i].is_final() {
            return false;
        }
        i = i + 1;
    }
    true
}

/// Whether some node failed.
pub fn any_node_failed(statuses: &[Status]) -> (r: bool)
    ensures
        r == exists|k: int| 0 <= k < statuses@.len() && (#[trigger] statuses@[k]) is Failed,
{
    let mut i: usize = 0;
    while i < statuses.len()
        invariant
            i <= statuses@.len(),
            forall|k: int| 0 <= k < i ==> !((#[trigger] statuses@[k]) is Failed),
        decreases statuses@.len() - i,
    {
        if let Status::Failed(_) = &statuses[i] {
            return true;
        }
        i = i + 1;
    }
    false
}

/// Failed and skipped nodes are back to not submitted, with no try used;
/// the others are kept.
pub open spec fn reset_spec(statuses: Seq<Status>, try_nums: Seq<usize>, k: int) -> (Status, usize) {
    if statuses[k] is Failed || statuses[k] is Skipped {
        (Status::NotSubmitted, 0)
    } else {
        (statuses[k], try_nums[k])
    }
}

/// Give failed and skipped nodes a new chance, for a run restarted with
/// retries (see `reset_spec`).
pub fn reset_failed_or_skipped_status(statuses: &mut Vec<Status>, try_nums: &mut Vec<usize>)
    requires
        old(statuses)@.len() == old(try_nums)@.len(),
    ensures
        final(statuses)@.len() == old(statuses)@.len(),
        final(try_nums)@.len() == old(try_nums)@.len(),
        forall|k: int|
            0 <= k < old(statuses)@.len() ==> (#[trigger] final(statuses)@[k], final(try_nums)@[k])
                == reset_spec(old(statuses)@, old(try_nums)@, k),
{
    let mut i: usize = 0;
    while i < statuses.len()
        invariant
            i <= statuses@.len(),
            old(statuses)@.len() == old(try_nums)@.len(),
            statuses@.len() == old(statuses)@.len(),
            try_nums@.len() == old(try_nums)@.len(),
            forall|k: int|
                0 <= k < i ==> (#[trigger] statuses@[k], try_nums@[k]) == reset_spec(
                    old(statuses)@,
                    old(try_nums)@,
                    k,
                ),
            forall|k: int| i <= k < statuses@.len() ==> #[trigger] statuses@[k] == old(statuses)@[k],
            forall|k: int| i <= k < try_nums@.len() ==> #[trigger] try_nums@[k] == old(try_nums)@[k],
        decreases statuses@.len() - i,
    {
        let reset = match &statuses[i] {
            Status::Failed(_) | Status::Skipped => true,
            _ => false,
        };
        if reset {
            statuses.set(i, Status::NotSubmitted);
            try_nums.set(i, 0);
        }
        i = i + 1;
    }
}

} // verus!
