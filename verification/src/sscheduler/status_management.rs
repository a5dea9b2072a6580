//! Status of a node from the statuses of its parents.

use crate::sscheduler::model::{status_for_child, JobStatus, Node, NodeBehavior, Parent};
use crate::text::str_eq;
use vstd::prelude::*;

verus! {

/// Completed.
pub open spec fn completed(s: JobStatus) -> bool {
    s is Completed
}

/// Failed.
pub open spec fn failed(s: JobStatus) -> bool {
    s is Failed
}

/// Skipped.
pub open spec fn skipped(s: JobStatus) -> bool {
    s is Skipped
}

/// Status of most nodes: ready once every parent completed; failed when a
/// parent failed, or when every parent completed or was skipped and some of
/// each; skipped when some parent was skipped otherwise; not submitted yet
/// otherwise.
pub open spec fn default_status(s: Seq<JobStatus>) -> JobStatus {
    if forall|i: int| 0 <= i < s.len() ==> completed(#[trigger] s[i]) {
        JobStatus::ReadyForSubmission
    } else if exists|i: int| 0 <= i < s.len() && failed(#[trigger] s[i]) {
        JobStatus::Failed(crate::sscheduler::model::NodeFailure::Node)
    } else if (forall|i: int| 0 <= i < s.len() ==> (completed(#[trigger] s[i]) || skipped(s[i])))
        && (exists|i: int| 0 <= i < s.len() && completed(#[trigger] s[i]))
        && (exists|i: int| 0 <= i < s.len() && skipped(#[trigger] s[i])) {
        JobStatus::Failed(crate::sscheduler::model::NodeFailure::Node)
    } else if exists|i: int| 0 <= i < s.len() && skipped(#[trigger] s[i]) {
        JobStatus::Skipped
    } else {
        JobStatus::NotSubmitted
    }
}

/// Status of a one-of node: ready once a parent completed; skipped when
/// every parent was skipped; failed when every parent failed or was
/// skipped; not submitted yet otherwise.
pub open spec fn oneof_status(s: Seq<JobStatus>) -> JobStatus {
    if exists|i: int| 0 <= i < s.len() && completed(#[trigger] s[i]) {
        JobStatus::ReadyForSubmission
    } else if forall|i: int| 0 <= i < s.len() ==> skipped(#[trigger] s[i]) {
        JobStatus::Skipped
    } else if forall|i: int| 0 <= i < s.len() ==> (failed(#[trigger] s[i]) || skipped(s[i])) {
        JobStatus::Failed(crate::sscheduler::model::NodeFailure::Node)
    } else {
        JobStatus::NotSubmitted
    }
}

/// The statuses the parents of a node show it.
pub struct StatusSelector {
    pub parent_statuses: Vec<JobStatus>,
}

/// The last node of the list with uid `uid`.
pub open spec fn node_by_uid(nodes: Seq<Node>, uid: Seq<char>) -> Option<Node>
    decreases nodes.len(),
{
    if nodes.len() == 0 {
        None
    } else if nodes.last().uid@ == uid {
        Some(nodes.last())
    } else {
        node_by_uid(nodes.drop_last(), uid)
    }
}

/// The last status recorded for `uid`.
pub open spec fn updated_status(updated: Seq<(String, JobStatus)>, uid: Seq<char>) -> Option<JobStatus>
    decreases updated.len(),
{
    if updated.len() == 0 {
        None
    } else if updated.last().0@ == uid {
        Some(updated.last().1)
    } else {
        updated_status(updated.drop_last(), uid)
    }
}

/// Every parent names a node of the list.
pub open spec fn parents_known(parents: Seq<Parent>, nodes: Seq<Node>) -> bool {
    forall|k: int| 0 <= k < parents.len() ==> (#[trigger] node_by_uid(nodes, parents[k].uid@)) is Some
}

/// The status parent `p` shows: the one recorded for it in this round if
/// any, otherwise the one it shows its child.
pub open spec fn parent_status(p: Parent, nodes: Seq<Node>, updated: Seq<(String, JobStatus)>) -> JobStatus {
    match updated_status(updated, p.uid@) {
        Some(s) => s,
        None => status_for_child(node_by_uid(nodes, p.uid@).unwrap(), p.parent_type),
    }
}

/// The position of the last node with uid `uid`.
pub fn find_node(nodes: &[Node], uid: &str) -> (r: Option<usize>)
    ensures
        match r {
            Some(i) => i < nodes@.len() && node_by_uid(nodes@, uid@) == Some(nodes@[i as int])
                && nodes@[i as int].uid@ == uid@ && forall|j: int|
                i < j < nodes@.len() ==> (#[trigger] nodes@[j]).uid@ != uid@,
            None => node_by_uid(nodes@, uid@) is None && forall|j: int|
                0 <= j < nodes@.len() ==> (#[trigger] nodes@[j]).uid@ != uid@,
        },
{
    let mut i: usize = nodes.len();
    assert(nodes@.take(i as int) =~= nodes@);
    while i > 0
        invariant
            i <= nodes@.len(),
            node_by_uid(nodes@, uid@) == node_by_uid(nodes@.take(i as int), uid@),
            forall|j: int| i <= j < nodes@.len() ==> (#[trigger] nodes@[j]).uid@ != uid@,
        decreases i,
    {
        assert(nodes@.take(i as int).drop_last() =~= nodes@.take(i - 1));
        assert(nodes@.take(i as int).last() == nodes@[i - 1]);
        if str_eq(nodes[i - 1].uid.as_str(), uid) {
            return Some(i - 1);
        }
        i = i - 1;
    }
    None
}

/// The position of the last status recorded for `uid`.
pub fn find_updated(updated: &[(String, JobStatus)], uid: &str) -> (r: Option<usize>)
    ensures
        match r {
            Some(i) => i < updated@.len() && updated_status(updated@, uid@) == Some(
                updated@[i as int].1,
            ),
            None => updated_status(updated@, uid@) is None,
        },
{
    let mut i: usize = updated.len();
    assert(updated@.take(i as int) =~= updated@);
    while i > 0
        invariant
            i <= updated@.len(),
            updated_status(updated@, uid@) == updated_status(updated@.take(i as int), uid@),
        decreases i,
    {
        assert(updated@.take(i as int).drop_last() =~= updated@.take(i - 1));
        assert(updated@.take(i as int).last() == updated@[i - 1]);
        if str_eq(updated[i - 1].0.as_str(), uid) {
            return Some(i - 1);
        }
        i = i - 1;
    }
    None
}

impl StatusSelector {
    /// The statuses of the parents of `node`, as they show them (see
    /// `parent_status`), in parent order.
    pub fn new(node: &Node, nodes: &[Node], updated_statuses: &[(String, JobStatus)]) -> (r: Self)
        requires
            parents_known(node.parents@, nodes@),
        ensures
            r.parent_statuses@ == node.parents@.map_values(
                |p: Parent| parent_status(p, nodes@, updated_statuses@),
            ),
    {
        let mut statuses: Vec<JobStatus> = Vec::new();
        let mut k: usize = 0;
        while k < node.parents.len()
            invariant
                k <= node.parents@.len(),
                parents_known(node.parents@, nodes@),
                statuses@ == node.parents@.take(k as int).map_values(
                    |p: Parent| parent_status(p, nodes@, updated_statuses@),
                ),
            decreases node.parents@.len() - k,
        {
            let p = &node.parents[k];
            let s = match find_updated(updated_statuses, p.uid.as_str()) {
                Some(j) => updated_statuses[j].1.copied(),
                None => {
                    assert(node_by_uid(nodes@, node.parents@[k as int].uid@) is Some);
                    match find_node(nodes, p.uid.as_str()) {
                        Some(i) => nodes[i].get_status_for_child(&p.parent_type),
                        None => {
                            return StatusSelector { parent_statuses: statuses };
                        },
                    }
                },
            };
            statuses.push(s);
            assert(statuses@ =~= node.parents@.take(k + 1).map_values(
                |p: Parent| parent_status(p, nodes@, updated_statuses@),
            ));
            k = k + 1;
        }
        assert(node.parents@.take(node.parents@.len() as int) =~= node.parents@);
        StatusSelector { parent_statuses: statuses }
    }

    /// Status of a node, by its kind: the one-of rule for one-of nodes,
    /// the default rule otherwise.
    pub fn get_updated_status(&self, node_behavior: &NodeBehavior) -> (r: JobStatus)
        ensures
            r == if node_behavior is OneOfNode {
                oneof_status(self.parent_statuses@)
            } else {
                default_status(self.parent_statuses@)
            },
    {
        match node_behavior {
            NodeBehavior::OneOfNode => self.get_oneof_status(),
            _ => self.get_default_status(),
        }
    }

    /// Status of most nodes (see `default_status`).
    pub fn get_default_status(&self) -> (r: JobStatus)
        ensures
            r == default_status(self.parent_statuses@),
    {
        if self.all_parents_completed() {
            JobStatus::ReadyForSubmission
        } else if self.some_parents_failed() {
            JobStatus::Failed(crate::sscheduler::model::NodeFailure::Node)
        } else if self.all_parents_completed_or_skipped() && self.some_parents_completed()
            && self.some_parents_skipped() {
            JobStatus::Failed(crate::sscheduler::model::NodeFailure::Node)
        } else if self.some_parents_skipped() {
            JobStatus::Skipped
        } else {
            JobStatus::NotSubmitted
        }
    }

    /// Status of a one-of node (see `oneof_status`): failed or skipped
    /// parents do not make it fail or skip while another may complete.
    pub fn get_oneof_status(&self) -> (r: JobStatus)
        ensures
            r == oneof_status(self.parent_statuses@),
    {
        if self.some_parents_completed() {
            JobStatus::ReadyForSubmission
        } else if self.all_parents_skipped() {
            JobStatus::Skipped
        } else if self.all_parents_failed_or_skipped() {
            JobStatus::Failed(crate::sscheduler::model::NodeFailure::Node)
        } else {
            JobStatus::NotSubmitted
        }
    }

    /// Whether every parent completed.
    pub fn all_parents_completed(&self) -> (r: bool)
        ensures
            r == forall|i: int|
                0 <= i < self.parent_statuses@.len() ==> completed(#[trigger] self.parent_statuses@[i]),
    {
        let mut i: usize = 0;
        while i < self.parent_statuses.len()
            invariant
                i <= self.parent_statuses@.len(),
                forall|j: int| 0 <= j < i ==> completed(#[trigger] self.parent_statuses@[j]),
            decreases self.parent_statuses@.len() - i,
        {
            if !matches!(self.parent_statuses[i], JobStatus::Completed(_)) {
                assert(!completed(self.parent_statuses@[i as int]));
                return false;
            }
            i = i + 1;
        }
        true
    }

    /// Whether some parent completed.
    pub fn some_parents_completed(&self) -> (r: bool)
        ensures
            r == exists|i: int|
                0 <= i < self.parent_statuses@.len() && completed(#[trigger] self.parent_statuses@[i]),
    {
        let mut i: usize = 0;
        while i < self.parent_statuses.len()
            invariant
                i <= self.parent_statuses@.len(),
                forall|j: int| 0 <= j < i ==> !completed(#[trigger] self.parent_statuses@[j]),
            decreases self.parent_statuses@.len() - i,
        {
            if matches!(self.parent_statuses[i], JobStatus::Completed(_)) {
                assert(completed(self.parent_statuses@[i as int]));
                return true;
            }
            i = i + 1;
        }
        false
    }

    /// Whether some parent failed.
    pub fn some_parents_failed(&self) -> (r: bool)
        ensures
            r == exists|i: int|
                0 <= i < self.parent_statuses@.len() && failed(#[trigger] self.parent_statuses@[i]),
    {
        let mut i: usize = 0;
        while i < self.parent_statuses.len()
            invariant
                i <= self.parent_statuses@.len(),
                forall|j: int| 0 <= j < i ==> !failed(#[trigger] self.parent_statuses@[j]),
            decreases self.parent_statuses@.len() - i,
        {
            if matches!(self.parent_statuses[i], JobStatus::Failed(_)) {
                assert(failed(self.parent_statuses@[i as int]));
                return true;
            }
            i = i + 1;
        }
        false
    }

    /// Whether every parent was skipped.
    pub fn all_parents_skipped(&self) -> (r: bool)
        ensures
            r == forall|i: int|
                0 <= i < self.parent_statuses@.len() ==> skipped(#[trigger] self.parent_statuses@[i]),
    {
        let mut i: usize = 0;
        while i < self.parent_statuses.len()
            invariant
                i <= self.parent_statuses@.len(),
                forall|j: int| 0 <= j < i ==> skipped(#[trigger] self.parent_statuses@[j]),
            decreases self.parent_statuses@.len() - i,
        {
            if !matches!(self.parent_statuses[i], JobStatus::Skipped) {
                assert(!skipped(self.parent_statuses@[i as int]));
                return false;
            }
            i = i + 1;
        }
        true
    }

    /// Whether some parent was skipped.
    pub fn some_parents_skipped(&self) -> (r: bool)
        ensures
            r == exists|i: int|
                0 <= i < self.parent_statuses@.len() && skipped(#[trigger] self.parent_statuses@[i]),
    {
        let mut i: usize = 0;
        while i < self.parent_statuses.len()
            invariant
                i <= self.parent_statuses@.len(),
                forall|j: int| 0 <= j < i ==> !skipped(#[trigger] self.parent_statuses@[j]),
            decreases self.parent_statuses@.len() - i,
        {
            if matches!(self.parent_statuses[i], JobStatus::Skipped) {
                assert(skipped(self.parent_statuses@[i as int]));
                return true;
            }
            i = i + 1;
        }
        false
    }

    /// Whether every parent completed or was skipped.
    pub fn all_parents_completed_or_skipped(&self) -> (r: bool)
        ensures
            r == forall|i: int|
                0 <= i < self.parent_statuses@.len() ==> (completed(#[trigger] self.parent_statuses@[i])
                    || skipped(self.parent_statuses@[i])),
    {
        let mut i: usize = 0;
        while i < self.parent_statuses.len()
            invariant
                i <= self.parent_statuses@.len(),
                forall|j: int|
                    0 <= j < i ==> (completed(#[trigger] self.parent_statuses@[j]) || skipped(
                        self.parent_statuses@[j],
                    )),
            decreases self.parent_statuses@.len() - i,
        {
            let s = &self.parent_statuses[i];
            if !(matches!(s, JobStatus::Completed(_)) || matches!(s, JobStatus::Skipped)) {
                assert(!(completed(self.parent_statuses@[i as int]) || skipped(
                    self.parent_statuses@[i as int],
                )));
                return false;
            }
            i = i + 1;
        }
        true
    }

    /// Whether every parent failed or was skipped.
    pub fn all_parents_failed_or_skipped(&self) -> (r: bool)
        ensures
            r == forall|i: int|
                0 <= i < self.parent_statuses@.len() ==> (failed(#[trigger] self.parent_statuses@[i])
                    || skipped(self.parent_statuses@[i])),
    {
        let mut i: usize = 0;
        while i < self.parent_statuses.len()
            invariant
                i <= self.parent_statuses@.len(),
                forall|j: int|
                    0 <= j < i ==> (failed(#[trigger] self.parent_statuses@[j]) || skipped(
                        self.parent_statuses@[j],
                    )),
            decreases self.parent_statuses@.len() - i,
        {
            let s = &self.parent_statuses[i];
            if !(matches!(s, JobStatus::Failed(_)) || matches!(s, JobStatus::Skipped)) {
                assert(!(failed(self.parent_statuses@[i as int]) || skipped(
                    self.parent_statuses@[i as int],
                )));
                return false;
            }
            i = i + 1;
        }
        true
    }
}

} // verus!
