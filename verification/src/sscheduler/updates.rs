//! One round of status updates of a node map: failed tasks with tries
//! left are retried, then the new statuses flow from a node down to its
//! descendants.

use crate::sscheduler::model::{JobStatus, Node, NodeBehavior, Parent};
use crate::text::str_eq;
use crate::sscheduler::status_management::{
    default_status, find_node, node_by_uid, oneof_status, parent_status, parents_known,
    updated_status, StatusSelector,
};
use vstd::prelude::*;

verus! {

/// The nodes form a node map: no two share a uid, and every parent names
/// a node.
pub open spec fn nodemap_wf(nodes: Seq<Node>) -> bool {
    &&& forall|i: int, j: int| 0 <= i < j < nodes.len() ==> nodes[i].uid@ != nodes[j].uid@
    &&& forall|i: int| 0 <= i < nodes.len() ==> parents_known((#[trigger] nodes[i]).parents@, nodes)
}

/// A failed task is resubmitted while it has tries left: its try number is
/// positive and at most its number of retries.
pub open spec fn retry_spec(n: Node) -> Node {
    match n.status {
        JobStatus::Failed(_) => match n.behavior {
            NodeBehavior::TaskNode(t) => if 0 < t.try_num && t.try_num <= t.retries {
                Node { status: JobStatus::ReadyForSubmission, ..n }
            } else {
                n
            },
            _ => n,
        },
        _ => n,
    }
}

/// The status a node that is not submitted yet takes from its parents.
pub open spec fn selected_status(n: Node, nodes: Seq<Node>, updated: Seq<(String, JobStatus)>) -> JobStatus {
    let s = n.parents@.map_values(|p: Parent| parent_status(p, nodes, updated));
    if n.behavior is OneOfNode {
        oneof_status(s)
    } else {
        default_status(s)
    }
}

/// The statuses recorded by visiting the node `uid` and then its
/// descendants, depth first and in child order, down to `fuel` levels: a
/// visited node that is not submitted records the status its parents
/// give it, reading the statuses recorded so far.
pub open spec fn propagated(
    uid: Seq<char>,
    nodes: Seq<Node>,
    updated: Seq<(String, JobStatus)>,
    fuel: nat,
) -> Seq<(String, JobStatus)>
    decreases fuel, 0nat,
{
    if fuel == 0 {
        updated
    } else {
        match node_by_uid(nodes, uid) {
            None => updated,
            Some(n) => {
                let u = if n.status is NotSubmitted {
                    updated.push((n.uid, selected_status(n, nodes, updated)))
                } else {
                    updated
                };
                children_propagated(n.children@, nodes, u, (fuel - 1) as nat)
            },
        }
    }
}

/// The statuses recorded by visiting each of `children` in turn (see
/// `propagated`).
pub open spec fn children_propagated(
    children: Seq<String>,
    nodes: Seq<Node>,
    updated: Seq<(String, JobStatus)>,
    fuel: nat,
) -> Seq<(String, JobStatus)>
    decreases fuel, children.len(),
{
    if children.len() == 0 {
        updated
    } else {
        propagated(
            children.last()@,
            nodes,
            children_propagated(children.drop_last(), nodes, updated, fuel),
            fuel,
        )
    }
}

/// Node `n` with the status last recorded for it, if any.
pub open spec fn with_update(n: Node, updated: Seq<(String, JobStatus)>) -> Node {
    match updated_status(updated, n.uid@) {
        Some(s) => Node { status: s, ..n },
        None => n,
    }
}

/// Give a failed task with tries left the chance to run again (see
/// `retry_spec`).
pub fn set_retry_if_possible(node: &mut Node)
    requires
        old(node).status is Failed,
    ensures
        *final(node) == retry_spec(*old(node)),
{
    let retry = match &node.behavior {
        NodeBehavior::TaskNode(t) => 0 < t.try_num && t.try_num <= t.retries,
        _ => false,
    };
    if retry {
        node.status = JobStatus::ReadyForSubmission;
    }
}

/// Resubmit every failed task with tries left (see `retry_spec`).
pub fn schedule_retries(nodes: &mut Vec<Node>)
    ensures
        final(nodes)@ == old(nodes)@.map_values(|n: Node| retry_spec(n)),
{
    let mut i: usize = 0;
    while i < nodes.len()
        invariant
            i <= nodes@.len(),
            nodes@.len() == old(nodes)@.len(),
            forall|k: int| i <= k < nodes@.len() ==> #[trigger] nodes@[k] == old(nodes)@[k],
            forall|k: int| 0 <= k < i ==> #[trigger] nodes@[k] == retry_spec(old(nodes)@[k]),
        decreases nodes@.len() - i,
    {
        let mut node = nodes.remove(i);
        assert(node == old(nodes)@[i as int]);
        if let JobStatus::Failed(_) = node.status {
            set_retry_if_possible(&mut node);
        }
        nodes.insert(i, node);
        i = i + 1;
    }
    assert(nodes@ =~= old(nodes)@.map_values(|n: Node| retry_spec(n)));
}

/// Record the statuses of the node `uid` and of its descendants (see
/// `propagated`).
pub fn recoursively_update_status(
    uid: &str,
    nodes: &[Node],
    updated: &mut Vec<(String, JobStatus)>,
    fuel: usize,
)
    requires
        nodemap_wf(nodes@),
    ensures
        final(updated)@ == propagated(uid@, nodes@, old(updated)@, fuel as nat),
    decreases fuel,
{
    if fuel == 0 {
        return;
    }
    let i = match find_node(nodes, uid) {
        None => {
            return;
        },
        Some(i) => i,
    };
    let node = &nodes[i];
    assert(parents_known(nodes@[i as int].parents@, nodes@));
    if let JobStatus::NotSubmitted = node.status {
        let selector = StatusSelector::new(node, nodes, updated.as_slice());
        let s = selector.get_updated_status(&node.behavior);
        updated.push((node.uid.clone(), s));
    }
    let ghost u = updated@;
    let mut k: usize = 0;
    while k < node.children.len()
        invariant
            k <= node.children@.len(),
            0 < fuel,
            nodemap_wf(nodes@),
            updated@ == children_propagated(
                node.children@.take(k as int),
                nodes@,
                u,
                (fuel - 1) as nat,
            ),
        decreases node.children@.len() - k,
    {
        assert(node.children@.take(k + 1).drop_last() =~= node.children@.take(k as int));
        assert(node.children@.take(k + 1).last() == node.children@[k as int]);
        recoursively_update_status(node.children[k].as_str(), nodes, updated, fuel - 1);
        k = k + 1;
    }
    assert(node.children@.take(node.children@.len() as int) =~= node.children@);
}

/// Give each node the status last recorded for it (see `with_update`).
pub fn apply_updates(nodes: &mut Vec<Node>, updated: &[(String, JobStatus)])
    requires
        forall|i: int, j: int|
            0 <= i < j < old(nodes)@.len() ==> old(nodes)@[i].uid@ != old(nodes)@[j].uid@,
    ensures
        final(nodes)@ == old(nodes)@.map_values(|n: Node| with_update(n, updated@)),
{
    let mut j: usize = 0;
    while j < updated.len()
        invariant
            j <= updated@.len(),
            nodes@.len() == old(nodes)@.len(),
            forall|i: int, l: int|
                0 <= i < l < old(nodes)@.len() ==> old(nodes)@[i].uid@ != old(nodes)@[l].uid@,
            forall|i: int|
                0 <= i < nodes@.len() ==> #[trigger] nodes@[i] == with_update(
                    old(nodes)@[i],
                    updated@.take(j as int),
                ),
        decreases updated@.len() - j,
    {
        let ghost before = nodes@;
        assert(updated@.take(j + 1).drop_last() =~= updated@.take(j as int));
        assert(updated@.take(j + 1).last() == updated@[j as int]);
        match find_node(nodes.as_slice(), updated[j].0.as_str()) {
            Some(i) => {
                let mut node = nodes.remove(i);
                node.status = updated[j].1.copied();
                nodes.insert(i, node);
                assert forall|l: int| 0 <= l < nodes@.len() implies #[trigger] nodes@[l] == with_update(
                    old(nodes)@[l],
                    updated@.take(j + 1),
                ) by {
                    if l != i {
                        assert(before[l] == nodes@[l]);
                        assert(old(nodes)@[l].uid@ != old(nodes)@[i as int].uid@);
                    }
                }
            },
            None => {
                assert forall|l: int| 0 <= l < nodes@.len() implies #[trigger] nodes@[l] == with_update(
                    old(nodes)@[l],
                    updated@.take(j + 1),
                ) by {
                    assert(before[l].uid@ != updated@[j as int].0@);
                }
            },
        }
        j = j + 1;
    }
    assert(updated@.take(updated@.len() as int) =~= updated@);
    assert(nodes@ =~= old(nodes)@.map_values(|n: Node| with_update(n, updated@)));
}

/// Retrying keeps the uid and the parents of every node, so it keeps a
/// node map well formed.
pub proof fn lemma_retry_keeps_nodemap(nodes: Seq<Node>)
    requires
        nodemap_wf(nodes),
    ensures
        nodemap_wf(nodes.map_values(|n: Node| retry_spec(n))),
{
    let r = nodes.map_values(|n: Node| retry_spec(n));
    assert forall|u: Seq<char>| (#[trigger] node_by_uid(r, u)) is Some <==> node_by_uid(nodes, u) is Some by {
        lemma_node_by_uid_retried(nodes, u);
    }
    assert forall|i: int| 0 <= i < r.len() implies parents_known((#[trigger] r[i]).parents@, r) by {
        assert(parents_known(nodes[i].parents@, nodes));
        assert forall|k: int| 0 <= k < r[i].parents@.len() implies (#[trigger] node_by_uid(
            r,
            r[i].parents@[k].uid@,
        )) is Some by {
            assert(node_by_uid(nodes, nodes[i].parents@[k].uid@) is Some);
        }
    }
}

proof fn lemma_node_by_uid_retried(nodes: Seq<Node>, u: Seq<char>)
    ensures
        node_by_uid(nodes.map_values(|n: Node| retry_spec(n)), u) is Some <==> node_by_uid(nodes, u) is Some,
    decreases nodes.len(),
{
    let r = nodes.map_values(|n: Node| retry_spec(n));
    if nodes.len() > 0 {
        assert(r.drop_last() =~= nodes.drop_last().map_values(|n: Node| retry_spec(n)));
        lemma_node_by_uid_retried(nodes.drop_last(), u);
    }
}

/// One round of status updates from the node `uid` (the root): failed
/// tasks with tries left are resubmitted (see `retry_spec`), then each
/// node reached from `uid` that is not submitted takes the status its
/// parents give it (see `propagated`, over at most as many levels as there
/// are nodes).
pub fn update_status(uid: &str, nodes: &mut Vec<Node>)
    requires
        nodemap_wf(old(nodes)@),
    ensures
        ({
            let r = old(nodes)@.map_values(|n: Node| retry_spec(n));
            final(nodes)@ == r.map_values(
                |n: Node| with_update(n, propagated(uid@, r, Seq::empty(), r.len())),
            )
        }),
{
    schedule_retries(nodes);
    proof {
        lemma_retry_keeps_nodemap(old(nodes)@);
    }
    let mut updated: Vec<(String, JobStatus)> = Vec::new();
    let n = nodes.len();
    recoursively_update_status(uid, nodes.as_slice(), &mut updated, n);
    apply_updates(nodes, updated.as_slice());
}

/// The entry `e` names a node that is not submitted.
pub open spec fn records_not_submitted(nodes: Seq<Node>, e: (String, JobStatus)) -> bool {
    match node_by_uid(nodes, e.0@) {
        Some(m) => m.status is NotSubmitted,
        None => false,
    }
}

/// Visiting only appends to the recorded statuses, and only for nodes
/// that are not submitted.
pub proof fn lemma_propagated_grows(
    uid: Seq<char>,
    nodes: Seq<Node>,
    updated: Seq<(String, JobStatus)>,
    fuel: nat,
)
    ensures
        ({
            let r = propagated(uid, nodes, updated, fuel);
            &&& r.len() >= updated.len()
            &&& r.subrange(0, updated.len() as int) == updated
            &&& forall|j: int|
                updated.len() <= j < r.len() ==> records_not_submitted(nodes, #[trigger] r[j])
        }),
    decreases fuel, 0nat,
{
    if fuel > 0 {
        match node_by_uid(nodes, uid) {
            None => {
                assert(updated.subrange(0, updated.len() as int) =~= updated);
            },
            Some(n) => {
                let u = if n.status is NotSubmitted {
                    updated.push((n.uid, selected_status(n, nodes, updated)))
                } else {
                    updated
                };
                lemma_node_by_uid_uid(nodes, uid);
                lemma_children_propagated_grows(n.children@, nodes, u, (fuel - 1) as nat);
                let r = children_propagated(n.children@, nodes, u, (fuel - 1) as nat);
                assert(r.subrange(0, updated.len() as int) =~= u.subrange(0, updated.len() as int));
                assert(u.subrange(0, updated.len() as int) =~= updated);
                assert forall|j: int| updated.len() <= j < r.len() implies records_not_submitted(
                    nodes,
                    #[trigger] r[j],
                ) by {
                    if j < u.len() {
                        assert(r[j] == u.subrange(0, u.len() as int)[j]);
                        assert(u[j] == (n.uid, selected_status(n, nodes, updated)));
                    }
                }
            },
        }
    } else {
        assert(updated.subrange(0, updated.len() as int) =~= updated);
    }
}

/// Visiting children only appends, and only for nodes that are not
/// submitted.
pub proof fn lemma_children_propagated_grows(
    children: Seq<String>,
    nodes: Seq<Node>,
    updated: Seq<(String, JobStatus)>,
    fuel: nat,
)
    ensures
        ({
            let r = children_propagated(children, nodes, updated, fuel);
            &&& r.len() >= updated.len()
            &&& r.subrange(0, updated.len() as int) == updated
            &&& forall|j: int|
                updated.len() <= j < r.len() ==> records_not_submitted(nodes, #[trigger] r[j])
        }),
    decreases fuel, children.len(),
{
    if children.len() == 0 {
        assert(updated.subrange(0, updated.len() as int) =~= updated);
    } else {
        lemma_children_propagated_grows(children.drop_last(), nodes, updated, fuel);
        let m = children_propagated(children.drop_last(), nodes, updated, fuel);
        lemma_propagated_grows(children.last()@, nodes, m, fuel);
        let r = propagated(children.last()@, nodes, m, fuel);
        assert(r.subrange(0, updated.len() as int) =~= m.subrange(0, updated.len() as int));
        assert forall|j: int| updated.len() <= j < r.len() implies records_not_submitted(
            nodes,
            #[trigger] r[j],
        ) by {
            if j < m.len() {
                assert(r[j] == r.subrange(0, m.len() as int)[j]);
            }
        }
    }
}

/// The node found for a uid has that uid.
pub proof fn lemma_node_by_uid_uid(nodes: Seq<Node>, uid: Seq<char>)
    ensures
        node_by_uid(nodes, uid) matches Some(n) ==> n.uid@ == uid && exists|i: int|
            0 <= i < nodes.len() && nodes[i] == n,
    decreases nodes.len(),
{
    if nodes.len() > 0 && nodes.last().uid@ != uid {
        lemma_node_by_uid_uid(nodes.drop_last(), uid);
        if let Some(n) = node_by_uid(nodes, uid) {
            let i = choose|i: int| 0 <= i < nodes.drop_last().len() && nodes.drop_last()[i] == n;
            assert(nodes[i] == n);
        }
    }
}

/// In a list of distinct uids, the node found for the uid of a node is
/// that node.
pub proof fn lemma_node_by_uid_unique(nodes: Seq<Node>, i: int)
    requires
        0 <= i < nodes.len(),
        forall|a: int, b: int| 0 <= a < b < nodes.len() ==> nodes[a].uid@ != nodes[b].uid@,
    ensures
        node_by_uid(nodes, nodes[i].uid@) == Some(nodes[i]),
    decreases nodes.len(),
{
    if i < nodes.len() - 1 {
        assert(nodes.last().uid@ != nodes[i].uid@);
        assert(nodes.drop_last()[i] == nodes[i]);
        lemma_node_by_uid_unique(nodes.drop_last(), i);
    }
}

/// A uid with a recorded status has an entry.
pub proof fn lemma_updated_status_entry(updated: Seq<(String, JobStatus)>, uid: Seq<char>)
    ensures
        updated_status(updated, uid) is Some ==> exists|j: int|
            0 <= j < updated.len() && (#[trigger] updated[j]).0@ == uid,
    decreases updated.len(),
{
    if updated.len() > 0 && updated.last().0@ != uid {
        lemma_updated_status_entry(updated.drop_last(), uid);
        if updated_status(updated, uid) is Some {
            let j = choose|j: int|
                0 <= j < updated.drop_last().len() && (#[trigger] updated.drop_last()[j]).0@ == uid;
            assert(updated[j] == updated.drop_last()[j]);
        }
    }
}

/// Whether the nodes form a node map (see `nodemap_wf`).
pub fn is_nodemap_wf(nodes: &[Node]) -> (r: bool)
    ensures
        r == nodemap_wf(nodes@),
{
    let mut i: usize = 0;
    while i < nodes.len()
        invariant
            i <= nodes@.len(),
            forall|a: int, b: int| 0 <= a < b < nodes@.len() && a < i ==> nodes@[a].uid@ != nodes@[b].uid@,
        decreases nodes@.len() - i,
    {
        let mut j: usize = i + 1;
        while j < nodes.len()
            invariant
                i < nodes@.len(),
                i + 1 <= j <= nodes@.len(),
                forall|a: int, b: int| 0 <= a < b < nodes@.len() && a < i ==> nodes@[a].uid@ != nodes@[b].uid@,
                forall|b: int| i < b < j ==> nodes@[i as int].uid@ != (#[trigger] nodes@[b]).uid@,
            decreases nodes@.len() - j,
        {
            if str_eq(nodes[i].uid.as_str(), nodes[j].uid.as_str()) {
                return false;
            }
            j = j + 1;
        }
        i = i + 1;
    }
    let mut k: usize = 0;
    while k < nodes.len()
        invariant
            k <= nodes@.len(),
            forall|a: int| 0 <= a < k ==> parents_known((#[trigger] nodes@[a]).parents@, nodes@),
        decreases nodes@.len() - k,
    {
        let mut p: usize = 0;
        while p < nodes[k].parents.len()
            invariant
                k < nodes@.len(),
                p <= nodes@[k as int].parents@.len(),
                forall|q: int|
                    0 <= q < p ==> (#[trigger] node_by_uid(nodes@, nodes@[k as int].parents@[q].uid@)) is Some,
            decreases nodes@[k as int].parents@.len() - p,
        {
            if find_node(nodes, nodes[k].parents[p].uid.as_str()).is_none() {
                assert(!parents_known(nodes@[k as int].parents@, nodes@));
                return false;
            }
            p = p + 1;
        }
        k = k + 1;
    }
    true
}

} // verus!
