//! The node map of a pipeline: its nodes keyed by uid, each linked to
//! its children, and its root.

use crate::sscheduler::model::{JobStatus, Node, NodeResult, DAG};
use crate::sscheduler::status_management::find_node;
use crate::text::str_eq;
use vstd::prelude::*;

verus! {

/// The position of the last node with uid `uid`.
pub open spec fn node_index(nodes: Seq<Node>, uid: Seq<char>) -> Option<int>
    decreases nodes.len(),
{
    if nodes.len() == 0 {
        None
    } else if nodes.last().uid@ == uid {
        Some(nodes.len() - 1)
    } else {
        node_index(nodes.drop_last(), uid)
    }
}

/// The nodes keyed by uid: a node replaces an earlier one with its uid,
/// in that one's place; a node with a new uid comes last.
pub open spec fn keyed(nodes: Seq<Node>) -> Seq<Node>
    decreases nodes.len(),
{
    if nodes.len() == 0 {
        Seq::empty()
    } else {
        let m = keyed(nodes.drop_last());
        match node_index(m, nodes.last().uid@) {
            Some(i) => m.update(i, nodes.last()),
            None => m.push(nodes.last()),
        }
    }
}

/// No two nodes share a uid.
pub open spec fn uids_distinct(nodes: Seq<Node>) -> bool {
    forall|i: int, j: int| 0 <= i < j < nodes.len() ==> nodes[i].uid@ != nodes[j].uid@
}

/// Node `n` names `p` as a parent.
pub open spec fn has_parent(n: Node, p: Seq<char>) -> bool {
    exists|k: int| 0 <= k < n.parents@.len() && (#[trigger] n.parents@[k]).uid@ == p
}

/// The uids of the nodes that name `p` as a parent, in node order.
pub open spec fn child_uids(nodes: Seq<Node>, p: Seq<char>) -> Seq<String>
    decreases nodes.len(),
{
    if nodes.len() == 0 {
        Seq::empty()
    } else if has_parent(nodes.last(), p) {
        child_uids(nodes.drop_last(), p).push(nodes.last().uid)
    } else {
        child_uids(nodes.drop_last(), p)
    }
}

/// `after` is `before` where each node also lists, after its children,
/// the nodes that name it as a parent.
pub open spec fn linked(before: Seq<Node>, after: Seq<Node>) -> bool {
    &&& after.len() == before.len()
    &&& forall|i: int|
        0 <= i < before.len() ==> #[trigger] after[i] == (Node { children: after[i].children, ..before[i] })
            && after[i].children@ == before[i].children@ + child_uids(before, before[i].uid@)
}

/// The position of the first node without parents: the root.
pub open spec fn root_index(nodes: Seq<Node>) -> Option<int>
    decreases nodes.len(),
{
    if nodes.len() == 0 {
        None
    } else {
        match root_index(nodes.drop_last()) {
            Some(i) => Some(i),
            None => if nodes.last().parents@.len() == 0 {
                Some(nodes.len() - 1)
            } else {
                None
            },
        }
    }
}

proof fn lemma_node_index(nodes: Seq<Node>, uid: Seq<char>)
    ensures
        match node_index(nodes, uid) {
            Some(i) => 0 <= i < nodes.len() && nodes[i].uid@ == uid && forall|j: int|
                i < j < nodes.len() ==> (#[trigger] nodes[j]).uid@ != uid,
            None => forall|j: int| 0 <= j < nodes.len() ==> (#[trigger] nodes[j]).uid@ != uid,
        },
    decreases nodes.len(),
{
    if nodes.len() > 0 && nodes.last().uid@ != uid {
        lemma_node_index(nodes.drop_last(), uid);
        assert forall|j: int| 0 <= j < nodes.len() - 1 implies nodes[j] == nodes.drop_last()[j] by {}
    }
}

/// Keyed nodes have distinct uids.
pub proof fn lemma_keyed_distinct(nodes: Seq<Node>)
    ensures
        uids_distinct(keyed(nodes)),
    decreases nodes.len(),
{
    if nodes.len() > 0 {
        lemma_keyed_distinct(nodes.drop_last());
        let m = keyed(nodes.drop_last());
        lemma_node_index(m, nodes.last().uid@);
    }
}

/// Key the nodes by uid (see `keyed`).
pub fn key_nodes(nodes: Vec<Node>) -> (r: Vec<Node>)
    ensures
        r@ == keyed(nodes@),
{
    let ghost all = nodes@;
    let n = nodes.len();
    let mut rest = nodes;
    let mut map: Vec<Node> = Vec::new();
    let mut i: usize = 0;
    while rest.len() > 0
        invariant
            i + rest@.len() == all.len(),
            all.len() == n,
            rest@ == all.subrange(i as int, all.len() as int),
            map@ == keyed(all.take(i as int)),
        decreases rest@.len(),
    {
        let node = rest.remove(0);
        assert(node == all[i as int]);
        assert(all.take(i + 1).drop_last() =~= all.take(i as int));
        assert(all.take(i + 1).last() == all[i as int]);
        proof {
            lemma_node_index(map@, node.uid@);
        }
        match find_node(map.as_slice(), node.uid.as_str()) {
            Some(j) => {
                proof {
                    if node_index(map@, node.uid@) is Some {
                        let k = node_index(map@, node.uid@)->Some_0;
                        assert(k == j);
                    }
                }
                map.set(j, node);
            },
            None => {
                map.push(node);
            },
        }
        assert(rest@ =~= all.subrange(i + 1, all.len() as int));
        i = i + 1;
    }
    assert(all.take(all.len() as int) =~= all);
    map
}

/// Whether node `n` names `p` as a parent.
pub fn names_parent(n: &Node, p: &str) -> (r: bool)
    ensures
        r == has_parent(*n, p@),
{
    let mut k: usize = 0;
    while k < n.parents.len()
        invariant
            k <= n.parents@.len(),
            forall|j: int| 0 <= j < k ==> (#[trigger] n.parents@[j]).uid@ != p@,
        decreases n.parents@.len() - k,
    {
        if str_eq(n.parents[k].uid.as_str(), p) {
            assert(n.parents@[k as int].uid@ == p@);
            return true;
        }
        k = k + 1;
    }
    false
}

/// The uids of the nodes that name `p` as a parent (see `child_uids`).
pub fn find_child_edges(nodes: &[Node], p: &str) -> (r: Vec<String>)
    ensures
        r@ == child_uids(nodes@, p@),
{
    let mut r: Vec<String> = Vec::new();
    let mut i: usize = 0;
    while i < nodes.len()
        invariant
            i <= nodes@.len(),
            r@ == child_uids(nodes@.take(i as int), p@),
        decreases nodes@.len() - i,
    {
        assert(nodes@.take(i + 1).drop_last() =~= nodes@.take(i as int));
        assert(nodes@.take(i + 1).last() == nodes@[i as int]);
        if names_parent(&nodes[i], p) {
            r.push(nodes[i].uid.clone());
        }
        i = i + 1;
    }
    assert(nodes@.take(nodes@.len() as int) =~= nodes@);
    r
}

/// Link every node to its children (see `linked`).
pub fn add_child_edges(nodes: &mut Vec<Node>)
    ensures
        linked(old(nodes)@, final(nodes)@),
{
    let ghost before = nodes@;
    let mut i: usize = 0;
    while i < nodes.len()
        invariant
            i <= nodes@.len(),
            nodes@.len() == before.len(),
            before == old(nodes)@,
            forall|k: int| i <= k < nodes@.len() ==> #[trigger] nodes@[k] == before[k],
            forall|k: int|
                0 <= k < i ==> #[trigger] nodes@[k] == (Node { children: nodes@[k].children, ..before[k] })
                    && nodes@[k].children@ == before[k].children@ + child_uids(before, before[k].uid@),
        decreases nodes@.len() - i,
    {
        let edges = find_child_edges_before(nodes, i, Ghost(before));
        let mut node = nodes.remove(i);
        assert(node == before[i as int]);
        let ghost old_children = node.children@;
        let mut e: usize = 0;
        while e < edges.len()
            invariant
                e <= edges@.len(),
                node == (Node { children: node.children, ..before[i as int] }),
                node.children@ == old_children + edges@.take(e as int),
            decreases edges@.len() - e,
        {
            node.children.push(edges[e].clone());
            assert(old_children + edges@.take(e + 1) =~= (old_children + edges@.take(e as int)).push(
                edges@[e as int],
            ));
            e = e + 1;
        }
        assert(edges@.take(edges@.len() as int) =~= edges@);
        nodes.insert(i, node);
        i = i + 1;
    }
}

/// The children of the `i`-th node, read from the nodes before linking
/// (the nodes before `i` differ only in their children).
fn find_child_edges_before(nodes: &Vec<Node>, i: usize, Ghost(before): Ghost<Seq<Node>>) -> (r: Vec<
    String,
>)
    requires
        i < nodes@.len(),
        nodes@.len() == before.len(),
        nodes@[i as int] == before[i as int],
        forall|k: int|
            0 <= k < nodes@.len() ==> (#[trigger] nodes@[k]).uid == before[k].uid
                && nodes@[k].parents == before[k].parents,
    ensures
        r@ == child_uids(before, before[i as int].uid@),
{
    let r = find_child_edges(nodes.as_slice(), nodes[i].uid.as_str());
    proof {
        lemma_child_uids_same(nodes@, before, before[i as int].uid@);
    }
    r
}

proof fn lemma_child_uids_same(a: Seq<Node>, b: Seq<Node>, p: Seq<char>)
    requires
        a.len() == b.len(),
        forall|k: int| 0 <= k < a.len() ==> (#[trigger] a[k]).uid == b[k].uid && a[k].parents == b[k].parents,
    ensures
        child_uids(a, p) == child_uids(b, p),
    decreases a.len(),
{
    if a.len() > 0 {
        lemma_child_uids_same(a.drop_last(), b.drop_last(), p);
        assert(a.last().parents == b.last().parents);
        assert(has_parent(a.last(), p) == has_parent(b.last(), p));
    }
}

/// The uid of the first node without parents (see `root_index`).
pub fn find_root_id(nodes: &[Node]) -> (r: Option<usize>)
    ensures
        match r {
            Some(i) => i < nodes@.len() && root_index(nodes@) == Some(i as int),
            None => root_index(nodes@) is None,
        },
{
    let mut i: usize = 0;
    while i < nodes.len()
        invariant
            i <= nodes@.len(),
            root_index(nodes@.take(i as int)) is None,
        decreases nodes@.len() - i,
    {
        assert(nodes@.take(i + 1).drop_last() =~= nodes@.take(i as int));
        assert(nodes@.take(i + 1).last() == nodes@[i as int]);
        if nodes[i].parents.len() == 0 {
            proof {
                lemma_root_index_prefix(nodes@, i as int + 1);
            }
            return Some(i);
        }
        i = i + 1;
    }
    assert(nodes@.take(nodes@.len() as int) =~= nodes@);
    None
}

proof fn lemma_root_index_prefix(nodes: Seq<Node>, n: int)
    requires
        0 <= n <= nodes.len(),
        root_index(nodes.take(n)) is Some,
    ensures
        root_index(nodes) == root_index(nodes.take(n)),
    decreases nodes.len() - n,
{
    if n < nodes.len() {
        assert(nodes.take(n + 1).drop_last() =~= nodes.take(n));
        lemma_root_index_prefix(nodes, n + 1);
    } else {
        assert(nodes.take(n) =~= nodes);
    }
}

/// Build the node map of a pipeline: its nodes keyed by uid (see
/// `keyed`), each linked to its children (see `linked`), with the root
/// (see `root_index`) marked completed; its uid comes along. `None` when
/// no node is without parents.
pub fn build_nodemap(dag: DAG) -> (r: Option<(String, Vec<Node>)>)
    ensures
        match r {
            None => root_index(keyed(dag.nodes@)) is None,
            Some((root, map)) => exists|l: Seq<Node>, k: int|
                linked(keyed(dag.nodes@), l) && root_index(keyed(dag.nodes@)) == Some(k)
                    && root@ == l[k].uid@ && map@ == l.update(
                    k,
                    Node { status: JobStatus::Completed(NodeResult::Node), ..l[k] },
                ),
        },
        r matches Some((_, map)) ==> uids_distinct(map@),
{
    let mut nodemap = key_nodes(dag.nodes);
    proof {
        lemma_keyed_distinct(dag.nodes@);
    }
    let ghost k0 = nodemap@;
    add_child_edges(&mut nodemap);
    let ghost l = nodemap@;
    proof {
        lemma_root_index_linked(k0, l);
    }
    let root = match find_root_id(nodemap.as_slice()) {
        None => {
            return None;
        },
        Some(i) => i,
    };
    let root_id = nodemap[root].uid.clone();
    let mut node = nodemap.remove(root);
    node.status = JobStatus::Completed(NodeResult::Node);
    nodemap.insert(root, node);
    assert(nodemap@ =~= l.update(
        root as int,
        Node { status: JobStatus::Completed(NodeResult::Node), ..l[root as int] },
    ));
    assert(root_index(k0) == Some(root as int));
    assert(linked(k0, l));
    assert(root_id@ == l[root as int].uid@);
    Some((root_id, nodemap))
}

proof fn lemma_root_index_same_parents(a: Seq<Node>, b: Seq<Node>)
    requires
        a.len() == b.len(),
        forall|i: int| 0 <= i < a.len() ==> (#[trigger] a[i]).parents == b[i].parents,
    ensures
        root_index(a) == root_index(b),
    decreases a.len(),
{
    if a.len() > 0 {
        lemma_root_index_same_parents(a.drop_last(), b.drop_last());
        assert(a.last().parents == b.last().parents);
    }
}

proof fn lemma_root_index_linked(a: Seq<Node>, b: Seq<Node>)
    requires
        linked(a, b),
    ensures
        root_index(a) == root_index(b),
        uids_distinct(a) ==> uids_distinct(b),
{
    assert forall|i: int| 0 <= i < a.len() implies (#[trigger] a[i]).parents == b[i].parents by {
        assert(b[i] == (Node { children: b[i].children, ..a[i] }));
    }
    lemma_root_index_same_parents(a, b);
    if uids_distinct(a) {
        assert forall|i: int, j: int| 0 <= i < j < b.len() implies b[i].uid@ != b[j].uid@ by {
            assert(b[i] == (Node { children: b[i].children, ..a[i] }));
            assert(b[j] == (Node { children: b[j].children, ..a[j] }));
        }
    }
}

} // verus!
