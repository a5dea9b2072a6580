//! Preparation of the node list: root detection, child edges and the
//! settings that apply to every task.

use crate::nodes::{node_children, node_parents, node_uid, same_but_children, Node, Parents};
use crate::schemas::Cmd;
use vstd::prelude::*;

verus! {

/// Uid of the first root node (in list order) that has no parents.
pub open spec fn first_root(nodes: Seq<Node>) -> Option<usize>
    decreases nodes.len(),
{
    if nodes.len() == 0 {
        None
    } else if nodes[0] is Root && node_parents(nodes[0]).len() == 0 {
        Some(node_uid(nodes[0]))
    } else {
        first_root(nodes.drop_first())
    }
}

/// Find the root node: the first root without parents.
pub fn find_root_node(nodes: &[Node]) -> (r: Option<usize>)
    ensures
        r == first_root(nodes@),
{
    let mut i: usize = 0;
    assert(nodes@.skip(0) =~= nodes@);
    while i < nodes.len()
        invariant
            0 <= i <= nodes@.len(),
            first_root(nodes@) == first_root(nodes@.skip(i as int)),
        decreases nodes@.len() - i,
    {
        assert(nodes@.skip(i as int)[0] == nodes@[i as int]);
        assert(nodes@.skip(i as int).drop_first() =~= nodes@.skip(i + 1));
        if let Node::Root(root) = &nodes[i] {
            if root.parents.len() == 0 {
                return Some(root.uid);
            }
        }
        i = i + 1;
    }
    None
}

/// Every element is smaller than the next one.
pub open spec fn strictly_sorted(s: Seq<usize>) -> bool {
    forall|i: int, j: int| 0 <= i < j < s.len() ==> s[i] < s[j]
}

/// Node `jj` names `u` as its parent number `kk`, which makes node `jj` a
/// child of `u`.
pub open spec fn is_link(nodes: Seq<Node>, u: usize, jj: int, kk: int) -> bool {
    &&& 0 <= jj < nodes.len()
    &&& 0 <= kk < node_parents(nodes[jj]).len()
    &&& node_parents(nodes[jj])[kk].uid == u
}

/// Uids of the children of `u` found among the first `j` nodes and the
/// first `k` parents of node `j`.
pub open spec fn partial_children(nodes: Seq<Node>, u: usize, j: int, k: int) -> Set<usize> {
    Set::new(
        |v: usize|
            exists|jj: int, kk: int|
                (jj < j || (jj == j && kk < k)) && #[trigger] is_link(nodes, u, jj, kk) && node_uid(
                    nodes[jj],
                ) == v,
    )
}

/// Uids of all the nodes that name `u` as a parent.
pub open spec fn children_of(nodes: Seq<Node>, u: usize) -> Set<usize> {
    partial_children(nodes, u, nodes.len() as int, 0)
}

/// Every parent uid indexes the node list.
pub open spec fn parents_within(nodes: Seq<Node>) -> bool {
    forall|j: int, k: int|
        0 <= j < nodes.len() && 0 <= k < node_parents(nodes[j]).len() ==> (#[trigger] node_parents(
            nodes[j],
        )[k]).uid < nodes.len()
}

/// Insert `x` into a strictly sorted vector, unless it is there already.
fn insert_sorted(v: &mut Vec<usize>, x: usize)
    requires
        strictly_sorted(old(v)@),
    ensures
        strictly_sorted(final(v)@),
        final(v)@.to_set() == old(v)@.to_set().insert(x),
{
    let mut i: usize = 0;
    while i < v.len() && v[i] < x
        invariant
            0 <= i <= v@.len(),
            v@ == old(v)@,
            forall|j: int| 0 <= j < i ==> v@[j] < x,
        decreases v@.len() - i,
    {
        i = i + 1;
    }
    if i < v.len() && v[i] == x {
        assert(v@[i as int] == x);
        assert(v@.contains(x));
        assert(v@.to_set() =~= v@.to_set().insert(x));
        return;
    }
    let ghost before = v@;
    v.insert(i, x);
    assert(v@ =~= before.take(i as int).push(x) + before.skip(i as int));
    assert forall|a: int, b: int| 0 <= a < b < v@.len() implies v@[a] < v@[b] by {
        if b < i {
        } else if b == i {
        } else if a < i {
            assert(before[b - 1] > x || before[b - 1] == x || before[b - 1] < x);
            assert(i < before.len() ==> before[i as int] > x);
            if a + 1 <= i as int {
            }
            assert(before[b - 1] >= before[i as int]);
        } else if a == i {
            assert(before[b - 1] >= before[i as int]);
        } else {
        }
    }
    assert(v@.to_set() =~= before.to_set().insert(x)) by {
        assert forall|y: usize| v@.to_set().contains(y) implies before.to_set().insert(x).contains(y) by {
            let k = choose|k: int| 0 <= k < v@.len() && v@[k] == y;
            if k < i {
                assert(before[k] == y);
            } else if k > i {
                assert(before[k - 1] == y);
            }
        }
        assert forall|y: usize| before.to_set().insert(x).contains(y) implies v@.to_set().contains(y) by {
            if y == x {
                assert(v@[i as int] == x);
            } else {
                let k = choose|k: int| 0 <= k < before.len() && before[k] == y;
                if k < i {
                    assert(v@[k] == y);
                } else {
                    assert(v@[k + 1] == y);
                }
            }
        }
    }
}

/// `after` is `before` with the children of every node set: the uids of the
/// nodes that name it as a parent, in increasing order and without
/// repetitions.
pub open spec fn children_linked(before: Seq<Node>, after: Seq<Node>) -> bool {
    &&& after.len() == before.len()
    &&& forall|u: int|
        0 <= u < before.len() ==> same_but_children(#[trigger] before[u], after[u])
    &&& forall|u: int| 0 <= u < before.len() ==> strictly_sorted(#[trigger] node_children(after[u]))
    &&& forall|u: int|
        0 <= u < before.len() ==> (#[trigger] node_children(after[u])).to_set() == children_of(
            before,
            u as usize,
        )
}

/// Set the children of every node (see `children_linked`).
pub fn add_children(nodes: &mut [Node])
    requires
        parents_within(old(nodes)@),
    ensures
        children_linked(old(nodes)@, final(nodes)@),
{
    let n = nodes.len();
    let ghost start = nodes@;
    let mut all_children: Vec<Vec<usize>> = Vec::new();
    let mut u: usize = 0;
    while u < n
        invariant
            n == nodes@.len(),
            u <= n,
            all_children@.len() == u,
            forall|w: int| 0 <= w < u ==> (#[trigger] all_children@[w])@ == Seq::<usize>::empty(),
        decreases n - u,
    {
        all_children.push(Vec::new());
        u = u + 1;
    }
    assert forall|w: int| 0 <= w < n implies (#[trigger] all_children@[w])@.to_set() =~= partial_children(
        start,
        w as usize,
        0,
        0,
    ) by {
        assert(all_children@[w]@.to_set() =~= Set::empty());
    }
    let mut j: usize = 0;
    while j < n
        invariant
            n == nodes@.len(),
            nodes@ == start,
            parents_within(start),
            0 <= j <= n,
            all_children@.len() == n,
            forall|w: int| 0 <= w < n ==> strictly_sorted((#[trigger] all_children@[w])@),
            forall|w: int|
                0 <= w < n ==> (#[trigger] all_children@[w])@.to_set() == partial_children(
                    start,
                    w as usize,
                    j as int,
                    0,
                ),
        decreases n - j,
    {
        let uid = nodes[j].get_uid();
        let parents = nodes[j].parents();
        let mut k: usize = 0;
        while k < parents.len()
            invariant
                n == nodes@.len(),
                nodes@ == start,
                parents_within(start),
                0 <= j < n,
                uid == node_uid(start[j as int]),
                parents@ == crate::nodes::parent_uids(node_parents(start[j as int])),
                0 <= k <= parents@.len(),
                all_children@.len() == n,
                forall|w: int| 0 <= w < n ==> strictly_sorted((#[trigger] all_children@[w])@),
                forall|w: int|
                    0 <= w < n ==> (#[trigger] all_children@[w])@.to_set() == partial_children(
                        start,
                        w as usize,
                        j as int,
                        k as int,
                    ),
            decreases parents@.len() - k,
        {
            let p = parents[k];
            assert(p == node_parents(start[j as int])[k as int].uid);
            assert(p < n);
            let ghost before = all_children@;
            insert_sorted(&mut all_children[p], uid);
            assert forall|w: int| 0 <= w < n implies (#[trigger] all_children@[w])@.to_set()
                == partial_children(start, w as usize, j as int, k + 1) by {
                if w == p {
                    assert(is_link(start, p, j as int, k as int));
                    assert(partial_children(start, w as usize, j as int, k + 1) =~= partial_children(
                        start,
                        w as usize,
                        j as int,
                        k as int,
                    ).insert(uid));
                } else {
                    assert(before[w] == all_children@[w]);
                    assert(partial_children(start, w as usize, j as int, k + 1) =~= partial_children(
                        start,
                        w as usize,
                        j as int,
                        k as int,
                    ));
                }
            }
            k = k + 1;
        }
        assert forall|w: int| 0 <= w < n implies (#[trigger] all_children@[w])@.to_set()
            == partial_children(start, w as usize, j + 1, 0) by {
            assert(partial_children(start, w as usize, j + 1, 0) =~= partial_children(
                start,
                w as usize,
                j as int,
                parents@.len() as int,
            ));
        }
        j = j + 1;
    }
    let mut u: usize = n;
    while u > 0
        invariant
            n == nodes@.len(),
            u <= n,
            all_children@.len() == u,
            forall|w: int| 0 <= w < u ==> strictly_sorted((#[trigger] all_children@[w])@),
            forall|w: int|
                0 <= w < u ==> (#[trigger] all_children@[w])@.to_set() == children_of(
                    start,
                    w as usize,
                ),
            forall|w: int| 0 <= w < u ==> #[trigger] nodes@[w] == start[w],
            forall|w: int| u <= w < n ==> same_but_children(start[w], #[trigger] nodes@[w]),
            forall|w: int| u <= w < n ==> strictly_sorted(#[trigger] node_children(nodes@[w])),
            forall|w: int|
                u <= w < n ==> (#[trigger] node_children(nodes@[w])).to_set() == children_of(
                    start,
                    w as usize,
                ),
        decreases u,
    {
        u = u - 1;
        let children = all_children.pop().unwrap();
        nodes[u].set_children(children);
    }
}

/// Run every task with a local shell instead of Slurm.
pub fn mark_all_tasks_as_local(nodes: &mut [Node])
    ensures
        final(nodes)@.len() == old(nodes)@.len(),
        forall|i: int|
            0 <= i < old(nodes)@.len() ==> match (old(nodes)@[i], #[trigger] final(nodes)@[i]) {
                (Node::Task(a), Node::Task(b)) => b == crate::nodes::Task { cmd: Cmd::Bash, ..a },
                (a, b) => !(a is Task) && a == b,
            },
{
    let mut i: usize = 0;
    while i < nodes.len()
        invariant
            0 <= i <= nodes@.len(),
            nodes@.len() == old(nodes)@.len(),
            forall|k: int| i <= k < nodes@.len() ==> #[trigger] nodes@[k] == old(nodes)@[k],
            forall|k: int|
                0 <= k < i ==> match (old(nodes)@[k], #[trigger] nodes@[k]) {
                    (Node::Task(a), Node::Task(b)) => b == crate::nodes::Task { cmd: Cmd::Bash, ..a },
                    (a, b) => !(a is Task) && a == b,
                },
        decreases nodes@.len() - i,
    {
        if let Node::Task(task) = &mut nodes[i] {
            task.cmd = Cmd::Bash;
        }
        i = i + 1;
    }
}

/// Stop at a breakpoint whenever a task fails.
pub fn mark_all_tasks_as_debuggable(nodes: &mut [Node])
    ensures
        final(nodes)@.len() == old(nodes)@.len(),
        forall|i: int|
            0 <= i < old(nodes)@.len() ==> match (old(nodes)@[i], #[trigger] final(nodes)@[i]) {
                (Node::Task(a), Node::Task(b)) => b == crate::nodes::Task { debug: true, ..a },
                (a, b) => !(a is Task) && a == b,
            },
{
    let mut i: usize = 0;
    while i < nodes.len()
        invariant
            0 <= i <= nodes@.len(),
            nodes@.len() == old(nodes)@.len(),
            forall|k: int| i <= k < nodes@.len() ==> #[trigger] nodes@[k] == old(nodes)@[k],
            forall|k: int|
                0 <= k < i ==> match (old(nodes)@[k], #[trigger] nodes@[k]) {
                    (Node::Task(a), Node::Task(b)) => b == crate::nodes::Task { debug: true, ..a },
                    (a, b) => !(a is Task) && a == b,
                },
        decreases nodes@.len() - i,
    {
        if let Node::Task(task) = &mut nodes[i] {
            task.debug = true;
        }
        i = i + 1;
    }
}

/// Apply the global settings: run everything locally, and stop at a
/// breakpoint on every task failure.
pub fn apply_global_settings(nodes: &mut [Node], local: bool, debug: bool)
    ensures
        final(nodes)@.len() == old(nodes)@.len(),
        forall|i: int|
            0 <= i < old(nodes)@.len() ==> match (old(nodes)@[i], #[trigger] final(nodes)@[i]) {
                (Node::Task(a), Node::Task(b)) => b == crate::nodes::Task {
                    cmd: if local {
                        Cmd::Bash
                    } else {
                        a.cmd
                    },
                    debug: if debug {
                        true
                    } else {
                        a.debug
                    },
                    ..a
                },
                (a, b) => !(a is Task) && a == b,
            },
{
    let ghost start = nodes@;
    if local {
        mark_all_tasks_as_local(nodes);
    }
    let ghost mid = nodes@;
    if debug {
        mark_all_tasks_as_debuggable(nodes);
    }
    assert forall|i: int| 0 <= i < start.len() implies match (start[i], #[trigger] nodes@[i]) {
        (Node::Task(a), Node::Task(b)) => b == crate::nodes::Task {
            cmd: if local {
                Cmd::Bash
            } else {
                a.cmd
            },
            debug: if debug {
                true
            } else {
                a.debug
            },
            ..a
        },
        (a, b) => !(a is Task) && a == b,
    } by {
        assert(mid[i] == mid[i]);
    }
}

} // verus!
