//! Only one cacheable task of a given name runs at a time: the others wait
//! and then use its cached result.

use crate::sscheduler::model::{JobStatus, Node, NodeBehavior};
use crate::text::str_eq;
use vstd::prelude::*;

verus! {

/// The task name of a task node (empty for other nodes).
pub open spec fn task_name(n: Node) -> Seq<char> {
    match n.behavior {
        NodeBehavior::TaskNode(t) => t.name@,
        _ => Seq::empty(),
    }
}

/// A task node that caches its result.
pub open spec fn cacheable(n: Node) -> bool {
    match n.behavior {
        NodeBehavior::TaskNode(t) => t.caching,
        _ => false,
    }
}

/// A cacheable task that is running.
pub open spec fn running_cacheable(n: Node) -> bool {
    n.status is Running && cacheable(n)
}

/// A cacheable task that is ready for submission.
pub open spec fn ready_cacheable(n: Node) -> bool {
    n.status is ReadyForSubmission && cacheable(n)
}

/// Some cacheable task named `name` is running.
pub open spec fn name_running(nodes: Seq<Node>, name: Seq<char>) -> bool {
    exists|j: int| 0 <= j < nodes.len() && running_cacheable(nodes[j]) && #[trigger] task_name(nodes[j]) == name
}

/// Some cacheable task named `name` before position `i` is ready.
pub open spec fn name_ready_before(nodes: Seq<Node>, i: int, name: Seq<char>) -> bool {
    exists|j: int| 0 <= j < i && ready_cacheable(nodes[j]) && #[trigger] task_name(nodes[j]) == name
}

/// The ready cacheable task at position `i` waits: a task of its name
/// runs, or one comes before it.
pub open spec fn held_back(nodes: Seq<Node>, i: int) -> bool {
    &&& ready_cacheable(nodes[i])
    &&& name_running(nodes, task_name(nodes[i])) || name_ready_before(nodes, i, task_name(nodes[i]))
}

/// `names` holds a string that reads `s`.
pub open spec fn has_name(names: Seq<String>, s: Seq<char>) -> bool {
    exists|k: int| 0 <= k < names.len() && (#[trigger] names[k])@ == s
}

proof fn lemma_has_name_push(names: Seq<String>, x: String, s: Seq<char>)
    ensures
        has_name(names.push(x), s) <==> has_name(names, s) || x@ == s,
{
    if has_name(names.push(x), s) {
        let k = choose|k: int| 0 <= k < names.push(x).len() && (#[trigger] names.push(x)[k])@ == s;
        if k < names.len() {
            assert(names[k] == names.push(x)[k]);
        }
    }
    if has_name(names, s) {
        let k = choose|k: int| 0 <= k < names.len() && (#[trigger] names[k])@ == s;
        assert(names.push(x)[k] == names[k]);
    }
    if x@ == s {
        assert(names.push(x)[names.len() as int] == x);
    }
}

proof fn lemma_name_running_step(nodes: Seq<Node>, i: int, s: Seq<char>)
    requires
        0 <= i < nodes.len(),
    ensures
        name_running(nodes.take(i + 1), s) <==> name_running(nodes.take(i), s) || (running_cacheable(
            nodes[i],
        ) && task_name(nodes[i]) == s),
{
    if name_running(nodes.take(i + 1), s) {
        let j = choose|j: int|
            0 <= j < i + 1 && running_cacheable(nodes.take(i + 1)[j]) && #[trigger] task_name(
                nodes.take(i + 1)[j],
            ) == s;
        if j < i {
            assert(nodes.take(i)[j] == nodes.take(i + 1)[j]);
        }
    }
    if name_running(nodes.take(i), s) {
        let j = choose|j: int|
            0 <= j < i && running_cacheable(nodes.take(i)[j]) && #[trigger] task_name(nodes.take(i)[j])
                == s;
        assert(nodes.take(i)[j] == nodes.take(i + 1)[j]);
    }
    if running_cacheable(nodes[i]) && task_name(nodes[i]) == s {
        assert(nodes.take(i + 1)[i] == nodes[i]);
    }
}

proof fn lemma_name_ready_step(nodes: Seq<Node>, i: int, s: Seq<char>)
    requires
        0 <= i < nodes.len(),
    ensures
        name_ready_before(nodes, i + 1, s) <==> name_ready_before(nodes, i, s) || (ready_cacheable(
            nodes[i],
        ) && task_name(nodes[i]) == s),
{
    if name_ready_before(nodes, i + 1, s) && !name_ready_before(nodes, i, s) {
        let j = choose|j: int| 0 <= j < i + 1 && ready_cacheable(nodes[j]) && #[trigger] task_name(nodes[j]) == s;
    }
}

/// Whether `names` holds `name`.
fn contains_name(names: &Vec<String>, name: &str) -> (r: bool)
    ensures
        r == has_name(names@, name@),
{
    let mut k: usize = 0;
    while k < names.len()
        invariant
            k <= names@.len(),
            forall|j: int| 0 <= j < k ==> (#[trigger] names@[j])@ != name@,
        decreases names@.len() - k,
    {
        if str_eq(names[k].as_str(), name) {
            assert(names@[k as int]@ == name@);
            return true;
        }
        k = k + 1;
    }
    false
}

/// The names of the running cacheable tasks.
pub fn find_running_cacheable_jobs(nodes: &[Node]) -> (r: Vec<String>)
    ensures
        forall|s: Seq<char>| #[trigger] has_name(r@, s) <==> name_running(nodes@, s),
{
    let mut r: Vec<String> = Vec::new();
    let mut i: usize = 0;
    while i < nodes.len()
        invariant
            i <= nodes@.len(),
            forall|s: Seq<char>| #[trigger] has_name(r@, s) <==> name_running(nodes@.take(i as int), s),
        decreases nodes@.len() - i,
    {
        let ghost before = r@;
        if let JobStatus::Running(_) = nodes[i].status {
            if let NodeBehavior::TaskNode(t) = &nodes[i].behavior {
                if t.caching {
                    r.push(t.name.clone());
                }
            }
        }
        assert forall|s: Seq<char>| #[trigger] has_name(r@, s) <==> name_running(
            nodes@.take(i + 1),
            s,
        ) by {
            lemma_name_running_step(nodes@, i as int, s);
            if r@.len() > before.len() {
                assert(r@ == before.push(r@.last()));
                lemma_has_name_push(before, r@.last(), s);
            }
        }
        i = i + 1;
    }
    assert(nodes@.take(nodes@.len() as int) =~= nodes@);
    r
}

/// Let at most one cacheable task of each name run: a ready cacheable
/// task waits (becomes not submitted) while a task of its name runs or
/// an earlier one is ready (see `held_back`).
pub fn limit_cached_tasks_same_name(nodes: &mut Vec<Node>)
    ensures
        final(nodes)@.len() == old(nodes)@.len(),
        forall|i: int|
            0 <= i < old(nodes)@.len() ==> #[trigger] final(nodes)@[i] == if held_back(old(nodes)@, i) {
                Node { status: JobStatus::NotSubmitted, ..old(nodes)@[i] }
            } else {
                old(nodes)@[i]
            },
{
    let ghost o = nodes@;
    let mut names = find_running_cacheable_jobs(nodes.as_slice());
    let mut i: usize = 0;
    while i < nodes.len()
        invariant
            i <= nodes@.len(),
            nodes@.len() == o.len(),
            o == old(nodes)@,
            forall|k: int| i <= k < nodes@.len() ==> #[trigger] nodes@[k] == o[k],
            forall|k: int|
                0 <= k < i ==> #[trigger] nodes@[k] == if held_back(o, k) {
                    Node { status: JobStatus::NotSubmitted, ..o[k] }
                } else {
                    o[k]
                },
            forall|s: Seq<char>|
                #[trigger] has_name(names@, s) <==> (name_running(o, s) || name_ready_before(
                    o,
                    i as int,
                    s,
                )),
        decreases nodes@.len() - i,
    {
        let mut node = nodes.remove(i);
        assert(node == o[i as int]);
        let ghost before = names@;
        let mut hold = false;
        if let JobStatus::ReadyForSubmission = node.status {
            if let NodeBehavior::TaskNode(t) = &node.behavior {
                if t.caching {
                    if contains_name(&names, t.name.as_str()) {
                        hold = true;
                    } else {
                        names.push(t.name.clone());
                    }
                }
            }
        }
        if hold {
            node.status = JobStatus::NotSubmitted;
        }
        nodes.insert(i, node);
        assert forall|s: Seq<char>| #[trigger] has_name(names@, s) <==> (name_running(o, s)
            || name_ready_before(o, i + 1, s)) by {
            lemma_name_ready_step(o, i as int, s);
            if names@.len() > before.len() {
                assert(names@ == before.push(names@.last()));
                lemma_has_name_push(before, names@.last(), s);
            }
        }
        i = i + 1;
    }
}

} // verus!
