//! Input data of a task: its static keyword arguments, the artifacts and
//! outputs of its parents. Files are read by the caller.

use crate::blocking::{get_node_dir, node_dir};
use crate::nodes::Task;
use crate::schemas::{JsonValue, Kwarg, Parent, ParentKind};
use vstd::prelude::*;

verus! {

/// The map an input list stands for: a later entry overrides an earlier
/// one with the same key.
pub open spec fn input_map(v: Seq<(String, JsonValue)>) -> Map<Seq<char>, JsonValue>
    decreases v.len(),
{
    if v.len() == 0 {
        Map::empty()
    } else {
        input_map(v.drop_last()).insert(v.last().0@, v.last().1)
    }
}

/// Static keyword arguments, in order.
pub open spec fn kwargs_map(kwargs: Seq<Kwarg>, m: Map<Seq<char>, JsonValue>) -> Map<Seq<char>, JsonValue>
    decreases kwargs.len(),
{
    if kwargs.len() == 0 {
        m
    } else {
        kwargs_map(kwargs.drop_last(), m).insert(kwargs.last().key@, kwargs.last().value)
    }
}

/// Artifacts of the parents, each given as its path under its key.
pub open spec fn artifacts_map(parents: Seq<Parent>, m: Map<Seq<char>, JsonValue>) -> Map<
    Seq<char>,
    JsonValue,
>
    decreases parents.len(),
{
    if parents.len() == 0 {
        m
    } else {
        let prev = artifacts_map(parents.drop_last(), m);
        match parents.last().kind {
            ParentKind::Artifact { key, path, .. } => prev.insert(key@, JsonValue::Text(path)),
            _ => prev,
        }
    }
}

/// Static input of a task: its keyword arguments, then the artifacts of
/// its parents.
pub open spec fn static_input(kwargs: Seq<Kwarg>, parents: Seq<Parent>) -> Map<Seq<char>, JsonValue> {
    artifacts_map(parents, kwargs_map(kwargs, Map::empty()))
}

/// Static input of a task (see `static_input`).
pub fn get_static_input(kwargs: &[Kwarg], parents: &[Parent]) -> (r: Vec<(String, JsonValue)>)
    ensures
        input_map(r@) == static_input(kwargs@, parents@),
{
    let mut r: Vec<(String, JsonValue)> = Vec::new();
    let mut i: usize = 0;
    while i < kwargs.len()
        invariant
            i <= kwargs@.len(),
            input_map(r@) == kwargs_map(kwargs@.take(i as int), Map::empty()),
        decreases kwargs@.len() - i,
    {
        assert(kwargs@.take(i + 1).drop_last() =~= kwargs@.take(i as int));
        assert(kwargs@.take(i + 1).last() == kwargs@[i as int]);
        let ghost before = r@;
        r.push((kwargs[i].key.clone(), kwargs[i].value.copied()));
        assert(r@.drop_last() =~= before);
        i = i + 1;
    }
    assert(kwargs@.take(kwargs@.len() as int) =~= kwargs@);
    let ghost base = input_map(r@);
    let mut j: usize = 0;
    while j < parents.len()
        invariant
            j <= parents@.len(),
            base == kwargs_map(kwargs@, Map::empty()),
            input_map(r@) == artifacts_map(parents@.take(j as int), base),
        decreases parents@.len() - j,
    {
        assert(parents@.take(j + 1).drop_last() =~= parents@.take(j as int));
        assert(parents@.take(j + 1).last() == parents@[j as int]);
        if let ParentKind::Artifact { key, path, .. } = &parents[j].kind {
            let ghost before = r@;
            r.push((key.clone(), JsonValue::Text(path.clone())));
            assert(r@.drop_last() =~= before);
        }
        j = j + 1;
    }
    assert(parents@.take(parents@.len() as int) =~= parents@);
    r
}

/// The parents whose output is an input: key and uid, in order.
pub open spec fn output_parents(parents: Seq<Parent>) -> Seq<(Seq<char>, usize)>
    decreases parents.len(),
{
    if parents.len() == 0 {
        Seq::empty()
    } else {
        let prev = output_parents(parents.drop_last());
        match parents.last().kind {
            ParentKind::Output { key } => prev.push((key@, parents.last().uid)),
            _ => prev,
        }
    }
}

/// The outputs `outs` of the parents `ops`, each under its key.
pub open spec fn outputs_map(
    ops: Seq<(Seq<char>, usize)>,
    outs: Seq<JsonValue>,
    m: Map<Seq<char>, JsonValue>,
) -> Map<Seq<char>, JsonValue>
    decreases ops.len(),
{
    if ops.len() == 0 || outs.len() == 0 {
        m
    } else {
        outputs_map(ops.drop_last(), outs.drop_last(), m).insert(ops.last().0, outs.last())
    }
}

/// `read` gave `v` when handed the path `dir`.
pub open spec fn read_gave<R: Fn(String) -> Result<JsonValue, String>>(
    dir: Seq<char>,
    read: R,
    v: Result<JsonValue, String>,
) -> bool {
    exists|p: String| p@ == dir && #[trigger] read.ensures((p,), v)
}

/// `read` gave the output values `outs` for the first parents of `ops`,
/// reading each parent's node directory in `dagdir`.
pub open spec fn outputs_read<R: Fn(String) -> Result<JsonValue, String>>(
    ops: Seq<(Seq<char>, usize)>,
    dagdir: Seq<char>,
    read: R,
    outs: Seq<JsonValue>,
) -> bool {
    &&& outs.len() <= ops.len()
    &&& forall|k: int|
        0 <= k < outs.len() ==> #[trigger] read_gave(
            node_dir(dagdir, ops[k].1 as nat),
            read,
            Ok::<JsonValue, String>(outs[k]),
        )
}

/// What reading the input of a task gives: its static input with the
/// output of each parent it takes as input, in order; or the first error
/// of a read.
pub open spec fn input_read<R: Fn(String) -> Result<JsonValue, String>>(
    task: Task,
    dagdir: Seq<char>,
    read: R,
    r: Result<Vec<(String, JsonValue)>, String>,
) -> bool {
    let ops = output_parents(task.parents@);
    exists|outs: Seq<JsonValue>|
        #[trigger] outputs_read(ops, dagdir, read, outs) && match r {
            Ok(v) => outs.len() == ops.len() && input_map(v@) == outputs_map(
                ops,
                outs,
                static_input(task.kwargs@, task.parents@),
            ),
            Err(e) => outs.len() < ops.len() && read_gave(
                node_dir(dagdir, ops[outs.len() as int].1 as nat),
                read,
                Err::<JsonValue, String>(e),
            ),
        }
}

/// Read the input of a task: its static input, then the output of each
/// parent it takes as input, read by `read` from the parent's node
/// directory (see `input_read`).
pub fn read_input_from_parents<R: Fn(String) -> Result<JsonValue, String>>(
    task: &Task,
    dagdir: &str,
    read: &R,
) -> (r: Result<Vec<(String, JsonValue)>, String>)
    requires
        forall|p: String| read.requires((p,)),
    ensures
        input_read(*task, dagdir@, *read, r),
{
    let mut input = get_static_input(task.kwargs.as_slice(), task.parents.as_slice());
    let ghost base = static_input(task.kwargs@, task.parents@);
    let ghost mut outs: Seq<JsonValue> = Seq::empty();
    let mut i: usize = 0;
    while i < task.parents.len()
        invariant
            i <= task.parents@.len(),
            forall|p: String| read.requires((p,)),
            base == static_input(task.kwargs@, task.parents@),
            outs.len() == output_parents(task.parents@.take(i as int)).len(),
            outputs_read(output_parents(task.parents@.take(i as int)), dagdir@, *read, outs),
            input_map(input@) == outputs_map(output_parents(task.parents@.take(i as int)), outs, base),
        decreases task.parents@.len() - i,
    {
        let ghost ops_before = output_parents(task.parents@.take(i as int));
        assert(task.parents@.take(i + 1).drop_last() =~= task.parents@.take(i as int));
        assert(task.parents@.take(i + 1).last() == task.parents@[i as int]);
        if let ParentKind::Output { key } = &task.parents[i].kind {
            let ghost ops_after = output_parents(task.parents@.take(i + 1));
            assert(ops_after == ops_before.push((key@, task.parents@[i as int].uid)));
            let path = get_node_dir(dagdir, task.parents[i].uid);
            let ghost gp = path;
            let value = read(path);
            assert(read.ensures((gp,), value));
            match value {
                Ok(v) => {
                    let ghost before = input@;
                    proof {
                        let prev = outs;
                        outs = outs.push(v);
                        assert(outs.drop_last() =~= prev);
                        assert(ops_after.drop_last() =~= ops_before);
                        assert forall|k: int| 0 <= k < outs.len() implies #[trigger] read_gave(
                            node_dir(dagdir@, ops_after[k].1 as nat),
                            *read,
                            Ok::<JsonValue, String>(outs[k]),
                        ) by {
                            if k < prev.len() {
                                assert(ops_after[k] == ops_before[k]);
                                assert(outs[k] == prev[k]);
                                assert(read_gave(
                                    node_dir(dagdir@, ops_before[k].1 as nat),
                                    *read,
                                    Ok::<JsonValue, String>(prev[k]),
                                ));
                            } else {
                                assert(read.ensures((gp,), Ok::<JsonValue, String>(outs[k])));
                            }
                        }
                    }
                    input.push((key.clone(), v));
                    assert(input@.drop_last() =~= before);
                },
                Err(e) => {
                    proof {
                        assert(outputs_read(ops_before, dagdir@, *read, outs));
                        let full = output_parents(task.parents@);
                        lemma_output_parents_prefix(task.parents@, i as int + 1);
                        assert(full.take(ops_after.len() as int) == ops_after);
                        assert(full[outs.len() as int] == ops_after[outs.len() as int]);
                        assert forall|k: int| 0 <= k < outs.len() implies #[trigger] read_gave(
                            node_dir(dagdir@, full[k].1 as nat),
                            *read,
                            Ok::<JsonValue, String>(outs[k]),
                        ) by {
                            assert(full.take(ops_after.len() as int)[k] == full[k]);
                            assert(ops_after[k] == ops_before[k]);
                            assert(full[k] == ops_before[k]);
                            assert(read_gave(
                                node_dir(dagdir@, ops_before[k].1 as nat),
                                *read,
                                Ok::<JsonValue, String>(outs[k]),
                            ));
                        }
                        assert(outputs_read(full, dagdir@, *read, outs));
                        assert(read.ensures((gp,), Err::<JsonValue, String>(e)));
                    }
                    return Err(e);
                },
            }
        } else {
            assert(output_parents(task.parents@.take(i + 1)) == ops_before);
        }
        i = i + 1;
    }
    assert(task.parents@.take(task.parents@.len() as int) =~= task.parents@);
    Ok(input)
}

/// The output parents of a prefix of the parents are a prefix of those of
/// all the parents.
proof fn lemma_output_parents_prefix(parents: Seq<Parent>, n: int)
    requires
        0 <= n <= parents.len(),
    ensures
        output_parents(parents.take(n)).len() <= output_parents(parents).len(),
        output_parents(parents).take(output_parents(parents.take(n)).len() as int)
            == output_parents(parents.take(n)),
    decreases parents.len() - n,
{
    if n < parents.len() {
        lemma_output_parents_prefix(parents, n + 1);
        assert(parents.take(n + 1).drop_last() =~= parents.take(n));
        let a = output_parents(parents.take(n));
        let b = output_parents(parents.take(n + 1));
        let f = output_parents(parents);
        assert(f.take(b.len() as int).take(a.len() as int) =~= f.take(a.len() as int));
        if b.len() > a.len() {
            assert(b.take(a.len() as int) =~= a);
        } else {
            assert(b == a);
        }
    } else {
        assert(parents.take(n) =~= parents);
        assert(output_parents(parents).take(output_parents(parents).len() as int) =~= output_parents(
            parents,
        ));
    }
}

} // verus!
