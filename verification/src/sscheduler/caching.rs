//! Caching of the string-keyed scheduler: a ready task whose previous run
//! had the same input, and whose artifacts still exist, is completed from
//! the cache; otherwise its input is saved for the run.

use crate::cache::{answered, copied_to, inputs_equal, inputs_match};
use crate::schemas::JsonValue;
use crate::sscheduler::model::{
    Artifact, InputKwarg, JobStatus, Node, NodeBehavior, NodeFailure, NodeResult, Parent,
    ParentType, TaskOutput,
};
use crate::state::input_map;
use vstd::prelude::*;

verus! {

/// The static keyword arguments, in order (a later key wins).
pub open spec fn kwargs_input(kwargs: Seq<InputKwarg>) -> Map<Seq<char>, JsonValue>
    decreases kwargs.len(),
{
    if kwargs.len() == 0 {
        Map::empty()
    } else {
        kwargs_input(kwargs.drop_last()).insert(kwargs.last().key@, kwargs.last().value)
    }
}

/// The input `m` with, for each parent in order, the path of an artifact
/// it hands or its output `outs[k]` (indexed like the parents).
pub open spec fn parents_input(
    parents: Seq<Parent>,
    outs: Seq<JsonValue>,
    m: Map<Seq<char>, JsonValue>,
) -> Map<Seq<char>, JsonValue>
    decreases parents.len(),
{
    if parents.len() == 0 {
        m
    } else {
        let prev = parents_input(parents.drop_last(), outs, m);
        match parents.last().parent_type {
            ParentType::Artifact { key, path, .. } => prev.insert(key@, JsonValue::Text(path)),
            ParentType::Output { key } => prev.insert(key@, outs[parents.len() - 1]),
            _ => prev,
        }
    }
}

/// `read_output` gave, for the node `uid`, an output whose value is `v`.
pub open spec fn output_read<RO: Fn(String) -> Result<TaskOutput, String>>(
    read_output: RO,
    uid: Seq<char>,
    v: JsonValue,
) -> bool {
    exists|o: TaskOutput| o.output == v && #[trigger] answered(read_output, uid, Ok::<TaskOutput, String>(o))
}

/// `outs[k]` is the output read for each parent before `n` that hands its
/// output.
pub open spec fn outputs_read_before<RO: Fn(String) -> Result<TaskOutput, String>>(
    parents: Seq<Parent>,
    n: int,
    read_output: RO,
    outs: Seq<JsonValue>,
) -> bool {
    forall|k: int|
        0 <= k < n && (#[trigger] parents[k]).parent_type is Output ==> output_read(
            read_output,
            parents[k].uid@,
            outs[k],
        )
}

/// Reading the input of a task, with `outs` the outputs read from the
/// parents, gave `r`: its keyword arguments, then for each parent the
/// artifact path or the output it hands; or the error of the first output
/// that could not be read.
pub open spec fn input_read_with<RO: Fn(String) -> Result<TaskOutput, String>>(
    node: Node,
    kwargs: Seq<InputKwarg>,
    read_output: RO,
    outs: Seq<JsonValue>,
    r: Result<Vec<(String, JsonValue)>, String>,
) -> bool {
    let parents = node.parents@;
    &&& outs.len() == parents.len()
    &&& match r {
        Ok(v) => outputs_read_before(parents, parents.len() as int, read_output, outs) && input_map(v@)
            == parents_input(parents, outs, kwargs_input(kwargs)),
        Err(e) => exists|k: int|
            0 <= k < parents.len() && (#[trigger] parents[k]).parent_type is Output
                && outputs_read_before(parents, k, read_output, outs) && answered(
                read_output,
                parents[k].uid@,
                Err::<TaskOutput, String>(e),
            ),
    }
}

/// What reading the input of a task gives (see `input_read_with`).
pub open spec fn input_data_read<RO: Fn(String) -> Result<TaskOutput, String>>(
    node: Node,
    kwargs: Seq<InputKwarg>,
    read_output: RO,
    r: Result<Vec<(String, JsonValue)>, String>,
) -> bool {
    exists|outs: Seq<JsonValue>| #[trigger] input_read_with(node, kwargs, read_output, outs, r)
}

/// Read the input of a task (see `input_data_read`).
pub fn read_input_data<RO: Fn(String) -> Result<TaskOutput, String>>(
    node: &Node,
    input_kwargs: &[InputKwarg],
    read_output: &RO,
) -> (r: Result<Vec<(String, JsonValue)>, String>)
    requires
        forall|p: String| read_output.requires((p,)),
    ensures
        input_data_read(*node, input_kwargs@, *read_output, r),
{
    let mut input: Vec<(String, JsonValue)> = Vec::new();
    let mut i: usize = 0;
    while i < input_kwargs.len()
        invariant
            i <= input_kwargs@.len(),
            input_map(input@) == kwargs_input(input_kwargs@.take(i as int)),
        decreases input_kwargs@.len() - i,
    {
        assert(input_kwargs@.take(i + 1).drop_last() =~= input_kwargs@.take(i as int));
        assert(input_kwargs@.take(i + 1).last() == input_kwargs@[i as int]);
        let ghost before = input@;
        input.push((input_kwargs[i].key.clone(), input_kwargs[i].value.copied()));
        assert(input@.drop_last() =~= before);
        i = i + 1;
    }
    assert(input_kwargs@.take(input_kwargs@.len() as int) =~= input_kwargs@);
    let ghost base = kwargs_input(input_kwargs@);
    let ghost parents = node.parents@;
    let ghost mut outs: Seq<JsonValue> = Seq::new(parents.len(), |k: int| JsonValue::Null);
    let mut k: usize = 0;
    while k < node.parents.len()
        invariant
            k <= parents.len(),
            parents == node.parents@,
            outs.len() == parents.len(),
            base == kwargs_input(input_kwargs@),
            forall|p: String| read_output.requires((p,)),
            outputs_read_before(parents, k as int, *read_output, outs),
            input_map(input@) == parents_input(parents.take(k as int), outs, base),
        decreases parents.len() - k,
    {
        assert(parents.take(k + 1).drop_last() =~= parents.take(k as int));
        assert(parents.take(k + 1).last() == parents[k as int]);
        let ghost before = input@;
        match &node.parents[k].parent_type {
            ParentType::Artifact { key, path, .. } => {
                input.push((key.clone(), JsonValue::Text(path.clone())));
                assert(input@.drop_last() =~= before);
            },
            ParentType::Output { key } => {
                let uid = node.parents[k].uid.clone();
                let ghost gu = uid;
                let o = read_output(uid);
                assert(read_output.ensures((gu,), o));
                match o {
                    Ok(out) => {
                        proof {
                            assert(answered(*read_output, parents[k as int].uid@, Ok::<TaskOutput, String>(out)));
                            assert(output_read(*read_output, parents[k as int].uid@, out.output));
                            let prev = outs;
                            outs = prev.update(k as int, out.output);
                            lemma_parents_input_prefix(parents.take(k as int), outs, prev, base);
                            assert(outputs_read_before(parents, k as int, *read_output, prev));
                            assert forall|j: int|
                                0 <= j < k + 1 && (#[trigger] parents[j]).parent_type is Output implies output_read(
                                *read_output,
                                parents[j].uid@,
                                outs[j],
                            ) by {
                                if j < k {
                                    assert(outs[j] == prev[j]);
                                }
                            }
                        }
                        input.push((key.clone(), out.output.copied()));
                        assert(input@.drop_last() =~= before);
                    },
                    Err(e) => {
                        assert(answered(*read_output, parents[k as int].uid@, Err::<TaskOutput, String>(e)));
                        assert(parents[k as int].parent_type is Output);
                        assert(outputs_read_before(parents, k as int, *read_output, outs));
                        let r = Err(e);
                        assert(input_read_with(*node, input_kwargs@, *read_output, outs, r));
                        return r;
                    },
                }
            },
            _ => {},
        }
        k = k + 1;
    }
    assert(parents.take(parents.len() as int) =~= parents);
    let r = Ok(input);
    assert(input_read_with(*node, input_kwargs@, *read_output, outs, r));
    r
}

proof fn lemma_parents_input_prefix(
    parents: Seq<Parent>,
    a: Seq<JsonValue>,
    b: Seq<JsonValue>,
    m: Map<Seq<char>, JsonValue>,
)
    requires
        forall|k: int| 0 <= k < parents.len() ==> a[k] == b[k],
    ensures
        parents_input(parents, a, m) == parents_input(parents, b, m),
    decreases parents.len(),
{
    if parents.len() > 0 {
        lemma_parents_input_prefix(parents.drop_last(), a, b, m);
    }
}

/// `save_input` gave `r` when saving the input `input` of the node `uid`.
pub open spec fn input_saved<SI: Fn(String, Vec<(String, JsonValue)>) -> Result<(), String>>(
    save_input: SI,
    uid: Seq<char>,
    input: Map<Seq<char>, JsonValue>,
    r: Result<(), String>,
) -> bool {
    exists|a: String, v: Vec<(String, JsonValue)>|
        a@ == uid && input_map(v@) == input && #[trigger] save_input.ensures((a, v), r)
}

/// A task treated as not cached: its input is saved, and the answer is
/// `false` or the error of saving.
pub open spec fn saved_as_uncached<SI: Fn(String, Vec<(String, JsonValue)>) -> Result<(), String>>(
    save_input: SI,
    uid: Seq<char>,
    input: Map<Seq<char>, JsonValue>,
    r: Result<bool, String>,
) -> bool {
    exists|s: Result<(), String>|
        #[trigger] input_saved(save_input, uid, input, s) && match s {
            Ok(_) => r == Ok::<bool, String>(false),
            Err(e) => r == Err::<bool, String>(e),
        }
}

/// `exists_fn` found every artifact (`found`), or missed one of them.
pub open spec fn artifacts_present<E: Fn(String) -> bool>(
    arts: Seq<Artifact>,
    exists_fn: E,
    found: bool,
) -> bool {
    if found {
        forall|i: int| 0 <= i < arts.len() ==> #[trigger] answered(exists_fn, arts[i].path@, true)
    } else {
        exists|i: int| 0 <= i < arts.len() && #[trigger] answered(exists_fn, arts[i].path@, false)
    }
}

/// What checking the cache of a ready task gives, once its input `input`
/// is read: the cached run of the function `fname` is copied into the
/// node first; the task is cached when it caches, the copy succeeded, the
/// input of the previous run reads back equal and every artifact exists;
/// otherwise it is treated as not cached (see `saved_as_uncached`).
pub open spec fn cache_compared<
    CC: Fn(String, String) -> Result<u64, String>,
    RC: Fn(String) -> Result<Vec<(String, JsonValue)>, String>,
    E: Fn(String) -> bool,
    SI: Fn(String, Vec<(String, JsonValue)>) -> Result<(), String>,
>(
    node: Node,
    caching: bool,
    fname: Seq<char>,
    input: Map<Seq<char>, JsonValue>,
    copy_cache: CC,
    read_cached: RC,
    exists_fn: E,
    save_input: SI,
    r: Result<bool, String>,
) -> bool {
    exists|c: Result<u64, String>|
        #[trigger] copied_to(copy_cache, fname, node.uid@, c) && if !caching || c is Err {
            saved_as_uncached(save_input, node.uid@, input, r)
        } else {
            exists|ci: Result<Vec<(String, JsonValue)>, String>|
                #[trigger] answered(read_cached, node.uid@, ci) && match ci {
                    Err(_) => saved_as_uncached(save_input, node.uid@, input, r),
                    Ok(cv) => if !inputs_match(input_map(cv@), input) {
                        saved_as_uncached(save_input, node.uid@, input, r)
                    } else {
                        exists|b: bool|
                            #[trigger] artifacts_present(node.output_artifacts@, exists_fn, b) && if b {
                                r == Ok::<bool, String>(true)
                            } else {
                                saved_as_uncached(save_input, node.uid@, input, r)
                            }
                    },
                }
        }
}

/// What checking the cache of a ready task gives: the error of reading
/// its input, or the comparison with its cache (see `cache_compared`).
pub open spec fn task_caching_checked<
    RO: Fn(String) -> Result<TaskOutput, String>,
    CC: Fn(String, String) -> Result<u64, String>,
    RC: Fn(String) -> Result<Vec<(String, JsonValue)>, String>,
    E: Fn(String) -> bool,
    SI: Fn(String, Vec<(String, JsonValue)>) -> Result<(), String>,
>(
    node: Node,
    caching: bool,
    fname: Seq<char>,
    kwargs: Seq<InputKwarg>,
    read_output: RO,
    copy_cache: CC,
    read_cached: RC,
    exists_fn: E,
    save_input: SI,
    r: Result<bool, String>,
) -> bool {
    exists|inp: Result<Vec<(String, JsonValue)>, String>|
        #[trigger] input_data_read(node, kwargs, read_output, inp) && match inp {
            Err(e) => r == Err::<bool, String>(e),
            Ok(v) => cache_compared(
                node,
                caching,
                fname,
                input_map(v@),
                copy_cache,
                read_cached,
                exists_fn,
                save_input,
                r,
            ),
        }
}

/// Save the input of a task that runs, and answer `false`.
fn treat_as_uncached<SI: Fn(String, Vec<(String, JsonValue)>) -> Result<(), String>>(
    uid: &String,
    input: Vec<(String, JsonValue)>,
    save_input: &SI,
) -> (r: Result<bool, String>)
    requires
        forall|a: String, v: Vec<(String, JsonValue)>| save_input.requires((a, v)),
    ensures
        saved_as_uncached(*save_input, uid@, input_map(input@), r),
{
    let a = uid.clone();
    let ghost (ga, gv) = (a, input);
    let s = save_input(a, input);
    assert(save_input.ensures((ga, gv), s));
    assert(input_saved(*save_input, uid@, input_map(gv@), s));
    match s {
        Ok(_) => Ok(false),
        Err(e) => Err(e),
    }
}

/// Whether every artifact exists, asking `exists_fn` in order.
fn all_artifacts_exist<E: Fn(String) -> bool>(arts: &Vec<Artifact>, exists_fn: &E) -> (r: bool)
    requires
        forall|p: String| exists_fn.requires((p,)),
    ensures
        artifacts_present(arts@, *exists_fn, r),
{
    let mut i: usize = 0;
    while i < arts.len()
        invariant
            i <= arts@.len(),
            forall|p: String| exists_fn.requires((p,)),
            forall|j: int| 0 <= j < i ==> #[trigger] answered(*exists_fn, arts@[j].path@, true),
        decreases arts@.len() - i,
    {
        let p = arts[i].path.clone();
        let ghost gp = p;
        let found = exists_fn(p);
        assert(exists_fn.ensures((gp,), found));
        if !found {
            assert(answered(*exists_fn, arts@[i as int].path@, false));
            return false;
        }
        assert(answered(*exists_fn, arts@[i as int].path@, true));
        i = i + 1;
    }
    true
}

/// Check the cache of a ready task (see `task_caching_checked`).
pub fn check_task_caching<
    RO: Fn(String) -> Result<TaskOutput, String>,
    CC: Fn(String, String) -> Result<u64, String>,
    RC: Fn(String) -> Result<Vec<(String, JsonValue)>, String>,
    E: Fn(String) -> bool,
    SI: Fn(String, Vec<(String, JsonValue)>) -> Result<(), String>,
>(
    node: &Node,
    caching: bool,
    fname: &String,
    input_kwargs: &[InputKwarg],
    read_output: &RO,
    copy_cache: &CC,
    read_cached: &RC,
    exists_fn: &E,
    save_input: &SI,
) -> (r: Result<bool, String>)
    requires
        forall|p: String| read_output.requires((p,)),
        forall|a: String, b: String| copy_cache.requires((a, b)),
        forall|p: String| read_cached.requires((p,)),
        forall|p: String| exists_fn.requires((p,)),
        forall|a: String, v: Vec<(String, JsonValue)>| save_input.requires((a, v)),
    ensures
        task_caching_checked(
            *node,
            caching,
            fname@,
            input_kwargs@,
            *read_output,
            *copy_cache,
            *read_cached,
            *exists_fn,
            *save_input,
            r,
        ),
{
    let inp = read_input_data(node, input_kwargs, read_output);
    let ghost g_inp = inp;
    let input = match inp {
        Err(e) => {
            return Err(e);
        },
        Ok(v) => v,
    };
    let ghost m = input_map(input@);
    let f = fname.clone();
    let u = node.uid.clone();
    let ghost (gf, gu) = (f, u);
    let c = copy_cache(f, u);
    let ghost g_c = c;
    assert(copy_cache.ensures((gf, gu), c));
    assert(copied_to(*copy_cache, fname@, node.uid@, c));
    if !caching || c.is_err() {
        return treat_as_uncached(&node.uid, input, save_input);
    }
    let u2 = node.uid.clone();
    let ghost gu2 = u2;
    let ci = read_cached(u2);
    let ghost g_ci = ci;
    assert(read_cached.ensures((gu2,), ci));
    assert(answered(*read_cached, node.uid@, ci));
    let cached = match ci {
        Err(_) => {
            return treat_as_uncached(&node.uid, input, save_input);
        },
        Ok(cv) => cv,
    };
    if !inputs_equal(cached.as_slice(), input.as_slice()) {
        return treat_as_uncached(&node.uid, input, save_input);
    }
    let found = all_artifacts_exist(&node.output_artifacts, exists_fn);
    if !found {
        return treat_as_uncached(&node.uid, input, save_input);
    }
    Ok(true)
}

/// A node after its cache check gave `res`: failed on an error,
/// completed when cached, unchanged otherwise.
pub open spec fn caching_status(n: Node, res: Result<bool, String>) -> Node {
    match res {
        Err(_) => Node { status: JobStatus::Failed(NodeFailure::Node), ..n },
        Ok(true) => Node { status: JobStatus::Completed(NodeResult::Node), ..n },
        Ok(false) => n,
    }
}

/// Set the status of a node from its cache check (see `caching_status`).
pub fn set_caching_and_status(node: &mut Node, result: Result<bool, String>)
    ensures
        *final(node) == caching_status(*old(node), result),
{
    match result {
        Err(_) => {
            node.status = JobStatus::Failed(NodeFailure::Node);
        },
        Ok(cached) => {
            if cached {
                node.status = JobStatus::Completed(NodeResult::Node);
            }
        },
    }
}

/// The cache round took the node `before` to `after`: a ready task is
/// checked (see `task_caching_checked`) and set from the answer (see
/// `caching_status`); any other node is left alone.
pub open spec fn cache_round_node<
    RO: Fn(String) -> Result<TaskOutput, String>,
    CC: Fn(String, String) -> Result<u64, String>,
    RC: Fn(String) -> Result<Vec<(String, JsonValue)>, String>,
    E: Fn(String) -> bool,
    SI: Fn(String, Vec<(String, JsonValue)>) -> Result<(), String>,
>(
    before: Node,
    after: Node,
    read_output: RO,
    copy_cache: CC,
    read_cached: RC,
    exists_fn: E,
    save_input: SI,
) -> bool {
    match before.behavior {
        NodeBehavior::TaskNode(t) => if before.status is ReadyForSubmission {
            exists|res: Result<bool, String>|
                #[trigger] task_caching_checked(
                    before,
                    t.caching,
                    t.fname@,
                    t.input_kwargs@,
                    read_output,
                    copy_cache,
                    read_cached,
                    exists_fn,
                    save_input,
                    res,
                ) && after == caching_status(before, res)
        } else {
            after == before
        },
        _ => after == before,
    }
}

/// Check the cache of every ready task (see `cache_round_node`).
pub fn read_input_and_cache_tasks<
    RO: Fn(String) -> Result<TaskOutput, String>,
    CC: Fn(String, String) -> Result<u64, String>,
    RC: Fn(String) -> Result<Vec<(String, JsonValue)>, String>,
    E: Fn(String) -> bool,
    SI: Fn(String, Vec<(String, JsonValue)>) -> Result<(), String>,
>(
    nodes: &mut Vec<Node>,
    read_output: &RO,
    copy_cache: &CC,
    read_cached: &RC,
    exists_fn: &E,
    save_input: &SI,
)
    requires
        forall|p: String| read_output.requires((p,)),
        forall|a: String, b: String| copy_cache.requires((a, b)),
        forall|p: String| read_cached.requires((p,)),
        forall|p: String| exists_fn.requires((p,)),
        forall|a: String, v: Vec<(String, JsonValue)>| save_input.requires((a, v)),
    ensures
        final(nodes)@.len() == old(nodes)@.len(),
        forall|i: int|
            0 <= i < old(nodes)@.len() ==> #[trigger] cache_round_node(
                old(nodes)@[i],
                final(nodes)@[i],
                *read_output,
                *copy_cache,
                *read_cached,
                *exists_fn,
                *save_input,
            ),
{
    let ghost o = nodes@;
    let mut i: usize = 0;
    while i < nodes.len()
        invariant
            i <= nodes@.len(),
            nodes@.len() == o.len(),
            o == old(nodes)@,
            forall|p: String| read_output.requires((p,)),
            forall|a: String, b: String| copy_cache.requires((a, b)),
            forall|p: String| read_cached.requires((p,)),
            forall|p: String| exists_fn.requires((p,)),
            forall|a: String, v: Vec<(String, JsonValue)>| save_input.requires((a, v)),
            forall|k: int| i <= k < nodes@.len() ==> #[trigger] nodes@[k] == o[k],
            forall|k: int|
                0 <= k < i ==> #[trigger] cache_round_node(
                    o[k],
                    nodes@[k],
                    *read_output,
                    *copy_cache,
                    *read_cached,
                    *exists_fn,
                    *save_input,
                ),
        decreases nodes@.len() - i,
    {
        let mut node = nodes.remove(i);
        assert(node == o[i as int]);
        if let JobStatus::ReadyForSubmission = node.status {
            let res = match &node.behavior {
                NodeBehavior::TaskNode(t) => Some(
                    check_task_caching(
                        &node,
                        t.caching,
                        &t.fname,
                        t.input_kwargs.as_slice(),
                        read_output,
                        copy_cache,
                        read_cached,
                        exists_fn,
                        save_input,
                    ),
                ),
                _ => None,
            };
            if let Some(r) = res {
                let ghost gr = r;
                set_caching_and_status(&mut node, r);
                assert(node == caching_status(o[i as int], gr));
            }
        }
        nodes.insert(i, node);
        assert(cache_round_node(
            o[i as int],
            nodes@[i as int],
            *read_output,
            *copy_cache,
            *read_cached,
            *exists_fn,
            *save_input,
        ));
        i = i + 1;
    }
}

/// Save the cache of a completed cacheable task, by the function name and
/// uid; an error of `cache_task` is not reported.
pub fn replace_cache<C: Fn(String, String) -> Result<u64, String>>(node: &Node, cache_task: &C)
    requires
        forall|a: String, b: String| cache_task.requires((a, b)),
    ensures
        match (node.status, node.behavior) {
            (JobStatus::Completed(NodeResult::Task(_)), NodeBehavior::TaskNode(t)) => t.caching ==> exists|
                c: Result<u64, String>,
            | #[trigger] copied_to(*cache_task, t.fname@, node.uid@, c),
            _ => true,
        },
{
    if let JobStatus::Completed(NodeResult::Task(_)) = &node.status {
        if let NodeBehavior::TaskNode(t) = &node.behavior {
            if t.caching {
                let f = t.fname.clone();
                let u = node.uid.clone();
                let ghost (gf, gu) = (f, u);
                let c = cache_task(f, u);
                assert(cache_task.ensures((gf, gu), c));
                assert(copied_to(*cache_task, t.fname@, node.uid@, c));
            }
        }
    }
}

} // verus!
