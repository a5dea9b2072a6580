//! The input of a node of the string-keyed scheduler, read from its
//! parents' outputs, and the check of a previous run against it.

use crate::cache::{answered, inputs_equal, inputs_match};
use crate::schemas::JsonValue;
use crate::sscheduler::caching::{artifacts_present, kwargs_input};
use crate::sscheduler::model::{Artifact, InputKwarg, Node, Parent, ParentType, TaskOutput};
use crate::sscheduler::status_management::{find_node, node_by_uid};
use crate::state::input_map;
use crate::text::str_eq;
use vstd::prelude::*;

verus! {

/// Reads and checks the input data of the node `uid`.
pub struct InputDataHandler {
    pub uid: String,
}

/// The first artifact named `name`.
pub open spec fn first_artifact(arts: Seq<Artifact>, name: Seq<char>) -> Option<Artifact>
    decreases arts.len(),
{
    if arts.len() == 0 {
        None
    } else if arts[0].name@ == name {
        Some(arts[0])
    } else {
        first_artifact(arts.drop_first(), name)
    }
}

/// The parent hands its output or one of its artifacts, so its output is
/// read.
pub open spec fn reads_parent(p: Parent) -> bool {
    p.parent_type is Output || p.parent_type is Artifact
}

/// The input `m` with, for each parent in order, the output value it
/// hands, or the path of the first of its artifacts with the name it
/// hands (nothing when there is none), `outs[k]` being the output read
/// from parent `k`.
pub open spec fn handler_input(
    parents: Seq<Parent>,
    outs: Seq<TaskOutput>,
    m: Map<Seq<char>, JsonValue>,
) -> Map<Seq<char>, JsonValue>
    decreases parents.len(),
{
    if parents.len() == 0 {
        m
    } else {
        let prev = handler_input(parents.drop_last(), outs, m);
        let o = outs[parents.len() - 1];
        match parents.last().parent_type {
            ParentType::Output { key } => prev.insert(key@, o.output),
            ParentType::Artifact { key, name, .. } => match first_artifact(o.artifacts@, name@) {
                Some(a) => prev.insert(key@, JsonValue::Text(a.path)),
                None => prev,
            },
            _ => prev,
        }
    }
}

/// `outs[k]` is the output read for each parent before `n` whose output
/// is read.
pub open spec fn parent_outputs_read<RO: Fn(String) -> Result<TaskOutput, String>>(
    parents: Seq<Parent>,
    n: int,
    read_output: RO,
    outs: Seq<TaskOutput>,
) -> bool {
    forall|k: int|
        0 <= k < n && reads_parent(#[trigger] parents[k]) ==> answered(
            read_output,
            parents[k].uid@,
            Ok::<TaskOutput, String>(outs[k]),
        )
}

/// Reading the input of a node with parents `parents`, with `outs` the
/// outputs read from them, gave `r`: its keyword arguments, then what its
/// parents hand (see `handler_input`); or the error of the first read
/// that failed.
pub open spec fn handler_read_with<RO: Fn(String) -> Result<TaskOutput, String>>(
    parents: Seq<Parent>,
    kwargs: Seq<InputKwarg>,
    read_output: RO,
    outs: Seq<TaskOutput>,
    r: Result<Vec<(String, JsonValue)>, String>,
) -> bool {
    &&& outs.len() == parents.len()
    &&& match r {
        Ok(v) => parent_outputs_read(parents, parents.len() as int, read_output, outs) && input_map(
            v@,
        ) == handler_input(parents, outs, kwargs_input(kwargs)),
        Err(e) => exists|k: int|
            0 <= k < parents.len() && reads_parent(#[trigger] parents[k]) && parent_outputs_read(
                parents,
                k,
                read_output,
                outs,
            ) && answered(read_output, parents[k].uid@, Err::<TaskOutput, String>(e)),
    }
}

/// The path of the first artifact named `name` (see `first_artifact`).
fn find_artifact(arts: &Vec<Artifact>, name: &str) -> (r: Option<usize>)
    ensures
        match r {
            Some(i) => i < arts@.len() && first_artifact(arts@, name@) == Some(arts@[i as int]),
            None => first_artifact(arts@, name@) is None,
        },
{
    let mut i: usize = 0;
    assert(arts@.subrange(0, arts@.len() as int) =~= arts@);
    while i < arts.len()
        invariant
            i <= arts@.len(),
            first_artifact(arts@, name@) == first_artifact(arts@.subrange(i as int, arts@.len() as int), name@),
        decreases arts@.len() - i,
    {
        let ghost rest = arts@.subrange(i as int, arts@.len() as int);
        assert(rest[0] == arts@[i as int]);
        assert(rest.drop_first() =~= arts@.subrange(i + 1, arts@.len() as int));
        if str_eq(arts[i].name.as_str(), name) {
            return Some(i);
        }
        i = i + 1;
    }
    assert(arts@.subrange(i as int, arts@.len() as int) =~= Seq::<Artifact>::empty());
    None
}

proof fn lemma_handler_input_prefix(
    parents: Seq<Parent>,
    a: Seq<TaskOutput>,
    b: Seq<TaskOutput>,
    m: Map<Seq<char>, JsonValue>,
)
    requires
        forall|k: int| 0 <= k < parents.len() ==> a[k] == b[k],
    ensures
        handler_input(parents, a, m) == handler_input(parents, b, m),
    decreases parents.len(),
{
    if parents.len() > 0 {
        lemma_handler_input_prefix(parents.drop_last(), a, b, m);
    }
}

impl InputDataHandler {
    /// Read the input of the node `uid` (see `handler_read_with`).
    pub fn read_input_data<RO: Fn(String) -> Result<TaskOutput, String>>(
        &self,
        nodes: &[Node],
        input_kwargs: &[InputKwarg],
        read_output: &RO,
    ) -> (r: Result<Vec<(String, JsonValue)>, String>)
        requires
            node_by_uid(nodes@, self.uid@) is Some,
            forall|p: String| read_output.requires((p,)),
        ensures
            exists|outs: Seq<TaskOutput>|
                #[trigger] handler_read_with(
                    node_by_uid(nodes@, self.uid@).unwrap().parents@,
                    input_kwargs@,
                    *read_output,
                    outs,
                    r,
                ),
    {
        let i = find_node(nodes, self.uid.as_str()).unwrap();
        let node = &nodes[i];
        let ghost parents = node.parents@;
        let mut input: Vec<(String, JsonValue)> = Vec::new();
        let mut j: usize = 0;
        while j < input_kwargs.len()
            invariant
                j <= input_kwargs@.len(),
                input_map(input@) == kwargs_input(input_kwargs@.take(j as int)),
            decreases input_kwargs@.len() - j,
        {
            assert(input_kwargs@.take(j + 1).drop_last() =~= input_kwargs@.take(j as int));
            assert(input_kwargs@.take(j + 1).last() == input_kwargs@[j as int]);
            let ghost before = input@;
            input.push((input_kwargs[j].key.clone(), input_kwargs[j].value.copied()));
            assert(input@.drop_last() =~= before);
            j = j + 1;
        }
        assert(input_kwargs@.take(input_kwargs@.len() as int) =~= input_kwargs@);
        let ghost base = kwargs_input(input_kwargs@);
        let ghost mut outs: Seq<TaskOutput> = Seq::new(
            parents.len(),
            |k: int| arbitrary(),
        );
        let mut k: usize = 0;
        while k < node.parents.len()
            invariant
                k <= parents.len(),
                parents == node.parents@,
                parents == node_by_uid(nodes@, self.uid@).unwrap().parents@,
                outs.len() == parents.len(),
                base == kwargs_input(input_kwargs@),
                forall|p: String| read_output.requires((p,)),
                parent_outputs_read(parents, k as int, *read_output, outs),
                input_map(input@) == handler_input(parents.take(k as int), outs, base),
            decreases parents.len() - k,
        {
            assert(parents.take(k + 1).drop_last() =~= parents.take(k as int));
            assert(parents.take(k + 1).last() == parents[k as int]);
            let p = &node.parents[k];
            let reads = match &p.parent_type {
                ParentType::Output { .. } | ParentType::Artifact { .. } => true,
                _ => false,
            };
            if reads {
                let u = p.uid.clone();
                let ghost gu = u;
                let o = read_output(u);
                assert(read_output.ensures((gu,), o));
                let out = match o {
                    Err(e) => {
                        let r = Err(e);
                        assert(answered(*read_output, parents[k as int].uid@, Err::<TaskOutput, String>(r->Err_0)));
                        assert(reads_parent(parents[k as int]));
                        assert(handler_read_with(parents, input_kwargs@, *read_output, outs, r));
                        return r;
                    },
                    Ok(out) => out,
                };
                proof {
                    assert(answered(*read_output, parents[k as int].uid@, Ok::<TaskOutput, String>(out)));
                    let prev = outs;
                    outs = prev.update(k as int, out);
                    lemma_handler_input_prefix(parents.take(k as int), outs, prev, base);
                    assert forall|q: int|
                        0 <= q < k + 1 && reads_parent(#[trigger] parents[q]) implies answered(
                        *read_output,
                        parents[q].uid@,
                        Ok::<TaskOutput, String>(outs[q]),
                    ) by {
                        if q < k {
                            assert(outs[q] == prev[q]);
                        }
                    }
                }
                let ghost before = input@;
                match &p.parent_type {
                    ParentType::Output { key } => {
                        input.push((key.clone(), out.output.copied()));
                        assert(input@.drop_last() =~= before);
                    },
                    ParentType::Artifact { key, name, .. } => {
                        if let Some(a) = find_artifact(&out.artifacts, name.as_str()) {
                            input.push((key.clone(), JsonValue::Text(out.artifacts[a].path.clone())));
                            assert(input@.drop_last() =~= before);
                        }
                    },
                    _ => {},
                }
            }
            k = k + 1;
        }
        assert(parents.take(parents.len() as int) =~= parents);
        let r = Ok(input);
        assert(handler_read_with(parents, input_kwargs@, *read_output, outs, r));
        r
    }

    /// Whether the previous run of the node can be reused: its output reads
    /// back, every artifact it lists exists, and its saved input reads back
    /// equal to `input`.
    pub fn is_cached<
        RO: Fn(String) -> Result<TaskOutput, String>,
        RC: Fn(String) -> Result<Vec<(String, JsonValue)>, String>,
        E: Fn(String) -> bool,
    >(
        &self,
        input: &[(String, JsonValue)],
        read_output: &RO,
        read_cached: &RC,
        exists_fn: &E,
    ) -> (r: bool)
        requires
            forall|p: String| read_output.requires((p,)),
            forall|p: String| read_cached.requires((p,)),
            forall|p: String| exists_fn.requires((p,)),
        ensures
            r ==> exists|o: TaskOutput, c: Vec<(String, JsonValue)>|
                #[trigger] answered(*read_output, self.uid@, Ok::<TaskOutput, String>(o))
                    && artifacts_present(o.artifacts@, *exists_fn, true) && #[trigger] answered(
                    *read_cached,
                    self.uid@,
                    Ok::<Vec<(String, JsonValue)>, String>(c),
                ) && inputs_match(input_map(input@), input_map(c@)),
            !r ==> {
                ||| exists|e: String|
                    #[trigger] answered(*read_output, self.uid@, Err::<TaskOutput, String>(e))
                ||| exists|o: TaskOutput|
                    #[trigger] answered(*read_output, self.uid@, Ok::<TaskOutput, String>(o))
                        && artifacts_present(o.artifacts@, *exists_fn, false)
                ||| exists|ci: Result<Vec<(String, JsonValue)>, String>|
                    #[trigger] answered(*read_cached, self.uid@, ci) && match ci {
                        Err(_) => true,
                        Ok(c) => !inputs_match(input_map(input@), input_map(c@)),
                    }
            },
    {
        let u = self.uid.clone();
        let ghost gu = u;
        let o = read_output(u);
        assert(read_output.ensures((gu,), o));
        let out = match o {
            Err(e) => {
                assert(answered(*read_output, self.uid@, Err::<TaskOutput, String>(e)));
                return false;
            },
            Ok(out) => out,
        };
        assert(answered(*read_output, self.uid@, Ok::<TaskOutput, String>(out)));
        let mut i: usize = 0;
        while i < out.artifacts.len()
            invariant
                i <= out.artifacts@.len(),
                forall|p: String| exists_fn.requires((p,)),
                forall|j: int| 0 <= j < i ==> #[trigger] answered(*exists_fn, out.artifacts@[j].path@, true),
                answered(*read_output, self.uid@, Ok::<TaskOutput, String>(out)),
            decreases out.artifacts@.len() - i,
        {
            let p = out.artifacts[i].path.clone();
            let ghost gp = p;
            let found = exists_fn(p);
            assert(exists_fn.ensures((gp,), found));
            if !found {
                assert(answered(*exists_fn, out.artifacts@[i as int].path@, false));
                assert(artifacts_present(out.artifacts@, *exists_fn, false));
                return false;
            }
            assert(answered(*exists_fn, out.artifacts@[i as int].path@, true));
            i = i + 1;
        }
        assert(artifacts_present(out.artifacts@, *exists_fn, true));
        let u2 = self.uid.clone();
        let ghost gu2 = u2;
        let ci = read_cached(u2);
        assert(read_cached.ensures((gu2,), ci));
        assert(answered(*read_cached, self.uid@, ci));
        match ci {
            Err(_) => false,
            Ok(c) => inputs_equal(input, c.as_slice()),
        }
    }

    /// Save the input of the node through `save_input`.
    pub fn save_input<SI: Fn(String, Vec<(String, JsonValue)>) -> Result<(), String>>(
        &self,
        input: Vec<(String, JsonValue)>,
        save_input: &SI,
    ) -> (r: Result<(), String>)
        requires
            forall|a: String, v: Vec<(String, JsonValue)>| save_input.requires((a, v)),
        ensures
            exists|a: String| a@ == self.uid@ && #[trigger] save_input.ensures((a, input), r),
    {
        let a = self.uid.clone();
        let ghost ga = a;
        let r = save_input(a, input);
        assert(save_input.ensures((ga, input), r));
        r
    }
}

} // verus!
