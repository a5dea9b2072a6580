//! Work done while scheduling, between two polls: reading the choice of a
//! branch, completing one-of nodes, saving the output of external tasks.
//! The file operations are handed in by the caller; the library decides
//! what they act on and what their result means.

use crate::nodes::{Branch, OneOf, Task};
use crate::schemas::{Artifact, JsonValue, Parent, ParentKind, TaskOutput};
use crate::settings::Cfg;
use crate::text::{concat_str, decimal, decimal_string, join_path, path_join};
use vstd::prelude::*;

verus! {

/// Directory of node `uid` in the run directory `dagdir`.
pub open spec fn node_dir(dagdir: Seq<char>, uid: nat) -> Seq<char> {
    path_join(dagdir, decimal(uid))
}

/// Directory of node `uid` in the run directory `dagdir`.
pub fn get_node_dir(dagdir: &str, uid: usize) -> (r: String)
    ensures
        r@ == node_dir(dagdir@, uid as nat),
{
    let d = decimal_string(uid as u64);
    join_path(dagdir, d.as_str())
}

/// Uid of the first parent whose output is an input of the node.
pub open spec fn branch_target(parents: Seq<Parent>) -> Option<usize>
    decreases parents.len(),
{
    if parents.len() == 0 {
        None
    } else if parents[0].kind is Output {
        Some(parents[0].uid)
    } else {
        branch_target(parents.drop_first())
    }
}

/// The parent whose Boolean output selects the branch.
pub fn find_branch_target(parents: &[Parent]) -> (r: Result<usize, String>)
    ensures
        match branch_target(parents@) {
            Some(t) => r == Ok::<usize, String>(t),
            None => r matches Err(m) && m@ == "Failed to identify the target task"@,
        },
{
    let mut i: usize = 0;
    assert(parents@.skip(0) =~= parents@);
    while i < parents.len()
        invariant
            0 <= i <= parents@.len(),
            branch_target(parents@) == branch_target(parents@.skip(i as int)),
        decreases parents@.len() - i,
    {
        assert(parents@.skip(i as int)[0] == parents@[i as int]);
        assert(parents@.skip(i as int).drop_first() =~= parents@.skip(i + 1));
        if let ParentKind::Output { .. } = parents[i].kind {
            return Ok(parents[i].uid);
        }
        i = i + 1;
    }
    Err(String::from_str("Failed to identify the target task"))
}

/// The choice of a branch given what reading the output of its target
/// gave: the Boolean output, or an error message.
pub open spec fn branch_choice(target: nat, read: Result<JsonValue, String>) -> Result<bool, Seq<char>> {
    match read {
        Ok(JsonValue::Bool(b)) => Ok(b),
        Ok(_) => Err("Target "@ + decimal(target) + ", output is not Boolean"@),
        Err(e) => Err("Failed to read task '"@ + decimal(target) + "' output - "@ + e@),
    }
}

/// View of a result with a `String` error.
pub open spec fn result_view<T>(r: Result<T, String>) -> Result<T, Seq<char>> {
    match r {
        Ok(v) => Ok(v),
        Err(e) => Err(e@),
    }
}

/// Interpret the output read from a branch target.
pub fn choose_branch(target: usize, read: Result<JsonValue, String>) -> (r: Result<bool, String>)
    ensures
        result_view(r) == branch_choice(target as nat, read),
{
    match read {
        Ok(JsonValue::Bool(b)) => Ok(b),
        Ok(_) => {
            let d = decimal_string(target as u64);
            let mut m = concat_str("Target ", d.as_str());
            m.append(", output is not Boolean");
            Err(m)
        },
        Err(e) => {
            let d = decimal_string(target as u64);
            let mut m = concat_str("Failed to read task '", d.as_str());
            m.append("' output - ");
            m.append(e.as_str());
            Err(m)
        },
    }
}

/// What evaluating a branch yields when `read_output` reads the output of
/// a node directory: the choice read from the target's output, or an error
/// when the branch has no target.
pub open spec fn branch_evaluated<R: Fn(String) -> Result<JsonValue, String>>(
    parents: Seq<Parent>,
    dagdir: Seq<char>,
    read_output: R,
    r: Result<bool, String>,
) -> bool {
    match branch_target(parents) {
        None => r matches Err(m) && m@ == "Failed to identify the target task"@,
        Some(t) => exists|path: String, out: Result<JsonValue, String>|
            path@ == node_dir(dagdir, t as nat) && #[trigger] read_output.ensures((path,), out)
                && result_view(r) == branch_choice(t as nat, out),
    }
}

/// Evaluate a branch: read the output of the parent that feeds it and
/// require a Boolean.
pub fn submit_branch<R: Fn(String) -> Result<JsonValue, String>>(
    branch: &Branch,
    cfg: &Cfg,
    read_output: &R,
) -> (r: Result<bool, String>)
    requires
        forall|p: String| read_output.requires((p,)),
    ensures
        branch_evaluated(branch.parents@, cfg.dagdir@, *read_output, r),
{
    let target = match find_branch_target(branch.parents.as_slice()) {
        Ok(t) => t,
        Err(e) => return Err(e),
    };
    let path = get_node_dir(cfg.dagdir.as_str(), target);
    let ghost p = path;
    let out = read_output(path);
    let r = choose_branch(target, out);
    assert(read_output.ensures((p,), out));
    r
}

/// What completing a one-of node yields: the result of copying the data of
/// `target` into the node's directory.
pub open spec fn oneof_copied<C: Fn(String, String) -> Result<u64, String>>(
    uid: usize,
    target: usize,
    dagdir: Seq<char>,
    copy_data: C,
    r: Result<u64, String>,
) -> bool {
    exists|src: String, dst: String|
        src@ == node_dir(dagdir, target as nat) && dst@ == node_dir(dagdir, uid as nat)
            && #[trigger] copy_data.ensures((src, dst), r)
}

/// Complete a one-of node with the data of the parent `target`.
pub fn submit_oneof<C: Fn(String, String) -> Result<u64, String>>(
    oneof: &OneOf,
    target: usize,
    cfg: &Cfg,
    copy_data: &C,
) -> (r: Result<u64, String>)
    requires
        forall|s: String, d: String| copy_data.requires((s, d)),
    ensures
        oneof_copied(oneof.uid, target, cfg.dagdir@, *copy_data, r),
{
    let src_dir = get_node_dir(cfg.dagdir.as_str(), target);
    let dst_dir = get_node_dir(cfg.dagdir.as_str(), oneof.uid);
    let ghost (s, d) = (src_dir, dst_dir);
    let r = copy_data(src_dir, dst_dir);
    assert(copy_data.ensures((s, d), r));
    r
}

/// Copy of a list of artifacts.
pub fn copy_artifacts(a: &Vec<Artifact>) -> (r: Vec<Artifact>)
    ensures
        r@ == a@,
{
    let mut r: Vec<Artifact> = Vec::new();
    let mut i: usize = 0;
    while i < a.len()
        invariant
            0 <= i <= a@.len(),
            r@ == a@.take(i as int),
        decreases a@.len() - i,
    {
        let x = Artifact { name: a[i].name.clone(), path: a[i].path.clone() };
        r.push(x);
        assert(r@ =~= a@.take(i + 1));
        i = i + 1;
    }
    assert(a@.take(a@.len() as int) =~= a@);
    r
}

/// Save the output of an external task: no value, and the declared
/// artifacts, written in the task's directory.
pub fn submit_save_ext_output<S: Fn(String, TaskOutput) -> Result<(), String>>(
    task: &Task,
    cfg: &Cfg,
    save_output: &S,
) -> (r: Result<(), String>)
    requires
        forall|p: String, o: TaskOutput| save_output.requires((p, o)),
    ensures
        exists|p: String, o: TaskOutput|
            p@ == node_dir(cfg.dagdir@, task.uid as nat) && o.output == JsonValue::Null
                && o.artifacts@ == task.artifacts@ && #[trigger] save_output.ensures((p, o), r),
{
    let path = get_node_dir(cfg.dagdir.as_str(), task.uid);
    let output = TaskOutput { output: JsonValue::Null, artifacts: copy_artifacts(&task.artifacts) };
    let ghost (p, o) = (path, output);
    let r = save_output(path, output);
    assert(save_output.ensures((p, o), r));
    r
}

} // verus!
