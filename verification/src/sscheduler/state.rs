//! Layout of the working directory of a pipeline and the check of a
//! checkpoint against it. The files are read and written by the caller.

use crate::sscheduler::model::{JobStatus, Node, NodeBehavior, NodeResult};
use crate::text::{concat_str, join_path, path_join};
use vstd::prelude::*;

verus! {

/// Paths and file names of the working directory of a pipeline.
#[derive(Clone, Debug, PartialEq)]
pub struct LocalDirState {
    home_dir: String,
    pipeline_dir: String,
    cache_dir: String,
    pipeline_fname: String,
    output_fname: String,
    input_fname: String,
    meta_fname: String,
    checkpoint_fname: String,
}

impl LocalDirState {
    /// Home directory.
    pub closed spec fn home(&self) -> Seq<char> {
        self.home_dir@
    }

    /// Pipeline directory.
    pub closed spec fn pipeline(&self) -> Seq<char> {
        self.pipeline_dir@
    }

    /// Cache directory.
    pub closed spec fn cache(&self) -> Seq<char> {
        self.cache_dir@
    }

    /// The well-formedness of the layout: pipeline and cache directories
    /// under the home directory, and the file names of the convention.
    pub closed spec fn wf(&self) -> bool {
        &&& self.cache_dir@ == path_join(self.home_dir@, ".cache"@)
        &&& self.pipeline_fname@ == "pipeline.json"@
        &&& self.output_fname@ == "output.json"@
        &&& self.input_fname@ == "input.json"@
        &&& self.meta_fname@ == "meta.json"@
        &&& self.checkpoint_fname@ == "checkpoint.json"@
    }

    /// Layout of pipeline `pipeline_name` under `home_dir`.
    pub fn new(home_dir: &str, pipeline_name: &str) -> (r: Self)
        ensures
            r.wf(),
            r.home() == home_dir@,
            r.pipeline() == path_join(home_dir@, pipeline_name@),
            r.cache() == path_join(home_dir@, ".cache"@),
    {
        LocalDirState {
            home_dir: String::from_str(home_dir),
            pipeline_dir: join_path(home_dir, pipeline_name),
            cache_dir: join_path(home_dir, ".cache"),
            pipeline_fname: String::from_str("pipeline.json"),
            output_fname: String::from_str("output.json"),
            input_fname: String::from_str("input.json"),
            meta_fname: String::from_str("meta.json"),
            checkpoint_fname: String::from_str("checkpoint.json"),
        }
    }

    /// The pipeline directory.
    pub fn get_pipeline_dir(&self) -> (r: &str)
        ensures
            r@ == self.pipeline(),
    {
        self.pipeline_dir.as_str()
    }

    /// Where the pipeline JSON is copied.
    pub fn pipeline_copy_path(&self) -> (r: String)
        requires
            self.wf(),
        ensures
            r@ == path_join(self.pipeline(), "pipeline.json"@),
    {
        join_path(self.pipeline_dir.as_str(), self.pipeline_fname.as_str())
    }

    /// Where the checkpoint is kept.
    pub fn checkpoint_path(&self) -> (r: String)
        requires
            self.wf(),
        ensures
            r@ == path_join(self.pipeline(), "checkpoint.json"@),
    {
        join_path(self.pipeline_dir.as_str(), self.checkpoint_fname.as_str())
    }

    /// Directory of node `uid`.
    pub fn node_dir(&self, uid: &str) -> (r: String)
        ensures
            r@ == path_join(self.pipeline(), uid@),
    {
        join_path(self.pipeline_dir.as_str(), uid)
    }

    /// Output file of node `uid`.
    pub fn output_path(&self, uid: &str) -> (r: String)
        requires
            self.wf(),
        ensures
            r@ == path_join(path_join(self.pipeline(), uid@), "output.json"@),
    {
        let d = self.node_dir(uid);
        join_path(d.as_str(), self.output_fname.as_str())
    }

    /// Input file of node `uid`.
    pub fn input_path(&self, uid: &str) -> (r: String)
        requires
            self.wf(),
        ensures
            r@ == path_join(path_join(self.pipeline(), uid@), "input.json"@),
    {
        let d = self.node_dir(uid);
        join_path(d.as_str(), self.input_fname.as_str())
    }

    /// Metadata file of node `uid`.
    pub fn meta_path(&self, uid: &str) -> (r: String)
        requires
            self.wf(),
        ensures
            r@ == path_join(path_join(self.pipeline(), uid@), "meta.json"@),
    {
        let d = self.node_dir(uid);
        join_path(d.as_str(), self.meta_fname.as_str())
    }

    /// Cache directory of the task function `fname`.
    pub fn cache_path(&self, fname: &str) -> (r: String)
        ensures
            r@ == path_join(self.cache(), fname@),
    {
        join_path(self.cache_dir.as_str(), fname)
    }
}

/// Message for a node of a checkpoint without `what` in its directory.
pub open spec fn missing_message(uid: Seq<char>, what: Seq<char>) -> Seq<char> {
    "uid '"@ + uid + "' "@ + what + " not found"@
}

fn missing(uid: &str, what: &str) -> (r: String)
    ensures
        r@ == missing_message(uid@, what@),
{
    let a = concat_str("uid '", uid);
    let b = concat_str(a.as_str(), "' ");
    let c = concat_str(b.as_str(), what);
    concat_str(c.as_str(), " not found")
}

/// What checking a task node of a checkpoint gives, from what was seen of
/// its directory (`dir`), output file (`out`) and metadata file (`meta`):
/// its directory must exist; a task completed by a job must have its
/// output and its metadata.
pub open spec fn node_check(n: Node, dir: bool, out: bool, meta: bool) -> Result<(), Seq<char>> {
    if !dir {
        Err(missing_message(n.uid@, "directory"@))
    } else if n.status matches JobStatus::Completed(NodeResult::Task(_)) {
        if !out {
            Err(missing_message(n.uid@, "output"@))
        } else if !meta {
            Err(missing_message(n.uid@, "metadata"@))
        } else {
            Ok(())
        }
    } else {
        Ok(())
    }
}

/// `f` said `v` of the path `p`.
pub open spec fn seen<F: Fn(String) -> bool>(p: Seq<char>, f: F, v: bool) -> bool {
    exists|s: String| s@ == p && #[trigger] f.ensures((s,), v)
}

/// What checking node `n` of a checkpoint gives, `r`, from what `is_dir`
/// said of its directory and, for a task completed by a job, what
/// `is_file` said of its output and then of its metadata file.
pub open spec fn node_checked<D: Fn(String) -> bool, F: Fn(String) -> bool>(
    pipeline: Seq<char>,
    n: Node,
    is_dir: D,
    is_file: F,
    r: Result<(), Seq<char>>,
) -> bool {
    let dir_path = path_join(pipeline, n.uid@);
    let job_done = n.status matches JobStatus::Completed(NodeResult::Task(_));
    exists|dir: bool, out: bool, meta: bool|
        #[trigger] node_check(n, dir, out, meta) == r && seen(dir_path, is_dir, dir) && (dir
            && job_done ==> seen(
            path_join(dir_path, "output.json"@),
            is_file,
            out,
        )) && (dir && out && job_done ==> seen(
            path_join(dir_path, "meta.json"@),
            is_file,
            meta,
        ))
}

/// The view of a check result.
pub open spec fn check_view(r: Result<(), String>) -> Result<(), Seq<char>> {
    match r {
        Ok(()) => Ok(()),
        Err(e) => Err(e@),
    }
}

/// Check a task node of a checkpoint against the working directory (see
/// `node_check` and `node_checked`).
pub fn validate_node_from_checkpoint<D: Fn(String) -> bool, F: Fn(String) -> bool>(
    state: &LocalDirState,
    node: &Node,
    is_dir: &D,
    is_file: &F,
) -> (r: Result<(), String>)
    requires
        state.wf(),
        forall|p: String| is_dir.requires((p,)),
        forall|p: String| is_file.requires((p,)),
    ensures
        node_checked(state.pipeline(), *node, *is_dir, *is_file, check_view(r)),
{
    let working_dir = state.node_dir(node.uid.as_str());
    let ghost wd = working_dir;
    let dir = is_dir(working_dir);
    assert(is_dir.ensures((wd,), dir));
    assert(seen(wd@, *is_dir, dir));
    if !dir {
        proof {
            reveal_strlit("directory");
        }
        let e = missing(node.uid.as_str(), "directory");
        assert(node_check(*node, dir, false, false) == check_view(Err::<(), String>(e)));
        return Err(e);
    }
    if let JobStatus::Completed(NodeResult::Task(_)) = &node.status {
        let out_path = state.output_path(node.uid.as_str());
        let ghost op = out_path;
        let out = is_file(out_path);
        assert(is_file.ensures((op,), out));
        assert(seen(op@, *is_file, out));
        if !out {
            let e = missing(node.uid.as_str(), "output");
            assert(node_check(*node, dir, out, false) == check_view(Err::<(), String>(e)));
            return Err(e);
        }
        let meta_path = state.meta_path(node.uid.as_str());
        let ghost mp = meta_path;
        let meta = is_file(meta_path);
        assert(is_file.ensures((mp,), meta));
        assert(seen(mp@, *is_file, meta));
        if !meta {
            let e = missing(node.uid.as_str(), "metadata");
            assert(node_check(*node, dir, out, meta) == check_view(Err::<(), String>(e)));
            return Err(e);
        }
        assert(node_check(*node, dir, out, meta) == check_view(Ok::<(), String>(())));
        return Ok(());
    }
    assert(node_check(*node, dir, true, true) == check_view(Ok::<(), String>(())));
    Ok(())
}

/// Check every task node of a checkpoint, in order (see
/// `validate_node_from_checkpoint`); the first error is handed back.
pub fn validate_checkpoint<D: Fn(String) -> bool, F: Fn(String) -> bool>(
    state: &LocalDirState,
    nodes: &[Node],
    is_dir: &D,
    is_file: &F,
) -> (r: Result<(), String>)
    requires
        state.wf(),
        forall|p: String| is_dir.requires((p,)),
        forall|p: String| is_file.requires((p,)),
    ensures
        r is Err ==> exists|k: int|
            0 <= k < nodes@.len() && nodes@[k].behavior is TaskNode && #[trigger] node_checked(
                state.pipeline(),
                nodes@[k],
                *is_dir,
                *is_file,
                check_view(r),
            ) && forall|j: int|
                0 <= j < k && (#[trigger] nodes@[j]).behavior is TaskNode ==> node_checked(
                    state.pipeline(),
                    nodes@[j],
                    *is_dir,
                    *is_file,
                    Ok(()),
                ),
        r is Ok ==> forall|k: int|
            0 <= k < nodes@.len() && (#[trigger] nodes@[k]).behavior is TaskNode ==> node_checked(
                state.pipeline(),
                nodes@[k],
                *is_dir,
                *is_file,
                Ok(()),
            ),
{
    let mut i: usize = 0;
    while i < nodes.len()
        invariant
            i <= nodes@.len(),
            state.wf(),
            forall|p: String| is_dir.requires((p,)),
            forall|p: String| is_file.requires((p,)),
            forall|k: int|
                0 <= k < i && (#[trigger] nodes@[k]).behavior is TaskNode ==> node_checked(
                    state.pipeline(),
                    nodes@[k],
                    *is_dir,
                    *is_file,
                    Ok(()),
                ),
        decreases nodes@.len() - i,
    {
        if let NodeBehavior::TaskNode(_) = &nodes[i].behavior {
            let r = validate_node_from_checkpoint(state, &nodes[i], is_dir, is_file);
            match r {
                Ok(()) => {},
                Err(e) => {
                    assert(node_checked(
                        state.pipeline(),
                        nodes@[i as int],
                        *is_dir,
                        *is_file,
                        check_view(Err::<(), String>(e)),
                    ));
                    return Err(e);
                },
            }
        }
        i = i + 1;
    }
    Ok(())
}

} // verus!
