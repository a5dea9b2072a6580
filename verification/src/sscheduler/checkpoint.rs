//! Checkpoints of the string-keyed scheduler: the pipeline saved with the
//! statuses of its nodes, and read back when a run restarts.

use crate::sscheduler::model::{DAGMetadata, Node, DAG};
use crate::sscheduler::state::{check_view, node_checked, validate_checkpoint, LocalDirState};
use crate::text::path_join;
use vstd::prelude::*;

verus! {

/// Checkpoint settings of a run.
#[derive(Clone, Debug, PartialEq)]
pub struct Checkpointer {
    pub meta: DAGMetadata,
    pub restart: bool,
}

impl DAGMetadata {
    /// A copy that verified code can rely on.
    pub fn copied(&self) -> (r: Self)
        ensures
            r == *self,
    {
        DAGMetadata { name: self.name.clone(), creation_dt: self.creation_dt.clone() }
    }
}

/// What loading gives from what was read, `a`: the error of the read; or
/// the pipeline read, when every task node checks out against the working
/// directory; or the error of the first task node that does not.
pub open spec fn checkpoint_loaded<D: Fn(String) -> bool, F: Fn(String) -> bool>(
    pipeline: Seq<char>,
    a: Result<DAG, String>,
    is_dir: D,
    is_file: F,
    r: Result<DAG, String>,
) -> bool {
    match a {
        Err(e) => r == Err::<DAG, String>(e),
        Ok(dag) => match r {
            Ok(d) => d == dag && forall|k: int|
                0 <= k < dag.nodes@.len() && (#[trigger] dag.nodes@[k]).behavior is TaskNode
                    ==> node_checked(pipeline, dag.nodes@[k], is_dir, is_file, Ok(())),
            Err(e) => some_node_failed(pipeline, dag.nodes@, is_dir, is_file, e@),
        },
    }
}

/// Some task node of `nodes` checks out against the working directory
/// with the error `e`.
pub open spec fn some_node_failed<D: Fn(String) -> bool, F: Fn(String) -> bool>(
    pipeline: Seq<char>,
    nodes: Seq<Node>,
    is_dir: D,
    is_file: F,
    e: Seq<char>,
) -> bool {
    exists|k: int|
        0 <= k < nodes.len() && nodes[k].behavior is TaskNode && #[trigger] node_checked(
            pipeline,
            nodes[k],
            is_dir,
            is_file,
            Err::<(), Seq<char>>(e),
        )
}

impl Checkpointer {
    /// Read the checkpoint of the pipeline through `read` (which reads and
    /// parses the checkpoint file) and check it against the working
    /// directory; the errors of either are handed back.
    pub fn load_checkpoint<
        R: Fn(String) -> Result<DAG, String>,
        D: Fn(String) -> bool,
        F: Fn(String) -> bool,
    >(&self, state: &LocalDirState, read: &R, is_dir: &D, is_file: &F) -> (r: Result<DAG, String>)
        requires
            state.wf(),
            forall|p: String| read.requires((p,)),
            forall|p: String| is_dir.requires((p,)),
            forall|p: String| is_file.requires((p,)),
        ensures
            exists|p: String, a: Result<DAG, String>|
                p@ == path_join(state.pipeline(), "checkpoint.json"@) && #[trigger] read.ensures(
                    (p,),
                    a,
                ) && checkpoint_loaded(state.pipeline(), a, *is_dir, *is_file, r),
    {
        let path = state.checkpoint_path();
        let ghost gp = path;
        let a = read(path);
        let ghost ga = a;
        assert(read.ensures((gp,), a));
        let r = match a {
            Err(e) => Err(e),
            Ok(dag) => {
                let ghost gd = dag;
                match validate_checkpoint(state, dag.nodes.as_slice(), is_dir, is_file) {
                    Ok(()) => {
                        assert(checkpoint_loaded(state.pipeline(), ga, *is_dir, *is_file, Ok(gd)));
                        Ok(dag)
                    },
                    Err(e) => {
                        assert(check_view(Err::<(), String>(e)) == Err::<(), Seq<char>>(e@));
                        let ghost k = choose|k: int|
                            0 <= k < gd.nodes@.len() && gd.nodes@[k].behavior is TaskNode
                                && #[trigger] node_checked(
                                state.pipeline(),
                                gd.nodes@[k],
                                *is_dir,
                                *is_file,
                                check_view(Err::<(), String>(e)),
                            );
                        assert(node_checked(
                            state.pipeline(),
                            gd.nodes@[k],
                            *is_dir,
                            *is_file,
                            Err::<(), Seq<char>>(e@),
                        ));
                        assert(ga == Ok::<DAG, String>(gd));
                        assert(0 <= k < gd.nodes@.len());
                        assert(gd.nodes@[k].behavior is TaskNode);
                        assert(some_node_failed(state.pipeline(), gd.nodes@, *is_dir, *is_file, e@));
                        assert(checkpoint_loaded(
                            state.pipeline(),
                            ga,
                            *is_dir,
                            *is_file,
                            Err::<DAG, String>(e),
                        ));
                        Err(e)
                    },
                }
            },
        };
        assert(checkpoint_loaded(state.pipeline(), ga, *is_dir, *is_file, r));
        r
    }

    /// Save the pipeline with the current statuses of its nodes through
    /// `write`, to the checkpoint file.
    pub fn save_checkpoint<W: Fn(String, DAG) -> Result<(), String>>(
        &self,
        nodes: Vec<Node>,
        state: &LocalDirState,
        write: &W,
    ) -> (r: Result<(), String>)
        requires
            state.wf(),
            forall|p: String, d: DAG| write.requires((p, d)),
        ensures
            exists|p: String, d: DAG|
                p@ == path_join(state.pipeline(), "checkpoint.json"@) && d.meta == self.meta
                    && d.nodes == nodes && #[trigger] write.ensures((p, d), r),
    {
        let dag = DAG { meta: self.meta.copied(), nodes };
        let path = state.checkpoint_path();
        let ghost (gp, gd) = (path, dag);
        let r = write(path, dag);
        assert(write.ensures((gp, gd), r));
        r
    }
}

} // verus!
