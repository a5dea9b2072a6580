//! Stopping a pipeline: the Slurm jobs its checkpoint shows running.

use crate::sscheduler::backend::kill_jobs;
use crate::sscheduler::model::{JobStatus, Node};
use vstd::prelude::*;

verus! {

/// Job ids of the running nodes, in node order.
pub open spec fn running_jobs(nodes: Seq<Node>) -> Seq<Seq<char>>
    decreases nodes.len(),
{
    if nodes.len() == 0 {
        Seq::empty()
    } else {
        match nodes.last().status {
            JobStatus::Running(id) => running_jobs(nodes.drop_last()).push(id@),
            _ => running_jobs(nodes.drop_last()),
        }
    }
}

/// Job ids of the running nodes (see `running_jobs`).
pub fn find_running_jobs(nodes: &[Node]) -> (r: Vec<String>)
    ensures
        r@.map_values(|s: String| s@) == running_jobs(nodes@),
{
    let mut r: Vec<String> = Vec::new();
    let mut i: usize = 0;
    while i < nodes.len()
        invariant
            i <= nodes@.len(),
            r@.map_values(|s: String| s@) == running_jobs(nodes@.take(i as int)),
        decreases nodes@.len() - i,
    {
        assert(nodes@.take(i + 1).drop_last() =~= nodes@.take(i as int));
        assert(nodes@.take(i + 1).last() == nodes@[i as int]);
        if let JobStatus::Running(id) = &nodes[i].status {
            let ghost before = r@;
            r.push(id.clone());
            assert(r@.map_values(|s: String| s@) =~= before.map_values(|s: String| s@).push(id@));
        }
        i = i + 1;
    }
    assert(nodes@.take(nodes@.len() as int) =~= nodes@);
    r
}

/// Cancel, through `cancel` (which runs `scancel`), the jobs of the
/// running nodes of a pipeline; with no running node nothing is sent.
pub fn kill_running_jobs<K: Fn(Vec<String>) -> Result<(), String>>(nodes: &[Node], cancel: &K) -> (r:
    Result<(), String>)
    requires
        forall|ids: Vec<String>| cancel.requires((ids,)),
    ensures
        running_jobs(nodes@).len() == 0 ==> r == Ok::<(), String>(()),
        running_jobs(nodes@).len() > 0 ==> exists|ids: Vec<String>|
            ids@.map_values(|s: String| s@) == running_jobs(nodes@) && #[trigger] cancel.ensures(
                (ids,),
                r,
            ),
{
    let jobs = find_running_jobs(nodes);
    let ghost g = jobs;
    assert(g@.map_values(|s: String| s@).len() == g@.len());
    if jobs.len() == 0 {
        return Ok(());
    }
    kill_jobs(jobs, cancel)
}

} // verus!
