//! Breakpoints: tasks in debug mode stop the scheduler when they fail,
//! until the user continues (retrying them) or skips the breakpoint.

use crate::context::{Ctx, CtxState};
use crate::kill::{create_lock, lock_created};
use crate::nodes::Node;
use crate::status::Status;
use vstd::prelude::*;

verus! {

/// Name of the lock file that skips a breakpoint.
pub open spec fn skip_lock_name() -> Seq<char> {
    "skip.lock"@
}

/// Name of the lock file that continues from a breakpoint.
pub open spec fn continue_lock_name() -> Seq<char> {
    "continue.lock"@
}

/// Skip the breakpoint of run `hash` of pipeline `name`, by creating its
/// skip lock (see `lock_created`).
pub fn create_skip_lock<
    E: Fn(String) -> bool,
    L: Fn(String) -> Result<Vec<(String, u64)>, String>,
    C: Fn(String) -> Result<(), String>,
>(
    name: &str,
    hash: &str,
    homedir: &str,
    path_exists: &E,
    list_runs: &L,
    create_file: &C,
) -> (r: Option<Result<(), String>>)
    requires
        forall|p: String| path_exists.requires((p,)),
        forall|p: String| list_runs.requires((p,)),
        forall|p: String| create_file.requires((p,)),
    ensures
        lock_created(
            homedir@,
            name@,
            hash@,
            skip_lock_name(),
            *path_exists,
            *list_runs,
            *create_file,
            r,
        ),
{
    create_lock(name, hash, homedir, "skip.lock", path_exists, list_runs, create_file)
}

/// Continue from the breakpoint of run `hash` of pipeline `name`, by
/// creating its continue lock (see `lock_created`).
pub fn create_continue_lock<
    E: Fn(String) -> bool,
    L: Fn(String) -> Result<Vec<(String, u64)>, String>,
    C: Fn(String) -> Result<(), String>,
>(
    name: &str,
    hash: &str,
    homedir: &str,
    path_exists: &E,
    list_runs: &L,
    create_file: &C,
) -> (r: Option<Result<(), String>>)
    requires
        forall|p: String| path_exists.requires((p,)),
        forall|p: String| list_runs.requires((p,)),
        forall|p: String| create_file.requires((p,)),
    ensures
        lock_created(
            homedir@,
            name@,
            hash@,
            continue_lock_name(),
            *path_exists,
            *list_runs,
            *create_file,
            r,
        ),
{
    create_lock(name, hash, homedir, "continue.lock", path_exists, list_runs, create_file)
}

/// Uids of the tasks in debug mode, in node order.
pub open spec fn debug_uids(nodes: Seq<Node>) -> Seq<usize>
    decreases nodes.len(),
{
    if nodes.len() == 0 {
        Seq::empty()
    } else {
        match nodes.last() {
            Node::Task(t) => if t.debug {
                debug_uids(nodes.drop_last()).push(t.uid)
            } else {
                debug_uids(nodes.drop_last())
            },
            _ => debug_uids(nodes.drop_last()),
        }
    }
}

/// Whether some monitored task failed.
pub open spec fn some_monitored_failed(monitored: Seq<usize>, statuses: Seq<Status>) -> bool {
    exists|k: int| 0 <= k < monitored.len() && statuses[#[trigger] monitored[k] as int] is Failed
}

/// Each monitored task that failed, in order, is made ready again with its
/// tries reset, and its children are to be visited.
pub open spec fn failed_reset(monitored: Seq<usize>, v: CtxState) -> CtxState
    decreases monitored.len(),
{
    if monitored.len() == 0 {
        v
    } else {
        let w = failed_reset(monitored.drop_last(), v);
        let uid = monitored.last();
        if w.statuses[uid as int] is Failed {
            CtxState {
                statuses: w.statuses.update(uid as int, Status::ReadyForSubmission),
                try_nums: w.try_nums.update(uid as int, 0),
                updated: w.updated.push(uid),
                ..w
            }
        } else {
            w
        }
    }
}

/// Watches the tasks in debug mode of a run.
pub struct Debugger<'a> {
    pub monitored: Vec<usize>,
    pub pipeline_name: &'a str,
    pub hash: &'a str,
}

/// What the user answers at a breakpoint.
#[derive(Clone, Copy, Debug, PartialEq, Eq)]
pub enum Resume {
    /// The failed tasks were fixed: retry them.
    Continue,
    /// Stop watching the failed tasks.
    Skip,
}

impl<'a> Debugger<'a> {
    /// Watch the tasks in debug mode.
    pub fn new(nodes: &[Node], pipeline_name: &'a str, hash: &'a str) -> (r: Self)
        ensures
            r.monitored@ == debug_uids(nodes@),
            r.pipeline_name == pipeline_name,
            r.hash == hash,
    {
        let mut monitored: Vec<usize> = Vec::new();
        let mut i: usize = 0;
        while i < nodes.len()
            invariant
                i <= nodes@.len(),
                monitored@ == debug_uids(nodes@.take(i as int)),
            decreases nodes@.len() - i,
        {
            assert(nodes@.take(i + 1).drop_last() =~= nodes@.take(i as int));
            assert(nodes@.take(i + 1).last() == nodes@[i as int]);
            if let Node::Task(task) = &nodes[i] {
                if task.debug {
                    monitored.push(task.uid);
                }
            }
            i = i + 1;
        }
        assert(nodes@.take(nodes@.len() as int) =~= nodes@);
        Debugger { monitored, pipeline_name, hash }
    }

    /// Whether some monitored task failed.
    pub fn any_monitored_task_failed(&self, statuses: &[Status]) -> (r: bool)
        requires
            forall|k: int|
                0 <= k < self.monitored@.len() ==> #[trigger] self.monitored@[k] < statuses@.len(),
        ensures
            r == some_monitored_failed(self.monitored@, statuses@),
    {
        let mut i: usize = 0;
        while i < self.monitored.len()
            invariant
                i <= self.monitored@.len(),
                forall|k: int|
                    0 <= k < self.monitored@.len() ==> #[trigger] self.monitored@[k]
                        < statuses@.len(),
                forall|k: int|
                    0 <= k < i ==> !(statuses@[#[trigger] self.monitored@[k] as int] is Failed),
            decreases self.monitored@.len() - i,
        {
            let uid = self.monitored[i];
            if let Status::Failed(_) = &statuses[uid] {
                return true;
            }
            i = i + 1;
        }
        false
    }

    /// Make the failed monitored tasks ready again (see `failed_reset`).
    pub fn update_failed_tasks(&self, ctx: &mut Ctx)
        requires
            forall|k: int|
                0 <= k < self.monitored@.len() ==> #[trigger] self.monitored@[k]
                    < old(ctx).statuses@.len() && self.monitored@[k] < old(ctx).try_nums@.len(),
        ensures
            final(ctx)@ == failed_reset(self.monitored@, old(ctx)@),
    {
        let mut i: usize = 0;
        while i < self.monitored.len()
            invariant
                i <= self.monitored@.len(),
                forall|k: int|
                    0 <= k < self.monitored@.len() ==> #[trigger] self.monitored@[k]
                        < old(ctx).statuses@.len() && self.monitored@[k]
                        < old(ctx).try_nums@.len(),
                ctx.statuses@.len() == old(ctx).statuses@.len(),
                ctx.try_nums@.len() == old(ctx).try_nums@.len(),
                ctx@ == failed_reset(self.monitored@.take(i as int), old(ctx)@),
            decreases self.monitored@.len() - i,
        {
            assert(self.monitored@.take(i + 1).drop_last() =~= self.monitored@.take(i as int));
            assert(self.monitored@.take(i + 1).last() == self.monitored@[i as int]);
            let uid = self.monitored[i];
            if let Status::Failed(_) = &ctx.statuses[uid] {
                ctx.statuses.set(uid, Status::ReadyForSubmission);
                ctx.try_nums.set(uid, 0);
                ctx.updated.push_back(uid);
            }
            i = i + 1;
        }
        assert(self.monitored@.take(self.monitored@.len() as int) =~= self.monitored@);
    }

    /// Stop watching the monitored tasks that failed.
    pub fn ignore_breakpoints(&mut self, statuses: &[Status])
        requires
            forall|k: int|
                0 <= k < old(self).monitored@.len() ==> #[trigger] old(self).monitored@[k]
                    < statuses@.len(),
        ensures
            final(self).pipeline_name == old(self).pipeline_name,
            final(self).hash == old(self).hash,
            final(self).monitored@ == old(self).monitored@.filter(
                |u: usize| !(statuses@[u as int] is Failed),
            ),
    {
        let ghost all = self.monitored@;
        let mut kept: Vec<usize> = Vec::new();
        let mut i: usize = 0;
        while i < self.monitored.len()
            invariant
                i <= self.monitored@.len(),
                self.monitored@ == all,
                forall|k: int| 0 <= k < all.len() ==> #[trigger] all[k] < statuses@.len(),
                kept@ == all.take(i as int).filter(|u: usize| !(statuses@[u as int] is Failed)),
            decreases self.monitored@.len() - i,
        {
            assert(all.take(i + 1).drop_last() =~= all.take(i as int));
            assert(all.take(i + 1).last() == all[i as int]);
            proof {
                reveal(Seq::filter);
            }
            let uid = self.monitored[i];
            let failed = match &statuses[uid] {
                Status::Failed(_) => true,
                _ => false,
            };
            if !failed {
                kept.push(uid);
            }
            assert(kept@ =~= all.take(i + 1).filter(|u: usize| !(statuses@[u as int] is Failed)));
            i = i + 1;
        }
        assert(all.take(all.len() as int) =~= all);
        self.monitored = kept;
    }

    /// Leave a breakpoint as the user answered: retry the failed monitored
    /// tasks, or stop watching them.
    pub fn resume(&mut self, ctx: &mut Ctx, answer: Resume)
        requires
            forall|k: int|
                0 <= k < old(self).monitored@.len() ==> #[trigger] old(self).monitored@[k]
                    < old(ctx).statuses@.len() && old(self).monitored@[k]
                    < old(ctx).try_nums@.len(),
        ensures
            answer == Resume::Continue ==> *final(self) == *old(self) && final(ctx)@
                == failed_reset(old(self).monitored@, old(ctx)@),
            answer == Resume::Skip ==> *final(ctx) == *old(ctx) && final(self).monitored@
                == old(self).monitored@.filter(|u: usize| !(old(ctx).statuses@[u as int] is Failed)),
    {
        match answer {
            Resume::Continue => self.update_failed_tasks(ctx),
            Resume::Skip => self.ignore_breakpoints(&ctx.statuses),
        }
    }
}

} // verus!
