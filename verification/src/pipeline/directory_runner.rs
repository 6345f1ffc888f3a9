//! Scheduling the spec files of one directory.
use vstd::prelude::*;

use crate::models::{DirectoryNode, RunOptions};
use crate::pipeline::file_scheduler::FileScheduler;
use crate::templating::LiquidEngine;

verus! {

/// Schedules a directory's spec files with the directory's options and environment.
pub struct DirectoryRunner<'a> {
    pub directory: &'a DirectoryNode,
    pub engine: &'a LiquidEngine,
    pub base_options: RunOptions,
    pub top_path: &'a str,
}

impl<'a> DirectoryRunner<'a> {
    pub fn new(
        base_options: RunOptions,
        directory: &'a DirectoryNode,
        engine: &'a LiquidEngine,
        top_path: &'a str,
    ) -> (r: DirectoryRunner<'a>)
        ensures
            r.directory == directory,
            r.engine == engine,
            r.base_options == base_options,
            r.top_path == top_path,
    {
        DirectoryRunner { directory, engine, base_options, top_path }
    }

    /// Schedules the directory's spec files, in order, each with the directory's options
    /// and environment, after those already scheduled.
    pub fn schedule(&self, scheduler: &mut FileScheduler<'a>)
        requires
            old(scheduler).wf(),
        ensures
            final(scheduler).wf(),
            final(scheduler).jobs_view().len() == old(scheduler).jobs_view().len()
                + self.directory.files@.len(),
            final(scheduler).jobs_view().subrange(0, old(scheduler).jobs_view().len() as int)
                == old(scheduler).jobs_view(),
            forall|i: int|
                0 <= i < self.directory.files@.len() ==> {
                    let job = #[trigger] final(scheduler).jobs_view()[old(scheduler).jobs_view().len() + i];
                    &&& job.ordinal == old(scheduler).jobs_view().len() + i
                    &&& job.root == &self.directory.files@[i]
                    &&& job.envs == &self.directory.envs
                    &&& job.base_options@ == self.base_options@
                    &&& job.engine == self.engine
                    &&& job.suite_path == self.top_path
                },
    {
        let ghost start = scheduler.jobs_view();
        let mut i: usize = 0;
        while i < self.directory.files.len()
            invariant
                i <= self.directory.files@.len(),
                scheduler.wf(),
                scheduler.jobs_view().len() == start.len() + i,
                scheduler.jobs_view().subrange(0, start.len() as int) == start,
                forall|j: int|
                    0 <= j < i ==> {
                        let job = #[trigger] scheduler.jobs_view()[start.len() + j];
                        &&& job.ordinal == start.len() + j
                        &&& job.root == &self.directory.files@[j]
                        &&& job.envs == &self.directory.envs
                        &&& job.base_options@ == self.base_options@
                        &&& job.engine == self.engine
                    &&& job.suite_path == self.top_path
                    },
            decreases self.directory.files@.len() - i,
        {
            let ghost before = scheduler.jobs_view();
            scheduler.schedule(
                &self.directory.files[i],
                &self.directory.envs,
                self.base_options.duplicate(),
                self.engine,
                self.top_path,
            );
            proof {
                assert forall|j: int| 0 <= j < i + 1 implies {
                    let job = #[trigger] scheduler.jobs_view()[start.len() + j];
                    &&& job.ordinal == start.len() + j
                    &&& job.root == &self.directory.files@[j]
                    &&& job.envs == &self.directory.envs
                    &&& job.base_options@ == self.base_options@
                    &&& job.engine == self.engine
                    &&& job.suite_path == self.top_path
                } by {
                    if j < i {
                        assert(scheduler.jobs_view()[start.len() + j] == before[start.len() + j]);
                    }
                }
                assert(scheduler.jobs_view().subrange(0, start.len() as int) =~= start) by {
                    assert forall|k: int| 0 <= k < start.len() implies scheduler.jobs_view()[k] == start[k] by {
                        assert(scheduler.jobs_view()[k] == before[k]);
                        assert(before.subrange(0, start.len() as int)[k] == before[k]);
                    }
                }
            }
            i += 1;
        }
    }
}

} // verus!
