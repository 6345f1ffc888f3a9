//! Scheduling spec files: each gets the next ordinal in discovery order.
use vstd::prelude::*;

use crate::models::{Descriptor, RunOptions};
use crate::pipeline::file_runner::FileRunner;
use crate::templating::LiquidEngine;

verus! {

/// A spec file waiting to run, with what its runner needs.
pub struct FileJob<'a> {
    pub ordinal: usize,
    pub root: &'a Descriptor,
    pub envs: &'a Vec<(String, String)>,
    pub base_options: RunOptions,
    pub engine: &'a LiquidEngine,
    pub suite_path: &'a str,
}

/// The files to run, in discovery order.
pub struct FileScheduler<'a> {
    jobs: Vec<FileJob<'a>>,
}

impl<'a> FileScheduler<'a> {
    /// The scheduled jobs.
    pub closed spec fn jobs_view(&self) -> Seq<FileJob<'a>> {
        self.jobs@
    }

    /// Every job's ordinal is its place in the schedule.
    pub closed spec fn wf(&self) -> bool {
        forall|i: int| 0 <= i < self.jobs@.len() ==> (#[trigger] self.jobs@[i]).ordinal == i
    }

    pub fn new() -> (r: FileScheduler<'a>)
        ensures
            r.wf(),
            r.jobs_view().len() == 0,
    {
        FileScheduler { jobs: Vec::new() }
    }

    /// Schedules a spec file after those already scheduled, with the next ordinal.
    pub fn schedule(
        &mut self,
        root: &'a Descriptor,
        envs: &'a Vec<(String, String)>,
        base_options: RunOptions,
        engine: &'a LiquidEngine,
        suite_path: &'a str,
    )
        requires
            old(self).wf(),
        ensures
            final(self).wf(),
            final(self).jobs_view().len() == old(self).jobs_view().len() + 1,
            final(self).jobs_view().drop_last() == old(self).jobs_view(),
            final(self).jobs_view().last().ordinal == old(self).jobs_view().len(),
            final(self).jobs_view().last().root == root,
            final(self).jobs_view().last().envs == envs,
            final(self).jobs_view().last().base_options@ == base_options@,
            final(self).jobs_view().last().engine == engine,
            final(self).jobs_view().last().suite_path == suite_path,
    {
        let ordinal = self.jobs.len();
        let ghost b = base_options@;
        self.jobs.push(FileJob { ordinal, root, envs, base_options, engine, suite_path });
        proof {
            assert(self.jobs@.drop_last() =~= old(self).jobs@);
        }
    }

    /// The scheduled jobs, in order.
    pub fn jobs(&self) -> (r: &[FileJob<'a>])
        ensures
            r@ == self.jobs_view(),
    {
        self.jobs.as_slice()
    }

    /// How many files are scheduled.
    pub fn len(&self) -> (r: usize)
        ensures
            r == self.jobs_view().len(),
    {
        self.jobs.len()
    }

    /// The runner of the `i`-th scheduled file.
    pub fn runner(&self, i: usize) -> (r: FileRunner<'a>)
        requires
            i < self.jobs_view().len(),
        ensures
            r.ordinal == self.jobs_view()[i as int].ordinal,
            r.root == self.jobs_view()[i as int].root,
            r.envs == self.jobs_view()[i as int].envs,
            r.base_options@ == self.jobs_view()[i as int].base_options@,
            r.engine == self.jobs_view()[i as int].engine,
            r.suite_path == self.jobs_view()[i as int].suite_path,
    {
        let job = &self.jobs[i];
        FileRunner::new(
            job.ordinal,
            job.root,
            job.envs,
            job.base_options.duplicate(),
            job.engine,
            job.suite_path,
        )
    }
}

} // verus!
