//! Running a discovered project: options, the schedule of its spec files, the title and
//! the summary.
use vstd::prelude::*;

use crate::models::{
    empty_options,
    merge_view,
    Descriptor,
    DirectoryNode,
    DiscoveryResult,
    RunOptions,
    RunOptionsView,
    SummaryResult,
};
use crate::pipeline::directory_runner::DirectoryRunner;
use crate::pipeline::file_runner::FileOutcome;
use crate::pipeline::file_scheduler::FileScheduler;
use crate::pipeline::report_coordinator::ReportCoordinator;
use crate::pipeline::reporting::sinks::Output;
use crate::pipeline::reporting::template_reporter::{emitted, overall};
use crate::templating::LiquidEngine;

verus! {

/// How many spec files run at once: the command line's limit when given; else, for a
/// concurrent configuration, the machine's available parallelism (1 when unknown);
/// else 1.
pub open spec fn worker_count(concurrent: Option<bool>, workers: Option<usize>, available: Option<usize>) -> usize {
    match workers {
        Some(w) => w,
        None => if concurrent == Some(true) {
            match available {
                Some(a) => a,
                None => 1,
            }
        } else {
            1
        },
    }
}

/// How many files run at once: a worker count given on the command line always wins;
/// without one files run one at a time unless the configuration asks for concurrency,
/// which uses the machine's parallelism (one where it is unknown).
pub proof fn worker_count_follows_cli_then_configuration(
    concurrent: Option<bool>,
    workers: Option<usize>,
    available: Option<usize>,
)
    ensures
        workers matches Some(w) ==> worker_count(concurrent, workers, available) == w,
        workers is None && concurrent != Some(true) ==> worker_count(concurrent, workers, available) == 1,
        workers is None && concurrent == Some(true) && available is Some ==> worker_count(
            concurrent,
            workers,
            available,
        ) == available->0,
        workers is None && available is None ==> worker_count(concurrent, workers, available) == 1,
{
}

pub fn resolve_worker_count(concurrent: Option<bool>, workers: Option<usize>, available: Option<usize>) -> (r:
    usize)
    ensures
        r == worker_count(concurrent, workers, available),
{
    match workers {
        Some(w) => w,
        None => match concurrent {
            Some(true) => match available {
                Some(a) => a,
                None => 1,
            },
            _ => 1,
        },
    }
}

/// A chain of option layers merged in order, later layers winning (no layers: none set).
pub open spec fn chain_view(options: Seq<RunOptions>) -> RunOptionsView
    decreases options.len(),
{
    if options.len() == 0 {
        empty_options()
    } else if options.len() == 1 {
        options[0]@
    } else {
        merge_view(chain_view(options.drop_last()), options.last()@)
    }
}

/// The defaults under a chain of option layers.
pub open spec fn option_chain(default: RunOptionsView, options: Seq<RunOptions>) -> RunOptionsView {
    merge_view(default, chain_view(options))
}

pub fn merge_option_chain(default: &RunOptions, options: &Vec<RunOptions>) -> (r: RunOptions)
    ensures
        r@ == option_chain(default@, options@),
{
    if options.len() == 0 {
        return default.duplicate().merge(RunOptions::empty());
    }
    let mut acc = options[0].duplicate();
    let mut i: usize = 1;
    assert(options@.take(1) =~= seq![options@[0]]);
    while i < options.len()
        invariant
            1 <= i <= options@.len(),
            acc@ == chain_view(options@.take(i as int)),
        decreases options@.len() - i,
    {
        assert(options@.take(i + 1).drop_last() =~= options@.take(i as int));
        acc = acc.merge(options[i].duplicate());
        i += 1;
    }
    assert(options@.take(i as int) =~= options@);
    default.duplicate().merge(acc)
}

/// The tests of a descriptor and its descendants.
pub open spec fn tree_test_count(d: Descriptor) -> nat
    decreases d,
{
    (if d.test is Some {
        1nat
    } else {
        0nat
    }) + match d.describe {
        Some(v) => forest_test_count(v@),
        None => 0,
    }
}

pub open spec fn forest_test_count(ds: Seq<Descriptor>) -> nat
    decreases ds,
{
    if ds.len() == 0 {
        0
    } else {
        forest_test_count(ds.drop_last()) + tree_test_count(ds.last())
    }
}

/// The tests of a directory's spec files and its subdirectories'.
pub open spec fn dir_test_count(dir: DirectoryNode) -> nat
    decreases dir,
{
    forest_test_count(dir.files@) + dirs_test_count(dir.children@)
}

pub open spec fn dirs_test_count(ds: Seq<DirectoryNode>) -> nat
    decreases ds,
{
    if ds.len() == 0 {
        0
    } else {
        dirs_test_count(ds.drop_last()) + dir_test_count(ds.last())
    }
}

fn count_tree(d: &Descriptor) -> (r: u64)
    ensures
        r == if tree_test_count(*d) <= u64::MAX {
            tree_test_count(*d)
        } else {
            u64::MAX as nat
        },
    decreases d,
{
    let mut n: u64 = if d.test.is_some() {
        1
    } else {
        0
    };
    let ghost own: nat = if d.test is Some {
        1nat
    } else {
        0nat
    };
    match &d.describe {
        Some(v) => {
            let mut i: usize = 0;
            while i < v.len()
                invariant
                    i <= v@.len(),
                    d.describe == Some(*v),
                    own == (if d.test is Some {
                        1nat
                    } else {
                        0nat
                    }),
                    n == if own + forest_test_count(v@.take(i as int)) <= u64::MAX {
                        own + forest_test_count(v@.take(i as int))
                    } else {
                        u64::MAX as nat
                    },
                decreases v@.len() - i,
            {
                proof {
                    assert(decreases_to!(*d => d.describe));
                    assert(decreases_to!(d.describe => (d.describe)->0));
                    assert(decreases_to!(*v => v@));
                    assert(decreases_to!(v@ => v@[i as int]));
                    assert(v@.take(i + 1).drop_last() =~= v@.take(i as int));
                }
                let c = count_tree(&v[i]);
                n = n.saturating_add(c);
                i += 1;
            }
            assert(v@.take(i as int) =~= v@);
        },
        None => {},
    }
    n
}

fn count_dir(dir: &DirectoryNode) -> (r: u64)
    ensures
        r == if dir_test_count(*dir) <= u64::MAX {
            dir_test_count(*dir)
        } else {
            u64::MAX as nat
        },
    decreases dir,
{
    let mut n: u64 = 0;
    let mut i: usize = 0;
    while i < dir.files.len()
        invariant
            i <= dir.files@.len(),
            n == if forest_test_count(dir.files@.take(i as int)) <= u64::MAX {
                forest_test_count(dir.files@.take(i as int))
            } else {
                u64::MAX as nat
            },
        decreases dir.files@.len() - i,
    {
        assert(dir.files@.take(i + 1).drop_last() =~= dir.files@.take(i as int));
        let c = count_tree(&dir.files[i]);
        n = n.saturating_add(c);
        i += 1;
    }
    assert(dir.files@.take(i as int) =~= dir.files@);
    let mut j: usize = 0;
    while j < dir.children.len()
        invariant
            j <= dir.children@.len(),
            n == if forest_test_count(dir.files@) + dirs_test_count(dir.children@.take(j as int))
                <= u64::MAX {
                forest_test_count(dir.files@) + dirs_test_count(dir.children@.take(j as int))
            } else {
                u64::MAX as nat
            },
        decreases dir.children@.len() - j,
    {
        proof {
            assert(decreases_to!(*dir => dir.children));
            assert(decreases_to!(dir.children => dir.children@));
            assert(decreases_to!(dir.children@ => dir.children@[j as int]));
            assert(dir.children@.take(j + 1).drop_last() =~= dir.children@.take(j as int));
        }
        let c = count_dir(&dir.children[j]);
        n = n.saturating_add(c);
        j += 1;
    }
    assert(dir.children@.take(j as int) =~= dir.children@);
    n
}

/// The jobs of a directory and its subdirectories, in walk order (a directory's own
/// files first, then each subdirectory's): each spec file with its directory's option
/// chain under `top`.
pub open spec fn dir_jobs(dir: DirectoryNode, top: RunOptionsView) -> Seq<(Descriptor, RunOptionsView)>
    decreases dir,
{
    dir.files@.map_values(|f: Descriptor| (f, option_chain(top, dir.options@))) + dirs_jobs(
        dir.children@,
        top,
    )
}

pub open spec fn dirs_jobs(ds: Seq<DirectoryNode>, top: RunOptionsView) -> Seq<(Descriptor, RunOptionsView)>
    decreases ds,
{
    if ds.len() == 0 {
        Seq::empty()
    } else {
        dirs_jobs(ds.drop_last(), top) + dir_jobs(ds.last(), top)
    }
}

/// The jobs of a scheduler, from index `start` on, are `expected`.
pub open spec fn jobs_are(s: FileScheduler, start: int, expected: Seq<(Descriptor, RunOptionsView)>) -> bool {
    &&& s.jobs_view().len() == start + expected.len()
    &&& forall|i: int|
        0 <= i < expected.len() ==> {
            &&& *(#[trigger] s.jobs_view()[start + i]).root == expected[i].0
            &&& s.jobs_view()[start + i].base_options@ == expected[i].1
        }
}

/// Every job of a scheduler from index `start` on renders with `engine` and resolves
/// files under `suite_path`.
pub open spec fn jobs_share(s: FileScheduler, start: int, engine: LiquidEngine, suite_path: Seq<char>) -> bool {
    forall|i: int|
        start <= i < s.jobs_view().len() ==> {
            &&& *(#[trigger] s.jobs_view()[i]).engine == engine
            &&& s.jobs_view()[i].suite_path@ == suite_path
        }
}

/// Runs a discovered project.
pub struct PipelineRunner<'a> {
    options: RunOptions,
    discovered: &'a DiscoveryResult,
    engine: &'a LiquidEngine,
    top_path: &'a str,
    workers: usize,
    report_coordinator: ReportCoordinator<'a>,
}

impl<'a> PipelineRunner<'a> {
    /// The engine every file renders with.
    pub closed spec fn engine_view(&self) -> LiquidEngine {
        *self.engine
    }

    /// The suite root files resolve under.
    pub closed spec fn top_path_view(&self) -> Seq<char> {
        self.top_path@
    }

    /// The run's options: the defaults under the root directory's option chain.
    pub closed spec fn options_view(&self) -> RunOptionsView {
        self.options@
    }

    /// The run's options as values.
    pub closed spec fn options_value(&self) -> RunOptions {
        self.options
    }

    /// How many files run at once.
    pub closed spec fn workers_view(&self) -> usize {
        self.workers
    }

    /// The project.
    pub closed spec fn discovered_view(&self) -> DiscoveryResult {
        *self.discovered
    }

    /// The coordinator that reports the files.
    pub closed spec fn coordinator(&self) -> ReportCoordinator<'a> {
        self.report_coordinator
    }

    /// A runner for a project: `available` is the machine's parallelism, if known.
    pub fn new(
        discovery_result: &'a DiscoveryResult,
        default_options: RunOptions,
        top_path: &'a str,
        workers: Option<usize>,
        available: Option<usize>,
        engine: &'a LiquidEngine,
    ) -> (r: PipelineRunner<'a>)
        ensures
            r.options_view() == option_chain(default_options@, discovery_result.directory.options@),
            r.workers_view() == worker_count(r.options_view().concurrent, workers, available),
            r.discovered_view() == *discovery_result,
            r.coordinator().wf(),
            r.coordinator().next() == 0,
            r.coordinator().pending().len() == 0,
            r.coordinator().received() == Set::<usize>::empty(),
            r.coordinator().templates() == discovery_result.templates@,
            r.engine_view() == *engine,
            r.top_path_view() == top_path@,
    {
        let options = merge_option_chain(&default_options, &discovery_result.directory.options);
        let workers = resolve_worker_count(options.concurrent, workers, available);
        PipelineRunner {
            options,
            discovered: discovery_result,
            engine,
            top_path,
            workers,
            report_coordinator: ReportCoordinator::new(&discovery_result.templates, engine.duplicate()),
        }
    }

    /// How many files run at once.
    pub fn workers(&self) -> (r: usize)
        ensures
            r == self.workers_view(),
    {
        self.workers
    }

    /// Reports the start of the run with the number of tests in the project.
    pub fn title(&self, out: &mut Vec<Output>)
        ensures
            emitted(old(out)@, final(out)@, self.coordinator().templates(), self.options_value()),
    {
        let count = count_dir(&self.discovered.directory);
        let test_count: usize = if count <= usize::MAX as u64 {
            count as usize
        } else {
            usize::MAX
        };
        self.report_coordinator.title(&self.options, test_count, out);
    }

    /// Schedules every spec file of the project, directory by directory in walk order,
    /// each with its directory's option chain under the run's options.
    pub fn schedule(&self) -> (r: FileScheduler<'a>)
        ensures
            r.wf(),
            jobs_are(r, 0, dir_jobs(self.discovered_view().directory, self.options_view())),
            jobs_share(r, 0, self.engine_view(), self.top_path_view()),
    {
        let mut scheduler = FileScheduler::new();
        self.schedule_dir(&self.discovered.directory, &mut scheduler);
        scheduler
    }

    fn schedule_dir(&self, dir: &'a DirectoryNode, scheduler: &mut FileScheduler<'a>)
        requires
            old(scheduler).wf(),
        ensures
            final(scheduler).wf(),
            final(scheduler).jobs_view().subrange(0, old(scheduler).jobs_view().len() as int)
                == old(scheduler).jobs_view(),
            jobs_are(*final(scheduler), old(scheduler).jobs_view().len() as int, dir_jobs(*dir, self.options@)),
            jobs_share(*final(scheduler), old(scheduler).jobs_view().len() as int, *self.engine, self.top_path@),
        decreases dir,
    {
        let ghost start = scheduler.jobs_view();
        let base = merge_option_chain(&self.options, &dir.options);
        let run = DirectoryRunner::new(base, dir, self.engine, self.top_path);
        run.schedule(scheduler);
        let ghost own = dir.files@.map_values(|f: Descriptor| (f, option_chain(self.options@, dir.options@)));
        let ghost after_files = scheduler.jobs_view();
        assert(jobs_are(*scheduler, start.len() as int, own));
        assert forall|i: int| start.len() <= i < scheduler.jobs_view().len() implies {
            &&& *(#[trigger] scheduler.jobs_view()[i]).engine == *self.engine
            &&& scheduler.jobs_view()[i].suite_path@ == self.top_path@
        } by {
            let k = i - start.len();
            assert(scheduler.jobs_view()[start.len() + k] == scheduler.jobs_view()[i]);
        }
        let mut j: usize = 0;
        assert(dirs_jobs(dir.children@.take(0), self.options@) =~= Seq::empty());
        assert(own + dirs_jobs(dir.children@.take(0), self.options@) =~= own);
        while j < dir.children.len()
            invariant
                j <= dir.children@.len(),
                scheduler.wf(),
                scheduler.jobs_view().subrange(0, start.len() as int) == start,
                jobs_are(
                    *scheduler,
                    start.len() as int,
                    own + dirs_jobs(dir.children@.take(j as int), self.options@),
                ),
                jobs_share(*scheduler, start.len() as int, *self.engine, self.top_path@),
            decreases dir.children@.len() - j,
        {
            proof {
                assert(decreases_to!(*dir => dir.children));
                assert(decreases_to!(dir.children => dir.children@));
                assert(decreases_to!(dir.children@ => dir.children@[j as int]));
            }
            let ghost before = scheduler.jobs_view();
            let ghost prev = own + dirs_jobs(dir.children@.take(j as int), self.options@);
            self.schedule_dir(&dir.children[j], scheduler);
            proof {
                assert(dir.children@.take(j + 1).drop_last() =~= dir.children@.take(j as int));
                let next = own + dirs_jobs(dir.children@.take(j + 1), self.options@);
                let sub = dir_jobs(dir.children@[j as int], self.options@);
                assert(next =~= prev + sub);
                assert forall|i: int| 0 <= i < next.len() implies {
                    &&& *(#[trigger] scheduler.jobs_view()[start.len() + i]).root == next[i].0
                    &&& scheduler.jobs_view()[start.len() + i].base_options@ == next[i].1
                } by {
                    if i < prev.len() {
                        assert(scheduler.jobs_view()[start.len() + i] == before[start.len() + i]) by {
                            assert(scheduler.jobs_view().subrange(0, before.len() as int)[start.len() + i]
                                == scheduler.jobs_view()[start.len() + i]);
                        }
                    } else {
                        let k = i - prev.len();
                        assert(scheduler.jobs_view()[before.len() + k] == scheduler.jobs_view()[start.len() + i]);
                    }
                }
                assert(scheduler.jobs_view().subrange(0, start.len() as int) =~= start) by {
                    assert forall|k: int| 0 <= k < start.len() implies scheduler.jobs_view()[k] == start[k] by {
                        assert(scheduler.jobs_view().subrange(0, before.len() as int)[k]
                            == scheduler.jobs_view()[k]);
                        assert(before.subrange(0, start.len() as int)[k] == before[k]);
                    }
                }
                assert forall|i: int| start.len() <= i < scheduler.jobs_view().len() implies {
                    &&& *(#[trigger] scheduler.jobs_view()[i]).engine == *self.engine
                    &&& scheduler.jobs_view()[i].suite_path@ == self.top_path@
                } by {
                    if i < before.len() {
                        assert(scheduler.jobs_view().subrange(0, before.len() as int)[i]
                            == scheduler.jobs_view()[i]);
                    }
                }
            }
            j += 1;
        }
        assert(dir.children@.take(j as int) =~= dir.children@);
    }

    /// Hands a file's outcome to the coordinator, which reports it once every earlier
    /// file has been reported.
    pub fn consume(&mut self, outcome: FileOutcome, out: &mut Vec<Output>)
        requires
            old(self).coordinator().wf(),
            forall|i: int|
                0 <= i < old(self).coordinator().pending().len() ==> (#[trigger] old(
                    self,
                ).coordinator().pending()[i]).ordinal != outcome.ordinal,
            outcome.ordinal < usize::MAX,
        ensures
            final(self).coordinator().wf(),
            final(self).coordinator().received() == old(self).coordinator().received().insert(
                outcome.ordinal,
            ),
            final(self).options_view() == old(self).options_view(),
            final(self).discovered_view() == old(self).discovered_view(),
            final(self).coordinator().templates() == old(self).coordinator().templates(),
    {
        self.report_coordinator.consume(outcome, out);
    }

    /// Whether outcomes still wait for earlier files.
    pub fn has_pending(&self) -> (r: bool)
        ensures
            r == (self.coordinator().pending().len() > 0),
    {
        self.report_coordinator.pending_count() > 0
    }

    /// Whether an outcome with this ordinal is waiting.
    pub fn is_pending(&self, ordinal: usize) -> (r: bool)
        ensures
            r == exists|i: int|
                0 <= i < self.coordinator().pending().len() && (#[trigger] self.coordinator().pending()[i]).ordinal
                    == ordinal,
    {
        let r = self.report_coordinator.is_pending(ordinal);
        assert(self.coordinator() == self.report_coordinator);
        r
    }

    /// Reports the summary and says how the run ended; every file must have been reported.
    pub fn summary(&self, out: &mut Vec<Output>) -> (r: SummaryResult)
        requires
            self.coordinator().pending().len() == 0,
        ensures
            r == overall(self.coordinator().results_view()),
            emitted(old(out)@, final(out)@, self.coordinator().templates(), self.options_value()),
    {
        self.report_coordinator.summary(&self.options, out)
    }
}

} // verus!
