//! Reports file outcomes in discovery order, whatever order they arrive in.
use vstd::prelude::*;

use crate::models::{ReportTemplates, RunOptions, SummaryResult};
use crate::pipeline::file_runner::{AttemptOutcome, DescriptorOutcome, FileOutcome};
use crate::pipeline::reporting::sinks::Output;
use crate::pipeline::reporting::template_reporter::{
    emitted,
    overall,
    reporter_for,
    AnyReporter,
    Reporter,
};
use crate::templating::LiquidEngine;

verus! {

/// A call a file's outcome makes on the reporter.
pub enum ReportCall {
    /// A debug message, reported with an attempt's options.
    Debug { msg: Seq<char>, options: RunOptions },
    /// An attempt, reported as logical test `test_count`, attempt `retry_count`.
    Report { attempt: AttemptOutcome, test_count: nat, retry_count: nat },
}

/// The options a call reports with.
pub open spec fn call_options(c: ReportCall) -> RunOptions {
    match c {
        ReportCall::Debug { options, .. } => options,
        ReportCall::Report { attempt, .. } => attempt.options,
    }
}

/// The calls for one attempt: its debug message first, when it has one, then the attempt.
pub open spec fn attempt_calls(a: AttemptOutcome, test_count: nat, retry_count: nat) -> Seq<ReportCall> {
    debug_calls(a).push(ReportCall::Report { attempt: a, test_count, retry_count })
}

/// The debug call of an attempt, when it has a debug message.
pub open spec fn debug_calls(a: AttemptOutcome) -> Seq<ReportCall> {
    match a.debug_message {
        Some(m) => seq![ReportCall::Debug { msg: m@, options: a.options }],
        None => Seq::empty(),
    }
}

/// The calls for the attempts of one case, numbered from 0, all as the same logical test.
pub open spec fn attempts_calls(attempts: Seq<AttemptOutcome>, test_count: nat) -> Seq<ReportCall>
    decreases attempts.len(),
{
    if attempts.len() == 0 {
        Seq::empty()
    } else {
        let init = attempts.drop_last();
        attempts_calls(init, test_count) + attempt_calls(attempts.last(), test_count, init.len())
    }
}

/// The final results of cases, skipping cases without one.
pub open spec fn desc_results(ds: Seq<DescriptorOutcome>) -> Seq<SummaryResult>
    decreases ds.len(),
{
    if ds.len() == 0 {
        Seq::empty()
    } else {
        desc_results(ds.drop_last()) + match ds.last().final_result {
            Some(r) => seq![r],
            None => Seq::empty(),
        }
    }
}

/// The calls for a file's cases: a case is logical test number `base` plus the number
/// of results before it (so sections, which have none, do not count).
pub open spec fn desc_calls(ds: Seq<DescriptorOutcome>, base: nat) -> Seq<ReportCall>
    decreases ds.len(),
{
    if ds.len() == 0 {
        Seq::empty()
    } else {
        let init = ds.drop_last();
        desc_calls(init, base) + attempts_calls(ds.last().attempts@, base + desc_results(init).len())
    }
}

/// The results of files, in order.
pub open spec fn files_results(fs: Seq<FileOutcome>) -> Seq<SummaryResult>
    decreases fs.len(),
{
    if fs.len() == 0 {
        Seq::empty()
    } else {
        files_results(fs.drop_last()) + desc_results(fs.last().descriptors@)
    }
}

/// The calls for files reported in order, counting tests from `base`.
pub open spec fn files_calls(fs: Seq<FileOutcome>, base: nat) -> Seq<ReportCall>
    decreases fs.len(),
{
    if fs.len() == 0 {
        Seq::empty()
    } else {
        let init = fs.drop_last();
        files_calls(init, base) + desc_calls(fs.last().descriptors@, base + files_results(init).len())
    }
}

/// `after` is `before` followed by, for each call in order, one output per report
/// active under the call's options.
pub open spec fn calls_emitted(
    before: Seq<Output>,
    after: Seq<Output>,
    calls: Seq<ReportCall>,
    templates: Seq<(String, crate::models::ReportTemplate)>,
) -> bool
    decreases calls.len(),
{
    if calls.len() == 0 {
        after == before
    } else {
        exists|mid: Seq<Output>|
            calls_emitted(before, mid, calls.drop_last(), templates) && #[trigger] emitted(
                mid,
                after,
                templates,
                call_options(calls.last()),
            )
    }
}

proof fn lemma_calls_emitted_push(
    before: Seq<Output>,
    mid: Seq<Output>,
    after: Seq<Output>,
    calls: Seq<ReportCall>,
    c: ReportCall,
    templates: Seq<(String, crate::models::ReportTemplate)>,
)
    requires
        calls_emitted(before, mid, calls, templates),
        emitted(mid, after, templates, call_options(c)),
    ensures
        calls_emitted(before, after, calls.push(c), templates),
{
    assert(calls.push(c).drop_last() =~= calls);
    assert(calls.push(c).last() == c);
    assert(calls_emitted(before, mid, calls.push(c).drop_last(), templates));
    assert(emitted(mid, after, templates, call_options(calls.push(c).last())));
}

proof fn lemma_calls_emitted_concat(
    before: Seq<Output>,
    mid: Seq<Output>,
    after: Seq<Output>,
    c1: Seq<ReportCall>,
    c2: Seq<ReportCall>,
    templates: Seq<(String, crate::models::ReportTemplate)>,
)
    requires
        calls_emitted(before, mid, c1, templates),
        calls_emitted(mid, after, c2, templates),
    ensures
        calls_emitted(before, after, c1 + c2, templates),
    decreases c2.len(),
{
    if c2.len() == 0 {
        assert(c1 + c2 =~= c1);
    } else {
        let m2 = choose|m2: Seq<Output>|
            calls_emitted(mid, m2, c2.drop_last(), templates) && #[trigger] emitted(
                m2,
                after,
                templates,
                call_options(c2.last()),
            );
        lemma_calls_emitted_concat(before, mid, m2, c1, c2.drop_last(), templates);
        assert((c1 + c2).drop_last() =~= c1 + c2.drop_last());
        assert((c1 + c2).last() == c2.last());
        assert(calls_emitted(before, m2, (c1 + c2).drop_last(), templates));
        assert(emitted(m2, after, templates, call_options((c1 + c2).last())));
    }
}

proof fn lemma_calls_emitted_empty(out: Seq<Output>, templates: Seq<(String, crate::models::ReportTemplate)>)
    ensures
        calls_emitted(out, out, Seq::empty(), templates),
{
}

/// Orders file outcomes by ordinal before reporting them.
pub struct ReportCoordinator<'a> {
    reporter: AnyReporter,
    templates: &'a ReportTemplates,
    results: Vec<SummaryResult>,
    pending: Vec<FileOutcome>,
    next_file_ordinal: usize,
    emitted_files: Ghost<Seq<FileOutcome>>,
    received: Ghost<Set<usize>>,
    consumed: Ghost<nat>,
    calls: Ghost<Seq<ReportCall>>,
    first_given: Ghost<Map<usize, FileOutcome>>,
}

impl<'a> ReportCoordinator<'a> {
    /// The results reported so far, in order.
    pub closed spec fn results_view(&self) -> Seq<SummaryResult> {
        self.results@
    }

    /// The ordinal the coordinator waits for.
    pub closed spec fn next(&self) -> usize {
        self.next_file_ordinal
    }

    /// The outcomes that arrived early and wait for earlier ones.
    pub closed spec fn pending(&self) -> Seq<FileOutcome> {
        self.pending@
    }

    /// The outcomes reported so far, in the order they were reported.
    pub closed spec fn emitted_files(&self) -> Seq<FileOutcome> {
        self.emitted_files@
    }

    /// The ordinals consumed so far.
    pub closed spec fn received(&self) -> Set<usize> {
        self.received@
    }

    /// How many outcomes were consumed.
    pub closed spec fn consumed(&self) -> nat {
        self.consumed@
    }

    /// The outcome each ordinal was first consumed with.
    pub closed spec fn first_given(&self) -> Map<usize, FileOutcome> {
        self.first_given@
    }

    /// The reporter calls made for the files reported so far.
    pub closed spec fn calls(&self) -> Seq<ReportCall> {
        self.calls@
    }

    /// The report templates in use.
    pub closed spec fn templates(&self) -> Seq<(String, crate::models::ReportTemplate)> {
        self.templates@
    }

    /// The coordinator's invariant: the files reported are ordinals 0, 1, ... in order,
    /// their results are the results, no pending outcome shares an ordinal with another
    /// or is the one awaited, and every consumed outcome was reported or waits.
    pub closed spec fn wf(&self) -> bool {
        &&& self.next_file_ordinal == self.emitted_files@.len()
        &&& forall|k: int|
            0 <= k < self.emitted_files@.len() ==> (#[trigger] self.emitted_files@[k]).ordinal == k
        &&& self.results@ == files_results(self.emitted_files@)
        &&& self.calls@ == files_calls(self.emitted_files@, 0)
        &&& forall|i: int, j: int|
            0 <= i < j < self.pending@.len() ==> (#[trigger] self.pending@[i]).ordinal
                != (#[trigger] self.pending@[j]).ordinal
        &&& forall|i: int|
            0 <= i < self.pending@.len() ==> (#[trigger] self.pending@[i]).ordinal
                != self.next_file_ordinal && self.pending@[i].ordinal < usize::MAX
        &&& forall|k: usize|
            #[trigger] self.received@.contains(k) <==> (k < self.next_file_ordinal || exists|i: int|
                0 <= i < self.pending@.len() && (#[trigger] self.pending@[i]).ordinal == k)
        &&& self.consumed@ == self.next_file_ordinal + self.pending@.len()
        &&& forall|k: usize| #[trigger] self.first_given@.dom().contains(k) <==> self.received@.contains(k)
        &&& forall|k: int|
            0 <= k < self.emitted_files@.len() ==> self.first_given@[k as usize]
                == #[trigger] self.emitted_files@[k]
        &&& forall|i: int|
            0 <= i < self.pending@.len() && (#[trigger] self.pending@[i]).ordinal >= self.next_file_ordinal
                ==> self.first_given@[self.pending@[i].ordinal] == self.pending@[i]
    }

    /// A coordinator that has reported nothing and waits for ordinal 0.
    pub fn new(templates: &'a ReportTemplates, engine: LiquidEngine) -> (r: ReportCoordinator<'a>)
        ensures
            r.wf(),
            r.next() == 0,
            r.pending().len() == 0,
            r.results_view().len() == 0,
            r.received() == Set::<usize>::empty(),
            r.first_given() == Map::<usize, FileOutcome>::empty(),
            r.consumed() == 0,
            r.templates() == templates@,
    {
        let r = ReportCoordinator {
            reporter: reporter_for(engine),
            templates,
            results: Vec::new(),
            pending: Vec::new(),
            next_file_ordinal: 0,
            emitted_files: Ghost(Seq::empty()),
            received: Ghost(Set::empty()),
            consumed: Ghost(0),
            calls: Ghost(Seq::empty()),
            first_given: Ghost(Map::empty()),
        };
        assert(r.results@ =~= files_results(Seq::empty()));
        r
    }

    /// Reports the start of a run of `test_count` tests.
    pub fn title(&self, options: &RunOptions, test_count: usize, out: &mut Vec<Output>)
        ensures
            emitted(old(out)@, final(out)@, self.templates(), *options),
    {
        self.reporter.title(options, self.templates, test_count, out);
    }

    /// The results reported so far.
    pub fn results(&self) -> (r: &[SummaryResult])
        ensures
            r@ == self.results_view(),
    {
        self.results.as_slice()
    }

    /// How many outcomes wait for earlier ones.
    pub fn pending_count(&self) -> (r: usize)
        ensures
            r == self.pending().len(),
    {
        self.pending.len()
    }

    /// Whether an outcome with this ordinal is waiting.
    pub fn is_pending(&self, ordinal: usize) -> (r: bool)
        ensures
            r == exists|i: int| 0 <= i < self.pending().len() && (#[trigger] self.pending()[i]).ordinal == ordinal,
    {
        let mut i: usize = 0;
        while i < self.pending.len()
            invariant
                i <= self.pending@.len(),
                forall|j: int| 0 <= j < i ==> (#[trigger] self.pending@[j]).ordinal != ordinal,
            decreases self.pending@.len() - i,
        {
            if self.pending[i].ordinal == ordinal {
                assert(self.pending()[i as int].ordinal == ordinal);
                return true;
            }
            i += 1;
        }
        assert(!exists|j: int| 0 <= j < self.pending().len() && (#[trigger] self.pending()[j]).ordinal == ordinal);
        false
    }

    /// Reports the counts and says how the run ended; every outcome must have been
    /// reported.
    pub fn summary(&self, options: &RunOptions, out: &mut Vec<Output>) -> (r: SummaryResult)
        requires
            self.pending().len() == 0,
        ensures
            r == overall(self.results_view()),
            emitted(old(out)@, final(out)@, self.templates(), *options),
    {
        self.reporter.summary(options, self.templates, self.results.as_slice(), out)
    }

    /// Takes a file's outcome; reports it, and every waiting outcome after it, once all
    /// outcomes with smaller ordinals have been reported. An ordinal may not arrive twice
    /// while it waits.
    pub fn consume(&mut self, outcome: FileOutcome, out: &mut Vec<Output>)
        requires
            old(self).wf(),
            forall|i: int|
                0 <= i < old(self).pending().len() ==> (#[trigger] old(self).pending()[i]).ordinal
                    != outcome.ordinal,
            outcome.ordinal < usize::MAX,
        ensures
            final(self).wf(),
            final(self).templates() == old(self).templates(),
            final(self).received() == old(self).received().insert(outcome.ordinal),
            final(self).first_given() == if old(self).received().contains(outcome.ordinal) {
                old(self).first_given()
            } else {
                old(self).first_given().insert(outcome.ordinal, outcome)
            },
            final(self).consumed() == old(self).consumed() + 1,
            old(self).next() <= final(self).next(),
            final(self).emitted_files().subrange(0, old(self).next() as int)
                == old(self).emitted_files(),
            calls_emitted(
                old(out)@,
                final(out)@,
                final(self).calls().skip(old(self).calls().len() as int),
                old(self).templates(),
            ),
            final(self).calls().subrange(0, old(self).calls().len() as int) == old(self).calls(),
    {
        let ghost old_self = *self;
        let ghost out0 = out@;
        let ordinal = outcome.ordinal;
        let ghost fresh = !old_self.received@.contains(ordinal);
        proof {
            if fresh {
                self.first_given@ = self.first_given@.insert(ordinal, outcome);
            }
            self.received@ = self.received@.insert(ordinal);
            self.consumed@ = self.consumed@ + 1;
        }
        self.pending.push(outcome);
        proof {
            if !fresh && ordinal >= self.next_file_ordinal {
                let i = choose|i: int| 0 <= i < old_self.pending@.len() && (#[trigger] old_self.pending@[i]).ordinal == ordinal;
                assert(old_self.pending()[i] == old_self.pending@[i]);
            }
            assert forall|i: int|
                0 <= i < self.pending@.len() && (#[trigger] self.pending@[i]).ordinal >= self.next_file_ordinal
                    implies self.first_given@[self.pending@[i].ordinal] == self.pending@[i] by {
                if i < old_self.pending@.len() {
                    assert(self.pending@[i] == old_self.pending@[i]);
                    assert(old_self.pending()[i] == old_self.pending@[i]);
                }
            }
            assert forall|k: int| 0 <= k < self.emitted_files@.len() implies self.first_given@[k as usize]
                == #[trigger] self.emitted_files@[k] by {
                assert(old_self.received@.contains(k as usize));
            }
            assert forall|k: usize| #[trigger] self.received@.contains(k) <==> (k < self.next_file_ordinal
                || exists|i: int| 0 <= i < self.pending@.len() && (#[trigger] self.pending@[i]).ordinal == k) by {
                if k == ordinal {
                    assert(self.pending@[self.pending@.len() - 1].ordinal == k);
                } else if old_self.received@.contains(k) && k >= self.next_file_ordinal {
                    let i = choose|i: int| 0 <= i < old_self.pending@.len() && (#[trigger] old_self.pending@[i]).ordinal == k;
                    assert(self.pending@[i] == old_self.pending@[i]);
                } else if exists|i: int| 0 <= i < self.pending@.len() && (#[trigger] self.pending@[i]).ordinal == k {
                    let i = choose|i: int| 0 <= i < self.pending@.len() && (#[trigger] self.pending@[i]).ordinal == k;
                    if i < old_self.pending@.len() {
                        assert(old_self.pending@[i] == self.pending@[i]);
                    }
                }
            }
            lemma_calls_emitted_empty(out@, self.templates@);
            assert(self.calls@.skip(old_self.calls@.len() as int) =~= Seq::<ReportCall>::empty());
            assert(self.calls@.subrange(0, old_self.calls@.len() as int) =~= old_self.calls@);
            assert(self.emitted_files@.subrange(0, old_self.next_file_ordinal as int)
                =~= old_self.emitted_files@);
            assert forall|a: int, b: int|
                0 <= a < b < self.pending@.len() implies (#[trigger] self.pending@[a]).ordinal
                    != (#[trigger] self.pending@[b]).ordinal by {
                if b == self.pending@.len() - 1 {
                    assert(old_self.pending@[a] == self.pending@[a]);
                    assert(old_self.pending()[a] == old_self.pending@[a]);
                    assert(self.pending@[b].ordinal == ordinal);
                } else {
                    assert(old_self.pending@[a] == self.pending@[a]);
                    assert(old_self.pending@[b] == self.pending@[b]);
                }
            }
        }
        loop
            invariant
                self.templates == old_self.templates,
                self.next_file_ordinal >= old_self.next_file_ordinal,
                self.next_file_ordinal == self.emitted_files@.len(),
                forall|k: int|
                    0 <= k < self.emitted_files@.len() ==> (#[trigger] self.emitted_files@[k]).ordinal
                        == k,
                self.emitted_files@.subrange(0, old_self.next_file_ordinal as int)
                    == old_self.emitted_files@,
                self.results@ == files_results(self.emitted_files@),
                self.calls@ == files_calls(self.emitted_files@, 0),
                self.calls@.subrange(0, old_self.calls@.len() as int) == old_self.calls@,
                forall|i: int, j: int|
                    0 <= i < j < self.pending@.len() ==> (#[trigger] self.pending@[i]).ordinal
                        != (#[trigger] self.pending@[j]).ordinal,
                forall|i: int|
                    0 <= i < self.pending@.len() ==> (#[trigger] self.pending@[i]).ordinal < usize::MAX,
                forall|k: usize|
                    #[trigger] self.received@.contains(k) <==> (k < self.next_file_ordinal
                        || exists|i: int|
                        0 <= i < self.pending@.len() && (#[trigger] self.pending@[i]).ordinal == k),
                self.received@ == old_self.received@.insert(ordinal),
                self.consumed@ == old_self.consumed@ + 1,
                self.consumed@ == self.next_file_ordinal + self.pending@.len(),
                self.first_given@ == (if fresh {
                    old_self.first_given@.insert(ordinal, outcome)
                } else {
                    old_self.first_given@
                }),
                forall|k: usize| #[trigger] self.first_given@.dom().contains(k) <==> self.received@.contains(k),
                forall|k: int|
                    0 <= k < self.emitted_files@.len() ==> self.first_given@[k as usize]
                        == #[trigger] self.emitted_files@[k],
                forall|i: int|
                    0 <= i < self.pending@.len() && (#[trigger] self.pending@[i]).ordinal >= self.next_file_ordinal
                        ==> self.first_given@[self.pending@[i].ordinal] == self.pending@[i],
                calls_emitted(
                    out0,
                    out@,
                    self.calls@.skip(old_self.calls@.len() as int),
                    self.templates@,
                ),
                self.calls@.len() >= old_self.calls@.len(),
            ensures
                self.wf(),
                self.templates == old_self.templates,
                self.next_file_ordinal >= old_self.next_file_ordinal,
                self.emitted_files@.subrange(0, old_self.next_file_ordinal as int)
                    == old_self.emitted_files@,
                self.calls@.subrange(0, old_self.calls@.len() as int) == old_self.calls@,
                self.received@ == old_self.received@.insert(ordinal),
                self.consumed@ == old_self.consumed@ + 1,
                self.first_given@ == (if fresh {
                    old_self.first_given@.insert(ordinal, outcome)
                } else {
                    old_self.first_given@
                }),
                calls_emitted(
                    out0,
                    out@,
                    self.calls@.skip(old_self.calls@.len() as int),
                    self.templates@,
                ),
                self.calls@.len() >= old_self.calls@.len(),
            decreases self.pending@.len(),
        {
            let mut found: usize = self.pending.len();
            let mut i: usize = 0;
            while i < self.pending.len()
                invariant_except_break
                    i <= self.pending@.len(),
                    found == self.pending@.len(),
                    forall|j: int| 0 <= j < i ==> (#[trigger] self.pending@[j]).ordinal != self.next_file_ordinal,
                ensures
                    found <= self.pending@.len(),
                    found == self.pending@.len() ==> forall|j: int|
                        0 <= j < self.pending@.len() ==> (#[trigger] self.pending@[j]).ordinal
                            != self.next_file_ordinal,
                    found < self.pending@.len() ==> self.pending@[found as int].ordinal
                        == self.next_file_ordinal,
                decreases self.pending@.len() - i,
            {
                if self.pending[i].ordinal == self.next_file_ordinal {
                    found = i;
                    break;
                }
                i += 1;
            }
            if found == self.pending.len() {
                break;
            }
            let ghost p0 = self.pending@;
            let file = self.pending.remove(found);
            let ghost calls_before = self.calls@;
            let ghost out_before = out@;
            let ghost files_before = self.emitted_files@;
            self.emit_file(&file, out);
            assert(self.calls@.skip(calls_before.len() as int) =~= desc_calls(
                file.descriptors@,
                files_results(files_before).len(),
            ));
            proof {
                self.emitted_files@ = self.emitted_files@.push(file);
                assert(self.emitted_files@.drop_last() =~= files_before);
                assert(self.emitted_files@.subrange(0, old_self.next_file_ordinal as int)
                    =~= old_self.emitted_files@) by {
                    assert forall|k: int| 0 <= k < old_self.next_file_ordinal implies self.emitted_files@[k]
                        == old_self.emitted_files@[k] by {
                        assert(files_before.subrange(0, old_self.next_file_ordinal as int)[k]
                            == files_before[k]);
                    }
                }
            }
            assert(file.ordinal == self.next_file_ordinal);
            self.next_file_ordinal = self.next_file_ordinal + 1;
            proof {
                assert(self.calls@.skip(old_self.calls@.len() as int) =~= calls_before.skip(
                    old_self.calls@.len() as int,
                ) + self.calls@.skip(calls_before.len() as int)) by {
                    assert(calls_before.len() >= old_self.calls@.len()) by {
                        assert(calls_before.subrange(0, old_self.calls@.len() as int) == old_self.calls@);
                    }
                }
                lemma_calls_emitted_concat(
                    out0,
                    out_before,
                    out@,
                    calls_before.skip(old_self.calls@.len() as int),
                    self.calls@.skip(calls_before.len() as int),
                    self.templates@,
                );
                assert(self.calls@.subrange(0, old_self.calls@.len() as int) =~= old_self.calls@) by {
                    assert forall|k: int| 0 <= k < old_self.calls@.len() implies self.calls@[k]
                        == old_self.calls@[k] by {
                        assert(self.calls@.subrange(0, calls_before.len() as int)[k] == calls_before[k]);
                        assert(calls_before.subrange(0, old_self.calls@.len() as int)[k]
                            == calls_before[k]);
                    }
                }
                assert forall|a: int, b: int|
                    0 <= a < b < self.pending@.len() implies (#[trigger] self.pending@[a]).ordinal
                        != (#[trigger] self.pending@[b]).ordinal by {
                    let a0 = if a < found { a } else { a + 1 };
                    let b0 = if b < found { b } else { b + 1 };
                    assert(self.pending@[a] == p0[a0]);
                    assert(self.pending@[b] == p0[b0]);
                }
                assert forall|k: usize| #[trigger] self.received@.contains(k) <==> (k
                    < self.next_file_ordinal || exists|i: int|
                    0 <= i < self.pending@.len() && (#[trigger] self.pending@[i]).ordinal == k) by {
                    if k + 1 == self.next_file_ordinal as int {
                    } else if k >= self.next_file_ordinal && exists|i: int|
                        0 <= i < p0.len() && (#[trigger] p0[i]).ordinal == k {
                        let i = choose|i: int| 0 <= i < p0.len() && (#[trigger] p0[i]).ordinal == k;
                        assert(i != found);
                        let i2 = if i < found { i } else { i - 1 };
                        assert(self.pending@[i2] == p0[i]);
                    } else if exists|i: int| 0 <= i < self.pending@.len() && (#[trigger] self.pending@[i]).ordinal == k {
                        let i = choose|i: int| 0 <= i < self.pending@.len() && (#[trigger] self.pending@[i]).ordinal == k;
                        let i0 = if i < found { i } else { i + 1 };
                        assert(p0[i0] == self.pending@[i]);
                    }
                }
            }
        }
    }

    /// Reports every attempt of every case of a file: each attempt's debug message
    /// (with that attempt's options) before the attempt itself, all attempts of a case
    /// as one logical test numbered by the results reported before it; then records
    /// the case's final result, if it has one.
    fn emit_file(&mut self, file: &FileOutcome, out: &mut Vec<Output>)
        ensures
            final(self).reporter == old(self).reporter,
            final(self).templates == old(self).templates,
            final(self).pending == old(self).pending,
            final(self).next_file_ordinal == old(self).next_file_ordinal,
            final(self).emitted_files == old(self).emitted_files,
            final(self).received == old(self).received,
            final(self).consumed == old(self).consumed,
            final(self).first_given == old(self).first_given,
            final(self).results@ == old(self).results@ + desc_results(file.descriptors@),
            final(self).calls@ == old(self).calls@ + desc_calls(
                file.descriptors@,
                old(self).results@.len(),
            ),
            calls_emitted(
                old(out)@,
                final(out)@,
                desc_calls(file.descriptors@, old(self).results@.len()),
                old(self).templates@,
            ),
    {
        let ghost base = self.results@.len();
        let ghost results0 = self.results@;
        let ghost calls0 = self.calls@;
        let ghost out0 = out@;
        let mut i: usize = 0;
        proof {
            assert(file.descriptors@.take(0) =~= Seq::<DescriptorOutcome>::empty());
            assert(self.results@ =~= results0 + desc_results(Seq::empty()));
            assert(self.calls@ =~= calls0 + desc_calls(Seq::empty(), base));
            lemma_calls_emitted_empty(out@, self.templates@);
        }
        while i < file.descriptors.len()
            invariant
                i <= file.descriptors@.len(),
                self.reporter == old(self).reporter,
                self.templates == old(self).templates,
                self.pending == old(self).pending,
                self.next_file_ordinal == old(self).next_file_ordinal,
                self.emitted_files == old(self).emitted_files,
                self.received == old(self).received,
                self.consumed == old(self).consumed,
                self.first_given == old(self).first_given,
                base == results0.len(),
                self.results@ == results0 + desc_results(file.descriptors@.take(i as int)),
                self.calls@ == calls0 + desc_calls(file.descriptors@.take(i as int), base),
                calls_emitted(out0, out@, desc_calls(file.descriptors@.take(i as int), base), self.templates@),
            decreases file.descriptors@.len() - i,
        {
            let descriptor = &file.descriptors[i];
            let test_count = self.results.len();
            let ghost take_i = file.descriptors@.take(i as int);
            let ghost prefix_calls = desc_calls(take_i, base);
            let ghost out_i = out@;
            assert(test_count == base + desc_results(take_i).len());
            let mut j: usize = 0;
            proof {
                assert(descriptor.attempts@.take(0) =~= Seq::<AttemptOutcome>::empty());
                lemma_calls_emitted_empty(out@, self.templates@);
                assert(self.calls@ =~= calls0 + prefix_calls + attempts_calls(descriptor.attempts@.take(0), test_count as nat));
            }
            while j < descriptor.attempts.len()
                invariant
                    j <= descriptor.attempts@.len(),
                    descriptor == file.descriptors@[i as int],
                    i < file.descriptors@.len(),
                    self.reporter == old(self).reporter,
                    self.templates == old(self).templates,
                    self.results@ == results0 + desc_results(take_i),
                    test_count == self.results@.len(),
                    self.calls@ == calls0 + prefix_calls + attempts_calls(
                        descriptor.attempts@.take(j as int),
                        test_count as nat,
                    ),
                    calls_emitted(
                        out_i,
                        out@,
                        attempts_calls(descriptor.attempts@.take(j as int), test_count as nat),
                        self.templates@,
                    ),
                    self.pending == old(self).pending,
                    self.next_file_ordinal == old(self).next_file_ordinal,
                    self.emitted_files == old(self).emitted_files,
                    self.received == old(self).received,
                    self.consumed == old(self).consumed,
                    self.first_given == old(self).first_given,
                decreases descriptor.attempts@.len() - j,
            {
                let attempt = &descriptor.attempts[j];
                let ghost tk = descriptor.attempts@.take(j as int);
                let ghost out_j = out@;
                assert(descriptor.attempts@.take(j + 1).drop_last() =~= tk);
                assert(descriptor.attempts@.take(j + 1).last() == *attempt);
                match &attempt.debug_message {
                    Some(message) => {
                        let ghost dcall = ReportCall::Debug { msg: message@, options: attempt.options };
                        self.reporter.debug(message.as_str(), &attempt.options, self.templates, out);
                        proof {
                            lemma_calls_emitted_push(out_j, out_j, out@, Seq::empty(), dcall, self.templates@);
                            assert(seq![dcall] =~= Seq::<ReportCall>::empty().push(dcall));
                        }
                    },
                    None => {
                        proof {
                            lemma_calls_emitted_empty(out@, self.templates@);
                        }
                    },
                }
                let ghost out_d = out@;
                let ghost rcall = ReportCall::Report {
                    attempt: *attempt,
                    test_count: test_count as nat,
                    retry_count: j as nat,
                };
                let ghost dcalls = debug_calls(*attempt);
                assert(calls_emitted(out_j, out_d, dcalls, self.templates@));
                self.reporter.report(
                    &attempt.descriptor,
                    attempt.title_path.as_slice(),
                    attempt.test_result.as_ref(),
                    attempt.assertions.as_slice(),
                    &attempt.options,
                    self.templates,
                    test_count,
                    j,
                    out,
                );
                proof {
                    lemma_calls_emitted_push(out_j, out_d, out@, dcalls, rcall, self.templates@);
                    assert(dcalls.push(rcall) =~= attempt_calls(*attempt, test_count as nat, j as nat));
                    lemma_calls_emitted_concat(
                        out_i,
                        out_j,
                        out@,
                        attempts_calls(tk, test_count as nat),
                        attempt_calls(*attempt, test_count as nat, j as nat),
                        self.templates@,
                    );
                    self.calls@ = self.calls@ + attempt_calls(*attempt, test_count as nat, j as nat);
                    assert(self.calls@ =~= calls0 + prefix_calls + attempts_calls(
                        descriptor.attempts@.take(j + 1),
                        test_count as nat,
                    ));
                }
                j += 1;
            }
            assert(descriptor.attempts@.take(j as int) =~= descriptor.attempts@);
            match descriptor.final_result {
                Some(r) => {
                    self.results.push(r);
                },
                None => {},
            }
            proof {
                assert(file.descriptors@.take(i + 1).drop_last() =~= take_i);
                assert(file.descriptors@.take(i + 1).last() == *descriptor);
                assert(self.results@ =~= results0 + desc_results(file.descriptors@.take(i + 1)));
                assert(self.calls@ =~= calls0 + desc_calls(file.descriptors@.take(i + 1), base));
                lemma_calls_emitted_concat(
                    out0,
                    out_i,
                    out@,
                    prefix_calls,
                    attempts_calls(descriptor.attempts@, test_count as nat),
                    self.templates@,
                );
            }
            i += 1;
        }
        assert(file.descriptors@.take(i as int) =~= file.descriptors@);
    }
}

/// Once every ordinal below `n` has been consumed, in whatever order, the coordinator
/// has reported exactly the outcomes consumed with ordinals `0..n`, in ordinal order,
/// with the reporter calls and results of those outcomes in that order, and waits for
/// `n`; if no ordinal was consumed twice, nothing is left waiting.
pub proof fn all_consumed_are_reported_in_order(c: ReportCoordinator, n: usize)
    requires
        c.wf(),
        forall|k: usize| #[trigger] c.received().contains(k) <==> k < n,
    ensures
        c.next() == n,
        c.emitted_files() == Seq::new(n as nat, |k: int| c.first_given()[k as usize]),
        forall|k: int| 0 <= k < n ==> (#[trigger] c.emitted_files()[k]).ordinal == k,
        c.results_view() == files_results(c.emitted_files()),
        c.calls() == files_calls(c.emitted_files(), 0),
        c.consumed() == n ==> c.pending().len() == 0,
{
    if c.next() > n {
        let k = (c.next() - 1) as usize;
        assert(c.received().contains(k));
    }
    if c.next() < n {
        let k = c.next();
        assert(c.received().contains(k));
    }
    assert(c.emitted_files() =~= Seq::new(n as nat, |k: int| c.first_given()[k as usize]));
}

/// What is reported does not depend on the order in which outcomes arrive: two
/// coordinators that have each consumed every ordinal below `n`, each first with the same
/// outcome, have reported the same files, results and reporter calls.
pub proof fn reports_do_not_depend_on_arrival_order(c1: ReportCoordinator, c2: ReportCoordinator, n: usize)
    requires
        c1.wf(),
        c2.wf(),
        forall|k: usize| #[trigger] c1.received().contains(k) <==> k < n,
        forall|k: usize| #[trigger] c2.received().contains(k) <==> k < n,
        forall|k: usize| k < n ==> #[trigger] c1.first_given()[k] == c2.first_given()[k],
    ensures
        c1.emitted_files() == c2.emitted_files(),
        c1.results_view() == c2.results_view(),
        c1.calls() == c2.calls(),
{
    all_consumed_are_reported_in_order(c1, n);
    all_consumed_are_reported_in_order(c2, n);
    assert(Seq::new(n as nat, |k: int| c1.first_given()[k as usize]) =~= Seq::new(
        n as nat,
        |k: int| c2.first_given()[k as usize],
    ));
}

} // verus!
