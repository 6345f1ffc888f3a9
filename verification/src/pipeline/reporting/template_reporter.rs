//! The template reporter: renders each event with every report the options turn on.
use vstd::prelude::*;

use crate::models::{
    find_template,
    lookup_template,
    opt_view,
    opt_views,
    Assertion,
    Descriptor,
    ReportTemplate,
    ReportTemplates,
    RunOptions,
    SummaryResult,
    TestResult,
};
use crate::pipeline::reporting::event::ReportEvent;
use crate::pipeline::reporting::liquid::{event_source, LiquidRenderer};
use crate::pipeline::reporting::sinks::{
    output_sink_for,
    report_path,
    report_target,
    AnyOutputSink,
    Output,
    OutputSink,
    SinkTargetView,
};
use crate::strings::{concat, views};
use crate::templating::{plain_text, LiquidEngine};

verus! {

/// The reports named in `names`, in order: for each name the template of that name,
/// skipping names no template has.
pub open spec fn active_from(templates: Seq<(String, ReportTemplate)>, names: Seq<Seq<char>>) -> Seq<
    ReportTemplate,
>
    decreases names.len(),
{
    if names.len() == 0 {
        Seq::empty()
    } else {
        let rest = active_from(templates, names.drop_last());
        match lookup_template(templates, names.last()) {
            Some(t) => rest.push(t),
            None => rest,
        }
    }
}

/// The reports the options turn on (none when `reports` is unset).
pub open spec fn active_spec(templates: Seq<(String, ReportTemplate)>, options: RunOptions) -> Seq<
    ReportTemplate,
> {
    match opt_views(options.reports) {
        Some(names) => active_from(templates, names),
        None => Seq::empty(),
    }
}

/// The templates of the reports named in the options, in the order they are named.
pub fn active_templates<'a>(templates: &'a ReportTemplates, options: &RunOptions) -> (r: Vec<
    &'a ReportTemplate,
>)
    ensures
        r@.len() == active_spec(templates@, *options).len(),
        forall|i: int| 0 <= i < r@.len() ==> *r@[i] == active_spec(templates@, *options)[i],
{
    let mut out: Vec<&'a ReportTemplate> = Vec::new();
    match &options.reports {
        None => {},
        Some(names) => {
            let mut i: usize = 0;
            while i < names.len()
                invariant
                    i <= names.len(),
                    out@.len() == active_from(templates@, views(names@.take(i as int))).len(),
                    forall|j: int|
                        0 <= j < out@.len() ==> *out@[j] == active_from(
                            templates@,
                            views(names@.take(i as int)),
                        )[j],
                decreases names.len() - i,
            {
                assert(views(names@.take(i + 1)).drop_last() =~= views(names@.take(i as int)));
                assert(views(names@.take(i + 1)).last() == names@[i as int]@);
                match find_template(templates, names[i].as_str()) {
                    Some(t) => {
                        out.push(t);
                    },
                    None => {},
                }
                i += 1;
            }
            assert(names@.take(names@.len() as int) =~= names@);
        },
    }
    out
}

/// What a report writes for an event whose rendering failed: the rendering of the
/// error event, or when that fails too, a line saying so.
pub open spec fn fallback_text(fallback: Result<String, String>) -> (Seq<char>, bool) {
    match fallback {
        Ok(f) => (f@, false),
        Err(e) => ("Failed to render and fallback: "@ + e@, true),
    }
}

/// The output a sink gets when an event's rendering failed and the error event was
/// rendered instead, with `fallback` as its outcome.
pub fn fallback_output(sink: &AnyOutputSink, fallback: Result<String, String>) -> (r: Output)
    ensures
        r.target@ == sink.target_view(),
        (r.text@, r.newline) == fallback_text(fallback),
{
    match fallback {
        Ok(f) => sink.print(f.as_str()),
        Err(e) => {
            let line = concat("Failed to render and fallback: ", e.as_str());
            sink.println(line.as_str())
        },
    }
}

/// The target a report's output goes to: its file (under its directory, with the name
/// its file name renders to) or the console.
pub open spec fn targets_report(target: SinkTargetView, t: ReportTemplate) -> bool {
    match t.file {
        Some(f) => target matches SinkTargetView::File(p) && report_target(f, p),
        None => target == SinkTargetView::Console,
    }
}

/// An output is written as rendered (no line break added), or is the line that says
/// that rendering and its fallback both failed.
pub open spec fn emission_shape(o: Output) -> bool {
    !o.newline || exists|e: Seq<char>| o.text@ == "Failed to render and fallback: "@ + e
}

/// `after` is `before` followed by one output for each report the options turn on, in
/// order, each going where its report writes.
pub open spec fn emitted(
    before: Seq<Output>,
    after: Seq<Output>,
    templates: Seq<(String, ReportTemplate)>,
    options: RunOptions,
) -> bool {
    let active = active_spec(templates, options);
    &&& after.len() == before.len() + active.len()
    &&& after.subrange(0, before.len() as int) == before
    &&& forall|i: int|
        0 <= i < active.len() ==> {
            &&& targets_report((#[trigger] after[before.len() + i]).target@, active[i])
            &&& emission_shape(after[before.len() + i])
        }
}

/// A report's error template (empty where it has none): what a failed rendering falls
/// back to.
pub open spec fn error_source(t: ReportTemplate) -> Seq<char> {
    match opt_view(t.error_template) {
        Some(s) => s,
        None => Seq::empty(),
    }
}

/// What a report writes for an event whose template is `source`: exactly `source` when
/// that is plain text. Otherwise the rendering as it came or the fallback (the error
/// event rendered with `error`), neither with a line break, or, only where `error` is not
/// plain text either, the line saying both failed.
pub open spec fn written_for(o: Output, source: Seq<char>, error: Seq<char>) -> bool {
    if plain_text(source) {
        o.text@ == source && !o.newline
    } else {
        !o.newline || (!plain_text(error) && exists|e: Seq<char>|
            o.text@ == "Failed to render and fallback: "@ + e)
    }
}

/// The outputs from `before.len()` on are what each report the options turn on wrote
/// for `event`, in order.
pub open spec fn event_written(
    before: Seq<Output>,
    after: Seq<Output>,
    templates: Seq<(String, ReportTemplate)>,
    options: RunOptions,
    event: ReportEvent,
) -> bool {
    let active = active_spec(templates, options);
    forall|i: int|
        0 <= i < active.len() ==> written_for(
            #[trigger] after[before.len() + i],
            event_source(event, active[i]),
            error_source(active[i]),
        )
}

/// How a run ended overall: failed if any test failed, else flaky if any was flaky,
/// else passed.
pub open spec fn overall(results: Seq<SummaryResult>) -> SummaryResult {
    if results.contains(SummaryResult::Failed) {
        SummaryResult::Failed
    } else if results.contains(SummaryResult::Flaky) {
        SummaryResult::Flaky
    } else {
        SummaryResult::Passed
    }
}

/// How a run ended, for every list of results: failed as soon as any test failed;
/// otherwise flaky as soon as any test was flaky; otherwise passed (skipped tests and an
/// empty run included). More results never make the ending better.
pub proof fn overall_takes_the_worst_result(a: Seq<SummaryResult>, b: Seq<SummaryResult>)
    ensures
        (exists|i: int| 0 <= i < a.len() && a[i] == SummaryResult::Failed) ==> overall(a) == SummaryResult::Failed,
        !(exists|i: int| 0 <= i < a.len() && a[i] == SummaryResult::Failed) && (exists|i: int|
            0 <= i < a.len() && a[i] == SummaryResult::Flaky) ==> overall(a) == SummaryResult::Flaky,
        (forall|i: int|
            0 <= i < a.len() ==> a[i] != SummaryResult::Failed && a[i] != SummaryResult::Flaky) ==> overall(a)
            == SummaryResult::Passed,
        overall(a) == SummaryResult::Failed ==> overall(a + b) == SummaryResult::Failed,
        overall(a) == SummaryResult::Flaky ==> overall(a + b) != SummaryResult::Passed,
{
    if overall(a) == SummaryResult::Failed {
        let i = choose|i: int| 0 <= i < a.len() && a[i] == SummaryResult::Failed;
        assert((a + b)[i] == SummaryResult::Failed);
    }
    if overall(a) == SummaryResult::Flaky {
        let i = choose|i: int| 0 <= i < a.len() && a[i] == SummaryResult::Flaky;
        assert((a + b)[i] == SummaryResult::Flaky);
    }
    if forall|i: int| 0 <= i < a.len() ==> a[i] != SummaryResult::Failed && a[i] != SummaryResult::Flaky {
        assert(!a.contains(SummaryResult::Failed));
        assert(!a.contains(SummaryResult::Flaky));
    }
}

/// Counting is additive: the count of `r` in two lists run one after the other is the sum
/// of their counts, and a single result counts one exactly when it is `r`.
pub proof fn count_of_adds_up(a: Seq<SummaryResult>, b: Seq<SummaryResult>, r: SummaryResult)
    ensures
        count_of(a + b, r) == count_of(a, r) + count_of(b, r),
        count_of(seq![r], r) == 1,
        forall|x: SummaryResult| x != r ==> count_of(seq![x], r) == 0,
    decreases b.len(),
{
    if b.len() > 0 {
        count_of_adds_up(a, b.drop_last(), r);
        assert((a + b).drop_last() =~= a + b.drop_last());
        assert((a + b).last() == b.last());
    } else {
        assert(a + b =~= a);
    }
    assert(count_of(Seq::<SummaryResult>::empty(), r) == 0);
    assert(seq![r].drop_last() =~= Seq::<SummaryResult>::empty());
    assert(count_of(seq![r], r) == count_of(seq![r].drop_last(), r) + 1);
    assert forall|x: SummaryResult| x != r implies count_of(seq![x], r) == 0 by {
        assert(seq![x].drop_last() =~= Seq::<SummaryResult>::empty());
        assert(count_of(seq![x], r) == count_of(seq![x].drop_last(), r) + 0);
    }
}

/// How many results are `r`.
pub open spec fn count_of(results: Seq<SummaryResult>, r: SummaryResult) -> nat
    decreases results.len(),
{
    if results.len() == 0 {
        0
    } else {
        count_of(results.drop_last(), r) + if results.last() == r {
            1nat
        } else {
            0nat
        }
    }
}

/// Reports the run as it goes.
pub trait Reporter {
    /// Reports an attempt of a descriptor.
    fn report(
        &self,
        descriptor: &Descriptor,
        title_path: &[String],
        test_result: Option<&TestResult>,
        assertions: &[Assertion],
        options: &RunOptions,
        templates: &ReportTemplates,
        test_count: usize,
        retry_count: usize,
        out: &mut Vec<Output>,
    )
        ensures
            emitted(old(out)@, final(out)@, templates@, *options),
            event_written(
                old(out)@,
                final(out)@,
                templates@,
                *options,
                ReportEvent::Descriptor { descriptor, title_path, test_result, assertions, test_count, retry_count },
            ),
    ;

    /// Reports a debug message.
    fn debug(&self, msg: &str, options: &RunOptions, templates: &ReportTemplates, out: &mut Vec<Output>)
        ensures
            emitted(old(out)@, final(out)@, templates@, *options),
            event_written(old(out)@, final(out)@, templates@, *options, ReportEvent::Debug { msg }),
    ;

    /// Reports the counts of the results and says how the run ended.
    fn summary(
        &self,
        options: &RunOptions,
        templates: &ReportTemplates,
        results: &[SummaryResult],
        out: &mut Vec<Output>,
    ) -> (r: SummaryResult)
        ensures
            r == overall(results@),
            emitted(old(out)@, final(out)@, templates@, *options),
            event_written(
                old(out)@,
                final(out)@,
                templates@,
                *options,
                ReportEvent::Summary {
                    passed: count_of(results@, SummaryResult::Passed) as usize,
                    failed: count_of(results@, SummaryResult::Failed) as usize,
                    flaky: count_of(results@, SummaryResult::Flaky) as usize,
                },
            ),
    ;

    /// Reports the start of a run of `test_count` tests.
    fn title(
        &self,
        options: &RunOptions,
        templates: &ReportTemplates,
        test_count: usize,
        out: &mut Vec<Output>,
    )
        ensures
            emitted(old(out)@, final(out)@, templates@, *options),
            event_written(old(out)@, final(out)@, templates@, *options, ReportEvent::Title { test_count }),
    ;
}

/// Renders events with Liquid templates.
pub struct TemplateReporter {
    pub renderer: LiquidRenderer,
}

impl TemplateReporter {
    pub fn new(engine: LiquidEngine) -> (r: TemplateReporter)
        ensures
            r.renderer.engine == engine,
    {
        TemplateReporter { renderer: LiquidRenderer::new(engine) }
    }

    /// Writes an event with every active report: its rendering, or on failure the
    /// rendering of the error event, or a line saying both failed.
    pub fn emit(
        &self,
        event: &ReportEvent<'_>,
        options: &RunOptions,
        templates: &ReportTemplates,
        out: &mut Vec<Output>,
    )
        ensures
            emitted(old(out)@, final(out)@, templates@, *options),
            event_written(old(out)@, final(out)@, templates@, *options, *event),
    {
        let active = active_templates(templates, options);
        let ghost before = out@;
        let ghost spec_active = active_spec(templates@, *options);
        let mut i: usize = 0;
        while i < active.len()
            invariant
                i <= active.len(),
                active@.len() == spec_active.len(),
                forall|j: int| 0 <= j < active@.len() ==> *active@[j] == spec_active[j],
                spec_active == active_spec(templates@, *options),
                out@.len() == before.len() + i,
                out@.subrange(0, before.len() as int) == before,
                forall|j: int|
                    0 <= j < i ==> {
                        &&& targets_report((#[trigger] out@[before.len() + j]).target@, spec_active[j])
                        &&& emission_shape(out@[before.len() + j])
                        &&& written_for(
                            out@[before.len() + j],
                            event_source(*event, spec_active[j]),
                            error_source(spec_active[j]),
                        )
                    },
            decreases active.len() - i,
        {
            let template = active[i];
            let sink = output_sink_for(template, options, &self.renderer.engine);
            let written = match self.renderer.render(template, event) {
                Ok(o) => sink.print(o.as_str()),
                Err(err) => {
                    let fallback = self.renderer.render(
                        template,
                        &ReportEvent::Error { msg: err.as_str() },
                    );
                    fallback_output(&sink, fallback)
                },
            };
            proof {
                assert(targets_report(written.target@, spec_active[i as int]));
            }
            out.push(written);
            assert(out@.subrange(0, before.len() as int) =~= before);
            i += 1;
        }
    }
}

/// How many of `results` are `r`.
fn count_results(results: &[SummaryResult], r: SummaryResult) -> (n: usize)
    ensures
        n == count_of(results@, r),
{
    let mut n: usize = 0;
    let mut i: usize = 0;
    while i < results.len()
        invariant
            i <= results.len(),
            n == count_of(results@.take(i as int), r),
            n <= i,
        decreases results.len() - i,
    {
        assert(results@.take(i + 1).drop_last() =~= results@.take(i as int));
        if results[i] == r {
            n += 1;
        }
        i += 1;
    }
    assert(results@.take(results@.len() as int) =~= results@);
    n
}

/// A result sequence contains `r` exactly when its count of `r` is positive.
pub proof fn lemma_count_positive(results: Seq<SummaryResult>, r: SummaryResult)
    ensures
        (count_of(results, r) > 0) <==> results.contains(r),
    decreases results.len(),
{
    if results.len() > 0 {
        let init = results.drop_last();
        lemma_count_positive(init, r);
        assert(results =~= init.push(results.last()));
        if init.contains(r) {
            let k = choose|k: int| 0 <= k < init.len() && init[k] == r;
            assert(results[k] == r);
        }
        if results.contains(r) && results.last() != r {
            let k = choose|k: int| 0 <= k < results.len() && results[k] == r;
            assert(init[k] == r);
        }
    }
}

impl Reporter for TemplateReporter {
    fn report(
        &self,
        descriptor: &Descriptor,
        title_path: &[String],
        test_result: Option<&TestResult>,
        assertions: &[Assertion],
        options: &RunOptions,
        templates: &ReportTemplates,
        test_count: usize,
        retry_count: usize,
        out: &mut Vec<Output>,
    ) {
        self.emit(
            &ReportEvent::Descriptor {
                descriptor,
                title_path,
                test_result,
                assertions,
                test_count,
                retry_count,
            },
            options,
            templates,
            out,
        );
    }

    fn debug(&self, msg: &str, options: &RunOptions, templates: &ReportTemplates, out: &mut Vec<Output>) {
        self.emit(&ReportEvent::Debug { msg }, options, templates, out);
    }

    fn summary(
        &self,
        options: &RunOptions,
        templates: &ReportTemplates,
        results: &[SummaryResult],
        out: &mut Vec<Output>,
    ) -> (r: SummaryResult) {
        let passed = count_results(results, SummaryResult::Passed);
        let failed = count_results(results, SummaryResult::Failed);
        let flaky = count_results(results, SummaryResult::Flaky);
        self.emit(&ReportEvent::Summary { passed, failed, flaky }, options, templates, out);
        proof {
            lemma_count_positive(results@, SummaryResult::Failed);
            lemma_count_positive(results@, SummaryResult::Flaky);
        }
        if failed > 0 {
            SummaryResult::Failed
        } else if flaky > 0 {
            SummaryResult::Flaky
        } else {
            SummaryResult::Passed
        }
    }

    fn title(
        &self,
        options: &RunOptions,
        templates: &ReportTemplates,
        test_count: usize,
        out: &mut Vec<Output>,
    ) {
        self.emit(&ReportEvent::Title { test_count }, options, templates, out);
    }
}

/// The reporters a run may use.
pub enum AnyReporter {
    TemplateReporter(TemplateReporter),
}

impl Reporter for AnyReporter {
    fn report(
        &self,
        descriptor: &Descriptor,
        title_path: &[String],
        test_result: Option<&TestResult>,
        assertions: &[Assertion],
        options: &RunOptions,
        templates: &ReportTemplates,
        test_count: usize,
        retry_count: usize,
        out: &mut Vec<Output>,
    ) {
        match self {
            AnyReporter::TemplateReporter(t) => t.report(
                descriptor,
                title_path,
                test_result,
                assertions,
                options,
                templates,
                test_count,
                retry_count,
                out,
            ),
        }
    }

    fn debug(&self, msg: &str, options: &RunOptions, templates: &ReportTemplates, out: &mut Vec<Output>) {
        match self {
            AnyReporter::TemplateReporter(t) => t.debug(msg, options, templates, out),
        }
    }

    fn summary(
        &self,
        options: &RunOptions,
        templates: &ReportTemplates,
        results: &[SummaryResult],
        out: &mut Vec<Output>,
    ) -> (r: SummaryResult) {
        match self {
            AnyReporter::TemplateReporter(t) => t.summary(options, templates, results, out),
        }
    }

    fn title(
        &self,
        options: &RunOptions,
        templates: &ReportTemplates,
        test_count: usize,
        out: &mut Vec<Output>,
    ) {
        match self {
            AnyReporter::TemplateReporter(t) => t.title(options, templates, test_count, out),
        }
    }
}

/// The reporter of a run: the template reporter over `engine`.
pub fn reporter_for(engine: LiquidEngine) -> (r: AnyReporter)
    ensures
        r matches AnyReporter::TemplateReporter(t) && t.renderer.engine == engine,
{
    AnyReporter::TemplateReporter(TemplateReporter::new(engine))
}

} // verus!
