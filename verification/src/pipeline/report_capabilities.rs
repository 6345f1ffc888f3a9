//! Report capabilities: a colored console reporter, a Liquid reporter, and the outputs
//! they write to.
use vstd::prelude::*;

use colored::Colorize;

use crate::models::{
    opt_view,
    Assertion,
    Descriptor,
    ReportFile,
    ReportTemplate,
    ReportTemplates,
    RunOptions,
    SummaryResult,
    TempestStatusCode,
    TestResult,
};
use crate::pipeline::reporting::liquid::{
    all_passed,
    assertion_value_of,
    assertion_values,
    or_empty,
    or_empty_of,
    str_value,
};
use crate::pipeline::reporting::sinks::{
    configured_name,
    file_name_globals_of,
    lemma_default_name_plain,
    report_target,
    report_file_path,
    report_path,
    Output,
    SinkTarget,
    SinkTargetView,
};
use crate::pipeline::reporting::template_reporter::{error_source, targets_report};
use crate::strings::{concat, concat3, copy_str, decimal, decimal_string, views};
use crate::templating::{
    count_value_of,
    lemma_tv_seq_push,
    plain_text,
    put,
    tv_pairs,
    tv_seq,
    u64_value,
    u64_value_of,
    Globals,
    LiquidEngine,
    TemplateValue,
    TemplateValueView,
};

verus! {

// ---------------------------------------------------------------------------------
// Console colors
// ---------------------------------------------------------------------------------

/// A terminal color for a piece of text.
#[derive(PartialEq, Eq, Structural, Clone, Copy, Debug)]
pub enum Paint {
    Plain,
    Red,
    Green,
    Yellow,
    BrightRed,
    BrightGreen,
    BrightBlue,
    BrightPurple,
}

/// A terminal color a piece of text is shown in.
#[derive(PartialEq, Eq, Structural, Clone, Copy, Debug)]
pub enum Hue {
    Red,
    Green,
    Yellow,
    BrightRed,
    BrightGreen,
    BrightBlue,
    BrightMagenta,
}

/// The color a paint applies: none for plain text.
pub open spec fn hue_spec(p: Paint) -> Option<Hue> {
    match p {
        Paint::Plain => None,
        Paint::Red => Some(Hue::Red),
        Paint::Green => Some(Hue::Green),
        Paint::Yellow => Some(Hue::Yellow),
        Paint::BrightRed => Some(Hue::BrightRed),
        Paint::BrightGreen => Some(Hue::BrightGreen),
        Paint::BrightBlue => Some(Hue::BrightBlue),
        Paint::BrightPurple => Some(Hue::BrightMagenta),
    }
}

pub fn hue_of(p: Paint) -> (r: Option<Hue>)
    ensures
        r == hue_spec(p),
{
    match p {
        Paint::Plain => None,
        Paint::Red => Some(Hue::Red),
        Paint::Green => Some(Hue::Green),
        Paint::Yellow => Some(Hue::Yellow),
        Paint::BrightRed => Some(Hue::BrightRed),
        Paint::BrightGreen => Some(Hue::BrightGreen),
        Paint::BrightBlue => Some(Hue::BrightBlue),
        Paint::BrightPurple => Some(Hue::BrightMagenta),
    }
}

/// `colored::Colorize::color` on `text`, shown with `to_string`: the text with the
/// color's ANSI codes around it, or as it is where the environment turns colors off.
/// Nothing is stated of the result, which depends on the environment.
#[verifier::external_body]
fn colorize(text: &str, hue: Hue) -> String {
    let color = match hue {
        Hue::Red => colored::Color::Red,
        Hue::Green => colored::Color::Green,
        Hue::Yellow => colored::Color::Yellow,
        Hue::BrightRed => colored::Color::BrightRed,
        Hue::BrightGreen => colored::Color::BrightGreen,
        Hue::BrightBlue => colored::Color::BrightBlue,
        Hue::BrightMagenta => colored::Color::BrightMagenta,
    };
    text.color(color).to_string()
}

/// A piece of console text and its color.
pub struct Segment {
    pub text: String,
    pub paint: Paint,
}

/// A line the console reporter prints: colored pieces, or the test result as JSON.
pub enum ConsoleLine {
    Text(Vec<Segment>),
    ResultJson,
}

pub enum LineView {
    Text(Seq<(Seq<char>, Paint)>),
    ResultJson,
}

pub open spec fn segments_view(s: Seq<Segment>) -> Seq<(Seq<char>, Paint)> {
    s.map_values(|x: Segment| (x.text@, x.paint))
}

pub open spec fn line_view(l: ConsoleLine) -> LineView {
    match l {
        ConsoleLine::Text(s) => LineView::Text(segments_view(s@)),
        ConsoleLine::ResultJson => LineView::ResultJson,
    }
}

pub open spec fn lines_view(ls: Seq<ConsoleLine>) -> Seq<LineView> {
    ls.map_values(|l: ConsoleLine| line_view(l))
}

fn seg(text: &str, paint: Paint) -> (r: Segment)
    ensures
        r.text@ == text@,
        r.paint == paint,
{
    Segment { text: copy_str(text), paint }
}

/// Pieces joined end to end, in order.
pub open spec fn concat_all(pieces: Seq<Seq<char>>) -> Seq<char>
    decreases pieces.len(),
{
    if pieces.len() == 0 {
        Seq::empty()
    } else {
        concat_all(pieces.drop_last()) + pieces.last()
    }
}

/// `pieces` are the shown forms of `segments`, one each: a plain segment's text as it
/// is (a colored one's text with its color applied, which is not stated).
pub open spec fn shown_pieces(segments: Seq<(Seq<char>, Paint)>, pieces: Seq<Seq<char>>) -> bool {
    &&& pieces.len() == segments.len()
    &&& forall|i: int| 0 <= i < segments.len() && segments[i].1 == Paint::Plain ==> #[trigger] pieces[i] == segments[i].0
}

/// A line's text with its colors applied: each segment shown in order, plain pieces as
/// they are.
pub fn paint_line(segments: &Vec<Segment>) -> (r: String)
    ensures
        exists|pieces: Seq<Seq<char>>|
            #[trigger] shown_pieces(segments_view(segments@), pieces) && r@ == concat_all(pieces),
{
    let mut out = String::new();
    let ghost mut pieces: Seq<Seq<char>> = Seq::empty();
    let mut i: usize = 0;
    while i < segments.len()
        invariant
            i <= segments@.len(),
            shown_pieces(segments_view(segments@).take(i as int), pieces),
            out@ == concat_all(pieces),
        decreases segments@.len() - i,
    {
        let s = &segments[i];
        let ghost before = pieces;
        match hue_of(s.paint) {
            None => {
                crate::strings::append_str(&mut out, s.text.as_str());
                proof {
                    pieces = pieces.push(s.text@);
                }
            },
            Some(hue) => {
                let painted = colorize(s.text.as_str(), hue);
                crate::strings::append_str(&mut out, painted.as_str());
                proof {
                    pieces = pieces.push(painted@);
                }
            },
        }
        proof {
            assert(pieces.drop_last() =~= before);
            assert(segments_view(segments@).take(i + 1) =~= segments_view(segments@).take(i as int).push(
                (s.text@, s.paint),
            ));
            assert forall|j: int|
                0 <= j < i + 1 && segments_view(segments@).take(i + 1)[j].1 == Paint::Plain implies #[trigger] pieces[j]
                == segments_view(segments@).take(i + 1)[j].0 by {
                if j < i {
                    assert(pieces[j] == before[j]);
                    assert(segments_view(segments@).take(i + 1)[j] == segments_view(segments@).take(i as int)[j]);
                }
            }
        }
        i += 1;
    }
    proof {
        assert(segments_view(segments@).take(segments@.len() as int) =~= segments_view(segments@));
    }
    out
}

// ---------------------------------------------------------------------------------
// The console reporter
// ---------------------------------------------------------------------------------

/// A status as text: its code and its message.
pub open spec fn status_display(s: TempestStatusCode) -> Seq<char> {
    decimal(s.code as nat) + " "@ + s.message@
}

/// A status's color: green for 2xx, yellow for 3xx, red for 4xx, plain otherwise.
pub open spec fn status_paint(code: u16) -> Paint {
    if 200 <= code <= 299 {
        Paint::Green
    } else if 300 <= code <= 399 {
        Paint::Yellow
    } else if 400 <= code <= 499 {
        Paint::Red
    } else {
        Paint::Plain
    }
}

/// A duration's color: green up to 50 ms, yellow up to 200 ms, red beyond.
pub open spec fn duration_paint(ms: u64) -> Paint {
    if ms <= 50 {
        Paint::Green
    } else if ms <= 200 {
        Paint::Yellow
    } else {
        Paint::Red
    }
}

/// A duration as text: milliseconds with three decimals.
pub open spec fn duration_display(ms: u64) -> Seq<char> {
    decimal(ms as nat) + ".000ms"@
}

/// The lines of an assertion: its icon and expression (green when it passed, red when
/// not), then its error in red when it failed with one.
pub open spec fn assertion_lines(a: Assertion) -> Seq<LineView> {
    let head = LineView::Text(
        seq![
            ("       "@, Paint::Plain),
            (if a.passed {
                "✅"@
            } else {
                "❌"@
            }, Paint::Plain),
            ("  "@, Paint::Plain),
            (a.expr@, if a.passed {
                Paint::Green
            } else {
                Paint::Red
            }),
        ],
    );
    if !a.passed && a.error@.len() > 0 {
        seq![head, LineView::Text(seq![("          "@, Paint::Plain), (a.error@, Paint::Red)])]
    } else {
        seq![head]
    }
}

pub open spec fn assertions_lines(s: Seq<Assertion>) -> Seq<LineView>
    decreases s.len(),
{
    if s.len() == 0 {
        Seq::empty()
    } else {
        assertions_lines(s.drop_last()) + assertion_lines(s.last())
    }
}

/// What the console shows for a descriptor: a section's name as a heading; for a test
/// that ran, its name, status and duration, its assertions, then PASSED or FAILED (and
/// on failure in debug mode, the test result as JSON); nothing for a test that did not run.
pub open spec fn console_report(
    d: Descriptor,
    result: Option<TestResult>,
    assertions: Seq<Assertion>,
    debug: Option<bool>,
) -> Seq<LineView> {
    if d.test is None {
        seq![LineView::Text(seq![("\n"@, Paint::Plain), (or_empty(d.name), Paint::BrightBlue), (":"@, Paint::Plain)])]
    } else {
        match result {
            None => Seq::empty(),
            Some(r) => {
                let head = LineView::Text(
                    seq![
                        (" - "@, Paint::Plain),
                        (or_empty(d.name), Paint::BrightPurple),
                        ("  "@, Paint::Plain),
                        (status_display(r.status), status_paint(r.status.code)),
                        ("  "@, Paint::Plain),
                        (duration_display(r.duration_ms), duration_paint(r.duration_ms)),
                    ],
                );
                let body = assertions_lines(assertions);
                if all_passed(assertions) {
                    seq![head] + body + seq![LineView::Text(seq![("   "@, Paint::Plain), ("PASSED"@, Paint::BrightGreen)])]
                } else {
                    seq![head] + body + seq![LineView::Text(seq![("   "@, Paint::Plain), ("FAILED"@, Paint::BrightRed)])]
                        + if debug == Some(true) {
                        seq![LineView::Text(seq![("Test Results:"@, Paint::Plain)]), LineView::ResultJson]
                    } else {
                        Seq::empty()
                    }
                }
            },
        }
    }
}

/// How bad a color reads on the console: green, then yellow, then red (plain between
/// yellow and red).
pub open spec fn severity(p: Paint) -> int {
    match p {
        Paint::Green | Paint::BrightGreen => 0,
        Paint::Yellow => 1,
        Paint::Plain => 2,
        _ => 3,
    }
}

/// Durations: a slower test never shows a better color; up to 50 ms is green, 51 to 200 ms
/// yellow, beyond red. Statuses: codes of one hundred share a color; 2xx is green, 3xx
/// yellow, 4xx red.
pub proof fn console_colors_follow_thresholds(a: u64, b: u64, c: u16, d: u16)
    ensures
        a <= b ==> severity(duration_paint(a)) <= severity(duration_paint(b)),
        a <= 50 ==> duration_paint(a) == Paint::Green,
        50 < a <= 200 ==> duration_paint(a) == Paint::Yellow,
        200 < a ==> duration_paint(a) == Paint::Red,
        200 <= c < 300 ==> status_paint(c) == Paint::Green,
        300 <= c < 400 ==> status_paint(c) == Paint::Yellow,
        400 <= c < 500 ==> status_paint(c) == Paint::Red,
        c / 100 == d / 100 ==> status_paint(c) == status_paint(d),
{
}

/// A test's console report shows, after its heading and its assertion lines, `PASSED`
/// when every assertion passed and `FAILED` as soon as one did not; only a failure in
/// debug mode prints more, the test result last.
pub proof fn console_verdict_needs_every_assertion(
    d: Descriptor,
    result: TestResult,
    assertions: Seq<Assertion>,
    debug: Option<bool>,
)
    requires
        d.test is Some,
    ensures
        console_report(d, Some(result), assertions, debug).len() > 1 + assertions_lines(assertions).len(),
        (forall|i: int| 0 <= i < assertions.len() ==> (#[trigger] assertions[i]).passed) ==> console_report(
            d,
            Some(result),
            assertions,
            debug,
        )[1 + assertions_lines(assertions).len() as int] == LineView::Text(
            seq![("   "@, Paint::Plain), ("PASSED"@, Paint::BrightGreen)],
        ),
        (exists|i: int| 0 <= i < assertions.len() && !(#[trigger] assertions[i]).passed) ==> console_report(
            d,
            Some(result),
            assertions,
            debug,
        )[1 + assertions_lines(assertions).len() as int] == LineView::Text(
            seq![("   "@, Paint::Plain), ("FAILED"@, Paint::BrightRed)],
        ),
        console_report(d, Some(result), assertions, debug).len() == 2 + assertions_lines(assertions).len() + if (
        exists|i: int| 0 <= i < assertions.len() && !(#[trigger] assertions[i]).passed) && debug == Some(true) {
            2int
        } else {
            0int
        },
        (exists|i: int| 0 <= i < assertions.len() && !(#[trigger] assertions[i]).passed) && debug == Some(true)
            ==> console_report(d, Some(result), assertions, debug).last() == LineView::ResultJson,
{
    let lines = console_report(d, Some(result), assertions, debug);
    let k = 1 + assertions_lines(assertions).len();
    if exists|i: int| 0 <= i < assertions.len() && !(#[trigger] assertions[i]).passed {
        let i = choose|i: int| 0 <= i < assertions.len() && !(#[trigger] assertions[i]).passed;
        assert(!all_passed(assertions));
    }
    assert(lines[k as int] == lines[k as int]);
}

/// Reports descriptors to the console.
pub struct ConsoleReporter;

fn text_line(segments: Vec<Segment>) -> (r: ConsoleLine)
    ensures
        line_view(r) == LineView::Text(segments_view(segments@)),
{
    ConsoleLine::Text(segments)
}

fn push_line(lines: &mut Vec<ConsoleLine>, l: ConsoleLine)
    ensures
        lines_view(final(lines)@) == lines_view(old(lines)@).push(line_view(l)),
{
    lines.push(l);
    assert(lines_view(lines@) =~= lines_view(old(lines)@).push(line_view(l)));
}

impl ConsoleReporter {
    /// A status's text and color.
    pub fn color_status(status: &TempestStatusCode) -> (r: Segment)
        ensures
            r.text@ == status_display(*status),
            r.paint == status_paint(status.code),
    {
        let code = decimal_string(status.code as u64);
        let text = concat3(code.as_str(), " ", status.message.as_str());
        let paint = if 200 <= status.code && status.code <= 299 {
            Paint::Green
        } else if 300 <= status.code && status.code <= 399 {
            Paint::Yellow
        } else if 400 <= status.code && status.code <= 499 {
            Paint::Red
        } else {
            Paint::Plain
        };
        Segment { text, paint }
    }

    /// A duration's text and color.
    pub fn color_duration(ms: u64) -> (r: Segment)
        ensures
            r.text@ == duration_display(ms),
            r.paint == duration_paint(ms),
    {
        let digits = decimal_string(ms);
        let text = concat(digits.as_str(), ".000ms");
        let paint = if ms <= 50 {
            Paint::Green
        } else if ms <= 200 {
            Paint::Yellow
        } else {
            Paint::Red
        };
        Segment { text, paint }
    }

    /// The lines of assertions, and whether they all passed.
    pub fn render_assertions(assertions: &[Assertion], lines: &mut Vec<ConsoleLine>) -> (r: bool)
        ensures
            lines_view(final(lines)@) == lines_view(old(lines)@) + assertions_lines(assertions@),
            r == all_passed(assertions@),
    {
        let ghost start = lines_view(lines@);
        let mut passed = true;
        let mut i: usize = 0;
        while i < assertions.len()
            invariant
                i <= assertions@.len(),
                lines_view(lines@) == start + assertions_lines(assertions@.take(i as int)),
                passed == all_passed(assertions@.take(i as int)),
            decreases assertions@.len() - i,
        {
            let a = &assertions[i];
            let ghost before = lines_view(lines@);
            let mut head: Vec<Segment> = Vec::new();
            head.push(seg("       ", Paint::Plain));
            head.push(seg(if a.passed { "✅" } else { "❌" }, Paint::Plain));
            head.push(seg("  ", Paint::Plain));
            head.push(Segment { text: a.expr.clone(), paint: if a.passed { Paint::Green } else { Paint::Red } });
            let ghost hv = segments_view(head@);
            push_line(lines, text_line(head));
            let has_error = !a.passed && !crate::strings::str_eq(a.error.as_str(), "");
            proof {
                reveal_strlit("");
                if a.error@.len() == 0 {
                    assert(a.error@ =~= ""@);
                }
                assert(has_error == (!a.passed && a.error@.len() > 0));
            }
            if has_error {
                let mut err: Vec<Segment> = Vec::new();
                err.push(seg("          ", Paint::Plain));
                err.push(Segment { text: a.error.clone(), paint: Paint::Red });
                assert(segments_view(err@) =~= seq![("          "@, Paint::Plain), (a.error@, Paint::Red)]);
                push_line(lines, text_line(err));
            }
            proof {
                assert(assertions@.take(i + 1).drop_last() =~= assertions@.take(i as int));
                assert(hv =~= seq![
                    ("       "@, Paint::Plain),
                    (if a.passed {
                        "✅"@
                    } else {
                        "❌"@
                    }, Paint::Plain),
                    ("  "@, Paint::Plain),
                    (a.expr@, if a.passed {
                        Paint::Green
                    } else {
                        Paint::Red
                    }),
                ]);
                assert(lines_view(lines@) =~= before + assertion_lines(*a));
                if !a.passed {
                    assert(!assertions@.take(i + 1)[i as int].passed);
                }
            }
            passed = passed && a.passed;
            i += 1;
        }
        assert(assertions@.take(i as int) =~= assertions@);
        passed
    }

    /// The console lines for a descriptor.
    pub fn report_lines(
        descriptor: &Descriptor,
        test_result: Option<&TestResult>,
        assertions: &[Assertion],
        options: &RunOptions,
    ) -> (r: Vec<ConsoleLine>)
        ensures
            lines_view(r@) == console_report(
                *descriptor,
                match test_result {
                    Some(x) => Some(*x),
                    None => None,
                },
                assertions@,
                options.debug,
            ),
    {
        let mut lines: Vec<ConsoleLine> = Vec::new();
        assert(lines_view(lines@) =~= Seq::<LineView>::empty());
        let name = or_empty_of(&descriptor.name);
        if descriptor.test.is_none() {
            let mut s: Vec<Segment> = Vec::new();
            s.push(seg("\n", Paint::Plain));
            s.push(Segment { text: name, paint: Paint::BrightBlue });
            s.push(seg(":", Paint::Plain));
            assert(segments_view(s@) =~= seq![("\n"@, Paint::Plain), (or_empty(descriptor.name), Paint::BrightBlue), (":"@, Paint::Plain)]);
            push_line(&mut lines, text_line(s));
            assert(lines_view(lines@) =~= console_report(
                *descriptor,
                match test_result {
                    Some(x) => Some(*x),
                    None => None,
                },
                assertions@,
                options.debug,
            ));
            return lines;
        }
        match test_result {
            None => lines,
            Some(result) => {
                let mut s: Vec<Segment> = Vec::new();
                s.push(seg(" - ", Paint::Plain));
                s.push(Segment { text: name, paint: Paint::BrightPurple });
                s.push(seg("  ", Paint::Plain));
                s.push(ConsoleReporter::color_status(&result.status));
                s.push(seg("  ", Paint::Plain));
                s.push(ConsoleReporter::color_duration(result.duration_ms));
                assert(segments_view(s@) =~= seq![
                    (" - "@, Paint::Plain),
                    (or_empty(descriptor.name), Paint::BrightPurple),
                    ("  "@, Paint::Plain),
                    (status_display(result.status), status_paint(result.status.code)),
                    ("  "@, Paint::Plain),
                    (duration_display(result.duration_ms), duration_paint(result.duration_ms)),
                ]);
                push_line(&mut lines, text_line(s));
                let ghost after_head = lines_view(lines@);
                let passed = ConsoleReporter::render_assertions(assertions, &mut lines);
                if passed {
                    let mut p: Vec<Segment> = Vec::new();
                    p.push(seg("   ", Paint::Plain));
                    p.push(seg("PASSED", Paint::BrightGreen));
                    assert(segments_view(p@) =~= seq![("   "@, Paint::Plain), ("PASSED"@, Paint::BrightGreen)]);
                    push_line(&mut lines, text_line(p));
                } else {
                    let mut f: Vec<Segment> = Vec::new();
                    f.push(seg("   ", Paint::Plain));
                    f.push(seg("FAILED", Paint::BrightRed));
                    assert(segments_view(f@) =~= seq![("   "@, Paint::Plain), ("FAILED"@, Paint::BrightRed)]);
                    push_line(&mut lines, text_line(f));
                    if options.debug == Some(true) {
                        let mut t: Vec<Segment> = Vec::new();
                        t.push(seg("Test Results:", Paint::Plain));
                        assert(segments_view(t@) =~= seq![("Test Results:"@, Paint::Plain)]);
                        push_line(&mut lines, text_line(t));
                        push_line(&mut lines, ConsoleLine::ResultJson);
                    }
                }
                assert(lines_view(lines@) =~= console_report(
                    *descriptor,
                    Some(*result),
                    assertions@,
                    options.debug,
                ));
                lines
            },
        }
    }
}

/// Something that reports a descriptor to the console.
pub trait ReportCapability {
    /// The console lines for a descriptor.
    fn report(
        &self,
        descriptor: &Descriptor,
        test_result: Option<&TestResult>,
        assertions: &[Assertion],
        options: &RunOptions,
    ) -> (r: Vec<ConsoleLine>);
}

impl ReportCapability for ConsoleReporter {
    fn report(
        &self,
        descriptor: &Descriptor,
        test_result: Option<&TestResult>,
        assertions: &[Assertion],
        options: &RunOptions,
    ) -> (r: Vec<ConsoleLine>)
        ensures
            lines_view(r@) == console_report(
                *descriptor,
                match test_result {
                    Some(x) => Some(*x),
                    None => None,
                },
                assertions@,
                options.debug,
            ),
    {
        ConsoleReporter::report_lines(descriptor, test_result, assertions, options)
    }
}

/// The report capabilities.
pub enum ReportCapabilityProvider {
    ConsoleReporter(ConsoleReporter),
}

impl ReportCapability for ReportCapabilityProvider {
    fn report(
        &self,
        descriptor: &Descriptor,
        test_result: Option<&TestResult>,
        assertions: &[Assertion],
        options: &RunOptions,
    ) -> (r: Vec<ConsoleLine>)
        ensures
            lines_view(r@) == console_report(
                *descriptor,
                match test_result {
                    Some(x) => Some(*x),
                    None => None,
                },
                assertions@,
                options.debug,
            ),
    {
        match self {
            ReportCapabilityProvider::ConsoleReporter(c) => c.report(descriptor, test_result, assertions, options),
        }
    }
}

/// The report capability: the console reporter.
pub fn get_report_capability() -> (r: ReportCapabilityProvider)
    ensures
        r is ConsoleReporter,
{
    ReportCapabilityProvider::ConsoleReporter(ConsoleReporter)
}

// ---------------------------------------------------------------------------------
// Outputs
// ---------------------------------------------------------------------------------

/// Somewhere a report's text goes.
pub trait OutputCapability {
    spec fn target_view(&self) -> SinkTargetView;

    /// `msg` and a line break.
    fn println(&self, msg: &str) -> (r: Output)
        ensures
            r.target@ == self.target_view(),
            r.text@ == msg@,
            r.newline,
    ;

    /// `msg` as it is.
    fn print(&self, msg: &str) -> (r: Output)
        ensures
            r.target@ == self.target_view(),
            r.text@ == msg@,
            !r.newline,
    ;
}

/// Standard output.
pub struct CliOutput;

impl OutputCapability for CliOutput {
    open spec fn target_view(&self) -> SinkTargetView {
        SinkTargetView::Console
    }

    fn println(&self, msg: &str) -> (r: Output) {
        Output { target: SinkTarget::Console, text: copy_str(msg), newline: true }
    }

    fn print(&self, msg: &str) -> (r: Output) {
        Output { target: SinkTarget::Console, text: copy_str(msg), newline: false }
    }
}

/// A report file, appended to.
pub struct FileOutput {
    pub path: String,
}

impl FileOutput {
    /// The file of a report: its name (`report.txt` when unset) rendered with the run's
    /// start timestamp (kept as written where rendering fails), in its directory (`.`
    /// when unset).
    pub fn new(file_cfg: &ReportFile, options: &RunOptions, engine: &LiquidEngine) -> (r: FileOutput)
        ensures
            report_target(*file_cfg, r.path@),
            file_cfg.file_name is None ==> r.path@ == report_path(opt_view(file_cfg.dir), "report.txt"@),
    {
        let name = match &file_cfg.file_name {
            Some(n) => copy_str(n.as_str()),
            None => copy_str("report.txt"),
        };
        proof {
            lemma_default_name_plain();
        }
        let globals = file_name_globals_of(options);
        let rendered = engine.render_string_or_self(name.as_str(), &globals);
        let path = report_file_path(&file_cfg.dir, rendered.as_str());
        proof {
            assert(name@ == configured_name(*file_cfg));
            assert(path@ == report_path(opt_view(file_cfg.dir), rendered@));
        }
        FileOutput { path }
    }
}

impl OutputCapability for FileOutput {
    open spec fn target_view(&self) -> SinkTargetView {
        SinkTargetView::File(self.path@)
    }

    fn println(&self, msg: &str) -> (r: Output) {
        Output { target: SinkTarget::File(self.path.clone()), text: copy_str(msg), newline: true }
    }

    fn print(&self, msg: &str) -> (r: Output) {
        Output { target: SinkTarget::File(self.path.clone()), text: copy_str(msg), newline: false }
    }
}

/// The outputs a report may write to.
pub enum OutputCapabilityProvider {
    CliOutput(CliOutput),
    FileOutput(FileOutput),
}

impl OutputCapability for OutputCapabilityProvider {
    open spec fn target_view(&self) -> SinkTargetView {
        match self {
            OutputCapabilityProvider::CliOutput(c) => c.target_view(),
            OutputCapabilityProvider::FileOutput(f) => f.target_view(),
        }
    }

    fn println(&self, msg: &str) -> (r: Output) {
        match self {
            OutputCapabilityProvider::CliOutput(c) => c.println(msg),
            OutputCapabilityProvider::FileOutput(f) => f.println(msg),
        }
    }

    fn print(&self, msg: &str) -> (r: Output) {
        match self {
            OutputCapabilityProvider::CliOutput(c) => c.print(msg),
            OutputCapabilityProvider::FileOutput(f) => f.print(msg),
        }
    }
}

/// A report writes to its file when it has one, else to standard output.
pub fn get_output(template: &ReportTemplate, options: &RunOptions, engine: &LiquidEngine) -> (r:
    OutputCapabilityProvider)
    ensures
        template.file is Some <==> r is FileOutput,
        template.file is Some ==> (r.target_view() matches SinkTargetView::File(p) && report_target(
            template.file->0,
            p,
        )),
{
    match &template.file {
        Some(file_cfg) => OutputCapabilityProvider::FileOutput(FileOutput::new(file_cfg, options, engine)),
        None => OutputCapabilityProvider::CliOutput(CliOutput),
    }
}

// ---------------------------------------------------------------------------------
// The Liquid reporter
// ---------------------------------------------------------------------------------

/// The reports named in `names`, in the order of the templates.
pub open spec fn named_templates(templates: Seq<(String, ReportTemplate)>, names: Seq<Seq<char>>) -> Seq<
    ReportTemplate,
>
    decreases templates.len(),
{
    if templates.len() == 0 {
        Seq::empty()
    } else {
        let rest = named_templates(templates.drop_last(), names);
        if names.contains(templates.last().0@) {
            rest.push(templates.last().1)
        } else {
            rest
        }
    }
}

/// The report names the options turn on (none when unset).
pub open spec fn report_names(options: RunOptions) -> Seq<Seq<char>> {
    match options.reports {
        Some(r) => views(r@),
        None => Seq::empty(),
    }
}

/// What a descriptor shows a Liquid report: name, description, whether all assertions
/// passed, the status, status text, body and duration when its test ran, and the
/// assertions.
pub open spec fn reporter_globals(
    d: Descriptor,
    result: Option<TestResult>,
    assertions: Seq<Assertion>,
) -> Seq<(Seq<char>, TemplateValueView)> {
    seq![
        ("name"@, str_value(or_empty(d.name))),
        ("description"@, str_value(or_empty(d.description))),
        ("passed"@, TemplateValueView::Bool(all_passed(assertions))),
    ] + match result {
        Some(r) => seq![
            ("status"@, TemplateValueView::Int(r.status.code as i64)),
            ("status_message"@, str_value(r.status.message@)),
            ("body"@, str_value(r.body@)),
            ("duration_ms"@, u64_value(r.duration_ms)),
        ],
        None => Seq::empty(),
    } + seq![("assertions"@, TemplateValueView::Array(assertion_values(assertions)))]
}

/// The values a descriptor shows a Liquid report.
pub fn build_globals(
    descriptor: &Descriptor,
    test_result: Option<&TestResult>,
    assertions: &[Assertion],
) -> (r: Globals)
    ensures
        tv_pairs(r@) == reporter_globals(
            *descriptor,
            match test_result {
                Some(x) => Some(*x),
                None => None,
            },
            assertions@,
        ),
{
    let mut g: Globals = Vec::new();
    assert(tv_pairs(g@) =~= Seq::<(Seq<char>, TemplateValueView)>::empty());
    let mut passed = true;
    let mut values: Vec<TemplateValue> = Vec::new();
    let mut j: usize = 0;
    while j < assertions.len()
        invariant
            j <= assertions@.len(),
            passed == all_passed(assertions@.take(j as int)),
            tv_seq(values@) == assertion_values(assertions@.take(j as int)),
        decreases assertions@.len() - j,
    {
        let v = assertion_value_of(&assertions[j]);
        proof {
            lemma_tv_seq_push(values@, v);
            assert(assertions@.take(j + 1).drop_last() =~= assertions@.take(j as int));
            if !assertions[j as int].passed {
                assert(!assertions@.take(j + 1)[j as int].passed);
            }
        }
        values.push(v);
        passed = passed && assertions[j].passed;
        j += 1;
    }
    assert(assertions@.take(j as int) =~= assertions@);
    put(&mut g, "name", TemplateValue::Str(or_empty_of(&descriptor.name)));
    put(&mut g, "description", TemplateValue::Str(or_empty_of(&descriptor.description)));
    put(&mut g, "passed", TemplateValue::Bool(passed));
    match test_result {
        Some(r) => {
            put(&mut g, "status", TemplateValue::Int(r.status.code as i64));
            put(&mut g, "status_message", TemplateValue::Str(r.status.message.clone()));
            put(&mut g, "body", TemplateValue::Str(r.body.clone()));
            put(&mut g, "duration_ms", u64_value_of(r.duration_ms));
        },
        None => {},
    }
    put(&mut g, "assertions", TemplateValue::Array(values));
    assert(tv_pairs(g@) =~= reporter_globals(
        *descriptor,
        match test_result {
            Some(x) => Some(*x),
            None => None,
        },
        assertions@,
    ));
    g
}

/// Reports with Liquid templates rendered by an engine.
pub struct LiquidReporter {
    pub engine: LiquidEngine,
}

/// An output is written as rendered, or is a line with an error's message.
pub open spec fn written(o: Output, target: SinkTargetView) -> bool {
    o.target@ == target
}

/// The template a write of `kind` (0 a descriptor, 1 the title, 2 the summary) uses
/// with a report: a descriptor's test or section template as `has_test` says; empty
/// where the report has none.
pub open spec fn kind_source(t: ReportTemplate, kind: u8, has_test: bool) -> Seq<char> {
    let s = if kind == 1 {
        t.title_template
    } else if kind == 2 {
        t.summary_template
    } else if has_test {
        t.test_template
    } else {
        t.section_template
    };
    match opt_view(s) {
        Some(x) => x,
        None => Seq::empty(),
    }
}

/// What the Liquid reporter writes with a template `source`: exactly `source` when it is
/// plain text; otherwise a rendering with no line break, or, only where the error
/// template `error` is not plain text, the error's message on a line.
pub open spec fn liquid_written(o: Output, source: Seq<char>, error: Seq<char>) -> bool {
    if plain_text(source) {
        o.text@ == source && !o.newline
    } else {
        !o.newline || !plain_text(error)
    }
}

impl LiquidReporter {
    pub fn new(engine: LiquidEngine) -> (r: LiquidReporter)
        ensures
            r.engine == engine,
    {
        LiquidReporter { engine }
    }

    /// The templates of the reports the options name, in template order.
    pub fn build_template_iterator<'a>(&self, options: &RunOptions, templates: &'a ReportTemplates) -> (r:
        Vec<&'a ReportTemplate>)
        ensures
            r@.len() == named_templates(templates@, report_names(*options)).len(),
            forall|i: int|
                0 <= i < r@.len() ==> *r@[i] == named_templates(templates@, report_names(*options))[i],
    {
        let empty: Vec<String> = Vec::new();
        let names = match &options.reports {
            Some(r) => r,
            None => &empty,
        };
        assert(views(names@) == report_names(*options));
        let mut out: Vec<&'a ReportTemplate> = Vec::new();
        let mut i: usize = 0;
        while i < templates.len()
            invariant
                i <= templates@.len(),
                views(names@) == report_names(*options),
                out@.len() == named_templates(templates@.take(i as int), views(names@)).len(),
                forall|j: int|
                    0 <= j < out@.len() ==> *out@[j] == named_templates(
                        templates@.take(i as int),
                        views(names@),
                    )[j],
            decreases templates@.len() - i,
        {
            assert(templates@.take(i + 1).drop_last() =~= templates@.take(i as int));
            let key = templates[i].0.as_str();
            let mut found = false;
            let mut k: usize = 0;
            while k < names.len()
                invariant
                    k <= names@.len(),
                    i < templates@.len(),
                    key@ == templates@[i as int].0@,
                    found == views(names@).take(k as int).contains(key@),
                decreases names@.len() - k,
            {
                let ghost a = views(names@).take(k as int);
                let ghost b = views(names@).take(k + 1);
                proof {
                    assert(b =~= a.push(names@[k as int]@));
                    if a.contains(key@) {
                        let w = choose|w: int| 0 <= w < a.len() && a[w] == key@;
                        assert(b[w] == key@);
                    }
                    if names@[k as int]@ == key@ {
                        assert(b[k as int] == key@);
                    }
                    if b.contains(key@) && !a.contains(key@) {
                        let w = choose|w: int| 0 <= w < b.len() && b[w] == key@;
                        if w < k {
                            assert(a[w] == key@);
                        }
                    }
                }
                if crate::strings::str_eq(names[k].as_str(), key) {
                    found = true;
                }
                k += 1;
            }
            assert(views(names@).take(k as int) =~= views(names@));
            if found {
                out.push(&templates[i].1);
            }
            i += 1;
        }
        assert(templates@.take(i as int) =~= templates@);
        out
    }

    /// Writes a template's rendering; on failure, the error template rendered with the
    /// error's message.
    pub fn print_match(
        &self,
        template: &ReportTemplate,
        template_str: &str,
        globals: &Globals,
        output: &OutputCapabilityProvider,
    ) -> (r: Output)
        ensures
            r.target@ == output.target_view(),
            liquid_written(r, template_str@, error_source(*template)),
    {
        match self.engine.render(template_str, globals) {
            Ok(text) => output.print(text.as_str()),
            Err(e) => {
                let msg = concat("liquid parse error: ", e.as_str());
                self.print_error(template, msg.as_str(), output)
            },
        }
    }

    /// Writes the error template rendered with `msg`; where that fails, the failure's
    /// message on a line of its own.
    pub fn print_error(&self, template: &ReportTemplate, msg: &str, output: &OutputCapabilityProvider) -> (r:
        Output)
        ensures
            r.target@ == output.target_view(),
            plain_text(error_source(*template)) ==> r.text@ == error_source(*template) && !r.newline,
    {
        let mut g: Globals = Vec::new();
        put(&mut g, "liquid_error_message", TemplateValue::Str(copy_str(msg)));
        let source = match &template.error_template {
            Some(s) => copy_str(s.as_str()),
            None => String::new(),
        };
        match self.engine.render(source.as_str(), &g) {
            Ok(text) => output.print(text.as_str()),
            Err(e) => output.println(e.as_str()),
        }
    }

    /// Writes a descriptor with each report the options name: its section template when
    /// it has no test, else its test template.
    pub fn report(
        &self,
        descriptor: &Descriptor,
        test_result: Option<&TestResult>,
        assertions: &[Assertion],
        options: &RunOptions,
        templates: &ReportTemplates,
        out: &mut Vec<Output>,
    )
        ensures
            final(out)@.len() == old(out)@.len() + named_templates(templates@, report_names(*options)).len(),
            final(out)@.subrange(0, old(out)@.len() as int) == old(out)@,
            forall|i: int|
                0 <= i < named_templates(templates@, report_names(*options)).len() ==> targets_report(
                    (#[trigger] final(out)@[old(out)@.len() + i]).target@,
                    named_templates(templates@, report_names(*options))[i],
                ),
            forall|i: int|
                0 <= i < named_templates(templates@, report_names(*options)).len() ==> liquid_written(
                    #[trigger] final(out)@[old(out)@.len() + i],
                    kind_source(named_templates(templates@, report_names(*options))[i], 0, descriptor.test is Some),
                    error_source(named_templates(templates@, report_names(*options))[i]),
                ),
    {
        let active = self.build_template_iterator(options, templates);
        let globals = build_globals(descriptor, test_result, assertions);
        self.write_all(&active, options, &globals, descriptor.test.is_some(), 0, out);
    }

    /// Writes the counts of passed and failed results with each report.
    pub fn summary(&self, options: &RunOptions, templates: &ReportTemplates, results: &[SummaryResult], out: &mut Vec<Output>)
        ensures
            final(out)@.len() == old(out)@.len() + named_templates(templates@, report_names(*options)).len(),
            final(out)@.subrange(0, old(out)@.len() as int) == old(out)@,
            forall|i: int|
                0 <= i < named_templates(templates@, report_names(*options)).len() ==> targets_report(
                    (#[trigger] final(out)@[old(out)@.len() + i]).target@,
                    named_templates(templates@, report_names(*options))[i],
                ),
            forall|i: int|
                0 <= i < named_templates(templates@, report_names(*options)).len() ==> liquid_written(
                    #[trigger] final(out)@[old(out)@.len() + i],
                    kind_source(named_templates(templates@, report_names(*options))[i], 2, false),
                    error_source(named_templates(templates@, report_names(*options))[i]),
                ),
    {
        let active = self.build_template_iterator(options, templates);
        let mut passed: usize = 0;
        let mut failed: usize = 0;
        let mut i: usize = 0;
        while i < results.len()
            invariant
                i <= results@.len(),
                passed <= i,
                failed <= i,
            decreases results@.len() - i,
        {
            if results[i] == SummaryResult::Passed {
                passed += 1;
            } else if results[i] == SummaryResult::Failed {
                failed += 1;
            }
            i += 1;
        }
        let mut g: Globals = Vec::new();
        put(&mut g, "passed", count_value_of(passed));
        put(&mut g, "failed", count_value_of(failed));
        put(&mut g, "flaky", count_value_of(0));
        self.write_all(&active, options, &g, false, 2, out);
    }

    /// Writes the title with each report.
    pub fn title(&self, options: &RunOptions, templates: &ReportTemplates, test_count: usize, out: &mut Vec<Output>)
        ensures
            final(out)@.len() == old(out)@.len() + named_templates(templates@, report_names(*options)).len(),
            final(out)@.subrange(0, old(out)@.len() as int) == old(out)@,
            forall|i: int|
                0 <= i < named_templates(templates@, report_names(*options)).len() ==> targets_report(
                    (#[trigger] final(out)@[old(out)@.len() + i]).target@,
                    named_templates(templates@, report_names(*options))[i],
                ),
            forall|i: int|
                0 <= i < named_templates(templates@, report_names(*options)).len() ==> liquid_written(
                    #[trigger] final(out)@[old(out)@.len() + i],
                    kind_source(named_templates(templates@, report_names(*options))[i], 1, false),
                    error_source(named_templates(templates@, report_names(*options))[i]),
                ),
    {
        let active = self.build_template_iterator(options, templates);
        let mut g: Globals = Vec::new();
        put(&mut g, "test_count", count_value_of(test_count));
        self.write_all(&active, options, &g, false, 1, out);
    }

    /// Writes with each template: `kind` 0 a descriptor (test or section template), 1 the
    /// title, 2 the summary.
    fn write_all(
        &self,
        active: &Vec<&ReportTemplate>,
        options: &RunOptions,
        globals: &Globals,
        has_test: bool,
        kind: u8,
        out: &mut Vec<Output>,
    )
        ensures
            final(out)@.len() == old(out)@.len() + active@.len(),
            final(out)@.subrange(0, old(out)@.len() as int) == old(out)@,
            forall|i: int|
                0 <= i < active@.len() ==> targets_report(
                    (#[trigger] final(out)@[old(out)@.len() + i]).target@,
                    *active@[i],
                ),
            forall|i: int|
                0 <= i < active@.len() ==> liquid_written(
                    #[trigger] final(out)@[old(out)@.len() + i],
                    kind_source(*active@[i], kind, has_test),
                    error_source(*active@[i]),
                ),
    {
        let mut i: usize = 0;
        while i < active.len()
            invariant
                i <= active@.len(),
                out@.len() == old(out)@.len() + i,
                out@.subrange(0, old(out)@.len() as int) == old(out)@,
                forall|j: int|
                    0 <= j < i ==> targets_report((#[trigger] out@[old(out)@.len() + j]).target@, *active@[j]),
                forall|j: int|
                    0 <= j < i ==> liquid_written(
                        #[trigger] out@[old(out)@.len() + j],
                        kind_source(*active@[j], kind, has_test),
                        error_source(*active@[j]),
                    ),
            decreases active@.len() - i,
        {
            let template = active[i];
            let output = get_output(template, options, &self.engine);
            let source = if kind == 1 {
                &template.title_template
            } else if kind == 2 {
                &template.summary_template
            } else if has_test {
                &template.test_template
            } else {
                &template.section_template
            };
            let text = match source {
                Some(s) => copy_str(s.as_str()),
                None => String::new(),
            };
            let o = self.print_match(template, text.as_str(), globals, &output);
            proof {
                assert(text@ == kind_source(*template, kind, has_test));
                assert(targets_report(o.target@, *template));
            }
            let ghost before = out@;
            out.push(o);
            proof {
                assert forall|j: int| 0 <= j < i + 1 implies targets_report(
                    (#[trigger] out@[old(out)@.len() + j]).target@,
                    *active@[j],
                ) by {
                    if j < i {
                        assert(out@[old(out)@.len() + j] == before[old(out)@.len() + j]);
                    }
                }
                assert forall|j: int| 0 <= j < i + 1 implies liquid_written(
                    #[trigger] out@[old(out)@.len() + j],
                    kind_source(*active@[j], kind, has_test),
                    error_source(*active@[j]),
                ) by {
                    if j < i {
                        assert(out@[old(out)@.len() + j] == before[old(out)@.len() + j]);
                    }
                }
            }
            assert(out@.subrange(0, old(out)@.len() as int) =~= old(out)@) by {
                assert forall|k: int| 0 <= k < old(out)@.len() implies out@[k] == old(out)@[k] by {
                    assert(out@.drop_last().subrange(0, old(out)@.len() as int)[k] == out@[k]);
                }
            }
            i += 1;
        }
    }
}

} // verus!
