//! The values each event's template sees, and rendering an event with a report.
use vstd::prelude::*;

use crate::models::{Assertion, Descriptor, ReportTemplate, TestResult};
use crate::pipeline::reporting::event::{event_template, ReportEvent};
use crate::strings::{copy_str, decimal, decimal_string, join, join_strings, views};
use crate::templating::{
    count_value,
    count_value_of,
    lemma_tv_seq_push,
    plain_text,
    put,
    tv,
    tv_pairs,
    tv_seq,
    u64_value,
    u64_value_of,
    Globals,
    LiquidEngine,
    TemplateValue,
    TemplateValueView,
};
use crate::validation::rules::title_parts;

verus! {

pub type GlobalsView = Seq<(Seq<char>, TemplateValueView)>;

pub open spec fn str_value(s: Seq<char>) -> TemplateValueView {
    TemplateValueView::Str(s)
}

pub open spec fn header_pairs(h: Seq<(String, String)>) -> GlobalsView
    decreases h.len(),
{
    if h.len() == 0 {
        Seq::empty()
    } else {
        header_pairs(h.drop_last()).push((h.last().0@, str_value(h.last().1@)))
    }
}

/// What a test result shows templates: status, status text, body, headers, duration.
pub open spec fn result_globals(r: TestResult) -> GlobalsView {
    seq![
        ("status"@, TemplateValueView::Int(r.status.code as i64)),
        ("status_message"@, str_value(r.status.message@)),
        ("body"@, str_value(r.body@)),
        ("headers"@, TemplateValueView::Object(header_pairs(r.headers@))),
        ("duration_ms"@, u64_value(r.duration_ms)),
    ]
}

pub open spec fn assertion_value(a: Assertion) -> TemplateValueView {
    TemplateValueView::Object(
        seq![
            ("expr"@, str_value(a.expr@)),
            ("passed"@, TemplateValueView::Bool(a.passed)),
            ("error"@, str_value(a.error@)),
        ],
    )
}

pub open spec fn assertion_values(s: Seq<Assertion>) -> Seq<TemplateValueView>
    decreases s.len(),
{
    if s.len() == 0 {
        Seq::empty()
    } else {
        assertion_values(s.drop_last()).push(assertion_value(s.last()))
    }
}

pub open spec fn all_passed(s: Seq<Assertion>) -> bool {
    forall|i: int| 0 <= i < s.len() ==> (#[trigger] s[i]).passed
}

pub open spec fn or_empty(o: Option<String>) -> Seq<char> {
    match o {
        Some(s) => s@,
        None => Seq::empty(),
    }
}

/// The titles of a descriptor and its ancestors joined with ` › `.
pub open spec fn full_name(d: Descriptor, title_path: Seq<Seq<char>>) -> Seq<char> {
    join(title_parts(d, title_path), " › "@)
}

/// What a descriptor event shows templates: the test result's values (if it ran), then
/// name, title path, full name, description, whether all assertions passed, the logical
/// test count and retry count (as text), and the assertions.
pub open spec fn descriptor_globals(
    d: Descriptor,
    title_path: Seq<Seq<char>>,
    result: Option<TestResult>,
    assertions: Seq<Assertion>,
    test_count: usize,
    retry_count: usize,
) -> GlobalsView {
    (match result {
        Some(r) => result_globals(r),
        None => Seq::empty(),
    }) + seq![
        ("name"@, str_value(or_empty(d.name))),
        ("title_path"@, TemplateValueView::Array(title_path.map_values(|t: Seq<char>| str_value(t)))),
        ("full_name"@, str_value(full_name(d, title_path))),
        ("description"@, str_value(or_empty(d.description))),
        ("passed"@, TemplateValueView::Bool(all_passed(assertions))),
        ("test_count"@, str_value(decimal(test_count as nat))),
        ("retry_count"@, str_value(decimal(retry_count as nat))),
        ("assertions"@, TemplateValueView::Array(assertion_values(assertions))),
    ]
}

/// The values an event's template is rendered with.
pub open spec fn event_globals(e: ReportEvent) -> GlobalsView {
    match e {
        ReportEvent::Title { test_count } => seq![("test_count"@, count_value(test_count))],
        ReportEvent::Summary { passed, failed, flaky } => seq![
            ("passed"@, count_value(passed)),
            ("failed"@, count_value(failed)),
            ("flaky"@, count_value(flaky)),
        ],
        ReportEvent::Descriptor {
            descriptor,
            title_path,
            test_result,
            assertions,
            test_count,
            retry_count,
        } => descriptor_globals(
            *descriptor,
            views(title_path@),
            match test_result {
                Some(r) => Some(*r),
                None => None,
            },
            assertions@,
            test_count,
            retry_count,
        ),
        ReportEvent::Error { msg } => seq![("liquid_error_message"@, str_value(msg@))],
        ReportEvent::Debug { msg } => seq![("debug_message"@, str_value(msg@))],
    }
}

fn headers_value(h: &Vec<(String, String)>) -> (r: TemplateValue)
    ensures
        tv(r) == TemplateValueView::Object(header_pairs(h@)),
{
    let mut o: Globals = Vec::new();
    let mut i: usize = 0;
    assert(tv_pairs(o@) =~= Seq::<(Seq<char>, TemplateValueView)>::empty());
    while i < h.len()
        invariant
            i <= h.len(),
            tv_pairs(o@) == header_pairs(h@.take(i as int)),
        decreases h.len() - i,
    {
        put(&mut o, h[i].0.as_str(), TemplateValue::Str(h[i].1.clone()));
        assert(h@.take(i + 1).drop_last() =~= h@.take(i as int));
        i += 1;
    }
    assert(h@.take(h.len() as int) =~= h@);
    TemplateValue::Object(o)
}

/// The values a test result shows templates.
pub fn result_globals_of(r: &TestResult, g: &mut Globals)
    ensures
        tv_pairs(final(g)@) == tv_pairs(old(g)@) + result_globals(*r),
{
    let ghost start = tv_pairs(g@);
    put(g, "status", TemplateValue::Int(r.status.code as i64));
    put(g, "status_message", TemplateValue::Str(r.status.message.clone()));
    put(g, "body", TemplateValue::Str(r.body.clone()));
    put(g, "headers", headers_value(&r.headers));
    put(g, "duration_ms", u64_value_of(r.duration_ms));
    assert(tv_pairs(g@) =~= start + result_globals(*r));
}

pub fn assertion_value_of(a: &Assertion) -> (r: TemplateValue)
    ensures
        tv(r) == assertion_value(*a),
{
    let mut o: Globals = Vec::new();
    assert(tv_pairs(o@) =~= Seq::<(Seq<char>, TemplateValueView)>::empty());
    put(&mut o, "expr", TemplateValue::Str(a.expr.clone()));
    put(&mut o, "passed", TemplateValue::Bool(a.passed));
    put(&mut o, "error", TemplateValue::Str(a.error.clone()));
    assert(tv_pairs(o@) =~= seq![
        ("expr"@, str_value(a.expr@)),
        ("passed"@, TemplateValueView::Bool(a.passed)),
        ("error"@, str_value(a.error@)),
    ]);
    TemplateValue::Object(o)
}

pub fn or_empty_of(o: &Option<String>) -> (r: String)
    ensures
        r@ == or_empty(*o),
{
    match o {
        Some(s) => s.clone(),
        None => String::new(),
    }
}

/// The values a descriptor event shows templates.
pub fn build_descriptor_globals(
    descriptor: &Descriptor,
    title_path: &[String],
    test_result: Option<&TestResult>,
    assertions: &[Assertion],
    test_count: usize,
    retry_count: usize,
) -> (r: Globals)
    ensures
        tv_pairs(r@) == descriptor_globals(
            *descriptor,
            views(title_path@),
            match test_result {
                Some(x) => Some(*x),
                None => None,
            },
            assertions@,
            test_count,
            retry_count,
        ),
{
    let mut g: Globals = Vec::new();
    assert(tv_pairs(g@) =~= Seq::<(Seq<char>, TemplateValueView)>::empty());
    match test_result {
        Some(r) => result_globals_of(r, &mut g),
        None => {},
    }
    let ghost base = tv_pairs(g@);
    put(&mut g, "name", TemplateValue::Str(or_empty_of(&descriptor.name)));
    let mut titles: Vec<TemplateValue> = Vec::new();
    let mut title_copy: Vec<String> = Vec::new();
    let mut i: usize = 0;
    while i < title_path.len()
        invariant
            i <= title_path@.len(),
            tv_seq(titles@) == views(title_path@.take(i as int)).map_values(
                |t: Seq<char>| str_value(t),
            ),
            views(title_copy@) == views(title_path@.take(i as int)),
        decreases title_path@.len() - i,
    {
        proof {
            lemma_tv_seq_push(titles@, TemplateValue::Str(title_path@[i as int]));
        }
        titles.push(TemplateValue::Str(title_path[i].clone()));
        let ghost before = title_copy@;
        title_copy.push(title_path[i].clone());
        assert(title_path@.take(i + 1) =~= title_path@.take(i as int).push(title_path@[i as int]));
        assert(views(title_path@.take(i + 1)) =~= views(title_path@.take(i as int)).push(
            title_path@[i as int]@,
        ));
        assert(views(title_copy@) =~= views(before).push(title_path@[i as int]@));
        assert(tv_seq(titles@) =~= views(title_path@.take(i + 1)).map_values(
            |t: Seq<char>| str_value(t),
        ));
        i += 1;
    }
    assert(title_path@.take(title_path@.len() as int) =~= title_path@);
    put(&mut g, "title_path", TemplateValue::Array(titles));
    let shown = match &descriptor.name {
        Some(n) => !crate::strings::str_is_blank(n.as_str()),
        None => false,
    };
    if shown {
        match &descriptor.name {
            Some(n) => {
                let ghost before = title_copy@;
                title_copy.push(n.clone());
                assert(views(title_copy@) =~= views(before).push(n@));
            },
            None => {},
        }
    }
    assert(views(title_copy@) == title_parts(*descriptor, views(title_path@)));
    put(&mut g, "full_name", TemplateValue::Str(join_strings(&title_copy, " › ")));
    put(&mut g, "description", TemplateValue::Str(or_empty_of(&descriptor.description)));
    let mut passed = true;
    let mut values: Vec<TemplateValue> = Vec::new();
    let mut j: usize = 0;
    while j < assertions.len()
        invariant
            j <= assertions@.len(),
            passed == all_passed(assertions@.take(j as int)),
            tv_seq(values@) == assertion_values(assertions@.take(j as int)),
        decreases assertions@.len() - j,
    {
        let v = assertion_value_of(&assertions[j]);
        proof {
            lemma_tv_seq_push(values@, v);
        }
        values.push(v);
        passed = passed && assertions[j].passed;
        assert(assertions@.take(j + 1).drop_last() =~= assertions@.take(j as int));
        assert(assertions@.take(j + 1)[j as int] == assertions@[j as int]);
        j += 1;
    }
    assert(assertions@.take(assertions@.len() as int) =~= assertions@);
    put(&mut g, "passed", TemplateValue::Bool(passed));
    put(&mut g, "test_count", TemplateValue::Str(decimal_string(test_count as u64)));
    put(&mut g, "retry_count", TemplateValue::Str(decimal_string(retry_count as u64)));
    put(&mut g, "assertions", TemplateValue::Array(values));
    assert(tv_pairs(g@) =~= descriptor_globals(
        *descriptor,
        views(title_path@),
        match test_result {
            Some(x) => Some(*x),
            None => None,
        },
        assertions@,
        test_count,
        retry_count,
    ));
    g
}

/// The source an event renders from with a report: its template, empty where the report
/// has none.
pub open spec fn event_source(e: ReportEvent, t: ReportTemplate) -> Seq<char> {
    match event_template(e, t) {
        Some(s) => s,
        None => Seq::empty(),
    }
}

/// Renders report events with a Liquid engine.
pub struct LiquidRenderer {
    pub engine: LiquidEngine,
}

impl LiquidRenderer {
    pub fn new(engine: LiquidEngine) -> (r: LiquidRenderer)
        ensures
            r.engine == engine,
    {
        LiquidRenderer { engine }
    }

    /// The values an event's template is rendered with.
    pub fn build_globals(&self, event: &ReportEvent<'_>) -> (r: Globals)
        ensures
            tv_pairs(r@) == event_globals(*event),
    {
        let mut g: Globals = Vec::new();
        assert(tv_pairs(g@) =~= Seq::<(Seq<char>, TemplateValueView)>::empty());
        match event {
            ReportEvent::Title { test_count } => {
                put(&mut g, "test_count", count_value_of(*test_count));
            },
            ReportEvent::Summary { passed, failed, flaky } => {
                put(&mut g, "passed", count_value_of(*passed));
                put(&mut g, "failed", count_value_of(*failed));
                put(&mut g, "flaky", count_value_of(*flaky));
            },
            ReportEvent::Descriptor {
                descriptor,
                title_path,
                test_result,
                assertions,
                test_count,
                retry_count,
            } => {
                return build_descriptor_globals(
                    descriptor,
                    title_path,
                    *test_result,
                    assertions,
                    *test_count,
                    *retry_count,
                );
            },
            ReportEvent::Error { msg } => {
                put(&mut g, "liquid_error_message", TemplateValue::Str(copy_str(msg)));
            },
            ReportEvent::Debug { msg } => {
                put(&mut g, "debug_message", TemplateValue::Str(copy_str(msg)));
            },
        }
        assert(tv_pairs(g@) =~= event_globals(*event));
        g
    }

    /// Renders an event with a report: the event's template (empty if the report has
    /// none) with the event's values. What rendering gives is up to the engine, but a
    /// template of plain text (an absent one among them) renders as it is.
    pub fn render(&self, template: &ReportTemplate, event: &ReportEvent<'_>) -> (r: Result<
        String,
        String,
    >)
        ensures
            plain_text(event_source(*event, *template)) ==> (r matches Ok(text) && text@ == event_source(
                *event,
                *template,
            )),
    {
        let source = match event.template(template) {
            Some(s) => s,
            None => {
                proof {
                    reveal_strlit("");
                }
                ""
            },
        };
        let globals = self.build_globals(event);
        self.engine.render(source, &globals)
    }
}

} // verus!
