//! The data the runner works on: descriptors, tests, options, templates and results.
use vstd::prelude::*;

use crate::strings::{copy_opt, str_eq, views};

verus! {

/// The view of an optional string.
pub open spec fn opt_view(o: Option<String>) -> Option<Seq<char>> {
    match o {
        Some(s) => Some(s@),
        None => None,
    }
}

/// The view of an optional list of strings.
pub open spec fn opt_views(o: Option<Vec<String>>) -> Option<Seq<Seq<char>>> {
    match o {
        Some(v) => Some(views(v@)),
        None => None,
    }
}

/// The view of a list of string pairs.
pub open spec fn pair_views(v: Seq<(String, String)>) -> Seq<(Seq<char>, Seq<char>)> {
    v.map_values(|p: (String, String)| (p.0@, p.1@))
}

pub open spec fn opt_pair_views(o: Option<Vec<(String, String)>>) -> Option<
    Seq<(Seq<char>, Seq<char>)>,
> {
    match o {
        Some(v) => Some(pair_views(v@)),
        None => None,
    }
}

/// A copy of a list of strings.
pub fn copy_strings(v: &Vec<String>) -> (r: Vec<String>)
    ensures
        views(r@) == views(v@),
{
    let mut r: Vec<String> = Vec::new();
    let mut i: usize = 0;
    while i < v.len()
        invariant
            i <= v.len(),
            views(r@) == views(v@.take(i as int)),
        decreases v.len() - i,
    {
        r.push(v[i].clone());
        assert(views(v@.take(i + 1)) =~= views(v@.take(i as int)).push(v@[i as int]@));
        assert(views(r@) =~= views(v@.take(i + 1)));
        i += 1;
    }
    assert(v@.take(v.len() as int) =~= v@);
    r
}

pub fn copy_opt_strings(o: &Option<Vec<String>>) -> (r: Option<Vec<String>>)
    ensures
        opt_views(r) == opt_views(*o),
{
    match o {
        Some(v) => Some(copy_strings(v)),
        None => None,
    }
}

/// A copy of a list of string pairs.
pub fn copy_pairs(v: &Vec<(String, String)>) -> (r: Vec<(String, String)>)
    ensures
        pair_views(r@) == pair_views(v@),
{
    let mut r: Vec<(String, String)> = Vec::new();
    let mut i: usize = 0;
    while i < v.len()
        invariant
            i <= v.len(),
            pair_views(r@) == pair_views(v@.take(i as int)),
        decreases v.len() - i,
    {
        let p = (v[i].0.clone(), v[i].1.clone());
        r.push(p);
        assert(pair_views(v@.take(i + 1)) =~= pair_views(v@.take(i as int)).push(
            (v@[i as int].0@, v@[i as int].1@),
        ));
        assert(pair_views(r@) =~= pair_views(v@.take(i + 1)));
        i += 1;
    }
    assert(v@.take(v.len() as int) =~= v@);
    r
}

pub fn copy_opt_pairs(o: &Option<Vec<(String, String)>>) -> (r: Option<Vec<(String, String)>>)
    ensures
        opt_pair_views(r) == opt_pair_views(*o),
{
    match o {
        Some(v) => Some(copy_pairs(v)),
        None => None,
    }
}

/// A JSON value. Numbers are kept as their decimal text.
pub enum JsonValue {
    Null,
    Bool(bool),
    Number(String),
    String(String),
    Array(Vec<JsonValue>),
    Object(Vec<(String, JsonValue)>),
}

/// A profile: named values a descriptor is expanded over, in source order.
pub type Profile = Vec<(String, JsonValue)>;

/// A value that is either given directly or written as a Liquid template.
pub enum Templated {
    Bool(bool),
    Liquid(String),
}

pub enum TemplatedView {
    Bool(bool),
    Liquid(Seq<char>),
}

impl View for Templated {
    type V = TemplatedView;

    open spec fn view(&self) -> TemplatedView {
        match self {
            Templated::Bool(b) => TemplatedView::Bool(*b),
            Templated::Liquid(s) => TemplatedView::Liquid(s@),
        }
    }
}

impl Templated {
    pub fn duplicate(&self) -> (r: Templated)
        ensures
            r@ == self@,
    {
        match self {
            Templated::Bool(b) => Templated::Bool(*b),
            Templated::Liquid(s) => Templated::Liquid(s.clone()),
        }
    }
}

pub open spec fn opt_templated_view(o: Option<Templated>) -> Option<TemplatedView> {
    match o {
        Some(t) => Some(t@),
        None => None,
    }
}

/// Options that cascade from the command line through configs and descriptors.
pub struct RunOptions {
    pub base_uri: Option<String>,
    pub debug: Option<bool>,
    pub reports: Option<Vec<String>>,
    pub retries: Option<u8>,
    pub retry_delay_ms: Option<u64>,
    /// How many times a descriptor runs; a loop count is never zero.
    pub loop_count: Option<usize>,
    pub concurrent: Option<bool>,
    pub skip: Option<Templated>,
    /// The run's start as a Unix timestamp in seconds.
    pub start_time: Option<i64>,
}

pub struct RunOptionsView {
    pub base_uri: Option<Seq<char>>,
    pub debug: Option<bool>,
    pub reports: Option<Seq<Seq<char>>>,
    pub retries: Option<u8>,
    pub retry_delay_ms: Option<u64>,
    pub loop_count: Option<usize>,
    pub concurrent: Option<bool>,
    pub skip: Option<TemplatedView>,
    pub start_time: Option<i64>,
}

impl View for RunOptions {
    type V = RunOptionsView;

    open spec fn view(&self) -> RunOptionsView {
        RunOptionsView {
            base_uri: opt_view(self.base_uri),
            debug: self.debug,
            reports: opt_views(self.reports),
            retries: self.retries,
            retry_delay_ms: self.retry_delay_ms,
            loop_count: self.loop_count,
            concurrent: self.concurrent,
            skip: opt_templated_view(self.skip),
            start_time: self.start_time,
        }
    }
}

/// `b` where it is set, else `a`.
pub open spec fn or_else<T>(b: Option<T>, a: Option<T>) -> Option<T> {
    if b is Some {
        b
    } else {
        a
    }
}

/// Layering `local` over `base`: each option `local` sets wins, the others come from `base`.
pub open spec fn merge_view(base: RunOptionsView, local: RunOptionsView) -> RunOptionsView {
    RunOptionsView {
        base_uri: or_else(local.base_uri, base.base_uri),
        debug: or_else(local.debug, base.debug),
        reports: or_else(local.reports, base.reports),
        retries: or_else(local.retries, base.retries),
        retry_delay_ms: or_else(local.retry_delay_ms, base.retry_delay_ms),
        loop_count: or_else(local.loop_count, base.loop_count),
        concurrent: or_else(local.concurrent, base.concurrent),
        skip: or_else(local.skip, base.skip),
        start_time: or_else(local.start_time, base.start_time),
    }
}

/// Options with nothing set.
pub open spec fn empty_options() -> RunOptionsView {
    RunOptionsView {
        base_uri: None,
        debug: None,
        reports: None,
        retries: None,
        retry_delay_ms: None,
        loop_count: None,
        concurrent: None,
        skip: None,
        start_time: None,
    }
}

fn pick<T>(local: Option<T>, base: Option<T>) -> (r: Option<T>)
    ensures
        r == or_else(local, base),
{
    if local.is_some() {
        local
    } else {
        base
    }
}

impl RunOptions {
    /// Options with nothing set.
    pub fn empty() -> (r: RunOptions)
        ensures
            r@ == empty_options(),
    {
        RunOptions {
            base_uri: None,
            debug: None,
            reports: None,
            retries: None,
            retry_delay_ms: None,
            loop_count: None,
            concurrent: None,
            skip: None,
            start_time: None,
        }
    }

    /// These options with `other` layered over them: every option `other` sets wins.
    pub fn merge(self, other: RunOptions) -> (r: RunOptions)
        ensures
            r@ == merge_view(self@, other@),
            r@.base_uri == (if other@.base_uri is Some { other@.base_uri } else { self@.base_uri }),
            r@.debug == (if other@.debug is Some { other@.debug } else { self@.debug }),
            r@.reports == (if other@.reports is Some { other@.reports } else { self@.reports }),
            r@.retries == (if other@.retries is Some { other@.retries } else { self@.retries }),
            r@.retry_delay_ms == (if other@.retry_delay_ms is Some { other@.retry_delay_ms } else { self@.retry_delay_ms }),
            r@.loop_count == (if other@.loop_count is Some { other@.loop_count } else { self@.loop_count }),
            r@.concurrent == (if other@.concurrent is Some { other@.concurrent } else { self@.concurrent }),
            r@.skip == (if other@.skip is Some { other@.skip } else { self@.skip }),
            r@.start_time == (if other@.start_time is Some { other@.start_time } else { self@.start_time }),
    {
        RunOptions {
            base_uri: pick(other.base_uri, self.base_uri),
            debug: pick(other.debug, self.debug),
            reports: pick(other.reports, self.reports),
            retries: pick(other.retries, self.retries),
            retry_delay_ms: pick(other.retry_delay_ms, self.retry_delay_ms),
            loop_count: pick(other.loop_count, self.loop_count),
            concurrent: pick(other.concurrent, self.concurrent),
            skip: pick(other.skip, self.skip),
            start_time: pick(other.start_time, self.start_time),
        }
    }

    /// A copy of these options.
    pub fn duplicate(&self) -> (r: RunOptions)
        ensures
            r@ == self@,
    {
        RunOptions {
            base_uri: copy_opt(&self.base_uri),
            debug: self.debug,
            reports: copy_opt_strings(&self.reports),
            retries: self.retries,
            retry_delay_ms: self.retry_delay_ms,
            loop_count: self.loop_count,
            concurrent: self.concurrent,
            skip: match &self.skip {
                Some(t) => Some(t.duplicate()),
                None => None,
            },
            start_time: self.start_time,
        }
    }

    /// The pause between retries, in milliseconds (none unless configured).
    pub fn retry_delay(&self) -> (r: u64)
        ensures
            r == (match self.retry_delay_ms {
                Some(d) => d,
                None => 0,
            }),
    {
        match self.retry_delay_ms {
            Some(d) => d,
            None => 0,
        }
    }
}

impl Default for RunOptions {
    fn default() -> (r: RunOptions)
        ensures
            r@ == empty_options(),
    {
        RunOptions::empty()
    }
}

/// Layering is associative: how option layers are grouped does not change the result.
pub proof fn merge_is_associative(a: RunOptionsView, b: RunOptionsView, c: RunOptionsView)
    ensures
        merge_view(merge_view(a, b), c) == merge_view(a, merge_view(b, c)),
{
}

/// Layering options that set nothing, under or over others, leaves those options unchanged.
pub proof fn merge_with_empty_is_identity(a: RunOptionsView)
    ensures
        merge_view(empty_options(), a) == a,
        merge_view(a, empty_options()) == a,
{
}

/// The more local layer wins wherever it sets an option, and only there.
pub proof fn merge_local_wins(base: RunOptionsView, local: RunOptionsView)
    ensures
        local.base_uri is Some ==> merge_view(base, local).base_uri == local.base_uri,
        local.base_uri is None ==> merge_view(base, local).base_uri == base.base_uri,
        local.reports is Some ==> merge_view(base, local).reports == local.reports,
        local.reports is None ==> merge_view(base, local).reports == base.reports,
        local.retries is Some ==> merge_view(base, local).retries == local.retries,
        local.retries is None ==> merge_view(base, local).retries == base.retries,
        local.debug is Some ==> merge_view(base, local).debug == local.debug,
        local.retry_delay_ms is Some ==> merge_view(base, local).retry_delay_ms == local.retry_delay_ms,
        local.retry_delay_ms is None ==> merge_view(base, local).retry_delay_ms == base.retry_delay_ms,
        local.loop_count is Some ==> merge_view(base, local).loop_count == local.loop_count,
        local.loop_count is None ==> merge_view(base, local).loop_count == base.loop_count,
        local.concurrent is Some ==> merge_view(base, local).concurrent == local.concurrent,
        local.concurrent is None ==> merge_view(base, local).concurrent == base.concurrent,
        local.skip is Some ==> merge_view(base, local).skip == local.skip,
        local.skip is None ==> merge_view(base, local).skip == base.skip,
        local.start_time is Some ==> merge_view(base, local).start_time == local.start_time,
        local.start_time is None ==> merge_view(base, local).start_time == base.start_time,
        local.debug is None ==> merge_view(base, local).debug == base.debug,
{
}

/// An HTTP test as written in a spec file.
pub struct TestSpec {
    pub route: String,
    pub verb: Option<String>,
    pub body: Option<String>,
    pub headers: Option<Vec<(String, String)>>,
    pub query: Option<Vec<(String, String)>>,
    pub assert: Option<Vec<String>>,
    pub vars: Option<Vec<(String, String)>>,
    /// Ordered `let` bindings: each may use those before it.
    pub lets: Option<Vec<(String, String)>>,
}

pub struct TestSpecView {
    pub route: Seq<char>,
    pub verb: Option<Seq<char>>,
    pub body: Option<Seq<char>>,
    pub headers: Option<Seq<(Seq<char>, Seq<char>)>>,
    pub query: Option<Seq<(Seq<char>, Seq<char>)>>,
    pub assert: Option<Seq<Seq<char>>>,
    pub vars: Option<Seq<(Seq<char>, Seq<char>)>>,
    pub lets: Option<Seq<(Seq<char>, Seq<char>)>>,
}

impl View for TestSpec {
    type V = TestSpecView;

    open spec fn view(&self) -> TestSpecView {
        TestSpecView {
            route: self.route@,
            verb: opt_view(self.verb),
            body: opt_view(self.body),
            headers: opt_pair_views(self.headers),
            query: opt_pair_views(self.query),
            assert: opt_views(self.assert),
            vars: opt_pair_views(self.vars),
            lets: opt_pair_views(self.lets),
        }
    }
}

impl TestSpec {
    /// A test with the given route and nothing else set.
    pub fn with_route(route: String) -> (r: TestSpec)
        ensures
            r.route == route,
            r.verb is None && r.body is None && r.headers is None && r.query is None,
            r.assert is None && r.vars is None && r.lets is None,
    {
        TestSpec {
            route,
            verb: None,
            body: None,
            headers: None,
            query: None,
            assert: None,
            vars: None,
            lets: None,
        }
    }

    pub fn duplicate(&self) -> (r: TestSpec)
        ensures
            r@ == self@,
    {
        TestSpec {
            route: self.route.clone(),
            verb: copy_opt(&self.verb),
            body: copy_opt(&self.body),
            headers: copy_opt_pairs(&self.headers),
            query: copy_opt_pairs(&self.query),
            assert: copy_opt_strings(&self.assert),
            vars: copy_opt_pairs(&self.vars),
            lets: copy_opt_pairs(&self.lets),
        }
    }
}

impl Default for TestSpec {
    fn default() -> (r: TestSpec)
        ensures
            r.route@ == Seq::<char>::empty(),
            r.verb is None && r.body is None && r.headers is None && r.query is None,
            r.assert is None && r.vars is None && r.lets is None,
    {
        TestSpec::with_route(String::new())
    }
}

/// A node of a spec file: a test, nested descriptors, or both.
pub struct Descriptor {
    pub name: Option<String>,
    pub description: Option<String>,
    pub tags: Option<Vec<String>>,
    pub test: Option<TestSpec>,
    pub describe: Option<Vec<Descriptor>>,
    pub profiles: Option<Vec<Profile>>,
    pub options: Option<RunOptions>,
    pub file: Option<String>,
}

impl Descriptor {
    /// A descriptor with only a name.
    pub fn named(name: Option<String>) -> (r: Descriptor)
        ensures
            r.name == name,
            r.description is None && r.tags is None && r.test is None && r.describe is None,
            r.profiles is None && r.options is None && r.file is None,
    {
        Descriptor {
            name,
            description: None,
            tags: None,
            test: None,
            describe: None,
            profiles: None,
            options: None,
            file: None,
        }
    }
}

/// The children of a descriptor (none when `describe` is absent).
pub open spec fn children(d: Descriptor) -> Seq<Descriptor> {
    match d.describe {
        Some(v) => v@,
        None => Seq::empty(),
    }
}

/// Where a report template writes when it writes to a file.
pub struct ReportFile {
    pub dir: Option<String>,
    pub file_name: Option<String>,
}

/// A report: one Liquid template per kind of event, and an optional file.
pub struct ReportTemplate {
    pub test_template: Option<String>,
    pub section_template: Option<String>,
    pub error_template: Option<String>,
    pub debug_template: Option<String>,
    pub title_template: Option<String>,
    pub summary_template: Option<String>,
    pub file: Option<ReportFile>,
}

/// Report templates by name.
pub type ReportTemplates = Vec<(String, ReportTemplate)>;

pub open spec fn has_template(templates: Seq<(String, ReportTemplate)>, name: Seq<char>) -> bool {
    exists|i: int| 0 <= i < templates.len() && (#[trigger] templates[i]).0@ == name
}

/// `i` is the first index of a template named `name`.
pub open spec fn first_named(templates: Seq<(String, ReportTemplate)>, name: Seq<char>, i: int) -> bool {
    0 <= i < templates.len() && templates[i].0@ == name && (forall|j: int|
        0 <= j < i ==> (#[trigger] templates[j]).0@ != name)
}

/// The template named `name` (the first one, as a map lookup), if any.
pub open spec fn lookup_template(templates: Seq<(String, ReportTemplate)>, name: Seq<char>) -> Option<
    ReportTemplate,
> {
    if has_template(templates, name) {
        Some(templates[choose|i: int| first_named(templates, name, i)].1)
    } else {
        None
    }
}

/// The template named `name`, as a map lookup.
pub fn find_template<'a>(templates: &'a ReportTemplates, name: &str) -> (r: Option<&'a ReportTemplate>)
    ensures
        r is Some <==> has_template(templates@, name@),
        r is Some ==> Some(*r->0) == lookup_template(templates@, name@),
{
    let mut i: usize = 0;
    while i < templates.len()
        invariant
            i <= templates.len(),
            forall|j: int| 0 <= j < i ==> (#[trigger] templates@[j]).0@ != name@,
        decreases templates.len() - i,
    {
        if str_eq(templates[i].0.as_str(), name) {
            proof {
                assert(first_named(templates@, name@, i as int));
                let k = choose|k: int| first_named(templates@, name@, k);
                if k < i {
                    assert(templates@[k].0@ != name@);
                } else if k > i {
                    assert(templates@[i as int].0@ != name@);
                }
            }
            return Some(&templates[i].1);
        }
        i += 1;
    }
    None
}

/// How a test ended, once retries are taken into account.
#[derive(PartialEq, Eq, Structural, Clone, Copy, Debug)]
pub enum SummaryResult {
    Passed,
    Failed,
    Flaky,
    Skipped,
}

/// The outcome of one assertion.
pub struct Assertion {
    pub expr: String,
    pub passed: bool,
    pub error: String,
}

impl Assertion {
    pub fn duplicate(&self) -> (r: Assertion)
        ensures
            r.expr@ == self.expr@,
            r.passed == self.passed,
            r.error@ == self.error@,
    {
        Assertion { expr: self.expr.clone(), passed: self.passed, error: self.error.clone() }
    }
}

/// An HTTP status: its code and its canonical text (or a transport error message).
pub struct TempestStatusCode {
    pub code: u16,
    pub message: String,
}

/// What a test request produced.
pub struct TestResult {
    pub status: TempestStatusCode,
    pub headers: Vec<(String, String)>,
    pub body: String,
    pub bytes: Vec<u8>,
    /// The request's duration in whole milliseconds.
    pub duration_ms: u64,
}

impl Default for TestResult {
    /// The empty result: status 0, no headers, no body.
    fn default() -> (r: TestResult)
        ensures
            r.status.code == 0,
            r.status.message@ == Seq::<char>::empty(),
            r.headers@.len() == 0,
            r.body@ == Seq::<char>::empty(),
            r.bytes@.len() == 0,
            r.duration_ms == 0,
    {
        TestResult {
            status: TempestStatusCode { code: 0, message: String::new() },
            headers: Vec::new(),
            body: String::new(),
            bytes: Vec::new(),
            duration_ms: 0,
        }
    }
}

/// A discovered directory: its spec files, its option chain, its subdirectories.
pub struct DirectoryNode {
    pub files: Vec<Descriptor>,
    /// The options of this directory's ancestors' configs, then its own.
    pub options: Vec<RunOptions>,
    pub children: Vec<DirectoryNode>,
    pub dir: String,
    pub envs: Vec<(String, String)>,
}

/// A discovered project: its directory tree and its report templates.
pub struct DiscoveryResult {
    pub directory: DirectoryNode,
    pub templates: ReportTemplates,
}

} // verus!
