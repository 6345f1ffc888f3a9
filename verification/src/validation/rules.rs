//! The validation rules: which checks a project gets, and which diagnostics they give.
use vstd::prelude::*;

use crate::models::{
    children,
    has_template,
    opt_view,
    Descriptor,
    DirectoryNode,
    DiscoveryResult,
    JsonValue,
    ReportTemplate,
    RunOptions,
    Templated,
    TestSpec,
};
use crate::strings::{
    ascii_upper,
    ascii_upper_str,
    concat,
    concat3,
    contains_seq,
    copy_str,
    decimal,
    decimal_string,
    is_blank,
    join,
    join_strings,
    str_contains,
    str_eq,
    str_is_blank,
    trim,
    views,
};
use crate::pipeline::runners::{verb_of, HttpVerb};
use crate::templating::{plain_text, unclosed_expression, LiquidEngine};
use crate::validation::diagnostic_order::{diag_views, is_sorted, sort_diagnostics};
use crate::validation::validation_diagnostic::{
    DiagnosticView,
    ValidationDiagnostic,
    ValidationSeverity,
};
use crate::validation::validation_report::ValidationReport;

verus! {

pub const CEL_INVALID: &'static str = "cel.invalid";

pub const DESCRIPTOR_EMPTY: &'static str = "descriptor.empty";

pub const LIQUID_INVALID: &'static str = "liquid.invalid";

pub const PROJECT_NO_TESTS: &'static str = "project.no-tests";

pub const REPORT_INVALID_LIQUID: &'static str = "report.invalid-liquid";

pub const REPORT_UNKNOWN: &'static str = "report.unknown";

pub const TEST_EMPTY_ROUTE: &'static str = "test.empty-route";

pub const TEST_UNSUPPORTED_VERB: &'static str = "test.unsupported-verb";

/// What a check is: a finding already made, or a source still to be parsed.
#[derive(PartialEq, Eq, Structural, Clone, Copy, Debug)]
pub enum CheckKind {
    /// A diagnostic in itself; `text` is its message.
    Fixed,
    /// `text` must parse as Liquid, else a diagnostic with `code`.
    Liquid,
    /// `text` must compile as CEL, else a `cel.invalid` diagnostic.
    Cel,
}

/// One check of the project, with the path and context a diagnostic of it carries.
pub struct Check {
    pub kind: CheckKind,
    pub code: &'static str,
    pub text: String,
    pub path: Option<String>,
    pub context: Option<String>,
}

pub struct CheckView {
    pub kind: CheckKind,
    pub code: Seq<char>,
    pub text: Seq<char>,
    pub path: Option<Seq<char>>,
    pub context: Option<Seq<char>>,
}

impl View for Check {
    type V = CheckView;

    open spec fn view(&self) -> CheckView {
        CheckView {
            kind: self.kind,
            code: self.code@,
            text: self.text@,
            path: opt_view(self.path),
            context: opt_view(self.context),
        }
    }
}

pub open spec fn check_views(s: Seq<Check>) -> Seq<CheckView> {
    s.map_values(|c: Check| c@)
}

pub open spec fn mk(
    kind: CheckKind,
    code: Seq<char>,
    text: Seq<char>,
    path: Option<Seq<char>>,
    context: Option<Seq<char>>,
) -> CheckView {
    CheckView { kind, code, text, path, context }
}

/// `{context} | {field}`, or the field alone where there is no (or an empty) context.
pub open spec fn append_field(context: Option<Seq<char>>, field: Seq<char>) -> Option<Seq<char>> {
    match context {
        Some(c) => if c.len() > 0 {
            Some(c + " | "@ + field)
        } else {
            Some(field)
        },
        None => Some(field),
    }
}

/// Whether a name is shown in titles: it is set and not blank.
pub open spec fn shows_name(name: Option<String>) -> bool {
    name is Some && !is_blank(name->0@)
}

/// The titles of `d` and its ancestors: the ancestors' titles, then its own name if shown.
pub open spec fn title_parts(d: Descriptor, titles: Seq<Seq<char>>) -> Seq<Seq<char>> {
    if shows_name(d.name) {
        titles.push(d.name->0@)
    } else {
        titles
    }
}

/// The context of a descriptor: its titles joined with ` > `, if there are any.
pub open spec fn context_of(d: Descriptor, titles: Seq<Seq<char>>) -> Option<Seq<char>> {
    let parts = title_parts(d, titles);
    if parts.len() > 0 {
        Some(join(parts, " > "@))
    } else {
        None
    }
}

pub open spec fn field_context(d: Descriptor, titles: Seq<Seq<char>>, field: Seq<char>) -> Option<
    Seq<char>,
> {
    append_field(context_of(d, titles), field)
}

/// A descriptor's file, else the project's directory.
pub open spec fn path_of(p: DiscoveryResult, d: Descriptor) -> Option<Seq<char>> {
    match d.file {
        Some(f) => Some(f@),
        None => Some(p.directory.dir@),
    }
}

/// Liquid is rendered before CEL runs, so a source with Liquid markup is not compiled.
pub open spec fn has_liquid_markup(s: Seq<char>) -> bool {
    contains_seq(s, "{{"@) || contains_seq(s, "{%"@)
}

pub open spec fn indexed(field: Seq<char>, i: int) -> Seq<char> {
    field + "["@ + decimal(i as nat) + "]"@
}

pub open spec fn liquid_check(
    p: DiscoveryResult,
    d: Descriptor,
    titles: Seq<Seq<char>>,
    source: Seq<char>,
    field: Seq<char>,
) -> CheckView {
    mk(
        CheckKind::Liquid,
        LIQUID_INVALID@,
        source,
        path_of(p, d),
        field_context(d, titles, field),
    )
}

pub open spec fn tag_checks(
    p: DiscoveryResult,
    d: Descriptor,
    titles: Seq<Seq<char>>,
    tags: Seq<String>,
) -> Seq<CheckView>
    decreases tags.len(),
{
    if tags.len() == 0 {
        Seq::empty()
    } else {
        tag_checks(p, d, titles, tags.drop_last()).push(
            liquid_check(p, d, titles, tags.last()@, indexed("tags"@, tags.len() - 1)),
        )
    }
}

pub open spec fn json_checks(
    p: DiscoveryResult,
    d: Descriptor,
    titles: Seq<Seq<char>>,
    field: Seq<char>,
    v: JsonValue,
) -> Seq<CheckView>
    decreases v,
{
    match v {
        JsonValue::String(s) => seq![liquid_check(p, d, titles, s@, field)],
        JsonValue::Array(vs) => json_array_checks(p, d, titles, field, vs@),
        JsonValue::Object(kvs) => json_object_checks(p, d, titles, field, kvs@),
        _ => Seq::empty(),
    }
}

pub open spec fn json_array_checks(
    p: DiscoveryResult,
    d: Descriptor,
    titles: Seq<Seq<char>>,
    field: Seq<char>,
    vs: Seq<JsonValue>,
) -> Seq<CheckView>
    decreases vs,
{
    if vs.len() == 0 {
        Seq::empty()
    } else {
        json_array_checks(p, d, titles, field, vs.drop_last()) + json_checks(
            p,
            d,
            titles,
            indexed(field, vs.len() - 1),
            vs.last(),
        )
    }
}

pub open spec fn json_object_checks(
    p: DiscoveryResult,
    d: Descriptor,
    titles: Seq<Seq<char>>,
    field: Seq<char>,
    kvs: Seq<(String, JsonValue)>,
) -> Seq<CheckView>
    decreases kvs,
{
    if kvs.len() == 0 {
        Seq::empty()
    } else {
        let (k, v) = kvs.last();
        json_object_checks(p, d, titles, field, kvs.drop_last()).push(
            liquid_check(p, d, titles, k@, field + ".key"@),
        ) + json_checks(p, d, titles, field + "."@ + k@, v)
    }
}

pub open spec fn profile_field(i: int) -> Seq<char> {
    indexed("profiles"@, i)
}

pub open spec fn profile_entry_checks(
    p: DiscoveryResult,
    d: Descriptor,
    titles: Seq<Seq<char>>,
    pi: int,
    kvs: Seq<(String, JsonValue)>,
) -> Seq<CheckView>
    decreases kvs.len(),
{
    if kvs.len() == 0 {
        Seq::empty()
    } else {
        let (k, v) = kvs.last();
        profile_entry_checks(p, d, titles, pi, kvs.drop_last()).push(
            liquid_check(p, d, titles, k@, profile_field(pi) + ".key"@),
        ) + json_checks(p, d, titles, profile_field(pi) + "."@ + k@, v)
    }
}

pub open spec fn profiles_checks(
    p: DiscoveryResult,
    d: Descriptor,
    titles: Seq<Seq<char>>,
    ps: Seq<Vec<(String, JsonValue)>>,
) -> Seq<CheckView>
    decreases ps.len(),
{
    if ps.len() == 0 {
        Seq::empty()
    } else {
        profiles_checks(p, d, titles, ps.drop_last()) + profile_entry_checks(
            p,
            d,
            titles,
            ps.len() - 1,
            ps.last()@,
        )
    }
}

pub open spec fn opt_seq<T>(o: Option<Vec<T>>) -> Seq<T> {
    match o {
        Some(v) => v@,
        None => Seq::empty(),
    }
}

/// Name, description, tags and profiles of a descriptor must be valid Liquid.
pub open spec fn descriptor_liquid_checks(
    p: DiscoveryResult,
    d: Descriptor,
    titles: Seq<Seq<char>>,
) -> Seq<CheckView> {
    (match d.name {
        Some(n) => seq![liquid_check(p, d, titles, n@, "name"@)],
        None => Seq::empty(),
    }) + (match d.description {
        Some(n) => seq![liquid_check(p, d, titles, n@, "description"@)],
        None => Seq::empty(),
    }) + tag_checks(p, d, titles, opt_seq(d.tags)) + profiles_checks(
        p,
        d,
        titles,
        opt_seq(d.profiles),
    )
}

/// `base_uri` and a Liquid `skip` of options must be valid Liquid.
pub open spec fn options_liquid_checks(
    o: RunOptions,
    path: Option<Seq<char>>,
    context: Option<Seq<char>>,
) -> Seq<CheckView> {
    (match o.base_uri {
        Some(b) => seq![
            mk(CheckKind::Liquid, LIQUID_INVALID@, b@, path, append_field(context, "base_uri"@)),
        ],
        None => Seq::empty(),
    }) + (match o.skip {
        Some(Templated::Liquid(s)) => seq![
            mk(CheckKind::Liquid, LIQUID_INVALID@, s@, path, append_field(context, "skip"@)),
        ],
        _ => Seq::empty(),
    })
}

pub open spec fn unknown_report_message(name: Seq<char>) -> Seq<char> {
    "Unknown report `"@ + name + "`"@
}

/// Every report options name must be a known template.
pub open spec fn reports_checks(
    p: DiscoveryResult,
    reports: Seq<String>,
    path: Option<Seq<char>>,
    context: Option<Seq<char>>,
) -> Seq<CheckView>
    decreases reports.len(),
{
    if reports.len() == 0 {
        Seq::empty()
    } else {
        let name = reports.last()@;
        reports_checks(p, reports.drop_last(), path, context) + if has_template(
            p.templates@,
            name,
        ) {
            Seq::empty()
        } else {
            seq![
                mk(
                    CheckKind::Fixed,
                    REPORT_UNKNOWN@,
                    unknown_report_message(name),
                    path,
                    append_field(context, indexed("reports"@, reports.len() - 1)),
                ),
            ]
        }
    }
}

pub open spec fn options_checks(
    p: DiscoveryResult,
    o: RunOptions,
    path: Option<Seq<char>>,
    context: Option<Seq<char>>,
) -> Seq<CheckView> {
    options_liquid_checks(o, path, context) + reports_checks(p, opt_seq(o.reports), path, context)
}

pub open spec fn empty_descriptor_checks(
    p: DiscoveryResult,
    d: Descriptor,
    titles: Seq<Seq<char>>,
) -> Seq<CheckView> {
    if d.test is None && children(d).len() == 0 {
        seq![
            mk(
                CheckKind::Fixed,
                DESCRIPTOR_EMPTY@,
                "A terminal descriptor has neither test nor children"@,
                path_of(p, d),
                context_of(d, titles),
            ),
        ]
    } else {
        Seq::empty()
    }
}

/// The verbs a test may use (compared after ASCII upper-casing).
pub open spec fn verb_supported(verb: Seq<char>) -> bool {
    let u = ascii_upper(verb);
    u == "GET"@ || u == "POST"@ || u == "PUT"@ || u == "PATCH"@ || u == "DELETE"@ || u == "HEAD"@
}

/// The upper-case name of each method the runner can send.
pub open spec fn method_name(m: HttpVerb) -> Seq<char> {
    match m {
        HttpVerb::Get => "GET"@,
        HttpVerb::Post => "POST"@,
        HttpVerb::Put => "PUT"@,
        HttpVerb::Patch => "PATCH"@,
        HttpVerb::Delete => "DELETE"@,
        HttpVerb::Head => "HEAD"@,
    }
}

/// Validation accepts exactly the verbs the runner sends: a verb passes validation when
/// its upper case is the name of one of the runner's methods (GET, POST, PUT, PATCH,
/// DELETE, HEAD), and the runner sends method `m` for a verb exactly when the verb's
/// upper case is `m`'s name. So for a verb whose upper cases agree (any ASCII verb), it
/// is reported as unsupported exactly when no request can be made for it.
pub proof fn validation_accepts_the_verbs_the_runner_sends(v: Seq<char>)
    ensures
        verb_supported(v) <==> exists|m: HttpVerb| crate::strings::ascii_upper(v) == #[trigger] method_name(m),
        forall|m: HttpVerb| verb_of(Some(v)) == Some(m) <==> crate::pipeline::runners::unicode_upper(v) == #[trigger] method_name(m),
        crate::pipeline::runners::unicode_upper(v) == crate::strings::ascii_upper(v) ==> (verb_supported(v) <==> verb_of(
            Some(v),
        ) is Some),
{
    reveal_strlit("GET");
    reveal_strlit("POST");
    reveal_strlit("PUT");
    reveal_strlit("PATCH");
    reveal_strlit("DELETE");
    reveal_strlit("HEAD");
    let w = crate::pipeline::runners::unicode_upper(v);
    assert forall|m: HttpVerb| verb_of(Some(v)) == Some(m) <==> w == #[trigger] method_name(m) by {
        assert("GET"@.len() == 3 && "PUT"@.len() == 3 && "POST"@.len() == 4 && "HEAD"@.len() == 4);
        assert("GET"@[0] != "PUT"@[0] && "POST"@[0] != "HEAD"@[0]);
        assert("PATCH"@.len() == 5 && "DELETE"@.len() == 6);
    }
    let u = crate::strings::ascii_upper(v);
    if verb_supported(v) {
        if u == "GET"@ {
            assert(u == method_name(HttpVerb::Get));
        } else if u == "POST"@ {
            assert(u == method_name(HttpVerb::Post));
        } else if u == "PUT"@ {
            assert(u == method_name(HttpVerb::Put));
        } else if u == "PATCH"@ {
            assert(u == method_name(HttpVerb::Patch));
        } else if u == "DELETE"@ {
            assert(u == method_name(HttpVerb::Delete));
        } else {
            assert(u == method_name(HttpVerb::Head));
        }
    }
}

pub open spec fn unsupported_verb_message(verb: Seq<char>) -> Seq<char> {
    "Unsupported HTTP verb `"@ + verb + "`"@
}

pub open spec fn route_and_verb_checks(
    p: DiscoveryResult,
    d: Descriptor,
    titles: Seq<Seq<char>>,
    t: TestSpec,
) -> Seq<CheckView> {
    (if trim(t.route@).len() == 0 {
        seq![
            mk(
                CheckKind::Fixed,
                TEST_EMPTY_ROUTE@,
                "Route is blank"@,
                path_of(p, d),
                field_context(d, titles, "test.route"@),
            ),
        ]
    } else {
        Seq::empty()
    }) + (match t.verb {
        Some(v) => if !has_liquid_markup(v@) && !verb_supported(v@) {
            seq![
                mk(
                    CheckKind::Fixed,
                    TEST_UNSUPPORTED_VERB@,
                    unsupported_verb_message(v@),
                    path_of(p, d),
                    field_context(d, titles, "test.verb"@),
                ),
            ]
        } else {
            Seq::empty()
        },
        None => Seq::empty(),
    })
}

/// Liquid checks of each element of a list of sources, fields `{field}[i]`.
pub open spec fn list_liquid_checks(
    p: DiscoveryResult,
    d: Descriptor,
    titles: Seq<Seq<char>>,
    field: Seq<char>,
    items: Seq<String>,
) -> Seq<CheckView>
    decreases items.len(),
{
    if items.len() == 0 {
        Seq::empty()
    } else {
        list_liquid_checks(p, d, titles, field, items.drop_last()).push(
            liquid_check(p, d, titles, items.last()@, indexed(field, items.len() - 1)),
        )
    }
}

/// Liquid checks of a map: each key (field `{field}.key`), then its value (`{field}.{key}`).
pub open spec fn map_liquid_checks(
    p: DiscoveryResult,
    d: Descriptor,
    titles: Seq<Seq<char>>,
    field: Seq<char>,
    key_field: Seq<char>,
    items: Seq<(String, String)>,
) -> Seq<CheckView>
    decreases items.len(),
{
    if items.len() == 0 {
        Seq::empty()
    } else {
        let (k, v) = items.last();
        map_liquid_checks(p, d, titles, field, key_field, items.drop_last()).push(
            liquid_check(p, d, titles, k@, key_field),
        ).push(liquid_check(p, d, titles, v@, field + "."@ + k@))
    }
}

pub open spec fn opt_liquid(
    p: DiscoveryResult,
    d: Descriptor,
    titles: Seq<Seq<char>>,
    o: Option<String>,
    field: Seq<char>,
) -> Seq<CheckView> {
    match o {
        Some(s) => seq![liquid_check(p, d, titles, s@, field)],
        None => Seq::empty(),
    }
}

/// Every input of a test must be valid Liquid.
pub open spec fn test_liquid_checks(
    p: DiscoveryResult,
    d: Descriptor,
    titles: Seq<Seq<char>>,
    t: TestSpec,
) -> Seq<CheckView> {
    seq![liquid_check(p, d, titles, t.route@, "test.route"@)] + opt_liquid(
        p,
        d,
        titles,
        t.verb,
        "test.verb"@,
    ) + opt_liquid(p, d, titles, t.body, "test.body"@) + list_liquid_checks(
        p,
        d,
        titles,
        "test.assert"@,
        opt_seq(t.assert),
    ) + map_liquid_checks(p, d, titles, "test.vars"@, "test.vars.key"@, opt_seq(t.vars))
        + map_liquid_checks(p, d, titles, "test.query"@, "test.query.key"@, opt_seq(t.query))
        + map_liquid_checks(
        p,
        d,
        titles,
        "test.headers"@,
        "test.headers.key"@,
        opt_seq(t.headers),
    ) + map_liquid_checks(p, d, titles, "test.let"@, "test.let.key"@, opt_seq(t.lets))
}

pub open spec fn cel_check(
    p: DiscoveryResult,
    d: Descriptor,
    titles: Seq<Seq<char>>,
    source: Seq<char>,
    field: Seq<char>,
) -> Seq<CheckView> {
    if has_liquid_markup(source) {
        Seq::empty()
    } else {
        seq![
            mk(
                CheckKind::Cel,
                CEL_INVALID@,
                source,
                path_of(p, d),
                field_context(d, titles, field),
            ),
        ]
    }
}

pub open spec fn list_cel_checks(
    p: DiscoveryResult,
    d: Descriptor,
    titles: Seq<Seq<char>>,
    field: Seq<char>,
    items: Seq<String>,
) -> Seq<CheckView>
    decreases items.len(),
{
    if items.len() == 0 {
        Seq::empty()
    } else {
        list_cel_checks(p, d, titles, field, items.drop_last()) + cel_check(
            p,
            d,
            titles,
            items.last()@,
            indexed(field, items.len() - 1),
        )
    }
}

pub open spec fn map_cel_checks(
    p: DiscoveryResult,
    d: Descriptor,
    titles: Seq<Seq<char>>,
    field: Seq<char>,
    items: Seq<(String, String)>,
) -> Seq<CheckView>
    decreases items.len(),
{
    if items.len() == 0 {
        Seq::empty()
    } else {
        let (k, v) = items.last();
        map_cel_checks(p, d, titles, field, items.drop_last()) + cel_check(
            p,
            d,
            titles,
            v@,
            field + "."@ + k@,
        )
    }
}

/// Assertions, `let` bindings and saved variables must compile as CEL.
pub open spec fn test_cel_checks(
    p: DiscoveryResult,
    d: Descriptor,
    titles: Seq<Seq<char>>,
    t: TestSpec,
) -> Seq<CheckView> {
    list_cel_checks(p, d, titles, "test.assert"@, opt_seq(t.assert)) + map_cel_checks(
        p,
        d,
        titles,
        "test.let"@,
        opt_seq(t.lets),
    ) + map_cel_checks(p, d, titles, "test.vars"@, opt_seq(t.vars))
}

pub open spec fn test_checks(p: DiscoveryResult, d: Descriptor, titles: Seq<Seq<char>>) -> Seq<
    CheckView,
> {
    match d.test {
        Some(t) => route_and_verb_checks(p, d, titles, t) + test_liquid_checks(p, d, titles, t)
            + test_cel_checks(p, d, titles, t),
        None => Seq::empty(),
    }
}

/// The checks of one descriptor, its descendants excluded.
pub open spec fn own_checks(p: DiscoveryResult, d: Descriptor, titles: Seq<Seq<char>>) -> Seq<
    CheckView,
> {
    empty_descriptor_checks(p, d, titles) + descriptor_liquid_checks(p, d, titles) + (match d.options {
        Some(o) => options_checks(p, o, path_of(p, d), field_context(d, titles, "options"@)),
        None => Seq::empty(),
    }) + test_checks(p, d, titles)
}

/// The checks of a descriptor and its descendants, depth first in source order.
pub open spec fn tree_checks(p: DiscoveryResult, d: Descriptor, titles: Seq<Seq<char>>) -> Seq<
    CheckView,
>
    decreases d,
{
    own_checks(p, d, titles) + match d.describe {
        Some(v) => forest_checks(p, v@, title_parts(d, titles)),
        None => Seq::empty(),
    }
}

pub open spec fn forest_checks(p: DiscoveryResult, ds: Seq<Descriptor>, titles: Seq<Seq<char>>) -> Seq<
    CheckView,
>
    decreases ds,
{
    if ds.len() == 0 {
        Seq::empty()
    } else {
        forest_checks(p, ds.drop_last(), titles) + tree_checks(p, ds.last(), titles)
    }
}

pub open spec fn local_options_checks(
    p: DiscoveryResult,
    dir: DirectoryNode,
    os: Seq<RunOptions>,
) -> Seq<CheckView>
    decreases os.len(),
{
    if os.len() == 0 {
        Seq::empty()
    } else {
        local_options_checks(p, dir, os.drop_last()) + options_checks(
            p,
            os.last(),
            Some(dir.dir@),
            Some("Directory config"@),
        )
    }
}

/// The options a directory's own configs add to those it inherits.
pub open spec fn local_options(dir: DirectoryNode, inherited: nat) -> Seq<RunOptions> {
    if inherited <= dir.options@.len() {
        dir.options@.skip(inherited as int)
    } else {
        Seq::empty()
    }
}

/// The checks of a directory, its spec files and its subdirectories.
pub open spec fn dir_checks(p: DiscoveryResult, dir: DirectoryNode, inherited: nat) -> Seq<
    CheckView,
>
    decreases dir,
{
    local_options_checks(p, dir, local_options(dir, inherited)) + forest_checks(
        p,
        dir.files@,
        Seq::empty(),
    ) + subdirs_checks(p, dir.children@, dir.options@.len())
}

pub open spec fn subdirs_checks(p: DiscoveryResult, ds: Seq<DirectoryNode>, inherited: nat) -> Seq<
    CheckView,
>
    decreases ds,
{
    if ds.len() == 0 {
        Seq::empty()
    } else {
        subdirs_checks(p, ds.drop_last(), inherited) + dir_checks(p, ds.last(), inherited)
    }
}

/// Whether a descriptor or a descendant has a test.
pub open spec fn tree_has_test(d: Descriptor) -> bool
    decreases d,
{
    d.test is Some || match d.describe {
        Some(v) => forest_has_test(v@),
        None => false,
    }
}

pub open spec fn forest_has_test(ds: Seq<Descriptor>) -> bool
    decreases ds,
{
    ds.len() > 0 && (forest_has_test(ds.drop_last()) || tree_has_test(ds.last()))
}

/// Whether any spec file of a directory or its subdirectories has a test.
pub open spec fn dir_has_test(dir: DirectoryNode) -> bool
    decreases dir,
{
    forest_has_test(dir.files@) || dirs_have_test(dir.children@)
}

pub open spec fn dirs_have_test(ds: Seq<DirectoryNode>) -> bool
    decreases ds,
{
    ds.len() > 0 && (dirs_have_test(ds.drop_last()) || dir_has_test(ds.last()))
}

pub open spec fn no_tests_checks(p: DiscoveryResult) -> Seq<CheckView> {
    if dir_has_test(p.directory) {
        Seq::empty()
    } else {
        seq![
            mk(
                CheckKind::Fixed,
                PROJECT_NO_TESTS@,
                "No selected runnable tests were discovered"@,
                Some(p.directory.dir@),
                None,
            ),
        ]
    }
}

pub open spec fn report_field_check(
    p: DiscoveryResult,
    name: Seq<char>,
    field: Seq<char>,
    source: Option<String>,
) -> Seq<CheckView> {
    match source {
        Some(s) => seq![
            mk(
                CheckKind::Liquid,
                REPORT_INVALID_LIQUID@,
                s@,
                Some(p.directory.dir@),
                Some("Report: "@ + name + " | "@ + field),
            ),
        ],
        None => Seq::empty(),
    }
}

/// Each template of a report, and its file name, must be valid Liquid.
pub open spec fn template_checks(p: DiscoveryResult, name: Seq<char>, t: ReportTemplate) -> Seq<
    CheckView,
> {
    report_field_check(p, name, "test_template"@, t.test_template) + report_field_check(
        p,
        name,
        "section_template"@,
        t.section_template,
    ) + report_field_check(p, name, "error_template"@, t.error_template) + report_field_check(
        p,
        name,
        "debug_template"@,
        t.debug_template,
    ) + report_field_check(p, name, "title_template"@, t.title_template) + report_field_check(
        p,
        name,
        "summary_template"@,
        t.summary_template,
    ) + match t.file {
        Some(f) => report_field_check(p, name, "file.file_name"@, f.file_name),
        None => Seq::empty(),
    }
}

pub open spec fn templates_checks(p: DiscoveryResult, ts: Seq<(String, ReportTemplate)>) -> Seq<
    CheckView,
>
    decreases ts.len(),
{
    if ts.len() == 0 {
        Seq::empty()
    } else {
        templates_checks(p, ts.drop_last()) + template_checks(p, ts.last().0@, ts.last().1)
    }
}

/// All checks of a project, in the order the rules run.
pub open spec fn project_checks(p: DiscoveryResult) -> Seq<CheckView> {
    no_tests_checks(p) + dir_checks(p, p.directory, 0) + templates_checks(p, p.templates@)
}

/// How many checks are CEL checks.
pub open spec fn cel_count(cs: Seq<CheckView>) -> nat
    decreases cs.len(),
{
    if cs.len() == 0 {
        0
    } else {
        cel_count(cs.drop_last()) + if cs.last().kind == CheckKind::Cel {
            1nat
        } else {
            0nat
        }
    }
}

/// The sources of the CEL checks, in order.
pub open spec fn cel_texts(cs: Seq<CheckView>) -> Seq<Seq<char>>
    decreases cs.len(),
{
    if cs.len() == 0 {
        Seq::empty()
    } else if cs.last().kind == CheckKind::Cel {
        cel_texts(cs.drop_last()).push(cs.last().text)
    } else {
        cel_texts(cs.drop_last())
    }
}

pub open spec fn diagnostic(
    code: Seq<char>,
    path: Option<Seq<char>>,
    context: Option<Seq<char>>,
    message: Seq<char>,
) -> DiagnosticView {
    DiagnosticView { severity: ValidationSeverity::Error, code, path, context, message }
}

/// The diagnostics the checks give: fixed ones as they are, a Liquid check where its
/// verdict (`liquid[i]`, one per check) is an error, a CEL check where its verdict (the
/// next of `cel`, one per CEL check) is an error.
pub open spec fn assemble(
    cs: Seq<CheckView>,
    liquid: Seq<Option<Seq<char>>>,
    cel: Seq<Option<Seq<char>>>,
) -> Seq<DiagnosticView>
    decreases cs.len(),
{
    if cs.len() == 0 {
        Seq::empty()
    } else {
        let c = cs[0];
        let rest_cel = if c.kind == CheckKind::Cel && cel.len() > 0 {
            cel.drop_first()
        } else {
            cel
        };
        let here: Seq<DiagnosticView> = match c.kind {
            CheckKind::Fixed => seq![diagnostic(c.code, c.path, c.context, c.text)],
            CheckKind::Liquid => match liquid[0] {
                Some(e) => seq![
                    diagnostic(c.code, c.path, c.context, "Invalid Liquid syntax: "@ + e),
                ],
                None => Seq::empty(),
            },
            CheckKind::Cel => if cel.len() > 0 && cel[0] is Some {
                seq![
                    diagnostic(
                        CEL_INVALID@,
                        c.path,
                        c.context,
                        "Invalid CEL expression: "@ + cel[0]->0,
                    ),
                ]
            } else {
                Seq::empty()
            },
        };
        here + assemble(cs.drop_first(), liquid.drop_first(), rest_cel)
    }
}

/// How many spec files a directory and its subdirectories hold.
pub open spec fn file_count(dir: DirectoryNode) -> nat
    decreases dir,
{
    dir.files@.len() + dirs_file_count(dir.children@)
}

pub open spec fn dirs_file_count(ds: Seq<DirectoryNode>) -> nat
    decreases ds,
{
    if ds.len() == 0 {
        0
    } else {
        dirs_file_count(ds.drop_last()) + file_count(ds.last())
    }
}

pub open spec fn opt_views_of(v: Seq<Option<String>>) -> Seq<Option<Seq<char>>> {
    v.map_values(|o: Option<String>| opt_view(o))
}

proof fn lemma_push_view(v: Seq<Check>, c: Check)
    ensures
        check_views(v.push(c)) == check_views(v).push(c@),
{
    assert(check_views(v.push(c)) =~= check_views(v).push(c@));
}

fn push_check(
    out: &mut Vec<Check>,
    kind: CheckKind,
    code: &'static str,
    text: String,
    path: Option<String>,
    context: Option<String>,
)
    ensures
        check_views(final(out)@) == check_views(old(out)@).push(
            mk(kind, code@, text@, opt_view(path), opt_view(context)),
        ),
{
    let c = Check { kind, code, text, path, context };
    proof {
        lemma_push_view(out@, c);
    }
    out.push(c);
}

/// `{context} | {field}`, or the field alone where the context is absent or empty.
pub fn append_field_context(context: &Option<String>, field: &str) -> (r: Option<String>)
    ensures
        opt_view(r) == append_field(opt_view(*context), field@),
{
    match context {
        Some(c) => {
            let cv = crate::strings::chars_of(c.as_str());
            if cv.len() > 0 {
                Some(concat3(c.as_str(), " | ", field))
            } else {
                Some(copy_str(field))
            }
        },
        None => Some(copy_str(field)),
    }
}

/// Whether a name is shown in titles (set and not blank).
fn name_is_shown(name: &Option<String>) -> (r: bool)
    ensures
        r == shows_name(*name),
{
    match name {
        Some(n) => !str_is_blank(n.as_str()),
        None => false,
    }
}

/// The titles a descriptor's children see: these titles, then its name if shown.
fn child_titles(d: &Descriptor, titles: &Vec<String>) -> (r: Vec<String>)
    ensures
        views(r@) == title_parts(*d, views(titles@)),
{
    let mut r = crate::models::copy_strings(titles);
    if name_is_shown(&d.name) {
        match &d.name {
            Some(n) => {
                let ghost before = r@;
                r.push(n.clone());
                assert(views(r@) =~= views(before).push(n@));
            },
            None => {},
        }
    }
    r
}

/// The context of a descriptor: its titles joined with ` > `, if any.
pub fn descriptor_context(d: &Descriptor, titles: &Vec<String>) -> (r: Option<String>)
    ensures
        opt_view(r) == context_of(*d, views(titles@)),
{
    let parts = child_titles(d, titles);
    if parts.len() > 0 {
        Some(join_strings(&parts, " > "))
    } else {
        None
    }
}

/// The context of a field of a descriptor.
pub fn descriptor_field_context(d: &Descriptor, titles: &Vec<String>, field: &str) -> (r: Option<
    String,
>)
    ensures
        opt_view(r) == field_context(*d, views(titles@), field@),
{
    let c = descriptor_context(d, titles);
    append_field_context(&c, field)
}

/// A descriptor's file, else the project's directory.
pub fn descriptor_path(p: &DiscoveryResult, d: &Descriptor) -> (r: Option<String>)
    ensures
        opt_view(r) == path_of(*p, *d),
{
    match &d.file {
        Some(f) => Some(f.clone()),
        None => Some(p.directory.dir.clone()),
    }
}

/// Whether a source holds Liquid markup (`{{` or `{%`).
pub fn contains_liquid_markup(source: &str) -> (r: bool)
    ensures
        r == has_liquid_markup(source@),
{
    str_contains(source, "{{") || str_contains(source, "{%")
}

fn indexed_field(field: &str, i: usize) -> (r: String)
    ensures
        r@ == indexed(field@, i as int),
{
    let n = decimal_string(i as u64);
    let mut r = concat3(field, "[", n.as_str());
    r.append("]");
    r
}

fn push_liquid(
    out: &mut Vec<Check>,
    p: &DiscoveryResult,
    d: &Descriptor,
    titles: &Vec<String>,
    source: &str,
    field: &str,
)
    ensures
        check_views(final(out)@) == check_views(old(out)@).push(
            liquid_check(*p, *d, views(titles@), source@, field@),
        ),
{
    let path = descriptor_path(p, d);
    let ctx = descriptor_field_context(d, titles, field);
    push_check(out, CheckKind::Liquid, LIQUID_INVALID, copy_str(source), path, ctx);
}

/// A terminal descriptor (no test, no children) is reported.
fn descriptor_empty(p: &DiscoveryResult, d: &Descriptor, titles: &Vec<String>, out: &mut Vec<Check>)
    ensures
        check_views(final(out)@) == check_views(old(out)@) + empty_descriptor_checks(
            *p,
            *d,
            views(titles@),
        ),
{
    let has_children = match &d.describe {
        Some(v) => v.len() > 0,
        None => false,
    };
    if d.test.is_none() && !has_children {
        let path = descriptor_path(p, d);
        let ctx = descriptor_context(d, titles);
        let ghost before = check_views(out@);
        push_check(
            out,
            CheckKind::Fixed,
            DESCRIPTOR_EMPTY,
            copy_str("A terminal descriptor has neither test nor children"),
            path,
            ctx,
        );
        assert(check_views(out@) =~= before + empty_descriptor_checks(*p, *d, views(titles@)));
    } else {
        assert(check_views(out@) =~= check_views(out@) + Seq::<CheckView>::empty());
    }
}

/// Liquid checks of a profile value: strings, and the keys and values inside arrays and objects.
fn validate_profile_liquid(
    p: &DiscoveryResult,
    d: &Descriptor,
    titles: &Vec<String>,
    field: &String,
    v: &JsonValue,
    out: &mut Vec<Check>,
)
    ensures
        check_views(final(out)@) == check_views(old(out)@) + json_checks(
            *p,
            *d,
            views(titles@),
            field@,
            *v,
        ),
    decreases v,
{
    let ghost start = check_views(out@);
    match v {
        JsonValue::String(s) => {
            push_liquid(out, p, d, titles, s.as_str(), field.as_str());
            assert(check_views(out@) =~= start + json_checks(*p, *d, views(titles@), field@, *v));
        },
        JsonValue::Array(vs) => {
            let mut i: usize = 0;
            while i < vs.len()
                invariant
                    i <= vs.len(),
                    *v == JsonValue::Array(*vs),
                    check_views(out@) == start + json_array_checks(
                        *p,
                        *d,
                        views(titles@),
                        field@,
                        vs@.take(i as int),
                    ),
                decreases vs.len() - i,
            {
                let f = indexed_field(field.as_str(), i);
                proof {
                    assert(vs@.take(i + 1).drop_last() =~= vs@.take(i as int));
                }
                proof {
                    assert(decreases_to!(*v => (*v)->Array_0));
                    assert((*v)->Array_0 == *vs);
                    assert(decreases_to!(*vs => vs@));
                    assert(decreases_to!(vs@ => vs@[i as int]));
                    assert(decreases_to!(*v => vs@[i as int]));
                }
                validate_profile_liquid(p, d, titles, &f, &vs[i], out);
                assert(check_views(out@) =~= start + json_array_checks(
                    *p,
                    *d,
                    views(titles@),
                    field@,
                    vs@.take(i + 1),
                ));
                i += 1;
            }
            assert(vs@.take(vs.len() as int) =~= vs@);
        },
        JsonValue::Object(kvs) => {
            let mut i: usize = 0;
            while i < kvs.len()
                invariant
                    i <= kvs.len(),
                    *v == JsonValue::Object(*kvs),
                    check_views(out@) == start + json_object_checks(
                        *p,
                        *d,
                        views(titles@),
                        field@,
                        kvs@.take(i as int),
                    ),
                decreases kvs.len() - i,
            {
                let key_field = concat(field.as_str(), ".key");
                push_liquid(out, p, d, titles, kvs[i].0.as_str(), key_field.as_str());
                let f = concat3(field.as_str(), ".", kvs[i].0.as_str());
                proof {
                    assert(kvs@.take(i + 1).drop_last() =~= kvs@.take(i as int));
                }
                proof {
                    assert(decreases_to!(*v => (*v)->Object_0));
                    assert((*v)->Object_0 == *kvs);
                    assert(decreases_to!(*kvs => kvs@));
                    assert(decreases_to!(kvs@ => kvs@[i as int]));
                    assert(decreases_to!(kvs@[i as int] => kvs@[i as int].1));
                    assert(decreases_to!(*v => kvs@[i as int].1));
                }
                validate_profile_liquid(p, d, titles, &f, &kvs[i].1, out);
                assert(check_views(out@) =~= start + json_object_checks(
                    *p,
                    *d,
                    views(titles@),
                    field@,
                    kvs@.take(i + 1),
                ));
                i += 1;
            }
            assert(kvs@.take(kvs.len() as int) =~= kvs@);
        },
        _ => {
            assert(check_views(out@) =~= start + json_checks(*p, *d, views(titles@), field@, *v));
        },
    }
}

/// Name, description, tags and profiles of a descriptor must be valid Liquid.
fn descriptor_has_valid_liquid(
    p: &DiscoveryResult,
    d: &Descriptor,
    titles: &Vec<String>,
    out: &mut Vec<Check>,
)
    ensures
        check_views(final(out)@) == check_views(old(out)@) + descriptor_liquid_checks(
            *p,
            *d,
            views(titles@),
        ),
{
    let ghost t = views(titles@);
    let ghost start = check_views(out@);
    match &d.name {
        Some(n) => push_liquid(out, p, d, titles, n.as_str(), "name"),
        None => {},
    }
    let ghost s1 = check_views(out@);
    match &d.description {
        Some(n) => push_liquid(out, p, d, titles, n.as_str(), "description"),
        None => {},
    }
    let ghost s2 = check_views(out@);
    match &d.tags {
        Some(tags) => {
            let mut i: usize = 0;
            while i < tags.len()
                invariant
                    i <= tags.len(),
                    check_views(out@) == s2 + tag_checks(*p, *d, t, tags@.take(i as int)),
                    t == views(titles@),
                decreases tags.len() - i,
            {
                let f = indexed_field("tags", i);
                push_liquid(out, p, d, titles, tags[i].as_str(), f.as_str());
                assert(tags@.take(i + 1).drop_last() =~= tags@.take(i as int));
                assert(check_views(out@) =~= s2 + tag_checks(*p, *d, t, tags@.take(i + 1)));
                i += 1;
            }
            assert(tags@.take(tags.len() as int) =~= tags@);
        },
        None => {},
    }
    let ghost s3 = check_views(out@);
    match &d.profiles {
        Some(ps) => {
            let mut pi: usize = 0;
            while pi < ps.len()
                invariant
                    pi <= ps.len(),
                    check_views(out@) == s3 + profiles_checks(*p, *d, t, ps@.take(pi as int)),
                    t == views(titles@),
                decreases ps.len() - pi,
            {
                let ghost s4 = check_views(out@);
                let profile = &ps[pi];
                let pf = indexed_field("profiles", pi);
                let pf_key = concat(pf.as_str(), ".key");
                let mut k: usize = 0;
                while k < profile.len()
                    invariant
                        k <= profile.len(),
                        pf@ == profile_field(pi as int),
                        pf_key@ == profile_field(pi as int) + ".key"@,
                        check_views(out@) == s4 + profile_entry_checks(
                            *p,
                            *d,
                            t,
                            pi as int,
                            profile@.take(k as int),
                        ),
                        t == views(titles@),
                    decreases profile.len() - k,
                {
                    push_liquid(out, p, d, titles, profile[k].0.as_str(), pf_key.as_str());
                    let f = concat3(pf.as_str(), ".", profile[k].0.as_str());
                    validate_profile_liquid(p, d, titles, &f, &profile[k].1, out);
                    assert(profile@.take(k + 1).drop_last() =~= profile@.take(k as int));
                    assert(check_views(out@) =~= s4 + profile_entry_checks(
                        *p,
                        *d,
                        t,
                        pi as int,
                        profile@.take(k + 1),
                    ));
                    k += 1;
                }
                assert(profile@.take(profile.len() as int) =~= profile@);
                assert(ps@.take(pi + 1).drop_last() =~= ps@.take(pi as int));
                assert(check_views(out@) =~= s3 + profiles_checks(*p, *d, t, ps@.take(pi + 1)));
                pi += 1;
            }
            assert(ps@.take(ps.len() as int) =~= ps@);
        },
        None => {},
    }
    assert(check_views(out@) =~= start + descriptor_liquid_checks(*p, *d, t));
}

/// `base_uri` and a Liquid `skip` must be valid Liquid.
fn run_options_have_valid_liquid(
    o: &RunOptions,
    path: &Option<String>,
    context: &Option<String>,
    out: &mut Vec<Check>,
)
    ensures
        check_views(final(out)@) == check_views(old(out)@) + options_liquid_checks(
            *o,
            opt_view(*path),
            opt_view(*context),
        ),
{
    let ghost start = check_views(out@);
    match &o.base_uri {
        Some(b) => {
            let ctx = append_field_context(context, "base_uri");
            push_check(
                out,
                CheckKind::Liquid,
                LIQUID_INVALID,
                b.clone(),
                crate::strings::copy_opt(path),
                ctx,
            );
        },
        None => {},
    }
    match &o.skip {
        Some(Templated::Liquid(s)) => {
            let ctx = append_field_context(context, "skip");
            push_check(
                out,
                CheckKind::Liquid,
                LIQUID_INVALID,
                s.clone(),
                crate::strings::copy_opt(path),
                ctx,
            );
        },
        _ => {},
    }
    assert(check_views(out@) =~= start + options_liquid_checks(
        *o,
        opt_view(*path),
        opt_view(*context),
    ));
}

/// Every report named by options must be a known template.
fn reports_are_known(
    p: &DiscoveryResult,
    o: &RunOptions,
    path: &Option<String>,
    context: &Option<String>,
    out: &mut Vec<Check>,
)
    ensures
        check_views(final(out)@) == check_views(old(out)@) + reports_checks(
            *p,
            opt_seq(o.reports),
            opt_view(*path),
            opt_view(*context),
        ),
{
    let ghost start = check_views(out@);
    match &o.reports {
        Some(reports) => {
            let mut i: usize = 0;
            while i < reports.len()
                invariant
                    i <= reports.len(),
                    o.reports == Some(*reports),
                    check_views(out@) == start + reports_checks(
                        *p,
                        reports@.take(i as int),
                        opt_view(*path),
                        opt_view(*context),
                    ),
                decreases reports.len() - i,
            {
                let known = crate::models::find_template(&p.templates, reports[i].as_str());
                if known.is_none() {
                    let f = indexed_field("reports", i);
                    let ctx = append_field_context(context, f.as_str());
                    let msg = concat3("Unknown report `", reports[i].as_str(), "`");
                    push_check(
                        out,
                        CheckKind::Fixed,
                        REPORT_UNKNOWN,
                        msg,
                        crate::strings::copy_opt(path),
                        ctx,
                    );
                }
                assert(reports@.take(i + 1).drop_last() =~= reports@.take(i as int));
                assert(check_views(out@) =~= start + reports_checks(
                    *p,
                    reports@.take(i + 1),
                    opt_view(*path),
                    opt_view(*context),
                ));
                i += 1;
            }
            assert(reports@.take(reports.len() as int) =~= reports@);
        },
        None => {
            assert(check_views(out@) =~= start + reports_checks(
                *p,
                opt_seq(o.reports),
                opt_view(*path),
                opt_view(*context),
            ));
        },
    }
}

fn options_checks_exec(
    p: &DiscoveryResult,
    o: &RunOptions,
    path: &Option<String>,
    context: &Option<String>,
    out: &mut Vec<Check>,
)
    ensures
        check_views(final(out)@) == check_views(old(out)@) + options_checks(
            *p,
            *o,
            opt_view(*path),
            opt_view(*context),
        ),
{
    let ghost start = check_views(out@);
    run_options_have_valid_liquid(o, path, context, out);
    reports_are_known(p, o, path, context, out);
    assert(check_views(out@) =~= start + options_checks(
        *p,
        *o,
        opt_view(*path),
        opt_view(*context),
    ));
}

/// A blank route is reported.
fn test_empty_route(
    p: &DiscoveryResult,
    d: &Descriptor,
    test: &TestSpec,
    titles: &Vec<String>,
    out: &mut Vec<Check>,
)
    ensures
        check_views(final(out)@) == check_views(old(out)@) + (if trim(test.route@).len() == 0 {
            seq![
                mk(
                    CheckKind::Fixed,
                    TEST_EMPTY_ROUTE@,
                    "Route is blank"@,
                    path_of(*p, *d),
                    field_context(*d, views(titles@), "test.route"@),
                ),
            ]
        } else {
            Seq::empty()
        }),
{
    let ghost start = check_views(out@);
    if str_is_blank(test.route.as_str()) {
        let path = descriptor_path(p, d);
        let ctx = descriptor_field_context(d, titles, "test.route");
        push_check(out, CheckKind::Fixed, TEST_EMPTY_ROUTE, copy_str("Route is blank"), path, ctx);
    } else {
        assert(check_views(out@) =~= start + Seq::<CheckView>::empty());
    }
}

fn verb_is_supported(verb: &str) -> (r: bool)
    ensures
        r == verb_supported(verb@),
{
    let u = ascii_upper_str(verb);
    let s = u.as_str();
    str_eq(s, "GET") || str_eq(s, "POST") || str_eq(s, "PUT") || str_eq(s, "PATCH") || str_eq(
        s,
        "DELETE",
    ) || str_eq(s, "HEAD")
}

/// A verb outside GET, POST, PUT, PATCH, DELETE, HEAD (any case) is reported, unless it is
/// Liquid, which is only known once rendered.
fn test_unsupported_verb(
    p: &DiscoveryResult,
    d: &Descriptor,
    test: &TestSpec,
    titles: &Vec<String>,
    out: &mut Vec<Check>,
)
    ensures
        check_views(final(out)@) == check_views(old(out)@) + (match test.verb {
            Some(v) => if !has_liquid_markup(v@) && !verb_supported(v@) {
                seq![
                    mk(
                        CheckKind::Fixed,
                        TEST_UNSUPPORTED_VERB@,
                        unsupported_verb_message(v@),
                        path_of(*p, *d),
                        field_context(*d, views(titles@), "test.verb"@),
                    ),
                ]
            } else {
                Seq::empty()
            },
            None => Seq::empty(),
        }),
{
    let ghost start = check_views(out@);
    match &test.verb {
        Some(verb) => {
            if !contains_liquid_markup(verb.as_str()) && !verb_is_supported(verb.as_str()) {
                let path = descriptor_path(p, d);
                let ctx = descriptor_field_context(d, titles, "test.verb");
                let msg = concat3("Unsupported HTTP verb `", verb.as_str(), "`");
                push_check(out, CheckKind::Fixed, TEST_UNSUPPORTED_VERB, msg, path, ctx);
            } else {
                assert(check_views(out@) =~= start + Seq::<CheckView>::empty());
            }
        },
        None => {
            assert(check_views(out@) =~= start + Seq::<CheckView>::empty());
        },
    }
}

fn list_liquid(
    p: &DiscoveryResult,
    d: &Descriptor,
    titles: &Vec<String>,
    field: &str,
    items: &Option<Vec<String>>,
    out: &mut Vec<Check>,
)
    ensures
        check_views(final(out)@) == check_views(old(out)@) + list_liquid_checks(
            *p,
            *d,
            views(titles@),
            field@,
            opt_seq(*items),
        ),
{
    let ghost start = check_views(out@);
    match items {
        Some(v) => {
            let mut i: usize = 0;
            while i < v.len()
                invariant
                    i <= v.len(),
                    check_views(out@) == start + list_liquid_checks(
                        *p,
                        *d,
                        views(titles@),
                        field@,
                        v@.take(i as int),
                    ),
                decreases v.len() - i,
            {
                let f = indexed_field(field, i);
                push_liquid(out, p, d, titles, v[i].as_str(), f.as_str());
                assert(v@.take(i + 1).drop_last() =~= v@.take(i as int));
                assert(check_views(out@) =~= start + list_liquid_checks(
                    *p,
                    *d,
                    views(titles@),
                    field@,
                    v@.take(i + 1),
                ));
                i += 1;
            }
            assert(v@.take(v.len() as int) =~= v@);
        },
        None => {
            assert(check_views(out@) =~= start + Seq::<CheckView>::empty());
        },
    }
}

/// Keys and values of a map must be valid Liquid.
fn validate_string_map_liquid(
    p: &DiscoveryResult,
    d: &Descriptor,
    titles: &Vec<String>,
    field: &str,
    key_field: &str,
    values: &Option<Vec<(String, String)>>,
    out: &mut Vec<Check>,
)
    ensures
        check_views(final(out)@) == check_views(old(out)@) + map_liquid_checks(
            *p,
            *d,
            views(titles@),
            field@,
            key_field@,
            opt_seq(*values),
        ),
{
    let ghost start = check_views(out@);
    match values {
        Some(v) => {
            let mut i: usize = 0;
            while i < v.len()
                invariant
                    i <= v.len(),
                    check_views(out@) == start + map_liquid_checks(
                        *p,
                        *d,
                        views(titles@),
                        field@,
                        key_field@,
                        v@.take(i as int),
                    ),
                decreases v.len() - i,
            {
                push_liquid(out, p, d, titles, v[i].0.as_str(), key_field);
                let f = concat3(field, ".", v[i].0.as_str());
                push_liquid(out, p, d, titles, v[i].1.as_str(), f.as_str());
                assert(v@.take(i + 1).drop_last() =~= v@.take(i as int));
                assert(check_views(out@) =~= start + map_liquid_checks(
                    *p,
                    *d,
                    views(titles@),
                    field@,
                    key_field@,
                    v@.take(i + 1),
                ));
                i += 1;
            }
            assert(v@.take(v.len() as int) =~= v@);
        },
        None => {
            assert(check_views(out@) =~= start + Seq::<CheckView>::empty());
        },
    }
}

fn opt_liquid_exec(
    p: &DiscoveryResult,
    d: &Descriptor,
    titles: &Vec<String>,
    o: &Option<String>,
    field: &str,
    out: &mut Vec<Check>,
)
    ensures
        check_views(final(out)@) == check_views(old(out)@) + opt_liquid(
            *p,
            *d,
            views(titles@),
            *o,
            field@,
        ),
{
    let ghost start = check_views(out@);
    match o {
        Some(s) => push_liquid(out, p, d, titles, s.as_str(), field),
        None => {},
    }
    assert(check_views(out@) =~= start + opt_liquid(*p, *d, views(titles@), *o, field@));
}

/// Every input of a test must be valid Liquid.
fn test_has_valid_liquid(
    p: &DiscoveryResult,
    d: &Descriptor,
    test: &TestSpec,
    titles: &Vec<String>,
    out: &mut Vec<Check>,
)
    ensures
        check_views(final(out)@) == check_views(old(out)@) + test_liquid_checks(
            *p,
            *d,
            views(titles@),
            *test,
        ),
{
    let ghost start = check_views(out@);
    push_liquid(out, p, d, titles, test.route.as_str(), "test.route");
    opt_liquid_exec(p, d, titles, &test.verb, "test.verb", out);
    opt_liquid_exec(p, d, titles, &test.body, "test.body", out);
    list_liquid(p, d, titles, "test.assert", &test.assert, out);
    validate_string_map_liquid(p, d, titles, "test.vars", "test.vars.key", &test.vars, out);
    validate_string_map_liquid(p, d, titles, "test.query", "test.query.key", &test.query, out);
    validate_string_map_liquid(
        p,
        d,
        titles,
        "test.headers",
        "test.headers.key",
        &test.headers,
        out,
    );
    validate_string_map_liquid(p, d, titles, "test.let", "test.let.key", &test.lets, out);
    assert(check_views(out@) =~= start + test_liquid_checks(*p, *d, views(titles@), *test));
}

/// A CEL source is checked unless it holds Liquid markup (it is only known once rendered).
fn validate_cel_expression(
    p: &DiscoveryResult,
    d: &Descriptor,
    titles: &Vec<String>,
    field: &str,
    expression: &str,
    out: &mut Vec<Check>,
)
    ensures
        check_views(final(out)@) == check_views(old(out)@) + cel_check(
            *p,
            *d,
            views(titles@),
            expression@,
            field@,
        ),
{
    let ghost start = check_views(out@);
    if contains_liquid_markup(expression) {
        assert(check_views(out@) =~= start + Seq::<CheckView>::empty());
        return ;
    }
    let path = descriptor_path(p, d);
    let ctx = descriptor_field_context(d, titles, field);
    push_check(out, CheckKind::Cel, CEL_INVALID, copy_str(expression), path, ctx);
    assert(check_views(out@) =~= start + cel_check(*p, *d, views(titles@), expression@, field@));
}

/// Assertions, `let` bindings and saved variables must compile as CEL.
fn test_has_valid_cel(
    p: &DiscoveryResult,
    d: &Descriptor,
    test: &TestSpec,
    titles: &Vec<String>,
    out: &mut Vec<Check>,
)
    ensures
        check_views(final(out)@) == check_views(old(out)@) + test_cel_checks(
            *p,
            *d,
            views(titles@),
            *test,
        ),
{
    let ghost start = check_views(out@);
    match &test.assert {
        Some(v) => {
            let mut i: usize = 0;
            while i < v.len()
                invariant
                    i <= v.len(),
                    check_views(out@) == start + list_cel_checks(
                        *p,
                        *d,
                        views(titles@),
                        "test.assert"@,
                        v@.take(i as int),
                    ),
                decreases v.len() - i,
            {
                let f = indexed_field("test.assert", i);
                validate_cel_expression(p, d, titles, f.as_str(), v[i].as_str(), out);
                assert(v@.take(i + 1).drop_last() =~= v@.take(i as int));
                i += 1;
            }
            assert(v@.take(v.len() as int) =~= v@);
        },
        None => {
            assert(check_views(out@) =~= start + Seq::<CheckView>::empty());
        },
    }
    let ghost s1 = check_views(out@);
    map_cel(p, d, titles, "test.let", &test.lets, out);
    map_cel(p, d, titles, "test.vars", &test.vars, out);
    assert(check_views(out@) =~= start + test_cel_checks(*p, *d, views(titles@), *test));
}

fn map_cel(
    p: &DiscoveryResult,
    d: &Descriptor,
    titles: &Vec<String>,
    field: &str,
    values: &Option<Vec<(String, String)>>,
    out: &mut Vec<Check>,
)
    ensures
        check_views(final(out)@) == check_views(old(out)@) + map_cel_checks(
            *p,
            *d,
            views(titles@),
            field@,
            opt_seq(*values),
        ),
{
    let ghost start = check_views(out@);
    match values {
        Some(v) => {
            let mut i: usize = 0;
            while i < v.len()
                invariant
                    i <= v.len(),
                    check_views(out@) == start + map_cel_checks(
                        *p,
                        *d,
                        views(titles@),
                        field@,
                        v@.take(i as int),
                    ),
                decreases v.len() - i,
            {
                let f = concat3(field, ".", v[i].0.as_str());
                validate_cel_expression(p, d, titles, f.as_str(), v[i].1.as_str(), out);
                assert(v@.take(i + 1).drop_last() =~= v@.take(i as int));
                i += 1;
            }
            assert(v@.take(v.len() as int) =~= v@);
        },
        None => {
            assert(check_views(out@) =~= start + Seq::<CheckView>::empty());
        },
    }
}

/// The checks of one descriptor, its descendants excluded.
fn descriptor_checks(p: &DiscoveryResult, d: &Descriptor, titles: &Vec<String>, out: &mut Vec<Check>)
    ensures
        check_views(final(out)@) == check_views(old(out)@) + own_checks(*p, *d, views(titles@)),
{
    let ghost start = check_views(out@);
    let ghost t = views(titles@);
    descriptor_empty(p, d, titles, out);
    descriptor_has_valid_liquid(p, d, titles, out);
    let ghost s1 = check_views(out@);
    assert(s1 == start + empty_descriptor_checks(*p, *d, t) + descriptor_liquid_checks(*p, *d, t));
    let ghost opt_part: Seq<CheckView> = if d.options is Some {
        options_checks(*p, d.options->0, path_of(*p, *d), field_context(*d, t, "options"@))
    } else {
        Seq::empty()
    };
    match &d.options {
        Some(o) => {
            let path = descriptor_path(p, d);
            let ctx = descriptor_field_context(d, titles, "options");
            options_checks_exec(p, o, &path, &ctx, out);
        },
        None => {
            assert(check_views(out@) =~= s1 + opt_part);
        },
    }
    let ghost s2 = check_views(out@);
    assert(s2 == s1 + opt_part);
    test_checks_exec(p, d, titles, out);
    assert(check_views(out@) =~= start + own_checks(*p, *d, t));
}

fn test_checks_exec(p: &DiscoveryResult, d: &Descriptor, titles: &Vec<String>, out: &mut Vec<Check>)
    ensures
        check_views(final(out)@) == check_views(old(out)@) + test_checks(*p, *d, views(titles@)),
{
    let ghost t = views(titles@);
    let ghost s2 = check_views(out@);
    match &d.test {
        Some(test) => {
            test_empty_route(p, d, test, titles, out);
            test_unsupported_verb(p, d, test, titles, out);
            let ghost s3 = check_views(out@);
            assert(s3 =~= s2 + route_and_verb_checks(*p, *d, t, *test));
            test_has_valid_liquid(p, d, test, titles, out);
            test_has_valid_cel(p, d, test, titles, out);
            assert(check_views(out@) =~= s2 + test_checks(*p, *d, t));
        },
        None => {
            assert(check_views(out@) =~= s2 + test_checks(*p, *d, t));
        },
    }
}

/// The checks of a descriptor and its descendants, depth first in source order.
fn walk_descriptor(p: &DiscoveryResult, d: &Descriptor, titles: &Vec<String>, out: &mut Vec<Check>)
    ensures
        check_views(final(out)@) == check_views(old(out)@) + tree_checks(*p, *d, views(titles@)),
    decreases d,
{
    let ghost start = check_views(out@);
    descriptor_checks(p, d, titles, out);
    let ghost s1 = check_views(out@);
    match &d.describe {
        Some(v) => {
            let inner = child_titles(d, titles);
            let mut i: usize = 0;
            while i < v.len()
                invariant
                    i <= v.len(),
                    d.describe == Some(*v),
                    views(inner@) == title_parts(*d, views(titles@)),
                    check_views(out@) == s1 + forest_checks(*p, v@.take(i as int), views(inner@)),
                decreases v.len() - i,
            {
                proof {
                    assert(decreases_to!(*d => d.describe));
                    assert(decreases_to!(d.describe => (d.describe)->0));
                    assert(decreases_to!(*v => v@));
                    assert(decreases_to!(v@ => v@[i as int]));
                }
                walk_descriptor(p, &v[i], &inner, out);
                assert(v@.take(i + 1).drop_last() =~= v@.take(i as int));
                i += 1;
            }
            assert(v@.take(v.len() as int) =~= v@);
        },
        None => {},
    }
    assert(check_views(out@) =~= start + tree_checks(*p, *d, views(titles@)));
}

fn tree_has_tests(d: &Descriptor) -> (r: bool)
    ensures
        r == tree_has_test(*d),
    decreases d,
{
    if d.test.is_some() {
        return true;
    }
    match &d.describe {
        Some(v) => {
            let mut i: usize = 0;
            while i < v.len()
                invariant
                    i <= v.len(),
                    d.describe == Some(*v),
                    !forest_has_test(v@.take(i as int)),
                decreases v.len() - i,
            {
                proof {
                    assert(decreases_to!(*d => d.describe));
                    assert(decreases_to!(d.describe => (d.describe)->0));
                    assert(decreases_to!(*v => v@));
                    assert(decreases_to!(v@ => v@[i as int]));
                    assert(v@.take(i + 1).drop_last() =~= v@.take(i as int));
                }
                if tree_has_tests(&v[i]) {
                    assert(forest_has_test(v@.take(i + 1)));
                    proof {
                        lemma_forest_prefix(v@, i + 1);
                    }
                    return true;
                }
                i += 1;
            }
            assert(v@.take(v.len() as int) =~= v@);
            false
        },
        None => false,
    }
}

proof fn lemma_forest_prefix(ds: Seq<Descriptor>, k: int)
    requires
        0 <= k <= ds.len(),
        forest_has_test(ds.take(k)),
    ensures
        forest_has_test(ds),
    decreases ds.len(),
{
    if k < ds.len() {
        assert(ds.drop_last().take(k) =~= ds.take(k));
        lemma_forest_prefix(ds.drop_last(), k);
    } else {
        assert(ds.take(k) =~= ds);
    }
}

proof fn lemma_dirs_prefix(ds: Seq<DirectoryNode>, k: int)
    requires
        0 <= k <= ds.len(),
        dirs_have_test(ds.take(k)),
    ensures
        dirs_have_test(ds),
    decreases ds.len(),
{
    if k < ds.len() {
        assert(ds.drop_last().take(k) =~= ds.take(k));
        lemma_dirs_prefix(ds.drop_last(), k);
    } else {
        assert(ds.take(k) =~= ds);
    }
}

fn dir_has_tests(dir: &DirectoryNode) -> (r: bool)
    ensures
        r == dir_has_test(*dir),
    decreases dir,
{
    let mut i: usize = 0;
    while i < dir.files.len()
        invariant
            i <= dir.files.len(),
            !forest_has_test(dir.files@.take(i as int)),
        decreases dir.files.len() - i,
    {
        assert(dir.files@.take(i + 1).drop_last() =~= dir.files@.take(i as int));
        if tree_has_tests(&dir.files[i]) {
            assert(forest_has_test(dir.files@.take(i + 1)));
            proof {
                lemma_forest_prefix(dir.files@, i + 1);
            }
            return true;
        }
        i += 1;
    }
    assert(dir.files@.take(dir.files.len() as int) =~= dir.files@);
    let mut j: usize = 0;
    while j < dir.children.len()
        invariant
            j <= dir.children.len(),
            !dirs_have_test(dir.children@.take(j as int)),
        decreases dir.children.len() - j,
    {
        proof {
            assert(decreases_to!(*dir => dir.children));
            assert(decreases_to!(dir.children => dir.children@));
            assert(decreases_to!(dir.children@ => dir.children@[j as int]));
        }
        assert(dir.children@.take(j + 1).drop_last() =~= dir.children@.take(j as int));
        if dir_has_tests(&dir.children[j]) {
            assert(dirs_have_test(dir.children@.take(j + 1)));
            proof {
                lemma_dirs_prefix(dir.children@, j + 1);
            }
            return true;
        }
        j += 1;
    }
    assert(dir.children@.take(dir.children.len() as int) =~= dir.children@);
    false
}

/// A project without any runnable test is reported.
fn project_no_tests(p: &DiscoveryResult, out: &mut Vec<Check>)
    ensures
        check_views(final(out)@) == check_views(old(out)@) + no_tests_checks(*p),
{
    let ghost start = check_views(out@);
    if !dir_has_tests(&p.directory) {
        push_check(
            out,
            CheckKind::Fixed,
            PROJECT_NO_TESTS,
            copy_str("No selected runnable tests were discovered"),
            Some(p.directory.dir.clone()),
            None,
        );
    } else {
        assert(check_views(out@) =~= start + Seq::<CheckView>::empty());
    }
}

/// The checks of a directory: its own configs' options, its spec files, its subdirectories.
fn walk_directory(p: &DiscoveryResult, dir: &DirectoryNode, inherited: usize, out: &mut Vec<Check>)
    ensures
        check_views(final(out)@) == check_views(old(out)@) + dir_checks(*p, *dir, inherited as nat),
    decreases dir,
{
    let ghost start = check_views(out@);
    let ghost local = local_options(*dir, inherited as nat);
    if inherited <= dir.options.len() {
        let path = Some(dir.dir.clone());
        let ctx = Some(copy_str("Directory config"));
        let mut i: usize = inherited;
        while i < dir.options.len()
            invariant
                inherited <= i <= dir.options.len(),
                local == dir.options@.skip(inherited as int),
                opt_view(path) == Some(dir.dir@),
                opt_view(ctx) == Some("Directory config"@),
                check_views(out@) == start + local_options_checks(
                    *p,
                    *dir,
                    local.take(i - inherited),
                ),
            decreases dir.options.len() - i,
        {
            options_checks_exec(p, &dir.options[i], &path, &ctx, out);
            assert(local.take(i + 1 - inherited).drop_last() =~= local.take(i - inherited));
            assert(local.take(i + 1 - inherited).last() == dir.options@[i as int]);
            i += 1;
        }
        assert(local.take(dir.options.len() - inherited) =~= local);
    } else {
        assert(local_options_checks(*p, *dir, local) =~= Seq::<CheckView>::empty());
    }
    let ghost s1 = check_views(out@);
    let no_titles: Vec<String> = Vec::new();
    assert(views(no_titles@) =~= Seq::<Seq<char>>::empty());
    let mut i: usize = 0;
    while i < dir.files.len()
        invariant
            i <= dir.files.len(),
            views(no_titles@) == Seq::<Seq<char>>::empty(),
            check_views(out@) == s1 + forest_checks(*p, dir.files@.take(i as int), Seq::empty()),
        decreases dir.files.len() - i,
    {
        walk_descriptor(p, &dir.files[i], &no_titles, out);
        assert(dir.files@.take(i + 1).drop_last() =~= dir.files@.take(i as int));
        i += 1;
    }
    assert(dir.files@.take(dir.files.len() as int) =~= dir.files@);
    let ghost s2 = check_views(out@);
    let mut j: usize = 0;
    while j < dir.children.len()
        invariant
            j <= dir.children.len(),
            check_views(out@) == s2 + subdirs_checks(
                *p,
                dir.children@.take(j as int),
                dir.options@.len() as nat,
            ),
        decreases dir.children.len() - j,
    {
        proof {
            assert(decreases_to!(*dir => dir.children));
            assert(decreases_to!(dir.children => dir.children@));
            assert(decreases_to!(dir.children@ => dir.children@[j as int]));
        }
        walk_directory(p, &dir.children[j], dir.options.len(), out);
        assert(dir.children@.take(j + 1).drop_last() =~= dir.children@.take(j as int));
        j += 1;
    }
    assert(dir.children@.take(dir.children.len() as int) =~= dir.children@);
    assert(check_views(out@) =~= start + dir_checks(*p, *dir, inherited as nat));
}

fn report_field_exec(
    p: &DiscoveryResult,
    name: &str,
    field: &str,
    source: &Option<String>,
    out: &mut Vec<Check>,
)
    ensures
        check_views(final(out)@) == check_views(old(out)@) + report_field_check(
            *p,
            name@,
            field@,
            *source,
        ),
{
    let ghost start = check_views(out@);
    match source {
        Some(src) => {
            let mut ctx = concat3("Report: ", name, " | ");
            ctx.append(field);
            push_check(
                out,
                CheckKind::Liquid,
                REPORT_INVALID_LIQUID,
                src.clone(),
                Some(p.directory.dir.clone()),
                Some(ctx),
            );
        },
        None => {
            assert(check_views(out@) =~= start + Seq::<CheckView>::empty());
        },
    }
}

fn template_checks_exec(p: &DiscoveryResult, name: &str, t: &ReportTemplate, out: &mut Vec<Check>)
    ensures
        check_views(final(out)@) == check_views(old(out)@) + template_checks(*p, name@, *t),
{
    let ghost s0 = check_views(out@);
    report_field_exec(p, name, "test_template", &t.test_template, out);
    report_field_exec(p, name, "section_template", &t.section_template, out);
    report_field_exec(p, name, "error_template", &t.error_template, out);
    report_field_exec(p, name, "debug_template", &t.debug_template, out);
    report_field_exec(p, name, "title_template", &t.title_template, out);
    report_field_exec(p, name, "summary_template", &t.summary_template, out);
    match &t.file {
        Some(f) => report_field_exec(p, name, "file.file_name", &f.file_name, out),
        None => {},
    }
    assert(check_views(out@) =~= s0 + template_checks(*p, name@, *t));
}

/// Every template of every report, and each report's file name, must be valid Liquid.
fn report_templates_have_valid_liquid(p: &DiscoveryResult, out: &mut Vec<Check>)
    ensures
        check_views(final(out)@) == check_views(old(out)@) + templates_checks(*p, p.templates@),
{
    let ghost start = check_views(out@);
    let mut i: usize = 0;
    while i < p.templates.len()
        invariant
            i <= p.templates.len(),
            check_views(out@) == start + templates_checks(*p, p.templates@.take(i as int)),
        decreases p.templates.len() - i,
    {
        template_checks_exec(p, p.templates[i].0.as_str(), &p.templates[i].1, out);
        assert(p.templates@.take(i + 1).drop_last() =~= p.templates@.take(i as int));
        i += 1;
    }
    assert(p.templates@.take(p.templates.len() as int) =~= p.templates@);
}

/// All checks of a project, in the order the rules run.
pub fn collect_checks(p: &DiscoveryResult) -> (r: Vec<Check>)
    ensures
        check_views(r@) == project_checks(*p),
{
    let mut out: Vec<Check> = Vec::new();
    assert(check_views(out@) =~= Seq::<CheckView>::empty());
    project_no_tests(p, &mut out);
    walk_directory(p, &p.directory, 0, &mut out);
    report_templates_have_valid_liquid(p, &mut out);
    assert(check_views(out@) =~= project_checks(*p));
    out
}

/// The CEL sources a project holds, in check order: the caller compiles each.
pub fn cel_sources(p: &DiscoveryResult) -> (r: Vec<String>)
    ensures
        views(r@) == cel_texts(project_checks(*p)),
{
    let checks = collect_checks(p);
    let ghost cs = check_views(checks@);
    let mut r: Vec<String> = Vec::new();
    let mut i: usize = 0;
    while i < checks.len()
        invariant
            i <= checks.len(),
            cs == check_views(checks@),
            views(r@) == cel_texts(cs.take(i as int)),
        decreases checks.len() - i,
    {
        assert(cs.take(i + 1).drop_last() =~= cs.take(i as int));
        assert(cs.take(i + 1).last() == checks@[i as int]@);
        if checks[i].kind == CheckKind::Cel {
            let ghost before = r@;
            r.push(checks[i].text.clone());
            assert(views(r@) =~= views(before).push(checks@[i as int].text@));
        }
        i += 1;
    }
    assert(cs.take(checks.len() as int) =~= cs);
    r
}

/// The diagnostics checks give under the given verdicts: `liquid` holds one verdict per
/// check (read for Liquid checks only), `cel` one per CEL check, in order.
pub fn diagnostics_for(
    checks: &Vec<Check>,
    liquid: &Vec<Option<String>>,
    cel: &Vec<Option<String>>,
) -> (r: Vec<ValidationDiagnostic>)
    requires
        liquid.len() == checks.len(),
    ensures
        diag_views(r@) == assemble(
            check_views(checks@),
            opt_views_of(liquid@),
            opt_views_of(cel@),
        ),
{
    let ghost cs = check_views(checks@);
    let ghost lv = opt_views_of(liquid@);
    let ghost cv = opt_views_of(cel@);
    let mut r: Vec<ValidationDiagnostic> = Vec::new();
    let mut i: usize = 0;
    let mut ci: usize = 0;
    assert(cs.skip(0) =~= cs && lv.skip(0) =~= lv && cv.skip(0) =~= cv);
    assert(diag_views(r@) =~= Seq::<DiagnosticView>::empty());
    while i < checks.len()
        invariant
            i <= checks.len() == liquid.len(),
            ci <= cel.len(),
            cs == check_views(checks@),
            lv == opt_views_of(liquid@),
            cv == opt_views_of(cel@),
            assemble(cs, lv, cv) == diag_views(r@) + assemble(
                cs.skip(i as int),
                lv.skip(i as int),
                cv.skip(ci as int),
            ),
        decreases checks.len() - i,
    {
        let c = &checks[i];
        let ghost before = diag_views(r@);
        let ghost rest = assemble(cs.skip(i as int), lv.skip(i as int), cv.skip(ci as int));
        assert(cs.skip(i as int)[0] == c@);
        assert(lv.skip(i as int)[0] == opt_view(liquid@[i as int]));
        assert(cs.skip(i as int).drop_first() =~= cs.skip(i + 1));
        assert(lv.skip(i as int).drop_first() =~= lv.skip(i + 1));
        let mut next_ci = ci;
        match c.kind {
            CheckKind::Fixed => {
                let d = ValidationDiagnostic::error(
                    c.code,
                    crate::strings::copy_opt(&c.path),
                    crate::strings::copy_opt(&c.context),
                    c.text.clone(),
                );
                r.push(d);
            },
            CheckKind::Liquid => {
                match &liquid[i] {
                    Some(e) => {
                        let d = ValidationDiagnostic::error(
                            c.code,
                            crate::strings::copy_opt(&c.path),
                            crate::strings::copy_opt(&c.context),
                            concat("Invalid Liquid syntax: ", e.as_str()),
                        );
                        r.push(d);
                    },
                    None => {},
                }
            },
            CheckKind::Cel => {
                if ci < cel.len() {
                    assert(cv.skip(ci as int)[0] == opt_view(cel@[ci as int]));
                    assert(cv.skip(ci as int).drop_first() =~= cv.skip(ci + 1));
                    match &cel[ci] {
                        Some(e) => {
                            let d = ValidationDiagnostic::error(
                                CEL_INVALID,
                                crate::strings::copy_opt(&c.path),
                                crate::strings::copy_opt(&c.context),
                                concat("Invalid CEL expression: ", e.as_str()),
                            );
                            r.push(d);
                        },
                        None => {},
                    }
                    next_ci = ci + 1;
                }
            },
        }
        assert(diag_views(r@) + assemble(cs.skip(i + 1), lv.skip(i + 1), cv.skip(next_ci as int))
            =~= before + rest);
        ci = next_ci;
        i += 1;
    }
    assert(cs.skip(i as int) =~= Seq::<CheckView>::empty());
    assert(diag_views(r@) + Seq::<DiagnosticView>::empty() =~= diag_views(r@));
    r
}

proof fn lemma_dirs_count_prefix(ds: Seq<DirectoryNode>, k: int)
    requires
        0 <= k <= ds.len(),
    ensures
        dirs_file_count(ds.take(k)) <= dirs_file_count(ds),
    decreases ds.len(),
{
    if k < ds.len() {
        assert(ds.drop_last().take(k) =~= ds.take(k));
        lemma_dirs_count_prefix(ds.drop_last(), k);
    } else {
        assert(ds.take(k) =~= ds);
    }
}

/// How many spec files a directory and its subdirectories hold.
fn count_files(dir: &DirectoryNode) -> (r: usize)
    requires
        file_count(*dir) <= usize::MAX,
    ensures
        r == file_count(*dir),
    decreases dir,
{
    let mut n: usize = dir.files.len();
    let mut j: usize = 0;
    while j < dir.children.len()
        invariant
            j <= dir.children.len(),
            file_count(*dir) <= usize::MAX,
            file_count(*dir) == dir.files@.len() + dirs_file_count(dir.children@),
            n == dir.files@.len() + dirs_file_count(dir.children@.take(j as int)),
        decreases dir.children.len() - j,
    {
        proof {
            assert(decreases_to!(*dir => dir.children));
            assert(decreases_to!(dir.children => dir.children@));
            assert(decreases_to!(dir.children@ => dir.children@[j as int]));
            assert(dir.children@.take(j + 1).drop_last() =~= dir.children@.take(j as int));
            lemma_dirs_count_prefix(dir.children@, j + 1);
        }
        let c = count_files(&dir.children[j]);
        n = n + c;
        j += 1;
    }
    assert(dir.children@.take(dir.children.len() as int) =~= dir.children@);
    n
}

/// Parses `source` with the engine: `None` if it is valid Liquid, else the parse error.
/// Plain text (no `{{` or `{%`) is valid.
pub fn validate_liquid(liquid: &LiquidEngine, source: &str) -> (r: Option<String>)
    ensures
        plain_text(source@) ==> r is None,
        unclosed_expression(source@) ==> r is Some,
{
    match liquid.validate_syntax(source) {
        Ok(()) => None,
        Err(e) => Some(e),
    }
}

/// Liquid verdicts that fit a project's checks: one per check; none for a check of
/// another kind or whose text is plain (no `{{` or `{%`); a parse error for a text that
/// opens an expression it never closes. Other verdicts are the engine's parse outcome,
/// which its configuration decides.
pub open spec fn verdicts_fit(checks: Seq<CheckView>, lv: Seq<Option<Seq<char>>>) -> bool {
    &&& lv.len() == checks.len()
    &&& forall|i: int|
        0 <= i < lv.len() ==> {
            &&& (checks[i].kind != CheckKind::Liquid || plain_text(checks[i].text)) ==> #[trigger] lv[i] is None
            &&& (checks[i].kind == CheckKind::Liquid && unclosed_expression(checks[i].text)) ==> lv[i] is Some
        }
}

/// The report of a project given its Liquid verdicts `lv` and CEL compile errors `cel`:
/// the diagnostics of its checks with those verdicts, sorted by path, context, code and
/// message, and the count of its spec files.
pub open spec fn report_from(
    project: DiscoveryResult,
    lv: Seq<Option<Seq<char>>>,
    cel: Seq<Option<String>>,
    r: ValidationReport,
) -> bool {
    &&& is_sorted(diag_views(r.diagnostics@))
    &&& diag_views(r.diagnostics@).to_multiset() == assemble(
        project_checks(project),
        lv,
        opt_views_of(cel),
    ).to_multiset()
    &&& r.checked_specs == file_count(project.directory)
}

/// What validating a project gives: its report for Liquid verdicts that fit its checks.
pub open spec fn validated(project: DiscoveryResult, cel_errors: Seq<Option<String>>, r: ValidationReport) -> bool {
    exists|lv: Seq<Option<Seq<char>>>|
        #[trigger] verdicts_fit(project_checks(project), lv) && report_from(project, lv, cel_errors, r)
}

/// Parses the text of every Liquid check of a project with `liquid`, in check order:
/// `None` where it parses (and for checks of other kinds), else the parse error.
pub fn liquid_verdicts(project: &DiscoveryResult, liquid: &LiquidEngine) -> (r: Vec<Option<String>>)
    ensures
        verdicts_fit(project_checks(*project), opt_views_of(r@)),
{
    let checks = collect_checks(project);
    let mut verdicts: Vec<Option<String>> = Vec::new();
    let mut i: usize = 0;
    while i < checks.len()
        invariant
            i <= checks.len(),
            verdicts.len() == i,
            forall|j: int|
                0 <= j < i ==> {
                    &&& (checks@[j]@.kind != CheckKind::Liquid || plain_text(checks@[j]@.text))
                        ==> #[trigger] verdicts@[j] is None
                    &&& (checks@[j]@.kind == CheckKind::Liquid && unclosed_expression(checks@[j]@.text))
                        ==> verdicts@[j] is Some
                },
        decreases checks.len() - i,
    {
        let v = if checks[i].kind == CheckKind::Liquid {
            validate_liquid(liquid, checks[i].text.as_str())
        } else {
            None
        };
        verdicts.push(v);
        i += 1;
    }
    let ghost lv = opt_views_of(verdicts@);
    assert forall|i: int| 0 <= i < lv.len() implies {
        &&& (project_checks(*project)[i].kind != CheckKind::Liquid || plain_text(project_checks(*project)[i].text))
            ==> #[trigger] lv[i] is None
        &&& (project_checks(*project)[i].kind == CheckKind::Liquid && unclosed_expression(
            project_checks(*project)[i].text,
        )) ==> lv[i] is Some
    } by {
        assert(project_checks(*project)[i] == checks@[i]@);
        assert(verdicts@[i] == verdicts@[i]);
    }
    verdicts
}

/// The report of a project given the verdict of each of its checks' Liquid parse
/// (`liquid_verdicts`, in check order) and the compile outcome of each of
/// `cel_sources(project)` (a missing one counts as compiled).
pub fn report_with(
    project: &DiscoveryResult,
    liquid_verdicts: &Vec<Option<String>>,
    cel_errors: &Vec<Option<String>>,
) -> (r: ValidationReport)
    requires
        file_count(project.directory) <= usize::MAX,
        liquid_verdicts@.len() == project_checks(*project).len(),
    ensures
        report_from(*project, opt_views_of(liquid_verdicts@), cel_errors@, r),
{
    let checks = collect_checks(project);
    let diagnostics = diagnostics_for(&checks, liquid_verdicts, cel_errors);
    let sorted = sort_diagnostics(diagnostics);
    let checked_specs = count_files(&project.directory);
    ValidationReport { diagnostics: sorted, checked_specs }
}

/// Validates a project. Liquid sources are parsed with `liquid`; CEL sources are not
/// compiled here: `cel_errors` holds the compile error (or `None`) of each of
/// `cel_sources(project)`, in order (a missing one counts as compiled).
/// The diagnostics come sorted by path, context, code and message: those of the checks,
/// with each Liquid check's verdict the engine's parse of its own text (plain text
/// always parses; an unclosed expression never does).
pub fn run(project: &DiscoveryResult, liquid: &LiquidEngine, cel_errors: &Vec<Option<String>>) -> (r:
    ValidationReport)
    requires
        file_count(project.directory) <= usize::MAX,
    ensures
        validated(*project, cel_errors@, r),
{
    let verdicts = liquid_verdicts(project, liquid);
    let r = report_with(project, &verdicts, cel_errors);
    assert(verdicts_fit(project_checks(*project), opt_views_of(verdicts@)));
    r
}

} // verus!
