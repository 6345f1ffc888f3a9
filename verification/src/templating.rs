//! Liquid templating: the values templates see, and the engine that renders them.
use vstd::prelude::*;

use crate::strings::contains_seq;


verus! {

/// `liquid::Parser`, carried through opaque.
#[verifier::external_type_specification]
#[verifier::external_body]
pub struct ExLiquidParser(liquid::Parser);

/// `liquid::model::Value`, carried through opaque.
#[verifier::external_type_specification]
#[verifier::external_body]
pub struct ExLiquidValue(liquid::model::Value);

/// A value handed to a template.
pub enum TemplateValue {
    Nil,
    Bool(bool),
    Int(i64),
    Str(String),
    Array(Vec<TemplateValue>),
    Object(Vec<(String, TemplateValue)>),
}

/// The named values a template is rendered with.
pub type Globals = Vec<(String, TemplateValue)>;

/// The mathematical form of a template value.
pub enum TemplateValueView {
    Nil,
    Bool(bool),
    Int(i64),
    Str(Seq<char>),
    Array(Seq<TemplateValueView>),
    Object(Seq<(Seq<char>, TemplateValueView)>),
}

pub open spec fn tv(v: TemplateValue) -> TemplateValueView
    decreases v,
{
    match v {
        TemplateValue::Nil => TemplateValueView::Nil,
        TemplateValue::Bool(b) => TemplateValueView::Bool(b),
        TemplateValue::Int(i) => TemplateValueView::Int(i),
        TemplateValue::Str(s) => TemplateValueView::Str(s@),
        TemplateValue::Array(a) => TemplateValueView::Array(tv_seq(a@)),
        TemplateValue::Object(o) => TemplateValueView::Object(tv_pairs(o@)),
    }
}

pub open spec fn tv_seq(s: Seq<TemplateValue>) -> Seq<TemplateValueView>
    decreases s,
{
    if s.len() == 0 {
        Seq::empty()
    } else {
        tv_seq(s.drop_last()).push(tv(s.last()))
    }
}

pub open spec fn tv_pairs(s: Seq<(String, TemplateValue)>) -> Seq<(Seq<char>, TemplateValueView)>
    decreases s,
{
    if s.len() == 0 {
        Seq::empty()
    } else {
        tv_pairs(s.drop_last()).push((s.last().0@, tv(s.last().1)))
    }
}

pub proof fn lemma_tv_seq_push(s: Seq<TemplateValue>, x: TemplateValue)
    ensures
        tv_seq(s.push(x)) == tv_seq(s).push(tv(x)),
{
    assert(s.push(x).drop_last() =~= s);
}

pub proof fn lemma_tv_pairs_push(s: Seq<(String, TemplateValue)>, x: (String, TemplateValue))
    ensures
        tv_pairs(s.push(x)) == tv_pairs(s).push((x.0@, tv(x.1))),
{
    assert(s.push(x).drop_last() =~= s);
}

/// Appends a named value to globals.
pub fn put(g: &mut Globals, name: &str, v: TemplateValue)
    ensures
        tv_pairs(final(g)@) == tv_pairs(old(g)@).push((name@, tv(v))),
{
    let k = crate::strings::copy_str(name);
    proof {
        lemma_tv_pairs_push(g@, (k, v));
    }
    g.push((k, v));
}

/// A 64-bit count as a template value: an integer (or its decimal text beyond `i64`).
pub open spec fn u64_value(n: u64) -> TemplateValueView {
    if n <= i64::MAX {
        TemplateValueView::Int(n as i64)
    } else {
        TemplateValueView::Str(crate::strings::decimal(n as nat))
    }
}

pub fn u64_value_of(n: u64) -> (r: TemplateValue)
    ensures
        tv(r) == u64_value(n),
{
    if n <= 0x7fff_ffff_ffff_ffffu64 {
        TemplateValue::Int(n as i64)
    } else {
        TemplateValue::Str(crate::strings::decimal_string(n))
    }
}

/// A count as a template value: an integer (or its decimal text beyond `i64`).
pub open spec fn count_value(n: usize) -> TemplateValueView {
    if n <= i64::MAX {
        TemplateValueView::Int(n as i64)
    } else {
        TemplateValueView::Str(crate::strings::decimal(n as nat))
    }
}

pub fn count_value_of(n: usize) -> (r: TemplateValue)
    ensures
        tv(r) == count_value(n),
{
    if (n as u64) <= 0x7fff_ffff_ffff_ffffu64 {
        TemplateValue::Int(n as i64)
    } else {
        TemplateValue::Str(crate::strings::decimal_string(n as u64))
    }
}

/// `liquid::ParserBuilder::with_stdlib` and `build`: a parser with Liquid's standard
/// tags, blocks and filters. Nothing is stated of the parser, which is opaque here.
#[verifier::external_body]
fn stdlib_parser() -> liquid::Parser {
    liquid::ParserBuilder::with_stdlib().build().unwrap_or_default()
}

/// `liquid::model::Value::Nil`. Nothing is stated: the value is opaque here.
#[verifier::external_body]
fn liquid_nil() -> liquid::model::Value {
    liquid::model::Value::Nil
}

/// `liquid::model::Value::scalar` on a boolean. Nothing is stated: the value is opaque here.
#[verifier::external_body]
fn liquid_bool(b: bool) -> liquid::model::Value {
    liquid::model::Value::scalar(b)
}

/// `liquid::model::Value::scalar` on an integer. Nothing is stated: the value is opaque here.
#[verifier::external_body]
fn liquid_int(i: i64) -> liquid::model::Value {
    liquid::model::Value::scalar(i)
}

/// `liquid::model::Value::scalar` on a copy of a string. Nothing is stated: the value is
/// opaque here.
#[verifier::external_body]
fn liquid_str(s: &str) -> liquid::model::Value {
    liquid::model::Value::scalar(s.to_string())
}

/// `liquid::model::Value::Array` holding `items` in order. Nothing is stated: the value is
/// opaque here.
#[verifier::external_body]
fn liquid_array(items: Vec<liquid::model::Value>) -> liquid::model::Value {
    liquid::model::Value::Array(items)
}

/// `liquid::model::Value::Object` collected from `entries` (a later entry wins for a
/// repeated name). Nothing is stated: the value is opaque here.
#[verifier::external_body]
fn liquid_object(entries: Vec<(String, liquid::model::Value)>) -> liquid::model::Value {
    liquid::model::Value::Object(entries.into_iter().map(|(k, v)| (k.into(), v)).collect())
}

/// The Liquid value that stands for `v`, built one value for one value.
fn to_liquid(v: &TemplateValue) -> liquid::model::Value
    decreases v,
{
    match v {
        TemplateValue::Nil => liquid_nil(),
        TemplateValue::Bool(b) => liquid_bool(*b),
        TemplateValue::Int(i) => liquid_int(*i),
        TemplateValue::Str(s) => liquid_str(s.as_str()),
        TemplateValue::Array(a) => {
            let mut items: Vec<liquid::model::Value> = Vec::new();
            let mut i: usize = 0;
            while i < a.len()
                invariant
                    i <= a@.len(),
                    *v == TemplateValue::Array(*a),
                decreases a@.len() - i,
            {
                proof {
                    assert(decreases_to!(*v => (*v)->Array_0));
                    assert(decreases_to!(*a => a@));
                    assert(decreases_to!(a@ => a@[i as int]));
                }
                items.push(to_liquid(&a[i]));
                i += 1;
            }
            liquid_array(items)
        },
        TemplateValue::Object(o) => liquid_object(to_liquid_entries_of(v, o)),
    }
}

fn to_liquid_entries_of(v: &TemplateValue, o: &Vec<(String, TemplateValue)>) -> Vec<(String, liquid::model::Value)>
    requires
        *v == TemplateValue::Object(*o),
    decreases v, 0nat,
{
    let mut out: Vec<(String, liquid::model::Value)> = Vec::new();
    let mut i: usize = 0;
    while i < o.len()
        invariant
            i <= o@.len(),
            *v == TemplateValue::Object(*o),
        decreases o@.len() - i,
    {
        proof {
            assert(decreases_to!(*v => (*v)->Object_0));
            assert(decreases_to!(*o => o@));
            assert(decreases_to!(o@ => o@[i as int]));
            assert(decreases_to!(o@[i as int] => o@[i as int].1));
        }
        let x = to_liquid(&o[i].1);
        out.push((o[i].0.clone(), x));
        i += 1;
    }
    out
}

/// The globals as named Liquid values, in order.
fn to_liquid_globals(g: &Globals) -> Vec<(String, liquid::model::Value)> {
    let mut out: Vec<(String, liquid::model::Value)> = Vec::new();
    let mut i: usize = 0;
    while i < g.len()
        invariant
            i <= g@.len(),
        decreases g@.len() - i,
    {
        out.push((g[i].0.clone(), to_liquid(&g[i].1)));
        i += 1;
    }
    out
}

/// Text with no `{{` and no `{%`: no Liquid expression or tag can start in it, so Liquid
/// reads all of it as raw text, which renders as it is.
pub open spec fn plain_text(s: Seq<char>) -> bool {
    forall|i: int| 0 <= i < s.len() - 1 && #[trigger] s[i] == '{' ==> s[i + 1] != '{' && s[i + 1] != '%'
}

/// Text that opens an expression (`{{`) but never closes one (no `}}`), and has no tag
/// (`{%`): Liquid finds no valid element where the `{{` starts, so parsing fails.
pub open spec fn unclosed_expression(s: Seq<char>) -> bool {
    contains_seq(s, "{{"@) && !contains_seq(s, "}}"@) && !contains_seq(s, "{%"@)
}

/// `liquid::Parser::parse` on `source`, then `liquid::Template::render` with the object
/// collected from `globals` (a later entry wins for a repeated name); an error of either
/// becomes its message. Plain text (no `{{` or `{%`) parses as raw text and renders as it is;
/// an unclosed expression fails to parse; beyond that nothing is stated, as the result
/// depends on the filters the parser was built with (some of which read the environment
/// or the clock).
#[verifier::external_body]
fn liquid_render(
    parser: &liquid::Parser,
    source: &str,
    globals: Vec<(String, liquid::model::Value)>,
) -> (r: Result<String, String>)
    ensures
        plain_text(source@) ==> (r is Ok && r->Ok_0@ == source@),
        unclosed_expression(source@) ==> r is Err,
{
    let object: liquid::Object = globals.into_iter().map(|(k, v)| (k.into(), v)).collect();
    parser.parse(source).and_then(|t| t.render(&object)).map_err(|e| e.to_string())
}

/// `liquid::Parser::parse` on `source`, keeping only whether it parsed and the error's
/// message. Plain text (no `{{` or `{%`) parses as raw text and an unclosed expression
/// does not parse; which other sources parse depends on the tags and filters the parser
/// was built with, which are not visible here.
#[verifier::external_body]
fn liquid_parse(parser: &liquid::Parser, source: &str) -> (r: Result<(), String>)
    ensures
        plain_text(source@) ==> r is Ok,
        unclosed_expression(source@) ==> r is Err,
{
    parser.parse(source).map(|_| ()).map_err(|e| e.to_string())
}

/// `liquid::Parser::clone` (derived): the clone shares the parser's configuration, as
/// each of its fields is an `Arc` (or an optional one) cloned.
#[verifier::external_body]
fn clone_parser(parser: &liquid::Parser) -> (r: liquid::Parser)
    ensures
        r == *parser,
{
    parser.clone()
}

/// A Liquid engine: a configured parser.
pub struct LiquidEngine {
    parser: liquid::Parser,
}

/// The rendering of a source if it succeeded, else the source itself.
pub open spec fn rendered_or_self(source: Seq<char>, outcome: Result<String, String>) -> Seq<char> {
    match outcome {
        Ok(s) => s@,
        Err(_) => source,
    }
}

/// The rendering if it succeeded, else `source` itself.
pub fn or_self(source: &str, outcome: Result<String, String>) -> (r: String)
    ensures
        r@ == rendered_or_self(source@, outcome),
{
    match outcome {
        Ok(s) => s,
        Err(_) => crate::strings::copy_str(source),
    }
}

impl LiquidEngine {
    /// The parser the engine renders with.
    pub closed spec fn parser_view(&self) -> liquid::Parser {
        self.parser
    }

    /// An engine over a parser built elsewhere (with whatever filters it registered).
    pub fn new(parser: liquid::Parser) -> (r: LiquidEngine)
        ensures
            r.parser_view() == parser,
    {
        LiquidEngine { parser }
    }

    /// An engine with Liquid's standard library only.
    pub fn with_stdlib() -> (r: LiquidEngine) {
        LiquidEngine { parser: stdlib_parser() }
    }

    /// Another engine over the same configuration.
    pub fn duplicate(&self) -> (r: LiquidEngine)
        ensures
            r.parser_view() == self.parser_view(),
    {
        LiquidEngine { parser: clone_parser(&self.parser) }
    }

    /// Renders `source` with `globals`; plain text renders as it is.
    pub fn render(&self, source: &str, globals: &Globals) -> (r: Result<String, String>)
        ensures
            plain_text(source@) ==> (r is Ok && r->Ok_0@ == source@),
            unclosed_expression(source@) ==> r is Err,
    {
        liquid_render(&self.parser, source, to_liquid_globals(globals))
    }

    /// Whether `source` is a well-formed template (and the parse error if not); plain text
    /// is.
    pub fn validate_syntax(&self, source: &str) -> (r: Result<(), String>)
        ensures
            plain_text(source@) ==> r is Ok,
            unclosed_expression(source@) ==> r is Err,
    {
        liquid_parse(&self.parser, source)
    }

    /// The rendering of `source`, or `source` itself where rendering fails; plain text
    /// stays as it is.
    pub fn render_string_or_self(&self, source: &str, globals: &Globals) -> (r: String)
        ensures
            plain_text(source@) ==> r@ == source@,
            unclosed_expression(source@) ==> r@ == source@,
    {
        let outcome = self.render(source, globals);
        or_self(source, outcome)
    }

    /// An optional text rendered (kept as written where rendering fails).
    pub fn render_option_string_or_self(&self, source: &Option<String>, globals: &Globals) -> (r: Option<
        String,
    >)
        ensures
            r is Some == source is Some,
    {
        match source {
            Some(s) => Some(self.render_string_or_self(s.as_str(), globals)),
            None => None,
        }
    }

    /// Optional texts rendered one by one, in order.
    pub fn render_vec_string_or_self(&self, source: &Option<Vec<String>>, globals: &Globals) -> (r: Option<
        Vec<String>,
    >)
        ensures
            r is Some == source is Some,
            r is Some ==> r->0@.len() == source->0@.len(),
    {
        match source {
            Some(values) => {
                let mut out: Vec<String> = Vec::new();
                let mut i: usize = 0;
                while i < values.len()
                    invariant
                        i <= values@.len(),
                        out@.len() == i,
                    decreases values@.len() - i,
                {
                    out.push(self.render_string_or_self(values[i].as_str(), globals));
                    i += 1;
                }
                Some(out)
            },
            None => None,
        }
    }

    /// Optional name-value pairs with names and values rendered, in order.
    pub fn render_hashmap_string_or_self(
        &self,
        source: &Option<Vec<(String, String)>>,
        globals: &Globals,
    ) -> (r: Option<Vec<(String, String)>>)
        ensures
            r is Some == source is Some,
            r is Some ==> r->0@.len() == source->0@.len(),
    {
        match source {
            Some(values) => {
                let mut out: Vec<(String, String)> = Vec::new();
                let mut i: usize = 0;
                while i < values.len()
                    invariant
                        i <= values@.len(),
                        out@.len() == i,
                    decreases values@.len() - i,
                {
                    let k = self.render_string_or_self(values[i].0.as_str(), globals);
                    let v = self.render_string_or_self(values[i].1.as_str(), globals);
                    out.push((k, v));
                    i += 1;
                }
                Some(out)
            },
            None => None,
        }
    }
}

} // verus!
