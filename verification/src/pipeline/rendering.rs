//! Rendering a descriptor's inputs with Liquid before a test runs: every string is
//! rendered with the run's values, and kept as written where rendering fails.
use vstd::prelude::*;

use crate::models::{
    copy_opt_strings,
    opt_pair_views,
    opt_view,
    opt_views,
    Descriptor,
    JsonValue,
    Profile,
    RunOptions,
    RunOptionsView,
    TestSpec,
};
use crate::pipeline::run_context::{jv, jv_pairs, jv_seq, JsonView};
use crate::templating::{Globals, LiquidEngine};

verus! {

/// Renders the values of pairs, keeping their names.
fn render_values(o: &Option<Vec<(String, String)>>, engine: &LiquidEngine, g: &Globals) -> (r: Option<
    Vec<(String, String)>,
>)
    ensures
        r is Some == o is Some,
        r is Some ==> r->0@.len() == o->0@.len() && forall|i: int|
            0 <= i < o->0@.len() ==> (#[trigger] r->0@[i]).0@ == o->0@[i].0@,
{
    match o {
        Some(v) => {
            let mut out: Vec<(String, String)> = Vec::new();
            let mut i: usize = 0;
            while i < v.len()
                invariant
                    i <= v@.len(),
                    out@.len() == i,
                    forall|j: int| 0 <= j < i ==> (#[trigger] out@[j]).0@ == v@[j].0@,
                decreases v@.len() - i,
            {
                let k = v[i].0.clone();
                let x = engine.render_string_or_self(v[i].1.as_str(), g);
                out.push((k, x));
                i += 1;
            }
            Some(out)
        },
        None => None,
    }
}

/// Options as an attempt uses them: `base_uri` rendered, the rest as they are.
pub fn render_options(o: &RunOptions, engine: &LiquidEngine, g: &Globals) -> (r: RunOptions)
    ensures
        r@ == (RunOptionsView { base_uri: r@.base_uri, ..o@ }),
        r.base_uri is Some == o.base_uri is Some,
{
    let mut r = o.duplicate();
    r.base_uri = engine.render_option_string_or_self(&o.base_uri, g);
    r
}

/// A test as it runs: route, verb, body, header names and values, query values,
/// assertions and variable expressions rendered; `let` expressions as written.
pub fn render_test(t: &TestSpec, engine: &LiquidEngine, g: &Globals) -> (r: TestSpec)
    ensures
        r.verb is Some == t.verb is Some,
        r.body is Some == t.body is Some,
        r.headers is Some == t.headers is Some,
        r.query is Some == t.query is Some,
        r.assert is Some == t.assert is Some,
        r.assert is Some ==> r.assert->0@.len() == t.assert->0@.len(),
        r.vars is Some == t.vars is Some,
        r.vars is Some ==> r.vars->0@.len() == t.vars->0@.len() && forall|i: int|
            0 <= i < t.vars->0@.len() ==> (#[trigger] r.vars->0@[i]).0@ == t.vars->0@[i].0@,
        opt_pair_views(r.lets) == opt_pair_views(t.lets),
{
    TestSpec {
        route: engine.render_string_or_self(t.route.as_str(), g),
        verb: engine.render_option_string_or_self(&t.verb, g),
        body: engine.render_option_string_or_self(&t.body, g),
        headers: engine.render_hashmap_string_or_self(&t.headers, g),
        query: render_values(&t.query, engine, g),
        assert: engine.render_vec_string_or_self(&t.assert, g),
        vars: render_values(&t.vars, engine, g),
        lets: crate::models::copy_opt_pairs(&t.lets),
    }
}

/// What an attempt keeps of a descriptor: its name and description rendered, its tags,
/// options and file as they are, the test it ran (if any); its children and profiles are
/// not kept, as they run as cases of their own.
pub fn render_descriptor(
    d: &Descriptor,
    test: Option<TestSpec>,
    engine: &LiquidEngine,
    g: &Globals,
) -> (r: Descriptor)
    ensures
        r.name is Some == d.name is Some,
        r.description is Some == d.description is Some,
        opt_views(r.tags) == opt_views(d.tags),
        r.test == test,
        r.describe is None,
        r.profiles is None,
        r.options is Some == d.options is Some,
        r.options is Some ==> r.options->0@ == d.options->0@,
        opt_view(r.file) == opt_view(d.file),
{
    Descriptor {
        name: engine.render_option_string_or_self(&d.name, g),
        description: engine.render_option_string_or_self(&d.description, g),
        tags: copy_opt_strings(&d.tags),
        test,
        describe: None,
        profiles: None,
        options: match &d.options {
            Some(o) => Some(o.duplicate()),
            None => None,
        },
        file: crate::strings::copy_opt(&d.file),
    }
}

/// A JSON value with every string (object keys included) blanked: what rendering a
/// profile value leaves as it was.
pub open spec fn json_shape(j: JsonView) -> JsonView
    decreases j,
{
    match j {
        JsonView::String(_) => JsonView::String(Seq::empty()),
        JsonView::Array(a) => JsonView::Array(shape_seq(a)),
        JsonView::Object(o) => JsonView::Object(shape_pairs(o)),
        JsonView::Null => JsonView::Null,
        JsonView::Bool(b) => JsonView::Bool(b),
        JsonView::Number(n) => JsonView::Number(n),
    }
}

pub open spec fn shape_seq(s: Seq<JsonView>) -> Seq<JsonView>
    decreases s,
{
    if s.len() == 0 {
        Seq::empty()
    } else {
        shape_seq(s.drop_last()).push(json_shape(s.last()))
    }
}

pub open spec fn shape_pairs(s: Seq<(Seq<char>, JsonView)>) -> Seq<(Seq<char>, JsonView)>
    decreases s,
{
    if s.len() == 0 {
        Seq::empty()
    } else {
        shape_pairs(s.drop_last()).push((Seq::empty(), json_shape(s.last().1)))
    }
}

proof fn lemma_shape_of_array_push(out: Seq<JsonValue>, x: JsonValue)
    ensures
        shape_seq(jv_seq(out.push(x))) == shape_seq(jv_seq(out)).push(json_shape(jv(x))),
{
    assert(out.push(x).drop_last() =~= out);
    assert(jv_seq(out).push(jv(x)).drop_last() =~= jv_seq(out));
}

proof fn lemma_shape_of_pairs_push(out: Seq<(String, JsonValue)>, x: (String, JsonValue))
    ensures
        shape_pairs(jv_pairs(out.push(x))) == shape_pairs(jv_pairs(out)).push((Seq::empty(), json_shape(jv(x.1)))),
{
    assert(out.push(x).drop_last() =~= out);
    assert(jv_pairs(out).push((x.0@, jv(x.1))).drop_last() =~= jv_pairs(out));
}

/// A profile value with its strings (and its objects' keys) rendered: everything else
/// (nulls, booleans, numbers, the lengths and order of arrays and objects) stays as it was.
pub fn render_profile_value(v: &JsonValue, engine: &LiquidEngine, g: &Globals) -> (r: JsonValue)
    ensures
        json_shape(jv(r)) == json_shape(jv(*v)),
    decreases v,
{
    match v {
        JsonValue::String(s) => JsonValue::String(engine.render_string_or_self(s.as_str(), g)),
        JsonValue::Array(a) => {
            let mut out: Vec<JsonValue> = Vec::new();
            let mut i: usize = 0;
            while i < a.len()
                invariant
                    i <= a@.len(),
                    *v == JsonValue::Array(*a),
                    shape_seq(jv_seq(out@)) == shape_seq(jv_seq(a@.take(i as int))),
                decreases a@.len() - i,
            {
                proof {
                    assert(decreases_to!(*v => (*v)->Array_0));
                    assert(decreases_to!(*a => a@));
                    assert(decreases_to!(a@ => a@[i as int]));
                }
                let x = render_profile_value(&a[i], engine, g);
                proof {
                    lemma_shape_of_array_push(out@, x);
                    lemma_shape_of_array_push(a@.take(i as int), a@[i as int]);
                    assert(a@.take(i as int).push(a@[i as int]) =~= a@.take(i + 1));
                }
                out.push(x);
                i += 1;
            }
            proof {
                assert(a@.take(a@.len() as int) =~= a@);
            }
            JsonValue::Array(out)
        },
        JsonValue::Object(o) => {
            let mut out: Vec<(String, JsonValue)> = Vec::new();
            let mut i: usize = 0;
            while i < o.len()
                invariant
                    i <= o@.len(),
                    *v == JsonValue::Object(*o),
                    shape_pairs(jv_pairs(out@)) == shape_pairs(jv_pairs(o@.take(i as int))),
                decreases o@.len() - i,
            {
                proof {
                    assert(decreases_to!(*v => (*v)->Object_0));
                    assert(decreases_to!(*o => o@));
                    assert(decreases_to!(o@ => o@[i as int]));
                    assert(decreases_to!(o@[i as int] => o@[i as int].1));
                }
                let k = engine.render_string_or_self(o[i].0.as_str(), g);
                let x = render_profile_value(&o[i].1, engine, g);
                proof {
                    lemma_shape_of_pairs_push(out@, (k, x));
                    lemma_shape_of_pairs_push(o@.take(i as int), o@[i as int]);
                    assert(o@.take(i as int).push(o@[i as int]) =~= o@.take(i + 1));
                }
                out.push((k, x));
                i += 1;
            }
            proof {
                assert(o@.take(o@.len() as int) =~= o@);
            }
            JsonValue::Object(out)
        },
        JsonValue::Null => JsonValue::Null,
        JsonValue::Bool(b) => JsonValue::Bool(*b),
        JsonValue::Number(n) => JsonValue::Number(n.clone()),
    }
}

/// A profile with its keys and values rendered, in order.
pub fn render_profile(p: &Profile, engine: &LiquidEngine, g: &Globals) -> (r: Profile)
    ensures
        r@.len() == p@.len(),
{
    let mut out: Profile = Vec::new();
    let mut i: usize = 0;
    while i < p.len()
        invariant
            i <= p@.len(),
            out@.len() == i,
        decreases p@.len() - i,
    {
        let k = engine.render_string_or_self(p[i].0.as_str(), g);
        let x = render_profile_value(&p[i].1, engine, g);
        out.push((k, x));
        i += 1;
    }
    out
}

} // verus!
