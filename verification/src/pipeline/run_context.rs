//! What a spec file's templates see while it runs: its environment, saved variables,
//! the current profile and case, and the retry attempt.
use vstd::prelude::*;

use crate::models::{JsonValue, Profile};
use crate::strings::copy_str;
use crate::templating::{
    count_value,
    count_value_of,
    lemma_tv_pairs_push,
    lemma_tv_seq_push,
    put,
    tv,
    tv_pairs,
    Globals,
    TemplateValue,
    TemplateValueView,
};

verus! {

/// The mathematical form of a JSON value.
pub enum JsonView {
    Null,
    Bool(bool),
    Number(Seq<char>),
    String(Seq<char>),
    Array(Seq<JsonView>),
    Object(Seq<(Seq<char>, JsonView)>),
}

pub open spec fn jv(j: JsonValue) -> JsonView
    decreases j,
{
    match j {
        JsonValue::Null => JsonView::Null,
        JsonValue::Bool(b) => JsonView::Bool(b),
        JsonValue::Number(n) => JsonView::Number(n@),
        JsonValue::String(s) => JsonView::String(s@),
        JsonValue::Array(a) => JsonView::Array(jv_seq(a@)),
        JsonValue::Object(o) => JsonView::Object(jv_pairs(o@)),
    }
}

pub open spec fn jv_seq(s: Seq<JsonValue>) -> Seq<JsonView>
    decreases s,
{
    if s.len() == 0 {
        Seq::empty()
    } else {
        jv_seq(s.drop_last()).push(jv(s.last()))
    }
}

pub open spec fn jv_pairs(s: Seq<(String, JsonValue)>) -> Seq<(Seq<char>, JsonView)>
    decreases s,
{
    if s.len() == 0 {
        Seq::empty()
    } else {
        jv_pairs(s.drop_last()).push((s.last().0@, jv(s.last().1)))
    }
}

/// How a JSON value appears to a template: numbers by their decimal text.
pub open spec fn jtv(j: JsonView) -> TemplateValueView
    decreases j,
{
    match j {
        JsonView::Null => TemplateValueView::Nil,
        JsonView::Bool(b) => TemplateValueView::Bool(b),
        JsonView::Number(n) => TemplateValueView::Str(n),
        JsonView::String(s) => TemplateValueView::Str(s),
        JsonView::Array(a) => TemplateValueView::Array(jtv_seq(a)),
        JsonView::Object(o) => TemplateValueView::Object(jtv_pairs(o)),
    }
}

pub open spec fn jtv_seq(s: Seq<JsonView>) -> Seq<TemplateValueView>
    decreases s,
{
    if s.len() == 0 {
        Seq::empty()
    } else {
        jtv_seq(s.drop_last()).push(jtv(s.last()))
    }
}

pub open spec fn jtv_pairs(s: Seq<(Seq<char>, JsonView)>) -> Seq<(Seq<char>, TemplateValueView)>
    decreases s,
{
    if s.len() == 0 {
        Seq::empty()
    } else {
        jtv_pairs(s.drop_last()).push((s.last().0, jtv(s.last().1)))
    }
}

/// A copy of a JSON value.
pub fn copy_json(j: &JsonValue) -> (r: JsonValue)
    ensures
        jv(r) == jv(*j),
    decreases j,
{
    match j {
        JsonValue::Null => JsonValue::Null,
        JsonValue::Bool(b) => JsonValue::Bool(*b),
        JsonValue::Number(n) => JsonValue::Number(n.clone()),
        JsonValue::String(s) => JsonValue::String(s.clone()),
        JsonValue::Array(a) => {
            let mut out: Vec<JsonValue> = Vec::new();
            let mut i: usize = 0;
            while i < a.len()
                invariant
                    i <= a@.len(),
                    *j == JsonValue::Array(*a),
                    jv_seq(out@) == jv_seq(a@.take(i as int)),
                decreases a@.len() - i,
            {
                proof {
                    assert(decreases_to!(*j => (*j)->Array_0));
                    assert(decreases_to!(*a => a@));
                    assert(decreases_to!(a@ => a@[i as int]));
                }
                let x = copy_json(&a[i]);
                proof {
                    assert(out@.push(x).drop_last() =~= out@);
                    assert(a@.take(i + 1).drop_last() =~= a@.take(i as int));
                }
                out.push(x);
                i += 1;
            }
            assert(a@.take(a@.len() as int) =~= a@);
            JsonValue::Array(out)
        },
        JsonValue::Object(o) => {
            let out = copy_json_pairs_of(j, o);
            JsonValue::Object(out)
        },
    }
}

fn copy_json_pairs_of(j: &JsonValue, o: &Vec<(String, JsonValue)>) -> (r: Vec<(String, JsonValue)>)
    requires
        *j == JsonValue::Object(*o),
    ensures
        jv_pairs(r@) == jv_pairs(o@),
    decreases j, 0nat,
{
    let mut out: Vec<(String, JsonValue)> = Vec::new();
    let mut i: usize = 0;
    while i < o.len()
        invariant
            i <= o@.len(),
            *j == JsonValue::Object(*o),
            jv_pairs(out@) == jv_pairs(o@.take(i as int)),
        decreases o@.len() - i,
    {
        proof {
            assert(decreases_to!(*j => (*j)->Object_0));
            assert(decreases_to!(*o => o@));
            assert(decreases_to!(o@ => o@[i as int]));
            assert(decreases_to!(o@[i as int] => o@[i as int].1));
        }
        let x = copy_json(&o[i].1);
        let k = o[i].0.clone();
        proof {
            assert(out@.push((k, x)).drop_last() =~= out@);
            assert(o@.take(i + 1).drop_last() =~= o@.take(i as int));
        }
        out.push((k, x));
        i += 1;
    }
    assert(o@.take(o@.len() as int) =~= o@);
    out
}

/// A copy of a list of named JSON values.
pub fn copy_pairs_json(o: &Vec<(String, JsonValue)>) -> (r: Vec<(String, JsonValue)>)
    ensures
        jv_pairs(r@) == jv_pairs(o@),
{
    let mut out: Vec<(String, JsonValue)> = Vec::new();
    let mut i: usize = 0;
    while i < o.len()
        invariant
            i <= o@.len(),
            jv_pairs(out@) == jv_pairs(o@.take(i as int)),
        decreases o@.len() - i,
    {
        let x = copy_json(&o[i].1);
        let k = o[i].0.clone();
        proof {
            assert(out@.push((k, x)).drop_last() =~= out@);
            assert(o@.take(i + 1).drop_last() =~= o@.take(i as int));
        }
        out.push((k, x));
        i += 1;
    }
    assert(o@.take(o@.len() as int) =~= o@);
    out
}

/// The template value of a JSON value.
pub fn json_template(j: &JsonValue) -> (r: TemplateValue)
    ensures
        tv(r) == jtv(jv(*j)),
    decreases j,
{
    match j {
        JsonValue::Null => TemplateValue::Nil,
        JsonValue::Bool(b) => TemplateValue::Bool(*b),
        JsonValue::Number(n) => TemplateValue::Str(n.clone()),
        JsonValue::String(s) => TemplateValue::Str(s.clone()),
        JsonValue::Array(a) => {
            let mut out: Vec<TemplateValue> = Vec::new();
            let mut i: usize = 0;
            while i < a.len()
                invariant
                    i <= a@.len(),
                    *j == JsonValue::Array(*a),
                    crate::templating::tv_seq(out@) == jtv_seq(jv_seq(a@.take(i as int))),
                decreases a@.len() - i,
            {
                proof {
                    assert(decreases_to!(*j => (*j)->Array_0));
                    assert(decreases_to!(*a => a@));
                    assert(decreases_to!(a@ => a@[i as int]));
                }
                let x = json_template(&a[i]);
                proof {
                    lemma_tv_seq_push(out@, x);
                    assert(a@.take(i + 1).drop_last() =~= a@.take(i as int));
                    assert(jv_seq(a@.take(i + 1)).drop_last() =~= jv_seq(a@.take(i as int)));
                }
                out.push(x);
                i += 1;
            }
            assert(a@.take(a@.len() as int) =~= a@);
            TemplateValue::Array(out)
        },
        JsonValue::Object(o) => {
            let out = json_template_pairs_of(j, o);
            TemplateValue::Object(out)
        },
    }
}

fn json_template_pairs_of(j: &JsonValue, o: &Vec<(String, JsonValue)>) -> (r: Vec<(String, TemplateValue)>)
    requires
        *j == JsonValue::Object(*o),
    ensures
        tv_pairs(r@) == jtv_pairs(jv_pairs(o@)),
    decreases j, 0nat,
{
    let mut out: Vec<(String, TemplateValue)> = Vec::new();
    let mut i: usize = 0;
    while i < o.len()
        invariant
            i <= o@.len(),
            *j == JsonValue::Object(*o),
            tv_pairs(out@) == jtv_pairs(jv_pairs(o@.take(i as int))),
        decreases o@.len() - i,
    {
        proof {
            assert(decreases_to!(*j => (*j)->Object_0));
            assert(decreases_to!(*o => o@));
            assert(decreases_to!(o@ => o@[i as int]));
            assert(decreases_to!(o@[i as int] => o@[i as int].1));
        }
        let x = json_template(&o[i].1);
        let k = o[i].0.clone();
        proof {
            lemma_tv_pairs_push(out@, (k, x));
            assert(o@.take(i + 1).drop_last() =~= o@.take(i as int));
            assert(jv_pairs(o@.take(i + 1)).drop_last() =~= jv_pairs(o@.take(i as int)));
        }
        out.push((k, x));
        i += 1;
    }
    assert(o@.take(o@.len() as int) =~= o@);
    out
}

/// The template value of named JSON values: an object with those entries.
pub fn json_pairs_template(o: &Vec<(String, JsonValue)>) -> (r: Vec<(String, TemplateValue)>)
    ensures
        tv_pairs(r@) == jtv_pairs(jv_pairs(o@)),
{
    let mut out: Vec<(String, TemplateValue)> = Vec::new();
    let mut i: usize = 0;
    while i < o.len()
        invariant
            i <= o@.len(),
            tv_pairs(out@) == jtv_pairs(jv_pairs(o@.take(i as int))),
        decreases o@.len() - i,
    {
        let x = json_template(&o[i].1);
        let k = o[i].0.clone();
        proof {
            lemma_tv_pairs_push(out@, (k, x));
            assert(o@.take(i + 1).drop_last() =~= o@.take(i as int));
            assert(jv_pairs(o@.take(i + 1)).drop_last() =~= jv_pairs(o@.take(i as int)));
        }
        out.push((k, x));
        i += 1;
    }
    assert(o@.take(o@.len() as int) =~= o@);
    out
}

/// Where a case stands among the cases its descriptor expands to (profiles times loops).
#[derive(PartialEq, Eq, Structural, Clone, Copy, Debug)]
pub struct IterationContext {
    pub case_index: usize,
    pub case_count: usize,
    pub has_profile: bool,
    pub profile_index: usize,
    pub profile_count: usize,
    pub has_loop: bool,
    pub loop_index: usize,
    pub loop_count: usize,
}

/// The state a spec file's templates are rendered with.
pub struct RunContext {
    pub file_name: String,
    pub envs: Vec<(String, String)>,
    /// Saved variables, one entry per name, in the order first saved.
    pub vars: Vec<(String, JsonValue)>,
    pub profile: Option<Profile>,
    pub iteration: Option<IterationContext>,
    pub retry_attempts: usize,
}

pub struct RunContextView {
    pub file_name: Seq<char>,
    pub envs: Seq<(Seq<char>, Seq<char>)>,
    pub vars: Seq<(Seq<char>, JsonView)>,
    pub profile: Option<Seq<(Seq<char>, JsonView)>>,
    pub iteration: Option<IterationContext>,
    pub retry_attempts: usize,
}

pub open spec fn opt_profile_view(p: Option<Profile>) -> Option<Seq<(Seq<char>, JsonView)>> {
    match p {
        Some(p) => Some(jv_pairs(p@)),
        None => None,
    }
}

impl View for RunContext {
    type V = RunContextView;

    open spec fn view(&self) -> RunContextView {
        RunContextView {
            file_name: self.file_name@,
            envs: crate::models::pair_views(self.envs@),
            vars: jv_pairs(self.vars@),
            profile: opt_profile_view(self.profile),
            iteration: self.iteration,
            retry_attempts: self.retry_attempts,
        }
    }
}

/// What entering a case replaced: the profile and case to restore on leaving it.
pub struct IterationScope {
    pub profile: Option<Profile>,
    pub iteration: Option<IterationContext>,
}

/// The value a name holds after `v` is saved under it. Outside an expanded case `v`
/// replaces what was saved. Inside one (`collecting`) values are collected: `v` is
/// appended to the list saved so far, where a value saved outside a case counts as a
/// list of one and no value as an empty list.
pub open spec fn saved_value(existing: Option<JsonView>, v: JsonView, collecting: bool) -> JsonView {
    if !collecting {
        v
    } else {
        match existing {
            Some(JsonView::Array(items)) => JsonView::Array(items.push(v)),
            Some(other) => JsonView::Array(seq![other, v]),
            None => JsonView::Array(seq![v]),
        }
    }
}

/// Saving `v` under `k`, collecting or not: the entry named `k` takes the saved value,
/// or a new entry is added at the end.
pub open spec fn save_var(vars: Seq<(Seq<char>, JsonView)>, k: Seq<char>, v: JsonView, collecting: bool) -> Seq<
    (Seq<char>, JsonView),
> {
    set_entry(vars, k, saved_value(lookup_var(vars, k), v, collecting))
}

/// The first index of an entry named `k`.
pub open spec fn first_key(vars: Seq<(Seq<char>, JsonView)>, k: Seq<char>, i: int) -> bool {
    0 <= i < vars.len() && vars[i].0 == k && forall|j: int| 0 <= j < i ==> (#[trigger] vars[j]).0 != k
}

/// Saving `v` under `k`: the entry named `k` takes the value, or a new entry is added
/// at the end.
pub open spec fn set_entry(vars: Seq<(Seq<char>, JsonView)>, k: Seq<char>, v: JsonView) -> Seq<
    (Seq<char>, JsonView),
> {
    if exists|i: int| first_key(vars, k, i) {
        vars.update(choose|i: int| first_key(vars, k, i), (k, v))
    } else {
        vars.push((k, v))
    }
}

/// The value saved under `k` (the first entry with that name), if any.
pub open spec fn lookup_var(vars: Seq<(Seq<char>, JsonView)>, k: Seq<char>) -> Option<JsonView> {
    if exists|i: int| first_key(vars, k, i) {
        Some(vars[choose|i: int| first_key(vars, k, i)].1)
    } else {
        None
    }
}

/// The values a context shows to templates: `env`, `vars`, `file_name`,
/// `retry_attempts`, `profile` (nil outside a profile) and `iteration` (nil outside an
/// expanded case).
pub open spec fn context_globals(c: RunContextView) -> Seq<(Seq<char>, TemplateValueView)> {
    seq![
        ("env"@, TemplateValueView::Object(c.envs.map_values(|p: (Seq<char>, Seq<char>)| (p.0, TemplateValueView::Str(p.1))))),
        ("vars"@, TemplateValueView::Object(jtv_pairs(c.vars))),
        ("file_name"@, TemplateValueView::Str(c.file_name)),
        ("retry_attempts"@, count_value(c.retry_attempts)),
        ("profile"@, match c.profile {
            Some(p) => TemplateValueView::Object(jtv_pairs(p)),
            None => TemplateValueView::Nil,
        }),
        ("iteration"@, match c.iteration {
            Some(it) => iteration_value(it),
            None => TemplateValueView::Nil,
        }),
    ]
}

/// A case's place as a template object.
pub open spec fn iteration_value(it: IterationContext) -> TemplateValueView {
    TemplateValueView::Object(seq![
        ("case_index"@, count_value(it.case_index)),
        ("case_count"@, count_value(it.case_count)),
        ("has_profile"@, TemplateValueView::Bool(it.has_profile)),
        ("profile_index"@, count_value(it.profile_index)),
        ("profile_count"@, count_value(it.profile_count)),
        ("has_loop"@, TemplateValueView::Bool(it.has_loop)),
        ("loop_index"@, count_value(it.loop_index)),
        ("loop_count"@, count_value(it.loop_count)),
    ])
}

fn iteration_template(it: IterationContext) -> (r: TemplateValue)
    ensures
        tv(r) == iteration_value(it),
{
    let mut g: Globals = Vec::new();
    assert(tv_pairs(g@) =~= Seq::<(Seq<char>, TemplateValueView)>::empty());
    put(&mut g, "case_index", count_value_of(it.case_index));
    put(&mut g, "case_count", count_value_of(it.case_count));
    put(&mut g, "has_profile", TemplateValue::Bool(it.has_profile));
    put(&mut g, "profile_index", count_value_of(it.profile_index));
    put(&mut g, "profile_count", count_value_of(it.profile_count));
    put(&mut g, "has_loop", TemplateValue::Bool(it.has_loop));
    put(&mut g, "loop_index", count_value_of(it.loop_index));
    put(&mut g, "loop_count", count_value_of(it.loop_count));
    let r = TemplateValue::Object(g);
    assert(tv(r) == TemplateValueView::Object(tv_pairs(g@)));
    assert(tv_pairs(g@) =~= seq![
        ("case_index"@, count_value(it.case_index)),
        ("case_count"@, count_value(it.case_count)),
        ("has_profile"@, TemplateValueView::Bool(it.has_profile)),
        ("profile_index"@, count_value(it.profile_index)),
        ("profile_count"@, count_value(it.profile_count)),
        ("has_loop"@, TemplateValueView::Bool(it.has_loop)),
        ("loop_index"@, count_value(it.loop_index)),
        ("loop_count"@, count_value(it.loop_count)),
    ]);
    r
}

fn env_template(envs: &Vec<(String, String)>) -> (r: Vec<(String, TemplateValue)>)
    ensures
        tv_pairs(r@) == crate::models::pair_views(envs@).map_values(
            |p: (Seq<char>, Seq<char>)| (p.0, TemplateValueView::Str(p.1)),
        ),
{
    let mut out: Vec<(String, TemplateValue)> = Vec::new();
    let mut i: usize = 0;
    while i < envs.len()
        invariant
            i <= envs@.len(),
            tv_pairs(out@) == crate::models::pair_views(envs@.take(i as int)).map_values(
                |p: (Seq<char>, Seq<char>)| (p.0, TemplateValueView::Str(p.1)),
            ),
        decreases envs@.len() - i,
    {
        let k = envs[i].0.clone();
        let v = TemplateValue::Str(envs[i].1.clone());
        proof {
            lemma_tv_pairs_push(out@, (k, v));
            assert(crate::models::pair_views(envs@.take(i + 1)).map_values(
                |p: (Seq<char>, Seq<char>)| (p.0, TemplateValueView::Str(p.1)),
            ) =~= crate::models::pair_views(envs@.take(i as int)).map_values(
                |p: (Seq<char>, Seq<char>)| (p.0, TemplateValueView::Str(p.1)),
            ).push((k@, TemplateValueView::Str(envs@[i as int].1@))));
        }
        out.push((k, v));
        i += 1;
    }
    assert(envs@.take(envs@.len() as int) =~= envs@);
    out
}

impl RunContext {
    /// The context a spec file starts with: its name and environment, nothing saved,
    /// no profile or case, attempt 0.
    pub fn new(file_name: &str, envs: &Vec<(String, String)>) -> (r: RunContext)
        ensures
            r@.file_name == file_name@,
            r@.envs == crate::models::pair_views(envs@),
            r@.vars.len() == 0,
            r@.profile is None,
            r@.iteration is None,
            r@.retry_attempts == 0,
    {
        let r = RunContext {
            file_name: copy_str(file_name),
            envs: crate::models::copy_pairs(envs),
            vars: Vec::new(),
            profile: None,
            iteration: None,
            retry_attempts: 0,
        };
        assert(jv_pairs(r.vars@) =~= Seq::<(Seq<char>, JsonView)>::empty());
        r
    }

    /// A copy of the context.
    pub fn duplicate(&self) -> (r: RunContext)
        ensures
            r@ == self@,
    {
        RunContext {
            file_name: self.file_name.clone(),
            envs: crate::models::copy_pairs(&self.envs),
            vars: copy_pairs_json(&self.vars),
            profile: match &self.profile {
                Some(p) => Some(copy_pairs_json(p)),
                None => None,
            },
            iteration: self.iteration,
            retry_attempts: self.retry_attempts,
        }
    }

    /// Saves `value` under `name`: inside an expanded case it is appended to the values
    /// collected under the name, elsewhere it replaces what was saved under it.
    pub fn set_var(&mut self, name: String, value: JsonValue)
        ensures
            final(self)@ == (RunContextView {
                vars: save_var(old(self)@.vars, name@, jv(value), old(self)@.iteration is Some),
                ..old(self)@
            }),
    {
        let collecting = self.iteration.is_some();
        let mut i: usize = 0;
        while i < self.vars.len()
            invariant
                i <= self.vars@.len(),
                self@ == old(self)@,
                collecting == (old(self)@.iteration is Some),
                forall|j: int| 0 <= j < i ==> (#[trigger] jv_pairs(self.vars@)[j]).0 != name@,
            decreases self.vars@.len() - i,
        {
            proof {
                lemma_jv_pairs_index(self.vars@, i as int);
            }
            if crate::strings::str_eq(self.vars[i].0.as_str(), name.as_str()) {
                let ghost before = self.vars@;
                proof {
                    assert(first_key(jv_pairs(before), name@, i as int));
                    let c = choose|c: int| first_key(jv_pairs(before), name@, c);
                    if c < i {
                        assert(jv_pairs(before)[c].0 != name@);
                    } else if c > i {
                        assert(jv_pairs(before)[i as int].0 != name@);
                    }
                    assert(lookup_var(jv_pairs(before), name@) == Some(jv(before[i as int].1)));
                }
                let saved = if collecting {
                    collect(copy_json(&self.vars[i].1), value)
                } else {
                    value
                };
                self.vars.set(i, (name, saved));
                proof {
                    lemma_jv_pairs_update(before, i as int, self.vars@[i as int]);
                    assert(self.vars@ == before.update(i as int, self.vars@[i as int]));
                }
                return;
            }
            i += 1;
        }
        let ghost before = self.vars@;
        proof {
            lemma_jv_pairs_len(before);
            assert(!exists|c: int| first_key(jv_pairs(before), name@, c));
        }
        let saved = if collecting {
            let mut items: Vec<JsonValue> = Vec::new();
            items.push(value);
            proof {
                lemma_jv_seq_one(items@);
            }
            JsonValue::Array(items)
        } else {
            value
        };
        let ghost k = name@;
        let ghost sv = jv(saved);
        self.vars.push((name, saved));
        proof {
            assert(self.vars@.drop_last() =~= before);
            assert(lookup_var(jv_pairs(before), k) is None);
            assert(sv == saved_value(None, jv(value), collecting));
            assert(jv_pairs(self.vars@) == jv_pairs(before).push((k, sv)));
        }
    }

    /// Enters a case: shows `profile` (when the descriptor has profiles) and the case's
    /// place, and returns what they replaced.
    pub fn enter_iteration(&mut self, profile: Option<Profile>, iteration: IterationContext) -> (r:
        IterationScope)
        ensures
            final(self)@ == (RunContextView {
                profile: opt_profile_view(profile),
                iteration: Some(iteration),
                ..old(self)@
            }),
            opt_profile_view(r.profile) == old(self)@.profile,
            r.iteration == old(self)@.iteration,
    {
        let saved_profile = self.profile.take();
        let saved_iteration = self.iteration;
        self.profile = profile;
        self.iteration = Some(iteration);
        IterationScope { profile: saved_profile, iteration: saved_iteration }
    }

    /// Leaves a case: puts back the profile and place it replaced.
    pub fn exit_iteration(&mut self, scope: IterationScope)
        ensures
            final(self)@ == (RunContextView {
                profile: opt_profile_view(scope.profile),
                iteration: scope.iteration,
                ..old(self)@
            }),
    {
        self.profile = scope.profile;
        self.iteration = scope.iteration;
    }

    /// The values templates see.
    pub fn globals(&self) -> (r: Globals)
        ensures
            tv_pairs(r@) == context_globals(self@),
    {
        let mut g: Globals = Vec::new();
        assert(tv_pairs(g@) =~= Seq::<(Seq<char>, TemplateValueView)>::empty());
        put(&mut g, "env", TemplateValue::Object(env_template(&self.envs)));
        put(&mut g, "vars", TemplateValue::Object(json_pairs_template(&self.vars)));
        put(&mut g, "file_name", TemplateValue::Str(self.file_name.clone()));
        put(&mut g, "retry_attempts", count_value_of(self.retry_attempts));
        let profile = match &self.profile {
            Some(p) => TemplateValue::Object(json_pairs_template(p)),
            None => TemplateValue::Nil,
        };
        put(&mut g, "profile", profile);
        let iteration = match self.iteration {
            Some(it) => iteration_template(it),
            None => TemplateValue::Nil,
        };
        put(&mut g, "iteration", iteration);
        assert(tv_pairs(g@) =~= context_globals(self@));
        g
    }
}

/// `value` added to the values collected in `existing`.
fn collect(existing: JsonValue, value: JsonValue) -> (r: JsonValue)
    ensures
        jv(r) == saved_value(Some(jv(existing)), jv(value), true),
{
    match existing {
        JsonValue::Array(mut items) => {
            let ghost before = items@;
            items.push(value);
            proof {
                assert(items@.drop_last() =~= before);
            }
            JsonValue::Array(items)
        },
        other => {
            let mut items: Vec<JsonValue> = Vec::new();
            items.push(other);
            let ghost one = items@;
            items.push(value);
            proof {
                lemma_jv_seq_one(one);
                assert(items@.drop_last() =~= one);
                assert(jv_seq(items@) == jv_seq(one).push(jv(value)));
                assert(jv_seq(items@) =~= seq![jv(other), jv(value)]);
            }
            JsonValue::Array(items)
        },
    }
}

proof fn lemma_jv_seq_one(s: Seq<JsonValue>)
    requires
        s.len() == 1,
    ensures
        jv_seq(s) == seq![jv(s[0])],
{
    assert(s.drop_last() =~= Seq::<JsonValue>::empty());
    assert(jv_seq(Seq::<JsonValue>::empty()) == Seq::<JsonView>::empty());
    assert(jv_seq(s) == jv_seq(s.drop_last()).push(jv(s.last())));
    assert(jv_seq(s) =~= seq![jv(s[0])]);
}

proof fn lemma_jv_pairs_len(s: Seq<(String, JsonValue)>)
    ensures
        jv_pairs(s).len() == s.len(),
    decreases s.len(),
{
    if s.len() > 0 {
        lemma_jv_pairs_len(s.drop_last());
    }
}

proof fn lemma_jv_pairs_index(s: Seq<(String, JsonValue)>, i: int)
    requires
        0 <= i < s.len(),
    ensures
        jv_pairs(s).len() == s.len(),
        jv_pairs(s)[i] == (s[i].0@, jv(s[i].1)),
    decreases s.len(),
{
    lemma_jv_pairs_len(s);
    if i < s.len() - 1 {
        lemma_jv_pairs_index(s.drop_last(), i);
    }
}

proof fn lemma_jv_pairs_update(s: Seq<(String, JsonValue)>, i: int, x: (String, JsonValue))
    requires
        0 <= i < s.len(),
    ensures
        jv_pairs(s.update(i, x)) == jv_pairs(s).update(i, (x.0@, jv(x.1))),
    decreases s.len(),
{
    lemma_jv_pairs_len(s);
    lemma_jv_pairs_len(s.update(i, x));
    assert forall|j: int| 0 <= j < s.len() implies jv_pairs(s.update(i, x))[j] == jv_pairs(s).update(
        i,
        (x.0@, jv(x.1)),
    )[j] by {
        lemma_jv_pairs_index(s.update(i, x), j);
        lemma_jv_pairs_index(s, j);
    }
    assert(jv_pairs(s.update(i, x)) =~= jv_pairs(s).update(i, (x.0@, jv(x.1))));
}

} // verus!
