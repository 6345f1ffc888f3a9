//! Running one spec file: its descriptors, their cases and retries.
use vstd::prelude::*;

use crate::models::{
    empty_options,
    merge_view,
    opt_pair_views,
    Assertion,
    Descriptor,
    JsonValue,
    RunOptions,
    RunOptionsView,
    SummaryResult,
    Templated,
    TemplatedView,
    TestResult,
    TestSpec,
};
use crate::pipeline::assertions::{assertion_evaluator_for, assertion_from, AssertionEvaluator, CelValue};
use crate::pipeline::run_context::{IterationContext, RunContext, RunContextView};
use crate::pipeline::variables::{assign_vars, variable_assignment_for, VariableAssignment};
use crate::pipeline::rendering::{render_descriptor, render_options, render_profile, render_test};
use crate::pipeline::runners::{
    request_ok,
    resolve_route,
    resolved_route,
    test_runner_for,
    HttpRequest,
    TestRunner,
};
use crate::strings::{
    append_str,
    concat,
    concat3,
    copy_str,
    decimal,
    decimal_string,
    join,
    str_eq,
    trim,
    trim_str,
};
use crate::templating::{plain_text, Globals, LiquidEngine};

verus! {

/// One attempt of a descriptor: the descriptor and options as rendered for it, the
/// titles of its named ancestors, and what its test (if any) gave.
pub struct AttemptOutcome {
    pub descriptor: Descriptor,
    pub title_path: Vec<String>,
    pub options: RunOptions,
    pub test_result: Option<TestResult>,
    pub assertions: Vec<Assertion>,
    pub result: Option<SummaryResult>,
    pub debug_message: Option<String>,
}

/// All attempts of one case of a descriptor, and how it ended once retries are
/// taken into account (none for a descriptor without a test).
pub struct DescriptorOutcome {
    pub attempts: Vec<AttemptOutcome>,
    pub final_result: Option<SummaryResult>,
}

/// What running a spec file gave, tagged with the file's place in discovery order.
pub struct FileOutcome {
    pub ordinal: usize,
    pub source_file: String,
    pub descriptors: Vec<DescriptorOutcome>,
}


// ---------------------------------------------------------------------------------
// Retries
// ---------------------------------------------------------------------------------

/// What to do after an attempt.
#[derive(PartialEq, Eq, Structural, Clone, Copy, Debug)]
pub enum RetryDecision {
    /// Run the case again.
    Retry,
    /// Stop, with this final result.
    Finish(Option<SummaryResult>),
}

/// After an attempt with `result`, numbered `retry_number` (0 for the first), with
/// `max_retries` retries allowed: a failure with retries left is retried; a pass after
/// an earlier failure is flaky; anything else is final as it is.
pub open spec fn retry_spec(
    result: Option<SummaryResult>,
    retry_number: nat,
    max_retries: nat,
    saw_failure: bool,
) -> RetryDecision {
    if result == Some(SummaryResult::Failed) && retry_number < max_retries {
        RetryDecision::Retry
    } else if result == Some(SummaryResult::Passed) && saw_failure {
        RetryDecision::Finish(Some(SummaryResult::Flaky))
    } else {
        RetryDecision::Finish(result)
    }
}

pub fn decide_retry(
    result: Option<SummaryResult>,
    retry_number: usize,
    max_retries: u8,
    saw_failure: bool,
) -> (r: RetryDecision)
    ensures
        r == retry_spec(result, retry_number as nat, max_retries as nat, saw_failure),
{
    match result {
        Some(SummaryResult::Failed) => {
            if retry_number < max_retries as usize {
                RetryDecision::Retry
            } else {
                RetryDecision::Finish(result)
            }
        },
        Some(SummaryResult::Passed) => {
            if saw_failure {
                RetryDecision::Finish(Some(SummaryResult::Flaky))
            } else {
                RetryDecision::Finish(result)
            }
        },
        _ => RetryDecision::Finish(result),
    }
}

/// Running attempts whose results would be `results` (from attempt `i` on, a failure
/// seen before when `saw`): how many attempts run, and the final result.
pub open spec fn attempts_until(
    results: Seq<Option<SummaryResult>>,
    max_retries: nat,
    i: nat,
    saw: bool,
) -> (nat, Option<SummaryResult>)
    decreases results.len() - i,
{
    if i >= results.len() {
        (i, None)
    } else {
        match retry_spec(results[i as int], i, max_retries, saw) {
            RetryDecision::Retry => attempts_until(results, max_retries, i + 1, true),
            RetryDecision::Finish(f) => (i + 1, f),
        }
    }
}

/// At most `max_retries` retries follow the first attempt.
pub proof fn retries_are_bounded(results: Seq<Option<SummaryResult>>, max_retries: nat, i: nat, saw: bool)
    requires
        i <= max_retries,
    ensures
        attempts_until(results, max_retries, i, saw).0 <= max_retries + 1,
    decreases results.len() - i,
{
    if i < results.len() {
        match retry_spec(results[i as int], i, max_retries, saw) {
            RetryDecision::Retry => {
                retries_are_bounded(results, max_retries, i + 1, true);
            },
            RetryDecision::Finish(_) => {},
        }
    }
}

/// A case that fails `k` times (`0 < k <= max_retries`) and then passes ends flaky after
/// `k + 1` attempts; one that passes at once ends passed after one.
pub proof fn fail_then_pass_is_flaky(results: Seq<Option<SummaryResult>>, max_retries: nat, k: nat)
    requires
        k <= max_retries,
        k < results.len(),
        forall|j: int| 0 <= j < k ==> results[j] == Some(SummaryResult::Failed),
        results[k as int] == Some(SummaryResult::Passed),
    ensures
        attempts_until(results, max_retries, 0, false) == (k + 1, if k > 0 {
            Some(SummaryResult::Flaky)
        } else {
            Some(SummaryResult::Passed)
        }),
{
    lemma_failures_then(results, max_retries, k, 0, false);
}

proof fn lemma_failures_then(
    results: Seq<Option<SummaryResult>>,
    max_retries: nat,
    k: nat,
    i: nat,
    saw: bool,
)
    requires
        i <= k <= max_retries,
        k < results.len(),
        forall|j: int| 0 <= j < k ==> results[j] == Some(SummaryResult::Failed),
        results[k as int] == Some(SummaryResult::Passed),
        saw == (i > 0),
    ensures
        attempts_until(results, max_retries, i, saw) == (k + 1, if k > 0 {
            Some(SummaryResult::Flaky)
        } else {
            Some(SummaryResult::Passed)
        }),
    decreases k - i,
{
    if i < k {
        lemma_failures_then(results, max_retries, k, i + 1, true);
    }
}

/// A case that fails on every one of its `max_retries + 1` attempts ends failed.
pub proof fn exhausted_retries_fail(results: Seq<Option<SummaryResult>>, max_retries: nat)
    requires
        max_retries < results.len(),
        forall|j: int| 0 <= j <= max_retries ==> results[j] == Some(SummaryResult::Failed),
    ensures
        attempts_until(results, max_retries, 0, false) == (max_retries + 1, Some(SummaryResult::Failed)),
{
    lemma_exhausted(results, max_retries, 0, false);
}

proof fn lemma_exhausted(results: Seq<Option<SummaryResult>>, max_retries: nat, i: nat, saw: bool)
    requires
        i <= max_retries,
        max_retries < results.len(),
        forall|j: int| 0 <= j <= max_retries ==> results[j] == Some(SummaryResult::Failed),
    ensures
        attempts_until(results, max_retries, i, saw) == (max_retries + 1, Some(SummaryResult::Failed)),
    decreases max_retries - i,
{
    if i < max_retries {
        lemma_exhausted(results, max_retries, i + 1, true);
    }
}

// ---------------------------------------------------------------------------------
// Options and cases
// ---------------------------------------------------------------------------------

/// A descriptor's own options (none set when it has none).
pub open spec fn own_options(d: Descriptor) -> RunOptionsView {
    match d.options {
        Some(o) => o@,
        None => empty_options(),
    }
}

/// The options an attempt of a descriptor runs with: the file's base options under its
/// ancestors' options under its own.
pub open spec fn attempt_options(base: RunOptionsView, ancestor: RunOptionsView, d: Descriptor) -> RunOptionsView {
    merge_view(merge_view(base, ancestor), own_options(d))
}

pub fn options_for_descriptor(base: &RunOptions, ancestor: &RunOptions, d: &Descriptor) -> (r: RunOptions)
    ensures
        r@ == attempt_options(base@, ancestor@, *d),
{
    let own = match &d.options {
        Some(o) => o.duplicate(),
        None => RunOptions::empty(),
    };
    base.duplicate().merge(ancestor.duplicate()).merge(own)
}

/// The options a descriptor hands its children: its ancestors' options under its own,
/// without the loop count (a loop applies to its own descriptor only).
pub open spec fn child_options_spec(ancestor: RunOptionsView, d: Descriptor) -> RunOptionsView {
    (RunOptionsView { loop_count: None, ..merge_view(ancestor, own_options(d)) })
}

pub fn child_options_for(ancestor: &RunOptions, d: &Descriptor) -> (r: RunOptions)
    ensures
        r@ == child_options_spec(ancestor@, *d),
{
    let own = match &d.options {
        Some(o) => o.duplicate(),
        None => RunOptions::empty(),
    };
    let mut r = ancestor.duplicate().merge(own);
    r.loop_count = None;
    r
}

/// How many profiles a descriptor expands over (one, standing for none, without profiles).
pub open spec fn profile_count_of(d: Descriptor) -> nat {
    match d.profiles {
        Some(p) => p@.len(),
        None => 1,
    }
}

/// How many times a descriptor's cases repeat (once without a loop count).
pub open spec fn loop_count_of(d: Descriptor) -> nat {
    match d.options {
        Some(o) => match o.loop_count {
            Some(n) => n as nat,
            None => 1,
        },
        None => 1,
    }
}

/// `a * b`, or `usize::MAX` where the product does not fit.
pub open spec fn saturating_product(a: usize, b: usize) -> usize {
    if a * b <= usize::MAX {
        (a * b) as usize
    } else {
        usize::MAX
    }
}

fn saturating_mul(a: usize, b: usize) -> (r: usize)
    ensures
        r == saturating_product(a, b),
{
    if b == 0 || a <= usize::MAX / b {
        proof {
            if b > 0 {
                assert(a * b <= (usize::MAX / b) * b) by (nonlinear_arith)
                    requires
                        a <= usize::MAX / b,
                        b > 0,
                ;
                assert((usize::MAX / b) * b <= usize::MAX) by (nonlinear_arith)
                    requires
                        b > 0,
                ;
            }
        }
        a * b
    } else {
        proof {
            assert(a * b > usize::MAX) by (nonlinear_arith)
                requires
                    a > usize::MAX / b,
                    b > 0,
            ;
        }
        usize::MAX
    }
}

/// The place of case (`profile_index`, `loop_index`): cases run profile by profile, each
/// profile's loops in order, so the case index is `profile_index * loop_count + loop_index`
/// (saturating, as the count does).
pub open spec fn iteration_spec(
    profile_index: usize,
    loop_index: usize,
    profile_count: usize,
    loop_count: usize,
    has_profile: bool,
    has_loop: bool,
) -> IterationContext {
    IterationContext {
        case_index: if saturating_product(profile_index, loop_count) + loop_index <= usize::MAX {
            (saturating_product(profile_index, loop_count) + loop_index) as usize
        } else {
            usize::MAX
        },
        case_count: saturating_product(profile_count, loop_count),
        has_profile,
        profile_index,
        profile_count,
        has_loop,
        loop_index,
        loop_count,
    }
}

/// Cases run profile by profile: the case of profile `p` and loop `l` is case number
/// `p * loop_count + l` of `profile_count * loop_count`, so the loops of one profile have
/// consecutive numbers and every number is below the count.
pub proof fn cases_run_profile_by_profile(
    p: usize,
    l: usize,
    profile_count: usize,
    loop_count: usize,
    has_profile: bool,
    has_loop: bool,
)
    requires
        p < profile_count,
        l < loop_count,
        profile_count * loop_count <= usize::MAX,
    ensures
        iteration_spec(p, l, profile_count, loop_count, has_profile, has_loop).case_index == p * loop_count + l,
        iteration_spec(p, l, profile_count, loop_count, has_profile, has_loop).case_count == profile_count * loop_count,
        p * loop_count + l < profile_count * loop_count,
        l + 1 < loop_count ==> iteration_spec(p, (l + 1) as usize, profile_count, loop_count, has_profile, has_loop).case_index
            == iteration_spec(p, l, profile_count, loop_count, has_profile, has_loop).case_index + 1,
{
    assert(p * loop_count + l < profile_count * loop_count) by (nonlinear_arith)
        requires
            p < profile_count,
            l < loop_count,
    ;
    assert(p * loop_count <= profile_count * loop_count) by (nonlinear_arith)
        requires
            p < profile_count,
    ;
}

pub fn iteration_for(
    profile_index: usize,
    loop_index: usize,
    profile_count: usize,
    loop_count: usize,
    has_profile: bool,
    has_loop: bool,
) -> (r: IterationContext)
    ensures
        r == iteration_spec(profile_index, loop_index, profile_count, loop_count, has_profile, has_loop),
        profile_index < profile_count && loop_index < loop_count && profile_count * loop_count <= usize::MAX
            ==> r.case_index == profile_index * loop_count + loop_index && r.case_count == profile_count
            * loop_count,
        r.profile_index == profile_index && r.loop_index == loop_index,
        r.profile_count == profile_count && r.loop_count == loop_count,
        r.has_profile == has_profile && r.has_loop == has_loop,
{
    proof {
        if profile_index < profile_count && loop_index < loop_count && profile_count * loop_count <= usize::MAX {
            cases_run_profile_by_profile(profile_index, loop_index, profile_count, loop_count, has_profile, has_loop);
        }
    }
    let p = saturating_mul(profile_index, loop_count);
    let case_index = if loop_index <= usize::MAX - p {
        p + loop_index
    } else {
        usize::MAX
    };
    IterationContext {
        case_index,
        case_count: saturating_mul(profile_count, loop_count),
        has_profile,
        profile_index,
        profile_count,
        has_loop,
        loop_index,
        loop_count,
    }
}

// ---------------------------------------------------------------------------------
// Skipping
// ---------------------------------------------------------------------------------

/// Whether a rendered `skip` template says to skip: it renders to `true` (around white
/// space); a failed rendering does not skip.
pub open spec fn skip_from(outcome: Result<String, String>) -> bool {
    match outcome {
        Ok(t) => trim(t@) == "true"@,
        Err(_) => false,
    }
}

/// A skip template skips exactly when it renders to `true` (white space around it
/// allowed); anything else it renders to, and a failed rendering, runs the test.
pub proof fn skip_only_on_true(outcome: Result<String, String>)
    ensures
        skip_from(outcome) ==> outcome is Ok && trim(outcome->Ok_0@) == "true"@,
        outcome is Ok && trim(outcome->Ok_0@) == "true"@ ==> skip_from(outcome),
        outcome is Err ==> !skip_from(outcome),
{
}

pub fn skip_decision(outcome: Result<String, String>) -> (r: bool)
    ensures
        r == skip_from(outcome),
{
    match outcome {
        Ok(t) => {
            let trimmed = trim_str(t.as_str());
            str_eq(trimmed.as_str(), "true")
        },
        Err(_) => false,
    }
}

/// A skip option that may say to skip: `true`, or a template whose rendering decides
/// (one with Liquid markup) or whose plain text trims to `true`.
pub open spec fn may_skip(skip: Option<TemplatedView>) -> bool {
    match skip {
        None => false,
        Some(TemplatedView::Bool(b)) => b,
        Some(TemplatedView::Liquid(t)) => !plain_text(t) || trim(t) == "true"@,
    }
}

/// A skip option that surely says to skip: `true`, or plain text that trims to `true`.
pub open spec fn must_skip(skip: Option<TemplatedView>) -> bool {
    match skip {
        None => false,
        Some(TemplatedView::Bool(b)) => b,
        Some(TemplatedView::Liquid(t)) => plain_text(t) && trim(t) == "true"@,
    }
}

/// Whether a `skip` option says to skip: a boolean as it is; a template by what it
/// renders to with the context's values (a failed rendering does not skip), so a template
/// of plain text by its own text.
pub fn resolve_skip(skip: &Templated, engine: &LiquidEngine, globals: &Globals) -> (r: bool)
    ensures
        skip matches Templated::Bool(b) ==> r == b,
        skip is Liquid && plain_text(skip->Liquid_0@) ==> r == (trim(skip->Liquid_0@) == "true"@),
{
    match skip {
        Templated::Bool(b) => *b,
        Templated::Liquid(t) => {
            let outcome = engine.render(t.as_str(), globals);
            let ghost o = outcome;
            let r = skip_decision(outcome);
            assert(r == skip_from(o));
            r
        },
    }
}

// ---------------------------------------------------------------------------------
// Concluding a test
// ---------------------------------------------------------------------------------

/// What the CEL expressions of a test gave against its response: each `let` in order up
/// to the first that failed, and (when all succeeded) each assertion and each variable
/// (none where it could not be evaluated or converted).
pub struct TestEvaluation {
    pub result: TestResult,
    pub lets: Vec<Result<(), String>>,
    pub asserts: Vec<Result<CelValue, String>>,
    pub vars: Vec<Option<JsonValue>>,
}

/// How a test's run ended.
pub struct TestRunOutcome {
    pub test_result: Option<TestResult>,
    pub assertions: Vec<Assertion>,
    pub summary_result: Option<SummaryResult>,
}

/// `i` is the first failed `let`.
pub open spec fn first_let_error(lets: Seq<Result<(), String>>, i: int) -> bool {
    0 <= i < lets.len() && lets[i] is Err && forall|j: int| 0 <= j < i ==> (#[trigger] lets[j]) is Ok
}

/// The assertion a failed `let` becomes: `let.<name> = <expression>`, failed, with the
/// evaluation's error.
pub open spec fn let_failure(name: Seq<char>, expr: Seq<char>, error: Seq<char>, a: Assertion) -> bool {
    &&& a.expr@ == "let."@ + name + " = "@ + expr
    &&& !a.passed
    &&& a.error@ == error
}

pub fn let_failure_assertion(name: &str, expr: &str, error: String) -> (r: Assertion)
    ensures
        let_failure(name@, expr@, error@, r),
{
    let mut e = concat("let.", name);
    append_str(&mut e, " = ");
    append_str(&mut e, expr);
    Assertion { expr: e, passed: false, error }
}

/// The entries of an optional list of pairs (none when absent).
pub open spec fn entries(o: Option<Vec<(String, String)>>) -> Seq<(Seq<char>, Seq<char>)> {
    match opt_pair_views(o) {
        Some(v) => v,
        None => Seq::empty(),
    }
}

/// The assertions of a test (none when absent).
pub open spec fn assert_exprs(t: TestSpec) -> Seq<Seq<char>> {
    match t.assert {
        Some(a) => crate::strings::views(a@),
        None => Seq::empty(),
    }
}

/// The names of a test's variables.
pub open spec fn var_names(t: TestSpec) -> Seq<Seq<char>> {
    entries(t.vars).map_values(|p: (Seq<char>, Seq<char>)| p.0)
}

/// Whether any assertion failed.
pub open spec fn any_failed(a: Seq<Assertion>) -> bool {
    exists|i: int| 0 <= i < a.len() && !(#[trigger] a[i]).passed
}

/// How a test with evaluation `e` ends, and what it does to the context: a failed `let`
/// fails it with that single assertion and saves nothing; otherwise each assertion is
/// judged from its evaluation, the variables are saved, and it fails exactly when some
/// assertion failed.
pub open spec fn concluded(
    t: TestSpec,
    e: TestEvaluation,
    before: RunContextView,
    after: RunContextView,
    o: TestRunOutcome,
) -> bool {
    &&& o.test_result == Some(e.result)
    &&& if exists|i: int| first_let_error(e.lets@, i) {
        let i = choose|i: int| first_let_error(e.lets@, i);
        &&& o.assertions@.len() == 1
        &&& let_failure(entries(t.lets)[i].0, entries(t.lets)[i].1, e.lets@[i]->Err_0@, o.assertions@[0])
        &&& o.summary_result == Some(SummaryResult::Failed)
        &&& after == before
    } else {
        &&& o.assertions@.len() == assert_exprs(t).len()
        &&& forall|k: int|
            0 <= k < o.assertions@.len() ==> assertion_from(
                assert_exprs(t)[k],
                e.asserts@[k],
                #[trigger] o.assertions@[k],
            )
        &&& after == (RunContextView { vars: assign_vars(before.vars, var_names(t), e.vars@, before.iteration is Some), ..before })
        &&& o.summary_result == Some(
            if any_failed(o.assertions@) {
                SummaryResult::Failed
            } else {
                SummaryResult::Passed
            },
        )
    }
}

proof fn lemma_some_let_failed(lets: Seq<Result<(), String>>, n: int)
    requires
        0 <= n <= lets.len(),
        exists|i: int| 0 <= i < n && (#[trigger] lets[i]) is Err,
    ensures
        exists|i: int| first_let_error(lets, i),
    decreases n,
{
    if (forall|i: int| 0 <= i < n - 1 ==> (#[trigger] lets[i]) is Ok) {
        assert(first_let_error(lets, n - 1));
    } else {
        lemma_some_let_failed(lets, n - 1);
    }
}

/// How a test ends: as soon as a `let` fails the test fails, with that one failed
/// assertion, and the context is left as it was; otherwise it passes exactly when every
/// assertion evaluated to `true` (so a test without assertions passes), and each
/// assertion passes exactly when its expression gave `true`.
pub proof fn test_verdict_follows_lets_and_assertions(
    t: TestSpec,
    e: TestEvaluation,
    before: RunContextView,
    after: RunContextView,
    o: TestRunOutcome,
)
    requires
        concluded(t, e, before, after, o),
    ensures
        (exists|i: int| 0 <= i < e.lets@.len() && (#[trigger] e.lets@[i]) is Err) ==> {
            &&& o.summary_result == Some(SummaryResult::Failed)
            &&& after == before
            &&& o.assertions@.len() == 1
            &&& !o.assertions@[0].passed
        },
        (forall|i: int| 0 <= i < e.lets@.len() ==> (#[trigger] e.lets@[i]) is Ok) ==> {
            &&& o.assertions@.len() == assert_exprs(t).len()
            &&& forall|k: int|
                0 <= k < o.assertions@.len() ==> ((#[trigger] o.assertions@[k]).passed <==> e.asserts@[k] == Ok::<
                    CelValue,
                    String,
                >(CelValue::Bool(true)))
            &&& (o.summary_result == Some(SummaryResult::Passed) <==> forall|k: int|
                0 <= k < o.assertions@.len() ==> (#[trigger] o.assertions@[k]).passed)
            &&& (o.summary_result == Some(SummaryResult::Failed) <==> exists|k: int|
                0 <= k < o.assertions@.len() && !(#[trigger] o.assertions@[k]).passed)
        },
        o.test_result == Some(e.result),
{
    if exists|i: int| 0 <= i < e.lets@.len() && (#[trigger] e.lets@[i]) is Err {
        lemma_some_let_failed(e.lets@, e.lets@.len() as int);
    } else {
        assert(!exists|i: int| first_let_error(e.lets@, i));
        assert forall|k: int| 0 <= k < o.assertions@.len() implies ((#[trigger] o.assertions@[k]).passed
            <==> e.asserts@[k] == Ok::<CelValue, String>(CelValue::Bool(true))) by {
            assert(assertion_from(assert_exprs(t)[k], e.asserts@[k], o.assertions@[k]));
        }
    }
}

/// Whether an evaluation fits a test: no more `let` outcomes than lets; and when none
/// failed, one outcome for each assertion and each variable.
pub open spec fn fits(t: TestSpec, e: TestEvaluation) -> bool {
    &&& e.lets@.len() <= entries(t.lets).len()
    &&& (forall|i: int| 0 <= i < e.lets@.len() ==> (#[trigger] e.lets@[i]) is Ok) ==> {
        &&& e.asserts@.len() == assert_exprs(t).len()
        &&& e.vars@.len() == var_names(t).len()
    }
}

/// Whether an evaluation has the shape `conclude_test` takes for a test: no more `let`
/// outcomes than `let`s, and, where every `let` given succeeded, one outcome per
/// assertion and per variable.
pub fn evaluation_fits(t: &TestSpec, e: &TestEvaluation) -> (r: bool)
    ensures
        r == fits(*t, *e),
{
    let let_count = match &t.lets {
        Some(v) => v.len(),
        None => 0,
    };
    let assert_count = match &t.assert {
        Some(a) => a.len(),
        None => 0,
    };
    let var_count = match &t.vars {
        Some(v) => v.len(),
        None => 0,
    };
    if e.lets.len() > let_count {
        return false;
    }
    let mut all_ok = true;
    let mut i: usize = 0;
    while i < e.lets.len()
        invariant
            i <= e.lets@.len(),
            all_ok == forall|j: int| 0 <= j < i ==> (#[trigger] e.lets@[j]) is Ok,
        decreases e.lets@.len() - i,
    {
        if e.lets[i].is_err() {
            all_ok = false;
        }
        i += 1;
    }
    !all_ok || (e.asserts.len() == assert_count && e.vars.len() == var_count)
}

/// Concludes a test from what its CEL expressions gave.
pub fn conclude_test(test: &TestSpec, evaluation: TestEvaluation, context: &mut RunContext) -> (r:
    TestRunOutcome)
    requires
        fits(*test, evaluation),
    ensures
        concluded(*test, evaluation, old(context)@, final(context)@, r),
{
    let ghost e0 = evaluation;
    assert(e0 == evaluation);
    let TestEvaluation { result, lets, asserts, vars } = evaluation;
    let mut i: usize = 0;
    while i < lets.len()
        invariant
            i <= lets@.len(),
            forall|j: int| 0 <= j < i ==> (#[trigger] lets@[j]) is Ok,
            lets@ == e0.lets@,
            fits(*test, e0),
            result == e0.result,
            context@ == old(context)@,
            e0 == evaluation,
        decreases lets@.len() - i,
    {
        match &lets[i] {
            Err(error) => {
                let names = match &test.lets {
                    Some(l) => l,
                    None => {
                        proof {
                            assert(entries(test.lets).len() == 0);
                        }
                        return TestRunOutcome { test_result: Some(result), assertions: Vec::new(), summary_result: None };
                    },
                };
                proof {
                    assert(first_let_error(lets@, i as int));
                    let c = choose|c: int| first_let_error(lets@, c);
                    if c < i {
                        assert(lets@[c] is Ok);
                    } else if c > i {
                        assert(lets@[i as int] is Ok);
                    }
                    assert(entries(test.lets) == crate::models::pair_views(names@));
                }
                let err_text = error.clone();
                let a = let_failure_assertion(names[i].0.as_str(), names[i].1.as_str(), err_text);
                let mut assertions: Vec<Assertion> = Vec::new();
                assertions.push(a);
                proof {
                    assert(entries(test.lets)[i as int] == (names@[i as int].0@, names@[i as int].1@));
                    assert(e0.lets@[i as int]->Err_0@ == err_text@);
                    assert(assertions@[0] == a);
                }
                let r = TestRunOutcome {
                    test_result: Some(result),
                    assertions,
                    summary_result: Some(SummaryResult::Failed),
                };
                proof {
                    assert(concluded(*test, e0, old(context)@, context@, r));
                }
                return r;
            },
            Ok(()) => {},
        }
        i += 1;
    }
    proof {
        assert(!exists|c: int| first_let_error(lets@, c));
    }
    let mut assertions: Vec<Assertion> = Vec::new();
    let mut failed = false;
    let empty: Vec<String> = Vec::new();
    let exprs = match &test.assert {
        Some(a) => a,
        None => &empty,
    };
    assert(crate::strings::views(exprs@) == assert_exprs(*test));
    let outcomes = asserts;
    let mut k: usize = 0;
    while k < exprs.len()
        invariant
            k <= exprs@.len(),
            outcomes@.len() == exprs@.len(),
            crate::strings::views(exprs@) == assert_exprs(*test),
            assertions@.len() == k,
            forall|m: int|
                0 <= m < k ==> assertion_from(assert_exprs(*test)[m], e0.asserts@[m], #[trigger] assertions@[m]),
            failed == any_failed(assertions@),
            e0.asserts@.len() == exprs@.len(),
            outcomes@ == e0.asserts@,
        decreases exprs@.len() - k,
    {
        let evaluator = assertion_evaluator_for(exprs[k].as_str());
        let outcome = clone_cel_outcome(&outcomes[k]);
        let a = evaluator.evaluate(outcome);
        let passed = a.passed;
        let ghost before = assertions@;
        assertions.push(a);
        proof {
            if !passed {
                assert(!assertions@[k as int].passed);
            }
            if failed {
                let m = choose|m: int| 0 <= m < before.len() && !(#[trigger] before[m]).passed;
                assert(assertions@[m] == before[m]);
            }
            if any_failed(assertions@) && passed {
                let m = choose|m: int| 0 <= m < assertions@.len() && !(#[trigger] assertions@[m]).passed;
                assert(m < k);
                assert(before[m] == assertions@[m]);
            }
        }
        failed = failed || !passed;
        k += 1;
    }
    let empty_pairs: Vec<(String, String)> = Vec::new();
    let var_list = match &test.vars {
        Some(v) => v,
        None => &empty_pairs,
    };
    let assignment = variable_assignment_for(var_list);
    assert(assignment.names() =~= var_names(*test));
    assignment.set(&vars, context);
    let summary = if failed {
        SummaryResult::Failed
    } else {
        SummaryResult::Passed
    };
    TestRunOutcome { test_result: Some(result), assertions, summary_result: Some(summary) }
}

fn clone_cel_outcome(o: &Result<CelValue, String>) -> (r: Result<CelValue, String>)
    ensures
        r == *o || (match (r, *o) {
            (Ok(CelValue::Other(a)), Ok(CelValue::Other(b))) => a@ == b@,
            (Err(a), Err(b)) => a@ == b@,
            _ => false,
        }),
{
    match o {
        Ok(CelValue::Bool(b)) => Ok(CelValue::Bool(*b)),
        Ok(CelValue::Other(t)) => Ok(CelValue::Other(t.clone())),
        Err(e) => Err(e.clone()),
    }
}


// ---------------------------------------------------------------------------------
// Debug messages
// ---------------------------------------------------------------------------------

/// Header names in order of first appearance.
pub open spec fn header_keys(h: Seq<(Seq<char>, Seq<char>)>) -> Seq<Seq<char>>
    decreases h.len(),
{
    if h.len() == 0 {
        Seq::empty()
    } else {
        let ks = header_keys(h.drop_last());
        if ks.contains(h.last().0) {
            ks
        } else {
            ks.push(h.last().0)
        }
    }
}

/// The values of the headers named `k`, in order.
pub open spec fn header_values(h: Seq<(Seq<char>, Seq<char>)>, k: Seq<char>) -> Seq<Seq<char>>
    decreases h.len(),
{
    if h.len() == 0 {
        Seq::empty()
    } else {
        let vs = header_values(h.drop_last(), k);
        if h.last().0 == k {
            vs.push(h.last().1)
        } else {
            vs
        }
    }
}

/// One line per header name: `name: value1;value2`.
pub open spec fn headers_display(h: Seq<(Seq<char>, Seq<char>)>) -> Seq<char> {
    join(
        header_keys(h).map_values(|k: Seq<char>| k + ": "@ + join(header_values(h, k), ";"@)),
        "\n"@,
    )
}

fn header_values_of(h: &Vec<(String, String)>, k: &str) -> (r: Vec<String>)
    ensures
        crate::strings::views(r@) == header_values(crate::models::pair_views(h@), k@),
{
    let mut out: Vec<String> = Vec::new();
    let mut i: usize = 0;
    while i < h.len()
        invariant
            i <= h@.len(),
            crate::strings::views(out@) == header_values(crate::models::pair_views(h@.take(i as int)), k@),
        decreases h@.len() - i,
    {
        proof {
            assert(crate::models::pair_views(h@.take(i + 1)).drop_last() =~= crate::models::pair_views(
                h@.take(i as int),
            ));
        }
        if str_eq(h[i].0.as_str(), k) {
            let v = h[i].1.clone();
            proof {
                assert(crate::strings::views(out@.push(v)) =~= crate::strings::views(out@).push(v@));
            }
            out.push(v);
        }
        i += 1;
    }
    assert(h@.take(h@.len() as int) =~= h@);
    out
}

fn header_keys_of(h: &Vec<(String, String)>) -> (r: Vec<String>)
    ensures
        crate::strings::views(r@) == header_keys(crate::models::pair_views(h@)),
{
    let mut keys: Vec<String> = Vec::new();
    let mut i: usize = 0;
    while i < h.len()
        invariant
            i <= h@.len(),
            crate::strings::views(keys@) == header_keys(crate::models::pair_views(h@.take(i as int))),
        decreases h@.len() - i,
    {
        proof {
            assert(crate::models::pair_views(h@.take(i + 1)).drop_last() =~= crate::models::pair_views(
                h@.take(i as int),
            ));
        }
        let mut seen = false;
        let mut j: usize = 0;
        while j < keys.len()
            invariant
                j <= keys@.len(),
                seen == crate::strings::views(keys@).take(j as int).contains(h@[i as int].0@),
                i < h@.len(),
            decreases keys@.len() - j,
        {
            let ghost y = h@[i as int].0@;
            let ghost a = crate::strings::views(keys@).take(j as int);
            let ghost b = crate::strings::views(keys@).take(j + 1);
            proof {
                assert(b =~= a.push(keys@[j as int]@));
                if a.contains(y) {
                    let w = choose|w: int| 0 <= w < a.len() && a[w] == y;
                    assert(b[w] == y);
                }
                if keys@[j as int]@ == y {
                    assert(b[j as int] == y);
                }
                if b.contains(y) && !a.contains(y) {
                    let w = choose|w: int| 0 <= w < b.len() && b[w] == y;
                    if w < j {
                        assert(a[w] == y);
                    }
                }
            }
            if str_eq(keys[j].as_str(), h[i].0.as_str()) {
                seen = true;
            }
            j += 1;
        }
        assert(crate::strings::views(keys@).take(j as int) =~= crate::strings::views(keys@));
        if !seen {
            let k = h[i].0.clone();
            proof {
                assert(crate::strings::views(keys@.push(k)) =~= crate::strings::views(keys@).push(k@));
            }
            keys.push(k);
        }
        i += 1;
    }
    assert(h@.take(h@.len() as int) =~= h@);
    keys
}

/// The response headers as a debug message shows them.
pub fn headers_to_display(h: &Vec<(String, String)>) -> (r: String)
    ensures
        r@ == headers_display(crate::models::pair_views(h@)),
{
    let keys = header_keys_of(h);
    let mut lines: Vec<String> = Vec::new();
    let mut i: usize = 0;
    while i < keys.len()
        invariant
            i <= keys@.len(),
            crate::strings::views(keys@) == header_keys(crate::models::pair_views(h@)),
            crate::strings::views(lines@) == crate::strings::views(keys@).take(i as int).map_values(
                |k: Seq<char>| k + ": "@ + join(header_values(crate::models::pair_views(h@), k), ";"@),
            ),
        decreases keys@.len() - i,
    {
        let values = header_values_of(h, keys[i].as_str());
        let joined = crate::strings::join_strings(&values, ";");
        let line = concat3(keys[i].as_str(), ": ", joined.as_str());
        proof {
            assert(crate::strings::views(lines@.push(line)) =~= crate::strings::views(lines@).push(line@));
            assert(crate::strings::views(keys@).take(i + 1).map_values(
                |k: Seq<char>| k + ": "@ + join(header_values(crate::models::pair_views(h@), k), ";"@),
            ) =~= crate::strings::views(keys@).take(i as int).map_values(
                |k: Seq<char>| k + ": "@ + join(header_values(crate::models::pair_views(h@), k), ";"@),
            ).push(line@));
        }
        lines.push(line);
        i += 1;
    }
    assert(crate::strings::views(keys@).take(i as int) =~= crate::strings::views(keys@));
    crate::strings::join_strings(&lines, "\n")
}

/// The debug message of a test run: its URL and status, its response headers and body.
pub open spec fn debug_message_spec(t: TestSpec, options: RunOptions, r: TestResult) -> Seq<char> {
    "Route: "@ + resolve_route(t.route@, crate::models::opt_view(options.base_uri)) + " - "@ + decimal(
        r.status.code as nat,
    ) + "\nHeaders: \n"@ + headers_display(crate::models::pair_views(r.headers@)) + "\nBody: \n"@
        + r.body@
}

pub fn format_debug_message(test: &TestSpec, options: &RunOptions, result: &TestResult) -> (r: String)
    ensures
        r@ == debug_message_spec(*test, *options, *result),
{
    let route = resolved_route(test, options);
    let mut m = concat("Route: ", route.as_str());
    append_str(&mut m, " - ");
    let code = decimal_string(result.status.code as u64);
    append_str(&mut m, code.as_str());
    append_str(&mut m, "\nHeaders: \n");
    let headers = headers_to_display(&result.headers);
    append_str(&mut m, headers.as_str());
    append_str(&mut m, "\nBody: \n");
    append_str(&mut m, result.body.as_str());
    m
}


// ---------------------------------------------------------------------------------
// Running a file
// ---------------------------------------------------------------------------------

/// Runs one spec file: its root descriptor, in the file's place in discovery order, with
/// its directory's environment and options.
pub struct FileRunner<'a> {
    pub ordinal: usize,
    pub root: &'a Descriptor,
    pub envs: &'a Vec<(String, String)>,
    pub base_options: RunOptions,
    pub engine: &'a LiquidEngine,
    pub suite_path: &'a str,
}

/// A descriptor being expanded: which case it is at, and which child of the case.
struct Frame<'a> {
    descriptor: &'a Descriptor,
    ancestor_options: RunOptions,
    child_options: RunOptions,
    profile_count: usize,
    loop_count: usize,
    has_profile: bool,
    has_loop: bool,
    profile_index: usize,
    loop_index: usize,
    child_index: usize,
    in_case: bool,
    pushed_name: bool,
    scope: Option<crate::pipeline::run_context::IterationScope>,
}

/// The attempts of the case being run.
struct CaseRun<'a> {
    descriptor: &'a Descriptor,
    ancestor_options: RunOptions,
    snapshot: RunContext,
    attempts: Vec<AttemptOutcome>,
    retry_number: usize,
    saw_failure: bool,
    pending: Option<PendingAttempt>,
}

/// An attempt whose test request is out.
struct PendingAttempt {
    descriptor: Descriptor,
    options: RunOptions,
    test: TestSpec,
    title_path: Vec<String>,
}

/// A test to run: the request to send (none for an unsupported verb: nothing is sent and
/// the result is empty), and the rendered test whose `let`s, assertions and variables
/// are then evaluated against the result.
pub struct TestRequest {
    pub test: TestSpec,
    pub request: Option<HttpRequest>,
    pub spec_file: Option<String>,
}

/// What a file run needs next.
pub enum Step {
    /// Nothing from outside: step again.
    Continue,
    /// Run this test and hand back its evaluation with `complete`.
    Request(TestRequest),
    /// The file is done.
    Done(FileOutcome),
}

/// A spec file being run, one step at a time.
pub struct FileRun<'a> {
    ordinal: usize,
    file_name: String,
    base_options: RunOptions,
    engine: &'a LiquidEngine,
    context: RunContext,
    title_path: Vec<String>,
    outcomes: Vec<DescriptorOutcome>,
    stack: Vec<Frame<'a>>,
    current: Option<CaseRun<'a>>,
    finished: bool,
    root: Ghost<Descriptor>,
    visited: Ghost<Seq<Visit>>,
}

spec fn frame_wf(f: Frame) -> bool {
    &&& f.profile_count == profile_count_of(*f.descriptor)
    &&& f.loop_count == loop_count_of(*f.descriptor)
    &&& f.has_profile == f.descriptor.profiles is Some
    &&& f.child_index <= crate::models::children(*f.descriptor).len()
    &&& f.in_case ==> f.profile_index < f.profile_count && f.loop_index < f.loop_count
    &&& f.child_options@ == child_options_spec(f.ancestor_options@, *f.descriptor)
}

/// A case run in a file: a descriptor, the options its ancestors hand it, and which of
/// its profiles and loops.
pub struct Visit {
    pub descriptor: Descriptor,
    pub ancestor: RunOptionsView,
    pub profile_index: nat,
    pub loop_index: nat,
}

/// The cases of a descriptor from case (`p`, `l`) on, in order (profile by profile, each
/// profile's loops in order), each followed by the cases of its children, depth first in
/// source order, under the options it hands them.
pub open spec fn cases_from(d: Descriptor, anc: RunOptionsView, p: nat, l: nat) -> Seq<Visit>
    decreases d, profile_count_of(d) - p, loop_count_of(d) - l,
{
    if p >= profile_count_of(d) {
        Seq::empty()
    } else if l >= loop_count_of(d) {
        cases_from(d, anc, p + 1, 0)
    } else {
        seq![Visit { descriptor: d, ancestor: anc, profile_index: p, loop_index: l }] + match d.describe {
            Some(v) => forest_visits(v@, child_options_spec(anc, d)),
            None => Seq::empty(),
        } + cases_from(d, anc, p, l + 1)
    }
}

/// The cases of descriptors in order, each under `anc`.
pub open spec fn forest_visits(ds: Seq<Descriptor>, anc: RunOptionsView) -> Seq<Visit>
    decreases ds, 0nat, 0nat,
{
    if ds.len() == 0 {
        Seq::empty()
    } else {
        cases_from(ds[0], anc, 0, 0) + forest_visits(ds.subrange(1, ds.len() as int), anc)
    }
}

/// Every case of a descriptor tree, in the order they run.
pub open spec fn tree_visits(d: Descriptor, anc: RunOptionsView) -> Seq<Visit> {
    cases_from(d, anc, 0, 0)
}

/// The cases of a childless descriptor from number `n` on (`n` is `p * loop_count + l`):
/// case `k` of them is number `n + k`, of profile `(n + k) / loop_count` and loop
/// `(n + k) % loop_count`.
proof fn lemma_cases_from_leaf(d: Descriptor, anc: RunOptionsView, p: nat, l: nat)
    requires
        crate::models::children(d).len() == 0,
        loop_count_of(d) > 0,
        l <= loop_count_of(d),
        p * loop_count_of(d) + l <= profile_count_of(d) * loop_count_of(d),
    ensures
        cases_from(d, anc, p, l).len() == profile_count_of(d) * loop_count_of(d) - (p * loop_count_of(d) + l),
        forall|k: int|
            0 <= k < cases_from(d, anc, p, l).len() ==> #[trigger] cases_from(d, anc, p, l)[k] == (Visit {
                descriptor: d,
                ancestor: anc,
                profile_index: ((p * loop_count_of(d) + l + k) / (loop_count_of(d) as int)) as nat,
                loop_index: ((p * loop_count_of(d) + l + k) % (loop_count_of(d) as int)) as nat,
            }),
    decreases profile_count_of(d) - p, loop_count_of(d) - l,
{
    let pc = profile_count_of(d);
    let lc = loop_count_of(d);
    if p >= pc {
        assert(p * lc >= pc * lc) by (nonlinear_arith)
            requires
                p >= pc,
        ;
        assert(l == 0);
        assert(p * lc == pc * lc) by (nonlinear_arith)
            requires
                p * lc + l <= pc * lc,
                p * lc >= pc * lc,
                l == 0,
        ;
    } else if l >= lc {
        assert(p * lc + l == (p + 1) * lc) by (nonlinear_arith)
            requires
                l == lc,
        ;
        lemma_cases_from_leaf(d, anc, p + 1, 0);
    } else {
        assert((p + 1) * lc <= pc * lc) by (nonlinear_arith)
            requires
                p < pc,
        ;
        assert((p + 1) * lc == p * lc + lc) by (nonlinear_arith);
        lemma_cases_from_leaf(d, anc, p, l + 1);
        let rest = cases_from(d, anc, p, l + 1);
        let mid: Seq<Visit> = match d.describe {
            Some(v) => forest_visits(v@, child_options_spec(anc, d)),
            None => Seq::empty(),
        };
        assert(mid.len() == 0);
        let head = seq![Visit { descriptor: d, ancestor: anc, profile_index: p, loop_index: l }];
        assert(cases_from(d, anc, p, l) == head + mid + rest);
        assert(cases_from(d, anc, p, l) =~= head + rest);
        let n: int = (p * lc + l) as int;
        vstd::arithmetic::div_mod::lemma_fundamental_div_mod_converse(n, lc as int, p as int, l as int);
        assert forall|k: int| 0 <= k < cases_from(d, anc, p, l).len() implies #[trigger] cases_from(d, anc, p, l)[k]
            == (Visit {
            descriptor: d,
            ancestor: anc,
            profile_index: ((n + k) / (lc as int)) as nat,
            loop_index: ((n + k) % (lc as int)) as nat,
        }) by {
            if k > 0 {
                assert(cases_from(d, anc, p, l)[k] == rest[k - 1]);
                assert(p * lc + (l + 1) + (k - 1) == n + k);
            }
        }
    }
}

/// A descriptor without children runs `profile_count * loop_count` cases, profile by
/// profile: its case `k` is that of profile `k / loop_count` and loop `k % loop_count`.
pub proof fn childless_cases_run_profile_by_profile(d: Descriptor, anc: RunOptionsView)
    requires
        crate::models::children(d).len() == 0,
    ensures
        tree_visits(d, anc).len() == profile_count_of(d) * loop_count_of(d),
        forall|k: int|
            0 <= k < tree_visits(d, anc).len() ==> #[trigger] tree_visits(d, anc)[k] == (Visit {
                descriptor: d,
                ancestor: anc,
                profile_index: (k / (loop_count_of(d) as int)) as nat,
                loop_index: (k % (loop_count_of(d) as int)) as nat,
            }),
{
    if loop_count_of(d) > 0 {
        lemma_cases_from_leaf(d, anc, 0, 0);
        assert(0 * loop_count_of(d) + 0 == 0) by (nonlinear_arith);
    } else {
        lemma_no_loops_no_cases(d, anc, 0);
    }
}

proof fn lemma_no_loops_no_cases(d: Descriptor, anc: RunOptionsView, p: nat)
    requires
        loop_count_of(d) == 0,
    ensures
        cases_from(d, anc, p, 0).len() == 0,
    decreases profile_count_of(d) - p,
{
    if p < profile_count_of(d) {
        lemma_no_loops_no_cases(d, anc, p + 1);
    }
}

/// An attempt's options are those of its case, the base under its ancestors' under its
/// own (the base URI as rendered).
pub open spec fn options_fit(o: RunOptions, base: RunOptions, v: Visit) -> bool {
    (RunOptionsView { base_uri: None, ..o@ }) == (RunOptionsView {
        base_uri: None,
        ..attempt_options(base@, v.ancestor, v.descriptor)
    })
}

/// An attempt fits its case: its options, and a result exactly when the case has a test.
pub open spec fn attempt_fits(a: AttemptOutcome, base: RunOptions, v: Visit) -> bool {
    &&& options_fit(a.options, base, v)
    &&& (a.result is None <==> v.descriptor.test is None)
}

/// A case's outcome fits the case: at least one attempt, each fitting, and a final
/// result exactly when the case has a test.
pub open spec fn outcome_fits(o: DescriptorOutcome, base: RunOptions, v: Visit) -> bool {
    &&& o.attempts@.len() > 0
    &&& forall|j: int| 0 <= j < o.attempts@.len() ==> attempt_fits(#[trigger] o.attempts@[j], base, v)
    &&& (o.final_result is None <==> v.descriptor.test is None)
}

/// The cases a frame has still to run.
spec fn frame_remaining(f: Frame) -> Seq<Visit> {
    if f.in_case {
        forest_visits(crate::models::children(*f.descriptor).skip(f.child_index as int), f.child_options@)
            + cases_from(*f.descriptor, f.ancestor_options@, f.profile_index as nat, (f.loop_index + 1) as nat)
    } else {
        cases_from(*f.descriptor, f.ancestor_options@, f.profile_index as nat, f.loop_index as nat)
    }
}

/// The cases a stack of frames has still to run: the top frame's first.
spec fn remaining(stack: Seq<Frame>) -> Seq<Visit>
    decreases stack.len(),
{
    if stack.len() == 0 {
        Seq::empty()
    } else {
        frame_remaining(stack.last()) + remaining(stack.drop_last())
    }
}

proof fn lemma_remaining_push(rest: Seq<Frame>, f: Frame)
    ensures
        remaining(rest.push(f)) == frame_remaining(f) + remaining(rest),
{
    assert(rest.push(f).drop_last() =~= rest);
}

proof fn lemma_forest_skip(ds: Seq<Descriptor>, i: int, anc: RunOptionsView)
    requires
        0 <= i < ds.len(),
    ensures
        forest_visits(ds.skip(i), anc) == cases_from(ds[i], anc, 0, 0) + forest_visits(ds.skip(i + 1), anc),
{
    assert(ds.skip(i).subrange(1, ds.skip(i).len() as int) =~= ds.skip(i + 1));
    assert(ds.skip(i)[0] == ds[i]);
}

proof fn lemma_forest_end(ds: Seq<Descriptor>, anc: RunOptionsView)
    ensures
        forest_visits(ds.skip(ds.len() as int), anc) == Seq::<Visit>::empty(),
{
    assert(ds.skip(ds.len() as int).len() == 0);
}

/// The steps a descriptor's frame takes from case (`p`, `l`) on until it is left: for each
/// case, its start, its first attempt, a step to enter each child with the child's own
/// steps, and its end; a step past each profile; and a last step to leave the frame.
pub open spec fn steps_from(d: Descriptor, p: nat, l: nat) -> nat
    decreases d, profile_count_of(d) - p, loop_count_of(d) - l,
{
    if p >= profile_count_of(d) {
        1
    } else if l >= loop_count_of(d) {
        1 + steps_from(d, p + 1, 0)
    } else {
        3 + match d.describe {
            Some(v) => forest_steps(v@),
            None => 0,
        } + steps_from(d, p, l + 1)
    }
}

/// The steps of descriptors run one after the other: a step to enter each, and its own.
pub open spec fn forest_steps(ds: Seq<Descriptor>) -> nat
    decreases ds, 0nat, 0nat,
{
    if ds.len() == 0 {
        0
    } else {
        1 + steps_from(ds[0], 0, 0) + forest_steps(ds.subrange(1, ds.len() as int))
    }
}

/// The steps a frame has still to take.
spec fn frame_steps(f: Frame) -> nat {
    if f.in_case {
        forest_steps(crate::models::children(*f.descriptor).skip(f.child_index as int)) + 1 + steps_from(
            *f.descriptor,
            f.profile_index as nat,
            (f.loop_index + 1) as nat,
        )
    } else {
        steps_from(*f.descriptor, f.profile_index as nat, f.loop_index as nat)
    }
}

/// The steps a stack of frames has still to take.
spec fn stack_steps(stack: Seq<Frame>) -> nat
    decreases stack.len(),
{
    if stack.len() == 0 {
        0
    } else {
        frame_steps(stack.last()) + stack_steps(stack.drop_last())
    }
}

proof fn lemma_stack_steps_push(rest: Seq<Frame>, f: Frame)
    ensures
        stack_steps(rest.push(f)) == frame_steps(f) + stack_steps(rest),
{
    assert(rest.push(f).drop_last() =~= rest);
}

proof fn lemma_forest_steps_skip(ds: Seq<Descriptor>, i: int)
    requires
        0 <= i < ds.len(),
    ensures
        forest_steps(ds.skip(i)) == 1 + steps_from(ds[i], 0, 0) + forest_steps(ds.skip(i + 1)),
{
    assert(ds.skip(i).subrange(1, ds.skip(i).len() as int) =~= ds.skip(i + 1));
    assert(ds.skip(i)[0] == ds[i]);
}

proof fn lemma_forest_steps_end(ds: Seq<Descriptor>)
    ensures
        forest_steps(ds.skip(ds.len() as int)) == 0,
{
    assert(ds.skip(ds.len() as int).len() == 0);
}

/// The retries an attempt's options allow.
pub open spec fn max_retries_of(o: RunOptions) -> nat {
    match o.retries {
        Some(n) => n as nat,
        None => 0,
    }
}

/// The pause an attempt's options ask for before a retry.
pub open spec fn retry_delay_of(o: RunOptions) -> u64 {
    match o.retry_delay_ms {
        Some(d) => d,
        None => 0,
    }
}

impl<'a> FileRunner<'a> {
    pub fn new(
        ordinal: usize,
        root: &'a Descriptor,
        envs: &'a Vec<(String, String)>,
        base_options: RunOptions,
        engine: &'a LiquidEngine,
        suite_path: &'a str,
    ) -> (r: FileRunner<'a>)
        ensures
            r.ordinal == ordinal,
            r.root == root,
            r.envs == envs,
            r.base_options == base_options,
            r.engine == engine,
            r.suite_path == suite_path,
    {
        FileRunner { ordinal, root, envs, base_options, engine, suite_path }
    }

    /// Starts the file: its context holds the file's name and environment, and its root
    /// descriptor is the first to run, under no ancestor options.
    pub fn start(&self) -> (r: FileRun<'a>)
        ensures
            r.wf(),
            !r.awaiting(),
            !r.finished(),
            r.outcomes_view().len() == 0,
            r.context_view().file_name == or_empty_name(self.root.file),
            r.context_view().envs == crate::models::pair_views(self.envs@),
            r.context_view().vars.len() == 0,
            r.root_view() == *self.root,
            r.visited().len() == 0,
            r.base_view()@ == self.base_options@,
            r.steps_left() == steps_from(*self.root, 0, 0),
    {
        let file_name = match &self.root.file {
            Some(f) => copy_str(f.as_str()),
            None => String::new(),
        };
        let context = RunContext::new(file_name.as_str(), self.envs);
        let mut stack: Vec<Frame<'a>> = Vec::new();
        let first = new_frame(self.root, RunOptions::empty());
        stack.push(first);
        proof {
            lemma_remaining_push(Seq::empty(), first);
            lemma_stack_steps_push(Seq::empty(), first);
            assert(Seq::<Frame>::empty().push(first) =~= stack@);
            assert(Seq::<Visit>::empty() + remaining(stack@) =~= tree_visits(*self.root, empty_options()));
        }
        FileRun {
            ordinal: self.ordinal,
            file_name,
            base_options: self.base_options.duplicate(),
            engine: self.engine,
            context,
            title_path: Vec::new(),
            outcomes: Vec::new(),
            stack,
            current: None,
            finished: false,
            root: Ghost(*self.root),
            visited: Ghost(Seq::empty()),
        }
    }
}

/// A file's name as its context shows it (empty when the descriptor has no file).
pub open spec fn or_empty_name(f: Option<String>) -> Seq<char> {
    match f {
        Some(s) => s@,
        None => Seq::empty(),
    }
}

fn new_frame<'a>(d: &'a Descriptor, ancestor_options: RunOptions) -> (r: Frame<'a>)
    ensures
        frame_wf(r),
        r.descriptor == d,
        !r.in_case,
        r.ancestor_options@ == ancestor_options@,
        r.child_options@ == child_options_spec(ancestor_options@, *d),
        r.profile_index == 0,
        r.loop_index == 0,
        r.child_index == 0,
{
    let profile_count = match &d.profiles {
        Some(p) => p.len(),
        None => 1,
    };
    let (loop_count, has_loop) = match &d.options {
        Some(o) => match o.loop_count {
            Some(n) => (n, true),
            None => (1, false),
        },
        None => (1, false),
    };
    let child_options = child_options_for(&ancestor_options, d);
    Frame {
        descriptor: d,
        ancestor_options,
        child_options,
        profile_count,
        loop_count,
        has_profile: d.profiles.is_some(),
        has_loop,
        profile_index: 0,
        loop_index: 0,
        child_index: 0,
        in_case: false,
        pushed_name: false,
        scope: None,
    }
}

/// A name worth showing in a title path: present and not blank.
fn shown_name(d: &Descriptor) -> (r: Option<String>)
    ensures
        r is Some <==> (d.name is Some && !crate::strings::is_blank(d.name->0@)),
        r is Some ==> r->0@ == d.name->0@,
{
    match &d.name {
        Some(n) => {
            if crate::strings::str_is_blank(n.as_str()) {
                None
            } else {
                Some(n.clone())
            }
        },
        None => None,
    }
}

impl<'a> FileRun<'a> {
    /// The run's invariant: every frame is at a valid case and child, and a case is run
    /// only inside the descriptor frame on top.
    pub closed spec fn wf(&self) -> bool {
        &&& forall|i: int| 0 <= i < self.stack@.len() ==> frame_wf(#[trigger] self.stack@[i])
        &&& self.current is Some ==> self.stack@.len() > 0 && self.stack@.last().in_case
        &&& self.finished ==> self.stack@.len() == 0 && self.current is None
        &&& self.visited@ + remaining(self.stack@) == tree_visits(self.root@, empty_options())
        &&& self.current is None && !self.finished ==> self.outcomes@.len() == self.visited@.len()
        &&& self.current matches Some(c) ==> {
            &&& self.outcomes@.len() + 1 == self.visited@.len()
            &&& *c.descriptor == self.visited@.last().descriptor
            &&& c.ancestor_options@ == self.visited@.last().ancestor
            &&& forall|j: int|
                0 <= j < c.attempts@.len() ==> attempt_fits(
                    #[trigger] c.attempts@[j],
                    self.base_options,
                    self.visited@.last(),
                )
            &&& c.pending matches Some(p) ==> {
                &&& options_fit(p.options, self.base_options, self.visited@.last())
                &&& self.visited@.last().descriptor.test is Some
            }
        }
        &&& forall|k: int|
            0 <= k < self.outcomes@.len() ==> outcome_fits(
                #[trigger] self.outcomes@[k],
                self.base_options,
                self.visited@[k],
            )
    }

    /// The steps the run has still to take before its outcome is handed out, not counting
    /// the attempts that retries will add.
    pub closed spec fn steps_left(&self) -> nat {
        stack_steps(self.stack@) + match self.current {
            Some(c) => if c.pending is None {
                1nat
            } else {
                0nat
            },
            None => 0nat,
        }
    }

    /// The options every attempt starts from.
    pub closed spec fn base_view(&self) -> RunOptions {
        self.base_options
    }

    /// The root descriptor of the file.
    pub closed spec fn root_view(&self) -> Descriptor {
        self.root@
    }

    /// The cases started so far, in order.
    pub closed spec fn visited(&self) -> Seq<Visit> {
        self.visited@
    }

    /// The file's place in discovery order.
    pub closed spec fn ordinal_view(&self) -> usize {
        self.ordinal
    }

    /// A test request is out and its evaluation is awaited.
    pub closed spec fn awaiting(&self) -> bool {
        self.current matches Some(c) && c.pending is Some
    }

    /// The file is done and its outcome was handed out.
    pub closed spec fn finished(&self) -> bool {
        self.finished
    }

    /// The case outcomes so far, in the order the cases ran.
    pub closed spec fn outcomes_view(&self) -> Seq<DescriptorOutcome> {
        self.outcomes@
    }

    /// What templates see now.
    pub closed spec fn context_view(&self) -> RunContextView {
        self.context@
    }

    /// The titles of the named descriptors around the current one.
    pub closed spec fn title_path_view(&self) -> Seq<Seq<char>> {
        crate::strings::views(self.title_path@)
    }

    /// The rendered test whose evaluation is awaited.
    pub closed spec fn pending_test(&self) -> TestSpec {
        self.current->0.pending->0.test
    }

    /// The options of the attempt whose evaluation is awaited.
    pub closed spec fn pending_options(&self) -> RunOptions {
        self.current->0.pending->0.options
    }

    /// The context as it was when the current case started (what a retry starts from).
    pub closed spec fn snapshot_view(&self) -> RunContextView {
        self.current->0.snapshot@
    }

    /// The current case's attempt number (0 for the first).
    pub closed spec fn retry_number(&self) -> usize {
        self.current->0.retry_number
    }

    /// Whether an attempt of the current case failed.
    pub closed spec fn saw_failure(&self) -> bool {
        self.current->0.saw_failure
    }

    /// The attempts of the current case so far.
    pub closed spec fn attempts_view(&self) -> Seq<AttemptOutcome> {
        self.current->0.attempts@
    }

    /// Whether a case is being run (attempts follow until it ends).
    pub closed spec fn in_case_run(&self) -> bool {
        self.current is Some
    }

    /// Whether a test's evaluation is awaited (to be handed to `complete`).
    pub fn is_awaiting(&self) -> (r: bool)
        ensures
            r == self.awaiting(),
    {
        match &self.current {
            Some(c) => c.pending.is_some(),
            None => false,
        }
    }

    /// Whether the file is done.
    pub fn is_finished(&self) -> (r: bool)
        ensures
            r == self.finished(),
    {
        self.finished
    }

    /// Records an attempt of the current case and decides what follows: a retry (the
    /// context goes back to what it was when the case started; the pause before it is
    /// returned) or the end of the case (its outcome is recorded and its rendered name,
    /// when it has one, titles its children).
    fn finish_attempt(&mut self, attempt: AttemptOutcome) -> (r: u64)
        requires
            old(self).wf(),
            old(self).current is Some,
            old(self).current->0.pending is None,
            attempt_fits(attempt, old(self).base_options, old(self).visited@.last()),
        ensures
            final(self).wf(),
            !final(self).awaiting(),
            !final(self).finished(),
            final(self).finished == old(self).finished,
            final(self).root == old(self).root,
            final(self).visited == old(self).visited,
            final(self).base_options == old(self).base_options,
            stack_steps(final(self).stack@) == stack_steps(old(self).stack@),
            ({
                let d = retry_spec(
                    attempt.result,
                    old(self).current->0.retry_number as nat,
                    max_retries_of(attempt.options),
                    old(self).current->0.saw_failure,
                );
                &&& d == RetryDecision::Retry ==> {
                    &&& final(self).current is Some
                    &&& final(self).context@ == old(self).current->0.snapshot@
                    &&& final(self).current->0.snapshot@ == old(self).current->0.snapshot@
                    &&& final(self).current->0.retry_number == old(self).current->0.retry_number + 1
                    &&& final(self).current->0.saw_failure
                    &&& final(self).current->0.attempts@ == old(self).current->0.attempts@.push(attempt)
                    &&& final(self).outcomes@ == old(self).outcomes@
                    &&& r == retry_delay_of(attempt.options)
                }
                &&& d matches RetryDecision::Finish(f) ==> {
                    &&& final(self).current is None
                    &&& final(self).context@ == old(self).context@
                    &&& final(self).outcomes@.len() == old(self).outcomes@.len() + 1
                    &&& final(self).outcomes@.drop_last() == old(self).outcomes@
                    &&& final(self).outcomes@.last().final_result == f
                    &&& final(self).outcomes@.last().attempts@ == old(self).current->0.attempts@.push(attempt)
                    &&& r == 0
                }
            }),
    {
        let mut cur = match self.current.take() {
            Some(c) => c,
            None => {
                proof {
                    assert(false);
                }
                return 0;
            },
        };
        let result = attempt.result;
        let max_retries = match attempt.options.retries {
            Some(n) => n,
            None => 0,
        };
        let delay = attempt.options.retry_delay();
        let name = shown_name(&attempt.descriptor);
        cur.attempts.push(attempt);
        match decide_retry(result, cur.retry_number, max_retries, cur.saw_failure) {
            RetryDecision::Retry => {
                cur.retry_number = cur.retry_number + 1;
                cur.saw_failure = true;
                self.context = cur.snapshot.duplicate();
                self.current = Some(cur);
                delay
            },
            RetryDecision::Finish(f) => {
                let CaseRun { attempts, .. } = cur;
                self.outcomes.push(DescriptorOutcome { attempts, final_result: f });
                proof {
                    assert(self.outcomes@.drop_last() =~= old(self).outcomes@);
                }
                match name {
                    Some(n) => {
                        self.title_path.push(n);
                        let mut top = match self.stack.pop() {
                            Some(t) => t,
                            None => {
                                proof {
                                    assert(false);
                                }
                                return 0;
                            },
                        };
                        let ghost top0 = top;
                        let ghost rest = self.stack@;
                        top.pushed_name = true;
                        let ghost before = self.stack@;
                        self.stack.push(top);
                        proof {
                            lemma_remaining_push(rest, top0);
                            lemma_remaining_push(rest, top);
                            lemma_stack_steps_push(rest, top0);
                            lemma_stack_steps_push(rest, top);
                            assert(old(self).stack@ == rest.push(top0));
                            assert(frame_remaining(top) == frame_remaining(top0));
                            assert(frame_steps(top) == frame_steps(top0));
                            assert forall|i: int| 0 <= i < self.stack@.len() implies frame_wf(
                                #[trigger] self.stack@[i],
                            ) by {
                                if i < self.stack@.len() - 1 {
                                    assert(self.stack@[i] == old(self).stack@[i]);
                                }
                            }
                        }
                    },
                    None => {},
                }
                0
            },
        }
    }

    /// Starts the next attempt of the current case: renders the descriptor and its options
    /// with the context (the attempt number set first). A descriptor without a test, or
    /// whose `skip` says so, ends the attempt at once; otherwise its rendered test is
    /// handed out to run.
    fn start_attempt(&mut self) -> (r: Step)
        requires
            old(self).wf(),
            old(self).current is Some,
            old(self).current->0.pending is None,
            !old(self).finished,
        ensures
            final(self).wf(),
            !final(self).finished(),
            r is Request == final(self).awaiting(),
            r is Done == false,
            final(self).steps_left() + 1 == old(self).steps_left(),
            old(self).visited().last().descriptor.test is Some && !may_skip(
                attempt_options(
                    old(self).base_view()@,
                    old(self).visited().last().ancestor,
                    old(self).visited().last().descriptor,
                ).skip,
            ) ==> r is Request,
            old(self).visited().last().descriptor.test is Some && must_skip(
                attempt_options(
                    old(self).base_view()@,
                    old(self).visited().last().ancestor,
                    old(self).visited().last().descriptor,
                ).skip,
            ) ==> r is Continue,
            r is Request ==> final(self).snapshot_view() == old(self).snapshot_view(),
            r is Request ==> final(self).saw_failure() == old(self).saw_failure(),
            r is Continue ==> final(self).outcomes@.len() == old(self).outcomes@.len() + 1
                && final(self).outcomes@.last().final_result == (if old(self).current->0.descriptor.test is None {
                None::<SummaryResult>
            } else {
                Some(SummaryResult::Skipped)
            }),
            final(self).root == old(self).root,
            final(self).visited == old(self).visited,
            final(self).base_options == old(self).base_options,
            old(self).outcomes@.len() <= final(self).outcomes@.len(),
            r matches Step::Request(t) ==> {
                &&& t.test@ == final(self).pending_test()@
                &&& request_ok(
                    t.request,
                    resolve_route(t.test.route@, crate::models::opt_view(final(self).pending_options().base_uri)),
                    t.test@,
                )
                &&& final(self).pending_options()@.base_uri is Some == attempt_options(
                    old(self).base_options@,
                    old(self).current->0.ancestor_options@,
                    *old(self).current->0.descriptor,
                ).base_uri is Some
                &&& (RunOptionsView { base_uri: None, ..final(self).pending_options()@ }) == (
                RunOptionsView {
                    base_uri: None,
                    ..attempt_options(
                        old(self).base_options@,
                        old(self).current->0.ancestor_options@,
                        *old(self).current->0.descriptor,
                    )
                })
                &&& final(self).context@ == (RunContextView {
                    retry_attempts: old(self).current->0.retry_number,
                    ..old(self).context@
                })
                &&& final(self).current->0.snapshot@ == old(self).current->0.snapshot@
                &&& final(self).current->0.retry_number == old(self).current->0.retry_number
                &&& final(self).current->0.saw_failure == old(self).current->0.saw_failure
                &&& final(self).current->0.attempts@ == old(self).current->0.attempts@
                &&& final(self).outcomes@ == old(self).outcomes@
            },
    {
        let mut cur = match self.current.take() {
            Some(c) => c,
            None => {
                proof {
                    assert(false);
                }
                return Step::Continue;
            },
        };
        self.context.retry_attempts = cur.retry_number;
        let g = self.context.globals();
        let merged = options_for_descriptor(&self.base_options, &cur.ancestor_options, cur.descriptor);
        let options = render_options(&merged, self.engine, &g);
        let title_path = crate::models::copy_strings(&self.title_path);
        let d = cur.descriptor;
        match &d.test {
            None => {
                let descriptor = render_descriptor(d, None, self.engine, &g);
                let attempt = AttemptOutcome {
                    descriptor,
                    title_path,
                    options,
                    test_result: None,
                    assertions: Vec::new(),
                    result: None,
                    debug_message: None,
                };
                self.current = Some(cur);
                self.finish_attempt(attempt);
                Step::Continue
            },
            Some(test) => {
                let skip = match &options.skip {
                    Some(s) => resolve_skip(s, self.engine, &g),
                    None => false,
                };
                if skip {
                    let descriptor = render_descriptor(d, Some(test.duplicate()), self.engine, &g);
                    let attempt = AttemptOutcome {
                        descriptor,
                        title_path,
                        options,
                        test_result: None,
                        assertions: Vec::new(),
                        result: Some(SummaryResult::Skipped),
                        debug_message: None,
                    };
                    self.current = Some(cur);
                    self.finish_attempt(attempt);
                    return Step::Continue;
                }
                let rendered = render_test(test, self.engine, &g);
                let runner = test_runner_for(&rendered, &options);
                let request = runner.request();
                let descriptor = render_descriptor(d, Some(rendered.duplicate()), self.engine, &g);
                let spec_file = crate::strings::copy_opt(&d.file);
                let handed = rendered.duplicate();
                cur.pending = Some(PendingAttempt { descriptor, options, test: rendered, title_path });
                self.current = Some(cur);
                proof {
                    assert(handed@ == self.pending_test()@);
                }
                Step::Request(TestRequest { test: handed, request, spec_file })
            },
        }
    }

    /// Takes the next step of the file: the next attempt of the current case, the next
    /// case or child of the descriptor on top, or the file's outcome once every case ran.
    /// Each step before the outcome takes one of the steps left; the outcome comes when
    /// none is left.
    #[verifier::rlimit(90)]
    pub fn step(&mut self) -> (r: Step)
        requires
            old(self).wf(),
            !old(self).awaiting(),
            !old(self).finished(),
        ensures
            final(self).wf(),
            r is Request == final(self).awaiting(),
            r is Done == final(self).finished(),
            r matches Step::Done(f) ==> f.descriptors@ == old(self).outcomes_view() && f.ordinal
                == old(self).ordinal_view(),
            !(r is Done) ==> old(self).outcomes_view().len() <= final(self).outcomes_view().len(),
            !(r is Done) ==> final(self).steps_left() + 1 == old(self).steps_left(),
            r is Done ==> old(self).steps_left() == 0,
            old(self).in_case_run() && r is Continue ==> final(self).outcomes_view().len()
                == old(self).outcomes_view().len() + 1 && final(self).outcomes_view().last().final_result == (
            if old(self).visited().last().descriptor.test is None {
                None::<SummaryResult>
            } else {
                Some(SummaryResult::Skipped)
            }),
            old(self).in_case_run() && old(self).visited().last().descriptor.test is Some && !may_skip(
                attempt_options(
                    old(self).base_view()@,
                    old(self).visited().last().ancestor,
                    old(self).visited().last().descriptor,
                ).skip,
            ) ==> r is Request,
            old(self).in_case_run() && old(self).visited().last().descriptor.test is Some && must_skip(
                attempt_options(
                    old(self).base_view()@,
                    old(self).visited().last().ancestor,
                    old(self).visited().last().descriptor,
                ).skip,
            ) ==> r is Continue,
            !old(self).in_case_run() && final(self).in_case_run() ==> {
                &&& final(self).retry_number() == 0
                &&& !final(self).saw_failure()
                &&& final(self).attempts_view().len() == 0
                &&& final(self).snapshot_view() == final(self).context_view()
            },
            r matches Step::Request(t) ==> {
                &&& old(self).in_case_run()
                &&& final(self).snapshot_view() == old(self).snapshot_view()
                &&& final(self).saw_failure() == old(self).saw_failure()
                &&& t.test@ == final(self).pending_test()@
                &&& request_ok(
                    t.request,
                    resolve_route(t.test.route@, crate::models::opt_view(final(self).pending_options().base_uri)),
                    t.test@,
                )
                &&& options_fit(final(self).pending_options(), final(self).base_view(), final(self).visited().last())
                &&& final(self).context_view() == (RunContextView {
                    retry_attempts: old(self).retry_number(),
                    ..old(self).context_view()
                })
                &&& final(self).visited() == old(self).visited()
                &&& final(self).retry_number() == old(self).retry_number()
                &&& final(self).attempts_view() == old(self).attempts_view()
                &&& final(self).outcomes_view() == old(self).outcomes_view()
            },
            final(self).root_view() == old(self).root_view(),
            final(self).visited().subrange(0, old(self).visited().len() as int) == old(self).visited(),
            r is Done ==> final(self).visited() == tree_visits(final(self).root_view(), empty_options()),
            final(self).base_view() == old(self).base_view(),
            r matches Step::Done(f) ==> f.descriptors@.len() == final(self).visited().len() && forall|k: int|
                0 <= k < f.descriptors@.len() ==> outcome_fits(
                    #[trigger] f.descriptors@[k],
                    final(self).base_view(),
                    final(self).visited()[k],
                ),
    {
        if self.current.is_some() {
            return self.start_attempt();
        }
        let mut f = match self.stack.pop() {
            Some(f) => f,
            None => {
                let mut descriptors: Vec<DescriptorOutcome> = Vec::new();
                std::mem::swap(&mut descriptors, &mut self.outcomes);
                self.finished = true;
                return Step::Done(
                    FileOutcome { ordinal: self.ordinal, source_file: self.file_name.clone(), descriptors },
                );
            },
        };
        let ghost rest = self.stack@;
        let ghost f0 = f;
        proof {
            assert forall|i: int| 0 <= i < self.stack@.len() implies frame_wf(#[trigger] self.stack@[i]) by {
                assert(self.stack@[i] == old(self).stack@[i]);
            }
            assert(frame_wf(f)) by {
                assert(f == old(self).stack@[old(self).stack@.len() - 1]);
            }
            assert(old(self).stack@ == rest.push(f0));
            lemma_remaining_push(rest, f0);
            lemma_stack_steps_push(rest, f0);
        }
        if !f.in_case {
            if f.profile_index >= f.profile_count {
                proof {
                    assert(frame_remaining(f0) == Seq::<Visit>::empty());
                    assert(self.visited@ + remaining(self.stack@) =~= old(self).visited@ + remaining(
                        old(self).stack@,
                    ));
                }
                return Step::Continue;
            }
            if f.loop_index >= f.loop_count {
                f.profile_index = f.profile_index + 1;
                f.loop_index = 0;
                self.stack.push(f);
                proof {
                    lemma_remaining_push(rest, f);
                    lemma_stack_steps_push(rest, f);
                    assert(frame_remaining(f) == frame_remaining(f0));
                }
                return Step::Continue;
            }
            if f.has_profile || f.has_loop {
                let g = self.context.globals();
                let profile = match &f.descriptor.profiles {
                    Some(ps) => Some(render_profile(&ps[f.profile_index], self.engine, &g)),
                    None => None,
                };
                let it = iteration_for(
                    f.profile_index,
                    f.loop_index,
                    f.profile_count,
                    f.loop_count,
                    f.has_profile,
                    f.has_loop,
                );
                f.scope = Some(self.context.enter_iteration(profile, it));
            }
            f.in_case = true;
            f.child_index = 0;
            f.pushed_name = false;
            proof {
                let d = *f.descriptor;
                let visit = Visit {
                    descriptor: d,
                    ancestor: f.ancestor_options@,
                    profile_index: f.profile_index as nat,
                    loop_index: f.loop_index as nat,
                };
                let kids = match d.describe {
                    Some(v) => forest_visits(v@, child_options_spec(f.ancestor_options@, d)),
                    None => Seq::empty(),
                };
                assert(crate::models::children(d).skip(0) =~= crate::models::children(d));
                assert(frame_remaining(f) == forest_visits(crate::models::children(d), f.child_options@)
                    + cases_from(d, f.ancestor_options@, f.profile_index as nat, (f.loop_index + 1) as nat));
                assert(forest_visits(crate::models::children(d), f.child_options@) == kids);
                assert(frame_remaining(f0) == seq![visit] + kids + cases_from(
                    d,
                    f.ancestor_options@,
                    f.profile_index as nat,
                    (f.loop_index + 1) as nat,
                ));
                self.visited@ = self.visited@.push(visit);
                lemma_remaining_push(rest, f);
                lemma_stack_steps_push(rest, f);
                assert(frame_steps(f0) == 3 + forest_steps(crate::models::children(d)) + steps_from(
                    d,
                    f.profile_index as nat,
                    (f.loop_index + 1) as nat,
                ));
                assert(frame_steps(f) == forest_steps(crate::models::children(d)) + 1 + steps_from(
                    d,
                    f.profile_index as nat,
                    (f.loop_index + 1) as nat,
                ));
                assert(self.visited@ + (frame_remaining(f) + remaining(rest)) =~= old(self).visited@ + (
                frame_remaining(f0) + remaining(rest)));
            }
            self.current = Some(
                CaseRun {
                    descriptor: f.descriptor,
                    ancestor_options: f.ancestor_options.duplicate(),
                    snapshot: self.context.duplicate(),
                    attempts: Vec::new(),
                    retry_number: 0,
                    saw_failure: false,
                    pending: None,
                },
            );
            self.stack.push(f);
            return Step::Continue;
        }
        let child_count = match &f.descriptor.describe {
            Some(v) => v.len(),
            None => 0,
        };
        if f.child_index < child_count {
            let child: &'a Descriptor = match &f.descriptor.describe {
                Some(v) => &v[f.child_index],
                None => {
                    proof {
                        assert(false);
                    }
                    return Step::Continue;
                },
            };
            let child_frame = new_frame(child, f.child_options.duplicate());
            f.child_index = f.child_index + 1;
            self.stack.push(f);
            let ghost mid = self.stack@;
            self.stack.push(child_frame);
            proof {
                let d = *f.descriptor;
                assert(crate::models::children(d)[f0.child_index as int] == *child);
                lemma_forest_skip(crate::models::children(d), f0.child_index as int, f.child_options@);
                lemma_forest_steps_skip(crate::models::children(d), f0.child_index as int);
                lemma_remaining_push(rest, f);
                lemma_remaining_push(mid, child_frame);
                lemma_stack_steps_push(rest, f);
                lemma_stack_steps_push(mid, child_frame);
                assert(frame_steps(child_frame) == steps_from(*child, 0, 0));
                assert(frame_steps(f0) == frame_steps(child_frame) + 1 + frame_steps(f));
                assert(frame_remaining(child_frame) == cases_from(*child, f.child_options@, 0, 0));
                assert(frame_remaining(f0) == frame_remaining(child_frame) + frame_remaining(f));
                assert(remaining(self.stack@) =~= frame_remaining(f0) + remaining(rest));
                assert forall|i: int| 0 <= i < self.stack@.len() implies frame_wf(#[trigger] self.stack@[i]) by {
                    if i < rest.len() {
                        assert(self.stack@[i] == rest[i]);
                    }
                }
            }
            return Step::Continue;
        }
        if f.pushed_name {
            self.title_path.pop();
        }
        let mut scope = None;
        std::mem::swap(&mut scope, &mut f.scope);
        match scope {
            Some(sc) => self.context.exit_iteration(sc),
            None => {},
        }
        f.in_case = false;
        f.pushed_name = false;
        f.child_index = 0;
        f.loop_index = f.loop_index + 1;
        self.stack.push(f);
        proof {
            let d = *f.descriptor;
            assert(f0.child_index == crate::models::children(d).len());
            lemma_forest_end(crate::models::children(d), f0.child_options@);
            lemma_forest_steps_end(crate::models::children(d));
            lemma_remaining_push(rest, f);
            lemma_stack_steps_push(rest, f);
            assert(frame_remaining(f0) =~= frame_remaining(f));
            assert(frame_steps(f0) == frame_steps(f) + 1);
        }
        Step::Continue
    }

    /// Hands in the evaluation of the test that was handed out: concludes the attempt
    /// and decides on a retry. Returns how long to pause before the retry (0 for none).
    pub fn complete(&mut self, evaluation: TestEvaluation) -> (r: u64)
        requires
            old(self).wf(),
            old(self).awaiting(),
            fits(old(self).pending_test(), evaluation),
        ensures
            final(self).wf(),
            !final(self).awaiting(),
            !final(self).finished(),
            final(self).root_view() == old(self).root_view(),
            final(self).visited() == old(self).visited(),
            final(self).base_view() == old(self).base_view(),
            exists|ctx: RunContextView, o: TestRunOutcome|
                #[trigger] concluded(old(self).pending_test(), evaluation, old(self).context_view(), ctx, o)
                    && {
                    let d = retry_spec(
                        o.summary_result,
                        old(self).retry_number() as nat,
                        max_retries_of(old(self).pending_options()),
                        old(self).saw_failure(),
                    );
                    &&& d == RetryDecision::Retry ==> {
                        &&& final(self).in_case_run()
                        &&& final(self).context_view() == old(self).snapshot_view()
                        &&& final(self).snapshot_view() == old(self).snapshot_view()
                        &&& final(self).retry_number() == old(self).retry_number() + 1
                        &&& final(self).saw_failure()
                        &&& final(self).attempts_view().len() == old(self).attempts_view().len() + 1
                        &&& final(self).attempts_view().last().result == o.summary_result
                        &&& final(self).attempts_view().last().assertions@ == o.assertions@
                        &&& final(self).outcomes_view() == old(self).outcomes_view()
                        &&& final(self).steps_left() == old(self).steps_left() + 1
                        &&& r == retry_delay_of(old(self).pending_options())
                    }
                    &&& d matches RetryDecision::Finish(f) ==> {
                        &&& !final(self).in_case_run()
                        &&& final(self).context_view() == ctx
                        &&& final(self).outcomes_view().drop_last() == old(self).outcomes_view()
                        &&& final(self).outcomes_view().len() == old(self).outcomes_view().len() + 1
                        &&& final(self).outcomes_view().last().final_result == f
                        &&& final(self).outcomes_view().last().attempts@.len()
                            == old(self).attempts_view().len() + 1
                        &&& final(self).outcomes_view().last().attempts@.last().result == o.summary_result
                        &&& final(self).outcomes_view().last().attempts@.last().assertions@
                            == o.assertions@
                        &&& final(self).steps_left() == old(self).steps_left()
                        &&& r == 0
                    }
                },
    {
        let ghost old_self = *self;
        let mut cur = match self.current.take() {
            Some(c) => c,
            None => {
                proof {
                    assert(false);
                }
                return 0;
            },
        };
        let p = match cur.pending.take() {
            Some(p) => p,
            None => {
                proof {
                    assert(false);
                }
                return 0;
            },
        };
        self.current = Some(cur);
        let debug_message = match p.options.debug {
            Some(true) => Some(format_debug_message(&p.test, &p.options, &evaluation.result)),
            _ => None,
        };
        let ghost e0 = evaluation;
        let outcome = conclude_test(&p.test, evaluation, &mut self.context);
        let ghost ctx = self.context@;
        let ghost o = outcome;
        let TestRunOutcome { test_result, assertions, summary_result } = outcome;
        let PendingAttempt { descriptor, options, test: _, title_path } = p;
        let attempt = AttemptOutcome {
            descriptor,
            title_path,
            options,
            test_result,
            assertions,
            result: summary_result,
            debug_message,
        };
        proof {
            assert(self.current->0.pending is None);
            assert forall|i: int| 0 <= i < self.stack@.len() implies frame_wf(#[trigger] self.stack@[i]) by {
                assert(self.stack@[i] == old_self.stack@[i]);
            }
        }
        let r = self.finish_attempt(attempt);
        proof {
            assert(concluded(old_self.pending_test(), e0, old_self.context_view(), ctx, o));
        }
        r
    }
}

} // verus!
