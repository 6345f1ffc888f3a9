use tempest::pipeline::exit::exit_code;
use tempest::models::{Assertion, JsonValue, RunOptions, SummaryResult, TempestStatusCode, TestResult, TestSpec};
use tempest::pipeline::assertions::{assertion_evaluator_for, check_for_warnings, AssertionEvaluator, CelValue};
use tempest::pipeline::file_runner::{
    conclude_test, decide_retry, format_debug_message, headers_to_display, iteration_for, let_failure_assertion,
    skip_decision, RetryDecision, TestEvaluation,
};
use tempest::pipeline::run_context::{IterationContext, RunContext};
use tempest::pipeline::runners::{
    http_verb, plan_request, resolved_route, response_result, test_runner_for, transport_failure, HttpReply,
    HttpResponse, HttpVerb, TestRunner,
};
use tempest::pipeline::test_capabilities::{get_test_capability, TestCapability};
use tempest::pipeline::variables::{variable_assignment_for, VariableAssignment};
use tempest::pipeline::warnings::{append_warning, get_all_warnings, get_warning_count, Warnings};

fn opts(base: Option<&str>) -> RunOptions {
    RunOptions { base_uri: base.map(str::to_string), ..RunOptions::default() }
}

#[test]
fn local_options_win_and_unset_fields_inherit() {
    let base = RunOptions { retries: Some(2), debug: Some(true), ..RunOptions::default() };
    let local = RunOptions { retries: Some(5), ..RunOptions::default() };
    let merged = base.merge(local);
    assert_eq!(merged.retries, Some(5));
    assert_eq!(merged.debug, Some(true));
}

#[test]
fn merging_with_empty_options_changes_nothing() {
    let a = RunOptions { base_uri: Some("http://x".to_string()), retries: Some(1), ..RunOptions::default() };
    let merged = a.duplicate().merge(RunOptions::default());
    assert_eq!(merged.base_uri.as_deref(), Some("http://x"));
    assert_eq!(merged.retries, Some(1));
}

#[test]
fn merge_is_associative_on_an_example() {
    let a = RunOptions { retries: Some(1), ..RunOptions::default() };
    let b = RunOptions { debug: Some(true), ..RunOptions::default() };
    let c = RunOptions { retries: Some(3), ..RunOptions::default() };
    let left = a.duplicate().merge(b.duplicate()).merge(c.duplicate());
    let right = a.merge(b.merge(c));
    assert_eq!(left.retries, right.retries);
    assert_eq!(left.debug, right.debug);
}

#[test]
fn failure_with_retries_left_is_retried() {
    assert_eq!(decide_retry(Some(SummaryResult::Failed), 0, 1, false), RetryDecision::Retry);
}

#[test]
fn pass_after_failure_is_flaky() {
    assert_eq!(
        decide_retry(Some(SummaryResult::Passed), 1, 1, true),
        RetryDecision::Finish(Some(SummaryResult::Flaky))
    );
}

#[test]
fn failure_without_retries_left_is_final() {
    assert_eq!(
        decide_retry(Some(SummaryResult::Failed), 2, 2, true),
        RetryDecision::Finish(Some(SummaryResult::Failed))
    );
    assert_eq!(decide_retry(None, 0, 3, false), RetryDecision::Finish(None));
}

#[test]
fn case_index_runs_profile_by_profile() {
    let it = iteration_for(1, 2, 2, 3, true, true);
    assert_eq!(it.case_index, 5);
    assert_eq!(it.case_count, 6);
}

#[test]
fn skip_renders_true() {
    assert!(skip_decision(Ok(" true ".to_string())));
    assert!(!skip_decision(Ok("false".to_string())));
    assert!(!skip_decision(Err("bad".to_string())));
}

fn result(code: u16, body: &str) -> TestResult {
    TestResult {
        status: TempestStatusCode { code, message: "OK".to_string() },
        headers: vec![("x-id".to_string(), "1".to_string()), ("x-id".to_string(), "2".to_string()), ("via".to_string(), "a".to_string())],
        body: body.to_string(),
        bytes: body.as_bytes().to_vec(),
        duration_ms: 7,
    }
}

#[test]
fn failed_let_fails_the_test_with_one_assertion_and_saves_nothing() {
    let mut test = TestSpec::with_route("/x".to_string());
    test.lets = Some(vec![("json".to_string(), "body.json()".to_string())]);
    test.assert = Some(vec!["status == 200".to_string()]);
    test.vars = Some(vec![("id".to_string(), "body".to_string())]);
    let mut ctx = RunContext::new("f.spec.yml", &Vec::new());
    let outcome = conclude_test(
        &test,
        TestEvaluation { result: result(200, "not json"), lets: vec![Err("not json".to_string())], asserts: vec![], vars: vec![] },
        &mut ctx,
    );
    assert_eq!(outcome.summary_result, Some(SummaryResult::Failed));
    assert_eq!(outcome.assertions.len(), 1);
    assert_eq!(outcome.assertions[0].expr, "let.json = body.json()");
    assert_eq!(outcome.assertions[0].error, "not json");
    assert!(ctx.vars.is_empty());
}

#[test]
fn any_failed_assertion_fails_the_test_and_variables_are_saved() {
    let mut test = TestSpec::with_route("/x".to_string());
    test.assert = Some(vec!["a".to_string(), "b".to_string()]);
    test.vars = Some(vec![("id".to_string(), "body".to_string()), ("gone".to_string(), "oops".to_string())]);
    let mut ctx = RunContext::new("f.spec.yml", &Vec::new());
    let outcome = conclude_test(
        &test,
        TestEvaluation {
            result: result(200, "42"),
            lets: vec![],
            asserts: vec![Ok(CelValue::Bool(true)), Ok(CelValue::Other("UInt(1)".to_string()))],
            vars: vec![Some(JsonValue::String("42".to_string())), None],
        },
        &mut ctx,
    );
    assert_eq!(outcome.summary_result, Some(SummaryResult::Failed));
    assert!(outcome.assertions[0].passed);
    assert_eq!(outcome.assertions[1].error, "Assertion did not return a bool, got: UInt(1)");
    assert_eq!(ctx.vars.len(), 2);
    assert!(matches!(&ctx.vars[0].1, JsonValue::String(s) if s == "42"));
    assert!(matches!(&ctx.vars[1].1, JsonValue::Null));
}

#[test]
fn saving_a_variable_twice_keeps_the_latest_value() {
    let mut ctx = RunContext::new("f", &Vec::new());
    ctx.set_var("token".to_string(), JsonValue::String("start".to_string()));
    ctx.set_var("token".to_string(), JsonValue::String("good".to_string()));
    assert_eq!(ctx.vars.len(), 1);
    assert!(matches!(&ctx.vars[0].1, JsonValue::String(s) if s == "good"));
}

#[test]
fn saving_inside_a_case_collects_the_values() {
    let mut ctx = RunContext::new("f", &Vec::new());
    ctx.set_var("token".to_string(), JsonValue::String("outside".to_string()));
    let case = IterationContext {
        case_index: 0,
        case_count: 1,
        has_profile: false,
        profile_index: 0,
        profile_count: 1,
        has_loop: true,
        loop_index: 0,
        loop_count: 1,
    };
    let scope = ctx.enter_iteration(None, case);
    ctx.set_var("token".to_string(), JsonValue::String("a".to_string()));
    ctx.set_var("fresh".to_string(), JsonValue::String("b".to_string()));
    ctx.exit_iteration(scope);
    assert_eq!(ctx.vars.len(), 2);
    match &ctx.vars[0].1 {
        JsonValue::Array(items) => {
            assert_eq!(items.len(), 2);
            assert!(matches!(&items[0], JsonValue::String(s) if s == "outside"));
            assert!(matches!(&items[1], JsonValue::String(s) if s == "a"));
        }
        _ => panic!("expected the collected values"),
    }
    match &ctx.vars[1].1 {
        JsonValue::Array(items) => {
            assert_eq!(items.len(), 1);
            assert!(matches!(&items[0], JsonValue::String(s) if s == "b"));
        }
        _ => panic!("expected the collected values"),
    }
}

#[test]
fn variable_assignment_saves_in_order() {
    let vars = vec![("a".to_string(), "body".to_string()), ("b".to_string(), "status".to_string())];
    let assignment = variable_assignment_for(&vars);
    let mut ctx = RunContext::new("f", &Vec::new());
    assignment.set(&vec![Some(JsonValue::Number("1".to_string())), None], &mut ctx);
    assert_eq!(ctx.vars[0].0, "a");
    assert_eq!(ctx.vars[1].0, "b");
}

#[test]
fn let_failure_names_the_binding() {
    let a: Assertion = let_failure_assertion("item", "let.json.item", "no such key".to_string());
    assert_eq!(a.expr, "let.item = let.json.item");
    assert!(!a.passed);
}

#[test]
fn headers_are_grouped_by_name_in_first_seen_order() {
    let r = result(200, "ok");
    assert_eq!(headers_to_display(&r.headers), "x-id: 1;2\nvia: a");
}

#[test]
fn debug_message_shows_route_status_headers_and_body() {
    let test = TestSpec::with_route("/users".to_string());
    let m = format_debug_message(&test, &opts(Some("http://api/")), &result(201, "created"));
    assert_eq!(m, "Route: http://api/users - 201\nHeaders: \nx-id: 1;2\nvia: a\nBody: \ncreated");
}

#[test]
fn base_uri_joins_relative_routes_only() {
    let test = TestSpec::with_route("  /users".to_string());
    assert_eq!(resolved_route(&test, &opts(Some("http://api//"))), "http://api/users");
    let abs = TestSpec::with_route("https://other/x".to_string());
    assert_eq!(resolved_route(&abs, &opts(Some("http://api"))), "https://other/x");
    assert_eq!(resolved_route(&test, &opts(None)), "/users");
}

#[test]
fn verbs_match_case_insensitively_and_default_to_get() {
    assert_eq!(http_verb(&None), Some(HttpVerb::Get));
    assert_eq!(http_verb(&Some("post".to_string())), Some(HttpVerb::Post));
    assert_eq!(http_verb(&Some("FOOBAR".to_string())), None);
}

#[test]
fn post_sends_the_body_and_get_sends_none() {
    let mut test = TestSpec::with_route("/x".to_string());
    test.verb = Some("POST".to_string());
    let req = plan_request("http://h/x", &test).unwrap();
    assert_eq!(req.body.as_deref(), Some(""));
    test.verb = Some("get".to_string());
    test.body = Some("ignored".to_string());
    assert!(plan_request("http://h/x", &test).unwrap().body.is_none());
}

#[test]
fn unknown_verb_sends_nothing_and_gives_the_empty_result() {
    let mut test = TestSpec::with_route("/x".to_string());
    test.verb = Some("FOOBAR".to_string());
    let runner = test_runner_for(&test, &opts(None));
    assert!(runner.request().is_none());
    let r = runner.run(None);
    assert_eq!(r.status.code, 0);
    assert!(r.body.is_empty());
}

#[test]
fn response_body_is_decoded_lossily() {
    let r = response_result(HttpReply::Response(HttpResponse {
        status: 200,
        reason: "OK".to_string(),
        headers: vec![],
        bytes: vec![b'o', b'k', 0xff],
        duration_ms: 3,
    }));
    assert_eq!(r.body, "ok\u{fffd}");
    assert_eq!(r.bytes, vec![b'o', b'k', 0xff]);
}

#[test]
fn transport_failure_is_504_with_the_message() {
    let r = response_result(HttpReply::Failure { message: "connection refused".to_string(), duration_ms: 9 });
    assert_eq!(r.status.code, 504);
    assert_eq!(r.status.message, "connection refused");
    let t = transport_failure("x".to_string(), 1);
    assert!(t.headers.is_empty());
}

#[test]
fn capability_joins_the_base_uri_to_relative_routes_only() {
    let test = TestSpec::with_route("/ping".to_string());
    let cap = get_test_capability(&test, &opts(Some("http://h/")));
    let req = cap.request().unwrap();
    assert_eq!(req.url, "http://h/ping");
    let absolute = TestSpec::with_route("http://a/x".to_string());
    let cap = get_test_capability(&absolute, &opts(Some("http://b")));
    assert_eq!(cap.request().unwrap().url, "http://a/x");
}

#[test]
fn evaluator_keeps_the_expression() {
    let e = assertion_evaluator_for("status == 200u");
    assert_eq!(e.expression(), "status == 200u");
    let a = e.evaluate(Err("boom".to_string()));
    assert!(!a.passed);
    assert_eq!(a.error, "boom");
}

#[test]
fn a_warning_is_kept_once() {
    let mut w = Warnings::new();
    assert!(append_warning(&mut w, "same".to_string()));
    assert!(!append_warning(&mut w, "same".to_string()));
    check_for_warnings(true, &mut w);
    assert_eq!(get_warning_count(&w), 3);
    assert_eq!(get_all_warnings(&w).len(), 2);
}

#[test]
fn exit_codes_follow_failures_warnings_and_strictness() {
    assert_eq!(exit_code(SummaryResult::Passed, false, 0, false), 0);
    assert_eq!(exit_code(SummaryResult::Failed, false, 0, false), 1);
    assert_eq!(exit_code(SummaryResult::Flaky, false, 0, false), 0);
    assert_eq!(exit_code(SummaryResult::Flaky, true, 0, false), 2);
    assert_eq!(exit_code(SummaryResult::Flaky, true, 3, true), 1);
    assert_eq!(exit_code(SummaryResult::Passed, false, 3, false), 0);
}
