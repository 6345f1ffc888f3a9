use tempest::models::{Descriptor, JsonValue, ReportFile, ReportTemplate, RunOptions, SummaryResult, TestSpec};
use tempest::pipeline::assertions::CelValue;
use tempest::pipeline::file_runner::{FileOutcome, FileRunner, Step, TestEvaluation, TestRequest};
use tempest::pipeline::report_coordinator::ReportCoordinator;
use tempest::pipeline::reporting::sinks::{Output, SinkTarget};
use tempest::pipeline::runners::{response_result, HttpReply, HttpResponse};
use tempest::templating::LiquidEngine;

/// Runs a file against canned responses: `respond` gives the status and body for a URL
/// and the number of requests made so far. Assertions understand `status == N` only;
/// variables understand `body` only.
fn drive(
    root: &Descriptor,
    envs: &Vec<(String, String)>,
    base: RunOptions,
    respond: &dyn Fn(&str, usize) -> (u16, String),
) -> (FileOutcome, Vec<String>) {
    let engine = LiquidEngine::with_stdlib();
    let runner = FileRunner::new(0, root, envs, base, &engine, ".");
    let mut run = runner.start();
    let mut urls: Vec<String> = Vec::new();
    loop {
        match run.step() {
            Step::Continue => {}
            Step::Request(req) => {
                let evaluation = evaluate(&req, &mut urls, respond);
                run.complete(evaluation);
            }
            Step::Done(outcome) => return (outcome, urls),
        }
    }
}

fn evaluate(req: &TestRequest, urls: &mut Vec<String>, respond: &dyn Fn(&str, usize) -> (u16, String)) -> TestEvaluation {
    let url = req.request.as_ref().map(|r| r.url.clone()).unwrap_or_default();
    urls.push(url.clone());
    let (code, body) = respond(&url, urls.len());
    let result = response_result(HttpReply::Response(HttpResponse {
        status: code,
        reason: String::new(),
        headers: vec![],
        bytes: body.into_bytes(),
        duration_ms: 1,
    }));
    let lets = req
        .test
        .lets
        .iter()
        .flatten()
        .map(|(_, expr)| if expr == "body.json()" && !result.body.starts_with('{') { Err("not json".to_string()) } else { Ok(()) })
        .collect::<Vec<_>>();
    let lets = match lets.iter().position(|l| l.is_err()) {
        Some(i) => lets[..=i].to_vec(),
        None => lets,
    };
    let asserts = req
        .test
        .assert
        .iter()
        .flatten()
        .map(|a| {
            let expected: u16 = a.trim_start_matches("status == ").parse().unwrap();
            Ok(CelValue::Bool(result.status.code == expected))
        })
        .collect();
    let vars = req
        .test
        .vars
        .iter()
        .flatten()
        .map(|(_, expr)| if expr == "body" { Some(JsonValue::String(result.body.clone())) } else { None })
        .collect();
    TestEvaluation { result, lets, asserts, vars }
}

fn test_descriptor(name: &str, route: &str, asserts: &[&str]) -> Descriptor {
    let mut d = Descriptor::named(Some(name.to_string()));
    let mut t = TestSpec::with_route(route.to_string());
    t.verb = Some("GET".to_string());
    if !asserts.is_empty() {
        t.assert = Some(asserts.iter().map(|s| s.to_string()).collect());
    }
    d.test = Some(t);
    d
}

fn section(name: &str, children: Vec<Descriptor>) -> Descriptor {
    let mut d = Descriptor::named(Some(name.to_string()));
    d.describe = Some(children);
    d
}

fn finals(o: &FileOutcome) -> Vec<Option<SummaryResult>> {
    o.descriptors.iter().map(|d| d.final_result).collect()
}

fn profile(key: &str, value: &str) -> Vec<(String, JsonValue)> {
    vec![(key.to_string(), JsonValue::String(value.to_string()))]
}

fn ok(_: &str, _: usize) -> (u16, String) {
    (200, String::new())
}

#[test]
fn descriptor_without_test_produces_no_summary_result() {
    let (outcome, urls) = drive(&section("group", vec![]), &vec![], RunOptions::default(), &ok);
    assert_eq!(finals(&outcome), vec![None]);
    assert!(urls.is_empty());
}

#[test]
fn passing_and_failing_assertions_decide_the_result() {
    let root = section(
        "spec",
        vec![
            test_descriptor("pass", "http://h/a", &["status == 200"]),
            test_descriptor("fail", "http://h/b", &["status == 404"]),
            test_descriptor("none", "http://h/c", &[]),
        ],
    );
    let (outcome, _) = drive(&root, &vec![], RunOptions::default(), &ok);
    assert_eq!(
        finals(&outcome),
        vec![None, Some(SummaryResult::Passed), Some(SummaryResult::Failed), Some(SummaryResult::Passed)]
    );
}

#[test]
fn base_uri_is_prepended_to_relative_route() {
    let base = RunOptions { base_uri: Some("http://h".to_string()), ..RunOptions::default() };
    let (_, urls) = drive(&test_descriptor("t", "/users", &[]), &vec![], base, &ok);
    assert_eq!(urls, vec!["http://h/users"]);
}

#[test]
fn descriptor_options_override_base_options() {
    let base = RunOptions { base_uri: Some("http://base".to_string()), ..RunOptions::default() };
    let mut d = test_descriptor("t", "/x", &[]);
    d.options = Some(RunOptions { base_uri: Some("http://own".to_string()), ..RunOptions::default() });
    let (_, urls) = drive(&d, &vec![], base, &ok);
    assert_eq!(urls, vec!["http://own/x"]);
}

#[test]
fn loop_runs_descriptor_requested_number_of_times() {
    let mut d = test_descriptor("t", "http://h/loop", &["status == 200"]);
    d.options = Some(RunOptions { loop_count: Some(3), ..RunOptions::default() });
    let (outcome, urls) = drive(&d, &vec![], RunOptions::default(), &ok);
    assert_eq!(finals(&outcome), vec![Some(SummaryResult::Passed); 3]);
    assert_eq!(urls.len(), 3);
}

#[test]
fn profiles_render_into_tests_in_source_order() {
    let mut d = test_descriptor("t", "http://h/{{ profile.path }}", &["status == 200"]);
    d.profiles = Some(vec![profile("path", "first"), profile("path", "second")]);
    let (outcome, urls) = drive(&d, &vec![], RunOptions::default(), &ok);
    assert_eq!(urls, vec!["http://h/first", "http://h/second"]);
    assert_eq!(finals(&outcome), vec![Some(SummaryResult::Passed); 2]);
}

#[test]
fn nested_profiles_are_cartesian_and_restore_parent_profile_for_siblings() {
    let mut child = test_descriptor("child {{ profile.region }}", "http://h/child/{{ profile.region }}", &["status == 200"]);
    child.profiles = Some(vec![profile("region", "x"), profile("region", "y")]);
    let sibling = test_descriptor("sibling {{ profile.region }}", "http://h/sibling/{{ profile.region }}", &["status == 200"]);
    let mut root = section("root {{ profile.region }}", vec![child, sibling]);
    root.profiles = Some(vec![profile("region", "us"), profile("region", "eu")]);
    let (outcome, urls) = drive(&root, &vec![], RunOptions::default(), &ok);
    assert_eq!(
        urls,
        vec![
            "http://h/child/x",
            "http://h/child/y",
            "http://h/sibling/us",
            "http://h/child/x",
            "http://h/child/y",
            "http://h/sibling/eu",
        ]
    );
    assert_eq!(outcome.descriptors.len(), 8);
    assert_eq!(outcome.descriptors[0].attempts[0].descriptor.name.as_deref(), Some("root us"));
    assert_eq!(outcome.descriptors[3].attempts[0].title_path, vec!["root us".to_string()]);
}

#[test]
fn variable_set_in_one_test_is_available_in_next() {
    let mut seed = test_descriptor("seed", "http://h/seed", &[]);
    seed.test.as_mut().unwrap().vars = Some(vec![("id".to_string(), "body".to_string())]);
    let consumer = test_descriptor("consumer", "http://h/items/{{ vars.id }}", &["status == 200"]);
    let root = section("spec", vec![seed, consumer]);
    let respond = |url: &str, _: usize| if url.ends_with("/seed") { (200, "42".to_string()) } else { (200, String::new()) };
    let (outcome, urls) = drive(&root, &vec![], RunOptions::default(), &respond);
    assert_eq!(urls[1], "http://h/items/42");
    assert_eq!(outcome.descriptors[2].final_result, Some(SummaryResult::Passed));
}

#[test]
fn invalid_let_binding_fails_the_test() {
    let mut d = test_descriptor("invalid let", "http://h/invalid-json", &["status == 200"]);
    d.test.as_mut().unwrap().lets = Some(vec![("json".to_string(), "body.json()".to_string())]);
    let respond = |_: &str, _: usize| (200, "not json".to_string());
    let (outcome, _) = drive(&d, &vec![], RunOptions::default(), &respond);
    assert_eq!(finals(&outcome), vec![Some(SummaryResult::Failed)]);
    assert_eq!(outcome.descriptors[0].attempts[0].assertions[0].expr, "let.json = body.json()");
}

#[test]
fn env_vars_are_available_in_route_templates() {
    let envs = vec![("HOST".to_string(), "http://env-host".to_string())];
    let (_, urls) = drive(&test_descriptor("env-test", "{{ env.HOST }}/api", &[]), &envs, RunOptions::default(), &ok);
    assert_eq!(urls, vec!["http://env-host/api"]);
}

#[test]
fn nested_titles_are_given_to_attempts() {
    let test = test_descriptor("creates a user", "http://h/users", &[]);
    let mut spec = section("test spec", vec![section("accounts", vec![test])]);
    spec.file = Some("test.spec.yml".to_string());
    let (outcome, _) = drive(&spec, &vec![], RunOptions::default(), &ok);
    assert_eq!(
        outcome.descriptors[2].attempts[0].title_path,
        vec!["test spec".to_string(), "accounts".to_string()]
    );
}

#[test]
fn retry_pass_after_failure_yields_single_flaky_summary() {
    let base = RunOptions { retries: Some(1), ..RunOptions::default() };
    let respond = |_: &str, n: usize| if n == 1 { (500, String::new()) } else { (200, String::new()) };
    let (outcome, urls) = drive(&test_descriptor("t", "http://h/unstable", &["status == 200"]), &vec![], base, &respond);
    assert_eq!(finals(&outcome), vec![Some(SummaryResult::Flaky)]);
    assert_eq!(outcome.descriptors[0].attempts.len(), 2);
    assert_eq!(urls.len(), 2);
}

#[test]
fn retry_exhaustion_yields_single_failed_summary() {
    let base = RunOptions { retries: Some(2), ..RunOptions::default() };
    let respond = |_: &str, _: usize| (500, String::new());
    let (outcome, urls) = drive(&test_descriptor("t", "http://h/down", &["status == 200"]), &vec![], base, &respond);
    assert_eq!(finals(&outcome), vec![Some(SummaryResult::Failed)]);
    assert_eq!(urls.len(), 3);
}

#[test]
fn retry_attempt_number_is_available_to_templates() {
    let base = RunOptions { retries: Some(1), ..RunOptions::default() };
    let d = test_descriptor("t", "http://h/{% if retry_attempts == 0 %}500{% else %}200{% endif %}", &["status == 200"]);
    let respond = |url: &str, _: usize| if url.ends_with("500") { (500, String::new()) } else { (200, String::new()) };
    let (outcome, urls) = drive(&d, &vec![], base, &respond);
    assert_eq!(urls, vec!["http://h/500", "http://h/200"]);
    assert_eq!(finals(&outcome), vec![Some(SummaryResult::Flaky)]);
}

#[test]
fn failed_retry_attempts_do_not_mutate_context_for_next_attempt() {
    let mut seed = test_descriptor("seed", "http://h/seed", &["status == 200"]);
    seed.test.as_mut().unwrap().vars = Some(vec![("token".to_string(), "body".to_string())]);
    let mut unstable = test_descriptor("unstable", "http://h/unstable/{{ vars.token }}", &["status == 200"]);
    unstable.test.as_mut().unwrap().vars = Some(vec![("token".to_string(), "body".to_string())]);
    let consumer = test_descriptor("consumer", "http://h/items/{{ vars.token }}", &["status == 200"]);
    let root = section("spec", vec![seed, unstable, consumer]);
    let respond = |url: &str, n: usize| {
        if url.ends_with("/seed") {
            (200, "start".to_string())
        } else if url.contains("/unstable/") && n == 2 {
            (500, "bad".to_string())
        } else if url.contains("/unstable/") {
            (200, "good".to_string())
        } else {
            (200, String::new())
        }
    };
    let base = RunOptions { retries: Some(1), ..RunOptions::default() };
    let (outcome, urls) = drive(&root, &vec![], base, &respond);
    assert_eq!(urls, vec!["http://h/seed", "http://h/unstable/start", "http://h/unstable/start", "http://h/items/good"]);
    assert_eq!(
        finals(&outcome),
        vec![None, Some(SummaryResult::Passed), Some(SummaryResult::Flaky), Some(SummaryResult::Passed)]
    );
}

#[test]
fn skipped_test_sends_nothing() {
    let mut d = test_descriptor("t", "http://h/x", &[]);
    d.options = Some(RunOptions {
        skip: Some(tempest::models::Templated::Liquid("{% if true %}true{% endif %}".to_string())),
        ..RunOptions::default()
    });
    let (outcome, urls) = drive(&d, &vec![], RunOptions::default(), &ok);
    assert!(urls.is_empty());
    assert_eq!(finals(&outcome), vec![Some(SummaryResult::Skipped)]);
}

#[test]
fn debug_mode_records_the_request() {
    let base = RunOptions { debug: Some(true), ..RunOptions::default() };
    let respond = |_: &str, _: usize| (200, "hi".to_string());
    let (outcome, _) = drive(&test_descriptor("t", "http://h/d", &[]), &vec![], base, &respond);
    assert_eq!(
        outcome.descriptors[0].attempts[0].debug_message.as_deref(),
        Some("Route: http://h/d - 200\nHeaders: \n\nBody: \nhi")
    );
}

#[test]
fn passing_assertion_yields_passed_summary() {
    let (outcome, _) = drive(&test_descriptor("test", "http://h/ok", &["status == 200"]), &vec![], RunOptions::default(), &ok);
    assert_eq!(finals(&outcome), vec![Some(SummaryResult::Passed)]);
}

#[test]
fn failing_assertion_yields_failed_summary() {
    let (outcome, _) = drive(&test_descriptor("test", "http://h/ok", &["status == 404"]), &vec![], RunOptions::default(), &ok);
    assert_eq!(finals(&outcome), vec![Some(SummaryResult::Failed)]);
}

#[test]
fn test_without_assertions_yields_passed_summary() {
    let (outcome, _) = drive(&test_descriptor("test", "http://h/ok", &[]), &vec![], RunOptions::default(), &ok);
    assert_eq!(finals(&outcome), vec![Some(SummaryResult::Passed)]);
}

#[test]
fn multiple_descriptors_produce_multiple_summary_entries() {
    let root = section(
        "spec",
        vec![
            test_descriptor("test", "http://h/a", &["status == 200"]),
            test_descriptor("test", "http://h/b", &["status == 200"]),
        ],
    );
    let respond = |url: &str, _: usize| if url.ends_with("/a") { (200, String::new()) } else { (404, String::new()) };
    let (outcome, urls) = drive(&root, &vec![], RunOptions::default(), &respond);
    assert_eq!(urls, vec!["http://h/a", "http://h/b"]);
    assert_eq!(
        finals(&outcome),
        vec![None, Some(SummaryResult::Passed), Some(SummaryResult::Failed)]
    );
}

#[test]
fn exported_vars_accumulate_and_bleed_into_later_profile_cases() {
    let mut producer = test_descriptor("test", "http://h/seed/{{ profile.value }}", &["status == 200"]);
    producer.test.as_mut().unwrap().vars = Some(vec![("tokens".to_string(), "body".to_string())]);
    let consumer = test_descriptor(
        "test",
        "http://h/history/{{ profile.value }}/{{ vars.tokens[0] }}/{{ vars.tokens | last }}",
        &["status == 200"],
    );
    let mut root = section("accumulated exports", vec![producer, consumer]);
    root.profiles = Some(vec![profile("value", "a"), profile("value", "b")]);
    let respond = |url: &str, _: usize| match url.strip_prefix("http://h/seed/") {
        Some(v) => (200, v.to_string()),
        None => (200, String::new()),
    };
    let (outcome, urls) = drive(&root, &vec![], RunOptions::default(), &respond);
    assert_eq!(
        urls,
        vec!["http://h/seed/a", "http://h/history/a/a/a", "http://h/seed/b", "http://h/history/b/a/b"]
    );
    let results: Vec<SummaryResult> = finals(&outcome).into_iter().flatten().collect();
    assert_eq!(results, vec![SummaryResult::Passed; 4]);
}

#[test]
fn failed_retry_does_not_append_to_collected_vars() {
    let mut unstable = test_descriptor("test", "http://h/unstable/{{ retry_attempts }}", &["status == 200"]);
    unstable.test.as_mut().unwrap().vars = Some(vec![("tokens".to_string(), "body".to_string())]);
    unstable.options = Some(RunOptions { retries: Some(1), loop_count: Some(1), ..RunOptions::default() });
    let next = test_descriptor("test", "http://h/items/{{ vars.tokens[0] }}", &["status == 200"]);
    let mut root = section("test spec", vec![unstable, next]);
    root.file = Some("test.spec.yml".to_string());
    let respond = |url: &str, _: usize| {
        if url.ends_with("/unstable/0") {
            (500, "bad".to_string())
        } else if url.ends_with("/unstable/1") {
            (200, "good".to_string())
        } else {
            (200, String::new())
        }
    };
    let (outcome, urls) = drive(&root, &vec![], RunOptions::default(), &respond);
    assert_eq!(urls, vec!["http://h/unstable/0", "http://h/unstable/1", "http://h/items/good"]);
    let results: Vec<SummaryResult> = finals(&outcome).into_iter().flatten().collect();
    assert_eq!(results, vec![SummaryResult::Flaky, SummaryResult::Passed]);
}

#[test]
fn file_context_resets_when_file_changes() {
    let mut file_a = test_descriptor("file-a", "http://h/file-a", &[]);
    file_a.test.as_mut().unwrap().vars = Some(vec![("token".to_string(), "body".to_string())]);
    file_a.file = Some("file-a.yaml".to_string());
    let mut file_b = test_descriptor("file-b", "http://h/file-b/{{ vars | size }}", &["status == 200"]);
    file_b.file = Some("file-b.yaml".to_string());
    let respond = |url: &str, _: usize| if url.ends_with("/file-a") { (200, "secret".to_string()) } else { (200, String::new()) };
    let (first, _) = drive(&file_a, &vec![], RunOptions::default(), &respond);
    let (second, urls) = drive(&file_b, &vec![], RunOptions::default(), &respond);
    assert_eq!(finals(&first), vec![Some(SummaryResult::Passed)]);
    assert_eq!(finals(&second), vec![Some(SummaryResult::Passed)]);
    assert_eq!(urls, vec!["http://h/file-b/0"]);
}

fn file_report(test_template: &str) -> Vec<(String, ReportTemplate)> {
    vec![(
        "file".to_string(),
        ReportTemplate {
            test_template: Some(test_template.to_string()),
            section_template: None,
            error_template: None,
            debug_template: None,
            title_template: None,
            summary_template: None,
            file: Some(ReportFile { dir: Some("reports".to_string()), file_name: Some("report.txt".to_string()) }),
        },
    )]
}

/// The text written to the report file, by line.
fn report_file_lines(outcome: FileOutcome, templates: &Vec<(String, ReportTemplate)>) -> (Vec<String>, Vec<SummaryResult>) {
    let mut coordinator = ReportCoordinator::new(templates, LiquidEngine::with_stdlib());
    let mut out: Vec<Output> = Vec::new();
    coordinator.consume(outcome, &mut out);
    let mut text = String::new();
    for o in &out {
        assert!(matches!(&o.target, SinkTarget::File(p) if p == "reports/report.txt"));
        text.push_str(&o.text);
        if o.newline {
            text.push('\n');
        }
    }
    (text.lines().map(str::to_string).collect(), coordinator.results().to_vec())
}

#[test]
fn nested_titles_are_available_to_report_templates() {
    let test = test_descriptor("creates a user", "http://h/users", &[]);
    let mut spec = section("test spec", vec![section("accounts", vec![test])]);
    spec.file = Some("test.spec.yml".to_string());
    let base = RunOptions { reports: Some(vec!["file".to_string()]), ..RunOptions::default() };
    let (outcome, _) = drive(&spec, &vec![], base, &ok);
    let (lines, _) = report_file_lines(outcome, &file_report("{{ full_name }}\n"));
    assert_eq!(lines, vec!["test spec › accounts › creates a user"]);
}

#[test]
fn retry_attempts_are_reported_but_summary_counts_descriptor_once() {
    let base = RunOptions { reports: Some(vec!["file".to_string()]), retries: Some(1), ..RunOptions::default() };
    let respond = |_: &str, n: usize| if n == 1 { (500, String::new()) } else { (200, String::new()) };
    let (outcome, _) = drive(&test_descriptor("test", "http://h/reported", &["status == 200"]), &vec![], base, &respond);
    let (lines, results) = report_file_lines(outcome, &file_report("{{ status }}\n"));
    assert_eq!(results, vec![SummaryResult::Flaky]);
    assert_eq!(lines, vec!["500", "200"]);
}
