use tempest::models::{ReportTemplate, RunOptions};
use tempest::pipeline::report_capabilities::LiquidReporter;
use tempest::templating::LiquidEngine;

fn make_template(test_tmpl: Option<&str>, section_tmpl: Option<&str>) -> ReportTemplate {
    ReportTemplate {
        test_template: test_tmpl.map(str::to_string),
        section_template: section_tmpl.map(str::to_string),
        error_template: Some("ERR:{{ liquid_error_message }}".to_string()),
        debug_template: None,
        title_template: None,
        summary_template: None,
        file: None,
    }
}

fn options_reports(reports: &[&str]) -> RunOptions {
    RunOptions {
        base_uri: None,
        debug: None,
        reports: if reports.is_empty() {
            None
        } else {
            Some(reports.iter().map(|s| s.to_string()).collect())
        },
        ..RunOptions::default()
    }
}

fn reporter() -> LiquidReporter {
    LiquidReporter::new(LiquidEngine::with_stdlib())
}

#[test]
fn template_iterator_returns_only_reports_named_in_options() {
    let templates = vec![
        ("console".to_string(), make_template(Some("C"), None)),
        ("json".to_string(), make_template(Some("J"), None)),
        ("html".to_string(), make_template(Some("H"), None)),
    ];

    let active = reporter().build_template_iterator(&options_reports(&["console", "html"]), &templates);

    assert_eq!(active.len(), 2);
    let test_tmpls: Vec<_> = active
        .iter()
        .map(|t| t.test_template.as_deref().unwrap_or(""))
        .collect();
    assert!(test_tmpls.contains(&"C"));
    assert!(test_tmpls.contains(&"H"));
    assert!(!test_tmpls.contains(&"J"));
}

#[test]
fn template_iterator_empty_when_reports_not_configured() {
    let templates = vec![("console".to_string(), make_template(Some("C"), None))];

    assert!(reporter()
        .build_template_iterator(&options_reports(&[]), &templates)
        .is_empty());
}

#[test]
fn template_iterator_empty_when_no_template_name_matches() {
    let templates = vec![("json".to_string(), make_template(Some("J"), None))];

    assert!(reporter()
        .build_template_iterator(&options_reports(&["xml"]), &templates)
        .is_empty());
}

use tempest::models::{Assertion, Descriptor, TempestStatusCode, TestResult, TestSpec};
use tempest::pipeline::report_capabilities::build_globals;
use tempest::templating::Globals;

fn descriptor(name: &str, has_test: bool) -> Descriptor {
    let mut d = Descriptor::named(Some(name.to_string()));
    d.description = Some(format!("{name} description"));
    if has_test {
        d.test = Some(TestSpec::default());
    }
    d
}

fn assertion(expr: &str, passed: bool) -> Assertion {
    Assertion {
        expr: expr.to_string(),
        passed,
        error: if passed {
            String::new()
        } else {
            "assertion failed".to_string()
        },
    }
}

fn test_result(code: u16, body: &str, duration_ms: u64) -> TestResult {
    TestResult {
        status: TempestStatusCode {
            code,
            message: "OK".to_string(),
        },
        headers: Vec::new(),
        body: body.to_string(),
        bytes: vec![],
        duration_ms,
    }
}

fn render(template_str: &str, globals: &Globals) -> String {
    LiquidEngine::with_stdlib().render(template_str, globals).unwrap()
}

#[test]
fn globals_exposes_name_and_description() {
    let d = descriptor("login", false);
    let globals = build_globals(&d, None, &[]);
    assert_eq!(
        render("{{ name }}|{{ description }}", &globals),
        "login|login description"
    );
}

#[test]
fn globals_name_defaults_to_empty_string_when_none() {
    let d = Descriptor::named(None);
    let globals = build_globals(&d, None, &[]);
    assert_eq!(render("{{ name }}", &globals), "");
}

#[test]
fn globals_passed_true_when_all_assertions_pass() {
    let d = descriptor("t", false);
    let globals = build_globals(
        &d,
        None,
        &[assertion("a == 1", true), assertion("b == 2", true)],
    );
    assert_eq!(render("{{ passed }}", &globals), "true");
}

#[test]
fn globals_passed_false_when_any_assertion_fails() {
    let d = descriptor("t", false);
    let globals = build_globals(
        &d,
        None,
        &[assertion("a == 1", true), assertion("b == 99", false)],
    );
    assert_eq!(render("{{ passed }}", &globals), "false");
}

#[test]
fn globals_with_test_result_exposes_status_body_and_duration() {
    let d = descriptor("t", true);
    let r = test_result(404, "not found", 250);
    let globals = build_globals(&d, Some(&r), &[]);
    assert_eq!(render("{{ status }}|{{ body }}", &globals), "404|not found");
    let ms: f64 = render("{{ duration_ms }}", &globals).parse().unwrap();
    assert!((ms - 250.0).abs() < 1.0);
}

#[test]
fn globals_without_test_result_omits_http_fields() {
    let d = descriptor("t", false);
    let globals = build_globals(&d, None, &[]);
    assert_eq!(
        render("{% if status %}yes{% else %}no{% endif %}", &globals),
        "no"
    );
    assert_eq!(
        render("{% if body %}yes{% else %}no{% endif %}", &globals),
        "no"
    );
    assert_eq!(
        render("{% if duration_ms %}yes{% else %}no{% endif %}", &globals),
        "no"
    );
}

#[test]
fn globals_assertions_array_is_iterable_with_expr_passed_and_error() {
    let d = descriptor("t", true);
    let r = test_result(200, "", 0);
    let assertions = vec![
        assertion("status == 200", true),
        assertion("body != ''", false),
    ];
    let globals = build_globals(&d, Some(&r), &assertions);
    let out = render(
        "{% for a in assertions %}{{ a.expr }}={{ a.passed }};{{ a.error }}|{% endfor %}",
        &globals,
    );
    assert_eq!(
        out,
        "status == 200=true;|body != ''=false;assertion failed|"
    );
}
