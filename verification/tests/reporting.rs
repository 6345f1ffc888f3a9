use tempest::models::{
    Assertion, Descriptor, ReportTemplate, RunOptions, TempestStatusCode, TestResult, TestSpec,
};
use tempest::pipeline::reporting::event::ReportEvent;
use tempest::pipeline::reporting::liquid::LiquidRenderer;
use tempest::pipeline::reporting::template_reporter::active_templates;
use tempest::templating::LiquidEngine;

fn event_template() -> ReportTemplate {
    ReportTemplate {
        title_template: Some("title".to_string()),
        test_template: Some("test".to_string()),
        section_template: Some("section".to_string()),
        summary_template: Some("summary".to_string()),
        error_template: Some("error".to_string()),
        debug_template: None,
        file: None,
    }
}

fn node(has_test: bool) -> Descriptor {
    let mut d = Descriptor::named(Some("node".to_string()));
    if has_test {
        d.test = Some(TestSpec::default());
    }
    d
}

#[test]
fn title_event_selects_title_template() {
    let event = ReportEvent::Title { test_count: 3 };
    assert_eq!(event.template(&event_template()), Some("title"));
}

#[test]
fn descriptor_event_with_test_selects_test_template() {
    let descriptor = node(true);
    let event = ReportEvent::Descriptor {
        descriptor: &descriptor,
        title_path: &[],
        test_result: None,
        assertions: &[],
        test_count: 1,
        retry_count: 0,
    };

    assert_eq!(event.template(&event_template()), Some("test"));
}

#[test]
fn descriptor_event_without_test_selects_section_template() {
    let descriptor = node(false);
    let event = ReportEvent::Descriptor {
        descriptor: &descriptor,
        title_path: &[],
        test_result: None,
        assertions: &[],
        test_count: 0,
        retry_count: 0,
    };

    assert_eq!(event.template(&event_template()), Some("section"));
}

#[test]
fn summary_event_selects_summary_template() {
    let event = ReportEvent::Summary {
        passed: 2,
        failed: 1,
        flaky: 0,
    };

    assert_eq!(event.template(&event_template()), Some("summary"));
}

#[test]
fn error_event_selects_error_template() {
    let event = ReportEvent::Error { msg: "bad liquid" };
    assert_eq!(event.template(&event_template()), Some("error"));
}

fn template(test_template: &str) -> ReportTemplate {
    ReportTemplate {
        test_template: Some(test_template.to_string()),
        section_template: Some(test_template.to_string()),
        error_template: Some(test_template.to_string()),
        debug_template: Some(test_template.to_string()),
        title_template: Some(test_template.to_string()),
        summary_template: Some(test_template.to_string()),
        file: None,
    }
}

fn login(has_test: bool) -> Descriptor {
    let mut d = Descriptor::named(Some("login".to_string()));
    d.description = Some("login description".to_string());
    if has_test {
        d.test = Some(TestSpec::default());
    }
    d
}

fn assertion(expr: &str, passed: bool) -> Assertion {
    Assertion {
        expr: expr.to_string(),
        passed,
        error: if passed {
            String::new()
        } else {
            "assertion failed".to_string()
        },
    }
}

fn not_found() -> TestResult {
    TestResult {
        status: TempestStatusCode {
            code: 404,
            message: "Not Found".to_string(),
        },
        headers: Vec::new(),
        body: "missing".to_string(),
        bytes: vec![],
        duration_ms: 250,
    }
}

fn renderer() -> LiquidRenderer {
    LiquidRenderer::new(LiquidEngine::with_stdlib())
}

#[test]
fn renders_title_globals() {
    let event = ReportEvent::Title { test_count: 12 };

    let output = renderer()
        .render(&template("{{ test_count }}"), &event)
        .unwrap();

    assert_eq!(output, "12");
}

#[test]
fn renders_summary_globals() {
    let event = ReportEvent::Summary {
        passed: 8,
        failed: 2,
        flaky: 1,
    };

    let output = renderer()
        .render(&template("{{ passed }}|{{ failed }}|{{ flaky }}"), &event)
        .unwrap();

    assert_eq!(output, "8|2|1");
}

#[test]
fn renders_descriptor_globals_for_test_result() {
    let descriptor = login(true);
    let result = not_found();
    let assertions = vec![
        assertion("status == 404u", true),
        assertion("body.contains(\"ok\")", false),
    ];
    let title_path = vec!["accounts".to_string(), "authenticated".to_string()];

    let event = ReportEvent::Descriptor {
        descriptor: &descriptor,
        title_path: &title_path,
        test_result: Some(&result),
        assertions: &assertions,
        test_count: 5,
        retry_count: 0,
    };

    let output = renderer()
        .render(
            &template(
                "{{ name }}|{{ full_name }}|{{ description }}|{{ passed }}|{{ status }}|{{ status_message }}|{{ body }}|{{ test_count }}|{% for a in assertions %}{{ a.expr }}={{ a.passed }}:{{ a.error }};{% endfor %}",
            ),
            &event,
        )
        .unwrap();

    assert_eq!(
        output,
        "login|accounts › authenticated › login|login description|false|404|Not Found|missing|5|status == 404u=true:;body.contains(\"ok\")=false:assertion failed;"
    );
}

#[test]
fn renders_descriptor_globals_for_section_without_http_fields() {
    let descriptor = login(false);

    let event = ReportEvent::Descriptor {
        descriptor: &descriptor,
        title_path: &[],
        test_result: None,
        assertions: &[],
        test_count: 0,
        retry_count: 0,
    };

    let output = renderer()
        .render(
            &template("{{ name }}|{% if status %}has-status{% else %}no-status{% endif %}"),
            &event,
        )
        .unwrap();

    assert_eq!(output, "login|no-status");
}

#[test]
fn renders_error_globals() {
    let event = ReportEvent::Error {
        msg: "template failed",
    };

    let output = renderer()
        .render(&template("ERR: {{ liquid_error_message }}"), &event)
        .unwrap();

    assert_eq!(output, "ERR: template failed");
}

#[test]
fn renders_debug_globals() {
    let event = ReportEvent::Debug { msg: "GET /users" };

    let output = renderer()
        .render(&template("DEBUG: {{ debug_message }}"), &event)
        .unwrap();

    assert_eq!(output, "DEBUG: GET /users");
}

#[test]
fn returns_error_for_invalid_liquid_template() {
    let event = ReportEvent::Title { test_count: 1 };

    let result = renderer().render(&template("{{ broken"), &event);

    assert!(result.is_err());
}

fn report_template(name: &str) -> ReportTemplate {
    ReportTemplate {
        title_template: Some(name.to_string()),
        test_template: Some(name.to_string()),
        section_template: Some(name.to_string()),
        summary_template: Some(name.to_string()),
        error_template: Some(name.to_string()),
        debug_template: Some(name.to_string()),
        file: None,
    }
}

fn options_reports(reports: &[&str]) -> RunOptions {
    RunOptions {
        base_uri: None,
        debug: None,
        reports: Some(reports.iter().map(|r| r.to_string()).collect()),
        start_time: None,
        retries: Some(0),
        ..RunOptions::default()
    }
}

#[test]
fn active_templates_returns_only_templates_named_in_options() {
    let templates = vec![
        ("console".to_string(), report_template("console")),
        ("json".to_string(), report_template("json")),
        ("html".to_string(), report_template("html")),
    ];

    let active = active_templates(&templates, &options_reports(&["console", "html"]));
    let rendered_names: Vec<_> = active
        .iter()
        .map(|t| t.title_template.as_deref().unwrap())
        .collect();

    assert_eq!(active.len(), 2);
    assert!(rendered_names.contains(&"console"));
    assert!(rendered_names.contains(&"html"));
    assert!(!rendered_names.contains(&"json"));
}

#[test]
fn active_templates_is_empty_when_reports_are_not_configured() {
    let templates = vec![("console".to_string(), report_template("console"))];

    let options = RunOptions {
        base_uri: None,
        debug: None,
        reports: None,
        start_time: None,
        retries: Some(0),
        ..RunOptions::default()
    };

    assert!(active_templates(&templates, &options).is_empty());
}
