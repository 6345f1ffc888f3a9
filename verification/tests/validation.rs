use tempest::models::{Descriptor, DirectoryNode, DiscoveryResult, ReportTemplate, RunOptions, TestSpec};
use tempest::templating::LiquidEngine;
use tempest::validation::rules::{
    cel_sources, liquid_verdicts, report_with, CEL_INVALID, DESCRIPTOR_EMPTY, LIQUID_INVALID, REPORT_INVALID_LIQUID, REPORT_UNKNOWN,
    TEST_EMPTY_ROUTE, TEST_UNSUPPORTED_VERB,
};
use tempest::validation::validate_project;
use tempest::validation::validation_report::ValidationReport;

fn spec_file(name: &str, test: Option<TestSpec>) -> Descriptor {
    let mut d = Descriptor::named(None);
    d.test = test;
    d.file = Some(name.to_string());
    d
}

fn project(files: Vec<Descriptor>, options: Vec<RunOptions>, templates: Vec<(String, ReportTemplate)>) -> DiscoveryResult {
    DiscoveryResult {
        directory: DirectoryNode {
            files,
            options,
            children: Vec::new(),
            dir: "suite".to_string(),
            envs: Vec::new(),
        },
        templates,
    }
}

fn run(p: &DiscoveryResult) -> ValidationReport {
    let sources = cel_sources(p);
    let cel_errors: Vec<Option<String>> = sources
        .iter()
        .map(|s| compile_outcome(s))
        .collect();
    validate_project(p, &LiquidEngine::with_stdlib(), &cel_errors)
}

/// The compile outcome of a CEL source. The parser aborts on some malformed sources
/// (the runner catches that); the malformed sources these tests use are judged here.
fn compile_outcome(source: &str) -> Option<String> {
    if ["status ==", "(", "["].contains(&source) {
        Some(format!("invalid expression: {source}"))
    } else {
        cel_interpreter::Program::compile(source).err().map(|e| e.to_string())
    }
}

fn codes(report: &ValidationReport, code: &str) -> usize {
    report.diagnostics.iter().filter(|d| d.code == code).count()
}

fn route(r: &str) -> TestSpec {
    TestSpec::with_route(r.to_string())
}

#[test]
fn invalid_static_cel_is_reported_for_assert_let_and_vars() {
    let mut test = route("https://example.com");
    test.assert = Some(vec!["status ==".to_string()]);
    test.lets = Some(vec![("broken".to_string(), "(".to_string())]);
    test.vars = Some(vec![("broken".to_string(), "[".to_string())]);
    let p = project(vec![spec_file("invalid.spec.yml", Some(test))], vec![], vec![]);

    assert_eq!(codes(&run(&p), CEL_INVALID), 3);
}

#[test]
fn cel_with_liquid_is_deferred_until_runtime() {
    let mut test = route("https://example.com");
    test.assert = Some(vec!["status == {{ profile.expected }}".to_string()]);
    let p = project(vec![spec_file("templated.spec.yml", Some(test))], vec![], vec![]);

    let report = run(&p);
    assert_eq!(codes(&report, CEL_INVALID), 0);
    assert_eq!(codes(&report, LIQUID_INVALID), 0);
}

#[test]
fn invalid_liquid_in_spec_input_is_reported() {
    let p = project(vec![spec_file("invalid.spec.yml", Some(route("{{ broken")))], vec![], vec![]);

    let report = run(&p);
    let found: Vec<_> = report.diagnostics.iter().filter(|d| d.code == LIQUID_INVALID).collect();
    assert_eq!(found.len(), 1);
    assert!(found[0].context.as_deref().unwrap().contains("test.route"));
}

#[test]
fn unknown_reports_are_reported_once_at_each_declaration() {
    let config = RunOptions { reports: Some(vec!["missing-config".to_string()]), ..RunOptions::default() };
    let mut file = spec_file("test.spec.yml", Some(route("https://example.com")));
    file.options = Some(RunOptions { reports: Some(vec!["missing-descriptor".to_string()]), ..RunOptions::default() });
    let p = project(vec![file], vec![config], vec![]);

    let report = run(&p);
    let found: Vec<_> = report.diagnostics.iter().filter(|d| d.code == REPORT_UNKNOWN).collect();
    assert_eq!(found.len(), 2);
    assert!(found.iter().any(|d| d.message.contains("missing-config")));
    assert!(found.iter().any(|d| d.message.contains("missing-descriptor")));
}

#[test]
fn invalid_liquid_in_report_template_is_reported() {
    let broken = ReportTemplate {
        test_template: Some("{{ broken".to_string()),
        section_template: None,
        error_template: None,
        debug_template: None,
        title_template: None,
        summary_template: None,
        file: None,
    };
    let p = project(
        vec![spec_file("test.spec.yml", Some(route("https://example.com")))],
        vec![],
        vec![("broken".to_string(), broken)],
    );

    let report = run(&p);
    let found: Vec<_> = report.diagnostics.iter().filter(|d| d.code == REPORT_INVALID_LIQUID).collect();
    assert_eq!(found.len(), 1);
    assert!(found[0].context.as_deref().unwrap().contains("broken"));
}

#[test]
fn lowercase_supported_verb_is_valid() {
    let mut test = route("https://example.com");
    test.verb = Some("get".to_string());
    let p = project(vec![spec_file("valid.spec.yml", Some(test))], vec![], vec![]);

    assert_eq!(codes(&run(&p), TEST_UNSUPPORTED_VERB), 0);
}

#[test]
fn unsupported_verb_is_reported() {
    let mut test = route("https://example.com");
    test.verb = Some("FOOBAR".to_string());
    let p = project(vec![spec_file("bad.spec.yml", Some(test))], vec![], vec![]);

    assert_eq!(codes(&run(&p), TEST_UNSUPPORTED_VERB), 1);
}

#[test]
fn whitespace_route_and_empty_describe_are_reported() {
    let mut empty = spec_file("empty.spec.yml", None);
    empty.describe = Some(Vec::new());
    let p = project(vec![spec_file("blank-route.spec.yml", Some(route("   "))), empty], vec![], vec![]);

    let report = run(&p);
    assert_eq!(codes(&report, TEST_EMPTY_ROUTE), 1);
    assert_eq!(codes(&report, DESCRIPTOR_EMPTY), 1);
}

#[test]
fn diagnostics_come_sorted_and_every_spec_file_is_counted() {
    let mut empty = spec_file("b.spec.yml", None);
    empty.describe = Some(Vec::new());
    let p = project(vec![empty, spec_file("a.spec.yml", Some(route(" ")))], vec![], vec![]);

    let report = run(&p);
    assert_eq!(report.checked_specs, 2);
    let paths: Vec<_> = report.diagnostics.iter().map(|d| d.path.clone()).collect();
    let mut sorted = paths.clone();
    sorted.sort();
    assert_eq!(paths, sorted);
}

#[test]
fn liquid_verdicts_follow_the_parse_and_report_with_uses_them() {
    let p = project(vec![spec_file("a.spec.yml", Some(route("https://example.com/{{ broken")))], vec![], vec![]);
    let verdicts = liquid_verdicts(&p, &LiquidEngine::with_stdlib());
    assert_eq!(verdicts.iter().filter(|v| v.is_some()).count(), 1);
    let cel_errors: Vec<Option<String>> = cel_sources(&p).iter().map(|s| compile_outcome(s)).collect();
    let report = report_with(&p, &verdicts, &cel_errors);
    assert_eq!(codes(&report, LIQUID_INVALID), 1);
    let none: Vec<Option<String>> = verdicts.iter().map(|_| None).collect();
    assert_eq!(codes(&report_with(&p, &none, &cel_errors), LIQUID_INVALID), 0);
}
