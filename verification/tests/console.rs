use tempest::filters::{ColorDurationFilter, ColorStatusFilter};
use tempest::models::{Assertion, Descriptor, RunOptions, TempestStatusCode, TestResult, TestSpec};
use tempest::pipeline::report_capabilities::{get_report_capability, ConsoleLine, ConsoleReporter, Paint, ReportCapability};
use tempest::test_model::HttpMethod;

fn texts(lines: &[ConsoleLine]) -> Vec<String> {
    lines
        .iter()
        .map(|l| match l {
            ConsoleLine::Text(segments) => segments.iter().map(|s| s.text.as_str()).collect::<String>(),
            ConsoleLine::ResultJson => "<json>".to_string(),
        })
        .collect()
}

fn result(code: u16, ms: u64) -> TestResult {
    TestResult {
        status: TempestStatusCode { code, message: "OK".to_string() },
        headers: vec![],
        body: String::new(),
        bytes: vec![],
        duration_ms: ms,
    }
}

#[test]
fn section_prints_its_name_as_a_heading() {
    let d = Descriptor::named(Some("Users".to_string()));
    let lines = get_report_capability().report(&d, None, &[], &RunOptions::default());
    assert_eq!(texts(&lines), vec!["\nUsers:"]);
}

#[test]
fn failed_test_in_debug_mode_shows_the_result() {
    let mut d = Descriptor::named(Some("login".to_string()));
    d.test = Some(TestSpec::default());
    let assertions = vec![
        Assertion { expr: "status == 200".to_string(), passed: true, error: String::new() },
        Assertion { expr: "body == 'x'".to_string(), passed: false, error: "mismatch".to_string() },
    ];
    let options = RunOptions { debug: Some(true), ..RunOptions::default() };
    let lines = ConsoleReporter::report_lines(&d, Some(&result(404, 250)), &assertions, &options);
    assert_eq!(
        texts(&lines),
        vec![
            " - login  404 OK  250.000ms",
            "       ✅  status == 200",
            "       ❌  body == 'x'",
            "          mismatch",
            "   FAILED",
            "Test Results:",
            "<json>",
        ]
    );
}

#[test]
fn test_that_did_not_run_prints_nothing() {
    let mut d = Descriptor::named(Some("t".to_string()));
    d.test = Some(TestSpec::default());
    assert!(ConsoleReporter::report_lines(&d, None, &[], &RunOptions::default()).is_empty());
}

#[test]
fn status_and_duration_colors_follow_their_ranges() {
    assert_eq!(ConsoleReporter::color_status(&result(204, 0).status).paint, Paint::Green);
    assert_eq!(ConsoleReporter::color_status(&result(302, 0).status).paint, Paint::Yellow);
    assert_eq!(ConsoleReporter::color_status(&result(404, 0).status).paint, Paint::Red);
    assert_eq!(ConsoleReporter::color_status(&result(504, 0).status).paint, Paint::Plain);
    assert_eq!(ConsoleReporter::color_duration(50).paint, Paint::Green);
    assert_eq!(ConsoleReporter::color_duration(51).paint, Paint::Yellow);
    assert_eq!(ConsoleReporter::color_duration(201).paint, Paint::Red);
}

#[test]
fn filters_color_status_codes_and_durations() {
    assert_eq!(ColorStatusFilter.paint_for(250), Paint::Green);
    assert_eq!(ColorStatusFilter.paint_for(500), Paint::Red);
    assert_eq!(ColorDurationFilter.paint_for(200), Paint::Yellow);
    assert_eq!(ColorDurationFilter.paint_for(-1), Paint::Red);
}

#[test]
fn methods_are_written_in_upper_case() {
    assert_eq!(HttpMethod::Options.name(), "OPTIONS");
    assert_eq!(HttpMethod::parse("PATCH"), Some(HttpMethod::Patch));
    assert_eq!(HttpMethod::parse("patch"), None);
}
