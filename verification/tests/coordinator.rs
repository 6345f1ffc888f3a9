use tempest::models::{Descriptor, ReportFile, ReportTemplate, RunOptions, SummaryResult, TestResult, TestSpec};
use tempest::pipeline::file_runner::{AttemptOutcome, DescriptorOutcome, FileOutcome};
use tempest::pipeline::report_coordinator::ReportCoordinator;
use tempest::pipeline::reporting::sinks::{Output, SinkTarget};
use tempest::pipeline::reporting::template_reporter::{Reporter, TemplateReporter};
use tempest::templating::LiquidEngine;

fn template() -> ReportTemplate {
    ReportTemplate {
        title_template: None,
        section_template: Some("section:{{ name }}:{{ test_count }}\n".to_string()),
        test_template: Some("attempt:{{ name }}:{{ test_count }}:{{ retry_count }}\n".to_string()),
        summary_template: Some("{{ passed }}/{{ failed }}/{{ flaky }}\n".to_string()),
        error_template: None,
        debug_template: Some("debug:{{ debug_message }}\n".to_string()),
        file: Some(ReportFile { dir: Some("reports".to_string()), file_name: Some("report.txt".to_string()) }),
    }
}

fn options(debug: bool) -> RunOptions {
    RunOptions { reports: Some(vec!["test".to_string()]), debug: Some(debug), ..RunOptions::default() }
}

fn attempt(name: &str, has_test: bool, result: Option<SummaryResult>, retry_debug: Option<&str>) -> AttemptOutcome {
    let mut descriptor = Descriptor::named(Some(name.to_string()));
    if has_test {
        descriptor.test = Some(TestSpec::default());
    }
    descriptor.file = Some(format!("{name}.spec.yml"));
    AttemptOutcome {
        descriptor,
        title_path: Vec::new(),
        options: options(retry_debug.is_some()),
        test_result: if has_test { Some(TestResult::default()) } else { None },
        assertions: Vec::new(),
        result,
        debug_message: retry_debug.map(str::to_string),
    }
}

fn descriptor(attempts: Vec<AttemptOutcome>, final_result: Option<SummaryResult>) -> DescriptorOutcome {
    DescriptorOutcome { attempts, final_result }
}

fn file(ordinal: usize, descriptors: Vec<DescriptorOutcome>) -> FileOutcome {
    FileOutcome { ordinal, source_file: format!("{ordinal}.spec.yml"), descriptors }
}

fn report_lines(out: &[Output]) -> Vec<String> {
    let mut text = String::new();
    for o in out {
        assert!(matches!(&o.target, SinkTarget::File(p) if p == "reports/report.txt"));
        text.push_str(&o.text);
        if o.newline {
            text.push('\n');
        }
    }
    text.lines().map(str::to_string).collect()
}

#[test]
fn out_of_order_file_outcomes_are_emitted_in_ordinal_order() {
    let templates = vec![("test".to_string(), template())];
    let mut coordinator = ReportCoordinator::new(&templates, LiquidEngine::with_stdlib());
    let mut out: Vec<Output> = Vec::new();

    coordinator.consume(
        file(1, vec![descriptor(vec![attempt("second", true, Some(SummaryResult::Failed), None)], Some(SummaryResult::Failed))]),
        &mut out,
    );
    assert!(out.is_empty(), "later files must wait for earlier ordinals");

    coordinator.consume(
        file(0, vec![descriptor(vec![attempt("first", true, Some(SummaryResult::Passed), None)], Some(SummaryResult::Passed))]),
        &mut out,
    );

    assert_eq!(report_lines(&out), vec!["attempt:first:0:0", "attempt:second:1:0"]);
    assert_eq!(coordinator.results(), &[SummaryResult::Passed, SummaryResult::Failed]);
    assert_eq!(coordinator.pending_count(), 0);
}

#[test]
fn retries_stay_adjacent_and_count_as_one_logical_test() {
    let templates = vec![("test".to_string(), template())];
    let mut coordinator = ReportCoordinator::new(&templates, LiquidEngine::with_stdlib());
    let mut out: Vec<Output> = Vec::new();

    coordinator.consume(
        file(
            0,
            vec![
                descriptor(
                    vec![
                        attempt("unstable", true, Some(SummaryResult::Failed), Some("/unstable")),
                        attempt("unstable", true, Some(SummaryResult::Passed), Some("/unstable")),
                    ],
                    Some(SummaryResult::Flaky),
                ),
                descriptor(vec![attempt("next", true, Some(SummaryResult::Passed), None)], Some(SummaryResult::Passed)),
            ],
        ),
        &mut out,
    );

    assert_eq!(
        report_lines(&out),
        vec![
            "debug:/unstable",
            "attempt:unstable:0:0",
            "debug:/unstable",
            "attempt:unstable:0:1",
            "attempt:next:1:0",
        ]
    );
    assert_eq!(coordinator.results(), &[SummaryResult::Flaky, SummaryResult::Passed]);
}

#[test]
fn sections_do_not_increment_the_logical_test_count() {
    let templates = vec![("test".to_string(), template())];
    let mut coordinator = ReportCoordinator::new(&templates, LiquidEngine::with_stdlib());
    let mut out: Vec<Output> = Vec::new();

    coordinator.consume(
        file(
            0,
            vec![
                descriptor(vec![attempt("group", false, None, None)], None),
                descriptor(vec![attempt("test", true, Some(SummaryResult::Passed), None)], Some(SummaryResult::Passed)),
            ],
        ),
        &mut out,
    );

    assert_eq!(report_lines(&out), vec!["section:group:0", "attempt:test:0:0"]);
}

#[test]
fn summary_counts_results_and_failures_win() {
    let templates = vec![("test".to_string(), template())];
    let mut coordinator = ReportCoordinator::new(&templates, LiquidEngine::with_stdlib());
    let mut out: Vec<Output> = Vec::new();
    coordinator.consume(
        file(
            0,
            vec![
                descriptor(vec![attempt("a", true, Some(SummaryResult::Passed), None)], Some(SummaryResult::Flaky)),
                descriptor(vec![attempt("b", true, Some(SummaryResult::Failed), None)], Some(SummaryResult::Failed)),
                descriptor(vec![attempt("c", true, Some(SummaryResult::Passed), None)], Some(SummaryResult::Passed)),
            ],
        ),
        &mut out,
    );
    let mut summary_out: Vec<Output> = Vec::new();
    let r = coordinator.summary(&options(false), &mut summary_out);
    assert_eq!(r, SummaryResult::Failed);
    assert_eq!(report_lines(&summary_out), vec!["1/1/1"]);
}

#[test]
fn render_error_fallback_is_written_to_file_sink() {
    let template = ReportTemplate {
        title_template: Some("{{ broken".to_string()),
        test_template: None,
        section_template: None,
        summary_template: None,
        error_template: Some("ERR: {{ liquid_error_message }}".to_string()),
        debug_template: None,
        file: Some(ReportFile { dir: Some("reports".to_string()), file_name: Some("report.txt".to_string()) }),
    };
    let templates = vec![("file".to_string(), template)];
    let options = RunOptions { reports: Some(vec!["file".to_string()]), retries: Some(0), ..RunOptions::default() };
    let mut out: Vec<Output> = Vec::new();
    TemplateReporter::new(LiquidEngine::with_stdlib()).title(&options, &templates, 1, &mut out);
    let output = report_lines(&out).join("\n");
    assert!(output.contains("ERR:"));
    assert!(output.contains("liquid"));
}
