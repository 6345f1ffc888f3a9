use tempest::models::{JsonValue, ReportFile, RunOptions};
use tempest::pipeline::reporting::sinks::FileSink;
use tempest::pipeline::report_capabilities::{paint_line, Paint, Segment};
use tempest::pipeline::rendering::render_profile_value;
use tempest::templating::{LiquidEngine, TemplateValue};
use tempest::validation::rules::validate_liquid;

fn globals() -> Vec<(String, TemplateValue)> {
    vec![("region".to_string(), TemplateValue::Str("eu".to_string()))]
}

#[test]
fn plain_text_renders_as_it_is() {
    let engine = LiquidEngine::with_stdlib();
    assert_eq!(engine.render("just text: 100% } ok", &globals()), Ok("just text: 100% } ok".to_string()));
    assert_eq!(engine.render_string_or_self("", &globals()), "");
    assert!(engine.validate_syntax("no markup here").is_ok());
    assert_eq!(validate_liquid(&engine, "no markup here"), None);
}

#[test]
fn templates_render_with_their_values_and_bad_ones_stay_as_written() {
    let engine = LiquidEngine::with_stdlib();
    assert_eq!(engine.render_string_or_self("region {{ region }}", &globals()), "region eu");
    assert_eq!(engine.render_string_or_self("{{ broken", &globals()), "{{ broken");
    assert!(validate_liquid(&engine, "{{ broken").is_some());
    let copy = engine.duplicate();
    assert_eq!(copy.render_string_or_self("{{ region | upcase }}", &globals()), "EU");
}

#[test]
fn profile_values_keep_their_shape() {
    let engine = LiquidEngine::with_stdlib();
    let value = JsonValue::Object(vec![
        ("{{ region }}_key".to_string(), JsonValue::String("at {{ region }}".to_string())),
        ("n".to_string(), JsonValue::Number("42".to_string())),
        ("list".to_string(), JsonValue::Array(vec![JsonValue::Bool(true), JsonValue::Null])),
    ]);
    match render_profile_value(&value, &engine, &globals()) {
        JsonValue::Object(o) => {
            assert_eq!(o.len(), 3);
            assert_eq!(o[0].0, "eu_key");
            assert!(matches!(&o[0].1, JsonValue::String(s) if s == "at eu"));
            assert!(matches!(&o[1].1, JsonValue::Number(n) if n == "42"));
            assert!(matches!(&o[2].1, JsonValue::Array(a) if a.len() == 2 && matches!(a[0], JsonValue::Bool(true))));
        }
        _ => panic!("an object stays an object"),
    }
}

#[test]
fn plain_segments_are_shown_as_they_are() {
    let segments = vec![
        Segment { text: "GET ".to_string(), paint: Paint::Plain },
        Segment { text: "/users".to_string(), paint: Paint::Plain },
    ];
    assert_eq!(paint_line(&segments), "GET /users");
    let colored = vec![Segment { text: "200".to_string(), paint: Paint::Green }];
    assert!(paint_line(&colored).contains("200"));
}

#[test]
fn report_files_are_named_by_their_rendered_name() {
    let engine = LiquidEngine::with_stdlib();
    let default = FileSink::new(&ReportFile { dir: None, file_name: None }, &RunOptions::default(), &engine);
    assert_eq!(default.path, "./report.txt");
    let options = RunOptions { start_time: Some(1700000000), ..RunOptions::default() };
    let stamped = FileSink::new(
        &ReportFile { dir: Some("out/".to_string()), file_name: Some("run-{{ start_timestamp }}.txt".to_string()) },
        &options,
        &engine,
    );
    assert_eq!(stamped.path, "out/run-1700000000.txt");
}
