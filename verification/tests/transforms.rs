use reshaper::parser::{Parser, TemplateError};
use reshaper::table::Table;

fn compiled(source: &str, target: &str) -> Parser {
    let mut p = Parser::new();
    p.set_source(source).unwrap();
    p.set_target(target).unwrap();
    p
}

#[test]
fn round_trip_reorders_fields() {
    let p = compiled(
        "<date> <time>: <systolic>/<diastolic> <pulse>",
        "<date>,<pulse>,<systolic>,<diastolic>",
    );
    let line = "2024-10-25 M: 131/79 63";
    let spans = p.split(line).unwrap();
    let mut table = Table::new();
    table.add(line, spans);
    let out = p.transform(table.get_parts(0).unwrap(), false).unwrap();
    assert_eq!(out, "2024-10-25,63,131,79");
}

#[test]
fn quote_output_wraps_every_field() {
    let p = compiled(
        "<date> <time>: <systolic>/<diastolic> <pulse>",
        "<date>,<pulse>,<systolic>,<diastolic>",
    );
    let line = "2024-10-25 M: 131/79 63";
    let spans = p.split(line).unwrap();
    let mut table = Table::new();
    table.add(line, spans);
    let out = p.transform(table.get_parts(0).unwrap(), true).unwrap();
    assert_eq!(out, "\"2024-10-25\",\"63\",\"131\",\"79\"");
}

#[test]
fn eleventh_marker_is_independent_of_the_first() {
    let p = compiled(
        "<v1> <v2> <v3> <v4> <v5> <v6> <v7> <v8> <v9> <v10> <v11>",
        "<v1>,<v11>",
    );
    let parts: Vec<String> = vec![
        "a1".to_string(),
        "a2".to_string(),
        "a3".to_string(),
        "a4".to_string(),
        "a5".to_string(),
        "a6".to_string(),
        "a7".to_string(),
        "a8".to_string(),
        "a9".to_string(),
        "a10".to_string(),
        "a11".to_string(),
    ];
    assert_eq!(p.transform(&parts, false).unwrap(), "a1,a11");
}

#[test]
fn substituted_value_is_never_reparsed_as_a_marker() {
    let p = compiled(
        "<v1> <v2> <v3> <v4> <v5> <v6> <v7> <v8> <v9> <v10> <v11>",
        "<v1>,<v11>",
    );
    let mut parts: Vec<String> = Vec::new();
    for i in 1..=11 {
        parts.push(format!("p{}", i));
    }
    parts[0] = "$11".to_string();
    assert_eq!(p.transform(&parts, false).unwrap(), "$11,p11");
}

#[test]
fn literal_target_text_is_kept_verbatim() {
    let p = compiled("<a> <b>", "b=<b>; a=<a>!");
    let parts: Vec<String> = vec!["one".to_string(), "two".to_string()];
    assert_eq!(p.transform(&parts, false).unwrap(), "b=two; a=one!");
}

#[test]
fn transform_without_target_is_an_error() {
    let mut p = Parser::new();
    p.set_source("<a>").unwrap();
    let parts: Vec<String> = vec!["x".to_string()];
    assert_eq!(
        p.transform(&parts, false),
        Err(TemplateError::EmptyReplacementOrNoTargets)
    );
}

#[test]
fn transform_with_positionless_target_is_an_error() {
    let mut p = Parser::new();
    p.set_source("<a>").unwrap();
    p.set_target("plain text").unwrap();
    let parts: Vec<String> = vec!["x".to_string()];
    assert_eq!(
        p.transform(&parts, false),
        Err(TemplateError::EmptyReplacementOrNoTargets)
    );
}

#[test]
fn transform_with_too_few_fields_is_an_error() {
    let p = compiled("<a>", "<a>,<a>");
    let parts: Vec<String> = vec!["x".to_string()];
    assert_eq!(p.transform(&parts, false), Err(TemplateError::TooFewSourceFields));
}

#[test]
fn whole_pipeline_skips_unmatched_lines_per_row() {
    let p = compiled("<a>:<b>", "<b>:<a>");
    let mut table = Table::new();
    for line in ["x:y", "nonsense", "1:2"] {
        match p.split(line) {
            Ok(spans) => table.add(line, spans),
            Err(_) => {},
        }
    }
    let mut outputs: Vec<String> = Vec::new();
    for r in 0..table.row_count() {
        if let Some(parts) = table.get_parts(r) {
            if let Ok(out) = p.transform(parts, false) {
                outputs.push(out);
            }
        }
    }
    assert_eq!(outputs, vec!["y:x".to_string(), "2:1".to_string()]);
}
