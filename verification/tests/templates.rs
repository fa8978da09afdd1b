use reshaper::parser::{Origin, Parser, TemplateError};

#[test]
fn source_compiles_with_variables_in_order() {
    let mut p = Parser::new();
    p.set_source("<date> <time>: <systolic>/<diastolic> <pulse>").unwrap();
    let vars: Vec<String> = vec![
        "date".to_string(),
        "time".to_string(),
        "systolic".to_string(),
        "diastolic".to_string(),
        "pulse".to_string(),
    ];
    assert_eq!(*p.variables(Origin::Source), vars);
    assert_eq!(*p.positions(Origin::Source), vec![0, 1, 2, 3, 4]);
    assert!(p.variables(Origin::Source).len() >= 1);
}

#[test]
fn single_placeholder_compiles() {
    let mut p = Parser::new();
    p.set_source("<only>").unwrap();
    assert_eq!(*p.variables(Origin::Source), vec!["only".to_string()]);
    assert_eq!(*p.positions(Origin::Source), vec![0]);
}

#[test]
fn empty_source_template_is_rejected() {
    let mut p = Parser::new();
    assert_eq!(p.set_source(""), Err(TemplateError::EmptyTemplate));
    assert_eq!(p.variables(Origin::Source).len(), 0);
}

#[test]
fn unbalanced_source_brackets_are_rejected() {
    let mut p = Parser::new();
    assert_eq!(p.set_source("<a> <b"), Err(TemplateError::UnbalancedBrackets));
    assert_eq!(p.set_source("a>"), Err(TemplateError::UnbalancedBrackets));
}

#[test]
fn unbalanced_target_brackets_are_rejected() {
    let mut p = Parser::new();
    p.set_source("<a>").unwrap();
    assert_eq!(p.set_target("<a>>"), Err(TemplateError::UnbalancedBrackets));
}

#[test]
fn empty_variable_name_is_rejected() {
    let mut p = Parser::new();
    assert_eq!(p.set_source("<a> <>"), Err(TemplateError::EmptyVariableName));
}

#[test]
fn template_without_placeholders_is_rejected() {
    let mut p = Parser::new();
    assert_eq!(p.set_source("abc"), Err(TemplateError::NoVariablesFound));
}

#[test]
fn stray_brackets_leave_no_variables() {
    let mut p = Parser::new();
    assert_eq!(p.set_source("a><b"), Err(TemplateError::NoVariablesFound));
}

#[test]
fn unknown_target_variable_is_rejected() {
    let mut p = Parser::new();
    p.set_source("<a>").unwrap();
    assert_eq!(
        p.set_target("<b>"),
        Err(TemplateError::UnknownVariable("b".to_string()))
    );
    assert_eq!(p.variables(Origin::Target).len(), 0);
}

#[test]
fn empty_target_template_is_rejected() {
    let mut p = Parser::new();
    p.set_source("<a>").unwrap();
    assert_eq!(p.set_target(""), Err(TemplateError::EmptyTemplate));
}

#[test]
fn target_reorders_and_subsets_source_fields() {
    let mut p = Parser::new();
    p.set_source("<date> <time>: <systolic>/<diastolic> <pulse>").unwrap();
    p.set_target("<date>,<pulse>,<systolic>,<diastolic>").unwrap();
    let tvars: Vec<String> = vec![
        "date".to_string(),
        "pulse".to_string(),
        "systolic".to_string(),
        "diastolic".to_string(),
    ];
    assert_eq!(*p.variables(Origin::Target), tvars);
    assert_eq!(*p.positions(Origin::Target), vec![0, 4, 2, 3]);
}

#[test]
fn duplicate_target_references_are_permitted() {
    let mut p = Parser::new();
    p.set_source("<a> <b>").unwrap();
    p.set_target("<b>-<b>-<a>").unwrap();
    assert_eq!(*p.positions(Origin::Target), vec![1, 1, 0]);
}

#[test]
fn duplicate_source_names_resolve_to_first_occurrence() {
    let mut p = Parser::new();
    p.set_source("<x> <x>").unwrap();
    p.set_target("<x>").unwrap();
    assert_eq!(*p.positions(Origin::Target), vec![0]);
}

#[test]
fn target_compilation_against_failed_source_fails() {
    let mut p = Parser::new();
    p.set_source("<a>").unwrap();
    assert_eq!(p.set_source(""), Err(TemplateError::EmptyTemplate));
    assert_eq!(
        p.set_target("<a>"),
        Err(TemplateError::UnknownVariable("a".to_string()))
    );
}

#[test]
fn recompiling_source_discards_target() {
    let mut p = Parser::new();
    p.set_source("<a> <b>").unwrap();
    p.set_target("<b>").unwrap();
    assert_eq!(p.variables(Origin::Target).len(), 1);
    p.set_source("<a> <b>").unwrap();
    assert_eq!(p.variables(Origin::Target).len(), 0);
}

#[test]
fn recompiling_unchanged_source_is_idempotent() {
    let mut p = Parser::new();
    let template = "<date> <time>: <systolic>/<diastolic> <pulse>";
    let line = "2024-10-25 M: 131/79 63";
    p.set_source(template).unwrap();
    let vars_first: Vec<String> = p.variables(Origin::Source).clone();
    let spans_first = p.split(line).unwrap();
    p.set_source(template).unwrap();
    assert_eq!(*p.variables(Origin::Source), vars_first);
    assert_eq!(p.split(line).unwrap(), spans_first);
}
