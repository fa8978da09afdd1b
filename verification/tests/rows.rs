use reshaper::parser::{Parser, TemplateError};
use reshaper::row::Row;
use reshaper::table::Table;

#[test]
fn split_returns_one_span_per_variable() {
    let mut p = Parser::new();
    p.set_source("<date> <time>: <systolic>/<diastolic> <pulse>").unwrap();
    let spans = p.split("2024-10-25 M: 131/79 63").unwrap();
    assert_eq!(spans, vec![(0, 10), (11, 12), (14, 17), (18, 20), (21, 23)]);
}

#[test]
fn split_of_empty_line_is_an_error() {
    let mut p = Parser::new();
    p.set_source("<a>").unwrap();
    assert_eq!(p.split(""), Err(TemplateError::NothingToExtract));
}

#[test]
fn split_without_compiled_source_is_an_error() {
    let p = Parser::new();
    assert_eq!(p.split("2024-10-25"), Err(TemplateError::NothingToExtract));
}

#[test]
fn split_of_line_that_does_not_match_yields_no_spans() {
    let mut p = Parser::new();
    p.set_source("<a>:<b>").unwrap();
    assert_eq!(p.split("xyz").unwrap(), vec![]);
}

#[test]
fn quoted_field_is_stripped_exactly_once() {
    let mut p = Parser::new();
    p.set_source("<a> <b>").unwrap();
    let line = "\"131\" 79";
    let spans = p.split(line).unwrap();
    let mut table = Table::new();
    table.add(line, spans);
    assert_eq!(table.get(0, 0), Some("131"));
    assert_eq!(table.get(0, 1), Some("79"));
}

#[test]
fn unquoted_field_is_kept_unchanged() {
    let mut p = Parser::new();
    p.set_source("<a> <b>").unwrap();
    let line = "131 79";
    let spans = p.split(line).unwrap();
    let mut table = Table::new();
    table.add(line, spans);
    assert_eq!(table.get(0, 0), Some("131"));
    assert_eq!(table.get(0, 1), Some("79"));
}

#[test]
fn quoted_field_may_contain_the_delimiter() {
    let mut p = Parser::new();
    p.set_source("<a> <b>").unwrap();
    let line = "\"hello world\" 79";
    let spans = p.split(line).unwrap();
    let mut table = Table::new();
    table.add(line, spans);
    assert_eq!(table.get(0, 0), Some("hello world"));
    assert_eq!(table.get(0, 1), Some("79"));
}

#[test]
fn bare_field_stops_at_a_comma() {
    let mut p = Parser::new();
    p.set_source("<a>,<b>").unwrap();
    let line = "a b,c";
    let spans = p.split(line).unwrap();
    let mut table = Table::new();
    table.add(line, spans);
    assert_eq!(table.get(0, 0), Some("a b"));
    assert_eq!(table.get(0, 1), Some("c"));
}

#[test]
fn unterminated_quote_is_captured_as_bare_text() {
    let mut p = Parser::new();
    p.set_source("<a> <b>").unwrap();
    let line = "\"12 34";
    let spans = p.split(line).unwrap();
    let mut table = Table::new();
    table.add(line, spans);
    assert_eq!(table.get(0, 0), Some("\"12"));
    assert_eq!(table.get(0, 1), Some("34"));
}

#[test]
fn row_add_rejects_bad_spans() {
    let mut row = Row::new("abcdef", 2);
    assert!(row.add(0, 3));
    assert!(!row.add(4, 2));
    assert!(!row.add(2, 7));
    assert!(row.add(3, 6));
    assert_eq!(row.get(0), Some("abc"));
    assert_eq!(row.get(1), Some("def"));
    assert_eq!(row.get(2), None);
}

#[test]
fn row_on_empty_text_stores_nothing() {
    let mut row = Row::new("", 1);
    assert!(!row.add(0, 0));
    assert_eq!(row.get(0), None);
    assert_eq!(row.get_parts().len(), 0);
}

#[test]
fn table_width_is_latched_by_first_row() {
    let mut table = Table::new();
    assert!(table.is_empty());
    table.add("abc def", vec![(0, 3), (4, 7)]);
    assert!(!table.is_empty());
    assert_eq!(table.row_count(), 1);
    assert_eq!(table.get(0, 0), Some("abc"));
    assert_eq!(table.get(0, 1), Some("def"));
    assert_eq!(table.get(0, 2), None);
    table.add("x y z", vec![(0, 1), (2, 3), (4, 5)]);
    assert_eq!(table.row_count(), 2);
    assert_eq!(table.get(1, 0), Some("x"));
    assert_eq!(table.get(1, 1), Some("y"));
    assert_eq!(table.get(1, 2), None);
}

#[test]
fn table_get_is_bounds_checked() {
    let mut table = Table::new();
    table.add("ab", vec![(0, 1), (1, 2)]);
    assert_eq!(table.get(5, 0), None);
    assert_eq!(table.get(0, 9), None);
    assert!(table.get_parts(0).is_some());
    assert!(table.get_parts(3).is_none());
}

#[test]
fn table_ignores_invalid_spans_when_building_rows() {
    let mut table = Table::new();
    table.add("hello", vec![(0, 2), (9, 12), (3, 5)]);
    let parts = table.get_parts(0).unwrap();
    assert_eq!(parts.len(), 2);
    assert_eq!(parts[0], "he");
    assert_eq!(parts[1], "lo");
}
