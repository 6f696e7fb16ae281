use scancsv::errors::ScanError;
use scancsv::matcher::scan_lines;
use scancsv::predicate::Predicate;

fn exact(values: &[&str]) -> Predicate {
    let owned: Vec<String> = values.iter().map(|v| v.to_string()).collect();
    Predicate::build(&None, &owned).unwrap()
}

fn regex(pattern: &str) -> Predicate {
    Predicate::build(&Some(pattern.to_string()), &Vec::new()).unwrap()
}

fn strings(lines: &[&str]) -> Vec<String> {
    lines.iter().map(|l| l.to_string()).collect()
}

#[test]
fn exact_set_emits_matching_line_unchanged() {
    let lines = strings(&["1\tfoo\t99"]);
    let out = scan_lines(&lines, "\t", 1, &exact(&["foo", "bar"]));
    assert_eq!(out.lines, vec!["1\tfoo\t99".to_string()]);
    assert!(out.error.is_none());
}

#[test]
fn exact_set_without_the_value_emits_nothing() {
    let lines = strings(&["1\tfoo\t99"]);
    let out = scan_lines(&lines, "\t", 1, &exact(&["baz"]));
    assert!(out.lines.is_empty());
    assert!(out.error.is_none());
}

#[test]
fn column_beyond_fields_aborts_the_run() {
    let lines = strings(&["1\tfoo\t99"]);
    let out = scan_lines(&lines, "\t", 5, &exact(&["foo", "bar"]));
    assert!(out.lines.is_empty());
    assert_eq!(out.error, Some(ScanError::ColumnOutOfRange));
}

#[test]
fn lines_before_an_error_stay_emitted() {
    let lines = strings(&["a\tb", "c\tb", "short", "d\tb"]);
    let out = scan_lines(&lines, "\t", 1, &exact(&["b"]));
    assert_eq!(out.lines, vec!["a\tb".to_string(), "c\tb".to_string()]);
    assert_eq!(out.error, Some(ScanError::ColumnOutOfRange));
}

#[test]
fn emits_matches_in_original_order_with_original_content() {
    let lines = strings(&["x,keep,1", "y,drop,2", "z,keep,3", ",keep,"]);
    let out = scan_lines(&lines, ",", 1, &exact(&["keep"]));
    assert_eq!(
        out.lines,
        vec!["x,keep,1".to_string(), "z,keep,3".to_string(), ",keep,".to_string()]
    );
    assert!(out.error.is_none());
}

#[test]
fn empty_value_set_matches_nothing() {
    let lines = strings(&["a\tb", "c\td"]);
    let out = scan_lines(&lines, "\t", 0, &exact(&[]));
    assert!(out.lines.is_empty());
    assert!(out.error.is_none());
}

#[test]
fn regex_takes_precedence_over_value_set() {
    let values: Vec<String> = vec!["foo".to_string()];
    let pred = Predicate::build(&Some("^z".to_string()), &values).unwrap();
    let lines = strings(&["foo\t1"]);
    let out = scan_lines(&lines, "\t", 0, &pred);
    assert!(out.lines.is_empty());
    assert!(out.error.is_none());
}

#[test]
fn regex_matches_as_substring_search() {
    let lines = strings(&["1\tfood\t9", "2\tbar\t8"]);
    let out = scan_lines(&lines, "\t", 1, &regex("oo"));
    assert_eq!(out.lines, vec!["1\tfood\t9".to_string()]);
    assert!(out.error.is_none());
}

#[test]
fn bad_pattern_is_rejected_at_build() {
    let r = Predicate::build(&Some("(".to_string()), &Vec::new());
    assert!(matches!(r, Err(ScanError::BadPattern)));
}

#[test]
fn consecutive_delimiters_produce_empty_fields() {
    let lines = strings(&["a,,b"]);
    let out = scan_lines(&lines, ",", 1, &exact(&[""]));
    assert_eq!(out.lines, vec!["a,,b".to_string()]);
    assert!(out.error.is_none());
}

#[test]
fn empty_delimiter_separates_every_character() {
    let lines = strings(&["ab"]);
    let out = scan_lines(&lines, "", 1, &exact(&["a"]));
    assert_eq!(out.lines, vec!["ab".to_string()]);
    assert!(out.error.is_none());
}

#[test]
fn empty_line_is_a_single_empty_field() {
    let lines = strings(&["", "x"]);
    let out = scan_lines(&lines, "\t", 0, &exact(&[""]));
    assert_eq!(out.lines, vec!["".to_string()]);
    assert!(out.error.is_none());
}

#[test]
fn multi_character_delimiter_splits_literally() {
    let lines = strings(&["a::b::c", "a:b"]);
    let out = scan_lines(&lines, "::", 1, &exact(&["b"]));
    assert_eq!(out.lines, vec!["a::b::c".to_string()]);
    assert_eq!(out.error, Some(ScanError::ColumnOutOfRange));
}
