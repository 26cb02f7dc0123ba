//! Offsets, lines and columns, and string helpers.
use ecolog_lsp::position::{get_line_col, offset_to_line_col, offset_to_linecol};
use ecolog_lsp::text::{contains_str, is_valid_env_var_name, starts_with, str_eq};

#[test]
fn linecol_counts_crlf_once() {
    let content = "a\r\nb";
    assert_eq!(offset_to_linecol(content, 3), (1, 0));
}

#[test]
fn linecol_counts_lone_cr_as_break() {
    assert_eq!(offset_to_linecol("a\rb", 2), (1, 0));
}

#[test]
fn linecol_columns_count_characters() {
    assert_eq!(offset_to_linecol("é=1", 2), (0, 1));
}

#[test]
fn linecol_past_end_is_origin() {
    assert_eq!(offset_to_linecol("abc", 3), (0, 0));
    assert_eq!(offset_to_linecol("abc", 10), (0, 0));
    assert_eq!(get_line_col("", 0), (0, 0));
}

#[test]
fn line_col_only_counts_lf() {
    assert_eq!(offset_to_line_col("a\rb", 2), (0, 2));
}

#[test]
fn line_col_past_end_stays_on_last_character() {
    assert_eq!(offset_to_line_col("ab\ncd", 100), (1, 2));
}

#[test]
fn string_helpers() {
    assert!(str_eq("abc", "abc"));
    assert!(!str_eq("abc", "abd"));
    assert!(starts_with("process.env", "process"));
    assert!(!starts_with("pro", "process"));
    assert!(contains_str("DATABASE_URL", "BASE"));
    assert!(contains_str("x", ""));
    assert!(!contains_str("DATABASE_URL", "url"));
}

#[test]
fn env_var_name_edge_cases() {
    assert!(is_valid_env_var_name("A_1"));
    assert!(!is_valid_env_var_name("A-1"));
}

#[test]
fn test_offset_to_linecol_single_line() {
    let content = "hello world";
    assert_eq!(offset_to_linecol(content, 0), (0, 0));
    assert_eq!(offset_to_linecol(content, 6), (0, 6));
    assert_eq!(offset_to_linecol(content, 10), (0, 10));
}

#[test]
fn test_offset_to_linecol_multiple_lines() {
    let content = "line1\nline2\nline3";
    assert_eq!(offset_to_linecol(content, 0), (0, 0));
    assert_eq!(offset_to_linecol(content, 5), (0, 5));
    assert_eq!(offset_to_linecol(content, 6), (1, 0));
    assert_eq!(offset_to_linecol(content, 12), (2, 0));
}

#[test]
fn test_offset_to_linecol_out_of_bounds() {
    let content = "hello";
    assert_eq!(offset_to_linecol(content, 100), (0, 0));
    assert_eq!(offset_to_linecol(content, 5), (0, 0));
}

#[test]
fn test_offset_to_linecol_empty_string() {
    let content = "";
    assert_eq!(offset_to_linecol(content, 0), (0, 0));
}

#[test]
fn test_offset_to_linecol_with_unicode() {
    let content = "äb日c";
    assert_eq!(offset_to_linecol(content, 0), (0, 0));
    assert_eq!(offset_to_linecol(content, 2), (0, 1));
    assert_eq!(offset_to_linecol(content, 3), (0, 2));
    assert_eq!(offset_to_linecol(content, 6), (0, 3));
}

#[test]
fn test_offset_to_linecol_windows_line_endings() {
    let content = "line1\r\nline2";
    assert_eq!(offset_to_linecol(content, 7), (1, 0));
}

#[test]
fn test_offset_to_linecol_empty_lines() {
    let content = "a\n\nb";
    assert_eq!(offset_to_linecol(content, 2), (1, 0));
    assert_eq!(offset_to_linecol(content, 3), (2, 0));
}

#[test]
fn test_get_line_col_first_line() {
    let content = "hello world";
    assert_eq!(get_line_col(content, 0), (0, 0));
    assert_eq!(get_line_col(content, 6), (0, 6));
}

#[test]
fn test_get_line_col_multiple_lines() {
    let content = "line1\nline2\nline3";
    assert_eq!(get_line_col(content, 6), (1, 0));
    assert_eq!(get_line_col(content, 12), (2, 0));
}

#[test]
fn test_get_line_col_out_of_bounds() {
    let content = "short";
    assert_eq!(get_line_col(content, 100), (0, 0));
}
