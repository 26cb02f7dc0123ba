//! Offsets, positions and variable names.
use ecolog_lsp::position::offset_to_line_col;
use ecolog_lsp::text::is_valid_env_var_name;

#[test]
fn test_offset_to_line_col_single_line() {
    let content = "hello world";
    assert_eq!(offset_to_line_col(content, 0), (0, 0));
    assert_eq!(offset_to_line_col(content, 6), (0, 6));
}

#[test]
fn test_offset_to_line_col_after_newline() {
    let content = "abc\ndefg";
    assert_eq!(offset_to_line_col(content, 4), (1, 0)); // 'd' after newline
    assert_eq!(offset_to_line_col(content, 6), (1, 2)); // 'f'
}

#[test]
fn test_offset_to_line_col_multiple_newlines() {
    let content = "a\nb\nc";
    assert_eq!(offset_to_line_col(content, 0), (0, 0)); // 'a'
    assert_eq!(offset_to_line_col(content, 2), (1, 0)); // 'b'
    assert_eq!(offset_to_line_col(content, 4), (2, 0)); // 'c'
}

#[test]
fn test_is_valid_env_var_name_valid() {
    assert!(is_valid_env_var_name("DATABASE_URL"));
    assert!(is_valid_env_var_name("API_KEY"));
    assert!(is_valid_env_var_name("_PRIVATE"));
    assert!(is_valid_env_var_name("VAR1"));
    assert!(is_valid_env_var_name("A"));
    assert!(is_valid_env_var_name("_"));
    assert!(is_valid_env_var_name("__name__"));
}

#[test]
fn test_is_valid_env_var_name_invalid() {
    assert!(!is_valid_env_var_name("")); // empty
    assert!(!is_valid_env_var_name("1VAR")); // starts with number
    assert!(!is_valid_env_var_name("VAR-NAME")); // contains hyphen
    assert!(!is_valid_env_var_name("VAR.NAME")); // contains dot
    assert!(!is_valid_env_var_name("VAR NAME")); // contains space
    assert!(!is_valid_env_var_name("VAR@NAME")); // contains special char
}

#[test]
fn test_is_valid_env_var_name_unicode() {
    // Unicode letters are not valid in env var names (ASCII only)
    assert!(!is_valid_env_var_name("日本語"));
    assert!(!is_valid_env_var_name("VARäble"));
}
