//! Dotenv lint diagnostics, key lookup and code diagnostics.
use ecolog_lsp::diagnostics::{code_file_diagnostics, document_diagnostics, names_to_resolve, NamedRange, SyntaxError};
use ecolog_lsp::dotenv::{
    classify_error, env_file_diagnostics, find_key_range, key_at_position, korni_span_to_range,
    valid_pair_keys, DotenvEntry, DotenvError, DotenvErrorKind, DotenvPair, QuoteKind, Severity,
    Span,
};
use ecolog_lsp::position::{Position, Range};

fn pair(key: &str, start: usize, is_comment: bool) -> DotenvEntry {
    DotenvEntry::Pair(DotenvPair {
        key: key.to_string(),
        key_span: Some(Span::new(start, start + key.len())),
        value: String::new(),
        value_span: None,
        quote: QuoteKind::Unquoted,
        equals_pos: Some(start + key.len()),
        is_exported: false,
        export_span: None,
        is_comment,
    })
}

fn error(kind: DotenvErrorKind, offset: usize, message: &str) -> DotenvEntry {
    DotenvEntry::Error(DotenvError {
        kind,
        offset,
        message: message.to_string(),
        display: message.to_string(),
    })
}

#[test]
fn test_korni_span_to_range_single_line() {
    let content = "KEY=value";
    let r = korni_span_to_range(content, Span::new(0, 3));
    assert_eq!(r, Range { start: Position { line: 0, character: 0 }, end: Position { line: 0, character: 3 } });
}

#[test]
fn test_korni_span_to_range_multiline() {
    let content = "A=1\nBB=2";
    let r = korni_span_to_range(content, Span::new(4, 6));
    assert_eq!(r, Range { start: Position { line: 1, character: 0 }, end: Position { line: 1, character: 2 } });
}

#[test]
fn error_classification() {
    let e = DotenvError { kind: DotenvErrorKind::Generic, offset: 0, message: "Empty key".to_string(), display: String::new() };
    assert_eq!(classify_error(&e), ("Empty key", "EDF003", Severity::Error));
    let w = DotenvError { kind: DotenvErrorKind::InvalidUtf8, offset: 0, message: String::new(), display: String::new() };
    assert_eq!(classify_error(&w), ("Invalid UTF-8 sequence", "EDF006", Severity::Warning));
    let d = DotenvError { kind: DotenvErrorKind::DoubleEquals, offset: 0, message: String::new(), display: String::new() };
    assert_eq!(classify_error(&d).1, "EDF002");
}

#[test]
fn parse_errors_become_one_character_diagnostics() {
    let content = "A=1\nB C=2";
    let entries = vec![pair("A", 0, false), error(DotenvErrorKind::ForbiddenWhitespace, 5, "space")];
    let d = env_file_diagnostics(content, &entries);
    assert_eq!(d.len(), 1);
    assert_eq!(d[0].range, Range { start: Position { line: 1, character: 1 }, end: Position { line: 1, character: 2 } });
    assert_eq!(d[0].code, "EDF001");
    assert_eq!(d[0].source, "ecolog-linter");
    assert_eq!(d[0].message, "Forbidden whitespace: space");
}

#[test]
fn keys_of_commented_pairs_are_not_defined() {
    let entries = vec![pair("A", 0, false), pair("B", 4, true), pair("C", 8, false)];
    assert_eq!(valid_pair_keys(&entries), vec!["A".to_string(), "C".to_string()]);
}

#[test]
fn key_lookup_and_key_under_cursor() {
    let content = "A=1\nBB=2";
    let entries = vec![pair("A", 0, false), pair("BB", 4, false)];
    let r = find_key_range(content, &entries, "BB").unwrap();
    assert_eq!(r.start, Position { line: 1, character: 0 });
    assert!(find_key_range(content, &entries, "C").is_none());
    let (k, _) = key_at_position(content, &entries, Position { line: 1, character: 1 }).unwrap();
    assert_eq!(k, "BB");
    assert!(key_at_position(content, &entries, Position { line: 3, character: 0 }).is_none());
}

fn named(name: &str, line: u32) -> NamedRange {
    NamedRange { name: name.to_string(), range: Range { start: Position { line, character: 0 }, end: Position { line, character: 3 } } }
}

#[test]
fn undefined_references_are_warned_about() {
    let refs = vec![named("A", 0), named("B", 1)];
    let d = code_file_diagnostics(&vec![], &refs, &vec![], &vec![], &vec!["A".to_string()]);
    assert_eq!(d.len(), 1);
    assert_eq!(d[0].message, "Environment variable 'B' is not defined.");
    assert_eq!(d[0].severity, Severity::Warning);
    assert_eq!(d[0].code, "undefined-env-var");
}

#[test]
fn syntax_errors_come_first() {
    let err = SyntaxError { range: Range { start: Position { line: 0, character: 0 }, end: Position { line: 0, character: 1 } }, message: None };
    let d = code_file_diagnostics(&vec![err], &vec![named("X", 2)], &vec![], &vec![], &vec![]);
    assert_eq!(d.len(), 2);
    assert_eq!(d[0].message, "Syntax error");
    assert_eq!(d[0].code, "syntax-error");
}

#[test]
fn names_are_resolved_once() {
    let names = names_to_resolve(&vec![named("A", 0), named("B", 1)], &vec![named("A", 2)], &vec![named("C", 3)]);
    assert_eq!(names, vec!["A".to_string(), "B".to_string(), "C".to_string()]);
}

#[test]
fn disabled_diagnostics_are_empty() {
    let d = document_diagnostics(false, false, "", &vec![], &vec![], &vec![named("X", 0)], &vec![], &vec![], &vec![]);
    assert!(d.is_empty());
}

#[test]
fn parsing_a_pair_keeps_its_spans() {
    let entries = ecolog_lsp::dotenv::parse_env_file("KEY=value");
    assert_eq!(entries.len(), 1);
    match &entries[0] {
        ecolog_lsp::dotenv::DotenvEntry::Pair(p) => {
            assert_eq!(p.key, "KEY");
            assert_eq!(p.value, "value");
            assert_eq!(p.key_span, Some(ecolog_lsp::dotenv::Span::new(0, 3)));
            assert_eq!(p.equals_pos, Some(3));
            assert_eq!(p.value_span, Some(ecolog_lsp::dotenv::Span::new(4, 9)));
        }
        other => panic!("expected a pair, got {:?}", other),
    }
}

#[test]
fn whitespace_before_equals_is_reported_where_it_starts() {
    let d = ecolog_lsp::dotenv::dotenv_diagnostics("A=1\nB =2\n").unwrap();
    assert_eq!(d.len(), 1);
    assert_eq!(d[0].code, "EDF001");
    assert_eq!(d[0].source, "ecolog-linter");
    assert_eq!(d[0].range.start.line, 1);
    assert_eq!(d[0].range.start.character, 1);
    assert_eq!(d[0].range.end.character, 2);
    assert_eq!(
        d[0].message,
        "Forbidden whitespace: Whitespace not allowed between key and equals at byte 5"
    );
}

#[test]
fn double_equals_is_reported() {
    let d = ecolog_lsp::dotenv::dotenv_diagnostics("X==1").unwrap();
    assert_eq!(d.len(), 1);
    assert_eq!(d[0].code, "EDF002");
    assert_eq!(d[0].range.start.character, 2);
    assert!(d[0].message.starts_with("Double equals sign detected: "));
}

#[test]
fn a_clean_file_has_no_diagnostics() {
    let d = ecolog_lsp::dotenv::dotenv_diagnostics("A=1\n# note\nexport B=\"two\"\n").unwrap();
    assert!(d.is_empty());
}
