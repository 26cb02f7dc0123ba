//! Semantic tokens of dotenv files.
use ecolog_lsp::dotenv::{DotenvEntry, DotenvPair, QuoteKind, Span};
use ecolog_lsp::semantic_tokens::{SemanticToken, SemanticTokenProvider};

fn pair(key: &str, key_span: (usize, usize), eq: usize, value: &str, value_span: (usize, usize), quote: QuoteKind, export: Option<(usize, usize)>) -> DotenvEntry {
    DotenvEntry::Pair(DotenvPair {
        key: key.to_string(),
        key_span: Some(Span::new(key_span.0, key_span.1)),
        value: value.to_string(),
        value_span: Some(Span::new(value_span.0, value_span.1)),
        quote,
        equals_pos: Some(eq),
        is_exported: export.is_some(),
        export_span: export.map(|(s, e)| Span::new(s, e)),
        is_comment: false,
    })
}

fn tok(delta_line: u32, delta_start: u32, length: u32, token_type: u32) -> SemanticToken {
    SemanticToken { delta_line, delta_start, length, token_type, token_modifiers_bitset: 0 }
}

#[test]
fn legend_lists_types_and_modifiers_by_index() {
    assert_eq!(
        SemanticTokenProvider::legend_types(),
        vec!["property", "keyword", "string", "number", "comment", "operator"]
    );
    assert_eq!(SemanticTokenProvider::legend_modifiers(), vec!["declaration", "static", "abstract"]);
}

#[test]
fn tokens_of_pairs_comments_and_export() {
    let content = "KEY=value\n# comment\nexport NUM=42";
    let entries = vec![
        pair("KEY", (0, 3), 3, "value", (4, 9), QuoteKind::Unquoted, None),
        DotenvEntry::Comment(Span::new(10, 19)),
        pair("NUM", (27, 30), 30, "42", (31, 33), QuoteKind::Unquoted, Some((20, 26))),
    ];
    let numeric = vec![false, false, true];
    let tokens = SemanticTokenProvider::extract_tokens(content, &entries, &numeric).unwrap();
    assert_eq!(
        tokens,
        vec![
            tok(0, 0, 3, 0),
            tok(0, 3, 1, 5),
            tok(0, 1, 5, 2),
            tok(1, 0, 9, 4),
            tok(1, 0, 6, 1),
            tok(0, 7, 3, 0),
            tok(0, 3, 1, 5),
            tok(0, 1, 2, 3),
        ]
    );
}

#[test]
fn quoted_numbers_stay_strings() {
    let content = "N='42'";
    let entries = vec![pair("N", (0, 1), 1, "42", (2, 6), QuoteKind::Single, None)];
    let tokens = SemanticTokenProvider::extract_tokens(content, &entries, &vec![true]).unwrap();
    assert_eq!(tokens[2], tok(0, 1, 4, 2));
}

#[test]
fn multi_line_value_gives_one_token_per_line() {
    let content = "K=\"a\nb\"";
    let entries = vec![pair("K", (0, 1), 1, "a\nb", (2, 7), QuoteKind::Double, None)];
    let tokens = SemanticTokenProvider::extract_tokens(content, &entries, &vec![false]).unwrap();
    assert_eq!(tokens, vec![tok(0, 0, 1, 0), tok(0, 1, 1, 5), tok(0, 1, 2, 2), tok(1, 0, 2, 2)]);
}

#[test]
fn columns_count_characters_and_lengths_count_bytes() {
    let content = "é=ü";
    let entries = vec![pair("é", (0, 2), 2, "ü", (3, 5), QuoteKind::Unquoted, None)];
    let tokens = SemanticTokenProvider::extract_tokens(content, &entries, &vec![false]).unwrap();
    assert_eq!(tokens, vec![tok(0, 0, 2, 0), tok(0, 1, 1, 5), tok(0, 1, 2, 2)]);
}

#[test]
fn empty_spans_and_errors_give_no_token() {
    let content = "K=";
    let entries = vec![pair("K", (0, 1), 1, "", (2, 2), QuoteKind::Unquoted, None)];
    let tokens = SemanticTokenProvider::extract_tokens(content, &entries, &vec![false]).unwrap();
    assert_eq!(tokens, vec![tok(0, 0, 1, 0), tok(0, 1, 1, 5)]);
}

#[test]
fn span_inside_a_character_is_refused() {
    let content = "é=1";
    let entries = vec![pair("é", (1, 2), 2, "1", (3, 4), QuoteKind::Unquoted, None)];
    assert!(SemanticTokenProvider::extract_tokens(content, &entries, &vec![true]).is_none());
}
