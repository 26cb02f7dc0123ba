//! Finding the syntax errors in a parsed tree.
use ecolog_lsp::position::{Position, Range};
use ecolog_lsp::syntax_tree::{syntax_errors_of, ParseNode};

fn range(line: u32, from: u32, to: u32) -> Range {
    Range { start: Position { line, character: from }, end: Position { line, character: to } }
}

fn node(kind: &str, r: Range, children: Vec<ParseNode>) -> ParseNode {
    let has_error = children.iter().any(|c| c.is_error || c.is_missing || c.has_error);
    ParseNode { kind: kind.to_string(), is_error: false, is_missing: false, has_error, range: r, children }
}

fn error(r: Range, children: Vec<ParseNode>) -> ParseNode {
    ParseNode { kind: "ERROR".to_string(), is_error: true, is_missing: false, has_error: true, range: r, children }
}

fn missing(kind: &str, r: Range) -> ParseNode {
    ParseNode { kind: kind.to_string(), is_error: false, is_missing: true, has_error: true, range: r, children: vec![] }
}

#[test]
fn clean_tree_has_no_errors() {
    let root = node("program", range(0, 0, 10), vec![node("expression_statement", range(0, 0, 10), vec![])]);
    assert!(syntax_errors_of(&root).is_empty());
}

#[test]
fn error_and_missing_nodes_are_reported_in_order() {
    let root = node(
        "program",
        range(0, 0, 20),
        vec![
            node("lexical_declaration", range(0, 0, 9), vec![missing(";", range(0, 9, 9))]),
            error(range(1, 0, 4), vec![error(range(1, 1, 2), vec![])]),
        ],
    );
    let errors = syntax_errors_of(&root);
    assert_eq!(errors.len(), 2);
    assert_eq!(errors[0].range, range(0, 9, 9));
    assert_eq!(errors[0].message.as_deref(), Some("Missing ;"));
    assert_eq!(errors[1].range, range(1, 0, 4));
    assert_eq!(errors[1].message, None);
}

#[test]
fn subtree_without_errors_is_not_searched() {
    let mut quiet = node("block", range(2, 0, 5), vec![error(range(2, 1, 2), vec![])]);
    quiet.has_error = false;
    let root = node("program", range(0, 0, 5), vec![quiet]);
    let mut root = root;
    root.has_error = true;
    assert!(syntax_errors_of(&root).is_empty());
}
