//! Name order, the keyed map, and the shared language rules.
use ecolog_lsp::keyed::KeyedMap;
use ecolog_lsp::languages::go::Go;
use ecolog_lsp::languages::javascript::JavaScript;
use ecolog_lsp::languages::python::Python;
use ecolog_lsp::languages::rust::Rust;
use ecolog_lsp::languages::typescript::TypeScriptReact;
use ecolog_lsp::languages::{is_root_kind, scope_kind_of, trim_quotes, LanguageSupport, ScopeKind};
use ecolog_lsp::order::{insert_sorted, str_lt};

#[test]
fn names_order_by_characters() {
    assert!(str_lt("A", "B"));
    assert!(str_lt("AB", "ABC"));
    assert!(!str_lt("B", "A"));
    assert!(!str_lt("A", "A"));
    assert!(str_lt("Z", "a"));
}

#[test]
fn sorted_insertion_keeps_one_of_each() {
    let mut v: Vec<String> = Vec::new();
    insert_sorted(&mut v, "b");
    insert_sorted(&mut v, "a");
    insert_sorted(&mut v, "b");
    assert_eq!(v, vec!["a".to_string(), "b".to_string()]);
}

#[test]
fn keyed_map_replaces_and_removes() {
    let mut m: KeyedMap<String, u32> = KeyedMap::new();
    m.insert("a".to_string(), 1);
    m.insert("a".to_string(), 2);
    m.insert("b".to_string(), 3);
    assert_eq!(m.len(), 2);
    assert_eq!(m.get(&"a".to_string()), Some(&2));
    m.remove(&"a".to_string());
    assert!(!m.contains_key(&"a".to_string()));
    assert_eq!(m.len(), 1);
}

#[test]
fn quotes_are_trimmed_from_both_ends() {
    assert_eq!(trim_quotes("\"'x'\"", false), "x");
    assert_eq!(trim_quotes("\"\"", false), "");
    assert_eq!(trim_quotes("a\"b", false), "a\"b");
    assert_eq!(trim_quotes("`x`", false), "`x`");
    assert_eq!(Go.strip_quotes("`x`"), "x");
    assert_eq!(Python.strip_quotes("`x`"), "`x`");
}

#[test]
fn completion_triggers_read_the_text_before_the_cursor() {
    let source = b"process.env.";
    assert!(JavaScript.is_valid_completion_trigger(source, source.len()));
    assert!(!JavaScript.is_valid_completion_trigger(source, 3));
    let rust_src = b"env::var(\"";
    assert!(Rust.is_valid_completion_trigger(rust_src, rust_src.len()));
    assert!(!Rust.is_valid_completion_trigger(rust_src, 0));
}

#[test]
fn scope_kinds_of_nodes() {
    assert_eq!(scope_kind_of("arrow_function"), ScopeKind::Function);
    assert_eq!(scope_kind_of("class_body"), ScopeKind::Class);
    assert_eq!(scope_kind_of("for_of_statement"), ScopeKind::Loop);
    assert_eq!(scope_kind_of("catch_clause"), ScopeKind::Conditional);
    assert_eq!(scope_kind_of("statement_block"), ScopeKind::Block);
    assert_eq!(Go.node_to_scope_kind("func_literal"), ScopeKind::Function);
    assert!(is_root_kind("program"));
    assert!(!is_root_kind("block"));
}

#[test]
fn languages_name_their_scopes_and_comments() {
    assert!(TypeScriptReact.is_scope_kind("jsx_element"));
    assert!(!JavaScript.is_scope_kind("jsx_element"));
    assert!(Rust.is_scope_kind("closure_expression"));
    assert_eq!(Go.comment_node_kinds(), vec!["comment"]);
    assert_eq!(Go.completion_trigger_characters(), vec!["(\"", "('"]);
    assert!(JavaScript.is_root_node_kind("program"));
}
