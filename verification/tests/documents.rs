//! Open documents and the edits the editor sends.
use ecolog_lsp::documents::{apply_text_changes, DocumentManager, TextChange};
use ecolog_lsp::position::{Position, Range};
use ecolog_lsp::services::DocumentService;

fn create_test_service() -> DocumentService {
    DocumentService::new(DocumentManager::new())
}

fn test_uri(name: &str) -> String {
    format!("file:///test/{}", name)
}

fn edit(sl: u32, sc: u32, el: u32, ec: u32, text: &str) -> TextChange {
    TextChange {
        range: Some(Range { start: Position { line: sl, character: sc }, end: Position { line: el, character: ec } }),
        text: text.to_string(),
    }
}

#[test]
fn test_open_and_get() {
    let mut service = create_test_service();
    let uri = test_uri("test.js");
    let content = "const x = process.env.DATABASE_URL;".to_string();
    service.open(uri.clone(), "javascript".to_string(), content, 1);
    let doc = service.get(&uri);
    assert!(doc.is_some());
    assert_eq!(doc.unwrap().version, 1);
}

#[test]
fn test_update_document() {
    let mut service = create_test_service();
    let uri = test_uri("test.js");
    service.open(uri.clone(), "javascript".to_string(), "const x = 1;".to_string(), 1);
    let changes = vec![TextChange { range: None, text: "const y = 2;".to_string() }];
    service.update(&uri, &changes, 2);
    let doc = service.get(&uri).unwrap();
    assert_eq!(doc.version, 2);
    assert_eq!(doc.content.as_str(), "const y = 2;");
}

#[test]
fn test_close_document() {
    let mut service = create_test_service();
    let uri = test_uri("test.js");
    service.open(uri.clone(), "javascript".to_string(), "const x = 1;".to_string(), 1);
    assert!(service.get(&uri).is_some());
    service.close(&uri);
    assert!(service.get(&uri).is_none());
}

#[test]
fn test_document_count() {
    let mut service = create_test_service();
    assert_eq!(service.document_count(), 0);
    service.open(test_uri("a.js"), "javascript".to_string(), "a".to_string(), 1);
    assert_eq!(service.document_count(), 1);
    service.open(test_uri("b.js"), "javascript".to_string(), "b".to_string(), 1);
    assert_eq!(service.document_count(), 2);
}

#[test]
fn test_all_uris() {
    let mut service = create_test_service();
    let uri1 = test_uri("a.js");
    let uri2 = test_uri("b.js");
    service.open(uri1.clone(), "javascript".to_string(), "a".to_string(), 1);
    service.open(uri2.clone(), "javascript".to_string(), "b".to_string(), 1);
    let uris = service.all_uris();
    assert_eq!(uris.len(), 2);
    assert!(uris.contains(&uri1));
    assert!(uris.contains(&uri2));
}

#[test]
fn reopening_replaces_the_document() {
    let mut service = create_test_service();
    let uri = test_uri("a.js");
    service.open(uri.clone(), "javascript".to_string(), "a".to_string(), 1);
    service.open(uri.clone(), "typescript".to_string(), "b".to_string(), 3);
    assert_eq!(service.document_count(), 1);
    let doc = service.get(&uri).unwrap();
    assert_eq!(doc.language_id, "typescript");
    assert_eq!(doc.version, 3);
    assert_eq!(service.manager().document_count(), 1);
}

#[test]
fn change_of_unknown_document_does_nothing() {
    let mut service = create_test_service();
    service.update(&test_uri("none.js"), &vec![], 4);
    assert_eq!(service.document_count(), 0);
}

#[test]
fn ranged_edits_replace_their_range() {
    assert_eq!(apply_text_changes("hello world", &vec![edit(0, 6, 0, 11, "there")]), "hello there");
    assert_eq!(apply_text_changes("a\nb\nc", &vec![edit(1, 0, 1, 1, "B")]), "a\nB\nc");
}

#[test]
fn edits_apply_in_order() {
    let changes = vec![edit(0, 0, 0, 0, "x"), edit(0, 1, 0, 1, "y")];
    assert_eq!(apply_text_changes("ab", &changes), "xyab");
}

#[test]
fn positions_past_a_line_fall_on_its_end() {
    assert_eq!(apply_text_changes("ab\ncd", &vec![edit(0, 9, 0, 9, "!")]), "ab!\ncd");
    assert_eq!(apply_text_changes("ab", &vec![edit(5, 0, 5, 0, "!")]), "ab!");
}

#[test]
fn full_change_replaces_everything() {
    let changes = vec![TextChange { range: None, text: "new".to_string() }];
    assert_eq!(apply_text_changes("old text", &changes), "new");
}
