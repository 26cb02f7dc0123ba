//! Registering languages and finding them again.
use ecolog_lsp::registry::{Language, LanguageRegistry};
use tower_lsp::lsp_types::Url;

#[test]
fn test_new_registry_is_empty() {
    let registry = LanguageRegistry::new();
    assert!(registry.all_languages().is_empty());
}

#[test]
fn test_default_is_empty() {
    let registry = LanguageRegistry::default();
    assert!(registry.all_languages().is_empty());
}

#[test]
fn test_register_language() {
    let mut registry = LanguageRegistry::new();
    registry.register(Language::JavaScript);
    assert_eq!(registry.all_languages().len(), 1);
}

#[test]
fn test_register_multiple_languages() {
    let mut registry = LanguageRegistry::new();
    registry.register(Language::JavaScript);
    registry.register(Language::Python);
    registry.register(Language::TypeScript);
    assert_eq!(registry.all_languages().len(), 3);
}

#[test]
fn test_get_by_extension() {
    let mut registry = LanguageRegistry::new();
    registry.register(Language::JavaScript);

    let lang = registry.get_by_extension("js");
    assert!(lang.is_some());
    assert_eq!(lang.unwrap().id(), "javascript");

    let missing = registry.get_by_extension("xyz");
    assert!(missing.is_none());
}

#[test]
fn test_get_by_extension_multiple() {
    let mut registry = LanguageRegistry::new();
    registry.register(Language::TypeScript);

    let ts = registry.get_by_extension("ts");
    assert!(ts.is_some());
}

#[test]
fn test_get_by_language_id() {
    let mut registry = LanguageRegistry::new();
    registry.register(Language::Python);

    let lang = registry.get_by_language_id("python");
    assert!(lang.is_some());
    assert_eq!(lang.unwrap().id(), "python");

    let missing = registry.get_by_language_id("ruby");
    assert!(missing.is_none());
}

#[test]
fn test_get_for_uri_javascript() {
    let mut registry = LanguageRegistry::new();
    registry.register(Language::JavaScript);

    let uri = Url::parse("file:///path/to/file.js").unwrap();
    let lang = registry.get_for_uri(&uri);
    assert!(lang.is_some());
    assert_eq!(lang.unwrap().id(), "javascript");
}

#[test]
fn test_get_for_uri_typescript() {
    let mut registry = LanguageRegistry::new();
    registry.register(Language::TypeScript);

    let uri = Url::parse("file:///path/to/file.ts").unwrap();
    let lang = registry.get_for_uri(&uri);
    assert!(lang.is_some());
    assert_eq!(lang.unwrap().id(), "typescript");
}

#[test]
fn test_get_for_uri_unknown_extension() {
    let mut registry = LanguageRegistry::new();
    registry.register(Language::JavaScript);

    let uri = Url::parse("file:///path/to/file.unknown").unwrap();
    let lang = registry.get_for_uri(&uri);
    assert!(lang.is_none());
}

#[test]
fn test_get_for_uri_no_extension() {
    let mut registry = LanguageRegistry::new();
    registry.register(Language::JavaScript);

    let uri = Url::parse("file:///path/to/Makefile").unwrap();
    let lang = registry.get_for_uri(&uri);
    assert!(lang.is_none());
}

#[test]
fn test_get_for_uri_invalid_uri() {
    let registry = LanguageRegistry::new();
    let uri = Url::parse("https://example.com/file.js").unwrap();
    let lang = registry.get_for_uri(&uri);
    assert!(lang.is_none());
}

#[test]
fn later_registration_takes_over_shared_keys() {
    let mut registry = LanguageRegistry::new();
    registry.register(Language::C);
    registry.register(Language::Cpp);
    assert_eq!(registry.get_by_extension("h"), Some(Language::C));
    assert_eq!(registry.get_by_extension("hpp"), Some(Language::Cpp));
    assert_eq!(registry.get_by_language_id("c"), Some(Language::C));
    assert_eq!(registry.get_by_language_id("c++"), Some(Language::Cpp));
}

#[test]
fn registering_twice_keeps_one_language() {
    let mut registry = LanguageRegistry::new();
    registry.register(Language::Go);
    registry.register(Language::Go);
    assert_eq!(registry.all_languages(), vec![Language::Go]);
    assert_eq!(registry.get_for_path("/src/main.go"), Some(Language::Go));
    assert_eq!(registry.get_for_path("/src/Makefile"), None);
}

#[test]
fn tsx_files_belong_to_typescript_react() {
    let mut registry = LanguageRegistry::new();
    registry.register(Language::TypeScript);
    registry.register(Language::TypeScriptReact);
    assert_eq!(registry.get_by_extension("tsx"), Some(Language::TypeScriptReact));
    assert_eq!(registry.get_by_extension("ts"), Some(Language::TypeScript));
    assert_eq!(registry.get_by_extension("mts").map(|l| l.extensions().len()), Some(3));
}
