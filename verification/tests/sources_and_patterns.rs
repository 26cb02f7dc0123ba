//! How the origin of a value is shown, and env file patterns.
use ecolog_lsp::patterns::{is_env_file_name, CompiledEnvPatterns};
use ecolog_lsp::variables::{count_by_source, format_source, ResolvedVariable, VariableSource};

#[test]
fn test_format_source_file_relative() {
    let source = VariableSource::File { path: "/workspace/config/.env".to_string(), offset: 0 };
    assert_eq!(format_source(&source, "/workspace"), "config/.env");
}

#[test]
fn test_format_source_file_absolute() {
    let source = VariableSource::File { path: "/other/path/.env".to_string(), offset: 0 };
    assert_eq!(format_source(&source, "/workspace"), "/other/path/.env");
}

#[test]
fn test_format_source_shell() {
    assert_eq!(format_source(&VariableSource::Shell, "/workspace"), "System Environment");
}

#[test]
fn test_format_source_memory() {
    assert_eq!(format_source(&VariableSource::Memory, "/workspace"), "In-Memory");
}

#[test]
fn test_format_source_remote_with_path() {
    let source = VariableSource::Remote { provider: "aws".to_string(), path: Some("secrets/prod".to_string()) };
    assert_eq!(format_source(&source, "/workspace"), "Remote (aws: secrets/prod)");
}

#[test]
fn test_format_source_remote_without_path() {
    let source = VariableSource::Remote { provider: "vault".to_string(), path: None };
    assert_eq!(format_source(&source, "/workspace"), "Remote (vault)");
}

#[test]
fn a_directory_sharing_a_prefix_is_not_under_the_root() {
    let source = VariableSource::File { path: "/workspace2/.env".to_string(), offset: 0 };
    assert_eq!(format_source(&source, "/workspace"), "/workspace2/.env");
}

#[test]
fn counts_by_origin() {
    let var = |source| ResolvedVariable {
        key: "K".to_string(),
        resolved_value: "v".to_string(),
        source,
        description: None,
    };
    let vars = vec![
        var(VariableSource::Shell),
        var(VariableSource::File { path: "/a".to_string(), offset: 0 }),
        var(VariableSource::File { path: "/b".to_string(), offset: 3 }),
        var(VariableSource::Memory),
        var(VariableSource::Remote { provider: "p".to_string(), path: None }),
    ];
    assert_eq!(count_by_source(&vars), (1, 2, 1));
}

#[test]
fn env_file_patterns_match_names() {
    let patterns = vec![".env".to_string(), ".env.*".to_string()];
    assert!(is_env_file_name(&patterns, ".env"));
    assert!(is_env_file_name(&patterns, ".env.local"));
    assert!(!is_env_file_name(&patterns, "app.js"));
}

#[test]
fn invalid_patterns_match_nothing() {
    let patterns = vec!["[".to_string()];
    assert!(!is_env_file_name(&patterns, "["));
    let compiled = CompiledEnvPatterns::compile(&vec!["***".to_string(), "*.env".to_string()]);
    assert!(compiled.matches("prod.env"));
}
