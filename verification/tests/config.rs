//! Configuration defaults.
use ecolog_lsp::commands::SourceKind;
use ecolog_lsp::config::{
    apply_source_defaults, parallelism_override, precedence_from_defaults, FeatureConfig, IndexingConfig,
    StrictConfig,
};

#[test]
fn test_feature_config_default() {
    let config = FeatureConfig::default();
    assert!(config.hover);
    assert!(config.completion);
    assert!(config.diagnostics);
    assert!(config.definition);
}

#[test]
fn test_strict_config_default() {
    let config = StrictConfig::default();
    assert!(config.hover);
    assert!(config.completion);
}

#[test]
fn source_defaults_give_the_order_of_sources() {
    assert_eq!(precedence_from_defaults(true, true, false), vec![SourceKind::Shell, SourceKind::File]);
    assert_eq!(precedence_from_defaults(false, true, true), vec![SourceKind::File, SourceKind::Remote]);
    assert!(precedence_from_defaults(false, false, false).is_empty());
}

#[test]
fn only_the_old_default_order_gives_way_to_source_defaults() {
    assert_eq!(
        apply_source_defaults(vec![SourceKind::Shell, SourceKind::File], true, true, true),
        vec![SourceKind::Shell, SourceKind::File, SourceKind::Remote]
    );
    assert_eq!(
        apply_source_defaults(vec![SourceKind::File, SourceKind::Shell], false, true, true),
        vec![SourceKind::File, SourceKind::Shell]
    );
    assert_eq!(
        apply_source_defaults(vec![SourceKind::Shell, SourceKind::File], false, true, false),
        vec![SourceKind::File]
    );
}

#[test]
fn parallelism_override_reads_positive_decimals() {
    assert_eq!(parallelism_override("4"), Some(4));
    assert_eq!(parallelism_override("+3"), Some(3));
    assert_eq!(parallelism_override("0"), None);
    assert_eq!(parallelism_override(""), None);
    assert_eq!(parallelism_override("+"), None);
    assert_eq!(parallelism_override(" 4"), None);
    assert_eq!(parallelism_override("4x"), None);
    assert_eq!(parallelism_override("99999999999999999999999999"), None);
}

#[test]
fn the_environment_overrides_the_configured_parallelism() {
    let mut config = IndexingConfig::default();
    assert_eq!(config.effective_parallelism(Some("6")), 6);
    let auto = config.effective_parallelism(None);
    assert!((1..=8).contains(&auto));
    config.parallelism = 3;
    assert_eq!(config.effective_parallelism(Some("many")), 3);
    assert_eq!(config.effective_parallelism(Some("12")), 12);
}
