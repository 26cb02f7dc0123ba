//! Masking of values and the other configuration rules.
use ecolog_lsp::config::{
    default_exclude_patterns, default_max_depth, default_max_file_size, default_max_files,
    default_max_hint_length, default_providers_path, parallelism_for_cpus, CachedFeatureFlags,
    FeatureConfig, IndexingConfig, InlayHintConfig, MaskSurface, MaskingConfig, ProvidersConfig,
};
use ecolog_lsp::handlers::{masked_completion_documentation, masked_hover_text, masked_value};
use ecolog_lsp::inlay_hints::masked_hint_display;
use ecolog_lsp::variables::ResolvedEnvVarValue;

fn masking(show_last: usize) -> MaskingConfig {
    MaskingConfig { enabled: true, show_last, ..Default::default() }
}

#[test]
fn mask_hides_everything_by_default() {
    assert_eq!(masking(0).mask("secret"), "********");
}

#[test]
fn mask_reveals_the_tail() {
    assert_eq!(masking(4).mask("sk_live_abcd"), "********abcd");
}

#[test]
fn mask_of_empty_value_is_empty() {
    assert_eq!(masking(3).mask(""), "");
}

#[test]
fn mask_hides_length_of_short_and_long_values() {
    let m = masking(2);
    assert_eq!(m.mask("abc").chars().count(), m.mask("a_much_longer_value").chars().count());
}

#[test]
fn mask_reveals_nothing_when_tail_is_whole_value() {
    assert_eq!(masking(10).mask("abc"), "********");
}

#[test]
fn apply_respects_surface_switches() {
    let mut m = masking(0);
    m.mask_in_completion = false;
    assert_eq!(m.apply("value", MaskSurface::Hover), "********");
    assert_eq!(m.apply("value", MaskSurface::Completion), "value");
}

#[test]
fn apply_does_nothing_when_disabled() {
    let m = MaskingConfig::default();
    assert_eq!(m.apply("value", MaskSurface::InlayHint), "value");
}

#[test]
fn feature_defaults_leave_inlay_hints_off() {
    assert!(!FeatureConfig::default().inlay_hints);
}

#[test]
fn inlay_hint_defaults() {
    let c = InlayHintConfig::default();
    assert_eq!(c.max_value_length, default_max_hint_length());
    assert_eq!(default_max_hint_length(), 30);
}

#[test]
fn indexing_defaults() {
    let excluded = default_exclude_patterns();
    assert!(excluded.contains(&"node_modules".to_string()));
    assert!(excluded.contains(&".git".to_string()));
    assert!(default_max_files() > 0);
    assert!(default_max_file_size() > 0);
    assert!(default_max_depth() > 0);
    let c = IndexingConfig::default();
    assert!(c.resolved_parallelism() >= 1);
}

#[test]
fn parallelism_takes_half_the_cores_within_bounds() {
    assert_eq!(parallelism_for_cpus(0), 1);
    assert_eq!(parallelism_for_cpus(1), 1);
    assert_eq!(parallelism_for_cpus(4), 2);
    assert_eq!(parallelism_for_cpus(32), 8);
}

#[test]
fn providers_path_prefers_xdg() {
    assert_eq!(default_providers_path(Some("/xdg"), Some("/home/u")), "/xdg/ecolog/providers");
    assert_eq!(
        default_providers_path(None, Some("/home/u")),
        "/home/u/.local/share/ecolog/providers"
    );
    assert_eq!(default_providers_path(None, None), "~/.local/share/ecolog/providers");
}

#[test]
fn providers_config_keeps_its_path() {
    let c = ProvidersConfig::with_path("/tmp/providers".to_string());
    assert_eq!(c.path, "/tmp/providers");
}

#[test]
fn cached_flags_follow_features() {
    let mut flags = CachedFeatureFlags::new();
    let features = FeatureConfig { hover: false, inlay_hints: true, ..Default::default() };
    flags.update_from(&features);
    assert!(!flags.hover);
    assert!(flags.inlay_hints);
    assert!(flags.completion);
}

fn resolved_value(value: &str) -> ResolvedEnvVarValue {
    ResolvedEnvVarValue { value: value.to_string(), source: ".env".to_string(), description: None }
}

#[test]
fn completion_documentation_masks_value_when_enabled() {
    let doc = masked_completion_documentation(&masking(0), "secret", ".env", None);
    assert_eq!(doc, "**Value**: `********`\n\n**Source**: `.env`");
    let off = MaskingConfig { mask_in_completion: false, ..masking(0) };
    let doc = masked_completion_documentation(&off, "secret", ".env", None);
    assert_eq!(doc, "**Value**: `secret`\n\n**Source**: `.env`");
}

#[test]
fn hover_masks_value_when_enabled() {
    let r = resolved_value("hunter2");
    let text = masked_hover_text(&masking(2), "PASSWORD", None, false, false, Some(&r)).unwrap();
    assert!(text.contains("********r2"));
    assert!(!text.contains("hunter2"));
    let plain = masked_hover_text(&MaskingConfig::default(), "PASSWORD", None, false, false, Some(&r)).unwrap();
    assert!(plain.contains("hunter2"));
}

#[test]
fn masked_value_keeps_source_and_description() {
    let r = ResolvedEnvVarValue {
        value: "abc".to_string(),
        source: "Shell".to_string(),
        description: Some("d".to_string()),
    };
    let m = masked_value(&masking(0), &r, MaskSurface::Hover);
    assert_eq!(m.value, "********");
    assert_eq!(m.source, "Shell");
    assert_eq!(m.description.as_deref(), Some("d"));
}

#[test]
fn inlay_hint_display_masks_then_shortens() {
    let config = InlayHintConfig { max_value_length: 4, ..Default::default() };
    assert_eq!(masked_hint_display(&masking(0), "value", &config), "****...");
    let off = MaskingConfig { mask_in_inlay_hints: false, ..masking(0) };
    assert_eq!(masked_hint_display(&off, "ab", &config), "ab");
}
