//! Definition ranges, environment object hovers, inlay hints with their
//! switch and masking, rename refusals, trimming and the parallelism override.
use ecolog_lsp::config::{FeatureConfig, IndexingConfig, InlayHintConfig, MaskingConfig};
use ecolog_lsp::handlers::{definition_range, env_object_hover, plan_rename, Location, TextEdit};
use ecolog_lsp::inlay_hints::{value_hints, EnvVarLocation, EnvVarLocationKind, ResolvedVarValue};
use ecolog_lsp::position::{Position, Range};
use ecolog_lsp::text::trim_text;

fn range(sl: u32, sc: u32, el: u32, ec: u32) -> Range {
    Range { start: Position { line: sl, character: sc }, end: Position { line: el, character: ec } }
}

#[test]
fn definition_range_spans_the_key() {
    let content = "A=1\nKEY=2\n";
    assert_eq!(definition_range(content, 4, "KEY"), range(1, 0, 1, 3));
    assert_eq!(definition_range(content, 0, "A"), range(0, 0, 0, 1));
}

#[test]
fn definition_range_counts_columns_in_chars_and_width_in_bytes() {
    let content = "é=1\nX_É=2\n";
    // "é=1\n" is five bytes; the key starts at column 0 of line 1 and is four bytes long.
    assert_eq!(definition_range(content, 5, "X_É"), range(1, 0, 1, 4));
    let content = "éA=1";
    assert_eq!(definition_range(content, 2, "A"), range(0, 1, 0, 2));
}

#[test]
fn definition_range_past_the_end_is_at_the_start() {
    assert_eq!(definition_range("A=1", 10, "KEY"), range(0, 0, 0, 3));
}

#[test]
fn env_object_hover_header_depends_on_alias() {
    assert_eq!(env_object_hover("env", "process.env"), "**`env`** → **`process.env`**\n\n*Environment Object*");
    assert_eq!(env_object_hover("process.env", "process.env"), "**`process.env`**\n\n*Environment Object*");
}

fn values() -> Vec<ResolvedVarValue> {
    vec![ResolvedVarValue {
        value: "secret-value".to_string(),
        source: ".env".to_string(),
        locations: vec![EnvVarLocation { range: range(1, 0, 1, 5), kind: EnvVarLocationKind::DirectReference }],
    }]
}

#[test]
fn value_hints_are_off_unless_switched_on() {
    let features = FeatureConfig::default();
    let r = value_hints(&features, &MaskingConfig::default(), &values(), range(0, 0, 10, 0), &InlayHintConfig::default());
    assert!(r.is_none());
}

#[test]
fn value_hints_show_the_value_shortened() {
    let features = FeatureConfig { inlay_hints: true, ..FeatureConfig::default() };
    let config = InlayHintConfig { max_value_length: 6, ..Default::default() };
    let hints = value_hints(&features, &MaskingConfig::default(), &values(), range(0, 0, 10, 0), &config).unwrap();
    assert_eq!(hints.len(), 1);
    assert_eq!(hints[0].label, ": \"secret...\"");
    assert_eq!(hints[0].tooltip, "Source: .env");
    assert_eq!(hints[0].position, Position { line: 1, character: 5 });
}

#[test]
fn value_hints_mask_the_value_when_masking_is_on() {
    let features = FeatureConfig { inlay_hints: true, ..FeatureConfig::default() };
    let masking = MaskingConfig { enabled: true, show_last: 2, ..MaskingConfig::default() };
    let hints =
        value_hints(&features, &masking, &values(), range(0, 0, 10, 0), &InlayHintConfig::default()).unwrap();
    assert_eq!(hints[0].label, ": \"********ue\"");
    assert!(!hints[0].label.contains("secret"));
}

#[test]
fn rename_to_an_invalid_name_is_refused() {
    let files = vec![(
        "file:///a.js".to_string(),
        vec![TextEdit { range: range(0, 0, 0, 3), new_text: "OLD".to_string() }],
    )];
    let def = Location { uri: "file:///.env".to_string(), range: range(4, 0, 4, 3) };
    assert!(plan_rename("file:///a.js", Some(range(0, 0, 0, 3)), files, Some(def), "1BAD").is_none());
    assert!(plan_rename("file:///a.js", Some(range(0, 0, 0, 3)), vec![], None, "bad-name").is_none());
    assert!(plan_rename("file:///a.js", Some(range(0, 0, 0, 3)), vec![], None, "GOOD_NAME").is_some());
}

#[test]
fn trim_text_matches_str_trim() {
    let samples = [
        "  a b  ",
        "\t\n\u{0B}\u{0C}\r x \u{85}\u{A0}",
        "\u{1680}\u{2000}\u{2005}\u{200A}y\u{2028}\u{2029}\u{202F}\u{205F}\u{3000}",
        "\u{200B}z\u{200B}",
        "   ",
        "",
        "é",
    ];
    for s in samples {
        assert_eq!(trim_text(s), s.trim());
    }
}

#[test]
fn environment_override_sets_index_parallelism() {
    let config = IndexingConfig::default();
    assert_eq!(config.parallelism, 0);
    assert_eq!(config.effective_parallelism(Some("3")), 3);
}
