//! Inlay hint values and which locations get one.
use ecolog_lsp::config::InlayHintConfig;
use ecolog_lsp::inlay_hints::{format_value, overlaps, should_show, EnvVarLocationKind};
use ecolog_lsp::position::{Position, Range};

#[test]
fn test_format_value_simple() {
    let config = InlayHintConfig::default();
    let result = format_value("simple_value", &config);
    assert_eq!(result, "simple_value");
}

#[test]
fn test_format_value_truncation() {
    let config = InlayHintConfig {
        max_value_length: 10,
        ..Default::default()
    };
    let result = format_value("this_is_a_very_long_value", &config);
    assert_eq!(result, "this_is_a_...");
}

#[test]
fn test_format_value_multiline() {
    let config = InlayHintConfig::default();
    let result = format_value("line1\nline2\nline3", &config);
    assert_eq!(result, "line1...");
}

#[test]
fn test_should_show_direct_reference() {
    let config = InlayHintConfig {
        direct_references: true,
        binding_declarations: false,
        binding_usages: false,
        property_accesses: false,
        ..Default::default()
    };
    assert!(should_show(EnvVarLocationKind::DirectReference, &config));
    assert!(!should_show(EnvVarLocationKind::BindingDeclaration, &config));
    assert!(!should_show(EnvVarLocationKind::BindingUsage, &config));
    assert!(!should_show(EnvVarLocationKind::PropertyAccess, &config));
}

#[test]
fn test_should_show_binding_declaration() {
    let config = InlayHintConfig {
        direct_references: false,
        binding_declarations: true,
        binding_usages: false,
        property_accesses: false,
        ..Default::default()
    };
    assert!(!should_show(EnvVarLocationKind::DirectReference, &config));
    assert!(should_show(EnvVarLocationKind::BindingDeclaration, &config));
}

#[test]
fn test_should_show_property_access() {
    let config = InlayHintConfig {
        direct_references: false,
        binding_declarations: false,
        binding_usages: false,
        property_accesses: true,
        ..Default::default()
    };
    assert!(should_show(EnvVarLocationKind::PropertyAccess, &config));
}

fn make_range(start_line: u32, start_char: u32, end_line: u32, end_char: u32) -> Range {
    Range::new(Position::new(start_line, start_char), Position::new(end_line, end_char))
}

#[test]
fn test_overlaps_fully_contained() {
    let outer = make_range(0, 0, 100, 0);
    let inner = make_range(10, 5, 20, 10);
    assert!(overlaps(inner, outer));
}

#[test]
fn test_overlaps_partial_start() {
    let outer = make_range(10, 0, 20, 0);
    let inner = make_range(5, 0, 15, 0);
    assert!(overlaps(inner, outer));
}

#[test]
fn test_overlaps_partial_end() {
    let outer = make_range(10, 0, 20, 0);
    let inner = make_range(15, 0, 25, 0);
    assert!(overlaps(inner, outer));
}

#[test]
fn test_overlaps_no_overlap_before() {
    let outer = make_range(10, 0, 20, 0);
    let inner = make_range(0, 0, 5, 0);
    assert!(!overlaps(inner, outer));
}

#[test]
fn test_overlaps_no_overlap_after() {
    let outer = make_range(10, 0, 20, 0);
    let inner = make_range(25, 0, 30, 0);
    assert!(!overlaps(inner, outer));
}

#[test]
fn test_overlaps_same_line_no_overlap() {
    let outer = make_range(5, 10, 5, 20);
    let inner = make_range(5, 25, 5, 30);
    assert!(!overlaps(inner, outer));
}

#[test]
fn test_overlaps_same_line_overlap() {
    let outer = make_range(5, 10, 5, 25);
    let inner = make_range(5, 20, 5, 30);
    assert!(overlaps(inner, outer));
}

#[test]
fn test_overlaps_exact_boundary() {
    let outer = make_range(5, 10, 5, 20);
    let inner = make_range(5, 20, 5, 25);
    assert!(!overlaps(inner, outer));
}
