//! Inlay hints, hovers, completion documentation, renames, references and
//! workspace symbols.
use ecolog_lsp::config::InlayHintConfig;
use ecolog_lsp::handlers::{
    completion_documentation, hover_text, is_relative_specifier, plan_rename, reference_locations,
    rename_edits, symbol_location, symbol_matches, workspace_symbols, Location, SymbolEntry,
    TextEdit, Usage,
    UsageKind,
};
use ecolog_lsp::inlay_hints::{
    build_inlay_hints, overlaps, EnvVarLocation, EnvVarLocationKind, ResolvedVarHints,
};
use ecolog_lsp::position::{Position, Range};
use ecolog_lsp::variables::{format_hover_markdown, ResolvedEnvVarValue};

fn range(sl: u32, sc: u32, el: u32, ec: u32) -> Range {
    Range { start: Position { line: sl, character: sc }, end: Position { line: el, character: ec } }
}

fn loc(line: u32, kind: EnvVarLocationKind) -> EnvVarLocation {
    EnvVarLocation { range: range(line, 0, line, 5), kind }
}

#[test]
fn hints_follow_each_shown_occurrence() {
    let vars = vec![ResolvedVarHints {
        display: "5432".to_string(),
        source: ".env".to_string(),
        locations: vec![
            loc(1, EnvVarLocationKind::DirectReference),
            loc(2, EnvVarLocationKind::BindingUsage),
        ],
    }];
    let config = InlayHintConfig::default();
    let hints = build_inlay_hints(&vars, range(0, 0, 10, 0), &config);
    assert_eq!(hints.len(), 1);
    assert_eq!(hints[0].label, ": \"5432\"");
    assert_eq!(hints[0].tooltip, "Source: .env");
    assert_eq!(hints[0].position, Position { line: 1, character: 5 });
}

#[test]
fn hints_per_line_are_capped() {
    let locations = vec![
        loc(3, EnvVarLocationKind::DirectReference),
        loc(3, EnvVarLocationKind::DirectReference),
        loc(3, EnvVarLocationKind::DirectReference),
    ];
    let vars = vec![ResolvedVarHints { display: "v".to_string(), source: "s".to_string(), locations }];
    let config = InlayHintConfig { max_hints_per_line: 2, ..Default::default() };
    assert_eq!(build_inlay_hints(&vars, range(0, 0, 10, 0), &config).len(), 2);
    let unlimited = InlayHintConfig { max_hints_per_line: 0, ..Default::default() };
    assert_eq!(build_inlay_hints(&vars, range(0, 0, 10, 0), &unlimited).len(), 3);
}

#[test]
fn hints_outside_the_range_are_left_out() {
    let vars = vec![ResolvedVarHints {
        display: "v".to_string(),
        source: "s".to_string(),
        locations: vec![loc(20, EnvVarLocationKind::DirectReference)],
    }];
    let config = InlayHintConfig::default();
    assert!(build_inlay_hints(&vars, range(0, 0, 10, 0), &config).is_empty());
}

#[test]
fn overlap_is_symmetric_and_excludes_touching_ranges() {
    let a = range(0, 0, 0, 5);
    let b = range(0, 3, 0, 9);
    let c = range(0, 5, 0, 9);
    assert!(overlaps(a, b) && overlaps(b, a));
    assert!(!overlaps(a, c));
    assert!(overlaps(a, a));
}

fn resolved(value: &str, description: Option<&str>) -> ResolvedEnvVarValue {
    ResolvedEnvVarValue {
        value: value.to_string(),
        source: ".env".to_string(),
        description: description.map(|d| d.to_string()),
    }
}

#[test]
fn test_format_hover_markdown_simple() {
    let result = format_hover_markdown("DATABASE_URL", None, &resolved("postgres://localhost", None));
    assert!(result.contains("**`DATABASE_URL`**"));
    assert!(result.contains("`postgres://localhost`"));
    assert!(result.contains("`.env`"));
}

#[test]
fn test_format_hover_markdown_with_binding() {
    let result = format_hover_markdown("API_KEY", Some("apiKey"), &resolved("secret", None));
    assert!(result.contains("**`apiKey`** → **`API_KEY`**"));
}

#[test]
fn test_format_hover_markdown_same_binding_name() {
    let result = format_hover_markdown("PORT", Some("PORT"), &resolved("8080", None));
    assert!(result.contains("**`PORT`**"));
    assert!(!result.contains("→"));
}

#[test]
fn test_format_hover_markdown_with_description() {
    let result = format_hover_markdown("DEBUG", None, &resolved("true", Some("Enable debug mode")));
    assert!(result.contains("*Enable debug mode*"));
}

#[test]
fn test_format_hover_markdown_multiline_value() {
    let result = format_hover_markdown("MULTILINE", None, &resolved("line1\nline2", None));
    assert!(result.contains("`line1`\n`line2`"));
}

#[test]
fn hover_markdown_exact_text() {
    let result = format_hover_markdown("PORT", None, &resolved("8080", Some("port")));
    assert_eq!(result, "**`PORT`**\n\n**Value**: `8080`\n\n**Source**: `.env`\n\n*port*");
}

#[test]
fn hover_text_for_bindings_and_objects() {
    let r = resolved("1", None);
    let bound = hover_text("PORT", Some("port"), true, false, Some(&r)).unwrap();
    assert!(bound.starts_with("**`port`** → **`PORT`**"));
    let object = hover_text("process.env", Some("env"), true, true, None).unwrap();
    assert_eq!(object, "**`env`** → **`process.env`**\n\n*Environment Object*");
    assert!(hover_text("PORT", None, false, false, None).is_none());
}

#[test]
fn completion_documentation_text() {
    assert_eq!(
        completion_documentation("", ".env", None),
        "**Value**: *(empty)*\n\n**Source**: `.env`"
    );
    assert_eq!(
        completion_documentation("a\nb", "Shell", Some("doc")),
        "**Value**: `a`\n`b`\n\n**Source**: `Shell`\n\n*doc*"
    );
    assert_eq!(completion_documentation("x", "s", Some("")), "**Value**: `x`\n\n**Source**: `s`");
}

#[test]
fn relative_specifiers() {
    assert!(is_relative_specifier("./config"));
    assert!(is_relative_specifier("../lib/env"));
    assert!(!is_relative_specifier("dotenv"));
    assert!(!is_relative_specifier(".config"));
}

fn usage(line: u32, kind: UsageKind) -> Usage {
    Usage { range: range(line, 0, line, 3), kind }
}

#[test]
fn rename_skips_uses_of_bound_names() {
    let usages = vec![
        usage(0, UsageKind::DirectReference),
        usage(1, UsageKind::BindingUsage),
        usage(2, UsageKind::BindingDeclaration),
    ];
    let edits = rename_edits(&usages, "NEW");
    assert_eq!(edits.len(), 2);
    assert_eq!(edits[1].range, range(2, 0, 2, 3));
    assert_eq!(edits[0].new_text, "NEW");
}

#[test]
fn rename_plan_groups_edits_by_file() {
    let files = vec![
        ("file:///a.js".to_string(), vec![TextEdit { range: range(0, 0, 0, 3), new_text: "N".to_string() }]),
        ("file:///b.js".to_string(), vec![]),
    ];
    let def = Location { uri: "file:///.env".to_string(), range: range(4, 0, 4, 3) };
    let plan = plan_rename("file:///a.js", None, files, Some(def), "N").unwrap();
    assert_eq!(plan.len(), 2);
    assert!(plan.iter().any(|(u, e)| u == "file:///.env" && e.len() == 1));
    assert!(plan.iter().all(|(u, _)| u != "file:///b.js"));
}

#[test]
fn rename_plan_without_edits_is_none() {
    assert!(plan_rename("file:///a.js", None, vec![], None, "N").is_none());
}

#[test]
fn references_add_the_definition_once() {
    let files = vec![("file:///a.js".to_string(), vec![usage(0, UsageKind::DirectReference)])];
    let def = Location { uri: "file:///.env".to_string(), range: range(1, 0, 1, 3) };
    let with = reference_locations(&files, Some(def), true).unwrap();
    assert_eq!(with.len(), 2);
    let same = Location { uri: "file:///a.js".to_string(), range: range(0, 0, 0, 3) };
    assert_eq!(reference_locations(&files, Some(same), true).unwrap().len(), 1);
    let def2 = Location { uri: "file:///.env".to_string(), range: range(1, 0, 1, 3) };
    assert_eq!(reference_locations(&files, Some(def2), false).unwrap().len(), 1);
    assert!(reference_locations(&vec![], None, true).is_none());
}

#[test]
fn symbol_search_ignores_case() {
    assert!(symbol_matches("DATABASE_URL", "base"));
    assert!(symbol_matches("PORT", ""));
    assert!(!symbol_matches("PORT", "host"));
}

#[test]
fn symbols_come_sorted_by_name() {
    let entry = |n: &str| SymbolEntry {
        name: n.to_string(),
        location: Location { uri: "file:///a".to_string(), range: range(0, 0, 0, 1) },
    };
    let sorted = workspace_symbols(vec![entry("PORT"), entry("API_KEY"), entry("DB")]).unwrap();
    let names: Vec<&str> = sorted.iter().map(|e| e.name.as_str()).collect();
    assert_eq!(names, vec!["API_KEY", "DB", "PORT"]);
    assert!(workspace_symbols(vec![]).is_none());
}

#[test]
fn symbol_location_prefers_definition_then_first_file() {
    let def = Location { uri: "file:///.env".to_string(), range: range(2, 0, 2, 4) };
    let files = vec!["file:///a.js".to_string(), "file:///b.js".to_string()];
    let r = symbol_location(Some(def), &files, None).unwrap();
    assert_eq!(r.uri, "file:///.env");
    assert_eq!(r.range, range(2, 0, 2, 4));
    let r = symbol_location(None, &files, Some(range(3, 5, 3, 9))).unwrap();
    assert_eq!(r.uri, "file:///a.js");
    assert_eq!(r.range, range(3, 5, 3, 9));
    let r = symbol_location(None, &files, None).unwrap();
    assert_eq!(r.range, range(0, 0, 0, 0));
    assert!(symbol_location(None, &vec![], None).is_none());
}
