//! Deep merging of configuration layers.
use ecolog_lsp::json::{layered_config, merge_json, merged, Json};

fn obj(members: Vec<(&str, Json)>) -> Json {
    Json::Object(members.into_iter().map(|(k, v)| (k.to_string(), v)).collect())
}

fn member<'a>(j: &'a Json, k: &str) -> Option<&'a Json> {
    match j {
        Json::Object(m) => m.iter().find(|(n, _)| n == k).map(|(_, v)| v),
        _ => None,
    }
}

#[test]
fn null_overlay_keeps_base() {
    let r = merged(Json::Bool(true), &Json::Null);
    assert!(matches!(r, Json::Bool(true)));
}

#[test]
fn scalar_overlay_replaces_base() {
    let r = merged(Json::Number("1".to_string()), &Json::String("x".to_string()));
    assert!(matches!(r, Json::String(ref s) if s == "x"));
}

#[test]
fn objects_merge_member_by_member() {
    let base = obj(vec![
        ("features", obj(vec![("hover", Json::Bool(true)), ("completion", Json::Bool(true))])),
        ("strict", Json::Bool(false)),
    ]);
    let overlay = obj(vec![("features", obj(vec![("hover", Json::Bool(false))]))]);
    let r = merged(base, &overlay);
    let features = member(&r, "features").unwrap();
    assert!(matches!(member(features, "hover"), Some(Json::Bool(false))));
    assert!(matches!(member(features, "completion"), Some(Json::Bool(true))));
    assert!(matches!(member(&r, "strict"), Some(Json::Bool(false))));
}

#[test]
fn null_members_of_overlay_are_skipped() {
    let base = obj(vec![("a", Json::Bool(true))]);
    let overlay = obj(vec![("a", Json::Null), ("b", Json::Bool(false))]);
    let r = merged(base, &overlay);
    assert!(matches!(member(&r, "a"), Some(Json::Bool(true))));
    assert!(matches!(member(&r, "b"), Some(Json::Bool(false))));
}

#[test]
fn merge_in_place_matches_merged() {
    let mut base = obj(vec![("a", Json::Bool(true))]);
    merge_json(&mut base, &obj(vec![("a", Json::Bool(false))]));
    assert!(matches!(member(&base, "a"), Some(Json::Bool(false))));
}

#[test]
fn file_layer_wins_over_editor_and_defaults() {
    let defaults = obj(vec![("x", Json::Number("1".to_string())), ("y", Json::Number("1".to_string()))]);
    let init = obj(vec![("x", Json::Number("2".to_string())), ("y", Json::Number("2".to_string()))]);
    let file = obj(vec![("x", Json::Number("3".to_string()))]);
    let r = layered_config(defaults, Some(&init), Some(&file));
    assert!(matches!(member(&r, "x"), Some(Json::Number(n)) if n == "3"));
    assert!(matches!(member(&r, "y"), Some(Json::Number(n)) if n == "2"));
}

#[test]
fn missing_layers_keep_defaults() {
    let defaults = obj(vec![("x", Json::Bool(true))]);
    let r = layered_config(defaults, None, None);
    assert!(matches!(member(&r, "x"), Some(Json::Bool(true))));
}
