//! Reading `ecolog.toml` and laying it over the other configuration layers.
use ecolog_lsp::config_file::{config_layers, finite_json};
use ecolog_lsp::json::Json;

fn obj(members: Vec<(&str, Json)>) -> Json {
    Json::Object(members.into_iter().map(|(k, v)| (k.to_string(), v)).collect())
}

fn member<'a>(j: &'a Json, k: &str) -> Option<&'a Json> {
    match j {
        Json::Object(m) => m.iter().find(|(n, _)| n == k).map(|(_, v)| v),
        _ => None,
    }
}

fn num(n: &str) -> Json {
    Json::Number(n.to_string())
}

fn defaults() -> Json {
    obj(vec![
        ("features", obj(vec![("hover", Json::Bool(true)), ("completion", Json::Bool(true))])),
        ("x", num("1")),
    ])
}

#[test]
fn no_file_layers_defaults_and_init() {
    let init = obj(vec![("x", num("2"))]);
    let r = config_layers(defaults(), Some(&init), None).unwrap();
    assert!(matches!(member(&r, "x"), Some(Json::Number(n)) if n == "2"));
}

#[test]
fn file_table_overrides_one_feature() {
    let r = config_layers(defaults(), None, Some("[features]\nhover = false\n")).unwrap();
    let features = member(&r, "features").unwrap();
    assert!(matches!(member(features, "hover"), Some(Json::Bool(false))));
    assert!(matches!(member(features, "completion"), Some(Json::Bool(true))));
}

#[test]
fn file_wins_over_init() {
    let init = obj(vec![("x", num("2"))]);
    let r = config_layers(defaults(), Some(&init), Some("x = 3\n")).unwrap();
    assert!(matches!(member(&r, "x"), Some(Json::Number(n)) if n == "3"));
}

#[test]
fn invalid_toml_is_refused() {
    let r = config_layers(defaults(), None, Some("[features\nhover = "));
    match r {
        Err(e) => assert!(e.starts_with("Failed to parse config: ")),
        Ok(_) => panic!("invalid TOML was accepted"),
    }
}

#[test]
fn toml_scalars_become_json() {
    let text = "i = 42\nf = 1.5\ns = \"a\"\nd = 1979-05-27T07:32:00Z\nl = [1, 2]\n";
    let r = config_layers(obj(vec![]), None, Some(text)).unwrap();
    assert!(matches!(member(&r, "i"), Some(Json::Number(n)) if n == "42"));
    assert!(matches!(member(&r, "f"), Some(Json::Number(n)) if n == "1.5"));
    assert!(matches!(member(&r, "s"), Some(Json::String(s)) if s == "a"));
    assert!(matches!(member(&r, "d"), Some(Json::String(s)) if s == "1979-05-27T07:32:00Z"));
    assert!(matches!(member(&r, "l"), Some(Json::Array(items)) if items.len() == 2));
}

#[test]
fn non_finite_float_in_file_leaves_setting_alone() {
    let r = config_layers(defaults(), None, Some("x = nan\n")).unwrap();
    assert!(matches!(member(&r, "x"), Some(Json::Number(n)) if n == "1"));
    let r = config_layers(defaults(), None, Some("x = -inf\n")).unwrap();
    assert!(matches!(member(&r, "x"), Some(Json::Number(n)) if n == "1"));
}

#[test]
fn finite_json_nulls_only_non_finite_numbers() {
    let j = Json::Array(vec![num("NaN"), num("inf"), num("-inf"), num("2.5"), obj(vec![("k", num("inf"))])]);
    match finite_json(&j) {
        Json::Array(items) => {
            assert!(matches!(items[0], Json::Null));
            assert!(matches!(items[1], Json::Null));
            assert!(matches!(items[2], Json::Null));
            assert!(matches!(&items[3], Json::Number(n) if n == "2.5"));
            assert!(matches!(member(&items[4], "k"), Some(Json::Null)));
        }
        _ => panic!("not an array"),
    }
}
