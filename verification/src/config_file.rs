//! The workspace configuration file, `ecolog.toml`: its text is read as TOML,
//! turned into JSON, and laid over the defaults and the editor's settings.
use crate::json::{layered_config, spec_layered, view_items, view_members, Json, JsonV};
use crate::text::{concat, str_eq};
use vstd::prelude::*;

verus! {

#[verifier::external_type_specification]
#[verifier::external_body]
pub struct ExTomlValue(toml::Value);

/// The JSON form of the TOML document `text`, as `toml::from_str` reads it
/// into a `toml::Value`: strings, booleans, arrays and tables as they stand,
/// integers and floats as their Rust text (a float that is not finite as
/// `NaN`, `inf` or `-inf`), datetimes as their TOML text; `None` where the
/// text is not a TOML document.
pub uninterp spec fn toml_json(text: Seq<char>) -> Option<JsonV>;

/// One `toml::Value` as JSON, member for member.
#[verifier::external_body]
fn json_of_toml(v: &toml::Value) -> Json {
    match v {
        toml::Value::String(s) => Json::String(s.clone()),
        toml::Value::Integer(i) => Json::Number(i.to_string()),
        toml::Value::Float(f) => Json::Number(format!("{:?}", f)),
        toml::Value::Boolean(b) => Json::Bool(*b),
        toml::Value::Datetime(d) => Json::String(d.to_string()),
        toml::Value::Array(a) => Json::Array(a.iter().map(json_of_toml).collect()),
        toml::Value::Table(t) => Json::Object(t.iter().map(|(k, x)| (k.clone(), json_of_toml(x))).collect()),
    }
}

/// `toml::from_str::<toml::Value>`: parses `text` as a TOML document. What it
/// gives depends on the text alone and is named by `toml_json`; the text of
/// the error it reports is not stated.
#[verifier::external_body]
fn parse_toml(text: &str) -> (r: Result<Json, String>)
    ensures
        r is Err <==> toml_json(text@) is None,
        r matches Ok(j) ==> toml_json(text@) == Some(j@),
{
    match toml::from_str::<toml::Value>(text) {
        Ok(v) => Ok(json_of_toml(&v)),
        Err(e) => Err(e.to_string()),
    }
}

/// Whether `n` is the text of a float that is not finite.
pub open spec fn non_finite_text(n: Seq<char>) -> bool {
    n == "NaN"@ || n == "inf"@ || n == "-inf"@
}

/// `j` with every number that is not finite turned into `null`, as JSON has
/// no such numbers.
pub open spec fn spec_finite(j: JsonV) -> JsonV
    decreases j,
{
    match j {
        JsonV::Number(n) => if non_finite_text(n) {
            JsonV::Null
        } else {
            JsonV::Number(n)
        },
        JsonV::Array(items) => JsonV::Array(finite_items(items)),
        JsonV::Object(m) => JsonV::Object(finite_members(m)),
        _ => j,
    }
}

pub open spec fn finite_items(s: Seq<JsonV>) -> Seq<JsonV>
    decreases s,
{
    Seq::new(
        s.len(),
        |i: int|
            if 0 <= i < s.len() {
                spec_finite(s[i])
            } else {
                JsonV::Null
            },
    )
}

pub open spec fn finite_members(s: Seq<(Seq<char>, JsonV)>) -> Seq<(Seq<char>, JsonV)>
    decreases s,
{
    Seq::new(
        s.len(),
        |i: int|
            if 0 <= i < s.len() {
                (s[i].0, spec_finite(s[i].1))
            } else {
                (Seq::empty(), JsonV::Null)
            },
    )
}

/// A copy of `j` in which every number that is not finite is `null`.
pub fn finite_json(j: &Json) -> (r: Json)
    ensures
        r@ == spec_finite(j@),
    decreases j,
{
    match j {
        Json::Null => Json::Null,
        Json::Bool(b) => Json::Bool(*b),
        Json::Number(n) => {
            if str_eq(n.as_str(), "NaN") || str_eq(n.as_str(), "inf") || str_eq(n.as_str(), "-inf") {
                Json::Null
            } else {
                Json::Number(n.clone())
            }
        },
        Json::String(s) => Json::String(s.clone()),
        Json::Array(v) => {
            let mut out: Vec<Json> = Vec::new();
            let mut i: usize = 0;
            while i < v.len()
                invariant
                    *j == Json::Array(*v),
                    0 <= i <= v.len(),
                    out@.len() == i,
                    forall|k: int| 0 <= k < i ==> out@[k]@ == spec_finite(v@[k]@),
                decreases v.len() - i,
            {
                proof {
                    assert(decreases_to!(*j => (*j)->Array_0));
                    assert(decreases_to!(*v => v@));
                    assert(decreases_to!(v@ => v@[i as int]));
                }
                let c = finite_json(&v[i]);
                out.push(c);
                i += 1;
            }
            proof {
                let a = view_items(out@);
                let b = finite_items(view_items(v@));
                assert forall|k: int| 0 <= k < a.len() implies a[k] == b[k] by {
                    assert(out@[k]@ == spec_finite(v@[k]@));
                }
                assert(a =~= b);
            }
            Json::Array(out)
        },
        Json::Object(m) => {
            let mut out: Vec<(String, Json)> = Vec::new();
            let mut i: usize = 0;
            while i < m.len()
                invariant
                    *j == Json::Object(*m),
                    0 <= i <= m.len(),
                    out@.len() == i,
                    forall|k: int|
                        0 <= k < i ==> out@[k].0@ == m@[k].0@ && out@[k].1@ == spec_finite(
                            m@[k].1@,
                        ),
                decreases m.len() - i,
            {
                proof {
                    assert(decreases_to!(*j => (*j)->Object_0));
                    assert(decreases_to!(*m => m@));
                    assert(decreases_to!(m@ => m@[i as int]));
                    assert(decreases_to!(m@[i as int] => m@[i as int].1));
                }
                let c = finite_json(&m[i].1);
                out.push((m[i].0.clone(), c));
                i += 1;
            }
            proof {
                let a = view_members(out@);
                let b = finite_members(view_members(m@));
                assert forall|k: int| 0 <= k < a.len() implies a[k] == b[k] by {
                    assert(out@[k].1@ == spec_finite(m@[k].1@));
                }
                assert(a =~= b);
            }
            Json::Object(out)
        },
    }
}

/// The view of an optional JSON value.
pub open spec fn json_opt(o: Option<&Json>) -> Option<JsonV> {
    match o {
        Some(j) => Some(j@),
        None => None,
    }
}

/// The configuration from the defaults, the editor's initialisation settings
/// and the text of `ecolog.toml`, where the workspace has one. Text that is
/// not TOML is refused with a message that begins `Failed to parse config: `.
pub fn config_layers(defaults: Json, init: Option<&Json>, file_text: Option<&str>) -> (r: Result<
    Json,
    String,
>)
    ensures
        match file_text {
            None => r matches Ok(c) && c@ == spec_layered(defaults@, json_opt(init), None),
            Some(t) => match toml_json(t@) {
                Some(f) => r matches Ok(c) && c@ == spec_layered(
                    defaults@,
                    json_opt(init),
                    Some(spec_finite(f)),
                ),
                None => r matches Err(e) && exists|m: Seq<char>|
                    e@ == "Failed to parse config: "@ + m,
            },
        },
{
    match file_text {
        None => Ok(layered_config(defaults, init, None)),
        Some(t) => match parse_toml(t) {
            Ok(f) => {
                let file = finite_json(&f);
                Ok(layered_config(defaults, init, Some(&file)))
            },
            Err(msg) => {
                let e = concat("Failed to parse config: ", msg.as_str());
                assert(e@ == "Failed to parse config: "@ + msg@);
                Err(e)
            },
        },
    }
}

} // verus!
