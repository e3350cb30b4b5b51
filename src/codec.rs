use vstd::prelude::*;
use crate::json::{fields_view, has_unique_keys, Entry, Fields, Json, JsonModel};

verus! {

#[verifier::external_type_specification]
#[verifier::external_body]
pub struct ExValue(serde_json::Value);

/// Whether every object in a value, at any depth, has distinct keys.
pub open spec fn json_wf(j: JsonModel) -> bool
    decreases j,
{
    match j {
        JsonModel::Object(es) => has_unique_keys(es) && forall|i: int|
            0 <= i < es.len() ==> json_wf(#[trigger] es[i].1),
        JsonModel::Array(a) => forall|i: int| 0 <= i < a.len() ==> json_wf(#[trigger] a[i]),
        _ => true,
    }
}

/// What `serde_json` reads from a text as one JSON value, if it reads one.
pub uninterp spec fn json_parse(text: Seq<char>) -> Option<JsonModel>;

/// The pretty-printed JSON text that `serde_json` writes for a value;
/// `None` where a number's text is not a JSON number.
pub uninterp spec fn json_text(j: JsonModel) -> Option<Seq<char>>;

/// The fields that `serde_yaml` reads from a YAML mapping, if it reads one.
pub uninterp spec fn yaml_fields(text: Seq<char>) -> Option<Fields>;

/// The YAML text that `serde_yaml` writes for a mapping of fields; `None`
/// where it writes none.
pub uninterp spec fn yaml_text(fields: Fields) -> Option<Seq<char>>;

/// Converts a `serde_json` value into the library's own value, one node for
/// one node; numbers keep their JSON text.
#[verifier::external_body]
fn from_serde(v: serde_json::Value) -> Json {
    match v {
        serde_json::Value::Null => Json::Null,
        serde_json::Value::Bool(b) => Json::Bool(b),
        serde_json::Value::Number(n) => Json::Number(n.to_string()),
        serde_json::Value::String(s) => Json::Str(s),
        serde_json::Value::Array(a) => Json::Array(a.into_iter().map(from_serde).collect()),
        serde_json::Value::Object(m) => Json::Object(
            m.into_iter().map(|(key, value)| Entry { key, value: from_serde(value) }).collect(),
        ),
    }
}

/// Converts the library's value into a `serde_json` value, one node for one
/// node; `None` where a number's text is not a JSON number.
#[verifier::external_body]
fn to_serde(j: &Json) -> Option<serde_json::Value> {
    Some(match j {
        Json::Null => serde_json::Value::Null,
        Json::Bool(b) => serde_json::Value::Bool(*b),
        Json::Number(n) => serde_json::Value::Number(serde_json::from_str(n).ok()?),
        Json::Str(s) => serde_json::Value::String(s.clone()),
        Json::Array(a) => serde_json::Value::Array(a.iter().map(to_serde).collect::<Option<_>>()?),
        Json::Object(es) => serde_json::Value::Object(
            es.iter().map(|e| Some((e.key.clone(), to_serde(&e.value)?))).collect::<Option<_>>()?,
        ),
    })
}

/// Relies on `serde_json::from_str` into a `serde_json::Value`: the value it
/// reads depends on the text alone, and its objects (a `BTreeMap`) hold each
/// key once.
#[verifier::external_body]
pub fn parse_json_text(text: &str) -> (r: Option<Json>)
    ensures
        match r {
            Some(j) => json_parse(text@) == Some(j@) && json_wf(j@),
            None => json_parse(text@) is None,
        },
{
    serde_json::from_str::<serde_json::Value>(text).ok().map(from_serde)
}

/// Relies on `serde_json::to_string_pretty` of a `serde_json::Value`: the
/// outcome, text or failure, depends on the value alone.
#[verifier::external_body]
pub fn render_json(j: &Json) -> (r: Option<String>)
    ensures
        match r {
            Some(t) => json_text(j@) == Some(t@),
            None => json_text(j@) is None,
        },
{
    serde_json::to_string_pretty(&to_serde(j)?).ok()
}

/// Relies on `serde_yaml::from_str` into a `serde_json::Map`: the fields
/// depend on the text alone, and each key occurs once.
#[verifier::external_body]
pub fn parse_yaml_fields(text: &str) -> (r: Option<Vec<Entry>>)
    ensures
        match r {
            Some(f) => yaml_fields(text@) == Some(fields_view(f@)) && has_unique_keys(
                fields_view(f@),
            ),
            None => yaml_fields(text@) is None,
        },
{
    let m = serde_yaml::from_str::<serde_json::Map<String, serde_json::Value>>(text).ok()?;
    Some(m.into_iter().map(|(key, value)| Entry { key, value: from_serde(value) }).collect())
}

/// Relies on `serde_yaml::to_string` of a `serde_json::Map`: the outcome,
/// text or failure, depends on the fields alone.
#[verifier::external_body]
pub fn render_yaml(fields: &Vec<Entry>) -> (r: Option<String>)
    ensures
        match r {
            Some(t) => yaml_text(fields_view(fields@)) == Some(t@),
            None => yaml_text(fields_view(fields@)) is None,
        },
{
    let m = fields.iter().map(|e| Some((e.key.clone(), to_serde(&e.value)?))).collect::<Option<
        serde_json::Map<String, serde_json::Value>,
    >>()?;
    serde_yaml::to_string(&m).ok()
}

} // verus!
