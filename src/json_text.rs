//! Reading JSON text into a [`Json`] tree, through serde_json.
use crate::json::{Json, JsonV};
use vstd::prelude::*;

verus! {

/// serde_json's own tree, declared so that a reading of JSON text can be
/// moved into a [`Json`]; nothing inside it is read by verified code.
#[verifier::external_type_specification]
#[verifier::external_body]
pub struct ExValue(serde_json::Value);

/// The tree that serde_json reads from `text`, or nothing where `text` is not
/// one JSON value.
pub uninterp spec fn parsed_json(text: Seq<char>) -> Option<JsonV>;

/// Relies on serde_json::from_str into a `serde_json::Value`: the tree depends
/// on the text alone, and a text that is not JSON is refused.
#[verifier::external_body]
pub fn parse_json(text: &str) -> (r: Option<Json>)
    ensures
        match r {
            Some(j) => parsed_json(text@) == Some(j@),
            None => parsed_json(text@) is None,
        },
{
    serde_json::from_str::<serde_json::Value>(text).ok().map(json_from_serde)
}

/// Moves a serde_json tree into a [`Json`], one node for one node; relies on
/// serde_json::Number::as_i128, which reads every integer it holds, and on its
/// `Display` for the other numbers.
#[verifier::external_body]
fn json_from_serde(v: serde_json::Value) -> Json {
    match v {
        serde_json::Value::Null => Json::Null,
        serde_json::Value::Bool(b) => Json::Bool(b),
        serde_json::Value::Number(n) => match n.as_i128() {
            Some(i) => Json::Int(i),
            None => Json::Decimal(n.to_string()),
        },
        serde_json::Value::String(s) => Json::Str(s),
        serde_json::Value::Array(a) => Json::Array(a.into_iter().map(json_from_serde).collect()),
        serde_json::Value::Object(o) => Json::Object(
            o.into_iter().map(|(k, v)| (k, json_from_serde(v))).collect(),
        ),
    }
}

} // verus!
