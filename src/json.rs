//! JSON values, carried through the runtime as opaque `serde_json::Value`s.
use vstd::prelude::*;

verus! {

/// `serde_json::Value`, carried through the runtime without looking inside.
#[verifier::external_type_specification]
#[verifier::external_body]
pub struct ExJsonValue(serde_json::Value);

/// What `serde_json::from_str::<serde_json::Value>` makes of a text:
/// `Some` value when the text is one well-formed JSON document.
pub uninterp spec fn json_parse(text: Seq<char>) -> Option<serde_json::Value>;

/// The text that `serde_json::to_string_pretty` writes for a value.
pub uninterp spec fn json_pretty(v: serde_json::Value) -> Seq<char>;

/// Relies on `serde_json::from_str`: the outcome depends on the text alone.
#[verifier::external_body]
pub(crate) fn parse_json(text: &str) -> (r: Option<serde_json::Value>)
    ensures
        r == json_parse(text@),
{
    serde_json::from_str::<serde_json::Value>(text).ok()
}

/// Relies on `serde_json::to_string_pretty`, which cannot fail on a
/// `serde_json::Value` (its object keys are always strings).
#[verifier::external_body]
pub(crate) fn pretty_json(v: &serde_json::Value) -> (r: String)
    ensures
        r@ == json_pretty(*v),
{
    serde_json::to_string_pretty(v).unwrap_or_default()
}

/// The JSON value `serde_json::Value::from` makes of an optional text:
/// a string, or `null` for `None`.
pub uninterp spec fn json_opt_string(s: Option<Seq<char>>) -> serde_json::Value;

/// The JSON array `serde_json::Value::Array` makes of the items.
pub uninterp spec fn json_array(items: Seq<serde_json::Value>) -> serde_json::Value;

/// The JSON object collected from the entries into a `serde_json::Map`.
pub uninterp spec fn json_object(entries: Seq<(Seq<char>, serde_json::Value)>) -> serde_json::Value;

/// The items of a JSON array, as `serde_json::Value::as_array` gives them.
pub uninterp spec fn json_items(v: serde_json::Value) -> Option<Seq<serde_json::Value>>;

/// The member of a JSON object under a key, as `serde_json::Value::get` gives it.
pub uninterp spec fn json_member(v: serde_json::Value, key: Seq<char>) -> Option<serde_json::Value>;

/// The text of a JSON string, as `serde_json::Value::as_str` gives it.
pub uninterp spec fn json_text(v: serde_json::Value) -> Option<Seq<char>>;

/// Relies on the derived `Clone` of `serde_json::Value`: an equal value.
pub assume_specification[ <serde_json::Value as Clone>::clone ](v: &serde_json::Value) -> (r: serde_json::Value)
    ensures
        r == *v,
;

/// Relies on `serde_json::Value::from::<Option<String>>`.
#[verifier::external_body]
pub(crate) fn opt_string_value(s: Option<String>) -> (r: serde_json::Value)
    ensures
        r == json_opt_string(crate::message::opt_text_view(s)),
{
    serde_json::Value::from(s)
}

/// Relies on `serde_json::Value::Array`.
#[verifier::external_body]
pub(crate) fn array_value(items: Vec<serde_json::Value>) -> (r: serde_json::Value)
    ensures
        r == json_array(items@),
{
    serde_json::Value::Array(items)
}

pub open spec fn entries_view(e: Seq<(String, serde_json::Value)>) -> Seq<(Seq<char>, serde_json::Value)> {
    e.map_values(|p: (String, serde_json::Value)| (p.0@, p.1))
}

/// Relies on collecting into `serde_json::Map` and `serde_json::Value::Object`.
#[verifier::external_body]
pub(crate) fn object_value(entries: Vec<(String, serde_json::Value)>) -> (r: serde_json::Value)
    ensures
        r == json_object(entries_view(entries@)),
{
    serde_json::Value::Object(entries.into_iter().collect())
}

/// Relies on `serde_json::Value::as_array`.
#[verifier::external_body]
pub(crate) fn value_items(v: &serde_json::Value) -> (r: Option<Vec<serde_json::Value>>)
    ensures
        match r {
            Some(items) => json_items(*v) == Some(items@),
            None => json_items(*v) is None,
        },
{
    v.as_array().cloned()
}

/// Relies on `serde_json::Value::get` with a string key.
#[verifier::external_body]
pub(crate) fn value_member(v: &serde_json::Value, key: &str) -> (r: Option<serde_json::Value>)
    ensures
        r == json_member(*v, key@),
{
    v.get(key).cloned()
}

/// Relies on `serde_json::Value::as_str`.
#[verifier::external_body]
pub(crate) fn value_text(v: &serde_json::Value) -> (r: Option<String>)
    ensures
        crate::message::opt_text_view(r) == json_text(*v),
{
    v.as_str().map(String::from)
}

/// Relies on `serde_json::Value::is_null`.
#[verifier::external_body]
pub(crate) fn value_is_null(v: &serde_json::Value) -> (r: bool)
    ensures
        r == (json_null_like(*v)),
{
    v.is_null()
}

/// The value is JSON `null`, as `serde_json::Value::is_null` tells.
pub uninterp spec fn json_null_like(v: serde_json::Value) -> bool;

} // verus!
