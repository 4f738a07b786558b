//! Reading fields of the JSON text of tool-call arguments.
use vstd::prelude::*;
use crate::text::string_views;

verus! {

/// What `serde_json` reads as the string field `key` of the JSON object in
/// `json`: `None` when the text is not JSON, has no such field, or the field
/// is not a string.
pub uninterp spec fn json_string_field(json: Seq<char>, key: Seq<char>) -> Option<Seq<char>>;

/// Parses `json` with `serde_json::from_str` into a `serde_json::Value`, then
/// reads the field with `Value::get` and `Value::as_str`. The contract only
/// names the result: it claims that the same text and key always give the same
/// answer.
#[verifier::external_body]
pub(crate) fn json_str_field(json: &str, key: &str) -> (r: Option<String>)
    ensures
        match r {
            Some(v) => json_string_field(json@, key@) == Some(v@),
            None => json_string_field(json@, key@) is None,
        },
{
    let value: Option<serde_json::Value> = serde_json::from_str(json).ok();
    value.and_then(|v| v.get(key).and_then(|x| x.as_str()).map(|x| x.to_string()))
}

/// The compact text that `serde_json` writes for the value it reads from
/// `json`; `None` when the text is not JSON.
pub uninterp spec fn json_compact_of(json: Seq<char>) -> Option<Seq<char>>;

/// Parses `json` with `serde_json::from_str` and writes the value back with
/// `serde_json::to_string`; `None` when either fails. The contract only
/// names the result.
#[verifier::external_body]
pub(crate) fn json_compact_opt(json: &str) -> (r: Option<String>)
    ensures
        opt_view(r) == json_compact_of(json@),
{
    let value: serde_json::Value = serde_json::from_str(json).ok()?;
    serde_json::to_string(&value).ok()
}

/// The compact JSON text of `json`, an empty object standing for text that
/// is not JSON.
pub open spec fn json_compact_text(json: Seq<char>) -> Seq<char> {
    match json_compact_of(json) {
        Some(t) => t,
        None => "{}"@,
    }
}

/// The compact JSON text of `json`, or an empty object when it is not JSON.
pub(crate) fn json_compact(json: &str) -> (r: String)
    ensures
        r@ == json_compact_text(json@),
{
    match json_compact_opt(json) {
        Some(t) => t,
        None => "{}".to_string(),
    }
}

/// What `serde_json` reads as the unsigned integer field `key` of the JSON
/// object in `json` (`Value::as_u64`): `None` when the text is not JSON, has
/// no such field, or the field is not an integer that fits in a `u64`.
pub uninterp spec fn json_u64_field(json: Seq<char>, key: Seq<char>) -> Option<u64>;

/// Parses `json` with `serde_json::from_str`, then reads the field with
/// `Value::get` and `Value::as_u64`. The contract only names the result.
#[verifier::external_body]
pub(crate) fn json_u64(json: &str, key: &str) -> (r: Option<u64>)
    ensures
        r == json_u64_field(json@, key@),
{
    let value: Option<serde_json::Value> = serde_json::from_str(json).ok();
    value.and_then(|v| v.get(key).and_then(|x| x.as_u64()))
}

/// What `serde_json` reads as the boolean field `key` of the JSON object in
/// `json` (`Value::as_bool`).
pub uninterp spec fn json_bool_field(json: Seq<char>, key: Seq<char>) -> Option<bool>;

/// Parses `json` with `serde_json::from_str`, then reads the field with
/// `Value::get` and `Value::as_bool`. The contract only names the result.
#[verifier::external_body]
pub(crate) fn json_bool(json: &str, key: &str) -> (r: Option<bool>)
    ensures
        r == json_bool_field(json@, key@),
{
    let value: Option<serde_json::Value> = serde_json::from_str(json).ok();
    value.and_then(|v| v.get(key).and_then(|x| x.as_bool()))
}

/// What `serde_json` reads of the `content` array of the JSON object in
/// `json`: for each element, in order, its `type` and its `text` where each is
/// a string; `None` when the text is not JSON or has no `content` array.
pub uninterp spec fn content_items(json: Seq<char>) -> Option<Seq<(Option<Seq<char>>, Option<Seq<char>>)>>;

/// The view of an optional string.
pub open spec fn opt_view(o: Option<String>) -> Option<Seq<char>> {
    match o {
        Some(s) => Some(s@),
        None => None,
    }
}

/// The views of the `type` and `text` pairs of content items.
pub open spec fn item_views(v: Seq<(Option<String>, Option<String>)>) -> Seq<(Option<Seq<char>>, Option<Seq<char>>)> {
    v.map_values(|p: (Option<String>, Option<String>)| (opt_view(p.0), opt_view(p.1)))
}

/// Parses `json` with `serde_json::from_str`, takes the `content` field with
/// `Value::get` and `Value::as_array`, and reads, with `Value::as_str`, the
/// `type` and `text` of each element. The contract only names the result.
#[verifier::external_body]
pub(crate) fn json_content_items(json: &str) -> (r: Option<Vec<(Option<String>, Option<String>)>>)
    ensures
        match r {
            Some(v) => content_items(json@) == Some(item_views(v@)),
            None => content_items(json@) is None,
        },
{
    let value: serde_json::Value = serde_json::from_str(json).ok()?;
    let items = value.get("content").and_then(|c| c.as_array())?;
    Some(items.iter().map(|i| (i["type"].as_str().map(|s| s.to_string()),
        i["text"].as_str().map(|s| s.to_string()))).collect())
}

/// The indented text that `serde_json` writes for the value it reads from
/// `json`; `None` when the text is not JSON.
pub uninterp spec fn json_pretty_of(json: Seq<char>) -> Option<Seq<char>>;

/// Parses `json` with `serde_json::from_str` and writes the value back with
/// `serde_json::to_string_pretty`; `None` when either fails. The contract
/// only names the result.
#[verifier::external_body]
fn json_pretty_opt(json: &str) -> (r: Option<String>)
    ensures
        opt_view(r) == json_pretty_of(json@),
{
    let value: serde_json::Value = serde_json::from_str(json).ok()?;
    serde_json::to_string_pretty(&value).ok()
}

/// The indented JSON text of `json`, an empty object standing for text that
/// is not JSON.
pub open spec fn json_pretty_text(json: Seq<char>) -> Seq<char> {
    match json_pretty_of(json) {
        Some(t) => t,
        None => "{}"@,
    }
}

/// The indented JSON text of `json`, or an empty object when it is not JSON.
pub(crate) fn json_pretty(json: &str) -> (r: String)
    ensures
        r@ == json_pretty_text(json@),
{
    match json_pretty_opt(json) {
        Some(t) => t,
        None => "{}".to_string(),
    }
}

/// What `serde_json` reads of the array field `key` of the JSON object in
/// `json`: for each element, in order, its text when it is a string; `None`
/// when the text is not JSON or the field is not an array.
pub uninterp spec fn json_string_items(json: Seq<char>, key: Seq<char>) -> Option<Seq<Option<Seq<char>>>>;

/// The views of optional texts.
pub open spec fn opt_views(v: Seq<Option<String>>) -> Seq<Option<Seq<char>>> {
    v.map_values(|o: Option<String>| opt_view(o))
}

/// Parses `json` with `serde_json::from_str`, takes the field with
/// `Value::get` and `Value::as_array`, and reads each element with
/// `Value::as_str`. The contract only names the result.
#[verifier::external_body]
pub(crate) fn json_items(json: &str, key: &str) -> (r: Option<Vec<Option<String>>>)
    ensures
        match r {
            Some(v) => json_string_items(json@, key@) == Some(opt_views(v@)),
            None => json_string_items(json@, key@) is None,
        },
{
    let value: serde_json::Value = serde_json::from_str(json).ok()?;
    let items = value.get(key)?.as_array()?;
    Some(items.iter().map(|i| i.as_str().map(|s| s.to_string())).collect())
}

/// Whether `serde_json` reads `json` as a JSON value.
pub uninterp spec fn json_parses(json: Seq<char>) -> bool;

/// Parses `json` with `serde_json::from_str` into a `serde_json::Value` and
/// tells whether that succeeded. The contract only names the result.
#[verifier::external_body]
pub(crate) fn json_valid(json: &str) -> (r: bool)
    ensures
        r == json_parses(json@),
{
    serde_json::from_str::<serde_json::Value>(json).is_ok()
}

/// What `serde_json` reads of the array field `key` of the JSON object in
/// `json`: the compact JSON text of each element, in order; `None` when the
/// text is not JSON or the field is not an array.
pub uninterp spec fn json_element_texts(json: Seq<char>, key: Seq<char>) -> Option<Seq<Seq<char>>>;

/// Parses `json` with `serde_json::from_str`, takes the field with
/// `Value::get` and `Value::as_array`, and writes each element back as
/// compact text (`Value`'s `Display`). The contract only names the result.
#[verifier::external_body]
pub(crate) fn json_field_elements(json: &str, key: &str) -> (r: Option<Vec<String>>)
    ensures
        match r {
            Some(v) => json_element_texts(json@, key@) == Some(string_views(v@)),
            None => json_element_texts(json@, key@) is None,
        },
{
    let value: serde_json::Value = serde_json::from_str(json).ok()?;
    let items = value.get(key)?.as_array()?;
    Some(items.iter().map(|i| i.to_string()).collect())
}

/// What `serde_json` reads of `json` as an array of values: the compact JSON
/// text of each element, in order; `None` when the text is not a JSON array.
pub uninterp spec fn json_array_texts(json: Seq<char>) -> Option<Seq<Seq<char>>>;

/// Parses `json` with `serde_json::from_str` into a `Vec<serde_json::Value>`
/// and writes each element back as compact text (`Value`'s `Display`). The
/// contract only names the result.
#[verifier::external_body]
pub(crate) fn json_array_elements(json: &str) -> (r: Option<Vec<String>>)
    ensures
        match r {
            Some(v) => json_array_texts(json@) == Some(string_views(v@)),
            None => json_array_texts(json@) is None,
        },
{
    let items: Vec<serde_json::Value> = serde_json::from_str(json).ok()?;
    Some(items.iter().map(|i| i.to_string()).collect())
}

/// What `serde_json` reads of the array field `key` of the JSON object in
/// `json`: for each element, in order, its value when it is an integer that
/// fits in a `u64`; `None` when the text is not JSON or the field is not an
/// array.
pub uninterp spec fn json_u64_items_of(json: Seq<char>, key: Seq<char>) -> Option<Seq<Option<u64>>>;

/// Parses `json` with `serde_json::from_str`, takes the field with
/// `Value::get` and `Value::as_array`, and reads each element with
/// `Value::as_u64`. The contract only names the result.
#[verifier::external_body]
pub(crate) fn json_u64_items(json: &str, key: &str) -> (r: Option<Vec<Option<u64>>>)
    ensures
        match r {
            Some(v) => json_u64_items_of(json@, key@) == Some(v@),
            None => json_u64_items_of(json@, key@) is None,
        },
{
    let value: serde_json::Value = serde_json::from_str(json).ok()?;
    let items = value.get(key)?.as_array()?;
    Some(items.iter().map(|i| i.as_u64()).collect())
}

} // verus!
