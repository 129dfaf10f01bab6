//! The few JSON operations the client needs, carried out by `serde_json`.
//!
//! Each function below is trusted: its body parses or prints with
//! `serde_json` and only converts between `serde_json`'s types and plain
//! strings.  What `serde_json` computes is not restated here; its result is
//! given a name, a spec function without a body, so that the rest of the
//! library can state exactly how it uses that result.
use vstd::prelude::*;
use crate::params::{ParamsView, names_distinct};

verus! {

/// A JSON scalar that the client writes into a request body.
#[derive(Debug)]
pub enum JsonScalar {
    Text(String),
    Number(u64),
}

/// The mathematical value of a [`JsonScalar`].
pub enum JsonScalarView {
    Text(Seq<char>),
    Number(u64),
}

impl View for JsonScalar {
    type V = JsonScalarView;

    open spec fn view(&self) -> JsonScalarView {
        match self {
            JsonScalar::Text(s) => JsonScalarView::Text(s@),
            JsonScalar::Number(n) => JsonScalarView::Number(*n),
        }
    }
}

pub open spec fn opt_string_view(o: Option<String>) -> Option<Seq<char>> {
    match o {
        Some(s) => Some(s@),
        None => None,
    }
}

pub open spec fn scalar_entries_view(v: Seq<(String, JsonScalar)>) -> Seq<(Seq<char>, JsonScalarView)> {
    v.map_values(|e: (String, JsonScalar)| (e.0@, e.1@))
}

pub open spec fn member_entries_view(v: Seq<(String, Option<String>)>) -> Seq<(Seq<char>, Option<Seq<char>>)> {
    v.map_values(|e: (String, Option<String>)| (e.0@, opt_string_view(e.1)))
}

/// `body` parsed as JSON; the member `key` of the top-level object when it
/// is a string.  `None` when the text is not JSON, is not an object, has no
/// such member, or the member is not a string.
pub uninterp spec fn json_member_string(body: Seq<char>, key: Seq<char>) -> Option<Seq<char>>;

/// `body` parsed as JSON; the entries of the member `key` of the top-level
/// object when that member is an object, in `serde_json`'s map order, each
/// value given as `Some(text)` when it is a JSON string and `None` otherwise.
pub uninterp spec fn json_member_entries(body: Seq<char>, key: Seq<char>) -> Option<Seq<(Seq<char>, Option<Seq<char>>)>>;

/// `body` parsed as a JSON object whose values are all strings, as its
/// entries in `serde_json`'s map order; or the parser's error message.
pub uninterp spec fn json_string_map(body: Seq<char>) -> Result<ParamsView, Seq<char>>;

/// The compact JSON text of the object with the given members (a later
/// member replaces an earlier one of the same name).
pub uninterp spec fn json_object_text(entries: Seq<(Seq<char>, JsonScalarView)>) -> Seq<char>;

/// `body` parsed as JSON; when the member `key` of the top-level object is
/// an array, one row per element in order, each row holding for each of
/// `fields` the element's member of that name when it is a string.  `None`
/// when the text is not JSON, is not an object, or `key` is no array.
pub uninterp spec fn json_array_rows(body: Seq<char>, key: Seq<char>, fields: Seq<Seq<char>>) -> Option<Seq<Seq<Option<Seq<char>>>>>;

/// The member `key` of the JSON document `body` as `serde_json` prints a
/// value (compact JSON text; `null` when the member is missing or the text
/// is not a JSON object).
pub uninterp spec fn json_member_text(body: Seq<char>, key: Seq<char>) -> Seq<char>;

/// The JSON document `body` printed in `serde_json`'s pretty form; text
/// that is not JSON is printed as `null`.
pub uninterp spec fn json_pretty(body: Seq<char>) -> Seq<char>;

pub open spec fn strings_view(v: Seq<String>) -> Seq<Seq<char>> {
    v.map_values(|s: String| s@)
}

pub open spec fn cells_of(row: Seq<Option<String>>) -> Seq<Option<Seq<char>>> {
    row.map_values(|o: Option<String>| opt_string_view(o))
}

pub open spec fn rows_view(rows: Seq<Vec<Option<String>>>) -> Seq<Seq<Option<Seq<char>>>> {
    rows.map_values(|r: Vec<Option<String>>| cells_of(r@))
}

/// Reads a string member of a JSON document (`serde_json::from_str` into a
/// `Value`, then `Value::get`).  The contract only names the result.
#[verifier::external_body]
pub(crate) fn member_string(body: &str, key: &str) -> (r: Option<String>)
    ensures
        opt_string_view(r) == json_member_string(body@, key@),
{
    let value: serde_json::Value = serde_json::from_str(body).ok()?;
    value.get(key)?.as_str().map(String::from)
}

/// Reads the members of an object member of a JSON document
/// (`serde_json::from_str` into a `Value`, then `Value::get`).  The contract
/// names the result and states that names in a JSON map are distinct, as
/// `serde_json`'s map type (a `BTreeMap` without the `preserve_order`
/// feature) keeps each key once.
#[verifier::external_body]
pub(crate) fn member_entries(body: &str, key: &str) -> (r: Option<Vec<(String, Option<String>)>>)
    ensures
        match r {
            Some(v) => json_member_entries(body@, key@) == Some(member_entries_view(v@)),
            None => json_member_entries(body@, key@) is None,
        },
        r matches Some(v) ==> forall|i: int, j: int| 0 <= i < j < v@.len() ==> #[trigger] v@[i].0@ != #[trigger] v@[j].0@,
{
    let value: serde_json::Value = serde_json::from_str(body).ok()?;
    let map = value.get(key)?.as_object()?;
    let mut out = Vec::new();
    for (k, x) in map.iter() {
        out.push((k.clone(), x.as_str().map(String::from)));
    }
    Some(out)
}

/// Parses a JSON object of strings (`serde_json::from_str` into a
/// `BTreeMap<String, String>`).  The contract names the result and states
/// that the names are distinct, as they are keys of a `BTreeMap`.
#[verifier::external_body]
pub(crate) fn string_map(body: &str) -> (r: Result<Vec<(String, String)>, String>)
    ensures
        match r {
            Ok(v) => json_string_map(body@) == Ok::<ParamsView, Seq<char>>(crate::params::entries_view(v@)),
            Err(e) => json_string_map(body@) == Err::<ParamsView, Seq<char>>(e@),
        },
        r matches Ok(v) ==> names_distinct(crate::params::entries_view(v@)),
{
    match serde_json::from_str::<std::collections::BTreeMap<String, String>>(body) {
        Ok(m) => Ok(m.into_iter().collect()),
        Err(e) => Err(e.to_string()),
    }
}

/// Reads the rows of an array member of a JSON document
/// (`serde_json::from_str` into a `Value`, `Value::get`, `Value::as_array`,
/// then `Value::get` and `Value::as_str` on each element).  The contract
/// names the result and states that each row has one cell per field.
#[verifier::external_body]
pub(crate) fn array_rows(body: &str, key: &str, fields: &Vec<String>) -> (r: Option<Vec<Vec<Option<String>>>>)
    ensures
        match r {
            Some(v) => json_array_rows(body@, key@, strings_view(fields@)) == Some(rows_view(v@)),
            None => json_array_rows(body@, key@, strings_view(fields@)) is None,
        },
        r matches Some(v) ==> forall|i: int| 0 <= i < v@.len() ==> (#[trigger] v@[i])@.len() == fields@.len(),
{
    let value: serde_json::Value = serde_json::from_str(body).ok()?;
    let mut rows = Vec::new();
    for item in value.get(key)?.as_array()? {
        let mut row = Vec::new();
        for field in fields {
            row.push(item.get(field.as_str()).and_then(|x| x.as_str()).map(String::from));
        }
        rows.push(row);
    }
    Some(rows)
}

/// Prints a member of a JSON document (`serde_json::from_str` into a
/// `Value`, `null` when that fails, then indexing and `Display`).  The
/// contract only names the result.
#[verifier::external_body]
pub(crate) fn member_display(body: &str, key: &str) -> (r: String)
    ensures
        r@ == json_member_text(body@, key@),
{
    let value: serde_json::Value = serde_json::from_str(body).unwrap_or(serde_json::Value::Null);
    value[key].to_string()
}

/// Pretty-prints a JSON document (`serde_json::from_str` into a `Value`,
/// `null` when that fails, then `serde_json::to_string_pretty`, empty if
/// that fails).  The contract only names the result.
#[verifier::external_body]
pub(crate) fn pretty_document(body: &str) -> (r: String)
    ensures
        r@ == json_pretty(body@),
{
    let value: serde_json::Value = serde_json::from_str(body).unwrap_or(serde_json::Value::Null);
    serde_json::to_string_pretty(&value).unwrap_or_default()
}

/// Prints a JSON object (`serde_json::Map`, then `Value::to_string`).
/// The contract only names the result.
#[verifier::external_body]
pub(crate) fn object_text(entries: &Vec<(String, JsonScalar)>) -> (r: String)
    ensures
        r@ == json_object_text(scalar_entries_view(entries@)),
{
    let mut map = serde_json::Map::new();
    for (k, v) in entries.iter() {
        let value = match v {
            JsonScalar::Text(s) => serde_json::Value::String(s.clone()),
            JsonScalar::Number(n) => serde_json::Value::from(*n),
        };
        map.insert(k.clone(), value);
    }
    serde_json::Value::Object(map).to_string()
}

} // verus!
