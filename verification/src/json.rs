//! Pretty-printed JSON through serde_json.

use vstd::prelude::*;
use crate::text::texts_of;

verus! {

/// A column of a result row: its name and its value as text.
#[derive(Debug)]
pub struct ColumnValue {
    pub column: String,
    pub value: String,
}

/// A result row as (column name, value) pairs, in column order.
pub open spec fn row_pairs(row: Seq<ColumnValue>) -> Seq<(Seq<char>, Seq<char>)> {
    row.map_values(|c: ColumnValue| (c.column@, c.value@))
}

/// Result rows as (column name, value) pairs.
pub open spec fn rows_pairs(rows: Seq<Vec<ColumnValue>>) -> Seq<Seq<(Seq<char>, Seq<char>)>> {
    rows.map_values(|r: Vec<ColumnValue>| row_pairs(r@))
}


/// The text that serde_json's `to_string_pretty` gives for a list of strings.
pub uninterp spec fn json_pretty_string_list(items: Seq<Seq<char>>) -> Seq<char>;

/// The text that serde_json's `to_string_pretty` gives for a list of
/// objects, each built from the (name, value) pairs of a row in a
/// `serde_json::Map` (so a name that occurs twice keeps its last value).
pub uninterp spec fn json_pretty_rows(rows: Seq<Seq<(Seq<char>, Seq<char>)>>) -> Seq<char>;

/// Calls `serde_json::to_string_pretty` on a list of strings. serde_json
/// documents two ways for it to fail, a `Serialize` impl that fails and a
/// map with keys that are not strings; neither occurs in a list of strings,
/// so the contract says that a text comes back, and that it is the one the
/// name stands for.
#[verifier::external_body]
pub(crate) fn to_json_string_list(items: &Vec<String>) -> (r: Option<String>)
    ensures
        r is Some,
        r matches Some(t) ==> t@ == json_pretty_string_list(texts_of(items@)),
{
    serde_json::to_string_pretty(items).ok()
}

/// Calls `serde_json::to_string_pretty` on the rows, each row converted to
/// a `serde_json::Map` of string values. The two ways to fail that
/// serde_json documents (a `Serialize` impl that fails, a map whose keys are
/// not strings) do not occur with string keys and string values, so the
/// contract says that a text comes back, and that it is the one the name
/// stands for.
#[verifier::external_body]
pub(crate) fn to_json_rows(rows: &Vec<Vec<ColumnValue>>) -> (r: Option<String>)
    ensures
        r is Some,
        r matches Some(t) ==> t@ == json_pretty_rows(rows_pairs(rows@)),
{
    let objects: Vec<serde_json::Map<String, serde_json::Value>> = rows.iter().map(
        |row| row.iter().map(
            |c| (c.column.clone(), serde_json::Value::String(c.value.clone())),
        ).collect(),
    ).collect();
    serde_json::to_string_pretty(&objects).ok()
}

/// A list of names as pretty-printed JSON, as the listing tools answer.
pub fn names_json(names: &Vec<String>) -> (r: String)
    ensures
        r@ == json_pretty_string_list(texts_of(names@)),
{
    match to_json_string_list(names) {
        Some(t) => t,
        None => String::new(),
    }
}

} // verus!
