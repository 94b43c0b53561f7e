//! The arguments of a tool call: members of a JSON object, read by name.
use crate::text;
use serde_json::Value;
use vstd::prelude::*;

verus! {

/// A JSON object. What it holds is named by [`members`].
#[verifier::external_type_specification]
#[verifier::external_body]
#[verifier::reject_recursive_types(K)]
#[verifier::reject_recursive_types(V)]
pub struct ExJsonMap<K, V>(serde_json::Map<K, V>);

/// The arguments of a tool call.
pub type JsonObject = serde_json::Map<String, Value>;

/// A member of an object, as far as the tools look into it.
#[verifier::ext_equal]
pub enum MemberView {
    Null,
    Flag(bool),
    /// A number, with its value if it is a whole number of 64 bits.
    Number(Option<u64>),
    Text(Seq<char>),
    /// A list, with the values of those items that are whole numbers of 64
    /// bits.
    Items(Seq<Option<u64>>),
    /// An object, with the texts of those members that are texts.
    Table(Seq<(Seq<char>, Option<Seq<char>>)>),
}

/// What a JSON object holds, by name.
pub uninterp spec fn members(object: serde_json::Map<String, Value>) -> Map<Seq<char>, MemberView>;

/// The text under a name, if a text is there.
pub open spec fn text_in(object: Map<Seq<char>, MemberView>, key: Seq<char>) -> Option<Seq<char>> {
    if object.contains_key(key) {
        match object[key] {
            MemberView::Text(text) => Some(text),
            _ => None,
        }
    } else {
        None
    }
}

/// The flag under a name, if a flag is there.
pub open spec fn flag_in(object: Map<Seq<char>, MemberView>, key: Seq<char>) -> Option<bool> {
    if object.contains_key(key) {
        match object[key] {
            MemberView::Flag(flag) => Some(flag),
            _ => None,
        }
    } else {
        None
    }
}

/// The number under a name, if a whole number of 64 bits is there.
pub open spec fn number_in(object: Map<Seq<char>, MemberView>, key: Seq<char>) -> Option<u64> {
    if object.contains_key(key) {
        match object[key] {
            MemberView::Number(number) => number,
            _ => None,
        }
    } else {
        None
    }
}

/// The list under a name, if a list is there.
pub open spec fn items_in(object: Map<Seq<char>, MemberView>, key: Seq<char>) -> Option<
    Seq<Option<u64>>,
> {
    if object.contains_key(key) {
        match object[key] {
            MemberView::Items(items) => Some(items),
            _ => None,
        }
    } else {
        None
    }
}

/// The object under a name, if an object is there.
pub open spec fn table_in(object: Map<Seq<char>, MemberView>, key: Seq<char>) -> Option<
    Seq<(Seq<char>, Option<Seq<char>>)>,
> {
    if object.contains_key(key) {
        match object[key] {
            MemberView::Table(table) => Some(table),
            _ => None,
        }
    } else {
        None
    }
}

/// The rows of a table, as texts.
pub open spec fn rows_view(rows: Seq<(String, Option<String>)>) -> Seq<
    (Seq<char>, Option<Seq<char>>),
> {
    rows.map_values(|row: (String, Option<String>)| (row.0@, text::opt_text(row.1)))
}

/// `Map::get`, then `Value::as_str`: the text under a name.
#[verifier::external_body]
pub(crate) fn get_text(object: &JsonObject, key: &str) -> (r: Option<String>)
    ensures
        text::opt_text(r) == text_in(members(*object), key@),
{
    object.get(key).and_then(|v| v.as_str()).map(|s| s.to_string())
}

/// `Map::get`, then `Value::as_bool`: the flag under a name.
#[verifier::external_body]
pub(crate) fn get_flag(object: &JsonObject, key: &str) -> (r: Option<bool>)
    ensures
        r == flag_in(members(*object), key@),
{
    object.get(key).and_then(|v| v.as_bool())
}

/// `Map::get`, then `Value::as_u64`: the whole number under a name.
#[verifier::external_body]
pub(crate) fn get_number(object: &JsonObject, key: &str) -> (r: Option<u64>)
    ensures
        r == number_in(members(*object), key@),
{
    object.get(key).and_then(|v| v.as_u64())
}

/// `Map::get`, then `Value::as_array`: the list under a name, each item read
/// by `Value::as_u64`.
#[verifier::external_body]
pub(crate) fn get_items(object: &JsonObject, key: &str) -> (r: Option<Vec<Option<u64>>>)
    ensures
        match r {
            Some(items) => items_in(members(*object), key@) == Some(items@),
            None => items_in(members(*object), key@) is None,
        },
{
    object.get(key).and_then(|v| v.as_array()).map(|a| a.iter().map(|v| v.as_u64()).collect())
}

/// `Map::get`, then `Value::as_object`: the object under a name, each member
/// read by `Value::as_str`.
#[verifier::external_body]
pub(crate) fn get_table(object: &JsonObject, key: &str) -> (r: Option<
    Vec<(String, Option<String>)>,
>)
    ensures
        match r {
            Some(rows) => table_in(members(*object), key@) == Some(rows_view(rows@)),
            None => table_in(members(*object), key@) is None,
        },
{
    object.get(key).and_then(|v| v.as_object()).map(
        |o| o.iter().map(|(k, v)| (k.clone(), v.as_str().map(|s| s.to_string()))).collect(),
    )
}

} // verus!
