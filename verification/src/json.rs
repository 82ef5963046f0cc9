//! The mathematical model of a JSON value, and what this crate assumes of
//! `serde_json`, which holds the trees at run time.
//!
//! Nothing in this file is proved: the declarations below state, over the
//! model, what the `serde_json` functions named in their comments do.

use vstd::prelude::*;

verus! {

/// A JSON value as contracts see it. An object is a map from keys to
/// values: keys are unique and carry no order.
pub enum Json {
    Null,
    Bool(bool),
    /// A number, held as the decimal text that `serde_json` prints for it.
    Number(Seq<char>),
    Text(Seq<char>),
    Array(Seq<Json>),
    Object(Map<Seq<char>, Json>),
}

/// The six shapes a JSON value can take.
#[derive(Clone, Copy, Debug, PartialEq, Eq, Structural)]
pub enum JsonKind {
    Null,
    Bool,
    Number,
    Text,
    Array,
    Object,
}

impl Json {
    /// The shape of this value.
    pub open spec fn kind(self) -> JsonKind {
        match self {
            Json::Null => JsonKind::Null,
            Json::Bool(_) => JsonKind::Bool,
            Json::Number(_) => JsonKind::Number,
            Json::Text(_) => JsonKind::Text,
            Json::Array(_) => JsonKind::Array,
            Json::Object(_) => JsonKind::Object,
        }
    }

    /// Null, a boolean, a number or a string: a value without children.
    pub open spec fn is_scalar(self) -> bool {
        !(self is Array) && !(self is Object)
    }

    /// The object without entries.
    pub open spec fn empty_object() -> Json {
        Json::Object(Map::empty())
    }
}

/// `serde_json::Value`, carried through verified code as an opaque value.
#[verifier::external_type_specification]
#[verifier::external_body]
pub struct ExValue(serde_json::Value);

/// `serde_json::Map`, the collection behind a JSON object.
#[verifier::external_type_specification]
#[verifier::external_body]
#[verifier::reject_recursive_types(K)]
#[verifier::reject_recursive_types(V)]
pub struct ExMap<K, V>(serde_json::Map<K, V>);

/// The model of a `serde_json::Value`.
pub uninterp spec fn json_of(v: serde_json::Value) -> Json;

/// The entries that a `serde_json::Map` holds, each value by its model.
pub uninterp spec fn entries_of(m: serde_json::Map<String, serde_json::Value>) -> Map<
    Seq<char>,
    Json,
>;

/// What `serde_json::from_str` reads from a text: the value, or `None`
/// where it reports an error.
pub uninterp spec fn parsed_json(text: Seq<char>) -> Option<Json>;

/// What `serde_json::to_string_pretty` writes for a value, or `None` where
/// it reports an error.
pub uninterp spec fn pretty_text(v: Json) -> Option<Seq<char>>;

/// The entries of the empty object: none.
pub open spec fn no_entries() -> Map<Seq<char>, Json> {
    Map::empty()
}

/// `serde_json::Map::new`: a map without entries.
#[verifier::external_body]
pub(crate) fn map_new() -> (fresh: serde_json::Map<String, serde_json::Value>)
    ensures
        entries_of(fresh) == no_entries(),
{
    serde_json::Map::new()
}

/// `serde_json::Map::insert`: binds `key` to `value`, replacing what the
/// key was bound to before; every other entry stays.
#[verifier::external_body]
pub(crate) fn map_insert(
    m: &mut serde_json::Map<String, serde_json::Value>,
    key: &str,
    value: serde_json::Value,
)
    ensures
        entries_of(*final(m)) == entries_of(*old(m)).insert(key@, json_of(value)),
{
    m.insert(key.to_owned(), value);
}

/// What `key` is bound to in `entries`, an absent key counting as bound to
/// the empty object.
pub open spec fn slot(entries: Map<Seq<char>, Json>, key: Seq<char>) -> Json {
    if entries.contains_key(key) {
        entries[key]
    } else {
        Json::empty_object()
    }
}

/// `Map::entry(key).or_insert_with(..)` followed by `Value::as_object_mut`:
/// binds an absent `key` to the empty object, leaves a present key as it
/// is, and hands out the object under `key` for mutation, or `None` when
/// the key is bound to something that is no object. What the caller does
/// to the object handed out is what happens under `key`; nothing else in
/// the map changes.
#[verifier::external_body]
pub(crate) fn child_object<'a>(
    m: &'a mut serde_json::Map<String, serde_json::Value>,
    key: &str,
) -> (child: Option<&'a mut serde_json::Map<String, serde_json::Value>>)
    ensures
        child is Some <==> slot(entries_of(*old(m)), key@) is Object,
        child matches Some(c) ==> Json::Object(entries_of(*c)) == slot(entries_of(*old(m)), key@)
            && entries_of(*final(m)) == entries_of(*old(m)).insert(
            key@,
            Json::Object(entries_of(*final(c))),
        ),
        child is None ==> entries_of(*final(m)) == entries_of(*old(m)),
{
    m.entry(key).or_insert_with(empty_object).as_object_mut()
}

/// `serde_json::Value::Object`: the value that is the object with the
/// entries of `m`.
#[verifier::external_body]
pub(crate) fn object_value(m: serde_json::Map<String, serde_json::Value>) -> (value:
    serde_json::Value)
    ensures
        json_of(value) == Json::Object(entries_of(m)),
{
    serde_json::Value::Object(m)
}

/// `serde_json::Value::String`: the value that is the string `text`.
#[verifier::external_body]
pub(crate) fn string_value(text: &str) -> (value: serde_json::Value)
    ensures
        json_of(value) == Json::Text(text@),
{
    serde_json::Value::String(text.to_owned())
}

/// Tells the six variants of `serde_json::Value` apart.
#[verifier::external_body]
pub(crate) fn json_kind(value: &serde_json::Value) -> (kind: JsonKind)
    ensures
        kind == json_of(*value).kind(),
{
    match value {
        serde_json::Value::Null => JsonKind::Null,
        serde_json::Value::Bool(_) => JsonKind::Bool,
        serde_json::Value::Number(_) => JsonKind::Number,
        serde_json::Value::String(_) => JsonKind::Text,
        serde_json::Value::Array(_) => JsonKind::Array,
        serde_json::Value::Object(_) => JsonKind::Object,
    }
}

/// `serde_json::from_str`: reads `text` as one JSON value. The result
/// depends on the text alone.
#[verifier::external_body]
pub(crate) fn parse_json(text: &str) -> (parsed: Option<serde_json::Value>)
    ensures
        match parsed {
            Some(v) => parsed_json(text@) == Some(json_of(v)),
            None => parsed_json(text@) is None,
        },
{
    serde_json::from_str::<serde_json::Value>(text).ok()
}

/// `serde_json::to_string_pretty`: the indented text of `value`. The
/// result depends on the value alone: an object is written in the order
/// of its keys, as `serde_json` keeps it when built without
/// `preserve_order`.
#[verifier::external_body]
pub(crate) fn pretty_json(value: &serde_json::Value) -> (text: Option<String>)
    ensures
        match text {
            Some(t) => pretty_text(json_of(*value)) == Some(t@),
            None => pretty_text(json_of(*value)) is None,
        },
{
    serde_json::to_string_pretty(value).ok()
}

/// The empty JSON object as a value.
pub fn empty_object() -> (value: serde_json::Value)
    ensures
        json_of(value) == Json::empty_object(),
{
    object_value(map_new())
}

} // verus!
