//! JSON values, as [`serde_json`] reads and writes them.

use vstd::prelude::*;

verus! {

#[verifier::external_type_specification]
#[verifier::external_body]
pub struct ExJsonValue(serde_json::Value);

#[verifier::external_type_specification]
#[verifier::external_body]
pub struct ExJsonError(serde_json::Error);

/// A JSON value.
pub enum Json {
    Null,
    Bool(bool),
    /// The notation of a number, and its value where that is an integer within `i64`.
    Number(Seq<char>, Option<i64>),
    Text(Seq<char>),
    Array(Seq<Json>),
    Object(Map<Seq<char>, Json>),
}

/// The kinds of JSON values.
#[derive(Debug, Clone, Copy, PartialEq, Eq, Structural)]
pub enum JsonKind {
    Null,
    Bool,
    Number,
    Text,
    Array,
    Object,
}

impl Json {
    /// The kind of the value.
    pub open spec fn kind(self) -> JsonKind {
        match self {
            Json::Null => JsonKind::Null,
            Json::Bool(_) => JsonKind::Bool,
            Json::Number(_, _) => JsonKind::Number,
            Json::Text(_) => JsonKind::Text,
            Json::Array(_) => JsonKind::Array,
            Json::Object(_) => JsonKind::Object,
        }
    }
}

/// The JSON value that a [`serde_json::Value`] holds.
pub uninterp spec fn json_of(value: serde_json::Value) -> Json;

/// The values that a sequence of [`serde_json::Value`] holds.
pub open spec fn jsons_of(values: Seq<serde_json::Value>) -> Seq<Json> {
    values.map_values(|v: serde_json::Value| json_of(v))
}

// ---------------------------------------------------------------------------
// Reading
// ---------------------------------------------------------------------------

/// What [`serde_json::from_str`] makes of a text: a value, or the words of its error.
pub uninterp spec fn json_parse(text: Seq<char>) -> Result<Json, Seq<char>>;

/// The text that a [`serde_json::Error`] displays as.
pub uninterp spec fn json_fault_text(error: serde_json::Error) -> Seq<char>;

/// [`serde_json::from_str`] for a [`serde_json::Value`].
#[verifier::external_body]
pub(crate) fn parse_json(text: &str) -> (r: Result<serde_json::Value, serde_json::Error>)
    ensures
        match r {
            Ok(value) => json_parse(text@) == Ok::<Json, Seq<char>>(json_of(value)),
            Err(error) => json_parse(text@) == Err::<Json, Seq<char>>(json_fault_text(error)),
        },
{
    serde_json::from_str::<serde_json::Value>(text)
}

/// `Display` of [`serde_json::Error`].
#[verifier::external_body]
pub(crate) fn text_of_json_fault(error: &serde_json::Error) -> (r: String)
    ensures
        r@ == json_fault_text(*error),
{
    error.to_string()
}

/// [`serde_json::Value`] by its variant.
#[verifier::external_body]
pub(crate) fn kind_of(value: &serde_json::Value) -> (r: JsonKind)
    ensures
        r == json_of(*value).kind(),
{
    match value {
        serde_json::Value::Null => JsonKind::Null,
        serde_json::Value::Bool(_) => JsonKind::Bool,
        serde_json::Value::Number(_) => JsonKind::Number,
        serde_json::Value::String(_) => JsonKind::Text,
        serde_json::Value::Array(_) => JsonKind::Array,
        serde_json::Value::Object(_) => JsonKind::Object,
    }
}

/// [`serde_json::Value::get`] with a text as the index: the member of an object.
#[verifier::external_body]
pub(crate) fn member<'a>(value: &'a serde_json::Value, key: &str) -> (r: Option<
    &'a serde_json::Value,
>)
    ensures
        match r {
            Some(v) => json_of(*value) matches Json::Object(m) && m.dom().contains(key@)
                && json_of(*v) == m[key@],
            None => json_of(*value) matches Json::Object(m) ==> !m.dom().contains(key@),
        },
{
    value.get(key)
}

/// [`serde_json::Value::as_i64`]: the value of a number that is an integer within `i64`.
#[verifier::external_body]
pub(crate) fn integer_of(value: &serde_json::Value) -> (r: Option<i64>)
    ensures
        r == (match json_of(*value) {
            Json::Number(_, n) => n,
            _ => None,
        }),
{
    value.as_i64()
}

/// [`serde_json::Value::as_bool`].
#[verifier::external_body]
pub(crate) fn bool_of(value: &serde_json::Value) -> (r: Option<bool>)
    ensures
        r == (match json_of(*value) {
            Json::Bool(b) => Some(b),
            _ => None,
        }),
{
    value.as_bool()
}

/// [`serde_json::Value::as_str`].
#[verifier::external_body]
pub(crate) fn text_of(value: &serde_json::Value) -> (r: Option<&str>)
    ensures
        match r {
            Some(s) => json_of(*value) == Json::Text(s@),
            None => json_of(*value).kind() != JsonKind::Text,
        },
{
    value.as_str()
}

/// [`serde_json::Value::as_array`].
#[verifier::external_body]
pub(crate) fn array_of(value: &serde_json::Value) -> (r: Option<&Vec<serde_json::Value>>)
    ensures
        match r {
            Some(items) => json_of(*value) == Json::Array(jsons_of(items@)),
            None => json_of(*value).kind() != JsonKind::Array,
        },
{
    value.as_array()
}

// ---------------------------------------------------------------------------
// Writing
// ---------------------------------------------------------------------------

/// The compact notation of a value.
pub uninterp spec fn json_text(json: Json) -> Seq<char>;

/// `Display` of [`serde_json::Value`]: its compact notation; that of a number is the one it
/// carries.
#[verifier::external_body]
pub(crate) fn write_json(value: &serde_json::Value) -> (r: String)
    ensures
        r@ == json_text(json_of(*value)),
        json_of(*value) matches Json::Number(notation, _) ==> r@ == notation,
{
    value.to_string()
}

/// `serde_json::Value::from(&str)`.
#[verifier::external_body]
pub(crate) fn json_string(text: &str) -> (r: serde_json::Value)
    ensures
        json_of(r) == Json::Text(text@),
{
    serde_json::Value::from(text)
}

/// The members that a list of entries makes.
pub open spec fn members(entries: Seq<(String, serde_json::Value)>) -> Map<Seq<char>, Json>
    decreases entries.len(),
{
    if entries.len() == 0 {
        Map::empty()
    } else {
        members(entries.drop_last()).insert(entries.last().0@, json_of(entries.last().1))
    }
}

/// No two entries have the same key.
pub open spec fn distinct_keys(entries: Seq<(String, serde_json::Value)>) -> bool {
    forall|i: int, j: int|
        0 <= i < j < entries.len() ==> #[trigger] entries[i].0@ != #[trigger] entries[j].0@
}

/// [`serde_json::Map`] collected from its entries, as a value. No two of them have the same key:
/// which of two such entries would stay is left open.
#[verifier::external_body]
pub(crate) fn json_object(entries: Vec<(String, serde_json::Value)>) -> (r: serde_json::Value)
    requires
        distinct_keys(entries@),
    ensures
        json_of(r) == Json::Object(members(entries@)),
{
    serde_json::Value::Object(entries.into_iter().collect::<serde_json::Map<_, _>>())
}

} // verus!
