//! JSON values as the worker protocol reads and writes them, through
//! `serde_json`.

use vstd::prelude::*;

verus! {

/// A JSON value.
#[verifier::external_type_specification]
#[verifier::external_body]
pub struct ExValue(serde_json::Value);

/// A JSON object.
#[verifier::external_type_specification]
#[verifier::external_body]
#[verifier::reject_recursive_types(K)]
#[verifier::reject_recursive_types(V)]
pub struct ExMap<K, V>(serde_json::Map<K, V>);

/// A JSON number: a natural number, a negative one, or a fraction by the bits
/// that stand for it.
pub enum JsonNumber {
    Natural(u64),
    Negative(i64),
    Fraction(u64),
}

/// What a JSON value says.
pub enum Json {
    Null,
    Bool(bool),
    Number(JsonNumber),
    Text(Seq<char>),
    Array(Seq<Json>),
    Object(Map<Seq<char>, Json>),
}

/// What a value holds.
pub uninterp spec fn json_of(value: serde_json::Value) -> Json;

/// The fields that an object holds.
pub uninterp spec fn fields_of(object: serde_json::Map<String, serde_json::Value>) -> Map<
    Seq<char>,
    Json,
>;

/// The value that a text denotes, where it is JSON.
pub uninterp spec fn parsed(source: Seq<char>) -> Option<Json>;

/// The text of an object with these fields, or why there is none.
pub uninterp spec fn written(fields: Map<Seq<char>, Json>) -> Result<Seq<char>, Seq<char>>;

/// An object without fields.
pub open spec fn no_fields() -> Map<Seq<char>, Json> {
    Map::empty()
}

impl Json {
    /// The field of this name, where this is an object that has it.
    pub open spec fn field(self, key: Seq<char>) -> Option<Json> {
        match self {
            Json::Object(fields) => if fields.contains_key(key) {
                Some(fields[key])
            } else {
                None
            },
            _ => None,
        }
    }

    /// The natural number, where this is one.
    pub open spec fn natural(self) -> Option<u64> {
        match self {
            Json::Number(JsonNumber::Natural(n)) => Some(n),
            _ => None,
        }
    }

    /// The text, where this is one.
    pub open spec fn text(self) -> Option<Seq<char>> {
        match self {
            Json::Text(s) => Some(s),
            _ => None,
        }
    }
}

/// Calls `serde_json::from_str` for a `Value`. Whether the text is JSON, and
/// what it then denotes, depends on the text alone.
#[verifier::external_body]
pub(crate) fn parse(source: &str) -> (r: Option<serde_json::Value>)
    ensures
        match r {
            Some(value) => parsed(source@) == Some(json_of(value)),
            None => parsed(source@) is None,
        },
{
    serde_json::from_str::<serde_json::Value>(source).ok()
}

/// Calls `serde_json::Value::get` with a string: the field of an object, and
/// nothing of any other value.
#[verifier::external_body]
pub(crate) fn get<'a>(value: &'a serde_json::Value, key: &str) -> (r: Option<&'a serde_json::Value>)
    ensures
        match r {
            Some(item) => json_of(*value).field(key@) == Some(json_of(*item)),
            None => json_of(*value).field(key@) is None,
        },
{
    value.get(key)
}

/// Calls `serde_json::Value::as_u64`: the number that is no fraction and not
/// negative.
#[verifier::external_body]
pub(crate) fn as_u64(value: &serde_json::Value) -> (r: Option<u64>)
    ensures
        r == json_of(*value).natural(),
{
    value.as_u64()
}

/// Calls `serde_json::Value::as_str`: the text of a string.
#[verifier::external_body]
pub(crate) fn as_str(value: &serde_json::Value) -> (r: Option<&str>)
    ensures
        match r {
            Some(s) => json_of(*value).text() == Some(s@),
            None => json_of(*value).text() is None,
        },
{
    value.as_str()
}

/// Calls `clone` of `serde_json::Value`: the same value again.
#[verifier::external_body]
pub(crate) fn copy(value: &serde_json::Value) -> (r: serde_json::Value)
    ensures
        json_of(r) == json_of(*value),
{
    value.clone()
}

/// Calls `serde_json::Value::from` for a string slice: a JSON string.
#[verifier::external_body]
pub(crate) fn text_value(s: &str) -> (r: serde_json::Value)
    ensures
        json_of(r) == Json::Text(s@),
{
    serde_json::Value::from(s)
}

/// Calls `serde_json::Value::from` for a `u64`: a JSON number.
#[verifier::external_body]
pub(crate) fn natural_value(n: u64) -> (r: serde_json::Value)
    ensures
        json_of(r) == Json::Number(JsonNumber::Natural(n)),
{
    serde_json::Value::from(n)
}

/// Calls `serde_json::Map::new`: an object without fields.
#[verifier::external_body]
pub(crate) fn new_object() -> (r: serde_json::Map<String, serde_json::Value>)
    ensures
        fields_of(r) == no_fields(),
{
    serde_json::Map::new()
}

/// Calls `serde_json::Map::insert`: sets a field, in place of one of the same
/// name.
#[verifier::external_body]
pub(crate) fn put(
    object: &mut serde_json::Map<String, serde_json::Value>,
    key: &str,
    value: serde_json::Value,
)
    ensures
        fields_of(*final(object)) == fields_of(*old(object)).insert(key@, json_of(value)),
{
    object.insert(key.to_string(), value);
}

/// Calls `serde_json::to_string` on an object. The object keeps its fields in
/// the order of their names, so the text depends on the fields alone.
#[verifier::external_body]
pub(crate) fn write_object(object: &serde_json::Map<String, serde_json::Value>) -> (r: Result<
    String,
    String,
>)
    ensures
        match r {
            Ok(line) => written(fields_of(*object)) == Ok::<Seq<char>, Seq<char>>(line@),
            Err(cause) => written(fields_of(*object)) == Err::<Seq<char>, Seq<char>>(cause@),
        },
{
    serde_json::to_string(object).map_err(|e| e.to_string())
}

} // verus!
