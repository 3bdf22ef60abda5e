//! JSON documents as the `serde_json` crate holds them.
//!
//! `serde_json` parses, stores and prints; this module says what its values
//! hold, as a [`Json`] model, and wraps the calls that the library makes.

use vstd::prelude::*;

verus! {

/// What a JSON value holds.
#[verifier::ext_equal]
pub enum Json {
    Null,
    Bool(bool),
    /// An integer that is not negative.
    Unsigned(u64),
    /// A negative integer.
    Negative(int),
    OtherNumber(serde_json::Number),
    Text(Seq<char>),
    Array(Seq<Json>),
    Object(Map<Seq<char>, Json>),
}

/// `serde_json::Value`, a parsed JSON value.
#[verifier::external_type_specification]
#[verifier::external_body]
pub struct ExValue(serde_json::Value);

/// `serde_json::Number`, a JSON number.
#[verifier::external_type_specification]
#[verifier::external_body]
pub struct ExNumber(serde_json::Number);

/// `serde_json::Map`, the fields of a JSON object.
#[verifier::external_type_specification]
#[verifier::external_body]
#[verifier::reject_recursive_types(K)]
#[verifier::reject_recursive_types(V)]
pub struct ExMap<K, V>(serde_json::Map<K, V>);

/// `serde_json::Error`, why a text is not a JSON document.
#[verifier::external_type_specification]
#[verifier::external_body]
pub struct ExError(serde_json::Error);

/// What a `serde_json::Value` holds.
pub uninterp spec fn held(value: serde_json::Value) -> Json;

/// The fields that a `serde_json::Map` holds.
pub uninterp spec fn fields(map: serde_json::Map<String, serde_json::Value>) -> Map<
    Seq<char>,
    Json,
>;

/// The integer that a `serde_json::Number` holds, if it holds one.
pub uninterp spec fn whole(number: serde_json::Number) -> Option<int>;

/// An integer as an unsigned number, where it is one.
pub open spec fn unsigned(number: Option<int>) -> Option<u64> {
    match number {
        Some(n) => if 0 <= n <= u64::MAX {
            Some(n as u64)
        } else {
            None
        },
        None => None,
    }
}

/// The document that `serde_json::from_str` reads off a text.
pub uninterp spec fn parsed(text: Seq<char>) -> Option<Json>;

/// The text that `serde_json::to_string` prints for a document.
pub uninterp spec fn printed(document: Json) -> Seq<char>;

/// A JSON value taken apart by its kind.
pub enum Parts<'a> {
    Null,
    Bool(bool),
    Number(&'a serde_json::Number),
    Text(&'a String),
    Array(&'a Vec<serde_json::Value>),
    Object(&'a serde_json::Map<String, serde_json::Value>),
}

impl<'a> Parts<'a> {
    /// What the parts hold together.
    pub open spec fn held(self) -> Json {
        match self {
            Parts::Null => Json::Null,
            Parts::Bool(b) => Json::Bool(b),
            Parts::Number(n) => match (unsigned(whole(*n)), whole(*n)) {
                (Some(u), _) => Json::Unsigned(u),
                (None, Some(i)) => Json::Negative(i),
                (None, None) => Json::OtherNumber(*n),
            },
            Parts::Text(s) => Json::Text(s@),
            Parts::Array(items) => Json::Array(all_held(items@)),
            Parts::Object(map) => Json::Object(fields(*map)),
        }
    }
}

/// What each of several values holds.
pub open spec fn all_held(values: Seq<serde_json::Value>) -> Seq<Json> {
    Seq::new(values.len(), |i: int| held(values[i]))
}

/// The fields of an empty object.
pub open spec fn no_fields() -> Map<Seq<char>, Json> {
    Map::empty()
}

/// Whether a document nests at most `depth` levels of arrays and objects and
/// all of its numbers are integers.
pub open spec fn simple(document: Json, depth: nat) -> bool
    decreases depth,
{
    match document {
        Json::Null => true,
        Json::Bool(_) => true,
        Json::Text(_) => true,
        Json::Unsigned(_) => true,
        Json::Negative(_) => true,
        Json::OtherNumber(_) => false,
        Json::Array(items) => depth > 0 && forall|i: int|
            0 <= i < items.len() ==> simple(#[trigger] items[i], (depth - 1) as nat),
        Json::Object(map) => depth > 0 && forall|k: Seq<char>| #[trigger]
            map.contains_key(k) ==> simple(map[k], (depth - 1) as nat),
    }
}

/// `serde_json::from_str::<serde_json::Value>`: the document that `text` holds,
/// or an error where `text` is not one JSON document.
#[verifier::external_body]
pub(crate) fn parse(text: &str) -> (r: Result<serde_json::Value, serde_json::Error>)
    ensures
        r is Ok <==> parsed(text@) is Some,
        r matches Ok(value) ==> parsed(text@) == Some(held(value)),
{
    serde_json::from_str::<serde_json::Value>(text)
}

/// `serde_json::to_string` on a `serde_json::Value`, which it always prints:
/// the text depends on what the value holds alone, and `serde_json::from_str`
/// reads the same document back off it. The last is claimed for documents that
/// nest no deeper than the parser follows and whose numbers are all integers; it
/// is left unsaid of other numbers.
#[verifier::external_body]
pub(crate) fn to_string(value: &serde_json::Value) -> (r: Result<String, serde_json::Error>)
    ensures
        r is Ok,
        r matches Ok(text) ==> text@ == printed(held(*value)),
        r matches Ok(text) ==> (simple(held(*value), 127) ==> parsed(text@) == Some(
            held(*value),
        )),
{
    serde_json::to_string(value)
}

/// The text of a document.
pub fn print(value: &serde_json::Value) -> (text: String)
    ensures
        text@ == printed(held(*value)),
        simple(held(*value), 127) ==> parsed(text@) == Some(held(*value)),
{
    match to_string(value) {
        Ok(text) => text,
        Err(_) => "{}".to_owned(),
    }
}

/// The variants of `serde_json::Value`, told apart.
#[verifier::external_body]
pub(crate) fn open<'a>(value: &'a serde_json::Value) -> (parts: Parts<'a>)
    ensures
        parts.held() == held(*value),
{
    match value {
        serde_json::Value::Null => Parts::Null,
        serde_json::Value::Bool(b) => Parts::Bool(*b),
        serde_json::Value::Number(n) => Parts::Number(n),
        serde_json::Value::String(s) => Parts::Text(s),
        serde_json::Value::Array(items) => Parts::Array(items),
        serde_json::Value::Object(map) => Parts::Object(map),
    }
}

/// The variant `serde_json::Value::String`.
#[verifier::external_body]
pub(crate) fn text_value(s: String) -> (value: serde_json::Value)
    ensures
        held(value) == Json::Text(s@),
{
    serde_json::Value::String(s)
}

/// The variant `serde_json::Value::Array`.
#[verifier::external_body]
pub(crate) fn array_value(items: Vec<serde_json::Value>) -> (value: serde_json::Value)
    ensures
        held(value) == Json::Array(all_held(items@)),
{
    serde_json::Value::Array(items)
}

/// The variant `serde_json::Value::Object`.
#[verifier::external_body]
pub(crate) fn object_value(map: serde_json::Map<String, serde_json::Value>) -> (value:
    serde_json::Value)
    ensures
        held(value) == Json::Object(fields(map)),
{
    serde_json::Value::Object(map)
}

/// `serde_json::Value::from` on a `u64`: the JSON number for `n`.
#[verifier::external_body]
pub(crate) fn number_value(n: u64) -> (value: serde_json::Value)
    ensures
        held(value) == Json::Unsigned(n),
{
    serde_json::Value::from(n)
}

/// `serde_json::Number::as_u64`: the integer that the number holds, unless it is
/// negative or no integer.
#[verifier::external_body]
pub(crate) fn as_u64(number: &serde_json::Number) -> (r: Option<u64>)
    ensures
        r == unsigned(whole(*number)),
{
    number.as_u64()
}

/// `serde_json::Value::clone`: the copy holds what the value holds.
#[verifier::external_body]
pub(crate) fn copy_value(value: &serde_json::Value) -> (copy: serde_json::Value)
    ensures
        held(copy) == held(*value),
{
    value.clone()
}

/// `serde_json::Map::clone`: the copy has the same fields.
#[verifier::external_body]
pub(crate) fn copy_map(map: &serde_json::Map<String, serde_json::Value>) -> (copy: serde_json::Map<
    String,
    serde_json::Value,
>)
    ensures
        fields(copy) == fields(*map),
{
    map.clone()
}

/// `serde_json::Map::new`: no fields.
#[verifier::external_body]
pub(crate) fn new_map() -> (map: serde_json::Map<String, serde_json::Value>)
    ensures
        fields(map) == no_fields(),
{
    serde_json::Map::new()
}

/// `serde_json::Map::get`: the value under `key`, if there is one.
#[verifier::external_body]
pub(crate) fn get<'a>(map: &'a serde_json::Map<String, serde_json::Value>, key: &str) -> (r: Option<
    &'a serde_json::Value,
>)
    ensures
        r is Some <==> fields(*map).contains_key(key@),
        r matches Some(value) ==> held(*value) == fields(*map)[key@],
{
    map.get(key)
}

/// `serde_json::Map::insert`: puts `value` under `key`, in place of what stood
/// there before.
#[verifier::external_body]
pub(crate) fn put(
    map: &mut serde_json::Map<String, serde_json::Value>,
    key: String,
    value: serde_json::Value,
)
    ensures
        fields(*final(map)) == fields(*old(map)).insert(key@, held(value)),
{
    map.insert(key, value);
}

/// An integer is an unsigned number exactly if it is not negative and fits.
pub proof fn law_unsigned_numbers(n: int)
    ensures
        0 <= n <= u64::MAX ==> unsigned(Some(n)) == Some(n as u64),
        n < 0 || n > u64::MAX ==> unsigned(Some(n)) is None,
        unsigned(None) is None,
{
}

/// The parts of a value hold what the value is made of.
pub proof fn law_parts_hold_what_they_are<'a>(parts: Parts<'a>, values: Seq<serde_json::Value>, i: int)
    ensures
        match parts {
            Parts::Null => parts.held() is Null,
            Parts::Bool(b) => parts.held() == Json::Bool(b),
            Parts::Number(n) => match whole(*n) {
                Some(k) => if 0 <= k <= u64::MAX {
                    parts.held() == Json::Unsigned(k as u64)
                } else {
                    parts.held() == Json::Negative(k)
                },
                None => parts.held() == Json::OtherNumber(*n),
            },
            Parts::Text(s) => parts.held() == Json::Text(s@),
            Parts::Array(items) => parts.held() is Array && parts.held()->Array_0 == all_held(
                items@,
            ),
            Parts::Object(map) => parts.held() == Json::Object(fields(*map)),
        },
        all_held(values).len() == values.len(),
        0 <= i < values.len() ==> all_held(values)[i] == held(values[i]),
        forall|key: Seq<char>| !(#[trigger] no_fields().contains_key(key)),
{
}

/// Which documents are simple: texts, truth values, nulls and integers are, and
/// so are arrays and objects of simple documents with one level less.
pub proof fn law_simple_documents(
    n: u64,
    k: int,
    text: Seq<char>,
    items: Seq<Json>,
    map: Map<Seq<char>, Json>,
    depth: nat,
)
    ensures
        simple(Json::Null, depth),
        simple(Json::Bool(true), depth),
        simple(Json::Bool(false), depth),
        simple(Json::Unsigned(n), depth),
        simple(Json::Negative(k), depth),
        simple(Json::Text(text), depth),
        (forall|i: int| 0 <= i < items.len() ==> simple(#[trigger] items[i], depth)) ==> simple(
            Json::Array(items),
            depth + 1,
        ),
        (forall|key: Seq<char>| #[trigger] map.contains_key(key) ==> simple(map[key], depth))
            ==> simple(Json::Object(map), depth + 1),
{
}

} // verus!
