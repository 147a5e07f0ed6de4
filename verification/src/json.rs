//! A mathematical model of parsed JSON values, and trusted access to the
//! `serde_json` values that carry them at run time.
//!
//! The protocol normalizer works on `serde_json::Value`, which Verus treats
//! as opaque. `Json` is the library's model of what such a value holds;
//! `json_of` names the model of a given value, and each accessor wrapper
//! states what the underlying `serde_json` method returns in terms of that
//! model. All normalizer logic above these accessors is verified.

use vstd::prelude::*;

verus! {

/// The shape and content of a parsed JSON value.
///
/// Numbers representable as `i64` keep their value; any other number
/// (a float, or an integer above `i64::MAX`) is `OtherNum`, carrying its
/// serialized text. Objects are maps from member name to member value;
/// a parsed object holds each name once.
pub enum Json {
    Null,
    Bool(bool),
    IntNum(int),
    OtherNum(Seq<char>),
    Text(Seq<char>),
    Array(Seq<Json>),
    Object(Map<Seq<char>, Json>),
}

/// The member of object `j` named `key`, if `j` is an object that has it.
pub open spec fn jget(j: Json, key: Seq<char>) -> Option<Json> {
    match j {
        Json::Object(m) => if m.contains_key(key) {
            Some(m[key])
        } else {
            None
        },
        _ => None,
    }
}

/// The string member of object `j` named `key`, if present and a string.
pub open spec fn jstr(j: Json, key: Seq<char>) -> Option<Seq<char>> {
    match jget(j, key) {
        Some(Json::Text(t)) => Some(t),
        _ => None,
    }
}

/// The boolean member of object `j` named `key`, if present and a boolean.
pub open spec fn jbool(j: Json, key: Seq<char>) -> Option<bool> {
    match jget(j, key) {
        Some(Json::Bool(b)) => Some(b),
        _ => None,
    }
}

/// The `i64`-representable number member of object `j` named `key`.
pub open spec fn jint(j: Json, key: Seq<char>) -> Option<int> {
    match jget(j, key) {
        Some(Json::IntNum(n)) => Some(n),
        _ => None,
    }
}

#[verifier::external_type_specification]
#[verifier::external_body]
pub struct ExValue(serde_json::Value);

/// The model of what a `serde_json::Value` holds; the accessor wrappers
/// below relate every call into `serde_json` to this one function.
pub uninterp spec fn json_of(v: serde_json::Value) -> Json;

/// The JSON value that parsing a piece of text yields, `None` where the
/// text is not valid JSON; parsing depends on the text alone.
pub uninterp spec fn spec_parse_json(s: Seq<char>) -> Option<Json>;

/// What `serde_json::to_string` prints for a value of the given model.
/// Member order is fixed (objects are kept sorted by key) and the model
/// keeps the printed text of non-`i64` numbers, so the output depends on
/// the model alone.
pub uninterp spec fn json_serialized(j: Json) -> Seq<char>;

/// Relies on `serde_json::from_str::<Value>`: parses one line of text,
/// `None` on malformed input.
#[verifier::external_body]
pub fn parse_json_line(line: &str) -> (r: Option<serde_json::Value>)
    ensures
        (r is Some) == (spec_parse_json(line@) is Some),
        r matches Some(v) ==> spec_parse_json(line@) == Some(json_of(v)),
{
    serde_json::from_str::<serde_json::Value>(line).ok()
}

/// Relies on `serde_json::Value::get` with a string index: member lookup
/// on an object, `None` on absent members and on non-objects.
#[verifier::external_body]
pub fn value_get<'a>(v: &'a serde_json::Value, key: &str) -> (r: Option<&'a serde_json::Value>)
    ensures
        match r {
            Some(w) => jget(json_of(*v), key@) == Some(json_of(*w)),
            None => jget(json_of(*v), key@) is None,
        },
{
    v.get(key)
}

/// Relies on `serde_json::Value::as_str`: the borrowed string for a JSON
/// string, `None` otherwise.
#[verifier::external_body]
pub fn value_as_str<'a>(v: &'a serde_json::Value) -> (r: Option<&'a str>)
    ensures
        match r {
            Some(s) => json_of(*v) == Json::Text(s@),
            None => !(json_of(*v) is Text),
        },
{
    v.as_str()
}

/// Relies on `serde_json::Value::as_bool`: the value of a JSON boolean,
/// `None` otherwise.
#[verifier::external_body]
pub fn value_as_bool(v: &serde_json::Value) -> (r: Option<bool>)
    ensures
        match r {
            Some(b) => json_of(*v) == Json::Bool(b),
            None => !(json_of(*v) is Bool),
        },
{
    v.as_bool()
}

/// Relies on `serde_json::Value::as_i64`: the value of a JSON number that
/// is representable as `i64`, `None` for other numbers and non-numbers.
#[verifier::external_body]
pub fn value_as_i64(v: &serde_json::Value) -> (r: Option<i64>)
    ensures
        match r {
            Some(n) => json_of(*v) == Json::IntNum(n as int),
            None => !(json_of(*v) is IntNum),
        },
{
    v.as_i64()
}

/// Relies on `serde_json::Value::as_array`: the element vector of a JSON
/// array, `None` otherwise.
#[verifier::external_body]
pub fn value_as_array<'a>(v: &'a serde_json::Value) -> (r: Option<&'a Vec<serde_json::Value>>)
    ensures
        match r {
            Some(a) => json_of(*v) == Json::Array(
                a@.map_values(|x: serde_json::Value| json_of(x)),
            ),
            None => !(json_of(*v) is Array),
        },
{
    v.as_array()
}

/// Relies on `serde_json::to_string`, which cannot fail on a `Value`
/// (object keys are strings and `Value` serialization is infallible).
#[verifier::external_body]
pub fn value_to_string(v: &serde_json::Value) -> (r: String)
    ensures
        r@ == json_serialized(json_of(*v)),
{
    serde_json::to_string(v).unwrap_or_else(|_| String::new())
}

} // verus!
