//! JSON values as the library reads them, parsed by serde_json.

use vstd::prelude::*;

verus! {

/// A JSON value. A number is kept as what the library reads of it: its value
/// where it is an integer that fits in a `u64`.
pub enum Json {
    /// `null`.
    Null,
    /// `true` or `false`.
    Bool(bool),
    /// A number: `Some` of its value where it is an integer in `u64`.
    Number(Option<u64>),
    /// A string.
    Str(String),
    /// An array, its elements in order.
    Array(Vec<Json>),
    /// An object, its fields (each name once).
    Object(Vec<(String, Json)>),
}

/// A serde_json value (`serde_json::Value`), carried only between the parse
/// and its conversion to [`Json`].
#[verifier::external_type_specification]
#[verifier::external_body]
pub struct ExJsonValue(serde_json::Value);

/// The JSON value that a text holds, `None` where it is not JSON, as
/// serde_json reads it.
pub uninterp spec fn parsed_json(text: Seq<char>) -> Option<Json>;

/// serde_json `from_str::<Value>`, converted to [`Json`]: the value that
/// `text` holds, or `None` where serde_json refuses it. What the value is
/// is named, not stated: it is a function of the text alone.
#[verifier::external_body]
pub(crate) fn json_parse(text: &str) -> (r: Option<Json>)
    ensures
        r == parsed_json(text@),
{
    serde_json::from_str::<serde_json::Value>(text).ok().map(json_of)
}

/// Converts a serde_json `Value` to a [`Json`] variant for variant; a number
/// becomes what serde_json `Number::as_u64` reads of it. Used by
/// `json_parse` alone.
#[verifier::external_body]
fn json_of(v: serde_json::Value) -> Json {
    match v {
        serde_json::Value::Null => Json::Null,
        serde_json::Value::Bool(b) => Json::Bool(b),
        serde_json::Value::Number(n) => Json::Number(n.as_u64()),
        serde_json::Value::String(s) => Json::Str(s),
        serde_json::Value::Array(a) => Json::Array(a.into_iter().map(json_of).collect()),
        serde_json::Value::Object(m) => Json::Object(
            m.into_iter().map(|(k, x)| (k, json_of(x))).collect(),
        ),
    }
}

/// The field `key` of a list of fields: the first that bears the name.
pub open spec fn field_of(fields: Seq<(String, Json)>, key: Seq<char>) -> Option<Json>
    decreases fields.len(),
{
    if fields.len() == 0 {
        None
    } else if fields[0].0@ == key {
        Some(fields[0].1)
    } else {
        field_of(fields.drop_first(), key)
    }
}

/// The field `key` of an object; `None` for any other value.
pub open spec fn get_of(v: Json, key: Seq<char>) -> Option<Json> {
    match v {
        Json::Object(fields) => field_of(fields@, key),
        _ => None,
    }
}

/// Returns the field `key` of `v` where `v` is an object that has one.
pub fn get<'a>(v: &'a Json, key: &str) -> (r: Option<&'a Json>)
    ensures
        match get_of(*v, key@) {
            Some(f) => r matches Some(x) && *x == f,
            None => r is None,
        },
{
    match v {
        Json::Object(fields) => {
            let mut i: usize = 0;
            assert(fields@.skip(0) =~= fields@);
            while i < fields.len()
                invariant
                    i <= fields.len(),
                    get_of(*v, key@) == field_of(fields@, key@),
                    field_of(fields@, key@) == field_of(fields@.skip(i as int), key@),
                decreases fields.len() - i,
            {
                let ghost rest = fields@.skip(i as int);
                assert(rest[0] == fields@[i as int]);
                if crate::text::str_eq(fields[i].0.as_str(), key) {
                    return Some(&fields[i].1);
                }
                assert(rest.drop_first() =~= fields@.skip(i + 1));
                i = i + 1;
            }
            None
        },
        _ => None,
    }
}

} // verus!
