//! JSON text as `serde_json` reads and prints it.
//!
//! A `serde_json::Value` is opaque to the verifier. What it holds is named by
//! `json_value`, a `Json`, and the items below say what each accessor of
//! `serde_json` reads of it.

use vstd::prelude::*;

verus! {

/// What a JSON value holds.
pub enum Json {
    Null,
    Bool(bool),
    /// A number: its printed form, and its value where that is an `i64`.
    Number { text: Seq<char>, whole: Option<i64> },
    Text(Seq<char>),
    Array(Seq<Json>),
    Object(Map<Seq<char>, Json>),
}

impl Json {
    /// The member `key` of an object.
    pub open spec fn member(self, key: Seq<char>) -> Option<Json> {
        match self {
            Json::Object(members) => if members.contains_key(key) {
                Some(members[key])
            } else {
                None
            },
            _ => None,
        }
    }

    pub open spec fn text(self) -> Option<Seq<char>> {
        match self {
            Json::Text(s) => Some(s),
            _ => None,
        }
    }

    pub open spec fn boolean(self) -> Option<bool> {
        match self {
            Json::Bool(b) => Some(b),
            _ => None,
        }
    }

    pub open spec fn integer(self) -> Option<i64> {
        match self {
            Json::Number { text, whole } => whole,
            _ => None,
        }
    }

    pub open spec fn items(self) -> Option<Seq<Json>> {
        match self {
            Json::Array(items) => Some(items),
            _ => None,
        }
    }
}

/// A parsed JSON value of `serde_json`.
#[verifier::external_type_specification]
#[verifier::external_body]
pub struct ExValue(serde_json::Value);

/// The error of `serde_json`'s parser.
#[verifier::external_type_specification]
#[verifier::external_body]
pub struct ExError(serde_json::Error);

/// What a `serde_json::Value` holds: a tree of nulls, booleans, numbers,
/// strings, arrays and objects.
pub uninterp spec fn json_value(value: serde_json::Value) -> Json;

/// What `serde_json::from_str` makes of a text: the value that it stands for,
/// or nothing where the text is no JSON document or is nested past the limit of
/// the parser.
pub uninterp spec fn json_parsed(text: Seq<char>) -> Option<Json>;

/// The compact form in which `serde_json` prints a value, with the keys of
/// each object in their sorted order. It is a function of what the value holds
/// as long as the feature `preserve_order` of `serde_json` is off.
pub uninterp spec fn json_printed(json: Json) -> Seq<char>;

/// `serde_json::from_str`, to a `serde_json::Value`: it succeeds on exactly the
/// texts that `json_parsed` gives a value, and the value holds what it says.
#[verifier::external_body]
pub(crate) fn parse_value(text: &str) -> (r: Result<serde_json::Value, serde_json::Error>)
    ensures
        match r {
            Ok(value) => json_parsed(text@) == Some(json_value(value)),
            Err(_) => json_parsed(text@) is None,
        },
{
    serde_json::from_str(text)
}

/// `serde_json::Value::get` with a string index: the member of that name where
/// the value is an object that has one, and `None` otherwise.
#[verifier::external_body]
pub(crate) fn member<'a>(value: &'a serde_json::Value, key: &str) -> (r: Option<
    &'a serde_json::Value,
>)
    ensures
        match r {
            Some(found) => json_value(*value).member(key@) == Some(json_value(*found)),
            None => json_value(*value).member(key@) is None,
        },
{
    value.get(key)
}

/// `serde_json::Value::as_str`: the string that the value is.
pub assume_specification[ serde_json::Value::as_str ](value: &serde_json::Value) -> (r: Option<
    &str,
>)
    ensures
        match r {
            Some(s) => json_value(*value).text() == Some(s@),
            None => json_value(*value).text() is None,
        },
;

/// `serde_json::Value::as_bool`: the boolean that the value is.
pub assume_specification[ serde_json::Value::as_bool ](value: &serde_json::Value) -> (r: Option<
    bool,
>)
    ensures
        r == json_value(*value).boolean(),
;

/// `serde_json::Value::as_i64`: the integer that the value is, where it is one
/// and lies in the range of `i64`.
pub assume_specification[ serde_json::Value::as_i64 ](value: &serde_json::Value) -> (r: Option<
    i64,
>)
    ensures
        r == json_value(*value).integer(),
;

/// `serde_json::Value::as_array`: the elements of an array, in their order.
pub assume_specification[ serde_json::Value::as_array ](value: &serde_json::Value) -> (r: Option<
    &Vec<serde_json::Value>,
>)
    ensures
        match r {
            Some(items) => json_value(*value).items() == Some(
                items@.map_values(|item: serde_json::Value| json_value(item)),
            ),
            None => json_value(*value).items() is None,
        },
;

/// The `Display` impl of `serde_json::Value`, by `to_string`: the compact form,
/// which is a function of what the value holds.
#[verifier::external_body]
pub(crate) fn printed(value: &serde_json::Value) -> (r: String)
    ensures
        r@ == json_printed(json_value(*value)),
{
    value.to_string()
}

} // verus!
