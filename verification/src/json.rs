//! The interface to `serde_json`: parsing a text into a JSON value, and
//! reading such a value.
//!
//! A `serde_json::Value` is opaque to the verifier. `Json` is its model: a
//! tree of plain values that holds what this library reads of a value. What
//! is assumed of `serde_json` is stated over that model, function by
//! function, and is not proved.
use serde_json::Value;
use vstd::prelude::*;

verus! {

/// `serde_json::Value`, declared as a type whose inside the verifier does not
/// see.
#[verifier::external_type_specification]
#[verifier::external_body]
pub struct ExValue(Value);

/// A JSON value, as far as this library looks into one.
pub enum Json {
    Null,
    Bool(bool),
    /// A number: its value where `serde_json` holds it as an integer, `None`
    /// where it holds it as a floating-point number.
    Number(Option<int>),
    Text(Seq<char>),
    Array(Seq<Json>),
    Object(Map<Seq<char>, Json>),
}

impl Json {
    /// The value under `key`: null where this is no object, or an object
    /// without that key.
    pub open spec fn member(self, key: Seq<char>) -> Json {
        match self {
            Json::Object(fields) => if fields.dom().contains(key) {
                fields[key]
            } else {
                Json::Null
            },
            _ => Json::Null,
        }
    }

    /// The text of a string; `None` for any other value.
    pub open spec fn text(self) -> Option<Seq<char>> {
        match self {
            Json::Text(text) => Some(text),
            _ => None,
        }
    }

    /// The value of an integer that fits 64 bits with a sign; `None` for any
    /// other value.
    pub open spec fn integer(self) -> Option<i64> {
        match self {
            Json::Number(Some(n)) => if i64::MIN <= n <= i64::MAX {
                Some(n as i64)
            } else {
                None
            },
            _ => None,
        }
    }

    /// The items of an array; `None` for any other value.
    pub open spec fn items(self) -> Option<Seq<Json>> {
        match self {
            Json::Array(items) => Some(items),
            _ => None,
        }
    }
}

/// What a `serde_json::Value` holds.
pub uninterp spec fn json_of(value: Value) -> Json;

/// What `serde_json::from_str::<Value>` makes of a text: what the value that
/// it parses to holds, or `None` where the text is not JSON.
pub uninterp spec fn json_parse(text: Seq<char>) -> Option<Json>;

/// The models of a sequence of values.
pub open spec fn json_of_each(values: Seq<Value>) -> Seq<Json> {
    values.map_values(|value: Value| json_of(value))
}

/// `serde_json::from_str::<Value>`, with the error dropped. Assumed: whether
/// a text parses, and what the value holds that it parses to, depends on the
/// text alone.
#[verifier::external_body]
pub(crate) fn parse_json(text: &str) -> (r: Option<Value>)
    ensures
        r matches Some(value) ==> json_parse(text@) == Some(json_of(value)),
        r is None ==> json_parse(text@) is None,
{
    serde_json::from_str::<Value>(text).ok()
}

/// `value[key]`, the `Index<&str>` impl of `Value`. Assumed: it gives the
/// member under `key` where `value` is an object that has one, and a null
/// value otherwise; it does not panic.
#[verifier::external_body]
pub(crate) fn member<'a>(value: &'a Value, key: &str) -> (r: &'a Value)
    ensures
        json_of(*r) == json_of(*value).member(key@),
{
    &value[key]
}

/// `Value::is_object`. Assumed: it tells whether the value is an object.
pub assume_specification[ Value::is_object ](value: &Value) -> (r: bool)
    ensures
        r == (json_of(*value) is Object),
;

/// `Value::as_str`. Assumed: it gives the text of a string, and `None` for
/// any other value.
pub assume_specification[ Value::as_str ](value: &Value) -> (r: Option<&str>)
    ensures
        r matches Some(text) ==> json_of(*value).text() == Some(text@),
        r is None ==> json_of(*value).text() is None,
;

/// `Value::as_i64`. Assumed: it gives the value of a number held as an
/// integer that fits `i64`, and `None` for any other value.
pub assume_specification[ Value::as_i64 ](value: &Value) -> (r: Option<i64>)
    ensures
        r == json_of(*value).integer(),
;

/// `Value::as_array`. Assumed: it gives the items of an array, in their
/// order, and `None` for any other value.
pub assume_specification[ Value::as_array ](value: &Value) -> (r: Option<&Vec<Value>>)
    ensures
        r matches Some(items) ==> json_of(*value).items() == Some(json_of_each(items@)),
        r is None ==> json_of(*value).items() is None,
;

} // verus!
