//! Trusted bridge to the serde_json crate.
//!
//! A parsed JSON document is a `serde_json::Value` tree, opaque to the
//! verifier; the wrappers below are the only places that touch it. To give
//! them contracts, `JsonData` models a JSON value at the specification
//! level, `value_model` names the model of a `serde_json::Value`, and
//! `json_of` names what serde_json's parser makes of a text. Both names are
//! functions of their arguments alone: the parse and the lookups depend on
//! nothing but the text or the value they are given. Each wrapper makes a
//! single library call and states over those names exactly what that call's
//! source shows; everything the patch computes from the looked-up plain
//! values is verified elsewhere.

use vstd::prelude::*;

verus! {

/// Specification-level model of a JSON value, shaped by what the library
/// reads: a number is carried as its u64 reading when it has one (a
/// negative or fractional number has none), an object as a map from key to
/// value.
pub enum JsonData {
    Null,
    Bool(bool),
    Num(Option<u64>),
    Text(Seq<char>),
    Arr(Seq<JsonData>),
    Obj(Map<Seq<char>, JsonData>),
}

#[verifier::external_type_specification]
#[verifier::external_body]
pub struct ExValue(serde_json::Value);

#[verifier::external_type_specification]
#[verifier::external_body]
pub struct ExJsonError(serde_json::Error);

/// The model of a parsed `serde_json::Value`.
pub uninterp spec fn value_model(v: serde_json::Value) -> JsonData;

/// What serde_json's parser makes of a text: the model of the parsed value
/// when the text is JSON it accepts, None when parsing fails.
pub uninterp spec fn json_of(text: Seq<char>) -> Option<JsonData>;

/// Relies on serde_json::from_str: parses JSON text into a value tree, or
/// reports why the text is not valid JSON. The outcome and the tree depend
/// on the text alone, which is what the names state.
#[verifier::external_body]
pub(crate) fn parse_value(text: &str) -> (r: Result<serde_json::Value, serde_json::Error>)
    ensures
        r is Ok <==> json_of(text@) is Some,
        r is Ok ==> value_model(r->Ok_0) == json_of(text@)->Some_0,
{
    serde_json::from_str(text)
}

/// Relies on serde_json::Error's Display implementation, reached through
/// ToString, for a human-readable description of a parse failure.
#[verifier::external_body]
pub(crate) fn parse_error_message(e: &serde_json::Error) -> String {
    e.to_string()
}

/// Relies on serde_json::Value::get with a string index: the value under
/// the key when this value is an object that has it, None otherwise.
#[verifier::external_body]
pub(crate) fn value_get<'a>(v: &'a serde_json::Value, key: &str) -> (r: Option<
    &'a serde_json::Value,
>)
    ensures
        match r {
            Some(x) => value_model(*v) is Obj && value_model(*v)->Obj_0.dom().contains(key@)
                && value_model(*x) == value_model(*v)->Obj_0[key@],
            None => !(value_model(*v) is Obj) || !value_model(*v)->Obj_0.dom().contains(key@),
        },
{
    v.get(key)
}

/// Relies on serde_json::Value::as_array: the backing vector when the value
/// is an array, None otherwise.
#[verifier::external_body]
pub(crate) fn value_as_array<'a>(v: &'a serde_json::Value) -> (r: Option<
    &'a Vec<serde_json::Value>,
>)
    ensures
        match r {
            Some(a) => value_model(*v) is Arr && a@.map_values(|x: serde_json::Value| value_model(x))
                == value_model(*v)->Arr_0,
            None => !(value_model(*v) is Arr),
        },
{
    v.as_array()
}

/// Relies on serde_json::Value::as_u64: the number when the value is an
/// integer between 0 and u64::MAX, None otherwise.
#[verifier::external_body]
pub(crate) fn value_as_u64(v: &serde_json::Value) -> (r: Option<u64>)
    ensures
        match r {
            Some(n) => value_model(*v) is Num && value_model(*v)->Num_0 == Some(n),
            None => !(value_model(*v) is Num) || value_model(*v)->Num_0 is None,
        },
{
    v.as_u64()
}

/// Relies on serde_json::Value::as_str: the string when the value is a JSON
/// string, None otherwise.
#[verifier::external_body]
pub(crate) fn value_as_str<'a>(v: &'a serde_json::Value) -> (r: Option<&'a str>)
    ensures
        match r {
            Some(s) => value_model(*v) is Text && s@ == value_model(*v)->Text_0,
            None => !(value_model(*v) is Text),
        },
{
    v.as_str()
}

} // verus!
