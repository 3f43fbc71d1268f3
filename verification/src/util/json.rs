//! JSON values as the engine sees them.
//!
//! The values themselves belong to `serde_json`. Their content is described
//! here by a mathematical model, [`JsonView`], and the few accessors and
//! constructors that the engine needs are declared against that model. The
//! contracts of the functions in this file that carry
//! `#[verifier::external_body]` are assumed, not proved.

use serde_json::Value;
use vstd::prelude::*;

verus! {

/// `serde_json::Value`, opaque to the verifier.
#[verifier::external_type_specification]
#[verifier::external_body]
pub struct ExJsonValue(serde_json::Value);

/// The content of a JSON value.
pub enum JsonView {
    Null,
    Bool(bool),
    /// A number that is an integer between `i64::MIN` and `i64::MAX`.
    Int(i64),
    /// Any other number.
    Number,
    Str(Seq<char>),
    Array(Seq<JsonView>),
    Object(Map<Seq<char>, JsonView>),
}

/// What a `serde_json::Value` holds.
pub uninterp spec fn json_view(v: Value) -> JsonView;

/// The values that a `serde_json::Value` holds as the items of an array;
/// of anything but an array, the empty sequence.
pub uninterp spec fn json_items(v: Value) -> Seq<Value>;

/// The views of a sequence of values, item by item.
pub open spec fn json_views(s: Seq<Value>) -> Seq<JsonView> {
    Seq::new(s.len(), |i: int| json_view(s[i]))
}

/// The member of `j` under `key`: `Null` when `j` is no object or has no such key.
pub open spec fn json_member(j: JsonView, key: Seq<char>) -> JsonView {
    match j {
        JsonView::Object(m) => if m.dom().contains(key) {
            m[key]
        } else {
            JsonView::Null
        },
        _ => JsonView::Null,
    }
}

/// The item of `j` at `i`: `Null` when `j` is no array or is too short.
pub open spec fn json_item(j: JsonView, i: int) -> JsonView {
    match j {
        JsonView::Array(a) => if 0 <= i < a.len() {
            a[i]
        } else {
            JsonView::Null
        },
        _ => JsonView::Null,
    }
}

/// The integer of `j`, if it is one.
pub open spec fn json_int(j: JsonView) -> Option<i64> {
    match j {
        JsonView::Int(n) => Some(n),
        _ => None,
    }
}

/// The truth value of `j`, if it is one.
pub open spec fn json_truth(j: JsonView) -> Option<bool> {
    match j {
        JsonView::Bool(b) => Some(b),
        _ => None,
    }
}

/// `Index<&str>` of `serde_json::Value` (`v[key]`): the member under `key`
/// of an object that has that key, and a null value in every other case.
#[verifier::external_body]
pub(crate) fn json_get<'a>(v: &'a Value, key: &str) -> (r: &'a Value)
    ensures
        json_view(*r) == json_member(json_view(*v), key@),
{
    &v[key]
}

/// `Index<usize>` of `serde_json::Value` (`v[i]`): the item at `i` of an
/// array that is long enough, and a null value in every other case.
#[verifier::external_body]
pub(crate) fn json_at<'a>(v: &'a Value, i: usize) -> (r: &'a Value)
    ensures
        json_view(*r) == json_item(json_view(*v), i as int),
{
    &v[i]
}

/// `Value::as_i64`: the integer of a number that fits `i64`, else `None`.
#[verifier::external_body]
pub(crate) fn json_i64(v: &Value) -> (r: Option<i64>)
    ensures
        r == json_int(json_view(*v)),
{
    v.as_i64()
}

/// `Value::as_str`: the text of a string, else `None`.
#[verifier::external_body]
pub(crate) fn json_str<'a>(v: &'a Value) -> (r: Option<&'a str>)
    ensures
        r is Some == json_view(*v) is Str,
        r matches Some(s) ==> json_view(*v) == JsonView::Str(s@),
{
    v.as_str()
}

/// `Value::as_bool`: the truth value of a boolean, else `None`.
#[verifier::external_body]
pub(crate) fn json_bool(v: &Value) -> (r: Option<bool>)
    ensures
        r == json_truth(json_view(*v)),
{
    v.as_bool()
}

/// `Value::as_array`: the items of an array, else `None`.
#[verifier::external_body]
pub(crate) fn json_array<'a>(v: &'a Value) -> (r: Option<&'a Vec<Value>>)
    ensures
        r is Some == json_view(*v) is Array,
        r matches Some(a) ==> a@ == json_items(*v) && json_view(*v) == JsonView::Array(
            json_views(a@),
        ),
{
    v.as_array()
}

/// `Value::is_null`.
#[verifier::external_body]
pub(crate) fn json_is_null(v: &Value) -> (r: bool)
    ensures
        r == (json_view(*v) is Null),
{
    v.is_null()
}

/// `Value::is_object`.
#[verifier::external_body]
pub(crate) fn json_is_object(v: &Value) -> (r: bool)
    ensures
        r == (json_view(*v) is Object),
{
    v.is_object()
}

/// `Clone` of `serde_json::Value`: a value with the same content.
#[verifier::external_body]
pub(crate) fn json_clone(v: &Value) -> (r: Value)
    ensures
        json_view(r) == json_view(*v),
        json_items(r) == json_items(*v),
{
    v.clone()
}

/// `From<i64>` of `serde_json::Value`: the number `n`.
#[verifier::external_body]
pub(crate) fn json_from_i64(n: i64) -> (r: Value)
    ensures
        json_view(r) == JsonView::Int(n),
{
    Value::from(n)
}

/// `From<usize>` of `serde_json::Value`: the number `n`, which reads back
/// as an integer where it fits `i64`.
#[verifier::external_body]
pub(crate) fn json_from_usize(n: usize) -> (r: Value)
    ensures
        json_view(r) == (if n <= i64::MAX {
            JsonView::Int(n as i64)
        } else {
            JsonView::Number
        }),
{
    Value::from(n)
}

/// `From<String>` of `serde_json::Value`: the string `s`.
#[verifier::external_body]
pub(crate) fn json_from_string(s: String) -> (r: Value)
    ensures
        json_view(r) == JsonView::Str(s@),
{
    Value::from(s)
}

/// `Value::Array`: the array of the given items.
#[verifier::external_body]
pub(crate) fn json_from_vec(items: Vec<Value>) -> (r: Value)
    ensures
        json_view(r) == JsonView::Array(json_views(items@)),
        json_items(r) == items@,
{
    Value::Array(items)
}

} // verus!
