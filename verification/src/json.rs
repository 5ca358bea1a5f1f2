//! JSON documents: what a `serde_json` value holds, and how one is made.

use crate::double::nearest_double;
use crate::text::three_decimals;
use vstd::prelude::*;

verus! {

/// What a JSON value holds.
pub enum Json {
    Null,
    Bool(bool),
    /// A non-negative integer.
    Integer(u64),
    /// A floating-point number, by the bit pattern of the double.
    Double(u64),
    Text(Seq<char>),
    Array(Seq<Json>),
    Object(Map<Seq<char>, Json>),
}

/// The members of a JSON object.
pub type Members = Map<Seq<char>, Json>;

/// `serde_json::Value`, any JSON value.
#[verifier::external_type_specification]
#[verifier::external_body]
pub struct ExValue(serde_json::Value);

/// `serde_json::Map`, the members of a JSON object under their keys.
#[verifier::external_type_specification]
#[verifier::external_body]
#[verifier::reject_recursive_types(K)]
#[verifier::reject_recursive_types(V)]
pub struct ExMembers<K, V>(serde_json::Map<K, V>);

/// What a `serde_json::Value` holds.
pub uninterp spec fn content(v: serde_json::Value) -> Json;

/// What a `serde_json::Map` holds.
pub uninterp spec fn members(m: serde_json::Map<String, serde_json::Value>) -> Map<Seq<char>, Json>;

/// The compact JSON text of a value, as `serde_json` writes it.
pub uninterp spec fn json_text(v: Json) -> Seq<char>;

/// `serde_json::Map::new` makes a map without members.
#[verifier::external_body]
pub(crate) fn no_members() -> (r: serde_json::Map<String, serde_json::Value>)
    ensures
        members(r) == Members::empty(),
{
    serde_json::Map::new()
}

/// `serde_json::Map::insert` sets the member under `key`, whether or not there was one.
#[verifier::external_body]
pub(crate) fn put(m: &mut serde_json::Map<String, serde_json::Value>, key: &str, v: serde_json::Value)
    ensures
        members(*final(m)) == members(*old(m)).insert(key@, content(v)),
{
    m.insert(key.to_owned(), v);
}

/// `Value::from` a `&str` is the JSON string of the same characters.
#[verifier::external_body]
pub(crate) fn string(s: &str) -> (r: serde_json::Value)
    ensures
        content(r) == Json::Text(s@),
{
    serde_json::Value::from(s)
}

/// `Value::from` a map is the JSON object with its members.
#[verifier::external_body]
pub(crate) fn object(m: serde_json::Map<String, serde_json::Value>) -> (r: serde_json::Value)
    ensures
        content(r) == Json::Object(members(m)),
{
    serde_json::Value::from(m)
}

/// `Value::from` a `u64` is the JSON integer.
#[verifier::external_body]
pub(crate) fn integer(n: u64) -> (r: serde_json::Value)
    ensures
        content(r) == Json::Integer(n),
{
    serde_json::Value::from(n)
}

/// `Value::from` a `bool` is the JSON `true` or `false`.
#[verifier::external_body]
pub(crate) fn boolean(b: bool) -> (r: serde_json::Value)
    ensures
        content(r) == Json::Bool(b),
{
    serde_json::Value::from(b)
}

/// `Value::from` the unit value is the JSON `null`.
#[verifier::external_body]
pub(crate) fn null() -> (r: serde_json::Value)
    ensures
        content(r) == Json::Null,
{
    serde_json::Value::from(())
}

/// What the values of a list hold.
pub open spec fn contents(list: Seq<serde_json::Value>) -> Seq<Json> {
    list.map_values(|v: serde_json::Value| content(v))
}

/// `Value::from` a vector is the JSON array of its items, in their order.
#[verifier::external_body]
pub(crate) fn array(items: Vec<serde_json::Value>) -> (r: serde_json::Value)
    ensures
        content(r) == Json::Array(contents(items@)),
{
    serde_json::Value::from(items)
}

/// `Value::clone` makes a value that holds the same.
#[verifier::external_body]
pub(crate) fn duplicate(v: &serde_json::Value) -> (r: serde_json::Value)
    ensures
        content(r) == content(*v),
{
    v.clone()
}

/// `Value::to_string` writes the compact JSON text. Members stand in the order of
/// their keys, so the text depends on what the value holds and on nothing else.
#[verifier::external_body]
pub(crate) fn render(v: &serde_json::Value) -> (r: String)
    ensures
        r@ == json_text(content(*v)),
{
    v.to_string()
}

/// A decimal number with three decimals, of which the part before the point fits in
/// 128 bits.
pub open spec fn short_decimal(text: Seq<char>) -> bool {
    exists|negative: bool, thousandths: nat|
        thousandths / 1000 <= u128::MAX && text == #[trigger] three_decimals(negative, thousandths)
}

/// `serde_json::from_str`, built with `float_roundtrip`, reads such a number as the double
/// with its sign that is nearest to it, and of two that are as near as the even one. The
/// number is far below the largest double, so the call succeeds.
#[verifier::external_body]
pub(crate) fn parse_decimal(text: &str) -> (r: serde_json::Value)
    requires
        short_decimal(text@),
    ensures
        (forall|negative: bool, thousandths: nat|
            text@ == #[trigger] three_decimals(negative, thousandths) ==> content(r) == Json::Double(
                nearest_double(negative, thousandths),
            )),
{
    serde_json::from_str(text).unwrap()
}

} // verus!
