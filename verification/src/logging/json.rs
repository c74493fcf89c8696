//! JSON documents as mathematical values, and what is assumed of `serde_json`.
//!
//! Verified code never looks inside a `serde_json::Value` or a
//! `serde_json::Map`. It speaks of the document that one holds, [`value_model`]
//! and [`object_entries`], and every fact about those two comes from the
//! contract of one of the functions below, each of which makes one call into
//! `serde_json`. The crate is built with `preserve_order`, so an object keeps
//! its members in the order in which their keys first arrived.

use vstd::prelude::*;

verus! {

/// `serde_json::Value`, carried through verified code as an opaque value.
#[verifier::external_type_specification]
#[verifier::external_body]
pub struct ExValue(serde_json::Value);

/// `serde_json::Map`, carried through verified code as an opaque value.
#[verifier::external_type_specification]
#[verifier::external_body]
#[verifier::reject_recursive_types(K)]
#[verifier::reject_recursive_types(V)]
pub struct ExMap<K, V>(serde_json::Map<K, V>);

/// `serde_json::Error`, carried through verified code as an opaque value.
#[verifier::external_type_specification]
#[verifier::external_body]
pub struct ExError(serde_json::Error);

/// A JSON object as `serde_json` holds it.
pub type JsonMap = serde_json::Map<String, serde_json::Value>;

/// A JSON number.
pub enum JsonNumber {
    /// An integer of either sign.
    Integer(int),
    /// A finite binary64 number, by its bit pattern.
    Binary64(u64),
}

/// A JSON document.
pub enum Json {
    Null,
    Boolean(bool),
    Number(JsonNumber),
    Text(Seq<char>),
    Array(Seq<Json>),
    /// The members in their order; no key occurs twice.
    Object(Seq<(Seq<char>, Json)>),
}

/// The members of an object, in order.
pub type Members = Seq<(Seq<char>, Json)>;

/// Some member of `members` has the key `key`.
pub open spec fn has_key(members: Members, key: Seq<char>) -> bool {
    exists|i: int| 0 <= i < members.len() && (#[trigger] members[i]).0 == key
}

/// Where the member with the key `key` stands, if there is one.
pub open spec fn position(members: Members, key: Seq<char>) -> int {
    choose|i: int| 0 <= i < members.len() && (#[trigger] members[i]).0 == key
}

/// The value under `key`, if there is one.
pub open spec fn value_at(members: Members, key: Seq<char>) -> Json {
    members[position(members, key)].1
}

/// No key occurs twice.
pub open spec fn distinct_keys(members: Members) -> bool {
    forall|i: int, j: int|
        0 <= i < j < members.len() ==> (#[trigger] members[i]).0 != (#[trigger] members[j]).0
}

/// `members` after `value` was stored under `key`: in place where the key is
/// there already, at the end where it is new.
pub open spec fn put(members: Members, key: Seq<char>, value: Json) -> Members {
    if has_key(members, key) {
        members.update(position(members, key), (key, value))
    } else {
        members.push((key, value))
    }
}

/// Storing a value under a key that is not there adds it at the end.
pub proof fn lemma_put_new(members: Members, key: Seq<char>, value: Json)
    requires
        forall|i: int| 0 <= i < members.len() ==> (#[trigger] members[i]).0 != key,
    ensures
        put(members, key, value) == members.push((key, value)),
{
}

/// Every object in `doc`, at any depth, has distinct keys.
pub open spec fn well_formed(doc: Json) -> bool
    decreases doc,
{
    match doc {
        Json::Array(items) => forall|i: int|
            0 <= i < items.len() ==> well_formed(#[trigger] items[i]),
        Json::Object(members) => distinct_keys(members) && forall|i: int|
            0 <= i < members.len() ==> well_formed((#[trigger] members[i]).1),
        _ => true,
    }
}

/// No null occurs in `doc`, at any depth.
pub open spec fn null_free(doc: Json) -> bool
    decreases doc,
{
    match doc {
        Json::Null => false,
        Json::Array(items) => forall|i: int| 0 <= i < items.len() ==> null_free(#[trigger] items[i]),
        Json::Object(members) => forall|i: int|
            0 <= i < members.len() ==> null_free((#[trigger] members[i]).1),
        _ => true,
    }
}

/// The document that a `serde_json::Value` holds.
pub uninterp spec fn value_model(v: serde_json::Value) -> Json;

/// The members that a `serde_json::Map` holds, in the order in which it
/// iterates.
pub uninterp spec fn object_entries(m: serde_json::Map<String, serde_json::Value>) -> Seq<(Seq<char>, Json)>;

/// The compact JSON text of an object with the members `members`; `None`
/// where `serde_json` does not write the object.
pub uninterp spec fn json_text(members: Seq<(Seq<char>, Json)>) -> Option<Seq<char>>;

/// `serde_json::Map::new`: the map it returns holds no member.
#[verifier::external_body]
pub(crate) fn new_map() -> (m: JsonMap)
    ensures
        object_entries(m) == Members::empty(),
{
    serde_json::Map::new()
}

/// `From<String>` for `serde_json::Value`: the JSON string with the
/// characters of `text`.
#[verifier::external_body]
pub(crate) fn text_value(text: String) -> (v: serde_json::Value)
    ensures
        value_model(v) == Json::Text(text@),
{
    serde_json::Value::from(text)
}

/// `From<u32>` for `serde_json::Value`: the JSON number `n`.
#[verifier::external_body]
pub(crate) fn number_value(n: u32) -> (v: serde_json::Value)
    ensures
        value_model(v) == Json::Number(JsonNumber::Integer(n as int)),
{
    serde_json::Value::from(n)
}

/// `From<serde_json::Map>` for `serde_json::Value`: the JSON object with the
/// members of `m`.
#[verifier::external_body]
pub(crate) fn object_value(m: JsonMap) -> (v: serde_json::Value)
    ensures
        value_model(v) == Json::Object(object_entries(m)),
{
    serde_json::Value::from(m)
}

/// One member of a map, borrowed from it.
#[derive(Clone, Copy)]
pub struct MemberRef<'a> {
    pub key: &'a String,
    pub value: &'a serde_json::Value,
}

/// `serde_json::Map::iter`, collected: the members in the map's order, each
/// key once.
#[verifier::external_body]
pub(crate) fn members<'a>(m: &'a JsonMap) -> (r: Vec<MemberRef<'a>>)
    ensures
        r@.len() == object_entries(*m).len(),
        forall|i: int|
            0 <= i < r@.len() ==> (#[trigger] object_entries(*m)[i]).0 == r@[i].key@
                && object_entries(*m)[i].1 == value_model(*r@[i].value),
        forall|i: int, j: int|
            0 <= i < j < r@.len() ==> (#[trigger] r@[i]).key@ != (#[trigger] r@[j]).key@,
{
    m.iter().map(|(key, value)| MemberRef { key, value }).collect()
}

/// `serde_json::to_string` on a map: the compact JSON text of the object, or
/// the error of the serializer. Which of the two, and what text, depends on
/// the members alone. No line feed occurs in the text: the compact form has
/// no white space between tokens, and a line feed inside a string is written
/// as an escape.
#[verifier::external_body]
pub(crate) fn to_json_text(m: &JsonMap) -> (r: Result<String, serde_json::Error>)
    ensures
        match r {
            Ok(text) => json_text(object_entries(*m)) == Some(text@),
            Err(_) => json_text(object_entries(*m)) is None,
        },
        r matches Ok(text) ==> !text@.contains('\n'),
{
    serde_json::to_string(m)
}

/// `serde_json::Map::get_mut`: the value stored under `key`, if any. Whatever
/// the caller leaves in it is what the map then holds under that key, in the
/// same place; nothing else in the map changes.
#[verifier::external_body]
pub(crate) fn get_mut<'a>(m: &'a mut JsonMap, key: &str) -> (r: Option<&'a mut serde_json::Value>)
    ensures
        r is Some <==> has_key(object_entries(*old(m)), key@),
        r is Some ==> distinct_keys(object_entries(*old(m))) && value_model(*r.unwrap())
            == value_at(object_entries(*old(m)), key@) && object_entries(*final(m))
            == object_entries(*old(m)).update(
            position(object_entries(*old(m)), key@),
            (key@, value_model(*final(r.unwrap()))),
        ),
        r is None ==> object_entries(*final(m)) == object_entries(*old(m)),
{
    m.get_mut(key)
}

/// `serde_json::Map::insert`: `value` replaces what was stored under `key`,
/// in place, or becomes the last member where the key is new.
#[verifier::external_body]
pub(crate) fn insert(m: &mut JsonMap, key: String, value: serde_json::Value)
    ensures
        object_entries(*final(m)) == put(object_entries(*old(m)), key@, value_model(value)),
{
    m.insert(key, value);
}

/// `serde_json::Value::as_object`: the map inside an object, `None` for any
/// other value.
#[verifier::external_body]
pub(crate) fn as_object<'a>(v: &'a serde_json::Value) -> (r: Option<&'a JsonMap>)
    ensures
        r is Some <==> value_model(*v) is Object,
        r is Some ==> value_model(*v) == Json::Object(object_entries(*r.unwrap())),
{
    v.as_object()
}

/// `serde_json::Value::as_object_mut`: the map inside an object, `None` for
/// any other value. The value stays an object, with whatever members the
/// caller leaves in the map.
#[verifier::external_body]
pub(crate) fn as_object_mut<'a>(v: &'a mut serde_json::Value) -> (r: Option<&'a mut JsonMap>)
    ensures
        r is Some <==> value_model(*old(v)) is Object,
        r is Some ==> value_model(*old(v)) == Json::Object(object_entries(*r.unwrap()))
            && value_model(*final(v)) == Json::Object(object_entries(*final(r.unwrap()))),
        r is None ==> value_model(*final(v)) == value_model(*old(v)),
{
    v.as_object_mut()
}

/// Takes the map out of a `serde_json::Value::Object`; any other value gives
/// `None`.
#[verifier::external_body]
pub(crate) fn into_object(v: serde_json::Value) -> (r: Option<JsonMap>)
    ensures
        r is Some <==> value_model(v) is Object,
        r is Some ==> value_model(v) == Json::Object(object_entries(r.unwrap())),
{
    match v {
        serde_json::Value::Object(m) => Some(m),
        _ => None,
    }
}

/// `Clone` for `serde_json::Value`: the copy holds the same document.
pub assume_specification[ <serde_json::Value as Clone>::clone ](v: &serde_json::Value) -> (r:
    serde_json::Value)
    ensures
        value_model(r) == value_model(*v),
;

} // verus!
