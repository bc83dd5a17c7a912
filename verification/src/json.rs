//! JSON documents: `serde_json::Value` carried as it is, read through a model.

use serde_json::Value;
use vstd::prelude::*;

verus! {

/// `serde_json::Value`: a JSON value.  Nothing is known of one but what
/// `json_model` says it holds.
#[verifier::external_type_specification]
#[verifier::external_body]
pub struct ExJsonValue(serde_json::Value);

/// `serde_json::Map`: the members of a JSON object.  Nothing is known of
/// one but what `json_members` says it holds.
#[verifier::external_type_specification]
#[verifier::external_body]
#[verifier::reject_recursive_types(K)]
#[verifier::reject_recursive_types(V)]
pub struct ExJsonMap<K, V>(serde_json::Map<K, V>);

/// The members of a JSON object while it is being built.
pub type JsonMembers = serde_json::Map<String, serde_json::Value>;

/// What a JSON value holds.
pub enum JsonModel {
    Null,
    Boolean(bool),
    /// A number, by the text that stands for it in a compact rendering.
    Number(Seq<char>),
    /// A string, by its characters.
    Text(Seq<char>),
    /// An array, by its items in order.
    Array(Seq<JsonModel>),
    /// An object, by its members under their keys.
    Object(Map<Seq<char>, JsonModel>),
}

impl JsonModel {
    /// The members of an object; no members for any other value.
    pub open spec fn members(self) -> Map<Seq<char>, JsonModel> {
        match self {
            JsonModel::Object(m) => m,
            _ => Map::empty(),
        }
    }
}

/// The members of an empty object.
pub open spec fn no_members() -> Map<Seq<char>, JsonModel> {
    Map::empty()
}

/// What `v` holds.
pub uninterp spec fn json_model(v: serde_json::Value) -> JsonModel;

/// The members that `m` holds.
pub uninterp spec fn json_members(m: JsonMembers) -> Map<Seq<char>, JsonModel>;

/// What `serde_json::from_str` reads from `text`, where it is JSON.
pub uninterp spec fn parsed_json(text: Seq<char>) -> Option<JsonModel>;

/// The compact rendering of a JSON value.
pub uninterp spec fn json_text(m: JsonModel) -> Seq<char>;

/// `Value::is_object`: true exactly for an object.
#[verifier::external_body]
pub(crate) fn is_object(v: &Value) -> (r: bool)
    ensures
        r == (json_model(*v) is Object),
{
    v.is_object()
}

/// `serde_json::from_str`, read as a `Value`, with the error dropped: the
/// value that the text stands for, or nothing where the text is not JSON.
#[verifier::external_body]
pub(crate) fn parse_json(text: &str) -> (r: Option<Value>)
    ensures
        match r {
            Some(v) => parsed_json(text@) == Some(json_model(v)),
            None => parsed_json(text@) is None,
        },
{
    serde_json::from_str::<Value>(text).ok()
}

/// `Value::String`: the JSON string with the characters of `s`.
#[verifier::external_body]
pub(crate) fn json_string(s: String) -> (r: Value)
    ensures
        json_model(r) == JsonModel::Text(s@),
{
    Value::String(s)
}

/// `Value::from` for an `i64`: the JSON number that is written as the
/// decimal text of `n`.
#[verifier::external_body]
pub(crate) fn json_integer(n: i64) -> (r: Value)
    ensures
        json_model(r) == JsonModel::Number(crate::text::int_text(n as int)),
{
    Value::from(n)
}

/// `serde_json::Map::new`: a map without members.
#[verifier::external_body]
pub(crate) fn new_members() -> (r: JsonMembers)
    ensures
        json_members(r) == no_members(),
{
    serde_json::Map::new()
}

/// `serde_json::Map::insert`: the member under `key` becomes `member`,
/// whether or not the key was present; the other members stay.
#[verifier::external_body]
pub(crate) fn insert_member(members: &mut JsonMembers, key: String, member: Value)
    ensures
        json_members(*final(members)) == json_members(*old(members)).insert(
            key@,
            json_model(member),
        ),
{
    members.insert(key, member);
}

/// `Value::Object`: the object with the members of `members`.
#[verifier::external_body]
pub(crate) fn json_object(members: JsonMembers) -> (r: Value)
    ensures
        json_model(r) == JsonModel::Object(json_members(members)),
{
    Value::Object(members)
}

/// `Value::get` with a string index: the member of an object under `key`;
/// nothing where `v` is no object or has no such member.
#[verifier::external_body]
pub(crate) fn member<'a>(v: &'a Value, key: &str) -> (r: Option<&'a Value>)
    ensures
        match r {
            Some(found) => json_model(*v).members().contains_key(key@) && json_model(*found)
                == json_model(*v).members()[key@],
            None => !json_model(*v).members().contains_key(key@),
        },
{
    v.get(key)
}

/// `Value::as_object` and `Map::keys`: the keys of an object; no keys for
/// any other value.
#[verifier::external_body]
pub(crate) fn member_names(v: &Value) -> (r: Vec<String>)
    ensures
        forall|k: Seq<char>| #[trigger]
            json_model(*v).members().contains_key(k) <==> exists|i: int|
                0 <= i < r@.len() && #[trigger] r@[i]@ == k,
{
    match v.as_object() {
        Some(members) => members.keys().cloned().collect(),
        None => Vec::new(),
    }
}

/// `Value::to_string`: the compact rendering.  The members of an object
/// come in the order of their keys, so that the text follows from what the
/// value holds.
#[verifier::external_body]
pub(crate) fn render(v: &Value) -> (r: String)
    ensures
        r@ == json_text(json_model(*v)),
{
    v.to_string()
}

/// `Value::clone`: a value that holds the same.
#[verifier::external_body]
pub(crate) fn clone_value(v: &Value) -> (r: Value)
    ensures
        json_model(r) == json_model(*v),
{
    v.clone()
}

} // verus!
