//! The structural filter of a log query: how query parameters become a
//! containment predicate, and what the predicate admits.

use crate::json::{
    insert_member, json_members, json_model, json_object, json_string, json_text, member,
    member_names, new_members, no_members, parse_json, parsed_json, render, JsonModel,
};
use serde_json::Value;
use vstd::prelude::*;
use vstd::string::*;

verus! {

/// The value that a parameter stands for: what it reads as where it is
/// JSON, and else the text itself as a JSON string.
pub open spec fn decoded(text: Seq<char>) -> JsonModel {
    match parsed_json(text) {
        Some(m) => m,
        None => JsonModel::Text(text),
    }
}

/// The members of the filter for the given parameters.  Where a key occurs
/// twice, the later parameter stands.
pub open spec fn filter_members(params: Seq<(Seq<char>, Seq<char>)>) -> Map<Seq<char>, JsonModel>
    decreases params.len(),
{
    if params.len() == 0 {
        no_members()
    } else {
        filter_members(params.drop_last()).insert(params.last().0, decoded(params.last().1))
    }
}

/// The filter for the given parameters: none for no parameters, else the
/// object with one member for each key.
pub open spec fn filter_for(params: Seq<(Seq<char>, Seq<char>)>) -> Option<JsonModel> {
    if params.len() == 0 {
        None
    } else {
        Some(JsonModel::Object(filter_members(params)))
    }
}

/// The views of a list of parameters.
pub open spec fn param_views(params: Seq<(String, String)>) -> Seq<(Seq<char>, Seq<char>)> {
    params.map_values(|p: (String, String)| (p.0@, p.1@))
}

/// The model of an optional value.
pub open spec fn option_model(v: Option<Value>) -> Option<JsonModel> {
    match v {
        Some(v) => Some(json_model(v)),
        None => None,
    }
}

/// The value of a parameter, given what the JSON reader made of its text:
/// that, or else the text as a JSON string.
pub fn decoded_or_text(parsed: Option<Value>, text: String) -> (r: Value)
    ensures
        json_model(r) == (match parsed {
            Some(v) => json_model(v),
            None => JsonModel::Text(text@),
        }),
{
    match parsed {
        Some(v) => v,
        None => json_string(text),
    }
}

/// Reads a parameter as JSON where it is JSON, so that `5` is a number and
/// `true` a boolean, and keeps it as a string where it is not.
pub fn decode_param(text: String) -> (r: Value)
    ensures
        json_model(r) == decoded(text@),
{
    let parsed = parse_json(text.as_str());
    decoded_or_text(parsed, text)
}

/// Translates query parameters into a containment filter.  No parameters
/// give no filter, which admits every log.
pub fn translate_filter(params: Vec<(String, String)>) -> (r: Option<Value>)
    ensures
        option_model(r) == filter_for(param_views(params@)),
{
    if params.len() == 0 {
        return None;
    }
    let ghost all = param_views(params@);
    let mut members = new_members();
    let mut i: usize = 0;
    while i < params.len()
        invariant
            i <= params.len(),
            all == param_views(params@),
            json_members(members) == filter_members(all.take(i as int)),
        decreases params.len() - i,
    {
        let key = params[i].0.clone();
        let value = decode_param(params[i].1.clone());
        proof {
            let t = all.take(i + 1);
            assert(t.drop_last() =~= all.take(i as int));
            assert(t.last() == (params@[i as int].0@, params@[i as int].1@));
        }
        insert_member(&mut members, key, value);
        i += 1;
    }
    proof {
        assert(all.take(params.len() as int) =~= all);
    }
    Some(json_object(members))
}

/// Whether `data` holds every member of `filter`, each with a value that
/// renders to the same text.
pub open spec fn holds_all(data: JsonModel, filter: JsonModel) -> bool {
    forall|k: Seq<char>| #[trigger]
        filter.members().contains_key(k) ==> data.members().contains_key(k) && json_text(
            data.members()[k],
        ) == json_text(filter.members()[k])
}

/// Whether a log with this data passes the filter.  Only an object
/// filters; no filter, or any other value, admits every log.
pub open spec fn admits(filter: Option<JsonModel>, data: JsonModel) -> bool {
    match filter {
        Some(f) => f is Object ==> holds_all(data, f),
        None => true,
    }
}

/// Whether `data` holds every member of `filter` with an equal value.
pub fn contains_all(data: &Value, filter: &Value) -> (r: bool)
    ensures
        r == holds_all(json_model(*data), json_model(*filter)),
{
    let names = member_names(filter);
    let ghost d = json_model(*data).members();
    let ghost f = json_model(*filter).members();
    let mut i: usize = 0;
    while i < names.len()
        invariant
            i <= names.len(),
            d == json_model(*data).members(),
            f == json_model(*filter).members(),
            forall|k: Seq<char>| #[trigger]
                f.contains_key(k) <==> exists|j: int|
                    0 <= j < names@.len() && #[trigger] names@[j]@ == k,
            forall|j: int|
                0 <= j < i ==> d.contains_key(#[trigger] names@[j]@) && json_text(d[names@[j]@])
                    == json_text(f[names@[j]@]),
        decreases names.len() - i,
    {
        let name = names[i].as_str();
        assert(f.contains_key(names@[i as int]@));
        let wanted = member(filter, name);
        let have = member(data, name);
        match (wanted, have) {
            (Some(w), Some(h)) => {
                let same = render(w) == render(h);
                if !same {
                    return false;
                }
            },
            _ => {
                return false;
            },
        }
        i += 1;
    }
    proof {
        assert forall|k: Seq<char>| #[trigger] f.contains_key(k) implies d.contains_key(k)
            && json_text(d[k]) == json_text(f[k]) by {
            let j = choose|j: int| 0 <= j < names@.len() && #[trigger] names@[j]@ == k;
            assert(d.contains_key(names@[j]@));
        }
    }
    true
}

/// The filter that a store applies: the given one where it is an object,
/// and none otherwise.
pub fn structural(filter: Option<Value>) -> (r: Option<Value>)
    ensures
        match filter {
            Some(f) => if json_model(f) is Object {
                option_model(r) == Some(json_model(f))
            } else {
                r is None
            },
            None => r is None,
        },
        forall|data: JsonModel| admits(option_model(r), data) == admits(option_model(filter), data),
{
    match filter {
        Some(f) => {
            if crate::json::is_object(&f) {
                Some(f)
            } else {
                None
            }
        },
        None => None,
    }
}

/// Whether a log with this data passes the optional filter.
pub fn passes_filter(filter: &Option<Value>, data: &Value) -> (r: bool)
    ensures
        r == admits(option_model(*filter), json_model(*data)),
{
    match filter {
        Some(f) => {
            if crate::json::is_object(f) {
                contains_all(data, f)
            } else {
                true
            }
        },
        None => true,
    }
}

} // verus!
