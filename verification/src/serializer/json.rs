//! JSON values as trees, in which the members of an object keep their
//! order.

use vstd::prelude::*;

verus! {

/// A JSON value. A number is an integer; an object is a list of members.
#[derive(Debug, PartialEq)]
pub enum Json {
    Null,
    Bool(bool),
    Number(i128),
    String(String),
    Array(Vec<Json>),
    Object(Vec<(String, Json)>),
}

pub enum JsonModel {
    Null,
    Bool(bool),
    Number(int),
    String(Seq<char>),
    Array(Seq<JsonModel>),
    Object(Seq<(Seq<char>, JsonModel)>),
}

pub type Members = Seq<(Seq<char>, JsonModel)>;

pub open spec fn json_model(j: Json) -> JsonModel
    decreases j,
{
    match j {
        Json::Null => JsonModel::Null,
        Json::Bool(b) => JsonModel::Bool(b),
        Json::Number(n) => JsonModel::Number(n as int),
        Json::String(s) => JsonModel::String(s@),
        Json::Array(items) => JsonModel::Array(
            Seq::new(
                items@.len(),
                |i: int|
                    if 0 <= i < items@.len() {
                        json_model(items@[i])
                    } else {
                        arbitrary()
                    },
            ),
        ),
        Json::Object(members) => JsonModel::Object(
            Seq::new(
                members@.len(),
                |i: int|
                    if 0 <= i < members@.len() {
                        (members@[i].0@, json_model(members@[i].1))
                    } else {
                        arbitrary()
                    },
            ),
        ),
    }
}

impl View for Json {
    type V = JsonModel;

    open spec fn view(&self) -> JsonModel {
        json_model(*self)
    }
}

/// The models of a list of values.
pub open spec fn items_view(items: Seq<Json>) -> Seq<JsonModel> {
    Seq::new(items.len(), |i: int| items[i]@)
}

/// The models of a list of members.
pub open spec fn members_view(members: Seq<(String, Json)>) -> Members {
    Seq::new(members.len(), |i: int| (members[i].0@, members[i].1@))
}

/// The view of a value, written over the views of its children.
pub proof fn lemma_json_view(j: &Json)
    ensures
        j@ == match *j {
            Json::Null => JsonModel::Null,
            Json::Bool(b) => JsonModel::Bool(b),
            Json::Number(n) => JsonModel::Number(n as int),
            Json::String(s) => JsonModel::String(s@),
            Json::Array(items) => JsonModel::Array(items_view(items@)),
            Json::Object(members) => JsonModel::Object(members_view(members@)),
        },
{
    match *j {
        Json::Array(items) => {
            assert(j@->Array_0 =~= items_view(items@));
        },
        Json::Object(members) => {
            assert(j@->Object_0 =~= members_view(members@));
        },
        _ => {},
    }
}

/// The index of the first member named `key` from `from` on.
pub open spec fn key_index(members: Members, key: Seq<char>, from: nat) -> Option<nat>
    decreases members.len() - from,
{
    if from >= members.len() {
        None
    } else if members[from as int].0 == key {
        Some(from)
    } else {
        key_index(members, key, from + 1)
    }
}

/// The index of the first member named `key`.
pub open spec fn member_index(members: Members, key: Seq<char>) -> Option<nat> {
    key_index(members, key, 0)
}

/// The index of a member is inside the list.
pub proof fn lemma_key_index(members: Members, key: Seq<char>, from: nat)
    ensures
        key_index(members, key, from) matches Some(i) ==> from <= i < members.len() && members[i as int].0
            == key,
    decreases members.len() - from,
{
    if from < members.len() && members[from as int].0 != key {
        lemma_key_index(members, key, from + 1);
    }
}

/// The value of the first member named `key`.
pub open spec fn member(members: Members, key: Seq<char>) -> Option<JsonModel> {
    match member_index(members, key) {
        Some(i) => if i < members.len() {
            Some(members[i as int].1)
        } else {
            None
        },
        None => None,
    }
}

/// The string of the first member named `key`, where it is a string.
pub open spec fn member_string(members: Members, key: Seq<char>) -> Option<Seq<char>> {
    match member(members, key) {
        Some(JsonModel::String(s)) => Some(s),
        _ => None,
    }
}

/// The number of the first member named `key`, where it is a number.
pub open spec fn member_number(members: Members, key: Seq<char>) -> Option<int> {
    match member(members, key) {
        Some(JsonModel::Number(n)) => Some(n),
        _ => None,
    }
}

/// The members of an object that starts with its tag.
pub open spec fn tagged(tag: Seq<char>) -> Members {
    seq![("type"@, JsonModel::String(tag))]
}

/// The index of the first member named `key`.
pub fn find_member(members: &Vec<(String, Json)>, key: &str) -> (r: Option<usize>)
    ensures
        match r {
            Some(i) => member_index(members_view(members@), key@) == Some(i as nat) && i
                < members@.len(),
            None => member_index(members_view(members@), key@) is None,
        },
{
    let name = String::from_str(key);
    let mut i: usize = 0;
    while i < members.len()
        invariant
            i <= members@.len(),
            name@ == key@,
            member_index(members_view(members@), key@) == key_index(
                members_view(members@),
                key@,
                i as nat,
            ),
        decreases members@.len() - i,
    {
        if members[i].0 == name {
            return Some(i);
        }
        i = i + 1;
    }
    None
}

/// The string of the first member named `key`, where it is a string.
pub fn find_string(members: &Vec<(String, Json)>, key: &str) -> (r: Option<String>)
    ensures
        match r {
            Some(s) => member_string(members_view(members@), key@) == Some(s@),
            None => member_string(members_view(members@), key@) is None,
        },
{
    match find_member(members, key) {
        Some(i) => {
            proof {
                lemma_json_view(&members@[i as int].1);
            }
            match &members[i].1 {
                Json::String(s) => Some(s.clone()),
                _ => None,
            }
        },
        None => None,
    }
}

/// The number of the first member named `key`, where it is a number.
pub fn find_number(members: &Vec<(String, Json)>, key: &str) -> (r: Option<i128>)
    ensures
        match r {
            Some(n) => member_number(members_view(members@), key@) == Some(n as int),
            None => member_number(members_view(members@), key@) is None,
        },
{
    match find_member(members, key) {
        Some(i) => {
            proof {
                lemma_json_view(&members@[i as int].1);
            }
            match &members[i].1 {
                Json::Number(n) => Some(*n),
                _ => None,
            }
        },
        None => None,
    }
}

/// The members of an object that starts with its tag.
pub fn start(tag: &str) -> (members: Vec<(String, Json)>)
    ensures
        members_view(members@) == tagged(tag@),
{
    let mut members: Vec<(String, Json)> = Vec::new();
    let value = Json::String(String::from_str(tag));
    proof {
        lemma_json_view(&value);
    }
    members.push((String::from_str("type"), value));
    assert(members_view(members@) =~= tagged(tag@));
    members
}

/// Adds a member at the end.
pub fn put(members: &mut Vec<(String, Json)>, key: &str, value: Json)
    ensures
        members_view(final(members)@) == members_view(old(members)@).push((key@, value@)),
{
    let ghost before = members_view(members@);
    let ghost vm = value@;
    members.push((String::from_str(key), value));
    assert(members_view(members@) =~= before.push((key@, vm)));
}

/// A string value.
pub fn string(s: &String) -> (j: Json)
    ensures
        j@ == JsonModel::String(s@),
{
    let j = Json::String(s.clone());
    proof {
        lemma_json_view(&j);
    }
    j
}

/// An object of the given members.
pub fn object(members: Vec<(String, Json)>) -> (j: Json)
    ensures
        j@ == JsonModel::Object(members_view(members@)),
{
    let j = Json::Object(members);
    proof {
        lemma_json_view(&j);
    }
    j
}

/// An array of the given values.
pub fn array(items: Vec<Json>) -> (j: Json)
    ensures
        j@ == JsonModel::Array(items_view(items@)),
{
    let j = Json::Array(items);
    proof {
        lemma_json_view(&j);
    }
    j
}

/// A number value.
pub fn number(n: i128) -> (j: Json)
    ensures
        j@ == JsonModel::Number(n as int),
{
    let j = Json::Number(n);
    proof {
        lemma_json_view(&j);
    }
    j
}

} // verus!
