//! JSON values, as far as the app looks into them.
use vstd::prelude::*;

use crate::seqs;
use crate::text;

verus! {

/// A JSON value. Of a number, only that it is one is kept.
#[derive(Debug)]
pub enum Json {
    Null,
    Bool(bool),
    Number,
    Text(String),
    Array(Vec<Json>),
    Object(Vec<Member>),
}

/// A member of a JSON object.
#[derive(Debug)]
pub struct Member {
    pub name: String,
    pub value: Json,
}

/// The model of a JSON value.
#[verifier::ext_equal]
pub enum JsonModel {
    Null,
    Bool(bool),
    Number,
    Text(Seq<char>),
    Array(Seq<JsonModel>),
    Object(Seq<(Seq<char>, JsonModel)>),
}

/// The model of a JSON value.
pub open spec fn json_model(json: Json) -> JsonModel
    decreases json,
{
    match json {
        Json::Null => JsonModel::Null,
        Json::Bool(b) => JsonModel::Bool(b),
        Json::Number => JsonModel::Number,
        Json::Text(t) => JsonModel::Text(t@),
        Json::Array(items) => JsonModel::Array(
            Seq::new(
                items@.len(),
                |i: int|
                    if 0 <= i < items@.len() {
                        json_model(items@[i])
                    } else {
                        JsonModel::Null
                    },
            ),
        ),
        Json::Object(members) => JsonModel::Object(
            Seq::new(
                members@.len(),
                |i: int|
                    if 0 <= i < members@.len() {
                        (members@[i].name@, json_model(members@[i].value))
                    } else {
                        (Seq::empty(), JsonModel::Null)
                    },
            ),
        ),
    }
}

/// The test for a member that has a given name.
pub open spec fn has_name(name: Seq<char>) -> spec_fn((Seq<char>, JsonModel)) -> bool {
    |m: (Seq<char>, JsonModel)| m.0 == name
}

impl JsonModel {
    /// The value of the member of an object that has a given name.
    pub open spec fn member(self, name: Seq<char>) -> Option<JsonModel> {
        match self {
            JsonModel::Object(members) => {
                match seqs::first_where(members, has_name(name)) {
                    Some(i) => Some(members[i].1),
                    None => None,
                }
            },
            _ => None,
        }
    }

    /// The names of the members of an object, in order.
    pub open spec fn names(self) -> Option<Seq<Seq<char>>> {
        match self {
            JsonModel::Object(members) => Some(
                members.map_values(|m: (Seq<char>, JsonModel)| m.0),
            ),
            _ => None,
        }
    }

    /// The text that this is, if it is one.
    pub open spec fn text(self) -> Option<Seq<char>> {
        match self {
            JsonModel::Text(t) => Some(t),
            _ => None,
        }
    }
}

/// Whether the first member with a name stands at a place.
pub open spec fn is_member_at(
    members: Seq<(Seq<char>, JsonModel)>,
    name: Seq<char>,
    i: int,
) -> bool {
    &&& 0 <= i < members.len()
    &&& members[i].0 == name
    &&& forall|j: int| 0 <= j < i ==> (#[trigger] members[j]).0 != name
}

/// The member of an object with a name is the first that has it.
pub proof fn first_member_is_found(members: Seq<(Seq<char>, JsonModel)>, name: Seq<char>, i: int)
    requires
        is_member_at(members, name, i),
    ensures
        JsonModel::Object(members).member(name) == Some(members[i].1),
{
    seqs::first_is_found(members, has_name(name), i);
}

/// An object has no member with a name that none of its members has.
pub proof fn missing_member_is_not_found(members: Seq<(Seq<char>, JsonModel)>, name: Seq<char>)
    requires
        forall|j: int| 0 <= j < members.len() ==> (#[trigger] members[j]).0 != name,
    ensures
        JsonModel::Object(members).member(name) is None,
{
    seqs::first_is_found(members, has_name(name), members.len() as int);
}

impl Json {
    /// The value of the member of an object that has a given name.
    pub fn member(&self, name: &str) -> (found: Option<&Json>)
        ensures
            match found {
                Some(value) => json_model(*self).member(name@) == Some(json_model(*value)),
                None => json_model(*self).member(name@) is None,
            },
    {
        match self {
            Json::Object(members) => {
                let ghost all = json_model(*self)->Object_0;
                let ghost pred = has_name(name@);
                let mut i: usize = 0;
                while i < members.len()
                    invariant
                        i <= members@.len(),
                        *self == Json::Object(*members),
                        json_model(*self) == JsonModel::Object(all),
                        all.len() == members@.len(),
                        pred == has_name(name@),
                        forall|j: int| 0 <= j < i ==> !pred(#[trigger] all[j]),
                    decreases members@.len() - i,
                {
                    assert(all[i as int] == (
                        members@[i as int].name@,
                        json_model(members@[i as int].value),
                    ));
                    if text::same_text(members[i].name.as_str(), name) {
                        proof {
                            seqs::first_is_found(all, pred, i as int);
                        }
                        return Some(&members[i].value);
                    }
                    i = i + 1;
                }
                proof {
                    seqs::first_is_found(all, pred, i as int);
                }
                None
            },
            _ => None,
        }
    }

    /// Whether this is an object.
    pub fn is_object(&self) -> (object: bool)
        ensures
            object == (json_model(*self) is Object),
    {
        matches!(self, Json::Object(_))
    }

    /// The names of the members of an object, in order.
    pub fn names(&self) -> (names: Option<Vec<String>>)
        ensures
            names.deep_view() == json_model(*self).names(),
    {
        match self {
            Json::Object(members) => {
                let ghost all = json_model(*self)->Object_0;
                let ghost first = |m: (Seq<char>, JsonModel)| m.0;
                let mut names: Vec<String> = Vec::new();
                let mut i: usize = 0;
                while i < members.len()
                    invariant
                        i <= members@.len(),
                        *self == Json::Object(*members),
                        json_model(*self) == JsonModel::Object(all),
                        all.len() == members@.len(),
                        names@.len() == i,
                        forall|j: int| 0 <= j < i ==> (#[trigger] names@[j])@ == all[j].0,
                    decreases members@.len() - i,
                {
                    assert(all[i as int].0 == members@[i as int].name@);
                    names.push(members[i].name.clone());
                    i = i + 1;
                }
                assert(names.deep_view() =~= all.map_values(first));
                Some(names)
            },
            _ => None,
        }
    }

    /// The text that this is, if it is one.
    pub fn as_str(&self) -> (text: Option<&str>)
        ensures
            text.deep_view() == json_model(*self).text(),
    {
        match self {
            Json::Text(t) => Some(t.as_str()),
            _ => None,
        }
    }
}

/// The value that a JSON document of bytes holds, as serde_json's `from_slice` reads it; none if
/// the bytes are no such document.
pub uninterp spec fn json_in_bytes(bytes: Seq<u8>) -> Option<JsonModel>;

/// The value that a JSON document holds, as serde_json's `from_str` reads it; none if the text
/// is no such document.
pub uninterp spec fn json_in_text(document: Seq<char>) -> Option<JsonModel>;

/// The model of a JSON value that may be missing.
pub open spec fn maybe_json_model(json: Option<Json>) -> Option<JsonModel> {
    match json {
        Some(j) => Some(json_model(j)),
        None => None,
    }
}

/// `serde_json::Value`, of which nothing is known here.
#[verifier::external_type_specification]
#[verifier::external_body]
pub struct ExValue(serde_json::Value);

/// Turns a value of serde_json into one of this library, kind by kind.
#[verifier::external_body]
fn converted(value: serde_json::Value) -> Json {
    match value {
        serde_json::Value::Null => Json::Null,
        serde_json::Value::Bool(b) => Json::Bool(b),
        serde_json::Value::Number(_) => Json::Number,
        serde_json::Value::String(text) => Json::Text(text),
        serde_json::Value::Array(items) => Json::Array(items.into_iter().map(converted).collect()),
        serde_json::Value::Object(members) => Json::Object(
            members.into_iter().map(
                |(name, value)| Member { name, value: converted(value) },
            ).collect(),
        ),
    }
}

/// Calls serde_json's `from_slice`.
///
/// The contract names the value that is read, and claims of it only that it comes from the
/// bytes alone. An error counts as no value.
#[verifier::external_body]
pub(crate) fn parse_json_bytes(bytes: &Vec<u8>) -> (json: Option<Json>)
    ensures
        maybe_json_model(json) == json_in_bytes(bytes@),
{
    serde_json::from_slice(bytes).ok().map(converted)
}

/// Calls serde_json's `from_str`.
///
/// The contract names the value that is read, and claims of it only that it comes from the text
/// alone. An error counts as no value.
#[verifier::external_body]
pub(crate) fn parse_json_text(document: &str) -> (json: Option<Json>)
    ensures
        maybe_json_model(json) == json_in_text(document@),
{
    serde_json::from_str(document).ok().map(converted)
}

} // verus!
