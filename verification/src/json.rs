//! JSON documents as trees of plain values. `serde_json` reads the text; the
//! decoders of this crate walk the tree.

use crate::text::str_eq;
use vstd::prelude::*;

verus! {

/// A JSON value. Numbers keep no payload: nothing in this crate reads one.
#[derive(Debug, PartialEq, Eq)]
pub enum Json {
    Null,
    Bool(bool),
    Number,
    Text(String),
    Array(Vec<Json>),
    /// The members in the order in which they are held, each key with its value.
    Object(Vec<(String, Json)>),
}

/// `serde_json::Value`, handed from the reader to the rewriting and never
/// looked into by verified code.
#[verifier::external_type_specification]
#[verifier::external_body]
pub struct ExSerdeJsonValue(serde_json::Value);

/// The document that `serde_json` reads from a text, `None` where it reports
/// an error (the text is not one complete JSON value, or nests deeper than
/// the 128 levels that it allows).
pub uninterp spec fn json_of_text(text: Seq<char>) -> Option<Json>;

/// The words in which `serde_json` refuses a text: its error as `Display`
/// prints it, with the line and the column. Of no meaning for a text that
/// it reads.
pub uninterp spec fn json_refusal(text: Seq<char>) -> Seq<char>;

/// Rewrites a `serde_json::Value` as a `Json`, variant by variant. An
/// object's members come in the order in which `serde_json`'s map yields them.
#[verifier::external_body]
fn json_from_value(value: serde_json::Value) -> Json {
    match value {
        serde_json::Value::Null => Json::Null,
        serde_json::Value::Bool(b) => Json::Bool(b),
        serde_json::Value::Number(_) => Json::Number,
        serde_json::Value::String(s) => Json::Text(s),
        serde_json::Value::Array(items) => Json::Array(
            items.into_iter().map(json_from_value).collect(),
        ),
        serde_json::Value::Object(members) => Json::Object(
            members.into_iter().map(|(k, v)| (k, json_from_value(v))).collect(),
        ),
    }
}

/// Calls `serde_json::from_str::<serde_json::Value>`. What it reads is
/// rewritten as a `Json`, with `json_from_value`; an error is rewritten as
/// its words, with `to_string` (the `Display` of `serde_json::Error`). The
/// contract names the first `json_of_text` and the second `json_refusal`,
/// and claims only that both are functions of the text.
#[verifier::external_body]
pub(crate) fn read_json(text: &str) -> (r: Result<Json, String>)
    ensures
        r matches Ok(doc) ==> json_of_text(text@) == Some(doc),
        r matches Err(words) ==> json_of_text(text@) is None && json_refusal(text@) == words@,
{
    match serde_json::from_str::<serde_json::Value>(text) {
        Ok(value) => Ok(json_from_value(value)),
        Err(e) => Err(e.to_string()),
    }
}

/// The value of the first member of `members` whose key is `key`.
pub open spec fn first_member(members: Seq<(String, Json)>, key: Seq<char>) -> Option<Json>
    decreases members.len(),
{
    if members.len() == 0 {
        None
    } else if members[0].0@ == key {
        Some(members[0].1)
    } else {
        first_member(members.drop_first(), key)
    }
}

impl Json {
    /// Reads one JSON document from a text.
    pub fn parse(text: &str) -> (r: Option<Json>)
        ensures
            r == json_of_text(text@),
    {
        match read_json(text) {
            Ok(doc) => Some(doc),
            Err(_) => None,
        }
    }

    /// The member of an object under `key`; `None` for a missing key and for
    /// a value that is no object.
    pub open spec fn member(self, key: Seq<char>) -> Option<Json> {
        match self {
            Json::Object(members) => first_member(members@, key),
            _ => None,
        }
    }

    /// The member under `key`, unless it is missing or `null`.
    pub open spec fn present(self, key: Seq<char>) -> Option<Json> {
        match self.member(key) {
            Some(Json::Null) => None,
            other => other,
        }
    }

    /// The characters of a JSON string.
    pub open spec fn text(self) -> Option<Seq<char>> {
        match self {
            Json::Text(s) => Some(s@),
            _ => None,
        }
    }

    /// The elements of a JSON array.
    pub open spec fn items(self) -> Option<Seq<Json>> {
        match self {
            Json::Array(items) => Some(items@),
            _ => None,
        }
    }

    /// Whether this is a JSON object.
    pub fn is_object(&self) -> (r: bool)
        ensures
            r == (self is Object),
    {
        match self {
            Json::Object(_) => true,
            _ => false,
        }
    }

    /// Looks up the member of an object under `key`.
    pub fn get(&self, key: &str) -> (r: Option<&Json>)
        ensures
            r matches Some(found) ==> self.member(key@) == Some(*found),
            r is None ==> self.member(key@) is None,
    {
        match self {
            Json::Object(members) => {
                let mut i: usize = 0;
                assert(members@.skip(0) =~= members@);
                while i < members.len()
                    invariant
                        i <= members.len(),
                        self.member(key@) == first_member(members@.skip(i as int), key@),
                    decreases members.len() - i,
                {
                    proof {
                        assert(members@.skip(i as int).drop_first() =~= members@.skip(i + 1));
                    }
                    if str_eq(members[i].0.as_str(), key) {
                        return Some(&members[i].1);
                    }
                    i += 1;
                }
                None
            },
            _ => None,
        }
    }

    /// Looks up the member under `key`, taking `null` for missing.
    pub fn get_present(&self, key: &str) -> (r: Option<&Json>)
        ensures
            r matches Some(found) ==> self.present(key@) == Some(*found),
            r is None ==> self.present(key@) is None,
    {
        match self.get(key) {
            Some(Json::Null) => None,
            other => other,
        }
    }

    /// The text of a JSON string.
    pub fn as_text(&self) -> (r: Option<&str>)
        ensures
            r matches Some(s) ==> self.text() == Some(s@),
            r is None ==> self.text() is None,
    {
        match self {
            Json::Text(s) => Some(s.as_str()),
            _ => None,
        }
    }

    /// The elements of a JSON array.
    pub fn as_items(&self) -> (r: Option<&Vec<Json>>)
        ensures
            r matches Some(items) ==> self.items() == Some(items@),
            r is None ==> self.items() is None,
    {
        match self {
            Json::Array(items) => Some(items),
            _ => None,
        }
    }
}

} // verus!
