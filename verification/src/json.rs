//! JSON documents as plain values, read with `serde_json`.

use vstd::prelude::*;
use vstd::string::*;
use crate::error::RagError;

verus! {

/// `serde_json::Value`, carried from the parser to `content_of` and never
/// looked into.
#[verifier::external_type_specification]
#[verifier::external_body]
pub struct ExValue(serde_json::Value);

/// `serde_json::Error`, which says why a text is no JSON document.
#[verifier::external_type_specification]
#[verifier::external_body]
pub struct ExJsonError(serde_json::Error);

/// A JSON value. A number is kept as the text that stands for it. Where an
/// object holds a key twice, the first member under it counts.
#[derive(Debug, PartialEq, Eq)]
pub enum Json {
    Null,
    Bool(bool),
    Number(String),
    Text(String),
    Array(Vec<Json>),
    Object(Vec<Member>),
}

/// One member of a JSON object.
#[derive(Debug, PartialEq, Eq)]
pub struct Member {
    pub key: String,
    pub value: Json,
}

/// The document that `text` is read as, or `None` where it is no JSON
/// document.
pub uninterp spec fn json_document(text: Seq<char>) -> Option<Json>;

/// What a `serde_json::Value` holds.
pub uninterp spec fn json_content(value: serde_json::Value) -> Json;

/// The value of the first member of `members` under `key`.
pub open spec fn find_member(members: Seq<Member>, key: Seq<char>) -> Option<Json>
    decreases members.len(),
{
    if members.len() == 0 {
        None
    } else if members[0].key@ == key {
        Some(members[0].value)
    } else {
        find_member(members.skip(1), key)
    }
}

impl Json {
    /// The member under `key` of an object; `None` for any other value and
    /// where the object has no such member.
    pub open spec fn member(self, key: Seq<char>) -> Option<Json> {
        match self {
            Json::Object(members) => find_member(members@, key),
            _ => None,
        }
    }

    /// The item at `index` of an array; `None` for any other value and
    /// where the array is shorter.
    pub open spec fn element(self, index: int) -> Option<Json> {
        match self {
            Json::Array(items) => if 0 <= index < items@.len() {
                Some(items@[index])
            } else {
                None
            },
            _ => None,
        }
    }

    /// The characters of a string; `None` for any other value.
    pub open spec fn text(self) -> Option<Seq<char>> {
        match self {
            Json::Text(s) => Some(s@),
            _ => None,
        }
    }

    /// Looks up the member under `key`.
    pub fn get_member(&self, key: &str) -> (found: Option<&Json>)
        ensures
            match found {
                Some(value) => self.member(key@) == Some(*value),
                None => self.member(key@) is None,
            },
    {
        match self {
            Json::Object(members) => {
                let wanted = String::from_str(key);
                let mut i: usize = 0;
                assert(members@.skip(0) == members@);
                while i < members.len()
                    invariant
                        i <= members.len(),
                        wanted@ == key@,
                        self.member(key@) == find_member(members@, key@),
                        find_member(members@, key@) == find_member(members@.skip(i as int), key@),
                    decreases members.len() - i,
                {
                    let ghost rest = members@.skip(i as int);
                    assert(rest[0] == members@[i as int]);
                    if members[i].key == wanted {
                        return Some(&members[i].value);
                    }
                    assert(rest.skip(1) == members@.skip(i + 1));
                    i += 1;
                }
                assert(members@.skip(i as int).len() == 0);
                None
            },
            _ => None,
        }
    }

    /// Looks up the item at `index`.
    pub fn get_element(&self, index: usize) -> (found: Option<&Json>)
        ensures
            match found {
                Some(value) => self.element(index as int) == Some(*value),
                None => self.element(index as int) is None,
            },
    {
        match self {
            Json::Array(items) => if index < items.len() {
                Some(&items[index])
            } else {
                None
            },
            _ => None,
        }
    }

    /// The string that this value is, if it is one.
    pub fn as_text(&self) -> (found: Option<&String>)
        ensures
            match found {
                Some(s) => self.text() == Some(s@),
                None => self.text() is None,
            },
    {
        match self {
            Json::Text(s) => Some(s),
            _ => None,
        }
    }
}

/// Calls `serde_json::from_str` for a `serde_json::Value`. It succeeds
/// exactly on the texts that are JSON documents, and the value then holds
/// the document; both are named, neither is spelled out.
#[verifier::external_body]
fn parse_value(text: &str) -> (parsed: Result<serde_json::Value, serde_json::Error>)
    ensures
        parsed is Ok <==> json_document(text@) is Some,
        parsed is Ok ==> json_content(parsed->Ok_0) == json_document(text@)->0,
{
    serde_json::from_str::<serde_json::Value>(text)
}

/// Copies a `serde_json::Value` into a `Json`, variant by variant: a number
/// as `serde_json` prints it, the items of an array in their order, the
/// members of an object in the order in which its map hands them out.
#[verifier::external_body]
fn content_of(value: &serde_json::Value) -> (doc: Json)
    ensures
        doc == json_content(*value),
{
    match value {
        serde_json::Value::Null => Json::Null,
        serde_json::Value::Bool(b) => Json::Bool(*b),
        serde_json::Value::Number(n) => Json::Number(n.to_string()),
        serde_json::Value::String(s) => Json::Text(s.clone()),
        serde_json::Value::Array(items) => Json::Array(items.iter().map(content_of).collect()),
        serde_json::Value::Object(map) => Json::Object(
            map.iter().map(|(k, v)| Member { key: k.clone(), value: content_of(v) }).collect(),
        ),
    }
}

/// Reads `text` as a JSON document. A text that is none is a malformed
/// response.
pub fn parse_json(text: &str) -> (parsed: Result<Json, RagError>)
    ensures
        match json_document(text@) {
            Some(doc) => parsed == Ok::<Json, RagError>(doc),
            None => parsed == Err::<Json, RagError>(RagError::MalformedResponse),
        },
{
    match parse_value(text) {
        Ok(value) => Ok(content_of(&value)),
        Err(_) => Err(RagError::MalformedResponse),
    }
}

} // verus!
