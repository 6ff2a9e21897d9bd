//! Reading a response from JSON text.
//!
//! The text is read by `serde_json`. What it hands back is opened level by
//! level and copied into a [`Json`], which the decoders of [`crate::decode`]
//! then read.

use vstd::prelude::*;
use crate::decode::response_of;
use crate::error::{outcome, DecodeError, DecodeErrorView};
use crate::json::{Json, JsonView};
use crate::response::{Response, ResponseView};

verus! {

/// `serde_json::Value`, carried as it is: nothing is known of what is inside
/// but through [`value_document`].
#[verifier::external_type_specification]
#[verifier::external_body]
pub struct ExValue(serde_json::Value);

/// `serde_json::Error`, carried as it is: nothing is known of what is inside.
#[verifier::external_type_specification]
#[verifier::external_body]
pub struct ExError(serde_json::Error);

/// The document that `serde_json::from_str` reads from a text, or `None`
/// where it reads none. It is not defined here: what `serde_json` takes for
/// JSON is its own matter. It depends on the text alone.
pub uninterp spec fn parsed_document(text: Seq<char>) -> Option<JsonView>;

/// The document that a `serde_json::Value` holds. It is not defined here
/// either; [`open_value`] says how it is made up of the documents that the
/// parts of the value hold.
pub uninterp spec fn value_document(value: serde_json::Value) -> JsonView;

/// One level of a value of `serde_json`: its kind and, for an array or an
/// object, its parts, which are values of `serde_json` again.
enum Node {
    Null,
    Bool(bool),
    Number(Option<u64>),
    Text(String),
    Array(Vec<serde_json::Value>),
    Object(Vec<(String, serde_json::Value)>),
}

/// What the parts of an array stand for.
spec fn items_document(items: Seq<serde_json::Value>) -> Seq<JsonView> {
    Seq::new(items.len(), |i: int| value_document(items[i]))
}

/// What the parts of an object stand for.
spec fn members_document(members: Seq<(String, serde_json::Value)>) -> Seq<
    (Seq<char>, JsonView),
> {
    Seq::new(members.len(), |i: int| (members[i].0@, value_document(members[i].1)))
}

/// What one level of a value stands for, its parts read as the documents that
/// they hold.
spec fn node_document(node: Node) -> JsonView {
    match node {
        Node::Null => JsonView::Null,
        Node::Bool(flag) => JsonView::Bool(flag),
        Node::Number(number) => JsonView::Number(number),
        Node::Text(text) => JsonView::Text(text@),
        Node::Array(items) => JsonView::Array(items_document(items@)),
        Node::Object(members) => JsonView::Object(members_document(members@)),
    }
}

/// Calls `serde_json::from_str` for a `serde_json::Value`. Believed, not
/// proved: the call gives a value exactly where [`parsed_document`] gives a
/// document for the text, and the value then holds that document. This says
/// that the same text is read the same way each time, and no more.
#[verifier::external_body]
fn parse_value(text: &str) -> (value: Result<serde_json::Value, serde_json::Error>)
    ensures
        match value {
            Ok(value) => parsed_document(text@) == Some(value_document(value)),
            Err(_) => parsed_document(text@) is None,
        },
{
    serde_json::from_str::<serde_json::Value>(text)
}

/// Takes a `serde_json::Value` apart, one variant for one: for a number what
/// `Number::as_u64` gives, for an array its items, for an object its entries
/// in the order of `Map::into_iter`. Believed, not proved: the document that
/// the value holds is of the kind that this level shows, and its parts are the
/// documents that the parts of the value hold.
#[verifier::external_body]
fn open_value(value: serde_json::Value) -> (node: Node)
    ensures
        value_document(value) == node_document(node),
{
    match value {
        serde_json::Value::Null => Node::Null,
        serde_json::Value::Bool(flag) => Node::Bool(flag),
        serde_json::Value::Number(number) => Node::Number(number.as_u64()),
        serde_json::Value::String(text) => Node::Text(text),
        serde_json::Value::Array(items) => Node::Array(items),
        serde_json::Value::Object(members) => Node::Object(members.into_iter().collect()),
    }
}

/// The deepest nesting of arrays and objects that is copied. `serde_json`
/// itself reads no text that nests deeper.
pub const MAX_DEPTH: usize = 128;

/// Arrays and objects are nested at most `depth` deep.
pub open spec fn within_depth(json: JsonView, depth: nat) -> bool
    decreases depth,
{
    match json {
        JsonView::Array(items) => depth > 0 && forall|i: int|
            0 <= i < items.len() ==> within_depth(#[trigger] items[i], (depth - 1) as nat),
        JsonView::Object(members) => depth > 0 && forall|i: int|
            0 <= i < members.len() ==> within_depth((#[trigger] members[i]).1, (depth - 1) as nat),
        _ => true,
    }
}

/// The document that a text stands for: the one that `serde_json` reads from
/// it. A text from which it reads none is malformed, and so is one whose
/// document nests too deep.
pub open spec fn document_of(text: Seq<char>) -> Result<JsonView, DecodeErrorView> {
    match parsed_document(text) {
        Some(json) => if within_depth(json, MAX_DEPTH as nat) {
            Ok(json)
        } else {
            Err(DecodeErrorView::MalformedPayload)
        },
        None => Err(DecodeErrorView::MalformedPayload),
    }
}

/// The response that a text stands for.
pub open spec fn response_of_text(text: Seq<char>) -> Result<ResponseView, DecodeErrorView> {
    match document_of(text) {
        Ok(json) => response_of(json),
        Err(error) => Err(error),
    }
}

/// Copies the document that a value holds, if it nests at most `depth` deep.
fn copy_document(value: serde_json::Value, depth: usize) -> (json: Option<Json>)
    ensures
        match json {
            Some(json) => json@ == value_document(value) && within_depth(json@, depth as nat),
            None => !within_depth(value_document(value), depth as nat),
        },
    decreases depth,
{
    match open_value(value) {
        Node::Null => Some(Json::Null),
        Node::Bool(flag) => Some(Json::Bool(flag)),
        Node::Number(number) => Some(Json::Number(number)),
        Node::Text(text) => Some(Json::Text(text)),
        Node::Array(items) => {
            if depth == 0 {
                return None;
            }
            let ghost given = items@;
            let mut copies: Vec<Json> = Vec::new();
            for item in it: items.into_iter()
                invariant
                    depth > 0,
                    it.seq() == given,
                    value_document(value) == JsonView::Array(items_document(given)),
                    copies@.len() == it.index(),
                    forall|i: int|
                        0 <= i < it.index() ==> (#[trigger] copies@[i])@ == value_document(given[i])
                            && within_depth(copies@[i]@, (depth - 1) as nat),
            {
                match copy_document(item, depth - 1) {
                    Some(copy) => {
                        copies.push(copy);
                    },
                    None => {
                        proof {
                            let parts = items_document(given);
                            assert(0 <= it.index() < parts.len());
                            assert(parts[it.index() as int] == value_document(item));
                            assert(!within_depth(parts[it.index() as int], (depth - 1) as nat));
                            assert(JsonView::Array(parts)->Array_0 == parts);
                        }
                        return None;
                    },
                }
            }
            let json = Json::Array(copies);
            proof {
                json.lemma_view();
                assert(json@->Array_0 =~= items_document(given));
            }
            Some(json)
        },
        Node::Object(members) => {
            if depth == 0 {
                return None;
            }
            let ghost given = members@;
            let mut copies: Vec<(String, Json)> = Vec::new();
            for member in it: members.into_iter()
                invariant
                    depth > 0,
                    it.seq() == given,
                    value_document(value) == JsonView::Object(members_document(given)),
                    copies@.len() == it.index(),
                    forall|i: int|
                        0 <= i < it.index() ==> (#[trigger] copies@[i]).0@ == given[i].0@
                            && copies@[i].1@ == value_document(given[i].1) && within_depth(
                            copies@[i].1@,
                            (depth - 1) as nat,
                        ),
            {
                match copy_document(member.1, depth - 1) {
                    Some(copy) => {
                        copies.push((member.0, copy));
                    },
                    None => {
                        proof {
                            let parts = members_document(given);
                            assert(0 <= it.index() < parts.len());
                            assert(parts[it.index() as int].1 == value_document(member.1));
                            assert(!within_depth(parts[it.index() as int].1, (depth - 1) as nat));
                            assert(JsonView::Object(parts)->Object_0 == parts);
                        }
                        return None;
                    },
                }
            }
            let json = Json::Object(copies);
            proof {
                json.lemma_view();
                assert(json@->Object_0 =~= members_document(given));
            }
            Some(json)
        },
    }
}

impl Json {
    /// Reads a document from JSON text.
    pub fn parse(text: &str) -> (json: Result<Json, DecodeError>)
        ensures
            outcome(json) == document_of(text@),
    {
        match parse_value(text) {
            Ok(value) => match copy_document(value, MAX_DEPTH) {
                Some(json) => Ok(json),
                None => Err(DecodeError::MalformedPayload),
            },
            Err(_) => Err(DecodeError::MalformedPayload),
        }
    }
}

impl Response {
    /// Reads a response from JSON text: the text is read as a document, and
    /// the document is decoded as [`Response::from_json`] says.
    pub fn parse(text: &str) -> (response: Result<Response, DecodeError>)
        ensures
            outcome(response) == response_of_text(text@),
    {
        let json = Json::parse(text)?;
        Response::from_json(&json)
    }
}

} // verus!
