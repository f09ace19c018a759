//! The text form of messages: parsing what the router sent and writing what
//! this peer sends. Both are the work of `serde_json`.

use vstd::prelude::*;
use crate::client_message::ClientMessage;
use crate::json::Json;
use crate::json::JsonModel;
use crate::transportable_value::TransportableValue;
use crate::transportable_value::ValueModel;

verus! {

/// `serde_json::Value`, carried between the calls below and never looked into
/// by verified code.
#[verifier::external_type_specification]
#[verifier::external_body]
pub struct ExSerdeValue(serde_json::Value);

/// The document that `serde_json::from_slice` reads from `bytes`, or `None`
/// where it reports an error.
pub uninterp spec fn json_parse(bytes: Seq<u8>) -> Option<JsonModel>;

/// The text that `serde_json::Value` displays as, for the JSON value built
/// from a value of the value model.
pub uninterp spec fn json_text(value: ValueModel) -> Seq<char>;

/// Copies a `serde_json::Value` into a [`Json`], variant by variant; of a
/// number, `as_u64` and `as_i64` tell the kind. Nothing is claimed of the
/// result.
#[verifier::external_body]
fn document_of(value: &serde_json::Value) -> Json {
    match value {
        serde_json::Value::Null => Json::Null,
        serde_json::Value::Bool(b) => Json::Bool(*b),
        serde_json::Value::Number(n) => match (n.as_u64(), n.as_i64()) {
            (Some(u), _) => Json::Unsigned(u),
            (None, Some(i)) => Json::Negative(i),
            (None, None) => Json::Float,
        },
        serde_json::Value::String(s) => Json::String(s.clone()),
        serde_json::Value::Array(a) => Json::Array(a.iter().map(document_of).collect()),
        serde_json::Value::Object(o) => Json::Object(
            o.iter().map(|(k, v)| (k.clone(), document_of(v))).collect(),
        ),
    }
}

/// Copies a value into a `serde_json::Value`, variant by variant. Nothing is
/// claimed of the result.
#[verifier::external_body]
fn serde_of(value: &TransportableValue) -> serde_json::Value {
    match value {
        TransportableValue::Integer(n) => serde_json::Value::from(*n),
        TransportableValue::String(s) => serde_json::Value::from(s.as_str()),
        TransportableValue::Bool(b) => serde_json::Value::from(*b),
        TransportableValue::List(l) => serde_json::Value::Array(l.iter().map(serde_of).collect()),
        TransportableValue::Dict(d) => serde_json::Value::Object(
            d.entries.iter().map(|e| (e.0.clone(), serde_of(&e.1))).collect(),
        ),
    }
}

/// Calls `serde_json::from_slice` for a `serde_json::Value`. The result is
/// the document named by [`json_parse`]; an error of the parser becomes
/// `None`.
#[verifier::external_body]
fn parse_document(data: &[u8]) -> (document: Option<Json>)
    ensures
        json_parse(data@) == match document {
            Some(json) => Some(json.model()),
            None => None,
        },
{
    serde_json::from_slice::<serde_json::Value>(data).ok().map(|v| document_of(&v))
}

/// Calls `to_string` on the `serde_json::Value` built from `value`. The
/// result is the text named by [`json_text`].
#[verifier::external_body]
fn render_value(value: &TransportableValue) -> (text: String)
    ensures
        text@ == json_text(value.model()),
{
    serde_of(value).to_string()
}

/// Parses the bytes of one frame into a document, or `None` where they are
/// not JSON.
pub fn decode(data: &[u8]) -> (document: Option<Json>)
    ensures
        json_parse(data@) == match document {
            Some(json) => Some(json.model()),
            None => None,
        },
{
    parse_document(data)
}

/// The text of a message as it goes on the wire: the JSON text of the array
/// that [`ClientMessage::wire`] describes.
pub fn encode(message: &ClientMessage) -> (text: String)
    ensures
        text@ == json_text(message.wire()),
{
    let json = message.to_json();
    render_value(&json)
}

} // verus!
