//! The messages this peer sends, and their shape on the wire.

use vstd::prelude::*;
use crate::id::Id;
use crate::json::convert;
use crate::json::json_of;
use crate::json::json_of_items;
use crate::json::lemma_value_roundtrip;
use crate::json::ConversionError;
use crate::json::JsonModel;
use crate::session::envelope_of;
use crate::session::DropReason;
use crate::id::RouterScope;
use crate::id::SessionScope;
use crate::msg_code;
use crate::transportable_value::clone_list;
use crate::transportable_value::list_model;
use crate::transportable_value::well_keyed;
use crate::transportable_value::Dict;
use crate::transportable_value::List;
use crate::transportable_value::TransportableValue;
use crate::transportable_value::ValueModel;
use crate::uri::Uri;

verus! {

/// The various types of messages which can be sent by the client.
#[derive(Debug)]
#[allow(inconsistent_fields)]
pub enum ClientMessage {
    /// Session management; used by all types of peers.
    Hello {
        /// The realm to connect to.
        realm: Uri,
        /// Describes this peer's capabilities.
        details: Dict,
    },
    /// The answer to an authentication challenge.
    Authenticate {
        /// The credential.
        signature: String,
        /// Additional information.
        extra: Dict,
    },
    /// Session management; used by all types of peers.
    Goodbye {
        /// Optional, additional information.
        details: Dict,
        /// Why the session is being closed.
        reason: Uri,
    },
    /// Used by all roles to indicate a problem with a request.
    Error {
        /// The message code of the request that caused the error.
        request_type: u64,
        /// The id of the request that caused the error.
        request: Id<SessionScope>,
        /// Optional details describing the error.
        details: Dict,
        /// The kind of error.
        error: Uri,
        /// Positional data.
        arguments: Option<List>,
        /// Key-value data.
        arguments_kw: Option<Dict>,
    },
    /// Sent by publishers to brokers when they have a message to send.
    Publish {
        /// A request id.
        request: Id<SessionScope>,
        /// Optional additional parameters for the publication.
        options: Dict,
        /// The topic to publish to.
        topic: Uri,
        /// Positional data.
        arguments: Option<List>,
        /// Key-value data.
        arguments_kw: Option<Dict>,
    },
    /// Sent by subscribers to brokers to receive the publications of a topic.
    Subscribe {
        /// A request id.
        request: Id<SessionScope>,
        /// Optional additional parameters for the subscription.
        options: Dict,
        /// The topic to subscribe to.
        topic: Uri,
    },
    /// Sent by subscribers to brokers to end a subscription.
    Unsubscribe {
        /// A request id.
        request: Id<SessionScope>,
        /// The subscription to cancel.
        subscription: Id<RouterScope>,
    },
    /// Sent by callers to dealers to invoke a procedure.
    Call {
        /// A request id.
        request: Id<SessionScope>,
        /// Optional additional parameters for the call.
        options: Dict,
        /// The procedure to invoke.
        procedure: Uri,
        /// The positional arguments to the procedure.
        arguments: Option<List>,
        /// The key-value arguments to the procedure.
        arguments_kw: Option<Dict>,
    },
    /// Sent by callees to dealers to register a procedure.
    Register {
        /// A request id.
        request: Id<SessionScope>,
        /// Optional additional parameters for the registration.
        options: Dict,
        /// The procedure to register.
        procedure: Uri,
    },
    /// Sent by callees to dealers to remove a registration.
    Unregister {
        /// A request id.
        request: Id<SessionScope>,
        /// The registration to remove.
        registration: Id<RouterScope>,
    },
    /// Sent by callees to dealers when an invocation is finished.
    Yield {
        /// The request id from the invocation.
        request: Id<RouterScope>,
        /// Optional additional parameters for the yielded data.
        options: Dict,
        /// Positional returned data.
        arguments: Option<List>,
        /// Key-value returned data.
        arguments_kw: Option<Dict>,
    },
}

/// The optional fields that end a message: nothing where there are no
/// positional arguments; the positional arguments alone where there are no
/// key-value arguments; else both, positional first.
pub open spec fn trailing(arguments: Option<List>, arguments_kw: Option<Dict>) -> Seq<ValueModel> {
    match arguments {
        None => Seq::empty(),
        Some(list) => match arguments_kw {
            None => seq![ValueModel::List(list_model(list))],
            Some(dict) => seq![
                ValueModel::List(list_model(list)),
                ValueModel::Dict(dict.entries_model()),
            ],
        },
    }
}

impl ClientMessage {
    /// The message code of each kind of message.
    pub open spec fn code(self) -> u64 {
        match self {
            ClientMessage::Hello { .. } => msg_code::HELLO,
            ClientMessage::Authenticate { .. } => msg_code::AUTHENTICATE,
            ClientMessage::Goodbye { .. } => msg_code::GOODBYE,
            ClientMessage::Error { .. } => msg_code::ERROR,
            ClientMessage::Publish { .. } => msg_code::PUBLISH,
            ClientMessage::Subscribe { .. } => msg_code::SUBSCRIBE,
            ClientMessage::Unsubscribe { .. } => msg_code::UNSUBSCRIBE,
            ClientMessage::Call { .. } => msg_code::CALL,
            ClientMessage::Register { .. } => msg_code::REGISTER,
            ClientMessage::Unregister { .. } => msg_code::UNREGISTER,
            ClientMessage::Yield { .. } => msg_code::YIELD,
        }
    }

    /// The fields that follow the code on the wire, in order.
    pub open spec fn fields(self) -> Seq<ValueModel> {
        match self {
            ClientMessage::Hello { realm, details } => seq![
                ValueModel::Text(realm@),
                ValueModel::Dict(details.entries_model()),
            ],
            ClientMessage::Authenticate { signature, extra } => seq![
                ValueModel::Text(signature@),
                ValueModel::Dict(extra.entries_model()),
            ],
            ClientMessage::Goodbye { details, reason } => seq![
                ValueModel::Dict(details.entries_model()),
                ValueModel::Text(reason@),
            ],
            ClientMessage::Error { request_type, request, details, error, arguments, arguments_kw } => seq![
                ValueModel::Integer(request_type),
                ValueModel::Integer(request@),
                ValueModel::Dict(details.entries_model()),
                ValueModel::Text(error@),
            ] + trailing(arguments, arguments_kw),
            ClientMessage::Publish { request, options, topic, arguments, arguments_kw } => seq![
                ValueModel::Integer(request@),
                ValueModel::Dict(options.entries_model()),
                ValueModel::Text(topic@),
            ] + trailing(arguments, arguments_kw),
            ClientMessage::Subscribe { request, options, topic } => seq![
                ValueModel::Integer(request@),
                ValueModel::Dict(options.entries_model()),
                ValueModel::Text(topic@),
            ],
            ClientMessage::Unsubscribe { request, subscription } => seq![
                ValueModel::Integer(request@),
                ValueModel::Integer(subscription@),
            ],
            ClientMessage::Call { request, options, procedure, arguments, arguments_kw } => seq![
                ValueModel::Integer(request@),
                ValueModel::Dict(options.entries_model()),
                ValueModel::Text(procedure@),
            ] + trailing(arguments, arguments_kw),
            ClientMessage::Register { request, options, procedure } => seq![
                ValueModel::Integer(request@),
                ValueModel::Dict(options.entries_model()),
                ValueModel::Text(procedure@),
            ],
            ClientMessage::Unregister { request, registration } => seq![
                ValueModel::Integer(request@),
                ValueModel::Integer(registration@),
            ],
            ClientMessage::Yield { request, options, arguments, arguments_kw } => seq![
                ValueModel::Integer(request@),
                ValueModel::Dict(options.entries_model()),
            ] + trailing(arguments, arguments_kw),
        }
    }

    /// The message on the wire: an array led by the code, then the fields.
    pub open spec fn wire(self) -> ValueModel {
        ValueModel::List(seq![ValueModel::Integer(self.code())] + self.fields())
    }

    /// Determines the message code for this message.
    pub fn get_message_code(&self) -> (code: u64)
        ensures
            code == self.code(),
    {
        match self {
            ClientMessage::Hello { .. } => msg_code::HELLO,
            ClientMessage::Authenticate { .. } => msg_code::AUTHENTICATE,
            ClientMessage::Goodbye { .. } => msg_code::GOODBYE,
            ClientMessage::Error { .. } => msg_code::ERROR,
            ClientMessage::Publish { .. } => msg_code::PUBLISH,
            ClientMessage::Subscribe { .. } => msg_code::SUBSCRIBE,
            ClientMessage::Unsubscribe { .. } => msg_code::UNSUBSCRIBE,
            ClientMessage::Call { .. } => msg_code::CALL,
            ClientMessage::Register { .. } => msg_code::REGISTER,
            ClientMessage::Unregister { .. } => msg_code::UNREGISTER,
            ClientMessage::Yield { .. } => msg_code::YIELD,
        }
    }

    /// Converts this message to its JSON representation: the array that
    /// [`ClientMessage::wire`] describes.
    pub fn to_json(&self) -> (json: TransportableValue)
        ensures
            json.model() == self.wire(),
    {
        let mut out: Vec<TransportableValue> = Vec::new();
        assert(list_model(out) =~= Seq::empty());
        push_integer(&mut out, self.get_message_code());
        match self {
            ClientMessage::Hello { realm, details } => {
                push_text(&mut out, realm.as_str());
                push_dict(&mut out, details);
            },
            ClientMessage::Authenticate { signature, extra } => {
                push_text(&mut out, signature.as_str());
                push_dict(&mut out, extra);
            },
            ClientMessage::Goodbye { details, reason } => {
                push_dict(&mut out, details);
                push_text(&mut out, reason.as_str());
            },
            ClientMessage::Error { request_type, request, details, error, arguments, arguments_kw } => {
                push_integer(&mut out, *request_type);
                push_integer(&mut out, request.value());
                push_dict(&mut out, details);
                push_text(&mut out, error.as_str());
                push_trailing(&mut out, arguments, arguments_kw);
            },
            ClientMessage::Publish { request, options, topic, arguments, arguments_kw } => {
                push_integer(&mut out, request.value());
                push_dict(&mut out, options);
                push_text(&mut out, topic.as_str());
                push_trailing(&mut out, arguments, arguments_kw);
            },
            ClientMessage::Subscribe { request, options, topic } => {
                push_integer(&mut out, request.value());
                push_dict(&mut out, options);
                push_text(&mut out, topic.as_str());
            },
            ClientMessage::Unsubscribe { request, subscription } => {
                push_integer(&mut out, request.value());
                push_integer(&mut out, subscription.value());
            },
            ClientMessage::Call { request, options, procedure, arguments, arguments_kw } => {
                push_integer(&mut out, request.value());
                push_dict(&mut out, options);
                push_text(&mut out, procedure.as_str());
                push_trailing(&mut out, arguments, arguments_kw);
            },
            ClientMessage::Register { request, options, procedure } => {
                push_integer(&mut out, request.value());
                push_dict(&mut out, options);
                push_text(&mut out, procedure.as_str());
            },
            ClientMessage::Unregister { request, registration } => {
                push_integer(&mut out, request.value());
                push_integer(&mut out, registration.value());
            },
            ClientMessage::Yield { request, options, arguments, arguments_kw } => {
                push_integer(&mut out, request.value());
                push_dict(&mut out, options);
                push_trailing(&mut out, arguments, arguments_kw);
            },
        }
        proof {
            assert(list_model(out) =~= seq![ValueModel::Integer(self.code())] + self.fields());
        }
        TransportableValue::List(out)
    }
}

/// Appends a value to a list under construction.
fn push_value(out: &mut Vec<TransportableValue>, value: TransportableValue)
    ensures
        list_model(*final(out)) == list_model(*old(out)).push(value.model()),
{
    out.push(value);
    proof {
        assert(list_model(*final(out)) =~= list_model(*old(out)).push(value.model()));
    }
}

/// Appends an integer field.
fn push_integer(out: &mut Vec<TransportableValue>, value: u64)
    ensures
        list_model(*final(out)) == list_model(*old(out)).push(ValueModel::Integer(value)),
{
    push_value(out, TransportableValue::Integer(value));
}

/// Appends a text field.
fn push_text(out: &mut Vec<TransportableValue>, text: &str)
    ensures
        list_model(*final(out)) == list_model(*old(out)).push(ValueModel::Text(text@)),
{
    push_value(out, TransportableValue::String(text.to_owned()));
}

/// Appends a copy of a dictionary field.
fn push_dict(out: &mut Vec<TransportableValue>, dict: &Dict)
    ensures
        list_model(*final(out)) == list_model(*old(out)).push(
            ValueModel::Dict(dict.entries_model()),
        ),
{
    push_value(out, TransportableValue::Dict(dict.clone()));
}

/// Appends the optional fields that end a message.
fn push_trailing(
    out: &mut Vec<TransportableValue>,
    arguments: &Option<List>,
    arguments_kw: &Option<Dict>,
)
    ensures
        list_model(*final(out)) == list_model(*old(out)) + trailing(*arguments, *arguments_kw),
{
    match arguments {
        None => {
            proof {
                assert(list_model(*old(out)) + trailing(*arguments, *arguments_kw) =~= list_model(
                    *old(out),
                ));
            }
        },
        Some(list) => {
            push_value(out, TransportableValue::List(clone_list(list)));
            match arguments_kw {
                None => {},
                Some(dict) => {
                    push_dict(out, dict);
                },
            }
            proof {
                assert(list_model(*final(out)) =~= list_model(*old(out)) + trailing(
                    *arguments,
                    *arguments_kw,
                ));
            }
        },
    }
}

/// Of the optional fields that end a message, the key-value arguments are
/// written only behind the positional ones: with no positional arguments
/// nothing is written, with them alone one field, with both two fields.
pub proof fn lemma_trailing_shape(arguments: Option<List>, arguments_kw: Option<Dict>)
    ensures
        arguments.is_none() ==> trailing(arguments, arguments_kw).len() == 0,
        arguments.is_some() && arguments_kw.is_none() ==> trailing(arguments, arguments_kw)
            == seq![ValueModel::List(list_model(arguments.unwrap()))],
        arguments.is_some() && arguments_kw.is_some() ==> trailing(arguments, arguments_kw) == seq![
            ValueModel::List(list_model(arguments.unwrap())),
            ValueModel::Dict(arguments_kw.unwrap().entries_model()),
        ],
{
}

/// What a message is encoded as reads back as what was encoded: read as a
/// generic message, the array gives the code of the message and then its
/// fields, each in its place; and converted back to a value, it is the array
/// that was written.
pub proof fn lemma_wire_reads_back(message: ClientMessage)
    ensures
        envelope_of(json_of(message.wire())) == Ok::<(u64, Seq<JsonModel>), DropReason>(
            (message.code(), json_of_items(seq![ValueModel::Integer(message.code())] + message.fields())),
        ),
        forall|i: int|
            0 <= i < message.fields().len() ==> #[trigger] json_of_items(
                seq![ValueModel::Integer(message.code())] + message.fields(),
            )[i + 1] == json_of(message.fields()[i]),
        well_keyed(message.wire()) ==> convert(json_of(message.wire())) == Ok::<
            ValueModel,
            ConversionError,
        >(message.wire()),
{
    let items = seq![ValueModel::Integer(message.code())] + message.fields();
    assert(json_of_items(items)[0] == json_of(items[0]));
    assert forall|i: int| 0 <= i < message.fields().len() implies #[trigger] json_of_items(items)[i
        + 1] == json_of(message.fields()[i]) by {
        assert(items[i + 1] == message.fields()[i]);
    }
    if well_keyed(message.wire()) {
        lemma_value_roundtrip(message.wire());
    }
}

} // verus!
