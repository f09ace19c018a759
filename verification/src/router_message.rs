//! The messages a router sends, each with its code.

use vstd::prelude::*;
use crate::id::GlobalScope;
use crate::id::Id;
use crate::id::RouterScope;
use crate::id::SessionScope;
use crate::msg_code;
use crate::transportable_value::Dict;
use crate::transportable_value::List;
use crate::uri::Uri;

verus! {

/// Marker trait for received messages. Do not implement this yourself.
pub trait RouterMessage {
    /// The identifying integer for this message.
    const MSG_CODE: u64;
}

/// Session management; used by all types of peers.
#[derive(Debug, Eq, PartialEq)]
pub struct Welcome {
    pub session: Id<GlobalScope>,
    pub details: Dict,
}

impl RouterMessage for Welcome {
    const MSG_CODE: u64 = msg_code::WELCOME;
}

/// Session management; used by all types of peers.
#[derive(Debug, Eq, PartialEq)]
pub struct Abort {
    pub details: Dict,
    pub reason: Uri,
}

impl RouterMessage for Abort {
    const MSG_CODE: u64 = msg_code::ABORT;
}

/// Session management; used by all types of peers.
#[derive(Debug, Eq, PartialEq)]
pub struct Challenge {
    pub auth_method: String,
    pub extra: Dict,
}

impl RouterMessage for Challenge {
    const MSG_CODE: u64 = msg_code::CHALLENGE;
}

/// Session management; used by all types of peers.
#[derive(Debug, Eq, PartialEq)]
pub struct Goodbye {
    pub details: Dict,
    pub reason: Uri,
}

impl RouterMessage for Goodbye {
    const MSG_CODE: u64 = msg_code::GOODBYE;
}

/// Used by all roles to indicate problems with a request.
#[derive(Debug, Eq, PartialEq)]
pub struct Error {
    pub request_type: u64,
    pub request: Id<SessionScope>,
    pub details: Dict,
    pub error: Uri,
    pub arguments: Option<List>,
    pub arguments_kw: Option<Dict>,
}

impl RouterMessage for Error {
    const MSG_CODE: u64 = msg_code::ERROR;
}

/// Sent by brokers to subscribers after they are subscribed to a topic.
#[derive(Debug, Eq, PartialEq)]
pub struct Subscribed {
    pub request: Id<SessionScope>,
    pub subscription: Id<RouterScope>,
}

impl RouterMessage for Subscribed {
    const MSG_CODE: u64 = msg_code::SUBSCRIBED;
}

/// Sent by brokers to subscribers after they are unsubscribed from a topic.
#[derive(Debug, Eq, PartialEq)]
pub struct Unsubscribed {
    pub request: Id<SessionScope>,
}

impl RouterMessage for Unsubscribed {
    const MSG_CODE: u64 = msg_code::UNSUBSCRIBED;
}

/// Sent by brokers to subscribers when a message was published to a topic.
#[derive(Debug, Eq, PartialEq)]
pub struct Event {
    pub subscription: Id<RouterScope>,
    pub publication: Id<GlobalScope>,
    pub details: Dict,
    pub arguments: Option<List>,
    pub arguments_kw: Option<Dict>,
}

impl RouterMessage for Event {
    const MSG_CODE: u64 = msg_code::EVENT;
}

/// Sent by brokers to publishers after they publish a message to a topic, if
/// they requested acknowledgement.
#[derive(Debug, Eq, PartialEq)]
pub struct Published {
    pub request: Id<SessionScope>,
    pub publication: Id<GlobalScope>,
}

impl RouterMessage for Published {
    const MSG_CODE: u64 = msg_code::PUBLISHED;
}

/// Sent by dealers to callees after a procedure is registered.
#[derive(Debug, Eq, PartialEq)]
pub struct Registered {
    pub request: Id<SessionScope>,
    pub registration: Id<RouterScope>,
}

impl RouterMessage for Registered {
    const MSG_CODE: u64 = msg_code::REGISTERED;
}

/// Sent by dealers to callees after a procedure is unregistered.
#[derive(Debug, Eq, PartialEq)]
pub struct Unregistered {
    pub request: Id<SessionScope>,
}

impl RouterMessage for Unregistered {
    const MSG_CODE: u64 = msg_code::UNREGISTERED;
}

/// Sent by dealers to callees when a procedure they registered is invoked.
#[derive(Debug, Eq, PartialEq)]
pub struct Invocation {
    pub request: Id<SessionScope>,
    pub registration: Id<RouterScope>,
    pub details: Dict,
    pub arguments: Option<List>,
    pub arguments_kw: Option<Dict>,
}

impl RouterMessage for Invocation {
    const MSG_CODE: u64 = msg_code::INVOCATION;
}

/// Sent by dealers to callers when a procedure they invoked has completed.
#[derive(Debug, Eq, PartialEq)]
pub struct Result {
    pub request: Id<SessionScope>,
    pub details: Dict,
    pub arguments: Option<List>,
    pub arguments_kw: Option<Dict>,
}

impl RouterMessage for Result {
    const MSG_CODE: u64 = msg_code::RESULT;
}

} // verus!
