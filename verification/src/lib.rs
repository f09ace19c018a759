//! A client-side core for the Web Application Messaging Protocol: scoped
//! identifiers, the value model, the message codec, and the session engine
//! that correlates requests with the router's replies.

pub mod client_message;
pub mod codec;
pub mod id;
pub mod json;
pub mod msg_code;
pub mod router_message;
pub mod session;
pub mod transportable_value;
pub mod uri;

pub use crate::client_message::ClientMessage;
pub use crate::id::GlobalScope;
pub use crate::id::Id;
pub use crate::id::IdAllocator;
pub use crate::id::RouterScope;
pub use crate::id::SessionScope;
pub use crate::json::ConversionError;
pub use crate::json::Json;
pub use crate::json::JsonModel;
pub use crate::router_message::RouterMessage;
pub use crate::session::DropReason;
pub use crate::session::Frame;
pub use crate::session::FrameAction;
pub use crate::session::Outcome;
pub use crate::session::PendingCall;
pub use crate::session::PendingRegistration;
pub use crate::session::Route;
pub use crate::session::Session;
pub use crate::transportable_value::Dict;
pub use crate::transportable_value::TransportableValue;
pub use crate::transportable_value::ValueModel;
pub use crate::uri::Uri;
