//! The protocol engine of one session: what to do with each frame and each
//! message of the router, and the bookkeeping of the requests that await a
//! reply. The engine decides; reading, writing, waiting and running handlers
//! are left to its caller.

use std::collections::HashMap;
use vstd::prelude::*;
use crate::client_message::ClientMessage;
use crate::codec::decode;
use crate::codec::json_parse;
use crate::id::Id;
use crate::id::IdAllocator;
use crate::id::RouterScope;
use crate::id::SessionScope;
use crate::json::array_model;
use crate::json::unsigned_of;
use crate::json::Json;
use crate::json::JsonModel;
use crate::msg_code;
use crate::transportable_value::Dict;
use crate::transportable_value::List;
use crate::transportable_value::ValueModel;
use crate::uri::Uri;

verus! {

/// A frame of the transport, with its payload as bytes.
#[derive(Debug, PartialEq, Eq)]
pub enum Frame {
    Text(Vec<u8>),
    Binary(Vec<u8>),
    Ping(Vec<u8>),
    Pong(Vec<u8>),
    Close,
}

/// What the reader does with a frame.
#[derive(Debug, PartialEq, Eq)]
pub enum FrameAction {
    /// Hand the payload to the decoder.
    Decode(Vec<u8>),
    /// Write this frame back at once.
    Reply(Frame),
    /// The frame breaks the protocol: the session ends.
    Fatal,
}

/// Decides what the reader does with a frame: the payload of a text or a
/// binary frame goes to the decoder, a ping is answered by a pong with the
/// same payload, and any other frame ends the session.
pub fn on_frame(frame: Frame) -> (action: FrameAction)
    ensures
        action == match frame {
            Frame::Text(data) => FrameAction::Decode(data),
            Frame::Binary(data) => FrameAction::Decode(data),
            Frame::Ping(data) => FrameAction::Reply(Frame::Pong(data)),
            Frame::Pong(_) => FrameAction::Fatal,
            Frame::Close => FrameAction::Fatal,
        },
{
    match frame {
        Frame::Text(data) => FrameAction::Decode(data),
        Frame::Binary(data) => FrameAction::Decode(data),
        Frame::Ping(data) => FrameAction::Reply(Frame::Pong(data)),
        Frame::Pong(_) => FrameAction::Fatal,
        Frame::Close => FrameAction::Fatal,
    }
}

/// Where a message of the router goes, by its code.
#[derive(Clone, Copy, Debug, PartialEq, Eq, Structural)]
pub enum Route {
    /// To the handler of authentication challenges.
    Challenge,
    /// To the handler of completed registrations.
    Registered,
    /// To the handler of invocations.
    Invocation,
    /// To the handler of call results.
    Result,
    /// A message of the protocol that no handler takes.
    Unhandled,
    /// No message that a router sends has this code.
    Unknown,
}

/// Whether a router sends messages with this code.
pub open spec fn is_router_code(code: u64) -> bool {
    ||| code == msg_code::WELCOME
    ||| code == msg_code::ABORT
    ||| code == msg_code::CHALLENGE
    ||| code == msg_code::GOODBYE
    ||| code == msg_code::ERROR
    ||| code == msg_code::SUBSCRIBED
    ||| code == msg_code::UNSUBSCRIBED
    ||| code == msg_code::EVENT
    ||| code == msg_code::PUBLISHED
    ||| code == msg_code::REGISTERED
    ||| code == msg_code::UNREGISTERED
    ||| code == msg_code::INVOCATION
    ||| code == msg_code::RESULT
}

/// The route of each code.
pub open spec fn route_of(code: u64) -> Route {
    if code == msg_code::CHALLENGE {
        Route::Challenge
    } else if code == msg_code::REGISTERED {
        Route::Registered
    } else if code == msg_code::INVOCATION {
        Route::Invocation
    } else if code == msg_code::RESULT {
        Route::Result
    } else if is_router_code(code) {
        Route::Unhandled
    } else {
        Route::Unknown
    }
}

/// Every code that a router sends goes to a handler or is left unhandled,
/// and every other code is unknown.
pub proof fn lemma_route_total(code: u64)
    ensures
        is_router_code(code) <==> route_of(code) != Route::Unknown,
        route_of(code) == Route::Unhandled <==> {
            ||| code == msg_code::WELCOME
            ||| code == msg_code::ABORT
            ||| code == msg_code::GOODBYE
            ||| code == msg_code::ERROR
            ||| code == msg_code::SUBSCRIBED
            ||| code == msg_code::UNSUBSCRIBED
            ||| code == msg_code::EVENT
            ||| code == msg_code::PUBLISHED
            ||| code == msg_code::UNREGISTERED
        },
{
}

/// Finds the route of a code.
pub fn route(code: u64) -> (route: Route)
    ensures
        route == route_of(code),
{
    match code {
        msg_code::CHALLENGE => Route::Challenge,
        msg_code::REGISTERED => Route::Registered,
        msg_code::INVOCATION => Route::Invocation,
        msg_code::RESULT => Route::Result,
        msg_code::WELCOME | msg_code::ABORT | msg_code::GOODBYE | msg_code::ERROR => Route::Unhandled,
        msg_code::SUBSCRIBED | msg_code::UNSUBSCRIBED | msg_code::EVENT => Route::Unhandled,
        msg_code::PUBLISHED | msg_code::UNREGISTERED => Route::Unhandled,
        _ => Route::Unknown,
    }
}

/// Why a message was dropped. The session goes on.
#[derive(Clone, Copy, Debug, PartialEq, Eq, Structural)]
pub enum DropReason {
    /// The bytes are not a JSON document.
    Malformed,
    /// The document is not an array.
    NotAnArray,
    /// The array is empty.
    MissingCode,
    /// The first element of the array is not an unsigned integer.
    CodeNotInteger,
    /// No message that a router sends has this code.
    UnknownCode(u64),
    /// A message of the protocol that no handler takes.
    Unhandled(u64),
    /// A field that a handler reads is missing or is not an unsigned integer.
    BadField,
    /// A registration was confirmed that no request awaits.
    NoPendingRegistration(u64),
    /// A result came that no call awaits.
    NoPendingCall(u64),
    /// A procedure was invoked that is not registered.
    NoSuchProcedure(u64),
}

/// The code and the elements of a message, or the reason why the document is
/// no message. The elements include the code, at index 0.
pub open spec fn envelope_of(message: JsonModel) -> Result<(u64, Seq<JsonModel>), DropReason> {
    match message {
        JsonModel::Array(items) => if items.len() == 0 {
            Err(DropReason::MissingCode)
        } else {
            match unsigned_of(items[0]) {
                Some(code) => Ok((code, items)),
                None => Err(DropReason::CodeNotInteger),
            }
        },
        _ => Err(DropReason::NotAnArray),
    }
}

/// The unsigned integer at index `k` of a message, if there is one.
pub open spec fn field_u64(items: Seq<JsonModel>, k: int) -> Option<u64> {
    if 0 <= k < items.len() {
        unsigned_of(items[k])
    } else {
        None
    }
}

/// Reads the code of a message and checks its outer shape.
pub fn envelope(message: &Json) -> (r: Result<(u64, &Vec<Json>), DropReason>)
    ensures
        match envelope_of(message.model()) {
            Ok((code, items)) => r.is_ok() && r.unwrap().0 == code && array_model(*r.unwrap().1)
                == items && *message == Json::Array(*r.unwrap().1),
            Err(reason) => r == Err::<(u64, &Vec<Json>), DropReason>(reason),
        },
{
    match message {
        Json::Array(items) => {
            if items.len() == 0 {
                return Err(DropReason::MissingCode);
            }
            assert(array_model(*items)[0] == items@[0].model());
            match items[0].as_u64() {
                Some(code) => Ok((code, items)),
                None => Err(DropReason::CodeNotInteger),
            }
        },
        _ => Err(DropReason::NotAnArray),
    }
}

/// Reads the unsigned integer at index `k` of a message.
fn read_u64(items: &Vec<Json>, k: usize) -> (r: Option<u64>)
    ensures
        r == field_u64(array_model(*items), k as int),
{
    if k < items.len() {
        assert(array_model(*items)[k as int] == items@[k as int].model());
        items[k].as_u64()
    } else {
        None
    }
}

/// A registration that was sent and not yet confirmed.
#[derive(Debug)]
pub struct PendingRegistration<R, H> {
    /// Completes the request.
    pub resolver: R,
    /// Serves the invocations of the procedure once it is registered.
    pub handler: H,
}

/// A call that was sent and not yet answered.
#[derive(Debug)]
pub struct PendingCall<R> {
    /// Completes the request.
    pub resolver: R,
}

/// What the caller of the engine does after a message was handled.
#[derive(Debug)]
#[allow(inconsistent_fields)]
pub enum Outcome<R> {
    /// Send this message to the router.
    Send(ClientMessage),
    /// A registration was confirmed: its handler now serves `registration`.
    /// Complete the request with `resolver`.
    Registered { request: Id<SessionScope>, registration: Id<RouterScope>, resolver: R },
    /// Run the handler of `registration`, then send the yield for `request`.
    Invoke { request: Id<RouterScope>, registration: Id<RouterScope> },
    /// A call was answered. Complete the request with `resolver`.
    CallResolved { request: Id<SessionScope>, resolver: R },
    /// The message was dropped.
    Dropped(DropReason),
}

/// The state of one session: the counter of request ids, the credential, the
/// requests that await a reply, and the registered procedures.
pub struct Session<R, H> {
    ids: IdAllocator<SessionScope>,
    credential: String,
    registrations: HashMap<u64, PendingRegistration<R, H>>,
    calls: HashMap<u64, PendingCall<R>>,
    procedures: HashMap<u64, H>,
}

impl<R, H> Session<R, H> {
    /// The last request id that was assigned, 0 where there is none.
    pub closed spec fn issued(&self) -> u64 {
        self.ids.issued()
    }

    /// The credential that answers a challenge.
    pub closed spec fn credential(&self) -> Seq<char> {
        self.credential@
    }

    /// The registrations that await their confirmation, by request id.
    pub closed spec fn pending_registrations(&self) -> Map<u64, PendingRegistration<R, H>> {
        self.registrations@
    }

    /// The calls that await their result, by request id.
    pub closed spec fn pending_calls(&self) -> Map<u64, PendingCall<R>> {
        self.calls@
    }

    /// The handlers of the registered procedures, by registration id.
    pub closed spec fn procedures(&self) -> Map<u64, H> {
        self.procedures@
    }

    /// Every request that awaits a reply has an id that was assigned.
    pub open spec fn wf(&self) -> bool {
        &&& forall|k: u64| #[trigger]
            self.pending_registrations().contains_key(k) ==> 1 <= k <= self.issued()
        &&& forall|k: u64| #[trigger] self.pending_calls().contains_key(k) ==> 1 <= k <= self.issued()
    }

    /// Whether another request id can be assigned.
    pub open spec fn has_next_id(&self) -> bool {
        self.issued() < u64::MAX
    }

    /// Whether `post` is this state.
    pub open spec fn same_state(&self, post: &Self) -> bool {
        &&& post.issued() == self.issued()
        &&& post.credential() == self.credential()
        &&& post.pending_registrations() == self.pending_registrations()
        &&& post.pending_calls() == self.pending_calls()
        &&& post.procedures() == self.procedures()
    }

    /// A challenge is answered with the credential, and changes nothing.
    pub open spec fn challenge_step(&self, post: &Self, outcome: Outcome<R>) -> bool {
        &&& self.same_state(post)
        &&& outcome matches Outcome::Send(ClientMessage::Authenticate { signature, extra })
        &&& signature@ == self.credential()
        &&& extra.entries_model() == Seq::<(Seq<char>, ValueModel)>::empty()
    }

    /// A confirmation with request id and registration id moves the handler
    /// of the pending registration to the procedures and hands out its
    /// resolver. Where no such registration is pending, or an id is missing,
    /// nothing changes.
    pub open spec fn registered_step(
        &self,
        items: Seq<JsonModel>,
        post: &Self,
        outcome: Outcome<R>,
    ) -> bool {
        match (field_u64(items, 1), field_u64(items, 2)) {
            (Some(request), Some(registration)) => {
                if self.pending_registrations().contains_key(request) {
                    &&& post.issued() == self.issued()
                    &&& post.credential() == self.credential()
                    &&& post.pending_calls() == self.pending_calls()
                    &&& post.pending_registrations() == self.pending_registrations().remove(request)
                    &&& post.procedures() == self.procedures().insert(
                        registration,
                        self.pending_registrations()[request].handler,
                    )
                    &&& outcome matches Outcome::Registered { request: q, registration: g, resolver }
                    &&& q@ == request
                    &&& g@ == registration
                    &&& resolver == self.pending_registrations()[request].resolver
                } else {
                    &&& self.same_state(post)
                    &&& outcome == Outcome::<R>::Dropped(DropReason::NoPendingRegistration(request))
                }
            },
            _ => {
                &&& self.same_state(post)
                &&& outcome == Outcome::<R>::Dropped(DropReason::BadField)
            },
        }
    }

    /// An invocation with request id and registration id asks for the
    /// handler to be run where the procedure is registered. Nothing changes.
    pub open spec fn invocation_step(
        &self,
        items: Seq<JsonModel>,
        post: &Self,
        outcome: Outcome<R>,
    ) -> bool {
        &&& self.same_state(post)
        &&& match (field_u64(items, 1), field_u64(items, 2)) {
            (Some(request), Some(registration)) => {
                if self.procedures().contains_key(registration) {
                    &&& outcome matches Outcome::Invoke { request: q, registration: g }
                    &&& q@ == request
                    &&& g@ == registration
                } else {
                    outcome == Outcome::<R>::Dropped(DropReason::NoSuchProcedure(registration))
                }
            },
            _ => outcome == Outcome::<R>::Dropped(DropReason::BadField),
        }
    }

    /// A result with a request id removes the pending call and hands out its
    /// resolver. Where no such call is pending, or the id is missing, nothing
    /// changes.
    pub open spec fn result_step(&self, items: Seq<JsonModel>, post: &Self, outcome: Outcome<R>) -> bool {
        match field_u64(items, 1) {
            Some(request) => {
                if self.pending_calls().contains_key(request) {
                    &&& post.issued() == self.issued()
                    &&& post.credential() == self.credential()
                    &&& post.pending_registrations() == self.pending_registrations()
                    &&& post.procedures() == self.procedures()
                    &&& post.pending_calls() == self.pending_calls().remove(request)
                    &&& outcome matches Outcome::CallResolved { request: q, resolver }
                    &&& q@ == request
                    &&& resolver == self.pending_calls()[request].resolver
                } else {
                    &&& self.same_state(post)
                    &&& outcome == Outcome::<R>::Dropped(DropReason::NoPendingCall(request))
                }
            },
            None => {
                &&& self.same_state(post)
                &&& outcome == Outcome::<R>::Dropped(DropReason::BadField)
            },
        }
    }

    /// Whether `post` is this state after a registration was sent with the
    /// next request id, which now awaits its confirmation with `resolver`
    /// and `handler`.
    pub open spec fn registers(&self, post: &Self, resolver: R, handler: H) -> bool {
        &&& post.issued() == self.issued() + 1
        &&& post.credential() == self.credential()
        &&& post.pending_calls() == self.pending_calls()
        &&& post.procedures() == self.procedures()
        &&& post.pending_registrations() == self.pending_registrations().insert(
            post.issued(),
            (PendingRegistration { resolver, handler }),
        )
    }

    /// Whether `post` is this state after a call was sent with the next
    /// request id, which now awaits its result with `resolver`.
    pub open spec fn places_call(&self, post: &Self, resolver: R) -> bool {
        &&& post.issued() == self.issued() + 1
        &&& post.credential() == self.credential()
        &&& post.pending_registrations() == self.pending_registrations()
        &&& post.procedures() == self.procedures()
        &&& post.pending_calls() == self.pending_calls().insert(
            post.issued(),
            (PendingCall { resolver }),
        )
    }

    /// What handling a message does to the state, and what comes of it.
    pub open spec fn step(&self, message: JsonModel, post: &Self, outcome: Outcome<R>) -> bool {
        match envelope_of(message) {
            Err(reason) => self.same_state(post) && outcome == Outcome::<R>::Dropped(reason),
            Ok((code, items)) => match route_of(code) {
                Route::Challenge => self.challenge_step(post, outcome),
                Route::Registered => self.registered_step(items, post, outcome),
                Route::Invocation => self.invocation_step(items, post, outcome),
                Route::Result => self.result_step(items, post, outcome),
                Route::Unhandled => self.same_state(post) && outcome == Outcome::<R>::Dropped(
                    DropReason::Unhandled(code),
                ),
                Route::Unknown => self.same_state(post) && outcome == Outcome::<R>::Dropped(
                    DropReason::UnknownCode(code),
                ),
            },
        }
    }

    /// A session in which nothing was sent yet.
    pub fn new(credential: String) -> (session: Self)
        ensures
            session.wf(),
            session.issued() == 0,
            session.credential() == credential@,
            session.pending_registrations() == Map::<u64, PendingRegistration<R, H>>::empty(),
            session.pending_calls() == Map::<u64, PendingCall<R>>::empty(),
            session.procedures() == Map::<u64, H>::empty(),
    {
        Session {
            ids: IdAllocator::new(),
            credential,
            registrations: HashMap::new(),
            calls: HashMap::new(),
            procedures: HashMap::new(),
        }
    }

    /// Answers a challenge.
    fn handle_challenge(&self) -> (outcome: Outcome<R>)
        ensures
            self.challenge_step(self, outcome),
    {
        Outcome::Send(
            ClientMessage::Authenticate { signature: self.credential.clone(), extra: Dict::new() },
        )
    }

    /// Handles the confirmation of a registration.
    fn handle_registered(&mut self, items: &Vec<Json>) -> (outcome: Outcome<R>)
        ensures
            old(self).registered_step(array_model(*items), final(self), outcome),
    {
        let request = match read_u64(items, 1) {
            Some(request) => request,
            None => {
                return Outcome::Dropped(DropReason::BadField);
            },
        };
        let registration = match read_u64(items, 2) {
            Some(registration) => registration,
            None => {
                return Outcome::Dropped(DropReason::BadField);
            },
        };
        match self.registrations.remove(&request) {
            Some(pending) => {
                self.procedures.insert(registration, pending.handler);
                Outcome::Registered {
                    request: Id::from_raw_value(request),
                    registration: Id::from_raw_value(registration),
                    resolver: pending.resolver,
                }
            },
            None => {
                assert(final(self).registrations@ =~= old(self).registrations@);
                Outcome::Dropped(DropReason::NoPendingRegistration(request))
            },
        }
    }

    /// Handles an invocation.
    fn handle_invocation(&self, items: &Vec<Json>) -> (outcome: Outcome<R>)
        ensures
            self.invocation_step(array_model(*items), self, outcome),
    {
        let request = match read_u64(items, 1) {
            Some(request) => request,
            None => {
                return Outcome::Dropped(DropReason::BadField);
            },
        };
        let registration = match read_u64(items, 2) {
            Some(registration) => registration,
            None => {
                return Outcome::Dropped(DropReason::BadField);
            },
        };
        if self.procedures.contains_key(&registration) {
            Outcome::Invoke {
                request: Id::from_raw_value(request),
                registration: Id::from_raw_value(registration),
            }
        } else {
            Outcome::Dropped(DropReason::NoSuchProcedure(registration))
        }
    }

    /// Handles the result of a call.
    fn handle_result(&mut self, items: &Vec<Json>) -> (outcome: Outcome<R>)
        ensures
            old(self).result_step(array_model(*items), final(self), outcome),
    {
        let request = match read_u64(items, 1) {
            Some(request) => request,
            None => {
                return Outcome::Dropped(DropReason::BadField);
            },
        };
        match self.calls.remove(&request) {
            Some(pending) => Outcome::CallResolved {
                request: Id::from_raw_value(request),
                resolver: pending.resolver,
            },
            None => {
                assert(final(self).calls@ =~= old(self).calls@);
                Outcome::Dropped(DropReason::NoPendingCall(request))
            },
        }
    }

    /// Handles one message of the router: checks its outer shape, finds the
    /// route of its code, and lets the handler of that route act. A message
    /// that is misshapen, unknown or unexpected is dropped and changes
    /// nothing.
    pub fn handle_message(&mut self, message: &Json) -> (outcome: Outcome<R>)
        ensures
            old(self).step(message.model(), final(self), outcome),
            old(self).wf() ==> final(self).wf(),
    {
        let (code, items) = match envelope(message) {
            Ok(pair) => pair,
            Err(reason) => {
                return Outcome::Dropped(reason);
            },
        };
        match route(code) {
            Route::Challenge => self.handle_challenge(),
            Route::Registered => self.handle_registered(items),
            Route::Invocation => self.handle_invocation(items),
            Route::Result => self.handle_result(items),
            Route::Unhandled => Outcome::Dropped(DropReason::Unhandled(code)),
            Route::Unknown => Outcome::Dropped(DropReason::UnknownCode(code)),
        }
    }

    /// Decodes the bytes of one frame and handles the message. Bytes that
    /// are not JSON are dropped and change nothing.
    pub fn receive(&mut self, data: &[u8]) -> (outcome: Outcome<R>)
        ensures
            match json_parse(data@) {
                Some(message) => old(self).step(message, final(self), outcome),
                None => old(self).same_state(final(self)) && outcome == Outcome::<R>::Dropped(
                    DropReason::Malformed,
                ),
            },
            old(self).wf() ==> final(self).wf(),
    {
        match decode(data) {
            Some(message) => self.handle_message(&message),
            None => Outcome::Dropped(DropReason::Malformed),
        }
    }

    /// Assigns the next request id to a registration, keeps the resolver and
    /// the handler until the router confirms it, and makes the message to
    /// send. The id was never pending before.
    pub fn register(&mut self, procedure: Uri, resolver: R, handler: H) -> (message: ClientMessage)
        requires
            old(self).has_next_id(),
        ensures
            old(self).registers(final(self), resolver, handler),
            old(self).wf() ==> final(self).wf() && !old(self).pending_registrations().contains_key(
                final(self).issued(),
            ) && !old(self).pending_calls().contains_key(final(self).issued()),
            message matches ClientMessage::Register { request, options, procedure: p },
            message->Register_request@ == final(self).issued(),
            message->Register_options.entries_model() == Seq::<(Seq<char>, ValueModel)>::empty(),
            message->Register_procedure@ == procedure@,
    {
        let request: Id<SessionScope> = self.ids.next();
        self.registrations.insert(request.value(), PendingRegistration { resolver, handler });
        proof {
            if old(self).wf() {
                lemma_fresh_id(*old(self));
            }
            assert forall|k: u64| #[trigger]
                final(self).pending_registrations().contains_key(k) && old(self).wf() implies 1
                <= k <= final(self).issued() by {
                if k != request@ {
                    assert(old(self).pending_registrations().contains_key(k));
                }
            }
            assert forall|k: u64| #[trigger]
                final(self).pending_calls().contains_key(k) && old(self).wf() implies 1 <= k
                <= final(self).issued() by {
                assert(old(self).pending_calls().contains_key(k));
            }
        }
        ClientMessage::Register { request, options: Dict::new(), procedure }
    }

    /// Assigns the next request id to a call, keeps the resolver until the
    /// result comes, and makes the message to send. The id was never pending
    /// before.
    pub fn call(
        &mut self,
        procedure: Uri,
        arguments: Option<List>,
        arguments_kw: Option<Dict>,
        resolver: R,
    ) -> (message: ClientMessage)
        requires
            old(self).has_next_id(),
        ensures
            old(self).places_call(final(self), resolver),
            old(self).wf() ==> final(self).wf() && !old(self).pending_registrations().contains_key(
                final(self).issued(),
            ) && !old(self).pending_calls().contains_key(final(self).issued()),
            message matches ClientMessage::Call { request, options, procedure: p, arguments: a, arguments_kw: k },
            message->Call_request@ == final(self).issued(),
            message->Call_options.entries_model() == Seq::<(Seq<char>, ValueModel)>::empty(),
            message->Call_procedure@ == procedure@,
            message->Call_arguments == arguments,
            message->Call_arguments_kw == arguments_kw,
    {
        let request: Id<SessionScope> = self.ids.next();
        self.calls.insert(request.value(), PendingCall { resolver });
        proof {
            if old(self).wf() {
                lemma_fresh_id(*old(self));
            }
            assert forall|k: u64| #[trigger]
                final(self).pending_calls().contains_key(k) && old(self).wf() implies 1 <= k
                <= final(self).issued() by {
                if k != request@ {
                    assert(old(self).pending_calls().contains_key(k));
                }
            }
            assert forall|k: u64| #[trigger]
                final(self).pending_registrations().contains_key(k) && old(self).wf() implies 1
                <= k <= final(self).issued() by {
                assert(old(self).pending_registrations().contains_key(k));
            }
        }
        ClientMessage::Call { request, options: Dict::new(), procedure, arguments, arguments_kw }
    }

    /// Whether another request id can be assigned.
    pub fn ids_left(&self) -> (left: bool)
        ensures
            left == self.has_next_id(),
    {
        self.ids.last_issued() < u64::MAX
    }

    /// The handler of a registered procedure.
    pub fn procedure(&self, registration: Id<RouterScope>) -> (handler: Option<&H>)
        ensures
            match handler {
                Some(h) => self.procedures().contains_key(registration@) && *h
                    == self.procedures()[registration@],
                None => !self.procedures().contains_key(registration@),
            },
    {
        let key: u64 = registration.value();
        self.procedures.get(&key)
    }

    /// How many registrations await their confirmation.
    pub fn pending_registration_count(&self) -> (n: usize)
        ensures
            n == self.pending_registrations().len(),
    {
        self.registrations.len()
    }

    /// How many calls await their result.
    pub fn pending_call_count(&self) -> (n: usize)
        ensures
            n == self.pending_calls().len(),
    {
        self.calls.len()
    }
}

/// The message that ends an invocation: a yield for its request id,
/// without options, that carries what the handler returned.
pub fn yield_for(
    request: Id<RouterScope>,
    arguments: Option<List>,
    arguments_kw: Option<Dict>,
) -> (message: ClientMessage)
    ensures
        message matches ClientMessage::Yield { request: q, options, arguments: a, arguments_kw: k },
        message->Yield_request == request,
        message->Yield_options.entries_model() == Seq::<(Seq<char>, ValueModel)>::empty(),
        message->Yield_arguments == arguments,
        message->Yield_arguments_kw == arguments_kw,
{
    ClientMessage::Yield { request, options: Dict::new(), arguments, arguments_kw }
}

/// In a well-formed session no pending request has the id that comes next:
/// an id is never assigned while a request with it is pending.
pub proof fn lemma_fresh_id<R, H>(session: Session<R, H>)
    requires
        session.wf(),
        session.has_next_id(),
    ensures
        !session.pending_registrations().contains_key((session.issued() + 1) as u64),
        !session.pending_calls().contains_key((session.issued() + 1) as u64),
{
    let next = (session.issued() + 1) as u64;
    if session.pending_registrations().contains_key(next) {
        assert(next <= session.issued());
    }
    if session.pending_calls().contains_key(next) {
        assert(next <= session.issued());
    }
}

/// Whether a message confirms the registration sent with `request`, under
/// the id `registration`.
pub open spec fn confirms(message: JsonModel, request: u64, registration: u64) -> bool {
    &&& message matches JsonModel::Array(items)
    &&& field_u64(items, 0) == Some(msg_code::REGISTERED)
    &&& field_u64(items, 1) == Some(request)
    &&& field_u64(items, 2) == Some(registration)
}

/// Whether a message is the result of the call sent with `request`.
pub open spec fn answers(message: JsonModel, request: u64) -> bool {
    &&& message matches JsonModel::Array(items)
    &&& field_u64(items, 0) == Some(msg_code::RESULT)
    &&& field_u64(items, 1) == Some(request)
}

/// A registration that is sent and then confirmed resolves once: the first
/// confirmation hands out the resolver that was submitted, makes the
/// registration id resolve to the handler that was submitted, and leaves the
/// pending registrations as they were before the request. A second
/// confirmation of the same request is dropped and changes nothing.
pub proof fn lemma_registration_resolves_once<R, H>(
    start: Session<R, H>,
    sent: Session<R, H>,
    confirmed: Session<R, H>,
    after: Session<R, H>,
    resolver: R,
    handler: H,
    registration: u64,
    message: JsonModel,
    first: Outcome<R>,
    second: Outcome<R>,
)
    requires
        start.wf(),
        start.has_next_id(),
        start.registers(&sent, resolver, handler),
        confirms(message, sent.issued(), registration),
        sent.step(message, &confirmed, first),
        confirmed.step(message, &after, second),
    ensures
        first matches Outcome::Registered { request, registration: g, resolver: x } && request@
            == sent.issued() && g@ == registration && x == resolver,
        confirmed.procedures().contains_key(registration),
        confirmed.procedures()[registration] == handler,
        confirmed.pending_registrations() == start.pending_registrations(),
        confirmed.same_state(&after),
        second == Outcome::<R>::Dropped(DropReason::NoPendingRegistration(sent.issued())),
{
    lemma_fresh_id(start);
    assert(sent.pending_registrations().remove(sent.issued()) =~= start.pending_registrations());
}

/// A call that is sent and then answered completes once: the first result
/// hands out the resolver that was submitted and leaves the pending calls as
/// they were before the call, so that nothing of it remains. A second result
/// for the same request is dropped and changes nothing.
pub proof fn lemma_call_resolves_once<R, H>(
    start: Session<R, H>,
    sent: Session<R, H>,
    answered: Session<R, H>,
    after: Session<R, H>,
    resolver: R,
    message: JsonModel,
    first: Outcome<R>,
    second: Outcome<R>,
)
    requires
        start.wf(),
        start.has_next_id(),
        start.places_call(&sent, resolver),
        answers(message, sent.issued()),
        sent.step(message, &answered, first),
        answered.step(message, &after, second),
    ensures
        first matches Outcome::CallResolved { request, resolver: x } && request@ == sent.issued()
            && x == resolver,
        answered.pending_calls() == start.pending_calls(),
        answered.pending_registrations() == start.pending_registrations(),
        answered.procedures() == start.procedures(),
        answered.same_state(&after),
        second == Outcome::<R>::Dropped(DropReason::NoPendingCall(sent.issued())),
{
    lemma_fresh_id(start);
    assert(sent.pending_calls().remove(sent.issued()) =~= start.pending_calls());
}

/// Results that answer calls other than a pending one leave it pending:
/// each call is completed only by its own result.
pub proof fn lemma_other_results_keep_call<R, H>(
    before: Session<R, H>,
    after: Session<R, H>,
    request: u64,
    message: JsonModel,
    outcome: Outcome<R>,
)
    requires
        before.pending_calls().contains_key(request),
        !answers(message, request),
        before.step(message, &after, outcome),
    ensures
        after.pending_calls().contains_key(request),
        after.pending_calls()[request] == before.pending_calls()[request],
{
}

/// No message of the router removes a registered procedure or replaces the
/// counter of request ids: whatever is handled, every procedure that was
/// registered stays registered.
pub proof fn lemma_procedures_stay<R, H>(
    before: Session<R, H>,
    after: Session<R, H>,
    message: JsonModel,
    outcome: Outcome<R>,
    registration: u64,
)
    requires
        before.step(message, &after, outcome),
        before.procedures().contains_key(registration),
    ensures
        after.procedures().contains_key(registration),
        after.issued() == before.issued(),
        after.credential() == before.credential(),
{
}

} // verus!
