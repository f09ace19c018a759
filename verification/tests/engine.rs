use wamp_client::codec::encode;
use wamp_client::session::envelope;
use wamp_client::session::on_frame;
use wamp_client::session::route;
use wamp_client::session::yield_for;
use wamp_client::ClientMessage;
use wamp_client::DropReason;
use wamp_client::Frame;
use wamp_client::FrameAction;
use wamp_client::Id;
use wamp_client::Json;
use wamp_client::Outcome;
use wamp_client::Route;
use wamp_client::Session;
use wamp_client::TransportableValue;
use wamp_client::Uri;

fn uri(s: &str) -> Uri {
    Uri::relaxed(s).unwrap()
}

fn session() -> Session<u32, &'static str> {
    Session::new("test".to_owned())
}

fn dropped<R>(outcome: Outcome<R>) -> DropReason {
    match outcome {
        Outcome::Dropped(reason) => reason,
        _ => panic!("the message was not dropped"),
    }
}

#[test]
fn frames_are_decoded_answered_or_fatal() {
    assert_eq!(on_frame(Frame::Text(b"[1]".to_vec())), FrameAction::Decode(b"[1]".to_vec()));
    assert_eq!(on_frame(Frame::Binary(vec![1, 2, 3])), FrameAction::Decode(vec![1, 2, 3]));
    assert_eq!(on_frame(Frame::Ping(vec![9, 8])), FrameAction::Reply(Frame::Pong(vec![9, 8])));
    assert_eq!(on_frame(Frame::Ping(vec![])), FrameAction::Reply(Frame::Pong(vec![])));
    assert_eq!(on_frame(Frame::Pong(vec![1])), FrameAction::Fatal);
    assert_eq!(on_frame(Frame::Close), FrameAction::Fatal);
}

#[test]
fn every_router_code_has_a_route() {
    assert_eq!(route(4), Route::Challenge);
    assert_eq!(route(65), Route::Registered);
    assert_eq!(route(68), Route::Invocation);
    assert_eq!(route(50), Route::Result);
    for code in [2u64, 3, 6, 8, 33, 35, 36, 17, 67] {
        assert_eq!(route(code), Route::Unhandled);
    }
}

#[test]
fn other_codes_are_unknown() {
    for code in [0u64, 1, 5, 7, 16, 32, 34, 48, 49, 64, 66, 69, 70, 999, u64::MAX] {
        assert_eq!(route(code), Route::Unknown);
    }
}

#[test]
fn undefined_code_is_dropped() {
    let mut s = session();
    assert_eq!(dropped(s.receive(b"[999]")), DropReason::UnknownCode(999));
    assert_eq!(dropped(s.receive(b"[2,1,{}]")), DropReason::Unhandled(2));
    assert_eq!(s.pending_call_count(), 0);
    assert_eq!(s.pending_registration_count(), 0);
}

#[test]
fn misshapen_messages_are_dropped() {
    let mut s = session();
    assert_eq!(dropped(s.receive(b"not json")), DropReason::Malformed);
    assert_eq!(dropped(s.receive(b"{\"a\":1}")), DropReason::NotAnArray);
    assert_eq!(dropped(s.receive(b"7")), DropReason::NotAnArray);
    assert_eq!(dropped(s.receive(b"[]")), DropReason::MissingCode);
    assert_eq!(dropped(s.receive(b"[\"65\",1,2]")), DropReason::CodeNotInteger);
    assert_eq!(dropped(s.receive(b"[-4]")), DropReason::CodeNotInteger);
    assert_eq!(dropped(s.receive(b"[65]")), DropReason::BadField);
    assert_eq!(dropped(s.receive(b"[65,1]")), DropReason::BadField);
    assert_eq!(dropped(s.receive(b"[65,\"1\",2]")), DropReason::BadField);
    assert_eq!(dropped(s.receive(b"[65,1,null]")), DropReason::BadField);
    assert_eq!(dropped(s.receive(b"[68,9]")), DropReason::BadField);
    assert_eq!(dropped(s.receive(b"[50]")), DropReason::BadField);
    assert_eq!(dropped(s.receive(b"[50,1.5]")), DropReason::BadField);
}

#[test]
fn envelope_gives_code_and_elements() {
    let message = Json::Array(vec![Json::Unsigned(65), Json::Unsigned(1), Json::Unsigned(77)]);
    let (code, items) = envelope(&message).unwrap();
    assert_eq!(code, 65);
    assert_eq!(items.len(), 3);
    assert_eq!(items[2], Json::Unsigned(77));
    assert_eq!(envelope(&Json::Null), Err(DropReason::NotAnArray));
    assert_eq!(envelope(&Json::Array(vec![])), Err(DropReason::MissingCode));
    assert_eq!(envelope(&Json::Array(vec![Json::Bool(true)])), Err(DropReason::CodeNotInteger));
}

#[test]
fn replies_without_a_pending_request_are_dropped() {
    let mut s = session();
    assert_eq!(dropped(s.receive(b"[65,1,77]")), DropReason::NoPendingRegistration(1));
    assert_eq!(dropped(s.receive(b"[50,3,{}]")), DropReason::NoPendingCall(3));
    assert_eq!(dropped(s.receive(b"[68,9,77,{}]")), DropReason::NoSuchProcedure(77));
    assert!(s.procedure(Id::from_raw_value(77)).is_none());
}

#[test]
fn challenge_is_answered_with_the_credential() {
    let mut s = session();
    match s.receive(b"[4,\"ticket\",{}]") {
        Outcome::Send(message) => assert_eq!(encode(&message), "[5,\"test\",{}]"),
        _ => panic!("no answer to the challenge"),
    }
}

#[test]
fn registration_resolves_once() {
    let mut s = session();
    for i in 1..7u32 {
        s.register(uri("com.demo.other"), i, "other");
    }
    let message = s.register(uri("com.demo.seven"), 7, "seven");
    assert_eq!(encode(&message), "[64,7,{},\"com.demo.seven\"]");
    assert_eq!(s.pending_registration_count(), 7);
    match s.receive(b"[65,7,42]") {
        Outcome::Registered { request, registration, resolver } => {
            assert_eq!(request.value(), 7);
            assert_eq!(registration.value(), 42);
            assert_eq!(resolver, 7);
        }
        _ => panic!("the registration did not resolve"),
    }
    assert_eq!(s.procedure(Id::from_raw_value(42)), Some(&"seven"));
    assert_eq!(s.pending_registration_count(), 6);
    assert_eq!(dropped(s.receive(b"[65,7,42]")), DropReason::NoPendingRegistration(7));
    assert_eq!(s.procedure(Id::from_raw_value(42)), Some(&"seven"));
    assert_eq!(s.pending_registration_count(), 6);
}

#[test]
fn one_thousand_calls_complete_exactly_once() {
    let mut s = session();
    let mut sent = Vec::new();
    for i in 0..1000u32 {
        let message = s.call(uri("com.demo.echo"), Some(vec![TransportableValue::String("frol".to_owned())]), None, i);
        match message {
            ClientMessage::Call { request, .. } => sent.push((request.value(), i)),
            _ => panic!("not a call"),
        }
    }
    assert_eq!(s.pending_call_count(), 1000);
    let mut order: Vec<usize> = (0..1000).collect();
    order.reverse();
    order.sort_by_key(|k| (k * 7919) % 1000);
    let mut completed = vec![0u32; 1000];
    for k in order.iter() {
        let (request, resolver) = sent[*k];
        let bytes = format!("[50,{},{{}}]", request).into_bytes();
        match s.receive(&bytes) {
            Outcome::CallResolved { request: q, resolver: r } => {
                assert_eq!(q.value(), request);
                assert_eq!(r, resolver);
                completed[*k] += 1;
            }
            _ => panic!("the call did not resolve"),
        }
    }
    assert!(completed.iter().all(|n| *n == 1));
    assert_eq!(s.pending_call_count(), 0);
    for (request, _) in sent.iter() {
        let bytes = format!("[50,{},{{}}]", request).into_bytes();
        assert_eq!(dropped(s.receive(&bytes)), DropReason::NoPendingCall(*request));
    }
}

#[test]
fn calls_and_registrations_share_one_counter() {
    let mut s = session();
    assert_eq!(encode(&s.call(uri("p"), None, None, 0)), "[48,1,{},\"p\"]");
    assert_eq!(encode(&s.register(uri("q"), 0, "h")), "[64,2,{},\"q\"]");
    assert_eq!(encode(&s.call(uri("p"), None, None, 0)), "[48,3,{},\"p\"]");
    assert_eq!(dropped(s.receive(b"[50,2,{}]")), DropReason::NoPendingCall(2));
    assert_eq!(dropped(s.receive(b"[65,1,5]")), DropReason::NoPendingRegistration(1));
    assert_eq!(s.pending_call_count(), 2);
    assert_eq!(s.pending_registration_count(), 1);
}

#[test]
fn session_from_hello_to_yield() {
    let mut s = session();
    match s.receive(b"[4,\"ticket\",{}]") {
        Outcome::Send(message) => assert_eq!(encode(&message), "[5,\"test\",{}]"),
        _ => panic!("no answer to the challenge"),
    }
    let register = s.register(uri("com.demo.echo"), 1, "echo");
    assert_eq!(encode(&register), "[64,1,{},\"com.demo.echo\"]");
    match s.receive(b"[65,1,77]") {
        Outcome::Registered { registration, resolver, .. } => {
            assert_eq!(registration.value(), 77);
            assert_eq!(resolver, 1);
        }
        _ => panic!("the registration did not resolve"),
    }
    let (request, registration) = match s.receive(b"[68,9,77,{}]") {
        Outcome::Invoke { request, registration } => (request, registration),
        _ => panic!("the invocation was not accepted"),
    };
    assert_eq!(request.value(), 9);
    assert_eq!(s.procedure(registration), Some(&"echo"));
    let yielded = yield_for(
        request,
        Some(vec![TransportableValue::String("resp".to_owned())]),
        None,
    );
    assert_eq!(encode(&yielded), "[70,9,{},[\"resp\"]]");
}

#[test]
fn new_session_awaits_nothing() {
    let s = session();
    assert!(s.ids_left());
    assert_eq!(s.pending_call_count(), 0);
    assert_eq!(s.pending_registration_count(), 0);
    assert!(s.procedure(Id::from_raw_value(1)).is_none());
}

#[test]
fn confirmation_for_another_request_keeps_the_registration_pending() {
    let mut s = session();
    s.register(uri("com.demo.echo"), 5, "echo");
    assert_eq!(dropped(s.receive(b"[65,2,77]")), DropReason::NoPendingRegistration(2));
    assert_eq!(dropped(s.receive(b"[50,1,{}]")), DropReason::NoPendingCall(1));
    assert_eq!(s.pending_registration_count(), 1);
    assert!(s.procedure(Id::from_raw_value(77)).is_none());
    match s.receive(b"[65,1,77]") {
        Outcome::Registered { resolver, .. } => assert_eq!(resolver, 5),
        _ => panic!("the registration did not resolve"),
    }
    assert_eq!(s.pending_registration_count(), 0);
}

#[test]
fn second_registration_under_one_id_replaces_the_handler() {
    let mut s = session();
    s.register(uri("a"), 1, "first");
    s.register(uri("b"), 2, "second");
    assert!(matches!(s.receive(b"[65,1,77]"), Outcome::Registered { .. }));
    assert!(matches!(s.receive(b"[65,2,77]"), Outcome::Registered { .. }));
    assert_eq!(s.procedure(Id::from_raw_value(77)), Some(&"second"));
}

#[test]
fn extra_fields_of_a_message_are_ignored() {
    let mut s = session();
    s.call(uri("p"), None, None, 8);
    match s.receive(b"[50,1,{},[\"resp\"],{\"k\":null}]") {
        Outcome::CallResolved { request, resolver } => {
            assert_eq!(request.value(), 1);
            assert_eq!(resolver, 8);
        }
        _ => panic!("the call did not resolve"),
    }
}
