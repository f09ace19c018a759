use wamp_client::codec::decode;
use wamp_client::codec::encode;
use wamp_client::msg_code;
use wamp_client::router_message;
use wamp_client::session::envelope;
use wamp_client::ClientMessage;
use wamp_client::Dict;
use wamp_client::Id;
use wamp_client::Json;
use wamp_client::RouterMessage;
use wamp_client::TransportableValue;
use wamp_client::Uri;

fn uri(s: &str) -> Uri {
    Uri::relaxed(s).unwrap()
}

fn text(s: &str) -> TransportableValue {
    TransportableValue::String(s.to_owned())
}

fn num(n: u64) -> TransportableValue {
    TransportableValue::Integer(n)
}

fn dict(entries: Vec<(&str, TransportableValue)>) -> Dict {
    let mut d = Dict::new();
    for (k, v) in entries {
        d.insert(k.to_owned(), v);
    }
    d
}

fn empty() -> TransportableValue {
    TransportableValue::Dict(Dict::new())
}

#[test]
fn message_codes_of_client_messages() {
    let hello = ClientMessage::Hello { realm: uri("r"), details: Dict::new() };
    assert_eq!(hello.get_message_code(), 1);
    let auth = ClientMessage::Authenticate { signature: "s".to_owned(), extra: Dict::new() };
    assert_eq!(auth.get_message_code(), 5);
    let bye = ClientMessage::Goodbye { details: Dict::new(), reason: uri("r") };
    assert_eq!(bye.get_message_code(), 6);
    let error = ClientMessage::Error {
        request_type: 48,
        request: Id::from_raw_value(1),
        details: Dict::new(),
        error: uri("e"),
        arguments: None,
        arguments_kw: None,
    };
    assert_eq!(error.get_message_code(), 8);
    let publish = ClientMessage::Publish {
        request: Id::from_raw_value(1),
        options: Dict::new(),
        topic: uri("t"),
        arguments: None,
        arguments_kw: None,
    };
    assert_eq!(publish.get_message_code(), 16);
    let subscribe =
        ClientMessage::Subscribe { request: Id::from_raw_value(1), options: Dict::new(), topic: uri("t") };
    assert_eq!(subscribe.get_message_code(), 32);
    let unsubscribe =
        ClientMessage::Unsubscribe { request: Id::from_raw_value(1), subscription: Id::from_raw_value(2) };
    assert_eq!(unsubscribe.get_message_code(), 34);
    let call = ClientMessage::Call {
        request: Id::from_raw_value(1),
        options: Dict::new(),
        procedure: uri("p"),
        arguments: None,
        arguments_kw: None,
    };
    assert_eq!(call.get_message_code(), 48);
    let register =
        ClientMessage::Register { request: Id::from_raw_value(1), options: Dict::new(), procedure: uri("p") };
    assert_eq!(register.get_message_code(), 64);
    let unregister =
        ClientMessage::Unregister { request: Id::from_raw_value(1), registration: Id::from_raw_value(2) };
    assert_eq!(unregister.get_message_code(), 66);
    let yielded = ClientMessage::Yield {
        request: Id::from_raw_value(1),
        options: Dict::new(),
        arguments: None,
        arguments_kw: None,
    };
    assert_eq!(yielded.get_message_code(), 70);
}

#[test]
fn message_codes_of_router_messages() {
    assert_eq!(router_message::Welcome::MSG_CODE, 2);
    assert_eq!(router_message::Abort::MSG_CODE, 3);
    assert_eq!(router_message::Challenge::MSG_CODE, 4);
    assert_eq!(router_message::Goodbye::MSG_CODE, 6);
    assert_eq!(router_message::Error::MSG_CODE, 8);
    assert_eq!(router_message::Published::MSG_CODE, 17);
    assert_eq!(router_message::Subscribed::MSG_CODE, 33);
    assert_eq!(router_message::Unsubscribed::MSG_CODE, 35);
    assert_eq!(router_message::Event::MSG_CODE, 36);
    assert_eq!(router_message::Result::MSG_CODE, 50);
    assert_eq!(router_message::Registered::MSG_CODE, 65);
    assert_eq!(router_message::Unregistered::MSG_CODE, 67);
    assert_eq!(router_message::Invocation::MSG_CODE, 68);
    assert_eq!(msg_code::CANCEL, 49);
    assert_eq!(msg_code::INTERRUPT, 69);
}

#[test]
fn to_json_of_hello_authenticate_goodbye() {
    let hello = ClientMessage::Hello { realm: uri("realmX"), details: dict(vec![("roles", empty())]) };
    assert_eq!(
        hello.to_json(),
        TransportableValue::List(vec![num(1), text("realmX"), TransportableValue::Dict(dict(vec![("roles", empty())]))])
    );
    let auth = ClientMessage::Authenticate { signature: "test".to_owned(), extra: Dict::new() };
    assert_eq!(auth.to_json(), TransportableValue::List(vec![num(5), text("test"), empty()]));
    let bye = ClientMessage::Goodbye { details: Dict::new(), reason: uri("wamp.close.normal") };
    assert_eq!(bye.to_json(), TransportableValue::List(vec![num(6), empty(), text("wamp.close.normal")]));
}

#[test]
fn to_json_of_error_with_each_combination_of_arguments() {
    let make = |arguments, arguments_kw| ClientMessage::Error {
        request_type: 68,
        request: Id::from_raw_value(9),
        details: Dict::new(),
        error: uri("wamp.error.x"),
        arguments,
        arguments_kw,
    };
    let head = vec![num(8), num(68), num(9), empty(), text("wamp.error.x")];
    assert_eq!(make(None, None).to_json(), TransportableValue::List(head.clone()));
    assert_eq!(make(None, Some(dict(vec![("k", num(1))]))).to_json(), TransportableValue::List(head.clone()));
    let mut with_args = head.clone();
    with_args.push(TransportableValue::List(vec![num(1)]));
    assert_eq!(make(Some(vec![num(1)]), None).to_json(), TransportableValue::List(with_args.clone()));
    let mut with_both = with_args.clone();
    with_both.push(TransportableValue::Dict(dict(vec![("k", num(1))])));
    assert_eq!(
        make(Some(vec![num(1)]), Some(dict(vec![("k", num(1))]))).to_json(),
        TransportableValue::List(with_both)
    );
}

#[test]
fn to_json_of_publish_call_yield_with_each_combination_of_arguments() {
    let kw = || dict(vec![("k", TransportableValue::Bool(true))]);
    let publish = |arguments, arguments_kw| ClientMessage::Publish {
        request: Id::from_raw_value(2),
        options: Dict::new(),
        topic: uri("t"),
        arguments,
        arguments_kw,
    };
    assert_eq!(encode(&publish(None, None)), "[16,2,{},\"t\"]");
    assert_eq!(encode(&publish(None, Some(kw()))), "[16,2,{},\"t\"]");
    assert_eq!(encode(&publish(Some(vec![num(1)]), None)), "[16,2,{},\"t\",[1]]");
    assert_eq!(encode(&publish(Some(vec![num(1)]), Some(kw()))), "[16,2,{},\"t\",[1],{\"k\":true}]");
    let call = |arguments, arguments_kw| ClientMessage::Call {
        request: Id::from_raw_value(3),
        options: Dict::new(),
        procedure: uri("p"),
        arguments,
        arguments_kw,
    };
    assert_eq!(encode(&call(None, None)), "[48,3,{},\"p\"]");
    assert_eq!(encode(&call(None, Some(kw()))), "[48,3,{},\"p\"]");
    assert_eq!(encode(&call(Some(vec![text("frol")]), None)), "[48,3,{},\"p\",[\"frol\"]]");
    assert_eq!(encode(&call(Some(vec![]), Some(kw()))), "[48,3,{},\"p\",[],{\"k\":true}]");
    let yielded = |arguments, arguments_kw| ClientMessage::Yield {
        request: Id::from_raw_value(9),
        options: Dict::new(),
        arguments,
        arguments_kw,
    };
    assert_eq!(encode(&yielded(None, None)), "[70,9,{}]");
    assert_eq!(encode(&yielded(None, Some(kw()))), "[70,9,{}]");
    assert_eq!(encode(&yielded(Some(vec![text("resp")]), None)), "[70,9,{},[\"resp\"]]");
    assert_eq!(encode(&yielded(Some(vec![text("resp")]), Some(kw()))), "[70,9,{},[\"resp\"],{\"k\":true}]");
}

#[test]
fn to_json_of_messages_without_optional_fields() {
    let subscribe =
        ClientMessage::Subscribe { request: Id::from_raw_value(4), options: Dict::new(), topic: uri("t") };
    assert_eq!(encode(&subscribe), "[32,4,{},\"t\"]");
    let unsubscribe =
        ClientMessage::Unsubscribe { request: Id::from_raw_value(5), subscription: Id::from_raw_value(6) };
    assert_eq!(encode(&unsubscribe), "[34,5,6]");
    let register = ClientMessage::Register {
        request: Id::from_raw_value(1),
        options: Dict::new(),
        procedure: uri("com.demo.echo"),
    };
    assert_eq!(encode(&register), "[64,1,{},\"com.demo.echo\"]");
    let unregister =
        ClientMessage::Unregister { request: Id::from_raw_value(7), registration: Id::from_raw_value(8) };
    assert_eq!(encode(&unregister), "[66,7,8]");
}

#[test]
fn encode_hello_with_roles() {
    let roles = dict(vec![("caller", empty()), ("callee", empty()), ("publisher", empty()), ("subscriber", empty())]);
    let details = dict(vec![("roles", TransportableValue::Dict(roles))]);
    let hello = ClientMessage::Hello { realm: uri("realmX"), details };
    let text = encode(&hello);
    assert!(text.starts_with("[1,\"realmX\",{\"roles\":{"));
    assert!(text.ends_with("}}]"));
    let back = decode(text.as_bytes()).unwrap();
    let (code, items) = envelope(&back).unwrap();
    assert_eq!(code, 1);
    assert_eq!(items.len(), 3);
    assert_eq!(items[1], Json::String("realmX".to_owned()));
    let details = TransportableValue::try_from(&items[2]).unwrap().into_dict().unwrap();
    let roles = details.get("roles").unwrap().clone().into_dict().unwrap();
    assert_eq!(roles.len(), 4);
    assert_eq!(roles.get("caller"), Some(&empty()));
    assert_eq!(roles.get("callee"), Some(&empty()));
    assert_eq!(roles.get("publisher"), Some(&empty()));
    assert_eq!(roles.get("subscriber"), Some(&empty()));
}

#[test]
fn encoded_message_reads_back_with_code_and_fields_in_order() {
    let nested = TransportableValue::List(vec![
        TransportableValue::List(vec![num(1), TransportableValue::List(vec![text("deep")])]),
        TransportableValue::Dict(dict(vec![("inner", TransportableValue::Dict(dict(vec![("x", num(2))])))])),
    ]);
    let call = ClientMessage::Call {
        request: Id::from_raw_value(11),
        options: dict(vec![("timeout", num(5))]),
        procedure: uri("com.demo.sum"),
        arguments: Some(vec![nested.clone(), TransportableValue::Bool(false)]),
        arguments_kw: Some(dict(vec![("k", nested.clone())])),
    };
    let written = call.to_json();
    let back = decode(encode(&call).as_bytes()).unwrap();
    let (code, items) = envelope(&back).unwrap();
    assert_eq!(code, call.get_message_code());
    assert_eq!(items.len(), 6);
    assert_eq!(TransportableValue::try_from(&back), Ok(written));
    assert_eq!(TransportableValue::try_from(&items[1]), Ok(num(11)));
    assert_eq!(TransportableValue::try_from(&items[3]), Ok(text("com.demo.sum")));
    assert_eq!(
        TransportableValue::try_from(&items[4]),
        Ok(TransportableValue::List(vec![nested, TransportableValue::Bool(false)]))
    );
}

#[test]
fn encode_escapes_text() {
    let auth = ClientMessage::Authenticate { signature: "a\"b\\c\n".to_owned(), extra: Dict::new() };
    assert_eq!(encode(&auth), "[5,\"a\\\"b\\\\c\\n\",{}]");
}

#[test]
fn order_of_insertion_does_not_show_on_the_wire() {
    let one = dict(vec![("b", num(2)), ("a", num(1))]);
    let other = dict(vec![("a", num(1)), ("b", num(2))]);
    let first = ClientMessage::Hello { realm: uri("r"), details: one };
    let second = ClientMessage::Hello { realm: uri("r"), details: other };
    assert_eq!(encode(&first), "[1,\"r\",{\"a\":1,\"b\":2}]");
    assert_eq!(encode(&second), encode(&first));
}

#[test]
fn encode_writes_the_largest_integer() {
    let unsubscribe = ClientMessage::Unsubscribe {
        request: Id::from_raw_value(u64::MAX),
        subscription: Id::from_raw_value(0),
    };
    assert_eq!(encode(&unsubscribe), "[34,18446744073709551615,0]");
}
