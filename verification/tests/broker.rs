use ipc_client::client::connector::{Connector, Listen, Received};
use ipc_client::client::error::Error;
use ipc_client::client::message::{CallObjectRequest, ListObjects};
use ipc_client::client::shared_object::{Dispatch, ObjectDispatcher};
use ipc_client::client::wait_for_objects::{wait_for_objects, wait_for_objects_reply, Wait};
use ipc_client::manager::{
    insert_or_update, remove_socket, Action, CallOutcome, EventTable, ObjectTable, Reply,
    TaskManager,
};
use ipc_client::message::{IpcMessage, Message, Session, SocketHolder};
use ipc_client::server::{ConnectionAction, ConnectionState, PeerConnection, ReadOutcome, Server};
use ipc_client::value::JsonElem;

fn text(bytes: Vec<u8>) -> String {
    String::from_utf8(bytes).unwrap()
}

fn names(list: &[SocketHolder]) -> Vec<String> {
    list.iter().map(|h| h.name.clone()).collect()
}

fn holder(name: &str) -> SocketHolder {
    SocketHolder { name: name.to_string() }
}

/// Reads `frame` on `connection` and has the task manager do the work item.
fn ask(tm: &mut TaskManager, connection: &mut PeerConnection, frame: &[u8]) -> Action {
    assert_eq!(connection.current(), ConnectionState::Reading);
    assert!(!tm.is_busy());
    match Server::handle_client(connection, ReadOutcome::Frame(frame.to_vec())) {
        ConnectionAction::Submit(message) => {
            assert_eq!(connection.current(), ConnectionState::AwaitingReply);
            tm.handle(message)
        }
        other => panic!("the frame was not handed on: {:?}", other),
    }
}

/// Sends `reply` back over `connection` and gives the bytes that the peer reads.
fn answer(connection: &mut PeerConnection, reply: Reply) -> Vec<u8> {
    let sent = reply.serialize().unwrap();
    let written = match connection.on_reply(Some(sent)) {
        ConnectionAction::Write(reply) => reply.serialize().unwrap(),
        other => panic!("nothing to write: {:?}", other),
    };
    assert!(matches!(connection.on_write(true), ConnectionAction::Read));
    assert_eq!(connection.current(), ConnectionState::Reading);
    written
}

/// A frame that asks for something with a plain answer: the bytes of the answer.
fn exchange(tm: &mut TaskManager, connection: &mut PeerConnection, frame: &[u8]) -> String {
    match ask(tm, connection, frame) {
        Action::Reply(reply) => text(answer(connection, reply)),
        other => panic!("no plain answer: {:?}", other),
    }
}

#[test]
fn register_then_call() {
    let mut tm = TaskManager::new();
    let mut p = Server::accept("127.0.0.1:4001".to_string());
    let mut c = Server::accept("127.0.0.1:4002".to_string());
    let mut provider = ObjectDispatcher::new();

    let register = provider.register_object("mango").unwrap();
    assert_eq!(text(register.clone()), r#"{"reg_object":"mango"}"#);
    let reply = exchange(&mut tm, &mut p, &register);
    assert_eq!(reply, r#"{"success":"OK"}"#);
    assert!(ObjectDispatcher::register_object_reply(Received::Frame(reply.into_bytes())).is_ok());
    assert_eq!(tm.owner("mango").map(|h| h.name.as_str()), Some("127.0.0.1:4001"));

    let call = Connector::remote_call("mango", "login", None).unwrap();
    assert_eq!(text(call.clone()), r#"{"object":"mango","method":"login"}"#);
    let forwarded = match ask(&mut tm, &mut c, &call) {
        Action::Forward { provider, request } => {
            assert_eq!(provider.name, "127.0.0.1:4001");
            request.serialize().unwrap()
        }
        other => panic!("the call was not forwarded: {:?}", other),
    };
    assert_eq!(forwarded, call);
    assert!(tm.is_busy());

    let request = match provider.dispatch(Received::Frame(forwarded)) {
        Dispatch::Invoke(request) => request,
        other => panic!("the call was not run: {:?}", other),
    };
    assert_eq!(request.object, "mango");
    assert_eq!(request.method, "login");
    assert_eq!(request.param, None);
    let response = ObjectDispatcher::respond(Ok(JsonElem::String("hello".to_string())))
        .serialize()
        .unwrap();
    assert_eq!(text(response.clone()), r#"{"response":"hello"}"#);

    let reply = tm.complete_call(CallOutcome::Replied(response.clone()));
    assert!(!tm.is_busy());
    let read = answer(&mut c, reply);
    assert_eq!(read, response);
    assert_eq!(
        Connector::remote_call_reply(Received::Frame(read)),
        Ok(JsonElem::String("hello".to_string()))
    );
}

#[test]
fn call_missing_object() {
    let mut tm = TaskManager::new();
    let mut c = Server::accept("127.0.0.1:4002".to_string());
    let reply = exchange(&mut tm, &mut c, br#"{"object":"ghost","method":"x"}"#);
    assert_eq!(reply, r#"{"error":"Object not found"}"#);
    assert!(!tm.is_busy());
    assert_eq!(
        Connector::remote_call_reply(Received::Frame(reply.into_bytes())),
        Err(Error::new(JsonElem::String("Object not found".to_string())))
    );
}

#[test]
fn wait_for_objects_barrier() {
    let mut tm = TaskManager::new();
    let mut w = Server::accept("127.0.0.1:4003".to_string());
    let mut p = Server::accept("127.0.0.1:4001".to_string());

    let request = wait_for_objects(vec!["a".to_string(), "b".to_string()]).unwrap();
    assert_eq!(text(request.clone()), r#"{"list":["a","b"]}"#);
    let reply = exchange(&mut tm, &mut w, &request);
    assert_eq!(reply, r#"{"list":[]}"#);
    assert_eq!(wait_for_objects_reply(Received::Frame(reply.into_bytes())), Wait::Retry);

    assert_eq!(exchange(&mut tm, &mut p, br#"{"reg_object":"a"}"#), r#"{"success":"OK"}"#);
    let reply = exchange(&mut tm, &mut w, &request);
    assert_eq!(reply, r#"{"list":[]}"#);
    assert_eq!(exchange(&mut tm, &mut p, br#"{"reg_object":"b"}"#), r#"{"success":"OK"}"#);

    let reply = exchange(&mut tm, &mut w, &request);
    assert_eq!(reply, r#"{"list":["a","b"]}"#);
    assert_eq!(wait_for_objects_reply(Received::Frame(reply.into_bytes())), Wait::Done);
}

#[test]
fn event_fan_out() {
    let mut tm = TaskManager::new();
    let mut s1 = Server::accept("127.0.0.1:5001".to_string());
    let mut s2 = Server::accept("127.0.0.1:5002".to_string());
    let mut publisher = Server::accept("127.0.0.1:5003".to_string());

    let subscribe = Connector::listen_for_event("tick").unwrap();
    assert_eq!(text(subscribe.clone()), r#"{"event_name":"tick"}"#);
    assert_eq!(exchange(&mut tm, &mut s1, &subscribe), r#"{"success":"OK"}"#);
    assert_eq!(exchange(&mut tm, &mut s2, &subscribe), r#"{"success":"OK"}"#);

    let event = Connector::send_event("tick", JsonElem::Int32(42)).unwrap();
    assert_eq!(text(event.clone()), r#"{"event":"tick","result":42}"#);
    match ask(&mut tm, &mut publisher, &event) {
        Action::Broadcast { subscribers, result, reply } => {
            assert_eq!(names(&subscribers), vec!["127.0.0.1:5001", "127.0.0.1:5002"]);
            assert_eq!(result, JsonElem::Int32(42));
            let frame = result.serialize().unwrap();
            assert_eq!(text(frame.clone()), "42");
            assert_eq!(JsonElem::parse(&frame), Some(JsonElem::Int32(42)));
            assert_eq!(text(answer(&mut publisher, reply)), r#"{"success":"OK"}"#);
        }
        other => panic!("the event was not sent on: {:?}", other),
    }
}

#[test]
fn provider_crash_mid_call() {
    let mut tm = TaskManager::new();
    let mut p = Server::accept("127.0.0.1:4001".to_string());
    let mut c = Server::accept("127.0.0.1:4002".to_string());

    assert_eq!(exchange(&mut tm, &mut p, br#"{"reg_object":"x"}"#), r#"{"success":"OK"}"#);
    let call = br#"{"object":"x","method":"m"}"#;
    assert!(matches!(ask(&mut tm, &mut c, call), Action::Forward { .. }));

    let reply = tm.complete_call(CallOutcome::Closed);
    let read = answer(&mut c, reply);
    assert_eq!(text(read.clone()), r#"{"error":"client connection error"}"#);
    assert!(Connector::remote_call_reply(Received::Frame(read)).is_err());
    assert!(tm.owner("x").is_none());
    assert_eq!(exchange(&mut tm, &mut c, call), r#"{"error":"Object not found"}"#);

    match Server::handle_client(&mut p, ReadOutcome::Eof) {
        ConnectionAction::Close(message) => {
            assert!(matches!(tm.handle(message), Action::Nothing));
        }
        other => panic!("the connection did not end: {:?}", other),
    }
    assert_eq!(p.current(), ConnectionState::Closed);
    assert!(tm.owner("x").is_none());

    assert_eq!(exchange(&mut tm, &mut c, call), r#"{"error":"Object not found"}"#);
}

#[test]
fn duplicate_subscription() {
    let mut tm = TaskManager::new();
    let mut s = Server::accept("127.0.0.1:5001".to_string());
    let mut publisher = Server::accept("127.0.0.1:5003".to_string());

    assert_eq!(exchange(&mut tm, &mut s, br#"{"event_name":"tick"}"#), r#"{"success":"OK"}"#);
    assert_eq!(exchange(&mut tm, &mut s, br#"{"event_name":"tick"}"#), r#"{"success":"OK"}"#);
    assert_eq!(names(&tm.subscribers("tick")), vec!["127.0.0.1:5001"]);

    match ask(&mut tm, &mut publisher, br#"{"event":"tick","result":true}"#) {
        Action::Broadcast { subscribers, result, .. } => {
            assert_eq!(subscribers.len(), 1);
            assert_eq!(text(result.serialize().unwrap()), "true");
        }
        other => panic!("the event was not sent on: {:?}", other),
    }
}

#[test]
fn a_name_stays_with_the_peer_that_has_it() {
    let mut tm = TaskManager::new();
    let mut p1 = Server::accept("127.0.0.1:4001".to_string());
    let mut p2 = Server::accept("127.0.0.1:4009".to_string());
    assert_eq!(exchange(&mut tm, &mut p1, br#"{"reg_object":"mango"}"#), r#"{"success":"OK"}"#);
    assert_eq!(exchange(&mut tm, &mut p2, br#"{"reg_object":"mango"}"#), r#"{"success":"OK"}"#);
    assert_eq!(tm.owner("mango").map(|h| h.name.as_str()), Some("127.0.0.1:4001"));
    assert_eq!(exchange(&mut tm, &mut p1, br#"{"reg_object":"mango"}"#), r#"{"success":"OK"}"#);
    assert_eq!(tm.owner("mango").map(|h| h.name.as_str()), Some("127.0.0.1:4001"));
    assert_eq!(exchange(&mut tm, &mut p2, br#"{"reg_object":"apple"}"#), r#"{"success":"OK"}"#);
    assert_eq!(tm.owner("apple").map(|h| h.name.as_str()), Some("127.0.0.1:4009"));
}

#[test]
fn a_peer_that_is_gone_owns_nothing_and_hears_nothing() {
    let mut tm = TaskManager::new();
    let mut p = Server::accept("127.0.0.1:4001".to_string());
    let mut q = Server::accept("127.0.0.1:4002".to_string());
    for frame in [
        &br#"{"reg_object":"mango"}"#[..],
        &br#"{"reg_object":"apple"}"#[..],
        &br#"{"event_name":"tick"}"#[..],
        &br#"{"event_name":"tock"}"#[..],
    ] {
        assert_eq!(exchange(&mut tm, &mut p, frame), r#"{"success":"OK"}"#);
    }
    assert_eq!(exchange(&mut tm, &mut q, br#"{"reg_object":"orange"}"#), r#"{"success":"OK"}"#);
    assert_eq!(exchange(&mut tm, &mut q, br#"{"event_name":"tick"}"#), r#"{"success":"OK"}"#);

    tm.remove_registered("127.0.0.1:4001");
    assert!(tm.owner("mango").is_none());
    assert!(tm.owner("apple").is_none());
    assert_eq!(tm.owner("orange").map(|h| h.name.as_str()), Some("127.0.0.1:4002"));
    assert_eq!(names(&tm.subscribers("tick")), vec!["127.0.0.1:4002"]);
    assert!(tm.subscribers("tock").is_empty());
}

#[test]
fn a_provider_that_cannot_be_written_to_loses_its_objects() {
    let mut tm = TaskManager::new();
    let mut p = Server::accept("127.0.0.1:4001".to_string());
    let mut q = Server::accept("127.0.0.1:4002".to_string());
    let mut c = Server::accept("127.0.0.1:4003".to_string());
    assert_eq!(exchange(&mut tm, &mut p, br#"{"reg_object":"mango"}"#), r#"{"success":"OK"}"#);
    assert_eq!(exchange(&mut tm, &mut p, br#"{"reg_object":"apple"}"#), r#"{"success":"OK"}"#);
    assert_eq!(exchange(&mut tm, &mut q, br#"{"reg_object":"orange"}"#), r#"{"success":"OK"}"#);

    assert!(matches!(
        ask(&mut tm, &mut c, br#"{"object":"mango","method":"m"}"#),
        Action::Forward { .. }
    ));
    let reply = tm.complete_call(CallOutcome::NotWritten("broken pipe".to_string()));
    assert_eq!(text(answer(&mut c, reply)), r#"{"error":"broken pipe"}"#);
    assert!(tm.owner("mango").is_none());
    assert!(tm.owner("apple").is_none());
    assert!(tm.owner("orange").is_some());
}

#[test]
fn every_end_of_a_call_gives_one_answer() {
    let ends: Vec<(CallOutcome, &str, bool)> = vec![
        (
            CallOutcome::NotSerialized(Error::new(JsonElem::String("no text".to_string()))),
            r#"{"error":"no text"}"#,
            true,
        ),
        (CallOutcome::Replied(b"{\"response\":1}".to_vec()), r#"{"response":1}"#, true),
        (CallOutcome::Replied(b"not even json".to_vec()), "not even json", true),
        (CallOutcome::Replied(Vec::new()), r#"{"error":"client connection error"}"#, false),
        (CallOutcome::Closed, r#"{"error":"client connection error"}"#, false),
        (CallOutcome::NotRead, r#"{"error":"client connection error"}"#, false),
        (CallOutcome::NotWritten("broken pipe".to_string()), r#"{"error":"broken pipe"}"#, false),
    ];
    for (outcome, expected, there) in ends {
        let mut tm = TaskManager::new();
        let mut p = Server::accept("127.0.0.1:4001".to_string());
        let mut c = Server::accept("127.0.0.1:4002".to_string());
        let mut q = Server::accept("127.0.0.1:4003".to_string());
        assert_eq!(exchange(&mut tm, &mut p, br#"{"reg_object":"x"}"#), r#"{"success":"OK"}"#);
        assert_eq!(exchange(&mut tm, &mut p, br#"{"reg_object":"y"}"#), r#"{"success":"OK"}"#);
        assert_eq!(exchange(&mut tm, &mut p, br#"{"event_name":"tick"}"#), r#"{"success":"OK"}"#);
        assert_eq!(exchange(&mut tm, &mut q, br#"{"reg_object":"z"}"#), r#"{"success":"OK"}"#);
        assert_eq!(exchange(&mut tm, &mut q, br#"{"event_name":"tick"}"#), r#"{"success":"OK"}"#);
        assert!(matches!(
            ask(&mut tm, &mut c, br#"{"object":"x","method":"m"}"#),
            Action::Forward { .. }
        ));
        let reply = tm.complete_call(outcome);
        assert!(!tm.is_busy());
        assert_eq!(text(answer(&mut c, reply)), expected);
        assert_eq!(tm.owner("x").is_some(), there);
        assert_eq!(tm.owner("y").is_some(), there);
        assert!(tm.owner("z").is_some());
        if there {
            assert_eq!(names(&tm.subscribers("tick")), vec!["127.0.0.1:4001", "127.0.0.1:4003"]);
        } else {
            assert_eq!(names(&tm.subscribers("tick")), vec!["127.0.0.1:4003"]);
            assert_eq!(
                exchange(&mut tm, &mut c, br#"{"object":"y","method":"m"}"#),
                r#"{"error":"Object not found"}"#
            );
        }
    }
}

#[test]
fn messages_that_ask_nothing_get_no_answer() {
    let mut tm = TaskManager::new();
    let mut c = Server::accept("127.0.0.1:4002".to_string());
    assert!(matches!(ask(&mut tm, &mut c, b"null"), Action::Nothing));
    match c.on_reply(None) {
        ConnectionAction::Write(reply) => assert!(reply.serialize().unwrap().is_empty()),
        other => panic!("nothing to write: {:?}", other),
    }
    assert!(matches!(c.on_write(true), ConnectionAction::Read));
    assert!(matches!(ask(&mut tm, &mut c, br#"{"success":"OK"}"#), Action::Nothing));
}

#[test]
fn an_empty_list_is_always_there() {
    let tm = TaskManager::new();
    assert_eq!(tm.wait_for_objects(ListObjects::new(Vec::new())), ListObjects::new(Vec::new()));
    let list = ListObjects::new(vec!["a".to_string()]);
    assert_eq!(tm.wait_for_objects(list), ListObjects::new(Vec::new()));
}

#[test]
fn a_call_goes_to_the_owner_with_its_parameter() {
    let mut tm = TaskManager::new();
    tm.handle(Message::ProcessInput(Session::new(
        IpcMessage::parse(br#"{"reg_object":"mango"}"#).unwrap(),
        "p".to_string(),
    )));
    let param = JsonElem::HashMap(vec![("provider".to_string(), JsonElem::String("microsoft".into()))]);
    let request = CallObjectRequest::new("mango", "login", Some(param.clone()));
    match tm.handle_call_request(holder("c"), request) {
        Action::Forward { provider, request } => {
            assert_eq!(provider.name, "p");
            assert_eq!(request.object, "mango");
            assert_eq!(request.method, "login");
            assert_eq!(request.param, Some(param));
        }
        other => panic!("the call was not forwarded: {:?}", other),
    }
}

#[test]
fn the_object_table_is_a_map() {
    let mut table = ObjectTable::new();
    assert!(table.get("a").is_none());
    table.insert("a".to_string(), holder("p"));
    table.insert("b".to_string(), holder("q"));
    table.insert("a".to_string(), holder("r"));
    assert_eq!(table.get("a").map(|h| h.name.as_str()), Some("r"));
    assert_eq!(table.get("b").map(|h| h.name.as_str()), Some("q"));
    assert!(table.contains_all(&vec!["a".to_string(), "b".to_string()]));
    assert!(!table.contains_all(&vec!["a".to_string(), "c".to_string()]));
    assert!(table.contains_all(&Vec::new()));
    table.retain_others("r");
    assert!(table.get("a").is_none());
    assert_eq!(table.get("b").map(|h| h.name.as_str()), Some("q"));
}

#[test]
fn the_event_table_keeps_the_order_of_subscription() {
    let mut table = EventTable::new();
    insert_or_update(&mut table, "tick", holder("a"));
    insert_or_update(&mut table, "tick", holder("b"));
    insert_or_update(&mut table, "tick", holder("a"));
    insert_or_update(&mut table, "tock", holder("b"));
    insert_or_update(&mut table, "tick", holder("c"));
    assert_eq!(names(table.get("tick").unwrap()), vec!["a", "b", "c"]);
    assert_eq!(names(table.get("tock").unwrap()), vec!["b"]);
    remove_socket(&mut table, "b");
    assert_eq!(names(table.get("tick").unwrap()), vec!["a", "c"]);
    assert!(table.get("tock").is_none());
    remove_socket(&mut table, "nobody");
    assert_eq!(names(table.get("tick").unwrap()), vec!["a", "c"]);
}

#[test]
fn a_connection_answers_bytes_that_are_no_message() {
    let mut c = Server::accept("127.0.0.1:4002".to_string());
    assert_eq!(c.ip(), "127.0.0.1:4002");
    match Server::handle_client(&mut c, ReadOutcome::Frame(b"{\"reg_object\":".to_vec())) {
        ConnectionAction::Write(reply) => {
            assert_eq!(text(reply.serialize().unwrap()), r#"{"error":"serde parsing error"}"#)
        }
        other => panic!("no answer: {:?}", other),
    }
    assert_eq!(c.current(), ConnectionState::Reading);
    match Server::handle_client(&mut c, ReadOutcome::Frame(b"{}".to_vec())) {
        ConnectionAction::Write(reply) => {
            assert_eq!(text(reply.serialize().unwrap()), r#"{"error":"serde parsing error"}"#)
        }
        other => panic!("no answer: {:?}", other),
    }
    match c.on_write(false) {
        ConnectionAction::Close(Message::RemoveRegistered(session)) => {
            assert_eq!(session.socket_holder.name, "127.0.0.1:4002")
        }
        other => panic!("the connection did not end: {:?}", other),
    }
    assert_eq!(c.current(), ConnectionState::Closed);
}

#[test]
fn a_connection_waits_where_nothing_is_there_and_ends_where_the_read_fails() {
    let mut c = Server::accept("127.0.0.1:4002".to_string());
    assert!(matches!(Server::handle_client(&mut c, ReadOutcome::WouldBlock), ConnectionAction::Sleep));
    assert_eq!(c.current(), ConnectionState::Reading);
    assert!(matches!(
        Server::handle_client(&mut c, ReadOutcome::Failed),
        ConnectionAction::Close(Message::RemoveRegistered(_))
    ));
    assert_eq!(c.current(), ConnectionState::Closed);
    let mut d = Server::accept("127.0.0.1:4003".to_string());
    assert!(matches!(
        Server::handle_client(&mut d, ReadOutcome::Frame(Vec::new())),
        ConnectionAction::Close(Message::RemoveRegistered(_))
    ));
    assert_eq!(d.current(), ConnectionState::Closed);
}

#[test]
fn the_server_listens_on_the_configured_address() {
    assert_eq!(Server::address(None), "127.0.0.1:1986");
    assert_eq!(Server::address(Some("127.0.0.1:3000".to_string())), "127.0.0.1:3000");
    assert_eq!(ipc_client::SERVER_ADDRESS, "127.0.0.1:1986");
    assert_eq!(ipc_client::CHUNK_SIZE, 4096);
}

#[test]
fn a_listener_takes_events_and_skips_the_rest() {
    match Connector::listen(Received::Frame(br#"{"event":"tick","result":42}"#.to_vec())) {
        Listen::Deliver(value) => assert_eq!(value, JsonElem::Int32(42)),
        other => panic!("no event: {:?}", other),
    }
    assert!(matches!(Connector::listen(Received::Frame(b"42".to_vec())), Listen::Skip));
    assert!(matches!(Connector::listen(Received::Frame(b"{\"succ".to_vec())), Listen::Skip));
    assert!(matches!(
        Connector::listen(Received::Frame(br#"{"success":"OK"}"#.to_vec())),
        Listen::Skip
    ));
    assert!(matches!(Connector::listen(Received::Eof), Listen::Stop));
    assert!(matches!(Connector::listen(Received::Failed("reset".to_string())), Listen::Stop));
}

#[test]
fn a_connection_hands_on_what_was_read_as_a_message() {
    let mut c = Server::accept("127.0.0.1:4002".to_string());
    match Server::handle_message(&mut c, Ok(IpcMessage::Empty)) {
        ConnectionAction::Submit(Message::ProcessInput(session)) => {
            assert_eq!(session.socket_holder.name, "127.0.0.1:4002");
            assert!(matches!(session.msg, IpcMessage::Empty));
        }
        other => panic!("the message was not handed on: {:?}", other),
    }
    assert_eq!(c.current(), ConnectionState::AwaitingReply);
    let mut d = Server::accept("127.0.0.1:4003".to_string());
    match Server::handle_message(&mut d, Err(Error::new(JsonElem::String("any".to_string())))) {
        ConnectionAction::Write(reply) => {
            assert_eq!(text(reply.serialize().unwrap()), r#"{"error":"serde parsing error"}"#)
        }
        other => panic!("no answer: {:?}", other),
    }
    assert_eq!(d.current(), ConnectionState::Reading);
}

#[test]
fn a_registration_is_rejected_where_another_peer_owns_the_name() {
    let mut tm = TaskManager::new();
    assert!(tm.register("mango".to_string(), holder("p")));
    assert!(tm.register("mango".to_string(), holder("p")));
    assert!(!tm.register("mango".to_string(), holder("q")));
    assert_eq!(tm.owner("mango").map(|h| h.name.as_str()), Some("p"));
    assert!(tm.register("apple".to_string(), holder("q")));
    tm.remove_registered("p");
    assert!(tm.register("mango".to_string(), holder("q")));
    assert_eq!(tm.owner("mango").map(|h| h.name.as_str()), Some("q"));
}

/// What the object `name` answers to a call.
fn remote_call(name: &str, _method: &str, _param: Option<JsonElem>) -> Result<JsonElem, Error> {
    match name {
        "mango" => Ok(JsonElem::String("This is my response from mango".into())),
        "apple" => Ok(JsonElem::String("This is my response from apple".into())),
        _ => Err(Error::new(JsonElem::String("exception happend".to_string()))),
    }
}

/// One call of a process through the broker to the provider and back.
fn call_through(
    tm: &mut TaskManager,
    provider: &ObjectDispatcher,
    object: &str,
    method: &str,
    param: Option<JsonElem>,
    address: &str,
) -> Result<JsonElem, Error> {
    let mut connection = Server::accept(address.to_string());

    let list = vec!["mango".to_string(), "apple".to_string(), "orange".to_string()];
    let waiting = exchange(tm, &mut connection, &wait_for_objects(list).unwrap());
    assert_eq!(wait_for_objects_reply(Received::Frame(waiting.into_bytes())), Wait::Done);

    let call = Connector::remote_call(object, method, param).unwrap();
    let forwarded = match ask(tm, &mut connection, &call) {
        Action::Forward { request, .. } => request.serialize().unwrap(),
        other => panic!("the call was not forwarded: {:?}", other),
    };
    let response = match provider.dispatch(Received::Frame(forwarded)) {
        Dispatch::Invoke(request) => {
            ObjectDispatcher::respond(remote_call(&request.object, &request.method, request.param))
        }
        Dispatch::Write(message) => message,
        other => panic!("the provider did not answer: {:?}", other),
    };
    let reply = tm.complete_call(CallOutcome::Replied(response.serialize().unwrap()));
    Connector::remote_call_reply(Received::Frame(answer(&mut connection, reply)))
}

#[test]
fn test_server() {
    let mut tm = TaskManager::new();
    let mut process1 = Server::accept("127.0.0.1:3001".to_string());
    let mut shared = ObjectDispatcher::new();
    for object in ["mango", "apple", "orange"] {
        let register = shared.register_object(object).unwrap();
        let reply = exchange(&mut tm, &mut process1, &register);
        ObjectDispatcher::register_object_reply(Received::Frame(reply.into_bytes())).unwrap();
    }

    let mut param = Vec::new();
    param.push(("provider".to_string(), JsonElem::String("microsoft".to_string())));
    let res2 = call_through(
        &mut tm,
        &shared,
        "mango",
        "login",
        Some(JsonElem::HashMap(param)),
        "127.0.0.1:3002",
    )
    .unwrap();
    let res3 = call_through(&mut tm, &shared, "apple", "login", None, "127.0.0.1:3003").unwrap();
    let res4 =
        call_through(&mut tm, &shared, "orange", "login", None, "127.0.0.1:3004").unwrap_err();

    assert_eq!(res2, JsonElem::String("This is my response from mango".into()));

    assert_eq!(res3, JsonElem::String("This is my response from apple".into()));

    assert_eq!(res4, Error::new(JsonElem::String("exception happend".to_string())));
}
