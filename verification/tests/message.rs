use ipc_client::client::error::Error;
use ipc_client::client::message::{
    CallObjectRequest, CallObjectResponse, Event, IncomingMessage, ListObjects, OutgoingMessage,
    RegisterObject, StaticReplies, SubscribeToEvent, Success,
};
use ipc_client::json::JsonDoc;
use ipc_client::message::{IpcMessage, Message, Session};
use ipc_client::value::JsonElem;

fn text(bytes: Vec<u8>) -> String {
    String::from_utf8(bytes).unwrap()
}

#[test]
fn test_ipc_message() {
    let msg = r#"{"event":"your event here","result":{}}"#;
    let ipc_message: IpcMessage = IpcMessage::parse(msg.as_bytes()).unwrap();
    if let IpcMessage::BroadCastEvent(event) = ipc_message {
        assert_eq!(event.event, "your event here");
        assert_eq!(event.result, JsonElem::HashMap(Vec::new()));
    } else {
        panic!("This must be IpcMessage::BroadCastEvent");
    }

    let msg = r#"{"event_name":"your event here"}"#;
    let ipc_message: IpcMessage = IpcMessage::parse(msg.as_bytes()).unwrap();
    if let IpcMessage::AddToEventList(event) = ipc_message {
        assert_eq!(event.event_name, "your event here");
    } else {
        panic!("This must be IpcMessage::AddToEventList");
    }

    let msg = r#"{"reg_object":"object name"}"#;
    let ipc_message: IpcMessage = IpcMessage::parse(msg.as_bytes()).unwrap();
    if let IpcMessage::Register(obj) = ipc_message {
        assert_eq!(obj.reg_object, "object name");
    } else {
        panic!("This must be IpcMessage::Register");
    }

    let msg = r#"{"object":"object name","method":"method name","param":{"key":"parameter"}}"#;
    let ipc_message: IpcMessage = IpcMessage::parse(msg.as_bytes()).unwrap();
    if let IpcMessage::Call(obj) = ipc_message {
        let mut hash = Vec::new();

        hash.push(("key".into(), JsonElem::String("parameter".into())));
        assert_eq!(obj.object, "object name");
        assert_eq!(obj.method, "method name");
        assert_eq!(obj.param, Some(JsonElem::HashMap(hash)));
    } else {
        panic!("This must be IpcMessage::Call");
    }

    let msg = r#"{"list":["mango","apple","orange"]}"#;
    let ipc_message: IpcMessage = IpcMessage::parse(msg.as_bytes()).unwrap();
    if let IpcMessage::WaitForObjects(list) = ipc_message {
        assert_eq!(
            list.list,
            vec![
                "mango".to_string(),
                "apple".to_string(),
                "orange".to_string()
            ]
        );
    } else {
        panic!("This must be IpcMessage::WaitForObjects");
    }

    let msg = r#"{"success":"OK"}"#;
    let ipc_message: IpcMessage = IpcMessage::parse(msg.as_bytes()).unwrap();
    if let IpcMessage::Success(success) = ipc_message {
        assert_eq!(success.success, "OK".to_string());
    } else {
        panic!("This must be IpcMessage::WaitForObjects");
    }
}

#[test]
fn test_call_object_request() {
    let mut hash = Vec::new();
    hash.push(("key1".to_string(), JsonElem::String("value1".into())));
    let obj = CallObjectRequest::new("object", "method", Some(JsonElem::HashMap(hash)));

    let ipc: IpcMessage = IpcMessage::parse(obj.serialize().unwrap().as_slice()).unwrap();
    println!("{:?}", ipc);

    let mut hash = Vec::new();
    hash.push(("provider".to_string(), JsonElem::String("Microsoft".into())));
    hash.push(("process".to_string(), JsonElem::String("process".into())));
    let obj = CallObjectRequest::new("object", "method", Some(JsonElem::HashMap(hash)));

    let ipc: IpcMessage = IpcMessage::parse(obj.serialize().unwrap().as_slice()).unwrap();
    println!("{:?}", ipc);

    let obj = CallObjectRequest::new("object", "method", None);

    let ipc: IpcMessage = IpcMessage::parse(obj.serialize().unwrap().as_slice()).unwrap();
    println!("{:?}", ipc);
}

#[test]
fn call_request_keeps_its_fields_through_text() {
    let mut hash = Vec::new();
    hash.push(("provider".to_string(), JsonElem::String("Microsoft".into())));
    hash.push(("process".to_string(), JsonElem::String("process".into())));
    let obj = CallObjectRequest::new("object", "method", Some(JsonElem::HashMap(hash.clone())));
    match IpcMessage::parse(obj.serialize().unwrap().as_slice()).unwrap() {
        IpcMessage::Call(call) => {
            assert_eq!(call.object, "object");
            assert_eq!(call.method, "method");
            assert_eq!(call.param, Some(JsonElem::HashMap(hash)));
        }
        other => panic!("not a call: {:?}", other),
    }
}

#[test]
fn records_are_written_with_their_fields_in_order() {
    assert_eq!(
        text(RegisterObject::new("mango").serialize().unwrap()),
        r#"{"reg_object":"mango"}"#
    );
    assert_eq!(text(Success::new("OK").serialize().unwrap()), r#"{"success":"OK"}"#);
    assert_eq!(
        text(CallObjectRequest::new("mango", "login", None).serialize().unwrap()),
        r#"{"object":"mango","method":"login"}"#
    );
    assert_eq!(
        text(
            CallObjectRequest::new("mango", "login", Some(JsonElem::Int32(7)))
                .serialize()
                .unwrap()
        ),
        r#"{"object":"mango","method":"login","param":7}"#
    );
    assert_eq!(
        text(CallObjectResponse::new(JsonElem::String("hello".into())).serialize().unwrap()),
        r#"{"response":"hello"}"#
    );
    assert_eq!(
        text(Event::new("tick", JsonElem::Int32(42)).serialize().unwrap()),
        r#"{"event":"tick","result":42}"#
    );
    assert_eq!(
        text(SubscribeToEvent::new("tick").serialize().unwrap()),
        r#"{"event_name":"tick"}"#
    );
    assert_eq!(
        text(
            OutgoingMessage::WaitForObjects(ListObjects::new(vec!["a".to_string(), "b".to_string()]))
                .serialize()
                .unwrap()
        ),
        r#"{"list":["a","b"]}"#
    );
    assert_eq!(
        text(OutgoingMessage::WaitForObjects(ListObjects::new(Vec::new())).serialize().unwrap()),
        r#"{"list":[]}"#
    );
    assert_eq!(
        text(Error::new(JsonElem::String("Object not found".into())).serialize().unwrap()),
        r#"{"error":"Object not found"}"#
    );
}

#[test]
fn null_is_the_empty_message() {
    assert!(matches!(IpcMessage::parse(b"null").unwrap(), IpcMessage::Empty));
    assert_eq!(text(IpcMessage::Empty.to_doc().to_vec().unwrap()), "null");
}

#[test]
fn a_call_may_have_a_null_parameter() {
    let msg = r#"{"object":"o","method":"m","param":null}"#;
    match IpcMessage::parse(msg.as_bytes()).unwrap() {
        IpcMessage::Call(call) => assert_eq!(call.param, None),
        other => panic!("not a call: {:?}", other),
    }
}

#[test]
fn a_call_with_a_parameter_that_is_no_value_is_no_message() {
    let msg = r#"{"object":"o","method":"m","param":[null]}"#;
    let err = IpcMessage::parse(msg.as_bytes()).unwrap_err();
    assert_eq!(err, Error::new(JsonElem::String("serde parsing error".into())));
}

#[test]
fn unknown_fields_are_passed_over() {
    let msg = r#"{"extra":1,"reg_object":"mango","more":[true]}"#;
    match IpcMessage::parse(msg.as_bytes()).unwrap() {
        IpcMessage::Register(obj) => assert_eq!(obj.reg_object, "mango"),
        other => panic!("not a registration: {:?}", other),
    }
}

#[test]
fn the_first_fit_wins() {
    let msg = r#"{"success":"OK","reg_object":"mango"}"#;
    assert!(matches!(IpcMessage::parse(msg.as_bytes()).unwrap(), IpcMessage::Register(_)));
    assert!(matches!(IncomingMessage::parse(msg.as_bytes()).unwrap(), IncomingMessage::Register(_)));
    let msg = r#"{"response":1,"error":{"response":2}}"#;
    match IncomingMessage::parse(msg.as_bytes()).unwrap() {
        IncomingMessage::Error(e) => assert_eq!(
            e,
            Error::new(JsonElem::HashMap(vec![("response".to_string(), JsonElem::Int32(2))]))
        ),
        other => panic!("not an error: {:?}", other),
    }
}

#[test]
fn an_error_that_holds_a_response_is_an_error() {
    let record = Error::new(JsonElem::HashMap(vec![(
        "response".to_string(),
        JsonElem::String("x".into()),
    )]));
    let bytes = record.clone().serialize().unwrap();
    assert_eq!(text(bytes.clone()), r#"{"error":{"response":"x"}}"#);
    match IncomingMessage::parse(&bytes).unwrap() {
        IncomingMessage::Error(e) => assert_eq!(e, record),
        other => panic!("not an error: {:?}", other),
    }
}

#[test]
fn bytes_that_are_no_json_give_the_parsers_message() {
    let err = IpcMessage::parse(b"{\"reg_object\":").unwrap_err();
    assert_ne!(err, Error::new(JsonElem::String("serde parsing error".into())));
    assert!(matches!(err.error, JsonElem::String(ref s) if !s.is_empty()));
    let err = IncomingMessage::parse(b"").unwrap_err();
    assert!(matches!(err.error, JsonElem::String(ref s) if !s.is_empty()));
}

#[test]
fn json_that_fits_no_message_gives_the_serde_parsing_error() {
    for msg in [r#"{"reg_object":1}"#, r#"[1,2]"#, r#""text""#, r#"{"list":["a",2]}"#, r#"{}"#] {
        let err = IpcMessage::parse(msg.as_bytes()).unwrap_err();
        assert_eq!(err, Error::new(JsonElem::String("serde parsing error".into())));
    }
    let err = IncomingMessage::parse(b"null").unwrap_err();
    assert_eq!(err, Error::new(JsonElem::String("serde parsing error".into())));
}

#[test]
fn incoming_messages_are_read_in_each_kind() {
    assert!(matches!(
        IncomingMessage::parse(br#"{"success":"OK"}"#).unwrap(),
        IncomingMessage::Register(_)
    ));
    assert!(matches!(
        IncomingMessage::parse(br#"{"error":"x"}"#).unwrap(),
        IncomingMessage::Error(_)
    ));
    assert!(matches!(
        IncomingMessage::parse(br#"{"object":"o","method":"m"}"#).unwrap(),
        IncomingMessage::CallRequest(_)
    ));
    assert!(matches!(
        IncomingMessage::parse(br#"{"response":[1,2]}"#).unwrap(),
        IncomingMessage::CallResponse(_)
    ));
    assert!(matches!(
        IncomingMessage::parse(br#"{"list":[]}"#).unwrap(),
        IncomingMessage::WaitForObjects(_)
    ));
}

#[test]
fn every_record_reads_back_as_itself() {
    let value = JsonElem::HashMap(vec![
        ("n".to_string(), JsonElem::Int32(-5)),
        ("u".to_string(), JsonElem::Uint32(3_000_000_000)),
        ("i".to_string(), JsonElem::Int64(-5_000_000_000)),
        ("w".to_string(), JsonElem::Uint64(18_000_000_000_000_000_000)),
        ("f".to_string(), JsonElem::Float("1.5".to_string())),
        ("b".to_string(), JsonElem::Bool(false)),
        ("s".to_string(), JsonElem::String("a \"quoted\" text".to_string())),
        ("v".to_string(), JsonElem::Vec(vec![JsonElem::Int32(1), JsonElem::Vec(Vec::new())])),
    ]);
    let call = CallObjectRequest::new("o", "m", Some(value.clone()));
    match IpcMessage::parse(&call.serialize().unwrap()).unwrap() {
        IpcMessage::Call(back) => {
            assert_eq!(back.object, "o");
            assert_eq!(back.method, "m");
            assert_eq!(back.param, Some(value.clone()));
        }
        other => panic!("not a call: {:?}", other),
    }
    let event = Event::new("e", value.clone());
    match IpcMessage::parse(&event.serialize().unwrap()).unwrap() {
        IpcMessage::BroadCastEvent(back) => {
            assert_eq!(back.event, "e");
            assert_eq!(back.result, value);
        }
        other => panic!("not an event: {:?}", other),
    }
    let response = CallObjectResponse::new(value.clone());
    match IncomingMessage::parse(&response.serialize().unwrap()).unwrap() {
        IncomingMessage::CallResponse(back) => assert_eq!(back.response, value),
        other => panic!("not a response: {:?}", other),
    }
    let error = Error::new(value.clone());
    match IncomingMessage::parse(&error.serialize().unwrap()).unwrap() {
        IncomingMessage::Error(back) => assert_eq!(back.error, value),
        other => panic!("not an error: {:?}", other),
    }
    let list = ListObjects::new(vec!["mango".to_string(), "apple".to_string()]);
    let bytes = OutgoingMessage::WaitForObjects(list).serialize().unwrap();
    match IpcMessage::parse(&bytes).unwrap() {
        IpcMessage::WaitForObjects(back) => {
            assert_eq!(back, ListObjects::new(vec!["mango".to_string(), "apple".to_string()]))
        }
        other => panic!("not a list: {:?}", other),
    }
}

#[test]
fn an_integer_in_a_wide_variant_reads_back_narrow() {
    let response = CallObjectResponse::new(JsonElem::Int64(5));
    match IncomingMessage::parse(&response.serialize().unwrap()).unwrap() {
        IncomingMessage::CallResponse(back) => assert_eq!(back.response, JsonElem::Int32(5)),
        other => panic!("not a response: {:?}", other),
    }
}

#[test]
fn static_replies_have_their_texts() {
    assert_eq!(StaticReplies::Okay.as_ref(), "OK");
    assert_eq!(StaticReplies::ObjectNotFound.to_string(), "Object not found");
    assert_eq!(StaticReplies::ClientConnectionError.to_string(), "client connection error");
    assert_eq!(StaticReplies::ServerConnectionError.to_string(), "server connection error");
    assert_eq!(StaticReplies::SerdeParseError.to_string(), "serde parsing error");
    assert_eq!(StaticReplies::RemoteConnectionError.to_string(), "remote connection error");
    assert_eq!(StaticReplies::InvalidResponseData.to_string(), "invalid response data");
    assert!(matches!(StaticReplies::from_str("OK"), Some(StaticReplies::Okay)));
    assert!(matches!(
        StaticReplies::from_str("invalid response data"),
        Some(StaticReplies::InvalidResponseData)
    ));
    assert!(StaticReplies::from_str("ok").is_none());
    assert_eq!(
        StaticReplies::ObjectNotFound.error(),
        Error::new(JsonElem::String("Object not found".into()))
    );
}

#[test]
fn a_session_holds_the_message_and_the_peer() {
    let session = Session::new(IpcMessage::Empty, "127.0.0.1:5000".to_string());
    assert_eq!(session.socket_holder.name, "127.0.0.1:5000");
    assert!(matches!(session.msg, IpcMessage::Empty));
    assert!(matches!(Message::RemoveRegistered(session), Message::RemoveRegistered(_)));
}

#[test]
fn a_document_gives_the_first_member_of_a_key() {
    let doc = JsonDoc::parse(br#"{"a":1,"b":"x"}"#).unwrap();
    assert!(matches!(doc.get("a"), Some(JsonDoc::PosInt(1))));
    assert_eq!(doc.get("b").and_then(|d| d.as_text()).map(|s| s.as_str()), Some("x"));
    assert!(doc.get("c").is_none());
    assert!(JsonDoc::parse(b"[1]").unwrap().get("a").is_none());
    assert!(JsonDoc::parse(b"{\"a\":").is_err());
    let twice = JsonDoc::Object(vec![
        ("k".to_string(), JsonDoc::Bool(true)),
        ("k".to_string(), JsonDoc::Bool(false)),
    ]);
    assert!(matches!(twice.get("k"), Some(JsonDoc::Bool(true))));
}

#[test]
fn outgoing_messages_are_read_in_each_kind() {
    let read = |text: &str| OutgoingMessage::from_doc(&JsonDoc::parse(text.as_bytes()).unwrap());
    assert!(matches!(read(r#"{"error":"x"}"#), Some(OutgoingMessage::Error(_))));
    assert!(matches!(read(r#"{"response":1}"#), Some(OutgoingMessage::CallResponse(_))));
    assert!(matches!(read(r#"{"list":["a"]}"#), Some(OutgoingMessage::WaitForObjects(_))));
    assert!(matches!(read(r#"{"event":"e","result":1}"#), Some(OutgoingMessage::SendEvent(_))));
    assert!(matches!(read(r#"{"event_name":"e"}"#), Some(OutgoingMessage::SubscribeEvent(_))));
    assert!(read(r#"{"reg_object":"x"}"#).is_none());
    let event = Event::new("tick", JsonElem::Bool(true));
    let doc = OutgoingMessage::SendEvent(event).to_doc();
    match OutgoingMessage::from_doc(&doc) {
        Some(OutgoingMessage::SendEvent(back)) => {
            assert_eq!(back.event, "tick");
            assert_eq!(back.result, JsonElem::Bool(true));
        }
        other => panic!("not an event: {:?}", other),
    }
}
