use fibers::signalr::json::{JsonNumber, JsonValue};
use fibers::signalr::message::json::JsonParseError;
use fibers::signalr::message::{
    CompletionMessage, InvocationMessage, Message, UnsupportedMessageKind,
};
use fibers::signalr::text::frame_of_text;
use fibers::signalr::value::SignalRValue;

fn outside(document: &JsonValue) -> serde_json::Value {
    match document {
        JsonValue::Null => serde_json::Value::Null,
        JsonValue::Bool(b) => serde_json::Value::Bool(*b),
        JsonValue::Number(JsonNumber::PosInt(n)) => serde_json::Value::from(*n),
        JsonValue::Number(JsonNumber::NegInt(n)) => serde_json::Value::from(*n),
        JsonValue::Number(JsonNumber::Float(bits)) => serde_json::Value::from(f64::from_bits(*bits)),
        JsonValue::String(s) => serde_json::Value::String(s.clone()),
        JsonValue::Array(items) => serde_json::Value::Array(items.iter().map(outside).collect()),
        JsonValue::Object(members) => {
            serde_json::Value::Object(members.iter().map(|(k, v)| (k.clone(), outside(v))).collect())
        }
    }
}

fn wire(message: &Message) -> Vec<u8> {
    let document = message.serialize().unwrap();
    frame_of_text(&serde_json::to_string(&outside(&document)).unwrap())
}

fn member(name: &str, value: JsonValue) -> (String, JsonValue) {
    (name.to_string(), value)
}

fn number(n: u64) -> JsonValue {
    JsonValue::Number(JsonNumber::PosInt(n))
}

fn string(s: &str) -> JsonValue {
    JsonValue::String(s.to_string())
}

#[test]
fn serialize_an_invocation() {
    let message = Message::Invocation(InvocationMessage {
        invocation_id: Some("1".to_string()),
        target: "Join".to_string(),
        arguments: vec![SignalRValue::Integer(5), SignalRValue::Null],
    });
    assert_eq!(
        message.serialize(),
        Ok(JsonValue::Object(vec![
            member("type", number(1)),
            member("invocationId", string("1")),
            member("target", string("Join")),
            member("arguments", JsonValue::Array(vec![number(5), JsonValue::Null])),
        ]))
    );
}

#[test]
fn json_serialize_an_invocation_without_id() {
    let message = Message::Invocation(InvocationMessage {
        invocation_id: None,
        target: "t".to_string(),
        arguments: vec![],
    });
    assert_eq!(
        message.serialize(),
        Ok(JsonValue::Object(vec![
            member("type", number(1)),
            member("invocationId", JsonValue::Null),
            member("target", string("t")),
            member("arguments", JsonValue::Array(vec![])),
        ]))
    );
}

#[test]
fn json_serialize_a_void_completion() {
    let message = Message::Completion(CompletionMessage::void("42".to_string()));
    assert_eq!(
        message.serialize(),
        Ok(JsonValue::Object(vec![member("type", number(3)), member("invocationId", string("42"))]))
    );
}

#[test]
fn json_serialize_a_completion_with_result() {
    let message = Message::Completion(CompletionMessage {
        invocation_id: "42".to_string(),
        result: Some(SignalRValue::Null),
        error: None,
    });
    assert_eq!(
        message.serialize(),
        Ok(JsonValue::Object(vec![
            member("type", number(3)),
            member("invocationId", string("42")),
            member("result", JsonValue::Null),
        ]))
    );
}

#[test]
fn json_serialize_a_failed_completion_has_no_result() {
    let message = Message::Completion(CompletionMessage {
        invocation_id: "42".to_string(),
        result: Some(SignalRValue::Integer(1)),
        error: Some("boom".to_string()),
    });
    assert_eq!(
        message.serialize(),
        Ok(JsonValue::Object(vec![
            member("type", number(3)),
            member("invocationId", string("42")),
            member("error", string("boom")),
        ]))
    );
}

#[test]
fn serialize_a_ping() {
    assert_eq!(Message::Ping.serialize(), Ok(JsonValue::Object(vec![member("type", number(6))])));
}

#[test]
fn kinds_without_a_wire_form_are_not_serialized_as_json() {
    for message in [
        Message::Close,
        Message::StreamInvocation,
        Message::StreamItem,
        Message::CancelInvocation,
        Message::Ack,
        Message::Sequence,
    ] {
        assert_eq!(message.serialize(), Err(UnsupportedMessageKind));
    }
}

#[test]
fn json_wire_text_of_a_void_completion() {
    let bytes = wire(&Message::Completion(CompletionMessage::void("42".to_string())));
    assert_eq!(bytes.last(), Some(&0x1E));
    let read: serde_json::Value = serde_json::from_slice(&bytes[..bytes.len() - 1]).unwrap();
    let object = read.as_object().unwrap();
    assert_eq!(object.len(), 2);
    assert_eq!(object["type"], serde_json::Value::from(3));
    assert_eq!(object["invocationId"], serde_json::Value::from("42"));
    assert!(!object.contains_key("result"));
    assert!(!object.contains_key("error"));
}

#[test]
fn json_wire_text_of_a_ping() {
    assert_eq!(wire(&Message::Ping), b"{\"type\":6}\x1e".to_vec());
}

#[test]
fn deserialize_an_invocation() {
    let document = JsonValue::parse(
        r#"{"type":1,"invocationId":"42","target":"x","arguments":[1,2.5,"s",[true],{"k":null}]}"#,
    )
    .unwrap();
    assert_eq!(
        Message::deserialize(&document),
        Ok(Message::Invocation(InvocationMessage {
            invocation_id: Some("42".to_string()),
            target: "x".to_string(),
            arguments: vec![
                SignalRValue::Integer(1),
                SignalRValue::Float(2.5f64.to_bits()),
                SignalRValue::String("s".to_string()),
                SignalRValue::Array(vec![SignalRValue::Boolean(true)]),
                SignalRValue::Object(vec![("k".to_string(), SignalRValue::Null)]),
            ],
        }))
    );
}

#[test]
fn json_deserialize_an_invocation_whose_id_is_missing_or_no_string() {
    for text in [
        r#"{"type":1,"target":"x","arguments":[]}"#,
        r#"{"type":1,"invocationId":null,"target":"x","arguments":[]}"#,
        r#"{"type":1,"invocationId":42,"target":"x","arguments":[]}"#,
    ] {
        assert_eq!(
            Message::deserialize(&JsonValue::parse(text).unwrap()),
            Ok(Message::Invocation(InvocationMessage {
                invocation_id: None,
                target: "x".to_string(),
                arguments: vec![],
            }))
        );
    }
}

#[test]
fn deserialize_a_ping() {
    assert_eq!(Message::deserialize(&JsonValue::parse(r#"{"type":6}"#).unwrap()), Ok(Message::Ping));
    assert_eq!(Message::deserialize_frame(b"{\"type\":6}\x1e"), Ok(Message::Ping));
}

#[test]
fn json_deserialize_reports_a_missing_field() {
    for text in [
        r#"{}"#,
        r#"[]"#,
        r#"6"#,
        r#"{"Type":6}"#,
        r#"{"type":1,"target":"x"}"#,
        r#"{"type":1,"arguments":[]}"#,
        r#"{"type":1}"#,
    ] {
        assert_eq!(
            Message::deserialize(&JsonValue::parse(text).unwrap()),
            Err(JsonParseError::MissingField)
        );
    }
}

#[test]
fn json_deserialize_reports_a_field_of_the_wrong_type() {
    for text in [
        r#"{"type":"6"}"#,
        r#"{"type":6.0}"#,
        r#"{"type":-1}"#,
        r#"{"type":null}"#,
        r#"{"type":1,"target":"x","arguments":{}}"#,
        r#"{"type":1,"target":"x","arguments":null}"#,
        r#"{"type":1,"target":7,"arguments":[]}"#,
        r#"{"type":1,"arguments":"no"}"#,
    ] {
        assert_eq!(
            Message::deserialize(&JsonValue::parse(text).unwrap()),
            Err(JsonParseError::InvalidType)
        );
    }
}

#[test]
fn json_deserialize_reports_an_unrecognized_type() {
    for text in [
        r#"{"type":0}"#,
        r#"{"type":2}"#,
        r#"{"type":3,"invocationId":"1"}"#,
        r#"{"type":7}"#,
        r#"{"type":18446744073709551615}"#,
    ] {
        assert_eq!(
            Message::deserialize(&JsonValue::parse(text).unwrap()),
            Err(JsonParseError::UnrecognizedMessageType)
        );
    }
}

#[test]
fn json_deserialize_reports_an_argument_that_no_value_stands_for() {
    let text = r#"{"type":1,"target":"x","arguments":[18446744073709551615]}"#;
    assert_eq!(
        Message::deserialize(&JsonValue::parse(text).unwrap()),
        Err(JsonParseError::UnsupportedValueKind)
    );
    let no_target = r#"{"type":1,"arguments":[[9223372036854775808]]}"#;
    assert_eq!(
        Message::deserialize(&JsonValue::parse(no_target).unwrap()),
        Err(JsonParseError::UnsupportedValueKind)
    );
}

#[test]
fn deserialize_frame_reports_a_malformed_frame() {
    let malformed: [&[u8]; 6] = [
        b"",
        b"\x1e",
        b"{\"type\":6}",
        b"{\"type\":6\x1e",
        b"{\"type\":6}\x1e\x1e",
        b"{\"type\":\"\xff\"}\x1e",
    ];
    for frame in malformed {
        assert_eq!(Message::deserialize_frame(frame), Err(JsonParseError::Malformed));
    }
}

#[test]
fn deserialize_frame_reads_what_serialize_wrote() {
    let message = Message::Invocation(InvocationMessage {
        invocation_id: Some("9".to_string()),
        target: "Echo".to_string(),
        arguments: vec![
            SignalRValue::Float(0.1f64.to_bits()),
            SignalRValue::Integer(i64::MIN),
            SignalRValue::String("\u{1e}\"\\".to_string()),
        ],
    });
    let bytes = wire(&message);
    assert_eq!(Message::deserialize_frame(&bytes), Ok(message));
}
