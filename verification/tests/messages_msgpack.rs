use fibers::signalr::message::msgpack::{
    deserialize_document, deserialize_message, frame, serialize_message, MsgpackParseError,
};
use fibers::signalr::message::{
    CompletionMessage, InvocationMessage, Message, ResultKind, UnsupportedMessageKind,
};
use fibers::signalr::msgpack::{MsgpackInteger, MsgpackValue};
use fibers::signalr::value::SignalRValue;

fn pos(n: u64) -> MsgpackValue {
    MsgpackValue::Integer(MsgpackInteger::PosInt(n))
}

fn text(s: &str) -> MsgpackValue {
    MsgpackValue::String(s.to_string())
}

fn outside(document: &MsgpackValue) -> rmpv::Value {
    match document {
        MsgpackValue::Nil => rmpv::Value::Nil,
        MsgpackValue::Boolean(b) => rmpv::Value::Boolean(*b),
        MsgpackValue::Integer(MsgpackInteger::PosInt(n)) => rmpv::Value::from(*n),
        MsgpackValue::Integer(MsgpackInteger::NegInt(n)) => rmpv::Value::from(*n),
        MsgpackValue::F32(bits) => rmpv::Value::F32(f64::from_bits(*bits) as f32),
        MsgpackValue::F64(bits) => rmpv::Value::F64(f64::from_bits(*bits)),
        MsgpackValue::String(s) => rmpv::Value::from(s.as_str()),
        MsgpackValue::Binary(bytes) => rmpv::Value::Binary(bytes.clone()),
        MsgpackValue::Array(items) => rmpv::Value::Array(items.iter().map(outside).collect()),
        MsgpackValue::Mapping(entries) => {
            rmpv::Value::Map(entries.iter().map(|(k, v)| (outside(k), outside(v))).collect())
        }
        MsgpackValue::Ext(tag, data) => rmpv::Value::Ext(*tag, data.clone()),
    }
}

fn wire(message: &Message) -> Vec<u8> {
    let document = serialize_message(message).unwrap();
    let mut payload = Vec::new();
    rmpv::encode::write_value(&mut payload, &outside(&document)).unwrap();
    frame(&payload)
}

fn completion(result: Option<SignalRValue>, error: Option<&str>) -> CompletionMessage {
    CompletionMessage {
        invocation_id: "42".to_string(),
        result,
        error: error.map(|e| e.to_string()),
    }
}

#[test]
fn completion_with_error_has_result_kind_one() {
    let failed = completion(None, Some("boom"));
    assert_eq!(failed.result_kind(), ResultKind::Error);
    assert_eq!(
        serialize_message(&Message::Completion(failed)),
        Ok(MsgpackValue::Array(vec![
            pos(3),
            MsgpackValue::Mapping(vec![]),
            text("42"),
            pos(1),
            text("boom"),
        ]))
    );
}

#[test]
fn completion_with_error_and_result_has_result_kind_one() {
    let both = completion(Some(SignalRValue::Integer(5)), Some("boom"));
    assert_eq!(both.result_kind(), ResultKind::Error);
    assert_eq!(
        serialize_message(&Message::Completion(both)),
        Ok(MsgpackValue::Array(vec![
            pos(3),
            MsgpackValue::Mapping(vec![]),
            text("42"),
            pos(1),
            text("boom"),
        ]))
    );
}

#[test]
fn completion_with_neither_has_result_kind_two() {
    let void = completion(None, None);
    assert_eq!(void.result_kind(), ResultKind::Void);
    assert_eq!(
        serialize_message(&Message::Completion(void)),
        Ok(MsgpackValue::Array(vec![
            pos(3),
            MsgpackValue::Mapping(vec![]),
            text("42"),
            pos(2),
            MsgpackValue::Nil,
        ]))
    );
}

#[test]
fn completion_with_null_result_has_result_kind_three() {
    let null = completion(Some(SignalRValue::Null), None);
    assert_eq!(null.result_kind(), ResultKind::NonVoid);
    assert_eq!(
        serialize_message(&Message::Completion(null)),
        Ok(MsgpackValue::Array(vec![
            pos(3),
            MsgpackValue::Mapping(vec![]),
            text("42"),
            pos(3),
            MsgpackValue::Nil,
        ]))
    );
}

#[test]
fn completion_with_result_carries_the_value() {
    let value = SignalRValue::Array(vec![
        SignalRValue::Integer(-1),
        SignalRValue::Object(vec![("k".to_string(), SignalRValue::Boolean(true))]),
    ]);
    let document = serialize_message(&Message::Completion(completion(Some(value), None))).unwrap();
    assert_eq!(
        document,
        MsgpackValue::Array(vec![
            pos(3),
            MsgpackValue::Mapping(vec![]),
            text("42"),
            pos(3),
            MsgpackValue::Array(vec![
                MsgpackValue::Integer(MsgpackInteger::NegInt(-1)),
                MsgpackValue::Mapping(vec![(text("k"), MsgpackValue::Boolean(true))]),
            ]),
        ])
    );
}

#[test]
fn result_kind_wire_numbers() {
    assert_eq!(ResultKind::Error.wire(), 1);
    assert_eq!(ResultKind::Void.wire(), 2);
    assert_eq!(ResultKind::NonVoid.wire(), 3);
}

#[test]
fn void_completion_has_neither_result_nor_error() {
    assert_eq!(
        CompletionMessage::void("7".to_string()),
        CompletionMessage { invocation_id: "7".to_string(), result: None, error: None }
    );
}

#[test]
fn ping_is_the_array_of_its_tag() {
    assert_eq!(serialize_message(&Message::Ping), Ok(MsgpackValue::Array(vec![pos(6)])));
}

#[test]
fn kinds_without_a_wire_form_are_not_serialized() {
    let invocation = Message::Invocation(InvocationMessage {
        invocation_id: None,
        target: "t".to_string(),
        arguments: vec![],
    });
    for message in [
        invocation,
        Message::Close,
        Message::StreamInvocation,
        Message::StreamItem,
        Message::CancelInvocation,
        Message::Ack,
        Message::Sequence,
    ] {
        assert_eq!(serialize_message(&message), Err(UnsupportedMessageKind));
    }
}

#[test]
fn wire_bytes_of_a_void_completion() {
    let bytes = wire(&Message::Completion(completion(None, None)));
    assert_eq!(bytes, vec![0x08, 0x95, 0x03, 0x80, 0xA2, 0x34, 0x32, 0x02, 0xC0]);
}

#[test]
fn wire_bytes_of_a_ping() {
    assert_eq!(wire(&Message::Ping), vec![0x02, 0x91, 0x06]);
}

#[test]
fn wire_bytes_of_a_failed_completion() {
    let bytes = wire(&Message::Completion(completion(None, Some("no"))));
    assert_eq!(bytes, vec![0x0A, 0x95, 0x03, 0x80, 0xA2, 0x34, 0x32, 0x01, 0xA2, 0x6E, 0x6F]);
}

#[test]
fn deserialize_a_ping_frame() {
    assert_eq!(deserialize_message(&[0x02, 0x91, 0x06]), Ok(Message::Ping));
}

#[test]
fn deserialize_a_ping_with_more_elements_and_more_bytes() {
    assert_eq!(deserialize_message(&[0x03, 0x92, 0x06, 0xC0, 0xFF]), Ok(Message::Ping));
}

#[test]
fn deserialize_an_invocation_frame() {
    let frame = [0x09, 0x95, 0x01, 0x80, 0xA2, 0x34, 0x32, 0xA1, 0x78, 0x90];
    assert_eq!(
        deserialize_message(&frame),
        Ok(Message::Invocation(InvocationMessage {
            invocation_id: Some("42".to_string()),
            target: "x".to_string(),
            arguments: vec![],
        }))
    );
}

#[test]
fn deserialize_an_invocation_without_id_and_with_arguments() {
    let payload: Vec<u8> = vec![
        0x95, 0x01, 0x80, 0xC0, // [1, {}, nil,
        0xA4, 0x53, 0x65, 0x6E, 0x64, // "Send",
        0x97, // [
        0x01, // 1
        0xD0, 0x80, // -128
        0xCB, 0x3F, 0xF8, 0x00, 0x00, 0x00, 0x00, 0x00, 0x00, // 1.5
        0xCA, 0x3F, 0xC0, 0x00, 0x00, // 1.5 single
        0xA1, 0x61, // "a"
        0xC2, // false
        0x81, 0xA1, 0x6B, 0xC0, // {"k": nil}
    ];
    assert_eq!(
        deserialize_message(&frame(&payload)),
        Ok(Message::Invocation(InvocationMessage {
            invocation_id: None,
            target: "Send".to_string(),
            arguments: vec![
                SignalRValue::Integer(1),
                SignalRValue::Integer(-128),
                SignalRValue::Float(1.5f64.to_bits()),
                SignalRValue::Float(1.5f64.to_bits()),
                SignalRValue::String("a".to_string()),
                SignalRValue::Boolean(false),
                SignalRValue::Object(vec![("k".to_string(), SignalRValue::Null)]),
            ],
        }))
    );
}

#[test]
fn deserialize_does_not_look_at_the_headers() {
    let document = MsgpackValue::Array(vec![
        pos(1),
        MsgpackValue::Integer(MsgpackInteger::NegInt(-5)),
        MsgpackValue::Nil,
        text("t"),
        MsgpackValue::Array(vec![]),
        text("more"),
    ]);
    assert_eq!(
        deserialize_document(&document),
        Ok(Message::Invocation(InvocationMessage {
            invocation_id: None,
            target: "t".to_string(),
            arguments: vec![],
        }))
    );
}

#[test]
fn deserialize_reports_framing_errors() {
    assert_eq!(deserialize_message(&[]), Err(MsgpackParseError::TruncatedFrame));
    assert_eq!(
        deserialize_message(&[0x0A, 0x91, 0x06, 0x00]),
        Err(MsgpackParseError::TruncatedFrame)
    );
    assert_eq!(
        deserialize_message(&[0x80, 0x80, 0x80, 0x80, 0x80, 0x00]),
        Err(MsgpackParseError::FramingError)
    );
}

#[test]
fn deserialize_reports_a_malformed_payload() {
    assert_eq!(deserialize_message(&[0x00]), Err(MsgpackParseError::MalformedPayload));
    assert_eq!(deserialize_message(&[0x01, 0x92]), Err(MsgpackParseError::MalformedPayload));
    assert_eq!(deserialize_message(&[0x02, 0xA5, 0x61]), Err(MsgpackParseError::MalformedPayload));
}

#[test]
fn deserialize_reports_a_document_of_the_wrong_shape() {
    let wrong: Vec<MsgpackValue> = vec![
        MsgpackValue::Nil,
        pos(6),
        MsgpackValue::Mapping(vec![]),
        MsgpackValue::Array(vec![]),
        MsgpackValue::Array(vec![text("6")]),
        MsgpackValue::Array(vec![MsgpackValue::F64(1.0f64.to_bits())]),
        MsgpackValue::Array(vec![pos(1)]),
        MsgpackValue::Array(vec![pos(1), MsgpackValue::Mapping(vec![]), text("1"), text("t")]),
        MsgpackValue::Array(vec![
            pos(1),
            MsgpackValue::Mapping(vec![]),
            pos(1),
            text("t"),
            MsgpackValue::Array(vec![]),
        ]),
        MsgpackValue::Array(vec![
            pos(1),
            MsgpackValue::Mapping(vec![]),
            MsgpackValue::Nil,
            MsgpackValue::Nil,
            MsgpackValue::Array(vec![]),
        ]),
        MsgpackValue::Array(vec![
            pos(1),
            MsgpackValue::Mapping(vec![]),
            MsgpackValue::Nil,
            MsgpackValue::Binary(vec![0x74]),
            MsgpackValue::Array(vec![]),
        ]),
        MsgpackValue::Array(vec![
            pos(1),
            MsgpackValue::Mapping(vec![]),
            MsgpackValue::Nil,
            text("t"),
            MsgpackValue::Mapping(vec![]),
        ]),
    ];
    for document in wrong {
        assert_eq!(deserialize_document(&document), Err(MsgpackParseError::InvalidType));
    }
}

#[test]
fn deserialize_reports_an_unrecognized_tag() {
    for tag in [0u64, 2, 3, 4, 5, 7, 8, 9, u64::MAX] {
        assert_eq!(
            deserialize_document(&MsgpackValue::Array(vec![pos(tag)])),
            Err(MsgpackParseError::UnrecognizedMessageType)
        );
    }
    assert_eq!(
        deserialize_document(&MsgpackValue::Array(vec![MsgpackValue::Integer(
            MsgpackInteger::NegInt(-1)
        )])),
        Err(MsgpackParseError::UnrecognizedMessageType)
    );
    assert_eq!(
        deserialize_message(&[0x06, 0x95, 0x03, 0x80, 0xA0, 0x02, 0xC0]),
        Err(MsgpackParseError::UnrecognizedMessageType)
    );
}

#[test]
fn deserialize_reports_an_argument_that_no_value_stands_for() {
    let frame = [0x0A, 0x95, 0x01, 0x80, 0xC0, 0xA1, 0x74, 0x91, 0xD4, 0x01, 0x00];
    assert_eq!(deserialize_message(&frame), Err(MsgpackParseError::UnsupportedValueKind));
    let document = MsgpackValue::Array(vec![
        pos(1),
        MsgpackValue::Mapping(vec![]),
        MsgpackValue::Nil,
        text("t"),
        MsgpackValue::Array(vec![pos(u64::MAX)]),
    ]);
    assert_eq!(deserialize_document(&document), Err(MsgpackParseError::UnsupportedValueKind));
}

#[test]
fn deserialize_takes_the_invocation_id_as_it_is() {
    let frame = [0x0B, 0x95, 0x01, 0x80, 0xA4, 0x22, 0x34, 0x32, 0x22, 0xA1, 0x78, 0x90];
    match deserialize_message(&frame) {
        Ok(Message::Invocation(invocation)) => {
            assert_eq!(invocation.invocation_id, Some("\"42\"".to_string()))
        }
        other => panic!("unexpected: {:?}", other),
    }
}

#[test]
fn parse_errors_as_text() {
    assert_eq!(MsgpackParseError::FramingError.to_string(), "FramingError");
    assert_eq!(MsgpackParseError::TruncatedFrame.to_string(), "TruncatedFrame");
    assert_eq!(MsgpackParseError::MalformedPayload.to_string(), "MalformedPayload");
    assert_eq!(MsgpackParseError::InvalidType.to_string(), "InvalidType");
    assert_eq!(MsgpackParseError::UnrecognizedMessageType.to_string(), "UnrecognizedMessageType");
    assert_eq!(MsgpackParseError::UnsupportedValueKind.to_string(), "UnsupportedValueKind");
}

#[test]
fn deserialize_an_invocation_with_a_deep_argument() {
    let mut payload = vec![0x95, 0x01, 0x80, 0xC0, 0xA1, 0x74, 0x91];
    payload.extend_from_slice(&[0x91u8; 300]);
    payload.push(0xC3);
    let mut argument = SignalRValue::Boolean(true);
    for _ in 0..300 {
        argument = SignalRValue::Array(vec![argument]);
    }
    assert_eq!(
        deserialize_message(&frame(&payload)),
        Ok(Message::Invocation(InvocationMessage {
            invocation_id: None,
            target: "t".to_string(),
            arguments: vec![argument],
        }))
    );
}
