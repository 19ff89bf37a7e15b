use fibers::signalr::json::{JsonNumber, JsonValue};
use fibers::signalr::msgpack::{MsgpackInteger, MsgpackValue};
use fibers::signalr::value::{SignalRValue, UnsupportedValueKind};

fn sample() -> SignalRValue {
    SignalRValue::Array(vec![
        SignalRValue::Integer(0),
        SignalRValue::Integer(-1),
        SignalRValue::Integer(i64::MAX),
        SignalRValue::Integer(i64::MIN),
        SignalRValue::Float(1.5f64.to_bits()),
        SignalRValue::Float(2.0f64.to_bits()),
        SignalRValue::Float(f64::NAN.to_bits()),
        SignalRValue::String("h\u{e9}llo".to_string()),
        SignalRValue::String(String::new()),
        SignalRValue::Boolean(true),
        SignalRValue::Boolean(false),
        SignalRValue::Null,
        SignalRValue::Array(vec![]),
        SignalRValue::Object(vec![]),
        SignalRValue::Object(vec![
            ("b".to_string(), SignalRValue::Integer(2)),
            ("a".to_string(), SignalRValue::Array(vec![SignalRValue::Null])),
            (
                "nested".to_string(),
                SignalRValue::Object(vec![("deep".to_string(), SignalRValue::Boolean(true))]),
            ),
        ]),
    ])
}

#[test]
fn json_round_trip_of_every_variant() {
    let value = sample();
    assert_eq!(SignalRValue::from_json(&value.to_json()), Ok(value));
}

#[test]
fn msgpack_round_trip_of_every_variant() {
    let value = sample();
    assert_eq!(SignalRValue::from_msgpack(&value.to_msgpack()), Ok(value));
}

#[test]
fn to_json_of_each_variant() {
    assert_eq!(SignalRValue::Integer(7).to_json(), JsonValue::Number(JsonNumber::PosInt(7)));
    assert_eq!(SignalRValue::Integer(0).to_json(), JsonValue::Number(JsonNumber::PosInt(0)));
    assert_eq!(SignalRValue::Integer(-7).to_json(), JsonValue::Number(JsonNumber::NegInt(-7)));
    assert_eq!(
        SignalRValue::Float(2.0f64.to_bits()).to_json(),
        JsonValue::Number(JsonNumber::Float(0x4000_0000_0000_0000))
    );
    assert_eq!(SignalRValue::String("s".to_string()).to_json(), JsonValue::String("s".to_string()));
    assert_eq!(SignalRValue::Boolean(true).to_json(), JsonValue::Bool(true));
    assert_eq!(SignalRValue::Null.to_json(), JsonValue::Null);
    assert_eq!(
        SignalRValue::Array(vec![SignalRValue::Null, SignalRValue::Integer(1)]).to_json(),
        JsonValue::Array(vec![JsonValue::Null, JsonValue::Number(JsonNumber::PosInt(1))])
    );
    assert_eq!(
        SignalRValue::Object(vec![("k".to_string(), SignalRValue::Boolean(false))]).to_json(),
        JsonValue::Object(vec![("k".to_string(), JsonValue::Bool(false))])
    );
}

#[test]
fn to_msgpack_of_each_variant() {
    assert_eq!(
        SignalRValue::Integer(7).to_msgpack(),
        MsgpackValue::Integer(MsgpackInteger::PosInt(7))
    );
    assert_eq!(
        SignalRValue::Integer(-7).to_msgpack(),
        MsgpackValue::Integer(MsgpackInteger::NegInt(-7))
    );
    assert_eq!(
        SignalRValue::Float(1.5f64.to_bits()).to_msgpack(),
        MsgpackValue::F64(0x3FF8_0000_0000_0000)
    );
    assert_eq!(
        SignalRValue::String("s".to_string()).to_msgpack(),
        MsgpackValue::String("s".to_string())
    );
    assert_eq!(SignalRValue::Boolean(true).to_msgpack(), MsgpackValue::Boolean(true));
    assert_eq!(SignalRValue::Null.to_msgpack(), MsgpackValue::Nil);
    assert_eq!(
        SignalRValue::Array(vec![SignalRValue::Null]).to_msgpack(),
        MsgpackValue::Array(vec![MsgpackValue::Nil])
    );
    assert_eq!(
        SignalRValue::Object(vec![("k".to_string(), SignalRValue::Integer(2))]).to_msgpack(),
        MsgpackValue::Mapping(vec![(
            MsgpackValue::String("k".to_string()),
            MsgpackValue::Integer(MsgpackInteger::PosInt(2))
        )])
    );
}

#[test]
fn json_float_stays_a_float_without_a_fraction() {
    let two = JsonValue::Number(JsonNumber::Float(2.0f64.to_bits()));
    assert_eq!(SignalRValue::from_json(&two), Ok(SignalRValue::Float(2.0f64.to_bits())));
    let also_two = JsonValue::Number(JsonNumber::PosInt(2));
    assert_eq!(SignalRValue::from_json(&also_two), Ok(SignalRValue::Integer(2)));
}

#[test]
fn json_integer_beyond_i64_is_unsupported() {
    let big = JsonValue::Number(JsonNumber::PosInt(u64::MAX));
    assert_eq!(SignalRValue::from_json(&big), Err(UnsupportedValueKind));
    let edge = JsonValue::Number(JsonNumber::PosInt(i64::MAX as u64 + 1));
    assert_eq!(SignalRValue::from_json(&edge), Err(UnsupportedValueKind));
    let fits = JsonValue::Number(JsonNumber::PosInt(i64::MAX as u64));
    assert_eq!(SignalRValue::from_json(&fits), Ok(SignalRValue::Integer(i64::MAX)));
    let inside = JsonValue::Array(vec![JsonValue::Null, JsonValue::Object(vec![("n".to_string(), big)])]);
    assert_eq!(SignalRValue::from_json(&inside), Err(UnsupportedValueKind));
}

#[test]
fn msgpack_single_precision_comes_in_as_float_and_goes_out_as_f64() {
    let bits = 1.5f64.to_bits();
    let value = SignalRValue::from_msgpack(&MsgpackValue::F32(bits)).unwrap();
    assert_eq!(value, SignalRValue::Float(bits));
    assert_eq!(value.to_msgpack(), MsgpackValue::F64(bits));
}

#[test]
fn msgpack_extension_is_unsupported() {
    assert_eq!(
        SignalRValue::from_msgpack(&MsgpackValue::Ext(1, vec![0xAB])),
        Err(UnsupportedValueKind)
    );
    let inside = MsgpackValue::Array(vec![
        MsgpackValue::Integer(MsgpackInteger::PosInt(1)),
        MsgpackValue::Mapping(vec![(
            MsgpackValue::String("e".to_string()),
            MsgpackValue::Ext(-1, vec![0; 8]),
        )]),
    ]);
    assert_eq!(SignalRValue::from_msgpack(&inside), Err(UnsupportedValueKind));
}

#[test]
fn msgpack_binary_is_unsupported() {
    assert_eq!(
        SignalRValue::from_msgpack(&MsgpackValue::Binary(vec![1, 2, 3])),
        Err(UnsupportedValueKind)
    );
}

#[test]
fn msgpack_integer_beyond_i64_is_unsupported() {
    assert_eq!(
        SignalRValue::from_msgpack(&MsgpackValue::Integer(MsgpackInteger::PosInt(u64::MAX))),
        Err(UnsupportedValueKind)
    );
    assert_eq!(
        SignalRValue::from_msgpack(&MsgpackValue::Integer(MsgpackInteger::PosInt(
            i64::MAX as u64
        ))),
        Ok(SignalRValue::Integer(i64::MAX))
    );
    assert_eq!(
        SignalRValue::from_msgpack(&MsgpackValue::Integer(MsgpackInteger::NegInt(i64::MIN))),
        Ok(SignalRValue::Integer(i64::MIN))
    );
}

#[test]
fn msgpack_map_with_a_key_that_is_no_string_is_unsupported() {
    let map = MsgpackValue::Mapping(vec![(
        MsgpackValue::Integer(MsgpackInteger::PosInt(1)),
        MsgpackValue::Nil,
    )]);
    assert_eq!(SignalRValue::from_msgpack(&map), Err(UnsupportedValueKind));
}

#[test]
fn msgpack_map_keys_come_in_unquoted() {
    let map = MsgpackValue::Mapping(vec![(MsgpackValue::String("key".to_string()), MsgpackValue::Nil)]);
    assert_eq!(
        SignalRValue::from_msgpack(&map),
        Ok(SignalRValue::Object(vec![("key".to_string(), SignalRValue::Null)]))
    );
}

#[test]
fn number_accessors() {
    assert_eq!(JsonNumber::PosInt(5).as_u64(), Some(5));
    assert_eq!(JsonNumber::PosInt(5).as_i64(), Some(5));
    assert_eq!(JsonNumber::PosInt(u64::MAX).as_i64(), None);
    assert_eq!(JsonNumber::NegInt(-5).as_u64(), None);
    assert_eq!(JsonNumber::NegInt(-5).as_i64(), Some(-5));
    assert_eq!(JsonNumber::Float(0).as_u64(), None);
    assert_eq!(JsonNumber::Float(0).as_i64(), None);
    assert!(JsonNumber::Float(0).is_f64());
    assert!(!JsonNumber::PosInt(0).is_f64());
    assert_eq!(MsgpackInteger::PosInt(6).as_u64(), Some(6));
    assert_eq!(MsgpackInteger::NegInt(-6).as_u64(), None);
    assert_eq!(MsgpackInteger::NegInt(-6).as_i64(), Some(-6));
    assert_eq!(MsgpackInteger::PosInt(u64::MAX).as_i64(), None);
}

#[test]
fn get_finds_the_last_entry_of_a_name() {
    let object = SignalRValue::Object(vec![
        ("a".to_string(), SignalRValue::Integer(1)),
        ("b".to_string(), SignalRValue::Null),
        ("a".to_string(), SignalRValue::Integer(2)),
    ]);
    assert_eq!(object.get("a"), Some(&SignalRValue::Integer(2)));
    assert_eq!(object.get("b"), Some(&SignalRValue::Null));
    assert_eq!(object.get("c"), None);
    assert_eq!(SignalRValue::Object(vec![]).get("a"), None);
    assert_eq!(SignalRValue::Array(vec![SignalRValue::Null]).get("a"), None);
    assert_eq!(SignalRValue::Null.get("a"), None);
}

#[test]
fn to_json_keeps_what_a_name_finds() {
    let object = SignalRValue::Object(vec![
        ("a".to_string(), SignalRValue::Integer(1)),
        ("b".to_string(), SignalRValue::Boolean(true)),
        ("a".to_string(), SignalRValue::Integer(2)),
    ]);
    let document = object.to_json();
    for name in ["a", "b", "c"] {
        let expected = object.get(name).map(|entry| entry.to_json());
        assert_eq!(document.get(name), expected.as_ref());
    }
    assert_eq!(document.get("a"), Some(&JsonValue::Number(JsonNumber::PosInt(2))));
}
