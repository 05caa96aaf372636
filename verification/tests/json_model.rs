use renderrelay::error::{DecodeError, RrpError};
use renderrelay::json::JsonValue;
use renderrelay::message::RrpMessage;
use renderrelay::types::{AuthMode, KeyState, Severity, StreamFormat};

fn obj(members: Vec<(&str, JsonValue)>) -> JsonValue {
    JsonValue::Object(members.into_iter().map(|(k, v)| (k.to_owned(), v)).collect())
}

fn s(text: &str) -> JsonValue {
    JsonValue::Str(text.to_owned())
}

#[test]
fn json_text_numbers_read_by_kind() {
    let v = JsonValue::from_text(r#"[1, -2, 2.5, 18446744073709551615]"#).unwrap();
    match v {
        JsonValue::Array(items) => {
            assert_eq!(items[0], JsonValue::UInt(1));
            assert_eq!(items[1], JsonValue::Int(-2));
            assert!(matches!(items[2], JsonValue::Float(_)));
            assert_eq!(items[3], JsonValue::UInt(u64::MAX));
        }
        _ => panic!("expected an array"),
    }
}

#[test]
fn json_text_bad_input_is_json_error() {
    assert!(matches!(JsonValue::from_text("{"), Err(RrpError::Json(_))));
    assert!(matches!(RrpMessage::parse("not json"), Err(RrpError::Json(_))));
}

#[test]
fn json_text_keeps_member_order() {
    let v = obj(vec![("b", JsonValue::Bool(true)), ("a", JsonValue::Null)]);
    assert_eq!(v.to_text(), r#"{"b":true,"a":null}"#);
    assert_eq!(JsonValue::from_text(r#"{"b":true,"a":null}"#).unwrap(), v);
}

#[test]
fn json_get_finds_first_member() {
    let v = obj(vec![("k", s("one")), ("k", s("two"))]);
    assert_eq!(v.get("k"), Some(&s("one")));
    assert_eq!(v.get("missing"), None);
    assert_eq!(s("x").get("k"), None);
}

#[test]
fn json_clone_is_equal() {
    let v = obj(vec![("list", JsonValue::Array(vec![JsonValue::UInt(3), JsonValue::Int(-1)]))]);
    assert_eq!(v.clone(), v);
    assert_eq!(v.duplicate(), v);
}

#[test]
fn decode_not_an_object() {
    let r = RrpMessage::from_json_value(&JsonValue::Array(vec![]));
    assert_eq!(r.unwrap_err(), DecodeError::NotAnObject);
}

#[test]
fn decode_missing_type() {
    let r = RrpMessage::from_json_value(&obj(vec![("url", s("x"))]));
    assert_eq!(r.unwrap_err(), DecodeError::MissingField);
}

#[test]
fn decode_type_not_a_string() {
    let r = RrpMessage::from_json_value(&obj(vec![("type", JsonValue::UInt(0))]));
    assert_eq!(r.unwrap_err(), DecodeError::WrongType);
}

#[test]
fn decode_missing_required_field() {
    let r = RrpMessage::from_json_value(&obj(vec![("type", s("stream_update"))]));
    assert_eq!(r.unwrap_err(), DecodeError::MissingField);
}

#[test]
fn decode_wrong_field_type() {
    let r = RrpMessage::from_json_value(&obj(vec![("type", s("start")), ("version", s("0.1.0"))]));
    assert_eq!(r.unwrap_err(), DecodeError::WrongType);
    let r = RrpMessage::from_json_value(&obj(vec![
        ("type", s("start")),
        ("version", JsonValue::Array(vec![s("0.1.0"), JsonValue::UInt(1)])),
    ]));
    assert_eq!(r.unwrap_err(), DecodeError::WrongType);
}

#[test]
fn decode_unknown_enum_value() {
    let r = RrpMessage::from_json_value(&obj(vec![
        ("type", s("key")),
        ("key", s("ok")),
        ("state", s("pressed")),
    ]));
    assert_eq!(r.unwrap_err(), DecodeError::UnknownValue);
    let r = RrpMessage::parse(r#"{"type":"stream_ready","format":"mp4","url":"u"}"#);
    assert!(matches!(r, Err(RrpError::Json(_))));
}

#[test]
fn decode_null_optional_is_none_and_extra_members_ignored() {
    let m = RrpMessage::parse(r#"{"type":"notify","message":"hi","duration":null,"extra":[1,2]}"#)
        .unwrap();
    assert_eq!(
        m,
        RrpMessage::Notify {
            message: "hi".to_owned(),
            duration: None
        }
    );
}

#[test]
fn decode_negative_duration_is_wrong_type() {
    assert!(matches!(
        RrpMessage::parse(r#"{"type":"notify","message":"hi","duration":-5}"#),
        Err(RrpError::Json(_))
    ));
}

#[test]
fn decode_error_descriptions() {
    assert_eq!(DecodeError::MissingField.describe(), "missing field");
    assert_eq!(DecodeError::WrongType.describe(), "invalid type");
    assert_eq!(DecodeError::UnknownValue.describe(), "unknown variant");
}

#[test]
fn encode_key_message_object() {
    let m = RrpMessage::Key {
        key: "up".to_owned(),
        state: KeyState::Down,
    };
    assert_eq!(
        m.to_json_value(),
        obj(vec![("type", s("key")), ("key", s("up")), ("state", s("down"))])
    );
    assert_eq!(m.to_json().unwrap(), r#"{"type":"key","key":"up","state":"down"}"#);
}

#[test]
fn encode_leaves_out_absent_optionals() {
    let m = RrpMessage::Notify {
        message: "m".to_owned(),
        duration: None,
    };
    assert_eq!(m.to_json_value(), obj(vec![("type", s("notify")), ("message", s("m"))]));
    assert_eq!(RrpMessage::Unknown.to_json().unwrap(), r#"{"type":"unknown"}"#);
}

#[test]
fn value_roundtrip_keeps_every_message() {
    let messages = vec![
        RrpMessage::Start {
            version: vec!["0.1.0".into(), "0.2.0".into()],
            name: None,
        },
        RrpMessage::Init {
            version: "0.1.0".into(),
            name: None,
            auth: AuthMode::Required,
            auth_endpoint: Some("https://auth.example/device".into()),
            stream: renderrelay::StreamCaps {
                supported: vec![StreamFormat::Dash, StreamFormat::WebRtc, StreamFormat::Rtsp],
            },
            input: renderrelay::InputCaps { keys: vec![] },
            extensions: Some(vec![]),
        },
        RrpMessage::Join {
            stream: renderrelay::StreamSelection {
                selected: StreamFormat::Hls,
            },
            extensions: Some(vec!["a.b".into()]),
            token: Some("t".into()),
        },
        RrpMessage::StreamReady {
            format: StreamFormat::LlHls,
            url: "u".into(),
            extensions: Some(vec!["x".into()]),
        },
        RrpMessage::Key {
            key: "back".into(),
            state: KeyState::Repeat,
        },
        RrpMessage::Ext {
            ext: "golf.frp".into(),
            data: JsonValue::Array(vec![JsonValue::Null, JsonValue::Int(-7)]),
        },
        RrpMessage::Alert {
            severity: Severity::Error,
            message: "e".into(),
        },
        RrpMessage::Unknown,
    ];
    for m in messages {
        let back = RrpMessage::from_json_value(&m.to_json_value()).unwrap();
        assert_eq!(back, m);
    }
}

#[test]
fn type_named_unknown_reads_as_unknown() {
    let m = RrpMessage::from_json_value(&obj(vec![("type", s("unknown"))])).unwrap();
    assert_eq!(m, RrpMessage::Unknown);
}

#[test]
fn json_text_reads_back_as_written() {
    let v = obj(vec![
        ("name", s("qu\"ote\\ and \u{e9} \n")),
        ("n", JsonValue::UInt(u64::MAX)),
        ("neg", JsonValue::Int(i64::MIN)),
        ("list", JsonValue::Array(vec![JsonValue::Null, JsonValue::Bool(false), obj(vec![("x", s(""))])])),
    ]);
    let text = v.to_text();
    assert_eq!(JsonValue::from_text(&text).unwrap(), v);
}

#[test]
fn json_text_of_plain_string_is_quoted() {
    assert_eq!(s("golf.frp").to_text(), "\"golf.frp\"");
    assert_eq!(s("a\"b").to_text(), "\"a\\\"b\"");
}

#[test]
fn json_text_outside_read_back_condition() {
    let v = JsonValue::Array(vec![JsonValue::Int(5)]);
    assert_eq!(JsonValue::from_text(&v.to_text()).unwrap(), JsonValue::Array(vec![JsonValue::UInt(5)]));
    let deep_ok = (0..127).fold(JsonValue::Null, |acc, _| JsonValue::Array(vec![acc]));
    assert_eq!(JsonValue::from_text(&deep_ok.to_text()).unwrap(), deep_ok);
    let too_deep = (0..128).fold(JsonValue::Null, |acc, _| JsonValue::Array(vec![acc]));
    assert!(JsonValue::from_text(&too_deep.to_text()).is_err());
}
