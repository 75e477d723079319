use dap_session::json::{Json, Member};
use dap_session::message::{DAPMessage, MessageError, MessageType};
use dap_session::wire::{json_to_text, parse_json, same_json};

fn json_of(text: &str) -> Json {
    parse_json(text).expect("the test's own JSON")
}

fn member_of(key: &str, value: Json) -> Member {
    Member { key: key.to_string(), value }
}

#[test]
fn message_type_names() {
    assert_eq!(MessageType::Request.as_str(), "request");
    assert_eq!(MessageType::Response.as_str(), "response");
    assert_eq!(MessageType::Event.as_str(), "event");
    assert_eq!(MessageType::from_name("request"), Some(MessageType::Request));
    assert_eq!(MessageType::from_name("response"), Some(MessageType::Response));
    assert_eq!(MessageType::from_name("event"), Some(MessageType::Event));
    assert_eq!(MessageType::from_name("Event"), None);
    assert_eq!(MessageType::from_name(""), None);
}

#[test]
fn request_is_written_with_present_members_only() {
    let m = DAPMessage {
        seq: 7,
        message_type: MessageType::Request,
        command: Some("continue".to_string()),
        request_seq: None,
        success: None,
        body: None,
        event: None,
        arguments: Some(json_of(r#"{"threadId":1}"#)),
    };
    assert_eq!(
        m.to_json(),
        Json::Object(vec![
            member_of("seq", Json::Int(7)),
            member_of("type", Json::Str("request".to_string())),
            member_of("command", Json::Str("continue".to_string())),
            member_of("arguments", Json::Object(vec![member_of("threadId", Json::Int(1))])),
        ])
    );
}

#[test]
fn response_is_written_in_member_order() {
    let m = DAPMessage {
        seq: 3,
        message_type: MessageType::Response,
        command: Some("next".to_string()),
        request_seq: Some(2),
        success: Some(true),
        body: Some(Json::Object(vec![])),
        event: None,
        arguments: None,
    };
    assert_eq!(
        m.to_json(),
        Json::Object(vec![
            member_of("seq", Json::Int(3)),
            member_of("type", Json::Str("response".to_string())),
            member_of("command", Json::Str("next".to_string())),
            member_of("request_seq", Json::Int(2)),
            member_of("success", Json::Bool(true)),
            member_of("body", Json::Object(vec![])),
        ])
    );
}

#[test]
fn message_round_trip_through_json() {
    let messages = vec![
        DAPMessage {
            seq: 1,
            message_type: MessageType::Request,
            command: Some("evaluate".to_string()),
            request_seq: None,
            success: None,
            body: None,
            event: None,
            arguments: Some(json_of(r#"{"expression":"a + b","context":"repl"}"#)),
        },
        DAPMessage {
            seq: -5,
            message_type: MessageType::Response,
            command: Some("stackTrace".to_string()),
            request_seq: Some(2147483647),
            success: Some(false),
            body: Some(json_of(r#"{"stackFrames":[{"id":1,"line":25}]}"#)),
            event: None,
            arguments: None,
        },
        DAPMessage {
            seq: 9,
            message_type: MessageType::Event,
            command: None,
            request_seq: None,
            success: None,
            body: Some(json_of(r#"[1,"two",3.5,false]"#)),
            event: Some("stopped".to_string()),
            arguments: None,
        },
        DAPMessage {
            seq: 0,
            message_type: MessageType::Event,
            command: None,
            request_seq: None,
            success: None,
            body: None,
            event: None,
            arguments: None,
        },
    ];
    for m in messages {
        assert_eq!(DAPMessage::from_json(&m.to_json()), Ok(m.clone()));
    }
}

#[test]
fn null_body_is_read_as_no_body() {
    let m = DAPMessage {
        seq: 1,
        message_type: MessageType::Event,
        command: None,
        request_seq: None,
        success: None,
        body: Some(Json::Null),
        event: Some("output".to_string()),
        arguments: None,
    };
    let read = DAPMessage::from_json(&m.to_json()).unwrap();
    assert_eq!(read.body, None);
    assert_eq!(read.event, m.event);
}

#[test]
fn null_and_absent_members_stand_for_no_value() {
    let read = DAPMessage::from_json(&json_of(
        r#"{"seq":4,"type":"event","command":null,"request_seq":null,"success":null,"body":null,"event":null,"arguments":null}"#,
    ));
    assert_eq!(
        read,
        Ok(DAPMessage {
            seq: 4,
            message_type: MessageType::Event,
            command: None,
            request_seq: None,
            success: None,
            body: None,
            event: None,
            arguments: None,
        })
    );
}

#[test]
fn unknown_members_are_passed_over() {
    let read = DAPMessage::from_json(&json_of(
        r#"{"seq":4,"type":"response","request_seq":3,"success":false,"message":"no such thread","extra":[1]}"#,
    ))
    .unwrap();
    assert_eq!(read.seq, 4);
    assert_eq!(read.message_type, MessageType::Response);
    assert_eq!(read.request_seq, Some(3));
    assert_eq!(read.success, Some(false));
    assert_eq!(read.body, None);
}

#[test]
fn reading_fails_with_each_error() {
    let cases = vec![
        (r#"[1,"request"]"#, MessageError::NotAnObject),
        (r#""hello""#, MessageError::NotAnObject),
        (r#"{"type":"event"}"#, MessageError::BadSeq),
        (r#"{"seq":"1","type":"event"}"#, MessageError::BadSeq),
        (r#"{"seq":1.5,"type":"event"}"#, MessageError::BadSeq),
        (r#"{"seq":2147483648,"type":"event"}"#, MessageError::BadSeq),
        (r#"{"seq":null,"type":"event"}"#, MessageError::BadSeq),
        (r#"{"seq":1}"#, MessageError::BadType),
        (r#"{"seq":1,"type":"notice"}"#, MessageError::BadType),
        (r#"{"seq":1,"type":null}"#, MessageError::BadType),
        (r#"{"seq":1,"type":"request","command":5}"#, MessageError::BadCommand),
        (r#"{"seq":1,"type":"response","request_seq":"x"}"#, MessageError::BadRequestSeq),
        (r#"{"seq":1,"type":"response","request_seq":-2147483649}"#, MessageError::BadRequestSeq),
        (r#"{"seq":1,"type":"response","success":"yes"}"#, MessageError::BadSuccess),
        (r#"{"seq":1,"type":"event","event":{}}"#, MessageError::BadEvent),
    ];
    for (text, error) in cases {
        assert_eq!(DAPMessage::from_json(&json_of(text)), Err(error), "{}", text);
    }
}

#[test]
fn errors_are_reported_in_member_order() {
    assert_eq!(
        DAPMessage::from_json(&json_of(r#"{"seq":"x","type":"bad","command":1}"#)),
        Err(MessageError::BadSeq)
    );
    assert_eq!(
        DAPMessage::from_json(&json_of(r#"{"seq":1,"type":"bad","command":1}"#)),
        Err(MessageError::BadType)
    );
    assert_eq!(
        DAPMessage::from_json(&json_of(r#"{"seq":1,"type":"event","event":1,"success":1}"#)),
        Err(MessageError::BadSuccess)
    );
}

#[test]
fn smallest_and_largest_sequence_numbers_are_read() {
    let low = DAPMessage::from_json(&json_of(r#"{"seq":-2147483648,"type":"event"}"#)).unwrap();
    assert_eq!(low.seq, i32::MIN);
    let high = DAPMessage::from_json(&json_of(r#"{"seq":2147483647,"type":"event"}"#)).unwrap();
    assert_eq!(high.seq, i32::MAX);
}

#[test]
fn json_lookup_finds_first_member() {
    let j = Json::Object(vec![
        member_of("a", Json::Int(1)),
        member_of("b", Json::Str("x".to_string())),
        member_of("a", Json::Int(2)),
    ]);
    assert_eq!(j.get("a"), Some(&Json::Int(1)));
    assert_eq!(j.get_i64("a"), Some(1));
    assert_eq!(j.get_str("b"), Some("x"));
    assert_eq!(j.get("c"), None);
    assert_eq!(j.get_i64("b"), None);
    assert_eq!(j.get_str("a"), None);
    assert_eq!(Json::Int(3).get("a"), None);
}

#[test]
fn json_accessors_tell_kinds_apart() {
    assert_eq!(Json::Int(-4).as_i64(), Some(-4));
    assert_eq!(Json::Decimal("1.5".to_string()).as_i64(), None);
    assert_eq!(Json::Str("7".to_string()).as_i64(), None);
    assert_eq!(Json::Str("7".to_string()).as_str(), Some("7"));
    assert_eq!(Json::Bool(true).as_bool(), Some(true));
    assert_eq!(Json::Null.as_bool(), None);
    assert_eq!(Json::Array(vec![Json::Null]).as_array(), Some(&vec![Json::Null]));
    assert_eq!(Json::Object(vec![]).as_array(), None);
}

#[test]
fn json_builder_appends_members() {
    let j = Json::object().with("a", Json::Int(1)).with("b", Json::text("x"));
    assert_eq!(
        j,
        Json::Object(vec![member_of("a", Json::Int(1)), member_of("b", Json::Str("x".to_string()))])
    );
    assert_eq!(Json::Int(1).with("a", Json::Null), Json::Int(1));
}

#[test]
fn json_clone_is_equal() {
    let j = json_of(r#"{"a":[1,{"b":null,"c":[true,"x",2.5]}],"d":{}}"#);
    assert_eq!(j.clone(), j);
}

#[test]
fn json_text_is_read_into_plain_values() {
    assert_eq!(
        parse_json(r#" {"b": [1, -2, 2.5, "x", true, null], "a": {}} "#),
        Some(Json::Object(vec![
            member_of("a", Json::Object(vec![])),
            member_of(
                "b",
                Json::Array(vec![
                    Json::Int(1),
                    Json::Int(-2),
                    Json::Decimal("2.5".to_string()),
                    Json::Str("x".to_string()),
                    Json::Bool(true),
                    Json::Null,
                ])
            ),
        ]))
    );
}

#[test]
fn numbers_beyond_64_bit_signed_are_held_as_text() {
    assert_eq!(parse_json("9223372036854775807"), Some(Json::Int(i64::MAX)));
    assert_eq!(
        parse_json("9223372036854775808"),
        Some(Json::Decimal("9223372036854775808".to_string()))
    );
    assert_eq!(parse_json("-9223372036854775808"), Some(Json::Int(i64::MIN)));
}

#[test]
fn text_that_is_no_json_is_refused() {
    assert_eq!(parse_json(""), None);
    assert_eq!(parse_json("{"), None);
    assert_eq!(parse_json("not json!"), None);
    assert_eq!(parse_json("{} trailing"), None);
    assert_eq!(parse_json("{'a':1}"), None);
}

#[test]
fn json_is_written_as_compact_text() {
    assert_eq!(json_to_text(&Json::Null), "null");
    assert_eq!(json_to_text(&Json::Bool(false)), "false");
    assert_eq!(json_to_text(&Json::Int(-12)), "-12");
    assert_eq!(json_to_text(&Json::Str("a\"b\n".to_string())), r#""a\"b\n""#);
    assert_eq!(json_to_text(&Json::Decimal("2.5".to_string())), "2.5");
    assert_eq!(json_to_text(&Json::Decimal("no number".to_string())), "null");
    assert_eq!(
        json_to_text(&Json::Array(vec![Json::Int(1), Json::Array(vec![]), Json::Object(vec![])])),
        "[1,[],{}]"
    );
    assert_eq!(
        json_to_text(&Json::Object(vec![
            member_of("a", Json::Int(1)),
            member_of("b", Json::Array(vec![Json::Bool(true)])),
        ])),
        r#"{"a":1,"b":[true]}"#
    );
}

#[test]
fn written_json_is_read_back() {
    let j = json_of(r#"{"a":[1,{"b":null,"c":[true,"xé",2.5]}],"d":{"e":-7}}"#);
    assert_eq!(parse_json(&json_to_text(&j)), Some(j));
}

#[test]
fn a_later_member_replaces_an_earlier_one_of_its_name_when_written() {
    let j = Json::Object(vec![
        member_of("b", Json::Int(1)),
        member_of("a", Json::Int(2)),
        member_of("b", Json::Int(3)),
    ]);
    assert_eq!(json_to_text(&j), r#"{"a":2,"b":3}"#);
    assert_eq!(json_to_text(&Json::Object(vec![])), "{}");
}

#[test]
fn written_requests_are_read_back_but_for_member_order() {
    let m = DAPMessage {
        seq: 5,
        message_type: MessageType::Request,
        command: Some("evaluate".to_string()),
        request_seq: None,
        success: None,
        body: None,
        event: None,
        arguments: Some(Json::Object(vec![
            member_of("expression", Json::Str("a + b".to_string())),
            member_of("context", Json::Str("repl".to_string())),
        ])),
    };
    let read = DAPMessage::from_json(&json_of(&json_to_text(&m.to_json()))).unwrap();
    assert_eq!(read.seq, m.seq);
    assert_eq!(read.message_type, m.message_type);
    assert_eq!(read.command, m.command);
    assert_eq!(read.request_seq, None);
    assert_eq!(read.success, None);
    assert_eq!(read.body, None);
    assert_eq!(read.event, None);
    let arguments = read.arguments.unwrap();
    assert_eq!(arguments.get_str("expression"), Some("a + b"));
    assert_eq!(arguments.get_str("context"), Some("repl"));
    match arguments {
        Json::Object(members) => assert_eq!(members.len(), 2),
        other => panic!("{:?}", other),
    }
}

#[test]
fn json_values_are_compared_but_for_member_order() {
    let a = json_of(r#"{"a":1,"b":[true,{"c":"x","d":null}],"e":2.5}"#);
    let b = Json::Object(vec![
        member_of("e", Json::Decimal("2.5".to_string())),
        member_of(
            "b",
            Json::Array(vec![
                Json::Bool(true),
                Json::Object(vec![member_of("d", Json::Null), member_of("c", Json::text("x"))]),
            ]),
        ),
        member_of("a", Json::Int(1)),
    ]);
    assert!(same_json(&a, &b));
    assert!(same_json(&b, &a));
    assert!(same_json(&a, &a));
    assert!(!same_json(&a, &json_of(r#"{"a":1,"b":[true,{"c":"x","d":null}]}"#)));
    assert!(!same_json(&json_of(r#"{"a":1,"b":[true,{"c":"x","d":null}]}"#), &a));
    assert!(!same_json(&a, &json_of(r#"{"a":1,"b":[{"c":"x","d":null},true],"e":2.5}"#)));
    assert!(!same_json(&a, &json_of(r#"{"a":1,"b":[true,{"c":"y","d":null}],"e":2.5}"#)));
    assert!(!same_json(&a, &json_of(r#"{"a":"1","b":[true,{"c":"x","d":null}],"e":2.5}"#)));
    assert!(!same_json(&Json::Null, &Json::Bool(false)));
    assert!(!same_json(&Json::Int(1), &Json::Decimal("1".to_string())));
    assert!(!same_json(&Json::Array(vec![]), &Json::Object(vec![])));
    assert!(same_json(&Json::Array(vec![]), &Json::Array(vec![])));
    assert!(!same_json(&Json::Array(vec![Json::Null]), &Json::Array(vec![])));
    assert!(same_json(&Json::Str("é".to_string()), &Json::text("é")));
}

#[test]
fn what_is_written_is_like_what_was_given() {
    let given = Json::Object(vec![
        member_of("zeta", Json::Int(1)),
        member_of("alpha", Json::Array(vec![Json::Object(vec![
            member_of("y", Json::text("1")),
            member_of("x", Json::Bool(false)),
        ])])),
        member_of("mid", Json::Null),
    ]);
    let read = json_of(&json_to_text(&given));
    assert_ne!(read, given);
    assert!(same_json(&read, &given));
}
