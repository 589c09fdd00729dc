use chat_client_core::protocol::{
    decode_frame, encode_outgoing, format_at_prefix, format_uptime, is_guest_name,
    parse_incoming_text, parse_user_input, DecodeResult, Incoming, IncomingParse, Outgoing,
    ParsedInput, UserInfo,
};

#[test]
fn parse_name_command_validation() {
    let parsed = parse_user_input("/name !bad");
    assert!(matches!(parsed, ParsedInput::Error(_)));
}

#[test]
fn parse_chat_too_long() {
    let long_text = "a".repeat(501);
    let parsed = parse_user_input(&long_text);
    assert!(matches!(parsed, ParsedInput::Error(_)));
}

#[test]
fn parse_incoming_chat_with_at() {
    let json = r#"{"type":"chat","from":"Bas","text":"Hallo","at":1733312410000}"#;
    let parsed = parse_incoming_text(json);
    match parsed {
        IncomingParse::Message(Incoming::Chat { at, .. }) => {
            assert_eq!(at, Some(1733312410000));
        }
        _ => panic!("expected chat message"),
    }
}

#[test]
fn parse_incoming_unknown_type_warning() {
    let json = r#"{"type":"newFeature","foo":"bar"}"#;
    let parsed = parse_incoming_text(json);
    match parsed {
        IncomingParse::Warning(text) => {
            assert!(text.contains("Unknown server message type"));
        }
        _ => panic!("expected warning"),
    }
}

#[test]
fn format_at_prefix_is_human_readable() {
    let formatted = format_at_prefix(Some(1733312410000));
    assert!(formatted.starts_with('['));
    assert!(formatted.contains(":"));
    assert!(formatted.ends_with("] "));
}

#[test]
fn parse_blank_input_is_empty() {
    assert!(matches!(parse_user_input(""), ParsedInput::Empty));
    assert!(matches!(parse_user_input("   "), ParsedInput::Empty));
}

#[test]
fn parse_name_rules() {
    assert!(matches!(parse_user_input("/name a"), ParsedInput::Error(_)));
    match parse_user_input("/name ok-name_2") {
        ParsedInput::SetName(n) => assert_eq!(n, "ok-name_2"),
        _ => panic!("expected a set-name command"),
    }
    assert!(matches!(parse_user_input("/name bad!name"), ParsedInput::Error(_)));
    match parse_user_input("/name") {
        ParsedInput::Error(m) => assert_eq!(m, "Usage: /name <new_name>"),
        _ => panic!("expected a usage error"),
    }
}

#[test]
fn parse_unknown_command_names_it() {
    match parse_user_input("/bogus") {
        ParsedInput::Error(m) => assert!(m.contains("bogus")),
        _ => panic!("expected an error naming the command"),
    }
}

#[test]
fn parse_commands_case_insensitive() {
    assert!(matches!(parse_user_input("/STATUS"), ParsedInput::Status));
    assert!(matches!(parse_user_input("/Users"), ParsedInput::ListUsers));
}

#[test]
fn parse_ping_tokens() {
    assert!(matches!(parse_user_input("/ping"), ParsedInput::Ping(None)));
    match parse_user_input("/ping tok1") {
        ParsedInput::Ping(Some(t)) => assert_eq!(t, "tok1"),
        _ => panic!("expected a ping with a token"),
    }
}

#[test]
fn parse_ai_rules() {
    match parse_user_input("/ai") {
        ParsedInput::Error(m) => assert_eq!(m, "Usage: /ai <question>"),
        _ => panic!("expected a usage error"),
    }
    let long = format!("/ai {}", "b".repeat(1001));
    assert!(matches!(parse_user_input(&long), ParsedInput::Error(_)));
    match parse_user_input("/ai what is this?") {
        ParsedInput::Ai(p) => assert_eq!(p, "what is this?"),
        _ => panic!("expected a prompt"),
    }
}

#[test]
fn encode_chat_frame() {
    let text = encode_outgoing(&Outgoing::Chat { text: String::from("Hallo") });
    assert_eq!(text, r#"{"type":"chat","text":"Hallo"}"#);
}

#[test]
fn encode_ping_without_token_is_null() {
    let text = encode_outgoing(&Outgoing::Ping { token: None });
    assert_eq!(text, r#"{"type":"ping","token":null}"#);
    let with = encode_outgoing(&Outgoing::Ping { token: Some(String::from("tok1")) });
    assert_eq!(with, r#"{"type":"ping","token":"tok1"}"#);
}

#[test]
fn encode_fixed_commands() {
    assert_eq!(encode_outgoing(&Outgoing::Status), r#"{"type":"status"}"#);
    assert_eq!(encode_outgoing(&Outgoing::ListUsers), r#"{"type":"listUsers"}"#);
    assert_eq!(
        encode_outgoing(&Outgoing::SetName { name: String::from("Bas") }),
        r#"{"type":"setName","name":"Bas"}"#
    );
    assert_eq!(
        encode_outgoing(&Outgoing::Ai { prompt: String::from("why?") }),
        r#"{"type":"ai","prompt":"why?"}"#
    );
}

#[test]
fn encode_escapes_text() {
    let text = encode_outgoing(&Outgoing::Chat { text: String::from("a\"b\\c\nd") });
    assert_eq!(text, "{\"type\":\"chat\",\"text\":\"a\\\"b\\\\c\\nd\"}");
}

#[test]
fn decode_round_trips_escaped_text() {
    let frame = "{\"type\":\"chat\",\"from\":\"x\",\"text\":\"a\\\"b\\\\c\\nd \\u0041 \\ud83d\\ude00\"}";
    match parse_incoming_text(frame) {
        IncomingParse::Message(Incoming::Chat { text, .. }) => {
            assert_eq!(text, "a\"b\\c\nd A \u{1F600}");
        }
        _ => panic!("expected chat message"),
    }
}

#[test]
fn decode_exact_chat_event() {
    let json = r#"{"type":"chat","from":"Bas","text":"Hallo","at":1733312410000}"#;
    let expected = Incoming::Chat {
        from: String::from("Bas"),
        text: String::from("Hallo"),
        at: Some(1733312410000),
    };
    assert_eq!(parse_incoming_text(json), IncomingParse::Message(expected));
}

#[test]
fn decode_invalid_json_warns() {
    match parse_incoming_text("this is not json") {
        IncomingParse::Warning(w) => assert!(w.contains("invalid JSON")),
        _ => panic!("expected warning"),
    }
    match parse_incoming_text("{\"type\":") {
        IncomingParse::Warning(w) => assert!(w.contains("invalid JSON")),
        _ => panic!("expected warning"),
    }
}

#[test]
fn decode_without_discriminant_warns() {
    match parse_incoming_text(r#"{"foo":"bar"}"#) {
        IncomingParse::Warning(w) => assert!(w.contains("'type' field")),
        _ => panic!("expected warning"),
    }
    match parse_incoming_text("[1,2]") {
        IncomingParse::Warning(w) => assert!(w.contains("'type' field")),
        _ => panic!("expected warning"),
    }
}

#[test]
fn decode_results_classify() {
    assert_eq!(decode_frame("nonsense"), DecodeResult::MalformedPayload);
    assert_eq!(decode_frame("42"), DecodeResult::MissingDiscriminant);
    assert_eq!(
        decode_frame(r#"{"type":"newFeature"}"#),
        DecodeResult::UnrecognizedVariant(String::from("newFeature"))
    );
    // a known discriminant whose payload does not fit degrades the same way
    assert_eq!(
        decode_frame(r#"{"type":"chat","text":"no sender"}"#),
        DecodeResult::UnrecognizedVariant(String::from("chat"))
    );
}

#[test]
fn decode_status_keeps_gauge_spellings() {
    let json = "{\"type\":\"status\",\"version\":\"1.0\",\"uptimeSeconds\":90,\"userCount\":3,\"messagesSent\":10,\"messagesPerSecond\":3.25,\"memoryMb\":12.5}";
    match parse_incoming_text(json) {
        IncomingParse::Message(Incoming::Status {
            version,
            uptime_seconds,
            user_count,
            messages_sent,
            messages_per_second,
            memory_mb,
            os,
            at,
            ..
        }) => {
            assert_eq!(version, "1.0");
            assert_eq!(uptime_seconds, 90);
            assert_eq!(user_count, 3);
            assert_eq!(messages_sent, 10);
            assert_eq!(messages_per_second, "3.25");
            assert_eq!(memory_mb, "12.5");
            assert_eq!(os, None);
            assert_eq!(at, None);
        }
        _ => panic!("expected status event"),
    }
}

#[test]
fn decode_user_list() {
    let json = "{\"type\":\"listUsers\",\"users\":[{\"id\":\"u1\",\"name\":\"Bas\",\"ip\":\"127.0.0.1\"},{\"id\":\"u2\",\"name\":\"Eva\",\"ip\":\"10.0.0.2\"}],\"at\":null}";
    let expected = Incoming::ListUsers {
        users: vec![
            UserInfo {
                id: String::from("u1"),
                name: String::from("Bas"),
                ip: String::from("127.0.0.1"),
            },
            UserInfo {
                id: String::from("u2"),
                name: String::from("Eva"),
                ip: String::from("10.0.0.2"),
            },
        ],
        at: None,
    };
    assert_eq!(parse_incoming_text(json), IncomingParse::Message(expected));
}

#[test]
fn decode_pong_token_null_is_none() {
    let json = r#"{"type":"pong","token":null,"at":7}"#;
    assert_eq!(
        parse_incoming_text(json),
        IncomingParse::Message(Incoming::Pong { token: None, at: Some(7) })
    );
}

#[test]
fn decode_tolerates_whitespace() {
    let json = " { \"type\" : \"system\" , \"text\" : \"hi\" } ";
    assert_eq!(
        parse_incoming_text(json),
        IncomingParse::Message(Incoming::System { text: String::from("hi"), at: None })
    );
}

#[test]
fn decode_rejects_too_deep_nesting() {
    let mut frame = String::new();
    for _ in 0..200 {
        frame.push('[');
    }
    for _ in 0..200 {
        frame.push(']');
    }
    match parse_incoming_text(&frame) {
        IncomingParse::Warning(w) => assert!(w.contains("invalid JSON")),
        _ => panic!("expected warning"),
    }
}

#[test]
fn format_uptime_units() {
    assert_eq!(format_uptime(59), "59 sec");
    assert_eq!(format_uptime(60), "1 min");
    assert_eq!(format_uptime(3599), "59 min");
    assert_eq!(format_uptime(3600), "1 uur");
    assert_eq!(format_uptime(259200), "3 dagen");
}

#[test]
fn format_at_prefix_none_is_empty() {
    assert_eq!(format_at_prefix(None), "");
}

#[test]
fn guest_names_are_recognized() {
    assert!(is_guest_name("guest-1234"));
    assert!(is_guest_name("  Guest-abc  "));
    assert!(!is_guest_name("Bas"));
    assert!(!is_guest_name(""));
}
