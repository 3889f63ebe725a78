use loglab::chat::ChatMessage;
use loglab::chat::chat_to_json;
use loglab::chat::classify;
use loglab::chat::frame_pipe;
use loglab::session::Session;
use loglab::tail::Tailer;
use serde_json::Value;

#[test]
fn chat_serializes_to_exact_json() {
    let m = ChatMessage {
        sender: b"u".to_vec(),
        content: b"hi".to_vec(),
        timestamp: 1,
    };
    let bytes = chat_to_json(&m);
    assert_eq!(
        String::from_utf8(bytes).unwrap(),
        "{\"sender\":\"u\",\"content\":\"hi\",\"timestamp\":1}"
    );
}

#[test]
fn chat_json_round_trips_through_serde() {
    let m = ChatMessage {
        sender: b"alice".to_vec(),
        content: b"hello there".to_vec(),
        timestamp: 1700000000,
    };
    let bytes = chat_to_json(&m);
    let parsed: Value = serde_json::from_slice(&bytes).unwrap();
    let mut expected = serde_json::Map::new();
    expected.insert("sender".to_string(), Value::String("alice".to_string()));
    expected.insert(
        "content".to_string(),
        Value::String("hello there".to_string()),
    );
    expected.insert("timestamp".to_string(), Value::from(1700000000u64));
    assert_eq!(parsed, Value::Object(expected));
}

#[test]
fn chat_escaping_matches_serde_json() {
    let tricky = "say \"hi\"\\ tab\there\nctrl\u{1}\u{1f} caf\u{e9} \u{1f600}";
    let m = ChatMessage {
        sender: tricky.as_bytes().to_vec(),
        content: b"x".to_vec(),
        timestamp: 0,
    };
    let text = String::from_utf8(chat_to_json(&m)).unwrap();
    let expected_literal = serde_json::to_string(&Value::String(tricky.to_string())).unwrap();
    assert!(text.starts_with(&format!("{{\"sender\":{}", expected_literal)));
}

#[test]
fn chat_control_bytes_use_lowercase_hex_escapes() {
    let m = ChatMessage {
        sender: vec![1, 31],
        content: vec![8, 9, 10, 12, 13],
        timestamp: 0,
    };
    let text = String::from_utf8(chat_to_json(&m)).unwrap();
    assert_eq!(
        text,
        "{\"sender\":\"\\u0001\\u001f\",\"content\":\"\\b\\t\\n\\f\\r\",\"timestamp\":0}"
    );
}

#[test]
fn chat_largest_timestamp_serializes_exactly() {
    let m = ChatMessage {
        sender: b"s".to_vec(),
        content: b"c".to_vec(),
        timestamp: u64::MAX,
    };
    let text = String::from_utf8(chat_to_json(&m)).unwrap();
    assert_eq!(
        text,
        "{\"sender\":\"s\",\"content\":\"c\",\"timestamp\":18446744073709551615}"
    );
}

#[test]
fn pipe_frame_is_prefix_plus_text_verbatim() {
    let framed = frame_pipe(&b"raw {\"not\":\"chat\"}".to_vec());
    assert_eq!(framed, b"pipe:raw {\"not\":\"chat\"}".to_vec());
    let empty = frame_pipe(&Vec::new());
    assert_eq!(empty, b"pipe:".to_vec());
}

#[test]
fn chat_sent_by_one_connection_reaches_other_unprefixed() {
    let input = "{\"sender\":\"u\",\"content\":\"hi\",\"timestamp\":1}";
    let parsed: Value = serde_json::from_str(input).unwrap();
    let obj = parsed.as_object().unwrap();
    let m = ChatMessage {
        sender: obj["sender"].as_str().unwrap().as_bytes().to_vec(),
        content: obj["content"].as_str().unwrap().as_bytes().to_vec(),
        timestamp: obj["timestamp"].as_u64().unwrap(),
    };
    let mut session = Session::new(100);
    let b = session.attach();
    session.ingress(classify(input.as_bytes().to_vec(), Some(m)));
    let received = session.egress_chat(&b).unwrap();
    assert_eq!(String::from_utf8(received).unwrap(), input);
    assert_eq!(session.egress_pipe(&b), None);
}

#[test]
fn tailed_file_reaches_subscriber_in_order_before_live_appends() {
    let mut content = b"line1\nline2\n".to_vec();
    let (mut tailer, existing) = Tailer::start(&content, true);
    let mut session = Session::new(100);
    let viewer = session.attach();
    for line in existing {
        session.ingress(classify(line, None));
    }
    assert_eq!(session.egress_pipe(&viewer), Some(b"pipe:line1".to_vec()));
    assert_eq!(session.egress_pipe(&viewer), Some(b"pipe:line2".to_vec()));
    assert_eq!(session.egress_pipe(&viewer), None);
    content.extend_from_slice(b"line3\n");
    for line in tailer.drain(&content) {
        session.ingress(classify(line, None));
    }
    assert_eq!(session.egress_pipe(&viewer), Some(b"pipe:line3".to_vec()));
}
