use chat_hub::chat::{ChatMessage, User};
use chat_hub::clock::Timestamp;
use chat_hub::wire::{encode_chat_message, encode_timestamp, encode_user, encode_user_list};

#[test]
fn timestamp_is_written_as_rfc3339() {
    assert_eq!(encode_timestamp(Timestamp { secs: 1431648000, nanos: 0 }), "\"2015-05-15T00:00:00Z\"");
    assert_eq!(encode_timestamp(Timestamp { secs: 0, nanos: 0 }), "\"1970-01-01T00:00:00Z\"");
    assert_eq!(encode_timestamp(Timestamp { secs: -1, nanos: 0 }), "\"1969-12-31T23:59:59Z\"");
}

#[test]
fn timestamp_fraction_comes_in_groups_of_three_digits() {
    assert_eq!(
        encode_timestamp(Timestamp { secs: 1516991409, nanos: 453_000_000 }),
        "\"2018-01-26T18:30:09.453Z\""
    );
    assert_eq!(
        encode_timestamp(Timestamp { secs: 1516991409, nanos: 453_829_000 }),
        "\"2018-01-26T18:30:09.453829Z\""
    );
    assert_eq!(
        encode_timestamp(Timestamp { secs: 1516991409, nanos: 1 }),
        "\"2018-01-26T18:30:09.000000001Z\""
    );
}

#[test]
fn timestamp_without_a_date_is_null() {
    assert_eq!(encode_timestamp(Timestamp { secs: 0, nanos: 2_000_000_000 }), "null");
    assert_eq!(encode_timestamp(Timestamp { secs: i64::MAX, nanos: 0 }), "null");
    assert_eq!(encode_timestamp(Timestamp { secs: i64::MIN, nanos: 0 }), "null");
}

#[test]
fn chat_message_json_has_members_in_order() {
    let message = ChatMessage {
        username: "alice".to_string(),
        content: "hi".to_string(),
        timestamp: Timestamp { secs: 1431648000, nanos: 0 },
    };
    assert_eq!(
        encode_chat_message(&message),
        "{\"username\":\"alice\",\"content\":\"hi\",\"timestamp\":\"2015-05-15T00:00:00Z\"}"
    );
}

#[test]
fn chat_message_json_escapes_text() {
    let message = ChatMessage {
        username: "a\"b".to_string(),
        content: "line\nbreak \\ tab\t".to_string(),
        timestamp: Timestamp { secs: 0, nanos: 0 },
    };
    assert_eq!(
        encode_chat_message(&message),
        "{\"username\":\"a\\\"b\",\"content\":\"line\\nbreak \\\\ tab\\t\",\"timestamp\":\"1970-01-01T00:00:00Z\"}"
    );
}

#[test]
fn chat_message_json_keeps_text_beyond_ascii() {
    let message = ChatMessage {
        username: "李".to_string(),
        content: "你好".to_string(),
        timestamp: Timestamp { secs: 0, nanos: 0 },
    };
    assert_eq!(
        encode_chat_message(&message),
        "{\"username\":\"李\",\"content\":\"你好\",\"timestamp\":\"1970-01-01T00:00:00Z\"}"
    );
}

#[test]
fn chat_message_json_reads_back() {
    let message = ChatMessage {
        username: "al\u{1}ice".to_string(),
        content: "\"quoted\" / \u{7f}".to_string(),
        timestamp: Timestamp { secs: 1431648000, nanos: 5_000_000 },
    };
    let value: serde_json::Value = serde_json::from_str(&encode_chat_message(&message)).unwrap();
    assert_eq!(value.get("username").unwrap().as_str().unwrap(), "al\u{1}ice");
    assert_eq!(value.get("content").unwrap().as_str().unwrap(), "\"quoted\" / \u{7f}");
    assert_eq!(value.get("timestamp").unwrap().as_str().unwrap(), "2015-05-15T00:00:00.005Z");
}

#[test]
fn user_json_has_members_in_order() {
    let user = User { username: "bob".to_string(), last_seen: Timestamp { secs: 60, nanos: 0 } };
    assert_eq!(encode_user(&user), "{\"username\":\"bob\",\"last_seen\":\"1970-01-01T00:01:00Z\"}");
}

#[test]
fn user_list_json_of_none_one_and_more() {
    assert_eq!(encode_user_list(&vec![]), "{\"type\":\"userList\",\"users\":[]}");
    let a = User { username: "a".to_string(), last_seen: Timestamp { secs: 0, nanos: 0 } };
    let b = User { username: "b".to_string(), last_seen: Timestamp { secs: 1, nanos: 0 } };
    let c = User { username: "c".to_string(), last_seen: Timestamp { secs: 2, nanos: 0 } };
    assert_eq!(
        encode_user_list(&vec![a.clone()]),
        "{\"type\":\"userList\",\"users\":[{\"username\":\"a\",\"last_seen\":\"1970-01-01T00:00:00Z\"}]}"
    );
    assert_eq!(
        encode_user_list(&vec![a, b, c]),
        "{\"type\":\"userList\",\"users\":[{\"username\":\"a\",\"last_seen\":\"1970-01-01T00:00:00Z\"},{\"username\":\"b\",\"last_seen\":\"1970-01-01T00:00:01Z\"},{\"username\":\"c\",\"last_seen\":\"1970-01-01T00:00:02Z\"}]}"
    );
}

#[test]
fn user_list_json_reads_back() {
    let users = vec![
        User { username: "x\ny".to_string(), last_seen: Timestamp { secs: 0, nanos: 0 } },
        User { username: "z".to_string(), last_seen: Timestamp { secs: 0, nanos: 2_000_000_000 } },
    ];
    let value: serde_json::Value = serde_json::from_str(&encode_user_list(&users)).unwrap();
    assert_eq!(value.get("type").unwrap().as_str().unwrap(), "userList");
    let listed = value.get("users").unwrap().as_array().unwrap();
    assert_eq!(listed.len(), 2);
    assert_eq!(listed[0].get("username").unwrap().as_str().unwrap(), "x\ny");
    assert_eq!(listed[1].get("username").unwrap().as_str().unwrap(), "z");
    assert!(listed[1].get("last_seen").unwrap().is_null());
}
