use cc_vault::parser::JsonlParser;

#[test]
fn test_parse_valid_single_json_message() {
    let json_str = r#"{"parentUuid":null,"isSidechain":false,"userType":"external","cwd":"/Users/honda/dev/cc-vault","sessionId":"28035087-fe7b-4b2e-843a-ce802161e23c","version":"1.0.56","gitBranch":"main","type":"user","message":{"role":"user","content":"TODO.md の続きをやって2からだよ"},"uuid":"fd9e5f80-43b8-4825-ab31-f531d688d30b","timestamp":"2025-07-21T12:48:30.283Z"}"#;

    let parser = JsonlParser::new();
    let result = parser.parse_single_message(json_str);

    assert!(result.is_ok());
    let message = result.unwrap();

    assert_eq!(message.parent_uuid, None);
    assert_eq!(message.is_sidechain, false);
    assert_eq!(message.user_type, "external");
    assert_eq!(message.cwd, "/Users/honda/dev/cc-vault");
    assert_eq!(message.session_id, "28035087-fe7b-4b2e-843a-ce802161e23c");
    assert_eq!(message.version, "1.0.56");
    assert_eq!(message.git_branch, Some("main".to_string()));
    assert_eq!(message.message_type, "user");
    assert_eq!(message.uuid, "fd9e5f80-43b8-4825-ab31-f531d688d30b");
    assert_eq!(message.timestamp.raw_text(), "2025-07-21T12:48:30.283Z");

    assert_eq!(message.message.role, Some("user".to_string()));
}

#[test]
fn test_parse_multiple_jsonl_lines() {
    let jsonl_content = r#"{"parentUuid":null,"isSidechain":false,"userType":"external","cwd":"/Users/honda/dev/cc-vault","sessionId":"session1","version":"1.0.56","gitBranch":"main","type":"user","message":{"role":"user","content":"First message"},"uuid":"uuid1","timestamp":"2025-07-21T12:48:30.283Z"}
{"parentUuid":"uuid1","isSidechain":false,"userType":"external","cwd":"/Users/honda/dev/cc-vault","sessionId":"session1","version":"1.0.56","gitBranch":"main","type":"assistant","message":{"role":"assistant","content":"Second message"},"uuid":"uuid2","timestamp":"2025-07-21T12:48:31.283Z"}
{"parentUuid":"uuid2","isSidechain":false,"userType":"external","cwd":"/Users/honda/dev/cc-vault","sessionId":"session1","version":"1.0.56","gitBranch":"main","type":"user","message":{"role":"user","content":"Third message"},"uuid":"uuid3","timestamp":"2025-07-21T12:48:32.283Z"}"#;

    let parser = JsonlParser::new();
    let result = parser.parse_multiple_messages(jsonl_content);

    assert!(result.is_ok());
    let messages = result.unwrap();

    assert_eq!(messages.len(), 3);

    assert_eq!(messages[0].uuid, "uuid1");
    assert_eq!(messages[0].message_type, "user");
    assert_eq!(messages[0].message.role, Some("user".to_string()));

    assert_eq!(messages[1].uuid, "uuid2");
    assert_eq!(messages[1].message_type, "assistant");
    assert_eq!(messages[1].message.role, Some("assistant".to_string()));
    assert_eq!(messages[1].parent_uuid, Some("uuid1".to_string()));

    assert_eq!(messages[2].uuid, "uuid3");
    assert_eq!(messages[2].message_type, "user");
    assert_eq!(messages[2].parent_uuid, Some("uuid2".to_string()));
}

#[test]
fn test_handle_invalid_json() {
    let invalid_json = r#"{"invalid": json, not parseable}"#;

    let parser = JsonlParser::new();
    let result = parser.parse_single_message(invalid_json);

    assert!(result.is_err());
    assert!(result.unwrap_err().message().contains("Failed to parse JSON message"));
}

#[test]
fn test_parse_with_invalid_lines_skip_errors() {
    let mixed_content = r#"{"parentUuid":null,"isSidechain":false,"userType":"external","cwd":"/test","sessionId":"session1","version":"1.0","gitBranch":"main","type":"user","message":{"role":"user","content":"Valid"},"uuid":"uuid1","timestamp":"2025-07-21T12:48:30.283Z"}
{invalid json line}
{"parentUuid":"uuid1","isSidechain":false,"userType":"external","cwd":"/test","sessionId":"session1","version":"1.0","gitBranch":"main","type":"user","message":{"role":"user","content":"Also valid"},"uuid":"uuid2","timestamp":"2025-07-21T12:48:31.283Z"}"#;

    let parser = JsonlParser::new();
    let result = parser.parse_multiple_messages(mixed_content);

    assert!(result.is_err());
}

#[test]
fn test_parse_skip_errors_method() {
    let mixed_content = r#"{"parentUuid":null,"isSidechain":false,"userType":"external","cwd":"/test","sessionId":"session1","version":"1.0","gitBranch":"main","type":"user","message":{"role":"user","content":"Valid"},"uuid":"uuid1","timestamp":"2025-07-21T12:48:30.283Z"}
{invalid json line}
{"parentUuid":"uuid1","isSidechain":false,"userType":"external","cwd":"/test","sessionId":"session1","version":"1.0","gitBranch":"main","type":"user","message":{"role":"user","content":"Also valid"},"uuid":"uuid2","timestamp":"2025-07-21T12:48:31.283Z"}"#;

    let parser = JsonlParser::new();
    let results = parser.parse_multiple_messages_skip_errors(mixed_content);

    assert_eq!(results.len(), 3);

    assert!(results[0].1.is_ok());
    assert_eq!(results[0].0, 1);
    assert_eq!(results[0].1.as_ref().unwrap().uuid, "uuid1");

    assert!(results[1].1.is_err());
    assert_eq!(results[1].0, 2);

    assert!(results[2].1.is_ok());
    assert_eq!(results[2].0, 3);
    assert_eq!(results[2].1.as_ref().unwrap().uuid, "uuid2");
}

#[test]
fn test_handle_empty_lines_and_whitespace() {
    let content_with_empty = r#"
{"parentUuid":null,"isSidechain":false,"userType":"external","cwd":"/test","sessionId":"session1","version":"1.0","gitBranch":"main","type":"user","message":{"role":"user","content":"First"},"uuid":"uuid1","timestamp":"2025-07-21T12:48:30.283Z"}



{"parentUuid":"uuid1","isSidechain":false,"userType":"external","cwd":"/test","sessionId":"session1","version":"1.0","gitBranch":"main","type":"user","message":{"role":"user","content":"Second"},"uuid":"uuid2","timestamp":"2025-07-21T12:48:31.283Z"}

"#;

    let parser = JsonlParser::new();
    let result = parser.parse_multiple_messages(content_with_empty);

    assert!(result.is_ok());
    let messages = result.unwrap();
    assert_eq!(messages.len(), 2);
    assert_eq!(messages[0].uuid, "uuid1");
    assert_eq!(messages[1].uuid, "uuid2");
}

#[test]
fn test_wire_round_trip() {
    // Decoding, re-encoding, and decoding again keeps every field.
    let line = r#"{"parentUuid":"p-1","isSidechain":true,"userType":"external","cwd":"/a/b","sessionId":"s1","version":"1.2","gitBranch":null,"type":"assistant","message":{"role":"assistant","content":{"nested":[1,2,"x, y"],"t":"a\"b"},"id":"m1","type":"text","model":"big"},"uuid":"u-9","timestamp":"2025-07-21T12:48:30.283Z"}"#;
    let parser = JsonlParser::new();
    let m1 = parser.parse_single_message(line).unwrap();
    let s1 = cc_vault::codec::encode_line(&m1);
    let m2 = parser.parse_single_message(s1.as_str()).unwrap();
    let s2 = cc_vault::codec::encode_line(&m2);
    assert_eq!(s1, s2);
    assert_eq!(m2.uuid, m1.uuid);
    assert_eq!(m2.parent_uuid, m1.parent_uuid);
    assert_eq!(m2.is_sidechain, m1.is_sidechain);
    assert_eq!(m2.message.content, m1.message.content);
    assert_eq!(m2.message.model, m1.message.model);
    assert_eq!(m2.timestamp.raw_text(), m1.timestamp.raw_text());
    assert_eq!(m2.timestamp.millis(), m1.timestamp.millis());
}

#[test]
fn test_string_escapes_decode() {
    // Escape sequences in string fields resolve to their characters.
    let line = r#"{"parentUuid":null,"isSidechain":false,"userType":"external","cwd":"/test","sessionId":"s","version":"1.0","gitBranch":"aA\n\"b","type":"user","message":{},"uuid":"u1","timestamp":"2025-07-21T12:48:30.283Z"}"#;
    let parser = JsonlParser::new();
    let m = parser.parse_single_message(line).unwrap();
    assert_eq!(m.git_branch, Some("aA\n\"b".to_string()));
    assert_eq!(m.message.role, None);
    assert_eq!(m.message.content, None);
}

#[test]
fn test_bad_timestamp_rejected() {
    // A malformed timestamp makes the whole line undecodable.
    let line = r#"{"parentUuid":null,"isSidechain":false,"userType":"external","cwd":"/test","sessionId":"s","version":"1.0","gitBranch":null,"type":"user","message":{},"uuid":"u1","timestamp":"not-a-time"}"#;
    let parser = JsonlParser::new();
    assert!(parser.parse_single_message(line).is_err());
}

#[test]
fn test_timestamp_known_instants() {
    // The decoded instant is absolute epoch milliseconds.
    let t1 = cc_vault::message::Timestamp::parse("1970-01-01T00:00:01Z").unwrap();
    assert_eq!(t1.millis(), 1000);
    let t2 = cc_vault::message::Timestamp::parse("1970-01-02T00:00:00Z").unwrap();
    assert_eq!(t2.millis(), 86400000);
    let t3 = cc_vault::message::Timestamp::parse("1970-01-01T01:00:00+01:00").unwrap();
    assert_eq!(t3.millis(), 0);
}

#[test]
fn test_collect_all_counts() {
    // Of five lines with one blank and two malformed, the collect-all
    // reading yields four entries, two of them errors, numbered by the
    // original line positions.
    let doc = "{bad}\n\n{worse}\n{\"parentUuid\":null,\"isSidechain\":false,\"userType\":\"x\",\"cwd\":\"/\",\"sessionId\":\"s\",\"version\":\"1\",\"gitBranch\":null,\"type\":\"user\",\"message\":{},\"uuid\":\"u1\",\"timestamp\":\"2025-07-21T12:48:30.283Z\"}";
    let parser = JsonlParser::new();
    let results = parser.parse_multiple_messages_skip_errors(doc);
    assert_eq!(results.len(), 3);
    assert_eq!(results[0].0, 1);
    assert!(results[0].1.is_err());
    assert_eq!(results[1].0, 3);
    assert!(results[1].1.is_err());
    assert_eq!(results[2].0, 4);
    assert!(results[2].1.is_ok());
}
