use threatforge::ai::{entry_key, AiProvider};
use threatforge::sse::{
    anthropic_event_text, openai_event_text, split_first_line, sse_data_payload, sse_payload_done,
};

#[test]
fn test_provider_keychain_key() {
    assert_eq!(AiProvider::Anthropic.keychain_key(), "anthropic");
    assert_eq!(AiProvider::OpenAi.keychain_key(), "openai");
}

#[test]
fn test_entry_key_format() {
    assert_eq!(entry_key(&AiProvider::Anthropic), "api-key-anthropic");
    assert_eq!(entry_key(&AiProvider::OpenAi), "api-key-openai");
}

#[test]
fn test_anthropic_sse_parsing() {
    // An Anthropic SSE data payload carrying a text delta
    let data = r#"{"type":"content_block_delta","index":0,"delta":{"type":"text_delta","text":"Hello"}}"#;
    assert_eq!(anthropic_event_text(data), Some("Hello".to_string()));
}

#[test]
fn test_openai_sse_parsing() {
    // An OpenAI SSE data payload carrying a content delta
    let data = r#"{"id":"chatcmpl-123","object":"chat.completion.chunk","choices":[{"index":0,"delta":{"content":"World"},"finish_reason":null}]}"#;
    assert_eq!(openai_event_text(data), Some("World".to_string()));
}

#[test]
fn test_anthropic_non_content_event_ignored() {
    let data = r#"{"type":"message_start","message":{"id":"msg_123"}}"#;
    assert_eq!(anthropic_event_text(data), None);
}

#[test]
fn test_sse_data_payload() {
    assert_eq!(sse_data_payload("data: hello"), Some("hello".to_string()));
    assert_eq!(sse_data_payload("  data: hello \r"), Some("hello".to_string()));
    assert_eq!(sse_data_payload("event: ping"), None);
    assert_eq!(sse_data_payload(""), None);
}

#[test]
fn test_sse_done_marker() {
    assert!(sse_payload_done("[DONE]"));
    assert!(!sse_payload_done("{}"));
    let payload = sse_data_payload("data: [DONE]").unwrap();
    assert!(sse_payload_done(&payload));
}

#[test]
fn test_split_first_line() {
    let r = split_first_line("first\nsecond\n").unwrap();
    assert_eq!(r.0, "first");
    assert_eq!(r.1, "second\n");
    assert!(split_first_line("no newline yet").is_none());
}
