use perplexity_web_api::parse::parse_sse_event;
use perplexity_web_api::types::JsonValue;

fn raw_get<'a>(
    raw: &'a [(String, JsonValue)],
    key: &str,
) -> Option<&'a JsonValue> {
    raw.iter().find(|p| p.0 == key).map(|p| &p.1)
}

#[test]
fn test_parse_simple_event() {
    let json = r#"{"answer": "Hello world", "chunks": [{"title": "Source 1"}]}"#;
    let event = parse_sse_event(json).unwrap();

    assert_eq!(event.answer, Some("Hello world".to_string()));
    assert_eq!(event.chunks.len(), 1);
    assert!(event.backend_uuid.is_none());
    assert!(event.attachments.is_empty());
}

#[test]
fn test_parse_event_with_backend_uuid() {
    let json = r#"{"answer": "Test", "backend_uuid": "abc-123", "chunks": []}"#;
    let event = parse_sse_event(json).unwrap();

    assert_eq!(event.answer, Some("Test".to_string()));
    assert_eq!(event.backend_uuid, Some("abc-123".to_string()));
}

#[test]
fn test_parse_event_with_attachments() {
    let json = r#"{"answer": "Test", "attachments": ["url1", "url2"], "chunks": []}"#;
    let event = parse_sse_event(json).unwrap();

    assert_eq!(event.attachments, vec!["url1", "url2"]);
}

#[test]
fn test_parse_event_with_nested_text_json() {
    // Simulates the "text" field containing a JSON string with steps.
    let inner_answer = r#"{"answer": "Nested answer", "chunks": [{"id": 1}]}"#;
    let inner_literal = serde_json::to_string(inner_answer).unwrap();
    let text_content = format!(
        r#"[{{"step_type": "SEARCH", "content": {{}}}}, {{"step_type": "FINAL", "content": {{"answer": {inner_literal}}}}}]"#
    );
    let text_literal = serde_json::to_string(&text_content).unwrap();
    let json = format!(r#"{{"text": {text_literal}, "some_field": "value"}}"#);

    let event = parse_sse_event(&json).unwrap();

    assert_eq!(event.answer, Some("Nested answer".to_string()));
    assert_eq!(event.chunks.len(), 1);
    // The "text" field should be parsed and stored in raw.
    assert!(raw_get(&event.raw, "text").is_some());
    assert!(raw_get(&event.raw, "some_field").is_some());
}

#[test]
fn test_parse_event_fallback_to_top_level() {
    // When text doesn't contain a FINAL step, fall back to top-level.
    let text_content = r#"[{"step_type": "SEARCH", "content": {}}]"#;
    let text_literal = serde_json::to_string(text_content).unwrap();
    let json = format!(
        r#"{{"text": {text_literal}, "answer": "Top level answer", "chunks": [{{"source": "web"}}]}}"#
    );

    let event = parse_sse_event(&json).unwrap();

    assert_eq!(event.answer, Some("Top level answer".to_string()));
    assert_eq!(event.chunks.len(), 1);
}

#[test]
fn test_parse_event_raw_excludes_extracted_keys() {
    let json = r#"{
            "answer": "Test",
            "chunks": [],
            "backend_uuid": "uuid",
            "attachments": [],
            "extra_field": "should be in raw",
            "another": 123
        }"#;
    let event = parse_sse_event(json).unwrap();

    // Extracted keys should not be in raw.
    assert!(raw_get(&event.raw, "answer").is_none());
    assert!(raw_get(&event.raw, "chunks").is_none());
    assert!(raw_get(&event.raw, "backend_uuid").is_none());
    assert!(raw_get(&event.raw, "attachments").is_none());

    // Other fields should be in raw.
    assert!(raw_get(&event.raw, "extra_field").is_some());
    assert!(raw_get(&event.raw, "another").is_some());
}

#[test]
fn test_parse_event_empty_fields() {
    let json = r#"{}"#;
    let event = parse_sse_event(json).unwrap();

    assert!(event.answer.is_none());
    assert!(event.chunks.is_empty());
    assert!(event.backend_uuid.is_none());
    assert!(event.attachments.is_empty());
}

#[test]
fn test_parse_invalid_json() {
    let result = parse_sse_event("not json");
    assert!(result.is_err());
}

#[test]
fn test_empty_object_has_empty_raw() {
    let event = parse_sse_event("{}").unwrap();
    assert!(event.raw.is_empty());
}

#[test]
fn test_simple_event_raw_has_no_promoted_keys() {
    let json = r#"{"answer": "Hello world", "chunks": [{"title": "Source 1"}]}"#;
    let event = parse_sse_event(json).unwrap();
    assert!(raw_get(&event.raw, "answer").is_none());
    assert!(raw_get(&event.raw, "chunks").is_none());
    assert!(event.raw.is_empty());
}

#[test]
fn test_non_object_payload_is_rejected() {
    assert!(parse_sse_event("[1, 2, 3]").is_err());
    assert!(parse_sse_event("\"just a string\"").is_err());
    assert!(parse_sse_event("42").is_err());
}

#[test]
fn test_text_field_parsed_into_raw_structure() {
    let text_literal = serde_json::to_string(r#"[{"step_type": "SEARCH"}]"#).unwrap();
    let json = format!(r#"{{"text": {text_literal}}}"#);
    let event = parse_sse_event(&json).unwrap();
    match raw_get(&event.raw, "text") {
        Some(JsonValue::Array(steps)) => assert_eq!(steps.len(), 1),
        other => panic!("text should have been replaced by the parsed array, got {other:?}"),
    }
}

#[test]
fn test_text_field_unparseable_string_is_kept() {
    let json = r#"{"text": "not json at all"}"#;
    let event = parse_sse_event(json).unwrap();
    match raw_get(&event.raw, "text") {
        Some(JsonValue::Text(s)) => assert_eq!(s, "not json at all"),
        other => panic!("text should have stayed the original string, got {other:?}"),
    }
    assert!(event.answer.is_none());
}

#[test]
fn test_final_step_with_unparseable_answer_falls_back() {
    let text_literal =
        serde_json::to_string(r#"[{"step_type": "FINAL", "content": {"answer": "oops"}}]"#)
            .unwrap();
    let json = format!(r#"{{"text": {text_literal}, "answer": "top"}}"#);
    let event = parse_sse_event(&json).unwrap();
    assert_eq!(event.answer, Some("top".to_string()));
}

#[test]
fn test_attachments_keep_only_strings() {
    let json = r#"{"attachments": ["a", 1, null, "b", {"x": true}]}"#;
    let event = parse_sse_event(json).unwrap();
    assert_eq!(event.attachments, vec!["a", "b"]);
    assert!(raw_get(&event.raw, "attachments").is_none());
}

#[test]
fn test_mistyped_fields_degrade_to_defaults() {
    let json = r#"{"answer": 5, "chunks": "nope", "backend_uuid": [1], "attachments": {}}"#;
    let event = parse_sse_event(json).unwrap();
    assert!(event.answer.is_none());
    assert!(event.chunks.is_empty());
    assert!(event.backend_uuid.is_none());
    assert!(event.attachments.is_empty());
    assert!(event.raw.is_empty());
}

#[test]
fn test_numbers_kept_as_their_text() {
    let json = r#"{"count": 123}"#;
    let event = parse_sse_event(json).unwrap();
    match raw_get(&event.raw, "count") {
        Some(JsonValue::Number(n)) => assert_eq!(n, "123"),
        other => panic!("count should be a number, got {other:?}"),
    }
}

#[test]
fn test_nested_answer_without_answer_field_yields_empty() {
    // A FINAL step whose payload parses but has no usable fields: the event
    // is empty rather than falling back to the top level.
    let inner_literal = serde_json::to_string(r#"{"other": 1}"#).unwrap();
    let text_content =
        format!(r#"[{{"step_type": "FINAL", "content": {{"answer": {inner_literal}}}}}]"#);
    let text_literal = serde_json::to_string(&text_content).unwrap();
    let json = format!(r#"{{"text": {text_literal}, "answer": "top"}}"#);
    let event = parse_sse_event(&json).unwrap();
    assert!(event.answer.is_none());
    assert!(event.chunks.is_empty());
}
