use clad::openai::{ChatCompletionRequest, Message};
use clad::provider::{
    create_streaming_chunks, current_timestamp, extract_streaming_text, health_payload,
    models_catalog, parse_os_version, response_id, transform_request, transform_response,
    AppError, SystemInfo,
};

fn sysinfo() -> SystemInfo {
    SystemInfo {
        os: "linux".to_string(),
        version: "1.0".to_string(),
        arch: "x86_64".to_string(),
        id: "machine".to_string(),
    }
}

fn request_with_messages(messages: Vec<Message>) -> ChatCompletionRequest {
    ChatCompletionRequest {
        model: "test-model".to_string(),
        messages,
        n: None,
        stream: None,
        stop: None,
        max_tokens: None,
        user: None,
        tools: None,
        tool_choice: None,
        extra: std::collections::HashMap::new(),
    }
}

fn json(text: &str) -> serde_json::Value {
    serde_json::from_str(text).unwrap()
}

#[test]
fn test_current_timestamp_returns_positive() {
    let timestamp = current_timestamp();
    assert!(timestamp > 0, "Timestamp should be positive");
}

#[test]
fn test_current_timestamp_is_recent() {
    let timestamp = current_timestamp();
    assert!(timestamp > 1577836800, "Timestamp should be after 2020");
    assert!(timestamp < 2524608000, "Timestamp should be before 2050");
}

#[test]
fn test_current_timestamp_precision() {
    let ts1 = current_timestamp();
    let ts2 = current_timestamp();
    assert!((ts2 - ts1) < 2, "Rapid timestamp calls should be close");
}

#[test]
fn test_app_error_display() {
    let err = AppError::Backend("test error".to_string());
    assert_eq!(err.summary(), "Backend service unavailable");

    let err = AppError::Transform("transform issue".to_string());
    assert_eq!(err.summary(), "Failed to transform request/response");

    let err = AppError::Timeout;
    assert_eq!(err.summary(), "Request timeout");

    let err = AppError::Internal("internal issue".to_string());
    assert_eq!(err.summary(), "Internal server error");
}

#[test]
fn test_app_error_into_response_backend_error() {
    let err = AppError::Backend("connection failed".to_string());
    assert_eq!(err.client_status(), 502);
}

#[test]
fn test_app_error_into_response_transform_error() {
    let err = AppError::Transform("bad format".to_string());
    assert_eq!(err.client_status(), 500);
}

#[test]
fn test_app_error_into_response_timeout_error() {
    let err = AppError::Timeout;
    assert_eq!(err.client_status(), 504);
}

#[test]
fn test_app_error_into_response_internal_error() {
    let err = AppError::Internal("panic".to_string());
    assert_eq!(err.client_status(), 500);
}

#[test]
fn test_error_mapping_is_fixed_per_kind() {
    let backend = AppError::Backend("diag-a".to_string());
    assert_eq!(backend.client_status(), 502);
    assert_eq!(backend.client_message(), "Backend service unavailable");
    assert_eq!(backend.client_type_tag(), "backend_error");

    let transform = AppError::Transform("diag-b".to_string());
    assert_eq!(transform.client_status(), 500);
    assert_eq!(transform.client_message(), "Failed to process response");
    assert_eq!(transform.client_type_tag(), "transform_error");

    let timeout = AppError::Timeout;
    assert_eq!(timeout.client_status(), 504);
    assert_eq!(timeout.client_message(), "Request timeout");
    assert_eq!(timeout.client_type_tag(), "timeout_error");

    let internal = AppError::Internal("diag-c".to_string());
    assert_eq!(internal.client_status(), 500);
    assert_eq!(internal.client_message(), "Internal server error");
    assert_eq!(internal.client_type_tag(), "internal_error");
}

#[test]
fn test_error_body_never_carries_diagnostic() {
    let err = AppError::Backend("secret diagnostic detail".to_string());
    let body = err.client_body();
    assert!(!body.contains("secret diagnostic detail"));
    assert_eq!(
        body,
        "{\"error\":{\"message\":\"Backend service unavailable\",\"type\":\"backend_error\"}}"
    );

    let err = AppError::Internal("another hidden detail".to_string());
    let body = err.client_body();
    assert!(!body.contains("another hidden detail"));
    assert!(body.contains("internal_error"));
}

#[test]
fn test_create_streaming_chunks_empty_text() {
    let text = "".to_string();
    let model = "test-model".to_string();

    let chunks = create_streaming_chunks(text, model);
    assert!(chunks.len() >= 1, "Should have first chunk");
}

#[test]
fn test_create_streaming_chunks_single_word() {
    let text = "Hello".to_string();
    let model = "test-model".to_string();

    let chunks = create_streaming_chunks(text, model);
    assert_eq!(chunks.len(), 2);
}

#[test]
fn test_create_streaming_chunks_multiple_words() {
    let text = "Hello world test".to_string();
    let model = "test-model".to_string();

    let chunks = create_streaming_chunks(text, model);
    assert_eq!(chunks.len(), 4);
}

#[test]
fn test_streaming_chunks_zero_words_gives_two_events() {
    let chunks = create_streaming_chunks("".to_string(), "m".to_string());
    assert_eq!(chunks.len(), 2);
    let chunks = create_streaming_chunks(" \t\n".to_string(), "m".to_string());
    assert_eq!(chunks.len(), 2);
}

#[test]
fn test_streaming_chunks_first_and_last_shape() {
    let chunks = create_streaming_chunks("one two three".to_string(), "m".to_string());

    let first = &chunks[0].choices[0];
    assert_eq!(first.delta.role.as_deref(), Some("assistant"));
    assert!(first.delta.content.is_none());
    assert!(first.finish_reason.is_none());

    let last = &chunks[chunks.len() - 1].choices[0];
    assert!(last.delta.role.is_none());
    assert!(last.delta.content.is_none());
    assert_eq!(last.finish_reason.as_deref(), Some("stop"));

    for chunk in &chunks {
        let c = &chunk.choices[0];
        assert!(!(c.delta.role.is_some() && c.finish_reason.is_some()));
    }
}

#[test]
fn test_streaming_chunks_content_and_shared_fields() {
    let chunks = create_streaming_chunks("one two three".to_string(), "m".to_string());
    assert_eq!(chunks.len(), 4);
    assert_eq!(chunks[1].choices[0].delta.content.as_deref(), Some("one "));
    assert_eq!(chunks[2].choices[0].delta.content.as_deref(), Some("two "));
    for chunk in &chunks {
        assert_eq!(chunk.id, chunks[0].id);
        assert_eq!(chunk.created, chunks[0].created);
        assert_eq!(chunk.object, "chat.completion.chunk");
        assert_eq!(chunk.model, "m");
        assert_eq!(chunk.choices.len(), 1);
        assert_eq!(chunk.choices[0].index, 0);
    }
}

#[test]
fn test_transform_request_basic() {
    let request = request_with_messages(vec![Message {
        role: "user".to_string(),
        content: "Hello, world!".to_string(),
        name: None,
        tool_calls: None,
    }]);

    let transformed = transform_request(&request, sysinfo(), "0.1.0".to_string());

    assert_eq!(transformed.question, "Hello, world!");
}

#[test]
fn test_transform_request_multiple_messages() {
    let request = request_with_messages(vec![
        Message {
            role: "system".to_string(),
            content: "You are a helpful assistant".to_string(),
            name: None,
            tool_calls: None,
        },
        Message {
            role: "user".to_string(),
            content: "First message".to_string(),
            name: None,
            tool_calls: None,
        },
        Message {
            role: "assistant".to_string(),
            content: "Response".to_string(),
            name: None,
            tool_calls: None,
        },
        Message {
            role: "user".to_string(),
            content: "Second message".to_string(),
            name: None,
            tool_calls: None,
        },
    ]);

    let transformed = transform_request(&request, sysinfo(), "0.1.0".to_string());

    assert_eq!(transformed.question, "Second message");
}

#[test]
fn test_transform_request_no_user_message() {
    let request = request_with_messages(vec![Message {
        role: "system".to_string(),
        content: "System message".to_string(),
        name: None,
        tool_calls: None,
    }]);

    let transformed = transform_request(&request, sysinfo(), "0.1.0".to_string());

    assert_eq!(transformed.question, "");
}

#[test]
fn test_transform_request_empty_messages() {
    let request = request_with_messages(vec![]);
    let transformed = transform_request(&request, sysinfo(), "0.1.0".to_string());
    assert_eq!(transformed.question, "");
}

#[test]
fn test_transform_request_context_structure() {
    let request = request_with_messages(vec![Message {
        role: "user".to_string(),
        content: "Test".to_string(),
        name: None,
        tool_calls: None,
    }]);

    let info = sysinfo();
    let transformed = transform_request(&request, info, "9.9.9".to_string());
    let context = &transformed.context;

    assert_eq!(context.stdin, "");
    assert_eq!(context.attachment_contents, "");
    assert_eq!(context.attachment_mimetype, "");
    assert_eq!(context.terminal_output, "");
    assert_eq!(context.cla_version, "9.9.9");
    assert_eq!(context.systeminfo.os, "linux");
    assert_eq!(context.systeminfo.version, "1.0");
    assert_eq!(context.systeminfo.arch, "x86_64");
    assert_eq!(context.systeminfo.id, "machine");
}

#[test]
fn test_transform_response_success() {
    let backend_resp = json("{\"data\":{\"text\":\"This is a test response\"}}");

    let result = transform_response(&backend_resp, "test-model");
    assert!(result.is_ok());

    let response = result.unwrap();
    assert_eq!(response.model, "test-model");
    assert_eq!(response.object, "chat.completion");
    assert_eq!(response.choices.len(), 1);
    assert_eq!(response.choices[0].message.content, "This is a test response");
    assert_eq!(response.choices[0].message.role, "assistant");
    assert_eq!(response.choices[0].finish_reason, Some("stop".to_string()));
}

#[test]
fn test_transform_response_missing_data() {
    let backend_resp = json("{\"wrong_field\":\"value\"}");

    let result = transform_response(&backend_resp, "test-model");
    assert!(result.is_err());
    assert!(matches!(result.unwrap_err(), AppError::Transform(_)));
}

#[test]
fn test_transform_response_missing_text() {
    let backend_resp = json("{\"data\":{\"wrong_field\":\"value\"}}");

    let result = transform_response(&backend_resp, "test-model");
    assert!(result.is_err());
    assert!(matches!(result.unwrap_err(), AppError::Transform(_)));
}

#[test]
fn test_transform_response_token_estimation() {
    let text = "a".repeat(100);
    let backend_resp = json(&format!("{{\"data\":{{\"text\":\"{}\"}}}}", text));

    let result = transform_response(&backend_resp, "test-model");
    assert!(result.is_ok());

    let response = result.unwrap();
    assert!(response.usage.completion_tokens > 0);
    assert_eq!(response.usage.completion_tokens, 25);
}

#[test]
fn test_transform_response_usage_fields() {
    let text = "a".repeat(100);
    let backend_resp = json(&format!("{{\"data\":{{\"text\":\"{}\"}}}}", text));

    let response = transform_response(&backend_resp, "test-model").unwrap();
    assert_eq!(response.usage.prompt_tokens, 0);
    assert_eq!(response.usage.completion_tokens, 25);
    assert_eq!(response.usage.total_tokens, 25);

    let short = json("{\"data\":{\"text\":\"hi\"}}");
    let response = transform_response(&short, "test-model").unwrap();
    assert_eq!(response.usage.completion_tokens, 0);
    assert_eq!(response.usage.total_tokens, 0);
}

#[test]
fn test_transform_response_fails_on_non_string_text() {
    let backend_resp = json("{\"data\":{\"text\":42}}");
    let result = transform_response(&backend_resp, "test-model");
    assert!(matches!(result.unwrap_err(), AppError::Transform(_)));

    let backend_resp = json("{\"data\":{}}");
    let result = transform_response(&backend_resp, "test-model");
    assert!(matches!(result.unwrap_err(), AppError::Transform(_)));
}

#[test]
fn test_transform_response_diagnostic_carries_reply() {
    let backend_resp = json("{\"wrong_field\":\"value\"}");
    let err = transform_response(&backend_resp, "test-model").unwrap_err();
    match err {
        AppError::Transform(diag) => {
            assert!(diag.contains("data.text"));
            assert!(diag.contains("wrong_field"));
        }
        other => panic!("expected Transform, got {:?}", other),
    }
}

#[test]
fn test_transform_response_id_shape() {
    let backend_resp = json("{\"data\":{\"text\":\"hi\"}}");
    let response = transform_response(&backend_resp, "m").unwrap();
    assert_eq!(response.id.len(), 45);
    assert!(response.id.starts_with("chatcmpl-"));
    assert!(response.created > 0);
}

#[test]
fn test_extract_streaming_text_success() {
    let backend_resp = json("{\"data\":{\"text\":\"Streaming response\"}}");

    let result = extract_streaming_text(&backend_resp);
    assert!(result.is_ok());
    assert_eq!(result.unwrap(), "Streaming response");
}

#[test]
fn test_extract_streaming_text_missing_data() {
    let backend_resp = json("{\"wrong_field\":\"value\"}");

    let result = extract_streaming_text(&backend_resp);
    assert!(result.is_err());
    assert!(matches!(result.unwrap_err(), AppError::Transform(_)));
}

#[test]
fn test_extract_streaming_text_missing_text() {
    let backend_resp = json("{\"data\":{}}");

    let result = extract_streaming_text(&backend_resp);
    assert!(result.is_err());
    assert!(matches!(result.unwrap_err(), AppError::Transform(_)));
}

#[test]
fn test_models_handler_returns_valid_response() {
    let response = models_catalog();

    assert_eq!(response.object, "list");
    assert!(!response.data.is_empty());
    assert_eq!(response.data[0].id, "default-model");
}

#[test]
fn test_models_catalog_entry_fields() {
    let response = models_catalog();
    assert_eq!(response.data.len(), 1);
    assert_eq!(response.data[0].object, "model");
    assert_eq!(response.data[0].created, 1234567890);
    assert_eq!(response.data[0].owned_by, "clad-redux");
}

#[test]
fn test_health_check_handler_returns_ok() {
    let payload = health_payload();
    assert_eq!(payload.status, "healthy");
}

#[test]
fn test_health_check_handler_returns_valid_json() {
    let payload = health_payload();
    assert_eq!(payload.status, "healthy");
    assert_eq!(payload.service, "clad-proxy");
    assert!(payload.timestamp > 0);
}

#[test]
fn test_response_id_shape_and_uniqueness() {
    let a = response_id();
    let b = response_id();
    assert_eq!(a.len(), 45);
    assert!(a.starts_with("chatcmpl-"));
    let uuid_part = &a[9..];
    assert_eq!(uuid_part.len(), 36);
    assert_eq!(uuid_part.chars().filter(|&c| c == '-').count(), 4);
    assert!(uuid_part.chars().all(|c| c.is_ascii_hexdigit() || c == '-'));
    assert_ne!(a, b);
}

#[test]
fn test_parse_os_version_finds_version_line() {
    let content = "NAME=Linux\nVERSION=\"9.4 (Plow)\"\nID=linux\n";
    assert_eq!(parse_os_version(content), "9.4 (Plow)");
}

#[test]
fn test_parse_os_version_without_quotes() {
    let content = "VERSION=42\n";
    assert_eq!(parse_os_version(content), "42");
}

#[test]
fn test_parse_os_version_missing() {
    assert_eq!(parse_os_version("NAME=Linux\nID=linux\n"), "unknown");
    assert_eq!(parse_os_version(""), "unknown");
}

#[test]
fn test_parse_os_version_ignores_version_id() {
    let content = "VERSION_ID=9\nNAME=x\n";
    assert_eq!(parse_os_version(content), "unknown");
}
