use api_switch::anthropic::AnthropicResponseContentBlock;
use api_switch::error::AppError;
use api_switch::openai::{
    OpenAIChoice, OpenAIErrorDetail, OpenAIErrorResponse, OpenAIResponse, OpenAIResponseMessage,
    OpenAIUsage,
};
use api_switch::transform::response::{convert_response, map_openai_error, map_stop_reason};

fn make_response(content: &str) -> OpenAIResponse {
    OpenAIResponse {
        id: "chatcmpl-123".into(),
        model: "gpt-4".into(),
        choices: vec![OpenAIChoice {
            index: 0,
            message: OpenAIResponseMessage {
                role: "assistant".into(),
                content: Some(content.into()),
                tool_calls: None,
            },
            finish_reason: Some("stop".into()),
        }],
        usage: Some(OpenAIUsage { prompt_tokens: 10, completion_tokens: 5, total_tokens: 15 }),
    }
}

/// Reads a backend body as an OpenAI error body, as the gateway's JSON
/// reader does: an object whose `error` holds a string `message` and, if
/// present, a string or null `type`.
fn parse_error_body(body: &str) -> Option<OpenAIErrorResponse> {
    let v: serde_json::Value = serde_json::from_str(body).ok()?;
    let error = v.get("error")?;
    let message = error.get("message")?.as_str()?.to_string();
    let error_type = match error.get("type") {
        None | Some(serde_json::Value::Null) => None,
        Some(t) => Some(t.as_str()?.to_string()),
    };
    Some(OpenAIErrorResponse { error: OpenAIErrorDetail { message, error_type } })
}

#[test]
fn test_convert_response_content() {
    let result = convert_response(make_response("Hello!"));
    assert_eq!(result.id, "chatcmpl-123");
    assert_eq!(result.role, "assistant");
    match &result.content[0] {
        AnthropicResponseContentBlock::Text { text } => assert_eq!(text, "Hello!"),
        _ => panic!("expected a text block"),
    }
}

#[test]
fn test_convert_response_usage() {
    let result = convert_response(make_response("Hi"));
    assert_eq!(result.usage.input_tokens, 10);
    assert_eq!(result.usage.output_tokens, 5);
}

#[test]
fn test_convert_response_stop_reason() {
    let result = convert_response(make_response("ok"));
    assert_eq!(result.stop_reason, Some("stop".into()));
}

#[test]
fn converted_response_role_is_always_assistant() {
    let mut resp = make_response("x");
    resp.choices[0].message.role = "model".into();
    assert_eq!(convert_response(resp).role, "assistant");
}

#[test]
fn response_without_content_or_usage() {
    let mut resp = make_response("x");
    resp.choices[0].message.content = None;
    resp.usage = None;
    let result = convert_response(resp);
    assert!(result.content.is_empty());
    assert_eq!(result.usage.input_tokens, 0);
    assert_eq!(result.usage.output_tokens, 0);
    assert_eq!(result.response_type, "message");
    assert_eq!(result.model, "gpt-4");
    assert_eq!(result.stop_sequence, None);
}

#[test]
fn test_map_openai_error_auth() {
    let body = r#"{"error":{"message":"Bad API key","type":"invalid_request_error"}}"#;
    let err = map_openai_error(401, body, parse_error_body(body));
    match err {
        AppError::AuthenticationError(msg) => assert!(msg.contains("Bad API key")),
        _ => panic!("expected AuthenticationError"),
    }
}

#[test]
fn test_map_openai_error_rate_limit() {
    let body = r#"{"error":{"message":"Rate limited","type":"rate_limit"}}"#;
    let err = map_openai_error(429, body, parse_error_body(body));
    match err {
        AppError::RateLimitError(msg) => assert!(msg.contains("Rate limited")),
        _ => panic!("expected RateLimitError"),
    }
}

#[test]
fn test_map_openai_error_server_error() {
    let body = "Internal error";
    let err = map_openai_error(500, body, parse_error_body(body));
    match err {
        AppError::ApiError(_) => {}
        _ => panic!("expected ApiError"),
    }
}

#[test]
fn unparsed_error_bodies_describe_the_status() {
    match map_openai_error(403, "nope", None) {
        AppError::AuthenticationError(m) => assert_eq!(m, "Backend returned 403"),
        _ => panic!("expected AuthenticationError"),
    }
    match map_openai_error(429, "slow down", None) {
        AppError::RateLimitError(m) => assert_eq!(m, "Backend returned 429"),
        _ => panic!("expected RateLimitError"),
    }
    match map_openai_error(500, "Internal error", None) {
        AppError::ApiError(m) => assert_eq!(m, "Backend returned 500: Internal error"),
        _ => panic!("expected ApiError"),
    }
}

#[test]
fn test_map_stop_reason_mappings() {
    assert_eq!(map_stop_reason("stop"), "end_turn");
    assert_eq!(map_stop_reason("length"), "max_tokens");
    assert_eq!(map_stop_reason("tool_calls"), "tool_use");
}

#[test]
fn unknown_stop_reasons_pass_through() {
    assert_eq!(map_stop_reason("content_filter"), "content_filter");
    assert_eq!(map_stop_reason(""), "");
}
