use api_switch::error::AppError;
use axum::http::StatusCode;

#[test]
fn test_auth_error_returns_401() {
    let err = AppError::AuthenticationError("bad token".into());
    assert_eq!(err.status_code(), StatusCode::UNAUTHORIZED.as_u16());
}

#[test]
fn test_rate_limit_error_returns_429() {
    let err = AppError::RateLimitError("too many".into());
    assert_eq!(err.status_code(), StatusCode::TOO_MANY_REQUESTS.as_u16());
}

#[test]
fn test_invalid_request_error_returns_400() {
    let err = AppError::InvalidRequestError("bad input".into());
    assert_eq!(err.status_code(), StatusCode::BAD_REQUEST.as_u16());
}

#[test]
fn test_api_error_returns_502() {
    let err = AppError::ApiError("backend failed".into());
    assert_eq!(err.status_code(), StatusCode::BAD_GATEWAY.as_u16());
}

#[test]
fn test_timeout_error_returns_504() {
    let err = AppError::TimeoutError("slow backend".into());
    assert_eq!(err.status_code(), StatusCode::GATEWAY_TIMEOUT.as_u16());
}

#[test]
fn test_error_response_body_structure() {
    let err = AppError::AuthenticationError("bad token".into());
    assert_eq!(err.error_type(), "authentication_error");
    assert_eq!(err.message(), "bad token");
}

#[test]
fn error_types_of_every_kind() {
    assert_eq!(AppError::InvalidRequestError(String::new()).error_type(), "invalid_request_error");
    assert_eq!(AppError::RateLimitError(String::new()).error_type(), "rate_limit_error");
    assert_eq!(AppError::ApiError(String::new()).error_type(), "api_error");
    assert_eq!(AppError::TimeoutError(String::new()).error_type(), "timeout_error");
}

#[test]
fn test_from_axum_http_error() {
    let err_result = axum::http::Response::builder()
        .header("invalid\x01header", "value")
        .body(());
    let e = err_result.expect_err("expected request to fail");
    let app_err = AppError::from_response_build_failure(&e.to_string());
    match app_err {
        AppError::ApiError(msg) => assert!(msg.contains("Failed to build response")),
        _ => panic!("expected ApiError"),
    }
}

#[test]
fn backend_failures_map_to_timeout_or_api_errors() {
    match AppError::from_backend_failure(true, true, "x") {
        AppError::TimeoutError(m) => assert_eq!(m, "Request to backend timed out"),
        _ => panic!("expected TimeoutError"),
    }
    match AppError::from_backend_failure(false, true, "x") {
        AppError::ApiError(m) => assert_eq!(m, "Failed to connect to backend"),
        _ => panic!("expected ApiError"),
    }
    match AppError::from_backend_failure(false, false, "boom") {
        AppError::ApiError(m) => assert_eq!(m, "Backend request failed: boom"),
        _ => panic!("expected ApiError"),
    }
}
