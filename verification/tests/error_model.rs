use axum::http::StatusCode;
use claude_code_proxy::error::{ErrorKind, ProxyError};

#[test]
fn statuses_follow_error_kinds() {
    let cases = [
        (ErrorKind::InvalidRequest, StatusCode::BAD_REQUEST, 400),
        (ErrorKind::Authentication, StatusCode::UNAUTHORIZED, 401),
        (ErrorKind::Permission, StatusCode::FORBIDDEN, 403),
        (ErrorKind::RateLimit, StatusCode::TOO_MANY_REQUESTS, 429),
        (ErrorKind::Overloaded, StatusCode::SERVICE_UNAVAILABLE, 503),
        (ErrorKind::Timeout, StatusCode::GATEWAY_TIMEOUT, 504),
        (ErrorKind::Upstream, StatusCode::BAD_GATEWAY, 502),
        (ErrorKind::Internal, StatusCode::INTERNAL_SERVER_ERROR, 500),
    ];
    for (kind, status, code) in cases {
        let error = ProxyError::new(kind, "x");
        assert_eq!(error.status(), status);
        assert_eq!(error.status_code(), code);
    }
}

#[test]
fn anthropic_types_follow_error_kinds() {
    let cases = [
        (ErrorKind::InvalidRequest, "invalid_request_error"),
        (ErrorKind::Authentication, "authentication_error"),
        (ErrorKind::Permission, "permission_error"),
        (ErrorKind::RateLimit, "rate_limit_error"),
        (ErrorKind::Overloaded, "overloaded_error"),
        (ErrorKind::Timeout, "api_error"),
        (ErrorKind::Upstream, "api_error"),
        (ErrorKind::Internal, "api_error"),
    ];
    for (kind, name) in cases {
        assert_eq!(ProxyError::new(kind, "x").anthropic_type(), name);
    }
}

#[test]
fn new_error_is_plain() {
    let error = ProxyError::new(ErrorKind::Upstream, "upstream failed");
    assert_eq!(error.kind, ErrorKind::Upstream);
    assert_eq!(error.message, "upstream failed");
    assert_eq!(error.request_id, None);
    assert_eq!(error.retry_after_seconds, None);
    assert!(!error.retryable());
}

#[test]
fn invalid_is_an_invalid_request() {
    let error = ProxyError::invalid("bad body");
    assert_eq!(error.kind, ErrorKind::InvalidRequest);
    assert_eq!(error.message, "bad body");
    assert_eq!(error.status(), StatusCode::BAD_REQUEST);
}

#[test]
fn request_id_and_retryable_are_kept() {
    let error = ProxyError::new(ErrorKind::Timeout, "slow")
        .with_request_id("req_123")
        .with_retryable();
    assert_eq!(error.request_id.as_deref(), Some("req_123"));
    assert!(error.retryable());
    assert!(error.is_retryable);
    assert_eq!(error.message, "slow");
    assert_eq!(error.kind, ErrorKind::Timeout);
}

#[test]
fn envelope_has_anthropic_shape() {
    let error = ProxyError::new(ErrorKind::Authentication, "missing API key").with_request_id("req_9");
    let envelope = error.envelope();
    assert_eq!(envelope.kind, "error");
    assert_eq!(envelope.error.kind, "authentication_error");
    assert_eq!(envelope.error.message, "missing API key");
    assert_eq!(envelope.request_id.as_deref(), Some("req_9"));
    let bare = ProxyError::new(ErrorKind::Internal, "boom").envelope();
    assert_eq!(bare.request_id, None);
    assert_eq!(bare.error.kind, "api_error");
}

#[test]
fn clone_keeps_every_field() {
    let mut error = ProxyError::new(ErrorKind::RateLimit, "slow down").with_request_id("r");
    error.retry_after_seconds = Some(1);
    let copy = error.clone();
    assert_eq!(copy.kind, ErrorKind::RateLimit);
    assert_eq!(copy.message, "slow down");
    assert_eq!(copy.request_id.as_deref(), Some("r"));
    assert_eq!(copy.retry_after_seconds, Some(1));
}

#[test]
fn retry_after_header_is_decimal_seconds() {
    let mut error = ProxyError::new(ErrorKind::RateLimit, "client request rate exceeded");
    assert_eq!(error.retry_after_value(), None);
    error.retry_after_seconds = Some(1);
    assert_eq!(error.retry_after_value().as_deref(), Some("1"));
    error.retry_after_seconds = Some(120);
    assert_eq!(error.retry_after_value().as_deref(), Some("120"));
    error.retry_after_seconds = Some(0);
    assert_eq!(error.retry_after_value().as_deref(), Some("0"));
    error.retry_after_seconds = Some(u64::MAX);
    assert_eq!(error.retry_after_value().as_deref(), Some("18446744073709551615"));
}
