use kagi_proxy::error::AppError;

#[test]
fn status_codes_of_errors() {
    assert_eq!(AppError::InvalidRequest("x".into()).status_code(), 400);
    assert_eq!(AppError::MissingParam("x".into()).status_code(), 422);
    assert_eq!(AppError::AuthFailed.status_code(), 401);
    assert_eq!(AppError::Timeout.status_code(), 504);
    assert_eq!(AppError::UpstreamError("x".into()).status_code(), 502);
    assert_eq!(AppError::Internal("x".into()).status_code(), 500);
}

#[test]
fn error_codes_of_errors() {
    assert_eq!(AppError::InvalidRequest("x".into()).error_code(), "invalid_request_error");
    assert_eq!(AppError::MissingParam("x".into()).error_code(), "invalid_request_error");
    assert_eq!(AppError::AuthFailed.error_code(), "authentication_error");
    assert_eq!(AppError::Timeout.error_code(), "timeout");
    assert_eq!(AppError::UpstreamError("x".into()).error_code(), "upstream_error");
    assert_eq!(AppError::Internal("x".into()).error_code(), "internal_error");
}

#[test]
fn messages_of_errors() {
    assert_eq!(AppError::InvalidRequest("bad".into()).message(), "Invalid request: bad");
    assert_eq!(
        AppError::MissingParam("messages".into()).message(),
        "Missing required parameter: messages"
    );
    assert_eq!(AppError::UpstreamError("down".into()).message(), "Upstream error: down");
    assert_eq!(AppError::AuthFailed.message(), "Authentication failed");
    assert_eq!(AppError::Timeout.message(), "Timeout");
    assert_eq!(AppError::Internal("oops".into()).message(), "Internal server error: oops");
}

#[test]
fn error_body_carries_code_twice() {
    let body = AppError::Timeout.to_error_response();
    assert_eq!(body.error.message, "Timeout");
    assert_eq!(body.error.error_type, "timeout");
    assert_eq!(body.error.param, None);
    assert_eq!(body.error.code, Some("timeout".to_string()));
}
