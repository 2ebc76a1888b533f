//! The errors the proxy answers with, their HTTP status, error code and
//! message, and the OpenAI error body made of them.
use vstd::prelude::*;
use crate::openai::{ApiError, ErrorResponse};
use crate::text::concat_str;

verus! {

/// An error of the proxy.
#[derive(Debug, Clone, PartialEq)]
pub enum AppError {
    InvalidRequest(String),
    MissingParam(String),
    UpstreamError(String),
    AuthFailed,
    Timeout,
    Internal(String),
}

/// The result of a fallible operation of the proxy.
pub type Result<T> = std::result::Result<T, AppError>;

/// The HTTP status that answers `e`.
pub open spec fn status_of(e: AppError) -> u16 {
    match e {
        AppError::InvalidRequest(_) => 400,
        AppError::MissingParam(_) => 422,
        AppError::AuthFailed => 401,
        AppError::Timeout => 504,
        AppError::UpstreamError(_) => 502,
        AppError::Internal(_) => 500,
    }
}

/// The OpenAI error code of `e`.
pub open spec fn code_of(e: AppError) -> Seq<char> {
    match e {
        AppError::InvalidRequest(_) => "invalid_request_error"@,
        AppError::MissingParam(_) => "invalid_request_error"@,
        AppError::AuthFailed => "authentication_error"@,
        AppError::Timeout => "timeout"@,
        AppError::UpstreamError(_) => "upstream_error"@,
        AppError::Internal(_) => "internal_error"@,
    }
}

/// The human-readable message of `e`.
pub open spec fn message_of(e: AppError) -> Seq<char> {
    match e {
        AppError::InvalidRequest(s) => "Invalid request: "@ + s@,
        AppError::MissingParam(s) => "Missing required parameter: "@ + s@,
        AppError::UpstreamError(s) => "Upstream error: "@ + s@,
        AppError::AuthFailed => "Authentication failed"@,
        AppError::Timeout => "Timeout"@,
        AppError::Internal(s) => "Internal server error: "@ + s@,
    }
}

impl AppError {
    /// The HTTP status code of the response to this error.
    pub fn status_code(&self) -> (code: u16)
        ensures
            code == status_of(*self),
    {
        match self {
            AppError::InvalidRequest(_) => 400,
            AppError::MissingParam(_) => 422,
            AppError::AuthFailed => 401,
            AppError::Timeout => 504,
            AppError::UpstreamError(_) => 502,
            AppError::Internal(_) => 500,
        }
    }

    /// The OpenAI error code of this error.
    pub fn error_code(&self) -> (code: &'static str)
        ensures
            code@ == code_of(*self),
    {
        match self {
            AppError::InvalidRequest(_) => "invalid_request_error",
            AppError::MissingParam(_) => "invalid_request_error",
            AppError::AuthFailed => "authentication_error",
            AppError::Timeout => "timeout",
            AppError::UpstreamError(_) => "upstream_error",
            AppError::Internal(_) => "internal_error",
        }
    }

    /// The message of this error, as its `Display` writes it.
    pub fn message(&self) -> (m: String)
        ensures
            m@ == message_of(*self),
    {
        match self {
            AppError::InvalidRequest(s) => concat_str("Invalid request: ", s.as_str()),
            AppError::MissingParam(s) => concat_str("Missing required parameter: ", s.as_str()),
            AppError::UpstreamError(s) => concat_str("Upstream error: ", s.as_str()),
            AppError::AuthFailed => "Authentication failed".to_owned(),
            AppError::Timeout => "Timeout".to_owned(),
            AppError::Internal(s) => concat_str("Internal server error: ", s.as_str()),
        }
    }

    /// The OpenAI error body that answers this error: its message, its code
    /// as both type and code, and no parameter.
    pub fn to_error_response(&self) -> (r: ErrorResponse)
        ensures
            r.error.message@ == message_of(*self),
            r.error.error_type@ == code_of(*self),
            r.error.param is None,
            r.error.code matches Some(c) && c@ == code_of(*self),
    {
        let code = self.error_code();
        ErrorResponse {
            error: ApiError {
                message: self.message(),
                error_type: code.to_owned(),
                param: None,
                code: Some(code.to_owned()),
            },
        }
    }
}

/// Every error answers with a client or server error status; the errors a
/// request causes are answered in the 4xx range as `invalid_request_error`,
/// and upstream failures with 502 as `upstream_error`.
pub proof fn lemma_error_classes(e: AppError)
    ensures
        400 <= status_of(e) < 600,
        (e is InvalidRequest || e is MissingParam) ==> 400 <= status_of(e) < 500 && code_of(e)
            == "invalid_request_error"@,
        e is UpstreamError ==> status_of(e) == 502 && code_of(e) == "upstream_error"@,
{
}

} // verus!
