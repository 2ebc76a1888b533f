//! The OpenAI error body.
use vstd::prelude::*;

verus! {

/// The error object; `error_type` is the wire field `type`.
#[derive(Debug, Clone, PartialEq)]
pub struct ApiError {
    pub message: String,
    pub error_type: String,
    pub param: Option<String>,
    pub code: Option<String>,
}

/// The body of an error response.
#[derive(Debug, Clone, PartialEq)]
pub struct ErrorResponse {
    pub error: ApiError,
}

} // verus!
