//! The checks the chat endpoint makes before it forwards a request.
use vstd::prelude::*;
use crate::error::{AppError, Result};
use crate::openai::ChatCompletionRequest;

verus! {

/// Some message of `req` has empty content.
pub open spec fn has_empty_message(req: ChatCompletionRequest) -> bool {
    exists|i: int| 0 <= i < req.messages@.len() && (#[trigger] req.messages@[i]).content@.len() == 0
}

/// Checks a chat request: it needs messages, and none may be empty. On
/// success, tells whether the answer is to be streamed.
pub fn check_chat_request(req: &ChatCompletionRequest) -> (r: Result<bool>)
    ensures
        req.messages@.len() == 0 ==> (r matches Err(AppError::MissingParam(p)) && p@ == "messages"@),
        req.messages@.len() > 0 && has_empty_message(*req) ==> (r matches Err(
            AppError::InvalidRequest(m),
        ) && m@ == "message content cannot be empty"@),
        req.messages@.len() > 0 && !has_empty_message(*req) ==> r == Ok::<bool, AppError>(
            req.stream == Some(true),
        ),
{
    if req.messages.len() == 0 {
        return Err(AppError::MissingParam("messages".to_owned()));
    }
    let mut i: usize = 0;
    while i < req.messages.len()
        invariant
            i <= req.messages@.len(),
            forall|k: int| 0 <= k < i ==> (#[trigger] req.messages@[k]).content@.len() > 0,
        decreases req.messages@.len() - i,
    {
        if req.messages[i].content.as_str().is_empty() {
            return Err(AppError::InvalidRequest("message content cannot be empty".to_owned()));
        }
        i = i + 1;
    }
    let stream = match req.stream {
        Some(b) => b,
        None => false,
    };
    Ok(stream)
}

} // verus!
