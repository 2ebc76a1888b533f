use kagi_proxy::error::AppError;
use kagi_proxy::openai::{ChatCompletionRequest, ChatMessage, ModelList};
use kagi_proxy::routes::check_chat_request;

fn request(messages: Vec<ChatMessage>) -> ChatCompletionRequest {
    ChatCompletionRequest {
        model: "gpt-4o".to_string(),
        messages,
        temperature: None,
        top_p: None,
        max_tokens: None,
        stream: None,
        stop: None,
        presence_penalty: None,
        frequency_penalty: None,
        user: None,
        stream_options: None,
    }
}

#[test]
fn test_list_models() {
    // Without a session token the client fetches no models, so the list is empty.
    let model_list = ModelList::from_kagi_models(&[]);
    assert_eq!(model_list.object, "list");
    assert!(model_list.data.is_empty());
}

#[test]
fn test_chat_completions_missing_messages() {
    let req = request(vec![]);
    let err = check_chat_request(&req).unwrap_err();
    assert_eq!(err.status_code(), 422);
    let error = err.to_error_response();
    assert!(error.error.message.contains("messages"));
}

#[test]
fn test_chat_completions_empty_content() {
    let req = request(vec![ChatMessage {
        role: "user".to_string(),
        content: "".to_string(),
        name: None,
        tool_calls: None,
    }]);
    let err = check_chat_request(&req).unwrap_err();
    assert_eq!(err.status_code(), 400);
    let error = err.to_error_response();
    assert!(error.error.message.contains("empty"));
}

#[test]
fn chat_request_with_content_is_accepted() {
    let mut req = request(vec![ChatMessage {
        role: "user".to_string(),
        content: "Hello!".to_string(),
        name: None,
        tool_calls: None,
    }]);
    assert_eq!(check_chat_request(&req), Ok(false));
    req.stream = Some(true);
    assert_eq!(check_chat_request(&req), Ok(true));
}

#[test]
fn any_empty_message_is_refused() {
    let msg = |c: &str| ChatMessage {
        role: "user".to_string(),
        content: c.to_string(),
        name: None,
        tool_calls: None,
    };
    let req = request(vec![msg("first"), msg(""), msg("third")]);
    assert_eq!(
        check_chat_request(&req),
        Err(AppError::InvalidRequest("message content cannot be empty".to_string()))
    );
}
