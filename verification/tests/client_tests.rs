use kagi_proxy::error::AppError;
use kagi_proxy::kagi::client::{
    assistant_completion, last_message_content, offered_models, upstream_failure,
    ConversationRequest, MessageRequest, UpstreamStep,
};
use kagi_proxy::kagi::{KagiModel, KagiSession};
use kagi_proxy::openai::{ChatCompletionRequest, ChatMessage, CompletionUsage, ModelList};

fn model(id: &str, supported: Option<bool>, deprecated: Option<bool>, retired: Option<bool>) -> KagiModel {
    KagiModel {
        id: id.to_string(),
        provider: None,
        provider_label: None,
        display_name: None,
        context_window: None,
        supported,
        deprecated,
        retired,
    }
}

#[test]
fn session_addresses_and_cookies() {
    let s = KagiSession::new(
        "https://kagi.com".to_string(),
        Some("tok".to_string()),
        Some("Authorization".to_string()),
    );
    assert_eq!(s.token, Some("tok".to_string()));
    assert_eq!(s.conversations_url(), "https://kagi.com/api/conversations");
    assert_eq!(s.messages_url("b1"), "https://kagi.com/api/branches/b1/messages");
    assert_eq!(
        s.stream_poll_url("/api/streams/x", 42),
        "https://kagi.com/api/streams/x?cursor=42"
    );
    assert_eq!(s.stream_poll_url("/s", 0), "https://kagi.com/s?cursor=0");
    assert_eq!(s.init_url(), "https://kagi.com/api/init");
    assert_eq!(s.session_cookie(), Some("kagi_session=tok".to_string()));
    assert_eq!(s.stream_cookie(), "kagi_session=tok");
    assert_eq!(s.auth_header, "Authorization");
    assert_eq!(
        s.auth_credentials(),
        Some(("Authorization".to_string(), "tok".to_string()))
    );
    let custom = KagiSession::new(
        "https://kagi.com".to_string(),
        Some("tok".to_string()),
        Some("X-Kagi-Token".to_string()),
    );
    assert_eq!(
        custom.auth_credentials(),
        Some(("X-Kagi-Token".to_string(), "tok".to_string()))
    );
    let anonymous = KagiSession::new("http://localhost".to_string(), None, None);
    assert_eq!(anonymous.auth_header, "Authorization");
    assert_eq!(anonymous.auth_credentials(), None);
    assert_eq!(anonymous.session_cookie(), None);
    assert_eq!(anonymous.stream_cookie(), "kagi_session=");
}

#[test]
fn request_bodies() {
    assert_eq!(ConversationRequest::new("gpt-4o").model_name, "gpt-4o");
    let m = MessageRequest::new("Hello!", "gpt-4o");
    assert_eq!(m.message, "Hello!");
    assert_eq!(m.model_name, "gpt-4o");
    assert_eq!(m.thinking_preset, None);
    assert!(m.enable_search);
    assert!(m.personalization);
}

#[test]
fn upstream_failures_are_reported() {
    let e = upstream_failure(UpstreamStep::SendMessage, "500 oops");
    assert_eq!(e, AppError::UpstreamError("Failed to send message: 500 oops".to_string()));
    assert_eq!(e.message(), "Upstream error: Failed to send message: 500 oops");
    assert_eq!(
        upstream_failure(UpstreamStep::ParseInit, "eof"),
        AppError::UpstreamError("Failed to parse init response: eof".to_string())
    );
    assert_eq!(
        upstream_failure(UpstreamStep::CreateConversation, ""),
        AppError::UpstreamError("Failed to create conversation: ".to_string())
    );
}

#[test]
fn only_offered_models_are_kept() {
    let models = vec![
        model("a", Some(true), None, None),
        model("b", None, None, None),
        model("c", Some(true), Some(true), None),
        model("d", Some(true), Some(false), Some(false)),
        model("e", Some(true), None, Some(true)),
        model("f", Some(false), None, None),
    ];
    let kept: Vec<String> = offered_models(models).into_iter().map(|m| m.id).collect();
    assert_eq!(kept, vec!["a".to_string(), "d".to_string()]);
}

#[test]
fn model_list_from_kagi_models() {
    let mut with_label = model("gpt-4o", Some(true), None, None);
    with_label.provider_label = Some("OpenAI".to_string());
    let list = ModelList::from_kagi_models(&[with_label, model("ki", None, None, None)]);
    assert_eq!(list.object, "list");
    assert_eq!(list.data.len(), 2);
    assert_eq!(list.data[0].id, "gpt-4o");
    assert_eq!(list.data[0].object, "model");
    assert_eq!(list.data[0].created, 1714067200);
    assert_eq!(list.data[0].owned_by, "OpenAI");
    assert_eq!(list.data[0].root, "gpt-4o");
    assert_eq!(list.data[0].parent, None);
    assert!(list.data[0].permission.is_empty());
    assert_eq!(list.data[1].owned_by, "kagi");
}

fn request(contents: &[&str]) -> ChatCompletionRequest {
    ChatCompletionRequest {
        model: "gpt-4o".to_string(),
        messages: contents
            .iter()
            .map(|c| ChatMessage {
                role: "user".to_string(),
                content: c.to_string(),
                name: None,
                tool_calls: None,
            })
            .collect(),
        temperature: None,
        top_p: None,
        max_tokens: None,
        stream: None,
        stop: None,
        presence_penalty: None,
        frequency_penalty: None,
        user: None,
        stream_options: None,
    }
}

#[test]
fn last_message_is_sent() {
    assert_eq!(last_message_content(&request(&["first", "second"])), "second");
    assert_eq!(last_message_content(&request(&[])), "");
}

#[test]
fn completion_answers_as_assistant() {
    let r = assistant_completion("gpt-4o".to_string(), "Hi there".to_string());
    assert!(r.id.starts_with("chatcmpl-"));
    assert_eq!(r.object, "chat.completion");
    assert_eq!(r.model, "gpt-4o");
    assert_eq!(r.choices.len(), 1);
    assert_eq!(r.choices[0].index, 0);
    assert_eq!(r.choices[0].message.role, "assistant");
    assert_eq!(r.choices[0].message.content, "Hi there");
    assert_eq!(r.choices[0].finish_reason, Some("stop".to_string()));
    assert_eq!(r.usage, CompletionUsage::zero());
    assert_eq!(r.system_fingerprint, None);
}

#[test]
fn offering_twice_changes_nothing() {
    let models = vec![
        model("a", Some(true), None, None),
        model("b", Some(true), Some(true), None),
        model("c", Some(true), None, Some(false)),
    ];
    let once = offered_models(models);
    let twice = offered_models(once.clone());
    assert_eq!(once, twice);
    assert!(once.iter().all(|m| m.supported == Some(true)));
}
