use kagi_proxy::clock::{completion_id_at, epoch_stamp, format_stamp, uuid_simple};
use kagi_proxy::kagi::{
    KagiChoice, KagiDelta, KagiMessage, KagiMessageContent, KagiRequest, KagiResponse, KagiUsage,
};
use kagi_proxy::openai::{
    ChatCompletionChunk, ChatCompletionRequest, ChatCompletionResponse, ChatMessage, Choice,
    ChoiceDelta, CompletionUsage,
};

#[test]
fn usage_counts() {
    assert_eq!(
        CompletionUsage::from_tokens(3, 4),
        CompletionUsage { prompt_tokens: 3, completion_tokens: 4, total_tokens: 7 }
    );
    assert_eq!(
        CompletionUsage::zero(),
        CompletionUsage { prompt_tokens: 0, completion_tokens: 0, total_tokens: 0 }
    );
}

#[test]
fn stamps_are_hexadecimal() {
    assert_eq!(format_stamp(255, 16), "ff10");
    assert_eq!(format_stamp(0, 0), "00");
    assert_eq!(completion_id_at(0x6634_0000, 999_999_999), "chatcmpl-663400003b9ac9ff");
    let u = uuid_simple();
    assert!(!u.is_empty());
    assert!(u.chars().all(|c| c.is_ascii_hexdigit() && !c.is_ascii_uppercase()));
}

fn message(role: &str, content: &str) -> ChatMessage {
    ChatMessage { role: role.to_string(), content: content.to_string(), name: None, tool_calls: None }
}

#[test]
fn constructors() {
    let r = ChatCompletionResponse::new("m".to_string(), vec![], CompletionUsage::zero());
    assert!(r.id.starts_with("chatcmpl-"));
    assert!(r.id.len() > "chatcmpl-".len());
    assert_eq!(r.object, "chat.completion");
    assert_eq!(r.system_fingerprint, None);
    let c = Choice::new(message("assistant", "x"), Some("length"));
    assert_eq!(c.index, 0);
    assert_eq!(c.finish_reason, Some("length".to_string()));
    assert_eq!(Choice::new(message("assistant", "x"), None).finish_reason, None);
    let d = ChatCompletionChunk::done("m".to_string());
    assert!(d.choices.is_empty());
    assert_eq!(d.object, "chat.completion.chunk");
    let w = ChoiceDelta::with_role("assistant");
    assert_eq!(w.delta.role, Some("assistant".to_string()));
    assert_eq!(w.delta.content, None);
    let f = ChoiceDelta::finish("length");
    assert_eq!(f.finish_reason, Some("length".to_string()));
    let t = ChoiceDelta::content("tok");
    assert_eq!(t.delta.content, Some("tok".to_string()));
    assert_eq!(t.index, 0);
}

#[test]
fn kagi_request_from_openai() {
    let req = ChatCompletionRequest {
        model: "gpt-4o".to_string(),
        messages: vec![
            ChatMessage {
                role: "system".to_string(),
                content: "Be brief".to_string(),
                name: Some("sys".to_string()),
                tool_calls: None,
            },
            message("user", "Hello!"),
        ],
        temperature: Some(0.7f64.to_bits()),
        top_p: None,
        max_tokens: Some(100),
        stream: None,
        stop: Some(serde_json::Value::String("END".to_string())),
        presence_penalty: Some((-0.5f64).to_bits()),
        frequency_penalty: None,
        user: Some("u1".to_string()),
        stream_options: None,
    };
    let k = KagiRequest::from_openai(&req);
    assert_eq!(k.model, "gpt-4o");
    assert_eq!(
        k.messages,
        vec![
            KagiMessage {
                role: "system".to_string(),
                content: "Be brief".to_string(),
                name: Some("sys".to_string())
            },
            KagiMessage { role: "user".to_string(), content: "Hello!".to_string(), name: None },
        ]
    );
    assert_eq!(k.temperature.map(f64::from_bits), Some(0.7));
    assert_eq!(k.presence_penalty.map(f64::from_bits), Some(-0.5));
    assert_eq!(k.max_tokens, Some(100));
    assert_eq!(k.stop, Some(serde_json::Value::String("END".to_string())));
    assert!(!k.stream);
    assert_eq!(k.user, Some("u1".to_string()));
    let mut streamed = req.clone();
    streamed.stream = Some(true);
    assert!(KagiRequest::from_openai(&streamed).stream);
}

#[test]
fn kagi_message_from_chat_message() {
    let m = KagiMessage::from(&message("user", "hey"));
    assert_eq!(m, KagiMessage { role: "user".to_string(), content: "hey".to_string(), name: None });
}

#[test]
fn kagi_response_to_openai() {
    let resp = KagiResponse {
        id: Some("k1".to_string()),
        choices: vec![
            KagiChoice {
                index: Some(3),
                message: Some(KagiMessageContent { role: None, content: Some("Hi".to_string()) }),
                delta: None,
                finish_reason: Some("stop".to_string()),
            },
            KagiChoice { index: None, message: None, delta: None, finish_reason: None },
        ],
        usage: Some(KagiUsage { prompt_tokens: Some(1), completion_tokens: None, total_tokens: Some(5) }),
    };
    let out = resp.into_openai_response("gpt-4o").unwrap();
    assert_eq!(out.model, "gpt-4o");
    assert_eq!(out.choices.len(), 2);
    assert_eq!(out.choices[0].index, 0);
    assert_eq!(out.choices[0].message.role, "assistant");
    assert_eq!(out.choices[0].message.content, "Hi");
    assert_eq!(out.choices[0].finish_reason, Some("stop".to_string()));
    assert_eq!(out.choices[1].message.content, "");
    assert_eq!(out.choices[1].finish_reason, None);
    assert_eq!(
        out.usage,
        CompletionUsage { prompt_tokens: 1, completion_tokens: 0, total_tokens: 5 }
    );
    let none = KagiResponse { id: None, choices: vec![], usage: None };
    assert_eq!(none.into_openai_response("m").unwrap().usage, CompletionUsage::zero());
}

#[test]
fn kagi_response_to_chunk() {
    let resp = KagiResponse {
        id: None,
        choices: vec![
            KagiChoice {
                index: Some(2),
                message: None,
                delta: Some(KagiDelta { role: Some("assistant".to_string()), content: Some("He".to_string()) }),
                finish_reason: None,
            },
            KagiChoice { index: None, message: None, delta: None, finish_reason: Some("stop".to_string()) },
        ],
        usage: None,
    };
    let chunk = resp.to_openai_chunk();
    assert_eq!(chunk.model, "gpt-4o");
    assert_eq!(chunk.object, "chat.completion.chunk");
    assert_eq!(chunk.choices.len(), 2);
    assert_eq!(chunk.choices[0].index, 2);
    assert_eq!(chunk.choices[0].delta.role, Some("assistant".to_string()));
    assert_eq!(chunk.choices[0].delta.content, Some("He".to_string()));
    assert_eq!(chunk.choices[1].index, 0);
    assert_eq!(chunk.choices[1].delta.content, None);
    assert_eq!(chunk.choices[1].finish_reason, Some("stop".to_string()));
}

#[test]
fn stamped_constructors() {
    let r = ChatCompletionResponse::new_at(
        "m".to_string(),
        vec![],
        CompletionUsage::zero(),
        0x6634_0000,
        255,
    );
    assert_eq!(r.id, "chatcmpl-66340000ff");
    assert_eq!(r.created, 0x6634_0000);
    assert_eq!(r.object, "chat.completion");
    assert_eq!(r.model, "m");
    let c = ChatCompletionChunk::new_at("m".to_string(), vec![ChoiceDelta::content("a")], 17, 0);
    assert_eq!(c.id, "chatcmpl-110");
    assert_eq!(c.created, 17);
    assert_eq!(c.object, "chat.completion.chunk");
    assert_eq!(c.choices.len(), 1);
}

#[test]
fn fresh_stamps_agree_with_created() {
    let r = ChatCompletionResponse::new("m".to_string(), vec![], CompletionUsage::zero());
    let secs = format!("{:x}", r.created);
    assert!(r.id.starts_with(&format!("chatcmpl-{}", secs)));
    let c = ChatCompletionChunk::new("m".to_string(), vec![]);
    assert!(c.id.starts_with(&format!("chatcmpl-{:x}", c.created)));
}

#[test]
fn clock_readings() {
    assert_eq!(epoch_stamp(Some((12, 34))), (12, 34));
    assert_eq!(epoch_stamp(None), (0, 0));
}
