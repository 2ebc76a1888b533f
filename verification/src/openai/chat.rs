//! The OpenAI chat completion wire types and their constructors.
use vstd::prelude::*;
use crate::clock::{completion_id, completion_id_at, now_since_epoch};
pub use crate::clock::{unix_timestamp, uuid_simple};

verus! {

/// A chat completion request. The sampling parameters that the wire format
/// carries as `f64` (`temperature`, `top_p`, `presence_penalty`,
/// `frequency_penalty`) are held as the IEEE 754 bit patterns of those
/// numbers, which `f64::to_bits` gives and `f64::from_bits` takes back.
#[derive(Debug, Clone, PartialEq)]
pub struct ChatCompletionRequest {
    pub model: String,
    pub messages: Vec<ChatMessage>,
    pub temperature: Option<u64>,
    pub top_p: Option<u64>,
    pub max_tokens: Option<u32>,
    pub stream: Option<bool>,
    pub stop: Option<serde_json::Value>,
    pub presence_penalty: Option<u64>,
    pub frequency_penalty: Option<u64>,
    pub user: Option<String>,
    pub stream_options: Option<StreamOptions>,
}

/// Options for streamed responses.
#[derive(Debug, Clone, PartialEq)]
pub struct StreamOptions {
    pub include_usage: Option<bool>,
}

/// One message of a conversation.
#[derive(Debug, Clone, PartialEq)]
pub struct ChatMessage {
    pub role: String,
    pub content: String,
    pub name: Option<String>,
    pub tool_calls: Option<Vec<ToolCall>>,
}

/// A tool call requested by the model; `call_type` is the wire field `type`.
#[derive(Debug, Clone, PartialEq)]
pub struct ToolCall {
    pub id: String,
    pub call_type: String,
    pub function: FunctionCall,
}

/// The function and arguments of a tool call.
#[derive(Debug, Clone, PartialEq)]
pub struct FunctionCall {
    pub name: String,
    pub arguments: String,
}

/// A complete (non-streamed) chat completion.
#[derive(Debug, Clone, PartialEq)]
pub struct ChatCompletionResponse {
    pub id: String,
    pub object: String,
    pub created: u64,
    pub model: String,
    pub choices: Vec<Choice>,
    pub usage: CompletionUsage,
    pub system_fingerprint: Option<String>,
}

/// An identifier and a creation time read together from the clock: the
/// identifier is `chatcmpl-` followed by that time's seconds and
/// nanoseconds in hexadecimal, and `created` is its seconds.
pub open spec fn is_completion_stamp(id: Seq<char>, created: u64) -> bool {
    exists|nanos: u32|
        nanos < 1_000_000_000 && id == #[trigger] completion_id(created as nat, nanos as nat)
}

impl ChatCompletionResponse {
    /// A completion of `model` with the given choices and usage, made at the
    /// time `secs` seconds and `nanos` nanoseconds after the Unix epoch.
    pub fn new_at(
        model: String,
        choices: Vec<Choice>,
        usage: CompletionUsage,
        secs: u64,
        nanos: u32,
    ) -> (r: Self)
        ensures
            r.id@ == completion_id(secs as nat, nanos as nat),
            r.created == secs,
            r.object@ == "chat.completion"@,
            r.model == model,
            r.choices == choices,
            r.usage == usage,
            r.system_fingerprint is None,
    {
        ChatCompletionResponse {
            id: completion_id_at(secs, nanos),
            object: "chat.completion".to_owned(),
            created: secs,
            model,
            choices,
            usage,
            system_fingerprint: None,
        }
    }

    /// A completion of `model` with the given choices and usage, stamped
    /// with one reading of the current time.
    pub fn new(model: String, choices: Vec<Choice>, usage: CompletionUsage) -> (r: Self)
        ensures
            is_completion_stamp(r.id@, r.created),
            r.object@ == "chat.completion"@,
            r.model == model,
            r.choices == choices,
            r.usage == usage,
            r.system_fingerprint is None,
    {
        let (secs, nanos) = now_since_epoch();
        ChatCompletionResponse::new_at(model, choices, usage, secs, nanos)
    }
}

/// One choice of a complete completion.
#[derive(Debug, Clone, PartialEq)]
pub struct Choice {
    pub index: u32,
    pub message: ChatMessage,
    pub finish_reason: Option<String>,
}

impl Choice {
    /// The first choice, holding `message`, with the given finish reason.
    pub fn new(message: ChatMessage, finish_reason: Option<&str>) -> (r: Self)
        ensures
            r.index == 0,
            r.message == message,
            r.finish_reason.deep_view() == finish_reason.deep_view(),
    {
        let finish_reason = match finish_reason {
            Some(s) => Some(s.to_owned()),
            None => None,
        };
        Choice { index: 0, message, finish_reason }
    }
}

/// One chunk of a streamed completion.
#[derive(Debug, Clone, PartialEq)]
pub struct ChatCompletionChunk {
    pub id: String,
    pub object: String,
    pub created: u64,
    pub model: String,
    pub choices: Vec<ChoiceDelta>,
}

impl ChatCompletionChunk {
    /// A chunk of `model` with the given choices, made at the time `secs`
    /// seconds and `nanos` nanoseconds after the Unix epoch.
    pub fn new_at(model: String, choices: Vec<ChoiceDelta>, secs: u64, nanos: u32) -> (r: Self)
        ensures
            r.id@ == completion_id(secs as nat, nanos as nat),
            r.created == secs,
            r.object@ == "chat.completion.chunk"@,
            r.model == model,
            r.choices == choices,
    {
        ChatCompletionChunk {
            id: completion_id_at(secs, nanos),
            object: "chat.completion.chunk".to_owned(),
            created: secs,
            model,
            choices,
        }
    }

    /// A chunk of `model` with the given choices, stamped with one reading
    /// of the current time.
    pub fn new(model: String, choices: Vec<ChoiceDelta>) -> (r: Self)
        ensures
            is_completion_stamp(r.id@, r.created),
            r.object@ == "chat.completion.chunk"@,
            r.model == model,
            r.choices == choices,
    {
        let (secs, nanos) = now_since_epoch();
        ChatCompletionChunk::new_at(model, choices, secs, nanos)
    }

    /// A chunk of `model` without choices.
    pub fn done(model: String) -> (r: Self)
        ensures
            is_completion_stamp(r.id@, r.created),
            r.object@ == "chat.completion.chunk"@,
            r.model == model,
            r.choices@.len() == 0,
    {
        ChatCompletionChunk::new(model, Vec::new())
    }
}

/// One choice of a streamed chunk.
#[derive(Debug, Clone, PartialEq)]
pub struct ChoiceDelta {
    pub index: u32,
    pub delta: ChatMessageDelta,
    pub finish_reason: Option<String>,
}

impl ChoiceDelta {
    /// The first choice, adding `content` to the message.
    pub fn content(content: &str) -> (r: Self)
        ensures
            r.index == 0,
            r.delta.role is None,
            r.delta.content matches Some(c) && c@ == content@,
            r.delta.tool_calls is None,
            r.finish_reason is None,
    {
        ChoiceDelta {
            index: 0,
            delta: ChatMessageDelta {
                role: None,
                content: Some(content.to_owned()),
                tool_calls: None,
            },
            finish_reason: None,
        }
    }

    /// The first choice, giving the message's role.
    pub fn with_role(role: &str) -> (r: Self)
        ensures
            r.index == 0,
            r.delta.role matches Some(x) && x@ == role@,
            r.delta.content is None,
            r.delta.tool_calls is None,
            r.finish_reason is None,
    {
        ChoiceDelta {
            index: 0,
            delta: ChatMessageDelta { role: Some(role.to_owned()), content: None, tool_calls: None },
            finish_reason: None,
        }
    }

    /// The first choice, finishing with the reason `stop`.
    pub fn finish(stop: &str) -> (r: Self)
        ensures
            r.index == 0,
            r.delta.role is None,
            r.delta.content is None,
            r.delta.tool_calls is None,
            r.finish_reason matches Some(f) && f@ == stop@,
    {
        ChoiceDelta {
            index: 0,
            delta: ChatMessageDelta { role: None, content: None, tool_calls: None },
            finish_reason: Some(stop.to_owned()),
        }
    }
}

/// What a chunk adds to the message.
#[derive(Debug, Clone, PartialEq)]
pub struct ChatMessageDelta {
    pub role: Option<String>,
    pub content: Option<String>,
    pub tool_calls: Option<Vec<ToolCallDelta>>,
}

/// A part of a streamed tool call; `call_type` is the wire field `type`.
#[derive(Debug, Clone, PartialEq)]
pub struct ToolCallDelta {
    pub id: Option<String>,
    pub call_type: Option<String>,
    pub function: Option<FunctionCallDelta>,
}

/// A part of a streamed function call.
#[derive(Debug, Clone, PartialEq)]
pub struct FunctionCallDelta {
    pub name: Option<String>,
    pub arguments: Option<String>,
}

/// Token counts of a completion.
#[derive(Debug, Clone, Copy, PartialEq, Eq)]
pub struct CompletionUsage {
    pub prompt_tokens: u32,
    pub completion_tokens: u32,
    pub total_tokens: u32,
}

impl CompletionUsage {
    /// No tokens counted.
    pub fn zero() -> (r: Self)
        ensures
            r.prompt_tokens == 0,
            r.completion_tokens == 0,
            r.total_tokens == 0,
    {
        CompletionUsage { prompt_tokens: 0, completion_tokens: 0, total_tokens: 0 }
    }

    /// The given counts and their sum; the sum must fit in `u32`.
    pub fn from_tokens(prompt: u32, completion: u32) -> (r: Self)
        requires
            prompt + completion <= u32::MAX,
        ensures
            r.prompt_tokens == prompt,
            r.completion_tokens == completion,
            r.total_tokens == prompt + completion,
    {
        CompletionUsage {
            prompt_tokens: prompt,
            completion_tokens: completion,
            total_tokens: prompt + completion,
        }
    }
}

} // verus!
