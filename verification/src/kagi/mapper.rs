//! Mapping between the OpenAI format and Kagi's chat format.
use vstd::prelude::*;
use crate::error::Result;
use crate::json::clone_json_opt;
use crate::openai::chat::is_completion_stamp;
use crate::openai::{
    ChatCompletionChunk, ChatCompletionRequest, ChatCompletionResponse, ChatMessage,
    ChatMessageDelta, Choice, ChoiceDelta, CompletionUsage,
};
use crate::text::clone_opt_string;

verus! {

/// A chat request in Kagi's format. As in `ChatCompletionRequest`, the
/// `f64` sampling parameters are held as their IEEE 754 bit patterns.
#[derive(Debug, Clone, PartialEq)]
pub struct KagiRequest {
    pub model: String,
    pub messages: Vec<KagiMessage>,
    pub temperature: Option<u64>,
    pub top_p: Option<u64>,
    pub max_tokens: Option<u32>,
    pub stop: Option<serde_json::Value>,
    pub stream: bool,
    pub presence_penalty: Option<u64>,
    pub frequency_penalty: Option<u64>,
    pub user: Option<String>,
}

/// A message in Kagi's format.
#[derive(Debug, Clone, PartialEq)]
pub struct KagiMessage {
    pub role: String,
    pub content: String,
    pub name: Option<String>,
}

/// The Kagi message made of an OpenAI message: its role, content and name.
pub open spec fn kagi_message_of(msg: ChatMessage) -> KagiMessage {
    KagiMessage { role: msg.role, content: msg.content, name: msg.name }
}

impl<'a> From<&'a ChatMessage> for KagiMessage {
    fn from(msg: &'a ChatMessage) -> (r: Self) {
        KagiMessage {
            role: msg.role.clone(),
            content: msg.content.clone(),
            name: clone_opt_string(&msg.name),
        }
    }
}

impl<'a> vstd::std_specs::convert::FromSpecImpl<&'a ChatMessage> for KagiMessage {
    open spec fn obeys_from_spec() -> bool {
        true
    }

    open spec fn from_spec(msg: &'a ChatMessage) -> Self {
        kagi_message_of(*msg)
    }
}

impl KagiRequest {
    /// The Kagi request for an OpenAI request: the same model, messages and
    /// parameters, and streaming only when the request asks for it.
    pub fn from_openai(req: &ChatCompletionRequest) -> (r: Self)
        ensures
            r.model == req.model,
            r.messages@.len() == req.messages@.len(),
            forall|i: int|
                0 <= i < r.messages@.len() ==> #[trigger] r.messages@[i] == kagi_message_of(
                    req.messages@[i],
                ),
            r.temperature == req.temperature,
            r.top_p == req.top_p,
            r.max_tokens == req.max_tokens,
            r.stop == req.stop,
            r.stream == (req.stream == Some(true)),
            r.presence_penalty == req.presence_penalty,
            r.frequency_penalty == req.frequency_penalty,
            r.user == req.user,
    {
        let mut messages: Vec<KagiMessage> = Vec::new();
        let mut i: usize = 0;
        while i < req.messages.len()
            invariant
                i <= req.messages@.len(),
                messages@.len() == i,
                forall|k: int|
                    0 <= k < i ==> #[trigger] messages@[k] == kagi_message_of(req.messages@[k]),
            decreases req.messages@.len() - i,
        {
            messages.push(KagiMessage::from(&req.messages[i]));
            i = i + 1;
        }
        KagiRequest {
            model: req.model.clone(),
            messages,
            temperature: req.temperature,
            top_p: req.top_p,
            max_tokens: req.max_tokens,
            stop: clone_json_opt(&req.stop),
            stream: match req.stream {
                Some(b) => b,
                None => false,
            },
            presence_penalty: req.presence_penalty,
            frequency_penalty: req.frequency_penalty,
            user: clone_opt_string(&req.user),
        }
    }
}

/// A chat response in Kagi's format.
#[derive(Debug, Clone, PartialEq)]
pub struct KagiResponse {
    pub id: Option<String>,
    pub choices: Vec<KagiChoice>,
    pub usage: Option<KagiUsage>,
}

/// A choice of a Kagi response: a whole message or, when streamed, a delta.
#[derive(Debug, Clone, PartialEq)]
pub struct KagiChoice {
    pub index: Option<u32>,
    pub message: Option<KagiMessageContent>,
    pub delta: Option<KagiDelta>,
    pub finish_reason: Option<String>,
}

/// The message of a Kagi choice.
#[derive(Debug, Clone, PartialEq)]
pub struct KagiMessageContent {
    pub role: Option<String>,
    pub content: Option<String>,
}

/// The delta of a streamed Kagi choice.
#[derive(Debug, Clone, PartialEq)]
pub struct KagiDelta {
    pub role: Option<String>,
    pub content: Option<String>,
}

/// Token counts of a Kagi response.
#[derive(Debug, Clone, Copy, PartialEq, Eq)]
pub struct KagiUsage {
    pub prompt_tokens: Option<u32>,
    pub completion_tokens: Option<u32>,
    pub total_tokens: Option<u32>,
}

/// The role of a Kagi choice's message, `assistant` when it has none.
pub open spec fn reply_role(c: KagiChoice) -> Seq<char> {
    match c.message {
        Some(m) => match m.role {
            Some(r) => r@,
            None => "assistant"@,
        },
        None => "assistant"@,
    }
}

/// The content of a Kagi choice's message, empty when it has none.
pub open spec fn reply_content(c: KagiChoice) -> Seq<char> {
    match c.message {
        Some(m) => match m.content {
            Some(t) => t@,
            None => Seq::<char>::empty(),
        },
        None => Seq::<char>::empty(),
    }
}

/// A complete choice answers with the Kagi message as it is: its role and
/// content when present, each whatever the other holds, and otherwise the
/// role `assistant` and no text.
pub proof fn lemma_reply_keeps_message(c: KagiChoice)
    ensures
        c.message matches Some(m) ==> (m.role matches Some(r) ==> reply_role(c) == r@),
        c.message matches Some(m) ==> (m.content matches Some(t) ==> reply_content(c) == t@),
        c.message matches Some(m) ==> (m.role is None ==> reply_role(c) == "assistant"@),
        c.message matches Some(m) ==> (m.content is None ==> reply_content(c).len() == 0),
        c.message is None ==> reply_role(c) == "assistant"@ && reply_content(c).len() == 0,
{
}

/// `n`, or zero when it is missing.
pub open spec fn count_or_zero(n: Option<u32>) -> u32 {
    match n {
        Some(v) => v,
        None => 0,
    }
}

/// The OpenAI usage of a Kagi usage: each count as given (a missing count
/// is zero), or no tokens when there is no usage.
pub open spec fn usage_of(u: Option<KagiUsage>) -> CompletionUsage {
    match u {
        Some(u) => CompletionUsage {
            prompt_tokens: count_or_zero(u.prompt_tokens),
            completion_tokens: count_or_zero(u.completion_tokens),
            total_tokens: count_or_zero(u.total_tokens),
        },
        None => CompletionUsage { prompt_tokens: 0, completion_tokens: 0, total_tokens: 0 },
    }
}

fn or_zero(n: Option<u32>) -> (r: u32)
    ensures
        r == count_or_zero(n),
{
    match n {
        Some(v) => v,
        None => 0,
    }
}

/// The OpenAI choice of a Kagi choice.
fn openai_choice(c: KagiChoice) -> (r: Choice)
    ensures
        r.index == 0,
        r.message.role@ == reply_role(c),
        r.message.content@ == reply_content(c),
        r.message.name is None,
        r.message.tool_calls is None,
        r.finish_reason.deep_view() == c.finish_reason.deep_view(),
{
    let (role, content) = match c.message {
        Some(m) => {
            let role = match m.role {
                Some(r) => r,
                None => "assistant".to_owned(),
            };
            let content = match m.content {
                Some(t) => t,
                None => String::new(),
            };
            (role, content)
        },
        None => ("assistant".to_owned(), String::new()),
    };
    let finish: Option<&str> = match &c.finish_reason {
        Some(f) => Some(f.as_str()),
        None => None,
    };
    Choice::new(ChatMessage { role, content, name: None, tool_calls: None }, finish)
}

/// The OpenAI delta choice of a streamed Kagi choice.
pub open spec fn chunk_choice_matches(r: ChoiceDelta, c: KagiChoice) -> bool {
    &&& r.index == (match c.index {
        Some(i) => i,
        None => 0,
    })
    &&& r.delta.role == (match c.delta {
        Some(d) => d.role,
        None => None,
    })
    &&& r.delta.content.deep_view() == (match c.delta {
        Some(d) => d.content.deep_view(),
        None => None,
    })
    &&& r.delta.tool_calls is None
    &&& r.finish_reason == c.finish_reason
}

/// A streamed choice passes the Kagi delta on as it is: its content is the
/// delta's content and its role the delta's role, each whatever the other
/// holds; two choices whose deltas carry the same content give chunks with
/// the same content.
pub proof fn lemma_chunk_keeps_delta(r1: ChoiceDelta, c1: KagiChoice, r2: ChoiceDelta, c2: KagiChoice)
    requires
        chunk_choice_matches(r1, c1),
        chunk_choice_matches(r2, c2),
    ensures
        c1.delta matches Some(d) ==> r1.delta.content.deep_view() == d.content.deep_view()
            && r1.delta.role == d.role,
        c1.delta is None ==> r1.delta.content is None && r1.delta.role is None,
        c1.index matches Some(i) ==> r1.index == i,
        c1.index is None ==> r1.index == 0,
        r1.finish_reason == c1.finish_reason,
        r1.delta.tool_calls is None,
        (c1.delta matches Some(d1) && c2.delta matches Some(d2) && d1.content.deep_view()
            == d2.content.deep_view()) ==> r1.delta.content.deep_view() == r2.delta.content.deep_view(),
{
}

fn openai_delta_choice(c: &KagiChoice) -> (r: ChoiceDelta)
    ensures
        chunk_choice_matches(r, *c),
{
    let (role, content) = match &c.delta {
        Some(d) => (clone_opt_string(&d.role), clone_opt_string(&d.content)),
        None => (None, None),
    };
    ChoiceDelta {
        index: match c.index {
            Some(i) => i,
            None => 0,
        },
        delta: ChatMessageDelta { role, content, tool_calls: None },
        finish_reason: clone_opt_string(&c.finish_reason),
    }
}

impl KagiResponse {
    /// The OpenAI completion of `model` for this response: one choice per
    /// Kagi choice, in order, each the first choice of its message, and the
    /// response's token counts. It always succeeds.
    pub fn into_openai_response(self, model: &str) -> (r: Result<ChatCompletionResponse>)
        ensures
            r matches Ok(resp) && {
                &&& resp.model@ == model@
                &&& resp.object@ == "chat.completion"@
                &&& resp.choices@.len() == self.choices@.len()
                &&& forall|i: int|
                    0 <= i < resp.choices@.len() ==> {
                        let out = #[trigger] resp.choices@[i];
                        let c = self.choices@[i];
                        &&& out.index == 0
                        &&& out.message.role@ == reply_role(c)
                        &&& out.message.content@ == reply_content(c)
                        &&& out.message.name is None
                        &&& out.message.tool_calls is None
                        &&& out.finish_reason.deep_view() == c.finish_reason.deep_view()
                    }
                &&& resp.usage == usage_of(self.usage)
                &&& resp.system_fingerprint is None
                &&& is_completion_stamp(resp.id@, resp.created)
            },
    {
        let ghost src = self.choices@;
        let mut choices: Vec<Choice> = Vec::new();
        for c in it: self.choices
            invariant
                it.seq() == src,
                choices@.len() == it.index(),
                forall|i: int|
                    0 <= i < choices@.len() ==> {
                        let out = #[trigger] choices@[i];
                        let c = src[i];
                        &&& out.index == 0
                        &&& out.message.role@ == reply_role(c)
                        &&& out.message.content@ == reply_content(c)
                        &&& out.message.name is None
                        &&& out.message.tool_calls is None
                        &&& out.finish_reason.deep_view() == c.finish_reason.deep_view()
                    },
        {
            choices.push(openai_choice(c));
        }
        let usage = match self.usage {
            Some(u) => CompletionUsage {
                prompt_tokens: or_zero(u.prompt_tokens),
                completion_tokens: or_zero(u.completion_tokens),
                total_tokens: or_zero(u.total_tokens),
            },
            None => CompletionUsage::zero(),
        };
        Ok(ChatCompletionResponse::new(model.to_owned(), choices, usage))
    }

    /// The OpenAI chunk for this streamed response, named for the model
    /// `gpt-4o`: one delta choice per Kagi choice, in order, with the
    /// choice's index (zero when missing), role, content and finish reason.
    pub fn to_openai_chunk(&self) -> (r: ChatCompletionChunk)
        ensures
            is_completion_stamp(r.id@, r.created),
            r.model@ == "gpt-4o"@,
            r.object@ == "chat.completion.chunk"@,
            r.choices@.len() == self.choices@.len(),
            forall|i: int|
                0 <= i < r.choices@.len() ==> chunk_choice_matches(
                    #[trigger] r.choices@[i],
                    self.choices@[i],
                ),
            forall|i: int|
                0 <= i < r.choices@.len() ==> (self.choices@[i].delta matches Some(d) ==> (
                #[trigger] r.choices@[i]).delta.content.deep_view() == d.content.deep_view()),
    {
        let mut choices: Vec<ChoiceDelta> = Vec::new();
        let mut i: usize = 0;
        while i < self.choices.len()
            invariant
                i <= self.choices@.len(),
                choices@.len() == i,
                forall|k: int|
                    0 <= k < i ==> chunk_choice_matches(#[trigger] choices@[k], self.choices@[k]),
            decreases self.choices@.len() - i,
        {
            choices.push(openai_delta_choice(&self.choices[i]));
            i = i + 1;
        }
        ChatCompletionChunk::new("gpt-4o".to_owned(), choices)
    }
}

} // verus!
