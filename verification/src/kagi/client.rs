//! What the Kagi client decides: the addresses, cookies and bodies of its
//! requests, the messages of its failures, which models it offers, which
//! text a stream event carries, and the completion it answers with. The
//! HTTP exchanges themselves are made around this by the server.
use vstd::prelude::*;
use crate::error::AppError;
pub use crate::kagi::html::strip_html;
use crate::kagi::html::{lemma_strip_html_empty, strip_html_spec};
use crate::numbers::{digits_of, digits_spec};
use crate::openai::chat::is_completion_stamp;
use crate::openai::{ChatCompletionRequest, ChatCompletionResponse, ChatMessage, Choice, CompletionUsage};
use crate::text::{chars_of, concat_str, extend_chars, string_from_chars};

verus! {

/// The Kagi endpoint, the session token that authenticates to it, and the
/// name of the header that carries the token.
#[derive(Debug, Clone, PartialEq)]
pub struct KagiSession {
    pub base_url: String,
    pub token: Option<String>,
    pub auth_header: String,
}

/// The `Cookie` header that carries the session token `t`.
pub open spec fn cookie_for(t: Seq<char>) -> Seq<char> {
    "kagi_session="@ + t
}

impl KagiSession {
    /// A session for `base_url` authenticated by `token`, which travels in
    /// the header named `auth_header` (`Authorization` when none is named)
    /// besides the `kagi_session` cookie.
    pub fn new(base_url: String, token: Option<String>, auth_header: Option<String>) -> (r: Self)
        ensures
            r.base_url == base_url,
            r.token == token,
            r.auth_header@ == (match auth_header {
                Some(h) => h@,
                None => "Authorization"@,
            }),
    {
        let auth_header = match auth_header {
            Some(h) => h,
            None => "Authorization".to_owned(),
        };
        KagiSession { base_url, token, auth_header }
    }

    /// The header that carries the token, as a name and a value: the
    /// session's header name and the token itself, when there is a token.
    /// Every request that carries the session's cookie carries it too.
    pub fn auth_credentials(&self) -> (h: Option<(String, String)>)
        ensures
            match self.token {
                Some(t) => h matches Some((name, value)) && name@ == self.auth_header@ && value@
                    == t@,
                None => h is None,
            },
    {
        match &self.token {
            Some(t) => Some((self.auth_header.clone(), t.clone())),
            None => None,
        }
    }

    /// Where conversations are created.
    pub fn conversations_url(&self) -> (u: String)
        ensures
            u@ == self.base_url@ + "/api/conversations"@,
    {
        concat_str(self.base_url.as_str(), "/api/conversations")
    }

    /// Where messages are posted to the branch `branch_uuid`.
    pub fn messages_url(&self, branch_uuid: &str) -> (u: String)
        ensures
            u@ == self.base_url@ + "/api/branches/"@ + branch_uuid@ + "/messages"@,
    {
        let a = concat_str(self.base_url.as_str(), "/api/branches/");
        let b = concat_str(a.as_str(), branch_uuid);
        concat_str(b.as_str(), "/messages")
    }

    /// Where the stream at `stream_path` is read from position `cursor`.
    pub fn stream_poll_url(&self, stream_path: &str, cursor: u64) -> (u: String)
        ensures
            u@ == self.base_url@ + stream_path@ + "?cursor="@ + digits_spec(cursor as nat, 10),
    {
        let a = concat_str(self.base_url.as_str(), stream_path);
        let mut v = chars_of(a.as_str());
        let q = chars_of("?cursor=");
        extend_chars(&mut v, &q);
        let d = digits_of(cursor, 10);
        extend_chars(&mut v, &d);
        string_from_chars(&v)
    }

    /// Where the account's initial state, with its models, is read.
    pub fn init_url(&self) -> (u: String)
        ensures
            u@ == self.base_url@ + "/api/init"@,
    {
        concat_str(self.base_url.as_str(), "/api/init")
    }

    /// The cookie of the session, when it has a token. Creating a
    /// conversation, sending a message and reading the models need it.
    pub fn session_cookie(&self) -> (c: Option<String>)
        ensures
            c.deep_view() == (match self.token {
                Some(t) => Some(cookie_for(t@)),
                None => None,
            }),
    {
        match &self.token {
            Some(t) => Some(concat_str("kagi_session=", t.as_str())),
            None => None,
        }
    }

    /// The cookie with which streams are read: that of the token, or an
    /// empty session when there is none.
    pub fn stream_cookie(&self) -> (c: String)
        ensures
            c@ == cookie_for(
                match self.token {
                    Some(t) => t@,
                    None => Seq::<char>::empty(),
                },
            ),
    {
        proof {
            reveal_strlit("");
        }
        match &self.token {
            Some(t) => concat_str("kagi_session=", t.as_str()),
            None => concat_str("kagi_session=", ""),
        }
    }
}

/// The body that creates a conversation with a model.
#[derive(Debug, Clone, PartialEq)]
pub struct ConversationRequest {
    pub model_name: String,
}

impl ConversationRequest {
    /// A conversation with `model`.
    pub fn new(model: &str) -> (r: Self)
        ensures
            r.model_name@ == model@,
    {
        ConversationRequest { model_name: model.to_owned() }
    }
}

/// The body that posts a message: no thinking preset, with search and
/// personalization.
#[derive(Debug, Clone, PartialEq)]
pub struct MessageRequest {
    pub message: String,
    pub model_name: String,
    pub thinking_preset: Option<String>,
    pub enable_search: bool,
    pub personalization: bool,
}

impl MessageRequest {
    /// The message `message` to `model`.
    pub fn new(message: &str, model: &str) -> (r: Self)
        ensures
            r.message@ == message@,
            r.model_name@ == model@,
            r.thinking_preset is None,
            r.enable_search,
            r.personalization,
    {
        MessageRequest {
            message: message.to_owned(),
            model_name: model.to_owned(),
            thinking_preset: None,
            enable_search: true,
            personalization: true,
        }
    }
}

/// A step of a chat with Kagi that can fail.
#[derive(Debug, Clone, Copy, PartialEq, Eq)]
pub enum UpstreamStep {
    CreateConversation,
    ParseConversation,
    SendMessage,
    ParseMessage,
    PollStream,
    FetchModels,
    ParseInit,
}

/// How the failure of `step` is announced.
pub open spec fn step_prefix(step: UpstreamStep) -> Seq<char> {
    match step {
        UpstreamStep::CreateConversation => "Failed to create conversation: "@,
        UpstreamStep::ParseConversation => "Failed to parse conversation response: "@,
        UpstreamStep::SendMessage => "Failed to send message: "@,
        UpstreamStep::ParseMessage => "Failed to parse message response: "@,
        UpstreamStep::PollStream => "Failed to poll stream: "@,
        UpstreamStep::FetchModels => "Failed to fetch models: "@,
        UpstreamStep::ParseInit => "Failed to parse init response: "@,
    }
}

/// The upstream error that reports the failure of `step`, with `detail`:
/// the transport error, the body of a failed response, or the parse error.
pub fn upstream_failure(step: UpstreamStep, detail: &str) -> (e: AppError)
    ensures
        e matches AppError::UpstreamError(m) && m@ == step_prefix(step) + detail@,
{
    let prefix = match step {
        UpstreamStep::CreateConversation => "Failed to create conversation: ",
        UpstreamStep::ParseConversation => "Failed to parse conversation response: ",
        UpstreamStep::SendMessage => "Failed to send message: ",
        UpstreamStep::ParseMessage => "Failed to parse message response: ",
        UpstreamStep::PollStream => "Failed to poll stream: ",
        UpstreamStep::FetchModels => "Failed to fetch models: ",
        UpstreamStep::ParseInit => "Failed to parse init response: ",
    };
    AppError::UpstreamError(concat_str(prefix, detail))
}

/// A model that Kagi offers.
#[derive(Debug, Clone, PartialEq)]
pub struct KagiModel {
    pub id: String,
    pub provider: Option<String>,
    pub provider_label: Option<String>,
    pub display_name: Option<String>,
    pub context_window: Option<u64>,
    pub supported: Option<bool>,
    pub deprecated: Option<bool>,
    pub retired: Option<bool>,
}

/// A model is offered when it is marked supported and is marked neither
/// deprecated nor retired (a missing mark counts as `false`).
pub open spec fn is_offered(m: KagiModel) -> bool {
    m.supported == Some(true) && m.deprecated != Some(true) && m.retired != Some(true)
}

/// The offered models among `models`, in their order.
pub open spec fn offered(models: Seq<KagiModel>) -> Seq<KagiModel> {
    models.filter(|m: KagiModel| is_offered(m))
}

/// Whether `m` is offered.
pub fn model_is_offered(m: &KagiModel) -> (b: bool)
    ensures
        b == is_offered(*m),
{
    let supported = match m.supported {
        Some(b) => b,
        None => false,
    };
    let deprecated = match m.deprecated {
        Some(b) => b,
        None => false,
    };
    let retired = match m.retired {
        Some(b) => b,
        None => false,
    };
    supported && !deprecated && !retired
}

/// The offered models among `models`, in their order.
pub fn offered_models(models: Vec<KagiModel>) -> (r: Vec<KagiModel>)
    ensures
        r@ == offered(models@),
{
    let ghost pred = |m: KagiModel| is_offered(m);
    let mut r: Vec<KagiModel> = Vec::new();
    for m in it: models
        invariant
            it.seq() == models@,
            pred == (|m: KagiModel| is_offered(m)),
            r@ == it.seq().take(it.index() as int).filter(pred),
    {
        let ghost i = it.index();
        let ghost before = r@;
        proof {
            assert(m == models@[i as int]);
            assert(models@.take(i + 1).drop_last() =~= models@.take(i as int));
            assert(models@.take(i + 1).last() == m);
            assert(pred(m) == is_offered(m));
            assert(before == models@.take(i as int).filter(pred));
            reveal_with_fuel(Seq::<KagiModel>::filter, 1);
            assert(models@.take(i + 1).filter(pred) == (if pred(m) {
                models@.take(i as int).filter(pred).push(m)
            } else {
                models@.take(i as int).filter(pred)
            }));
        }
        if model_is_offered(&m) {
            r.push(m);
        }
        assert(r@ == models@.take(i + 1).filter(pred));
    }
    proof {
        assert(models@.take(models@.len() as int) =~= models@);
    }
    r
}

/// Filtering keeps a sequence whose items all pass.
proof fn lemma_filter_keeps_passing(s: Seq<KagiModel>, pred: spec_fn(KagiModel) -> bool)
    requires
        forall|i: int| 0 <= i < s.len() ==> pred(#[trigger] s[i]),
    ensures
        s.filter(pred) == s,
    decreases s.len(),
{
    reveal_with_fuel(Seq::<KagiModel>::filter, 1);
    if s.len() > 0 {
        lemma_filter_keeps_passing(s.drop_last(), pred);
        assert(s.drop_last().push(s.last()) =~= s);
    } else {
        assert(s.filter(pred) =~= s);
    }
}

/// Every model the client offers is offered, and picking the offered
/// models again changes nothing.
pub proof fn lemma_offered_models_stable(models: Seq<KagiModel>)
    ensures
        forall|i: int| 0 <= i < offered(models).len() ==> is_offered(#[trigger] offered(models)[i]),
        offered(offered(models)) == offered(models),
{
    let pred = |m: KagiModel| is_offered(m);
    let f = models.filter(pred);
    assert forall|i: int| 0 <= i < f.len() implies pred(#[trigger] f[i]) by {
        models.lemma_filter_pred(pred, i);
    }
    lemma_filter_keeps_passing(f, pred);
}

/// The models the client offers are exactly the listed ones that are
/// supported, not deprecated and not retired: every offered model is such a
/// model of the list, and every such model of the list is offered.
pub proof fn lemma_offered_models_exact(models: Seq<KagiModel>)
    ensures
        forall|i: int|
            0 <= i < offered(models).len() ==> {
                let m = #[trigger] offered(models)[i];
                &&& m.supported == Some(true)
                &&& m.deprecated != Some(true)
                &&& m.retired != Some(true)
                &&& models.contains(m)
            },
        forall|i: int|
            0 <= i < models.len() && (#[trigger] models[i]).supported == Some(true)
                && models[i].deprecated != Some(true) && models[i].retired != Some(true)
                ==> offered(models).contains(models[i]),
        forall|i: int|
            0 <= i < models.len() && !((#[trigger] models[i]).supported == Some(true)
                && models[i].deprecated != Some(true) && models[i].retired != Some(true))
                ==> !offered(models).contains(models[i]),
{
    let pred = |m: KagiModel| is_offered(m);
    let f = models.filter(pred);
    assert forall|i: int| 0 <= i < f.len() implies {
        let m = #[trigger] f[i];
        &&& m.supported == Some(true)
        &&& m.deprecated != Some(true)
        &&& m.retired != Some(true)
        &&& models.contains(m)
    } by {
        models.lemma_filter_pred(pred, i);
        assert(f.contains(f[i]));
        models.lemma_filter_contains_rev(pred, f[i]);
    }
    assert forall|i: int|
        0 <= i < models.len() && (#[trigger] models[i]).supported == Some(true)
            && models[i].deprecated != Some(true) && models[i].retired != Some(true)
            implies f.contains(models[i]) by {
        models.lemma_filter_contains(pred, i);
    }
    assert forall|i: int|
        0 <= i < models.len() && !((#[trigger] models[i]).supported == Some(true)
            && models[i].deprecated != Some(true) && models[i].retired != Some(true))
            implies !f.contains(models[i]) by {
        if f.contains(models[i]) {
            let j = choose|j: int| 0 <= j < f.len() && f[j] == models[i];
            models.lemma_filter_pred(pred, j);
        }
    }
}

/// An event of Kagi's message stream, holding the fields the client reads
/// where they have the expected JSON type: `html_content` and `text` as
/// strings, `is_final` as a boolean, `cursor` as an unsigned integer.
#[derive(Debug, Clone, PartialEq)]
pub struct StreamEvent {
    pub html_content: Option<String>,
    pub text: Option<String>,
    pub is_final: Option<bool>,
    pub cursor: Option<u64>,
}

/// The plain text of `field`, when it is present, not empty, and keeps some
/// text once its HTML is stripped.
pub open spec fn stripped_field(field: Option<String>) -> Option<Seq<char>> {
    match field {
        Some(h) => if h@.len() > 0 && strip_html_spec(h@).len() > 0 {
            Some(strip_html_spec(h@))
        } else {
            None
        },
        None => None,
    }
}

/// The text an event carries: that of its HTML content, else that of its
/// text.
pub open spec fn event_content(e: StreamEvent) -> Option<Seq<char>> {
    match stripped_field(e.html_content) {
        Some(c) => Some(c),
        None => stripped_field(e.text),
    }
}

/// The plain text of a field: that of its HTML, when the stripping leaves
/// some text.
pub open spec fn plain_text_of(field: Option<String>) -> Option<Seq<char>> {
    match field {
        Some(h) => if strip_html_spec(h@).len() > 0 {
            Some(strip_html_spec(h@))
        } else {
            None
        },
        None => None,
    }
}

/// An event carries the plain text of its HTML content when that leaves
/// some text, and otherwise, whether the HTML content is missing, empty or
/// all markup, the plain text of its `text` field; it carries nothing only
/// when neither field leaves any text.
pub proof fn lemma_event_content_fallback(e: StreamEvent)
    ensures
        plain_text_of(e.html_content) is Some ==> event_content(e) == plain_text_of(e.html_content),
        plain_text_of(e.html_content) is None ==> event_content(e) == plain_text_of(e.text),
        e.html_content is None ==> event_content(e) == plain_text_of(e.text),
        event_content(e) is None <==> (plain_text_of(e.html_content) is None && plain_text_of(
            e.text,
        ) is None),
{
    lemma_strip_html_empty();
    if let Some(h) = e.html_content {
        if h@.len() == 0 {
            assert(h@ =~= Seq::<char>::empty());
        }
    }
    if let Some(t) = e.text {
        if t@.len() == 0 {
            assert(t@ =~= Seq::<char>::empty());
        }
    }
}

fn stripped_field_exec(field: &Option<String>) -> (r: Option<String>)
    ensures
        r.deep_view() == stripped_field(*field),
{
    match field {
        Some(h) => {
            if h.as_str().is_empty() {
                return None;
            }
            let s = strip_html(h.as_str());
            if s.as_str().is_empty() {
                None
            } else {
                Some(s)
            }
        },
        None => None,
    }
}

/// The text that `event` carries.
pub fn extract_stream_content(event: &StreamEvent) -> (r: Option<String>)
    ensures
        r.deep_view() == event_content(*event),
{
    match stripped_field_exec(&event.html_content) {
        Some(c) => Some(c),
        None => stripped_field_exec(&event.text),
    }
}

/// The content of the last message of `req`, or nothing when it has none.
pub fn last_message_content(req: &ChatCompletionRequest) -> (s: String)
    ensures
        s@ == (if req.messages@.len() > 0 {
            req.messages@.last().content@
        } else {
            Seq::<char>::empty()
        }),
{
    let n = req.messages.len();
    if n == 0 {
        String::new()
    } else {
        req.messages[n - 1].content.clone()
    }
}

/// The completion that answers with `content`: one assistant message that
/// stops, and no tokens counted.
pub fn assistant_completion(model: String, content: String) -> (r: ChatCompletionResponse)
    ensures
        is_completion_stamp(r.id@, r.created),
        r.object@ == "chat.completion"@,
        r.model == model,
        r.choices@.len() == 1,
        r.choices@[0].index == 0,
        r.choices@[0].message.role@ == "assistant"@,
        r.choices@[0].message.content == content,
        r.choices@[0].message.name is None,
        r.choices@[0].message.tool_calls is None,
        r.choices@[0].finish_reason.deep_view() == Some("stop"@),
        r.usage == (CompletionUsage { prompt_tokens: 0, completion_tokens: 0, total_tokens: 0 }),
        r.system_fingerprint is None,
{
    let message = ChatMessage {
        role: "assistant".to_owned(),
        content,
        name: None,
        tool_calls: None,
    };
    let mut choices = Vec::new();
    choices.push(Choice::new(message, Some("stop")));
    ChatCompletionResponse::new(model, choices, CompletionUsage::zero())
}

} // verus!
