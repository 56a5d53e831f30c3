//! The provider client: configuration of LLM providers, and the sans-I/O
//! normalization of four vendor wire protocols into one
//! `complete(model, messages, json mode, schema?) -> text` contract.
//!
//! The client builds the full HTTP request (URL, headers, body) and decides on
//! each response; a thin driver performs the POST. The one automatic retry in
//! the system lives here: when a provider rejects the structured
//! response-format field, the call is retried exactly once with that field
//! stripped.

use vstd::prelude::*;
use crate::json::{json_quoted, push_json_quoted, push_str_chars, push_all};
use crate::lang::Language;
use crate::text::{contains_spec, contains_chars, strip_suffix_rep, strip_suffix_rep_chars,
    str_to_chars, string_from_chars, str_eq};
use vstd::string::StringExecFns;

verus! {

/// The vendor wire protocol a provider speaks.
#[derive(Clone, Copy, PartialEq, Eq, Structural, Debug)]
pub enum ApiType {
    OpenAI,
    Ollama,
    Claude,
    Gemini,
}

/// How far a provider's structured-output negotiation goes: no JSON mode at
/// all, a plain JSON-object mode, or a strict schema mode.
#[derive(Clone, Copy, PartialEq, Eq, Structural, Debug)]
pub enum JsonModeType {
    Unsupported,
    JsonObject,
    JsonSchema,
}

/// One configured provider.
pub struct LlmProviderConfig {
    pub id: String,
    pub base_url: Option<String>,
    pub api_key: Option<String>,
    pub api_type: ApiType,
    pub json_mode_type: JsonModeType,
}

impl LlmProviderConfig {
    pub fn clone_cfg(&self) -> (r: LlmProviderConfig)
        ensures
            r.id@ == self.id@,
            r.base_url is Some <==> self.base_url is Some,
            r.base_url is Some ==> r.base_url->Some_0@ == self.base_url->Some_0@,
            r.api_key is Some <==> self.api_key is Some,
            r.api_key is Some ==> r.api_key->Some_0@ == self.api_key->Some_0@,
            r.api_type == self.api_type,
            r.json_mode_type == self.json_mode_type,
    {
        LlmProviderConfig {
            id: self.id.clone(),
            base_url: match &self.base_url {
                Some(u) => Some(u.clone()),
                None => None,
            },
            api_key: match &self.api_key {
                Some(k) => Some(k.clone()),
                None => None,
            },
            api_type: self.api_type,
            json_mode_type: self.json_mode_type,
        }
    }
}

/// The configured providers.
pub struct LlmConfig {
    pub providers: Vec<LlmProviderConfig>,
}

/// The transcription models configured per language.
pub struct TranscriptionConfig {
    pub models: Vec<(Language, String)>,
}

/// The application configuration the pipeline reads.
pub struct AppConfig {
    pub transcription: TranscriptionConfig,
    pub llm: LlmConfig,
}

/// One chat message.
pub struct Message {
    pub role: String,
    pub content: String,
}

/// Index of the first provider with the given id.
pub open spec fn spec_find_provider(ps: Seq<LlmProviderConfig>, id: Seq<char>) -> Option<int>
    decreases ps.len(),
{
    if ps.len() == 0 {
        None
    } else if ps.first().id@ == id {
        Some(0)
    } else {
        match spec_find_provider(ps.drop_first(), id) {
            Some(i) => Some(i + 1),
            None => None,
        }
    }
}

/// Looks a provider up by id.
pub fn find_provider(ps: &Vec<LlmProviderConfig>, id: &str) -> (r: Option<usize>)
    ensures
        match r {
            Some(i) => spec_find_provider(ps@, id@) == Some(i as int) && i < ps@.len()
                && ps@[i as int].id@ == id@,
            None => spec_find_provider(ps@, id@) is None,
        },
{
    let mut i: usize = 0;
    proof {
        assert(ps@.skip(0) =~= ps@);
    }
    while i < ps.len()
        invariant
            0 <= i <= ps@.len(),
            spec_find_provider(ps@, id@) == match spec_find_provider(ps@.skip(i as int), id@) {
                Some(k) => Some(k + i),
                None => None::<int>,
            },
        decreases ps@.len() - i,
    {
        proof {
            let tail = ps@.skip(i as int);
            assert(tail.first() == ps@[i as int]);
            assert(tail.drop_first() =~= ps@.skip(i + 1 as int));
        }
        if str_eq(ps[i].id.as_str(), id) {
            return Some(i);
        }
        i = i + 1;
    }
    proof {
        assert(ps@.skip(ps@.len() as int) =~= Seq::<LlmProviderConfig>::empty());
    }
    None
}

/// How a `provider/model` reference splits: at the first slash, or the whole
/// reference with the model `default`.
pub open spec fn spec_split_model(s: Seq<char>) -> (Seq<char>, Seq<char>) {
    let k = crate::codec::find_char(s, '/');
    if k < s.len() {
        (s.take(k), s.skip(k + 1))
    } else {
        (s, "default"@)
    }
}

/// Splits a `provider/model` reference into provider id and model name.
pub fn split_model(s: &str) -> (r: (String, String))
    ensures
        r.0@ == spec_split_model(s@).0,
        r.1@ == spec_split_model(s@).1,
{
    let chars = str_to_chars(s);
    let k = crate::codec::find_char_from(&chars, '/', 0);
    proof {
        assert(chars@.skip(0) =~= chars@);
    }
    if k < chars.len() {
        let a = crate::text::subrange_chars(&chars, 0, k);
        let b = crate::text::subrange_chars(&chars, k + 1, chars.len());
        proof {
            assert(a@ =~= s@.take(k as int));
            assert(b@ =~= s@.skip(k + 1 as int));
        }
        (string_from_chars(&a), string_from_chars(&b))
    } else {
        (string_from_chars(&chars), String::from_str("default"))
    }
}

/// A fully built HTTP request for the driver to send.
pub struct HttpRequest {
    pub url: String,
    pub headers: Vec<(String, String)>,
    pub body: String,
}

/// An error of the provider client.
pub enum ClientError {
    /// A non-2xx reply after any permitted retry; carries the error body.
    Api(String),
    /// A 2xx reply whose envelope held no content text.
    Envelope,
    /// The vendor requires an API key and none is configured.
    MissingApiKey,
}

/// One message as a JSON object.
pub open spec fn message_obj(m: Message) -> Seq<char> {
    "{\"role\":"@ + json_quoted(m.role@) + ",\"content\":"@ + json_quoted(m.content@) + "}"@
}

pub open spec fn messages_objs(ms: Seq<Message>) -> Seq<char>
    decreases ms.len(),
{
    if ms.len() == 0 {
        Seq::empty()
    } else if ms.len() == 1 {
        message_obj(ms[0])
    } else {
        messages_objs(ms.drop_last()) + ","@ + message_obj(ms.last())
    }
}

/// The messages as a JSON array.
pub open spec fn messages_json(ms: Seq<Message>) -> Seq<char> {
    "["@ + messages_objs(ms) + "]"@
}

fn push_message_obj(out: &mut Vec<char>, m: &Message)
    ensures
        final(out)@ == old(out)@ + message_obj(*m),
{
    push_str_chars(out, "{\"role\":");
    let r = str_to_chars(m.role.as_str());
    push_json_quoted(out, &r);
    push_str_chars(out, ",\"content\":");
    let c = str_to_chars(m.content.as_str());
    push_json_quoted(out, &c);
    push_str_chars(out, "}");
    proof {
        assert(out@ =~= old(out)@ + message_obj(*m));
    }
}

fn push_messages_json(out: &mut Vec<char>, ms: &Vec<Message>)
    ensures
        final(out)@ == old(out)@ + messages_json(ms@),
{
    push_str_chars(out, "[");
    let mut i: usize = 0;
    while i < ms.len()
        invariant
            0 <= i <= ms@.len(),
            out@ == old(out)@ + "["@ + messages_objs(ms@.take(i as int)),
        decreases ms@.len() - i,
    {
        proof {
            assert(ms@.take(i + 1 as int).drop_last() =~= ms@.take(i as int));
            assert(ms@.take(i + 1 as int).last() == ms@[i as int]);
        }
        if i > 0 {
            push_str_chars(out, ",");
            proof {
                assert(out@ =~= old(out)@ + "["@ + (messages_objs(ms@.take(i as int)) + ","@));
            }
        }
        push_message_obj(out, &ms[i]);
        proof {
            assert(out@ =~= old(out)@ + "["@ + messages_objs(ms@.take(i + 1 as int)));
        }
        i = i + 1;
    }
    push_str_chars(out, "]");
    proof {
        assert(ms@.take(ms@.len() as int) =~= ms@);
        assert(out@ =~= old(out)@ + messages_json(ms@));
    }
}

/// The configured base URL, as text.
pub open spec fn base_url_view(p: LlmProviderConfig) -> Option<Seq<char>> {
    match p.base_url {
        Some(u) => Some(u@),
        None => None,
    }
}

/// The configured API key, as text.
pub open spec fn api_key_view(p: LlmProviderConfig) -> Option<Seq<char>> {
    match p.api_key {
        Some(k) => Some(k@),
        None => None,
    }
}

/// A base URL with trailing slashes removed.
pub open spec fn trim_slashes(s: Seq<char>) -> Seq<char> {
    strip_suffix_rep(s, seq!['/'])
}

fn trim_slashes_exec(s: &str) -> (r: Vec<char>)
    ensures
        r@ == trim_slashes(s@),
{
    let chars = str_to_chars(s);
    let pat: Vec<char> = vec!['/'];
    proof {
        assert(pat@ =~= seq!['/']);
    }
    strip_suffix_rep_chars(&chars, &pat)
}

/// The chat-completions URL of an OpenAI-compatible provider.
pub open spec fn openai_url(api: ApiType, base: Option<Seq<char>>) -> Seq<char> {
    match base {
        Some(u) => trim_slashes(u) + "/v1/chat/completions"@,
        None => if api is Ollama {
            "http://localhost:11434/v1/chat/completions"@
        } else {
            "https://api.openai.com/v1/chat/completions"@
        },
    }
}

/// The URL of a provider that speaks the messages protocol.
pub open spec fn claude_url(base: Option<Seq<char>>) -> Seq<char> {
    match base {
        Some(u) => trim_slashes(u) + "/v1/messages"@,
        None => "https://api.anthropic.com/v1/messages"@,
    }
}

/// The generate-content URL of a Gemini-style provider: the key travels in
/// the URL.
pub open spec fn gemini_url(base: Option<Seq<char>>, model: Seq<char>, key: Seq<char>) -> Seq<
    char,
> {
    (match base {
        Some(u) => trim_slashes(u),
        None => "https://generativelanguage.googleapis.com"@,
    }) + "/v1beta/models/"@ + model + ":generateContent?key="@ + key
}

/// What a JSON-mode request adds to an OpenAI-compatible body. With
/// `include_rf` false — the bounded retry — the `response_format` field is
/// stripped; the plain Ollama `format` field is no such field and stays.
pub open spec fn openai_extra(
    api: ApiType,
    jmt: JsonModeType,
    json_mode: bool,
    schema: Option<Seq<char>>,
    include_rf: bool,
) -> Seq<char> {
    if !json_mode {
        Seq::empty()
    } else {
        match jmt {
            JsonModeType::Unsupported => Seq::empty(),
            JsonModeType::JsonObject => if api is Ollama {
                ",\"format\":\"json\""@
            } else if include_rf {
                ",\"response_format\":{\"type\":\"json_object\"}"@
            } else {
                Seq::empty()
            },
            JsonModeType::JsonSchema => if include_rf {
                match schema {
                    Some(sch) =>
                        ",\"response_format\":{\"type\":\"json_schema\",\"json_schema\":{\"name\":\"response\",\"strict\":true,\"schema\":"@
                        + sch + "}}"@,
                    None => ",\"response_format\":{\"type\":\"json_object\"}"@,
                }
            } else {
                Seq::empty()
            },
        }
    }
}

/// An OpenAI-compatible chat body.
pub open spec fn openai_body(model: Seq<char>, ms: Seq<Message>, extra: Seq<char>) -> Seq<char> {
    "{\"model\":"@ + json_quoted(model) + ",\"messages\":"@ + messages_json(ms) + extra + "}"@
}

/// A messages-protocol body, with the fixed max-token ceiling.
pub open spec fn claude_body(model: Seq<char>, ms: Seq<Message>) -> Seq<char> {
    "{\"model\":"@ + json_quoted(model) + ",\"messages\":"@ + messages_json(ms)
        + ",\"max_tokens\":4096}"@
}

/// The Gemini role a chat role maps to: `user` stays, everything else becomes
/// `model`.
pub open spec fn gemini_role(r: Seq<char>) -> Seq<char> {
    if r == "user"@ {
        "user"@
    } else {
        "model"@
    }
}

/// One message as a Gemini content object.
pub open spec fn gemini_obj(m: Message) -> Seq<char> {
    "{\"role\":"@ + json_quoted(gemini_role(m.role@)) + ",\"parts\":[{\"text\":"@ + json_quoted(
        m.content@,
    ) + "}]}"@
}

pub open spec fn gemini_objs(ms: Seq<Message>) -> Seq<char>
    decreases ms.len(),
{
    if ms.len() == 0 {
        Seq::empty()
    } else if ms.len() == 1 {
        gemini_obj(ms[0])
    } else {
        gemini_objs(ms.drop_last()) + ","@ + gemini_obj(ms.last())
    }
}

/// A Gemini-style body; `gen` asks for a JSON response MIME type.
pub open spec fn gemini_body(ms: Seq<Message>, gen: bool) -> Seq<char> {
    "{\"contents\":["@ + gemini_objs(ms) + "]"@ + (if gen {
        ",\"generationConfig\":{\"responseMimeType\":\"application/json\"}"@
    } else {
        Seq::empty()
    }) + "}"@
}

fn push_gemini_obj(out: &mut Vec<char>, m: &Message)
    ensures
        final(out)@ == old(out)@ + gemini_obj(*m),
{
    push_str_chars(out, "{\"role\":");
    let role: Vec<char> = if str_eq(m.role.as_str(), "user") {
        str_to_chars("user")
    } else {
        str_to_chars("model")
    };
    push_json_quoted(out, &role);
    push_str_chars(out, ",\"parts\":[{\"text\":");
    let c = str_to_chars(m.content.as_str());
    push_json_quoted(out, &c);
    push_str_chars(out, "}]}");
    proof {
        assert(out@ =~= old(out)@ + gemini_obj(*m));
    }
}

/// The provider client. It holds no mutable state beyond its configuration;
/// each call is independent.
pub struct LlmClient {
    pub provider: LlmProviderConfig,
}

/// One chat call, ready to be rendered as an HTTP request and to judge the
/// response.
pub struct ChatCall {
    pub provider: LlmProviderConfig,
    pub model: String,
    pub messages: Vec<Message>,
    pub json_mode: bool,
    pub schema: Option<String>,
}

/// The schema text of a call, if any.
pub open spec fn schema_view(c: ChatCall) -> Option<Seq<char>> {
    match c.schema {
        Some(s) => Some(s@),
        None => None,
    }
}

/// What the client decides on one HTTP response.
pub enum ChatResult {
    /// A 2xx response whose envelope yielded the content text.
    Done(String),
    /// The one bounded retry: send again with the response-format field
    /// stripped.
    RetryWithoutFormat,
    /// A fatal transport or envelope error.
    Fail(ClientError),
}

/// Whether an error reply triggers the single negotiation retry: only on the
/// first attempt, only for OpenAI-compatible providers, and only when the
/// error text names both `response_format` and `json_schema`.
pub open spec fn retry_applies(
    api: ApiType,
    already_retried: bool,
    status: u16,
    body: Seq<char>,
) -> bool {
    &&& !spec_status_ok(status)
    &&& !already_retried
    &&& (api is OpenAI || api is Ollama)
    &&& contains_spec(body, "response_format"@)
    &&& contains_spec(body, "json_schema"@)
}

/// A 2xx status.
pub open spec fn spec_status_ok(status: u16) -> bool {
    200 <= status < 300
}

/// The content that a vendor's reply envelope carries, by protocol.
pub open spec fn envelope_content(api: ApiType, body: Seq<char>) -> Option<Seq<char>> {
    match api {
        ApiType::OpenAI => openai_content_of(body),
        ApiType::Ollama => openai_content_of(body),
        ApiType::Claude => claude_content_of(body),
        ApiType::Gemini => gemini_content_of(body),
    }
}

/// The string at `choices[0].message.content` of an OpenAI-compatible reply
/// body, when the body parses as JSON and that path holds a string.
pub uninterp spec fn openai_content_of(body: Seq<char>) -> Option<Seq<char>>;

/// The string at `content[0].text` of a messages-protocol reply body.
pub uninterp spec fn claude_content_of(body: Seq<char>) -> Option<Seq<char>>;

/// The string at `candidates[0].content.parts[0].text` of a Gemini-style
/// reply body.
pub uninterp spec fn gemini_content_of(body: Seq<char>) -> Option<Seq<char>>;

/// Relies on serde_json's `from_str`, `Value::get` and `Value::as_str`: reads
/// the string at `choices[0].message.content`; the result is a function of
/// the body text alone.
#[verifier::external_body]
fn extract_openai_content(body: &str) -> (r: Option<String>)
    ensures
        r is Some <==> openai_content_of(body@) is Some,
        r is Some ==> r->Some_0@ == openai_content_of(body@)->Some_0,
{
    match serde_json::from_str::<serde_json::Value>(body) {
        Ok(v) => v
            .get("choices")
            .and_then(|c| c.get(0))
            .and_then(|c| c.get("message"))
            .and_then(|m| m.get("content"))
            .and_then(|c| c.as_str())
            .map(|s| s.to_string()),
        Err(_) => None,
    }
}

/// Relies on serde_json's `from_str`, `Value::get` and `Value::as_str`: reads
/// the string at `content[0].text`; the result is a function of the body text
/// alone.
#[verifier::external_body]
fn extract_claude_content(body: &str) -> (r: Option<String>)
    ensures
        r is Some <==> claude_content_of(body@) is Some,
        r is Some ==> r->Some_0@ == claude_content_of(body@)->Some_0,
{
    match serde_json::from_str::<serde_json::Value>(body) {
        Ok(v) => v
            .get("content")
            .and_then(|c| c.get(0))
            .and_then(|c| c.get("text"))
            .and_then(|c| c.as_str())
            .map(|s| s.to_string()),
        Err(_) => None,
    }
}

/// Relies on serde_json's `from_str`, `Value::get` and `Value::as_str`: reads
/// the string at `candidates[0].content.parts[0].text`; the result is a
/// function of the body text alone.
#[verifier::external_body]
fn extract_gemini_content(body: &str) -> (r: Option<String>)
    ensures
        r is Some <==> gemini_content_of(body@) is Some,
        r is Some ==> r->Some_0@ == gemini_content_of(body@)->Some_0,
{
    match serde_json::from_str::<serde_json::Value>(body) {
        Ok(v) => v
            .get("candidates")
            .and_then(|c| c.get(0))
            .and_then(|c| c.get("content"))
            .and_then(|c| c.get("parts"))
            .and_then(|p| p.get(0))
            .and_then(|p| p.get("text"))
            .and_then(|c| c.as_str())
            .map(|s| s.to_string()),
        Err(_) => None,
    }
}

impl LlmClient {
    pub fn new(provider: LlmProviderConfig) -> (r: Self)
        ensures
            r.provider == provider,
    {
        LlmClient { provider }
    }

    /// Prepares one chat call against this client's provider.
    pub fn begin(
        &self,
        model: String,
        messages: Vec<Message>,
        json_mode: bool,
        schema: Option<String>,
    ) -> (r: ChatCall)
        ensures
            r.provider.id@ == self.provider.id@,
            base_url_view(r.provider) == base_url_view(self.provider),
            api_key_view(r.provider) == api_key_view(self.provider),
            r.provider.api_type == self.provider.api_type,
            r.provider.json_mode_type == self.provider.json_mode_type,
            r.model == model,
            r.messages == messages,
            r.json_mode == json_mode,
            r.schema == schema,
    {
        ChatCall { provider: self.provider.clone_cfg(), model, messages, json_mode, schema }
    }
}

impl ChatCall {
    /// Renders the call as an HTTP request; with `without_format` the
    /// response-format field is stripped, the form the bounded retry sends.
    /// Fails exactly when the vendor requires an API key in the URL and none
    /// is configured.
    pub fn request(&self, without_format: bool) -> (r: Result<HttpRequest, ClientError>)
        ensures
            match self.provider.api_type {
                ApiType::OpenAI | ApiType::Ollama => {
                    &&& r is Ok
                    &&& r->Ok_0.url@ == openai_url(
                        self.provider.api_type,
                        base_url_view(self.provider),
                    )
                    &&& r->Ok_0.body@ == openai_body(
                        self.model@,
                        self.messages@,
                        openai_extra(
                            self.provider.api_type,
                            self.provider.json_mode_type,
                            self.json_mode,
                            schema_view(*self),
                            !without_format,
                        ),
                    )
                    &&& match api_key_view(self.provider) {
                        Some(k) => r->Ok_0.headers@.len() == 1 && r->Ok_0.headers@[0].0@
                            == "Authorization"@ && r->Ok_0.headers@[0].1@ == "Bearer "@ + k,
                        None => r->Ok_0.headers@.len() == 0,
                    }
                },
                ApiType::Claude => {
                    &&& r is Ok
                    &&& r->Ok_0.url@ == claude_url(base_url_view(self.provider))
                    &&& r->Ok_0.body@ == claude_body(self.model@, self.messages@)
                    &&& r->Ok_0.headers@.len() == 2
                    &&& r->Ok_0.headers@[0].0@ == "x-api-key"@
                    &&& r->Ok_0.headers@[0].1@ == (match api_key_view(self.provider) {
                        Some(k) => k,
                        None => Seq::<char>::empty(),
                    })
                    &&& r->Ok_0.headers@[1].0@ == "anthropic-version"@
                    &&& r->Ok_0.headers@[1].1@ == "2023-06-01"@
                },
                ApiType::Gemini => {
                    match api_key_view(self.provider) {
                        Some(k) => {
                            &&& r is Ok
                            &&& r->Ok_0.url@ == gemini_url(
                                base_url_view(self.provider),
                                self.model@,
                                k,
                            )
                            &&& r->Ok_0.body@ == gemini_body(
                                self.messages@,
                                self.json_mode && !(self.provider.json_mode_type
                                    is Unsupported),
                            )
                            &&& r->Ok_0.headers@.len() == 0
                        },
                        None => r matches Err(ClientError::MissingApiKey),
                    }
                },
            },
    {
        match self.provider.api_type {
            ApiType::OpenAI | ApiType::Ollama => {
                let mut url: Vec<char> = Vec::new();
                match &self.provider.base_url {
                    Some(u) => {
                        let t = trim_slashes_exec(u.as_str());
                        push_all(&mut url, &t);
                        push_str_chars(&mut url, "/v1/chat/completions");
                    },
                    None => {
                        if matches!(self.provider.api_type, ApiType::Ollama) {
                            push_str_chars(&mut url, "http://localhost:11434/v1/chat/completions");
                        } else {
                            push_str_chars(&mut url, "https://api.openai.com/v1/chat/completions");
                        }
                    },
                }
                let mut body: Vec<char> = Vec::new();
                push_str_chars(&mut body, "{\"model\":");
                let model_chars = str_to_chars(self.model.as_str());
                push_json_quoted(&mut body, &model_chars);
                push_str_chars(&mut body, ",\"messages\":");
                push_messages_json(&mut body, &self.messages);
                if self.json_mode {
                    match self.provider.json_mode_type {
                        JsonModeType::Unsupported => {},
                        JsonModeType::JsonObject => {
                            if matches!(self.provider.api_type, ApiType::Ollama) {
                                push_str_chars(&mut body, ",\"format\":\"json\"");
                            } else if !without_format {
                                push_str_chars(
                                    &mut body,
                                    ",\"response_format\":{\"type\":\"json_object\"}",
                                );
                            }
                        },
                        JsonModeType::JsonSchema => {
                            if !without_format {
                                match &self.schema {
                                    Some(sch) => {
                                        push_str_chars(
                                            &mut body,
                                            ",\"response_format\":{\"type\":\"json_schema\",\"json_schema\":{\"name\":\"response\",\"strict\":true,\"schema\":",
                                        );
                                        push_str_chars(&mut body, sch.as_str());
                                        push_str_chars(&mut body, "}}");
                                    },
                                    None => {
                                        push_str_chars(
                                            &mut body,
                                            ",\"response_format\":{\"type\":\"json_object\"}",
                                        );
                                    },
                                }
                            }
                        },
                    }
                }
                push_str_chars(&mut body, "}");
                proof {
                    assert(body@ =~= openai_body(
                        self.model@,
                        self.messages@,
                        openai_extra(
                            self.provider.api_type,
                            self.provider.json_mode_type,
                            self.json_mode,
                            schema_view(*self),
                            !without_format,
                        ),
                    ));
                }
                let mut headers: Vec<(String, String)> = Vec::new();
                match &self.provider.api_key {
                    Some(k) => {
                        let mut hv: Vec<char> = Vec::new();
                        push_str_chars(&mut hv, "Bearer ");
                        let kc = str_to_chars(k.as_str());
                        push_all(&mut hv, &kc);
                        headers.push(
                            (String::from_str("Authorization"), string_from_chars(&hv)),
                        );
                    },
                    None => {},
                }
                Ok(
                    HttpRequest {
                        url: string_from_chars(&url),
                        headers,
                        body: string_from_chars(&body),
                    },
                )
            },
            ApiType::Claude => {
                let mut url: Vec<char> = Vec::new();
                match &self.provider.base_url {
                    Some(u) => {
                        let t = trim_slashes_exec(u.as_str());
                        push_all(&mut url, &t);
                        push_str_chars(&mut url, "/v1/messages");
                    },
                    None => {
                        push_str_chars(&mut url, "https://api.anthropic.com/v1/messages");
                    },
                }
                let mut body: Vec<char> = Vec::new();
                push_str_chars(&mut body, "{\"model\":");
                let model_chars = str_to_chars(self.model.as_str());
                push_json_quoted(&mut body, &model_chars);
                push_str_chars(&mut body, ",\"messages\":");
                push_messages_json(&mut body, &self.messages);
                push_str_chars(&mut body, ",\"max_tokens\":4096}");
                proof {
                    assert(body@ =~= claude_body(self.model@, self.messages@));
                }
                let key: String = match &self.provider.api_key {
                    Some(k) => k.clone(),
                    None => String::new(),
                };
                let mut headers: Vec<(String, String)> = Vec::new();
                headers.push((String::from_str("x-api-key"), key));
                headers.push(
                    (String::from_str("anthropic-version"), String::from_str("2023-06-01")),
                );
                Ok(
                    HttpRequest {
                        url: string_from_chars(&url),
                        headers,
                        body: string_from_chars(&body),
                    },
                )
            },
            ApiType::Gemini => {
                let key: String = match &self.provider.api_key {
                    Some(k) => k.clone(),
                    None => {
                        return Err(ClientError::MissingApiKey);
                    },
                };
                let mut url: Vec<char> = Vec::new();
                match &self.provider.base_url {
                    Some(u) => {
                        let t = trim_slashes_exec(u.as_str());
                        push_all(&mut url, &t);
                    },
                    None => {
                        push_str_chars(&mut url, "https://generativelanguage.googleapis.com");
                    },
                }
                push_str_chars(&mut url, "/v1beta/models/");
                let model_chars = str_to_chars(self.model.as_str());
                push_all(&mut url, &model_chars);
                push_str_chars(&mut url, ":generateContent?key=");
                let kc = str_to_chars(key.as_str());
                push_all(&mut url, &kc);
                let gen = self.json_mode && !matches!(
                    self.provider.json_mode_type,
                    JsonModeType::Unsupported,
                );
                let mut body: Vec<char> = Vec::new();
                push_str_chars(&mut body, "{\"contents\":[");
                let mut i: usize = 0;
                while i < self.messages.len()
                    invariant
                        0 <= i <= self.messages@.len(),
                        body@ == "{\"contents\":["@ + gemini_objs(self.messages@.take(i as int)),
                    decreases self.messages@.len() - i,
                {
                    proof {
                        assert(self.messages@.take(i + 1 as int).drop_last()
                            =~= self.messages@.take(i as int));
                        assert(self.messages@.take(i + 1 as int).last()
                            == self.messages@[i as int]);
                    }
                    if i > 0 {
                        push_str_chars(&mut body, ",");
                        proof {
                            assert(body@ =~= "{\"contents\":["@ + (gemini_objs(
                                self.messages@.take(i as int),
                            ) + ","@));
                        }
                    }
                    push_gemini_obj(&mut body, &self.messages[i]);
                    proof {
                        assert(body@ =~= "{\"contents\":["@ + gemini_objs(
                            self.messages@.take(i + 1 as int),
                        ));
                    }
                    i = i + 1;
                }
                push_str_chars(&mut body, "]");
                if gen {
                    push_str_chars(
                        &mut body,
                        ",\"generationConfig\":{\"responseMimeType\":\"application/json\"}",
                    );
                }
                push_str_chars(&mut body, "}");
                proof {
                    assert(self.messages@.take(self.messages@.len() as int)
                        =~= self.messages@);
                    assert(body@ =~= gemini_body(self.messages@, gen));
                    assert(url@ =~= gemini_url(
                        base_url_view(self.provider),
                        self.model@,
                        self.provider.api_key->Some_0@,
                    ));
                }
                let headers: Vec<(String, String)> = Vec::new();
                Ok(
                    HttpRequest {
                        url: string_from_chars(&url),
                        headers,
                        body: string_from_chars(&body),
                    },
                )
            },
        }
    }

    /// Decides on one HTTP response: a 2xx reply yields the envelope's
    /// content or an envelope error; an error reply yields the bounded retry
    /// exactly when `retry_applies`, else the fatal transport error. A call
    /// that has already retried is never asked to retry again.
    pub fn decide(&self, already_retried: bool, status: u16, body: &str) -> (r: ChatResult)
        ensures
            spec_status_ok(status) ==> match envelope_content(self.provider.api_type, body@) {
                Some(c) => r matches ChatResult::Done(s) && s@ == c,
                None => r matches ChatResult::Fail(ClientError::Envelope),
            },
            !spec_status_ok(status) && retry_applies(
                self.provider.api_type,
                already_retried,
                status,
                body@,
            ) ==> r is RetryWithoutFormat,
            !spec_status_ok(status) && !retry_applies(
                self.provider.api_type,
                already_retried,
                status,
                body@,
            ) ==> (r matches ChatResult::Fail(ClientError::Api(t)) && t@ == body@),
            already_retried ==> !(r is RetryWithoutFormat),
    {
        if 200 <= status && status < 300 {
            let content = match self.provider.api_type {
                ApiType::OpenAI | ApiType::Ollama => extract_openai_content(body),
                ApiType::Claude => extract_claude_content(body),
                ApiType::Gemini => extract_gemini_content(body),
            };
            match content {
                Some(c) => ChatResult::Done(c),
                None => ChatResult::Fail(ClientError::Envelope),
            }
        } else {
            let openai_like = matches!(self.provider.api_type, ApiType::OpenAI | ApiType::Ollama);
            if !already_retried && openai_like {
                let body_chars = str_to_chars(body);
                let p1 = str_to_chars("response_format");
                let p2 = str_to_chars("json_schema");
                if contains_chars(&body_chars, &p1) && contains_chars(&body_chars, &p2) {
                    return ChatResult::RetryWithoutFormat;
                }
            }
            ChatResult::Fail(ClientError::Api(body.to_owned()))
        }
    }
}

} // verus!

