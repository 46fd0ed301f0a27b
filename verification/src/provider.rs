use vstd::prelude::*;

use crate::text::{
    chars_of, is_blank, spec_contains, spec_is_blank, spec_starts_with, spec_trim, str_contains, str_eq,
    str_starts_with, string_of, trim,
};

verus! {

#[derive(Debug, Clone, PartialEq, Eq)]
pub enum ProviderError {
    Network(String),
    Auth(String),
    RateLimit(String),
    Timeout(String),
    MalformedResponse(String),
    Other(String),
    Offline,
    ConsentRequired,
}

impl ProviderError {
    /// The error as shown to the user.
    pub fn message(&self) -> (r: String)
        ensures
            r@ == match *self {
                ProviderError::Network(m) => "Network error: "@ + m@,
                ProviderError::Auth(m) => "Authentication failed: "@ + m@,
                ProviderError::RateLimit(m) => "Rate limited: "@ + m@,
                ProviderError::Timeout(m) => "Provider timed out: "@ + m@,
                ProviderError::MalformedResponse(m) => "Malformed provider response: "@ + m@,
                ProviderError::Other(m) => "Provider error: "@ + m@,
                ProviderError::Offline => "Offline mode is on; no Evidence leaves this machine"@,
                ProviderError::ConsentRequired => "Consent is required before sending this payload"@,
            },
    {
        match self {
            ProviderError::Network(m) => String::from_str("Network error: ").concat(m.as_str()),
            ProviderError::Auth(m) => String::from_str("Authentication failed: ").concat(m.as_str()),
            ProviderError::RateLimit(m) => String::from_str("Rate limited: ").concat(m.as_str()),
            ProviderError::Timeout(m) => String::from_str("Provider timed out: ").concat(m.as_str()),
            ProviderError::MalformedResponse(m) => String::from_str(
                "Malformed provider response: ",
            ).concat(m.as_str()),
            ProviderError::Other(m) => String::from_str("Provider error: ").concat(m.as_str()),
            ProviderError::Offline => String::from_str(
                "Offline mode is on; no Evidence leaves this machine",
            ),
            ProviderError::ConsentRequired => String::from_str(
                "Consent is required before sending this payload",
            ),
        }
    }
}

#[derive(Debug, Clone, Copy, PartialEq, Eq, Structural)]
pub enum ProviderKind {
    OpenAi,
    Xai,
    OpenRouter,
    OpenCodeFree,
    OpenCodeZen,
    OpenCodeGo,
    Ollama,
    Custom,
}

pub open spec fn kind_name(kind: ProviderKind) -> Seq<char> {
    match kind {
        ProviderKind::OpenAi => "open_ai"@,
        ProviderKind::Xai => "xai"@,
        ProviderKind::OpenRouter => "open_router"@,
        ProviderKind::OpenCodeFree => "open_code_free"@,
        ProviderKind::OpenCodeZen => "open_code_zen"@,
        ProviderKind::OpenCodeGo => "open_code_go"@,
        ProviderKind::Ollama => "ollama"@,
        ProviderKind::Custom => "custom"@,
    }
}

impl ProviderKind {
    pub fn as_str(self) -> (r: &'static str)
        ensures
            r@ == kind_name(self),
    {
        match self {
            ProviderKind::OpenAi => "open_ai",
            ProviderKind::Xai => "xai",
            ProviderKind::OpenRouter => "open_router",
            ProviderKind::OpenCodeFree => "open_code_free",
            ProviderKind::OpenCodeZen => "open_code_zen",
            ProviderKind::OpenCodeGo => "open_code_go",
            ProviderKind::Ollama => "ollama",
            ProviderKind::Custom => "custom",
        }
    }

    /// The kind whose stored name is `value`, if any.
    pub fn parse(value: &str) -> (r: Option<Self>)
        ensures
            match r {
                Some(k) => kind_name(k) == value@,
                None => forall|k: ProviderKind| kind_name(k) != value@,
            },
    {
        if str_eq(value, "open_ai") {
            Some(ProviderKind::OpenAi)
        } else if str_eq(value, "xai") {
            Some(ProviderKind::Xai)
        } else if str_eq(value, "open_router") {
            Some(ProviderKind::OpenRouter)
        } else if str_eq(value, "open_code_free") {
            Some(ProviderKind::OpenCodeFree)
        } else if str_eq(value, "open_code_zen") {
            Some(ProviderKind::OpenCodeZen)
        } else if str_eq(value, "open_code_go") {
            Some(ProviderKind::OpenCodeGo)
        } else if str_eq(value, "ollama") {
            Some(ProviderKind::Ollama)
        } else if str_eq(value, "custom") {
            Some(ProviderKind::Custom)
        } else {
            None
        }
    }
}

#[derive(Debug, Clone, Copy, PartialEq, Eq, Structural)]
pub enum ProviderProtocol {
    ChatCompletions,
    Responses,
    Messages,
}

pub open spec fn protocol_name(p: ProviderProtocol) -> Seq<char> {
    match p {
        ProviderProtocol::ChatCompletions => "chat_completions"@,
        ProviderProtocol::Responses => "responses"@,
        ProviderProtocol::Messages => "messages"@,
    }
}

/// Path of the protocol's endpoint below the base URL.
pub open spec fn protocol_path(p: ProviderProtocol) -> Seq<char> {
    match p {
        ProviderProtocol::ChatCompletions => "chat/completions"@,
        ProviderProtocol::Responses => "responses"@,
        ProviderProtocol::Messages => "messages"@,
    }
}

impl ProviderProtocol {
    pub fn as_str(self) -> (r: &'static str)
        ensures
            r@ == protocol_name(self),
    {
        match self {
            ProviderProtocol::ChatCompletions => "chat_completions",
            ProviderProtocol::Responses => "responses",
            ProviderProtocol::Messages => "messages",
        }
    }

    pub fn parse(value: &str) -> (r: Option<Self>)
        ensures
            match r {
                Some(p) => protocol_name(p) == value@,
                None => forall|p: ProviderProtocol| protocol_name(p) != value@,
            },
    {
        if str_eq(value, "chat_completions") {
            Some(ProviderProtocol::ChatCompletions)
        } else if str_eq(value, "responses") {
            Some(ProviderProtocol::Responses)
        } else if str_eq(value, "messages") {
            Some(ProviderProtocol::Messages)
        } else {
            None
        }
    }
}

#[derive(Debug, Clone, PartialEq, Eq)]
pub struct ProviderConnectionPreferences {
    pub id: String,
    pub name: String,
    pub provider: ProviderKind,
    pub base_url: String,
    pub model: String,
    pub protocol: ProviderProtocol,
    pub is_local: bool,
}

/// One chat message of a provider request.
#[derive(Debug, Clone, PartialEq, Eq)]
pub struct PayloadMessage {
    pub role: String,
    pub content: String,
}

/// The JSON body a provider request carries. Fields that are `None` are
/// absent from the body.
#[derive(Debug, Clone, PartialEq, Eq)]
pub struct ProviderPayload {
    pub model: String,
    pub max_tokens: Option<u32>,
    pub messages: Option<Vec<PayloadMessage>>,
    pub input: Option<String>,
}

/// The payload as plain values: model, max tokens, (role, content) messages, input.
pub struct PayloadView {
    pub model: Seq<char>,
    pub max_tokens: Option<u32>,
    pub messages: Option<Seq<(Seq<char>, Seq<char>)>>,
    pub input: Option<Seq<char>>,
}

impl View for ProviderPayload {
    type V = PayloadView;

    open spec fn view(&self) -> PayloadView {
        PayloadView {
            model: self.model@,
            max_tokens: self.max_tokens,
            messages: match self.messages {
                Some(m) => Some(m@.map_values(|x: PayloadMessage| (x.role@, x.content@))),
                None => None,
            },
            input: match self.input {
                Some(i) => Some(i@),
                None => None,
            },
        }
    }
}

/// The body for a protocol: chat completions and messages send one user
/// message (messages also caps the reply at 2048 tokens); responses send the
/// prompt as `input`.
pub open spec fn spec_payload(protocol: ProviderProtocol, model: Seq<char>, prompt: Seq<char>) -> PayloadView {
    match protocol {
        ProviderProtocol::ChatCompletions => PayloadView {
            model,
            max_tokens: None,
            messages: Some(seq![("user"@, prompt)]),
            input: None,
        },
        ProviderProtocol::Responses => PayloadView {
            model,
            max_tokens: None,
            messages: None,
            input: Some(prompt),
        },
        ProviderProtocol::Messages => PayloadView {
            model,
            max_tokens: Some(2048u32),
            messages: Some(seq![("user"@, prompt)]),
            input: None,
        },
    }
}

fn user_message(prompt: &str) -> (m: Vec<PayloadMessage>)
    ensures
        m@.map_values(|x: PayloadMessage| (x.role@, x.content@)) == seq![("user"@, prompt@)],
{
    let mut m: Vec<PayloadMessage> = Vec::new();
    m.push(PayloadMessage { role: String::from_str("user"), content: prompt.to_owned() });
    assert(m@.map_values(|x: PayloadMessage| (x.role@, x.content@)) =~= seq![("user"@, prompt@)]);
    m
}

pub fn payload_for(protocol: ProviderProtocol, model: &String, prompt: &str) -> (r: ProviderPayload)
    ensures
        r@ == spec_payload(protocol, model@, prompt@),
{
    match protocol {
        ProviderProtocol::ChatCompletions => ProviderPayload {
            model: model.clone(),
            max_tokens: None,
            messages: Some(user_message(prompt)),
            input: None,
        },
        ProviderProtocol::Responses => ProviderPayload {
            model: model.clone(),
            max_tokens: None,
            messages: None,
            input: Some(prompt.to_owned()),
        },
        ProviderProtocol::Messages => ProviderPayload {
            model: model.clone(),
            max_tokens: Some(2048),
            messages: Some(user_message(prompt)),
            input: None,
        },
    }
}

/// `s` without any trailing `/`.
pub open spec fn trim_trailing_slashes(s: Seq<char>) -> Seq<char>
    decreases s.len(),
{
    if s.len() > 0 && s.last() == '/' {
        trim_trailing_slashes(s.drop_last())
    } else {
        s
    }
}

pub fn without_trailing_slashes(s: &str) -> (r: String)
    ensures
        r@ == trim_trailing_slashes(s@),
{
    let v = chars_of(s);
    let mut k = v.len();
    assert(v@.subrange(0, v@.len() as int) =~= v@);
    while k > 0 && v[k - 1] == '/'
        invariant
            k <= v.len(),
            trim_trailing_slashes(v@) == trim_trailing_slashes(v@.subrange(0, k as int)),
        decreases k,
    {
        proof {
            assert(v@.subrange(0, k as int).drop_last() =~= v@.subrange(0, k - 1));
        }
        k = k - 1;
    }
    proof {
        assert(v@.subrange(0, v@.len() as int) =~= v@);
    }
    string_of(&v, 0, k)
}

/// Request settings of a provider connection; its API key stays private.
#[derive(Clone)]
pub struct NativeProvider {
    pub connection: ProviderConnectionPreferences,
    api_key: String,
    timeout_secs: u64,
}

impl NativeProvider {
    pub fn new(connection: ProviderConnectionPreferences, api_key: &str) -> (r: Self)
        ensures
            r.conn() == connection,
            r.api_key()@ == api_key@,
            r.timeout() == 45,
    {
        NativeProvider { connection, api_key: api_key.to_owned(), timeout_secs: 45 }
    }

    pub closed spec fn conn(&self) -> ProviderConnectionPreferences {
        self.connection
    }

    pub closed spec fn api_key(&self) -> String {
        self.api_key
    }

    pub closed spec fn timeout(&self) -> u64 {
        self.timeout_secs
    }

    pub fn with_timeout(self, timeout_secs: u64) -> (r: Self)
        ensures
            r.conn() == self.conn(),
            r.api_key() == self.api_key(),
            r.timeout() == timeout_secs,
    {
        NativeProvider { timeout_secs, ..self }
    }

    pub fn timeout_secs(&self) -> (r: u64)
        ensures
            r == self.timeout(),
    {
        self.timeout_secs
    }

    pub fn key(&self) -> (r: &String)
        ensures
            *r == self.api_key(),
    {
        &self.api_key
    }

    /// The request URL: the base URL without trailing slashes, `/`, and the
    /// protocol's path.
    pub fn endpoint(&self) -> (r: String)
        ensures
            r@ == trim_trailing_slashes(self.conn().base_url@) + "/"@ + protocol_path(
                self.conn().protocol,
            ),
    {
        let base = without_trailing_slashes(self.connection.base_url.as_str());
        let path = match self.connection.protocol {
            ProviderProtocol::ChatCompletions => "chat/completions",
            ProviderProtocol::Responses => "responses",
            ProviderProtocol::Messages => "messages",
        };
        base.concat("/").concat(path)
    }

    pub fn payload(&self, prompt: &str) -> (r: ProviderPayload)
        ensures
            r@ == spec_payload(self.conn().protocol, self.conn().model@, prompt@),
    {
        payload_for(self.connection.protocol, &self.connection.model, prompt)
    }

    /// Whether the request carries the key: only a non-empty key is sent,
    /// as a bearer token, and for the messages protocol also as `x-api-key`
    /// with `anthropic-version: 2023-06-01`.
    pub fn sends_key(&self) -> (r: (bool, bool))
        ensures
            r.0 == (self.api_key()@.len() > 0),
            r.1 == (self.api_key()@.len() > 0 && self.conn().protocol
                == ProviderProtocol::Messages),
    {
        let empty = self.api_key.as_str().is_empty();
        (!empty, !empty && self.connection.protocol == ProviderProtocol::Messages)
    }
}

/// How an HTTP reply is judged: 401 and 403 are authentication failures, 429
/// is rate limiting, any other non-2xx status is a provider error carrying the
/// body, and a 2xx reply is read for its text. `status_line` is the status as
/// HTTP displays it (code and reason).
pub fn classify_status(status: u16, status_line: &str, body: &str) -> (r: Result<(), ProviderError>)
    ensures
        (status == 401 || status == 403) ==> (r matches Err(ProviderError::Auth(m)) && m@ == "HTTP "@
            + status_line@),
        status == 429 ==> (r matches Err(ProviderError::RateLimit(m)) && m@ == "HTTP "@
            + status_line@),
        (status != 401 && status != 403 && status != 429 && !(200 <= status < 300)) ==> (r matches Err(
            ProviderError::Other(m),
        ) && m@ == "HTTP "@ + status_line@ + ": "@ + body@),
        (200 <= status < 300) ==> r is Ok,
{
    if status == 401 || status == 403 {
        Err(ProviderError::Auth(String::from_str("HTTP ").concat(status_line)))
    } else if status == 429 {
        Err(ProviderError::RateLimit(String::from_str("HTTP ").concat(status_line)))
    } else if !(200 <= status && status < 300) {
        Err(
            ProviderError::Other(
                String::from_str("HTTP ").concat(status_line).concat(": ").concat(body),
            ),
        )
    } else {
        Ok(())
    }
}

/// What `serde_json` finds in a JSON document at a JSON pointer: `Err` with
/// its message when the document does not parse, `Ok(None)` when the pointer
/// names no string, and the string otherwise.
pub uninterp spec fn json_text_at(document: Seq<char>, pointer: Seq<char>) -> Result<Option<Seq<char>>, Seq<char>>;

/// Parses `document` with `serde_json::from_str` into a `serde_json::Value`
/// and reads the string at `pointer` with `Value::pointer` and
/// `Value::as_str`. The contract claims only that the result is a function of
/// the two texts, named `json_text_at`.
#[verifier::external_body]
fn text_at_pointer(document: &str, pointer: &str) -> (r: Result<Option<String>, String>)
    ensures
        match r {
            Ok(Some(t)) => json_text_at(document@, pointer@) == Ok::<Option<Seq<char>>, Seq<char>>(Some(t@)),
            Ok(None) => json_text_at(document@, pointer@) == Ok::<Option<Seq<char>>, Seq<char>>(None),
            Err(m) => json_text_at(document@, pointer@) == Err::<Option<Seq<char>>, Seq<char>>(m@),
        },
{
    match serde_json::from_str::<serde_json::Value>(document) {
        Ok(value) => Ok(value.pointer(pointer).and_then(|v| v.as_str()).map(|t| t.to_owned())),
        Err(error) => Err(error.to_string()),
    }
}

/// Where each protocol's reply keeps its text.
pub open spec fn reply_pointer(protocol: ProviderProtocol) -> Seq<char> {
    match protocol {
        ProviderProtocol::ChatCompletions => "/choices/0/message/content"@,
        ProviderProtocol::Responses => "/output_text"@,
        ProviderProtocol::Messages => "/content/0/text"@,
    }
}

/// The text of a successful reply, from what was found at the protocol's
/// pointer (`primary`) and at the first output's first content text
/// (`fallback`, consulted for the responses protocol only): a body that does
/// not parse, or holds no text, is malformed.
pub open spec fn lookups_reply(
    protocol: ProviderProtocol,
    primary: Result<Option<Seq<char>>, Seq<char>>,
    fallback: Result<Option<Seq<char>>, Seq<char>>,
) -> Result<Seq<char>, ProviderErrorView> {
    match primary {
        Err(m) => Err(ProviderErrorView::Malformed(m)),
        Ok(Some(t)) => Ok(t),
        Ok(None) => if protocol == ProviderProtocol::Responses {
            match fallback {
                Ok(Some(t)) => Ok(t),
                _ => Err(ProviderErrorView::Malformed("response did not contain text output"@)),
            }
        } else {
            Err(ProviderErrorView::Malformed("response did not contain text output"@))
        },
    }
}

/// The pointer tried for the responses protocol when `output_text` is absent.
pub open spec fn fallback_pointer() -> Seq<char> {
    "/output/0/content/0/text"@
}

pub open spec fn spec_reply_text(protocol: ProviderProtocol, body: Seq<char>) -> Result<Seq<char>, ProviderErrorView> {
    lookups_reply(
        protocol,
        json_text_at(body, reply_pointer(protocol)),
        json_text_at(body, fallback_pointer()),
    )
}

/// A reading error as values.
pub enum ProviderErrorView {
    Malformed(Seq<char>),
}

pub open spec fn reply_matches(r: Result<String, ProviderError>, expected: Result<Seq<char>, ProviderErrorView>) -> bool {
    match expected {
        Ok(t) => r matches Ok(s) && s@ == t,
        Err(ProviderErrorView::Malformed(m)) => r matches Err(ProviderError::MalformedResponse(e)) && e@ == m,
    }
}

pub open spec fn lookup_view(l: Result<Option<String>, String>) -> Result<Option<Seq<char>>, Seq<char>> {
    match l {
        Ok(Some(t)) => Ok(Some(t@)),
        Ok(None) => Ok(None),
        Err(m) => Err(m@),
    }
}

/// The reply text from the two lookups in a reply body.
pub fn reply_from_lookups(
    protocol: ProviderProtocol,
    primary: Result<Option<String>, String>,
    fallback: Result<Option<String>, String>,
) -> (r: Result<String, ProviderError>)
    ensures
        reply_matches(r, lookups_reply(protocol, lookup_view(primary), lookup_view(fallback))),
{
    match primary {
        Err(m) => Err(ProviderError::MalformedResponse(m)),
        Ok(Some(t)) => Ok(t),
        Ok(None) => {
            if protocol == ProviderProtocol::Responses {
                match fallback {
                    Ok(Some(t)) => {
                        return Ok(t);
                    },
                    _ => {},
                }
            }
            Err(ProviderError::MalformedResponse(String::from_str("response did not contain text output")))
        },
    }
}

/// Reads the text out of a successful reply body.
pub fn reply_text(protocol: ProviderProtocol, body: &str) -> (r: Result<String, ProviderError>)
    ensures
        reply_matches(r, spec_reply_text(protocol, body@)),
{
    let pointer = match protocol {
        ProviderProtocol::ChatCompletions => "/choices/0/message/content",
        ProviderProtocol::Responses => "/output_text",
        ProviderProtocol::Messages => "/content/0/text",
    };
    let primary = text_at_pointer(body, pointer);
    let fallback = text_at_pointer(body, "/output/0/content/0/text");
    reply_from_lookups(protocol, primary, fallback)
}

/// What a provider's HTTP reply gives: the status is judged first, then a
/// successful body is read for its text.
pub fn read_reply(protocol: ProviderProtocol, status: u16, status_line: &str, body: &str) -> (r: Result<
    String,
    ProviderError,
>)
    ensures
        (status == 401 || status == 403) ==> (r matches Err(ProviderError::Auth(m)) && m@ == "HTTP "@
            + status_line@),
        status == 429 ==> (r matches Err(ProviderError::RateLimit(m)) && m@ == "HTTP "@
            + status_line@),
        (status != 401 && status != 403 && status != 429 && !(200 <= status < 300)) ==> (r matches Err(
            ProviderError::Other(m),
        ) && m@ == "HTTP "@ + status_line@ + ": "@ + body@),
        (200 <= status < 300) ==> reply_matches(r, spec_reply_text(protocol, body@)),
{
    match classify_status(status, status_line, body) {
        Err(e) => Err(e),
        Ok(()) => reply_text(protocol, body),
    }
}

/// A deterministic, offline provider that always replies with its canned text.
#[derive(Debug, Clone)]
pub struct FakeProvider {
    canned_response: String,
}

impl FakeProvider {
    pub fn new(canned_response: &str) -> (r: Self)
        ensures
            r.canned()@ == canned_response@,
    {
        FakeProvider { canned_response: canned_response.to_owned() }
    }

    pub closed spec fn canned(&self) -> String {
        self.canned_response
    }
}

/// The single interface through which excavations ask a model. A provider
/// is the user's to implement, and what it answers (over the network, from a
/// model) is its own: the trait states nothing of the reply.
pub trait Provider: Send + Sync {
    fn complete(&self, prompt: &str) -> (r: Result<String, ProviderError>);
}

impl Provider for FakeProvider {
    fn complete(&self, prompt: &str) -> (r: Result<String, ProviderError>)
        ensures
            r matches Ok(t) && t@ == self.canned()@,
    {
        Ok(self.canned_response.clone())
    }
}

/// A named OpenAI-compatible provider preset.
#[derive(Debug, Clone, PartialEq, Eq)]
pub struct ProviderPreset {
    pub name: &'static str,
    pub default_base_url: &'static str,
    pub suggested_models: Vec<&'static str>,
}

/// A preset as values: its name, default base URL and suggested models.
pub open spec fn preset_view(p: ProviderPreset) -> (Seq<char>, Seq<char>, Seq<Seq<char>>) {
    (p.name@, p.default_base_url@, p.suggested_models@.map_values(|m: &str| m@))
}

pub open spec fn openai_preset() -> (Seq<char>, Seq<char>, Seq<Seq<char>>) {
    ("OpenAI"@, "https://api.openai.com/v1"@, seq!["gpt-4o"@, "gpt-4o-mini"@, "o1"@, "o3-mini"@])
}

pub open spec fn xai_preset() -> (Seq<char>, Seq<char>, Seq<Seq<char>>) {
    ("xAI"@, "https://api.x.ai/v1"@, Seq::empty())
}

pub open spec fn openrouter_preset() -> (Seq<char>, Seq<char>, Seq<Seq<char>>) {
    (
        "OpenRouter"@,
        "https://openrouter.ai/api/v1"@,
        seq!["google/gemini-flash-1.5"@, "deepseek/deepseek-chat"@],
    )
}

pub open spec fn opencode_zen_preset() -> (Seq<char>, Seq<char>, Seq<Seq<char>>) {
    ("OpenCode Zen"@, "https://opencode.ai/zen/v1"@, Seq::empty())
}

pub open spec fn opencode_free_preset() -> (Seq<char>, Seq<char>, Seq<Seq<char>>) {
    ("OpenCode Free"@, "https://opencode.ai/zen/v1"@, Seq::empty())
}

pub open spec fn opencode_go_preset() -> (Seq<char>, Seq<char>, Seq<Seq<char>>) {
    ("OpenCode Go"@, "https://opencode.ai/zen/go/v1"@, Seq::empty())
}

pub open spec fn ollama_preset() -> (Seq<char>, Seq<char>, Seq<Seq<char>>) {
    ("Ollama (Local)"@, "http://localhost:11434/v1"@, seq!["llama3.2"@, "qwen2.5-coder"@, "mistral"@])
}

pub open spec fn custom_preset() -> (Seq<char>, Seq<char>, Seq<Seq<char>>) {
    ("Custom"@, ""@, Seq::empty())
}

pub fn preset_openai() -> (r: ProviderPreset)
    ensures
        preset_view(r) == openai_preset(),
{
    let r = ProviderPreset {
        name: "OpenAI",
        default_base_url: "https://api.openai.com/v1",
        suggested_models: vec!["gpt-4o", "gpt-4o-mini", "o1", "o3-mini"],
    };
    assert(r.suggested_models@.map_values(|m: &str| m@) =~= openai_preset().2);
    r
}

pub fn preset_xai() -> (r: ProviderPreset)
    ensures
        preset_view(r) == xai_preset(),
{
    let r = ProviderPreset { name: "xAI", default_base_url: "https://api.x.ai/v1", suggested_models: vec![] };
    assert(r.suggested_models@.map_values(|m: &str| m@) =~= xai_preset().2);
    r
}

/// Grok is served by xAI.
pub fn preset_grok() -> (r: ProviderPreset)
    ensures
        preset_view(r) == xai_preset(),
{
    preset_xai()
}

pub fn preset_openrouter() -> (r: ProviderPreset)
    ensures
        preset_view(r) == openrouter_preset(),
{
    let r = ProviderPreset {
        name: "OpenRouter",
        default_base_url: "https://openrouter.ai/api/v1",
        suggested_models: vec!["google/gemini-flash-1.5", "deepseek/deepseek-chat"],
    };
    assert(r.suggested_models@.map_values(|m: &str| m@) =~= openrouter_preset().2);
    r
}

pub fn preset_opencode_zen() -> (r: ProviderPreset)
    ensures
        preset_view(r) == opencode_zen_preset(),
{
    let r = ProviderPreset {
        name: "OpenCode Zen",
        default_base_url: "https://opencode.ai/zen/v1",
        suggested_models: vec![],
    };
    assert(r.suggested_models@.map_values(|m: &str| m@) =~= opencode_zen_preset().2);
    r
}

pub fn preset_opencode_free() -> (r: ProviderPreset)
    ensures
        preset_view(r) == opencode_free_preset(),
{
    let r = ProviderPreset {
        name: "OpenCode Free",
        default_base_url: "https://opencode.ai/zen/v1",
        suggested_models: vec![],
    };
    assert(r.suggested_models@.map_values(|m: &str| m@) =~= opencode_free_preset().2);
    r
}

pub fn preset_opencode_go() -> (r: ProviderPreset)
    ensures
        preset_view(r) == opencode_go_preset(),
{
    let r = ProviderPreset {
        name: "OpenCode Go",
        default_base_url: "https://opencode.ai/zen/go/v1",
        suggested_models: vec![],
    };
    assert(r.suggested_models@.map_values(|m: &str| m@) =~= opencode_go_preset().2);
    r
}

pub fn preset_ollama() -> (r: ProviderPreset)
    ensures
        preset_view(r) == ollama_preset(),
{
    let r = ProviderPreset {
        name: "Ollama (Local)",
        default_base_url: "http://localhost:11434/v1",
        suggested_models: vec!["llama3.2", "qwen2.5-coder", "mistral"],
    };
    assert(r.suggested_models@.map_values(|m: &str| m@) =~= ollama_preset().2);
    r
}

pub fn preset_custom() -> (r: ProviderPreset)
    ensures
        preset_view(r) == custom_preset(),
{
    let r = ProviderPreset { name: "Custom", default_base_url: "", suggested_models: vec![] };
    assert(r.suggested_models@.map_values(|m: &str| m@) =~= custom_preset().2);
    r
}

/// The presets in display order.
pub open spec fn all_preset_views() -> Seq<(Seq<char>, Seq<char>, Seq<Seq<char>>)> {
    seq![
        openai_preset(),
        xai_preset(),
        openrouter_preset(),
        opencode_free_preset(),
        opencode_zen_preset(),
        opencode_go_preset(),
        ollama_preset(),
        custom_preset(),
    ]
}

/// Every preset, in display order.
pub fn all_presets() -> (r: Vec<ProviderPreset>)
    ensures
        r@.map_values(|p: ProviderPreset| preset_view(p)) == all_preset_views(),
{
    let mut v: Vec<ProviderPreset> = Vec::new();
    v.push(preset_openai());
    v.push(preset_xai());
    v.push(preset_openrouter());
    v.push(preset_opencode_free());
    v.push(preset_opencode_zen());
    v.push(preset_opencode_go());
    v.push(preset_ollama());
    v.push(preset_custom());
    assert(v@.map_values(|p: ProviderPreset| preset_view(p)) =~= seq![
        openai_preset(),
        xai_preset(),
        openrouter_preset(),
        opencode_free_preset(),
        opencode_zen_preset(),
        opencode_go_preset(),
        ollama_preset(),
        custom_preset(),
    ]);
    v
}

/// A preset as the settings screen lists it.
#[derive(Debug, Clone, PartialEq, Eq)]
pub struct PresetInfo {
    pub name: String,
    pub default_base_url: String,
    pub suggested_models: Vec<String>,
}

pub open spec fn info_view(p: PresetInfo) -> (Seq<char>, Seq<char>, Seq<Seq<char>>) {
    (p.name@, p.default_base_url@, crate::text::string_views(p.suggested_models@))
}

pub fn preset_info(p: &ProviderPreset) -> (r: PresetInfo)
    ensures
        info_view(r) == preset_view(*p),
{
    let mut models: Vec<String> = Vec::new();
    let mut i: usize = 0;
    while i < p.suggested_models.len()
        invariant
            i <= p.suggested_models.len(),
            crate::text::string_views(models@) == p.suggested_models@.map_values(|m: &str| m@).take(
                i as int,
            ),
        decreases p.suggested_models.len() - i,
    {
        let ghost before = models@;
        models.push(p.suggested_models[i].to_owned());
        assert(crate::text::string_views(models@) =~= crate::text::string_views(before).push(
            p.suggested_models@[i as int]@,
        ));
        assert(p.suggested_models@.map_values(|m: &str| m@).take(i + 1) =~= p.suggested_models@.map_values(
            |m: &str| m@,
        ).take(i as int).push(p.suggested_models@[i as int]@));
        i = i + 1;
    }
    assert(p.suggested_models@.map_values(|m: &str| m@).take(i as int) =~= p.suggested_models@.map_values(
        |m: &str| m@,
    ));
    PresetInfo {
        name: p.name.to_owned(),
        default_base_url: p.default_base_url.to_owned(),
        suggested_models: models,
    }
}

/// Every preset as the settings screen lists it, in display order.
pub fn preset_infos() -> (r: Vec<PresetInfo>)
    ensures
        r@.map_values(|p: PresetInfo| info_view(p)) == all_preset_views(),
{
    let presets = all_presets();
    let ghost views = presets@.map_values(|p: ProviderPreset| preset_view(p));
    let mut out: Vec<PresetInfo> = Vec::new();
    let mut i: usize = 0;
    while i < presets.len()
        invariant
            i <= presets.len(),
            views == presets@.map_values(|p: ProviderPreset| preset_view(p)),
            views == all_preset_views(),
            out@.map_values(|p: PresetInfo| info_view(p)) == views.take(i as int),
        decreases presets.len() - i,
    {
        let info = preset_info(&presets[i]);
        let ghost before = out@;
        out.push(info);
        assert(out@.map_values(|p: PresetInfo| info_view(p)) =~= before.map_values(
            |p: PresetInfo| info_view(p),
        ).push(views[i as int]));
        assert(views.take(i + 1) =~= views.take(i as int).push(views[i as int]));
        i = i + 1;
    }
    assert(views.take(i as int) =~= views);
    out
}

/// The provider settings: where and which model to ask, whether a key is
/// stored, whether the app is offline, and the presets offered.
#[derive(Debug, Clone, PartialEq, Eq)]
pub struct ProviderSettings {
    pub base_url: String,
    pub model: String,
    pub has_key: bool,
    pub offline_mode: bool,
    pub presets: Vec<PresetInfo>,
}

/// The settings at start-up: the OpenAI preset's URL and `gpt-4o`, online,
/// with every preset offered.
pub fn initial_provider_settings(has_key: bool) -> (r: ProviderSettings)
    ensures
        r.base_url@ == openai_preset().1,
        r.model@ == "gpt-4o"@,
        r.has_key == has_key,
        !r.offline_mode,
        r.presets@.map_values(|p: PresetInfo| info_view(p)) == all_preset_views(),
{
    let openai = preset_openai();
    ProviderSettings {
        base_url: openai.default_base_url.to_owned(),
        model: String::from_str("gpt-4o"),
        has_key,
        offline_mode: false,
        presets: preset_infos(),
    }
}

/// Which provider answers an excavation.
#[derive(Debug, Clone, PartialEq, Eq)]
pub enum ProviderChoice {
    /// A provider that answers with this fixed text.
    Canned(String),
    /// The configured remote provider, with the stored key.
    Remote,
}

/// Offline, only local facts are shown; with no key, a provider that is not
/// on this machine (`localhost` or `127.0.0.1` in its URL) is not asked.
pub fn provider_choice(offline: bool, key: &str, base_url: &str) -> (r: ProviderChoice)
    ensures
        offline ==> (r matches ProviderChoice::Canned(m) && m@
            == "Offline mode active: showing local git archaeology facts."@),
        !offline && key@.len() == 0 && !spec_contains(base_url@, "localhost"@) && !spec_contains(
            base_url@,
            "127.0.0.1"@,
        ) ==> (r matches ProviderChoice::Canned(m) && m@
            == "No provider key configured in settings; showing git archaeology facts."@),
        !offline && (key@.len() > 0 || spec_contains(base_url@, "localhost"@) || spec_contains(
            base_url@,
            "127.0.0.1"@,
        )) ==> r == ProviderChoice::Remote,
{
    if offline {
        return ProviderChoice::Canned(
            String::from_str("Offline mode active: showing local git archaeology facts."),
        );
    }
    if key.unicode_len() == 0 && !str_contains(base_url, "localhost") && !str_contains(base_url, "127.0.0.1") {
        return ProviderChoice::Canned(
            String::from_str("No provider key configured in settings; showing git archaeology facts."),
        );
    }
    ProviderChoice::Remote
}

/// A key typed into the settings is stored trimmed, unless it is blank.
pub fn key_to_save(api_key: &Option<String>) -> (r: Option<String>)
    ensures
        match *api_key {
            Some(k) if spec_trim(k@).len() > 0 => r matches Some(t) && t@ == spec_trim(k@),
            _ => r is None,
        },
{
    match api_key {
        Some(k) => {
            let t = trim(k.as_str());
            if t.as_str().unicode_len() > 0 {
                Some(t)
            } else {
                None
            }
        },
        None => None,
    }
}

/// The key a connection test uses: the one typed in, as typed, unless it is
/// blank; otherwise the stored key, or none.
pub fn key_for_connection_test(api_key: Option<String>, stored: Option<String>) -> (r: String)
    ensures
        match api_key {
            Some(k) if spec_trim(k@).len() > 0 => r == k,
            _ => match stored {
                Some(s) => r == s,
                None => r@ == Seq::<char>::empty(),
            },
        },
{
    match api_key {
        Some(k) => {
            let t = trim(k.as_str());
            if t.as_str().unicode_len() > 0 {
                return k;
            }
        },
        None => {},
    }
    match stored {
        Some(s) => s,
        None => String::new(),
    }
}

/// Where provider keys live in the OS keychain.
pub struct KeychainStore;

impl KeychainStore {
    /// The keychain service of one provider connection; a blank id is refused.
    pub fn connection_key_service(connection_id: &str) -> (r: Result<String, String>)
        ensures
            spec_is_blank(connection_id@) ==> (r matches Err(e) && e@
                == "Provider connection id cannot be empty"@),
            !spec_is_blank(connection_id@) ==> (r matches Ok(s) && s@ == "subsurface.provider."@
                + connection_id@),
    {
        if is_blank(connection_id) {
            Err(String::from_str("Provider connection id cannot be empty"))
        } else {
            Ok(String::from_str("subsurface.provider.").concat(connection_id))
        }
    }
}

/// A provider at an OpenAI-compatible chat-completions endpoint.
#[derive(Clone)]
pub struct OpenAICompatibleProvider {
    pub base_url: String,
    pub api_key: String,
    pub model: String,
}

impl OpenAICompatibleProvider {
    pub fn new(base_url: &str, api_key: &str, model: &str) -> (r: Self)
        ensures
            r.base_url@ == trim_trailing_slashes(base_url@),
            r.api_key@ == api_key@,
            r.model@ == model@,
    {
        OpenAICompatibleProvider {
            base_url: without_trailing_slashes(base_url),
            api_key: api_key.to_owned(),
            model: model.to_owned(),
        }
    }

    /// The connection this provider stands for: a custom chat-completions
    /// connection, local when the base URL is on localhost or 127.0.0.1.
    pub fn connection(&self) -> (r: ProviderConnectionPreferences)
        ensures
            r.id@ == "legacy-openai-compatible"@,
            r.name@ == "OpenAI Compatible"@,
            r.provider == ProviderKind::Custom,
            r.base_url == self.base_url,
            r.model == self.model,
            r.protocol == ProviderProtocol::ChatCompletions,
            r.is_local == (spec_starts_with(self.base_url@, "http://localhost"@) || spec_starts_with(
                self.base_url@,
                "http://127.0.0.1"@,
            )),
    {
        ProviderConnectionPreferences {
            id: String::from_str("legacy-openai-compatible"),
            name: String::from_str("OpenAI Compatible"),
            provider: ProviderKind::Custom,
            base_url: self.base_url.clone(),
            model: self.model.clone(),
            protocol: ProviderProtocol::ChatCompletions,
            is_local: str_starts_with(self.base_url.as_str(), "http://localhost") || str_starts_with(
                self.base_url.as_str(),
                "http://127.0.0.1",
            ),
        }
    }

    /// The native request settings this provider sends with.
    pub fn to_native(&self) -> (r: NativeProvider)
        ensures
            r.conn().base_url == self.base_url,
            r.conn().model == self.model,
            r.conn().protocol == ProviderProtocol::ChatCompletions,
            r.api_key()@ == self.api_key@,
            r.timeout() == 45,
    {
        NativeProvider::new(self.connection(), self.api_key.as_str())
    }
}

/// A source of provider request bodies.
pub trait PayloadSource {
    spec fn spec_body(&self, prompt: Seq<char>) -> PayloadView;

    fn payload(&self, prompt: &str) -> (r: ProviderPayload)
        ensures
            r@ == self.spec_body(prompt@),
    ;
}

impl PayloadSource for NativeProvider {
    open spec fn spec_body(&self, prompt: Seq<char>) -> PayloadView {
        spec_payload(self.conn().protocol, self.conn().model@, prompt)
    }

    fn payload(&self, prompt: &str) -> (r: ProviderPayload) {
        payload_for(self.connection.protocol, &self.connection.model, prompt)
    }
}

impl PayloadSource for OpenAICompatibleProvider {
    open spec fn spec_body(&self, prompt: Seq<char>) -> PayloadView {
        spec_payload(ProviderProtocol::ChatCompletions, self.model@, prompt)
    }

    fn payload(&self, prompt: &str) -> (r: ProviderPayload) {
        payload_for(ProviderProtocol::ChatCompletions, &self.model, prompt)
    }
}

// ---------------------------------------------------------------------------
// Outbound consent
// ---------------------------------------------------------------------------

#[derive(Debug, Clone, Copy, PartialEq, Eq, Structural)]
pub enum ConsentDecision {
    AllowOnce,
    AlwaysAllowProject,
}

/// The exact body that would leave the machine for one Project.
#[derive(Debug, Clone)]
pub struct PayloadPreview {
    pub project_path: String,
    pub payload: ProviderPayload,
}

/// Outbound policy: offline mode blocks every provider call; otherwise each
/// call needs consent, given once or remembered for one Project.
pub struct OutboundPolicy {
    offline: bool,
    always_allowed: Vec<String>,
}

pub open spec fn allowed_projects(v: Seq<String>) -> Set<Seq<char>> {
    Set::new(|p: Seq<char>| exists|i: int| 0 <= i < v.len() && v[i]@ == p)
}

impl OutboundPolicy {
    pub closed spec fn is_offline(&self) -> bool {
        self.offline
    }

    /// Projects whose calls are always allowed.
    pub closed spec fn remembered(&self) -> Set<Seq<char>> {
        allowed_projects(self.always_allowed@)
    }

    pub fn new(offline: bool) -> (r: Self)
        ensures
            r.is_offline() == offline,
            r.remembered() == Set::<Seq<char>>::empty(),
    {
        let r = OutboundPolicy { offline, always_allowed: Vec::new() };
        assert(r.remembered() =~= Set::<Seq<char>>::empty());
        r
    }

    pub fn offline(&self) -> (r: bool)
        ensures
            r == self.is_offline(),
    {
        self.offline
    }

    pub fn set_offline(&mut self, offline: bool)
        ensures
            final(self).is_offline() == offline,
            final(self).remembered() == old(self).remembered(),
    {
        self.offline = offline;
    }

    /// The body a call would send, for review before any consent.
    pub fn preview<P: PayloadSource>(&self, provider: &P, project_path: &str, prompt: &str) -> (r:
        PayloadPreview)
        ensures
            r.project_path@ == project_path@,
            r.payload@ == provider.spec_body(prompt@),
    {
        PayloadPreview { project_path: project_path.to_owned(), payload: provider.payload(prompt) }
    }

    fn is_remembered(&self, project_path: &str) -> (r: bool)
        ensures
            r == self.remembered().contains(project_path@),
    {
        let mut i: usize = 0;
        while i < self.always_allowed.len()
            invariant
                i <= self.always_allowed@.len(),
                forall|j: int| 0 <= j < i ==> self.always_allowed@[j]@ != project_path@,
            decreases self.always_allowed.len() - i,
        {
            if str_eq(self.always_allowed[i].as_str(), project_path) {
                assert(self.remembered().contains(project_path@));
                return true;
            }
            i = i + 1;
        }
        false
    }

    /// Decides whether a call for this Project may go out. Offline mode
    /// always refuses; a remembered Project is allowed; otherwise a decision
    /// is required, and "always allow" is remembered for this Project only.
    pub fn authorize(&mut self, project_path: &str, consent: Option<ConsentDecision>) -> (r: Result<
        (),
        ProviderError,
    >)
        ensures
            final(self).is_offline() == old(self).is_offline(),
            old(self).is_offline() ==> r == Err::<(), ProviderError>(ProviderError::Offline)
                && final(self).remembered() == old(self).remembered(),
            !old(self).is_offline() && old(self).remembered().contains(project_path@) ==> r is Ok
                && final(self).remembered() == old(self).remembered(),
            !old(self).is_offline() && !old(self).remembered().contains(project_path@) ==> match consent {
                None => r == Err::<(), ProviderError>(ProviderError::ConsentRequired)
                    && final(self).remembered() == old(self).remembered(),
                Some(ConsentDecision::AllowOnce) => r is Ok && final(self).remembered() == old(
                    self,
                ).remembered(),
                Some(ConsentDecision::AlwaysAllowProject) => r is Ok && final(self).remembered()
                    == old(self).remembered().insert(project_path@),
            },
    {
        if self.offline {
            return Err(ProviderError::Offline);
        }
        if self.is_remembered(project_path) {
            return Ok(());
        }
        match consent {
            None => Err(ProviderError::ConsentRequired),
            Some(ConsentDecision::AllowOnce) => Ok(()),
            Some(ConsentDecision::AlwaysAllowProject) => {
                let ghost before = self.always_allowed@;
                self.always_allowed.push(project_path.to_owned());
                proof {
                    assert(allowed_projects(self.always_allowed@) =~= allowed_projects(before).insert(
                        project_path@,
                    )) by {
                        assert forall|p: Seq<char>| allowed_projects(self.always_allowed@).contains(p)
                            <==> allowed_projects(before).insert(project_path@).contains(p) by {
                            if allowed_projects(before).contains(p) {
                                let i = choose|i: int| 0 <= i < before.len() && before[i]@ == p;
                                assert(self.always_allowed@[i] == before[i]);
                            }
                            if allowed_projects(self.always_allowed@).contains(p) {
                                let i = choose|i: int|
                                    0 <= i < self.always_allowed@.len() && self.always_allowed@[i]@
                                        == p;
                                if i < before.len() {
                                    assert(self.always_allowed@[i] == before[i]);
                                }
                            }
                            if p == project_path@ {
                                assert(self.always_allowed@[before.len() as int]@ == p);
                            }
                        }
                    }
                }
                Ok(())
            },
        }
    }
}

} // verus!
