//! What each LLM provider's API is sent and what is read back: the chat
//! messages, the JSON-mode switches, the Ollama endpoints, the error text
//! and which statuses are retried.

use vstd::prelude::*;
use crate::ai::{retry_step, AiProviderType, RetryStep, MAX_RETRIES, backoff_secs};
use crate::post_crawl::parsed_u64;
use crate::prompts::{CompletionRequest, ResponseFormat};
use crate::sql_guard::trim_end_char;
use crate::text::{chars_of, owned, push_lit, string_of};

verus! {

/// Put before the system prompt when Anthropic is asked for JSON.
pub const JSON_ONLY_INSTRUCTION: &'static str =
    "You must respond with valid JSON only. No markdown, no explanation, just JSON.";

/// The provider's name as the adapters report it.
pub open spec fn display_name_of(p: AiProviderType) -> Seq<char> {
    match p {
        AiProviderType::OpenAi => "OpenAI"@,
        AiProviderType::Anthropic => "Anthropic"@,
        AiProviderType::Ollama => "Ollama"@,
    }
}

/// Provider display name.
pub fn display_name(p: AiProviderType) -> (r: &'static str)
    ensures
        r@ == display_name_of(p),
{
    proof {
        reveal_strlit("OpenAI");
        reveal_strlit("Anthropic");
        reveal_strlit("Ollama");
    }
    match p {
        AiProviderType::OpenAi => "OpenAI",
        AiProviderType::Anthropic => "Anthropic",
        AiProviderType::Ollama => "Ollama",
    }
}

/// OpenAI's chat completions endpoint.
pub const OPENAI_CHAT_URL: &'static str = "https://api.openai.com/v1/chat/completions";

/// OpenAI's model list, fetched as its health check.
pub const OPENAI_MODELS_URL: &'static str = "https://api.openai.com/v1/models";

/// Anthropic's messages endpoint.
pub const ANTHROPIC_MESSAGES_URL: &'static str = "https://api.anthropic.com/v1/messages";

/// The `anthropic-version` header sent with each request.
pub const ANTHROPIC_VERSION: &'static str = "2023-06-01";

/// Pause between two analysis requests, in milliseconds.
pub const REQUEST_DELAY_MS: u64 = 200;

/// The whole-request timeout of a provider's HTTP client, in seconds: local
/// Ollama models get longer.
pub fn request_timeout_secs(p: AiProviderType) -> (r: u64)
    ensures
        r == (if p == AiProviderType::Ollama { 120u64 } else { 60u64 }),
{
    match p {
        AiProviderType::Ollama => 120,
        _ => 60,
    }
}

// ---------------------------------------------------------------------------
// Messages
// ---------------------------------------------------------------------------

/// One chat message.
#[derive(Debug, Clone)]
pub struct ChatMessage {
    pub role: String,
    pub content: String,
}

/// A message as a (role, content) pair.
pub open spec fn message_view(m: ChatMessage) -> (Seq<char>, Seq<char>) {
    (m.role@, m.content@)
}

/// The messages OpenAI and Ollama are sent: the system prompt, when there
/// is one, then the user prompt.
pub open spec fn chat_messages_of(system: Seq<char>, user: Seq<char>) -> Seq<(Seq<char>, Seq<char>)> {
    if system.len() == 0 {
        seq![("user"@, user)]
    } else {
        seq![("system"@, system), ("user"@, user)]
    }
}

/// Build the chat messages of a request.
pub fn chat_messages(request: &CompletionRequest) -> (r: Vec<ChatMessage>)
    ensures
        r@.map_values(|m: ChatMessage| message_view(m)) == chat_messages_of(
            request.system_prompt@,
            request.user_prompt@,
        ),
{
    proof {
        reveal_strlit("system");
        reveal_strlit("user");
    }
    let mut r: Vec<ChatMessage> = Vec::new();
    let has_system = request.system_prompt.as_str().unicode_len() > 0;
    if has_system {
        r.push(ChatMessage { role: owned("system"), content: owned(request.system_prompt.as_str()) });
    }
    r.push(ChatMessage { role: owned("user"), content: owned(request.user_prompt.as_str()) });
    assert(r@.map_values(|m: ChatMessage| message_view(m)) =~= chat_messages_of(
        request.system_prompt@,
        request.user_prompt@,
    ));
    r
}

/// Anthropic's `system` field: absent for an empty system prompt in text
/// mode; in JSON mode the JSON-only instruction comes first, followed by a
/// blank line and the system prompt when there is one.
pub open spec fn anthropic_system_of(system: Seq<char>, format: ResponseFormat) -> Option<Seq<char>> {
    if system.len() == 0 && format == ResponseFormat::Text {
        None
    } else if format == ResponseFormat::Json {
        if system.len() == 0 {
            Some(JSON_ONLY_INSTRUCTION@)
        } else {
            Some(JSON_ONLY_INSTRUCTION@ + "\n\n"@ + system)
        }
    } else {
        Some(system)
    }
}

/// The `system` field of an Anthropic request.
pub fn anthropic_system(request: &CompletionRequest) -> (r: Option<String>)
    ensures
        match r {
            Some(s) => anthropic_system_of(request.system_prompt@, request.response_format) == Some(s@),
            None => anthropic_system_of(request.system_prompt@, request.response_format) is None,
        },
{
    let empty = request.system_prompt.as_str().unicode_len() == 0;
    match request.response_format {
        ResponseFormat::Text => {
            if empty {
                None
            } else {
                Some(owned(request.system_prompt.as_str()))
            }
        },
        ResponseFormat::Json => {
            if empty {
                Some(owned(JSON_ONLY_INSTRUCTION))
            } else {
                let mut v: Vec<char> = Vec::new();
                push_lit(&mut v, JSON_ONLY_INSTRUCTION);
                push_lit(&mut v, "\n\n");
                push_lit(&mut v, request.system_prompt.as_str());
                Some(string_of(&v))
            }
        },
    }
}

/// OpenAI's `response_format.type`: `json_object` in JSON mode, absent
/// otherwise.
pub fn openai_response_format(format: ResponseFormat) -> (r: Option<&'static str>)
    ensures
        format == ResponseFormat::Json ==> r is Some && r->0@ == "json_object"@,
        format == ResponseFormat::Text ==> r is None,
{
    proof {
        reveal_strlit("json_object");
    }
    match format {
        ResponseFormat::Json => Some("json_object"),
        ResponseFormat::Text => None,
    }
}

/// Ollama's `format`: `json` in JSON mode, absent otherwise.
pub fn ollama_format(format: ResponseFormat) -> (r: Option<&'static str>)
    ensures
        format == ResponseFormat::Json ==> r is Some && r->0@ == "json"@,
        format == ResponseFormat::Text ==> r is None,
{
    proof {
        reveal_strlit("json");
    }
    match format {
        ResponseFormat::Json => Some("json"),
        ResponseFormat::Text => None,
    }
}

/// The smallest completion, sent as Anthropic's health check.
pub fn health_check_request() -> (r: CompletionRequest)
    ensures
        r.system_prompt@.len() == 0,
        r.user_prompt@ == "Say OK"@,
        r.max_tokens == 5,
        r.temperature_tenths == 0,
        r.response_format == ResponseFormat::Text,
{
    CompletionRequest {
        system_prompt: String::new(),
        user_prompt: owned("Say OK"),
        max_tokens: 5,
        temperature_tenths: 0,
        response_format: ResponseFormat::Text,
    }
}

/// How long a connection test may take, in seconds.
pub const CONNECTION_TEST_TIMEOUT_SECS: u64 = 15;

/// The answer to a connection test that got through.
pub fn connected_message(provider: &str, model: &str) -> (r: String)
    ensures
        r@ == "Connected to "@ + provider@ + " (model: "@ + model@ + ")"@,
{
    let mut v: Vec<char> = Vec::new();
    push_lit(&mut v, "Connected to ");
    push_lit(&mut v, provider);
    push_lit(&mut v, " (model: ");
    push_lit(&mut v, model);
    push_lit(&mut v, ")");
    string_of(&v)
}

// ---------------------------------------------------------------------------
// Endpoints
// ---------------------------------------------------------------------------

/// Ollama's chat path.
pub const OLLAMA_CHAT_PATH: &'static str = "/api/chat";

/// Ollama's model list path.
pub const OLLAMA_TAGS_PATH: &'static str = "/api/tags";

/// An Ollama API URL: the endpoint without trailing slashes, then the path.
pub fn ollama_url(endpoint: &str, path: &str) -> (r: String)
    ensures
        r@ == trim_end_char(endpoint@, '/') + path@,
{
    let cs = chars_of(endpoint);
    let mut end: usize = cs.len();
    assert(cs@.take(end as int) =~= cs@);
    while end > 0 && cs[end - 1] == '/'
        invariant
            end <= cs@.len(),
            cs@ == endpoint@,
            trim_end_char(endpoint@, '/') == trim_end_char(cs@.take(end as int), '/'),
        decreases end,
    {
        assert(cs@.take(end as int).drop_last() =~= cs@.take(end - 1));
        end = end - 1;
    }
    let mut v: Vec<char> = Vec::new();
    let mut k: usize = 0;
    while k < end
        invariant
            k <= end <= cs@.len(),
            v@ == cs@.take(k as int),
        decreases end - k,
    {
        v.push(cs[k]);
        k = k + 1;
        assert(cs@.take(k as int) =~= cs@.take(k - 1).push(cs@[k - 1]));
    }
    assert(trim_end_char(cs@.take(end as int), '/') == cs@.take(end as int));
    push_lit(&mut v, path);
    string_of(&v)
}

// ---------------------------------------------------------------------------
// Responses
// ---------------------------------------------------------------------------

/// The message of a failed API call: the detail the provider's error body
/// gave, else the HTTP status and the raw body.
pub open spec fn api_error_text(provider: Seq<char>, detail: Option<Seq<char>>, status: Seq<char>, body: Seq<char>) -> Seq<char> {
    provider + " API error: "@ + match detail {
        Some(d) => d,
        None => "HTTP "@ + status + ": "@ + body,
    }
}

/// Error message for a non-success response.
pub fn api_error_message(provider: &str, detail: Option<&str>, status: &str, body: &str) -> (r: String)
    ensures
        r@ == api_error_text(
            provider@,
            match detail {
                Some(d) => Some(d@),
                None => None,
            },
            status@,
            body@,
        ),
{
    let mut v: Vec<char> = Vec::new();
    push_lit(&mut v, provider);
    push_lit(&mut v, " API error: ");
    match detail {
        Some(d) => push_lit(&mut v, d),
        None => {
            push_lit(&mut v, "HTTP ");
            push_lit(&mut v, status);
            push_lit(&mut v, ": ");
            push_lit(&mut v, body);
        },
    }
    string_of(&v)
}

/// The answer text: that of the first content block or choice, empty when
/// there is none or it has no text.
pub fn first_text(blocks: &Vec<Option<String>>) -> (r: String)
    ensures
        blocks@.len() > 0 && blocks@[0] is Some ==> r@ == blocks@[0]->0@,
        !(blocks@.len() > 0 && blocks@[0] is Some) ==> r@.len() == 0,
{
    if blocks.len() > 0 {
        match &blocks[0] {
            Some(t) => owned(t.as_str()),
            None => String::new(),
        }
    } else {
        String::new()
    }
}

/// Whether a provider's adapter retries a response with this status:
/// Anthropic on 429 (rate limited) and 529 (overloaded), OpenAI on 429,
/// Ollama never.
pub open spec fn retried_status(p: AiProviderType, status: u16) -> bool {
    match p {
        AiProviderType::Anthropic => status == 429 || status == 529,
        AiProviderType::OpenAi => status == 429,
        AiProviderType::Ollama => false,
    }
}

/// What a provider's adapter does after a response to attempt `attempt`.
pub fn provider_retry_step(p: AiProviderType, attempt: u32, status: u16, retry_after: Option<&str>) -> (r: RetryStep)
    ensures
        (attempt >= MAX_RETRIES || !retried_status(p, status)) ==> r == RetryStep::Accept,
        (attempt < MAX_RETRIES && retried_status(p, status)) ==> r == RetryStep::Wait(
            match retry_after {
                Some(h) => match parsed_u64(h@) {
                    Some(n) => n,
                    None => backoff_secs(attempt),
                },
                None => backoff_secs(attempt),
            },
        ),
{
    let retried = match p {
        AiProviderType::Anthropic => status == 429 || status == 529,
        AiProviderType::OpenAi => status == 429,
        AiProviderType::Ollama => false,
    };
    if retried {
        retry_step(attempt, status, retry_after)
    } else {
        RetryStep::Accept
    }
}

} // verus!
