//! AI analysis support: provider selection, API-key bookkeeping, the batch
//! analysis budget and progress, and the texts sent to the model.

use vstd::prelude::*;
use crate::export::{json_string, json_string_of};
use crate::frontier::{blake3_digest, blake3_digest_of};
use crate::prompts::{
    content_quality_request, meta_description_request, title_tag_request, CompletionRequest,
    content_quality_prompt, meta_description_prompt, title_tag_prompt, ResponseFormat,
    CONTENT_QUALITY_SYSTEM_PROMPT, META_DESCRIPTION_SYSTEM_PROMPT, TITLE_TAG_SYSTEM_PROMPT,
};
use crate::text::{opt_view, push_lit, str_eq, string_of};
use crate::words::{decimal, decimal_int, push_decimal, i64_to_decimal};
use crate::post_crawl::{parse_u64, parsed_u64};

verus! {

// ---------------------------------------------------------------------------
// Providers
// ---------------------------------------------------------------------------

/// Which LLM provider to use.
#[derive(Debug, Clone, Copy, PartialEq, Eq, Structural)]
pub enum AiProviderType {
    OpenAi,
    Anthropic,
    Ollama,
}

/// The provider's name as shown and stored.
pub open spec fn provider_code(p: AiProviderType) -> Seq<char> {
    match p {
        AiProviderType::OpenAi => "openai"@,
        AiProviderType::Anthropic => "anthropic"@,
        AiProviderType::Ollama => "ollama"@,
    }
}

impl AiProviderType {
    /// The provider's display name.
    pub fn as_str(&self) -> (r: &'static str)
        ensures
            r@ == provider_code(*self),
    {
        proof {
            reveal_strlit("openai");
            reveal_strlit("anthropic");
            reveal_strlit("ollama");
        }
        match self {
            AiProviderType::OpenAi => "openai",
            AiProviderType::Anthropic => "anthropic",
            AiProviderType::Ollama => "ollama",
        }
    }
}

/// The keychain service under which API keys are stored.
pub const SERVICE_NAME: &'static str = "com.oxideseo.desktop";

/// The keychain entry name of a provider's API key.
pub open spec fn key_name_of(p: AiProviderType) -> Seq<char> {
    match p {
        AiProviderType::OpenAi => "openai_api_key"@,
        AiProviderType::Anthropic => "anthropic_api_key"@,
        AiProviderType::Ollama => "ollama_api_key"@,
    }
}

/// Get the keyring entry name for a provider.
pub fn key_name(provider: AiProviderType) -> (r: &'static str)
    ensures
        r@ == key_name_of(provider),
{
    proof {
        reveal_strlit("openai_api_key");
        reveal_strlit("anthropic_api_key");
        reveal_strlit("ollama_api_key");
    }
    match provider {
        AiProviderType::OpenAi => "openai_api_key",
        AiProviderType::Anthropic => "anthropic_api_key",
        AiProviderType::Ollama => "ollama_api_key",
    }
}

/// Whether the provider needs a stored API key (Ollama never does).
pub fn needs_api_key(provider: AiProviderType) -> (r: bool)
    ensures
        r == (provider != AiProviderType::Ollama),
{
    !matches!(provider, AiProviderType::Ollama)
}

/// Whether an API key is available for this provider, given the outcome of
/// the keychain lookup: Ollama never needs one; otherwise a key is there
/// when the lookup found one, and a failed lookup is passed on.
pub fn has_api_key(provider: AiProviderType, lookup: Result<Option<String>, String>) -> (r: Result<bool, String>)
    ensures
        provider == AiProviderType::Ollama ==> r == Ok::<bool, String>(true),
        provider != AiProviderType::Ollama ==> match lookup {
            Ok(k) => r == Ok::<bool, String>(k is Some),
            Err(e) => r matches Err(f) && f@ == e@,
        },
{
    if matches!(provider, AiProviderType::Ollama) {
        return Ok(true);
    }
    match lookup {
        Ok(k) => Ok(k.is_some()),
        Err(e) => Err(e),
    }
}

/// Configuration for the active AI provider (non-secret fields only).
#[derive(Debug, Clone)]
pub struct AiProviderConfig {
    pub provider_type: AiProviderType,
    pub model: String,
    /// Ollama endpoint URL (only used when `provider_type` is `Ollama`).
    pub ollama_endpoint: Option<String>,
    /// Maximum tokens to spend per crawl analysis session.
    pub max_tokens_per_crawl: u32,
    /// Whether the provider has a valid API key stored.
    pub is_configured: bool,
}

impl Default for AiProviderConfig {
    fn default() -> (r: Self)
        ensures
            r.provider_type == AiProviderType::OpenAi,
            r.model@ == "gpt-4o"@,
            r.ollama_endpoint is None,
            r.max_tokens_per_crawl == 100_000,
            !r.is_configured,
    {
        AiProviderConfig {
            provider_type: AiProviderType::OpenAi,
            model: String::from_str("gpt-4o"),
            ollama_endpoint: None,
            max_tokens_per_crawl: 100_000,
            is_configured: false,
        }
    }
}

impl AiProviderConfig {
    /// The configuration with `is_configured` taken from the key lookup: a
    /// failed lookup counts as not configured.
    pub fn with_key_state(self, has_key: Result<bool, String>) -> (r: Self)
        ensures
            r.provider_type == self.provider_type,
            r.model@ == self.model@,
            opt_view(r.ollama_endpoint) == opt_view(self.ollama_endpoint),
            r.max_tokens_per_crawl == self.max_tokens_per_crawl,
            r.is_configured == (has_key matches Ok(b) && b),
    {
        let mut c = self;
        c.is_configured = match has_key {
            Ok(b) => b,
            Err(_) => false,
        };
        c
    }
}

/// The adapter to build for a configuration, with what it is given.
#[derive(Debug)]
pub enum ProviderPlan {
    OpenAi { api_key: String, model: String },
    Anthropic { api_key: String, model: String },
    Ollama { endpoint: String, model: String },
}

/// The local Ollama endpoint used when none is configured.
pub const DEFAULT_OLLAMA_ENDPOINT: &'static str = "http://localhost:11434";

/// The default Ollama endpoint.
pub open spec fn default_ollama_endpoint() -> Seq<char> {
    "http://localhost:11434"@
}

/// The Ollama endpoint a configuration names, or the default.
pub open spec fn ollama_endpoint_of(c: AiProviderConfig) -> Seq<char> {
    match c.ollama_endpoint {
        Some(e) => e@,
        None => default_ollama_endpoint(),
    }
}

/// Choose the adapter for a configuration. OpenAI and Anthropic need an
/// API key; Ollama needs a non-empty endpoint (by default the local one).
pub fn provider_plan(config: &AiProviderConfig, api_key: Option<&str>) -> (r: Result<ProviderPlan, String>)
    ensures
        match config.provider_type {
            AiProviderType::OpenAi => match api_key {
                Some(k) => r matches Ok(ProviderPlan::OpenAi { api_key, model }) && api_key@ == k@ && model@ == config.model@,
                None => r matches Err(e) && e@ == "OpenAI API key is required"@,
            },
            AiProviderType::Anthropic => match api_key {
                Some(k) => r matches Ok(ProviderPlan::Anthropic { api_key, model }) && api_key@ == k@ && model@ == config.model@,
                None => r matches Err(e) && e@ == "Anthropic API key is required"@,
            },
            AiProviderType::Ollama => if ollama_endpoint_of(*config).len() == 0 {
                r matches Err(e) && e@ == "Ollama endpoint cannot be empty"@
            } else {
                r matches Ok(ProviderPlan::Ollama { endpoint, model }) && endpoint@ == ollama_endpoint_of(*config) && model@ == config.model@
            },
        },
{
    proof {
        reveal_strlit("OpenAI API key is required");
        reveal_strlit("Anthropic API key is required");
        reveal_strlit("Ollama endpoint cannot be empty");
        reveal_strlit("http://localhost:11434");
    }
    match config.provider_type {
        AiProviderType::OpenAi => match api_key {
            Some(k) => Ok(ProviderPlan::OpenAi { api_key: String::from_str(k), model: config.model.clone() }),
            None => Err(String::from_str("OpenAI API key is required")),
        },
        AiProviderType::Anthropic => match api_key {
            Some(k) => Ok(ProviderPlan::Anthropic { api_key: String::from_str(k), model: config.model.clone() }),
            None => Err(String::from_str("Anthropic API key is required")),
        },
        AiProviderType::Ollama => {
            let endpoint: String = match &config.ollama_endpoint {
                Some(e) => e.clone(),
                None => String::from_str("http://localhost:11434"),
            };
            if endpoint.as_str().is_empty() {
                Err(String::from_str("Ollama endpoint cannot be empty"))
            } else {
                Ok(ProviderPlan::Ollama { endpoint, model: config.model.clone() })
            }
        },
    }
}

// ---------------------------------------------------------------------------
// Page analysis
// ---------------------------------------------------------------------------

/// The BLAKE3 hash of a page's body text, by which analyses are cached.
pub fn content_hash(body_text: &str) -> (r: [u8; 32])
    ensures
        r@ == blake3_digest_of(body_text@),
{
    blake3_digest(body_text)
}

/// A JSON-format request with the given system prompt, token limit and
/// temperature (in tenths).
pub open spec fn request_shape(q: CompletionRequest, system: Seq<char>, max_tokens: u32, temperature_tenths: u32) -> bool {
    &&& q.system_prompt@ == system
    &&& q.max_tokens == max_tokens
    &&& q.temperature_tenths == temperature_tenths
    &&& q.response_format == ResponseFormat::Json
}

/// The request for one analysis type, or `None` for a type that is not
/// known (`content_score`, `meta_desc` and `title_tag` are).
pub fn analysis_request(
    analysis_type: &str,
    body_text: &str,
    url: &str,
    title: Option<&str>,
    meta_desc: Option<&str>,
) -> (r: Option<CompletionRequest>)
    ensures
        analysis_type@ == "content_score"@ ==> (r matches Some(q) && q.user_prompt@ == content_quality_prompt(
            body_text@,
            url@,
            title,
        ) && request_shape(q, CONTENT_QUALITY_SYSTEM_PROMPT@, 500, 3)),
        analysis_type@ == "meta_desc"@ ==> (r matches Some(q) && q.user_prompt@ == meta_description_prompt(
            body_text@,
            title,
            meta_desc,
        ) && request_shape(q, META_DESCRIPTION_SYSTEM_PROMPT@, 300, 5)),
        analysis_type@ == "title_tag"@ ==> (r matches Some(q) && q.user_prompt@ == title_tag_prompt(body_text@, title, url@)
            && request_shape(q, TITLE_TAG_SYSTEM_PROMPT@, 400, 5)),
        analysis_type@ != "content_score"@ && analysis_type@ != "meta_desc"@ && analysis_type@ != "title_tag"@ ==> r is None,
{
    proof {
        reveal_strlit("content_score");
        reveal_strlit("meta_desc");
        reveal_strlit("title_tag");
        assert("meta_desc"@.len() != "content_score"@.len());
        assert("title_tag"@.len() != "content_score"@.len());
        assert("title_tag"@[0] != "meta_desc"@[0]);
    }
    if str_eq(analysis_type, "content_score") {
        Some(content_quality_request(body_text, url, title))
    } else if str_eq(analysis_type, "meta_desc") {
        Some(meta_description_request(body_text, title, meta_desc))
    } else if str_eq(analysis_type, "title_tag") {
        Some(title_tag_request(body_text, title, url))
    } else {
        None
    }
}

/// The analysis types there are requests for.
pub open spec fn known_analysis_type(t: Seq<char>) -> bool {
    t == "content_score"@ || t == "meta_desc"@ || t == "title_tag"@
}

fn is_known_analysis_type(t: &str) -> (r: bool)
    ensures
        r == known_analysis_type(t@),
{
    str_eq(t, "content_score") || str_eq(t, "meta_desc") || str_eq(t, "title_tag")
}

/// `q` is the request for analysis type `t` of a page.
pub open spec fn is_analysis_request(
    t: Seq<char>,
    body_text: Seq<char>,
    url: Seq<char>,
    title: Option<&str>,
    meta_desc: Option<&str>,
    q: CompletionRequest,
) -> bool {
    &&& t == "content_score"@ ==> q.user_prompt@ == content_quality_prompt(body_text, url, title)
        && request_shape(q, CONTENT_QUALITY_SYSTEM_PROMPT@, 500, 3)
    &&& t == "meta_desc"@ ==> q.user_prompt@ == meta_description_prompt(body_text, title, meta_desc)
        && request_shape(q, META_DESCRIPTION_SYSTEM_PROMPT@, 300, 5)
    &&& t == "title_tag"@ ==> q.user_prompt@ == title_tag_prompt(body_text, title, url)
        && request_shape(q, TITLE_TAG_SYSTEM_PROMPT@, 400, 5)
}

/// What page analysis does for one analysis type.
#[derive(Debug)]
pub enum AnalysisStep {
    /// The page has no body text: nothing is analyzed.
    NoText,
    /// An analysis of this text and type is cached: use it.
    FromCache,
    /// The type is not known: skip it.
    Skip,
    /// Send this request to the model.
    Request(CompletionRequest),
}

/// The step for one analysis type of a page: a page without body text is
/// not analyzed; a cached analysis is used; an unknown type is skipped;
/// otherwise the type's request is sent.
pub fn analysis_step(
    body_text: &str,
    url: &str,
    title: Option<&str>,
    meta_desc: Option<&str>,
    analysis_type: &str,
    cached: bool,
) -> (r: AnalysisStep)
    ensures
        body_text@.len() == 0 ==> r is NoText,
        body_text@.len() > 0 && cached ==> r is FromCache,
        body_text@.len() > 0 && !cached && !known_analysis_type(analysis_type@) ==> r is Skip,
        body_text@.len() > 0 && !cached && known_analysis_type(analysis_type@) ==> (r matches AnalysisStep::Request(q)
            && is_analysis_request(analysis_type@, body_text@, url@, title, meta_desc, q)),
{
    if body_text.unicode_len() == 0 {
        return AnalysisStep::NoText;
    }
    if cached {
        return AnalysisStep::FromCache;
    }
    match analysis_request(analysis_type, body_text, url, title, meta_desc) {
        Some(q) => AnalysisStep::Request(q),
        None => AnalysisStep::Skip,
    }
}

/// A known type that occurs before position `i` of `types`: its analysis is
/// in the cache by the time position `i` is reached.
pub open spec fn analysed_earlier(types: Seq<Seq<char>>, i: int) -> bool {
    known_analysis_type(types[i]) && exists|j: int| 0 <= j < i && #[trigger] types[j] == types[i]
}

/// The step at position `i` of a plan for a page with body text.
pub open spec fn plan_step(
    types: Seq<Seq<char>>,
    cached: Seq<bool>,
    i: int,
    body_text: Seq<char>,
    url: Seq<char>,
    title: Option<&str>,
    meta_desc: Option<&str>,
    s: AnalysisStep,
) -> bool {
    if cached[i] || analysed_earlier(types, i) {
        s is FromCache
    } else if !known_analysis_type(types[i]) {
        s is Skip
    } else {
        s matches AnalysisStep::Request(q) && is_analysis_request(types[i], body_text, url, title, meta_desc, q)
    }
}

/// The steps of analysing one page for each of `analysis_types` in turn,
/// where `cached[i]` says whether the cache held that type's analysis of
/// this text before any request: a page without body text gets no step; a
/// cached type, or a known type already requested earlier in the list, is
/// taken from the cache; an unknown type is skipped; every other type is
/// requested.
pub fn analysis_plan(
    body_text: &str,
    url: &str,
    title: Option<&str>,
    meta_desc: Option<&str>,
    analysis_types: &Vec<String>,
    cached: &Vec<bool>,
) -> (r: Vec<AnalysisStep>)
    requires
        cached@.len() == analysis_types@.len(),
    ensures
        body_text@.len() == 0 ==> r@.len() == 0,
        body_text@.len() > 0 ==> r@.len() == analysis_types@.len() && forall|i: int|
            0 <= i < r@.len() ==> plan_step(
                analysis_types@.map_values(|s: String| s@),
                cached@,
                i,
                body_text@,
                url@,
                title,
                meta_desc,
                #[trigger] r@[i],
            ),
{
    let mut plan: Vec<AnalysisStep> = Vec::new();
    if body_text.unicode_len() == 0 {
        return plan;
    }
    let ghost types = analysis_types@.map_values(|s: String| s@);
    let n = analysis_types.len();
    let mut i: usize = 0;
    while i < n
        invariant
            n == analysis_types@.len(),
            cached@.len() == n,
            body_text@.len() > 0,
            types == analysis_types@.map_values(|s: String| s@),
            i <= n,
            plan@.len() == i,
            forall|k: int| 0 <= k < i ==> plan_step(types, cached@, k, body_text@, url@, title, meta_desc, #[trigger] plan@[k]),
        decreases n - i,
    {
        let t = analysis_types[i].as_str();
        let mut earlier = false;
        let mut j: usize = 0;
        while j < i
            invariant
                i < n,
                n == analysis_types@.len(),
                types == analysis_types@.map_values(|s: String| s@),
                t@ == types[i as int],
                j <= i,
                earlier <==> exists|k: int| 0 <= k < j && #[trigger] types[k] == types[i as int],
            decreases i - j,
        {
            if str_eq(analysis_types[j].as_str(), t) {
                earlier = true;
            }
            proof {
                assert(types[j as int] == analysis_types@[j as int]@);
            }
            j = j + 1;
        }
        let from_cache = cached[i] || (earlier && is_known_analysis_type(t));
        let step = analysis_step(body_text, url, title, meta_desc, t, from_cache);
        proof {
            assert(t@ == types[i as int]);
            assert(from_cache == (cached@[i as int] || analysed_earlier(types, i as int)));
        }
        plan.push(step);
        i = i + 1;
    }
    plan
}

// ---------------------------------------------------------------------------
// Batch analysis
// ---------------------------------------------------------------------------

/// Filter for batch page analysis.
#[derive(Debug, Clone, Copy)]
pub struct BatchAnalysisFilter {
    pub only_with_issues: bool,
    pub only_missing_meta: bool,
    pub max_pages: u32,
}

/// AI analysis progress event payload.
#[derive(Debug, Clone)]
pub struct BatchProgress {
    pub completed: u32,
    pub total: u32,
    pub current_url: String,
    pub tokens_used: u64,
    pub budget_remaining: u64,
}

/// The share of a token budget a batch may spend: 90%, rounded down, to
/// leave room for the crawl summary.
pub fn budget_limit(budget_tokens: u32) -> (r: u64)
    ensures
        r == budget_tokens * 9 / 10,
{
    (budget_tokens as u64) * 9 / 10
}

/// The sum of the input tokens of a list of (input, output) token counts.
pub open spec fn input_sum(t: Seq<(u32, u32)>) -> int
    decreases t.len(),
{
    if t.len() == 0 {
        0
    } else {
        input_sum(t.drop_last()) + t.last().0
    }
}

/// The sum of the output tokens of a list of (input, output) token counts.
pub open spec fn output_sum(t: Seq<(u32, u32)>) -> int
    decreases t.len(),
{
    if t.len() == 0 {
        0
    } else {
        output_sum(t.drop_last()) + t.last().1
    }
}

proof fn lemma_sums_grow(t: Seq<(u32, u32)>, i: int)
    requires
        0 <= i <= t.len(),
    ensures
        input_sum(t.take(i)) <= input_sum(t),
        output_sum(t.take(i)) <= output_sum(t),
    decreases t.len() - i,
{
    if i < t.len() {
        lemma_sums_grow(t, i + 1);
        assert(t.take(i + 1).drop_last() =~= t.take(i));
    } else {
        assert(t.take(i) =~= t);
    }
}

/// The running totals of a batch analysis.
#[derive(Debug, Clone, Copy)]
pub struct BatchRun {
    pub total: u32,
    pub completed: u32,
    pub input_tokens: u64,
    pub output_tokens: u64,
    pub errors: u32,
    pub budget_limit: u64,
}

impl BatchRun {
    /// Tokens spent so far.
    pub open spec fn used(self) -> int {
        self.input_tokens + self.output_tokens
    }

    /// Start a batch over `total` pages with a token budget.
    pub fn new(total: u32, budget_tokens: u32) -> (r: Self)
        ensures
            r.total == total,
            r.completed == 0,
            r.input_tokens == 0,
            r.output_tokens == 0,
            r.errors == 0,
            r.budget_limit == budget_tokens * 9 / 10,
    {
        BatchRun {
            total,
            completed: 0,
            input_tokens: 0,
            output_tokens: 0,
            errors: 0,
            budget_limit: budget_limit(budget_tokens),
        }
    }

    /// Tokens spent so far.
    pub fn tokens_used(&self) -> (r: u64)
        requires
            self.used() <= u64::MAX,
        ensures
            r == self.used(),
    {
        self.input_tokens + self.output_tokens
    }

    /// Whether the budget is spent: no further page is analyzed.
    pub fn budget_exhausted(&self) -> (r: bool)
        requires
            self.used() <= u64::MAX,
        ensures
            r == (self.used() >= self.budget_limit),
    {
        self.tokens_used() >= self.budget_limit
    }

    /// The progress event sent before a page (or, with an empty URL, at
    /// the end).
    pub fn progress(&self, current_url: &str) -> (r: BatchProgress)
        requires
            self.used() <= u64::MAX,
        ensures
            r.completed == self.completed,
            r.total == self.total,
            r.current_url@ == current_url@,
            r.tokens_used == self.used(),
            r.budget_remaining == (if self.budget_limit >= self.used() { self.budget_limit - self.used() } else { 0 }),
    {
        let used = self.tokens_used();
        BatchProgress {
            completed: self.completed,
            total: self.total,
            current_url: String::from_str(current_url),
            tokens_used: used,
            budget_remaining: self.budget_limit.saturating_sub(used),
        }
    }

    /// Count an analyzed page and the tokens of its analyses.
    pub fn record_page(&mut self, tokens: &Vec<(u32, u32)>)
        requires
            old(self).completed < u32::MAX,
            old(self).input_tokens + input_sum(tokens@) <= u64::MAX,
            old(self).output_tokens + output_sum(tokens@) <= u64::MAX,
        ensures
            final(self).completed == old(self).completed + 1,
            final(self).input_tokens == old(self).input_tokens + input_sum(tokens@),
            final(self).output_tokens == old(self).output_tokens + output_sum(tokens@),
            final(self).errors == old(self).errors,
            final(self).total == old(self).total,
            final(self).budget_limit == old(self).budget_limit,
    {
        let mut i: usize = 0;
        while i < tokens.len()
            invariant
                i <= tokens@.len(),
                self.completed == old(self).completed,
                self.errors == old(self).errors,
                self.total == old(self).total,
                self.budget_limit == old(self).budget_limit,
                self.input_tokens == old(self).input_tokens + input_sum(tokens@.take(i as int)),
                self.output_tokens == old(self).output_tokens + output_sum(tokens@.take(i as int)),
                old(self).input_tokens + input_sum(tokens@) <= u64::MAX,
                old(self).output_tokens + output_sum(tokens@) <= u64::MAX,
            decreases tokens.len() - i,
        {
            proof {
                lemma_sums_grow(tokens@, i + 1);
                assert(tokens@.take(i + 1).drop_last() =~= tokens@.take(i as int));
            }
            self.input_tokens = self.input_tokens + tokens[i].0 as u64;
            self.output_tokens = self.output_tokens + tokens[i].1 as u64;
            i = i + 1;
        }
        assert(tokens@.take(tokens@.len() as int) =~= tokens@);
        self.completed = self.completed + 1;
    }

    /// Count a page whose analysis failed.
    pub fn record_failure(&mut self)
        requires
            old(self).completed < u32::MAX,
            old(self).errors < u32::MAX,
        ensures
            final(self).completed == old(self).completed + 1,
            final(self).errors == old(self).errors + 1,
            final(self).input_tokens == old(self).input_tokens,
            final(self).output_tokens == old(self).output_tokens,
            final(self).total == old(self).total,
            final(self).budget_limit == old(self).budget_limit,
    {
        self.completed = self.completed + 1;
        self.errors = self.errors + 1;
    }
}

// ---------------------------------------------------------------------------
// Crawl summary statistics
// ---------------------------------------------------------------------------

/// The crawl statistics given to the summary prompt, as compact JSON with
/// the keys in order.
pub open spec fn stats_text(
    crawl_id: Seq<char>,
    start_url: Seq<char>,
    urls_crawled: i64,
    urls_errored: i64,
    total_pages: i64,
    errors: u64,
    warnings: u64,
    info: u64,
) -> Seq<char> {
    "{\"crawlId\":"@ + json_string_of(crawl_id) + ",\"issues\":{\"errors\":"@ + decimal(errors as nat)
        + ",\"info\":"@ + decimal(info as nat) + ",\"total\":"@ + decimal((errors + warnings + info) as nat)
        + ",\"warnings\":"@ + decimal(warnings as nat) + "},\"startUrl\":"@ + json_string_of(start_url)
        + ",\"totalPages\":"@ + decimal_int(total_pages as int) + ",\"urlsCrawled\":"@ + decimal_int(
        urls_crawled as int,
    ) + ",\"urlsErrored\":"@ + decimal_int(urls_errored as int) + "}"@
}

/// Build the compact statistics text.
pub fn crawl_stats_text(
    crawl_id: &str,
    start_url: &str,
    urls_crawled: i64,
    urls_errored: i64,
    total_pages: i64,
    errors: u64,
    warnings: u64,
    info: u64,
) -> (r: String)
    requires
        errors + warnings + info <= u64::MAX,
    ensures
        r@ == stats_text(crawl_id@, start_url@, urls_crawled, urls_errored, total_pages, errors, warnings, info),
{
    let mut v: Vec<char> = Vec::new();
    push_lit(&mut v, "{\"crawlId\":");
    push_lit(&mut v, json_string(crawl_id).as_str());
    push_lit(&mut v, ",\"issues\":{\"errors\":");
    push_decimal(&mut v, errors);
    push_lit(&mut v, ",\"info\":");
    push_decimal(&mut v, info);
    push_lit(&mut v, ",\"total\":");
    push_decimal(&mut v, errors + warnings + info);
    push_lit(&mut v, ",\"warnings\":");
    push_decimal(&mut v, warnings);
    push_lit(&mut v, "},\"startUrl\":");
    push_lit(&mut v, json_string(start_url).as_str());
    push_lit(&mut v, ",\"totalPages\":");
    push_lit(&mut v, i64_to_decimal(total_pages).as_str());
    push_lit(&mut v, ",\"urlsCrawled\":");
    push_lit(&mut v, i64_to_decimal(urls_crawled).as_str());
    push_lit(&mut v, ",\"urlsErrored\":");
    push_lit(&mut v, i64_to_decimal(urls_errored).as_str());
    push_lit(&mut v, "}");
    string_of(&v)
}

/// What `serde_json::to_string_pretty` makes of a JSON text, or `None`
/// when the text is not JSON.
pub uninterp spec fn json_pretty(text: Seq<char>) -> Option<Seq<char>>;

/// Calls `serde_json::from_str` for a `serde_json::Value` and prints the
/// value with `serde_json::to_string_pretty`. The contract names the
/// outcome as a function of the text.
#[verifier::external_body]
fn pretty_json(text: &str) -> (r: Option<String>)
    ensures
        opt_view(r) == json_pretty(text@),
{
    serde_json::from_str::<serde_json::Value>(text).ok().and_then(|v| serde_json::to_string_pretty(&v).ok())
}

/// The statistics text of the crawl summary prompt, pretty-printed.
pub fn crawl_stats_json(
    crawl_id: &str,
    start_url: &str,
    urls_crawled: i64,
    urls_errored: i64,
    total_pages: i64,
    errors: u64,
    warnings: u64,
    info: u64,
) -> (r: Option<String>)
    requires
        errors + warnings + info <= u64::MAX,
    ensures
        opt_view(r) == json_pretty(stats_text(crawl_id@, start_url@, urls_crawled, urls_errored, total_pages, errors, warnings, info)),
{
    let t = crawl_stats_text(crawl_id, start_url, urls_crawled, urls_errored, total_pages, errors, warnings, info);
    pretty_json(t.as_str())
}

// ---------------------------------------------------------------------------
// Rate limits and estimates
// ---------------------------------------------------------------------------

/// What to do after a completion response.
#[derive(Debug, Clone, Copy, PartialEq, Eq, Structural)]
pub enum RetryStep {
    /// Hand the response back.
    Accept,
    /// Wait this many seconds and send the request again.
    Wait(u64),
}

/// Rate-limited responses are retried this many times.
pub const MAX_RETRIES: u32 = 3;

/// The backoff before retry `attempt` (0-based): 1, 2, then 4 seconds.
pub open spec fn backoff_secs(attempt: u32) -> u64 {
    if attempt == 0 {
        1
    } else if attempt == 1 {
        2
    } else {
        4
    }
}

/// What follows a response to attempt `attempt` (0-based): a status other
/// than 429 (rate limited) or 529 (overloaded), or any response after the
/// retries are used up, is handed back; otherwise wait as long as the
/// `retry-after` header asks, when it is a whole number of seconds, or the
/// backoff.
pub fn retry_step(attempt: u32, status: u16, retry_after: Option<&str>) -> (r: RetryStep)
    ensures
        (attempt >= MAX_RETRIES || (status != 429 && status != 529)) ==> r == RetryStep::Accept,
        (attempt < MAX_RETRIES && (status == 429 || status == 529)) ==> r == RetryStep::Wait(
            match retry_after {
                Some(h) => match parsed_u64(h@) {
                    Some(n) => n,
                    None => backoff_secs(attempt),
                },
                None => backoff_secs(attempt),
            },
        ),
{
    if attempt >= MAX_RETRIES || (status != 429 && status != 529) {
        return RetryStep::Accept;
    }
    let backoff: u64 = if attempt == 0 {
        1
    } else if attempt == 1 {
        2
    } else {
        4
    };
    let wait = match retry_after {
        Some(h) => match parse_u64(h) {
            Some(n) => n,
            None => backoff,
        },
        None => backoff,
    };
    RetryStep::Wait(wait)
}

/// Tokens assumed per analysis: about 2000 in and 500 out.
pub fn batch_token_estimate(page_count: u64, num_types: u64) -> (r: (u64, u64))
    requires
        page_count * num_types * 2000 <= u64::MAX,
    ensures
        r.0 == page_count * num_types * 2000,
        r.1 == page_count * num_types * 500,
{
    let n = page_count as u128 * num_types as u128;
    assert(n == page_count * num_types) by (nonlinear_arith)
        requires n == page_count as u128 * num_types as u128;
    assert(n <= u64::MAX);
    ((n * 2000) as u64, (n * 500) as u64)
}

} // verus!
