//! Crawl configuration, URL filter and rewrite patterns, and the
//! decisions made from them.

use vstd::prelude::*;
use crate::page::ParsedPage;
use crate::text::{chars_of, string_of, str_eq, strs_view};
use crate::types::CrawlState;
use crate::urls::{parse_url, url_parse_result};

verus! {

#[verifier::external_type_specification]
#[verifier::external_body]
pub struct ExRegex(regex::Regex);

/// Whether a pattern is a valid regular expression.
pub uninterp spec fn regex_valid(pattern: Seq<char>) -> bool;

/// Whether the regular expression `pattern` matches somewhere in `text`.
pub uninterp spec fn regex_is_match(pattern: Seq<char>, text: Seq<char>) -> bool;

/// `text` with every non-overlapping match of `pattern` replaced by
/// `replacement` (with `$` group references expanded).
pub uninterp spec fn regex_replace_all(pattern: Seq<char>, text: Seq<char>, replacement: Seq<char>) -> Seq<char>;

/// A compiled regular expression together with its pattern.
pub struct CompiledRegex {
    pattern: String,
    regex: regex::Regex,
}

/// Calls `regex::Regex::new`; `None` where the pattern is refused.
#[verifier::external_body]
fn compile_regex(pattern: &str) -> (r: Option<regex::Regex>)
    ensures
        r is Some == regex_valid(pattern@),
{
    regex::Regex::new(pattern).ok()
}

impl CompiledRegex {
    pub closed spec fn pattern(self) -> Seq<char> {
        self.pattern@
    }

    /// Compile a pattern; `None` when it is not a valid regular expression.
    pub fn compile(pattern: &str) -> (r: Option<CompiledRegex>)
        ensures
            r is Some == regex_valid(pattern@),
            r matches Some(c) ==> c.pattern() == pattern@,
    {
        match compile_regex(pattern) {
            Some(regex) => Some(CompiledRegex { pattern: string_of(&chars_of(pattern)), regex }),
            None => None,
        }
    }

    /// Calls `regex::Regex::is_match` on the expression compiled from this
    /// value's pattern (only `compile` makes one).
    #[verifier::external_body]
    pub(crate) fn is_match(&self, text: &str) -> (r: bool)
        ensures
            r == regex_is_match(self.pattern(), text@),
    {
        self.regex.is_match(text)
    }

    /// Calls `regex::Regex::replace_all` on the expression compiled from this
    /// value's pattern.
    #[verifier::external_body]
    pub(crate) fn replace_all(&self, text: &str, replacement: &str) -> (r: String)
        ensures
            r@ == regex_replace_all(self.pattern(), text@, replacement@),
    {
        self.regex.replace_all(text, replacement).into_owned()
    }
}

/// Configuration of a crawl.
#[derive(Debug, Clone)]
pub struct CrawlConfig {
    /// Seed URL.
    pub start_url: String,
    /// Maximum link depth to follow.
    pub max_depth: u32,
    /// Global concurrent request cap.
    pub max_concurrency: u32,
    /// Number of fetch workers.
    pub fetch_workers: u32,
    /// Number of parse threads.
    pub parse_threads: u32,
    /// Memory budget in MB.
    pub max_memory_mb: u32,
    /// Whether to obey robots.txt.
    pub respect_robots_txt: bool,
    /// URL patterns a crawled URL must match one of (regular expressions).
    pub include_patterns: Vec<String>,
    /// URL patterns to exclude (regular expressions).
    pub exclude_patterns: Vec<String>,
    /// Per-request timeout in seconds.
    pub request_timeout_secs: u32,
    /// Minimum delay between requests to the same host in ms.
    pub crawl_delay_ms: u32,
    /// Custom User-Agent.
    pub user_agent: Option<String>,
    /// Custom HTTP headers.
    pub custom_headers: Vec<(String, String)>,
    /// Per-host concurrent request limit.
    pub per_host_concurrency: u32,
    /// Maximum number of pages (0 = unlimited).
    pub max_pages: u32,
    /// Whether JavaScript rendering is enabled.
    pub enable_js_rendering: bool,
    /// Maximum concurrent JavaScript renders.
    pub js_render_max_concurrent: u32,
    /// URL patterns always rendered with JavaScript.
    pub js_render_patterns: Vec<String>,
    /// URL patterns never rendered with JavaScript.
    pub js_never_render_patterns: Vec<String>,
    /// Sitemap auto-discovery.
    pub enable_sitemap_discovery: bool,
    /// External link checking.
    pub enable_external_link_check: bool,
    /// Concurrency of external link checks.
    pub external_link_concurrency: u32,
    /// URL rewrite rules as (regular expression, replacement).
    pub url_rewrite_rules: Vec<(String, String)>,
    /// Cookies to send as (name, value).
    pub cookies: Vec<(String, String)>,
    /// Custom CSS selectors as (label, selector).
    pub custom_css_selectors: Vec<(String, String)>,
}

/// Default for `enable_sitemap_discovery` when absent.
pub fn default_true() -> (r: bool)
    ensures
        r,
{
    true
}

/// Default for `js_render_max_concurrent` when absent.
pub fn default_js_render_max_concurrent() -> (r: u32)
    ensures
        r == 2,
{
    2
}

/// Default for `external_link_concurrency` when absent.
pub fn default_external_link_concurrency() -> (r: u32)
    ensures
        r == 5,
{
    5
}

/// Parse threads for a machine with `available` hardware threads (4 when
/// unknown): two fewer, at least one.
pub fn parse_threads_for(available: Option<u32>) -> (r: u32)
    ensures
        r == ({
            let n = match available {
                Some(n) => n as int,
                None => 4,
            };
            if n - 2 >= 1 {
                n - 2
            } else {
                1
            }
        }),
{
    let n = match available {
        Some(n) => n,
        None => 4,
    };
    let m = n.saturating_sub(2);
    if m >= 1 {
        m
    } else {
        1
    }
}

impl CrawlConfig {
    /// The default configuration, with the given number of parse threads.
    pub fn defaults(parse_threads: u32) -> (r: Self)
        ensures
            r.start_url@.len() == 0,
            r.max_depth == 10,
            r.max_concurrency == 50,
            r.fetch_workers == 8,
            r.parse_threads == parse_threads,
            r.max_memory_mb == 512,
            r.respect_robots_txt,
            r.include_patterns@.len() == 0,
            r.exclude_patterns@.len() == 0,
            r.request_timeout_secs == 30,
            r.crawl_delay_ms == 500,
            r.user_agent is None,
            r.custom_headers@.len() == 0,
            r.per_host_concurrency == 2,
            r.max_pages == 0,
            !r.enable_js_rendering,
            r.js_render_max_concurrent == 2,
            r.js_render_patterns@.len() == 0,
            r.js_never_render_patterns@.len() == 0,
            r.enable_sitemap_discovery,
            !r.enable_external_link_check,
            r.external_link_concurrency == 5,
            r.url_rewrite_rules@.len() == 0,
            r.cookies@.len() == 0,
            r.custom_css_selectors@.len() == 0,
    {
        CrawlConfig {
            start_url: String::new(),
            max_depth: 10,
            max_concurrency: 50,
            fetch_workers: 8,
            parse_threads,
            max_memory_mb: 512,
            respect_robots_txt: true,
            include_patterns: Vec::new(),
            exclude_patterns: Vec::new(),
            request_timeout_secs: 30,
            crawl_delay_ms: 500,
            user_agent: None,
            custom_headers: Vec::new(),
            per_host_concurrency: 2,
            max_pages: 0,
            enable_js_rendering: false,
            js_render_max_concurrent: default_js_render_max_concurrent(),
            js_render_patterns: Vec::new(),
            js_never_render_patterns: Vec::new(),
            enable_sitemap_discovery: default_true(),
            enable_external_link_check: false,
            external_link_concurrency: default_external_link_concurrency(),
            url_rewrite_rules: Vec::new(),
            cookies: Vec::new(),
            custom_css_selectors: Vec::new(),
        }
    }
}

/// Why a crawl could not start.
pub open spec fn start_url_problem(url: Seq<char>) -> Option<Seq<char>> {
    if url.len() == 0 {
        Some("Start URL is required"@)
    } else if url_parse_result(url) is Err {
        Some("Invalid start URL"@)
    } else {
        None
    }
}

/// Check the start URL of a configuration.
pub fn validate_start_url(config: &CrawlConfig) -> (r: Result<(), String>)
    ensures
        match start_url_problem(config.start_url@) {
            Some(m) => r matches Err(e) && e@ == m,
            None => r is Ok,
        },
{
    if config.start_url.as_str().is_empty() {
        return Err(string_of(&chars_of("Start URL is required")));
    }
    if parse_url(config.start_url.as_str()).is_err() {
        return Err(string_of(&chars_of("Invalid start URL")));
    }
    Ok(())
}

/// The state of a finished or stored crawl, read from its status text.
pub open spec fn state_from_status(s: Seq<char>) -> CrawlState {
    if s == "completed"@ {
        CrawlState::Completed
    } else if s == "stopped"@ {
        CrawlState::Stopped
    } else if s == "error"@ {
        CrawlState::Error
    } else if s == "paused"@ {
        CrawlState::Paused
    } else if s == "running"@ {
        CrawlState::Running
    } else {
        CrawlState::Created
    }
}

pub fn crawl_state_from_status(s: &str) -> (r: CrawlState)
    ensures
        r == state_from_status(s@),
{
    if str_eq(s, "completed") {
        CrawlState::Completed
    } else if str_eq(s, "stopped") {
        CrawlState::Stopped
    } else if str_eq(s, "error") {
        CrawlState::Error
    } else if str_eq(s, "paused") {
        CrawlState::Paused
    } else if str_eq(s, "running") {
        CrawlState::Running
    } else {
        CrawlState::Created
    }
}

/// State change event of a crawl.
#[derive(Debug, Clone)]
pub struct CrawlStateChange {
    pub crawl_id: String,
    pub state: CrawlState,
}

/// A recently crawled URL, for progress display.
#[derive(Debug, Clone)]
pub struct RecentUrl {
    pub url: String,
    pub status_code: Option<u16>,
    pub response_time_ms: Option<u32>,
}

// ---------------------------------------------------------------------------
// Compiled patterns
// ---------------------------------------------------------------------------

/// The valid patterns of a list, in order.
pub open spec fn valid_patterns(ps: Seq<Seq<char>>) -> Seq<Seq<char>>
    decreases ps.len(),
{
    if ps.len() == 0 {
        Seq::empty()
    } else if regex_valid(ps.last()) {
        valid_patterns(ps.drop_last()).push(ps.last())
    } else {
        valid_patterns(ps.drop_last())
    }
}

/// The rewrite rules whose pattern is valid, in order.
pub open spec fn valid_rules(rs: Seq<(Seq<char>, Seq<char>)>) -> Seq<(Seq<char>, Seq<char>)>
    decreases rs.len(),
{
    if rs.len() == 0 {
        Seq::empty()
    } else if regex_valid(rs.last().0) {
        valid_rules(rs.drop_last()).push(rs.last())
    } else {
        valid_rules(rs.drop_last())
    }
}

pub open spec fn regexes_view(v: Seq<CompiledRegex>) -> Seq<Seq<char>> {
    v.map_values(|r: CompiledRegex| r.pattern())
}

pub open spec fn rules_view(v: Seq<(CompiledRegex, String)>) -> Seq<(Seq<char>, Seq<char>)> {
    v.map_values(|r: (CompiledRegex, String)| (r.0.pattern(), r.1@))
}

pub open spec fn pairs_of(v: Seq<(String, String)>) -> Seq<(Seq<char>, Seq<char>)> {
    v.map_values(|p: (String, String)| (p.0@, p.1@))
}

/// Compile the valid patterns of a list (invalid ones are skipped).
fn compile_all(ps: &Vec<String>) -> (r: Vec<CompiledRegex>)
    ensures
        regexes_view(r@) == valid_patterns(strs_view(ps@)),
{
    let ghost pv = strs_view(ps@);
    let mut out: Vec<CompiledRegex> = Vec::new();
    let mut i: usize = 0;
    while i < ps.len()
        invariant
            i <= ps@.len(),
            pv == strs_view(ps@),
            regexes_view(out@) == valid_patterns(pv.take(i as int)),
        decreases ps.len() - i,
    {
        assert(pv.take(i + 1).drop_last() =~= pv.take(i as int));
        assert(pv.take(i + 1).last() == ps@[i as int]@);
        match CompiledRegex::compile(ps[i].as_str()) {
            Some(c) => {
                let ghost before = regexes_view(out@);
                let ghost cp = c.pattern();
                out.push(c);
                assert(regexes_view(out@) =~= before.push(cp));
            },
            None => {},
        }
        i = i + 1;
    }
    assert(pv.take(ps@.len() as int) =~= pv);
    out
}

/// Pre-compiled patterns for URL filtering, rewriting and JavaScript
/// rendering choices.
pub struct CompiledPatterns {
    pub includes: Vec<CompiledRegex>,
    pub exclude: Vec<CompiledRegex>,
    pub rewrite_rules: Vec<(CompiledRegex, String)>,
    pub js_always: Vec<CompiledRegex>,
    pub js_never: Vec<CompiledRegex>,
}

/// Whether any of the patterns matches the text.
pub open spec fn any_match(ps: Seq<Seq<char>>, text: Seq<char>) -> bool {
    exists|i: int| 0 <= i < ps.len() && regex_is_match(#[trigger] ps[i], text)
}

fn matches_any(ps: &Vec<CompiledRegex>, text: &str) -> (r: bool)
    ensures
        r == any_match(regexes_view(ps@), text@),
{
    let ghost pv = regexes_view(ps@);
    let mut i: usize = 0;
    while i < ps.len()
        invariant
            i <= ps@.len(),
            pv == regexes_view(ps@),
            forall|j: int| 0 <= j < i ==> !regex_is_match(#[trigger] pv[j], text@),
        decreases ps.len() - i,
    {
        if ps[i].is_match(text) {
            assert(pv[i as int] == ps@[i as int].pattern());
            return true;
        }
        assert(pv[i as int] == ps@[i as int].pattern());
        i = i + 1;
    }
    false
}

/// Apply the rewrite rules in order.
pub open spec fn rewritten(rules: Seq<(Seq<char>, Seq<char>)>, url: Seq<char>) -> Seq<char>
    decreases rules.len(),
{
    if rules.len() == 0 {
        url
    } else {
        regex_replace_all(rules.last().0, rewritten(rules.drop_last(), url), rules.last().1)
    }
}

/// The URL to crawl for a discovered one: rewritten by the rules, then kept
/// only when it matches one of the wanted patterns (if any) and no
/// exclude pattern.
pub open spec fn filtered(
    includes: Seq<Seq<char>>,
    exclude: Seq<Seq<char>>,
    rules: Seq<(Seq<char>, Seq<char>)>,
    url: Seq<char>,
) -> Option<Seq<char>> {
    let u = rewritten(rules, url);
    if includes.len() > 0 && !any_match(includes, u) {
        None
    } else if any_match(exclude, u) {
        None
    } else {
        Some(u)
    }
}

impl CompiledPatterns {
    /// Compile the patterns of a configuration; invalid ones are skipped.
    pub fn from_config(config: &CrawlConfig) -> (r: Self)
        ensures
            regexes_view(r.includes@) == valid_patterns(strs_view(config.include_patterns@)),
            regexes_view(r.exclude@) == valid_patterns(strs_view(config.exclude_patterns@)),
            rules_view(r.rewrite_rules@) == valid_rules(pairs_of(config.url_rewrite_rules@)),
            regexes_view(r.js_always@) == valid_patterns(strs_view(config.js_render_patterns@)),
            regexes_view(r.js_never@) == valid_patterns(strs_view(config.js_never_render_patterns@)),
    {
        let includes = compile_all(&config.include_patterns);
        let exclude = compile_all(&config.exclude_patterns);
        let js_always = compile_all(&config.js_render_patterns);
        let js_never = compile_all(&config.js_never_render_patterns);
        let rs = &config.url_rewrite_rules;
        let ghost rv = pairs_of(rs@);
        let mut rules: Vec<(CompiledRegex, String)> = Vec::new();
        let mut i: usize = 0;
        while i < rs.len()
            invariant
                i <= rs@.len(),
                rv == pairs_of(rs@),
                rules_view(rules@) == valid_rules(rv.take(i as int)),
            decreases rs.len() - i,
        {
            assert(rv.take(i + 1).drop_last() =~= rv.take(i as int));
            assert(rv.take(i + 1).last() == (rs@[i as int].0@, rs@[i as int].1@));
            match CompiledRegex::compile(rs[i].0.as_str()) {
                Some(c) => {
                    let ghost before = rules_view(rules@);
                    let ghost item = (c.pattern(), rs@[i as int].1@);
                    rules.push((c, rs[i].1.clone()));
                    assert(rules_view(rules@) =~= before.push(item));
                },
                None => {},
            }
            i = i + 1;
        }
        assert(rv.take(rs@.len() as int) =~= rv);
        CompiledPatterns { includes, exclude, rewrite_rules: rules, js_always, js_never }
    }

    /// Apply the rewrite rules to a URL, then the filters:
    /// the URL to crawl, or `None` when it is filtered out.
    pub fn filter_and_rewrite(&self, url: &str) -> (r: Option<String>)
        ensures
            match r {
                Some(u) => filtered(
                    regexes_view(self.includes@),
                    regexes_view(self.exclude@),
                    rules_view(self.rewrite_rules@),
                    url@,
                ) == Some(u@),
                None => filtered(
                    regexes_view(self.includes@),
                    regexes_view(self.exclude@),
                    rules_view(self.rewrite_rules@),
                    url@,
                ) is None,
            },
    {
        let ghost rv = rules_view(self.rewrite_rules@);
        let mut result = string_of(&chars_of(url));
        let mut i: usize = 0;
        while i < self.rewrite_rules.len()
            invariant
                i <= self.rewrite_rules@.len(),
                rv == rules_view(self.rewrite_rules@),
                result@ == rewritten(rv.take(i as int), url@),
            decreases self.rewrite_rules.len() - i,
        {
            assert(rv.take(i + 1).drop_last() =~= rv.take(i as int));
            assert(rv.take(i + 1).last() == (self.rewrite_rules@[i as int].0.pattern(), self.rewrite_rules@[i as int].1@));
            result = self.rewrite_rules[i].0.replace_all(result.as_str(), self.rewrite_rules[i].1.as_str());
            i = i + 1;
        }
        assert(rv.take(self.rewrite_rules@.len() as int) =~= rv);
        if self.includes.len() > 0 && !matches_any(&self.includes, result.as_str()) {
            return None;
        }
        if matches_any(&self.exclude, result.as_str()) {
            return None;
        }
        Some(result)
    }
}

/// Whether a page should be rendered again with JavaScript: rendering must
/// be enabled; a never-render pattern on the URL says no, an always-render
/// pattern says yes; otherwise a page with under 50 words and at least two
/// scripts (likely a single-page app) is rendered.
pub open spec fn js_render_wanted(
    enabled: bool,
    never: Seq<Seq<char>>,
    always: Seq<Seq<char>>,
    url: Seq<char>,
    word_count: u32,
    scripts: nat,
) -> bool {
    if !enabled {
        false
    } else if any_match(never, url) {
        false
    } else if any_match(always, url) {
        true
    } else {
        word_count < 50 && scripts >= 2
    }
}

/// Whether a parsed page should be re-rendered with JavaScript.
pub fn should_js_render(page: &ParsedPage, config: &CrawlConfig, patterns: &CompiledPatterns) -> (r: bool)
    ensures
        r == js_render_wanted(
            config.enable_js_rendering,
            regexes_view(patterns.js_never@),
            regexes_view(patterns.js_always@),
            page.url@,
            page.word_count,
            page.scripts@.len(),
        ),
{
    if !config.enable_js_rendering {
        return false;
    }
    if matches_any(&patterns.js_never, page.url.as_str()) {
        return false;
    }
    if matches_any(&patterns.js_always, page.url.as_str()) {
        return true;
    }
    page.word_count < 50 && page.scripts.len() >= 2
}

} // verus!
