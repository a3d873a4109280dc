//! Prompt templates for AI analysis features: each builds a completion
//! request for one kind of analysis, with page content cut to fit typical
//! context windows.

use vstd::prelude::*;
use crate::text::{chars_of, string_of, push_lit};
use crate::words::{words, join_words, split_words, join_first_words, vecs_view, decimal,
    push_decimal};

verus! {

/// Maximum words of page content included in a prompt.
pub const MAX_PROMPT_WORDS: usize = 4000;

/// Response format hint.
#[derive(Debug, Clone, Copy, PartialEq, Eq, Structural)]
pub enum ResponseFormat {
    Text,
    Json,
}

/// Request payload for an LLM completion. The sampling temperature is
/// given in tenths (3 means 0.3).
#[derive(Debug, Clone)]
pub struct CompletionRequest {
    pub system_prompt: String,
    pub user_prompt: String,
    pub max_tokens: u32,
    pub temperature_tenths: u32,
    pub response_format: ResponseFormat,
}

/// Response payload from an LLM completion.
#[derive(Debug, Clone)]
pub struct CompletionResponse {
    pub text: String,
    pub input_tokens: u32,
    pub output_tokens: u32,
    pub model: String,
    pub latency_ms: u64,
}

/// Instructions for content quality scoring.
pub const CONTENT_QUALITY_SYSTEM_PROMPT: &'static str = r#"You are an SEO content quality analyst. Evaluate the provided web page content and return a JSON object with the following structure:

{
  "overallScore": <0-100>,
  "relevanceScore": <0-100>,
  "readabilityScore": <0-100>,
  "depthScore": <0-100>,
  "reasoning": "<brief explanation>",
  "suggestions": ["<improvement 1>", "<improvement 2>", ...]
}

Score criteria:
- relevanceScore: How well the content matches the page title/topic. Is it focused?
- readabilityScore: Sentence length, vocabulary level, structure. Lower = harder to read.
- depthScore: Does the content provide substantive information, or is it thin/generic?
- overallScore: Weighted average (relevance 30%, readability 30%, depth 40%)"#;

/// Instructions for meta description generation.
pub const META_DESCRIPTION_SYSTEM_PROMPT: &'static str = r#"You are an SEO specialist. Generate an optimized meta description for the given web page. Return a JSON object:

{
  "suggested": "<the meta description, 150-160 characters>",
  "charCount": <number>,
  "reasoning": "<why this description works>"
}

Guidelines:
- Target 150-160 characters (including spaces)
- Include the primary keyword naturally
- Write a compelling call-to-action or value proposition
- Avoid generic phrases like "Learn more" or "Click here""#;

/// Instructions for title tag suggestions.
pub const TITLE_TAG_SYSTEM_PROMPT: &'static str = r#"You are an SEO specialist. Suggest improved title tags for the given page. Return a JSON object:

{
  "suggestions": [
    {"title": "<suggestion>", "charCount": <number>},
    {"title": "<suggestion>", "charCount": <number>},
    {"title": "<suggestion>", "charCount": <number>}
  ],
  "reasoning": "<why these titles work>"
}

Guidelines:
- Target 50-60 characters each
- Put the primary keyword near the beginning
- Make each suggestion distinct in approach (keyword-focused, benefit-focused, question-based)
- Include the brand name at the end if space permits"#;

/// Instructions for crawl summaries.
pub const CRAWL_SUMMARY_SYSTEM_PROMPT: &'static str = r#"You are an SEO audit specialist. Given the crawl statistics below, generate an executive summary. Return a JSON object:

{
  "summary": "<2-3 paragraph natural language summary>",
  "topActions": [
    "<action item 1>",
    "<action item 2>",
    "<action item 3>",
    "<action item 4>",
    "<action item 5>"
  ],
  "overallHealth": "<good|fair|poor>",
  "criticalIssuesCount": <number>,
  "keyFindings": ["<finding 1>", "<finding 2>", "<finding 3>"]
}

Focus on:
- The most impactful issues (errors first, then warnings)
- Pages with the worst scores
- Patterns across the site (e.g., "40% of pages are missing meta descriptions")
- Actionable next steps prioritized by impact"#;

/// Instructions for structured data recommendations.
pub const STRUCTURED_DATA_SYSTEM_PROMPT: &'static str = r#"You are an SEO structured data specialist. Analyze the web page and recommend appropriate JSON-LD structured data. Return a JSON object:

{
  "pageType": "<detected page type: article, product, faq, local_business, recipe, event, organization, person, other>",
  "recommendedSchemas": [
    {
      "type": "<Schema.org type, e.g. Article, Product, FAQPage>",
      "priority": "<high|medium|low>",
      "reason": "<why this schema fits>",
      "example": "<minimal JSON-LD snippet>"
    }
  ],
  "existingMarkup": "<description of any existing structured data found, or 'none'>",
  "reasoning": "<overall analysis>"
}

Guidelines:
- Identify the primary content type from the page text and URL structure
- Recommend the most impactful Schema.org types (max 3)
- Prioritize schemas that enable rich results in Google Search
- Include minimal but valid JSON-LD examples"#;

/// Instructions for accessibility narratives.
pub const ACCESSIBILITY_SYSTEM_PROMPT: &'static str = r#"You are a web accessibility specialist following WCAG 2.1 guidelines. Analyze the page context and provide plain-English accessibility remediation guidance. Return a JSON object:

{
  "overallRating": "<good|fair|poor>",
  "issues": [
    {
      "wcagCriterion": "<e.g. 1.1.1 Non-text Content>",
      "level": "<A|AA|AAA>",
      "description": "<plain-English description of the issue>",
      "remediation": "<specific, actionable fix instructions>",
      "priority": "<high|medium|low>"
    }
  ],
  "positives": ["<things the page does well>"],
  "reasoning": "<overall accessibility assessment>"
}

Focus on:
- Image alt text completeness
- Heading hierarchy and document structure
- Link text descriptiveness
- Color contrast and readability considerations
- Keyboard navigation implications"#;

/// The text cut to its first `max_words` whitespace-separated words (joined
/// by single spaces, followed by ` [... truncated]`) when it has more; the
/// text itself otherwise.
pub open spec fn truncated(text: Seq<char>, max_words: nat) -> Seq<char> {
    let ws = words(text);
    if ws.len() <= max_words {
        text
    } else {
        join_words(ws.take(max_words as int)) + " [... truncated]"@
    }
}

/// Truncate text to approximately `max_words` words.
pub fn truncate_to_words(text: &str, max_words: usize) -> (r: String)
    ensures
        r@ == truncated(text@, max_words as nat),
{
    let cs = chars_of(text);
    let ws = split_words(&cs);
    if ws.len() <= max_words {
        string_of(&cs)
    } else {
        let mut out = join_first_words(&ws, max_words);
        push_lit(&mut out, " [... truncated]");
        string_of(&out)
    }
}

/// The title to show: the title, or `(no title)`.
pub open spec fn title_or_placeholder(title: Option<&str>) -> Seq<char> {
    match title {
        Some(t) => t@,
        None => "(no title)"@,
    }
}

fn push_title(out: &mut Vec<char>, title: Option<&str>)
    ensures
        final(out)@ == old(out)@ + title_or_placeholder(title),
{
    match title {
        Some(t) => push_lit(out, t),
        None => push_lit(out, "(no title)"),
    }
}

/// A line `prefix` + text when there is a text, nothing otherwise.
pub open spec fn optional_line(prefix: Seq<char>, t: Option<&str>) -> Seq<char> {
    match t {
        Some(x) => prefix + x@,
        None => Seq::empty(),
    }
}

/// User prompt of a content quality request.
pub open spec fn content_quality_prompt(page_text: Seq<char>, url: Seq<char>, title: Option<&str>) -> Seq<char> {
    "URL: "@ + url + "\nTitle: "@ + title_or_placeholder(title) + "\n\nPage content:\n"@
        + truncated(page_text, MAX_PROMPT_WORDS as nat)
}

/// Build a content quality scoring request.
pub fn content_quality_request(page_text: &str, url: &str, title: Option<&str>) -> (r: CompletionRequest)
    ensures
        r.system_prompt@ == CONTENT_QUALITY_SYSTEM_PROMPT@,
        r.user_prompt@ == content_quality_prompt(page_text@, url@, title),
        r.max_tokens == 500,
        r.temperature_tenths == 3,
        r.response_format == ResponseFormat::Json,
{
    let truncated = truncate_to_words(page_text, MAX_PROMPT_WORDS);
    let mut p: Vec<char> = Vec::new();
    push_lit(&mut p, "URL: ");
    push_lit(&mut p, url);
    push_lit(&mut p, "\nTitle: ");
    push_title(&mut p, title);
    push_lit(&mut p, "\n\nPage content:\n");
    push_lit(&mut p, truncated.as_str());
    CompletionRequest {
        system_prompt: string_of(&chars_of(CONTENT_QUALITY_SYSTEM_PROMPT)),
        user_prompt: string_of(&p),
        max_tokens: 500,
        temperature_tenths: 3,
        response_format: ResponseFormat::Json,
    }
}

/// User prompt of a meta description request.
pub open spec fn meta_description_prompt(page_text: Seq<char>, title: Option<&str>, current_desc: Option<&str>) -> Seq<char> {
    "Title: "@ + title_or_placeholder(title) + optional_line("\nCurrent meta description: "@, current_desc)
        + "\n\nPage content:\n"@ + truncated(page_text, MAX_PROMPT_WORDS as nat)
}

/// Build a meta description generation request.
pub fn meta_description_request(page_text: &str, title: Option<&str>, current_desc: Option<&str>) -> (r: CompletionRequest)
    ensures
        r.system_prompt@ == META_DESCRIPTION_SYSTEM_PROMPT@,
        r.user_prompt@ == meta_description_prompt(page_text@, title, current_desc),
        r.max_tokens == 300,
        r.temperature_tenths == 5,
        r.response_format == ResponseFormat::Json,
{
    let truncated = truncate_to_words(page_text, MAX_PROMPT_WORDS);
    let mut p: Vec<char> = Vec::new();
    push_lit(&mut p, "Title: ");
    push_title(&mut p, title);
    if let Some(d) = current_desc {
        push_lit(&mut p, "\nCurrent meta description: ");
        push_lit(&mut p, d);
    }
    push_lit(&mut p, "\n\nPage content:\n");
    push_lit(&mut p, truncated.as_str());
    CompletionRequest {
        system_prompt: string_of(&chars_of(META_DESCRIPTION_SYSTEM_PROMPT)),
        user_prompt: string_of(&p),
        max_tokens: 300,
        temperature_tenths: 5,
        response_format: ResponseFormat::Json,
    }
}

/// User prompt of a title tag request.
pub open spec fn title_tag_prompt(page_text: Seq<char>, current_title: Option<&str>, url: Seq<char>) -> Seq<char> {
    "URL: "@ + url + optional_line("\nCurrent title: "@, current_title) + "\n\nPage content:\n"@
        + truncated(page_text, MAX_PROMPT_WORDS as nat)
}

/// Build a title tag suggestion request.
pub fn title_tag_request(page_text: &str, current_title: Option<&str>, url: &str) -> (r: CompletionRequest)
    ensures
        r.system_prompt@ == TITLE_TAG_SYSTEM_PROMPT@,
        r.user_prompt@ == title_tag_prompt(page_text@, current_title, url@),
        r.max_tokens == 400,
        r.temperature_tenths == 5,
        r.response_format == ResponseFormat::Json,
{
    let truncated = truncate_to_words(page_text, MAX_PROMPT_WORDS);
    let mut p: Vec<char> = Vec::new();
    push_lit(&mut p, "URL: ");
    push_lit(&mut p, url);
    if let Some(t) = current_title {
        push_lit(&mut p, "\nCurrent title: ");
        push_lit(&mut p, t);
    }
    push_lit(&mut p, "\n\nPage content:\n");
    push_lit(&mut p, truncated.as_str());
    CompletionRequest {
        system_prompt: string_of(&chars_of(TITLE_TAG_SYSTEM_PROMPT)),
        user_prompt: string_of(&p),
        max_tokens: 400,
        temperature_tenths: 5,
        response_format: ResponseFormat::Json,
    }
}

/// Build a crawl summary generation request.
pub fn crawl_summary_request(stats_json: &str) -> (r: CompletionRequest)
    ensures
        r.system_prompt@ == CRAWL_SUMMARY_SYSTEM_PROMPT@,
        r.user_prompt@ == "Crawl statistics:\n"@ + stats_json@,
        r.max_tokens == 800,
        r.temperature_tenths == 3,
        r.response_format == ResponseFormat::Json,
{
    let mut p: Vec<char> = Vec::new();
    push_lit(&mut p, "Crawl statistics:\n");
    push_lit(&mut p, stats_json);
    CompletionRequest {
        system_prompt: string_of(&chars_of(CRAWL_SUMMARY_SYSTEM_PROMPT)),
        user_prompt: string_of(&p),
        max_tokens: 800,
        temperature_tenths: 3,
        response_format: ResponseFormat::Json,
    }
}

/// Build a structured data recommendation request.
pub fn structured_data_request(page_text: &str, url: &str, title: Option<&str>) -> (r: CompletionRequest)
    ensures
        r.system_prompt@ == STRUCTURED_DATA_SYSTEM_PROMPT@,
        r.user_prompt@ == content_quality_prompt(page_text@, url@, title),
        r.max_tokens == 800,
        r.temperature_tenths == 3,
        r.response_format == ResponseFormat::Json,
{
    let truncated = truncate_to_words(page_text, MAX_PROMPT_WORDS);
    let mut p: Vec<char> = Vec::new();
    push_lit(&mut p, "URL: ");
    push_lit(&mut p, url);
    push_lit(&mut p, "\nTitle: ");
    push_title(&mut p, title);
    push_lit(&mut p, "\n\nPage content:\n");
    push_lit(&mut p, truncated.as_str());
    CompletionRequest {
        system_prompt: string_of(&chars_of(STRUCTURED_DATA_SYSTEM_PROMPT)),
        user_prompt: string_of(&p),
        max_tokens: 800,
        temperature_tenths: 3,
        response_format: ResponseFormat::Json,
    }
}

/// Texts joined by `sep`.
pub open spec fn join_with(parts: Seq<Seq<char>>, sep: Seq<char>) -> Seq<char>
    decreases parts.len(),
{
    if parts.len() == 0 {
        Seq::empty()
    } else if parts.len() == 1 {
        parts[0]
    } else {
        join_with(parts.drop_last(), sep) + sep + parts.last()
    }
}

/// Append the texts joined by `sep`.
pub fn push_joined(out: &mut Vec<char>, parts: &Vec<String>, sep: &str)
    ensures
        final(out)@ == old(out)@ + join_with(crate::text::strs_view(parts@), sep@),
{
    let ghost start = out@;
    let mut i: usize = 0;
    while i < parts.len()
        invariant
            i <= parts@.len(),
            out@ == start + join_with(crate::text::strs_view(parts@).take(i as int), sep@),
        decreases parts.len() - i,
    {
        let ghost before = out@;
        if i > 0 {
            push_lit(out, sep);
        }
        push_lit(out, parts[i].as_str());
        proof {
            let t = crate::text::strs_view(parts@).take(i + 1);
            assert(t.drop_last() =~= crate::text::strs_view(parts@).take(i as int));
            assert(t.last() == parts@[i as int]@);
            if i == 0 {
                assert(out@ =~= start + t[0]);
            } else {
                assert(out@ =~= start + (join_with(t.drop_last(), sep@) + sep@ + t.last()));
            }
        }
        i = i + 1;
    }
    assert(crate::text::strs_view(parts@).take(parts@.len() as int) =~= crate::text::strs_view(parts@));
}

/// The H1 list of an accessibility prompt: the headings joined by `, `, or
/// `none`.
pub open spec fn h1_list(h1s: Seq<Seq<char>>) -> Seq<char> {
    if h1s.len() == 0 {
        "none"@
    } else {
        join_with(h1s, ", "@)
    }
}

/// User prompt of an accessibility request.
pub open spec fn accessibility_prompt(
    page_text: Seq<char>,
    url: Seq<char>,
    title: Option<&str>,
    h1s: Seq<Seq<char>>,
    images_without_alt: nat,
) -> Seq<char> {
    "URL: "@ + url + "\nTitle: "@ + title_or_placeholder(title) + "\nH1 headings: "@ + h1_list(h1s)
        + "\nImages without alt text: "@ + decimal(images_without_alt) + "\n\nPage content:\n"@
        + truncated(page_text, MAX_PROMPT_WORDS as nat)
}

/// Build an accessibility narrative request.
pub fn accessibility_request(
    page_text: &str,
    url: &str,
    title: Option<&str>,
    h1s: &Vec<String>,
    images_without_alt: u32,
) -> (r: CompletionRequest)
    ensures
        r.system_prompt@ == ACCESSIBILITY_SYSTEM_PROMPT@,
        r.user_prompt@ == accessibility_prompt(
            page_text@,
            url@,
            title,
            crate::text::strs_view(h1s@),
            images_without_alt as nat,
        ),
        r.max_tokens == 800,
        r.temperature_tenths == 3,
        r.response_format == ResponseFormat::Json,
{
    let truncated = truncate_to_words(page_text, MAX_PROMPT_WORDS);
    let mut p: Vec<char> = Vec::new();
    push_lit(&mut p, "URL: ");
    push_lit(&mut p, url);
    push_lit(&mut p, "\nTitle: ");
    push_title(&mut p, title);
    push_lit(&mut p, "\nH1 headings: ");
    if h1s.len() == 0 {
        push_lit(&mut p, "none");
    } else {
        push_joined(&mut p, h1s, ", ");
    }
    push_lit(&mut p, "\nImages without alt text: ");
    push_decimal(&mut p, images_without_alt as u64);
    push_lit(&mut p, "\n\nPage content:\n");
    push_lit(&mut p, truncated.as_str());
    CompletionRequest {
        system_prompt: string_of(&chars_of(ACCESSIBILITY_SYSTEM_PROMPT)),
        user_prompt: string_of(&p),
        max_tokens: 800,
        temperature_tenths: 3,
        response_format: ResponseFormat::Json,
    }
}

} // verus!
