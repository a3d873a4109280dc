//! SEO issues, their structured detail, and the context rules run in.

use vstd::prelude::*;
use crate::types::{RuleCategory, Severity};
use crate::text::{strs_view, clone_strs};

verus! {

/// Rule-specific structured detail attached to an issue.
#[derive(Debug, Clone)]
pub enum IssueDetail {
    /// `{"length", "min", "max"}` of a length check.
    Lengths { length: usize, min: usize, max: usize },
    /// `{"h1s"}`: the H1 headings of the page.
    H1s { h1s: Vec<String> },
    /// `{"canonical", "page_url"}`.
    Canonical { canonical: String, page_url: String },
    /// `{"word_count", "min_words"}`.
    WordCount { word_count: u32, min_words: u32 },
    /// `{"images"}`: image sources.
    Images { images: Vec<String> },
    /// `{"links"}`: link targets.
    Links { links: Vec<String> },
    /// `{"body_size", "threshold"}`.
    BodySize { body_size: usize, threshold: usize },
    /// `{"response_time_ms", "threshold_ms"}`.
    ResponseTime { response_time_ms: u32, threshold_ms: u32 },
    /// `{"render_blocking_scripts", "threshold", "type": "scripts"}`.
    BlockingScripts { count: u32, threshold: u32 },
    /// `{"render_blocking_stylesheets", "threshold", "type": "stylesheets"}`.
    BlockingStylesheets { count: u32, threshold: u32 },
    /// `{"http_resources"}`: insecure resource URLs.
    HttpResources { http_resources: Vec<String> },
    /// Detail given as JSON text (from a plugin); the text is valid JSON.
    Json { text: String },
}

/// An SEO issue detected by a rule.
#[derive(Debug, Clone)]
pub struct Issue {
    /// The rule that generated this issue (e.g., "meta.title_missing").
    pub rule_id: String,
    pub severity: Severity,
    pub category: RuleCategory,
    /// Human-readable issue description.
    pub message: String,
    pub detail: Option<IssueDetail>,
}

/// Context available to rules during evaluation.
#[derive(Debug, Clone)]
pub struct CrawlContext {
    /// The crawl's root domain.
    pub root_domain: String,
    /// Whether cross-page analysis data is available (post-crawl only).
    pub cross_page_available: bool,
}

/// Mathematical form of an issue detail.
pub enum DetailV {
    Lengths { length: nat, min: nat, max: nat },
    H1s { h1s: Seq<Seq<char>> },
    Canonical { canonical: Seq<char>, page_url: Seq<char> },
    WordCount { word_count: nat, min_words: nat },
    Images { images: Seq<Seq<char>> },
    Links { links: Seq<Seq<char>> },
    BodySize { body_size: nat, threshold: nat },
    ResponseTime { response_time_ms: nat, threshold_ms: nat },
    BlockingScripts { count: nat, threshold: nat },
    BlockingStylesheets { count: nat, threshold: nat },
    HttpResources { http_resources: Seq<Seq<char>> },
    Json { text: Seq<char> },
}

/// Mathematical form of an issue.
pub struct IssueV {
    pub rule_id: Seq<char>,
    pub severity: Severity,
    pub category: RuleCategory,
    pub message: Seq<char>,
    pub detail: Option<DetailV>,
}

/// The mathematical form of a detail.
pub open spec fn detail_view(d: IssueDetail) -> DetailV {
    match d {
        IssueDetail::Lengths { length, min, max } => DetailV::Lengths {
            length: length as nat,
            min: min as nat,
            max: max as nat,
        },
        IssueDetail::H1s { h1s } => DetailV::H1s { h1s: strs_view(h1s@) },
        IssueDetail::Canonical { canonical, page_url } => DetailV::Canonical {
            canonical: canonical@,
            page_url: page_url@,
        },
        IssueDetail::WordCount { word_count, min_words } => DetailV::WordCount {
            word_count: word_count as nat,
            min_words: min_words as nat,
        },
        IssueDetail::Images { images } => DetailV::Images { images: strs_view(images@) },
        IssueDetail::Links { links } => DetailV::Links { links: strs_view(links@) },
        IssueDetail::BodySize { body_size, threshold } => DetailV::BodySize {
            body_size: body_size as nat,
            threshold: threshold as nat,
        },
        IssueDetail::ResponseTime { response_time_ms, threshold_ms } => DetailV::ResponseTime {
            response_time_ms: response_time_ms as nat,
            threshold_ms: threshold_ms as nat,
        },
        IssueDetail::BlockingScripts { count, threshold } => DetailV::BlockingScripts {
            count: count as nat,
            threshold: threshold as nat,
        },
        IssueDetail::BlockingStylesheets { count, threshold } => DetailV::BlockingStylesheets {
            count: count as nat,
            threshold: threshold as nat,
        },
        IssueDetail::HttpResources { http_resources } => DetailV::HttpResources {
            http_resources: strs_view(http_resources@),
        },
        IssueDetail::Json { text } => DetailV::Json { text: text@ },
    }
}

/// The mathematical form of an issue.
pub open spec fn issue_view(i: Issue) -> IssueV {
    IssueV {
        rule_id: i.rule_id@,
        severity: i.severity,
        category: i.category,
        message: i.message@,
        detail: match i.detail {
            Some(d) => Some(detail_view(d)),
            None => None,
        },
    }
}

/// The mathematical form of a list of issues.
pub open spec fn issues_view(s: Seq<Issue>) -> Seq<IssueV> {
    s.map_values(|i: Issue| issue_view(i))
}

/// An issue without detail.
pub open spec fn plain_issue(
    rule_id: Seq<char>,
    severity: Severity,
    category: RuleCategory,
    message: Seq<char>,
) -> IssueV {
    IssueV { rule_id, severity, category, message, detail: None }
}

/// Append `b` to `a`, keeping the views in step.
pub fn append_issues(a: &mut Vec<Issue>, b: Vec<Issue>)
    ensures
        issues_view(final(a)@) == issues_view(old(a)@) + issues_view(b@),
{
    let mut b = b;
    let ghost a0 = a@;
    let ghost b0 = b@;
    a.append(&mut b);
    assert(a@ == a0 + b0);
    assert(issues_view(a@) =~= issues_view(a0) + issues_view(b0));
}


/// A copy of a detail.
pub fn clone_detail(d: &IssueDetail) -> (r: IssueDetail)
    ensures
        detail_view(r) == detail_view(*d),
{
    match d {
        IssueDetail::Lengths { length, min, max } => IssueDetail::Lengths {
            length: *length,
            min: *min,
            max: *max,
        },
        IssueDetail::H1s { h1s } => IssueDetail::H1s { h1s: clone_strs(h1s) },
        IssueDetail::Canonical { canonical, page_url } => IssueDetail::Canonical {
            canonical: canonical.clone(),
            page_url: page_url.clone(),
        },
        IssueDetail::WordCount { word_count, min_words } => IssueDetail::WordCount {
            word_count: *word_count,
            min_words: *min_words,
        },
        IssueDetail::Images { images } => IssueDetail::Images { images: clone_strs(images) },
        IssueDetail::Links { links } => IssueDetail::Links { links: clone_strs(links) },
        IssueDetail::BodySize { body_size, threshold } => IssueDetail::BodySize {
            body_size: *body_size,
            threshold: *threshold,
        },
        IssueDetail::ResponseTime { response_time_ms, threshold_ms } => IssueDetail::ResponseTime {
            response_time_ms: *response_time_ms,
            threshold_ms: *threshold_ms,
        },
        IssueDetail::BlockingScripts { count, threshold } => IssueDetail::BlockingScripts {
            count: *count,
            threshold: *threshold,
        },
        IssueDetail::BlockingStylesheets { count, threshold } => IssueDetail::BlockingStylesheets {
            count: *count,
            threshold: *threshold,
        },
        IssueDetail::HttpResources { http_resources } => IssueDetail::HttpResources {
            http_resources: clone_strs(http_resources),
        },
        IssueDetail::Json { text } => IssueDetail::Json { text: text.clone() },
    }
}

/// A copy of an issue with its severity replaced.
pub fn with_severity(i: &Issue, severity: Severity) -> (r: Issue)
    ensures
        issue_view(r) == (IssueV { severity, ..issue_view(*i) }),
{
    let detail = match &i.detail {
        Some(d) => Some(clone_detail(d)),
        None => None,
    };
    Issue {
        rule_id: i.rule_id.clone(),
        severity,
        category: i.category,
        message: i.message.clone(),
        detail,
    }
}

/// The issues with every severity replaced by `s`.
pub open spec fn override_severity(issues: Seq<IssueV>, s: Severity) -> Seq<IssueV> {
    issues.map_values(|i: IssueV| IssueV { severity: s, ..i })
}

/// Replace the severity of every issue.
pub fn set_severities(issues: &Vec<Issue>, s: Severity) -> (r: Vec<Issue>)
    ensures
        issues_view(r@) == override_severity(issues_view(issues@), s),
{
    let mut r: Vec<Issue> = Vec::new();
    let mut i: usize = 0;
    while i < issues.len()
        invariant
            i <= issues.len(),
            issues_view(r@) == override_severity(issues_view(issues@.take(i as int)), s),
        decreases issues.len() - i,
    {
        let ghost before = issues_view(r@);
        r.push(with_severity(&issues[i], s));
        assert(issues_view(r@) =~= before.push(IssueV { severity: s, ..issue_view(issues@[i as int]) }));
        assert(issues@.take(i + 1) =~= issues@.take(i as int).push(issues@[i as int]));
        assert(override_severity(issues_view(issues@.take(i + 1)), s) =~= override_severity(
            issues_view(issues@.take(i as int)),
            s,
        ).push(IssueV { severity: s, ..issue_view(issues@[i as int]) }));
        i = i + 1;
    }
    assert(issues@.take(issues.len() as int) =~= issues@);
    r
}

} // verus!
