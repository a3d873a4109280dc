//! Rule registry: holds the rules of a crawl, their enabled state and
//! severity overrides, applies configuration, and evaluates pages.

use vstd::prelude::*;
use crate::issue::{Issue, IssueV, CrawlContext, issues_view, override_severity, set_severities,
    append_issues};
use crate::page::ParsedPage;
use crate::rules_content::{H1Missing, H1Multiple, HeadingHierarchy, ThinContent,
    h1_missing_issues, h1_multiple_issues, heading_hierarchy_issues, thin_content_issues};
use crate::rules_meta::{TitleMissing, TitleLength, DescMissing, DescLength, CanonicalMissing,
    CanonicalMismatch, ViewportMissing, title_missing_issues, title_length_issues,
    desc_missing_issues, desc_length_issues, canonical_missing_issues, canonical_mismatch_issues,
    viewport_missing_issues};
use crate::rules_other::{BrokenInternal, RedirectChain, NofollowInternal, AltMissing, AltEmpty,
    MixedContent, HttpPage, nofollow_internal_issues, alt_missing_issues, alt_empty_issues,
    mixed_content_issues, http_page_issues};
use crate::rules_perf::{LargePage, SlowResponse, RenderBlocking, large_page_issues,
    slow_response_issues, render_blocking_issues};
use crate::text::{chars_of, str_eq, string_of};
use crate::types::{RuleCategory, Severity, severity_from_code, severity_debug_name,
    category_debug_name};

verus! {

// ---------------------------------------------------------------------------
// Rules
// ---------------------------------------------------------------------------

/// One of the built-in rules, with its parameters.
#[derive(Debug, Clone, Copy)]
pub enum BuiltinRule {
    TitleMissing(TitleMissing),
    TitleLength(TitleLength),
    DescMissing(DescMissing),
    DescLength(DescLength),
    CanonicalMissing(CanonicalMissing),
    CanonicalMismatch(CanonicalMismatch),
    ViewportMissing(ViewportMissing),
    H1Missing(H1Missing),
    H1Multiple(H1Multiple),
    HeadingHierarchy(HeadingHierarchy),
    ThinContent(ThinContent),
    BrokenInternal(BrokenInternal),
    RedirectChain(RedirectChain),
    NofollowInternal(NofollowInternal),
    AltMissing(AltMissing),
    AltEmpty(AltEmpty),
    LargePage(LargePage),
    SlowResponse(SlowResponse),
    RenderBlocking(RenderBlocking),
    MixedContent(MixedContent),
    HttpPage(HttpPage),
}

/// A rule supplied by a plugin. Its evaluation is not wired up yet, so it
/// reports no issues; it carries the metadata the plugin declared.
#[derive(Debug, Clone)]
pub struct PluginRule {
    pub plugin_name: String,
    pub id: String,
    pub name: String,
    pub category: RuleCategory,
    pub default_severity: Severity,
    pub fuel_limit: u64,
}

/// A rule held by the registry.
#[derive(Debug, Clone)]
pub enum RuleEntry {
    Builtin(BuiltinRule),
    Plugin(PluginRule),
}

/// The identifier of a built-in rule.
pub open spec fn builtin_id(r: BuiltinRule) -> Seq<char> {
    match r {
        BuiltinRule::TitleMissing(_) => "meta.title_missing"@,
        BuiltinRule::TitleLength(_) => "meta.title_length"@,
        BuiltinRule::DescMissing(_) => "meta.desc_missing"@,
        BuiltinRule::DescLength(_) => "meta.desc_length"@,
        BuiltinRule::CanonicalMissing(_) => "meta.canonical_missing"@,
        BuiltinRule::CanonicalMismatch(_) => "meta.canonical_mismatch"@,
        BuiltinRule::ViewportMissing(_) => "meta.viewport_missing"@,
        BuiltinRule::H1Missing(_) => "content.h1_missing"@,
        BuiltinRule::H1Multiple(_) => "content.h1_multiple"@,
        BuiltinRule::HeadingHierarchy(_) => "content.heading_hierarchy"@,
        BuiltinRule::ThinContent(_) => "content.thin_content"@,
        BuiltinRule::BrokenInternal(_) => "links.broken_internal"@,
        BuiltinRule::RedirectChain(_) => "links.redirect_chain"@,
        BuiltinRule::NofollowInternal(_) => "links.nofollow_internal"@,
        BuiltinRule::AltMissing(_) => "images.alt_missing"@,
        BuiltinRule::AltEmpty(_) => "images.alt_empty"@,
        BuiltinRule::LargePage(_) => "perf.large_page"@,
        BuiltinRule::SlowResponse(_) => "perf.slow_response"@,
        BuiltinRule::RenderBlocking(_) => "perf.render_blocking"@,
        BuiltinRule::MixedContent(_) => "security.mixed_content"@,
        BuiltinRule::HttpPage(_) => "security.http_page"@,
    }
}

/// The human-readable name of a built-in rule.
pub open spec fn builtin_name(r: BuiltinRule) -> Seq<char> {
    match r {
        BuiltinRule::TitleMissing(_) => "Missing Title Tag"@,
        BuiltinRule::TitleLength(_) => "Title Tag Length"@,
        BuiltinRule::DescMissing(_) => "Missing Meta Description"@,
        BuiltinRule::DescLength(_) => "Meta Description Length"@,
        BuiltinRule::CanonicalMissing(_) => "Missing Canonical Tag"@,
        BuiltinRule::CanonicalMismatch(_) => "Canonical URL Mismatch"@,
        BuiltinRule::ViewportMissing(_) => "Missing Viewport Meta Tag"@,
        BuiltinRule::H1Missing(_) => "Missing H1 Tag"@,
        BuiltinRule::H1Multiple(_) => "Multiple H1 Tags"@,
        BuiltinRule::HeadingHierarchy(_) => "Heading Hierarchy Skip"@,
        BuiltinRule::ThinContent(_) => "Thin Content"@,
        BuiltinRule::BrokenInternal(_) => "Broken Internal Link"@,
        BuiltinRule::RedirectChain(_) => "Redirect Chain"@,
        BuiltinRule::NofollowInternal(_) => "Internal Nofollow Link"@,
        BuiltinRule::AltMissing(_) => "Image Missing Alt Attribute"@,
        BuiltinRule::AltEmpty(_) => "Image With Empty Alt"@,
        BuiltinRule::LargePage(_) => "Large Page Size"@,
        BuiltinRule::SlowResponse(_) => "Slow Response Time"@,
        BuiltinRule::RenderBlocking(_) => "Render-Blocking Resources"@,
        BuiltinRule::MixedContent(_) => "Mixed Content"@,
        BuiltinRule::HttpPage(_) => "Page Served Over HTTP"@,
    }
}

/// The category of a built-in rule.
pub open spec fn builtin_category(r: BuiltinRule) -> RuleCategory {
    match r {
        BuiltinRule::TitleMissing(_) => RuleCategory::Meta,
        BuiltinRule::TitleLength(_) => RuleCategory::Meta,
        BuiltinRule::DescMissing(_) => RuleCategory::Meta,
        BuiltinRule::DescLength(_) => RuleCategory::Meta,
        BuiltinRule::CanonicalMissing(_) => RuleCategory::Meta,
        BuiltinRule::CanonicalMismatch(_) => RuleCategory::Meta,
        BuiltinRule::ViewportMissing(_) => RuleCategory::Meta,
        BuiltinRule::H1Missing(_) => RuleCategory::Content,
        BuiltinRule::H1Multiple(_) => RuleCategory::Content,
        BuiltinRule::HeadingHierarchy(_) => RuleCategory::Content,
        BuiltinRule::ThinContent(_) => RuleCategory::Content,
        BuiltinRule::BrokenInternal(_) => RuleCategory::Links,
        BuiltinRule::RedirectChain(_) => RuleCategory::Links,
        BuiltinRule::NofollowInternal(_) => RuleCategory::Links,
        BuiltinRule::AltMissing(_) => RuleCategory::Images,
        BuiltinRule::AltEmpty(_) => RuleCategory::Images,
        BuiltinRule::LargePage(_) => RuleCategory::Performance,
        BuiltinRule::SlowResponse(_) => RuleCategory::Performance,
        BuiltinRule::RenderBlocking(_) => RuleCategory::Performance,
        BuiltinRule::MixedContent(_) => RuleCategory::Security,
        BuiltinRule::HttpPage(_) => RuleCategory::Security,
    }
}

/// The default severity of a built-in rule.
pub open spec fn builtin_default_severity(r: BuiltinRule) -> Severity {
    match r {
        BuiltinRule::TitleMissing(_) => Severity::Error,
        BuiltinRule::TitleLength(_) => Severity::Warning,
        BuiltinRule::DescMissing(_) => Severity::Warning,
        BuiltinRule::DescLength(_) => Severity::Warning,
        BuiltinRule::CanonicalMissing(_) => Severity::Warning,
        BuiltinRule::CanonicalMismatch(_) => Severity::Info,
        BuiltinRule::ViewportMissing(_) => Severity::Warning,
        BuiltinRule::H1Missing(_) => Severity::Warning,
        BuiltinRule::H1Multiple(_) => Severity::Warning,
        BuiltinRule::HeadingHierarchy(_) => Severity::Info,
        BuiltinRule::ThinContent(_) => Severity::Warning,
        BuiltinRule::BrokenInternal(_) => Severity::Error,
        BuiltinRule::RedirectChain(_) => Severity::Warning,
        BuiltinRule::NofollowInternal(_) => Severity::Info,
        BuiltinRule::AltMissing(_) => Severity::Warning,
        BuiltinRule::AltEmpty(_) => Severity::Info,
        BuiltinRule::LargePage(_) => Severity::Warning,
        BuiltinRule::SlowResponse(_) => Severity::Warning,
        BuiltinRule::RenderBlocking(_) => Severity::Warning,
        BuiltinRule::MixedContent(_) => Severity::Error,
        BuiltinRule::HttpPage(_) => Severity::Warning,
    }
}

/// The issues a built-in rule reports on a page.
pub open spec fn builtin_issues(r: BuiltinRule, page: ParsedPage) -> Seq<IssueV> {
    match r {
        BuiltinRule::TitleMissing(_) => title_missing_issues(page),
        BuiltinRule::TitleLength(x) => title_length_issues(x, page),
        BuiltinRule::DescMissing(_) => desc_missing_issues(page),
        BuiltinRule::DescLength(x) => desc_length_issues(x, page),
        BuiltinRule::CanonicalMissing(_) => canonical_missing_issues(page),
        BuiltinRule::CanonicalMismatch(_) => canonical_mismatch_issues(page),
        BuiltinRule::ViewportMissing(_) => viewport_missing_issues(page),
        BuiltinRule::H1Missing(_) => h1_missing_issues(page),
        BuiltinRule::H1Multiple(_) => h1_multiple_issues(page),
        BuiltinRule::HeadingHierarchy(_) => heading_hierarchy_issues(page),
        BuiltinRule::ThinContent(x) => thin_content_issues(x, page),
        BuiltinRule::BrokenInternal(_) => Seq::empty(),
        BuiltinRule::RedirectChain(_) => Seq::empty(),
        BuiltinRule::NofollowInternal(_) => nofollow_internal_issues(page),
        BuiltinRule::AltMissing(_) => alt_missing_issues(page),
        BuiltinRule::AltEmpty(_) => alt_empty_issues(page),
        BuiltinRule::LargePage(x) => large_page_issues(x, page),
        BuiltinRule::SlowResponse(x) => slow_response_issues(x, page),
        BuiltinRule::RenderBlocking(x) => render_blocking_issues(x, page),
        BuiltinRule::MixedContent(_) => mixed_content_issues(page),
        BuiltinRule::HttpPage(_) => http_page_issues(page),
    }
}

/// The identifier of a registered rule.
pub open spec fn entry_id(e: RuleEntry) -> Seq<char> {
    match e {
        RuleEntry::Builtin(b) => builtin_id(b),
        RuleEntry::Plugin(p) => p.id@,
    }
}

/// A registered rule as listed for the settings screen: identifier, name,
/// and the debug names of its category and default severity.
pub open spec fn rule_row(e: RuleEntry) -> (Seq<char>, Seq<char>, Seq<char>, Seq<char>) {
    match e {
        RuleEntry::Builtin(b) => (
            builtin_id(b),
            builtin_name(b),
            category_debug_name(builtin_category(b)),
            severity_debug_name(builtin_default_severity(b)),
        ),
        RuleEntry::Plugin(p) => (
            p.id@,
            p.name@,
            category_debug_name(p.category),
            severity_debug_name(p.default_severity),
        ),
    }
}

/// The issues a registered rule reports on a page.
pub open spec fn entry_issues(e: RuleEntry, page: ParsedPage) -> Seq<IssueV> {
    match e {
        RuleEntry::Builtin(b) => builtin_issues(b, page),
        RuleEntry::Plugin(_) => Seq::empty(),
    }
}

impl BuiltinRule {
    /// The rule's identifier.
    pub fn id(&self) -> (r: &'static str)
        ensures
            r@ == builtin_id(*self),
    {
        match self {
            BuiltinRule::TitleMissing(x) => x.id(),
            BuiltinRule::TitleLength(x) => x.id(),
            BuiltinRule::DescMissing(x) => x.id(),
            BuiltinRule::DescLength(x) => x.id(),
            BuiltinRule::CanonicalMissing(x) => x.id(),
            BuiltinRule::CanonicalMismatch(x) => x.id(),
            BuiltinRule::ViewportMissing(x) => x.id(),
            BuiltinRule::H1Missing(x) => x.id(),
            BuiltinRule::H1Multiple(x) => x.id(),
            BuiltinRule::HeadingHierarchy(x) => x.id(),
            BuiltinRule::ThinContent(x) => x.id(),
            BuiltinRule::BrokenInternal(x) => x.id(),
            BuiltinRule::RedirectChain(x) => x.id(),
            BuiltinRule::NofollowInternal(x) => x.id(),
            BuiltinRule::AltMissing(x) => x.id(),
            BuiltinRule::AltEmpty(x) => x.id(),
            BuiltinRule::LargePage(x) => x.id(),
            BuiltinRule::SlowResponse(x) => x.id(),
            BuiltinRule::RenderBlocking(x) => x.id(),
            BuiltinRule::MixedContent(x) => x.id(),
            BuiltinRule::HttpPage(x) => x.id(),
        }
    }

    /// The rule's human-readable name.
    pub fn name(&self) -> (r: &'static str)
        ensures
            r@ == builtin_name(*self),
    {
        match self {
            BuiltinRule::TitleMissing(x) => x.name(),
            BuiltinRule::TitleLength(x) => x.name(),
            BuiltinRule::DescMissing(x) => x.name(),
            BuiltinRule::DescLength(x) => x.name(),
            BuiltinRule::CanonicalMissing(x) => x.name(),
            BuiltinRule::CanonicalMismatch(x) => x.name(),
            BuiltinRule::ViewportMissing(x) => x.name(),
            BuiltinRule::H1Missing(x) => x.name(),
            BuiltinRule::H1Multiple(x) => x.name(),
            BuiltinRule::HeadingHierarchy(x) => x.name(),
            BuiltinRule::ThinContent(x) => x.name(),
            BuiltinRule::BrokenInternal(x) => x.name(),
            BuiltinRule::RedirectChain(x) => x.name(),
            BuiltinRule::NofollowInternal(x) => x.name(),
            BuiltinRule::AltMissing(x) => x.name(),
            BuiltinRule::AltEmpty(x) => x.name(),
            BuiltinRule::LargePage(x) => x.name(),
            BuiltinRule::SlowResponse(x) => x.name(),
            BuiltinRule::RenderBlocking(x) => x.name(),
            BuiltinRule::MixedContent(x) => x.name(),
            BuiltinRule::HttpPage(x) => x.name(),
        }
    }

    /// The rule's category.
    pub fn category(&self) -> (r: RuleCategory)
        ensures
            r == builtin_category(*self),
    {
        match self {
            BuiltinRule::TitleMissing(x) => x.category(),
            BuiltinRule::TitleLength(x) => x.category(),
            BuiltinRule::DescMissing(x) => x.category(),
            BuiltinRule::DescLength(x) => x.category(),
            BuiltinRule::CanonicalMissing(x) => x.category(),
            BuiltinRule::CanonicalMismatch(x) => x.category(),
            BuiltinRule::ViewportMissing(x) => x.category(),
            BuiltinRule::H1Missing(x) => x.category(),
            BuiltinRule::H1Multiple(x) => x.category(),
            BuiltinRule::HeadingHierarchy(x) => x.category(),
            BuiltinRule::ThinContent(x) => x.category(),
            BuiltinRule::BrokenInternal(x) => x.category(),
            BuiltinRule::RedirectChain(x) => x.category(),
            BuiltinRule::NofollowInternal(x) => x.category(),
            BuiltinRule::AltMissing(x) => x.category(),
            BuiltinRule::AltEmpty(x) => x.category(),
            BuiltinRule::LargePage(x) => x.category(),
            BuiltinRule::SlowResponse(x) => x.category(),
            BuiltinRule::RenderBlocking(x) => x.category(),
            BuiltinRule::MixedContent(x) => x.category(),
            BuiltinRule::HttpPage(x) => x.category(),
        }
    }

    /// The rule's default severity.
    pub fn default_severity(&self) -> (r: Severity)
        ensures
            r == builtin_default_severity(*self),
    {
        match self {
            BuiltinRule::TitleMissing(x) => x.default_severity(),
            BuiltinRule::TitleLength(x) => x.default_severity(),
            BuiltinRule::DescMissing(x) => x.default_severity(),
            BuiltinRule::DescLength(x) => x.default_severity(),
            BuiltinRule::CanonicalMissing(x) => x.default_severity(),
            BuiltinRule::CanonicalMismatch(x) => x.default_severity(),
            BuiltinRule::ViewportMissing(x) => x.default_severity(),
            BuiltinRule::H1Missing(x) => x.default_severity(),
            BuiltinRule::H1Multiple(x) => x.default_severity(),
            BuiltinRule::HeadingHierarchy(x) => x.default_severity(),
            BuiltinRule::ThinContent(x) => x.default_severity(),
            BuiltinRule::BrokenInternal(x) => x.default_severity(),
            BuiltinRule::RedirectChain(x) => x.default_severity(),
            BuiltinRule::NofollowInternal(x) => x.default_severity(),
            BuiltinRule::AltMissing(x) => x.default_severity(),
            BuiltinRule::AltEmpty(x) => x.default_severity(),
            BuiltinRule::LargePage(x) => x.default_severity(),
            BuiltinRule::SlowResponse(x) => x.default_severity(),
            BuiltinRule::RenderBlocking(x) => x.default_severity(),
            BuiltinRule::MixedContent(x) => x.default_severity(),
            BuiltinRule::HttpPage(x) => x.default_severity(),
        }
    }

    /// Evaluate the rule against a page.
    pub fn evaluate(&self, page: &ParsedPage, ctx: &CrawlContext) -> (r: Vec<Issue>)
        ensures
            issues_view(r@) == builtin_issues(*self, *page),
    {
        let r = match self {
            BuiltinRule::TitleMissing(x) => x.evaluate(page, ctx),
            BuiltinRule::TitleLength(x) => x.evaluate(page, ctx),
            BuiltinRule::DescMissing(x) => x.evaluate(page, ctx),
            BuiltinRule::DescLength(x) => x.evaluate(page, ctx),
            BuiltinRule::CanonicalMissing(x) => x.evaluate(page, ctx),
            BuiltinRule::CanonicalMismatch(x) => x.evaluate(page, ctx),
            BuiltinRule::ViewportMissing(x) => x.evaluate(page, ctx),
            BuiltinRule::H1Missing(x) => x.evaluate(page, ctx),
            BuiltinRule::H1Multiple(x) => x.evaluate(page, ctx),
            BuiltinRule::HeadingHierarchy(x) => x.evaluate(page, ctx),
            BuiltinRule::ThinContent(x) => x.evaluate(page, ctx),
            BuiltinRule::BrokenInternal(x) => x.evaluate(page, ctx),
            BuiltinRule::RedirectChain(x) => x.evaluate(page, ctx),
            BuiltinRule::NofollowInternal(x) => x.evaluate(page, ctx),
            BuiltinRule::AltMissing(x) => x.evaluate(page, ctx),
            BuiltinRule::AltEmpty(x) => x.evaluate(page, ctx),
            BuiltinRule::LargePage(x) => x.evaluate(page, ctx),
            BuiltinRule::SlowResponse(x) => x.evaluate(page, ctx),
            BuiltinRule::RenderBlocking(x) => x.evaluate(page, ctx),
            BuiltinRule::MixedContent(x) => x.evaluate(page, ctx),
            BuiltinRule::HttpPage(x) => x.evaluate(page, ctx),
        };
        assert(issues_view(r@) =~= builtin_issues(*self, *page));
        r
    }
}


// ---------------------------------------------------------------------------
// Rule parameters
// ---------------------------------------------------------------------------

/// A configuration parameter value: a non-negative integer, or anything
/// else (a negative number, a fraction, a string, ...).
#[derive(Debug, Clone, Copy, PartialEq, Eq, Structural)]
pub enum ParamValue {
    UInt(u64),
    Other,
}

/// The parameters object of a rule's configuration, as key/value pairs
/// (keys are distinct).
#[derive(Debug, Clone)]
pub struct RuleParams {
    pub entries: Vec<(String, ParamValue)>,
}

/// The value bound to `key`, if any (the first binding).
pub open spec fn param_lookup(entries: Seq<(String, ParamValue)>, key: Seq<char>) -> Option<
    ParamValue,
>
    decreases entries.len(),
{
    if entries.len() == 0 {
        None
    } else if entries[0].0@ == key {
        Some(entries[0].1)
    } else {
        param_lookup(entries.drop_first(), key)
    }
}

impl RuleParams {
    /// The value bound to `key`, if any.
    pub fn get(&self, key: &str) -> (r: Option<ParamValue>)
        ensures
            r == param_lookup(self.entries@, key@),
    {
        let mut i: usize = 0;
        assert(self.entries@.skip(0) =~= self.entries@);
        while i < self.entries.len()
            invariant
                i <= self.entries@.len(),
                param_lookup(self.entries@, key@) == param_lookup(
                    self.entries@.skip(i as int),
                    key@,
                ),
            decreases self.entries.len() - i,
        {
            assert(self.entries@.skip(i as int).drop_first() =~= self.entries@.skip(i + 1));
            if str_eq(self.entries[i].0.as_str(), key) {
                return Some(self.entries[i].1);
            }
            i = i + 1;
        }
        assert(self.entries@.skip(i as int).len() == 0);
        None
    }
}

/// Setting a `usize` parameter: absent keeps the value, an integer sets it
/// (truncated to the width of `usize`), anything else is an error.
pub open spec fn set_usize(cur: usize, p: Option<ParamValue>) -> (usize, bool) {
    match p {
        None => (cur, true),
        Some(ParamValue::UInt(v)) => (v as usize, true),
        Some(ParamValue::Other) => (cur, false),
    }
}

/// Setting a `u32` parameter: absent keeps the value, an integer sets it
/// (truncated to 32 bits), anything else is an error.
pub open spec fn set_u32(cur: u32, p: Option<ParamValue>) -> (u32, bool) {
    match p {
        None => (cur, true),
        Some(ParamValue::UInt(v)) => (v as u32, true),
        Some(ParamValue::Other) => (cur, false),
    }
}

/// A rule after applying `params`, and whether they were all accepted.
/// Parameters are read in order and reading stops at the first bad one;
/// those set before it stay set.
pub open spec fn configured(r: BuiltinRule, params: Seq<(String, ParamValue)>) -> (BuiltinRule, bool) {
    match r {
        BuiltinRule::TitleLength(x) => {
            let (mn, ok1) = set_usize(x.min, param_lookup(params, "min"@));
            if !ok1 {
                (r, false)
            } else {
                let (mx, ok2) = set_usize(x.max, param_lookup(params, "max"@));
                (BuiltinRule::TitleLength(TitleLength { min: mn, max: mx }), ok2)
            }
        },
        BuiltinRule::DescLength(x) => {
            let (mn, ok1) = set_usize(x.min, param_lookup(params, "min"@));
            if !ok1 {
                (r, false)
            } else {
                let (mx, ok2) = set_usize(x.max, param_lookup(params, "max"@));
                (BuiltinRule::DescLength(DescLength { min: mn, max: mx }), ok2)
            }
        },
        BuiltinRule::ThinContent(x) => match param_lookup(params, "min_words"@) {
            Some(ParamValue::UInt(v)) => (
                BuiltinRule::ThinContent(ThinContent { min_words: v as u32 }),
                true,
            ),
            _ => (r, true),
        },
        BuiltinRule::LargePage(x) => {
            let (mb, ok) = set_usize(x.max_bytes, param_lookup(params, "max_bytes"@));
            (BuiltinRule::LargePage(LargePage { max_bytes: mb }), ok)
        },
        BuiltinRule::SlowResponse(x) => {
            let (ms, ok) = set_u32(x.max_ms, param_lookup(params, "max_ms"@));
            (BuiltinRule::SlowResponse(SlowResponse { max_ms: ms }), ok)
        },
        BuiltinRule::RenderBlocking(x) => {
            let (sc, ok1) = set_u32(
                x.max_blocking_scripts,
                param_lookup(params, "max_blocking_scripts"@),
            );
            if !ok1 {
                (r, false)
            } else {
                let (st, ok2) = set_u32(
                    x.max_blocking_stylesheets,
                    param_lookup(params, "max_blocking_stylesheets"@),
                );
                (
                    BuiltinRule::RenderBlocking(
                        RenderBlocking { max_blocking_scripts: sc, max_blocking_stylesheets: st },
                    ),
                    ok2,
                )
            }
        },
        _ => (r, true),
    }
}

fn set_usize_exec(cur: usize, p: Option<ParamValue>) -> (r: (usize, bool))
    ensures
        r == set_usize(cur, p),
{
    match p {
        None => (cur, true),
        Some(ParamValue::UInt(v)) => (v as usize, true),
        Some(ParamValue::Other) => (cur, false),
    }
}

fn set_u32_exec(cur: u32, p: Option<ParamValue>) -> (r: (u32, bool))
    ensures
        r == set_u32(cur, p),
{
    match p {
        None => (cur, true),
        Some(ParamValue::UInt(v)) => (v as u32, true),
        Some(ParamValue::Other) => (cur, false),
    }
}

/// The JSON schema of a rule's parameters (compact, keys in order), for
/// the rules that have parameters with a schema.
pub open spec fn schema_of(r: BuiltinRule) -> Option<Seq<char>> {
    match r {
        BuiltinRule::TitleLength(_) => Some(TITLE_LENGTH_SCHEMA@),
        BuiltinRule::LargePage(_) => Some(LARGE_PAGE_SCHEMA@),
        BuiltinRule::SlowResponse(_) => Some(SLOW_RESPONSE_SCHEMA@),
        BuiltinRule::RenderBlocking(_) => Some(RENDER_BLOCKING_SCHEMA@),
        _ => None,
    }
}

pub const TITLE_LENGTH_SCHEMA: &'static str = "{\"properties\":{\"max\":{\"default\":60,\"minimum\":1,\"type\":\"integer\"},\"min\":{\"default\":30,\"minimum\":1,\"type\":\"integer\"}},\"type\":\"object\"}";

pub const LARGE_PAGE_SCHEMA: &'static str = "{\"properties\":{\"max_bytes\":{\"default\":3000000,\"description\":\"Maximum page size in bytes\",\"type\":\"integer\"}},\"type\":\"object\"}";

pub const SLOW_RESPONSE_SCHEMA: &'static str = "{\"properties\":{\"max_ms\":{\"default\":3000,\"description\":\"Maximum response time in milliseconds\",\"type\":\"integer\"}},\"type\":\"object\"}";

pub const RENDER_BLOCKING_SCHEMA: &'static str = "{\"properties\":{\"max_blocking_scripts\":{\"default\":2,\"description\":\"Maximum render-blocking scripts allowed\",\"type\":\"integer\"},\"max_blocking_stylesheets\":{\"default\":3,\"description\":\"Maximum render-blocking stylesheets allowed\",\"type\":\"integer\"}},\"type\":\"object\"}";

impl BuiltinRule {
    /// JSON schema of the rule's configurable parameters, if it has any.
    pub fn config_schema(&self) -> (r: Option<&'static str>)
        ensures
            match r {
                Some(t) => schema_of(*self) == Some(t@),
                None => schema_of(*self) is None,
            },
    {
        match self {
            BuiltinRule::TitleLength(_) => Some(TITLE_LENGTH_SCHEMA),
            BuiltinRule::LargePage(_) => Some(LARGE_PAGE_SCHEMA),
            BuiltinRule::SlowResponse(_) => Some(SLOW_RESPONSE_SCHEMA),
            BuiltinRule::RenderBlocking(_) => Some(RENDER_BLOCKING_SCHEMA),
            _ => None,
        }
    }
}

impl BuiltinRule {
    /// Apply configuration parameters to this rule. Returns `Err` with a
    /// message when a parameter that must be a non-negative integer is not.
    pub fn configure(&mut self, params: &RuleParams) -> (r: Result<(), String>)
        ensures
            *final(self) == configured(*old(self), params.entries@).0,
            r is Ok <==> configured(*old(self), params.entries@).1,
    {
        match *self {
            BuiltinRule::TitleLength(x) => {
                let (mn, ok1) = set_usize_exec(x.min, params.get("min"));
                if !ok1 {
                    return Err(crate::text::owned("min must be a positive integer"));
                }
                let (mx, ok2) = set_usize_exec(x.max, params.get("max"));
                *self = BuiltinRule::TitleLength(TitleLength { min: mn, max: mx });
                if !ok2 {
                    return Err(crate::text::owned("max must be a positive integer"));
                }
                Ok(())
            },
            BuiltinRule::DescLength(x) => {
                let (mn, ok1) = set_usize_exec(x.min, params.get("min"));
                if !ok1 {
                    return Err(crate::text::owned("min must be a positive integer"));
                }
                let (mx, ok2) = set_usize_exec(x.max, params.get("max"));
                *self = BuiltinRule::DescLength(DescLength { min: mn, max: mx });
                if !ok2 {
                    return Err(crate::text::owned("max must be a positive integer"));
                }
                Ok(())
            },
            BuiltinRule::ThinContent(_) => {
                match params.get("min_words") {
                    Some(ParamValue::UInt(v)) => {
                        *self = BuiltinRule::ThinContent(ThinContent { min_words: v as u32 });
                    },
                    _ => {},
                }
                Ok(())
            },
            BuiltinRule::LargePage(x) => {
                let (mb, ok) = set_usize_exec(x.max_bytes, params.get("max_bytes"));
                *self = BuiltinRule::LargePage(LargePage { max_bytes: mb });
                if !ok {
                    return Err(crate::text::owned("max_bytes must be a positive integer"));
                }
                Ok(())
            },
            BuiltinRule::SlowResponse(x) => {
                let (ms, ok) = set_u32_exec(x.max_ms, params.get("max_ms"));
                *self = BuiltinRule::SlowResponse(SlowResponse { max_ms: ms });
                if !ok {
                    return Err(crate::text::owned("max_ms must be a positive integer"));
                }
                Ok(())
            },
            BuiltinRule::RenderBlocking(x) => {
                let (sc, ok1) = set_u32_exec(
                    x.max_blocking_scripts,
                    params.get("max_blocking_scripts"),
                );
                if !ok1 {
                    return Err(
                        crate::text::owned("max_blocking_scripts must be a non-negative integer"),
                    );
                }
                let (st, ok2) = set_u32_exec(
                    x.max_blocking_stylesheets,
                    params.get("max_blocking_stylesheets"),
                );
                *self = BuiltinRule::RenderBlocking(
                    RenderBlocking { max_blocking_scripts: sc, max_blocking_stylesheets: st },
                );
                if !ok2 {
                    return Err(
                        crate::text::owned(
                            "max_blocking_stylesheets must be a non-negative integer",
                        ),
                    );
                }
                Ok(())
            },
            _ => Ok(()),
        }
    }
}


// ---------------------------------------------------------------------------
// Registry
// ---------------------------------------------------------------------------

/// The latest enabled/disabled setting for `id`, if one was made.
pub open spec fn latest_enabled(settings: Seq<(Seq<char>, bool)>, id: Seq<char>) -> Option<bool>
    decreases settings.len(),
{
    if settings.len() == 0 {
        None
    } else if settings.last().0 == id {
        Some(settings.last().1)
    } else {
        latest_enabled(settings.drop_last(), id)
    }
}

/// The latest severity override for `id`, if one was made.
pub open spec fn latest_override(settings: Seq<(Seq<char>, Severity)>, id: Seq<char>) -> Option<
    Severity,
>
    decreases settings.len(),
{
    if settings.len() == 0 {
        None
    } else if settings.last().0 == id {
        Some(settings.last().1)
    } else {
        latest_override(settings.drop_last(), id)
    }
}

/// The issues one registered rule contributes, given the settings: none
/// when the rule is disabled, else its issues with the severity override
/// (if any) applied.
pub open spec fn rule_contribution(
    e: RuleEntry,
    enabled: Seq<(Seq<char>, bool)>,
    overrides: Seq<(Seq<char>, Severity)>,
    page: ParsedPage,
) -> Seq<IssueV> {
    if latest_enabled(enabled, entry_id(e)) == Some(false) {
        Seq::empty()
    } else {
        match latest_override(overrides, entry_id(e)) {
            Some(s) => override_severity(entry_issues(e, page), s),
            None => entry_issues(e, page),
        }
    }
}

/// The issues all rules report on a page, in registration order.
pub open spec fn registry_issues(
    rules: Seq<RuleEntry>,
    enabled: Seq<(Seq<char>, bool)>,
    overrides: Seq<(Seq<char>, Severity)>,
    page: ParsedPage,
) -> Seq<IssueV>
    decreases rules.len(),
{
    if rules.len() == 0 {
        Seq::empty()
    } else {
        registry_issues(rules.drop_last(), enabled, overrides, page) + rule_contribution(
            rules.last(),
            enabled,
            overrides,
            page,
        )
    }
}

/// The built-in rules in registration order, with default parameters.
pub open spec fn builtin_rule_list() -> Seq<RuleEntry> {
    seq![
        RuleEntry::Builtin(BuiltinRule::TitleMissing(TitleMissing)),
        RuleEntry::Builtin(BuiltinRule::TitleLength(TitleLength { min: 30, max: 60 })),
        RuleEntry::Builtin(BuiltinRule::DescMissing(DescMissing)),
        RuleEntry::Builtin(BuiltinRule::DescLength(DescLength { min: 50, max: 160 })),
        RuleEntry::Builtin(BuiltinRule::CanonicalMissing(CanonicalMissing)),
        RuleEntry::Builtin(BuiltinRule::CanonicalMismatch(CanonicalMismatch)),
        RuleEntry::Builtin(BuiltinRule::ViewportMissing(ViewportMissing)),
        RuleEntry::Builtin(BuiltinRule::H1Missing(H1Missing)),
        RuleEntry::Builtin(BuiltinRule::H1Multiple(H1Multiple)),
        RuleEntry::Builtin(BuiltinRule::HeadingHierarchy(HeadingHierarchy)),
        RuleEntry::Builtin(BuiltinRule::ThinContent(ThinContent { min_words: 200 })),
        RuleEntry::Builtin(BuiltinRule::BrokenInternal(BrokenInternal)),
        RuleEntry::Builtin(BuiltinRule::RedirectChain(RedirectChain)),
        RuleEntry::Builtin(BuiltinRule::NofollowInternal(NofollowInternal)),
        RuleEntry::Builtin(BuiltinRule::AltMissing(AltMissing)),
        RuleEntry::Builtin(BuiltinRule::AltEmpty(AltEmpty)),
        RuleEntry::Builtin(BuiltinRule::LargePage(LargePage { max_bytes: 3000000 })),
        RuleEntry::Builtin(BuiltinRule::SlowResponse(SlowResponse { max_ms: 3000 })),
        RuleEntry::Builtin(BuiltinRule::RenderBlocking(RenderBlocking { max_blocking_scripts: 2, max_blocking_stylesheets: 3 })),
        RuleEntry::Builtin(BuiltinRule::MixedContent(MixedContent)),
        RuleEntry::Builtin(BuiltinRule::HttpPage(HttpPage)),
    ]
}

/// The rule registry manages the registered SEO rules and executes them
/// against parsed pages.
pub struct RuleRegistry {
    rules: Vec<RuleEntry>,
    /// Enabled/disabled settings in the order they were made; the latest
    /// setting for a rule wins. A rule without a setting is enabled.
    enabled: Vec<(String, bool)>,
    /// Severity overrides in the order they were made; the latest wins.
    severity_overrides: Vec<(String, Severity)>,
}

/// Text keys of a settings list.
pub open spec fn bool_settings_view(s: Seq<(String, bool)>) -> Seq<(Seq<char>, bool)> {
    s.map_values(|p: (String, bool)| (p.0@, p.1))
}

/// Text keys of an overrides list.
pub open spec fn severity_settings_view(s: Seq<(String, Severity)>) -> Seq<(Seq<char>, Severity)> {
    s.map_values(|p: (String, Severity)| (p.0@, p.1))
}

/// One entry of a crawl profile's rule configuration.
#[derive(Debug, Clone)]
pub struct RuleConfigEntry {
    pub rule_id: String,
    /// `enabled` when it was a boolean.
    pub enabled: Option<bool>,
    /// `severity` when it was a string.
    pub severity: Option<String>,
    /// `params`, when present.
    pub params: Option<RuleParams>,
}

impl RuleRegistry {
    /// The registered rules, in order.
    pub closed spec fn rules(self) -> Seq<RuleEntry> {
        self.rules@
    }

    /// The enabled/disabled settings made so far, in order.
    pub closed spec fn enabled_settings(self) -> Seq<(Seq<char>, bool)> {
        bool_settings_view(self.enabled@)
    }

    /// The severity overrides made so far, in order.
    pub closed spec fn override_settings(self) -> Seq<(Seq<char>, Severity)> {
        severity_settings_view(self.severity_overrides@)
    }

    /// An empty registry.
    pub fn new() -> (r: Self)
        ensures
            r.rules().len() == 0,
            r.enabled_settings().len() == 0,
            r.override_settings().len() == 0,
    {
        let r = RuleRegistry { rules: Vec::new(), enabled: Vec::new(), severity_overrides: Vec::new() };
        assert(r.enabled_settings() =~= Seq::<(Seq<char>, bool)>::empty());
        assert(r.override_settings() =~= Seq::<(Seq<char>, Severity)>::empty());
        r
    }

    /// Register a single rule.
    pub fn register(&mut self, rule: RuleEntry)
        ensures
            final(self).rules() == old(self).rules().push(rule),
            final(self).enabled_settings() == old(self).enabled_settings(),
            final(self).override_settings() == old(self).override_settings(),
    {
        self.rules.push(rule);
    }

    /// Register all built-in rules, with their default parameters.
    pub fn register_builtins(&mut self)
        ensures
            final(self).rules() == old(self).rules() + builtin_rule_list(),
            final(self).enabled_settings() == old(self).enabled_settings(),
            final(self).override_settings() == old(self).override_settings(),
    {
        self.register(RuleEntry::Builtin(BuiltinRule::TitleMissing(TitleMissing)));
        self.register(RuleEntry::Builtin(BuiltinRule::TitleLength(TitleLength::default())));
        self.register(RuleEntry::Builtin(BuiltinRule::DescMissing(DescMissing)));
        self.register(RuleEntry::Builtin(BuiltinRule::DescLength(DescLength::default())));
        self.register(RuleEntry::Builtin(BuiltinRule::CanonicalMissing(CanonicalMissing)));
        self.register(RuleEntry::Builtin(BuiltinRule::CanonicalMismatch(CanonicalMismatch)));
        self.register(RuleEntry::Builtin(BuiltinRule::ViewportMissing(ViewportMissing)));
        self.register(RuleEntry::Builtin(BuiltinRule::H1Missing(H1Missing)));
        self.register(RuleEntry::Builtin(BuiltinRule::H1Multiple(H1Multiple)));
        self.register(RuleEntry::Builtin(BuiltinRule::HeadingHierarchy(HeadingHierarchy)));
        self.register(RuleEntry::Builtin(BuiltinRule::ThinContent(ThinContent::default())));
        self.register(RuleEntry::Builtin(BuiltinRule::BrokenInternal(BrokenInternal)));
        self.register(RuleEntry::Builtin(BuiltinRule::RedirectChain(RedirectChain)));
        self.register(RuleEntry::Builtin(BuiltinRule::NofollowInternal(NofollowInternal)));
        self.register(RuleEntry::Builtin(BuiltinRule::AltMissing(AltMissing)));
        self.register(RuleEntry::Builtin(BuiltinRule::AltEmpty(AltEmpty)));
        self.register(RuleEntry::Builtin(BuiltinRule::LargePage(LargePage::default())));
        self.register(RuleEntry::Builtin(BuiltinRule::SlowResponse(SlowResponse::default())));
        self.register(RuleEntry::Builtin(BuiltinRule::RenderBlocking(RenderBlocking::default())));
        self.register(RuleEntry::Builtin(BuiltinRule::MixedContent(MixedContent)));
        self.register(RuleEntry::Builtin(BuiltinRule::HttpPage(HttpPage)));
        assert(self.rules() =~= old(self).rules() + builtin_rule_list());
    }

    /// Set the enabled/disabled state of a rule.
    pub fn set_enabled(&mut self, rule_id: &str, enabled: bool)
        ensures
            final(self).rules() == old(self).rules(),
            final(self).enabled_settings() == old(self).enabled_settings().push((rule_id@, enabled)),
            final(self).override_settings() == old(self).override_settings(),
    {
        let cs = chars_of(rule_id);
        let id = string_of(&cs);
        self.enabled.push((id, enabled));
        assert(self.enabled_settings() =~= old(self).enabled_settings().push((rule_id@, enabled)));
    }

    /// Set a severity override for a rule.
    pub fn set_severity(&mut self, rule_id: &str, severity: Severity)
        ensures
            final(self).rules() == old(self).rules(),
            final(self).enabled_settings() == old(self).enabled_settings(),
            final(self).override_settings() == old(self).override_settings().push(
                (rule_id@, severity),
            ),
    {
        let cs = chars_of(rule_id);
        let id = string_of(&cs);
        self.severity_overrides.push((id, severity));
        assert(self.override_settings() =~= old(self).override_settings().push(
            (rule_id@, severity),
        ));
    }

    fn lookup_enabled(&self, rule_id: &str) -> (r: Option<bool>)
        ensures
            r == latest_enabled(self.enabled_settings(), rule_id@),
    {
        let mut i: usize = self.enabled.len();
        assert(self.enabled_settings().take(i as int) =~= self.enabled_settings());
        while i > 0
            invariant
                i <= self.enabled@.len(),
                latest_enabled(self.enabled_settings(), rule_id@) == latest_enabled(
                    self.enabled_settings().take(i as int),
                    rule_id@,
                ),
            decreases i,
        {
            let ghost t = self.enabled_settings().take(i as int);
            assert(t.drop_last() =~= self.enabled_settings().take(i - 1));
            assert(t.last() == (self.enabled@[i - 1].0@, self.enabled@[i - 1].1));
            if str_eq(self.enabled[i - 1].0.as_str(), rule_id) {
                return Some(self.enabled[i - 1].1);
            }
            i = i - 1;
        }
        None
    }

    fn lookup_override(&self, rule_id: &str) -> (r: Option<Severity>)
        ensures
            r == latest_override(self.override_settings(), rule_id@),
    {
        let mut i: usize = self.severity_overrides.len();
        assert(self.override_settings().take(i as int) =~= self.override_settings());
        while i > 0
            invariant
                i <= self.severity_overrides@.len(),
                latest_override(self.override_settings(), rule_id@) == latest_override(
                    self.override_settings().take(i as int),
                    rule_id@,
                ),
            decreases i,
        {
            let ghost t = self.override_settings().take(i as int);
            assert(t.drop_last() =~= self.override_settings().take(i - 1));
            assert(t.last() == (
                self.severity_overrides@[i - 1].0@,
                self.severity_overrides@[i - 1].1,
            ));
            if str_eq(self.severity_overrides[i - 1].0.as_str(), rule_id) {
                return Some(self.severity_overrides[i - 1].1);
            }
            i = i - 1;
        }
        None
    }

    /// Evaluate all enabled rules against a page: the issues of every rule
    /// not disabled, in registration order, with severity overrides
    /// applied.
    pub fn evaluate_page(&self, page: &ParsedPage, ctx: &CrawlContext) -> (r: Vec<Issue>)
        ensures
            issues_view(r@) == registry_issues(
                self.rules(),
                self.enabled_settings(),
                self.override_settings(),
                *page,
            ),
    {
        let mut issues: Vec<Issue> = Vec::new();
        let mut i: usize = 0;
        while i < self.rules.len()
            invariant
                i <= self.rules@.len(),
                issues_view(issues@) == registry_issues(
                    self.rules().take(i as int),
                    self.enabled_settings(),
                    self.override_settings(),
                    *page,
                ),
            decreases self.rules.len() - i,
        {
            let ghost t = self.rules().take(i + 1);
            assert(t.drop_last() =~= self.rules().take(i as int));
            assert(t.last() == self.rules@[i as int]);
            let entry = &self.rules[i];
            let (id, own): (&str, Vec<Issue>) = match entry {
                RuleEntry::Builtin(b) => (b.id(), b.evaluate(page, ctx)),
                RuleEntry::Plugin(p) => {
                    let v: Vec<Issue> = Vec::new();
                    assert(issues_view(v@) =~= Seq::<IssueV>::empty());
                    (p.id.as_str(), v)
                },
            };
            assert(id@ == entry_id(*entry));
            assert(issues_view(own@) == entry_issues(*entry, *page));
            if self.lookup_enabled(id) != Some(false) {
                match self.lookup_override(id) {
                    Some(s) => {
                        let adjusted = set_severities(&own, s);
                        append_issues(&mut issues, adjusted);
                    },
                    None => {
                        append_issues(&mut issues, own);
                    },
                }
            }
            i = i + 1;
        }
        assert(self.rules().take(self.rules@.len() as int) =~= self.rules());
        issues
    }

    /// List all rules: identifier, name, category and default severity.
    pub fn list_rules(&self) -> (r: Vec<(String, String, String, String)>)
        ensures
            r@.len() == self.rules().len(),
            forall|k: int|
                0 <= k < r@.len() ==> ((#[trigger] r@[k]).0@, r@[k].1@, r@[k].2@, r@[k].3@)
                    == rule_row(self.rules()[k]),
    {
        let mut out: Vec<(String, String, String, String)> = Vec::new();
        let mut i: usize = 0;
        while i < self.rules.len()
            invariant
                i <= self.rules@.len(),
                out@.len() == i,
                forall|k: int|
                    0 <= k < i ==> ((#[trigger] out@[k]).0@, out@[k].1@, out@[k].2@, out@[k].3@)
                        == rule_row(self.rules@[k]),
            decreases self.rules.len() - i,
        {
            let row = match &self.rules[i] {
                RuleEntry::Builtin(b) => (
                    crate::text::owned(b.id()),
                    crate::text::owned(b.name()),
                    crate::text::owned(b.category().debug_name()),
                    crate::text::owned(b.default_severity().debug_name()),
                ),
                RuleEntry::Plugin(p) => (
                    p.id.clone(),
                    p.name.clone(),
                    crate::text::owned(p.category.debug_name()),
                    crate::text::owned(p.default_severity.debug_name()),
                ),
            };
            out.push(row);
            i = i + 1;
        }
        out
    }

    /// Number of registered rules.
    pub fn rule_count(&self) -> (r: usize)
        ensures
            r == self.rules().len(),
    {
        self.rules.len()
    }

    /// Apply one configuration entry: its `enabled` flag, its `severity`
    /// when that names a severity, and its `params` to every rule with that
    /// identifier. Returns the messages of rules that refused their
    /// parameters (those rules keep the parameters set before the refusal).
    pub fn apply_config_entry(&mut self, entry: &RuleConfigEntry) -> (failures: Vec<String>)
        ensures
            final(self).enabled_settings() == enabled_step(old(self).enabled_settings(), *entry),
            final(self).override_settings() == overrides_step(old(self).override_settings(), *entry),
            final(self).rules() == rules_step(old(self).rules(), *entry),
    {
        if let Some(b) = entry.enabled {
            self.set_enabled(entry.rule_id.as_str(), b);
        }
        if let Some(s) = &entry.severity {
            if let Ok(v) = Severity::parse(s.as_str()) {
                self.set_severity(entry.rule_id.as_str(), v);
            }
        }
        let mut failures: Vec<String> = Vec::new();
        if let Some(p) = &entry.params {
            let ghost start = self.rules@;
            let ghost en = self.enabled@;
            let ghost ov = self.severity_overrides@;
            let mut i: usize = 0;
            while i < self.rules.len()
                invariant
                    i <= self.rules@.len(),
                    self.rules@.len() == start.len(),
                    forall|k: int|
                        0 <= k < i ==> self.rules@[k] == configure_one(
                            start[k],
                            entry.rule_id@,
                            p.entries@,
                        ),
                    forall|k: int| i <= k < start.len() ==> self.rules@[k] == start[k],
                    self.enabled@ == en,
                    self.severity_overrides@ == ov,
                decreases self.rules.len() - i,
            {
                let target: Option<BuiltinRule> = match &self.rules[i] {
                    RuleEntry::Builtin(b) => if str_eq(b.id(), entry.rule_id.as_str()) {
                        Some(*b)
                    } else {
                        None
                    },
                    RuleEntry::Plugin(_) => None,
                };
                if let Some(b) = target {
                    let mut b2 = b;
                    let res = b2.configure(p);
                    if let Err(m) = res {
                        failures.push(m);
                    }
                    self.rules.set(i, RuleEntry::Builtin(b2));
                }
                i = i + 1;
            }
            assert(self.rules() =~= configure_all(start, entry.rule_id@, p.entries@));
        }
        failures
    }

    /// Apply configuration entries in order.
    pub fn apply_config(&mut self, entries: &Vec<RuleConfigEntry>)
        ensures
            final(self).enabled_settings() == enabled_after(old(self).enabled_settings(), entries@),
            final(self).override_settings() == overrides_after(old(self).override_settings(), entries@),
            final(self).rules() == rules_after(old(self).rules(), entries@),
    {
        let mut i: usize = 0;
        while i < entries.len()
            invariant
                i <= entries@.len(),
                self.enabled_settings() == enabled_after(old(self).enabled_settings(), entries@.take(i as int)),
                self.override_settings() == overrides_after(old(self).override_settings(), entries@.take(i as int)),
                self.rules() == rules_after(old(self).rules(), entries@.take(i as int)),
            decreases entries.len() - i,
        {
            let _ = self.apply_config_entry(&entries[i]);
            i = i + 1;
            assert(entries@.take(i as int).drop_last() =~= entries@.take(i - 1));
        }
        assert(entries@.take(entries@.len() as int) =~= entries@);
    }
}

/// The enabled/disabled settings after one configuration entry.
pub open spec fn enabled_step(es: Seq<(Seq<char>, bool)>, e: RuleConfigEntry) -> Seq<(Seq<char>, bool)> {
    match e.enabled {
        Some(b) => es.push((e.rule_id@, b)),
        None => es,
    }
}

/// The severity overrides after one configuration entry (a severity that
/// names none is ignored).
pub open spec fn overrides_step(os: Seq<(Seq<char>, Severity)>, e: RuleConfigEntry) -> Seq<(Seq<char>, Severity)> {
    match e.severity {
        Some(s) => match severity_from_code(s@) {
            Some(v) => os.push((e.rule_id@, v)),
            None => os,
        },
        None => os,
    }
}

/// The registered rules after one configuration entry.
pub open spec fn rules_step(rs: Seq<RuleEntry>, e: RuleConfigEntry) -> Seq<RuleEntry> {
    match e.params {
        Some(p) => configure_all(rs, e.rule_id@, p.entries@),
        None => rs,
    }
}

/// The enabled/disabled settings after configuration entries in order.
pub open spec fn enabled_after(es: Seq<(Seq<char>, bool)>, entries: Seq<RuleConfigEntry>) -> Seq<(Seq<char>, bool)>
    decreases entries.len(),
{
    if entries.len() == 0 {
        es
    } else {
        enabled_step(enabled_after(es, entries.drop_last()), entries.last())
    }
}

/// The severity overrides after configuration entries in order.
pub open spec fn overrides_after(os: Seq<(Seq<char>, Severity)>, entries: Seq<RuleConfigEntry>) -> Seq<(Seq<char>, Severity)>
    decreases entries.len(),
{
    if entries.len() == 0 {
        os
    } else {
        overrides_step(overrides_after(os, entries.drop_last()), entries.last())
    }
}

/// The registered rules after configuration entries in order.
pub open spec fn rules_after(rs: Seq<RuleEntry>, entries: Seq<RuleConfigEntry>) -> Seq<RuleEntry>
    decreases entries.len(),
{
    if entries.len() == 0 {
        rs
    } else {
        rules_step(rules_after(rs, entries.drop_last()), entries.last())
    }
}

/// A registered rule after configuring rules with identifier `id`.
pub open spec fn configure_one(e: RuleEntry, id: Seq<char>, params: Seq<(String, ParamValue)>) -> RuleEntry {
    match e {
        RuleEntry::Builtin(b) => if builtin_id(b) == id {
            RuleEntry::Builtin(configured(b, params).0)
        } else {
            e
        },
        RuleEntry::Plugin(_) => e,
    }
}

/// The rules after configuring those with identifier `id`.
pub open spec fn configure_all(
    rules: Seq<RuleEntry>,
    id: Seq<char>,
    params: Seq<(String, ParamValue)>,
) -> Seq<RuleEntry> {
    rules.map_values(|e: RuleEntry| configure_one(e, id, params))
}


// ---------------------------------------------------------------------------
// Laws
// ---------------------------------------------------------------------------

/// Every issue a built-in rule reports carries that rule's identifier,
/// category and default severity.
pub proof fn law_builtin_issues_carry_rule_id(b: BuiltinRule, page: ParsedPage)
    ensures
        forall|k: int|
            0 <= k < builtin_issues(b, page).len() ==> (#[trigger] builtin_issues(b, page)[k]).rule_id
                == builtin_id(b) && builtin_issues(b, page)[k].category == builtin_category(b)
                && builtin_issues(b, page)[k].severity == builtin_default_severity(b),
{
    let iss = builtin_issues(b, page);
    assert forall|k: int| 0 <= k < iss.len() implies (#[trigger] iss[k]).rule_id == builtin_id(b)
        && iss[k].category == builtin_category(b) && iss[k].severity == builtin_default_severity(
        b,
    ) by {
        match b {
            BuiltinRule::TitleMissing(_) => {},
            BuiltinRule::TitleLength(_) => {},
            BuiltinRule::DescMissing(_) => {},
            BuiltinRule::DescLength(_) => {},
            BuiltinRule::CanonicalMissing(_) => {},
            BuiltinRule::CanonicalMismatch(_) => {},
            BuiltinRule::ViewportMissing(_) => {},
            BuiltinRule::H1Missing(_) => {},
            BuiltinRule::H1Multiple(_) => {},
            BuiltinRule::HeadingHierarchy(_) => {},
            BuiltinRule::ThinContent(_) => {},
            BuiltinRule::BrokenInternal(_) => {},
            BuiltinRule::RedirectChain(_) => {},
            BuiltinRule::NofollowInternal(_) => {},
            BuiltinRule::AltMissing(_) => {},
            BuiltinRule::AltEmpty(_) => {},
            BuiltinRule::LargePage(_) => {},
            BuiltinRule::SlowResponse(_) => {},
            BuiltinRule::RenderBlocking(_) => {},
            BuiltinRule::MixedContent(_) => {},
            BuiltinRule::HttpPage(_) => {},
        }
    }
}

/// Every issue the registry reports comes from a registered rule whose
/// identifier it carries.
proof fn lemma_registry_issue_ids(
    rules: Seq<RuleEntry>,
    enabled: Seq<(Seq<char>, bool)>,
    overrides: Seq<(Seq<char>, Severity)>,
    page: ParsedPage,
    k: int,
)
    requires
        0 <= k < registry_issues(rules, enabled, overrides, page).len(),
    ensures
        exists|j: int|
            0 <= j < rules.len() && latest_enabled(enabled, entry_id(#[trigger] rules[j])) != Some(
                false,
            ) && registry_issues(rules, enabled, overrides, page)[k].rule_id == entry_id(rules[j])
                && registry_issues(rules, enabled, overrides, page)[k].severity == match latest_override(
                overrides,
                entry_id(rules[j]),
            ) {
                Some(s) => s,
                None => registry_issues(rules, enabled, overrides, page)[k].severity,
            },
    decreases rules.len(),
{
    let front = registry_issues(rules.drop_last(), enabled, overrides, page);
    let e = rules.last();
    let own = rule_contribution(e, enabled, overrides, page);
    assert(registry_issues(rules, enabled, overrides, page) == front + own);
    if k < front.len() {
        lemma_registry_issue_ids(rules.drop_last(), enabled, overrides, page, k);
        let j = choose|j: int|
            0 <= j < rules.drop_last().len() && latest_enabled(
                enabled,
                entry_id(#[trigger] rules.drop_last()[j]),
            ) != Some(false) && front[k].rule_id == entry_id(rules.drop_last()[j]) && front[k].severity
                == match latest_override(overrides, entry_id(rules.drop_last()[j])) {
                Some(s) => s,
                None => front[k].severity,
            };
        assert(rules[j] == rules.drop_last()[j]);
    } else {
        let m = k - front.len();
        let j = rules.len() - 1;
        assert(rules[j] == e);
        match e {
            RuleEntry::Builtin(b) => {
                law_builtin_issues_carry_rule_id(b, page);
                assert(builtin_issues(b, page)[m].rule_id == builtin_id(b));
            },
            RuleEntry::Plugin(_) => {},
        }
    }
}

/// A rule that was last set to disabled reports nothing: after
/// `set_enabled(id, false)`, no issue of `evaluate_page` carries `id`.
pub proof fn law_disabled_rule_reports_nothing(
    rules: Seq<RuleEntry>,
    enabled: Seq<(Seq<char>, bool)>,
    overrides: Seq<(Seq<char>, Severity)>,
    page: ParsedPage,
    id: Seq<char>,
)
    ensures
        forall|k: int|
            0 <= k < registry_issues(rules, enabled.push((id, false)), overrides, page).len()
                ==> (#[trigger] registry_issues(rules, enabled.push((id, false)), overrides, page)[k]).rule_id
                != id,
{
    let en = enabled.push((id, false));
    assert forall|k: int|
        0 <= k < registry_issues(rules, en, overrides, page).len() implies (
    #[trigger] registry_issues(rules, en, overrides, page)[k]).rule_id != id by {
        lemma_registry_issue_ids(rules, en, overrides, page, k);
        assert(en.drop_last() =~= enabled);
        assert(latest_enabled(en, id) == Some(false));
    }
}

/// A severity override applies to every issue of the rule: after
/// `set_severity(id, s)`, every issue of `evaluate_page` that carries `id`
/// has severity `s`.
pub proof fn law_severity_override_applies(
    rules: Seq<RuleEntry>,
    enabled: Seq<(Seq<char>, bool)>,
    overrides: Seq<(Seq<char>, Severity)>,
    page: ParsedPage,
    id: Seq<char>,
    s: Severity,
)
    ensures
        forall|k: int|
            0 <= k < registry_issues(rules, enabled, overrides.push((id, s)), page).len() && (
            #[trigger] registry_issues(rules, enabled, overrides.push((id, s)), page)[k]).rule_id
                == id ==> registry_issues(rules, enabled, overrides.push((id, s)), page)[k].severity
                == s,
{
    let ov = overrides.push((id, s));
    assert forall|k: int|
        0 <= k < registry_issues(rules, enabled, ov, page).len() && (#[trigger] registry_issues(
            rules,
            enabled,
            ov,
            page,
        )[k]).rule_id == id implies registry_issues(rules, enabled, ov, page)[k].severity == s by {
        lemma_registry_issue_ids(rules, enabled, ov, page, k);
        assert(latest_override(ov, id) == Some(s));
    }
}


/// The position of a built-in rule identifier in registration order (21
/// for any other text).
pub open spec fn builtin_id_rank(s: Seq<char>) -> int {
    if s == "meta.title_missing"@ {
        0
    } else if s == "meta.title_length"@ {
        1
    } else if s == "meta.desc_missing"@ {
        2
    } else if s == "meta.desc_length"@ {
        3
    } else if s == "meta.canonical_missing"@ {
        4
    } else if s == "meta.canonical_mismatch"@ {
        5
    } else if s == "meta.viewport_missing"@ {
        6
    } else if s == "content.h1_missing"@ {
        7
    } else if s == "content.h1_multiple"@ {
        8
    } else if s == "content.heading_hierarchy"@ {
        9
    } else if s == "content.thin_content"@ {
        10
    } else if s == "links.broken_internal"@ {
        11
    } else if s == "links.redirect_chain"@ {
        12
    } else if s == "links.nofollow_internal"@ {
        13
    } else if s == "images.alt_missing"@ {
        14
    } else if s == "images.alt_empty"@ {
        15
    } else if s == "perf.large_page"@ {
        16
    } else if s == "perf.slow_response"@ {
        17
    } else if s == "perf.render_blocking"@ {
        18
    } else if s == "security.mixed_content"@ {
        19
    } else if s == "security.http_page"@ {
        20
    } else {
        21
    }
}

/// The category of a registered rule.
pub open spec fn entry_category(e: RuleEntry) -> RuleCategory {
    match e {
        RuleEntry::Builtin(b) => builtin_category(b),
        RuleEntry::Plugin(p) => p.category,
    }
}

/// The built-in rules: 21 of them, with pairwise distinct identifiers,
/// covering exactly the six categories meta, content, links, images,
/// performance and security.
pub proof fn law_builtin_rule_set()
    ensures
        builtin_rule_list().len() == 21,
        forall|i: int, j: int|
            0 <= i < j < builtin_rule_list().len() ==> entry_id(#[trigger] builtin_rule_list()[i])
                != entry_id(#[trigger] builtin_rule_list()[j]),
        builtin_rule_list().map_values(|e: RuleEntry| entry_category(e)).to_set() == set![
            RuleCategory::Meta,
            RuleCategory::Content,
            RuleCategory::Links,
            RuleCategory::Images,
            RuleCategory::Performance,
            RuleCategory::Security,
        ],
{
    reveal_strlit("meta.title_missing");
    reveal_strlit("meta.title_length");
    reveal_strlit("meta.desc_missing");
    reveal_strlit("meta.desc_length");
    reveal_strlit("meta.canonical_missing");
    reveal_strlit("meta.canonical_mismatch");
    reveal_strlit("meta.viewport_missing");
    reveal_strlit("content.h1_missing");
    reveal_strlit("content.h1_multiple");
    reveal_strlit("content.heading_hierarchy");
    reveal_strlit("content.thin_content");
    reveal_strlit("links.broken_internal");
    reveal_strlit("links.redirect_chain");
    reveal_strlit("links.nofollow_internal");
    reveal_strlit("images.alt_missing");
    reveal_strlit("images.alt_empty");
    reveal_strlit("perf.large_page");
    reveal_strlit("perf.slow_response");
    reveal_strlit("perf.render_blocking");
    reveal_strlit("security.mixed_content");
    reveal_strlit("security.http_page");
    let l = builtin_rule_list();
    assert forall|i: int| 0 <= i < l.len() implies builtin_id_rank(entry_id(#[trigger] l[i])) == i by {
        if i == 0 {
            assert(entry_id(l[0]) == "meta.title_missing"@);
            assert(builtin_id_rank(entry_id(l[0])) == 0);
        } else if i == 1 {
            assert(entry_id(l[1]) == "meta.title_length"@);
            assert("meta.title_length"@.len() != "meta.title_missing"@.len());
            assert(builtin_id_rank(entry_id(l[1])) == 1);
        } else if i == 2 {
            assert(entry_id(l[2]) == "meta.desc_missing"@);
            assert("meta.desc_missing"@.len() != "meta.title_missing"@.len());
            assert("meta.desc_missing"@[5] != "meta.title_length"@[5]);
            assert(builtin_id_rank(entry_id(l[2])) == 2);
        } else if i == 3 {
            assert(entry_id(l[3]) == "meta.desc_length"@);
            assert("meta.desc_length"@.len() != "meta.title_missing"@.len());
            assert("meta.desc_length"@.len() != "meta.title_length"@.len());
            assert("meta.desc_length"@.len() != "meta.desc_missing"@.len());
            assert(builtin_id_rank(entry_id(l[3])) == 3);
        } else if i == 4 {
            assert(entry_id(l[4]) == "meta.canonical_missing"@);
            assert("meta.canonical_missing"@.len() != "meta.title_missing"@.len());
            assert("meta.canonical_missing"@.len() != "meta.title_length"@.len());
            assert("meta.canonical_missing"@.len() != "meta.desc_missing"@.len());
            assert("meta.canonical_missing"@.len() != "meta.desc_length"@.len());
            assert(builtin_id_rank(entry_id(l[4])) == 4);
        } else if i == 5 {
            assert(entry_id(l[5]) == "meta.canonical_mismatch"@);
            assert("meta.canonical_mismatch"@.len() != "meta.title_missing"@.len());
            assert("meta.canonical_mismatch"@.len() != "meta.title_length"@.len());
            assert("meta.canonical_mismatch"@.len() != "meta.desc_missing"@.len());
            assert("meta.canonical_mismatch"@.len() != "meta.desc_length"@.len());
            assert("meta.canonical_mismatch"@.len() != "meta.canonical_missing"@.len());
            assert(builtin_id_rank(entry_id(l[5])) == 5);
        } else if i == 6 {
            assert(entry_id(l[6]) == "meta.viewport_missing"@);
            assert("meta.viewport_missing"@.len() != "meta.title_missing"@.len());
            assert("meta.viewport_missing"@.len() != "meta.title_length"@.len());
            assert("meta.viewport_missing"@.len() != "meta.desc_missing"@.len());
            assert("meta.viewport_missing"@.len() != "meta.desc_length"@.len());
            assert("meta.viewport_missing"@.len() != "meta.canonical_missing"@.len());
            assert("meta.viewport_missing"@.len() != "meta.canonical_mismatch"@.len());
            assert(builtin_id_rank(entry_id(l[6])) == 6);
        } else if i == 7 {
            assert(entry_id(l[7]) == "content.h1_missing"@);
            assert("content.h1_missing"@[0] != "meta.title_missing"@[0]);
            assert("content.h1_missing"@.len() != "meta.title_length"@.len());
            assert("content.h1_missing"@.len() != "meta.desc_missing"@.len());
            assert("content.h1_missing"@.len() != "meta.desc_length"@.len());
            assert("content.h1_missing"@.len() != "meta.canonical_missing"@.len());
            assert("content.h1_missing"@.len() != "meta.canonical_mismatch"@.len());
            assert("content.h1_missing"@.len() != "meta.viewport_missing"@.len());
            assert(builtin_id_rank(entry_id(l[7])) == 7);
        } else if i == 8 {
            assert(entry_id(l[8]) == "content.h1_multiple"@);
            assert("content.h1_multiple"@.len() != "meta.title_missing"@.len());
            assert("content.h1_multiple"@.len() != "meta.title_length"@.len());
            assert("content.h1_multiple"@.len() != "meta.desc_missing"@.len());
            assert("content.h1_multiple"@.len() != "meta.desc_length"@.len());
            assert("content.h1_multiple"@.len() != "meta.canonical_missing"@.len());
            assert("content.h1_multiple"@.len() != "meta.canonical_mismatch"@.len());
            assert("content.h1_multiple"@.len() != "meta.viewport_missing"@.len());
            assert("content.h1_multiple"@.len() != "content.h1_missing"@.len());
            assert(builtin_id_rank(entry_id(l[8])) == 8);
        } else if i == 9 {
            assert(entry_id(l[9]) == "content.heading_hierarchy"@);
            assert("content.heading_hierarchy"@.len() != "meta.title_missing"@.len());
            assert("content.heading_hierarchy"@.len() != "meta.title_length"@.len());
            assert("content.heading_hierarchy"@.len() != "meta.desc_missing"@.len());
            assert("content.heading_hierarchy"@.len() != "meta.desc_length"@.len());
            assert("content.heading_hierarchy"@.len() != "meta.canonical_missing"@.len());
            assert("content.heading_hierarchy"@.len() != "meta.canonical_mismatch"@.len());
            assert("content.heading_hierarchy"@.len() != "meta.viewport_missing"@.len());
            assert("content.heading_hierarchy"@.len() != "content.h1_missing"@.len());
            assert("content.heading_hierarchy"@.len() != "content.h1_multiple"@.len());
            assert(builtin_id_rank(entry_id(l[9])) == 9);
        } else if i == 10 {
            assert(entry_id(l[10]) == "content.thin_content"@);
            assert("content.thin_content"@.len() != "meta.title_missing"@.len());
            assert("content.thin_content"@.len() != "meta.title_length"@.len());
            assert("content.thin_content"@.len() != "meta.desc_missing"@.len());
            assert("content.thin_content"@.len() != "meta.desc_length"@.len());
            assert("content.thin_content"@.len() != "meta.canonical_missing"@.len());
            assert("content.thin_content"@.len() != "meta.canonical_mismatch"@.len());
            assert("content.thin_content"@.len() != "meta.viewport_missing"@.len());
            assert("content.thin_content"@.len() != "content.h1_missing"@.len());
            assert("content.thin_content"@.len() != "content.h1_multiple"@.len());
            assert("content.thin_content"@.len() != "content.heading_hierarchy"@.len());
            assert(builtin_id_rank(entry_id(l[10])) == 10);
        } else if i == 11 {
            assert(entry_id(l[11]) == "links.broken_internal"@);
            assert("links.broken_internal"@.len() != "meta.title_missing"@.len());
            assert("links.broken_internal"@.len() != "meta.title_length"@.len());
            assert("links.broken_internal"@.len() != "meta.desc_missing"@.len());
            assert("links.broken_internal"@.len() != "meta.desc_length"@.len());
            assert("links.broken_internal"@.len() != "meta.canonical_missing"@.len());
            assert("links.broken_internal"@.len() != "meta.canonical_mismatch"@.len());
            assert("links.broken_internal"@[0] != "meta.viewport_missing"@[0]);
            assert("links.broken_internal"@.len() != "content.h1_missing"@.len());
            assert("links.broken_internal"@.len() != "content.h1_multiple"@.len());
            assert("links.broken_internal"@.len() != "content.heading_hierarchy"@.len());
            assert("links.broken_internal"@.len() != "content.thin_content"@.len());
            assert(builtin_id_rank(entry_id(l[11])) == 11);
        } else if i == 12 {
            assert(entry_id(l[12]) == "links.redirect_chain"@);
            assert("links.redirect_chain"@.len() != "meta.title_missing"@.len());
            assert("links.redirect_chain"@.len() != "meta.title_length"@.len());
            assert("links.redirect_chain"@.len() != "meta.desc_missing"@.len());
            assert("links.redirect_chain"@.len() != "meta.desc_length"@.len());
            assert("links.redirect_chain"@.len() != "meta.canonical_missing"@.len());
            assert("links.redirect_chain"@.len() != "meta.canonical_mismatch"@.len());
            assert("links.redirect_chain"@.len() != "meta.viewport_missing"@.len());
            assert("links.redirect_chain"@.len() != "content.h1_missing"@.len());
            assert("links.redirect_chain"@.len() != "content.h1_multiple"@.len());
            assert("links.redirect_chain"@.len() != "content.heading_hierarchy"@.len());
            assert("links.redirect_chain"@[0] != "content.thin_content"@[0]);
            assert("links.redirect_chain"@.len() != "links.broken_internal"@.len());
            assert(builtin_id_rank(entry_id(l[12])) == 12);
        } else if i == 13 {
            assert(entry_id(l[13]) == "links.nofollow_internal"@);
            assert("links.nofollow_internal"@.len() != "meta.title_missing"@.len());
            assert("links.nofollow_internal"@.len() != "meta.title_length"@.len());
            assert("links.nofollow_internal"@.len() != "meta.desc_missing"@.len());
            assert("links.nofollow_internal"@.len() != "meta.desc_length"@.len());
            assert("links.nofollow_internal"@.len() != "meta.canonical_missing"@.len());
            assert("links.nofollow_internal"@[0] != "meta.canonical_mismatch"@[0]);
            assert("links.nofollow_internal"@.len() != "meta.viewport_missing"@.len());
            assert("links.nofollow_internal"@.len() != "content.h1_missing"@.len());
            assert("links.nofollow_internal"@.len() != "content.h1_multiple"@.len());
            assert("links.nofollow_internal"@.len() != "content.heading_hierarchy"@.len());
            assert("links.nofollow_internal"@.len() != "content.thin_content"@.len());
            assert("links.nofollow_internal"@.len() != "links.broken_internal"@.len());
            assert("links.nofollow_internal"@.len() != "links.redirect_chain"@.len());
            assert(builtin_id_rank(entry_id(l[13])) == 13);
        } else if i == 14 {
            assert(entry_id(l[14]) == "images.alt_missing"@);
            assert("images.alt_missing"@[0] != "meta.title_missing"@[0]);
            assert("images.alt_missing"@.len() != "meta.title_length"@.len());
            assert("images.alt_missing"@.len() != "meta.desc_missing"@.len());
            assert("images.alt_missing"@.len() != "meta.desc_length"@.len());
            assert("images.alt_missing"@.len() != "meta.canonical_missing"@.len());
            assert("images.alt_missing"@.len() != "meta.canonical_mismatch"@.len());
            assert("images.alt_missing"@.len() != "meta.viewport_missing"@.len());
            assert("images.alt_missing"@[0] != "content.h1_missing"@[0]);
            assert("images.alt_missing"@.len() != "content.h1_multiple"@.len());
            assert("images.alt_missing"@.len() != "content.heading_hierarchy"@.len());
            assert("images.alt_missing"@.len() != "content.thin_content"@.len());
            assert("images.alt_missing"@.len() != "links.broken_internal"@.len());
            assert("images.alt_missing"@.len() != "links.redirect_chain"@.len());
            assert("images.alt_missing"@.len() != "links.nofollow_internal"@.len());
            assert(builtin_id_rank(entry_id(l[14])) == 14);
        } else if i == 15 {
            assert(entry_id(l[15]) == "images.alt_empty"@);
            assert("images.alt_empty"@.len() != "meta.title_missing"@.len());
            assert("images.alt_empty"@.len() != "meta.title_length"@.len());
            assert("images.alt_empty"@.len() != "meta.desc_missing"@.len());
            assert("images.alt_empty"@[0] != "meta.desc_length"@[0]);
            assert("images.alt_empty"@.len() != "meta.canonical_missing"@.len());
            assert("images.alt_empty"@.len() != "meta.canonical_mismatch"@.len());
            assert("images.alt_empty"@.len() != "meta.viewport_missing"@.len());
            assert("images.alt_empty"@.len() != "content.h1_missing"@.len());
            assert("images.alt_empty"@.len() != "content.h1_multiple"@.len());
            assert("images.alt_empty"@.len() != "content.heading_hierarchy"@.len());
            assert("images.alt_empty"@.len() != "content.thin_content"@.len());
            assert("images.alt_empty"@.len() != "links.broken_internal"@.len());
            assert("images.alt_empty"@.len() != "links.redirect_chain"@.len());
            assert("images.alt_empty"@.len() != "links.nofollow_internal"@.len());
            assert("images.alt_empty"@.len() != "images.alt_missing"@.len());
            assert(builtin_id_rank(entry_id(l[15])) == 15);
        } else if i == 16 {
            assert(entry_id(l[16]) == "perf.large_page"@);
            assert("perf.large_page"@.len() != "meta.title_missing"@.len());
            assert("perf.large_page"@.len() != "meta.title_length"@.len());
            assert("perf.large_page"@.len() != "meta.desc_missing"@.len());
            assert("perf.large_page"@.len() != "meta.desc_length"@.len());
            assert("perf.large_page"@.len() != "meta.canonical_missing"@.len());
            assert("perf.large_page"@.len() != "meta.canonical_mismatch"@.len());
            assert("perf.large_page"@.len() != "meta.viewport_missing"@.len());
            assert("perf.large_page"@.len() != "content.h1_missing"@.len());
            assert("perf.large_page"@.len() != "content.h1_multiple"@.len());
            assert("perf.large_page"@.len() != "content.heading_hierarchy"@.len());
            assert("perf.large_page"@.len() != "content.thin_content"@.len());
            assert("perf.large_page"@.len() != "links.broken_internal"@.len());
            assert("perf.large_page"@.len() != "links.redirect_chain"@.len());
            assert("perf.large_page"@.len() != "links.nofollow_internal"@.len());
            assert("perf.large_page"@.len() != "images.alt_missing"@.len());
            assert("perf.large_page"@.len() != "images.alt_empty"@.len());
            assert(builtin_id_rank(entry_id(l[16])) == 16);
        } else if i == 17 {
            assert(entry_id(l[17]) == "perf.slow_response"@);
            assert("perf.slow_response"@[0] != "meta.title_missing"@[0]);
            assert("perf.slow_response"@.len() != "meta.title_length"@.len());
            assert("perf.slow_response"@.len() != "meta.desc_missing"@.len());
            assert("perf.slow_response"@.len() != "meta.desc_length"@.len());
            assert("perf.slow_response"@.len() != "meta.canonical_missing"@.len());
            assert("perf.slow_response"@.len() != "meta.canonical_mismatch"@.len());
            assert("perf.slow_response"@.len() != "meta.viewport_missing"@.len());
            assert("perf.slow_response"@[0] != "content.h1_missing"@[0]);
            assert("perf.slow_response"@.len() != "content.h1_multiple"@.len());
            assert("perf.slow_response"@.len() != "content.heading_hierarchy"@.len());
            assert("perf.slow_response"@.len() != "content.thin_content"@.len());
            assert("perf.slow_response"@.len() != "links.broken_internal"@.len());
            assert("perf.slow_response"@.len() != "links.redirect_chain"@.len());
            assert("perf.slow_response"@.len() != "links.nofollow_internal"@.len());
            assert("perf.slow_response"@[0] != "images.alt_missing"@[0]);
            assert("perf.slow_response"@.len() != "images.alt_empty"@.len());
            assert("perf.slow_response"@.len() != "perf.large_page"@.len());
            assert(builtin_id_rank(entry_id(l[17])) == 17);
        } else if i == 18 {
            assert(entry_id(l[18]) == "perf.render_blocking"@);
            assert("perf.render_blocking"@.len() != "meta.title_missing"@.len());
            assert("perf.render_blocking"@.len() != "meta.title_length"@.len());
            assert("perf.render_blocking"@.len() != "meta.desc_missing"@.len());
            assert("perf.render_blocking"@.len() != "meta.desc_length"@.len());
            assert("perf.render_blocking"@.len() != "meta.canonical_missing"@.len());
            assert("perf.render_blocking"@.len() != "meta.canonical_mismatch"@.len());
            assert("perf.render_blocking"@.len() != "meta.viewport_missing"@.len());
            assert("perf.render_blocking"@.len() != "content.h1_missing"@.len());
            assert("perf.render_blocking"@.len() != "content.h1_multiple"@.len());
            assert("perf.render_blocking"@.len() != "content.heading_hierarchy"@.len());
            assert("perf.render_blocking"@[0] != "content.thin_content"@[0]);
            assert("perf.render_blocking"@.len() != "links.broken_internal"@.len());
            assert("perf.render_blocking"@[0] != "links.redirect_chain"@[0]);
            assert("perf.render_blocking"@.len() != "links.nofollow_internal"@.len());
            assert("perf.render_blocking"@.len() != "images.alt_missing"@.len());
            assert("perf.render_blocking"@.len() != "images.alt_empty"@.len());
            assert("perf.render_blocking"@.len() != "perf.large_page"@.len());
            assert("perf.render_blocking"@.len() != "perf.slow_response"@.len());
            assert(builtin_id_rank(entry_id(l[18])) == 18);
        } else if i == 19 {
            assert(entry_id(l[19]) == "security.mixed_content"@);
            assert("security.mixed_content"@.len() != "meta.title_missing"@.len());
            assert("security.mixed_content"@.len() != "meta.title_length"@.len());
            assert("security.mixed_content"@.len() != "meta.desc_missing"@.len());
            assert("security.mixed_content"@.len() != "meta.desc_length"@.len());
            assert("security.mixed_content"@[0] != "meta.canonical_missing"@[0]);
            assert("security.mixed_content"@.len() != "meta.canonical_mismatch"@.len());
            assert("security.mixed_content"@.len() != "meta.viewport_missing"@.len());
            assert("security.mixed_content"@.len() != "content.h1_missing"@.len());
            assert("security.mixed_content"@.len() != "content.h1_multiple"@.len());
            assert("security.mixed_content"@.len() != "content.heading_hierarchy"@.len());
            assert("security.mixed_content"@.len() != "content.thin_content"@.len());
            assert("security.mixed_content"@.len() != "links.broken_internal"@.len());
            assert("security.mixed_content"@.len() != "links.redirect_chain"@.len());
            assert("security.mixed_content"@.len() != "links.nofollow_internal"@.len());
            assert("security.mixed_content"@.len() != "images.alt_missing"@.len());
            assert("security.mixed_content"@.len() != "images.alt_empty"@.len());
            assert("security.mixed_content"@.len() != "perf.large_page"@.len());
            assert("security.mixed_content"@.len() != "perf.slow_response"@.len());
            assert("security.mixed_content"@.len() != "perf.render_blocking"@.len());
            assert(builtin_id_rank(entry_id(l[19])) == 19);
        } else if i == 20 {
            assert(entry_id(l[20]) == "security.http_page"@);
            assert("security.http_page"@[0] != "meta.title_missing"@[0]);
            assert("security.http_page"@.len() != "meta.title_length"@.len());
            assert("security.http_page"@.len() != "meta.desc_missing"@.len());
            assert("security.http_page"@.len() != "meta.desc_length"@.len());
            assert("security.http_page"@.len() != "meta.canonical_missing"@.len());
            assert("security.http_page"@.len() != "meta.canonical_mismatch"@.len());
            assert("security.http_page"@.len() != "meta.viewport_missing"@.len());
            assert("security.http_page"@[0] != "content.h1_missing"@[0]);
            assert("security.http_page"@.len() != "content.h1_multiple"@.len());
            assert("security.http_page"@.len() != "content.heading_hierarchy"@.len());
            assert("security.http_page"@.len() != "content.thin_content"@.len());
            assert("security.http_page"@.len() != "links.broken_internal"@.len());
            assert("security.http_page"@.len() != "links.redirect_chain"@.len());
            assert("security.http_page"@.len() != "links.nofollow_internal"@.len());
            assert("security.http_page"@[0] != "images.alt_missing"@[0]);
            assert("security.http_page"@.len() != "images.alt_empty"@.len());
            assert("security.http_page"@.len() != "perf.large_page"@.len());
            assert("security.http_page"@[0] != "perf.slow_response"@[0]);
            assert("security.http_page"@.len() != "perf.render_blocking"@.len());
            assert("security.http_page"@.len() != "security.mixed_content"@.len());
            assert(builtin_id_rank(entry_id(l[20])) == 20);
        }
    }
    assert forall|i: int, j: int| 0 <= i < j < l.len() implies entry_id(#[trigger] l[i]) != entry_id(#[trigger] l[j]) by {
        assert(builtin_id_rank(entry_id(l[i])) == i);
        assert(builtin_id_rank(entry_id(l[j])) == j);
    }
    let cats = l.map_values(|e: RuleEntry| entry_category(e));
    let want = set![
        RuleCategory::Meta,
        RuleCategory::Content,
        RuleCategory::Links,
        RuleCategory::Images,
        RuleCategory::Performance,
        RuleCategory::Security,
    ];
    assert(cats[0] == RuleCategory::Meta);
    assert(cats[7] == RuleCategory::Content);
    assert(cats[11] == RuleCategory::Links);
    assert(cats[14] == RuleCategory::Images);
    assert(cats[16] == RuleCategory::Performance);
    assert(cats[19] == RuleCategory::Security);
    assert forall|c: RuleCategory| #[trigger] cats.to_set().contains(c) <==> want.contains(c) by {
        if cats.to_set().contains(c) {
            let k = choose|k: int| 0 <= k < cats.len() && cats[k] == c;
            assert(cats[k] == entry_category(l[k]));
        }
        if want.contains(c) {
            if c == RuleCategory::Meta { assert(cats[0] == c); }
            if c == RuleCategory::Content { assert(cats[7] == c); }
            if c == RuleCategory::Links { assert(cats[11] == c); }
            if c == RuleCategory::Images { assert(cats[14] == c); }
            if c == RuleCategory::Performance { assert(cats[16] == c); }
            if c == RuleCategory::Security { assert(cats[19] == c); }
        }
    }
    assert(cats.to_set() =~= want);
}


/// The threshold a configurable rule reads for parameter `key`, if it has
/// one by that name.
pub open spec fn rule_threshold(r: BuiltinRule, key: Seq<char>) -> Option<int> {
    match r {
        BuiltinRule::TitleLength(x) => if key == "min"@ {
            Some(x.min as int)
        } else if key == "max"@ {
            Some(x.max as int)
        } else {
            None
        },
        BuiltinRule::DescLength(x) => if key == "min"@ {
            Some(x.min as int)
        } else if key == "max"@ {
            Some(x.max as int)
        } else {
            None
        },
        BuiltinRule::ThinContent(x) => if key == "min_words"@ {
            Some(x.min_words as int)
        } else {
            None
        },
        BuiltinRule::LargePage(x) => if key == "max_bytes"@ {
            Some(x.max_bytes as int)
        } else {
            None
        },
        BuiltinRule::SlowResponse(x) => if key == "max_ms"@ {
            Some(x.max_ms as int)
        } else {
            None
        },
        BuiltinRule::RenderBlocking(x) => if key == "max_blocking_scripts"@ {
            Some(x.max_blocking_scripts as int)
        } else if key == "max_blocking_stylesheets"@ {
            Some(x.max_blocking_stylesheets as int)
        } else {
            None
        },
        _ => None,
    }
}

/// Configuring a length rule (title or description length): the rule stays
/// the same kind; an integer `min` or `max` parameter becomes the rule's
/// bound (cut to the width of `usize`), a bound with no parameter keeps its
/// value, and the configuration is accepted exactly when neither parameter
/// is something other than an integer. A bad `min` leaves the rule as it
/// was.
pub proof fn law_length_rule_configure(r: BuiltinRule, params: Seq<(String, ParamValue)>)
    requires
        r is TitleLength || r is DescLength,
    ensures
        ({
            let c = configured(r, params);
            let pmin = param_lookup(params, "min"@);
            let pmax = param_lookup(params, "max"@);
            &&& (c.0 is TitleLength <==> r is TitleLength)
            &&& (c.0 is DescLength <==> r is DescLength)
            &&& (c.1 <==> !(pmin matches Some(ParamValue::Other)) && !(pmax matches Some(ParamValue::Other)))
            &&& (pmin matches Some(ParamValue::Other) ==> c.0 == r)
            &&& (!(pmin matches Some(ParamValue::Other)) ==> {
                &&& (pmax matches Some(ParamValue::UInt(v)) ==> rule_threshold(c.0, "max"@) == Some(
                    (v as usize) as int,
                ))
                &&& ((pmax is None || (pmax matches Some(ParamValue::Other))) ==> rule_threshold(c.0, "max"@)
                    == rule_threshold(r, "max"@))
                &&& (pmin matches Some(ParamValue::UInt(v)) ==> rule_threshold(c.0, "min"@) == Some(
                    (v as usize) as int,
                ))
                &&& (pmin is None ==> rule_threshold(c.0, "min"@) == rule_threshold(r, "min"@))
            })
        }),
{
    reveal_strlit("min");
    reveal_strlit("max");
    assert("min"@ != "max"@) by {
        assert("min"@[1] != "max"@[1]);
    }
}

/// Configuring any threshold rule with an integer for one of its
/// parameters makes that threshold the given value (cut to the field's
/// width), provided no parameter read before it is bad; other rules are
/// left as they are.
pub proof fn law_threshold_configure(r: BuiltinRule, params: Seq<(String, ParamValue)>, key: Seq<char>, v: u64)
    requires
        rule_threshold(r, key) is Some,
        param_lookup(params, key) == Some(ParamValue::UInt(v)),
        !(param_lookup(params, "min"@) matches Some(ParamValue::Other)),
        !(param_lookup(params, "max_blocking_scripts"@) matches Some(ParamValue::Other)),
    ensures
        rule_threshold(configured(r, params).0, key) == Some(
            if r is SlowResponse || r is RenderBlocking || r is ThinContent {
                (v as u32) as int
            } else {
                (v as usize) as int
            },
        ),
{
    reveal_strlit("min");
    reveal_strlit("max");
    reveal_strlit("min_words");
    reveal_strlit("max_bytes");
    reveal_strlit("max_ms");
    reveal_strlit("max_blocking_scripts");
    reveal_strlit("max_blocking_stylesheets");
    assert("min"@ != "max"@) by {
        assert("min"@[1] != "max"@[1]);
    }
    assert("max_blocking_scripts"@ != "max_blocking_stylesheets"@) by {
        assert("max_blocking_scripts"@[14] != "max_blocking_stylesheets"@[14]);
    }
}

/// Rules without thresholds are not changed by configuration, and always
/// accept it.
pub proof fn law_plain_rule_configure(r: BuiltinRule, params: Seq<(String, ParamValue)>)
    requires
        forall|k: Seq<char>| rule_threshold(r, k) is None,
    ensures
        configured(r, params) == (r, true),
{
    reveal_strlit("min");
    reveal_strlit("min_words");
    reveal_strlit("max_bytes");
    reveal_strlit("max_ms");
    reveal_strlit("max_blocking_scripts");
    match r {
        BuiltinRule::TitleLength(_) => assert(rule_threshold(r, "min"@) is Some),
        BuiltinRule::DescLength(_) => assert(rule_threshold(r, "min"@) is Some),
        BuiltinRule::ThinContent(_) => assert(rule_threshold(r, "min_words"@) is Some),
        BuiltinRule::LargePage(_) => assert(rule_threshold(r, "max_bytes"@) is Some),
        BuiltinRule::SlowResponse(_) => assert(rule_threshold(r, "max_ms"@) is Some),
        BuiltinRule::RenderBlocking(_) => assert(rule_threshold(r, "max_blocking_scripts"@) is Some),
        _ => {},
    }
}

} // verus!
