//! The data a rule plugin sees of a page, and how its findings become
//! issues.

use vstd::prelude::*;
use crate::issue::{Issue, IssueDetail};
use crate::page::ParsedPage;
use crate::text::{clone_opt, clone_strs, opt_view, strs_view, concat3, push_str_of};
use crate::types::{RuleCategory, Severity, severity_from_code, category_from_code};

verus! {

/// The subset of a parsed page exposed to plugins. Fields can be added but
/// never removed.
#[derive(Debug, Clone)]
pub struct PluginParsedPage {
    pub url: String,
    pub title: Option<String>,
    pub meta_description: Option<String>,
    pub meta_robots: Option<String>,
    pub canonical: Option<String>,
    pub viewport: Option<String>,
    pub h1s: Vec<String>,
    pub h2s: Vec<String>,
    pub word_count: u32,
    pub body_text: Option<String>,
    pub body_size: Option<u32>,
    pub response_time_ms: Option<u32>,
    pub links_count: u32,
    pub images_count: u32,
    pub scripts: Vec<String>,
    pub stylesheets: Vec<String>,
}

/// An issue returned by a plugin.
#[derive(Debug, Clone)]
pub struct PluginIssue {
    pub rule_id: String,
    pub severity: String,
    pub category: String,
    pub message: String,
    pub detail_json: Option<String>,
}

/// A body size as a plugin sees it: capped at `u32::MAX`.
pub open spec fn capped_size(s: Option<usize>) -> Option<u32> {
    match s {
        Some(n) => Some(if n > u32::MAX { u32::MAX } else { n as u32 }),
        None => None,
    }
}

/// Convert a parsed page to the plugin-facing subset.
pub fn to_plugin_parsed_page(page: &ParsedPage) -> (r: PluginParsedPage)
    ensures
        r.url@ == page.url@,
        opt_view(r.title) == opt_view(page.title),
        opt_view(r.meta_description) == opt_view(page.meta_description),
        opt_view(r.meta_robots) == opt_view(page.meta_robots),
        opt_view(r.canonical) == opt_view(page.canonical),
        opt_view(r.viewport) == opt_view(page.viewport),
        strs_view(r.h1s@) == strs_view(page.h1s@),
        strs_view(r.h2s@) == strs_view(page.h2s@),
        r.word_count == page.word_count,
        opt_view(r.body_text) == opt_view(page.body_text),
        r.body_size == capped_size(page.body_size),
        r.response_time_ms == page.response_time_ms,
        r.links_count == page.links@.len() as u32,
        r.images_count == page.images@.len() as u32,
        strs_view(r.scripts@) == strs_view(page.scripts@),
        strs_view(r.stylesheets@) == strs_view(page.stylesheets@),
{
    let body_size = match page.body_size {
        Some(n) => Some(
            if n > (u32::MAX as usize) {
                u32::MAX
            } else {
                n as u32
            },
        ),
        None => None,
    };
    PluginParsedPage {
        url: page.url.clone(),
        title: clone_opt(&page.title),
        meta_description: clone_opt(&page.meta_description),
        meta_robots: clone_opt(&page.meta_robots),
        canonical: clone_opt(&page.canonical),
        viewport: clone_opt(&page.viewport),
        h1s: clone_strs(&page.h1s),
        h2s: clone_strs(&page.h2s),
        word_count: page.word_count,
        body_text: clone_opt(&page.body_text),
        body_size,
        response_time_ms: page.response_time_ms,
        links_count: page.links.len() as u32,
        images_count: page.images.len() as u32,
        scripts: clone_strs(&page.scripts),
        stylesheets: clone_strs(&page.stylesheets),
    }
}

/// The compact serialization of a JSON text, if it is valid JSON.
pub uninterp spec fn json_compact(text: Seq<char>) -> Option<Seq<char>>;

/// Calls `serde_json::from_str` for a `serde_json::Value` and, when the text
/// parses, serializes the value back compactly. The contract names the
/// outcome as a function of the text.
#[verifier::external_body]
fn compact_json(text: &str) -> (r: Option<String>)
    ensures
        opt_view(r) == json_compact(text@),
{
    serde_json::from_str::<serde_json::Value>(text).ok().map(|v| v.to_string())
}

/// The issue a plugin finding becomes: its rule id prefixed with
/// `plugin.<plugin name>.`, an unknown severity read as a warning, an
/// unknown category as structured data, and its detail kept when it is
/// valid JSON.
pub open spec fn core_issue_detail(detail_json: Option<String>) -> Option<Seq<char>> {
    match detail_json {
        Some(t) => json_compact(t@),
        None => None,
    }
}

/// Convert a plugin issue to a core issue, prefixing the rule id with the
/// plugin name.
pub fn to_core_issue(plugin_name: &str, pi: PluginIssue) -> (r: Issue)
    ensures
        r.rule_id@ == "plugin."@ + plugin_name@ + "."@ + pi.rule_id@,
        r.severity == match severity_from_code(pi.severity@) {
            Some(s) => s,
            None => Severity::Warning,
        },
        r.category == match category_from_code(pi.category@) {
            Some(c) => c,
            None => RuleCategory::Structured,
        },
        r.message@ == pi.message@,
        match core_issue_detail(pi.detail_json) {
            Some(t) => r.detail == Some(IssueDetail::Json { text: r.detail->0->text }) && (
            r.detail->0->text)@ == t,
            None => r.detail is None,
        },
{
    let severity = match Severity::parse(pi.severity.as_str()) {
        Ok(s) => s,
        Err(_) => Severity::Warning,
    };
    let category = match RuleCategory::parse(pi.category.as_str()) {
        Ok(c) => c,
        Err(_) => RuleCategory::Structured,
    };
    let mut rule_id = concat3("plugin.", plugin_name, ".");
    push_str_of(&mut rule_id, pi.rule_id.as_str());
    let detail = match &pi.detail_json {
        Some(t) => match compact_json(t.as_str()) {
            Some(c) => Some(IssueDetail::Json { text: c }),
            None => None,
        },
        None => None,
    };
    Issue { rule_id, severity, category, message: pi.message, detail }
}

} // verus!
