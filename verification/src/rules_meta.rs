//! Meta rules: title tag, meta description, canonical, viewport.

use vstd::prelude::*;
use crate::issue::{Issue, IssueDetail, IssueV, DetailV, CrawlContext, issues_view, plain_issue};
use crate::page::ParsedPage;
use crate::text::{str_eq, chars_of, string_of, push_lit, str_contains, to_lowercase, unicode_lowercase,
    contains_seq, opt_view};
use crate::types::{RuleCategory, Severity};
use crate::words::{decimal, push_decimal};

verus! {

// ---------------------------------------------------------------------------
// Shared spec helpers
// ---------------------------------------------------------------------------

/// A missing-or-empty optional text.
pub open spec fn absent_or_empty(s: Option<Seq<char>>) -> bool {
    match s {
        None => true,
        Some(t) => t.len() == 0,
    }
}

/// "<what> is too short (<len> chars, minimum <min> recommended)."
pub open spec fn too_short_msg(what: Seq<char>, len: nat, min: nat) -> Seq<char> {
    what + " is too short ("@ + decimal(len) + " chars, minimum "@ + decimal(min)
        + " recommended)."@
}

/// "<what> is too long (<len> chars, maximum <max> recommended)."
pub open spec fn too_long_msg(what: Seq<char>, len: nat, max: nat) -> Seq<char> {
    what + " is too long ("@ + decimal(len) + " chars, maximum "@ + decimal(max)
        + " recommended)."@
}

/// Issues of a length check on an optional text.
pub open spec fn length_issues(
    rule_id: Seq<char>,
    what: Seq<char>,
    text: Option<Seq<char>>,
    min: nat,
    max: nat,
) -> Seq<IssueV> {
    match text {
        None => Seq::empty(),
        Some(t) => {
            let detail = Some(DetailV::Lengths { length: t.len(), min, max });
            if t.len() < min {
                seq![IssueV {
                    rule_id,
                    severity: Severity::Warning,
                    category: RuleCategory::Meta,
                    message: too_short_msg(what, t.len(), min),
                    detail,
                }]
            } else if t.len() > max {
                seq![IssueV {
                    rule_id,
                    severity: Severity::Warning,
                    category: RuleCategory::Meta,
                    message: too_long_msg(what, t.len(), max),
                    detail,
                }]
            } else {
                Seq::empty()
            }
        },
    }
}

fn one_issue(
    rule_id: &str,
    severity: Severity,
    category: RuleCategory,
    message: String,
    detail: Option<IssueDetail>,
) -> (r: Vec<Issue>)
    ensures
        r@.len() == 1,
        r@[0].rule_id@ == rule_id@,
        r@[0].severity == severity,
        r@[0].category == category,
        r@[0].message@ == message@,
        r@[0].detail == detail,
{
    let mut cs = chars_of(rule_id);
    let id = string_of(&cs);
    let mut v: Vec<Issue> = Vec::new();
    v.push(Issue { rule_id: id, severity, category, message, detail });
    v
}

/// A vector of exactly one issue.
pub fn single_issue(
    rule_id: &str,
    severity: Severity,
    category: RuleCategory,
    message: String,
    detail: Option<IssueDetail>,
) -> (r: Vec<Issue>)
    ensures
        r@.len() == 1,
        r@[0].rule_id@ == rule_id@,
        r@[0].severity == severity,
        r@[0].category == category,
        r@[0].message@ == message@,
        r@[0].detail == detail,
{
    one_issue(rule_id, severity, category, message, detail)
}

fn length_check(
    rule_id: &str,
    what: &str,
    text: &Option<String>,
    min: usize,
    max: usize,
) -> (r: Vec<Issue>)
    ensures
        issues_view(r@) == length_issues(rule_id@, what@, opt_view(*text), min as nat, max as nat),
{
    match text {
        None => {
            let r: Vec<Issue> = Vec::new();
            assert(issues_view(r@) =~= Seq::<IssueV>::empty());
            r
        },
        Some(t) => {
            let cs = chars_of(t.as_str());
            let len = cs.len();
            if len < min {
                let mut m: Vec<char> = Vec::new();
                push_lit(&mut m, what);
                push_lit(&mut m, " is too short (");
                push_decimal(&mut m, len as u64);
                push_lit(&mut m, " chars, minimum ");
                push_decimal(&mut m, min as u64);
                push_lit(&mut m, " recommended).");
                let msg = string_of(&m);
                let r = single_issue(
                    rule_id,
                    Severity::Warning,
                    RuleCategory::Meta,
                    msg,
                    Some(IssueDetail::Lengths { length: len, min, max }),
                );
                assert(issues_view(r@) =~= length_issues(
                    rule_id@,
                    what@,
                    opt_view(*text),
                    min as nat,
                    max as nat,
                ));
                r
            } else if len > max {
                let mut m: Vec<char> = Vec::new();
                push_lit(&mut m, what);
                push_lit(&mut m, " is too long (");
                push_decimal(&mut m, len as u64);
                push_lit(&mut m, " chars, maximum ");
                push_decimal(&mut m, max as u64);
                push_lit(&mut m, " recommended).");
                let msg = string_of(&m);
                let r = single_issue(
                    rule_id,
                    Severity::Warning,
                    RuleCategory::Meta,
                    msg,
                    Some(IssueDetail::Lengths { length: len, min, max }),
                );
                assert(issues_view(r@) =~= length_issues(
                    rule_id@,
                    what@,
                    opt_view(*text),
                    min as nat,
                    max as nat,
                ));
                r
            } else {
                let r: Vec<Issue> = Vec::new();
                assert(issues_view(r@) =~= Seq::<IssueV>::empty());
                r
            }
        },
    }
}

pub fn no_issues() -> (r: Vec<Issue>)
    ensures
        issues_view(r@) == Seq::<IssueV>::empty(),
{
    let r: Vec<Issue> = Vec::new();
    assert(issues_view(r@) =~= Seq::<IssueV>::empty());
    r
}

pub fn plain(rule_id: &str, severity: Severity, category: RuleCategory, message: &str) -> (r: Vec<
    Issue,
>)
    ensures
        issues_view(r@) == seq![plain_issue(rule_id@, severity, category, message@)],
{
    let cs = chars_of(message);
    let m = string_of(&cs);
    let r = single_issue(rule_id, severity, category, m, None);
    assert(issues_view(r@) =~= seq![plain_issue(rule_id@, severity, category, message@)]);
    r
}

// ---------------------------------------------------------------------------
// meta.title_missing
// ---------------------------------------------------------------------------

/// Flags a page without a `<title>` (or with an empty one).
#[derive(Debug, Clone, Copy)]
pub struct TitleMissing;

/// Issues of `meta.title_missing`.
pub open spec fn title_missing_issues(page: ParsedPage) -> Seq<IssueV> {
    if absent_or_empty(opt_view(page.title)) {
        seq![
            plain_issue(
                "meta.title_missing"@,
                Severity::Error,
                RuleCategory::Meta,
                "Page is missing a <title> tag."@,
            ),
        ]
    } else {
        Seq::empty()
    }
}

impl TitleMissing {
    pub fn id(&self) -> (r: &'static str)
        ensures
            r@ == "meta.title_missing"@,
    {
        "meta.title_missing"
    }

    pub fn name(&self) -> (r: &'static str)
        ensures
            r@ == "Missing Title Tag"@,
    {
        "Missing Title Tag"
    }

    pub fn category(&self) -> (r: RuleCategory)
        ensures
            r == RuleCategory::Meta,
    {
        RuleCategory::Meta
    }

    pub fn default_severity(&self) -> (r: Severity)
        ensures
            r == Severity::Error,
    {
        Severity::Error
    }

    pub fn evaluate(&self, page: &ParsedPage, _ctx: &CrawlContext) -> (r: Vec<Issue>)
        ensures
            issues_view(r@) == title_missing_issues(*page),
    {
        let missing = match &page.title {
            None => true,
            Some(t) => t.as_str().is_empty(),
        };
        if missing {
            plain("meta.title_missing", Severity::Error, RuleCategory::Meta,
                "Page is missing a <title> tag.")
        } else {
            no_issues()
        }
    }
}

// ---------------------------------------------------------------------------
// meta.title_length
// ---------------------------------------------------------------------------

/// Flags a title shorter than `min` or longer than `max` characters.
#[derive(Debug, Clone, Copy)]
pub struct TitleLength {
    pub min: usize,
    pub max: usize,
}

impl Default for TitleLength {
    fn default() -> (r: Self)
        ensures
            r.min == 30 && r.max == 60,
    {
        TitleLength { min: 30, max: 60 }
    }
}

/// Issues of `meta.title_length`.
pub open spec fn title_length_issues(rule: TitleLength, page: ParsedPage) -> Seq<IssueV> {
    length_issues("meta.title_length"@, "Title"@, opt_view(page.title), rule.min as nat, rule.max as nat)
}

impl TitleLength {
    pub fn id(&self) -> (r: &'static str)
        ensures
            r@ == "meta.title_length"@,
    {
        "meta.title_length"
    }

    pub fn name(&self) -> (r: &'static str)
        ensures
            r@ == "Title Tag Length"@,
    {
        "Title Tag Length"
    }

    pub fn category(&self) -> (r: RuleCategory)
        ensures
            r == RuleCategory::Meta,
    {
        RuleCategory::Meta
    }

    pub fn default_severity(&self) -> (r: Severity)
        ensures
            r == Severity::Warning,
    {
        Severity::Warning
    }

    pub fn evaluate(&self, page: &ParsedPage, _ctx: &CrawlContext) -> (r: Vec<Issue>)
        ensures
            issues_view(r@) == title_length_issues(*self, *page),
    {
        length_check("meta.title_length", "Title", &page.title, self.min, self.max)
    }
}

// ---------------------------------------------------------------------------
// meta.desc_missing
// ---------------------------------------------------------------------------

/// Flags a page without a meta description (or with an empty one).
#[derive(Debug, Clone, Copy)]
pub struct DescMissing;

/// Issues of `meta.desc_missing`.
pub open spec fn desc_missing_issues(page: ParsedPage) -> Seq<IssueV> {
    if absent_or_empty(opt_view(page.meta_description)) {
        seq![
            plain_issue(
                "meta.desc_missing"@,
                Severity::Warning,
                RuleCategory::Meta,
                "Page is missing a meta description."@,
            ),
        ]
    } else {
        Seq::empty()
    }
}

impl DescMissing {
    pub fn id(&self) -> (r: &'static str)
        ensures
            r@ == "meta.desc_missing"@,
    {
        "meta.desc_missing"
    }

    pub fn name(&self) -> (r: &'static str)
        ensures
            r@ == "Missing Meta Description"@,
    {
        "Missing Meta Description"
    }

    pub fn category(&self) -> (r: RuleCategory)
        ensures
            r == RuleCategory::Meta,
    {
        RuleCategory::Meta
    }

    pub fn default_severity(&self) -> (r: Severity)
        ensures
            r == Severity::Warning,
    {
        Severity::Warning
    }

    pub fn evaluate(&self, page: &ParsedPage, _ctx: &CrawlContext) -> (r: Vec<Issue>)
        ensures
            issues_view(r@) == desc_missing_issues(*page),
    {
        let missing = match &page.meta_description {
            None => true,
            Some(t) => t.as_str().is_empty(),
        };
        if missing {
            plain("meta.desc_missing", Severity::Warning, RuleCategory::Meta,
                "Page is missing a meta description.")
        } else {
            no_issues()
        }
    }
}

// ---------------------------------------------------------------------------
// meta.desc_length
// ---------------------------------------------------------------------------

/// Flags a meta description shorter than `min` or longer than `max`.
#[derive(Debug, Clone, Copy)]
pub struct DescLength {
    pub min: usize,
    pub max: usize,
}

impl Default for DescLength {
    fn default() -> (r: Self)
        ensures
            r.min == 50 && r.max == 160,
    {
        DescLength { min: 50, max: 160 }
    }
}

/// Issues of `meta.desc_length`.
pub open spec fn desc_length_issues(rule: DescLength, page: ParsedPage) -> Seq<IssueV> {
    length_issues(
        "meta.desc_length"@,
        "Meta description"@,
        opt_view(page.meta_description),
        rule.min as nat,
        rule.max as nat,
    )
}

impl DescLength {
    pub fn id(&self) -> (r: &'static str)
        ensures
            r@ == "meta.desc_length"@,
    {
        "meta.desc_length"
    }

    pub fn name(&self) -> (r: &'static str)
        ensures
            r@ == "Meta Description Length"@,
    {
        "Meta Description Length"
    }

    pub fn category(&self) -> (r: RuleCategory)
        ensures
            r == RuleCategory::Meta,
    {
        RuleCategory::Meta
    }

    pub fn default_severity(&self) -> (r: Severity)
        ensures
            r == Severity::Warning,
    {
        Severity::Warning
    }

    pub fn evaluate(&self, page: &ParsedPage, _ctx: &CrawlContext) -> (r: Vec<Issue>)
        ensures
            issues_view(r@) == desc_length_issues(*self, *page),
    {
        length_check("meta.desc_length", "Meta description", &page.meta_description, self.min,
            self.max)
    }
}

// ---------------------------------------------------------------------------
// meta.canonical_missing
// ---------------------------------------------------------------------------

/// Flags an indexable page (no `noindex` robots directive) without a
/// canonical link.
#[derive(Debug, Clone, Copy)]
pub struct CanonicalMissing;

/// The page's robots directives contain `noindex` (after lowercasing).
pub open spec fn is_noindex(page: ParsedPage) -> bool {
    match page.meta_robots {
        Some(r) => contains_seq(unicode_lowercase(r@), "noindex"@),
        None => false,
    }
}

/// Issues of `meta.canonical_missing`.
pub open spec fn canonical_missing_issues(page: ParsedPage) -> Seq<IssueV> {
    if !is_noindex(page) && page.canonical is None {
        seq![
            plain_issue(
                "meta.canonical_missing"@,
                Severity::Warning,
                RuleCategory::Meta,
                "Indexable page is missing a canonical tag."@,
            ),
        ]
    } else {
        Seq::empty()
    }
}

impl CanonicalMissing {
    pub fn id(&self) -> (r: &'static str)
        ensures
            r@ == "meta.canonical_missing"@,
    {
        "meta.canonical_missing"
    }

    pub fn name(&self) -> (r: &'static str)
        ensures
            r@ == "Missing Canonical Tag"@,
    {
        "Missing Canonical Tag"
    }

    pub fn category(&self) -> (r: RuleCategory)
        ensures
            r == RuleCategory::Meta,
    {
        RuleCategory::Meta
    }

    pub fn default_severity(&self) -> (r: Severity)
        ensures
            r == Severity::Warning,
    {
        Severity::Warning
    }

    pub fn evaluate(&self, page: &ParsedPage, _ctx: &CrawlContext) -> (r: Vec<Issue>)
        ensures
            issues_view(r@) == canonical_missing_issues(*page),
    {
        let noindex = match &page.meta_robots {
            Some(r) => {
                let low = to_lowercase(r.as_str());
                str_contains(low.as_str(), "noindex")
            },
            None => false,
        };
        if !noindex && page.canonical.is_none() {
            plain("meta.canonical_missing", Severity::Warning, RuleCategory::Meta,
                "Indexable page is missing a canonical tag.")
        } else {
            no_issues()
        }
    }
}

// ---------------------------------------------------------------------------
// meta.canonical_mismatch
// ---------------------------------------------------------------------------

/// Notes a canonical URL that differs from the page URL.
#[derive(Debug, Clone, Copy)]
pub struct CanonicalMismatch;

/// Issues of `meta.canonical_mismatch`.
pub open spec fn canonical_mismatch_issues(page: ParsedPage) -> Seq<IssueV> {
    match page.canonical {
        Some(c) => if c@ != page.url@ {
            seq![IssueV {
                rule_id: "meta.canonical_mismatch"@,
                severity: Severity::Info,
                category: RuleCategory::Meta,
                message: "Canonical URL ("@ + c@ + ") differs from page URL."@,
                detail: Some(DetailV::Canonical { canonical: c@, page_url: page.url@ }),
            }]
        } else {
            Seq::empty()
        },
        None => Seq::empty(),
    }
}

impl CanonicalMismatch {
    pub fn id(&self) -> (r: &'static str)
        ensures
            r@ == "meta.canonical_mismatch"@,
    {
        "meta.canonical_mismatch"
    }

    pub fn name(&self) -> (r: &'static str)
        ensures
            r@ == "Canonical URL Mismatch"@,
    {
        "Canonical URL Mismatch"
    }

    pub fn category(&self) -> (r: RuleCategory)
        ensures
            r == RuleCategory::Meta,
    {
        RuleCategory::Meta
    }

    pub fn default_severity(&self) -> (r: Severity)
        ensures
            r == Severity::Info,
    {
        Severity::Info
    }

    pub fn evaluate(&self, page: &ParsedPage, _ctx: &CrawlContext) -> (r: Vec<Issue>)
        ensures
            issues_view(r@) == canonical_mismatch_issues(*page),
    {
        match &page.canonical {
            Some(c) => {
                if !str_eq(c.as_str(), page.url.as_str()) {
                    let mut m: Vec<char> = Vec::new();
                    push_lit(&mut m, "Canonical URL (");
                    push_lit(&mut m, c.as_str());
                    push_lit(&mut m, ") differs from page URL.");
                    let msg = string_of(&m);
                    let cc = c.clone();
                    let pu = page.url.clone();
                    let r = single_issue(
                        "meta.canonical_mismatch",
                        Severity::Info,
                        RuleCategory::Meta,
                        msg,
                        Some(IssueDetail::Canonical { canonical: cc, page_url: pu }),
                    );
                    assert(issues_view(r@) =~= canonical_mismatch_issues(*page));
                    r
                } else {
                    no_issues()
                }
            },
            None => no_issues(),
        }
    }
}

// ---------------------------------------------------------------------------
// meta.viewport_missing
// ---------------------------------------------------------------------------

/// Flags a page without a viewport meta tag.
#[derive(Debug, Clone, Copy)]
pub struct ViewportMissing;

/// Issues of `meta.viewport_missing`.
pub open spec fn viewport_missing_issues(page: ParsedPage) -> Seq<IssueV> {
    if page.viewport is None {
        seq![
            plain_issue(
                "meta.viewport_missing"@,
                Severity::Warning,
                RuleCategory::Meta,
                "Page is missing a viewport meta tag (affects mobile rendering)."@,
            ),
        ]
    } else {
        Seq::empty()
    }
}

impl ViewportMissing {
    pub fn id(&self) -> (r: &'static str)
        ensures
            r@ == "meta.viewport_missing"@,
    {
        "meta.viewport_missing"
    }

    pub fn name(&self) -> (r: &'static str)
        ensures
            r@ == "Missing Viewport Meta Tag"@,
    {
        "Missing Viewport Meta Tag"
    }

    pub fn category(&self) -> (r: RuleCategory)
        ensures
            r == RuleCategory::Meta,
    {
        RuleCategory::Meta
    }

    pub fn default_severity(&self) -> (r: Severity)
        ensures
            r == Severity::Warning,
    {
        Severity::Warning
    }

    pub fn evaluate(&self, page: &ParsedPage, _ctx: &CrawlContext) -> (r: Vec<Issue>)
        ensures
            issues_view(r@) == viewport_missing_issues(*page),
    {
        if page.viewport.is_none() {
            plain("meta.viewport_missing", Severity::Warning, RuleCategory::Meta,
                "Page is missing a viewport meta tag (affects mobile rendering).")
        } else {
            no_issues()
        }
    }
}

} // verus!
