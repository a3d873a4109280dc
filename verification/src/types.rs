//! Shared enums used across modules, with their textual codes (the form
//! they take in storage and in the UI) and the parsers for those codes.

use vstd::prelude::*;
use crate::text::{concat2, str_eq};

verus! {

/// State machine for every crawled URL.
#[derive(Debug, Clone, Copy, PartialEq, Eq, Hash, Structural)]
pub enum UrlState {
    Discovered,
    Queued,
    Fetching,
    Fetched,
    Parsed,
    Analyzed,
    Errored,
}

/// Crawl lifecycle states.
#[derive(Debug, Clone, Copy, PartialEq, Eq, Structural)]
pub enum CrawlState {
    Created,
    Running,
    Paused,
    Completed,
    Stopped,
    Error,
}

/// SEO issue severity levels.
#[derive(Debug, Clone, Copy, PartialEq, Eq, Hash, Structural)]
pub enum Severity {
    Error,
    Warning,
    Info,
}

/// SEO rule categories for grouping in the UI.
#[derive(Debug, Clone, Copy, PartialEq, Eq, Hash, Structural)]
pub enum RuleCategory {
    Meta,
    Content,
    Links,
    Images,
    Performance,
    Security,
    Indexability,
    Structured,
    International,
}

/// Link types stored in the `links` table.
#[derive(Debug, Clone, Copy, PartialEq, Eq, Structural)]
pub enum LinkType {
    Anchor,
    Image,
    Script,
    Stylesheet,
    Canonical,
    Redirect,
}

// ---------------------------------------------------------------------------
// Codes
// ---------------------------------------------------------------------------

/// The storage code of a URL state.
pub open spec fn url_state_code(s: UrlState) -> Seq<char> {
    match s {
        UrlState::Discovered => "discovered"@,
        UrlState::Queued => "queued"@,
        UrlState::Fetching => "fetching"@,
        UrlState::Fetched => "fetched"@,
        UrlState::Parsed => "parsed"@,
        UrlState::Analyzed => "analyzed"@,
        UrlState::Errored => "errored"@,
    }
}

/// The storage code of a crawl state.
pub open spec fn crawl_state_code(s: CrawlState) -> Seq<char> {
    match s {
        CrawlState::Created => "created"@,
        CrawlState::Running => "running"@,
        CrawlState::Paused => "paused"@,
        CrawlState::Completed => "completed"@,
        CrawlState::Stopped => "stopped"@,
        CrawlState::Error => "error"@,
    }
}

/// The storage code of a severity.
pub open spec fn severity_code(s: Severity) -> Seq<char> {
    match s {
        Severity::Error => "error"@,
        Severity::Warning => "warning"@,
        Severity::Info => "info"@,
    }
}

/// The storage code of a rule category.
pub open spec fn category_code(c: RuleCategory) -> Seq<char> {
    match c {
        RuleCategory::Meta => "meta"@,
        RuleCategory::Content => "content"@,
        RuleCategory::Links => "links"@,
        RuleCategory::Images => "images"@,
        RuleCategory::Performance => "performance"@,
        RuleCategory::Security => "security"@,
        RuleCategory::Indexability => "indexability"@,
        RuleCategory::Structured => "structured"@,
        RuleCategory::International => "international"@,
    }
}

/// The storage code of a link type.
pub open spec fn link_type_code(t: LinkType) -> Seq<char> {
    match t {
        LinkType::Anchor => "a"@,
        LinkType::Image => "img"@,
        LinkType::Script => "script"@,
        LinkType::Stylesheet => "link"@,
        LinkType::Canonical => "canonical"@,
        LinkType::Redirect => "redirect"@,
    }
}

/// The name of a variant as `{:?}` prints it.
pub open spec fn category_debug_name(c: RuleCategory) -> Seq<char> {
    match c {
        RuleCategory::Meta => "Meta"@,
        RuleCategory::Content => "Content"@,
        RuleCategory::Links => "Links"@,
        RuleCategory::Images => "Images"@,
        RuleCategory::Performance => "Performance"@,
        RuleCategory::Security => "Security"@,
        RuleCategory::Indexability => "Indexability"@,
        RuleCategory::Structured => "Structured"@,
        RuleCategory::International => "International"@,
    }
}

/// The name of a variant as `{:?}` prints it.
pub open spec fn severity_debug_name(s: Severity) -> Seq<char> {
    match s {
        Severity::Error => "Error"@,
        Severity::Warning => "Warning"@,
        Severity::Info => "Info"@,
    }
}

/// The severity whose code is `s`, if any.
pub open spec fn severity_from_code(s: Seq<char>) -> Option<Severity> {
    if s == "error"@ {
        Some(Severity::Error)
    } else if s == "warning"@ {
        Some(Severity::Warning)
    } else if s == "info"@ {
        Some(Severity::Info)
    } else {
        None
    }
}

/// The category whose code is `s`, if any.
pub open spec fn category_from_code(s: Seq<char>) -> Option<RuleCategory> {
    if s == "meta"@ {
        Some(RuleCategory::Meta)
    } else if s == "content"@ {
        Some(RuleCategory::Content)
    } else if s == "links"@ {
        Some(RuleCategory::Links)
    } else if s == "images"@ {
        Some(RuleCategory::Images)
    } else if s == "performance"@ {
        Some(RuleCategory::Performance)
    } else if s == "security"@ {
        Some(RuleCategory::Security)
    } else if s == "indexability"@ {
        Some(RuleCategory::Indexability)
    } else if s == "structured"@ {
        Some(RuleCategory::Structured)
    } else if s == "international"@ {
        Some(RuleCategory::International)
    } else {
        None
    }
}

impl UrlState {
    /// The storage code of this state (its display form).
    pub fn as_str(&self) -> (r: &'static str)
        ensures
            r@ == url_state_code(*self),
    {
        match self {
            UrlState::Discovered => "discovered",
            UrlState::Queued => "queued",
            UrlState::Fetching => "fetching",
            UrlState::Fetched => "fetched",
            UrlState::Parsed => "parsed",
            UrlState::Analyzed => "analyzed",
            UrlState::Errored => "errored",
        }
    }
}

impl CrawlState {
    /// The storage code of this state.
    pub fn as_str(&self) -> (r: &'static str)
        ensures
            r@ == crawl_state_code(*self),
    {
        match self {
            CrawlState::Created => "created",
            CrawlState::Running => "running",
            CrawlState::Paused => "paused",
            CrawlState::Completed => "completed",
            CrawlState::Stopped => "stopped",
            CrawlState::Error => "error",
        }
    }
}

impl LinkType {
    /// The storage code of this link type (its display form).
    pub fn as_str(&self) -> (r: &'static str)
        ensures
            r@ == link_type_code(*self),
    {
        match self {
            LinkType::Anchor => "a",
            LinkType::Image => "img",
            LinkType::Script => "script",
            LinkType::Stylesheet => "link",
            LinkType::Canonical => "canonical",
            LinkType::Redirect => "redirect",
        }
    }
}

impl Severity {
    /// The storage code of this severity (its display form).
    pub fn as_str(&self) -> (r: &'static str)
        ensures
            r@ == severity_code(*self),
    {
        match self {
            Severity::Error => "error",
            Severity::Warning => "warning",
            Severity::Info => "info",
        }
    }

    /// The variant name, as `{:?}` prints it.
    pub fn debug_name(&self) -> (r: &'static str)
        ensures
            r@ == severity_debug_name(*self),
    {
        match self {
            Severity::Error => "Error",
            Severity::Warning => "Warning",
            Severity::Info => "Info",
        }
    }

    /// Parse a storage code; any other text is refused with the message
    /// `unknown severity: <text>`.
    pub fn parse(s: &str) -> (r: Result<Severity, String>)
        ensures
            match r {
                Ok(v) => severity_from_code(s@) == Some(v),
                Err(e) => severity_from_code(s@) is None && e@ == "unknown severity: "@ + s@,
            },
    {
        if str_eq(s, "error") {
            Ok(Severity::Error)
        } else if str_eq(s, "warning") {
            Ok(Severity::Warning)
        } else if str_eq(s, "info") {
            Ok(Severity::Info)
        } else {
            Err(concat2("unknown severity: ", s))
        }
    }
}

impl RuleCategory {
    /// The storage code of this category (its display form).
    pub fn as_str(&self) -> (r: &'static str)
        ensures
            r@ == category_code(*self),
    {
        match self {
            RuleCategory::Meta => "meta",
            RuleCategory::Content => "content",
            RuleCategory::Links => "links",
            RuleCategory::Images => "images",
            RuleCategory::Performance => "performance",
            RuleCategory::Security => "security",
            RuleCategory::Indexability => "indexability",
            RuleCategory::Structured => "structured",
            RuleCategory::International => "international",
        }
    }

    /// The variant name, as `{:?}` prints it.
    pub fn debug_name(&self) -> (r: &'static str)
        ensures
            r@ == category_debug_name(*self),
    {
        match self {
            RuleCategory::Meta => "Meta",
            RuleCategory::Content => "Content",
            RuleCategory::Links => "Links",
            RuleCategory::Images => "Images",
            RuleCategory::Performance => "Performance",
            RuleCategory::Security => "Security",
            RuleCategory::Indexability => "Indexability",
            RuleCategory::Structured => "Structured",
            RuleCategory::International => "International",
        }
    }

    /// Parse a storage code; any other text is refused with the message
    /// `unknown rule category: <text>`.
    pub fn parse(s: &str) -> (r: Result<RuleCategory, String>)
        ensures
            match r {
                Ok(v) => category_from_code(s@) == Some(v),
                Err(e) => category_from_code(s@) is None && e@ == "unknown rule category: "@
                    + s@,
            },
    {
        if str_eq(s, "meta") {
            Ok(RuleCategory::Meta)
        } else if str_eq(s, "content") {
            Ok(RuleCategory::Content)
        } else if str_eq(s, "links") {
            Ok(RuleCategory::Links)
        } else if str_eq(s, "images") {
            Ok(RuleCategory::Images)
        } else if str_eq(s, "performance") {
            Ok(RuleCategory::Performance)
        } else if str_eq(s, "security") {
            Ok(RuleCategory::Security)
        } else if str_eq(s, "indexability") {
            Ok(RuleCategory::Indexability)
        } else if str_eq(s, "structured") {
            Ok(RuleCategory::Structured)
        } else if str_eq(s, "international") {
            Ok(RuleCategory::International)
        } else {
            Err(concat2("unknown rule category: ", s))
        }
    }
}

// ---------------------------------------------------------------------------
// Laws
// ---------------------------------------------------------------------------

/// Parsing the code of a severity gives that severity back, and a parsed
/// severity's code is the text it was parsed from.
pub proof fn severity_code_roundtrip(s: Severity, text: Seq<char>)
    ensures
        severity_from_code(severity_code(s)) == Some(s),
        severity_from_code(text) matches Some(v) ==> severity_code(v) == text,
{
    reveal_strlit("error");
    reveal_strlit("warning");
    reveal_strlit("info");
    assert("error"@.len() == 5);
    assert("warning"@.len() == 7);
    assert("info"@.len() == 4);
}

/// Parsing the code of a category gives that category back, and a parsed
/// category's code is the text it was parsed from.
pub proof fn category_code_roundtrip(c: RuleCategory, text: Seq<char>)
    ensures
        category_from_code(category_code(c)) == Some(c),
        category_from_code(text) matches Some(v) ==> category_code(v) == text,
{
    reveal_strlit("meta");
    reveal_strlit("content");
    reveal_strlit("links");
    reveal_strlit("images");
    reveal_strlit("performance");
    reveal_strlit("security");
    reveal_strlit("indexability");
    reveal_strlit("structured");
    reveal_strlit("international");
    assert("meta"@.len() == 4);
    assert("content"@.len() == 7);
    assert("links"@.len() == 5);
    assert("images"@.len() == 6);
    assert("performance"@.len() == 11);
    assert("security"@.len() == 8);
    assert("indexability"@.len() == 12);
    assert("structured"@.len() == 10);
    assert("international"@.len() == 13);
}

} // verus!
