//! Link, image, performance and security rules.

use vstd::prelude::*;
use crate::issue::{Issue, IssueDetail, IssueV, DetailV, CrawlContext, issues_view, plain_issue};
use crate::page::{ExtractedImage, ExtractedLink, ParsedPage};
use crate::rules_meta::{single_issue, plain, no_issues};
use crate::text::{string_of, push_lit, strs_view, has_prefix, str_starts_with};
use crate::types::{RuleCategory, Severity};
use crate::words::{decimal, push_decimal};

verus! {

// ---------------------------------------------------------------------------
// Filters over extracted resources
// ---------------------------------------------------------------------------

/// Sources of the images without an `alt` attribute, in page order.
pub open spec fn alt_missing_srcs(imgs: Seq<ExtractedImage>) -> Seq<Seq<char>>
    decreases imgs.len(),
{
    if imgs.len() == 0 {
        Seq::empty()
    } else {
        let rest = alt_missing_srcs(imgs.drop_last());
        if imgs.last().alt is None {
            rest.push(imgs.last().src@)
        } else {
            rest
        }
    }
}

/// The image has an `alt` attribute whose value is empty.
pub open spec fn alt_is_empty(img: ExtractedImage) -> bool {
    match img.alt {
        Some(a) => a@.len() == 0,
        None => false,
    }
}

/// Sources of the images with an empty `alt` attribute, in page order.
pub open spec fn alt_empty_srcs(imgs: Seq<ExtractedImage>) -> Seq<Seq<char>>
    decreases imgs.len(),
{
    if imgs.len() == 0 {
        Seq::empty()
    } else {
        let rest = alt_empty_srcs(imgs.drop_last());
        if alt_is_empty(imgs.last()) {
            rest.push(imgs.last().src@)
        } else {
            rest
        }
    }
}

/// Targets of the internal links marked `nofollow`, in page order.
pub open spec fn nofollow_internal_hrefs(links: Seq<ExtractedLink>) -> Seq<Seq<char>>
    decreases links.len(),
{
    if links.len() == 0 {
        Seq::empty()
    } else {
        let rest = nofollow_internal_hrefs(links.drop_last());
        if links.last().is_internal && links.last().is_nofollow {
            rest.push(links.last().href@)
        } else {
            rest
        }
    }
}

/// The URLs of `urls` that begin with `http://`, in order.
pub open spec fn http_urls(urls: Seq<Seq<char>>) -> Seq<Seq<char>>
    decreases urls.len(),
{
    if urls.len() == 0 {
        Seq::empty()
    } else {
        let rest = http_urls(urls.drop_last());
        if has_prefix(urls.last(), "http://"@) {
            rest.push(urls.last())
        } else {
            rest
        }
    }
}

/// Image sources in page order.
pub open spec fn image_srcs(imgs: Seq<ExtractedImage>) -> Seq<Seq<char>> {
    imgs.map_values(|i: ExtractedImage| i.src@)
}

fn collect_alt_missing(imgs: &Vec<ExtractedImage>) -> (r: Vec<String>)
    ensures
        strs_view(r@) == alt_missing_srcs(imgs@),
{
    let mut r: Vec<String> = Vec::new();
    let mut i: usize = 0;
    while i < imgs.len()
        invariant
            i <= imgs.len(),
            strs_view(r@) == alt_missing_srcs(imgs@.take(i as int)),
        decreases imgs.len() - i,
    {
        assert(imgs@.take(i + 1).drop_last() =~= imgs@.take(i as int));
        if imgs[i].alt.is_none() {
            let ghost before = strs_view(r@);
            r.push(imgs[i].src.clone());
            assert(strs_view(r@) =~= before.push(imgs@[i as int].src@));
        }
        i = i + 1;
    }
    assert(imgs@.take(imgs.len() as int) =~= imgs@);
    r
}

fn collect_alt_empty(imgs: &Vec<ExtractedImage>) -> (r: Vec<String>)
    ensures
        strs_view(r@) == alt_empty_srcs(imgs@),
{
    let mut r: Vec<String> = Vec::new();
    let mut i: usize = 0;
    while i < imgs.len()
        invariant
            i <= imgs.len(),
            strs_view(r@) == alt_empty_srcs(imgs@.take(i as int)),
        decreases imgs.len() - i,
    {
        assert(imgs@.take(i + 1).drop_last() =~= imgs@.take(i as int));
        let empty = match &imgs[i].alt {
            Some(a) => a.as_str().is_empty(),
            None => false,
        };
        if empty {
            let ghost before = strs_view(r@);
            r.push(imgs[i].src.clone());
            assert(strs_view(r@) =~= before.push(imgs@[i as int].src@));
        }
        i = i + 1;
    }
    assert(imgs@.take(imgs.len() as int) =~= imgs@);
    r
}

fn collect_nofollow_internal(links: &Vec<ExtractedLink>) -> (r: Vec<String>)
    ensures
        strs_view(r@) == nofollow_internal_hrefs(links@),
{
    let mut r: Vec<String> = Vec::new();
    let mut i: usize = 0;
    while i < links.len()
        invariant
            i <= links.len(),
            strs_view(r@) == nofollow_internal_hrefs(links@.take(i as int)),
        decreases links.len() - i,
    {
        assert(links@.take(i + 1).drop_last() =~= links@.take(i as int));
        if links[i].is_internal && links[i].is_nofollow {
            let ghost before = strs_view(r@);
            r.push(links[i].href.clone());
            assert(strs_view(r@) =~= before.push(links@[i as int].href@));
        }
        i = i + 1;
    }
    assert(links@.take(links.len() as int) =~= links@);
    r
}

fn push_http_urls(out: &mut Vec<String>, urls: &Vec<String>)
    ensures
        strs_view(final(out)@) == strs_view(old(out)@) + http_urls(strs_view(urls@)),
{
    let ghost start = strs_view(out@);
    let mut i: usize = 0;
    while i < urls.len()
        invariant
            i <= urls.len(),
            strs_view(out@) == start + http_urls(strs_view(urls@).take(i as int)),
        decreases urls.len() - i,
    {
        assert(strs_view(urls@).take(i + 1).drop_last() =~= strs_view(urls@).take(i as int));
        assert(strs_view(urls@).take(i + 1).last() == urls@[i as int]@);
        if str_starts_with(urls[i].as_str(), "http://") {
            let ghost before = strs_view(out@);
            out.push(urls[i].clone());
            assert(strs_view(out@) =~= before.push(urls@[i as int]@));
        }
        i = i + 1;
    }
    assert(strs_view(urls@).take(urls.len() as int) =~= strs_view(urls@));
}

fn push_http_image_srcs(out: &mut Vec<String>, imgs: &Vec<ExtractedImage>)
    ensures
        strs_view(final(out)@) == strs_view(old(out)@) + http_urls(image_srcs(imgs@)),
{
    let ghost start = strs_view(out@);
    let mut i: usize = 0;
    while i < imgs.len()
        invariant
            i <= imgs.len(),
            strs_view(out@) == start + http_urls(image_srcs(imgs@).take(i as int)),
        decreases imgs.len() - i,
    {
        assert(image_srcs(imgs@).take(i + 1).drop_last() =~= image_srcs(imgs@).take(i as int));
        assert(image_srcs(imgs@).take(i + 1).last() == imgs@[i as int].src@);
        if str_starts_with(imgs[i].src.as_str(), "http://") {
            let ghost before = strs_view(out@);
            out.push(imgs[i].src.clone());
            assert(strs_view(out@) =~= before.push(imgs@[i as int].src@));
        }
        i = i + 1;
    }
    assert(image_srcs(imgs@).take(imgs.len() as int) =~= image_srcs(imgs@));
}

// ---------------------------------------------------------------------------
// links.broken_internal / links.redirect_chain (cross-page rules)
// ---------------------------------------------------------------------------

/// Broken internal links; found after the crawl by the cross-page
/// analysis, so the per-page evaluation reports nothing.
#[derive(Debug, Clone, Copy)]
pub struct BrokenInternal;

impl BrokenInternal {
    pub fn id(&self) -> (r: &'static str)
        ensures
            r@ == "links.broken_internal"@,
    {
        "links.broken_internal"
    }

    pub fn name(&self) -> (r: &'static str)
        ensures
            r@ == "Broken Internal Link"@,
    {
        "Broken Internal Link"
    }

    pub fn category(&self) -> (r: RuleCategory)
        ensures
            r == RuleCategory::Links,
    {
        RuleCategory::Links
    }

    pub fn default_severity(&self) -> (r: Severity)
        ensures
            r == Severity::Error,
    {
        Severity::Error
    }

    pub fn evaluate(&self, _page: &ParsedPage, _ctx: &CrawlContext) -> (r: Vec<Issue>)
        ensures
            r@.len() == 0,
    {
        Vec::new()
    }
}

/// Redirect chains; found after the crawl, so the per-page evaluation
/// reports nothing.
#[derive(Debug, Clone, Copy)]
pub struct RedirectChain;

impl RedirectChain {
    pub fn id(&self) -> (r: &'static str)
        ensures
            r@ == "links.redirect_chain"@,
    {
        "links.redirect_chain"
    }

    pub fn name(&self) -> (r: &'static str)
        ensures
            r@ == "Redirect Chain"@,
    {
        "Redirect Chain"
    }

    pub fn category(&self) -> (r: RuleCategory)
        ensures
            r == RuleCategory::Links,
    {
        RuleCategory::Links
    }

    pub fn default_severity(&self) -> (r: Severity)
        ensures
            r == Severity::Warning,
    {
        Severity::Warning
    }

    pub fn evaluate(&self, _page: &ParsedPage, _ctx: &CrawlContext) -> (r: Vec<Issue>)
        ensures
            r@.len() == 0,
    {
        Vec::new()
    }
}

// ---------------------------------------------------------------------------
// links.nofollow_internal
// ---------------------------------------------------------------------------

/// Notes internal links carrying `rel="nofollow"`.
#[derive(Debug, Clone, Copy)]
pub struct NofollowInternal;

/// Issues of `links.nofollow_internal`.
pub open spec fn nofollow_internal_issues(page: ParsedPage) -> Seq<IssueV> {
    let hrefs = nofollow_internal_hrefs(page.links@);
    if hrefs.len() > 0 {
        seq![IssueV {
            rule_id: "links.nofollow_internal"@,
            severity: Severity::Info,
            category: RuleCategory::Links,
            message: decimal(hrefs.len()) + " internal link(s) have rel=\"nofollow\"."@,
            detail: Some(DetailV::Links { links: hrefs }),
        }]
    } else {
        Seq::empty()
    }
}

impl NofollowInternal {
    pub fn id(&self) -> (r: &'static str)
        ensures
            r@ == "links.nofollow_internal"@,
    {
        "links.nofollow_internal"
    }

    pub fn name(&self) -> (r: &'static str)
        ensures
            r@ == "Internal Nofollow Link"@,
    {
        "Internal Nofollow Link"
    }

    pub fn category(&self) -> (r: RuleCategory)
        ensures
            r == RuleCategory::Links,
    {
        RuleCategory::Links
    }

    pub fn default_severity(&self) -> (r: Severity)
        ensures
            r == Severity::Info,
    {
        Severity::Info
    }

    pub fn evaluate(&self, page: &ParsedPage, _ctx: &CrawlContext) -> (r: Vec<Issue>)
        ensures
            issues_view(r@) == nofollow_internal_issues(*page),
    {
        let hrefs = collect_nofollow_internal(&page.links);
        if hrefs.len() > 0 {
            let mut m: Vec<char> = Vec::new();
            push_decimal(&mut m, hrefs.len() as u64);
            push_lit(&mut m, " internal link(s) have rel=\"nofollow\".");
            let msg = string_of(&m);
            let r = single_issue(
                "links.nofollow_internal",
                Severity::Info,
                RuleCategory::Links,
                msg,
                Some(IssueDetail::Links { links: hrefs }),
            );
            assert(issues_view(r@) =~= nofollow_internal_issues(*page));
            r
        } else {
            no_issues()
        }
    }
}

// ---------------------------------------------------------------------------
// images.alt_missing / images.alt_empty
// ---------------------------------------------------------------------------

/// Flags images without an `alt` attribute.
#[derive(Debug, Clone, Copy)]
pub struct AltMissing;

/// Issues of `images.alt_missing`.
pub open spec fn alt_missing_issues(page: ParsedPage) -> Seq<IssueV> {
    let srcs = alt_missing_srcs(page.images@);
    if srcs.len() > 0 {
        seq![IssueV {
            rule_id: "images.alt_missing"@,
            severity: Severity::Warning,
            category: RuleCategory::Images,
            message: decimal(srcs.len()) + " image(s) missing alt attribute."@,
            detail: Some(DetailV::Images { images: srcs }),
        }]
    } else {
        Seq::empty()
    }
}

impl AltMissing {
    pub fn id(&self) -> (r: &'static str)
        ensures
            r@ == "images.alt_missing"@,
    {
        "images.alt_missing"
    }

    pub fn name(&self) -> (r: &'static str)
        ensures
            r@ == "Image Missing Alt Attribute"@,
    {
        "Image Missing Alt Attribute"
    }

    pub fn category(&self) -> (r: RuleCategory)
        ensures
            r == RuleCategory::Images,
    {
        RuleCategory::Images
    }

    pub fn default_severity(&self) -> (r: Severity)
        ensures
            r == Severity::Warning,
    {
        Severity::Warning
    }

    pub fn evaluate(&self, page: &ParsedPage, _ctx: &CrawlContext) -> (r: Vec<Issue>)
        ensures
            issues_view(r@) == alt_missing_issues(*page),
    {
        let srcs = collect_alt_missing(&page.images);
        if srcs.len() > 0 {
            let mut m: Vec<char> = Vec::new();
            push_decimal(&mut m, srcs.len() as u64);
            push_lit(&mut m, " image(s) missing alt attribute.");
            let msg = string_of(&m);
            let r = single_issue(
                "images.alt_missing",
                Severity::Warning,
                RuleCategory::Images,
                msg,
                Some(IssueDetail::Images { images: srcs }),
            );
            assert(issues_view(r@) =~= alt_missing_issues(*page));
            r
        } else {
            no_issues()
        }
    }
}

/// Notes images with an empty `alt` attribute (possibly decorative).
#[derive(Debug, Clone, Copy)]
pub struct AltEmpty;

/// Issues of `images.alt_empty`.
pub open spec fn alt_empty_issues(page: ParsedPage) -> Seq<IssueV> {
    let srcs = alt_empty_srcs(page.images@);
    if srcs.len() > 0 {
        seq![IssueV {
            rule_id: "images.alt_empty"@,
            severity: Severity::Info,
            category: RuleCategory::Images,
            message: decimal(srcs.len()) + " image(s) have empty alt attribute (may be decorative)."@,
            detail: Some(DetailV::Images { images: srcs }),
        }]
    } else {
        Seq::empty()
    }
}

impl AltEmpty {
    pub fn id(&self) -> (r: &'static str)
        ensures
            r@ == "images.alt_empty"@,
    {
        "images.alt_empty"
    }

    pub fn name(&self) -> (r: &'static str)
        ensures
            r@ == "Image With Empty Alt"@,
    {
        "Image With Empty Alt"
    }

    pub fn category(&self) -> (r: RuleCategory)
        ensures
            r == RuleCategory::Images,
    {
        RuleCategory::Images
    }

    pub fn default_severity(&self) -> (r: Severity)
        ensures
            r == Severity::Info,
    {
        Severity::Info
    }

    pub fn evaluate(&self, page: &ParsedPage, _ctx: &CrawlContext) -> (r: Vec<Issue>)
        ensures
            issues_view(r@) == alt_empty_issues(*page),
    {
        let srcs = collect_alt_empty(&page.images);
        if srcs.len() > 0 {
            let mut m: Vec<char> = Vec::new();
            push_decimal(&mut m, srcs.len() as u64);
            push_lit(&mut m, " image(s) have empty alt attribute (may be decorative).");
            let msg = string_of(&m);
            let r = single_issue(
                "images.alt_empty",
                Severity::Info,
                RuleCategory::Images,
                msg,
                Some(IssueDetail::Images { images: srcs }),
            );
            assert(issues_view(r@) =~= alt_empty_issues(*page));
            r
        } else {
            no_issues()
        }
    }
}

// ---------------------------------------------------------------------------
// security.mixed_content / security.http_page
// ---------------------------------------------------------------------------

/// Flags an HTTPS page that loads resources over plain HTTP.
#[derive(Debug, Clone, Copy)]
pub struct MixedContent;

/// The insecure resources of a page: its scripts, then stylesheets, then
/// image sources that begin with `http://`.
pub open spec fn http_resources(page: ParsedPage) -> Seq<Seq<char>> {
    http_urls(strs_view(page.scripts@)) + http_urls(strs_view(page.stylesheets@)) + http_urls(
        image_srcs(page.images@),
    )
}

/// Issues of `security.mixed_content`.
pub open spec fn mixed_content_issues(page: ParsedPage) -> Seq<IssueV> {
    if !has_prefix(page.url@, "https://"@) {
        Seq::empty()
    } else {
        let res = http_resources(page);
        if res.len() > 0 {
            seq![IssueV {
                rule_id: "security.mixed_content"@,
                severity: Severity::Error,
                category: RuleCategory::Security,
                message: "HTTPS page loads "@ + decimal(res.len()) + " HTTP resource(s)."@,
                detail: Some(DetailV::HttpResources { http_resources: res }),
            }]
        } else {
            Seq::empty()
        }
    }
}

impl MixedContent {
    pub fn id(&self) -> (r: &'static str)
        ensures
            r@ == "security.mixed_content"@,
    {
        "security.mixed_content"
    }

    pub fn name(&self) -> (r: &'static str)
        ensures
            r@ == "Mixed Content"@,
    {
        "Mixed Content"
    }

    pub fn category(&self) -> (r: RuleCategory)
        ensures
            r == RuleCategory::Security,
    {
        RuleCategory::Security
    }

    pub fn default_severity(&self) -> (r: Severity)
        ensures
            r == Severity::Error,
    {
        Severity::Error
    }

    pub fn evaluate(&self, page: &ParsedPage, _ctx: &CrawlContext) -> (r: Vec<Issue>)
        ensures
            issues_view(r@) == mixed_content_issues(*page),
    {
        if !str_starts_with(page.url.as_str(), "https://") {
            return no_issues();
        }
        let mut res: Vec<String> = Vec::new();
        push_http_urls(&mut res, &page.scripts);
        push_http_urls(&mut res, &page.stylesheets);
        push_http_image_srcs(&mut res, &page.images);
        assert(strs_view(res@) =~= http_resources(*page));
        if res.len() > 0 {
            let mut m: Vec<char> = Vec::new();
            push_lit(&mut m, "HTTPS page loads ");
            push_decimal(&mut m, res.len() as u64);
            push_lit(&mut m, " HTTP resource(s).");
            let msg = string_of(&m);
            let r = single_issue(
                "security.mixed_content",
                Severity::Error,
                RuleCategory::Security,
                msg,
                Some(IssueDetail::HttpResources { http_resources: res }),
            );
            assert(issues_view(r@) =~= mixed_content_issues(*page));
            r
        } else {
            no_issues()
        }
    }
}

/// Flags a page served over plain HTTP.
#[derive(Debug, Clone, Copy)]
pub struct HttpPage;

/// Issues of `security.http_page`.
pub open spec fn http_page_issues(page: ParsedPage) -> Seq<IssueV> {
    if has_prefix(page.url@, "http://"@) {
        seq![
            plain_issue(
                "security.http_page"@,
                Severity::Warning,
                RuleCategory::Security,
                "Page is served over HTTP instead of HTTPS."@,
            ),
        ]
    } else {
        Seq::empty()
    }
}

impl HttpPage {
    pub fn id(&self) -> (r: &'static str)
        ensures
            r@ == "security.http_page"@,
    {
        "security.http_page"
    }

    pub fn name(&self) -> (r: &'static str)
        ensures
            r@ == "Page Served Over HTTP"@,
    {
        "Page Served Over HTTP"
    }

    pub fn category(&self) -> (r: RuleCategory)
        ensures
            r == RuleCategory::Security,
    {
        RuleCategory::Security
    }

    pub fn default_severity(&self) -> (r: Severity)
        ensures
            r == Severity::Warning,
    {
        Severity::Warning
    }

    pub fn evaluate(&self, page: &ParsedPage, _ctx: &CrawlContext) -> (r: Vec<Issue>)
        ensures
            issues_view(r@) == http_page_issues(*page),
    {
        if str_starts_with(page.url.as_str(), "http://") {
            plain("security.http_page", Severity::Warning, RuleCategory::Security,
                "Page is served over HTTP instead of HTTPS.")
        } else {
            no_issues()
        }
    }
}

} // verus!
