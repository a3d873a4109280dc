//! Stored rows made from crawl results: page, link and issue rows, and the
//! JSON text of issue details.

use vstd::prelude::*;
use crate::export::{json_string, json_string_of};
use crate::issue::{Issue, IssueDetail, issue_view, IssueV, DetailV, detail_view};
use crate::models::{IssueRow, LinkRow, PageRow};
use crate::page::{ExtractedLink, FetchResult, ParsedPage};
use crate::text::{chars_of, string_of, push_lit, opt_view, strs_view, clone_opt};
use crate::types::{category_code, severity_code};
use crate::words::{decimal, push_decimal};

verus! {

/// A JSON array of strings.
pub open spec fn json_str_array(items: Seq<Seq<char>>) -> Seq<char> {
    "["@ + json_items(items) + "]"@
}

pub open spec fn json_items(items: Seq<Seq<char>>) -> Seq<char>
    decreases items.len(),
{
    if items.len() == 0 {
        Seq::empty()
    } else if items.len() == 1 {
        json_string_of(items[0])
    } else {
        json_items(items.drop_last()) + ","@ + json_string_of(items.last())
    }
}

/// The compact JSON text of an issue detail, keys in order.
pub open spec fn detail_json_text(d: DetailV) -> Seq<char> {
    match d {
        DetailV::Lengths { length, min, max } => "{\"length\":"@ + decimal(length) + ",\"max\":"@
            + decimal(max) + ",\"min\":"@ + decimal(min) + "}"@,
        DetailV::H1s { h1s } => "{\"h1s\":"@ + json_str_array(h1s) + "}"@,
        DetailV::Canonical { canonical, page_url } => "{\"canonical\":"@ + json_string_of(canonical)
            + ",\"page_url\":"@ + json_string_of(page_url) + "}"@,
        DetailV::WordCount { word_count, min_words } => "{\"min_words\":"@ + decimal(min_words)
            + ",\"word_count\":"@ + decimal(word_count) + "}"@,
        DetailV::Images { images } => "{\"images\":"@ + json_str_array(images) + "}"@,
        DetailV::Links { links } => "{\"links\":"@ + json_str_array(links) + "}"@,
        DetailV::BodySize { body_size, threshold } => "{\"body_size\":"@ + decimal(body_size)
            + ",\"threshold\":"@ + decimal(threshold) + "}"@,
        DetailV::ResponseTime { response_time_ms, threshold_ms } => "{\"response_time_ms\":"@
            + decimal(response_time_ms) + ",\"threshold_ms\":"@ + decimal(threshold_ms) + "}"@,
        DetailV::BlockingScripts { count, threshold } => "{\"render_blocking_scripts\":"@ + decimal(
            count,
        ) + ",\"threshold\":"@ + decimal(threshold) + ",\"type\":\"scripts\"}"@,
        DetailV::BlockingStylesheets { count, threshold } => "{\"render_blocking_stylesheets\":"@
            + decimal(count) + ",\"threshold\":"@ + decimal(threshold)
            + ",\"type\":\"stylesheets\"}"@,
        DetailV::HttpResources { http_resources } => "{\"http_resources\":"@ + json_str_array(
            http_resources,
        ) + "}"@,
        DetailV::Json { text } => text,
    }
}

fn push_str_array(out: &mut Vec<char>, items: &Vec<String>)
    ensures
        final(out)@ == old(out)@ + json_str_array(strs_view(items@)),
{
    let ghost start = out@;
    push_lit(out, "[");
    let ghost sv = strs_view(items@);
    let mut i: usize = 0;
    while i < items.len()
        invariant
            i <= items@.len(),
            sv == strs_view(items@),
            out@ == start + "["@ + json_items(sv.take(i as int)),
        decreases items.len() - i,
    {
        let ghost before = out@;
        if i > 0 {
            push_lit(out, ",");
        }
        let js = json_string(items[i].as_str());
        push_lit(out, js.as_str());
        proof {
            let t = sv.take(i + 1);
            assert(t.drop_last() =~= sv.take(i as int));
            assert(t.last() == items@[i as int]@);
            if i == 0 {
                assert(out@ =~= start + "["@ + json_items(t));
            } else {
                assert(out@ =~= start + "["@ + json_items(t));
            }
        }
        i = i + 1;
    }
    assert(sv.take(items@.len() as int) =~= sv);
    push_lit(out, "]");
    assert(out@ =~= start + json_str_array(sv));
}

/// The compact JSON text of an issue detail.
pub fn detail_json(d: &IssueDetail) -> (r: String)
    ensures
        r@ == detail_json_text(detail_view(*d)),
{
    let mut v: Vec<char> = Vec::new();
    match d {
        IssueDetail::Lengths { length, min, max } => {
            push_lit(&mut v, "{\"length\":");
            push_decimal(&mut v, *length as u64);
            push_lit(&mut v, ",\"max\":");
            push_decimal(&mut v, *max as u64);
            push_lit(&mut v, ",\"min\":");
            push_decimal(&mut v, *min as u64);
            push_lit(&mut v, "}");
        },
        IssueDetail::H1s { h1s } => {
            push_lit(&mut v, "{\"h1s\":");
            push_str_array(&mut v, h1s);
            push_lit(&mut v, "}");
        },
        IssueDetail::Canonical { canonical, page_url } => {
            push_lit(&mut v, "{\"canonical\":");
            push_lit(&mut v, json_string(canonical.as_str()).as_str());
            push_lit(&mut v, ",\"page_url\":");
            push_lit(&mut v, json_string(page_url.as_str()).as_str());
            push_lit(&mut v, "}");
        },
        IssueDetail::WordCount { word_count, min_words } => {
            push_lit(&mut v, "{\"min_words\":");
            push_decimal(&mut v, *min_words as u64);
            push_lit(&mut v, ",\"word_count\":");
            push_decimal(&mut v, *word_count as u64);
            push_lit(&mut v, "}");
        },
        IssueDetail::Images { images } => {
            push_lit(&mut v, "{\"images\":");
            push_str_array(&mut v, images);
            push_lit(&mut v, "}");
        },
        IssueDetail::Links { links } => {
            push_lit(&mut v, "{\"links\":");
            push_str_array(&mut v, links);
            push_lit(&mut v, "}");
        },
        IssueDetail::BodySize { body_size, threshold } => {
            push_lit(&mut v, "{\"body_size\":");
            push_decimal(&mut v, *body_size as u64);
            push_lit(&mut v, ",\"threshold\":");
            push_decimal(&mut v, *threshold as u64);
            push_lit(&mut v, "}");
        },
        IssueDetail::ResponseTime { response_time_ms, threshold_ms } => {
            push_lit(&mut v, "{\"response_time_ms\":");
            push_decimal(&mut v, *response_time_ms as u64);
            push_lit(&mut v, ",\"threshold_ms\":");
            push_decimal(&mut v, *threshold_ms as u64);
            push_lit(&mut v, "}");
        },
        IssueDetail::BlockingScripts { count, threshold } => {
            push_lit(&mut v, "{\"render_blocking_scripts\":");
            push_decimal(&mut v, *count as u64);
            push_lit(&mut v, ",\"threshold\":");
            push_decimal(&mut v, *threshold as u64);
            push_lit(&mut v, ",\"type\":\"scripts\"}");
        },
        IssueDetail::BlockingStylesheets { count, threshold } => {
            push_lit(&mut v, "{\"render_blocking_stylesheets\":");
            push_decimal(&mut v, *count as u64);
            push_lit(&mut v, ",\"threshold\":");
            push_decimal(&mut v, *threshold as u64);
            push_lit(&mut v, ",\"type\":\"stylesheets\"}");
        },
        IssueDetail::HttpResources { http_resources } => {
            push_lit(&mut v, "{\"http_resources\":");
            push_str_array(&mut v, http_resources);
            push_lit(&mut v, "}");
        },
        IssueDetail::Json { text } => {
            push_lit(&mut v, text.as_str());
        },
    }
    string_of(&v)
}

/// The stored row of an issue found on a page (the page id is set when the
/// page is stored).
pub open spec fn issue_row_of(i: IssueV, crawl_id: Seq<char>, r: IssueRow) -> bool {
    &&& r.id == 0
    &&& r.crawl_id@ == crawl_id
    &&& r.page_id == 0
    &&& r.rule_id@ == i.rule_id
    &&& r.severity@ == severity_code(i.severity)
    &&& r.category@ == category_code(i.category)
    &&& r.message@ == i.message
    &&& opt_view(r.detail_json) == match i.detail {
        Some(d) => Some(detail_json_text(d)),
        None => None,
    }
}

/// The stored rows of a page's issues.
pub fn issue_rows(issues: &Vec<Issue>, crawl_id: &str) -> (r: Vec<IssueRow>)
    ensures
        r@.len() == issues@.len(),
        forall|k: int| 0 <= k < issues@.len() ==> issue_row_of(issue_view(issues@[k]), crawl_id@, #[trigger] r@[k]),
{
    let mut out: Vec<IssueRow> = Vec::new();
    let mut k: usize = 0;
    while k < issues.len()
        invariant
            k <= issues@.len(),
            out@.len() == k,
            forall|j: int| 0 <= j < k ==> issue_row_of(issue_view(issues@[j]), crawl_id@, #[trigger] out@[j]),
        decreases issues.len() - k,
    {
        let i = &issues[k];
        let detail_json_text = match &i.detail {
            Some(d) => Some(detail_json(d)),
            None => None,
        };
        out.push(
            IssueRow {
                id: 0,
                crawl_id: string_of(&chars_of(crawl_id)),
                page_id: 0,
                rule_id: i.rule_id.clone(),
                severity: string_of(&chars_of(i.severity.as_str())),
                category: string_of(&chars_of(i.category.as_str())),
                message: i.message.clone(),
                detail_json: detail_json_text,
            },
        );
        k = k + 1;
    }
    out
}

/// The stored row of a link found on a page (source set when the page is
/// stored).
pub open spec fn link_row_of(l: ExtractedLink, crawl_id: Seq<char>, r: LinkRow) -> bool {
    &&& r.id == 0
    &&& r.crawl_id@ == crawl_id
    &&& r.source_page == 0
    &&& r.target_url@ == l.href@
    &&& opt_view(r.anchor_text) == opt_view(l.anchor_text)
    &&& r.link_type@ == "a"@
    &&& r.is_internal == l.is_internal
    &&& r.nofollow == l.is_nofollow
}

/// The stored rows of a page's links.
pub fn link_rows(links: &Vec<ExtractedLink>, crawl_id: &str) -> (r: Vec<LinkRow>)
    ensures
        r@.len() == links@.len(),
        forall|k: int| 0 <= k < links@.len() ==> link_row_of(links@[k], crawl_id@, #[trigger] r@[k]),
{
    let mut out: Vec<LinkRow> = Vec::new();
    let mut k: usize = 0;
    while k < links.len()
        invariant
            k <= links@.len(),
            out@.len() == k,
            forall|j: int| 0 <= j < k ==> link_row_of(links@[j], crawl_id@, #[trigger] out@[j]),
        decreases links.len() - k,
    {
        let l = &links[k];
        out.push(
            LinkRow {
                id: 0,
                crawl_id: string_of(&chars_of(crawl_id)),
                source_page: 0,
                target_url: l.href.clone(),
                anchor_text: clone_opt(&l.anchor_text),
                link_type: string_of(&chars_of("a")),
                is_internal: l.is_internal,
                nofollow: l.is_nofollow,
            },
        );
        k = k + 1;
    }
    out
}

/// Whether a response is an HTML page to parse: an HTML content type and a
/// 2xx status.
pub open spec fn is_html_success_spec(content_type: Option<Seq<char>>, status: u16) -> bool {
    (content_type matches Some(ct) && crate::text::contains_seq(ct, "text/html"@)) && 200 <= status < 300
}

pub fn is_html_success(content_type: &Option<String>, status: u16) -> (r: bool)
    ensures
        r == is_html_success_spec(opt_view(*content_type), status),
{
    let html = match content_type {
        Some(ct) => crate::text::str_contains(ct.as_str(), "text/html"),
        None => false,
    };
    html && 200 <= status && status < 300
}

/// A page row with only the crawl, URL and depth set.
fn base_row(crawl_id: &str, url: &str, depth: u32, state: &str, fetched_at: &str) -> (r: PageRow)
    ensures
        r.id == 0,
        r.crawl_id@ == crawl_id@,
        r.url@ == url@,
        r.depth == depth as i32,
        r.status_code is None,
        r.content_type is None,
        r.response_time_ms is None,
        r.body_size is None,
        r.title is None,
        r.meta_desc is None,
        r.h1 is None,
        r.canonical is None,
        r.robots_directives is None,
        r.state@ == state@,
        opt_view(r.fetched_at) == Some(fetched_at@),
        r.error_message is None,
{
    PageRow {
        id: 0,
        crawl_id: string_of(&chars_of(crawl_id)),
        url: string_of(&chars_of(url)),
        depth: depth as i32,
        status_code: None,
        content_type: None,
        response_time_ms: None,
        body_size: None,
        title: None,
        meta_desc: None,
        h1: None,
        canonical: None,
        robots_directives: None,
        state: string_of(&chars_of(state)),
        fetched_at: Some(string_of(&chars_of(fetched_at))),
        error_message: None,
    }
}

/// The row of a URL whose fetch failed: state `errored` with the error.
pub fn errored_page_row(crawl_id: &str, url: &str, depth: u32, fetched_at: &str, error: &str) -> (r: PageRow)
    ensures
        r.crawl_id@ == crawl_id@,
        r.url@ == url@,
        r.depth == depth as i32,
        r.status_code is None,
        r.state@ == "errored"@,
        opt_view(r.fetched_at) == Some(fetched_at@),
        opt_view(r.error_message) == Some(error@),
        r.title is None && r.content_type is None && r.body_size is None,
{
    let mut r = base_row(crawl_id, url, depth, "errored", fetched_at);
    r.error_message = Some(string_of(&chars_of(error)));
    r
}

/// The row of a fetched resource that is not parsed (not HTML, or not a
/// success): state `fetched` with the response metadata.
pub fn fetched_page_row(crawl_id: &str, url: &str, depth: u32, fetch: &FetchResult, fetched_at: &str) -> (r: PageRow)
    ensures
        r.crawl_id@ == crawl_id@,
        r.url@ == url@,
        r.depth == depth as i32,
        r.status_code == Some(fetch.status_code as i32),
        opt_view(r.content_type) == opt_view(fetch.content_type),
        r.response_time_ms == Some(fetch.response_time_ms as i32),
        r.body_size == Some(fetch.body_size as i64),
        r.state@ == "fetched"@,
        opt_view(r.fetched_at) == Some(fetched_at@),
        r.title is None && r.h1 is None && r.error_message is None,
{
    let mut r = base_row(crawl_id, url, depth, "fetched", fetched_at);
    r.status_code = Some(fetch.status_code as i32);
    r.content_type = clone_opt(&fetch.content_type);
    r.response_time_ms = Some(fetch.response_time_ms as i32);
    r.body_size = Some(fetch.body_size as i64);
    r
}

/// The row of an analyzed HTML page: the response metadata plus its title,
/// description, first H1, canonical URL and robots directives.
pub fn analyzed_page_row(
    crawl_id: &str,
    url: &str,
    depth: u32,
    fetch: &FetchResult,
    page: &ParsedPage,
    fetched_at: &str,
) -> (r: PageRow)
    ensures
        r.crawl_id@ == crawl_id@,
        r.url@ == url@,
        r.depth == depth as i32,
        r.status_code == Some(fetch.status_code as i32),
        opt_view(r.content_type) == opt_view(fetch.content_type),
        r.response_time_ms == Some(fetch.response_time_ms as i32),
        r.body_size == Some(fetch.body_size as i64),
        opt_view(r.title) == opt_view(page.title),
        opt_view(r.meta_desc) == opt_view(page.meta_description),
        opt_view(r.h1) == (if page.h1s@.len() > 0 { Some(page.h1s@[0]@) } else { None }),
        opt_view(r.canonical) == opt_view(page.canonical),
        opt_view(r.robots_directives) == opt_view(page.meta_robots),
        r.state@ == "analyzed"@,
        opt_view(r.fetched_at) == Some(fetched_at@),
        r.error_message is None,
{
    let mut r = fetched_page_row(crawl_id, url, depth, fetch, fetched_at);
    r.state = string_of(&chars_of("analyzed"));
    r.title = clone_opt(&page.title);
    r.meta_desc = clone_opt(&page.meta_description);
    r.h1 = if page.h1s.len() > 0 {
        Some(page.h1s[0].clone())
    } else {
        None
    };
    r.canonical = clone_opt(&page.canonical);
    r.robots_directives = clone_opt(&page.meta_robots);
    r
}

} // verus!
