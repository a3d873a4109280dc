//! Result views: pagination and filter parameters, paginated responses,
//! crawl summaries, the sitemap report and the site tree.

use vstd::prelude::*;
use crate::models::{CrawlRow, PageRow, IssueRow, LinkRow};
use crate::text::{opt_view, string_of, chars_of};
use crate::types::{RuleCategory, Severity};

verus! {

#[derive(Debug, Clone, Copy, PartialEq, Eq, Structural)]
pub enum SortDirection {
    Asc,
    Desc,
}

#[derive(Debug, Clone)]
pub struct PaginationParams {
    pub offset: u64,
    pub limit: u64,
    pub sort_by: Option<String>,
    pub sort_dir: Option<SortDirection>,
}

#[derive(Debug, Clone)]
pub struct PageFilters {
    pub url_search: Option<String>,
    pub status_codes: Option<Vec<u16>>,
    pub content_type: Option<String>,
}

#[derive(Debug, Clone)]
pub struct IssueFilters {
    pub severity: Option<Severity>,
    pub category: Option<RuleCategory>,
    pub rule_id: Option<String>,
}

#[derive(Debug, Clone)]
pub struct LinkFilters {
    pub link_type: Option<String>,
    pub is_internal: Option<bool>,
    pub is_broken: Option<bool>,
    pub anchor_text_missing: Option<bool>,
}

#[derive(Debug, Clone)]
pub struct PaginatedResponse<T> {
    pub items: Vec<T>,
    pub total: u64,
    pub offset: u64,
    pub limit: u64,
}

#[derive(Debug, Clone, Copy, Default)]
pub struct IssueCounts {
    pub errors: u64,
    pub warnings: u64,
    pub info: u64,
}

#[derive(Debug, Clone)]
pub struct CrawlSummary {
    pub crawl_id: String,
    pub start_url: String,
    pub status: String,
    pub started_at: Option<String>,
    pub completed_at: Option<String>,
    pub urls_crawled: u64,
    pub urls_errored: u64,
    pub issue_counts: IssueCounts,
}

#[derive(Debug, Clone)]
pub struct PageDetail {
    pub page: PageRow,
    pub issues: Vec<IssueRow>,
    pub inbound_links: Vec<LinkRow>,
    pub outbound_links: Vec<LinkRow>,
}

/// Sitemap cross-reference report entry.
#[derive(Debug, Clone)]
pub struct SitemapReportEntry {
    pub url: String,
    /// `in_sitemap_not_crawled`, `crawled_not_in_sitemap`, or `ok`.
    pub status: String,
    pub page_status_code: Option<i32>,
}

/// Summary of differences between two crawls.
#[derive(Debug, Clone)]
pub struct CrawlComparisonSummary {
    pub base_crawl: CrawlSummary,
    pub compare_crawl: CrawlSummary,
    pub new_pages: u64,
    pub removed_pages: u64,
    pub changed_status_code: u64,
    pub changed_title: u64,
    pub changed_meta_desc: u64,
    pub new_issues: u64,
    pub resolved_issues: u64,
}

/// Maximum items per page, protecting against clients asking for too
/// many.
pub const MAX_PAGE_LIMIT: u64 = 1000;

/// A requested page size clamped to `1..=1000`.
pub fn clamp_limit(limit: u64) -> (r: u64)
    ensures
        r == if limit < 1 { 1 } else if limit > MAX_PAGE_LIMIT { MAX_PAGE_LIMIT } else { limit },
{
    if limit < 1 {
        1
    } else if limit > MAX_PAGE_LIMIT {
        MAX_PAGE_LIMIT
    } else {
        limit
    }
}

/// Whether results are sorted descending.
pub fn sort_desc(p: &PaginationParams) -> (r: bool)
    ensures
        r == (p.sort_dir == Some(SortDirection::Desc)),
{
    match p.sort_dir {
        Some(SortDirection::Desc) => true,
        _ => false,
    }
}

/// A crawl row as a summary with the given issue counts; the counters are
/// reinterpreted as unsigned.
pub fn crawl_row_to_summary(crawl: &CrawlRow, issue_counts: IssueCounts) -> (r: CrawlSummary)
    ensures
        r.crawl_id@ == crawl.id@,
        r.start_url@ == crawl.start_url@,
        r.status@ == crawl.status@,
        opt_view(r.started_at) == opt_view(crawl.started_at),
        opt_view(r.completed_at) == opt_view(crawl.completed_at),
        r.urls_crawled == crawl.urls_crawled as u64,
        r.urls_errored == crawl.urls_errored as u64,
        r.issue_counts == issue_counts,
{
    CrawlSummary {
        crawl_id: crawl.id.clone(),
        start_url: crawl.start_url.clone(),
        status: crawl.status.clone(),
        started_at: crate::text::clone_opt(&crawl.started_at),
        completed_at: crate::text::clone_opt(&crawl.completed_at),
        urls_crawled: crawl.urls_crawled as u64,
        urls_errored: crawl.urls_errored as u64,
        issue_counts,
    }
}

/// The sitemap report: URLs listed in a sitemap but not crawled (with the
/// status of the page, if any), then pages crawled but not listed (status
/// 200).
pub fn sitemap_report(
    not_crawled: Vec<(String, Option<i32>)>,
    not_in_sitemap: Vec<(i64, String)>,
) -> (r: Vec<SitemapReportEntry>)
    ensures
        r@.len() == not_crawled@.len() + not_in_sitemap@.len(),
        forall|k: int|
            0 <= k < not_crawled@.len() ==> (#[trigger] r@[k]).url@ == not_crawled@[k].0@
                && r@[k].status@ == "in_sitemap_not_crawled"@ && r@[k].page_status_code
                == not_crawled@[k].1,
        forall|k: int|
            0 <= k < not_in_sitemap@.len() ==> (#[trigger] r@[not_crawled@.len() + k]).url@
                == not_in_sitemap@[k].1@ && r@[not_crawled@.len() + k].status@
                == "crawled_not_in_sitemap"@ && r@[not_crawled@.len() + k].page_status_code
                == Some(200i32),
{
    let mut out: Vec<SitemapReportEntry> = Vec::new();
    let mut i: usize = 0;
    while i < not_crawled.len()
        invariant
            i <= not_crawled@.len(),
            out@.len() == i,
            forall|k: int|
                0 <= k < i ==> (#[trigger] out@[k]).url@ == not_crawled@[k].0@ && out@[k].status@
                    == "in_sitemap_not_crawled"@ && out@[k].page_status_code == not_crawled@[k].1,
        decreases not_crawled.len() - i,
    {
        out.push(
            SitemapReportEntry {
                url: not_crawled[i].0.clone(),
                status: string_of(&chars_of("in_sitemap_not_crawled")),
                page_status_code: not_crawled[i].1,
            },
        );
        i = i + 1;
    }
    let n = not_crawled.len();
    let mut j: usize = 0;
    while j < not_in_sitemap.len()
        invariant
            n == not_crawled@.len(),
            j <= not_in_sitemap@.len(),
            out@.len() == n + j,
            forall|k: int|
                0 <= k < n ==> (#[trigger] out@[k]).url@ == not_crawled@[k].0@ && out@[k].status@
                    == "in_sitemap_not_crawled"@ && out@[k].page_status_code == not_crawled@[k].1,
            forall|k: int|
                0 <= k < j ==> (#[trigger] out@[n + k]).url@ == not_in_sitemap@[k].1@
                    && out@[n + k].status@ == "crawled_not_in_sitemap"@ && out@[n
                    + k].page_status_code == Some(200i32),
        decreases not_in_sitemap.len() - j,
    {
        out.push(
            SitemapReportEntry {
                url: not_in_sitemap[j].1.clone(),
                status: string_of(&chars_of("crawled_not_in_sitemap")),
                page_status_code: Some(200),
            },
        );
        j = j + 1;
    }
    out
}

} // verus!
