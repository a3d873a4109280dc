use oxide_seo::issue::{Issue, IssueDetail};
use oxide_seo::models::{issues_for_page, links_for_page, IssueRow, LinkRow, StorageCommand, WriterAction, WriterBatch};
use oxide_seo::page::{ExtractedLink, FetchResult, ParsedPage};
use oxide_seo::rows::{analyzed_page_row, errored_page_row, fetched_page_row, is_html_success, issue_rows, link_rows};
use oxide_seo::types::{RuleCategory, Severity};

fn fetch(ct: Option<&str>, status: u16) -> FetchResult {
    FetchResult {
        url: "https://e.com/".into(),
        final_url: "https://e.com/".into(),
        status_code: status,
        headers: vec![],
        body_bytes: vec![],
        body_size: 1234,
        body_hash: None,
        content_type: ct.map(|s| s.to_string()),
        response_time_ms: 56,
        redirect_chain: vec![],
    }
}

#[test]
fn html_success_needs_html_and_2xx() {
    assert!(is_html_success(&Some("text/html; charset=utf-8".into()), 200));
    assert!(!is_html_success(&Some("text/html".into()), 301));
    assert!(!is_html_success(&Some("application/json".into()), 200));
    assert!(!is_html_success(&None, 200));
}

#[test]
fn page_rows_by_outcome() {
    let e = errored_page_row("c1", "https://e.com/x", 2, "t", "timeout");
    assert_eq!(e.state, "errored");
    assert_eq!(e.error_message.as_deref(), Some("timeout"));
    assert_eq!(e.depth, 2);
    let f = fetched_page_row("c1", "https://e.com/x", 1, &fetch(Some("image/png"), 200), "t");
    assert_eq!(f.state, "fetched");
    assert_eq!(f.status_code, Some(200));
    assert_eq!(f.body_size, Some(1234));
    assert_eq!(f.response_time_ms, Some(56));
    let page = ParsedPage {
        title: Some("T".into()),
        h1s: vec!["First".into(), "Second".into()],
        meta_robots: Some("noindex".into()),
        ..Default::default()
    };
    let a = analyzed_page_row("c1", "https://e.com/", 0, &fetch(Some("text/html"), 200), &page, "t");
    assert_eq!(a.state, "analyzed");
    assert_eq!(a.title.as_deref(), Some("T"));
    assert_eq!(a.h1.as_deref(), Some("First"));
    assert_eq!(a.robots_directives.as_deref(), Some("noindex"));
}

#[test]
fn issue_and_link_rows() {
    let issues = vec![Issue {
        rule_id: "meta.title_missing".into(),
        severity: Severity::Error,
        category: RuleCategory::Meta,
        message: "Page has no title".into(),
        detail: None,
    }];
    let rows = issue_rows(&issues, "c1");
    assert_eq!(rows[0].severity, "error");
    assert_eq!(rows[0].category, "meta");
    assert_eq!(rows[0].page_id, 0);
    assert!(rows[0].detail_json.is_none());
    let links = vec![ExtractedLink { href: "https://e.com/a".into(), anchor_text: Some("A".into()), rel: None, is_internal: true, is_nofollow: false }];
    let lr = link_rows(&links, "c1");
    assert_eq!(lr[0].link_type, "a");
    assert_eq!(lr[0].target_url, "https://e.com/a");
    assert!(lr[0].is_internal);
    let _unused: Option<IssueDetail> = None;
}

#[test]
fn writer_batches_and_flushes() {
    let mut w = WriterBatch::new(2);
    assert_eq!(w.receive(Some(StorageCommand::Flush)), WriterAction::Flush);
    let link = LinkRow {
        id: 0,
        crawl_id: "c1".into(),
        source_page: 0,
        target_url: "u".into(),
        anchor_text: None,
        link_type: "a".into(),
        is_internal: true,
        nofollow: false,
    };
    assert_eq!(w.receive(Some(StorageCommand::InsertLinks(vec![link.clone()]))), WriterAction::Continue);
    assert_eq!(w.receive(Some(StorageCommand::InsertLinks(vec![link.clone()]))), WriterAction::Flush);
    assert_eq!(w.take_batch().len(), 2);
    assert_eq!(w.receive(None), WriterAction::FlushAndStop);
    assert_eq!(w.receive(Some(StorageCommand::Shutdown)), WriterAction::FlushAndStop);
    let moved = links_for_page(vec![link], 42);
    assert_eq!(moved[0].source_page, 42);
    let issue = IssueRow {
        id: 0,
        crawl_id: "c1".into(),
        page_id: 0,
        rule_id: "r".into(),
        severity: "info".into(),
        category: "meta".into(),
        message: "m".into(),
        detail_json: None,
    };
    assert_eq!(issues_for_page(vec![issue], 7)[0].page_id, 7);
}
