use oxide_seo::models::CrawlRow;
use oxide_seo::queries::{
    build_issue_filters, build_link_filters, build_page_filters, count_issues_by_severity, count_query_with_params,
    issues_sort_col, links_sort_col, paged_query_with_params, pages_sort_col, SqlValue,
};
use oxide_seo::results::{clamp_limit, crawl_row_to_summary, sitemap_report, sort_desc, IssueCounts, PaginationParams, SortDirection};

fn texts(v: &[SqlValue]) -> Vec<String> {
    v.iter()
        .map(|x| match x {
            SqlValue::Integer(i) => format!("i{i}"),
            SqlValue::Text(t) => format!("t{t}"),
        })
        .collect()
}

#[test]
fn sort_columns_fall_back_to_id() {
    assert_eq!(pages_sort_col(Some("statusCode")), "status_code");
    assert_eq!(pages_sort_col(Some("bogus; DROP TABLE")), "id");
    assert_eq!(pages_sort_col(None), "id");
    assert_eq!(issues_sort_col(Some("nonsense")), "id");
    assert_eq!(links_sort_col(None), "id");
}

#[test]
fn page_filters_build_clauses_and_values() {
    let (c, v) = build_page_filters(Some("blog"), Some(&vec![200, 404]), Some("text/html"));
    assert_eq!(c, " AND url LIKE ? AND status_code IN (?,?) AND content_type LIKE ?");
    assert_eq!(texts(&v), vec!["t%blog%", "i200", "i404", "ttext/html%"]);
    let (c, v) = build_page_filters(Some(""), Some(&vec![]), None);
    assert_eq!(c, "");
    assert!(v.is_empty());
}

#[test]
fn issue_filters() {
    let (c, v) = build_issue_filters(Some("error"), None, Some("meta.title_missing"));
    assert_eq!(c, " AND severity = ? AND rule_id = ?");
    assert_eq!(texts(&v), vec!["terror", "tmeta.title_missing"]);
}

#[test]
fn link_filters() {
    let (c, v) = build_link_filters(Some("a"), Some(true), None, Some(true));
    assert_eq!(c, " AND link_type = ? AND is_internal = ? AND (anchor_text IS NULL OR anchor_text = '')");
    assert_eq!(texts(&v), vec!["ta", "i1"]);
    let (c, v) = build_link_filters(None, None, Some(true), None);
    assert!(c.starts_with(" AND is_internal = 1 AND target_url IN"));
    assert!(v.is_empty());
}

#[test]
fn paged_and_count_queries() {
    let (q, v) = paged_query_with_params("SELECT * FROM pages WHERE crawl_id = ?", (" AND depth = ?".into(), vec![SqlValue::Integer(1)]), "url", true, "c1", 50, 100);
    assert_eq!(q, "SELECT * FROM pages WHERE crawl_id = ? AND depth = ? ORDER BY url DESC LIMIT ? OFFSET ?");
    assert_eq!(texts(&v), vec!["tc1", "i1", "i50", "i100"]);
    let (q, v) = count_query_with_params("issues", (String::new(), vec![]), "c1");
    assert_eq!(q, "SELECT COUNT(*) FROM issues WHERE crawl_id = ?");
    assert_eq!(texts(&v), vec!["tc1"]);
}

#[test]
fn severity_counts_take_the_rows() {
    let rows = vec![("error".to_string(), 3i64), ("warning".to_string(), 5), ("info".to_string(), 1), ("bogus".to_string(), 9)];
    assert_eq!(count_issues_by_severity(&rows), (3, 5, 1));
    assert_eq!(count_issues_by_severity(&vec![]), (0, 0, 0));
}

#[test]
fn limits_and_directions() {
    assert_eq!(clamp_limit(0), 1);
    assert_eq!(clamp_limit(50), 50);
    assert_eq!(clamp_limit(5000), 1000);
    let p = PaginationParams { offset: 0, limit: 10, sort_by: None, sort_dir: Some(SortDirection::Desc) };
    assert!(sort_desc(&p));
    let p = PaginationParams { offset: 0, limit: 10, sort_by: None, sort_dir: None };
    assert!(!sort_desc(&p));
}

#[test]
fn crawl_summaries_and_sitemap_reports() {
    let crawl = CrawlRow {
        id: "c1".into(),
        start_url: "https://e.com".into(),
        config_json: "{}".into(),
        status: "completed".into(),
        started_at: Some("t0".into()),
        completed_at: None,
        urls_crawled: 12,
        urls_errored: 1,
    };
    let s = crawl_row_to_summary(&crawl, IssueCounts { errors: 1, warnings: 2, info: 3 });
    assert_eq!(s.crawl_id, "c1");
    assert_eq!((s.urls_crawled, s.urls_errored), (12, 1));
    assert_eq!(s.issue_counts.warnings, 2);
    let r = sitemap_report(vec![("https://e.com/a".into(), None)], vec![(3, "https://e.com/b".into())]);
    assert_eq!(r.len(), 2);
    assert_eq!(r[0].status, "in_sitemap_not_crawled");
    assert_eq!(r[1].status, "crawled_not_in_sitemap");
    assert_eq!(r[1].page_status_code, Some(200));
}
