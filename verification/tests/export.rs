use oxide_seo::export::{
    attach_statement, build_top_issues_table, crawl_file_name, csv_record, data_type_label, default_columns,
    export_domain, export_filename, fill_template, html_escape, ndjson_line, replace_text, severity_badge,
    ExportDataType, FieldValue, TopIssueEntry,
};

fn row() -> Vec<(String, FieldValue)> {
    vec![
        ("url".into(), FieldValue::Text("https://e.com/".into())),
        ("statusCode".into(), FieldValue::Json("200".into())),
        ("title".into(), FieldValue::Null),
        ("depth".into(), FieldValue::Json("0".into())),
    ]
}

#[test]
fn default_columns_per_type() {
    assert_eq!(default_columns(ExportDataType::Issues), vec!["ruleId", "severity", "category", "message", "pageId", "detailJson"]);
    assert_eq!(default_columns(ExportDataType::Pages).len(), 14);
    assert!(default_columns(ExportDataType::FullReport).is_empty());
    assert_eq!(data_type_label(ExportDataType::AiAnalyses), "ai-analyses");
}

#[test]
fn file_names() {
    assert_eq!(export_domain(Some("https://example.com/start")), "example.com");
    assert_eq!(export_domain(Some("garbage")), "export");
    assert_eq!(export_domain(None), "export");
    assert_eq!(export_filename("example.com", ExportDataType::Pages, "2026-04-05", "csv"), "example.com-pages-2026-04-05.csv");
    assert_eq!(crawl_file_name("example.com", "c1"), "example.com-c1.seocrawl");
}

#[test]
fn csv_cells_follow_columns() {
    let cols: Vec<String> = vec!["url".into(), "title".into(), "statusCode".into(), "missing".into()];
    assert_eq!(csv_record(&row(), &cols), vec!["https://e.com/", "", "200", ""]);
}

#[test]
fn ndjson_keeps_present_columns_in_key_order() {
    let cols: Vec<String> = vec!["url".into(), "title".into(), "statusCode".into(), "missing".into()];
    let line = ndjson_line(&row(), &cols);
    assert_eq!(line, "{\"statusCode\":200,\"title\":null,\"url\":\"https://e.com/\"}\n");
    let v: serde_json::Value = serde_json::from_str(line.trim_end()).unwrap();
    assert_eq!(v["statusCode"], 200);
}

#[test]
fn html_helpers() {
    assert_eq!(html_escape("<a href=\"x\">&</a>"), "&lt;a href=&quot;x&quot;&gt;&amp;&lt;/a&gt;");
    assert_eq!(severity_badge("error"), "<span class=\"badge badge-error\">error</span>");
    assert_eq!(severity_badge("other"), "<span class=\"badge badge-info\">other</span>");
    assert_eq!(build_top_issues_table(&vec![]), "<p>No issues found.</p>");
    let t = build_top_issues_table(&vec![TopIssueEntry {
        rule_id: "meta.title_missing".into(),
        severity: "warning".into(),
        category: "meta".into(),
        count: 3,
    }]);
    assert!(t.starts_with("<table>\n<thead>"));
    assert!(t.contains("<tr><td>meta.title_missing</td><td><span class=\"badge badge-warning\">warning</span></td><td>meta</td><td>3</td></tr>\n"));
    assert!(t.ends_with("</tbody></table>"));
}

#[test]
fn templates_and_replacement() {
    assert_eq!(replace_text("a-b-c", "-", "+"), "a+b+c");
    assert_eq!(replace_text("aaa", "aa", "b"), "ba");
    let pairs = vec![("{{DOMAIN}}".to_string(), "e.com".to_string()), ("{{N}}".to_string(), "5".to_string())];
    assert_eq!(fill_template("<h1>{{DOMAIN}}</h1>{{N}} pages on {{DOMAIN}}", &pairs), "<h1>e.com</h1>5 pages on e.com");
}

#[test]
fn attach_statement_quotes_the_path() {
    assert_eq!(attach_statement("/tmp/it's.seocrawl", "source"), "ATTACH DATABASE '/tmp/it''s.seocrawl' AS source");
}
