use oxide_seo::page::ParsedPage;
use oxide_seo::plugin_page::{to_core_issue, to_plugin_parsed_page, PluginIssue};
use oxide_seo::types::{RuleCategory, Severity};

#[test]
fn test_to_plugin_parsed_page() {
    let page = ParsedPage {
        url: "https://example.com".into(),
        title: Some("Test".into()),
        meta_description: Some("Desc".into()),
        word_count: 42,
        h1s: vec!["Hello".into()],
        links: vec![],
        images: vec![],
        scripts: vec!["main.js".into()],
        stylesheets: vec!["style.css".into()],
        ..Default::default()
    };

    let pp = to_plugin_parsed_page(&page);
    assert_eq!(pp.url, "https://example.com");
    assert_eq!(pp.title.as_deref(), Some("Test"));
    assert_eq!(pp.word_count, 42);
    assert_eq!(pp.links_count, 0);
    assert_eq!(pp.images_count, 0);
    assert_eq!(pp.scripts, vec!["main.js"]);
}

#[test]
fn test_to_core_issue() {
    let pi = PluginIssue {
        rule_id: "missing_schema".into(),
        severity: "error".into(),
        category: "structured".into(),
        message: "No JSON-LD found".into(),
        detail_json: Some(r#"{"count": 0}"#.into()),
    };
    let issue = to_core_issue("schema-validator", pi);
    assert_eq!(issue.rule_id, "plugin.schema-validator.missing_schema");
    assert_eq!(issue.severity, Severity::Error);
    assert_eq!(issue.category, RuleCategory::Structured);
    assert_eq!(issue.message, "No JSON-LD found");
    assert!(issue.detail.is_some());
}

#[test]
fn test_to_core_issue_unknown_severity_defaults_to_warning() {
    let pi = PluginIssue {
        rule_id: "test".into(),
        severity: "unknown".into(),
        category: "meta".into(),
        message: "test".into(),
        detail_json: None,
    };
    let issue = to_core_issue("test-plugin", pi);
    assert_eq!(issue.severity, Severity::Warning);
}

#[test]
fn test_to_core_issue_unknown_category_defaults_to_structured() {
    let pi = PluginIssue {
        rule_id: "test".into(),
        severity: "info".into(),
        category: "custom_category".into(),
        message: "test".into(),
        detail_json: None,
    };
    let issue = to_core_issue("test-plugin", pi);
    assert_eq!(issue.category, RuleCategory::Structured);
}
