use oxide_seo::post_crawl::{
    broken_external_issue,
    broken_external_message_of, broken_internal_issue, duplicate_descriptions, duplicate_group_issues, duplicate_h1s,
    duplicate_titles, external_domain, external_is_broken, orphan_page_issue, page_ids_of, parse_i64, parse_u64,
    ExternalCheckState,
};

#[test]
fn integers_parse_like_std() {
    for t in ["0", "42", "-7", "+8", "9223372036854775807", "-9223372036854775808", "", "-", "+", "1a", " 1", "9223372036854775808", "99999999999999999999"] {
        assert_eq!(parse_i64(t), t.parse::<i64>().ok(), "i64 {t:?}");
        assert_eq!(parse_u64(t), t.parse::<u64>().ok(), "u64 {t:?}");
    }
    assert_eq!(parse_u64("18446744073709551615"), Some(u64::MAX));
    assert_eq!(parse_u64("18446744073709551616"), None);
}

#[test]
fn page_ids_skip_non_numbers() {
    assert_eq!(page_ids_of("1,2, 3 ,x,,4"), vec![1, 2, 3, 4]);
    assert_eq!(page_ids_of(""), Vec::<i64>::new());
}

#[test]
fn duplicate_titles_give_one_issue_per_page() {
    let issues = duplicate_group_issues("c1", &duplicate_titles(), "Same Title", "1,2", 2);
    assert_eq!(issues.len(), 2);
    assert_eq!(issues[0].page_id, 1);
    assert_eq!(issues[1].page_id, 2);
    assert_eq!(issues[0].rule_id, "meta.title_duplicate");
    assert_eq!(issues[0].severity, "warning");
    assert_eq!(issues[0].category, "meta");
    assert_eq!(issues[0].message, "Duplicate title: \"Same Title\" is shared by 2 page(s).");
    let v: serde_json::Value = serde_json::from_str(issues[0].detail_json.as_deref().unwrap()).unwrap();
    assert_eq!(v["count"], 2);
    assert_eq!(v["duplicate_page_ids"].as_array().unwrap().len(), 2);
    assert_eq!(v["duplicate_page_ids"][1], 2);
    assert_eq!(v["value"], "Same Title");
}

#[test]
fn duplicate_descriptions_and_h1s_rule_ids() {
    let d = duplicate_group_issues("c1", &duplicate_descriptions(), "desc", "5", 1);
    assert_eq!(d[0].rule_id, "meta.desc_duplicate");
    assert!(d[0].message.starts_with("Duplicate meta description:"));
    let h = duplicate_group_issues("c1", &duplicate_h1s(), "Hello", "7,8", 2);
    assert_eq!(h[1].rule_id, "content.h1_duplicate");
    assert_eq!(h[1].category, "content");
}

#[test]
fn long_duplicate_values_are_shortened_in_messages() {
    let long = "x".repeat(90);
    let issues = duplicate_group_issues("c1", &duplicate_titles(), &long, "1", 1);
    let expected = format!("Duplicate title: \"{}...\" is shared by 1 page(s).", "x".repeat(77));
    assert_eq!(issues[0].message, expected);
    let v: serde_json::Value = serde_json::from_str(issues[0].detail_json.as_deref().unwrap()).unwrap();
    assert_eq!(v["value"].as_str().unwrap().len(), 90);
}

#[test]
fn broken_internal_and_orphan_issues() {
    let b = broken_internal_issue("c1", 3, "https://example.com/missing", 404);
    assert_eq!(b.page_id, 3);
    assert_eq!(b.rule_id, "links.broken_internal");
    assert_eq!(b.severity, "error");
    assert_eq!(b.message, "Internal link to \"https://example.com/missing\" returned status 404.");
    let v: serde_json::Value = serde_json::from_str(b.detail_json.as_deref().unwrap()).unwrap();
    assert_eq!(v["status_code"], 404);
    let o = orphan_page_issue("c1", 9, "https://example.com/lonely");
    assert_eq!(o.rule_id, "links.orphan_page");
    assert_eq!(o.severity, "warning");
    assert_eq!(o.message, "Page \"https://example.com/lonely\" has no inbound internal links.");
}

#[test]
fn external_checker_takes_each_target_once_and_spaces_domains() {
    let mut st = ExternalCheckState::new();
    assert!(st.take("https://a.com/x"));
    assert!(!st.take("https://a.com/x"));
    assert!(st.take("https://a.com/y"));
    assert_eq!(st.schedule("a.com", 1000), 0);
    assert_eq!(st.schedule("a.com", 1500), 1500);
    assert_eq!(st.schedule("b.com", 1500), 0);
    assert_eq!(st.schedule("a.com", 10_000), 0);
    assert_eq!(external_domain("https://A.com/path"), "a.com");
}

#[test]
fn external_link_outcomes() {
    assert!(external_is_broken(Some(404), &None));
    assert!(!external_is_broken(Some(301), &None));
    assert!(external_is_broken(None, &Some("timeout".into())));
    assert!(!external_is_broken(None, &None));
    assert_eq!(broken_external_message_of("https://x.com", Some(500), &None), "External link to \"https://x.com\" returned status 500.");
    assert_eq!(broken_external_message_of("https://x.com", None, &Some("dns".into())), "External link to \"https://x.com\" failed: dns");
}

#[test]
fn broken_external_issue_records_error_or_status() {
    let i = broken_external_issue("c1", 7, "https://x.test/a", Some(404), &None);
    assert_eq!(i.rule_id, "links.broken_external");
    assert_eq!(i.severity, "warning");
    assert_eq!(i.category, "links");
    assert_eq!(i.page_id, 7);
    assert_eq!(i.message, "External link to \"https://x.test/a\" returned status 404.");
    assert_eq!(
        i.detail_json.as_deref(),
        Some(r#"{"error":null,"status_code":404,"target_url":"https://x.test/a"}"#)
    );
    let e = broken_external_issue("c1", 7, "https://x.test/b", None, &Some("timeout".to_string()));
    assert_eq!(e.message, "External link to \"https://x.test/b\" failed: timeout");
    assert_eq!(
        e.detail_json.as_deref(),
        Some(r#"{"error":"timeout","status_code":null,"target_url":"https://x.test/b"}"#)
    );
}
