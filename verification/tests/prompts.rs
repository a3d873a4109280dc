use oxide_seo::prompts::{
    accessibility_request, content_quality_request, crawl_summary_request, meta_description_request,
    structured_data_request, title_tag_request, truncate_to_words, ResponseFormat,
};

#[test]
fn test_truncate_to_words_short_text() {
    let text = "Hello world this is short";
    assert_eq!(truncate_to_words(text, 100), text);
}

#[test]
fn test_truncate_to_words_long_text() {
    let words: Vec<&str> = (0..100).map(|_| "word").collect();
    let text = words.join(" ");
    let result = truncate_to_words(&text, 10);
    assert!(result.ends_with("[... truncated]"));
    // 10 words + truncated marker
    assert_eq!(result.split_whitespace().count(), 10 + 2);
}

#[test]
fn truncate_keeps_exactly_the_first_words() {
    assert_eq!(truncate_to_words("a b c d e", 2), "a b [... truncated]");
    assert_eq!(truncate_to_words("a  b\tc", 2), "a b [... truncated]");
    assert_eq!(truncate_to_words("a b", 2), "a b");
    assert_eq!(truncate_to_words("", 0), "");
}

#[test]
fn test_content_quality_request_format() {
    let req = content_quality_request("Some page content here", "https://example.com", Some("Example"));
    assert!(!req.system_prompt.is_empty());
    assert!(req.user_prompt.contains("https://example.com"));
    assert!(req.user_prompt.contains("Example"));
    assert_eq!(req.response_format, ResponseFormat::Json);
}

#[test]
fn content_quality_prompt_exact_text() {
    let req = content_quality_request("Body text", "https://e.com/", None);
    assert_eq!(req.user_prompt, "URL: https://e.com/\nTitle: (no title)\n\nPage content:\nBody text");
    assert_eq!(req.max_tokens, 500);
    assert_eq!(req.temperature_tenths, 3);
}

#[test]
fn test_meta_description_request_without_current() {
    let req = meta_description_request("Page content", Some("Title"), None);
    assert!(!req.user_prompt.contains("Current meta description"));
}

#[test]
fn test_meta_description_request_with_current() {
    let req = meta_description_request("Page content", Some("Title"), Some("Old desc"));
    assert!(req.user_prompt.contains("Current meta description: Old desc"));
}

#[test]
fn test_structured_data_request_format() {
    let req = structured_data_request("Page about recipes", "https://example.com/recipe", Some("Best Pasta"));
    assert!(req.system_prompt.contains("structured data"));
    assert!(req.user_prompt.contains("Best Pasta"));
    assert!(req.user_prompt.contains("recipe"));
    assert_eq!(req.response_format, ResponseFormat::Json);
}

#[test]
fn test_accessibility_request_format() {
    let req = accessibility_request("Page content here", "https://example.com", Some("Home"), &vec!["Welcome".into()], 3);
    assert!(req.system_prompt.contains("WCAG"));
    assert!(req.user_prompt.contains("Images without alt text: 3"));
    assert!(req.user_prompt.contains("Welcome"));
    assert_eq!(req.response_format, ResponseFormat::Json);
}

#[test]
fn test_accessibility_request_no_h1s() {
    let req = accessibility_request("content", "https://example.com", None, &vec![], 0);
    assert!(req.user_prompt.contains("H1 headings: none"));
}

#[test]
fn accessibility_request_joins_h1s() {
    let req = accessibility_request("c", "u", None, &vec!["A".into(), "B".into()], 12);
    assert!(req.user_prompt.contains("H1 headings: A, B\n"));
    assert!(req.user_prompt.contains("Images without alt text: 12\n"));
}

#[test]
fn test_crawl_summary_request_format() {
    let req = crawl_summary_request(r#"{"pages": 100, "errors": 5}"#);
    assert!(req.user_prompt.contains("Crawl statistics"));
    assert_eq!(req.response_format, ResponseFormat::Json);
}

#[test]
fn test_content_quality_prompt_structure() {
    let req = content_quality_request(
        "This is some page content about SEO best practices.",
        "https://example.com/seo-guide",
        Some("SEO Guide"),
    );
    assert!(req.system_prompt.contains("overallScore"));
    assert!(req.user_prompt.contains("https://example.com/seo-guide"));
    assert!(req.user_prompt.contains("SEO Guide"));
    assert!(req.user_prompt.contains("SEO best practices"));
    assert_eq!(req.response_format, ResponseFormat::Json);
    assert!(req.max_tokens > 0);
    assert!(req.temperature_tenths < 10);
}

#[test]
fn test_meta_description_prompt_includes_current() {
    let req = meta_description_request("Page about coffee brewing", Some("Coffee Brewing Guide"), Some("Old description here"));
    assert!(req.user_prompt.contains("Old description here"));
    assert!(req.user_prompt.contains("Coffee Brewing Guide"));
    assert_eq!(req.response_format, ResponseFormat::Json);
}

#[test]
fn test_crawl_summary_prompt_includes_stats() {
    let stats = r#"{"totalPages": 500, "errors": 12, "warnings": 45}"#;
    let req = crawl_summary_request(stats);
    assert!(req.user_prompt.contains("500"));
    assert!(req.user_prompt.contains("12"));
    assert!(req.system_prompt.contains("topActions"));
    assert_eq!(req.response_format, ResponseFormat::Json);
}

#[test]
fn title_tag_request_carries_current_title() {
    let req = title_tag_request("Body", Some("Current"), "https://example.com/a");
    assert_eq!(req.user_prompt, "URL: https://example.com/a\nCurrent title: Current\n\nPage content:\nBody");
    assert_eq!(req.max_tokens, 400);
}
