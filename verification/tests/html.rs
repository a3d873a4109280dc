use oxide_seo::html::{parse_html, parse_html_with_text, parse_with_lol_html, parse_with_scraper};

#[test]
fn test_parse_empty_html() {
    let page = parse_html(b"", "https://example.com/", "example.com");
    assert!(page.title.is_none());
    assert!(page.links.is_empty());
    assert!(page.parse_ok);
}

#[test]
fn test_parse_minimal_html() {
    let html = b"<html><head><title>Hello</title></head><body><p>World</p></body></html>";
    let page = parse_html(html, "https://example.com/", "example.com");
    assert_eq!(page.title.as_deref(), Some("Hello"));
    assert_eq!(page.word_count, 1);
}

#[test]
fn test_parse_missing_tags() {
    let html = b"<html><body><p>No head section at all</p></body></html>";
    let page = parse_html(html, "https://example.com/", "example.com");
    assert!(page.title.is_none());
    assert!(page.meta_description.is_none());
    assert!(page.canonical.is_none());
}

#[test]
fn test_parse_base_url_resolution() {
    let html = br#"<html><head><base href="https://cdn.example.com/"></head>
        <body><a href="/page">Link</a></body></html>"#;
    let page = parse_html(html, "https://example.com/", "example.com");
    assert_eq!(page.base_url.as_deref(), Some("https://cdn.example.com/"));
    assert!(!page.links.is_empty());
    assert!(page.links[0].href.contains("cdn.example.com"));
}

const PAGE: &[u8] = br#"<!DOCTYPE html>
<html><head>
<title> Test Page - Home </title>
<meta name="description" content="The test homepage.">
<meta name="ROBOTS" content="index, follow">
<meta name="viewport" content="width=device-width, initial-scale=1.0">
<link rel="canonical" href="/">
<link rel="stylesheet" href="/style.css">
<script src="/app.js"></script>
</head><body>
<h1>Welcome to the Test Site</h1>
<h2>First</h2><h2>Second</h2><h3>Deep</h3>
<p>Some <a href="/about">About Us</a> and <a href="https://other.com/" rel="NoFollow">elsewhere</a>.</p>
<img src="/a.png" alt="A picture"><img src="/b.png" alt=""><img src="/c.png" srcset="/c2.png 2x">
</body></html>"#;

#[test]
fn both_parsers_extract_the_same_page() {
    let a = parse_with_lol_html(PAGE, "https://test.local/", "test.local").unwrap();
    let b = parse_with_scraper(PAGE, "https://test.local/", "test.local");
    for p in [&a, &b] {
        assert_eq!(p.title.as_deref(), Some("Test Page - Home"));
        assert_eq!(p.meta_description.as_deref(), Some("The test homepage."));
        assert_eq!(p.canonical.as_deref(), Some("https://test.local/"));
        assert_eq!(p.viewport.as_deref(), Some("width=device-width, initial-scale=1.0"));
        assert_eq!(p.h1s, vec!["Welcome to the Test Site".to_string()]);
        assert_eq!(p.h2s.len(), 2);
        assert_eq!(p.h3s.len(), 1);
        assert_eq!(p.links.len(), 2);
        assert_eq!(p.links[0].href, "https://test.local/about");
        assert_eq!(p.links[0].anchor_text.as_deref(), Some("About Us"));
        assert!(p.links[0].is_internal);
        assert!(!p.links[1].is_internal);
        assert!(p.links[1].is_nofollow);
        assert_eq!(p.images.len(), 3);
        assert_eq!(p.images.iter().filter(|i| i.alt.is_some()).count(), 2);
        assert!(p.images[2].has_srcset);
        assert_eq!(p.scripts, vec!["https://test.local/app.js".to_string()]);
        assert_eq!(p.stylesheets, vec!["https://test.local/style.css".to_string()]);
        assert!(p.word_count > 0);
        assert!(p.parse_ok);
    }
    // The streaming pass matches meta names case-insensitively for robots.
    assert_eq!(a.meta_robots.as_deref(), Some("index, follow"));
}

#[test]
fn body_text_is_handed_back() {
    let (page, text) = parse_html_with_text(b"<html><body><p>one two</p> three</body></html>", "https://e.com/", "e.com");
    assert_eq!(page.word_count, 3);
    assert_eq!(text.split_whitespace().count(), 3);
}
