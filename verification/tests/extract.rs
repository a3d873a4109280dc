use oxide_seo::extract::{unparsed_page, PageExtractor};

#[test]
fn extractor_collects_seo_fields() {
    let mut x = PageExtractor::new("https://test.local/dir/page", "test.local");
    x.on_title_text("  Test Page ");
    x.on_title_text("- Home  ");
    x.on_meta(Some("Description"), Some("A description".into()));
    x.on_meta(Some("ROBOTS"), Some("noindex".into()));
    x.on_meta(Some("viewport"), Some("width=device-width".into()));
    x.on_link(Some("canonical"), Some("/canonical"));
    x.on_link(Some("stylesheet"), Some("style.css"));
    x.on_heading_start();
    x.on_heading_text(1, " Main ", false);
    x.on_heading_text(1, "Heading ", true);
    x.on_heading_start();
    x.on_heading_text(2, "   ", true);
    x.on_anchor_start(Some("/about".into()), None);
    x.on_anchor_text(" About us ", true);
    x.on_anchor_start(Some("https://other.com/".into()), Some("NoFollow".into()));
    x.on_anchor_text("", true);
    x.on_img(Some("img.png"), Some("alt".into()), true);
    x.on_script(Some("app.js"));
    x.on_script(None);
    x.on_body_text("one two ");
    x.on_body_text("three");
    let p = x.finish();
    assert_eq!(p.title.as_deref(), Some("Test Page - Home"));
    assert_eq!(p.meta_description.as_deref(), Some("A description"));
    assert_eq!(p.meta_robots.as_deref(), Some("noindex"));
    assert_eq!(p.viewport.as_deref(), Some("width=device-width"));
    assert_eq!(p.canonical.as_deref(), Some("https://test.local/canonical"));
    assert_eq!(p.stylesheets, vec!["https://test.local/dir/style.css"]);
    assert_eq!(p.h1s, vec!["Main Heading"]);
    assert!(p.h2s.is_empty());
    assert_eq!(p.links.len(), 2);
    assert_eq!(p.links[0].href, "https://test.local/about");
    assert_eq!(p.links[0].anchor_text.as_deref(), Some("About us"));
    assert!(p.links[0].is_internal);
    assert!(!p.links[1].is_internal);
    assert!(p.links[1].is_nofollow);
    assert_eq!(p.links[1].anchor_text, None);
    assert_eq!(p.images.len(), 1);
    assert_eq!(p.images[0].src, "https://test.local/dir/img.png");
    assert!(p.images[0].has_srcset);
    assert_eq!(p.scripts, vec!["https://test.local/dir/app.js"]);
    assert_eq!(p.word_count, 3);
    assert!(p.parse_ok);
}

#[test]
fn base_href_resolves_links() {
    let mut x = PageExtractor::new("https://test.local/page", "test.local");
    x.on_base(Some("https://cdn.test.local/assets/".into()));
    x.on_anchor_start(Some("about".into()), None);
    x.on_anchor_text("About", true);
    let p = x.finish();
    assert_eq!(p.base_url.as_deref(), Some("https://cdn.test.local/assets/"));
    assert_eq!(p.links[0].href, "https://cdn.test.local/assets/about");
}

#[test]
fn page_without_head_elements_has_no_title() {
    let p = PageExtractor::new("https://test.local/", "test.local").finish();
    assert!(p.title.is_none());
    assert!(p.meta_description.is_none());
    assert!(p.h1s.is_empty());
    assert_eq!(p.word_count, 0);
}

#[test]
fn unparsed_pages_are_marked() {
    let p = unparsed_page("https://test.local/x");
    assert_eq!(p.url, "https://test.local/x");
    assert!(!p.parse_ok);
}
