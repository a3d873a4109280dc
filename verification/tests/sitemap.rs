use oxide_seo::sitemap::{is_float_text, parse_sitemap, sitemap_candidates, SitemapContent, SitemapFetchState, MAX_SITEMAP_DEPTH};
use std::io::Write;

const SITEMAP_XML: &str = r#"<?xml version="1.0" encoding="UTF-8"?>
<urlset xmlns="http://www.sitemaps.org/schemas/sitemap/0.9">
  <url>
    <loc>https://example.com/</loc>
    <lastmod>2026-01-01</lastmod>
    <changefreq>daily</changefreq>
    <priority>1.0</priority>
  </url>
  <url>
    <loc>https://example.com/about</loc>
    <lastmod>2026-02-15</lastmod>
    <priority>0.8</priority>
  </url>
  <url>
    <loc>https://example.com/contact</loc>
  </url>
</urlset>"#;

const SITEMAP_INDEX_XML: &str = r#"<?xml version="1.0" encoding="UTF-8"?>
<sitemapindex xmlns="http://www.sitemaps.org/schemas/sitemap/0.9">
  <sitemap>
    <loc>https://example.com/sitemap-pages.xml</loc>
    <lastmod>2026-03-01</lastmod>
  </sitemap>
  <sitemap>
    <loc>https://example.com/sitemap-blog.xml</loc>
  </sitemap>
</sitemapindex>"#;

fn priority(p: &Option<String>) -> Option<f64> {
    p.as_deref().and_then(|t| t.parse::<f64>().ok())
}

#[test]
fn test_parse_standard_sitemap() {
    let content = parse_sitemap(&SITEMAP_XML.as_bytes().to_vec(), false).unwrap();
    match content {
        SitemapContent::UrlSet(entries) => {
            assert_eq!(entries.len(), 3);
            assert_eq!(entries[0].url, "https://example.com/");
            assert_eq!(entries[0].lastmod.as_deref(), Some("2026-01-01"));
            assert_eq!(entries[0].changefreq.as_deref(), Some("daily"));
            assert_eq!(priority(&entries[0].priority), Some(1.0));
            assert_eq!(entries[1].url, "https://example.com/about");
            assert_eq!(priority(&entries[1].priority), Some(0.8));
            assert_eq!(entries[2].url, "https://example.com/contact");
            assert!(entries[2].lastmod.is_none());
            assert!(entries[2].priority.is_none());
        }
        SitemapContent::Index(_) => panic!("Expected UrlSet, got Index"),
    }
}

#[test]
fn test_parse_sitemap_index() {
    let content = parse_sitemap(&SITEMAP_INDEX_XML.as_bytes().to_vec(), false).unwrap();
    match content {
        SitemapContent::Index(urls) => {
            assert_eq!(urls.len(), 2);
            assert_eq!(urls[0], "https://example.com/sitemap-pages.xml");
            assert_eq!(urls[1], "https://example.com/sitemap-blog.xml");
        }
        SitemapContent::UrlSet(_) => panic!("Expected Index, got UrlSet"),
    }
}

#[test]
fn test_parse_gzipped_sitemap() {
    let mut encoder = flate2::write::GzEncoder::new(Vec::new(), flate2::Compression::default());
    encoder.write_all(SITEMAP_XML.as_bytes()).unwrap();
    let compressed = encoder.finish().unwrap();
    let content = parse_sitemap(&compressed, true).unwrap();
    match content {
        SitemapContent::UrlSet(entries) => {
            assert_eq!(entries.len(), 3);
            assert_eq!(entries[0].url, "https://example.com/");
        }
        SitemapContent::Index(_) => panic!("Expected UrlSet"),
    }
}

#[test]
fn gzip_flag_on_plain_bytes_is_an_error() {
    let r = parse_sitemap(&SITEMAP_XML.as_bytes().to_vec(), true);
    match r {
        Err(e) => assert_eq!(e.message(), "Failed to decompress gzipped sitemap"),
        Ok(_) => panic!("Expected a decompression error"),
    }
}

#[test]
fn test_parse_malformed_xml() {
    let malformed = b"<urlset><url><loc>https://example.com/</loc></url><broken".to_vec();
    let content = parse_sitemap(&malformed, false).unwrap();
    match content {
        SitemapContent::UrlSet(entries) => {
            assert_eq!(entries.len(), 1);
        }
        SitemapContent::Index(_) => panic!("Expected UrlSet"),
    }
}

#[test]
fn entities_in_locations_are_resolved() {
    let xml = b"<urlset><url><loc>https://example.com/?a=1&amp;b=2</loc></url></urlset>".to_vec();
    match parse_sitemap(&xml, false).unwrap() {
        SitemapContent::UrlSet(entries) => assert_eq!(entries[0].url, "https://example.com/?a=1&b=2"),
        SitemapContent::Index(_) => panic!("Expected UrlSet"),
    }
}

#[test]
fn candidates_add_well_known_locations_once() {
    let robots = vec!["https://example.com/sitemap.xml".to_string(), "https://example.com/news.xml".to_string()];
    let c = sitemap_candidates("example.com", "https", &robots);
    assert_eq!(
        c,
        vec![
            "https://example.com/sitemap.xml".to_string(),
            "https://example.com/news.xml".to_string(),
            "https://example.com/sitemap_index.xml".to_string(),
        ]
    );
}

#[test]
fn fetch_state_follows_index_to_limited_depth() {
    let mut st = SitemapFetchState::new(&vec!["https://example.com/index.xml".to_string()]);
    let first = st.next().unwrap();
    assert_eq!(first.depth, 0);
    assert!(!first.is_gzipped);
    st.record(first.depth, SitemapContent::Index(vec!["https://example.com/a.xml.gz".to_string()]));
    let second = st.next().unwrap();
    assert_eq!(second.url, "https://example.com/a.xml.gz");
    assert_eq!(second.depth, 1);
    assert!(second.is_gzipped);
    assert!(second.depth <= MAX_SITEMAP_DEPTH);
    assert!(st.next().is_none());
}

#[test]
fn priority_kept_only_when_it_reads_as_a_number() {
    let xml = br#"<urlset>
<url><loc>https://a/1</loc><priority>high</priority></url>
<url><loc>https://a/2</loc><priority>0.5</priority></url>
<url><loc>https://a/3</loc><priority>1e-1</priority></url>
<url><loc>https://a/4</loc><priority>0.7</priority><priority>x</priority></url>
</urlset>"#
        .to_vec();
    match parse_sitemap(&xml, false).unwrap() {
        SitemapContent::UrlSet(es) => {
            assert_eq!(es.len(), 4);
            assert_eq!(es[0].priority, None);
            assert_eq!(es[1].priority.as_deref(), Some("0.5"));
            assert_eq!(es[2].priority.as_deref(), Some("1e-1"));
            assert_eq!(es[3].priority, None);
        }
        _ => panic!("expected a urlset"),
    }
}

#[test]
fn float_text_follows_the_number_grammar() {
    for ok in ["1", "1.", ".5", "+0.8", "-2e10", "1E+3", "inf", "-Infinity", "NaN", "007"] {
        assert!(is_float_text(ok), "{ok}");
        assert!(ok.parse::<f64>().is_ok(), "{ok}");
    }
    for bad in ["", ".", "e5", "1e", "1e+", "high", "1.2.3", " 1", "+", "in", "1_0", "0x10"] {
        assert!(!is_float_text(bad), "{bad}");
        assert!(bad.parse::<f64>().is_err(), "{bad}");
    }
}
