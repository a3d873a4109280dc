use oxide_seo::robots::{robots_url, RobotsCache};

// The robots.txt the crawler's robots tests are written against: the
// wildcard group refuses /admin/ and /private/ with a one-second delay,
// the OxideSEO group refuses /admin/ with half a second.
const FIXTURE: &[u8] = b"User-agent: *\nDisallow: /admin/\nDisallow: /private/\nCrawl-delay: 1\n\nUser-agent: OxideSEO\nDisallow: /admin/\nCrawl-delay: 0.5\n\nSitemap: https://test.local/sitemap.xml\n";

const NOW: u64 = 1_000_000;

#[test]
fn test_allowed_paths_wildcard_agent() {
    let mut cache = RobotsCache::new("SomeBot", 3600);
    cache.insert_from_content("test.local", FIXTURE, NOW);
    assert!(cache.is_allowed("https://test.local/", NOW));
    assert!(cache.is_allowed("https://test.local/about", NOW));
    assert!(!cache.is_allowed("https://test.local/admin/", NOW));
    assert!(!cache.is_allowed("https://test.local/admin/settings", NOW));
    assert!(!cache.is_allowed("https://test.local/private/", NOW));
    assert!(!cache.is_allowed("https://test.local/private/data", NOW));
}

#[test]
fn test_allowed_paths_oxideseo_agent() {
    let mut cache = RobotsCache::new("OxideSEO", 3600);
    cache.insert_from_content("test.local", FIXTURE, NOW);
    assert!(cache.is_allowed("https://test.local/", NOW));
    assert!(cache.is_allowed("https://test.local/about", NOW));
    assert!(!cache.is_allowed("https://test.local/admin/", NOW));
}

#[test]
fn test_crawl_delay_wildcard() {
    let mut cache = RobotsCache::new("SomeBot", 3600);
    cache.insert_from_content("test.local", FIXTURE, NOW);
    let delay = cache.crawl_delay("test.local");
    assert!(delay.is_some());
    assert_eq!(delay.unwrap(), 1_000_000_000);
}

#[test]
fn test_crawl_delay_oxideseo() {
    let mut cache = RobotsCache::new("OxideSEO", 3600);
    cache.insert_from_content("test.local", FIXTURE, NOW);
    let delay = cache.crawl_delay("test.local");
    assert!(delay.is_some());
    assert_eq!(delay.unwrap(), 500_000_000);
}

#[test]
fn test_uncached_domain_allows_all() {
    let cache = RobotsCache::new("OxideSEO", 3600);
    assert!(cache.is_allowed("https://uncached.example.com/anything", NOW));
}

#[test]
fn test_has_cached() {
    let mut cache = RobotsCache::new("OxideSEO", 3600);
    assert!(!cache.has_cached("test.local", NOW));
    cache.insert_from_content("test.local", FIXTURE, NOW);
    assert!(cache.has_cached("test.local", NOW));
}

#[test]
fn cached_entry_expires_after_ttl() {
    let mut cache = RobotsCache::new("SomeBot", 10);
    cache.insert_from_content("test.local", FIXTURE, NOW);
    assert!(cache.has_cached("test.local", NOW + 9_999));
    assert!(!cache.has_cached("test.local", NOW + 10_000));
    // Once stale, the rules no longer refuse.
    assert!(cache.is_allowed("https://test.local/admin/", NOW + 10_000));
}

#[test]
fn test_invalid_robots_allows_all() {
    let mut cache = RobotsCache::new("OxideSEO", 3600);
    cache.insert_from_content("test.local", b"not valid robots content @#$%", NOW);
    assert!(cache.is_allowed("https://test.local/admin/", NOW));
}

#[test]
fn test_empty_robots_allows_all() {
    let mut cache = RobotsCache::new("OxideSEO", 3600);
    cache.insert_from_content("test.local", b"", NOW);
    assert!(cache.is_allowed("https://test.local/anything", NOW));
}

#[test]
fn sitemaps_come_from_robots() {
    let mut cache = RobotsCache::new("SomeBot", 3600);
    assert!(cache.sitemaps("test.local").is_empty());
    cache.insert_from_content("test.local", FIXTURE, NOW);
    assert_eq!(cache.sitemaps("test.local"), vec!["https://test.local/sitemap.xml".to_string()]);
}

#[test]
fn failed_fetch_allows_all() {
    let mut cache = RobotsCache::new("SomeBot", 3600);
    cache.record_fetch("test.local", Some(500), b"", NOW);
    assert!(cache.has_cached("test.local", NOW));
    assert!(cache.is_allowed("https://test.local/admin/", NOW));
    cache.record_fetch("other.local", Some(200), FIXTURE, NOW);
    assert!(!cache.is_allowed("https://other.local/admin/", NOW));
}

#[test]
fn robots_url_is_at_the_root() {
    assert_eq!(robots_url("https", "example.com"), "https://example.com/robots.txt");
}
