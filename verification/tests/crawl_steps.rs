use oxide_seo::config::{crawl_state_from_status, parse_threads_for, validate_start_url, CompiledPatterns, CrawlConfig};
use oxide_seo::crawl_steps::{
    follows_links, may_fetch, needs_robots_fetch, may_dequeue, crawl_complete, refill_count,
    enqueue_targets, external_targets, final_state, next_loop_step, politeness_wait_ns, queue_url_of, seed_entry,
    should_emit_progress, sitemap_entry, targets_of_links, targets_of_sitemap, CrawlStats, LoopStep, SITEMAP_PRIORITY,
};
use oxide_seo::frontier::UrlFrontier;
use oxide_seo::page::ExtractedLink;
use oxide_seo::sitemap::SitemapEntry;
use oxide_seo::types::CrawlState;

fn link(href: &str, internal: bool, nofollow: bool) -> ExtractedLink {
    ExtractedLink { href: href.into(), anchor_text: None, rel: None, is_internal: internal, is_nofollow: nofollow }
}

fn patterns_with(allow: &[&str], exclude: &[&str], rewrite: &[(&str, &str)]) -> CompiledPatterns {
    let mut c = CrawlConfig::defaults(2);
    c.include_patterns = allow.iter().map(|s| s.to_string()).collect();
    c.exclude_patterns = exclude.iter().map(|s| s.to_string()).collect();
    c.url_rewrite_rules = rewrite.iter().map(|(a, b)| (a.to_string(), b.to_string())).collect();
    CompiledPatterns::from_config(&c)
}

#[test]
fn links_are_normalized_filtered_and_deduplicated_on_enqueue() {
    let p = patterns_with(&[], &["/private"], &[]);
    let links = vec![
        link("https://example.com/a/", true, false),
        link("https://example.com/private/x", true, false),
        link("https://example.com/b#frag", true, false),
        link("https://example.com/c", true, true),
        link("https://other.com/", false, false),
        link("https://example.com/a", true, false),
    ];
    let targets = targets_of_links(&p, &links);
    assert_eq!(targets, vec!["https://example.com/a", "https://example.com/b", "https://example.com/a"]);
    let mut f = UrlFrontier::new(100);
    let added = enqueue_targets(&mut f, targets, 2);
    assert_eq!(added, 2);
    let e = f.pop().unwrap();
    assert_eq!(e.depth, 3);
    assert_eq!(e.priority, 97);
    assert_eq!(external_targets(&links), vec!["https://other.com/".to_string()]);
}

#[test]
fn rewrite_rules_and_includes_apply_to_queued_urls() {
    let p = patterns_with(&["^https://example\\.com/docs"], &[], &[("http://", "https://")]);
    assert_eq!(queue_url_of(&p, "http://example.com/docs/x"), Some("https://example.com/docs/x".to_string()));
    assert_eq!(queue_url_of(&p, "https://example.com/blog"), None);
    assert_eq!(queue_url_of(&p, "not a url"), None);
}

#[test]
fn sitemap_and_seed_entries() {
    let p = patterns_with(&[], &[], &[]);
    let entries = vec![
        SitemapEntry { url: "https://example.com/x/".into(), lastmod: None, changefreq: None, priority: None },
        SitemapEntry { url: "::bad::".into(), lastmod: None, changefreq: None, priority: None },
    ];
    assert_eq!(targets_of_sitemap(&p, &entries), vec!["https://example.com/x".to_string()]);
    let s = sitemap_entry("https://example.com/x".into());
    assert_eq!((s.depth, s.priority), (0, SITEMAP_PRIORITY));
    assert_eq!(SITEMAP_PRIORITY, 150);
    let seed = seed_entry("https://example.com/".into());
    assert_eq!((seed.depth, seed.priority), (0, 100));
}

#[test]
fn loop_steps() {
    assert_eq!(next_loop_step(CrawlState::Stopped, 0, 0), LoopStep::Stop);
    assert_eq!(next_loop_step(CrawlState::Paused, 10, 100), LoopStep::Pause);
    assert_eq!(next_loop_step(CrawlState::Running, 10, 10), LoopStep::LimitReached);
    assert_eq!(next_loop_step(CrawlState::Running, 0, 1_000_000), LoopStep::Continue);
    assert_eq!(next_loop_step(CrawlState::Running, 10, 9), LoopStep::Continue);
}

#[test]
fn progress_is_throttled() {
    assert!(should_emit_progress(250, 0, 0));
    assert!(!should_emit_progress(249, 49, 0));
    assert!(should_emit_progress(0, 150, 100));
    assert!(!should_emit_progress(0, 5, 10));
}

#[test]
fn final_states() {
    assert_eq!(final_state(CrawlState::Stopped), (CrawlState::Stopped, "stopped"));
    assert_eq!(final_state(CrawlState::Running), (CrawlState::Completed, "completed"));
}

#[test]
fn politeness_waits() {
    assert_eq!(politeness_wait_ns(1000, None, None), 0);
    assert_eq!(politeness_wait_ns(1000, None, Some(300)), 700);
    assert_eq!(politeness_wait_ns(1000, Some(500), Some(300)), 200);
    assert_eq!(politeness_wait_ns(1000, Some(500), Some(800)), 0);
}

#[test]
fn crawl_stats_count() {
    let mut s = CrawlStats::new();
    s.record_crawled();
    s.record_crawled();
    s.record_errored();
    assert_eq!((s.urls_crawled, s.urls_errored), (2, 1));
    let mut w = CrawlStats { urls_crawled: u64::MAX, urls_errored: 0 };
    w.record_crawled();
    assert_eq!(w.urls_crawled, 0);
}

#[test]
fn config_defaults_and_checks() {
    let c = CrawlConfig::defaults(6);
    assert_eq!(c.max_depth, 10);
    assert_eq!(c.parse_threads, 6);
    assert_eq!(validate_start_url(&c), Err("Start URL is required".to_string()));
    let mut c2 = c.clone();
    c2.start_url = "nope".into();
    assert_eq!(validate_start_url(&c2), Err("Invalid start URL".to_string()));
    c2.start_url = "https://example.com".into();
    assert_eq!(validate_start_url(&c2), Ok(()));
    assert_eq!(parse_threads_for(Some(8)), 6);
    assert_eq!(parse_threads_for(Some(2)), 1);
    assert_eq!(parse_threads_for(None), 2);
    assert_eq!(crawl_state_from_status("paused"), CrawlState::Paused);
    assert_eq!(crawl_state_from_status("???"), CrawlState::Created);
}

#[test]
fn robots_and_depth_gates() {
    assert!(needs_robots_fetch(true, false));
    assert!(!needs_robots_fetch(true, true));
    assert!(!needs_robots_fetch(false, false));
    assert!(may_fetch(false, false));
    assert!(may_fetch(true, true));
    assert!(!may_fetch(true, false));
    assert!(follows_links(0, 1));
    assert!(!follows_links(1, 1));
    assert!(!follows_links(0, 0));
}

#[test]
fn dequeue_refill_and_completion_steps() {
    assert!(may_dequeue(0, 0, 0));
    assert!(!may_dequeue(1, 0, 0));
    assert!(may_dequeue(3, 4, 10));
    assert!(!may_dequeue(4, 4, 10));
    assert!(!may_dequeue(0, 4, u64::MAX));
    assert!(crawl_complete(true, 0));
    assert!(!crawl_complete(true, 2));
    assert!(!crawl_complete(false, 0));
    assert_eq!(refill_count(true, false, 10, 4), 4);
    assert_eq!(refill_count(false, true, 3, 4), 3);
    assert_eq!(refill_count(false, true, 0, 4), 0);
    assert_eq!(refill_count(false, false, 10, 4), 0);
}
