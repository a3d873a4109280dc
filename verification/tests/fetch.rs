use oxide_seo::config::CrawlConfig;
use oxide_seo::fetch::{capped, user_agent_of, FetchStep, RedirectTracker, DEFAULT_USER_AGENT, MAX_BODY_SIZE, MAX_REDIRECTS};
use oxide_seo::urls::redirect_target;

#[test]
fn redirects_are_recorded_and_followed() {
    let mut t = RedirectTracker::new("https://e.com/a");
    assert_eq!(t.on_response(301, Some("/b")), FetchStep::Request("https://e.com/b".into()));
    assert_eq!(t.on_response(302, Some("https://f.com/c")), FetchStep::Request("https://f.com/c".into()));
    assert_eq!(t.on_response(200, None), FetchStep::Read);
    let r = t.finish(200, vec![("content-type".into(), "text/html".into())], &b"<html></html>".to_vec(), Some("text/html".into()), 42);
    assert_eq!(r.url, "https://e.com/a");
    assert_eq!(r.final_url, "https://f.com/c");
    assert_eq!(r.redirect_chain.len(), 2);
    assert_eq!(r.redirect_chain[0].url, "https://e.com/a");
    assert_eq!(r.redirect_chain[0].status_code, 301);
    assert_eq!(r.redirect_chain[1].url, "https://e.com/b");
    assert_eq!(r.body_size, 13);
    assert_eq!(r.response_time_ms, 42);
}

#[test]
fn redirect_without_location_is_final() {
    let mut t = RedirectTracker::new("https://e.com/");
    assert_eq!(t.on_response(304, None), FetchStep::Read);
}

#[test]
fn redirect_limit_is_ten_hops() {
    let mut t = RedirectTracker::new("https://e.com/0");
    for i in 1..=MAX_REDIRECTS {
        assert_eq!(t.on_response(301, Some(&format!("/{i}"))), FetchStep::Request(format!("https://e.com/{i}")));
    }
    assert_eq!(t.on_response(301, Some("/11")), FetchStep::TooManyRedirects("Redirect chain exceeded 10 hops for URL: https://e.com/0".into()));
}

#[test]
fn redirect_targets() {
    assert_eq!(redirect_target("https://e.com/a/b", "c"), Some("https://e.com/a/c".into()));
    assert_eq!(redirect_target("https://e.com/a/b", "https://x.org"), Some("https://x.org/".into()));
    assert_eq!(redirect_target("not a url", "/c"), None);
    let mut t = RedirectTracker::new("not a url");
    assert_eq!(t.on_response(301, Some("/c")), FetchStep::BadRedirect);
}

#[test]
fn bodies_are_capped() {
    let big = vec![7u8; MAX_BODY_SIZE + 5];
    assert_eq!(capped(&big).len(), MAX_BODY_SIZE);
    assert_eq!(capped(&vec![1, 2, 3]), vec![1, 2, 3]);
    assert_eq!(MAX_BODY_SIZE, 10 * 1024 * 1024);
}

#[test]
fn user_agent_defaults() {
    let mut c = CrawlConfig::defaults(1);
    assert_eq!(user_agent_of(&c), DEFAULT_USER_AGENT);
    c.user_agent = Some("MyBot/1.0".into());
    assert_eq!(user_agent_of(&c), "MyBot/1.0");
}
