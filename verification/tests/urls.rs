use oxide_seo::urls::{extract_domain, is_internal, normalize_url, resolve_url, UrlParseError};

#[test]
fn test_normalize_removes_fragment() {
    let result = normalize_url("https://example.com/page#section", false).unwrap();
    assert_eq!(result, "https://example.com/page");
}

#[test]
fn test_normalize_removes_default_port() {
    let result = normalize_url("https://example.com:443/page", false).unwrap();
    assert_eq!(result, "https://example.com/page");
}

#[test]
fn test_normalize_sorts_query_params() {
    let result = normalize_url("https://example.com/page?z=1&a=2&m=3", false).unwrap();
    assert_eq!(result, "https://example.com/page?a=2&m=3&z=1");
}

#[test]
fn test_normalize_strips_trailing_slash() {
    let result = normalize_url("https://example.com/page/", true).unwrap();
    assert_eq!(result, "https://example.com/page");
}

#[test]
fn test_normalize_preserves_root_slash() {
    let result = normalize_url("https://example.com/", true).unwrap();
    assert_eq!(result, "https://example.com/");
}

#[test]
fn normalize_keeps_non_default_port_and_trailing_slash_when_asked() {
    assert_eq!(normalize_url("http://example.com:8080/a/", false).unwrap(), "http://example.com:8080/a/");
    assert_eq!(normalize_url("http://example.com:80/a", false).unwrap(), "http://example.com/a");
}

#[test]
fn normalize_rejects_relative_and_invalid_urls() {
    assert!(matches!(normalize_url("/relative", true), Err(UrlParseError::RelativeUrlWithoutBase)));
    assert!(matches!(normalize_url("http://", true), Err(UrlParseError::Invalid)));
}

#[test]
fn normalize_is_idempotent_on_examples() {
    for u in ["https://example.com/page?z=1&a=2#f", "https://example.com:443/x/", "https://a.example.com/?b=2&a=1"] {
        let once = normalize_url(u, true).unwrap();
        assert_eq!(normalize_url(&once, true).unwrap(), once);
    }
}

#[test]
fn test_resolve_absolute_url() {
    let result = resolve_url("https://example.com/page", "https://example.com/");
    assert_eq!(result, Some("https://example.com/page".into()));
}

#[test]
fn test_resolve_relative_url() {
    let result = resolve_url("/about", "https://example.com/page");
    assert_eq!(result, Some("https://example.com/about".into()));
}

#[test]
fn resolve_fails_without_usable_base() {
    assert_eq!(resolve_url("/about", "not a url"), None);
}

#[test]
fn test_is_internal_same_domain() {
    assert!(is_internal("https://example.com/page", "example.com"));
}

#[test]
fn test_is_internal_subdomain() {
    assert!(is_internal("https://blog.example.com/post", "example.com"));
}

#[test]
fn test_is_internal_external() {
    assert!(!is_internal("https://other.com/page", "example.com"));
}

#[test]
fn is_internal_needs_a_dot_before_the_domain() {
    assert!(!is_internal("https://notexample.com/", "example.com"));
    assert!(!is_internal("not a url", "example.com"));
}

#[test]
fn extract_domain_gives_host_or_empty() {
    assert_eq!(extract_domain("https://Blog.Example.com:8080/x"), "blog.example.com");
    assert_eq!(extract_domain("nonsense"), "");
}
