use oxide_seo::types::{LinkType, RuleCategory, Severity, UrlState};

#[test]
fn severity_names_round_trip() {
    for s in [Severity::Error, Severity::Warning, Severity::Info] {
        assert_eq!(Severity::parse(s.as_str()), Ok(s));
    }
    assert_eq!(Severity::Error.as_str(), "error");
    assert!(Severity::parse("fatal").is_err());
}

#[test]
fn category_names_round_trip() {
    for c in [RuleCategory::Meta, RuleCategory::Content, RuleCategory::Links, RuleCategory::Images, RuleCategory::Performance, RuleCategory::Security, RuleCategory::Indexability, RuleCategory::Structured, RuleCategory::International] {
        assert_eq!(RuleCategory::parse(c.as_str()), Ok(c));
    }
    assert!(RuleCategory::parse("other").is_err());
}

#[test]
fn state_and_link_names() {
    assert_eq!(UrlState::Discovered.as_str(), "discovered");
    assert_eq!(LinkType::Anchor.as_str(), "a");
}
