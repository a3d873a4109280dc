use oxide_seo::issue::CrawlContext;
use oxide_seo::page::ParsedPage;
use oxide_seo::registry::{BuiltinRule, ParamValue, RuleConfigEntry, RuleParams, RuleRegistry};
use oxide_seo::rules_meta::{TitleLength, TitleMissing};
use oxide_seo::rules_perf::{LargePage, RenderBlocking, SlowResponse};
use oxide_seo::types::Severity;

fn make_ctx() -> CrawlContext {
    CrawlContext { root_domain: "example.com".into(), cross_page_available: false }
}

fn make_page() -> ParsedPage {
    ParsedPage { url: "https://example.com/".into(), parse_ok: true, ..Default::default() }
}

fn params(entries: &[(&str, ParamValue)]) -> RuleParams {
    RuleParams { entries: entries.iter().map(|(k, v)| (k.to_string(), *v)).collect() }
}

#[test]
fn test_title_missing_flags_empty() {
    let rule = TitleMissing;
    let page = ParsedPage { url: "https://example.com".into(), title: None, ..Default::default() };
    let issues = rule.evaluate(&page, &make_ctx());
    assert_eq!(issues.len(), 1);
}

#[test]
fn test_title_missing_passes_with_title() {
    let rule = TitleMissing;
    let page = ParsedPage { url: "https://example.com".into(), title: Some("Hello".into()), ..Default::default() };
    let issues = rule.evaluate(&page, &make_ctx());
    assert!(issues.is_empty());
}

#[test]
fn test_title_length_too_short() {
    let rule = TitleLength { min: 30, max: 60 };
    let page = ParsedPage { title: Some("Short".into()), ..Default::default() };
    let issues = rule.evaluate(&page, &make_ctx());
    assert_eq!(issues.len(), 1);
    assert!(issues[0].message.contains("too short"));
}

#[test]
fn test_title_length_ok() {
    let rule = TitleLength { min: 5, max: 60 };
    let page = ParsedPage { title: Some("A reasonably sized page title".into()), ..Default::default() };
    let issues = rule.evaluate(&page, &make_ctx());
    assert!(issues.is_empty());
}

#[test]
fn test_large_page_flags_oversized() {
    let rule = LargePage::default();
    let mut page = make_page();
    page.body_size = Some(5_000_000);
    let issues = rule.evaluate(&page, &make_ctx());
    assert_eq!(issues.len(), 1);
    assert_eq!(issues[0].rule_id, "perf.large_page");
}

#[test]
fn test_large_page_passes_normal() {
    let rule = LargePage::default();
    let mut page = make_page();
    page.body_size = Some(100_000);
    assert!(rule.evaluate(&page, &make_ctx()).is_empty());
}

#[test]
fn test_large_page_none_body_size() {
    let rule = LargePage::default();
    assert!(rule.evaluate(&make_page(), &make_ctx()).is_empty());
}

#[test]
fn test_large_page_configurable() {
    let mut rule = BuiltinRule::LargePage(LargePage::default());
    rule.configure(&params(&[("max_bytes", ParamValue::UInt(1000))])).unwrap();
    match rule {
        BuiltinRule::LargePage(ref r) => assert_eq!(r.max_bytes, 1000),
        _ => panic!("rule changed kind"),
    }
    let mut page = make_page();
    page.body_size = Some(2000);
    assert_eq!(rule.evaluate(&page, &make_ctx()).len(), 1);
}

#[test]
fn test_slow_response_flags_slow() {
    let rule = SlowResponse::default();
    let mut page = make_page();
    page.response_time_ms = Some(5000);
    let issues = rule.evaluate(&page, &make_ctx());
    assert_eq!(issues.len(), 1);
    assert_eq!(issues[0].rule_id, "perf.slow_response");
}

#[test]
fn test_slow_response_passes_fast() {
    let rule = SlowResponse::default();
    let mut page = make_page();
    page.response_time_ms = Some(200);
    assert!(rule.evaluate(&page, &make_ctx()).is_empty());
}

#[test]
fn test_slow_response_none() {
    let rule = SlowResponse::default();
    assert!(rule.evaluate(&make_page(), &make_ctx()).is_empty());
}

#[test]
fn test_render_blocking_flags_scripts() {
    let rule = RenderBlocking::default();
    let mut page = make_page();
    page.render_blocking_scripts = 5;
    let issues = rule.evaluate(&page, &make_ctx());
    assert_eq!(issues.len(), 1);
    assert_eq!(issues[0].rule_id, "perf.render_blocking");
    assert!(issues[0].message.contains("5 render-blocking scripts"));
}

#[test]
fn test_render_blocking_flags_stylesheets() {
    let rule = RenderBlocking::default();
    let mut page = make_page();
    page.render_blocking_stylesheets = 6;
    let issues = rule.evaluate(&page, &make_ctx());
    assert_eq!(issues.len(), 1);
    assert!(issues[0].message.contains("6 render-blocking stylesheets"));
}

#[test]
fn test_render_blocking_passes_within_threshold() {
    let rule = RenderBlocking::default();
    let mut page = make_page();
    page.render_blocking_scripts = 1;
    page.render_blocking_stylesheets = 2;
    assert!(rule.evaluate(&page, &make_ctx()).is_empty());
}

#[test]
fn test_render_blocking_both_exceeded() {
    let rule = RenderBlocking::default();
    let mut page = make_page();
    page.render_blocking_scripts = 5;
    page.render_blocking_stylesheets = 5;
    assert_eq!(rule.evaluate(&page, &make_ctx()).len(), 2);
}

#[test]
fn test_render_blocking_configurable() {
    let mut rule = BuiltinRule::RenderBlocking(RenderBlocking::default());
    rule.configure(&params(&[("max_blocking_scripts", ParamValue::UInt(0))])).unwrap();
    match rule {
        BuiltinRule::RenderBlocking(ref r) => assert_eq!(r.max_blocking_scripts, 0),
        _ => panic!("rule changed kind"),
    }
    let mut page = make_page();
    page.render_blocking_scripts = 1;
    assert_eq!(rule.evaluate(&page, &make_ctx()).len(), 1);
}

#[test]
fn test_slow_response_configurable() {
    let mut rule = BuiltinRule::SlowResponse(SlowResponse::default());
    rule.configure(&params(&[("max_ms", ParamValue::UInt(500))])).unwrap();
    match rule {
        BuiltinRule::SlowResponse(ref r) => assert_eq!(r.max_ms, 500),
        _ => panic!("rule changed kind"),
    }
    let mut page = make_page();
    page.response_time_ms = Some(1000);
    assert_eq!(rule.evaluate(&page, &make_ctx()).len(), 1);
}

#[test]
fn configure_rejects_a_non_integer_parameter() {
    let mut rule = BuiltinRule::TitleLength(TitleLength::default());
    assert!(rule.configure(&params(&[("min", ParamValue::Other)])).is_err());
    assert!(rule.configure(&params(&[("unrelated", ParamValue::Other)])).is_ok());
}

#[test]
fn config_schemas_of_parameterized_rules() {
    let t = BuiltinRule::TitleLength(TitleLength::default()).config_schema().unwrap();
    let v: serde_json::Value = serde_json::from_str(t).unwrap();
    assert_eq!(v["properties"]["min"]["default"], 30);
    assert_eq!(v["properties"]["max"]["default"], 60);
    let r = BuiltinRule::RenderBlocking(RenderBlocking::default()).config_schema().unwrap();
    let v: serde_json::Value = serde_json::from_str(r).unwrap();
    assert_eq!(v["properties"]["max_blocking_stylesheets"]["default"], 3);
    assert!(BuiltinRule::TitleMissing(TitleMissing).config_schema().is_none());
}

#[test]
fn registry_builtin_rules_carry_their_ids() {
    let mut reg = RuleRegistry::new();
    reg.register_builtins();
    assert_eq!(reg.rule_count(), 21);
    let page = ParsedPage { url: "https://example.com/".into(), ..Default::default() };
    let issues = reg.evaluate_page(&page, &make_ctx());
    assert!(issues.iter().any(|i| i.rule_id == "meta.title_missing"));
}

#[test]
fn disabled_rule_reports_nothing() {
    let mut reg = RuleRegistry::new();
    reg.register_builtins();
    reg.set_enabled("meta.title_missing", false);
    let page = ParsedPage { url: "https://example.com/".into(), ..Default::default() };
    let issues = reg.evaluate_page(&page, &make_ctx());
    assert!(!issues.iter().any(|i| i.rule_id == "meta.title_missing"));
}

#[test]
fn severity_override_applies() {
    let mut reg = RuleRegistry::new();
    reg.register_builtins();
    reg.set_severity("meta.title_missing", Severity::Info);
    let page = ParsedPage { url: "https://example.com/".into(), ..Default::default() };
    let issues = reg.evaluate_page(&page, &make_ctx());
    let i = issues.iter().find(|i| i.rule_id == "meta.title_missing").unwrap();
    assert_eq!(i.severity, Severity::Info);
}

#[test]
fn config_entry_ignores_unknown_severity_and_reports_bad_params() {
    let mut reg = RuleRegistry::new();
    reg.register_builtins();
    let failures = reg.apply_config_entry(&RuleConfigEntry {
        rule_id: "meta.title_missing".into(),
        enabled: Some(false),
        severity: Some("catastrophic".into()),
        params: None,
    });
    assert!(failures.is_empty());
    let page = ParsedPage { url: "https://example.com/".into(), ..Default::default() };
    assert!(!reg.evaluate_page(&page, &make_ctx()).iter().any(|i| i.rule_id == "meta.title_missing"));
    let failures = reg.apply_config_entry(&RuleConfigEntry {
        rule_id: "meta.title_length".into(),
        enabled: None,
        severity: None,
        params: Some(params(&[("min", ParamValue::Other)])),
    });
    assert_eq!(failures.len(), 1);
}

#[test]
fn builtin_rules_are_twenty_one_distinct_across_six_categories() {
    let mut reg = RuleRegistry::new();
    reg.register_builtins();
    let rows = reg.list_rules();
    assert_eq!(rows.len(), 21);
    let mut ids: Vec<&str> = rows.iter().map(|r| r.0.as_str()).collect();
    ids.sort();
    ids.dedup();
    assert_eq!(ids.len(), 21);
    assert!(rows.iter().any(|r| r.0 == "perf.render_blocking"));
    let mut cats: Vec<&str> = rows.iter().map(|r| r.2.as_str()).collect();
    cats.sort();
    cats.dedup();
    assert_eq!(cats, vec!["Content", "Images", "Links", "Meta", "Performance", "Security"]);
}

#[test]
fn render_blocking_runs_with_the_builtins() {
    let mut reg = RuleRegistry::new();
    reg.register_builtins();
    let page = ParsedPage {
        url: "https://example.com/".into(),
        render_blocking_scripts: 5,
        ..Default::default()
    };
    let issues = reg.evaluate_page(&page, &make_ctx());
    assert!(issues.iter().any(|i| i.rule_id == "perf.render_blocking"));
}
