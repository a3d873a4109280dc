use oxide_seo::ai::{
    analysis_plan, analysis_step, AnalysisStep,
    analysis_request, batch_token_estimate, budget_limit, content_hash, crawl_stats_json, crawl_stats_text, has_api_key,
    key_name, needs_api_key, provider_plan, retry_step, AiProviderConfig, AiProviderType, BatchRun, ProviderPlan,
    RetryStep,
};
use oxide_seo::settings::ThemePreference;

#[test]
fn key_names_per_provider() {
    assert_eq!(key_name(AiProviderType::OpenAi), "openai_api_key");
    assert_eq!(key_name(AiProviderType::Anthropic), "anthropic_api_key");
    assert_eq!(key_name(AiProviderType::Ollama), "ollama_api_key");
    assert_eq!(AiProviderType::Anthropic.as_str(), "anthropic");
}

#[test]
fn ollama_never_needs_a_key() {
    assert!(!needs_api_key(AiProviderType::Ollama));
    assert_eq!(has_api_key(AiProviderType::Ollama, Err("keyring down".into())), Ok(true));
    assert_eq!(has_api_key(AiProviderType::OpenAi, Ok(Some("sk".into()))), Ok(true));
    assert_eq!(has_api_key(AiProviderType::OpenAi, Ok(None)), Ok(false));
    assert_eq!(has_api_key(AiProviderType::Anthropic, Err("locked".into())), Err("locked".to_string()));
}

#[test]
fn default_config_and_key_state() {
    let c = AiProviderConfig::default();
    assert_eq!(c.provider_type, AiProviderType::OpenAi);
    assert_eq!(c.model, "gpt-4o");
    assert_eq!(c.max_tokens_per_crawl, 100_000);
    assert!(!c.is_configured);
    assert!(c.clone().with_key_state(Ok(true)).is_configured);
    assert!(!c.with_key_state(Err("x".into())).is_configured);
}

#[test]
fn provider_plan_requires_keys_and_endpoint() {
    let mut c = AiProviderConfig::default();
    assert_eq!(provider_plan(&c, None).unwrap_err(), "OpenAI API key is required");
    match provider_plan(&c, Some("sk-1")).unwrap() {
        ProviderPlan::OpenAi { api_key, model } => {
            assert_eq!(api_key, "sk-1");
            assert_eq!(model, "gpt-4o");
        }
        other => panic!("unexpected plan {other:?}"),
    }
    c.provider_type = AiProviderType::Anthropic;
    assert_eq!(provider_plan(&c, None).unwrap_err(), "Anthropic API key is required");
    c.provider_type = AiProviderType::Ollama;
    match provider_plan(&c, None).unwrap() {
        ProviderPlan::Ollama { endpoint, .. } => assert_eq!(endpoint, "http://localhost:11434"),
        other => panic!("unexpected plan {other:?}"),
    }
    c.ollama_endpoint = Some(String::new());
    assert_eq!(provider_plan(&c, None).unwrap_err(), "Ollama endpoint cannot be empty");
}

#[test]
fn budget_is_ninety_percent_rounded_down() {
    assert_eq!(budget_limit(100_000), 90_000);
    assert_eq!(budget_limit(15), 13);
    assert_eq!(budget_limit(u32::MAX), (u32::MAX as u64) * 9 / 10);
    for b in [0u32, 1, 7, 10, 11, 999, 123_457] {
        assert_eq!(budget_limit(b), ((b as f64) * 0.9) as u64);
    }
}

#[test]
fn batch_run_stops_at_budget() {
    let mut run = BatchRun::new(3, 100);
    assert!(!run.budget_exhausted());
    let p = run.progress("https://example.com/a");
    assert_eq!((p.completed, p.total, p.tokens_used, p.budget_remaining), (0, 3, 0, 90));
    run.record_page(&vec![(40, 10), (30, 5)]);
    assert_eq!(run.tokens_used(), 85);
    assert!(!run.budget_exhausted());
    run.record_failure();
    assert_eq!(run.errors, 1);
    assert_eq!(run.completed, 2);
    run.record_page(&vec![(5, 0)]);
    assert!(run.budget_exhausted());
    assert_eq!(run.progress("").budget_remaining, 0);
}

#[test]
fn retry_steps_follow_backoff_and_retry_after() {
    assert_eq!(retry_step(0, 200, None), RetryStep::Accept);
    assert_eq!(retry_step(0, 429, None), RetryStep::Wait(1));
    assert_eq!(retry_step(1, 529, None), RetryStep::Wait(2));
    assert_eq!(retry_step(2, 429, Some("7")), RetryStep::Wait(7));
    assert_eq!(retry_step(2, 429, Some("soon")), RetryStep::Wait(4));
    assert_eq!(retry_step(3, 429, None), RetryStep::Accept);
    assert_eq!(retry_step(0, 500, None), RetryStep::Accept);
}

#[test]
fn token_estimate_per_page_and_type() {
    assert_eq!(batch_token_estimate(10, 3), (60_000, 15_000));
    assert_eq!(batch_token_estimate(0, 3), (0, 0));
}

#[test]
fn analysis_requests_by_type() {
    let q = analysis_request("content_score", "Body", "https://e.com/", Some("T"), None).unwrap();
    assert!(q.user_prompt.starts_with("URL: https://e.com/\nTitle: T"));
    let q = analysis_request("meta_desc", "Body", "https://e.com/", Some("T"), Some("D")).unwrap();
    assert!(q.user_prompt.contains("Current meta description: D"));
    let q = analysis_request("title_tag", "Body", "https://e.com/", Some("T"), None).unwrap();
    assert!(q.user_prompt.contains("Current title: T"));
    assert!(analysis_request("sentiment", "Body", "u", None, None).is_none());
}

#[test]
fn content_hash_is_blake3_of_the_body() {
    assert_eq!(content_hash("Content"), *blake3::hash(b"Content").as_bytes());
}

#[test]
fn crawl_stats_text_and_pretty_form() {
    let t = crawl_stats_text("c1", "https://e.com", 10, 2, 12, 1, 2, 3);
    assert_eq!(
        t,
        "{\"crawlId\":\"c1\",\"issues\":{\"errors\":1,\"info\":3,\"total\":6,\"warnings\":2},\"startUrl\":\"https://e.com\",\"totalPages\":12,\"urlsCrawled\":10,\"urlsErrored\":2}"
    );
    let pretty = crawl_stats_json("c1", "https://e.com", 10, 2, 12, 1, 2, 3).unwrap();
    assert!(pretty.contains("\n  \"crawlId\": \"c1\""));
    let v: serde_json::Value = serde_json::from_str(&pretty).unwrap();
    assert_eq!(v["issues"]["total"], 6);
}

#[test]
fn theme_settings_round_trip() {
    for t in [ThemePreference::System, ThemePreference::Light, ThemePreference::Dark] {
        assert_eq!(ThemePreference::from_setting(Some(t.as_str())), t);
    }
    assert_eq!(ThemePreference::from_setting(Some("purple")), ThemePreference::System);
    assert_eq!(ThemePreference::from_setting(None), ThemePreference::System);
}

#[test]
fn analysis_steps() {
    assert!(matches!(analysis_step("", "https://e.com/", None, None, "content_score", false), AnalysisStep::NoText));
    assert!(matches!(analysis_step("text", "https://e.com/", None, None, "content_score", true), AnalysisStep::FromCache));
    assert!(matches!(analysis_step("text", "https://e.com/", None, None, "unknown", false), AnalysisStep::Skip));
    match analysis_step("text", "https://e.com/", Some("T"), None, "title_tag", false) {
        AnalysisStep::Request(q) => {
            assert_eq!(q.max_tokens, 400);
            assert!(q.user_prompt.contains("https://e.com/"));
        }
        _ => panic!("expected a request"),
    }
}

#[test]
fn analysis_plan_per_type() {
    let types = vec!["title_tag".to_string(), "nope".to_string(), "meta_desc".to_string(), "title_tag".to_string()];
    let cached = vec![false, false, true, false];
    let plan = analysis_plan("text", "https://e.com/", Some("T"), None, &types, &cached);
    assert_eq!(plan.len(), 4);
    assert!(matches!(&plan[0], AnalysisStep::Request(q) if q.max_tokens == 400));
    assert!(matches!(plan[1], AnalysisStep::Skip));
    assert!(matches!(plan[2], AnalysisStep::FromCache));
    assert!(matches!(plan[3], AnalysisStep::FromCache));
    assert!(analysis_plan("", "https://e.com/", None, None, &types, &cached).is_empty());
}
