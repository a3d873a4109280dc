use oxide_seo::ai::{AiProviderType, RetryStep};
use oxide_seo::prompts::{CompletionRequest, ResponseFormat};
use oxide_seo::providers::{
    anthropic_system, api_error_message, chat_messages, display_name, first_text, ollama_format,
    ollama_url, openai_response_format, provider_retry_step, JSON_ONLY_INSTRUCTION, OLLAMA_CHAT_PATH,
    OLLAMA_TAGS_PATH,
};

fn request(system: &str, user: &str, format: ResponseFormat) -> CompletionRequest {
    CompletionRequest {
        system_prompt: system.to_string(),
        user_prompt: user.to_string(),
        max_tokens: 100,
        temperature_tenths: 3,
        response_format: format,
    }
}

#[test]
fn test_endpoint_url_construction() {
    let url = ollama_url("http://localhost:11434/", "/api/chat");
    assert_eq!(url, "http://localhost:11434/api/chat");
}

#[test]
fn ollama_url_strips_every_trailing_slash() {
    assert_eq!(ollama_url("http://h:1//", OLLAMA_TAGS_PATH), "http://h:1/api/tags");
    assert_eq!(ollama_url("http://h:1", OLLAMA_CHAT_PATH), "http://h:1/api/chat");
    assert_eq!(ollama_url("", OLLAMA_CHAT_PATH), "/api/chat");
}

#[test]
fn chat_messages_skip_empty_system_prompt() {
    let m = chat_messages(&request("", "hi", ResponseFormat::Text));
    assert_eq!(m.len(), 1);
    assert_eq!(m[0].role, "user");
    assert_eq!(m[0].content, "hi");

    let m = chat_messages(&request("be brief", "hi", ResponseFormat::Json));
    assert_eq!(m.len(), 2);
    assert_eq!(m[0].role, "system");
    assert_eq!(m[0].content, "be brief");
    assert_eq!(m[1].role, "user");
    assert_eq!(m[1].content, "hi");
}

#[test]
fn anthropic_system_cases() {
    assert_eq!(anthropic_system(&request("", "u", ResponseFormat::Text)), None);
    assert_eq!(anthropic_system(&request("sys", "u", ResponseFormat::Text)), Some("sys".to_string()));
    assert_eq!(
        anthropic_system(&request("", "u", ResponseFormat::Json)),
        Some(JSON_ONLY_INSTRUCTION.to_string())
    );
    assert_eq!(
        anthropic_system(&request("sys", "u", ResponseFormat::Json)),
        Some(format!("{JSON_ONLY_INSTRUCTION}\n\nsys"))
    );
}

#[test]
fn json_mode_switches() {
    assert_eq!(openai_response_format(ResponseFormat::Json), Some("json_object"));
    assert_eq!(openai_response_format(ResponseFormat::Text), None);
    assert_eq!(ollama_format(ResponseFormat::Json), Some("json"));
    assert_eq!(ollama_format(ResponseFormat::Text), None);
}

#[test]
fn api_error_message_prefers_detail() {
    assert_eq!(
        api_error_message("Anthropic", Some("bad key"), "401 Unauthorized", "{}"),
        "Anthropic API error: bad key"
    );
    assert_eq!(
        api_error_message("Ollama", None, "500 Internal Server Error", "oops"),
        "Ollama API error: HTTP 500 Internal Server Error: oops"
    );
}

#[test]
fn first_text_takes_first_block_only() {
    assert_eq!(first_text(&vec![Some("a".to_string()), Some("b".to_string())]), "a");
    assert_eq!(first_text(&vec![None, Some("b".to_string())]), "");
    assert_eq!(first_text(&vec![]), "");
}

#[test]
fn display_names() {
    assert_eq!(display_name(AiProviderType::OpenAi), "OpenAI");
    assert_eq!(display_name(AiProviderType::Anthropic), "Anthropic");
    assert_eq!(display_name(AiProviderType::Ollama), "Ollama");
}

#[test]
fn retried_statuses_per_provider() {
    assert_eq!(provider_retry_step(AiProviderType::Anthropic, 0, 529, None), RetryStep::Wait(1));
    assert_eq!(provider_retry_step(AiProviderType::OpenAi, 0, 529, None), RetryStep::Accept);
    assert_eq!(provider_retry_step(AiProviderType::OpenAi, 1, 429, Some("7")), RetryStep::Wait(7));
    assert_eq!(provider_retry_step(AiProviderType::Ollama, 0, 429, None), RetryStep::Accept);
    assert_eq!(provider_retry_step(AiProviderType::Anthropic, 3, 429, None), RetryStep::Accept);
}

#[test]
fn connection_test_messages() {
    assert_eq!(
        oxide_seo::providers::connected_message("OpenAI", "gpt-4o"),
        "Connected to OpenAI (model: gpt-4o)"
    );
    let r = oxide_seo::providers::health_check_request();
    assert_eq!(r.user_prompt, "Say OK");
    assert_eq!(r.max_tokens, 5);
    assert!(r.system_prompt.is_empty());
}

#[test]
fn request_timeouts() {
    assert_eq!(oxide_seo::providers::request_timeout_secs(AiProviderType::Ollama), 120);
    assert_eq!(oxide_seo::providers::request_timeout_secs(AiProviderType::OpenAi), 60);
    assert_eq!(oxide_seo::providers::request_timeout_secs(AiProviderType::Anthropic), 60);
}
