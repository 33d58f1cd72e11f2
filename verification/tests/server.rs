use cc_proxy::config::ProxyConfig;
use cc_proxy::json::Json;
use cc_proxy::server::{
    connection_failed_body, connection_ok_body, connection_test_request, health_body,
    is_authorized, is_local_origin, listen_address, plan_message, root_body, token_count_body, UpstreamCall,
};
use cc_proxy::types::claude::{MessagesRequest, Tool};
use cc_proxy::types::openai::ChatContent;
use cc_proxy::upstream::mode::UpstreamApiMode;
use cc_proxy::util::tool_name::restore;

fn config() -> ProxyConfig {
    ProxyConfig {
        openai_api_key: "k".into(),
        openai_base_url: "http://up".into(),
        big_model: "big".into(),
        middle_model: Some("middle".into()),
        small_model: "small".into(),
        host: "127.0.0.1".into(),
        port: 8082,
        anthropic_api_key: None,
        azure_api_version: None,
        log_level: "info".into(),
        max_tokens_limit: 100,
        min_tokens_limit: 1,
        request_timeout: 1,
        streaming_first_byte_timeout: 1,
        streaming_idle_timeout: 1,
        connect_timeout: 1,
        custom_headers: vec![],
        reasoning_effort: "none".into(),
        big_reasoning: None,
        middle_reasoning: None,
        small_reasoning: None,
    }
}

fn request(stream: Option<bool>, name: &str) -> MessagesRequest {
    MessagesRequest {
        model: "opus".into(),
        max_tokens: 10,
        messages: vec![],
        system: None,
        stop_sequences: None,
        stream,
        top_k: None,
        metadata: None,
        tools: Some(vec![Tool {
            name: name.into(),
            description: None,
            input_schema: Json::Null,
        }]),
        tool_choice: None,
        thinking: None,
    }
}

#[test]
fn plan_follows_the_upstream() {
    let long = format!("mcp__{}__Run", "x".repeat(70));
    let request_one = request(Some(true), &long);
    let plan = plan_message(&request_one, &config(), UpstreamApiMode::Responses);
    assert!(plan.stream);
    assert_eq!(restore(&plan.names, "mcp__run"), long);
    match plan.call {
        UpstreamCall::Responses(upstream) => {
            assert_eq!(upstream.model, "big");
            assert_eq!(upstream.tools.unwrap()[0].name.as_deref(), Some("mcp__Run"));
        }
        _ => panic!("expected Responses"),
    }
    let plan = plan_message(&request_one, &config(), UpstreamApiMode::ChatCompletions);
    assert_eq!(restore(&plan.names, "mcp__run"), "mcp__run");
    match plan.call {
        UpstreamCall::ChatCompletions(upstream) => {
            assert_eq!(upstream.model, "big");
            assert!(upstream.stream);
            assert_eq!(upstream.tools.unwrap()[0].function.name, long);
        }
        _ => panic!("expected ChatCompletions"),
    }
    assert!(!plan_message(&request(None, "a"), &config(), UpstreamApiMode::Responses).stream);
    assert!(!plan_message(&request(Some(false), "a"), &config(), UpstreamApiMode::Responses).stream);
}

#[test]
fn local_origins() {
    for origin in ["http://localhost:3000", "http://127.0.0.1", "http://[::1]:8082"] {
        assert!(is_local_origin(&origin.as_bytes().to_vec()), "{origin}");
    }
    for origin in ["http://localhost", "http://[::1]", "http://127.0.0.1:80"] {
        assert!(is_local_origin(&origin.as_bytes().to_vec()), "{origin}");
    }
    for origin in [
        "http://localhost.evil.com",
        "http://127.0.0.1.evil.com",
        "http://127.0.0.10",
        "http://[::1].evil.com",
        "http://localhost:80@evil.com",
        "http://localhost:80/x",
        "https://localhost:80",
    ] {
        assert!(!is_local_origin(&origin.as_bytes().to_vec()), "{origin}");
    }
    for origin in ["https://localhost", "http://example.com", "http://127.0.0.", ""] {
        assert!(!is_local_origin(&origin.as_bytes().to_vec()), "{origin}");
    }
}

#[test]
fn small_answers() {
    let config = config();
    assert_eq!(listen_address(&config), "127.0.0.1:8082");
    let health = health_body(&config, 1700000000);
    assert_eq!(health.str_at("status"), Some("healthy"));
    assert_eq!(health.str_at("timestamp"), Some("1700000000"));
    assert_eq!(health.get("openai_api_configured"), Some(&Json::Bool(true)));
    assert_eq!(health.get("client_api_key_validation"), Some(&Json::Bool(false)));
    let root = root_body(&config, "0.2.3");
    assert_eq!(root.str_at("message"), Some("cc-proxy v0.2.3"));
    assert_eq!(root.get("config").unwrap().str_at("middle_model"), Some("middle"));
    assert_eq!(
        root.get("endpoints").unwrap().str_at("count_tokens"),
        Some("/v1/messages/count_tokens")
    );
    assert_eq!(token_count_body(7).get("input_tokens"), Some(&Json::number(7)));
    let ok = connection_ok_body(&config, "r1");
    assert_eq!(ok.str_at("model_used"), Some("small"));
    assert_eq!(ok.str_at("response_id"), Some("r1"));
    assert_eq!(connection_failed_body("e").str_at("error"), Some("e"));
}

#[test]
fn connection_is_tested_with_a_greeting() {
    let request = connection_test_request(&config());
    assert_eq!(request.model, "small");
    assert_eq!(request.max_tokens, 5);
    assert!(!request.stream);
    assert!(matches!(&request.messages[0].content, Some(ChatContent::Text(t)) if t == "Hello"));
}

#[test]
fn key_is_checked_where_one_is_set() {
    let some = |s: &str| Some(s.to_string());
    let mut config = config();
    assert!(is_authorized(&config, &None, &None));
    config.anthropic_api_key = some("key");
    assert!(is_authorized(&config, &some("key"), &None));
    assert!(is_authorized(&config, &None, &some("Bearer key")));
    assert!(is_authorized(&config, &some("key"), &some("Bearer other")));
    assert!(!is_authorized(&config, &some("other"), &some("Bearer key")));
    assert!(!is_authorized(&config, &None, &some("key")));
    assert!(!is_authorized(&config, &None, &some("Bearer  key")));
    assert!(!is_authorized(&config, &None, &None));
}
