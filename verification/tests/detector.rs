use cc_proxy::upstream::detector::{
    endpoint_exists, endpoint_url, probe_body, unsupported_message, Detection,
};
use cc_proxy::upstream::mode::UpstreamApiMode;

fn detect(chat: Option<u16>, responses: Option<u16>) -> Detection {
    let mut detection = Detection::start();
    for _ in 0..2 {
        detection = match detection {
            Detection::Probing(UpstreamApiMode::ChatCompletions) => detection.answer(chat),
            Detection::Probing(UpstreamApiMode::Responses) => detection.answer(responses),
            other => other,
        };
    }
    detection
}

const CHAT: Detection = Detection::Found(UpstreamApiMode::ChatCompletions);
const RESPONSES: Detection = Detection::Found(UpstreamApiMode::Responses);

#[test]
fn test_all_200_returns_chat_mode() {
    assert_eq!(detect(Some(200), Some(200)), CHAT);
}

#[test]
fn test_all_401_still_returns_chat_mode() {
    assert_eq!(detect(Some(401), Some(401)), CHAT);
}

#[test]
fn test_chat_404_falls_back_to_responses() {
    assert_eq!(detect(Some(404), Some(200)), RESPONSES);
}

#[test]
fn test_both_404_returns_error() {
    assert_eq!(detect(Some(404), Some(404)), Detection::Failed);
}

#[test]
fn test_chat_network_error_falls_back_to_responses() {
    assert_eq!(detect(None, Some(200)), RESPONSES);
}

#[test]
fn test_chat_5xx_falls_back_to_responses() {
    assert_eq!(detect(Some(500), Some(200)), RESPONSES);
}

#[test]
fn statuses_that_show_an_endpoint() {
    for status in [200u16, 204, 299, 400, 401, 403, 429, 499] {
        assert!(endpoint_exists(Some(status)), "{status}");
    }
    for status in [199u16, 300, 302, 404, 405, 500, 503, 600] {
        assert!(!endpoint_exists(Some(status)), "{status}");
    }
    assert!(!endpoint_exists(None));
}

#[test]
fn urls_and_names() {
    let base = "https://api.example.com/v1//";
    assert_eq!(
        endpoint_url(base, UpstreamApiMode::ChatCompletions),
        "https://api.example.com/v1/chat/completions"
    );
    assert_eq!(
        endpoint_url(base, UpstreamApiMode::Responses),
        "https://api.example.com/v1/responses"
    );
    assert_eq!(UpstreamApiMode::Responses.as_str(), "responses");
    assert_eq!(UpstreamApiMode::ChatCompletions.as_str(), "chat_completions");
    assert_eq!(
        unsupported_message("http://h/"),
        "upstream does not support ChatCompletions API (http://h/chat/completions) or Responses API \
         (http://h/responses) at this base URL — check OPENAI_BASE_URL and network connectivity"
    );
}

#[test]
fn probes_are_small() {
    let chat = probe_body(UpstreamApiMode::ChatCompletions, "m");
    assert_eq!(chat.str_at("model"), Some("m"));
    assert_eq!(chat.get("max_tokens"), Some(&cc_proxy::json::Json::number(16)));
    assert_eq!(chat.get("stream").and_then(|s| s.as_bool()), Some(false));
    let messages = chat.get("messages").and_then(|m| m.as_array()).unwrap();
    assert_eq!(messages.len(), 1);
    assert_eq!(messages[0].str_at("content"), Some("hi"));
    let responses = probe_body(UpstreamApiMode::Responses, "m");
    let input = responses.get("input").and_then(|m| m.as_array()).unwrap();
    let content = input[0].get("content").and_then(|m| m.as_array()).unwrap();
    assert_eq!(content[0].str_at("type"), Some("input_text"));
    assert_eq!(
        responses.get("max_output_tokens"),
        Some(&cc_proxy::json::Json::number(16))
    );
}
