use cc_proxy::config::ProxyConfig;
use cc_proxy::convert::request::claude_to_openai;
use cc_proxy::json::Json;
use cc_proxy::types::claude::{
    ContentBlock, ImageSource, Message, MessageContent, MessagesRequest, SystemBlock,
    SystemContent, ToolResultContent,
};
use cc_proxy::types::openai::{ChatContent, ContentPart};
use cc_proxy::util::fix_json::parse_lenient;

fn json(text: &str) -> Json {
    parse_lenient(text).unwrap()
}

fn config() -> ProxyConfig {
    ProxyConfig {
        openai_api_key: "k".into(),
        openai_base_url: "http://up".into(),
        big_model: "big".into(),
        middle_model: None,
        small_model: "small".into(),
        host: "h".into(),
        port: 1,
        anthropic_api_key: None,
        azure_api_version: None,
        log_level: "info".into(),
        max_tokens_limit: 4096,
        min_tokens_limit: 100,
        request_timeout: 1,
        streaming_first_byte_timeout: 1,
        streaming_idle_timeout: 1,
        connect_timeout: 1,
        custom_headers: vec![],
        reasoning_effort: "none".into(),
        big_reasoning: None,
        middle_reasoning: None,
        small_reasoning: Some("low".into()),
    }
}

fn request(messages: Vec<Message>) -> MessagesRequest {
    MessagesRequest {
        model: "haiku".into(),
        max_tokens: 10,
        messages,
        system: None,
        stop_sequences: Some(vec!["STOP".into()]),
        stream: Some(true),
        top_k: None,
        metadata: None,
        tools: Some(vec![]),
        tool_choice: Some(json(r#"{"type": "any"}"#)),
        thinking: None,
    }
}

fn plain(content: &Option<ChatContent>) -> &str {
    match content {
        Some(ChatContent::Text(text)) => text,
        _ => panic!("expected text"),
    }
}

#[test]
fn request_for_chat_has_its_limits_and_options() {
    let got = claude_to_openai(&request(vec![]), &config());
    assert_eq!(got.model, "small");
    assert_eq!(got.max_tokens, 100);
    assert!(got.stream);
    assert!(got.stream_options.unwrap().include_usage);
    assert_eq!(got.stop, Some(vec!["STOP".to_string()]));
    assert!(got.tools.is_none());
    assert_eq!(got.tool_choice, Some(Json::Text("required".to_string())));
    assert_eq!(got.reasoning_effort.as_deref(), Some("low"));
    let mut req = request(vec![]);
    req.max_tokens = 9999;
    req.stream = None;
    req.model = "opus".into();
    req.tool_choice = Some(json(r#"{"type": "tool", "name": "f"}"#));
    let got = claude_to_openai(&req, &config());
    assert_eq!(got.max_tokens, 4096);
    assert!(got.stream_options.is_none());
    assert_eq!(got.reasoning_effort, None);
    let choice = got.tool_choice.unwrap();
    assert_eq!(choice.get("function").unwrap().str_at("name"), Some("f"));
}

#[test]
fn tool_results_go_before_the_rest() {
    let got = claude_to_openai(
        &request(vec![
            Message {
                role: "assistant".into(),
                content: MessageContent::Blocks(vec![ContentBlock::ToolUse {
                    id: "c1".into(),
                    name: "f".into(),
                    input: json(r#"{"a": 1}"#),
                }]),
            },
            Message {
                role: "user".into(),
                content: MessageContent::Blocks(vec![
                    ContentBlock::Text { text: "see".into() },
                    ContentBlock::ToolResult {
                        tool_use_id: "c1".into(),
                        content: Some(ToolResultContent::Blocks(vec![
                            json(r#"{"type": "text", "text": "one"}"#),
                            json(r#"{"type": "image"}"#),
                            json(r#"{"type": "text", "text": "two"}"#),
                        ])),
                    },
                    ContentBlock::Image {
                        source: ImageSource {
                            source_type: "base64".into(),
                            media_type: None,
                            data: Some("QQ==".into()),
                        },
                    },
                ]),
            },
            Message {
                role: "user".into(),
                content: MessageContent::Null,
            },
        ]),
        &config(),
    );
    assert_eq!(got.messages.len(), 3);
    let calls = got.messages[0].tool_calls.as_ref().unwrap();
    assert_eq!(calls[0].function.arguments, r#"{"a":1}"#);
    assert!(got.messages[0].content.is_none());
    assert_eq!(got.messages[1].role, "tool");
    assert_eq!(plain(&got.messages[1].content), "one\ntwo");
    assert_eq!(got.messages[1].tool_call_id.as_deref(), Some("c1"));
    match &got.messages[2].content {
        Some(ChatContent::Parts(parts)) => {
            assert_eq!(parts.len(), 2);
            assert!(matches!(
                &parts[1],
                ContentPart::ImageUrl { image_url }
                    if image_url.url == "data:application/octet-stream;base64,QQ=="
            ));
        }
        _ => panic!("expected parts"),
    }
}

#[test]
fn system_text_comes_first() {
    let mut req = request(vec![Message {
        role: "user".into(),
        content: MessageContent::Text("hi".into()),
    }]);
    let block = |kind: &str, text: Option<&str>| SystemBlock {
        block_type: kind.into(),
        text: text.map(str::to_string),
        cache_control: None,
    };
    req.system = Some(SystemContent::Blocks(vec![
        block("text", Some("a")),
        block("other", Some("x")),
        block("text", None),
        block("text", Some("b")),
    ]));
    let got = claude_to_openai(&req, &config());
    assert_eq!(got.messages.len(), 2);
    assert_eq!(got.messages[0].role, "system");
    assert_eq!(plain(&got.messages[0].content), "a\n\nb");
    assert_eq!(plain(&got.messages[1].content), "hi");
}
