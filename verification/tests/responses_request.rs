use cc_proxy::config::{ModelTier, ProxyConfig};
use cc_proxy::convert::responses::names::{
    build_short_name_map, build_tool_name_map, make_unique_name, shorten_name_if_needed,
    truncate_bytes_safe, TOOL_NAME_LIMIT,
};
use cc_proxy::convert::responses::request::{
    claude_to_responses, normalize_tool_parameters, tool_result_to_parts,
};
use cc_proxy::json::Json;
use cc_proxy::model_map::map_model;
use cc_proxy::types::claude::{
    ContentBlock, ImageSource, Message, MessageContent, MessagesRequest, SystemBlock,
    SystemContent, ThinkingConfig, Tool, ToolResultContent,
};
use cc_proxy::types::responses::{
    ContentPart, FunctionCallOutput, InputItem, MessageItem, ResponsesRequest,
};
use cc_proxy::util::fix_json::parse_lenient;
use cc_proxy::util::tool_name::restore;

fn json(text: &str) -> Json {
    parse_lenient(text).unwrap()
}

fn test_config() -> ProxyConfig {
    ProxyConfig {
        openai_api_key: "test-key".into(),
        openai_base_url: "https://api.openai.com/v1".into(),
        big_model: "gpt-4o".into(),
        middle_model: Some("gpt-4o".into()),
        small_model: "gpt-4o-mini".into(),
        host: "0.0.0.0".into(),
        port: 8082,
        anthropic_api_key: None,
        azure_api_version: None,
        log_level: "info".into(),
        max_tokens_limit: 128000,
        min_tokens_limit: 100,
        request_timeout: 600,
        streaming_first_byte_timeout: 300,
        streaming_idle_timeout: 300,
        connect_timeout: 30,
        custom_headers: Default::default(),
        reasoning_effort: "none".into(),
        big_reasoning: None,
        middle_reasoning: None,
        small_reasoning: None,
    }
}

fn base_request() -> MessagesRequest {
    MessagesRequest {
        model: "sonnet-3-5-20241022".into(),
        max_tokens: 1024,
        messages: vec![],
        system: None,
        stop_sequences: None,
        stream: None,
        top_k: None,
        metadata: None,
        tools: None,
        tool_choice: None,
        thinking: None,
    }
}

fn first_input_message(req: &ResponsesRequest) -> &MessageItem {
    match &req.input[0] {
        InputItem::Message(m) => m,
        _ => panic!("expected message at index 0"),
    }
}

fn tool(name: &str) -> Tool {
    Tool {
        name: name.to_string(),
        description: None,
        input_schema: json("{}"),
    }
}

#[test]
fn test_system_string() {
    let config = test_config();
    let mut req = base_request();
    req.system = Some(SystemContent::Text("Be helpful".into()));

    let result = claude_to_responses(&req, &config);
    assert_eq!(result.input.len(), 1);
    let dev = first_input_message(&result);
    assert_eq!(dev.role, "developer");
    assert_eq!(dev.content.len(), 1);
    match &dev.content[0] {
        ContentPart::InputText { text } => assert_eq!(text, "Be helpful"),
        _ => panic!("expected InputText"),
    }
}

#[test]
fn test_system_array_multiple_texts() {
    let config = test_config();
    let mut req = base_request();
    req.system = Some(SystemContent::Blocks(vec![
        SystemBlock {
            block_type: "text".into(),
            text: Some("Block one".into()),
            cache_control: None,
        },
        SystemBlock {
            block_type: "text".into(),
            text: Some("Block two".into()),
            cache_control: None,
        },
    ]));

    let result = claude_to_responses(&req, &config);
    let dev = first_input_message(&result);
    assert_eq!(dev.role, "developer");
    assert_eq!(dev.content.len(), 2);
}

#[test]
fn test_system_filters_billing_header() {
    let config = test_config();
    let mut req = base_request();
    req.system = Some(SystemContent::Blocks(vec![
        SystemBlock {
            block_type: "text".into(),
            text: Some("x-anthropic-billing-header: tenant-abc".into()),
            cache_control: None,
        },
        SystemBlock {
            block_type: "text".into(),
            text: Some("Valid system text".into()),
            cache_control: None,
        },
    ]));

    let result = claude_to_responses(&req, &config);
    let dev = first_input_message(&result);
    assert_eq!(dev.content.len(), 1);
    match &dev.content[0] {
        ContentPart::InputText { text } => assert_eq!(text, "Valid system text"),
        _ => panic!("expected InputText"),
    }
}

#[test]
fn test_message_text_only() {
    let config = test_config();
    let mut req = base_request();
    req.messages.push(Message {
        role: "user".into(),
        content: MessageContent::Text("Hello".into()),
    });

    let result = claude_to_responses(&req, &config);
    assert_eq!(result.input.len(), 1);
    let msg = first_input_message(&result);
    assert_eq!(msg.role, "user");
    match &msg.content[0] {
        ContentPart::InputText { text } => assert_eq!(text, "Hello"),
        _ => panic!("expected InputText"),
    }
}

#[test]
fn test_message_with_image() {
    let config = test_config();
    let mut req = base_request();
    req.messages.push(Message {
        role: "user".into(),
        content: MessageContent::Blocks(vec![
            ContentBlock::Text {
                text: "Look at this".into(),
            },
            ContentBlock::Image {
                source: ImageSource {
                    source_type: "base64".into(),
                    media_type: Some("image/png".into()),
                    data: Some("iVBORw0KGgo=".into()),
                },
            },
        ]),
    });

    let result = claude_to_responses(&req, &config);
    let msg = first_input_message(&result);
    assert_eq!(msg.content.len(), 2);
    match &msg.content[1] {
        ContentPart::InputImage { image_url } => {
            assert_eq!(image_url, "data:image/png;base64,iVBORw0KGgo=");
        }
        _ => panic!("expected InputImage"),
    }
}

#[test]
fn test_tool_use_promoted_to_top_level() {
    let config = test_config();
    let mut req = base_request();
    req.messages.push(Message {
        role: "assistant".into(),
        content: MessageContent::Blocks(vec![
            ContentBlock::Text {
                text: "Let me check.".into(),
            },
            ContentBlock::ToolUse {
                id: "toolu_123".into(),
                name: "get_weather".into(),
                input: json(r#"{"location": "NYC"}"#),
            },
        ]),
    });

    let result = claude_to_responses(&req, &config);
    assert_eq!(result.input.len(), 2);
    match &result.input[0] {
        InputItem::Message(m) => {
            assert_eq!(m.role, "assistant");
            match &m.content[0] {
                ContentPart::OutputText { text } => assert_eq!(text, "Let me check."),
                _ => panic!("expected OutputText"),
            }
        }
        _ => panic!("expected Message first"),
    }
    match &result.input[1] {
        InputItem::FunctionCall(fc) => {
            assert_eq!(fc.call_id, "toolu_123");
            assert_eq!(fc.name, "get_weather");
            let args: serde_json::Value = serde_json::from_str(&fc.arguments).unwrap();
            assert_eq!(args["location"], "NYC");
        }
        _ => panic!("expected FunctionCall second"),
    }
}

#[test]
fn test_tool_result_promoted_to_top_level() {
    let config = test_config();
    let mut req = base_request();
    req.messages.push(Message {
        role: "user".into(),
        content: MessageContent::Blocks(vec![ContentBlock::ToolResult {
            tool_use_id: "toolu_123".into(),
            content: Some(ToolResultContent::Text("Sunny 72F".into())),
        }]),
    });

    let result = claude_to_responses(&req, &config);
    assert_eq!(result.input.len(), 1);
    match &result.input[0] {
        InputItem::FunctionCallOutput(fco) => {
            assert_eq!(fco.call_id, "toolu_123");
            match &fco.output {
                FunctionCallOutput::Parts(parts) => {
                    assert_eq!(parts.len(), 1);
                    match &parts[0] {
                        ContentPart::InputText { text } => assert_eq!(text, "Sunny 72F"),
                        _ => panic!("expected InputText in output"),
                    }
                }
                _ => panic!("expected Parts"),
            }
        }
        _ => panic!("expected FunctionCallOutput"),
    }
}

#[test]
fn test_tools_input_schema_normalized() {
    let config = test_config();
    let mut req = base_request();
    req.tools = Some(vec![Tool {
        name: "do_thing".into(),
        description: Some("Does a thing".into()),
        input_schema: json(r#"{"type": "object"}"#),
    }]);
    req.messages.push(Message {
        role: "user".into(),
        content: MessageContent::Text("hi".into()),
    });

    let result = claude_to_responses(&req, &config);
    let tools = result.tools.as_ref().unwrap();
    assert_eq!(tools.len(), 1);
    let params = tools[0].parameters.as_ref().unwrap();
    assert!(params.get("properties").is_some());
    assert_eq!(tools[0].tool_type, "function");
    assert_eq!(tools[0].name.as_deref(), Some("do_thing"));
    assert_eq!(tools[0].description.as_deref(), Some("Does a thing"));
    assert_eq!(tools[0].strict, Some(false));
}

#[test]
fn test_tools_web_search_special_handling() {
    let config = test_config();
    let mut req = base_request();
    req.tools = Some(vec![tool("web_search_20250305")]);
    req.messages.push(Message {
        role: "user".into(),
        content: MessageContent::Text("search".into()),
    });

    let result = claude_to_responses(&req, &config);
    let tools = result.tools.as_ref().unwrap();
    assert_eq!(tools.len(), 1);
    assert_eq!(tools[0].tool_type, "web_search");
    assert!(tools[0].name.is_none());
}

#[test]
fn test_tool_name_shortened_over_64_chars() {
    let long2 = "mcp__some_server__a_very_long_function_name_that_clearly_exceeds_limit";
    let result = shorten_name_if_needed(long2);
    assert!(result.len() <= TOOL_NAME_LIMIT, "got len {}", result.len());
    assert_eq!(result, "mcp__a_very_long_function_name_that_clearly_exceeds_limit");
}

#[test]
fn test_tool_name_short_map_uniqueness() {
    let names = vec![
        "mcp__serverA__duplicate_suffix".to_string(),
        "mcp__serverB__duplicate_suffix".to_string(),
    ];
    let map = build_short_name_map(&names);
    let values: Vec<&String> = names.iter().map(|n| map.get(n).unwrap()).collect();
    assert_eq!(map.len(), 2);
    assert_ne!(values[0], values[1], "short names must be unique");
    for v in &values {
        assert!(v.len() <= TOOL_NAME_LIMIT, "name too long: {v}");
    }
}

#[test]
fn test_thinking_enabled_budget_tokens() {
    let config = test_config();
    let mut req = base_request();
    req.thinking = Some(ThinkingConfig { enabled: true });

    let result = claude_to_responses(&req, &config);
    let r = result.reasoning.as_ref().expect("reasoning should be set");
    assert_eq!(r.effort, "medium");
    assert_eq!(r.summary, "auto");
}

#[test]
fn test_thinking_adaptive_with_effort() {
    let mut config = test_config();
    config.reasoning_effort = "high".into();
    let mut req = base_request();
    req.thinking = Some(ThinkingConfig { enabled: true });

    let result = claude_to_responses(&req, &config);
    let r = result.reasoning.as_ref().unwrap();
    assert_eq!(r.effort, "high");
}

#[test]
fn test_thinking_disabled() {
    let config = test_config();
    let mut req = base_request();
    req.thinking = Some(ThinkingConfig { enabled: false });

    let result = claude_to_responses(&req, &config);
    let r = result
        .reasoning
        .as_ref()
        .expect("reasoning present even when none");
    assert_eq!(r.effort, "none");
}

#[test]
fn thinking_absent_uses_the_setting_or_none() {
    let mut config = test_config();
    let req = base_request();
    let r = claude_to_responses(&req, &config).reasoning.unwrap();
    assert_eq!(r.effort, "none");
    config.middle_reasoning = Some("low".into());
    let r = claude_to_responses(&req, &config).reasoning.unwrap();
    assert_eq!(r.effort, "low");
}

#[test]
fn test_parallel_tool_calls_default_true() {
    let config = test_config();
    let req = base_request();
    let result = claude_to_responses(&req, &config);
    assert!(result.parallel_tool_calls);
}

#[test]
fn test_parallel_tool_calls_disabled_by_tool_choice() {
    let config = test_config();
    let mut req = base_request();
    req.tool_choice = Some(json(
        r#"{"type": "auto", "disable_parallel_tool_use": true}"#,
    ));

    let result = claude_to_responses(&req, &config);
    assert!(!result.parallel_tool_calls);
}

#[test]
fn test_normalize_tool_parameters_adds_properties() {
    let schema = json(r#"{"type": "object"}"#);
    let result = normalize_tool_parameters(&schema);
    assert!(result.get("properties").is_some());
}

#[test]
fn test_normalize_tool_parameters_null_input() {
    let result = normalize_tool_parameters(&Json::Null);
    assert_eq!(result.str_at("type"), Some("object"));
    assert!(result.get("properties").is_some());
}

#[test]
fn test_normalize_tool_parameters_removes_schema_key() {
    let schema = json(
        r#"{"$schema": "http://json-schema.org/draft-07/schema#", "type": "object", "properties": {}}"#,
    );
    let result = normalize_tool_parameters(&schema);
    assert!(result.get("$schema").is_none());
}

#[test]
fn normalizing_keeps_other_members_and_is_done_once() {
    let schema = json(r#"{"cache_control": {}, "defer_loading": 1, "required": ["a"], "title": "t"}"#);
    let once = normalize_tool_parameters(&schema);
    assert_eq!(once.get("required"), schema.get("required"));
    assert_eq!(once.str_at("title"), Some("t"));
    assert_eq!(once.str_at("type"), Some("object"));
    assert!(once.get("cache_control").is_none());
    assert!(once.get("defer_loading").is_none());
    let twice = normalize_tool_parameters(&once);
    for key in ["required", "title", "type", "properties"] {
        assert_eq!(twice.get(key), once.get(key));
    }
    let list = normalize_tool_parameters(&json(r#"{"type": "array"}"#));
    assert!(list.get("properties").is_none());
}

#[test]
fn test_shorten_short_name_unchanged() {
    let name = "get_weather";
    assert_eq!(shorten_name_if_needed(name), name);
}

#[test]
fn test_shorten_mcp_name_uses_suffix() {
    let name = "mcp__extremely_long_package__very_long_function_name_that_exceeds_limit_here";
    let result = shorten_name_if_needed(name);
    assert!(result.len() <= TOOL_NAME_LIMIT, "result: {result}");
    assert!(result.starts_with("mcp__"), "result: {result}");
}

#[test]
fn test_shorten_plain_long_name_truncated() {
    let name = "a_very_long_function_name_that_is_way_over_sixty_four_characters_limit";
    let result = shorten_name_if_needed(name);
    assert_eq!(result.len(), TOOL_NAME_LIMIT);
}

#[test]
fn test_shorten_handles_non_ascii_without_panic() {
    let name = "极速天气查询工具极速天气查询工具极速天气查询工具极速天气查询";
    assert!(name.len() > TOOL_NAME_LIMIT);
    let result = shorten_name_if_needed(name);
    assert!(result.len() <= TOOL_NAME_LIMIT);
    assert!(!result.is_empty());
}

#[test]
fn test_shorten_handles_emoji_without_panic() {
    let name = "🔥🔥🔥🔥🔥🔥🔥🔥🔥🔥🔥🔥🔥🔥🔥🔥🔥";
    assert!(name.len() > TOOL_NAME_LIMIT);
    let result = shorten_name_if_needed(name);
    assert!(result.len() <= TOOL_NAME_LIMIT);
}

#[test]
fn test_truncate_bytes_safe_never_panics_in_middle_of_char() {
    let s = "ab中文cd";
    for n in 0..=s.len() + 2 {
        let out = truncate_bytes_safe(s, n);
        assert!(out.len() <= n.min(s.len()));
        assert!(s.starts_with(&out));
    }
    assert_eq!(truncate_bytes_safe(s, 6), "ab中");
}

#[test]
fn test_make_unique_name_with_cjk_base() {
    let mut used = Vec::new();
    let base = "搜索工具搜索工具搜索工具搜索工具搜索工具搜索工具搜索工具搜索工";
    used.push(base.to_string());
    let unique = make_unique_name(base, &used);
    assert_ne!(unique, base);
    assert!(unique.ends_with("_1"));
    assert!(unique.len() <= TOOL_NAME_LIMIT);
}

#[test]
fn taken_numbers_are_skipped() {
    let used = vec!["a".to_string(), "a_1".to_string(), "a_2".to_string()];
    assert_eq!(make_unique_name("a", &used), "a_3");
    assert_eq!(make_unique_name("b", &used), "b");
}

#[test]
fn triple_underscore_ends_the_prefix() {
    let name = format!("mcp__{}___tail", "x".repeat(70));
    assert_eq!(shorten_name_if_needed(&name), "mcp__tail");
}

#[test]
fn equal_long_names_are_told_apart() {
    let a = format!("mcp__{}__run", "a".repeat(70));
    let b = format!("mcp__{}__run", "b".repeat(70));
    let map = build_short_name_map(&vec![a.clone(), b.clone()]);
    assert_eq!(map.get(&a).unwrap(), "mcp__run");
    assert_eq!(map.get(&b).unwrap(), "mcp__run_1");
}

#[test]
fn repeated_name_keeps_its_last_short_name() {
    let names = vec!["a".to_string(), "a".to_string()];
    let map = build_short_name_map(&names);
    assert_eq!(map.len(), 1);
    assert_eq!(map.get("a").unwrap(), "a_1");
}

#[test]
fn test_build_tool_name_map_restores_short_alias() {
    let long_name = "mcp__extremely_long_namespace_prefix__very_descriptive_function_name";
    assert!(long_name.len() > TOOL_NAME_LIMIT);

    let tools = vec![tool(long_name)];

    let map = build_tool_name_map(Some(&tools));

    let short = shorten_name_if_needed(long_name);
    assert_ne!(short, long_name, "test precondition: name should shorten");

    let restored = restore(&map, &short);
    assert_eq!(
        restored, long_name,
        "short → original restoration failed: map did not include alias"
    );

    let restored_orig = restore(&map, long_name);
    assert_eq!(restored_orig, long_name);
}

#[test]
fn test_build_tool_name_map_short_name_unchanged_for_simple_tools() {
    let tools = vec![tool("Read"), tool("Write")];

    let map = build_tool_name_map(Some(&tools));

    assert_eq!(restore(&map, "read"), "Read");
    assert_eq!(restore(&map, "WRITE"), "Write");
}

#[test]
fn test_build_tool_name_map_none_returns_empty() {
    let map = build_tool_name_map(None);
    assert!(map.is_empty());
}

#[test]
fn declared_name_comes_before_a_short_one() {
    let long = format!("mcp__{}__read", "a".repeat(70));
    let tools = vec![tool(&long), tool("mcp__read")];
    let map = build_tool_name_map(Some(&tools));
    assert_eq!(restore(&map, "mcp__read"), "mcp__read");
    assert_eq!(restore(&map, "mcp__READ_1"), "mcp__read");
}

#[test]
fn test_envelope_fixed_fields() {
    let config = test_config();
    let req = base_request();
    let result = claude_to_responses(&req, &config);
    assert!(result.stream);
    assert!(!result.store);
    assert!(result
        .included
        .contains(&"reasoning.encrypted_content".to_string()));
    assert_eq!(result.instructions, None);
    assert_eq!(result.max_output_tokens, Some(1024));
    assert!(result.tools.is_none());
}

#[test]
fn text_is_flushed_before_and_after_tools() {
    let mut req = base_request();
    req.messages.push(Message {
        role: "user".into(),
        content: MessageContent::Blocks(vec![
            ContentBlock::Text { text: "one".into() },
            ContentBlock::ToolResult {
                tool_use_id: "t".into(),
                content: None,
            },
            ContentBlock::Text { text: "two".into() },
            ContentBlock::Text { text: "three".into() },
        ]),
    });
    req.messages.push(Message {
        role: "user".into(),
        content: MessageContent::Null,
    });
    let result = claude_to_responses(&req, &test_config());
    assert_eq!(result.input.len(), 3);
    match &result.input[1] {
        InputItem::FunctionCallOutput(out) => match &out.output {
            FunctionCallOutput::Parts(parts) => assert!(parts.is_empty()),
            _ => panic!("expected Parts"),
        },
        _ => panic!("expected FunctionCallOutput"),
    }
    match &result.input[2] {
        InputItem::Message(m) => assert_eq!(m.content.len(), 2),
        _ => panic!("expected Message"),
    }
}

#[test]
fn blank_and_foreign_system_blocks_are_dropped() {
    let mut req = base_request();
    req.system = Some(SystemContent::Blocks(vec![
        SystemBlock {
            block_type: "text".into(),
            text: Some(" \n".into()),
            cache_control: None,
        },
        SystemBlock {
            block_type: "image".into(),
            text: Some("x".into()),
            cache_control: None,
        },
        SystemBlock {
            block_type: "text".into(),
            text: None,
            cache_control: None,
        },
    ]));
    assert!(claude_to_responses(&req, &test_config()).input.is_empty());
    req.system = Some(SystemContent::Text("  x-anthropic-billing-header: a".into()));
    assert!(claude_to_responses(&req, &test_config()).input.is_empty());
}

fn text_of_part(part: &ContentPart) -> &str {
    match part {
        ContentPart::InputText { text } => text,
        _ => panic!("expected InputText"),
    }
}

#[test]
fn tool_results_of_every_shape() {
    let items = json(
        r#"[{"type": "text", "text": "a"}, {"type": "text"}, {"type": "image", "source": {"data": "QQ=="}},
            {"type": "image"}, {"type": "other", "text": "b"}, 5]"#,
    );
    let items = match items {
        Json::Array(items) => items,
        _ => panic!("expected array"),
    };
    let parts = tool_result_to_parts(&Some(ToolResultContent::Blocks(items)));
    assert_eq!(parts.len(), 3);
    assert_eq!(text_of_part(&parts[0]), "a");
    assert_eq!(text_of_part(&parts[1]), "");
    match &parts[2] {
        ContentPart::InputImage { image_url } => {
            assert_eq!(image_url, "data:application/octet-stream;base64,QQ==")
        }
        _ => panic!("expected InputImage"),
    }
    let parts = tool_result_to_parts(&Some(ToolResultContent::Object(json(r#"{"text": "t"}"#))));
    assert_eq!(text_of_part(&parts[0]), "t");
    let parts = tool_result_to_parts(&Some(ToolResultContent::Object(json(r#"{"b": 1, "a": [true]}"#))));
    assert_eq!(text_of_part(&parts[0]), r#"{"a":[true],"b":1}"#);
}

#[test]
fn models_are_mapped_by_tier() {
    let mut config = test_config();
    config.big_model = "big".into();
    config.middle_model = None;
    config.small_model = "small".into();
    let opus = map_model("opus-4", &config);
    assert_eq!((opus.model.as_str(), opus.tier), ("big", Some(ModelTier::Big)));
    let sonnet = map_model("the-sonnet-4", &config);
    assert_eq!((sonnet.model.as_str(), sonnet.tier), ("big", Some(ModelTier::Middle)));
    let haiku = map_model("haiku-3", &config);
    assert_eq!((haiku.model.as_str(), haiku.tier), ("small", Some(ModelTier::Small)));
    let other = map_model("gpt-5", &config);
    assert_eq!((other.model.as_str(), other.tier), ("gpt-5", None));
}

#[test]
fn numbers_do_not_run_out() {
    let mut used = vec!["a".to_string()];
    for i in 1..=10_000 {
        used.push(format!("a_{i}"));
    }
    assert_eq!(make_unique_name("a", &used), "a_10001");
}
