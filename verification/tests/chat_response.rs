use cc_proxy::convert::message::{arguments_or_raw, report_usage};
use cc_proxy::convert::response::{map_finish_reason, openai_to_claude};
use cc_proxy::json::Json;
use cc_proxy::types::claude::{MessagesResponse, ResponseContentBlock};
use cc_proxy::types::openai::{
    read_tool_call, AssistantContent, ChatCompletionResponse, Choice, ChoiceMessage, FunctionCall,
    PromptTokensDetails, ResponseUsage, ToolCall,
};
use cc_proxy::util::fix_json::parse_lenient;
use cc_proxy::util::tool_name::ToolNameMap;

const MODEL: &str = "sonnet-3-5-20241022";

fn json(text: &str) -> Json {
    parse_lenient(text).unwrap()
}

fn empty_map() -> ToolNameMap {
    ToolNameMap::new()
}

fn call(id: &str, name: &str, arguments: &str) -> ToolCall {
    ToolCall {
        id: id.into(),
        call_type: "function".into(),
        function: FunctionCall {
            name: name.into(),
            arguments: arguments.into(),
        },
    }
}

fn answer(
    id: &str,
    content: AssistantContent,
    tool_calls: Option<Vec<ToolCall>>,
    finish: &str,
    usage: Option<ResponseUsage>,
) -> ChatCompletionResponse {
    ChatCompletionResponse {
        id: id.into(),
        choices: vec![Choice {
            message: ChoiceMessage {
                content,
                tool_calls,
            },
            finish_reason: Some(finish.into()),
        }],
        usage,
    }
}

fn text(s: &str) -> AssistantContent {
    AssistantContent::Text(s.into())
}

fn usage(prompt: u32, completion: u32, cached: Option<u32>) -> Option<ResponseUsage> {
    Some(ResponseUsage {
        prompt_tokens: prompt,
        completion_tokens: completion,
        prompt_tokens_details: cached.map(|n| PromptTokensDetails {
            cached_tokens: Some(n),
        }),
    })
}

fn convert(response: &ChatCompletionResponse, estimated: u32) -> MessagesResponse {
    openai_to_claude(response, MODEL, estimated, &empty_map())
}

#[test]
fn test_normal_text_response() {
    let response = answer(
        "chatcmpl-abc",
        text("Hello, how can I help?"),
        None,
        "stop",
        usage(10, 20, None),
    );

    let result = convert(&response, 10);

    assert_eq!(result.id, "chatcmpl-abc");
    assert_eq!(result.response_type, "message");
    assert_eq!(result.role, "assistant");
    assert_eq!(result.model, MODEL);
    assert_eq!(result.stop_reason.as_deref(), Some("end_turn"));

    assert_eq!(result.content.len(), 1);
    match &result.content[0] {
        ResponseContentBlock::Text { text } => {
            assert_eq!(text, "Hello, how can I help?");
        }
        _ => panic!("Expected text content block"),
    }

    assert_eq!(result.usage.input_tokens, 10);
    assert_eq!(result.usage.output_tokens, 20);
}

#[test]
fn test_tool_call_response_stop_reason() {
    let response = answer(
        "chatcmpl-tool",
        AssistantContent::Empty,
        Some(vec![call(
            "call_abc123",
            "get_weather",
            r#"{"location":"Tokyo"}"#,
        )]),
        "tool_calls",
        None,
    );

    let result = convert(&response, 10);

    assert_eq!(result.stop_reason.as_deref(), Some("tool_use"));

    assert_eq!(result.content.len(), 1);
    match &result.content[0] {
        ResponseContentBlock::ToolUse { id, name, input } => {
            assert_eq!(id, "call_abc123");
            assert_eq!(name, "get_weather");
            assert_eq!(input.str_at("location"), Some("Tokyo"));
        }
        _ => panic!("Expected tool_use content block"),
    }
}

#[test]
fn test_tool_call_with_text_and_stop_finish_reason() {
    let response = answer(
        "chatcmpl-mixed",
        text("Calling tool..."),
        Some(vec![call("call_xyz", "search", r#"{"q":"rust"}"#)]),
        "stop",
        None,
    );

    let result = convert(&response, 10);
    assert_eq!(result.stop_reason.as_deref(), Some("tool_use"));
    assert_eq!(result.content.len(), 2);
}

#[test]
fn test_empty_choices() {
    let response = ChatCompletionResponse {
        id: "chatcmpl-empty".into(),
        choices: vec![],
        usage: None,
    };

    let result = convert(&response, 10);

    assert_eq!(result.content.len(), 1);
    match &result.content[0] {
        ResponseContentBlock::Text { text } => assert_eq!(text, ""),
        _ => panic!("Expected empty text fallback block"),
    }
    assert_eq!(result.stop_reason.as_deref(), Some("end_turn"));
}

#[test]
fn test_malformed_tool_arguments_uses_raw_fallback() {
    let response = answer(
        "chatcmpl-bad",
        AssistantContent::Empty,
        Some(vec![call("call_bad", "do_thing", "not valid json {{{")]),
        "tool_calls",
        None,
    );

    let result = convert(&response, 10);
    match &result.content[0] {
        ResponseContentBlock::ToolUse { input, .. } => {
            assert_eq!(input.str_at("raw_arguments"), Some("not valid json {{{"));
        }
        _ => panic!("Expected tool_use block"),
    }
}

#[test]
fn test_usage_with_cache_read_tokens() {
    let response = answer(
        "chatcmpl-cache",
        text("cached"),
        None,
        "stop",
        usage(500, 100, Some(300)),
    );

    let result = convert(&response, 250);
    assert_eq!(result.usage.input_tokens, 200);
    assert_eq!(result.usage.output_tokens, 100);
    assert_eq!(result.usage.cache_read_input_tokens, Some(300));
}

#[test]
fn test_usage_cached_clamped_by_tiktoken_estimate() {
    let response = answer(
        "chatcmpl-clamp",
        text("x"),
        None,
        "stop",
        usage(500, 30, Some(300)),
    );
    let result = convert(&response, 50);
    assert_eq!(result.usage.input_tokens, 50);
    assert_eq!(result.usage.cache_read_input_tokens, Some(300));
}

#[test]
fn test_usage_all_cached_fresh_zero() {
    let response = answer(
        "chatcmpl-full-cache",
        text("x"),
        None,
        "stop",
        usage(300, 5, Some(300)),
    );
    let result = convert(&response, 0);
    assert_eq!(result.usage.input_tokens, 0);
    assert_eq!(result.usage.cache_read_input_tokens, Some(300));
}

#[test]
fn test_usage_without_cache_details() {
    let response = answer(
        "chatcmpl-nocache",
        text("no cache"),
        None,
        "stop",
        usage(50, 25, None),
    );

    let result = convert(&response, 10);
    assert_eq!(result.usage.input_tokens, 10);
    assert_eq!(result.usage.output_tokens, 25);
    assert!(result.usage.cache_read_input_tokens.is_none());
}

#[test]
fn test_usage_missing_defaults_to_zero() {
    let response = answer("chatcmpl-nousage", text("hi"), None, "stop", None);

    let result = convert(&response, 10);
    assert_eq!(result.usage.input_tokens, 0);
    assert_eq!(result.usage.output_tokens, 0);
}

#[test]
fn test_finish_reason_length_maps_to_max_tokens() {
    let response = answer("chatcmpl-len", text("truncated..."), None, "length", None);

    let result = convert(&response, 10);
    assert_eq!(result.stop_reason.as_deref(), Some("max_tokens"));
}

#[test]
fn test_content_array_form_is_deserialized() {
    let content = AssistantContent::from_json(json(
        r#"[
            {"type": "text", "text": "Hello "},
            {"type": "reasoning", "text": "(ignored)"},
            {"type": "text", "text": "world"}
        ]"#,
    ));
    let response = answer("chatcmpl-arr", content, None, "stop", usage(5, 3, None));
    let result = convert(&response, 0);

    assert_eq!(result.content.len(), 1);
    match &result.content[0] {
        ResponseContentBlock::Text { text } => {
            assert_eq!(text, "Hello world");
        }
        _ => panic!("Expected text content block"),
    }
}

#[test]
fn test_content_missing_field_handled() {
    let response = answer(
        "chatcmpl-no-content",
        AssistantContent::Empty,
        None,
        "stop",
        None,
    );
    let result = convert(&response, 0);
    assert_eq!(result.content.len(), 1);
    match &result.content[0] {
        ResponseContentBlock::Text { text } => assert_eq!(text, ""),
        _ => panic!("Expected empty text fallback"),
    }
}

#[test]
fn test_content_null_handled() {
    let content = AssistantContent::from_json(json("null"));
    let response = answer("chatcmpl-null", content, None, "stop", None);
    let result = convert(&response, 0);
    assert_eq!(result.content.len(), 1);
}

#[test]
fn test_content_array_with_nested_tool_calls() {
    let content = AssistantContent::from_json(json(
        r#"[
            {"type": "text", "text": "Let me check."},
            {"type": "tool_calls", "tool_calls": [
                {
                    "id": "call_nested_1",
                    "type": "function",
                    "function": {
                        "name": "get_weather",
                        "arguments": "{\"location\":\"Tokyo\"}"
                    }
                }
            ]}
        ]"#,
    ));
    let response = answer("chatcmpl-nested", content, None, "stop", None);
    let result = convert(&response, 0);

    assert_eq!(result.content.len(), 2);
    match &result.content[0] {
        ResponseContentBlock::Text { text } => assert_eq!(text, "Let me check."),
        _ => panic!("Expected text block"),
    }
    match &result.content[1] {
        ResponseContentBlock::ToolUse { id, name, input } => {
            assert_eq!(id, "call_nested_1");
            assert_eq!(name, "get_weather");
            assert_eq!(input.str_at("location"), Some("Tokyo"));
        }
        _ => panic!("Expected tool_use block"),
    }
    assert_eq!(result.stop_reason.as_deref(), Some("tool_use"));
}

#[test]
fn test_nested_tool_calls_merged_with_top_level() {
    let content = AssistantContent::from_json(json(
        r#"[
            {"type": "tool_calls", "tool_calls": [
                {
                    "id": "call_nested",
                    "type": "function",
                    "function": {"name": "f1", "arguments": "{}"}
                }
            ]}
        ]"#,
    ));
    let response = answer(
        "chatcmpl-both",
        content,
        Some(vec![call("call_top", "f2", "{}")]),
        "tool_calls",
        None,
    );
    let result = convert(&response, 0);

    let tool_blocks: Vec<_> = result
        .content
        .iter()
        .filter_map(|b| match b {
            ResponseContentBlock::ToolUse { id, name, .. } => Some((id.clone(), name.clone())),
            _ => None,
        })
        .collect();
    assert_eq!(tool_blocks.len(), 2);
    assert!(tool_blocks.iter().any(|(id, _)| id == "call_top"));
    assert!(tool_blocks.iter().any(|(id, _)| id == "call_nested"));
    assert_eq!(tool_blocks[0].0, "call_top");
}

#[test]
fn test_nested_tool_calls_bad_shape_skipped() {
    let content = AssistantContent::from_json(json(
        r#"[{"type": "tool_calls", "tool_calls": [{"garbage": "field"}]}]"#,
    ));
    let response = answer("chatcmpl-bad-nested", content, None, "stop", None);
    let result = convert(&response, 0);
    let has_tool_use = result
        .content
        .iter()
        .any(|b| matches!(b, ResponseContentBlock::ToolUse { .. }));
    assert!(!has_tool_use);
}

#[test]
fn other_kinds_of_calls_make_no_block_but_count() {
    let mut other = call("c", "f", "{}");
    other.call_type = "custom".into();
    let response = answer("x", text("t"), Some(vec![other]), "stop", None);
    let result = convert(&response, 0);
    assert_eq!(result.content.len(), 1);
    assert_eq!(result.stop_reason.as_deref(), Some("tool_use"));
}

#[test]
fn tool_calls_are_read_from_objects_and_arrays() {
    let object = read_tool_call(&json(
        r#"{"id": "1", "type": "function", "function": ["f", "{}"], "more": 0}"#,
    ))
    .unwrap();
    assert_eq!(
        (object.id.as_str(), object.function.name.as_str()),
        ("1", "f")
    );
    assert!(read_tool_call(&json(r#"["1", "t", {"name": "f", "arguments": "a"}]"#)).is_some());
    assert!(read_tool_call(&json(r#"["1", "t", {"name": "f", "arguments": "a"}, 4]"#)).is_none());
    assert!(read_tool_call(&json(r#"["1", "t", ["f"]]"#)).is_none());
    assert!(read_tool_call(&json(r#"{"id": 1, "type": "t", "function": ["f", ""]}"#)).is_none());
    assert!(read_tool_call(&json("7")).is_none());
}

#[test]
fn content_of_other_kinds_is_empty() {
    assert!(matches!(
        AssistantContent::from_json(json("5")),
        AssistantContent::Empty
    ));
    assert_eq!(text("").as_text(), None);
    assert_eq!(AssistantContent::Parts(vec![]).as_text(), None);
    assert!(text("x").extract_nested_tool_calls().is_empty());
}

#[test]
fn finish_reasons_are_mapped() {
    assert_eq!(map_finish_reason("stop"), "end_turn");
    assert_eq!(map_finish_reason("function_call"), "tool_use");
    assert_eq!(map_finish_reason("tool_calls"), "tool_use");
    assert_eq!(map_finish_reason("length"), "max_tokens");
    assert_eq!(map_finish_reason("content_filter"), "end_turn");
}

#[test]
fn no_token_is_counted_twice() {
    let u = report_usage(500, 300, 9, 1000);
    assert_eq!(u.input_tokens + u.cache_read_input_tokens.unwrap(), 500);
    let u = report_usage(5, 9, 1, 0);
    assert_eq!((u.input_tokens, u.cache_read_input_tokens), (0, Some(9)));
    let u = report_usage(300, 300, 1, 5);
    assert_eq!(u.input_tokens, 5);
}

#[test]
fn raw_arguments_only_where_nothing_was_read() {
    assert_eq!(
        arguments_or_raw(None, "x").str_at("raw_arguments"),
        Some("x")
    );
    assert_eq!(arguments_or_raw(Some(Json::Null), "x"), Json::Null);
}
