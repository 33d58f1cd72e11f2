use cc_proxy::convert::responses::response::{
    derive_stop_reason, extract_thinking_text, responses_to_claude,
};
use cc_proxy::json::Json;
use cc_proxy::types::claude::{ResponseContentBlock, Tool};
use cc_proxy::types::responses::{
    ContentPart, InputTokensDetails, OutputItem, ResponsesResponse, ResponsesUsage,
};
use cc_proxy::util::fix_json::parse_lenient;
use cc_proxy::util::tool_name::{build_map, ToolNameMap};

fn json(text: &str) -> Json {
    parse_lenient(text).unwrap()
}

fn empty_map() -> ToolNameMap {
    ToolNameMap::new()
}

fn make_response(output: Vec<OutputItem>, stop_reason: Option<&str>) -> ResponsesResponse {
    ResponsesResponse {
        id: "resp_test123".into(),
        model: "opus-4-5-20251101".into(),
        output,
        usage: ResponsesUsage {
            input_tokens: 100,
            output_tokens: 50,
            input_tokens_details: InputTokensDetails { cached_tokens: 0 },
        },
        stop_reason: stop_reason.map(str::to_string),
    }
}

fn text_item(text: &str) -> OutputItem {
    OutputItem::Message {
        content: vec![ContentPart::OutputText { text: text.into() }],
    }
}

#[test]
fn test_pure_text_response() {
    let resp = make_response(vec![text_item("Hello world")], Some("end_turn"));

    let result = responses_to_claude(&resp, "opus-4-5-20251101", 80, &empty_map());

    assert_eq!(result.id, "resp_test123");
    assert_eq!(result.response_type, "message");
    assert_eq!(result.role, "assistant");
    assert_eq!(result.model, "opus-4-5-20251101");
    assert_eq!(result.stop_reason.as_deref(), Some("end_turn"));
    assert_eq!(result.content.len(), 1);
    match &result.content[0] {
        ResponseContentBlock::Text { text } => assert_eq!(text, "Hello world"),
        _ => panic!("expected text block"),
    }
}

#[test]
fn test_reasoning_plus_text() {
    let resp = make_response(
        vec![
            OutputItem::Reasoning {
                summary: vec![json(r#"{"text": "Let me think..."}"#)],
                content: None,
            },
            text_item("The answer is 42."),
        ],
        Some("end_turn"),
    );

    let result = responses_to_claude(&resp, "opus-4-5-20251101", 80, &empty_map());

    assert_eq!(result.content.len(), 1);
    match &result.content[0] {
        ResponseContentBlock::Text { text } => assert_eq!(text, "The answer is 42."),
        _ => panic!("expected text block"),
    }
    assert_eq!(result.stop_reason.as_deref(), Some("end_turn"));
}

#[test]
fn test_single_tool_use() {
    let resp = make_response(
        vec![OutputItem::FunctionCall {
            call_id: "call_abc123".into(),
            name: "get_weather".into(),
            arguments: r#"{"location":"Tokyo"}"#.into(),
        }],
        Some("end_turn"),
    );

    let result = responses_to_claude(&resp, "opus-4-5-20251101", 80, &empty_map());

    assert_eq!(result.stop_reason.as_deref(), Some("tool_use"));
    assert_eq!(result.content.len(), 1);
    match &result.content[0] {
        ResponseContentBlock::ToolUse { id, name, input } => {
            assert_eq!(id, "call_abc123");
            assert_eq!(name, "get_weather");
            assert_eq!(input.str_at("location"), Some("Tokyo"));
        }
        _ => panic!("expected tool_use block"),
    }
}

#[test]
fn test_multiple_tool_uses() {
    let resp = make_response(
        vec![
            OutputItem::FunctionCall {
                call_id: "call_1".into(),
                name: "search".into(),
                arguments: r#"{"q":"rust"}"#.into(),
            },
            OutputItem::FunctionCall {
                call_id: "call_2".into(),
                name: "fetch".into(),
                arguments: r#"{"url":"https://example.com"}"#.into(),
            },
        ],
        None,
    );

    let result = responses_to_claude(&resp, "opus-4-5-20251101", 80, &empty_map());

    assert_eq!(result.stop_reason.as_deref(), Some("tool_use"));
    assert_eq!(result.content.len(), 2);
    let names: Vec<_> = result
        .content
        .iter()
        .filter_map(|b| match b {
            ResponseContentBlock::ToolUse { name, .. } => Some(name.as_str()),
            _ => None,
        })
        .collect();
    assert_eq!(names, vec!["search", "fetch"]);
}

#[test]
fn test_mixed_text_and_tool_use() {
    let resp = make_response(
        vec![
            text_item("Let me check that for you."),
            OutputItem::FunctionCall {
                call_id: "call_xyz".into(),
                name: "lookup".into(),
                arguments: r#"{"key":"val"}"#.into(),
            },
        ],
        Some("end_turn"),
    );

    let result = responses_to_claude(&resp, "opus-4-5-20251101", 80, &empty_map());

    assert_eq!(result.stop_reason.as_deref(), Some("tool_use"));
    assert_eq!(result.content.len(), 2);
    assert!(matches!(
        &result.content[0],
        ResponseContentBlock::Text { .. }
    ));
    assert!(matches!(
        &result.content[1],
        ResponseContentBlock::ToolUse { .. }
    ));
}

#[test]
fn test_usage_with_cache() {
    let mut resp = make_response(vec![text_item("hi")], Some("end_turn"));
    resp.usage = ResponsesUsage {
        input_tokens: 150,
        output_tokens: 60,
        input_tokens_details: InputTokensDetails { cached_tokens: 30 },
    };

    let result = responses_to_claude(&resp, "test-model", 200, &empty_map());
    assert_eq!(result.usage.input_tokens, 120);
    assert_eq!(result.usage.output_tokens, 60);
    assert_eq!(result.usage.cache_read_input_tokens, Some(30));
}

#[test]
fn test_usage_without_cache() {
    let mut resp = make_response(vec![text_item("hi")], Some("end_turn"));
    resp.usage = ResponsesUsage {
        input_tokens: 50,
        output_tokens: 25,
        input_tokens_details: InputTokensDetails { cached_tokens: 0 },
    };

    let result = responses_to_claude(&resp, "test-model", 10, &empty_map());
    assert_eq!(result.usage.input_tokens, 10);
    assert_eq!(result.usage.output_tokens, 25);
    assert!(result.usage.cache_read_input_tokens.is_none());
}

#[test]
fn test_empty_output_fallback() {
    let resp = make_response(vec![], Some("end_turn"));

    let result = responses_to_claude(&resp, "test-model", 0, &empty_map());

    assert_eq!(result.content.len(), 1);
    match &result.content[0] {
        ResponseContentBlock::Text { text } => assert_eq!(text, ""),
        _ => panic!("expected empty text fallback"),
    }
    assert_eq!(result.stop_reason.as_deref(), Some("end_turn"));
}

#[test]
fn test_stop_reason_forced_to_tool_use() {
    let resp = make_response(
        vec![OutputItem::FunctionCall {
            call_id: "call_force".into(),
            name: "do_thing".into(),
            arguments: "{}".into(),
        }],
        Some("end_turn"),
    );

    let result = responses_to_claude(&resp, "test-model", 0, &empty_map());
    assert_eq!(result.stop_reason.as_deref(), Some("tool_use"));
}

#[test]
fn test_stop_reason_max_tokens() {
    let resp = make_response(vec![text_item("truncated")], Some("max_tokens"));

    let result = responses_to_claude(&resp, "test-model", 0, &empty_map());
    assert_eq!(result.stop_reason.as_deref(), Some("max_tokens"));
}

#[test]
fn test_malformed_tool_arguments_falls_back() {
    let resp = make_response(
        vec![OutputItem::FunctionCall {
            call_id: "call_bad".into(),
            name: "bad_tool".into(),
            arguments: "not valid json {{{".into(),
        }],
        None,
    );

    let result = responses_to_claude(&resp, "test-model", 0, &empty_map());
    match &result.content[0] {
        ResponseContentBlock::ToolUse { input, .. } => {
            assert_eq!(input.str_at("raw_arguments"), Some("not valid json {{{"));
        }
        _ => panic!("expected tool_use block"),
    }
}

#[test]
fn test_tool_name_restoration() {
    let tools = vec![Tool {
        name: "GetWeather".into(),
        description: None,
        input_schema: json("{}"),
    }];
    let map = build_map(Some(&tools));

    let resp = make_response(
        vec![OutputItem::FunctionCall {
            call_id: "call_restore".into(),
            name: "getweather".into(),
            arguments: "{}".into(),
        }],
        None,
    );

    let result = responses_to_claude(&resp, "test-model", 0, &map);
    match &result.content[0] {
        ResponseContentBlock::ToolUse { name, .. } => {
            assert_eq!(name, "GetWeather");
        }
        _ => panic!("expected tool_use block"),
    }
}

#[test]
fn call_without_id_gets_one() {
    let resp = make_response(
        vec![OutputItem::FunctionCall {
            call_id: "".into(),
            name: "f".into(),
            arguments: "{}".into(),
        }],
        None,
    );
    let result = responses_to_claude(&resp, "m", 0, &empty_map());
    match &result.content[0] {
        ResponseContentBlock::ToolUse { id, .. } => {
            assert!(id.starts_with("toolu_"));
            assert_eq!(id.len(), 38);
        }
        _ => panic!("expected tool_use block"),
    }
}

#[test]
fn only_output_text_becomes_blocks() {
    let resp = make_response(
        vec![OutputItem::Message {
            content: vec![
                ContentPart::InputText { text: "in".into() },
                ContentPart::OutputText { text: "".into() },
                ContentPart::OutputText { text: "a".into() },
                ContentPart::OutputText { text: "b".into() },
            ],
        }],
        Some("other"),
    );
    let result = responses_to_claude(&resp, "m", 0, &empty_map());
    assert_eq!(result.content.len(), 2);
    assert_eq!(result.stop_reason.as_deref(), Some("end_turn"));
    assert_eq!(result.usage.input_tokens, 100);
}

#[test]
fn thinking_text_prefers_the_summary() {
    let summary = vec![json(r#"{"text": "a"}"#), json(r#""b""#), json("3")];
    assert_eq!(extract_thinking_text(&summary, &Some("c".into())), "ab");
    assert_eq!(extract_thinking_text(&vec![], &Some("c".into())), "c");
    assert_eq!(extract_thinking_text(&vec![json("{}")], &None), "");
}

#[test]
fn stop_reasons_in_order() {
    assert_eq!(derive_stop_reason(true, &Some("max_tokens".into())), "tool_use");
    assert_eq!(derive_stop_reason(false, &Some("max_tokens".into())), "max_tokens");
    assert_eq!(derive_stop_reason(false, &None), "end_turn");
}
