use cc_proxy::convert::frames::{generate_message_id, message_id_from, serialization_error_text, Frame};
use cc_proxy::convert::responses::stream::{synth_message_start, ConverterState, Phase};
use cc_proxy::convert::stream::{StreamError, StreamInput};
use cc_proxy::types::responses::{
    InputTokensDetails, OutputItemAddedPayload, ResponseCompletedPayload, ResponseCreatedPayload,
    ResponsesStreamEvent, ResponsesUsage,
};
use cc_proxy::util::tool_name::ToolNameMap;

type Event = ResponsesStreamEvent;

fn frames(inputs: Vec<StreamInput<Event>>) -> Vec<Frame> {
    let mut state = ConverterState::new(0, ToolNameMap::new());
    let mut out = vec![synth_message_start("test-model")];
    for input in &inputs {
        out.extend(state.step(input));
    }
    out.extend(state.step(&StreamInput::Ended));
    assert_eq!(state.phase, Phase::Done);
    out
}

fn collect(events: Vec<Result<Event, StreamError>>) -> Vec<String> {
    let inputs = events
        .into_iter()
        .map(|e| match e {
            Ok(event) => StreamInput::Event(event),
            Err(error) => StreamInput::Failed(error),
        })
        .collect();
    frames(inputs)
        .iter()
        .map(|f| format!("{} {}", f.name(), f.data()))
        .collect()
}

fn created_event() -> Event {
    Event::Created {
        response: ResponseCreatedPayload {
            id: "resp_test001".into(),
            model: "opus-4-5-20251101".into(),
        },
    }
}

fn completed_event(stop: &str) -> Event {
    Event::Completed {
        response: ResponseCompletedPayload {
            id: "resp_test001".into(),
            model: "opus-4-5-20251101".into(),
            stop_reason: Some(stop.into()),
            usage: Some(ResponsesUsage {
                input_tokens: 100,
                output_tokens: 50,
                input_tokens_details: InputTokensDetails { cached_tokens: 0 },
            }),
            output: vec![],
        },
    }
}

fn call_event(id: &str, name: &str) -> Event {
    Event::OutputItemAdded {
        item: OutputItemAddedPayload {
            item_type: "function_call".into(),
            call_id: Some(id.into()),
            name: Some(name.into()),
        },
    }
}

fn has_pattern(events: &[String], pat: &str) -> bool {
    events.iter().any(|s| s.contains(pat))
}

#[test]
fn test_simple_text_stream() {
    let events = vec![
        Ok(created_event()),
        Ok(Event::ContentPartAdded {}),
        Ok(Event::OutputTextDelta {
            delta: "Hello ".into(),
        }),
        Ok(Event::OutputTextDelta {
            delta: "world".into(),
        }),
        Ok(Event::ContentPartDone {}),
        Ok(completed_event("end_turn")),
    ];

    let result = collect(events);

    assert_eq!(
        result.len(),
        7,
        "expected 7 events, got {}: {:?}",
        result.len(),
        result
    );

    assert!(has_pattern(&result, "message_start"));
    assert!(has_pattern(&result, "content_block_start"));
    assert!(has_pattern(&result, "text_delta"));
    assert!(has_pattern(&result, "content_block_stop"));
    assert!(has_pattern(&result, "message_delta"));
    assert!(has_pattern(&result, "message_stop"));
}

#[test]
fn test_reasoning_then_text_stream() {
    let events = vec![
        Ok(created_event()),
        Ok(Event::ReasoningSummaryPartAdded {}),
        Ok(Event::ReasoningSummaryTextDelta {
            delta: "Let me think".into(),
        }),
        Ok(Event::ReasoningSummaryPartDone {}),
        Ok(Event::ContentPartAdded {}),
        Ok(Event::OutputTextDelta {
            delta: "Answer".into(),
        }),
        Ok(Event::ContentPartDone {}),
        Ok(completed_event("end_turn")),
    ];

    let result = collect(events);

    assert_eq!(result.len(), 9, "got {}: {:?}", result.len(), result);

    assert!(
        has_pattern(&result, "thinking_delta"),
        "should have thinking_delta"
    );
    assert!(has_pattern(&result, "text_delta"), "should have text_delta");
    assert!(
        result
            .iter()
            .filter(|s| s.contains("content_block_stop"))
            .count()
            >= 2,
        "should have at least 2 content_block_stop"
    );
}

#[test]
fn test_single_tool_call_stream() {
    let events = vec![
        Ok(created_event()),
        Ok(call_event("call_abc", "get_weather")),
        Ok(Event::FunctionCallArgumentsDelta {
            delta: r#"{"loc"#.into(),
        }),
        Ok(Event::FunctionCallArgumentsDelta {
            delta: r#"ation":"NYC"}"#.into(),
        }),
        Ok(Event::FunctionCallArgumentsDone {
            arguments: String::new(),
        }),
        Ok(Event::OutputItemDone {}),
        Ok(completed_event("end_turn")),
    ];

    let result = collect(events);

    assert_eq!(result.len(), 7, "got {}: {:?}", result.len(), result);

    assert!(
        has_pattern(&result, "tool_use"),
        "should have tool_use block_start"
    );
    assert!(
        has_pattern(&result, "input_json_delta"),
        "should have input_json_delta"
    );
    assert!(
        has_pattern(&result, "message_stop"),
        "should have message_stop"
    );
    assert!(
        has_pattern(&result, "tool_use"),
        "stop_reason should be tool_use"
    );
}

#[test]
fn test_multiple_tool_calls_stream() {
    let events = vec![
        Ok(created_event()),
        Ok(call_event("call_1", "search")),
        Ok(Event::FunctionCallArgumentsDone {
            arguments: r#"{"q":"rust"}"#.into(),
        }),
        Ok(Event::OutputItemDone {}),
        Ok(call_event("call_2", "fetch")),
        Ok(Event::FunctionCallArgumentsDone {
            arguments: r#"{"url":"https://example.com"}"#.into(),
        }),
        Ok(Event::OutputItemDone {}),
        Ok(completed_event("end_turn")),
    ];

    let result = collect(events);

    assert_eq!(result.len(), 11, "got {}: {:?}", result.len(), result);
    assert!(has_pattern(&result, "tool_use"));
}

#[test]
fn test_tool_call_arguments_accumulated_and_fixed() {
    let events = vec![
        Ok(created_event()),
        Ok(call_event("call_fixme", "do_thing")),
        Ok(Event::FunctionCallArgumentsDelta {
            delta: "{'key':".into(),
        }),
        Ok(Event::FunctionCallArgumentsDelta {
            delta: " 'value'}".into(),
        }),
        Ok(Event::FunctionCallArgumentsDone {
            arguments: String::new(),
        }),
        Ok(Event::OutputItemDone {}),
        Ok(completed_event("end_turn")),
    ];

    let result = collect(events);

    let args_event = result
        .iter()
        .find(|s| s.contains("input_json_delta") && s.contains("key"))
        .expect("should find an input_json_delta with 'key'");

    assert!(
        args_event.contains(r#"{\"key\": \"value\"}"#),
        "arguments should be repaired: {args_event}"
    );
}

#[test]
fn test_upstream_error_still_emits_epilogue() {
    let events = vec![
        Ok(created_event()),
        Ok(Event::ContentPartAdded {}),
        Ok(Event::OutputTextDelta { delta: "Hi".into() }),
        Err(StreamError::Connection("connection reset".into())),
    ];

    let result = collect(events);

    assert!(
        has_pattern(&result, "message_stop"),
        "epilogue message_stop must be emitted after error; got: {:?}",
        result
    );
    assert!(
        has_pattern(&result, "error"),
        "error event should be present"
    );
    assert!(has_pattern(
        &result,
        "Streaming error: connection error: connection reset"
    ));
}

#[test]
fn test_message_id_format() {
    let id = generate_message_id();
    assert!(id.starts_with("msg_"), "ID must start with msg_");
    assert_eq!(id.len(), 28, "ID must be 28 chars, got {}", id.len());
    assert!(
        id[4..].chars().all(|c| c.is_ascii_hexdigit()),
        "suffix must be hex"
    );
}

#[test]
fn test_stop_reason_forced_tool_use_when_toolcall_present() {
    let events = vec![
        Ok(created_event()),
        Ok(call_event("call_forced", "my_tool")),
        Ok(Event::FunctionCallArgumentsDone {
            arguments: "{}".into(),
        }),
        Ok(Event::OutputItemDone {}),
        Ok(completed_event("end_turn")),
    ];

    let result = collect(events);

    let message_delta = result
        .iter()
        .find(|s| s.contains("message_delta"))
        .expect("message_delta must be present");
    assert!(
        message_delta.contains("tool_use"),
        "stop_reason should be forced to tool_use; got: {message_delta}"
    );
}

#[test]
fn message_id_takes_the_first_digits() {
    assert_eq!(
        message_id_from("0123456789abcdef0123456789abcdef"),
        "msg_0123456789abcdef01234567"
    );
}

#[test]
fn frames_have_their_exact_data() {
    let frame = Frame::ToolStart {
        index: 2,
        id: "a".into(),
        name: "b".into(),
    };
    assert_eq!(frame.name(), "content_block_start");
    assert_eq!(
        frame.data(),
        r#"{"content_block":{"id":"a","input":{},"name":"b","type":"tool_use"},"index":2,"type":"content_block_start"}"#
    );
    let start = Frame::MessageStart {
        id: "msg_1".into(),
        model: "m".into(),
    };
    assert_eq!(
        start.data(),
        r#"{"message":{"content":[],"id":"msg_1","model":"m","role":"assistant","stop_reason":null,"stop_sequence":null,"type":"message","usage":{"input_tokens":0,"output_tokens":0}},"type":"message_start"}"#
    );
    assert_eq!(start.data_or_empty(), start.data());
    assert_eq!(Frame::MessageStop.data(), r#"{"type":"message_stop"}"#);
    assert_eq!(
        Frame::BlockStop { index: 3 }.data(),
        r#"{"index":3,"type":"content_block_stop"}"#
    );
}

#[test]
fn unwritable_frame_becomes_an_error() {
    let value: serde_json::Value = serde_json::from_str(&serialization_error_text("oops")).unwrap();
    assert_eq!(value["error"]["type"], "serialization_error");
    assert_eq!(value["error"]["message"], "oops");
}

#[test]
fn silence_and_a_missing_end_are_ended_too() {
    let out = frames(vec![StreamInput::TimedOut { seconds: 300 }]);
    assert_eq!(out.len(), 4);
    match &out[1] {
        Frame::Error { message } => assert_eq!(message, "stream idle timeout (300s)"),
        _ => panic!("expected Error"),
    }
    let out = frames(vec![]);
    assert_eq!(out.len(), 3);
    assert!(matches!(out[2], Frame::MessageStop));
}

#[test]
fn usage_and_limit_come_from_the_completion() {
    let mut state = ConverterState::new(40, ToolNameMap::new());
    let out = state.step(&StreamInput::Event(Event::Completed {
        response: ResponseCompletedPayload {
            id: "r".into(),
            model: "m".into(),
            stop_reason: Some("max_tokens".into()),
            usage: Some(ResponsesUsage {
                input_tokens: 100,
                output_tokens: 7,
                input_tokens_details: InputTokensDetails { cached_tokens: 70 },
            }),
            output: vec![],
        },
    }));
    assert_eq!(
        out[0].data(),
        r#"{"delta":{"stop_reason":"max_tokens","stop_sequence":null},"type":"message_delta","usage":{"cache_read_input_tokens":70,"input_tokens":30,"output_tokens":7}}"#
    );
    assert!(state.step(&StreamInput::Ended).is_empty());
}

#[test]
fn blocks_are_counted() {
    let out = frames(vec![
        StreamInput::Event(Event::ContentPartAdded {}),
        StreamInput::Event(Event::ContentPartDone {}),
        StreamInput::Event(call_event("", "")),
        StreamInput::Event(Event::OutputItemDone {}),
    ]);
    match (&out[2], &out[3]) {
        (Frame::BlockStop { index: 0 }, Frame::ToolStart { index: 1, id, .. }) => {
            assert!(id.starts_with("toolu_"));
        }
        other => panic!("unexpected {other:?}"),
    }
}
