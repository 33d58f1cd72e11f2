use cc_proxy::convert::frames::Frame;
use cc_proxy::convert::stream::{OpenAiSseEvent, Phase, State, StreamError, StreamInput};
use cc_proxy::types::openai::{
    ChatCompletionChunk, ChunkChoice, ChunkDelta, ChunkFunction, ChunkToolCall,
    PromptTokensDetails, ResponseUsage,
};
use cc_proxy::util::tool_name::ToolNameMap;

type Input = StreamInput<OpenAiSseEvent>;

fn chunk(
    content: Option<&str>,
    tool_calls: Option<Vec<ChunkToolCall>>,
    finish: Option<&str>,
) -> Input {
    StreamInput::Event(OpenAiSseEvent::Chunk(ChatCompletionChunk {
        id: "c".into(),
        choices: vec![ChunkChoice {
            delta: ChunkDelta {
                content: content.map(str::to_string),
                tool_calls,
            },
            finish_reason: finish.map(str::to_string),
        }],
        usage: None,
    }))
}

fn usage_chunk(prompt: u32, completion: u32, cached: Option<u32>) -> Input {
    StreamInput::Event(OpenAiSseEvent::Chunk(ChatCompletionChunk {
        id: "c".into(),
        choices: vec![],
        usage: Some(ResponseUsage {
            prompt_tokens: prompt,
            completion_tokens: completion,
            prompt_tokens_details: Some(PromptTokensDetails {
                cached_tokens: cached,
            }),
        }),
    }))
}

fn piece(index: usize, id: Option<&str>, name: Option<&str>, args: Option<&str>) -> ChunkToolCall {
    ChunkToolCall {
        index,
        id: id.map(str::to_string),
        function: Some(ChunkFunction {
            name: name.map(str::to_string),
            arguments: args.map(str::to_string),
        }),
    }
}

fn run(inputs: Vec<Input>) -> Vec<Frame> {
    let mut state = State::new("m", 0, ToolNameMap::new());
    let mut out = Vec::new();
    for input in &inputs {
        assert!(state.has_room(input));
        out.extend(state.step(input));
    }
    assert_eq!(state.phase, Phase::Done);
    out
}

fn done() -> Input {
    StreamInput::Event(OpenAiSseEvent::Done)
}

fn last_delta(frames: &[Frame]) -> String {
    frames[frames.len() - 2].data_or_empty()
}

#[test]
fn text_goes_out_at_once() {
    let out = run(vec![
        chunk(Some(""), None, None),
        chunk(Some("Hello "), None, None),
        chunk(Some("world"), None, None),
        chunk(None, None, Some("stop")),
        usage_chunk(10, 4, None),
        done(),
    ]);
    let names: Vec<&str> = out.iter().map(|f| f.name()).collect();
    assert_eq!(
        names,
        vec![
            "message_start",
            "content_block_start",
            "content_block_delta",
            "content_block_delta",
            "content_block_stop",
            "message_delta",
            "message_stop"
        ]
    );
    assert_eq!(
        last_delta(&out),
        r#"{"delta":{"stop_reason":"end_turn","stop_sequence":null},"type":"message_delta","usage":{"input_tokens":10,"output_tokens":4}}"#
    );
}

#[test]
fn tool_calls_are_collected_and_go_out_repaired() {
    let out = run(vec![
        chunk(Some("let me"), None, None),
        chunk(None, Some(vec![piece(1, Some("call.b"), Some("g"), Some("{'k':"))]), None),
        chunk(
            None,
            Some(vec![
                piece(1, None, None, Some(" 'v'}")),
                piece(0, Some(""), Some("f"), None),
            ]),
            None,
        ),
        chunk(None, None, Some("tool_calls")),
        done(),
    ]);
    let indexes: Vec<usize> = out
        .iter()
        .filter_map(|f| match f {
            Frame::BlockStop { index } => Some(*index),
            _ => None,
        })
        .collect();
    assert_eq!(indexes, vec![0, 1, 2]);
    let tools: Vec<(&str, &str)> = out
        .iter()
        .filter_map(|f| match f {
            Frame::ToolStart { id, name, .. } => Some((id.as_str(), name.as_str())),
            _ => None,
        })
        .collect();
    assert_eq!(tools.len(), 2);
    assert!(tools[0].0.starts_with("toolu_"));
    assert_eq!(tools[0].1, "f");
    assert_eq!(tools[1], ("call_b", "g"));
    let inputs: Vec<&str> = out
        .iter()
        .filter_map(|f| match f {
            Frame::InputDelta { partial_json, .. } => Some(partial_json.as_str()),
            _ => None,
        })
        .collect();
    assert_eq!(inputs, vec!["", "", "", r#"{"k": "v"}"#]);
    assert!(last_delta(&out).contains(r#""stop_reason":"tool_use""#));
}

#[test]
fn tool_calls_go_out_at_the_end_too() {
    let out = run(vec![
        chunk(None, Some(vec![piece(2, Some("i"), Some("f"), Some("{}"))]), Some("stop")),
        StreamInput::Ended,
    ]);
    assert_eq!(out[0].name(), "message_start");
    assert!(matches!(out[1], Frame::ToolStart { index: 0, .. }));
    assert_eq!(out.len(), 7);
    assert!(last_delta(&out).contains("tool_use"));
}

#[test]
fn limit_is_reported() {
    let out = run(vec![chunk(Some("x"), None, Some("length")), done()]);
    assert!(last_delta(&out).contains("max_tokens"));
}

#[test]
fn cached_tokens_stay() {
    let out = run(vec![
        usage_chunk(100, 1, Some(60)),
        usage_chunk(110, 2, Some(0)),
        done(),
    ]);
    assert_eq!(out.len(), 2);
    assert!(last_delta(&out).contains(
        r#""usage":{"cache_read_input_tokens":60,"input_tokens":50,"output_tokens":2}"#
    ));
}

#[test]
fn failures_end_the_message() {
    let out = run(vec![
        chunk(Some("x"), None, None),
        StreamInput::Failed(StreamError::Connection("reset".into())),
        chunk(Some("y"), None, None),
    ]);
    assert_eq!(
        out[3].data_or_empty(),
        r#"{"error":{"message":"Streaming error: connection error: reset","type":"api_error"},"type":"error"}"#
    );
    assert_eq!(out.len(), 6);
    let out = run(vec![StreamInput::TimedOut { seconds: 30 }]);
    match &out[0] {
        Frame::Error { message } => assert_eq!(message, "stream first-byte timeout (30s)"),
        _ => panic!("expected Error"),
    }
    let out = run(vec![
        chunk(Some("x"), None, None),
        StreamInput::TimedOut { seconds: 5 },
    ]);
    match &out[3] {
        Frame::Error { message } => assert_eq!(message, "stream idle timeout (5s)"),
        _ => panic!("expected Error"),
    }
}

#[test]
fn numbers_that_cannot_be_counted_are_told() {
    let state = State::new("m", 0, ToolNameMap::new());
    assert!(!state.has_room(&chunk(None, Some(vec![piece(usize::MAX, None, None, None)]), None)));
    assert!(state.has_room(&done()));
}

#[test]
fn mixed_pieces_are_put_together_and_blocks_kept_apart() {
    let out = run(vec![
        chunk(Some("a"), None, None),
        chunk(
            None,
            Some(vec![
                piece(0, Some("x"), Some("f"), Some("{\"a\"")),
                piece(1, Some("y"), Some("g"), Some("[")),
                piece(0, None, None, Some(":1}")),
                piece(1, None, None, Some("]")),
            ]),
            None,
        ),
        done(),
    ]);
    let names: Vec<&str> = out.iter().map(|f| f.name()).collect();
    assert_eq!(
        names,
        vec![
            "message_start",
            "content_block_start",
            "content_block_delta",
            "content_block_stop",
            "content_block_start",
            "content_block_delta",
            "content_block_delta",
            "content_block_stop",
            "content_block_start",
            "content_block_delta",
            "content_block_delta",
            "content_block_stop",
            "message_delta",
            "message_stop"
        ]
    );
    let inputs: Vec<&str> = out
        .iter()
        .filter_map(|f| match f {
            Frame::InputDelta { partial_json, .. } => Some(partial_json.as_str()),
            _ => None,
        })
        .collect();
    assert_eq!(inputs, vec!["", "{\"a\":1}", "", "[]"]);
}

#[test]
fn ids_that_are_handed_in_are_used() {
    let mut state = State::new("m", 0, ToolNameMap::new());
    let ids = vec!["spare".to_string(), "unused".to_string()];
    let out = state.step_with(
        &chunk(
            None,
            Some(vec![
                piece(1, Some("own.id"), Some("g"), None),
                piece(0, None, Some("f"), None),
            ]),
            Some("tool_calls"),
        ),
        "msg_1",
        &ids,
    );
    assert!(matches!(&out[0], Frame::MessageStart { id, model } if id == "msg_1" && model == "m"));
    assert!(matches!(&out[1], Frame::ToolStart { index: 0, id, name } if id == "spare" && name == "f"));
    assert!(matches!(&out[5], Frame::ToolStart { index: 1, id, name } if id == "own_id" && name == "g"));
    assert_eq!(out.len(), 9);
    assert_eq!(state.phase, Phase::Streaming);
}
