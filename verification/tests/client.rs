use cc_proxy::client::aggregate::{failure_message, streamed, Aggregation, Taken};
use cc_proxy::client::sse::{
    read_chat_item, read_item, read_line, ByteInput, Reading, SseItem, SseReader, MAX_SSE_BUFFER,
};
use cc_proxy::convert::stream::{OpenAiSseEvent, StreamError, StreamInput};
use cc_proxy::types::openai::ChatCompletionChunk;
use cc_proxy::types::responses::{
    ContentPart, InputTokensDetails, OutputItem, OutputItemAddedPayload, ResponseCompletedPayload,
    ResponseCreatedPayload, ResponsesRequest, ResponsesResponse, ResponsesStreamEvent, ResponsesUsage,
};
use cc_proxy::upstream::mode::UpstreamApiMode;

type Event = ResponsesStreamEvent;

fn data(items: &[SseItem]) -> Vec<String> {
    items
        .iter()
        .map(|item| match item {
            SseItem::Data(data) => data.clone(),
            SseItem::Done => "<done>".to_string(),
            SseItem::Failed(error) => format!("<{}>", error.message()),
        })
        .collect()
}

fn feed(reader: &mut SseReader, bytes: &[u8]) -> Vec<String> {
    data(&reader.step(&ByteInput::Bytes(bytes.to_vec())))
}

#[test]
fn lines_are_read_across_chunks() {
    let text = "event: x\r\ndata: {\"é\"}  \r\n\r\ndata:none\ndata: [DONE]\ndata: late\n";
    let whole = feed(&mut SseReader::new(UpstreamApiMode::ChatCompletions), text.as_bytes());
    assert_eq!(whole, vec!["{\"é\"}", "<done>"]);
    for cut in 0..text.len() {
        let mut reader = SseReader::new(UpstreamApiMode::ChatCompletions);
        let mut got = feed(&mut reader, &text.as_bytes()[..cut]);
        got.extend(feed(&mut reader, &text.as_bytes()[cut..]));
        assert_eq!(got, whole, "cut at {cut}");
    }
}

#[test]
fn the_mark_of_the_end_is_silent_for_responses() {
    let mut reader = SseReader::new(UpstreamApiMode::Responses);
    assert_eq!(feed(&mut reader, b"data: a\ndata: [DONE]\ndata: b\n"), vec!["a"]);
    assert!(reader.finished);
    assert!(feed(&mut reader, b"data: c\n").is_empty());
}

#[test]
fn broken_bytes_are_replaced() {
    let mut reader = SseReader::new(UpstreamApiMode::Responses);
    assert_eq!(feed(&mut reader, b"data: a\xffb\n"), vec!["a\u{fffd}b"]);
}

#[test]
fn too_many_bytes_end_the_stream() {
    let mut reader = SseReader::new(UpstreamApiMode::ChatCompletions);
    assert!(feed(&mut reader, &vec![b'a'; MAX_SSE_BUFFER]).is_empty());
    assert_eq!(feed(&mut reader, b"a"), vec!["<connection error: SSE buffer overflow>"]);
    assert!(reader.finished);
    let mut reader = SseReader::new(UpstreamApiMode::Responses);
    assert_eq!(
        feed(&mut reader, &vec![b'a'; MAX_SSE_BUFFER + 1]),
        vec!["<connection error: Responses SSE buffer overflow>"]
    );
}

#[test]
fn timeouts_and_failures_end_the_stream() {
    let mut reader = SseReader::new(UpstreamApiMode::ChatCompletions);
    assert_eq!(reader.wait_limit(7, 9), Some(7));
    feed(&mut reader, b"data: x\n");
    assert_eq!(reader.wait_limit(7, 9), Some(9));
    assert_eq!(reader.wait_limit(7, 0), None);
    assert_eq!(
        data(&reader.step(&ByteInput::TimedOut { seconds: 9 })),
        vec!["<connection error: stream idle timeout (9s)>"]
    );
    let mut reader = SseReader::new(UpstreamApiMode::Responses);
    assert_eq!(
        data(&reader.step(&ByteInput::TimedOut { seconds: 7 })),
        vec!["<connection error: responses stream first-byte timeout (7s)>"]
    );
    let mut reader = SseReader::new(UpstreamApiMode::Responses);
    assert_eq!(
        data(&reader.step(&ByteInput::Failed("reset".into()))),
        vec!["<connection error: reset>"]
    );
    let mut reader = SseReader::new(UpstreamApiMode::Responses);
    assert!(reader.step(&ByteInput::Ended).is_empty());
    assert!(reader.finished);
}

#[test]
fn lines_without_data_bring_nothing() {
    assert!(read_line("").is_none());
    assert!(read_line("data:x").is_none());
    assert!(matches!(read_line("data: "), Some(SseItem::Data(d)) if d.is_empty()));
    assert!(matches!(read_line("data:  [DONE] "), Some(SseItem::Done)));
}

fn completed(output: Vec<OutputItem>, usage: Option<ResponsesUsage>) -> Event {
    Event::Completed {
        response: ResponseCompletedPayload {
            id: "late".into(),
            model: "late".into(),
            stop_reason: Some("max_tokens".into()),
            usage,
            output,
        },
    }
}

fn put_together(events: Vec<Event>) -> ResponsesResponse {
    let mut aggregation = Aggregation::new();
    for event in events {
        aggregation = aggregation.take(event);
    }
    aggregation.finish()
}

fn added(kind: &str, id: Option<&str>, name: Option<&str>) -> Event {
    Event::OutputItemAdded {
        item: OutputItemAddedPayload {
            item_type: kind.into(),
            call_id: id.map(str::to_string),
            name: name.map(str::to_string),
        },
    }
}

fn text(delta: &str) -> Event {
    Event::OutputTextDelta {
        delta: delta.into(),
    }
}

#[test]
fn events_become_one_answer() {
    let usage = ResponsesUsage {
        input_tokens: 3,
        output_tokens: 4,
        input_tokens_details: InputTokensDetails { cached_tokens: 1 },
    };
    let answer = put_together(vec![
        Event::Created {
            response: ResponseCreatedPayload {
                id: "id".into(),
                model: "model".into(),
            },
        },
        added("message", None, None),
        text("a"),
        text("b"),
        added("function_call", Some("c1"), Some("f")),
        Event::FunctionCallArgumentsDelta { delta: "{".into() },
        Event::FunctionCallArgumentsDelta { delta: "}".into() },
        Event::FunctionCallArgumentsDone {
            arguments: "ignored".into(),
        },
        Event::OutputItemDone {},
        Event::OutputItemDone {},
        added("function_call", None, None),
        Event::FunctionCallArgumentsDone {
            arguments: "[]".into(),
        },
        Event::OutputItemDone {},
        text("tail"),
        completed(vec![], Some(usage)),
        text("late"),
    ]);
    assert_eq!(answer.id, "id");
    assert_eq!(answer.model, "model");
    assert_eq!(answer.usage, usage);
    assert_eq!(answer.stop_reason.as_deref(), Some("max_tokens"));
    assert_eq!(answer.output.len(), 4);
    match &answer.output[0] {
        OutputItem::Message { content } => match &content[0] {
            ContentPart::OutputText { text } => assert_eq!(text, "ab"),
            _ => panic!("expected OutputText"),
        },
        _ => panic!("expected Message"),
    }
    match (&answer.output[1], &answer.output[2]) {
        (
            OutputItem::FunctionCall {
                call_id,
                name,
                arguments,
            },
            OutputItem::FunctionCall {
                call_id: second,
                arguments: whole,
                ..
            },
        ) => {
            assert_eq!((call_id.as_str(), name.as_str(), arguments.as_str()), ("c1", "f", "{}"));
            assert_eq!((second.as_str(), whole.as_str()), ("", "[]"));
        }
        _ => panic!("expected two calls"),
    }
}

#[test]
fn output_of_the_completion_counts() {
    let answer = put_together(vec![
        text("partial"),
        completed(
            vec![OutputItem::Message {
                content: vec![ContentPart::OutputText {
                    text: "whole".into(),
                }],
            }],
            None,
        ),
    ]);
    assert_eq!(answer.id, "late");
    assert_eq!(answer.output.len(), 1);
    match &answer.output[0] {
        OutputItem::Message { content } => match &content[0] {
            ContentPart::OutputText { text } => assert_eq!(text, "whole"),
            _ => panic!("expected OutputText"),
        },
        _ => panic!("expected Message"),
    }
}

#[test]
fn stream_without_completion_is_an_answer_too() {
    let answer = put_together(vec![text("a")]);
    assert_eq!(answer.output.len(), 1);
    assert_eq!(answer.usage, ResponsesUsage::default());
    assert_eq!(answer.stop_reason, None);
    assert!(put_together(vec![]).output.is_empty());
}

#[test]
fn failures_are_told() {
    assert_eq!(
        failure_message(&StreamError::Connection("x".into())),
        "stream error: connection error: x"
    );
}

fn more(taken: Taken) -> Aggregation {
    match taken {
        Taken::More(next) => next,
        _ => panic!("expected More"),
    }
}

#[test]
fn completion_stops_the_reading() {
    let answer = more(Aggregation::new().step(StreamInput::Event(text("a"))));
    match answer.step(StreamInput::Event(completed(vec![], None))) {
        Taken::Finished(response) => {
            assert_eq!(response.output.len(), 1);
            assert_eq!(response.stop_reason.as_deref(), Some("max_tokens"));
            assert_eq!(response.usage, ResponsesUsage::default());
        }
        _ => panic!("expected Finished"),
    }
}

#[test]
fn end_of_the_stream_finishes_the_answer() {
    let answer = more(Aggregation::new().step(StreamInput::Event(text("a"))));
    match answer.step(StreamInput::Ended) {
        Taken::Finished(response) => assert_eq!(response.output.len(), 1),
        _ => panic!("expected Finished"),
    }
}

#[test]
fn failure_leaves_no_partial_answer() {
    let answer = more(Aggregation::new().step(StreamInput::Event(text("a"))));
    match answer.step(StreamInput::Failed(StreamError::Connection("x".into()))) {
        Taken::Broken(message) => assert_eq!(message, "stream error: connection error: x"),
        _ => panic!("expected Broken"),
    }
    match Aggregation::new().step(StreamInput::TimedOut { seconds: 4 }) {
        Taken::Broken(message) => assert_eq!(message, "stream error: stream idle timeout (4s)"),
        _ => panic!("expected Broken"),
    }
}

#[test]
fn stream_is_always_asked_for() {
    let request = streamed(ResponsesRequest {
        model: "m".into(),
        instructions: None,
        input: vec![],
        tools: None,
        reasoning: None,
        parallel_tool_calls: true,
        store: false,
        included: vec!["x".into()],
        stream: false,
        max_output_tokens: Some(3),
    });
    assert!(request.stream);
    assert_eq!(request.model, "m");
    assert_eq!(request.included, vec!["x".to_string()]);
    assert_eq!(request.max_output_tokens, Some(3));
}

#[test]
fn items_are_handed_on_or_stop_the_reading() {
    let item = || SseItem::Data("{}".into());
    assert!(matches!(read_item(item(), Some(text("a"))), Reading::HandOn(_)));
    assert!(matches!(
        read_item(item(), Some(completed(vec![], None))),
        Reading::Last(Event::Completed { .. })
    ));
    assert!(matches!(read_item(item(), None), Reading::Skip));
    assert!(matches!(read_item(SseItem::Done, None), Reading::Stop));
    assert!(matches!(
        read_item(SseItem::Failed(StreamError::Connection("x".into())), None),
        Reading::Broken(StreamError::Connection(cause)) if cause == "x"
    ));
    let chunk = ChatCompletionChunk {
        id: "c".into(),
        choices: vec![],
        usage: None,
    };
    assert!(matches!(
        read_chat_item(item(), Some(chunk)),
        Reading::HandOn(OpenAiSseEvent::Chunk(_))
    ));
    assert!(matches!(read_chat_item(item(), None), Reading::Skip));
    assert!(matches!(read_chat_item(SseItem::Done, None), Reading::Last(OpenAiSseEvent::Done)));
    assert!(matches!(
        read_chat_item(SseItem::Failed(StreamError::Connection("x".into())), None),
        Reading::Broken(_)
    ));
}

#[test]
fn bytes_are_read_one_by_one() {
    let text = "data: a\n\ndata: b\r\ndata: [DONE]\ndata: late\n";
    for api in [UpstreamApiMode::ChatCompletions, UpstreamApiMode::Responses] {
        let whole = feed(&mut SseReader::new(api), text.as_bytes());
        let mut reader = SseReader::new(api);
        let mut got = Vec::new();
        for byte in text.as_bytes() {
            got.extend(feed(&mut reader, &[*byte]));
        }
        assert_eq!(got, whole);
        assert!(reader.finished);
    }
}
