//! A streamed answer of the Responses API as one complete answer.
//!
//! Upstreams of that API answer with a stream even where none is asked for.
//! So a request that is not to be streamed is streamed all the same, and what
//! comes is put together here.

use vstd::prelude::*;

use crate::convert::stream::{timeout_message, timeout_text, StreamError, StreamInput};
use crate::text::same;
use crate::types::responses::{
    ContentPart, ContentPartModel, InputTokensDetails, OutputItem, OutputItemModel,
    ResponseCompletedPayload, ResponsesRequest, ResponsesRequestModel, ResponsesResponse,
    ResponsesResponseModel, ResponsesStreamEvent, ResponsesUsage,
};

verus! {

/// An answer that is being put together.
#[derive(Debug)]
pub struct Aggregation {
    pub id: String,
    pub model: String,
    pub output: Vec<OutputItem>,
    /// Text that is not part of the output yet.
    pub current_text: String,
    /// The id and the name of the current function call.
    pub current_function: Option<(String, String)>,
    /// Its arguments so far.
    pub args_buffer: String,
    pub usage: Option<ResponsesUsage>,
    pub stop_reason: Option<String>,
    /// Whether the answer is complete.
    pub completed: bool,
}

/// The model of an [`Aggregation`].
pub struct AggregationModel {
    pub id: Seq<char>,
    pub model: Seq<char>,
    pub output: Seq<OutputItemModel>,
    pub text: Seq<char>,
    pub function: Option<(Seq<char>, Seq<char>)>,
    pub arguments: Seq<char>,
    pub usage: Option<ResponsesUsage>,
    pub stop_reason: Option<Seq<char>>,
    pub completed: bool,
}

impl View for Aggregation {
    type V = AggregationModel;

    open spec fn view(&self) -> AggregationModel {
        AggregationModel {
            id: self.id@,
            model: self.model@,
            output: self.output.deep_view(),
            text: self.current_text@,
            function: match self.current_function {
                Some((call_id, name)) => Some((call_id@, name@)),
                None => None,
            },
            arguments: self.args_buffer@,
            usage: self.usage,
            stop_reason: self.stop_reason.deep_view(),
            completed: self.completed,
        }
    }
}

/// Before the first event.
pub open spec fn nothing_yet() -> AggregationModel {
    AggregationModel {
        id: Seq::empty(),
        model: Seq::empty(),
        output: Seq::empty(),
        text: Seq::empty(),
        function: None,
        arguments: Seq::empty(),
        usage: None,
        stop_reason: None,
        completed: false,
    }
}

/// `a`, or `b` where `a` is empty.
pub open spec fn first_of(a: Seq<char>, b: Seq<char>) -> Seq<char> {
    if a.len() == 0 {
        b
    } else {
        a
    }
}

/// Text becomes a message of the output, if there is any.
pub open spec fn text_flushed(s: AggregationModel) -> AggregationModel {
    if s.text.len() == 0 {
        s
    } else {
        AggregationModel {
            output: s.output.push(
                OutputItemModel::Message {
                    content: seq![ContentPartModel::OutputText { text: s.text }],
                },
            ),
            text: Seq::empty(),
            ..s
        }
    }
}

/// `s`, or nothing but emptiness.
pub open spec fn or_empty(s: Option<String>) -> Seq<char> {
    match s {
        Some(s) => s@,
        None => Seq::empty(),
    }
}

/// The answer so far, after an event. When it is complete nothing changes it
/// any more.
pub open spec fn after_event(s: AggregationModel, event: ResponsesStreamEvent) -> AggregationModel {
    if s.completed {
        s
    } else {
        match event {
            ResponsesStreamEvent::Created { response } => AggregationModel {
                id: first_of(s.id, response.id@),
                model: first_of(s.model, response.model@),
                ..s
            },
            ResponsesStreamEvent::OutputTextDelta { delta } => AggregationModel {
                text: s.text + delta@,
                ..s
            },
            ResponsesStreamEvent::OutputItemAdded { item } => if item.item_type@
                == "function_call"@ {
                AggregationModel {
                    function: Some((or_empty(item.call_id), or_empty(item.name))),
                    arguments: Seq::empty(),
                    ..text_flushed(s)
                }
            } else {
                text_flushed(s)
            },
            ResponsesStreamEvent::FunctionCallArgumentsDelta { delta } => AggregationModel {
                arguments: s.arguments + delta@,
                ..s
            },
            ResponsesStreamEvent::FunctionCallArgumentsDone { arguments } => AggregationModel {
                arguments: first_of(s.arguments, arguments@),
                ..s
            },
            ResponsesStreamEvent::OutputItemDone {  } => match s.function {
                Some((call_id, name)) => AggregationModel {
                    output: s.output.push(
                        OutputItemModel::FunctionCall { call_id, name, arguments: s.arguments },
                    ),
                    function: None,
                    arguments: Seq::empty(),
                    ..s
                },
                None => s,
            },
            ResponsesStreamEvent::Completed { response } => {
                let flushed = text_flushed(s);
                AggregationModel {
                    id: first_of(s.id, response.id@),
                    model: first_of(s.model, response.model@),
                    output: if response.output@.len() > 0 {
                        response.output.deep_view()
                    } else {
                        flushed.output
                    },
                    usage: match response.usage {
                        Some(usage) => Some(usage),
                        None => s.usage,
                    },
                    stop_reason: response.stop_reason.deep_view(),
                    completed: true,
                    ..flushed
                }
            },
            _ => s,
        }
    }
}

/// The answer, when no more events come.
pub open spec fn finished(s: AggregationModel) -> ResponsesResponseModel {
    ResponsesResponseModel {
        id: s.id,
        model: s.model,
        output: text_flushed(s).output,
        usage: match s.usage {
            Some(usage) => usage,
            None => ResponsesUsage {
                input_tokens: 0,
                output_tokens: 0,
                input_tokens_details: InputTokensDetails { cached_tokens: 0 },
            },
        },
        stop_reason: s.stop_reason,
    }
}

/// Where the reading of a stream stands.
#[derive(Debug)]
pub enum Taken {
    /// More events are awaited.
    More(Aggregation),
    /// The answer is there, and nothing more is read.
    Finished(ResponsesResponse),
    /// The stream broke off, and there is no answer.
    Broken(String),
}

/// The model of a [`Taken`].
pub enum TakenModel {
    More(AggregationModel),
    Finished(ResponsesResponseModel),
    Broken(Seq<char>),
}

impl DeepView for Taken {
    type V = TakenModel;

    open spec fn deep_view(&self) -> TakenModel {
        match self {
            Taken::More(aggregation) => TakenModel::More(aggregation@),
            Taken::Finished(response) => TakenModel::Finished(response.deep_view()),
            Taken::Broken(message) => TakenModel::Broken(message@),
        }
    }
}

/// What is said when the stream breaks off.
pub open spec fn failure_text(error: StreamError) -> Seq<char> {
    "stream error: "@ + error.text()
}

/// Where what came of waiting leads. Reading stops with the completion, at the
/// end of the stream, and where it breaks off; then there is no answer, not
/// even a partial one.
pub open spec fn after_input(
    s: AggregationModel,
    input: StreamInput<ResponsesStreamEvent>,
) -> TakenModel {
    match input {
        StreamInput::Event(event) => {
            let next = after_event(s, event);
            if next.completed {
                TakenModel::Finished(finished(next))
            } else {
                TakenModel::More(next)
            }
        },
        StreamInput::Failed(error) => TakenModel::Broken(failure_text(error)),
        StreamInput::Ended => TakenModel::Finished(finished(s)),
        StreamInput::TimedOut { seconds } => TakenModel::Broken(
            "stream error: "@ + timeout_text("idle"@, seconds),
        ),
    }
}

/// The request as it is sent: a stream is asked for in any case.
pub fn streamed(request: ResponsesRequest) -> (r: ResponsesRequest)
    ensures
        r.deep_view() == (ResponsesRequestModel { stream: true, ..request.deep_view() }),
{
    ResponsesRequest { stream: true, ..request }
}

/// Tells whether a text is empty.
fn is_empty(s: &str) -> (r: bool)
    ensures
        r == (s@.len() == 0),
{
    proof {
        reveal_strlit("");
        if s@.len() == 0 {
            assert(s@ =~= ""@);
        }
    }
    same(s, "")
}

/// The text that is there, or an empty one.
fn text_or_empty(s: Option<String>) -> (r: String)
    ensures
        r@ == or_empty(s),
{
    match s {
        Some(s) => s,
        None => {
            let empty = String::new();
            assert(empty@ =~= Seq::<char>::empty());
            empty
        },
    }
}

/// Text becomes a message of the output, if there is any.
fn flush_text(output: &mut Vec<OutputItem>, text: String)
    ensures
        final(output).deep_view() == (if text@.len() == 0 {
            old(output).deep_view()
        } else {
            old(output).deep_view().push(
                OutputItemModel::Message {
                    content: seq![ContentPartModel::OutputText { text: text@ }],
                },
            )
        }),
{
    if !is_empty(text.as_str()) {
        let mut content: Vec<ContentPart> = Vec::new();
        let ghost model = text@;
        content.push(ContentPart::OutputText { text });
        assert(content.deep_view() =~= seq![ContentPartModel::OutputText { text: model }]);
        let ghost item = (OutputItem::Message { content }).deep_view();
        output.push(OutputItem::Message { content });
        assert(output.deep_view() =~= old(output).deep_view().push(item));
    }
}

impl Aggregation {
    /// Before the first event.
    pub fn new() -> (r: Aggregation)
        ensures
            r@ == nothing_yet(),
    {
        let r = Aggregation {
            id: String::new(),
            model: String::new(),
            output: Vec::new(),
            current_text: String::new(),
            current_function: None,
            args_buffer: String::new(),
            usage: None,
            stop_reason: None,
            completed: false,
        };
        assert(r.id@ =~= Seq::<char>::empty());
        assert(r.model@ =~= Seq::<char>::empty());
        assert(r.output.deep_view() =~= Seq::<OutputItemModel>::empty());
        assert(r.current_text@ =~= Seq::<char>::empty());
        assert(r.args_buffer@ =~= Seq::<char>::empty());
        r
    }

    /// Takes an event.
    pub fn take(self, event: ResponsesStreamEvent) -> (r: Aggregation)
        ensures
            r@ == after_event(self@, event),
    {
        let mut s = self;
        let ghost start = s@;
        if s.completed {
            return s;
        }
        match event {
            ResponsesStreamEvent::Created { response } => {
                if is_empty(s.id.as_str()) {
                    s.id = response.id;
                }
                if is_empty(s.model.as_str()) {
                    s.model = response.model;
                }
            },
            ResponsesStreamEvent::OutputTextDelta { delta } => {
                s.current_text.push_str(delta.as_str());
            },
            ResponsesStreamEvent::OutputItemAdded { item } => {
                let text = s.current_text;
                s.current_text = String::new();
                assert(s.current_text@ =~= Seq::<char>::empty());
                assert(text@.len() == 0 ==> text@ =~= Seq::<char>::empty());
                flush_text(&mut s.output, text);
                assert(s@ == text_flushed(start));
                if same(item.item_type.as_str(), "function_call") {
                    s.current_function = Some(
                        (text_or_empty(item.call_id), text_or_empty(item.name)),
                    );
                    s.args_buffer = String::new();
                    assert(s.args_buffer@ =~= Seq::<char>::empty());
                }
            },
            ResponsesStreamEvent::FunctionCallArgumentsDelta { delta } => {
                s.args_buffer.push_str(delta.as_str());
            },
            ResponsesStreamEvent::FunctionCallArgumentsDone { arguments } => {
                if !is_empty(arguments.as_str()) && is_empty(s.args_buffer.as_str()) {
                    s.args_buffer = arguments;
                } else {
                    assert(start.arguments.len() == 0 ==> start.arguments =~= arguments@);
                }
            },
            ResponsesStreamEvent::OutputItemDone {  } => {
                match s.current_function {
                    Some((call_id, name)) => {
                        let arguments = s.args_buffer;
                        s.args_buffer = String::new();
                        assert(s.args_buffer@ =~= Seq::<char>::empty());
                        s.current_function = None;
                        let item = OutputItem::FunctionCall { call_id, name, arguments };
                        let ghost model = item.deep_view();
                        s.output.push(item);
                        assert(s.output.deep_view() =~= start.output.push(model));
                    },
                    None => {
                        s.current_function = None;
                    },
                }
            },
            ResponsesStreamEvent::Completed { response } => {
                let text = s.current_text;
                s.current_text = String::new();
                assert(s.current_text@ =~= Seq::<char>::empty());
                assert(text@.len() == 0 ==> text@ =~= Seq::<char>::empty());
                flush_text(&mut s.output, text);
                assert(s@ == text_flushed(start));
                if is_empty(s.id.as_str()) {
                    s.id = response.id;
                }
                if is_empty(s.model.as_str()) {
                    s.model = response.model;
                }
                if response.usage.is_some() {
                    s.usage = response.usage;
                }
                s.stop_reason = response.stop_reason;
                if response.output.len() > 0 {
                    s.output = response.output;
                }
                s.completed = true;
            },
            _ => {},
        }
        s
    }

    /// Takes what came of waiting for the next event.
    pub fn step(self, input: StreamInput<ResponsesStreamEvent>) -> (r: Taken)
        ensures
            r.deep_view() == after_input(self@, input),
    {
        match input {
            StreamInput::Event(event) => {
                let next = self.take(event);
                if next.completed {
                    Taken::Finished(next.finish())
                } else {
                    Taken::More(next)
                }
            },
            StreamInput::Failed(error) => Taken::Broken(failure_message(&error)),
            StreamInput::Ended => Taken::Finished(self.finish()),
            StreamInput::TimedOut { seconds } => {
                let mut message = "stream error: ".to_string();
                message.push_str(timeout_message("idle", seconds).as_str());
                Taken::Broken(message)
            },
        }
    }

    /// The answer, when no more events come.
    pub fn finish(self) -> (r: ResponsesResponse)
        ensures
            r.deep_view() == finished(self@),
    {
        let mut s = self;
        flush_text(&mut s.output, s.current_text);
        let usage = match s.usage {
            Some(usage) => usage,
            None => ResponsesUsage::default(),
        };
        ResponsesResponse {
            id: s.id,
            model: s.model,
            output: s.output,
            usage,
            stop_reason: s.stop_reason,
        }
    }
}

/// What is said when the stream breaks off.
pub fn failure_message(error: &StreamError) -> (r: String)
    ensures
        r@ == failure_text(*error),
{
    let mut out = "stream error: ".to_string();
    out.push_str(error.message().as_str());
    out
}

// ---------------------------------------------------------------------------
// A whole stream
// ---------------------------------------------------------------------------

/// The answer so far, after `events`.
pub open spec fn after_events(
    s: AggregationModel,
    events: Seq<ResponsesStreamEvent>,
) -> AggregationModel
    decreases events.len(),
{
    if events.len() == 0 {
        s
    } else {
        after_event(after_events(s, events.drop_last()), events.last())
    }
}

/// The texts that `events` bring, one behind the other.
pub open spec fn joined_text(events: Seq<ResponsesStreamEvent>) -> Seq<char>
    decreases events.len(),
{
    if events.len() == 0 {
        Seq::empty()
    } else {
        joined_text(events.drop_last()) + match events.last() {
            ResponsesStreamEvent::OutputTextDelta { delta } => delta@,
            _ => Seq::empty(),
        }
    }
}

/// In whatever pieces a text comes, the answer holds it as one message.
pub proof fn pieces_make_one_text(events: Seq<ResponsesStreamEvent>)
    requires
        forall|i: int| 0 <= i < events.len() ==> (#[trigger] events[i]) is OutputTextDelta,
        joined_text(events).len() > 0,
    ensures
        finished(after_events(nothing_yet(), events)).output == seq![
            OutputItemModel::Message {
                content: seq![ContentPartModel::OutputText { text: joined_text(events) }],
            },
        ],
{
    pieces_are_collected(events);
    let s = after_events(nothing_yet(), events);
    assert(finished(s).output =~= seq![
        OutputItemModel::Message {
            content: seq![ContentPartModel::OutputText { text: joined_text(events) }],
        },
    ]);
}

proof fn pieces_are_collected(events: Seq<ResponsesStreamEvent>)
    requires
        forall|i: int| 0 <= i < events.len() ==> (#[trigger] events[i]) is OutputTextDelta,
    ensures
        after_events(nothing_yet(), events) == (AggregationModel {
            text: joined_text(events),
            ..nothing_yet()
        }),
    decreases events.len(),
{
    if events.len() > 0 {
        assert(events[events.len() - 1] is OutputTextDelta);
        pieces_are_collected(events.drop_last());
    }
}

/// What a completed answer says of itself counts: its output, if it holds any,
/// its reason and its token counts.
pub proof fn completed_output_counts(s: AggregationModel, event: ResponsesStreamEvent)
    requires
        !s.completed,
        event matches ResponsesStreamEvent::Completed { response } && response.output@.len() > 0,
    ensures
        event matches ResponsesStreamEvent::Completed { response } && {
            let answer = finished(after_event(s, event));
            &&& answer.output == response.output.deep_view()
            &&& answer.stop_reason == response.stop_reason.deep_view()
            &&& response.usage matches Some(usage) ==> answer.usage == usage
        },
{
    if let ResponsesStreamEvent::Completed { response } = event {
        let end = after_event(s, event);
        assert(end.text.len() == 0);
    }
}

/// Nothing that comes behind the completion changes the answer.
pub proof fn completion_is_final(s: AggregationModel, events: Seq<ResponsesStreamEvent>)
    requires
        s.completed,
    ensures
        after_events(s, events) == s,
    decreases events.len(),
{
    if events.len() > 0 {
        completion_is_final(s, events.drop_last());
    }
}

/// Where all of `inputs` lead.
pub open spec fn after_inputs(
    s: AggregationModel,
    inputs: Seq<StreamInput<ResponsesStreamEvent>>,
) -> TakenModel
    decreases inputs.len(),
{
    if inputs.len() == 0 {
        TakenModel::More(s)
    } else {
        match after_inputs(s, inputs.drop_last()) {
            TakenModel::More(next) => after_input(next, inputs.last()),
            stopped => stopped,
        }
    }
}

/// The input is an event, and not the completion.
pub open spec fn goes_on(input: StreamInput<ResponsesStreamEvent>) -> bool {
    input matches StreamInput::Event(event) && !(event is Completed)
}

/// As long as there are only events and no completion, more is awaited.
proof fn reading_goes_on(s: AggregationModel, inputs: Seq<StreamInput<ResponsesStreamEvent>>)
    requires
        !s.completed,
        forall|i: int| 0 <= i < inputs.len() ==> goes_on(#[trigger] inputs[i]),
    ensures
        after_inputs(s, inputs) matches TakenModel::More(next) && !next.completed && next.usage
            == s.usage,
    decreases inputs.len(),
{
    if inputs.len() > 0 {
        let rest = inputs.drop_last();
        assert forall|i: int| 0 <= i < rest.len() implies goes_on(#[trigger] rest[i]) by {
            assert(rest[i] == inputs[i]);
        }
        reading_goes_on(s, rest);
        assert(goes_on(inputs[inputs.len() - 1]));
    }
}

/// What comes behind the input that stops the reading does not count.
proof fn rest_does_not_count(
    s: AggregationModel,
    inputs: Seq<StreamInput<ResponsesStreamEvent>>,
    k: int,
)
    requires
        0 <= k <= inputs.len(),
        !(after_inputs(s, inputs.take(k)) is More),
    ensures
        after_inputs(s, inputs) == after_inputs(s, inputs.take(k)),
    decreases inputs.len(),
{
    if k == inputs.len() {
        assert(inputs.take(k) =~= inputs);
    } else {
        assert(inputs.drop_last().take(k) =~= inputs.take(k));
        rest_does_not_count(s, inputs.drop_last(), k);
    }
}

proof fn first_stop(
    s: AggregationModel,
    inputs: Seq<StreamInput<ResponsesStreamEvent>>,
    k: int,
) -> (next: AggregationModel)
    requires
        !s.completed,
        0 <= k < inputs.len(),
        forall|i: int| 0 <= i < k ==> goes_on(#[trigger] inputs[i]),
        !goes_on(inputs[k]),
    ensures
        !next.completed,
        next.usage == s.usage,
        after_inputs(s, inputs) == after_input(next, inputs[k]),
        after_inputs(s, inputs) == after_inputs(s, inputs.take(k + 1)),
{
    let before = inputs.take(k);
    assert forall|i: int| 0 <= i < before.len() implies goes_on(#[trigger] before[i]) by {
        assert(before[i] == inputs[i]);
    }
    reading_goes_on(s, before);
    assert(inputs.take(k + 1).drop_last() =~= before);
    assert(inputs.take(k + 1).last() == inputs[k]);
    rest_does_not_count(s, inputs, k + 1);
    after_inputs(s, before)->More_0
}

/// The first completion gives the answer, with its reason, its token counts
/// and, if it holds any, its output. Nothing that comes behind it counts.
pub proof fn first_completion_gives_the_answer(
    inputs: Seq<StreamInput<ResponsesStreamEvent>>,
    k: int,
    response: ResponseCompletedPayload,
)
    requires
        0 <= k < inputs.len(),
        forall|i: int| 0 <= i < k ==> goes_on(#[trigger] inputs[i]),
        inputs[k] == StreamInput::Event(ResponsesStreamEvent::Completed { response }),
    ensures
        after_inputs(nothing_yet(), inputs) == after_inputs(nothing_yet(), inputs.take(k + 1)),
        after_inputs(nothing_yet(), inputs) matches TakenModel::Finished(answer) && {
            &&& answer.stop_reason == response.stop_reason.deep_view()
            &&& answer.usage == match response.usage {
                Some(usage) => usage,
                None => ResponsesUsage {
                    input_tokens: 0,
                    output_tokens: 0,
                    input_tokens_details: InputTokensDetails { cached_tokens: 0 },
                },
            }
            &&& response.output@.len() > 0 ==> answer.output == response.output.deep_view()
        },
{
    let next = first_stop(nothing_yet(), inputs, k);
    let event = ResponsesStreamEvent::Completed { response };
    assert(after_event(next, event).text.len() == 0);
}

/// Where the stream fails or falls silent before its completion, there is no
/// answer, and the cause is told.
pub proof fn failure_gives_no_answer(
    s: AggregationModel,
    inputs: Seq<StreamInput<ResponsesStreamEvent>>,
    k: int,
)
    requires
        !s.completed,
        0 <= k < inputs.len(),
        forall|i: int| 0 <= i < k ==> goes_on(#[trigger] inputs[i]),
        inputs[k] is Failed || inputs[k] is TimedOut,
    ensures
        after_inputs(s, inputs) is Broken,
        inputs[k] matches StreamInput::Failed(error) ==> after_inputs(s, inputs)
            == TakenModel::Broken(failure_text(error)),
        inputs[k] matches StreamInput::TimedOut { seconds } ==> after_inputs(s, inputs)
            == TakenModel::Broken("stream error: "@ + timeout_text("idle"@, seconds)),
{
    let next = first_stop(s, inputs, k);
}

} // verus!
