//! A streamed answer of the Responses API, as the client puts it together.

use vstd::prelude::*;

use crate::convert::frames::FrameModel;
use crate::convert::responses::stream::{
    after_event, after_input, after_run, event_frames, final_reason, initial_state, input_frames,
    run_frames, step_frames, Phase, StateModel,
};
use crate::convert::stream::{closing_frames, StreamError, StreamInput};
use crate::decimal::decimal;
use crate::laws::chat_stream::counts_follow;
use crate::laws::client_view::{
    all_seen, all_seen_concat, nothing_seen, one_seen, seen, two_seen, BlockView, ClientView,
};
use crate::types::claude::{Tool, Usage};
use crate::types::responses::{OutputItemAddedPayload, ResponsesStreamEvent};
use crate::util::fix_json::fixed;
use crate::util::tool_id::id_or;
use crate::util::tool_name::{
    canonical_name, declared_name_is_restored, declared_names, restored,
    unknown_name_passes_through,
};

verus! {

// ---------------------------------------------------------------------------
// What the upstream sends
// ---------------------------------------------------------------------------

/// The events that come before the end of the upstream's stream, whatever its
/// end is: the completion, a failure, a silence or the end of its bytes.
pub open spec fn events_before_end(inputs: Seq<StreamInput<ResponsesStreamEvent>>) -> Seq<
    ResponsesStreamEvent,
>
    decreases inputs.len(),
{
    if inputs.len() == 0 {
        Seq::empty()
    } else {
        let earlier = events_before_end(inputs.drop_last());
        if earlier.len() < inputs.len() - 1 {
            earlier
        } else {
            match inputs.last() {
                StreamInput::Event(ResponsesStreamEvent::Completed { .. }) => earlier,
                StreamInput::Event(event) => earlier.push(event),
                _ => earlier,
            }
        }
    }
}

/// The pieces of text, one behind the other.
pub open spec fn sent_text(events: Seq<ResponsesStreamEvent>) -> Seq<char>
    decreases events.len(),
{
    if events.len() == 0 {
        Seq::empty()
    } else {
        sent_text(events.drop_last()) + match events.last() {
            ResponsesStreamEvent::OutputTextDelta { delta } => delta@,
            _ => Seq::empty(),
        }
    }
}

/// The pieces of reasoning, one behind the other.
pub open spec fn sent_thinking(events: Seq<ResponsesStreamEvent>) -> Seq<char>
    decreases events.len(),
{
    if events.len() == 0 {
        Seq::empty()
    } else {
        sent_thinking(events.drop_last()) + match events.last() {
            ResponsesStreamEvent::ReasoningSummaryTextDelta { delta } => delta@,
            _ => Seq::empty(),
        }
    }
}

/// The id of the call that an item is; nothing where it has none.
pub open spec fn item_id(item: OutputItemAddedPayload) -> Seq<char> {
    match item.call_id {
        Some(call_id) => call_id@,
        None => Seq::empty(),
    }
}

/// The name of the function that an item calls; nothing where it has none.
pub open spec fn item_name(item: OutputItemAddedPayload) -> Seq<char> {
    match item.name {
        Some(name) => name@,
        None => Seq::empty(),
    }
}

/// A function call that has begun: its id and its name.
pub struct BegunCall {
    pub id: Seq<char>,
    pub name: Seq<char>,
}

/// The function calls that the events begin, in their order. `ids` holds an id
/// for each event that begins one without.
pub open spec fn sent_calls(
    events: Seq<ResponsesStreamEvent>,
    names: Map<Seq<char>, Seq<char>>,
    ids: Seq<Seq<char>>,
) -> Seq<BegunCall>
    decreases events.len(),
{
    if events.len() == 0 {
        Seq::empty()
    } else {
        let earlier = sent_calls(events.drop_last(), names, ids);
        match events.last() {
            ResponsesStreamEvent::OutputItemAdded { item } => if item.item_type@
                == "function_call"@ {
                earlier.push(
                    BegunCall {
                        id: id_or(item_id(item), ids[events.len() - 1]),
                        name: restored(names, item_name(item)),
                    },
                )
            } else {
                earlier
            },
            _ => earlier,
        }
    }
}

// ---------------------------------------------------------------------------
// What the client gets
// ---------------------------------------------------------------------------

/// The pieces of text of the frames, one behind the other.
pub open spec fn got_text(frames: Seq<FrameModel>) -> Seq<char>
    decreases frames.len(),
{
    if frames.len() == 0 {
        Seq::empty()
    } else {
        got_text(frames.drop_last()) + match frames.last() {
            FrameModel::TextDelta { text, .. } => text,
            _ => Seq::empty(),
        }
    }
}

/// The pieces of reasoning of the frames, one behind the other.
pub open spec fn got_thinking(frames: Seq<FrameModel>) -> Seq<char>
    decreases frames.len(),
{
    if frames.len() == 0 {
        Seq::empty()
    } else {
        got_thinking(frames.drop_last()) + match frames.last() {
            FrameModel::ThinkingDelta { thinking, .. } => thinking,
            _ => Seq::empty(),
        }
    }
}

/// The tool calls that the frames begin, in their order.
pub open spec fn got_calls(frames: Seq<FrameModel>) -> Seq<BegunCall>
    decreases frames.len(),
{
    if frames.len() == 0 {
        Seq::empty()
    } else {
        let earlier = got_calls(frames.drop_last());
        match frames.last() {
            FrameModel::ToolStart { id, name, .. } => earlier.push(BegunCall { id, name }),
            _ => earlier,
        }
    }
}

proof fn got_concat(a: Seq<FrameModel>, b: Seq<FrameModel>)
    ensures
        got_text(a + b) == got_text(a) + got_text(b),
        got_thinking(a + b) == got_thinking(a) + got_thinking(b),
        got_calls(a + b) == got_calls(a) + got_calls(b),
    decreases b.len(),
{
    if b.len() == 0 {
        assert(a + b =~= a);
        assert(got_text(a) + got_text(b) =~= got_text(a));
        assert(got_thinking(a) + got_thinking(b) =~= got_thinking(a));
        assert(got_calls(a) + got_calls(b) =~= got_calls(a));
    } else {
        assert((a + b).drop_last() =~= a + b.drop_last());
        got_concat(a, b.drop_last());
        assert(got_text(a + b) =~= got_text(a) + got_text(b));
        assert(got_thinking(a + b) =~= got_thinking(a) + got_thinking(b));
        assert(got_calls(a + b) =~= got_calls(a) + got_calls(b));
    }
}

proof fn got_few(frames: Seq<FrameModel>)
    requires
        frames.len() <= 2,
    ensures
        frames.len() == 0 ==> got_text(frames).len() == 0 && got_thinking(frames).len() == 0
            && got_calls(frames).len() == 0,
        frames.len() == 1 ==> got_text(frames) == (match frames[0] {
            FrameModel::TextDelta { text, .. } => text,
            _ => Seq::empty(),
        }),
        frames.len() == 1 ==> got_thinking(frames) == (match frames[0] {
            FrameModel::ThinkingDelta { thinking, .. } => thinking,
            _ => Seq::empty(),
        }),
        frames.len() == 1 ==> got_calls(frames) == (match frames[0] {
            FrameModel::ToolStart { id, name, .. } => seq![BegunCall { id, name }],
            _ => Seq::empty(),
        }),
        frames.len() == 2 && !(frames[1] is TextDelta) && !(frames[1] is ThinkingDelta)
            && !(frames[1] is ToolStart) ==> got_text(frames) == got_text(frames.take(1))
            && got_thinking(frames) == got_thinking(frames.take(1)) && got_calls(frames)
            == got_calls(frames.take(1)),
{
    reveal_with_fuel(got_text, 3);
    reveal_with_fuel(got_thinking, 3);
    reveal_with_fuel(got_calls, 3);
    if frames.len() == 1 {
        let none = Seq::<FrameModel>::empty();
        assert(frames.drop_last() =~= none);
        assert(got_text(frames) =~= match frames[0] {
            FrameModel::TextDelta { text, .. } => text,
            _ => Seq::empty(),
        });
        assert(got_thinking(frames) =~= match frames[0] {
            FrameModel::ThinkingDelta { thinking, .. } => thinking,
            _ => Seq::empty(),
        });
        assert(got_calls(frames) =~= match frames[0] {
            FrameModel::ToolStart { id, name, .. } => seq![BegunCall { id, name }],
            _ => Seq::empty(),
        });
    } else if frames.len() == 2 {
        assert(frames.drop_last() =~= frames.take(1));
        assert(got_text(frames) =~= got_text(frames.take(1)) + match frames[1] {
            FrameModel::TextDelta { text, .. } => text,
            _ => Seq::empty(),
        });
        assert(got_thinking(frames) =~= got_thinking(frames.take(1)) + match frames[1] {
            FrameModel::ThinkingDelta { thinking, .. } => thinking,
            _ => Seq::empty(),
        });
    }
}

// ---------------------------------------------------------------------------
// A whole stream
// ---------------------------------------------------------------------------

/// One of the events begins a function call.
pub open spec fn any_call(events: Seq<ResponsesStreamEvent>) -> bool
    decreases events.len(),
{
    events.len() > 0 && (any_call(events.drop_last()) || (events.last() matches
        ResponsesStreamEvent::OutputItemAdded { item } && item.item_type@ == "function_call"@))
}

/// Why the message is to end, by the upstream's end and the events before it.
pub open spec fn reason_for(
    events: Seq<ResponsesStreamEvent>,
    end: StreamInput<ResponsesStreamEvent>,
) -> Seq<char> {
    if any_call(events) {
        "tool_use"@
    } else if end matches StreamInput::Event(ResponsesStreamEvent::Completed { response })
        && response.stop_reason matches Some(reason) && reason@ == "max_tokens"@ {
        "max_tokens"@
    } else {
        "end_turn"@
    }
}

/// The client's counts are those of the completion; all zero where it has none,
/// but for an estimate.
pub open spec fn counts_come_from(
    usage: Usage,
    end: StreamInput<ResponsesStreamEvent>,
    estimated: u32,
) -> bool {
    match end {
        StreamInput::Event(ResponsesStreamEvent::Completed { response }) => match response.usage {
            Some(counts) => counts_follow(
                usage,
                counts.input_tokens,
                counts.input_tokens_details.cached_tokens,
                counts.output_tokens,
                estimated,
            ),
            None => counts_follow(usage, 0, 0, 0, estimated),
        },
        _ => counts_follow(usage, 0, 0, 0, estimated),
    }
}

/// What the client is to be told of an end that is a failure.
pub open spec fn error_of(end: StreamInput<ResponsesStreamEvent>) -> Option<Seq<char>> {
    match end {
        StreamInput::Failed(StreamError::Connection(cause)) => Some(
            "connection error: "@ + cause@,
        ),
        StreamInput::TimedOut { seconds } => Some(
            "stream idle timeout ("@ + decimal(seconds as nat) + "s)"@,
        ),
        _ => None,
    }
}

/// The last frames of a message that is over.
pub open spec fn end_is_right(
    frames: Seq<FrameModel>,
    events: Seq<ResponsesStreamEvent>,
    end: StreamInput<ResponsesStreamEvent>,
    estimated: u32,
) -> bool {
    let n = frames.len();
    &&& n >= 2
    &&& frames[n - 1] is MessageStop
    &&& frames[n - 2] matches FrameModel::MessageDelta { stop_reason, usage }
    &&& stop_reason == reason_for(events, end)
    &&& counts_come_from(usage, end, estimated)
    &&& error_of(end) matches Some(message) ==> n >= 3 && frames[n - 3] == (FrameModel::Error {
        message,
    })
}

spec fn run_is_right(
    start: StateModel,
    inputs: Seq<StreamInput<ResponsesStreamEvent>>,
    ids: Seq<Seq<char>>,
) -> bool {
    let s = after_run(start, inputs);
    let frames = run_frames(start, inputs, ids);
    let events = events_before_end(inputs);
    &&& events.len() <= inputs.len()
    &&& s.names == start.names
    &&& s.estimated == start.estimated
    &&& got_text(frames) == sent_text(events)
    &&& got_thinking(frames) == sent_thinking(events)
    &&& got_calls(frames) == sent_calls(events, start.names, ids)
    &&& if events.len() == inputs.len() {
        &&& s.phase == Phase::Streaming
        &&& s.has_tool_call == any_call(events)
        &&& s.usage == start.usage
        &&& s.stop_reason == start.stop_reason
    } else {
        &&& s.phase == Phase::Done
        &&& end_is_right(frames, events, inputs[events.len() as int], start.estimated)
    }
}

proof fn idle_text(seconds: u64)
    ensures
        "stream "@ + "idle"@ + " timeout ("@ + decimal(seconds as nat) + "s)"@
            == "stream idle timeout ("@ + decimal(seconds as nat) + "s)"@,
{
    reveal_strlit("stream ");
    reveal_strlit("idle");
    reveal_strlit(" timeout (");
    reveal_strlit("stream idle timeout (");
    assert("stream "@ + "idle"@ + " timeout ("@ =~= "stream idle timeout ("@);
}

proof fn one_event(
    start: StateModel,
    inputs: Seq<StreamInput<ResponsesStreamEvent>>,
    ids: Seq<Seq<char>>,
    event: ResponsesStreamEvent,
)
    requires
        inputs.len() > 0,
        inputs.last() == StreamInput::Event(event),
        !(event is Completed),
        events_before_end(inputs.drop_last()).len() == inputs.len() - 1,
        run_is_right(start, inputs.drop_last(), ids),
    ensures
        run_is_right(start, inputs, ids),
{
    let rest = inputs.drop_last();
    let before = after_run(start, rest);
    let fallback = ids[inputs.len() - 1];
    let earlier = events_before_end(rest);
    let events = events_before_end(inputs);
    assert(events == earlier.push(event));
    assert(events.drop_last() =~= earlier);
    assert(events.last() == event);
    let frames = event_frames(before, event, fallback);
    assert(step_frames(before, inputs.last(), fallback) == frames);
    got_concat(run_frames(start, rest, ids), frames);
    got_few(frames);
    if frames.len() == 2 {
        got_few(frames.take(1));
    }
    assert(got_text(frames) =~= match event {
        ResponsesStreamEvent::OutputTextDelta { delta } => delta@,
        _ => Seq::empty(),
    });
    assert(got_thinking(frames) =~= match event {
        ResponsesStreamEvent::ReasoningSummaryTextDelta { delta } => delta@,
        _ => Seq::empty(),
    });
    assert(sent_calls(events, start.names, ids) =~= sent_calls(earlier, start.names, ids)
        + got_calls(frames));
}

proof fn last_step(
    start: StateModel,
    inputs: Seq<StreamInput<ResponsesStreamEvent>>,
    ids: Seq<Seq<char>>,
)
    requires
        start == initial_state(start.estimated, start.names),
        inputs.len() > 0,
        !(inputs.last() matches StreamInput::Event(event) && !(event is Completed)),
        events_before_end(inputs.drop_last()).len() == inputs.len() - 1,
        run_is_right(start, inputs.drop_last(), ids),
    ensures
        run_is_right(start, inputs, ids),
{
    let rest = inputs.drop_last();
    let before = after_run(start, rest);
    let fallback = ids[inputs.len() - 1];
    let input = inputs.last();
    let next = after_input(before, input);
    let added = input_frames(before, input, fallback);
    let closing = closing_frames(final_reason(next), next.usage, next.estimated);
    let earlier = run_frames(start, rest, ids);
    let step = step_frames(before, input, fallback);
    let frames = run_frames(start, inputs, ids);
    assert(inputs[inputs.len() - 1] == input);
    assert(step == added + closing);
    got_concat(earlier, step);
    got_concat(added, closing);
    got_few(added);
    got_few(closing);
    got_few(closing.take(1));
    let none = Seq::<char>::empty();
    assert(got_text(earlier) + got_text(step) =~= got_text(earlier));
    assert(got_thinking(earlier) + got_thinking(step) =~= got_thinking(earlier));
    assert(got_calls(earlier) + got_calls(step) =~= got_calls(earlier));
    let n = frames.len();
    assert(frames[n - 1] == closing[1]);
    assert(frames[n - 2] == closing[0]);
    if let StreamInput::TimedOut { seconds } = input {
        idle_text(seconds);
    }
    if error_of(input) is Some {
        assert(frames[n - 3] == added[0]);
    }
}

proof fn every_run_is_right(
    start: StateModel,
    inputs: Seq<StreamInput<ResponsesStreamEvent>>,
    ids: Seq<Seq<char>>,
)
    requires
        start == initial_state(start.estimated, start.names),
    ensures
        run_is_right(start, inputs, ids),
    decreases inputs.len(),
{
    if inputs.len() > 0 {
        let rest = inputs.drop_last();
        let events = events_before_end(rest);
        every_run_is_right(start, rest, ids);
        if events.len() < rest.len() {
            let earlier = run_frames(start, rest, ids);
            let step = step_frames(after_run(start, rest), inputs.last(), ids[inputs.len() - 1]);
            assert(step.len() == 0);
            assert(run_frames(start, inputs, ids) =~= earlier);
            assert(inputs[events.len() as int] == rest[events.len() as int]);
        } else if inputs.last() is Event && !(inputs.last()->Event_0 is Completed) {
            one_event(start, inputs, ids, inputs.last()->Event_0);
        } else {
            last_step(start, inputs, ids);
        }
    }
}

// ---------------------------------------------------------------------------
// Laws
// ---------------------------------------------------------------------------

/// The client gets the text and the reasoning that the upstream sends, whatever
/// pieces they come in: no character is lost, added, moved or taken for the
/// other.
pub proof fn text_and_thinking_arrive_whole(
    estimated: u32,
    names: Map<Seq<char>, Seq<char>>,
    inputs: Seq<StreamInput<ResponsesStreamEvent>>,
    ids: Seq<Seq<char>>,
)
    ensures
        ({
            let frames = run_frames(initial_state(estimated, names), inputs, ids);
            let events = events_before_end(inputs);
            &&& got_text(frames) == sent_text(events)
            &&& got_thinking(frames) == sent_thinking(events)
        }),
{
    every_run_is_right(initial_state(estimated, names), inputs, ids);
}

/// Each function call that the upstream begins is begun at the client, in the
/// same order, with the id of its item, or else a generated one, and with the
/// declared spelling of the name of its item.
pub proof fn calls_are_begun_in_order(
    estimated: u32,
    names: Map<Seq<char>, Seq<char>>,
    inputs: Seq<StreamInput<ResponsesStreamEvent>>,
    ids: Seq<Seq<char>>,
)
    ensures
        got_calls(run_frames(initial_state(estimated, names), inputs, ids)) == sent_calls(
            events_before_end(inputs),
            names,
            ids,
        ),
{
    every_run_is_right(initial_state(estimated, names), inputs, ids);
}

/// A function call carries the declared name of the tool that its item names,
/// and the item's own name where no declared tool has a name like it. Its id
/// has no part in it.
pub proof fn call_has_the_name_of_its_item(
    s: StateModel,
    tools: Seq<Tool>,
    item: OutputItemAddedPayload,
    name: String,
    fallback: Seq<char>,
    i: int,
)
    requires
        s.names == declared_names(tools),
        item.item_type@ == "function_call"@,
        item.name == Some(name),
    ensures
        ({
            let frames = event_frames(s, ResponsesStreamEvent::OutputItemAdded { item }, fallback);
            &&& frames.len() > 0
            &&& frames[0] matches FrameModel::ToolStart { name: got, .. }
            &&& (0 <= i < tools.len() && canonical_name(name@).len() > 0 && canonical_name(name@)
                == canonical_name(tools[i].name@) && forall|j: int|
                0 <= j < i ==> canonical_name((#[trigger] tools[j]).name@) != canonical_name(
                    name@,
                )) ==> got == tools[i].name@
            &&& (forall|j: int|
                0 <= j < tools.len() ==> canonical_name((#[trigger] tools[j]).name@)
                    != canonical_name(name@)) ==> got == name@
        }),
{
    if 0 <= i < tools.len() && canonical_name(name@).len() > 0 && canonical_name(name@)
        == canonical_name(tools[i].name@) && forall|j: int|
        0 <= j < i ==> canonical_name((#[trigger] tools[j]).name@) != canonical_name(name@) {
        declared_name_is_restored(tools, i, name@);
    }
    if forall|j: int|
        0 <= j < tools.len() ==> canonical_name((#[trigger] tools[j]).name@) != canonical_name(
            name@,
        ) {
        unknown_name_passes_through(tools, name@);
    }
}

/// Two function calls of the same name begin alike but for their ids, and two
/// of the same id alike but for their names.
pub proof fn ids_and_names_do_not_mix(
    s: StateModel,
    a: OutputItemAddedPayload,
    b: OutputItemAddedPayload,
    fallback: Seq<char>,
)
    requires
        a.item_type@ == "function_call"@,
        b.item_type@ == "function_call"@,
    ensures
        ({
            let x = event_frames(s, ResponsesStreamEvent::OutputItemAdded { item: a }, fallback);
            let y = event_frames(s, ResponsesStreamEvent::OutputItemAdded { item: b }, fallback);
            &&& x.len() == y.len() && x.len() > 0
            &&& x[0] matches FrameModel::ToolStart { index: i, id: c, name: n }
            &&& y[0] matches FrameModel::ToolStart { index: j, id: d, name: m }
            &&& i == j
            &&& item_name(a) == item_name(b) ==> n == m
            &&& item_id(a) == item_id(b) ==> c == d
            &&& item_id(a).len() == 0 ==> c == fallback
        }),
{
}

/// As soon as the upstream's stream is over, and not before, the message ends
/// with the reason and the token counts that the upstream's end and the events
/// before it give, and with an error before them where it broke off.
pub proof fn end_is_told(
    estimated: u32,
    names: Map<Seq<char>, Seq<char>>,
    inputs: Seq<StreamInput<ResponsesStreamEvent>>,
    ids: Seq<Seq<char>>,
)
    requires
        events_before_end(inputs).len() < inputs.len(),
    ensures
        end_is_right(
            run_frames(initial_state(estimated, names), inputs, ids),
            events_before_end(inputs),
            inputs[events_before_end(inputs).len() as int],
            estimated,
        ),
{
    every_run_is_right(initial_state(estimated, names), inputs, ids);
}

// ---------------------------------------------------------------------------
// Blocks
// ---------------------------------------------------------------------------

/// What the events of the upstream amount to.
pub struct UpstreamView {
    pub blocks: Seq<BlockView>,
    pub open: bool,
    /// An event came at a place where the upstream's API has none like it.
    pub out_of_order: bool,
    /// The pieces of the arguments of the function call that is open.
    pub pieces: Seq<char>,
    pub any_piece: bool,
}

/// Before the first event.
pub open spec fn nothing_sent() -> UpstreamView {
    UpstreamView {
        blocks: Seq::empty(),
        open: false,
        out_of_order: false,
        pieces: Seq::empty(),
        any_piece: false,
    }
}

/// An event at the wrong place.
pub open spec fn out_of_order(u: UpstreamView) -> UpstreamView {
    UpstreamView { out_of_order: true, ..u }
}

/// A part of the answer begins.
pub open spec fn part_begins(u: UpstreamView, block: BlockView) -> UpstreamView {
    if u.open {
        out_of_order(u)
    } else {
        UpstreamView {
            blocks: u.blocks.push(block),
            open: true,
            pieces: Seq::empty(),
            any_piece: false,
            ..u
        }
    }
}

/// The open part has grown.
pub open spec fn part_grows(u: UpstreamView, block: BlockView) -> UpstreamView {
    UpstreamView { blocks: u.blocks.drop_last().push(block), ..u }
}

/// The open part ends.
pub open spec fn part_ends(u: UpstreamView) -> UpstreamView {
    UpstreamView { open: false, ..u }
}

/// What an event adds.
pub open spec fn sent(
    u: UpstreamView,
    event: ResponsesStreamEvent,
    names: Map<Seq<char>, Seq<char>>,
    fallback: Seq<char>,
) -> UpstreamView {
    let last = u.blocks.last();
    match event {
        ResponsesStreamEvent::Created { .. } => u,
        ResponsesStreamEvent::ReasoningSummaryPartAdded {  } => part_begins(
            u,
            BlockView::Thinking { text: Seq::empty() },
        ),
        ResponsesStreamEvent::ReasoningSummaryTextDelta { delta } => if u.open && last is Thinking {
            part_grows(u, BlockView::Thinking { text: last->Thinking_text + delta@ })
        } else {
            out_of_order(u)
        },
        ResponsesStreamEvent::ReasoningSummaryPartDone {  } => if u.open && last is Thinking {
            part_ends(u)
        } else {
            out_of_order(u)
        },
        ResponsesStreamEvent::ContentPartAdded {  } => part_begins(
            u,
            BlockView::Text { text: Seq::empty() },
        ),
        ResponsesStreamEvent::OutputTextDelta { delta } => if u.open && last is Text {
            part_grows(u, BlockView::Text { text: last->Text_text + delta@ })
        } else {
            out_of_order(u)
        },
        ResponsesStreamEvent::ContentPartDone {  } => if u.open && last is Text {
            part_ends(u)
        } else {
            out_of_order(u)
        },
        ResponsesStreamEvent::OutputItemAdded { item } => if item.item_type@ == "function_call"@ {
            part_begins(
                u,
                BlockView::Tool {
                    id: id_or(item_id(item), fallback),
                    name: restored(names, item_name(item)),
                    input: Seq::empty(),
                },
            )
        } else {
            u
        },
        ResponsesStreamEvent::FunctionCallArgumentsDelta { delta } => if u.open && last is Tool {
            UpstreamView { pieces: u.pieces + delta@, any_piece: true, ..u }
        } else {
            out_of_order(u)
        },
        ResponsesStreamEvent::FunctionCallArgumentsDone { arguments } => if u.open && last is Tool {
            part_grows(
                u,
                BlockView::Tool {
                    id: last->Tool_id,
                    name: last->Tool_name,
                    input: last->Tool_input + fixed(
                        if u.any_piece {
                            u.pieces
                        } else {
                            arguments@
                        },
                    ),
                },
            )
        } else {
            out_of_order(u)
        },
        ResponsesStreamEvent::OutputItemDone {  } => if u.open && last is Tool {
            part_ends(u)
        } else {
            out_of_order(u)
        },
        ResponsesStreamEvent::Completed { .. } => u,
    }
}

/// What a run of events amounts to. `ids` holds an id for each event that
/// begins a function call without one.
pub open spec fn all_sent(
    events: Seq<ResponsesStreamEvent>,
    names: Map<Seq<char>, Seq<char>>,
    ids: Seq<Seq<char>>,
) -> UpstreamView
    decreases events.len(),
{
    if events.len() == 0 {
        nothing_sent()
    } else {
        sent(
            all_sent(events.drop_last(), names, ids),
            events.last(),
            names,
            ids[events.len() - 1],
        )
    }
}

/// The client, the upstream and the state agree on the blocks.
spec fn agree(s: StateModel, c: ClientView, u: UpstreamView) -> bool {
    &&& !c.confused
    &&& c.blocks == u.blocks
    &&& c.open == u.open
    &&& c.blocks.len() == s.block_index + if c.open {
        1nat
    } else {
        0
    }
    &&& u.open && u.blocks.last() is Tool ==> {
        &&& s.arguments == u.pieces
        &&& s.has_delta == u.any_piece
        &&& !s.has_delta ==> s.arguments.len() == 0
    }
}

proof fn event_keeps_agreement(
    s: StateModel,
    c: ClientView,
    u: UpstreamView,
    event: ResponsesStreamEvent,
    fallback: Seq<char>,
)
    requires
        agree(s, c, u),
        !(event is Completed),
        !sent(u, event, s.names, fallback).out_of_order,
        !u.out_of_order,
    ensures
        agree(
            after_event(s, event),
            all_seen(c, event_frames(s, event, fallback)),
            sent(u, event, s.names, fallback),
        ),
{
    let frames = event_frames(s, event, fallback);
    let empty = Seq::<char>::empty();
    if frames.len() == 1 {
        one_seen(c, frames[0]);
        assert(frames =~= seq![frames[0]]);
    } else if frames.len() == 2 {
        two_seen(c, frames[0], frames[1]);
        assert(frames =~= seq![frames[0], frames[1]]);
        let a = seen(c, frames[0]);
        let b = seen(a, frames[1]);
        assert(empty + empty =~= empty);
        assert(a.blocks.drop_last() =~= c.blocks);
        assert(b.blocks =~= a.blocks);
    }
    if let ResponsesStreamEvent::FunctionCallArgumentsDone { arguments } = event {
        if !s.has_delta && arguments@.len() == 0 {
            assert(arguments@ =~= s.arguments);
        }
    }
}

/// Where the upstream keeps to the order of its API, the client has the blocks
/// that the upstream has sent, each of the same kind and with the same content,
/// one behind the other, and can make sense of every frame. The arguments of a
/// function call arrive in one piece, repaired: the pieces that came, or else
/// what came at their end.
pub proof fn client_has_what_was_sent(
    estimated: u32,
    names: Map<Seq<char>, Seq<char>>,
    inputs: Seq<StreamInput<ResponsesStreamEvent>>,
    ids: Seq<Seq<char>>,
)
    requires
        !all_sent(events_before_end(inputs), names, ids).out_of_order,
    ensures
        ({
            let c = all_seen(
                nothing_seen(),
                run_frames(initial_state(estimated, names), inputs, ids),
            );
            let u = all_sent(events_before_end(inputs), names, ids);
            !c.confused && c.blocks == u.blocks && c.open == u.open
        }),
{
    agreement_of_runs(initial_state(estimated, names), inputs, ids);
}

proof fn order_is_kept_from_the_start(
    events: Seq<ResponsesStreamEvent>,
    event: ResponsesStreamEvent,
    names: Map<Seq<char>, Seq<char>>,
    ids: Seq<Seq<char>>,
)
    ensures
        all_sent(events, names, ids).out_of_order ==> all_sent(
            events.push(event),
            names,
            ids,
        ).out_of_order,
{
    assert(events.push(event).drop_last() =~= events);
}

proof fn agreement_of_runs(
    start: StateModel,
    inputs: Seq<StreamInput<ResponsesStreamEvent>>,
    ids: Seq<Seq<char>>,
)
    requires
        start == initial_state(start.estimated, start.names),
        !all_sent(events_before_end(inputs), start.names, ids).out_of_order,
    ensures
        ({
            let c = all_seen(nothing_seen(), run_frames(start, inputs, ids));
            let u = all_sent(events_before_end(inputs), start.names, ids);
            if events_before_end(inputs).len() == inputs.len() {
                agree(after_run(start, inputs), c, u)
            } else {
                !c.confused && c.blocks == u.blocks && c.open == u.open
            }
        }),
    decreases inputs.len(),
{
    if inputs.len() > 0 {
        let n = inputs.len() - 1;
        let rest = inputs.drop_last();
        let earlier = events_before_end(rest);
        let before = after_run(start, rest);
        let c = all_seen(nothing_seen(), run_frames(start, rest, ids));
        let step = step_frames(before, inputs.last(), ids[n]);
        every_run_is_right(start, rest, ids);
        all_seen_concat(nothing_seen(), run_frames(start, rest, ids), step);
        if earlier.len() < rest.len() {
            agreement_of_runs(start, rest, ids);
            assert(step.len() == 0);
        } else if inputs.last() is Event && !(inputs.last()->Event_0 is Completed) {
            let event = inputs.last()->Event_0;
            assert(events_before_end(inputs) == earlier.push(event));
            assert(earlier.push(event).drop_last() =~= earlier);
            order_is_kept_from_the_start(earlier, event, start.names, ids);
            agreement_of_runs(start, rest, ids);
            event_keeps_agreement(
                before,
                c,
                all_sent(earlier, start.names, ids),
                event,
                ids[n],
            );
        } else {
            agreement_of_runs(start, rest, ids);
            let next = after_input(before, inputs.last());
            let added = input_frames(before, inputs.last(), ids[n]);
            let closing = closing_frames(final_reason(next), next.usage, next.estimated);
            all_seen_concat(c, added, closing);
            if added.len() == 1 {
                one_seen(c, added[0]);
                assert(added =~= seq![added[0]]);
            }
            two_seen(all_seen(c, added), closing[0], closing[1]);
            assert(closing =~= seq![closing[0], closing[1]]);
        }
    }
}

} // verus!
