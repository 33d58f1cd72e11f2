//! A streamed response made into one answer.

use vstd::prelude::*;

use crate::client::aggregate::{
    after_event, after_events, after_input, finished, nothing_yet, text_flushed, AggregationModel,
    TakenModel,
};
use crate::convert::stream::{StreamError, StreamInput};
use crate::decimal::decimal;
use crate::laws::responses_stream::{item_id, item_name, sent_text};
use crate::types::responses::{
    ContentPartModel, InputTokensDetails, OutputItemAddedPayload, OutputItemModel,
    ResponseCompletedPayload, ResponseCreatedPayload, ResponsesStreamEvent, ResponsesUsage,
};

verus! {

/// The output text of the parts, one behind the other.
pub open spec fn parts_text(parts: Seq<ContentPartModel>) -> Seq<char>
    decreases parts.len(),
{
    if parts.len() == 0 {
        Seq::empty()
    } else {
        parts_text(parts.drop_last()) + match parts.last() {
            ContentPartModel::OutputText { text } => text,
            _ => Seq::empty(),
        }
    }
}

/// The text of the messages of an output, one behind the other.
pub open spec fn output_text(items: Seq<OutputItemModel>) -> Seq<char>
    decreases items.len(),
{
    if items.len() == 0 {
        Seq::empty()
    } else {
        output_text(items.drop_last()) + match items.last() {
            OutputItemModel::Message { content } => parts_text(content),
            _ => Seq::empty(),
        }
    }
}

proof fn item_more(items: Seq<OutputItemModel>, item: OutputItemModel)
    ensures
        output_text(items.push(item)) == output_text(items) + match item {
            OutputItemModel::Message { content } => parts_text(content),
            _ => Seq::empty(),
        },
{
    assert(items.push(item).drop_last() =~= items);
}

proof fn flushing_keeps_text(s: AggregationModel)
    ensures
        output_text(text_flushed(s).output) == output_text(s.output) + s.text,
        text_flushed(s).text.len() == 0,
{
    if s.text.len() == 0 {
        assert(output_text(s.output) + s.text =~= output_text(s.output));
    } else {
        let part = ContentPartModel::OutputText { text: s.text };
        item_more(s.output, OutputItemModel::Message { content: seq![part] });
        reveal_with_fuel(parts_text, 2);
        assert(seq![part].drop_last() =~= Seq::<ContentPartModel>::empty());
        assert(parts_text(seq![part]) =~= s.text);
    }
}

proof fn text_so_far(events: Seq<ResponsesStreamEvent>)
    requires
        forall|i: int| 0 <= i < events.len() ==> !((#[trigger] events[i]) is Completed),
    ensures
        ({
            let s = after_events(nothing_yet(), events);
            &&& !s.completed
            &&& s.usage is None
            &&& s.stop_reason is None
            &&& output_text(s.output) + s.text == sent_text(events)
        }),
    decreases events.len(),
{
    let s = after_events(nothing_yet(), events);
    if events.len() == 0 {
        assert(output_text(s.output) + s.text =~= sent_text(events));
    } else {
        let rest = events.drop_last();
        let event = events.last();
        assert forall|i: int| 0 <= i < rest.len() implies !((#[trigger] rest[i]) is Completed) by {
            assert(rest[i] == events[i]);
        }
        assert(!(events[events.len() - 1] is Completed));
        text_so_far(rest);
        let p = after_events(nothing_yet(), rest);
        match event {
            ResponsesStreamEvent::OutputTextDelta { delta } => {
                assert(output_text(p.output) + (p.text + delta@) =~= output_text(p.output) + p.text
                    + delta@);
            },
            ResponsesStreamEvent::OutputItemAdded { item } => {
                flushing_keeps_text(p);
                assert(output_text(s.output) + s.text =~= sent_text(rest));
                assert(sent_text(rest) + Seq::<char>::empty() =~= sent_text(rest));
            },
            ResponsesStreamEvent::OutputItemDone {  } => {
                if let Some((call_id, name)) = p.function {
                    item_more(
                        p.output,
                        OutputItemModel::FunctionCall { call_id, name, arguments: p.arguments },
                    );
                }
                assert(output_text(s.output) =~= output_text(p.output));
                assert(sent_text(rest) + Seq::<char>::empty() =~= sent_text(rest));
            },
            _ => {
                assert(sent_text(rest) + Seq::<char>::empty() =~= sent_text(rest));
            },
        }
    }
}

/// The answer holds the text that the upstream has sent, all of it and in its
/// order, where the stream ends without a completion. It then says neither why
/// it ended nor what it took.
pub proof fn text_is_kept_without_completion(events: Seq<ResponsesStreamEvent>)
    requires
        forall|i: int| 0 <= i < events.len() ==> !((#[trigger] events[i]) is Completed),
    ensures
        ({
            let answer = finished(after_events(nothing_yet(), events));
            &&& output_text(answer.output) == sent_text(events)
            &&& answer.stop_reason is None
            &&& answer.usage == (ResponsesUsage {
                input_tokens: 0,
                output_tokens: 0,
                input_tokens_details: InputTokensDetails { cached_tokens: 0 },
            })
        }),
{
    text_so_far(events);
    flushing_keeps_text(after_events(nothing_yet(), events));
}

/// The same holds where a completion comes that holds no output itself.
pub proof fn text_is_kept_with_completion(
    events: Seq<ResponsesStreamEvent>,
    response: ResponseCompletedPayload,
)
    requires
        forall|i: int| 0 <= i < events.len() ==> !((#[trigger] events[i]) is Completed),
        response.output@.len() == 0,
    ensures
        ({
            let end = ResponsesStreamEvent::Completed { response };
            let answer = finished(after_events(nothing_yet(), events.push(end)));
            output_text(answer.output) == sent_text(events)
        }),
{
    let end = ResponsesStreamEvent::Completed { response };
    assert(events.push(end).drop_last() =~= events);
    text_so_far(events);
    let s = after_events(nothing_yet(), events);
    flushing_keeps_text(s);
    let t = after_event(s, end);
    flushing_keeps_text(t);
    assert(t.text.len() == 0);
    assert(output_text(t.output) + t.text =~= output_text(t.output));
}

/// The pieces of arguments, one behind the other.
pub open spec fn joined_pieces(pieces: Seq<ResponsesStreamEvent>) -> Seq<char>
    decreases pieces.len(),
{
    if pieces.len() == 0 {
        Seq::empty()
    } else {
        joined_pieces(pieces.drop_last()) + match pieces.last() {
            ResponsesStreamEvent::FunctionCallArgumentsDelta { delta } => delta@,
            _ => Seq::empty(),
        }
    }
}

proof fn pieces_are_collected(s: AggregationModel, pieces: Seq<ResponsesStreamEvent>)
    requires
        !s.completed,
        forall|i: int|
            0 <= i < pieces.len() ==> (#[trigger] pieces[i]) is FunctionCallArgumentsDelta,
    ensures
        after_events(s, pieces) == (AggregationModel {
            arguments: s.arguments + joined_pieces(pieces),
            ..s
        }),
    decreases pieces.len(),
{
    if pieces.len() == 0 {
        assert(s.arguments + joined_pieces(pieces) =~= s.arguments);
    } else {
        assert(pieces[pieces.len() - 1] is FunctionCallArgumentsDelta);
        pieces_are_collected(s, pieces.drop_last());
        assert(s.arguments + joined_pieces(pieces) =~= s.arguments + joined_pieces(
            pieces.drop_last(),
        ) + match pieces.last() {
            ResponsesStreamEvent::FunctionCallArgumentsDelta { delta } => delta@,
            _ => Seq::empty(),
        });
    }
}

/// A function call that begins, brings its arguments and ends is one item of
/// the output, behind what was there and the text that came before it: with its
/// own id and name, and with all of its arguments in their order; where no
/// piece of them came, with those that came at the end.
pub proof fn call_becomes_one_item(
    s: AggregationModel,
    item: OutputItemAddedPayload,
    pieces: Seq<ResponsesStreamEvent>,
    arguments: String,
)
    requires
        !s.completed,
        item.item_type@ == "function_call"@,
        forall|i: int|
            0 <= i < pieces.len() ==> (#[trigger] pieces[i]) is FunctionCallArgumentsDelta,
    ensures
        ({
            let begun = after_event(s, ResponsesStreamEvent::OutputItemAdded { item });
            let brought = after_event(
                after_events(begun, pieces),
                ResponsesStreamEvent::FunctionCallArgumentsDone { arguments },
            );
            let done = after_event(brought, ResponsesStreamEvent::OutputItemDone {  });
            let before = text_flushed(s).output;
            &&& done.output == before.push(
                OutputItemModel::FunctionCall {
                    call_id: item_id(item),
                    name: item_name(item),
                    arguments: if joined_pieces(pieces).len() > 0 {
                        joined_pieces(pieces)
                    } else {
                        arguments@
                    },
                },
            )
            &&& output_text(before) == output_text(s.output) + s.text
            &&& done.text.len() == 0
        }),
{
    let begun = after_event(s, ResponsesStreamEvent::OutputItemAdded { item });
    pieces_are_collected(begun, pieces);
    assert(Seq::<char>::empty() + joined_pieces(pieces) =~= joined_pieces(pieces));
    flushing_keeps_text(s);
}

/// The first id and the first model that the upstream names, at the beginning
/// or with the completion, are those of the answer; each is kept once it is
/// there, whatever comes later.
pub proof fn answer_has_the_upstreams_id(
    s: AggregationModel,
    begun: ResponseCreatedPayload,
    response: ResponseCompletedPayload,
)
    requires
        !s.completed,
    ensures
        ({
            let a = after_event(s, ResponsesStreamEvent::Created { response: begun });
            let b = after_event(s, ResponsesStreamEvent::Completed { response });
            &&& s.id.len() > 0 ==> a.id == s.id && finished(b).id == s.id
            &&& s.id.len() == 0 ==> a.id == begun.id@ && finished(b).id == response.id@
            &&& s.model.len() > 0 ==> a.model == s.model && finished(b).model == s.model
            &&& s.model.len() == 0 ==> a.model == begun.model@ && finished(b).model
                == response.model@
            &&& nothing_yet().id.len() == 0 && nothing_yet().model.len() == 0
        }),
{
}

/// No other event changes them.
pub proof fn other_events_keep_the_id(s: AggregationModel, event: ResponsesStreamEvent)
    requires
        !(event is Created),
        !(event is Completed),
    ensures
        after_event(s, event).id == s.id,
        after_event(s, event).model == s.model,
{
}

/// A stream that breaks off is told with its cause, and one that stays silent
/// with the time; there is no answer then.
pub proof fn failures_are_told(s: AggregationModel, cause: String, seconds: u64)
    ensures
        after_input(s, StreamInput::Failed(StreamError::Connection(cause))) == TakenModel::Broken(
            "stream error: "@ + ("connection error: "@ + cause@),
        ),
        after_input(s, StreamInput::TimedOut { seconds }) == TakenModel::Broken(
            "stream error: "@ + ("stream "@ + "idle"@ + " timeout ("@ + decimal(seconds as nat)
                + "s)"@),
        ),
{
}

/// The end of the bytes and the completion finish the answer; any other event
/// goes on with it.
pub proof fn answers_are_finished(s: AggregationModel, event: ResponsesStreamEvent)
    requires
        !s.completed,
    ensures
        after_input(s, StreamInput::Ended) == TakenModel::Finished(finished(s)),
        event is Completed ==> after_input(s, StreamInput::Event(event)) == TakenModel::Finished(
            finished(after_event(s, event)),
        ),
        !(event is Completed) ==> after_input(s, StreamInput::Event(event)) == TakenModel::More(
            after_event(s, event),
        ),
{
}

} // verus!
