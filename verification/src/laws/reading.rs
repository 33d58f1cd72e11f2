//! Events out of bytes: what the upstream writes is what is read.

use vstd::prelude::*;
use vstd::utf8::{decode_utf8, valid_utf8};

use crate::client::sse::{
    after_input, bare_line, chat_reading_of, input_items, items_of, limit_of, line_end,
    line_end_stops, line_item, lines_in, reading_of, rest_of, text_item, ByteInput, ReaderModel,
    Reading, SseItem, SseItemModel,
};
use crate::convert::stream::{OpenAiSseEvent, StreamError};
use crate::decimal::decimal;
use crate::text::{has_prefix, trimmed};
use crate::types::openai::ChatCompletionChunk;
use crate::types::responses::ResponsesStreamEvent;
use crate::upstream::mode::UpstreamApiMode;

verus! {

/// No line feed stands in the bytes.
pub open spec fn is_one_line(line: Seq<u8>) -> bool {
    forall|i: int| 0 <= i < line.len() ==> #[trigger] line[i] != 10
}

proof fn first_line_feed(line: Seq<u8>, rest: Seq<u8>)
    requires
        is_one_line(line),
    ensures
        line_end(line + seq![10u8] + rest) == line.len(),
        line_end(line) == line.len(),
{
    let all = line + seq![10u8] + rest;
    line_end_stops(all);
    line_end_stops(line);
    let n = line_end(all) as int;
    if n < line.len() {
        assert(all[n] == line[n]);
    }
    if n > line.len() {
        assert(all[line.len() as int] == 10);
    }
    if line_end(line) < line.len() {
        assert(line[line_end(line) as int] == 10);
    }
}

/// A line is what stands before its line feed, and the lines of the rest
/// follow. What stands behind the last line feed is kept back.
pub proof fn bytes_are_cut_at_line_feeds(line: Seq<u8>, rest: Seq<u8>)
    requires
        is_one_line(line),
    ensures
        lines_in(line + seq![10u8] + rest) == seq![line] + lines_in(rest),
        rest_of(line + seq![10u8] + rest) == rest_of(rest),
        lines_in(line).len() == 0,
        rest_of(line) == line,
{
    let all = line + seq![10u8] + rest;
    first_line_feed(line, rest);
    assert(all.take(line.len() as int) =~= line);
    assert(all.skip(line.len() as int + 1) =~= rest);
}

/// A line of text brings what stands behind `data: `, trimmed, and the mark of
/// the end where that is it. Any other line brings nothing.
pub proof fn data_stands_behind_its_name(data: Seq<char>, line: Seq<char>)
    ensures
        trimmed(data) != "[DONE]"@ ==> text_item("data: "@ + data) == Some(
            SseItemModel::Data(trimmed(data)),
        ),
        trimmed(data) == "[DONE]"@ ==> text_item("data: "@ + data) == Some(SseItemModel::Done),
        (forall|d: Seq<char>| line != "data: "@ + d) ==> text_item(line) is None,
{
    let all = "data: "@ + data;
    let n = "data: "@.len() as int;
    assert(all.take(n) =~= "data: "@);
    assert(all.skip(n) =~= data);
    if has_prefix(line, "data: "@) {
        assert(line =~= "data: "@ + line.skip(n));
    }
}

/// A carriage return before a line feed does not count.
pub proof fn carriage_return_does_not_count(line: Seq<u8>)
    requires
        line.len() > 0 ==> line.last() != 13,
    ensures
        bare_line(line.push(13)) == line,
        bare_line(line) == line,
{
    assert(line.push(13).drop_last() =~= line);
}

/// An event that comes in one chunk, with its empty line, is read as just its
/// data, whichever API sends it.
pub proof fn event_is_read(r: ReaderModel, line: Seq<u8>, bytes: Vec<u8>, data: Seq<char>)
    requires
        !r.finished,
        r.buffer.len() == 0,
        is_one_line(line),
        line.len() > 0 ==> line.last() != 13,
        valid_utf8(line),
        decode_utf8(line) == "data: "@ + data,
        trimmed(data) != "[DONE]"@,
        bytes@ == line + seq![10u8, 10u8],
        bytes@.len() <= 4_194_304,
    ensures
        input_items(r, ByteInput::Bytes(bytes)) == seq![SseItemModel::Data(trimmed(data))],
        !after_input(r, ByteInput::Bytes(bytes)).finished,
        after_input(r, ByteInput::Bytes(bytes)).buffer.len() == 0,
{
    let all = r.buffer + bytes@;
    let empty = Seq::<u8>::empty();
    assert(all =~= line + seq![10u8] + (empty + seq![10u8] + empty));
    bytes_are_cut_at_line_feeds(line, empty + seq![10u8] + empty);
    bytes_are_cut_at_line_feeds(empty, empty);
    data_stands_behind_its_name(data, Seq::empty());
    carriage_return_does_not_count(line);
    let lines = lines_in(all);
    assert(lines =~= seq![line, empty]);
    assert(lines.skip(1) =~= seq![empty]);
    assert(lines.skip(1).skip(1) =~= Seq::<Seq<u8>>::empty());
    empty_line_brings_nothing();
    let item = SseItemModel::Data(trimmed(data));
    assert(line_item(line) == Some(item));
    assert(items_of(lines.skip(1).skip(1)) =~= Seq::<SseItemModel>::empty());
    assert(lines.skip(1)[0] == empty);
    assert(items_of(lines.skip(1)) =~= Seq::<SseItemModel>::empty());
    assert(items_of(lines) =~= seq![item]);
}

proof fn empty_line_brings_nothing()
    ensures
        line_item(Seq::empty()) is None,
{
    reveal_strlit("data: ");
    let empty = Seq::<u8>::empty();
    assert(valid_utf8(empty));
    assert(decode_utf8(empty).len() == 0);
    assert("data: "@.len() == 6);
}

/// The mark of the end ends the reading, and nothing behind it is read. The
/// client of the Chat Completions API is told of it, that of the Responses API
/// is not.
pub proof fn end_mark_ends_the_reading(
    r: ReaderModel,
    line: Seq<u8>,
    bytes: Vec<u8>,
    data: Seq<char>,
    rest: Seq<u8>,
)
    requires
        !r.finished,
        r.buffer.len() == 0,
        is_one_line(line),
        line.len() > 0 ==> line.last() != 13,
        valid_utf8(line),
        decode_utf8(line) == "data: "@ + data,
        trimmed(data) == "[DONE]"@,
        bytes@ == line + seq![10u8] + rest,
        bytes@.len() <= 4_194_304,
    ensures
        input_items(r, ByteInput::Bytes(bytes)) == if r.api == UpstreamApiMode::Responses {
            Seq::empty()
        } else {
            seq![SseItemModel::Done]
        },
        after_input(r, ByteInput::Bytes(bytes)).finished,
{
    let all = r.buffer + bytes@;
    assert(all =~= line + seq![10u8] + rest);
    bytes_are_cut_at_line_feeds(line, rest);
    data_stands_behind_its_name(data, Seq::empty());
    carriage_return_does_not_count(line);
    let lines = lines_in(all);
    assert(lines[0] == line);
    assert(items_of(lines) =~= seq![SseItemModel::Done]);
    assert(seq![SseItemModel::Done].drop_last() =~= Seq::<SseItemModel>::empty());
}

/// A reader that has ended reads nothing more.
pub proof fn ended_reader_reads_nothing(r: ReaderModel, input: ByteInput)
    requires
        r.finished,
    ensures
        input_items(r, input).len() == 0,
        after_input(r, input) == r,
{
}

/// A failure is passed on with its cause and ends the reading, and so do a
/// silence, with the time and with whether anything had come, and too many
/// bytes. The end of the bytes ends it without a word.
pub proof fn failures_end_the_reading(r: ReaderModel, cause: String, bytes: Vec<u8>, seconds: u64)
    requires
        !r.finished,
    ensures
        input_items(r, ByteInput::Failed(cause)) == seq![SseItemModel::Failed(cause@)],
        input_items(r, ByteInput::Ended).len() == 0,
        input_items(r, ByteInput::TimedOut { seconds }) == seq![
            SseItemModel::Failed(
                if r.api == UpstreamApiMode::Responses {
                    "responses "@
                } else {
                    Seq::empty()
                } + ("stream "@ + if r.first {
                    "first-byte"@
                } else {
                    "idle"@
                } + " timeout ("@ + decimal(seconds as nat) + "s)"@),
            ),
        ],
        r.buffer.len() + bytes@.len() > 4_194_304 ==> {
            &&& input_items(r, ByteInput::Bytes(bytes)) == seq![
                SseItemModel::Failed(
                    if r.api == UpstreamApiMode::Responses {
                        "Responses SSE buffer overflow"@
                    } else {
                        "SSE buffer overflow"@
                    },
                ),
            ]
            &&& after_input(r, ByteInput::Bytes(bytes)).finished
        },
        after_input(r, ByteInput::Failed(cause)).finished,
        after_input(r, ByteInput::Ended).finished,
        after_input(r, ByteInput::TimedOut { seconds }).finished,
{
    let said = "stream "@ + if r.first {
        "first-byte"@
    } else {
        "idle"@
    } + " timeout ("@ + decimal(seconds as nat) + "s)"@;
    assert(Seq::<char>::empty() + said =~= said);
}

/// Once bytes have come, the first chunk is not awaited any more.
pub proof fn first_chunk_comes_once(r: ReaderModel, bytes: Vec<u8>)
    requires
        !r.finished,
    ensures
        !after_input(r, ByteInput::Bytes(bytes)).first,
        after_input(r, ByteInput::Bytes(bytes)).api == r.api,
{
}

/// Data that stands for an event is handed on as that event, and nothing else
/// is; the completion is the last one. Data that stands for none is skipped.
pub proof fn events_are_handed_on(
    data: String,
    event: ResponsesStreamEvent,
    chunk: ChatCompletionChunk,
    error: StreamError,
    decoded: Option<ResponsesStreamEvent>,
    decoded_chunk: Option<ChatCompletionChunk>,
)
    ensures
        event is Completed ==> reading_of(SseItem::Data(data), Some(event)) == Reading::Last(event),
        !(event is Completed) ==> reading_of(SseItem::Data(data), Some(event)) == Reading::HandOn(
            event,
        ),
        reading_of(SseItem::Data(data), None) is Skip,
        reading_of(SseItem::Done, decoded) is Stop,
        reading_of(SseItem::Failed(error), decoded) == Reading::<ResponsesStreamEvent>::Broken(
            error,
        ),
        chat_reading_of(SseItem::Data(data), Some(chunk)) == Reading::HandOn(
            OpenAiSseEvent::Chunk(chunk),
        ),
        chat_reading_of(SseItem::Data(data), None) is Skip,
        chat_reading_of(SseItem::Done, decoded_chunk) == Reading::Last(OpenAiSseEvent::Done),
        chat_reading_of(SseItem::Failed(error), decoded_chunk) == Reading::<
            OpenAiSseEvent,
        >::Broken(error),
{
}

/// The first chunk has a time limit of its own; a limit of zero is none.
pub proof fn limits_are_kept(r: ReaderModel, first: u64, idle: u64)
    ensures
        r.first && first > 0 ==> limit_of(r, first, idle) == Some(first),
        !r.first && idle > 0 ==> limit_of(r, first, idle) == Some(idle),
        r.first && first == 0 ==> limit_of(r, first, idle) is None,
        !r.first && idle == 0 ==> limit_of(r, first, idle) is None,
{
}

} // verus!
