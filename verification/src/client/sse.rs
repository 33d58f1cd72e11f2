//! Server-sent events in a stream of bytes.
//!
//! The bytes come in chunks that may end anywhere, within a character too. So
//! they are collected, and a line is turned into text only when all of it has
//! come.

use vstd::prelude::*;
use vstd::utf8::{decode_utf8, valid_utf8};

use crate::convert::stream::{timeout_message, timeout_text, OpenAiSseEvent, StreamError};
use crate::text::{chars_of, chars_start_with, has_prefix, same, text_of, trim, trimmed};
use crate::types::openai::ChatCompletionChunk;
use crate::types::responses::ResponsesStreamEvent;
use crate::upstream::mode::UpstreamApiMode;

verus! {

/// The most bytes that are collected (4 MiB).
pub const MAX_SSE_BUFFER: usize = 4_194_304;

// ---------------------------------------------------------------------------
// Bytes as text
// ---------------------------------------------------------------------------

/// The text that `String::from_utf8_lossy` makes of bytes that are no UTF-8.
pub uninterp spec fn repaired_text(bytes: Seq<u8>) -> Seq<char>;

/// The text that bytes stand for: what they encode, if they are UTF-8.
pub open spec fn lossy_text(bytes: Seq<u8>) -> Seq<char> {
    if valid_utf8(bytes) {
        decode_utf8(bytes)
    } else {
        repaired_text(bytes)
    }
}

/// `String::from_utf8_lossy`: the text that the bytes encode. Where they are
/// no UTF-8, it holds replacement characters in place of what is none.
#[verifier::external_body]
fn from_utf8_lossy(bytes: &Vec<u8>) -> (r: String)
    ensures
        valid_utf8(bytes@) ==> r@ == decode_utf8(bytes@),
        !valid_utf8(bytes@) ==> r@ == repaired_text(bytes@),
{
    String::from_utf8_lossy(bytes).to_string()
}

// ---------------------------------------------------------------------------
// Lines
// ---------------------------------------------------------------------------

/// The place of the first line feed; the number of bytes where there is none.
pub open spec fn line_end(s: Seq<u8>) -> nat
    decreases s.len(),
{
    if s.len() == 0 || s[0] == 10 {
        0
    } else {
        1 + line_end(s.skip(1))
    }
}

/// The first line feed stands where [`line_end`] says.
pub proof fn line_end_stops(s: Seq<u8>)
    ensures
        line_end(s) <= s.len(),
        forall|k: int| 0 <= k < line_end(s) ==> s[k] != 10,
        line_end(s) < s.len() ==> s[line_end(s) as int] == 10,
    decreases s.len(),
{
    if s.len() > 0 && s[0] != 10 {
        line_end_stops(s.skip(1));
        assert forall|k: int| 0 <= k < line_end(s) implies s[k] != 10 by {
            if k > 0 {
                assert(s[k] == s.skip(1)[k - 1]);
            }
        }
        assert(line_end(s) < s.len() ==> s[line_end(s) as int] == s.skip(1)[line_end(s) - 1]);
    }
}

/// A line feed in the first part of a text is the first of the whole.
proof fn line_end_in_part(a: Seq<u8>, b: Seq<u8>)
    ensures
        line_end(a) < a.len() ==> line_end(a + b) == line_end(a),
        line_end(a) == a.len() ==> line_end(a + b) == a.len() + line_end(b),
    decreases a.len(),
{
    if a.len() == 0 {
        assert(a + b =~= b);
    } else {
        assert((a + b)[0] == a[0]);
        assert((a + b).skip(1) =~= a.skip(1) + b);
        line_end_in_part(a.skip(1), b);
    }
}

/// The complete lines in `s`, without their line feeds.
pub open spec fn lines_in(s: Seq<u8>) -> Seq<Seq<u8>>
    decreases s.len(),
    via lines_in_shrinks
{
    let end = line_end(s);
    if end >= s.len() {
        Seq::empty()
    } else {
        seq![s.take(end as int)] + lines_in(s.skip(end as int + 1))
    }
}

#[via_fn]
proof fn lines_in_shrinks(s: Seq<u8>) {
    line_end_stops(s);
}

/// What stands behind the last line feed.
pub open spec fn rest_of(s: Seq<u8>) -> Seq<u8>
    decreases s.len(),
    via rest_of_shrinks
{
    let end = line_end(s);
    if end >= s.len() {
        s
    } else {
        rest_of(s.skip(end as int + 1))
    }
}

#[via_fn]
proof fn rest_of_shrinks(s: Seq<u8>) {
    line_end_stops(s);
}

/// A line without the carriage return at its end.
pub open spec fn bare_line(line: Seq<u8>) -> Seq<u8> {
    if line.len() > 0 && line.last() == 13 {
        line.drop_last()
    } else {
        line
    }
}

/// In whatever chunks the bytes come, they make up the same lines: those of a
/// first chunk, and then those of what it left over and the second chunk.
pub proof fn chunks_do_not_matter(a: Seq<u8>, b: Seq<u8>)
    ensures
        lines_in(a + b) == lines_in(a) + lines_in(rest_of(a) + b),
        rest_of(a + b) == rest_of(rest_of(a) + b),
    decreases a.len(),
{
    let end = line_end(a);
    line_end_stops(a);
    line_end_in_part(a, b);
    if end >= a.len() {
        assert(lines_in(a) + lines_in(rest_of(a) + b) =~= lines_in(a + b));
    } else {
        let next = a.skip(end as int + 1);
        assert((a + b).take(end as int) =~= a.take(end as int));
        assert((a + b).skip(end as int + 1) =~= next + b);
        chunks_do_not_matter(next, b);
        assert(lines_in(a + b) =~= lines_in(a) + lines_in(rest_of(a) + b));
    }
}

// ---------------------------------------------------------------------------
// Events
// ---------------------------------------------------------------------------

/// What a stream of bytes brings.
#[derive(Debug)]
pub enum SseItem {
    /// The data of an event.
    Data(String),
    /// The mark of the end.
    Done,
    /// The stream broke off.
    Failed(StreamError),
}

/// The model of an [`SseItem`].
pub enum SseItemModel {
    Data(Seq<char>),
    Done,
    Failed(Seq<char>),
}

impl DeepView for SseItem {
    type V = SseItemModel;

    open spec fn deep_view(&self) -> SseItemModel {
        match self {
            SseItem::Data(data) => SseItemModel::Data(data@),
            SseItem::Done => SseItemModel::Done,
            SseItem::Failed(StreamError::Connection(cause)) => SseItemModel::Failed(cause@),
        }
    }
}

/// What a line of text brings: data behind `data: `, or the mark of the end.
/// Other lines bring nothing.
pub open spec fn text_item(line: Seq<char>) -> Option<SseItemModel> {
    if has_prefix(line, "data: "@) {
        let data = trimmed(line.skip("data: "@.len() as int));
        if data == "[DONE]"@ {
            Some(SseItemModel::Done)
        } else {
            Some(SseItemModel::Data(data))
        }
    } else {
        None
    }
}

/// What a line of bytes brings.
pub open spec fn line_item(line: Seq<u8>) -> Option<SseItemModel> {
    text_item(lossy_text(bare_line(line)))
}

/// What lines bring, up to the mark of the end.
pub open spec fn items_of(lines: Seq<Seq<u8>>) -> Seq<SseItemModel>
    decreases lines.len(),
{
    if lines.len() == 0 {
        Seq::empty()
    } else {
        match line_item(lines[0]) {
            None => items_of(lines.skip(1)),
            Some(SseItemModel::Done) => seq![SseItemModel::Done],
            Some(item) => seq![item] + items_of(lines.skip(1)),
        }
    }
}

/// The mark of the end is among the items.
pub open spec fn has_done(items: Seq<SseItemModel>) -> bool {
    items.len() > 0 && items.last() is Done
}

/// Reads a line of text.
pub fn read_line(line: &str) -> (r: Option<SseItem>)
    ensures
        r.deep_view() == text_item(line@),
{
    let chars = chars_of(line);
    let prefix = chars_of("data: ");
    assert(chars@.skip(0) =~= chars@);
    if !chars_start_with(&chars, 0, &prefix) {
        return None;
    }
    let rest = text_of(&chars, prefix.len(), chars.len());
    assert(rest@ =~= line@.skip("data: "@.len() as int));
    let data = trim(rest.as_str());
    if same(data.as_str(), "[DONE]") {
        Some(SseItem::Done)
    } else {
        Some(SseItem::Data(data))
    }
}

/// The bytes from `from` up to `to`.
fn part(bytes: &Vec<u8>, from: usize, to: usize) -> (r: Vec<u8>)
    requires
        from <= to <= bytes@.len(),
    ensures
        r@ == bytes@.subrange(from as int, to as int),
{
    let mut out: Vec<u8> = Vec::new();
    let mut i: usize = from;
    while i < to
        invariant
            from <= i <= to <= bytes@.len(),
            out@ == bytes@.subrange(from as int, i as int),
        decreases to - i,
    {
        out.push(bytes[i]);
        assert(out@ =~= bytes@.subrange(from as int, i + 1));
        i += 1;
    }
    out
}

/// The place of the first line feed from `from` on.
fn find_line_end(bytes: &Vec<u8>, from: usize) -> (r: usize)
    requires
        from <= bytes@.len(),
    ensures
        from <= r <= bytes@.len(),
        r == from + line_end(bytes@.skip(from as int)),
{
    let mut i: usize = from;
    while i < bytes.len() && bytes[i] != 10
        invariant
            from <= i <= bytes@.len(),
            from + line_end(bytes@.skip(from as int)) == i + line_end(bytes@.skip(i as int)),
        decreases bytes.len() - i,
    {
        assert(bytes@.skip(i as int)[0] == bytes@[i as int]);
        assert(bytes@.skip(i as int).skip(1) =~= bytes@.skip(i + 1));
        i += 1;
    }
    assert(i < bytes@.len() ==> bytes@.skip(i as int)[0] == bytes@[i as int]);
    i
}

/// What the complete lines in `bytes` bring, up to the mark of the end.
fn read_lines(bytes: &Vec<u8>) -> (r: Vec<SseItem>)
    ensures
        r.deep_view() == items_of(lines_in(bytes@)),
{
    let mut out: Vec<SseItem> = Vec::new();
    let mut from: usize = 0;
    let ghost all = items_of(lines_in(bytes@));
    assert(bytes@.skip(0) =~= bytes@);
    assert(out.deep_view() + all =~= all);
    loop
        invariant
            from <= bytes@.len(),
            all == items_of(lines_in(bytes@)),
            all == out.deep_view() + items_of(lines_in(bytes@.skip(from as int))),
        decreases bytes.len() - from,
    {
        let ghost tail = bytes@.skip(from as int);
        let ghost lines = lines_in(tail);
        let end: usize = find_line_end(bytes, from);
        if end >= bytes.len() {
            assert(lines =~= Seq::<Seq<u8>>::empty());
            assert(all =~= out.deep_view());
            return out;
        }
        proof {
            assert(tail.skip(end - from + 1) =~= bytes@.skip(end + 1));
            assert(lines[0] =~= bytes@.subrange(from as int, end as int));
            assert(lines.skip(1) =~= lines_in(bytes@.skip(end + 1)));
        }
        let mut line = part(bytes, from, end);
        if line.len() > 0 && line[line.len() - 1] == 13 {
            let ghost whole = line@;
            line.pop();
            assert(line@ =~= whole.drop_last());
        }
        assert(line@ == bare_line(lines[0]));
        let text = from_utf8_lossy(&line);
        let ghost so_far = out.deep_view();
        match read_line(text.as_str()) {
            Some(SseItem::Done) => {
                out.push(SseItem::Done);
                assert(out.deep_view() =~= so_far + seq![SseItemModel::Done]);
                return out;
            },
            Some(item) => {
                let ghost model = item.deep_view();
                out.push(item);
                assert(out.deep_view() =~= so_far + seq![model]);
                assert(all =~= out.deep_view() + items_of(lines_in(bytes@.skip(end + 1))));
            },
            None => {},
        }
        from = end + 1;
    }
}

/// The bytes behind the last line feed.
fn leftover(bytes: &Vec<u8>) -> (r: Vec<u8>)
    ensures
        r@ == rest_of(bytes@),
{
    let mut from: usize = 0;
    assert(bytes@.skip(0) =~= bytes@);
    loop
        invariant
            from <= bytes@.len(),
            rest_of(bytes@) == rest_of(bytes@.skip(from as int)),
        decreases bytes.len() - from,
    {
        let end: usize = find_line_end(bytes, from);
        if end >= bytes.len() {
            assert(bytes@.subrange(from as int, bytes@.len() as int) =~= bytes@.skip(from as int));
            return part(bytes, from, bytes.len());
        }
        assert(bytes@.skip(from as int).skip(end - from + 1) =~= bytes@.skip(end + 1));
        from = end + 1;
    }
}

// ---------------------------------------------------------------------------
// The reader
// ---------------------------------------------------------------------------

/// What waiting for the next chunk of bytes can lead to.
#[derive(Debug)]
pub enum ByteInput {
    Bytes(Vec<u8>),
    /// The connection broke off for this cause.
    Failed(String),
    /// There are no more bytes.
    Ended,
    /// Nothing came for so many seconds.
    TimedOut { seconds: u64 },
}

/// The state of reading events out of bytes.
#[derive(Debug)]
pub struct SseReader {
    pub api: UpstreamApiMode,
    /// The bytes of the line that is not complete yet.
    pub buffer: Vec<u8>,
    /// Whether no chunk has come yet.
    pub is_first_chunk: bool,
    /// Whether nothing more is read.
    pub finished: bool,
}

/// The model of an [`SseReader`].
pub struct ReaderModel {
    pub api: UpstreamApiMode,
    pub buffer: Seq<u8>,
    pub first: bool,
    pub finished: bool,
}

impl View for SseReader {
    type V = ReaderModel;

    open spec fn view(&self) -> ReaderModel {
        ReaderModel {
            api: self.api,
            buffer: self.buffer@,
            first: self.is_first_chunk,
            finished: self.finished,
        }
    }
}

/// What is said when more bytes have come than are collected.
pub open spec fn overflow_text(api: UpstreamApiMode) -> Seq<char> {
    match api {
        UpstreamApiMode::Responses => "Responses SSE buffer overflow"@,
        UpstreamApiMode::ChatCompletions => "SSE buffer overflow"@,
    }
}

/// What is said of a timeout.
pub open spec fn reader_timeout_text(r: ReaderModel, seconds: u64) -> Seq<char> {
    let text = timeout_text(
        if r.first {
            "first-byte"@
        } else {
            "idle"@
        },
        seconds,
    );
    match r.api {
        UpstreamApiMode::Responses => "responses "@ + text,
        UpstreamApiMode::ChatCompletions => text,
    }
}

/// The items that are handed on. The mark of the end is an event of the Chat
/// Completions API; the Responses API has an event of its own for that.
pub open spec fn handed_on(api: UpstreamApiMode, items: Seq<SseItemModel>) -> Seq<SseItemModel> {
    if api == UpstreamApiMode::Responses && has_done(items) {
        items.drop_last()
    } else {
        items
    }
}

/// The items that what came of waiting brings.
pub open spec fn input_items(r: ReaderModel, input: ByteInput) -> Seq<SseItemModel> {
    if r.finished {
        Seq::empty()
    } else {
        match input {
            ByteInput::Bytes(bytes) => if r.buffer.len() + bytes@.len() > MAX_SSE_BUFFER {
                seq![SseItemModel::Failed(overflow_text(r.api))]
            } else {
                handed_on(r.api, items_of(lines_in(r.buffer + bytes@)))
            },
            ByteInput::Failed(cause) => seq![SseItemModel::Failed(cause@)],
            ByteInput::Ended => Seq::empty(),
            ByteInput::TimedOut { seconds } => seq![
                SseItemModel::Failed(reader_timeout_text(r, seconds)),
            ],
        }
    }
}

/// The reader after what came of waiting.
pub open spec fn after_input(r: ReaderModel, input: ByteInput) -> ReaderModel {
    if r.finished {
        r
    } else {
        match input {
            ByteInput::Bytes(bytes) => if r.buffer.len() + bytes@.len() > MAX_SSE_BUFFER {
                ReaderModel { first: false, finished: true, ..r }
            } else {
                ReaderModel {
                    buffer: rest_of(r.buffer + bytes@),
                    first: false,
                    finished: has_done(items_of(lines_in(r.buffer + bytes@))),
                    ..r
                }
            },
            _ => ReaderModel { finished: true, ..r },
        }
    }
}

/// How many seconds the next chunk is waited for; nothing stands for as long as
/// it takes.
pub open spec fn limit_of(r: ReaderModel, first_byte_timeout: u64, idle_timeout: u64) -> Option<
    u64,
> {
    let limit = if r.first {
        first_byte_timeout
    } else {
        idle_timeout
    };
    if limit == 0 {
        None
    } else {
        Some(limit)
    }
}

impl SseReader {
    /// Before the first chunk.
    pub fn new(api: UpstreamApiMode) -> (r: SseReader)
        ensures
            r@ == (ReaderModel { api, buffer: Seq::empty(), first: true, finished: false }),
    {
        let reader = SseReader { api, buffer: Vec::new(), is_first_chunk: true, finished: false };
        assert(reader.buffer@ =~= Seq::<u8>::empty());
        reader
    }

    /// How many seconds the next chunk is waited for: as long as it takes
    /// where the limit is 0.
    pub fn wait_limit(&self, first_byte_timeout: u64, idle_timeout: u64) -> (r: Option<u64>)
        ensures
            ({
                let limit = if self@.first {
                    first_byte_timeout
                } else {
                    idle_timeout
                };
                r == if limit == 0 {
                    None
                } else {
                    Some(limit)
                }
            }),
            r == limit_of(self@, first_byte_timeout, idle_timeout),
    {
        let limit: u64 = if self.is_first_chunk {
            first_byte_timeout
        } else {
            idle_timeout
        };
        if limit == 0 {
            None
        } else {
            Some(limit)
        }
    }

    /// Takes what came of waiting, and gives back what it brings.
    pub fn step(&mut self, input: &ByteInput) -> (r: Vec<SseItem>)
        ensures
            r.deep_view() == input_items(old(self)@, *input),
            final(self)@ == after_input(old(self)@, *input),
    {
        let mut out: Vec<SseItem> = Vec::new();
        assert(out.deep_view() =~= Seq::<SseItemModel>::empty());
        if self.finished {
            return out;
        }
        match input {
            ByteInput::Bytes(bytes) => {
                self.is_first_chunk = false;
                if self.buffer.len() > MAX_SSE_BUFFER || bytes.len() > MAX_SSE_BUFFER
                    - self.buffer.len() {
                    let cause = match self.api {
                        UpstreamApiMode::Responses => "Responses SSE buffer overflow",
                        UpstreamApiMode::ChatCompletions => "SSE buffer overflow",
                    };
                    out.push(SseItem::Failed(StreamError::Connection(cause.to_string())));
                    self.finished = true;
                    assert(out.deep_view() =~= input_items(old(self)@, *input));
                    return out;
                }
                let mut all = part(&self.buffer, 0, self.buffer.len());
                assert(all@ =~= self.buffer@);
                let mut more = part(bytes, 0, bytes.len());
                assert(more@ =~= bytes@);
                all.append(&mut more);
                out = read_lines(&all);
                self.buffer = leftover(&all);
                let ghost items = out.deep_view();
                if out.len() > 0 {
                    assert(items.last() == out@[out@.len() - 1].deep_view());
                    let done = match &out[out.len() - 1] {
                        SseItem::Done => true,
                        _ => false,
                    };
                    if done {
                        self.finished = true;
                        match self.api {
                            UpstreamApiMode::Responses => {
                                out.pop();
                                assert(out.deep_view() =~= items.drop_last());
                            },
                            UpstreamApiMode::ChatCompletions => {},
                        }
                    }
                }
            },
            ByteInput::Failed(cause) => {
                out.push(SseItem::Failed(StreamError::Connection(cause.clone())));
                self.finished = true;
                assert(out.deep_view() =~= input_items(old(self)@, *input));
            },
            ByteInput::Ended => {
                self.finished = true;
            },
            ByteInput::TimedOut { seconds } => {
                let kind = if self.is_first_chunk {
                    "first-byte"
                } else {
                    "idle"
                };
                let text = timeout_message(kind, *seconds);
                let cause = match self.api {
                    UpstreamApiMode::Responses => {
                        let mut cause = "responses ".to_string();
                        cause.push_str(text.as_str());
                        cause
                    },
                    UpstreamApiMode::ChatCompletions => text,
                };
                out.push(SseItem::Failed(StreamError::Connection(cause)));
                self.finished = true;
                assert(out.deep_view() =~= input_items(old(self)@, *input));
            },
        }
        out
    }
}

/// What two runs of lines bring: where the first does not hold the mark of the
/// end, what it brings and then what the second does.
pub proof fn items_of_more_lines(a: Seq<Seq<u8>>, b: Seq<Seq<u8>>)
    requires
        !has_done(items_of(a)),
    ensures
        items_of(a + b) == items_of(a) + items_of(b),
    decreases a.len(),
{
    if a.len() == 0 {
        assert(a + b =~= b);
        assert(items_of(a) + items_of(b) =~= items_of(b));
    } else {
        assert((a + b)[0] == a[0]);
        assert((a + b).skip(1) =~= a.skip(1) + b);
        let rest = items_of(a.skip(1));
        match line_item(a[0]) {
            None => {
                items_of_more_lines(a.skip(1), b);
            },
            Some(SseItemModel::Done) => {
                assert(items_of(a).last() is Done);
            },
            Some(item) => {
                if has_done(rest) {
                    assert(items_of(a).last() == rest.last());
                }
                items_of_more_lines(a.skip(1), b);
                assert(items_of(a + b) =~= items_of(a) + items_of(b));
            },
        }
    }
}

/// Behind the mark of the end nothing counts.
pub proof fn nothing_counts_behind_the_end(a: Seq<Seq<u8>>, b: Seq<Seq<u8>>)
    requires
        has_done(items_of(a)),
    ensures
        items_of(a + b) == items_of(a),
    decreases a.len(),
{
    assert((a + b)[0] == a[0]);
    assert((a + b).skip(1) =~= a.skip(1) + b);
    let rest = items_of(a.skip(1));
    match line_item(a[0]) {
        None => {
            nothing_counts_behind_the_end(a.skip(1), b);
        },
        Some(SseItemModel::Done) => {},
        Some(item) => {
            text_items_are_no_failures(a[0]);
            assert(items_of(a).last() == if rest.len() > 0 {
                rest.last()
            } else {
                item
            });
            nothing_counts_behind_the_end(a.skip(1), b);
        },
    }
}

proof fn text_items_are_no_failures(line: Seq<u8>)
    ensures
        !(line_item(line) matches Some(SseItemModel::Failed(_))),
{
}

/// The reader after all of `chunks`.
pub open spec fn after_chunks(r: ReaderModel, chunks: Seq<Vec<u8>>) -> ReaderModel
    decreases chunks.len(),
{
    if chunks.len() == 0 {
        r
    } else {
        after_input(after_chunks(r, chunks.drop_last()), ByteInput::Bytes(chunks.last()))
    }
}

/// What all of `chunks` bring.
pub open spec fn chunks_items(r: ReaderModel, chunks: Seq<Vec<u8>>) -> Seq<SseItemModel>
    decreases chunks.len(),
{
    if chunks.len() == 0 {
        Seq::empty()
    } else {
        chunks_items(r, chunks.drop_last()) + input_items(
            after_chunks(r, chunks.drop_last()),
            ByteInput::Bytes(chunks.last()),
        )
    }
}

/// The bytes of all of `chunks`.
pub open spec fn joined(chunks: Seq<Vec<u8>>) -> Seq<u8>
    decreases chunks.len(),
{
    if chunks.len() == 0 {
        Seq::empty()
    } else {
        joined(chunks.drop_last()) + chunks.last()@
    }
}

/// The limit of the buffer is never hit.
pub open spec fn stays_within_limit(r: ReaderModel, chunks: Seq<Vec<u8>>) -> bool
    decreases chunks.len(),
{
    chunks.len() == 0 || {
        let before = after_chunks(r, chunks.drop_last());
        &&& stays_within_limit(r, chunks.drop_last())
        &&& before.finished || before.buffer.len() + chunks.last()@.len() <= MAX_SSE_BUFFER
    }
}

/// A reader that has read `first` takes one more chunk.
proof fn one_more_chunk(r: ReaderModel, first: Seq<u8>, chunk: Vec<u8>)
    requires
        r.finished == has_done(items_of(lines_in(first))),
        !r.finished ==> r.buffer == rest_of(first) && r.buffer.len() + chunk@.len()
            <= MAX_SSE_BUFFER,
    ensures
        ({
            let before = items_of(lines_in(first));
            let all = items_of(lines_in(first + chunk@));
            let end = after_input(r, ByteInput::Bytes(chunk));
            &&& handed_on(r.api, before) + input_items(r, ByteInput::Bytes(chunk)) == handed_on(
                r.api,
                all,
            )
            &&& end.finished == has_done(all)
            &&& !end.finished ==> end.buffer == rest_of(first + chunk@)
            &&& end.api == r.api
        }),
{
    let more = lines_in(rest_of(first) + chunk@);
    let p = items_of(lines_in(first));
    let q = items_of(more);
    chunks_do_not_matter(first, chunk@);
    if r.finished {
        nothing_counts_behind_the_end(lines_in(first), more);
        assert(handed_on(r.api, p) + Seq::<SseItemModel>::empty() =~= handed_on(r.api, p));
    } else {
        items_of_more_lines(lines_in(first), more);
        if has_done(q) {
            assert((p + q).last() == q.last());
            assert((p + q).drop_last() =~= p + q.drop_last());
        } else if q.len() > 0 {
            assert((p + q).last() == q.last());
        } else {
            assert(p + q =~= p);
        }
    }
}

/// However the bytes are split into chunks, they bring the same items, up to
/// the mark of the end, and the reader stops just where that mark has come;
/// as long as the limit of the buffer is not hit.
pub proof fn splits_do_not_matter(r: ReaderModel, chunks: Seq<Vec<u8>>)
    requires
        !r.finished,
        lines_in(r.buffer).len() == 0,
        stays_within_limit(r, chunks),
    ensures
        ({
            let bytes = r.buffer + joined(chunks);
            let end = after_chunks(r, chunks);
            &&& chunks_items(r, chunks) == handed_on(r.api, items_of(lines_in(bytes)))
            &&& end.finished == has_done(items_of(lines_in(bytes)))
            &&& !end.finished ==> end.buffer == rest_of(bytes)
            &&& end.api == r.api
        }),
    decreases chunks.len(),
{
    let bytes = r.buffer + joined(chunks);
    if chunks.len() == 0 {
        assert(bytes =~= r.buffer);
        line_end_stops(r.buffer);
        assert(items_of(lines_in(bytes)) =~= Seq::<SseItemModel>::empty());
    } else {
        let fewer = chunks.drop_last();
        let chunk = chunks.last();
        let first = r.buffer + joined(fewer);
        let before = after_chunks(r, fewer);
        splits_do_not_matter(r, fewer);
        assert(bytes =~= first + chunk@);
        one_more_chunk(before, first, chunk);
    }
}

/// The reader never keeps a complete line.
pub proof fn reader_keeps_no_line(r: ReaderModel, input: ByteInput)
    requires
        lines_in(r.buffer).len() == 0,
    ensures
        lines_in(after_input(r, input).buffer).len() == 0,
{
    if let ByteInput::Bytes(bytes) = input {
        leftover_holds_no_line(r.buffer + bytes@);
    }
}

proof fn leftover_holds_no_line(s: Seq<u8>)
    ensures
        lines_in(rest_of(s)).len() == 0,
    decreases s.len(),
{
    line_end_stops(s);
    if line_end(s) < s.len() {
        leftover_holds_no_line(s.skip(line_end(s) as int + 1));
    }
}

// ---------------------------------------------------------------------------
// Items as events
// ---------------------------------------------------------------------------

/// What becomes of an item.
#[derive(Debug)]
pub enum Reading<E> {
    /// The event is handed on.
    HandOn(E),
    /// The event is handed on, and nothing more is read.
    Last(E),
    /// Nothing is handed on.
    Skip,
    /// Nothing more is read.
    Stop,
    /// The error is handed on, and nothing more is read.
    Broken(StreamError),
}

/// What becomes of an item of the Responses API. `decoded` is the event that
/// data stands for; nothing where it is none.
pub open spec fn reading_of(
    item: SseItem,
    decoded: Option<ResponsesStreamEvent>,
) -> Reading<ResponsesStreamEvent> {
    match item {
        SseItem::Data(_) => match decoded {
            Some(event) => if event is Completed {
                Reading::Last(event)
            } else {
                Reading::HandOn(event)
            },
            None => Reading::Skip,
        },
        SseItem::Done => Reading::Stop,
        SseItem::Failed(error) => Reading::Broken(error),
    }
}

/// Decides what becomes of an item of the Responses API: the completion is the
/// last event, and data that cannot be read is skipped.
pub fn read_item(item: SseItem, decoded: Option<ResponsesStreamEvent>) -> (r: Reading<
    ResponsesStreamEvent,
>)
    ensures
        r == reading_of(item, decoded),
{
    match item {
        SseItem::Data(_) => match decoded {
            Some(event) => {
                let last = match &event {
                    ResponsesStreamEvent::Completed { .. } => true,
                    _ => false,
                };
                if last {
                    Reading::Last(event)
                } else {
                    Reading::HandOn(event)
                }
            },
            None => Reading::Skip,
        },
        SseItem::Done => Reading::Stop,
        SseItem::Failed(error) => Reading::Broken(error),
    }
}

/// What becomes of an item of the Chat Completions API. `decoded` is the chunk
/// that data stands for; nothing where it is none.
pub open spec fn chat_reading_of(
    item: SseItem,
    decoded: Option<ChatCompletionChunk>,
) -> Reading<OpenAiSseEvent> {
    match item {
        SseItem::Data(_) => match decoded {
            Some(chunk) => Reading::HandOn(OpenAiSseEvent::Chunk(chunk)),
            None => Reading::Skip,
        },
        SseItem::Done => Reading::Last(OpenAiSseEvent::Done),
        SseItem::Failed(error) => Reading::Broken(error),
    }
}

/// Decides what becomes of an item of the Chat Completions API: the mark of
/// the end is the last event, and data that cannot be read is skipped.
pub fn read_chat_item(item: SseItem, decoded: Option<ChatCompletionChunk>) -> (r: Reading<
    OpenAiSseEvent,
>)
    ensures
        r == chat_reading_of(item, decoded),
{
    match item {
        SseItem::Data(_) => match decoded {
            Some(chunk) => Reading::HandOn(OpenAiSseEvent::Chunk(chunk)),
            None => Reading::Skip,
        },
        SseItem::Done => Reading::Last(OpenAiSseEvent::Done),
        SseItem::Failed(error) => Reading::Broken(error),
    }
}

/// What is handed on, in all.
pub open spec fn produced<E>(readings: Seq<Reading<E>>) -> Seq<Result<E, StreamError>>
    decreases readings.len(),
{
    if readings.len() == 0 {
        Seq::empty()
    } else {
        match readings[0] {
            Reading::HandOn(event) => seq![Ok(event)] + produced(readings.skip(1)),
            Reading::Last(event) => seq![Ok(event)],
            Reading::Skip => produced(readings.skip(1)),
            Reading::Stop => Seq::empty(),
            Reading::Broken(error) => seq![Err(error)],
        }
    }
}

/// A completion, and an error, is the last that is handed on.
pub proof fn completion_and_error_are_last(
    items: Seq<SseItem>,
    decoded: Seq<Option<ResponsesStreamEvent>>,
    i: int,
)
    requires
        decoded.len() == items.len(),
        0 <= i < produced(
            Seq::new(items.len(), |k: int| reading_of(items[k], decoded[k])),
        ).len() - 1,
    ensures
        produced(
            Seq::new(items.len(), |k: int| reading_of(items[k], decoded[k])),
        )[i] matches Ok(event) && !(event is Completed),
    decreases items.len(),
{
    let readings = Seq::new(items.len(), |k: int| reading_of(items[k], decoded[k]));
    let rest = Seq::new(
        items.skip(1).len(),
        |k: int| reading_of(items.skip(1)[k], decoded.skip(1)[k]),
    );
    if items.len() > 0 {
        assert(readings.skip(1) =~= rest);
        match readings[0] {
            Reading::HandOn(event) => {
                assert(produced(readings) =~= seq![Ok(event)] + produced(rest));
                if i > 0 {
                    completion_and_error_are_last(items.skip(1), decoded.skip(1), i - 1);
                }
            },
            Reading::Skip => {
                completion_and_error_are_last(items.skip(1), decoded.skip(1), i);
            },
            _ => {},
        }
    }
}

/// What is skipped changes nothing: what comes behind it is handed on all the
/// same.
pub proof fn skipped_data_changes_nothing<E>(a: Seq<Reading<E>>, b: Seq<Reading<E>>)
    ensures
        produced(a + seq![Reading::Skip] + b) == produced(a + b),
    decreases a.len(),
{
    let with = a + seq![Reading::Skip] + b;
    if a.len() == 0 {
        assert(with.skip(1) =~= b);
        assert(a + b =~= b);
    } else {
        assert(with[0] == a[0]);
        assert((a + b)[0] == a[0]);
        assert(with.skip(1) =~= a.skip(1) + seq![Reading::Skip] + b);
        assert((a + b).skip(1) =~= a.skip(1) + b);
        skipped_data_changes_nothing(a.skip(1), b);
    }
}

} // verus!
