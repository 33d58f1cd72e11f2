//! A streamed answer of the Chat Completions API on its way to the client.

use vstd::prelude::*;

use crate::convert::frames::{
    after_few_frames, after_frames, after_frames_concat, blocks_ended, blocks_ended_concat,
    counts_blocks, counts_blocks_concat, frame_index, generate_message_id, has_error,
    has_error_concat, is_message_id, one_frame, Blocks, Frame, FrameModel,
};
use crate::convert::message::{report_usage, reported_usage};
use crate::convert::response::{cached_of, cached_tokens};
use crate::decimal::{decimal, decimal_text};
use crate::text::same;
use crate::types::claude::{Usage, END_TURN, MAX_TOKENS, TOOL_USE};
use crate::types::openai::{ChatCompletionChunk, ChunkChoice, ChunkToolCall, ResponseUsage};
use crate::util::fix_json::{fix_json, fixed};
use crate::util::tool_id::{
    cleaned_is_an_id, generate, id_or, is_generated_id, is_id, sanitize_or,
};
use crate::util::tool_name::{restore, restored, ToolNameMap};

verus! {

// ---------------------------------------------------------------------------
// What both kinds of streams share
// ---------------------------------------------------------------------------

/// An event of the upstream.
#[derive(Debug)]
pub enum OpenAiSseEvent {
    Chunk(ChatCompletionChunk),
    Done,
}

/// Why the upstream's stream broke off.
#[derive(Debug)]
pub enum StreamError {
    Connection(String),
}

impl StreamError {
    /// The text of the error.
    pub open spec fn text(&self) -> Seq<char> {
        match self {
            StreamError::Connection(cause) => "connection error: "@ + cause@,
        }
    }

    /// The text of the error.
    pub fn message(&self) -> (r: String)
        ensures
            r@ == self.text(),
    {
        match self {
            StreamError::Connection(cause) => {
                let mut out = "connection error: ".to_string();
                out.push_str(cause.as_str());
                out
            },
        }
    }
}

/// What waiting for the next event of the upstream can lead to.
#[derive(Debug)]
pub enum StreamInput<E> {
    /// An event came.
    Event(E),
    /// The stream broke off.
    Failed(StreamError),
    /// The stream is over.
    Ended,
    /// Nothing came for so many seconds.
    TimedOut { seconds: u64 },
}

/// What is said of a timeout.
pub open spec fn timeout_text(kind: Seq<char>, seconds: u64) -> Seq<char> {
    "stream "@ + kind + " timeout ("@ + decimal(seconds as nat) + "s)"@
}

/// What is said of a timeout.
pub fn timeout_message(kind: &str, seconds: u64) -> (r: String)
    ensures
        r@ == timeout_text(kind@, seconds),
{
    let mut out = "stream ".to_string();
    out.push_str(kind);
    out.push_str(" timeout (");
    out.push_str(decimal_text(seconds).as_str());
    out.push_str("s)");
    out
}

/// How many tokens were read from a cache.
pub open spec fn cached_in(usage: Usage) -> u32 {
    match usage.cache_read_input_tokens {
        Some(n) => n,
        None => 0,
    }
}

/// The frames that end a message. `usage` holds the upstream's counts, in
/// which cached tokens are part of the input tokens.
pub open spec fn closing_frames(stop_reason: Seq<char>, usage: Usage, estimated: u32) -> Seq<
    FrameModel,
> {
    seq![
        FrameModel::MessageDelta {
            stop_reason,
            usage: reported_usage(
                usage.input_tokens,
                cached_in(usage),
                usage.output_tokens,
                estimated,
            ),
        },
        FrameModel::MessageStop,
    ]
}

/// Appends the frames that end a message.
pub fn emit_epilogue(out: &mut Vec<Frame>, stop_reason: &str, usage: &Usage, estimated: u32)
    ensures
        final(out).deep_view() == old(out).deep_view() + closing_frames(
            stop_reason@,
            *usage,
            estimated,
        ),
{
    let cached: u32 = match usage.cache_read_input_tokens {
        Some(n) => n,
        None => 0,
    };
    out.push(
        Frame::MessageDelta {
            stop_reason: stop_reason.to_string(),
            usage: report_usage(usage.input_tokens, cached, usage.output_tokens, estimated),
        },
    );
    out.push(Frame::MessageStop);
    assert(out.deep_view() =~= old(out).deep_view() + closing_frames(
        stop_reason@,
        *usage,
        estimated,
    ));
}

/// The frame belongs to the end of a message.
pub open spec fn is_closing(frame: FrameModel) -> bool {
    frame is MessageDelta || frame is MessageStop
}

/// The frames end with the end of a message, and it stands nowhere else.
pub open spec fn ends_properly(frames: Seq<FrameModel>) -> bool {
    &&& frames.len() >= 2
    &&& frames[frames.len() - 2] is MessageDelta
    &&& frames[frames.len() - 1] is MessageStop
    &&& forall|i: int| 0 <= i < frames.len() - 2 ==> !is_closing(#[trigger] frames[i])
}

/// The end of a message carries no block's number.
pub proof fn closing_frames_number_no_block(
    stop_reason: Seq<char>,
    usage: Usage,
    estimated: u32,
    from: nat,
)
    ensures
        counts_blocks(closing_frames(stop_reason, usage, estimated), from),
        blocks_ended(closing_frames(stop_reason, usage, estimated)) == 0,
{
    let frames = closing_frames(stop_reason, usage, estimated);
    one_frame(frames[0], from);
    one_frame(frames[1], from);
    assert(frames =~= seq![frames[0]] + seq![frames[1]]);
    blocks_ended_concat(seq![frames[0]], seq![frames[1]]);
}

// ---------------------------------------------------------------------------
// The state of the translation
// ---------------------------------------------------------------------------

/// How far the stream has come.
#[derive(Debug, Clone, Copy, PartialEq, Eq, Structural)]
pub enum Phase {
    /// The first chunk is awaited.
    AwaitingFirstChunk,
    /// More chunks are awaited.
    Streaming,
    /// The message is to be ended.
    Epilogue,
    /// The message has ended.
    Done,
}

/// A tool call that is being put together.
#[derive(Debug)]
pub struct ToolAcc {
    pub id: String,
    pub name: String,
    pub args: String,
}

/// The model of a [`ToolAcc`].
pub struct AccModel {
    pub id: Seq<char>,
    pub name: Seq<char>,
    pub args: Seq<char>,
}

impl DeepView for ToolAcc {
    type V = AccModel;

    open spec fn deep_view(&self) -> AccModel {
        AccModel { id: self.id@, name: self.name@, args: self.args@ }
    }
}

/// The state of the translation.
#[derive(Debug)]
pub struct State {
    pub original_model: String,
    /// The index of the current block.
    pub block_index: usize,
    /// Whether the current block is a text that has begun.
    pub text_block_open: bool,
    /// Whether the answer has tool calls.
    pub has_tool_call: bool,
    /// The tool calls, by the upstream's index.
    pub tool_accs: Vec<Option<ToolAcc>>,
    /// Why the answer ended, in the client's words.
    pub final_stop_reason: String,
    /// The token counts of the upstream.
    pub usage: Usage,
    pub phase: Phase,
    /// The estimate of the input tokens.
    pub estimated_input_tokens: u32,
    pub tool_name_map: ToolNameMap,
}

/// The model of a [`State`].
pub struct StateModel {
    pub model: Seq<char>,
    pub block_index: nat,
    pub text_open: bool,
    pub has_tool_call: bool,
    pub slots: Seq<Option<AccModel>>,
    pub stop_reason: Seq<char>,
    pub usage: Usage,
    pub phase: Phase,
    pub estimated: u32,
    pub names: Map<Seq<char>, Seq<char>>,
}

impl View for State {
    type V = StateModel;

    open spec fn view(&self) -> StateModel {
        StateModel {
            model: self.original_model@,
            block_index: self.block_index as nat,
            text_open: self.text_block_open,
            has_tool_call: self.has_tool_call,
            slots: self.tool_accs.deep_view(),
            stop_reason: self.final_stop_reason@,
            usage: self.usage,
            phase: self.phase,
            estimated: self.estimated_input_tokens,
            names: self.tool_name_map@,
        }
    }
}

/// The state before the first chunk.
pub open spec fn initial_state(
    model: Seq<char>,
    estimated: u32,
    names: Map<Seq<char>, Seq<char>>,
) -> StateModel {
    StateModel {
        model,
        block_index: 0,
        text_open: false,
        has_tool_call: false,
        slots: Seq::empty(),
        stop_reason: END_TURN@,
        usage: Usage { input_tokens: 0, output_tokens: 0, cache_read_input_tokens: None },
        phase: Phase::AwaitingFirstChunk,
        estimated,
        names,
    }
}

/// What something leads to: the state after it and the frames that go to the
/// client.
pub struct Outcome {
    pub state: StateModel,
    pub frames: Seq<FrameModel>,
}

// ---------------------------------------------------------------------------
// Token counts
// ---------------------------------------------------------------------------

/// The counts with those of a chunk in place of the earlier ones. A count of
/// cached tokens stays until a chunk brings another that is not zero.
pub open spec fn updated_usage(usage: Usage, news: Option<ResponseUsage>) -> Usage {
    match news {
        Some(news) => Usage {
            input_tokens: news.prompt_tokens,
            output_tokens: news.completion_tokens,
            cache_read_input_tokens: if cached_tokens(news) > 0 {
                Some(cached_tokens(news))
            } else {
                usage.cache_read_input_tokens
            },
        },
        None => usage,
    }
}

// ---------------------------------------------------------------------------
// Tool calls
// ---------------------------------------------------------------------------

/// `slots` with empty ones behind them up to the number `n`.
pub open spec fn padded(slots: Seq<Option<AccModel>>, n: nat) -> Seq<Option<AccModel>> {
    if slots.len() >= n {
        slots
    } else {
        slots + Seq::new((n - slots.len()) as nat, |i: int| None)
    }
}

/// A tool call with a piece added: an id and a name replace earlier ones, and
/// arguments go behind the earlier ones.
pub open spec fn with_piece(slot: Option<AccModel>, piece: ChunkToolCall) -> AccModel {
    let acc = match slot {
        Some(acc) => acc,
        None => AccModel { id: Seq::empty(), name: Seq::empty(), args: Seq::empty() },
    };
    let id = match piece.id {
        Some(id) => id@,
        None => acc.id,
    };
    match piece.function {
        Some(function) => AccModel {
            id,
            name: match function.name {
                Some(name) => name@,
                None => acc.name,
            },
            args: match function.arguments {
                Some(arguments) => acc.args + arguments@,
                None => acc.args,
            },
        },
        None => AccModel { id, ..acc },
    }
}

/// The tool calls with a piece added to the one that it belongs to.
pub open spec fn slots_with_piece(
    slots: Seq<Option<AccModel>>,
    piece: ChunkToolCall,
) -> Seq<Option<AccModel>> {
    let room = padded(slots, piece.index as nat + 1);
    room.update(piece.index as int, Some(with_piece(room[piece.index as int], piece)))
}

/// The tool calls with all of `pieces` added.
pub open spec fn slots_with_pieces(
    slots: Seq<Option<AccModel>>,
    pieces: Seq<ChunkToolCall>,
) -> Seq<Option<AccModel>>
    decreases pieces.len(),
{
    if pieces.len() == 0 {
        slots
    } else {
        slots_with_piece(slots_with_pieces(slots, pieces.drop_last()), pieces.last())
    }
}

/// How many slots there are after all of `pieces`.
pub open spec fn slots_needed(n: nat, pieces: Seq<ChunkToolCall>) -> nat
    decreases pieces.len(),
{
    if pieces.len() == 0 {
        n
    } else {
        let before = slots_needed(n, pieces.drop_last());
        if before > pieces.last().index {
            before
        } else {
            pieces.last().index as nat + 1
        }
    }
}

proof fn slots_needed_is_the_number(slots: Seq<Option<AccModel>>, pieces: Seq<ChunkToolCall>)
    ensures
        slots_with_pieces(slots, pieces).len() == slots_needed(slots.len(), pieces),
    decreases pieces.len(),
{
    if pieces.len() > 0 {
        slots_needed_is_the_number(slots, pieces.drop_last());
    }
}

proof fn slots_needed_grow(n: nat, pieces: Seq<ChunkToolCall>, k: int)
    requires
        0 <= k <= pieces.len(),
    ensures
        slots_needed(n, pieces.take(k)) <= slots_needed(n, pieces),
    decreases pieces.len(),
{
    if k == pieces.len() {
        assert(pieces.take(k) =~= pieces);
    } else {
        assert(pieces.drop_last().take(k) =~= pieces.take(k));
        slots_needed_grow(n, pieces.drop_last(), k);
    }
}

/// The frames of a complete tool call: its input goes out in one piece,
/// repaired. `fallback` is its id where the upstream gave it none.
pub open spec fn tool_frames(
    acc: AccModel,
    index: nat,
    names: Map<Seq<char>, Seq<char>>,
    fallback: Seq<char>,
) -> Seq<FrameModel> {
    seq![
        FrameModel::ToolStart {
            index,
            id: id_or(acc.id, fallback),
            name: restored(names, acc.name),
        },
        FrameModel::InputDelta { index, partial_json: Seq::empty() },
        FrameModel::InputDelta { index, partial_json: fixed(acc.args) },
        FrameModel::BlockStop { index },
    ]
}

/// How many slots hold a tool call.
pub open spec fn filled(slots: Seq<Option<AccModel>>) -> nat
    decreases slots.len(),
{
    if slots.len() == 0 {
        0
    } else {
        filled(slots.drop_last()) + if slots.last() is Some {
            1nat
        } else {
            0
        }
    }
}

/// The frames of all tool calls, numbered from `from` on. `ids` holds an id
/// for each that has none.
pub open spec fn tools_frames(
    slots: Seq<Option<AccModel>>,
    from: nat,
    names: Map<Seq<char>, Seq<char>>,
    ids: Seq<Seq<char>>,
) -> Seq<FrameModel>
    decreases slots.len(),
{
    if slots.len() == 0 {
        Seq::empty()
    } else {
        let earlier = tools_frames(slots.drop_last(), from, names, ids);
        match slots.last() {
            Some(acc) => earlier + tool_frames(
                acc,
                from + filled(slots.drop_last()),
                names,
                ids[slots.len() - 1],
            ),
            None => earlier,
        }
    }
}

/// All tool calls go out, and none is left.
pub open spec fn tools_flushed(s: StateModel, ids: Seq<Seq<char>>) -> Outcome {
    Outcome {
        state: StateModel {
            block_index: s.block_index + filled(s.slots),
            slots: Seq::empty(),
            ..s
        },
        frames: tools_frames(s.slots, s.block_index, s.names, ids),
    }
}

/// `ids` holds a generated id for each tool call that has none.
pub open spec fn ids_for(slots: Seq<Option<AccModel>>, ids: Seq<Seq<char>>) -> bool {
    &&& ids.len() == slots.len()
    &&& forall|i: int|
        0 <= i < slots.len() ==> (#[trigger] slots[i] matches Some(acc) ==> acc.id.len() == 0 ==> {
            is_generated_id(ids[i]) && is_id(ids[i])
        })
}

// ---------------------------------------------------------------------------
// One event
// ---------------------------------------------------------------------------

/// A text block that is open ends.
pub open spec fn text_closed(s: StateModel) -> Outcome {
    if s.text_open {
        Outcome {
            state: StateModel { block_index: s.block_index + 1, text_open: false, ..s },
            frames: seq![FrameModel::BlockStop { index: s.block_index }],
        }
    } else {
        Outcome { state: s, frames: Seq::empty() }
    }
}

/// With the first chunk the message begins.
pub open spec fn begun(s: StateModel, id: Seq<char>) -> Outcome {
    if s.phase == Phase::AwaitingFirstChunk {
        Outcome {
            state: StateModel { phase: Phase::Streaming, ..s },
            frames: seq![FrameModel::MessageStart { id, model: s.model }],
        }
    } else {
        Outcome { state: s, frames: Seq::empty() }
    }
}

/// Text goes out at once, in a text block that is begun if none is open.
pub open spec fn with_text(s: StateModel, text: Seq<char>) -> Outcome {
    let delta = FrameModel::TextDelta { index: s.block_index, text };
    if text.len() == 0 {
        Outcome { state: s, frames: Seq::empty() }
    } else if s.text_open {
        Outcome { state: s, frames: seq![delta] }
    } else {
        Outcome {
            state: StateModel { text_open: true, ..s },
            frames: seq![FrameModel::TextStart { index: s.block_index }, delta],
        }
    }
}

/// Pieces of tool calls are collected.
pub open spec fn with_tools(s: StateModel, pieces: Option<Vec<ChunkToolCall>>) -> StateModel {
    match pieces {
        Some(pieces) => StateModel {
            slots: slots_with_pieces(s.slots, pieces@),
            has_tool_call: true,
            ..s
        },
        None => s,
    }
}

/// When the upstream says why the answer ended, the text block ends, and the
/// tool calls go out if they are the reason.
pub open spec fn finished(s: StateModel, reason: Option<Seq<char>>, ids: Seq<Seq<char>>) -> Outcome {
    match reason {
        Some(reason) => {
            let closed = text_closed(s);
            if reason == "tool_calls"@ {
                let out = tools_flushed(closed.state, ids);
                Outcome {
                    state: StateModel { stop_reason: TOOL_USE@, ..out.state },
                    frames: closed.frames + out.frames,
                }
            } else if reason == "length"@ {
                Outcome {
                    state: StateModel { stop_reason: MAX_TOKENS@, ..closed.state },
                    frames: closed.frames,
                }
            } else {
                Outcome {
                    state: StateModel { stop_reason: END_TURN@, ..closed.state },
                    frames: closed.frames,
                }
            }
        },
        None => Outcome { state: s, frames: Seq::empty() },
    }
}

/// What the first choice of a chunk leads to.
pub open spec fn after_choice(
    s: StateModel,
    choice: ChunkChoice,
    id: Seq<char>,
    ids: Seq<Seq<char>>,
) -> Outcome {
    let a = begun(s, id);
    let b = with_text(
        a.state,
        match choice.delta.content {
            Some(text) => text@,
            None => Seq::empty(),
        },
    );
    let c = with_tools(b.state, choice.delta.tool_calls);
    let d = finished(c, choice.finish_reason.deep_view(), ids);
    Outcome { state: d.state, frames: a.frames + b.frames + d.frames }
}

/// What a chunk leads to.
pub open spec fn after_chunk(
    s: StateModel,
    chunk: ChatCompletionChunk,
    id: Seq<char>,
    ids: Seq<Seq<char>>,
) -> Outcome {
    let counted = StateModel { usage: updated_usage(s.usage, chunk.usage), ..s };
    if chunk.choices@.len() == 0 {
        Outcome { state: counted, frames: Seq::empty() }
    } else {
        after_choice(counted, chunk.choices@[0], id, ids)
    }
}

/// At the end of the upstream's stream the text block ends and the tool calls
/// go out.
pub open spec fn drained(s: StateModel, ids: Seq<Seq<char>>) -> Outcome {
    let closed = text_closed(s);
    let out = tools_flushed(closed.state, ids);
    Outcome {
        state: StateModel { phase: Phase::Epilogue, ..out.state },
        frames: closed.frames + out.frames,
    }
}

// ---------------------------------------------------------------------------
// One step
// ---------------------------------------------------------------------------

/// The kind of a timeout: before the first chunk it is another.
pub open spec fn timeout_kind(s: StateModel) -> Seq<char> {
    if s.phase == Phase::AwaitingFirstChunk {
        "first-byte"@
    } else {
        "idle"@
    }
}

/// What what came of waiting leads to, without the end of the message. `id` is
/// the id of the message if it begins.
pub open spec fn after_input(
    s: StateModel,
    input: StreamInput<OpenAiSseEvent>,
    id: Seq<char>,
    ids: Seq<Seq<char>>,
) -> Outcome {
    let stopped = StateModel { phase: Phase::Epilogue, ..s };
    match input {
        StreamInput::Event(OpenAiSseEvent::Chunk(chunk)) => after_chunk(s, chunk, id, ids),
        StreamInput::Event(OpenAiSseEvent::Done) => drained(s, ids),
        StreamInput::Failed(error) => Outcome {
            state: stopped,
            frames: seq![FrameModel::Error { message: error.text() }],
        },
        StreamInput::Ended => drained(s, ids),
        StreamInput::TimedOut { seconds } => Outcome {
            state: stopped,
            frames: seq![FrameModel::Error { message: timeout_text(timeout_kind(s), seconds) }],
        },
    }
}

/// Why the message ends: tool calls come first.
pub open spec fn final_reason(s: StateModel) -> Seq<char> {
    if s.has_tool_call {
        TOOL_USE@
    } else {
        s.stop_reason
    }
}

/// The message still goes on.
pub open spec fn is_open(s: StateModel) -> bool {
    s.phase == Phase::AwaitingFirstChunk || s.phase == Phase::Streaming
}

/// What a step leads to: what came and, where that is the end, the end of the
/// message. A message that has ended gets no more frames.
pub open spec fn after_step(
    s: StateModel,
    input: StreamInput<OpenAiSseEvent>,
    id: Seq<char>,
    ids: Seq<Seq<char>>,
) -> Outcome {
    let out = after_input(s, input, id, ids);
    if !is_open(s) {
        Outcome { state: s, frames: Seq::empty() }
    } else if out.state.phase == Phase::Epilogue {
        Outcome {
            state: StateModel { phase: Phase::Done, ..out.state },
            frames: out.frames + closing_frames(
                final_reason(out.state),
                out.state.usage,
                out.state.estimated,
            ),
        }
    } else {
        out
    }
}

/// The pieces of tool calls that an input brings.
pub open spec fn pieces_of(input: StreamInput<OpenAiSseEvent>) -> Seq<ChunkToolCall> {
    match input {
        StreamInput::Event(OpenAiSseEvent::Chunk(chunk)) => if chunk.choices@.len() > 0 {
            match chunk.choices@[0].delta.tool_calls {
                Some(pieces) => pieces@,
                None => Seq::empty(),
            }
        } else {
            Seq::empty()
        },
        _ => Seq::empty(),
    }
}

/// The tool calls as they stand when an input has been taken in.
pub open spec fn slots_at(s: StateModel, input: StreamInput<OpenAiSseEvent>) -> Seq<
    Option<AccModel>,
> {
    slots_with_pieces(s.slots, pieces_of(input))
}

/// The numbers that an input leads to can be counted on this machine.
pub open spec fn fits(s: StateModel, input: StreamInput<OpenAiSseEvent>) -> bool {
    &&& slots_needed(s.slots.len(), pieces_of(input)) <= usize::MAX
    &&& s.block_index + slots_needed(s.slots.len(), pieces_of(input)) < usize::MAX
}

/// The tool calls go out with this input.
pub open spec fn flushes(input: StreamInput<OpenAiSseEvent>) -> bool {
    match input {
        StreamInput::Event(OpenAiSseEvent::Chunk(chunk)) => chunk.choices@.len() > 0
            && chunk.choices@[0].finish_reason.deep_view() == Some("tool_calls"@),
        StreamInput::Event(OpenAiSseEvent::Done) => true,
        StreamInput::Ended => true,
        _ => false,
    }
}

/// Tells whether the tool calls go out with this input.
fn sends_tools(input: &StreamInput<OpenAiSseEvent>) -> (r: bool)
    ensures
        r == flushes(*input),
{
    match input {
        StreamInput::Event(OpenAiSseEvent::Chunk(chunk)) => {
            if chunk.choices.len() > 0 {
                match &chunk.choices[0].finish_reason {
                    Some(reason) => same(reason.as_str(), "tool_calls"),
                    None => false,
                }
            } else {
                false
            }
        },
        StreamInput::Event(OpenAiSseEvent::Done) => true,
        StreamInput::Ended => true,
        _ => false,
    }
}

/// `id` and `ids` are generated ids, as far as the input needs any.
pub open spec fn serves(
    s: StateModel,
    input: StreamInput<OpenAiSseEvent>,
    id: Seq<char>,
    ids: Seq<Seq<char>>,
) -> bool {
    &&& s.phase == Phase::AwaitingFirstChunk ==> is_message_id(id)
    &&& flushes(input) ==> ids_for(slots_at(s, input), ids)
}

/// Appends the frames of a complete tool call.
pub fn emit_tool(
    out: &mut Vec<Frame>,
    acc: &ToolAcc,
    index: usize,
    names: &ToolNameMap,
    fallback: &str,
)
    ensures
        final(out).deep_view() == old(out).deep_view() + tool_frames(
            acc.deep_view(),
            index as nat,
            names@,
            fallback@,
        ),
{
    proof {
        reveal_strlit("");
        assert(""@ =~= Seq::<char>::empty());
    }
    out.push(
        Frame::ToolStart {
            index,
            id: sanitize_or(acc.id.as_str(), fallback),
            name: restore(names, acc.name.as_str()),
        },
    );
    out.push(Frame::InputDelta { index, partial_json: "".to_string() });
    out.push(Frame::InputDelta { index, partial_json: fix_json(acc.args.as_str()) });
    out.push(Frame::BlockStop { index });
    assert(out.deep_view() =~= old(out).deep_view() + tool_frames(
        acc.deep_view(),
        index as nat,
        names@,
        fallback@,
    ));
}

/// The number of filled slots grows with the slots.
proof fn filled_grows(slots: Seq<Option<AccModel>>, k: int)
    requires
        0 <= k <= slots.len(),
    ensures
        filled(slots.take(k)) <= filled(slots) <= slots.len(),
    decreases slots.len(),
{
    if k == slots.len() {
        assert(slots.take(k) =~= slots);
        if slots.len() > 0 {
            filled_grows(slots.drop_last(), slots.len() - 1);
        }
    } else {
        assert(slots.drop_last().take(k) =~= slots.take(k));
        filled_grows(slots.drop_last(), k);
    }
}

/// `n` generated ids.
fn fresh_ids(n: usize) -> (r: Vec<String>)
    ensures
        r@.len() == n,
        forall|i: int| 0 <= i < n ==> {
            is_generated_id(#[trigger] r.deep_view()[i]) && is_id(r.deep_view()[i])
        },
{
    let mut ids: Vec<String> = Vec::new();
    let mut i: usize = 0;
    while i < n
        invariant
            i <= n,
            ids@.len() == i,
            forall|k: int| 0 <= k < i ==> {
                is_generated_id(#[trigger] ids.deep_view()[k]) && is_id(ids.deep_view()[k])
            },
        decreases n - i,
    {
        let ghost before = ids.deep_view();
        ids.push(generate());
        assert(ids.deep_view() =~= before.push(ids@[i as int]@));
        i += 1;
    }
    ids
}

/// `n` empty texts.
fn no_ids(n: usize) -> (r: Vec<String>)
    ensures
        r@.len() == n,
{
    let mut ids: Vec<String> = Vec::new();
    let mut i: usize = 0;
    while i < n
        invariant
            i <= n,
            ids@.len() == i,
        decreases n - i,
    {
        ids.push(String::new());
        i += 1;
    }
    ids
}

impl State {
    /// The state before the first chunk.
    pub fn new(
        original_model: &str,
        estimated_input_tokens: u32,
        tool_name_map: ToolNameMap,
    ) -> (r: State)
        ensures
            r@ == initial_state(original_model@, estimated_input_tokens, tool_name_map@),
    {
        let state = State {
            original_model: original_model.to_string(),
            block_index: 0,
            text_block_open: false,
            has_tool_call: false,
            tool_accs: Vec::new(),
            final_stop_reason: END_TURN.to_string(),
            usage: Usage::default(),
            phase: Phase::AwaitingFirstChunk,
            estimated_input_tokens,
            tool_name_map,
        };
        assert(state.tool_accs.deep_view() =~= Seq::<Option<AccModel>>::empty());
        state
    }

    /// Ends a text block that is open.
    fn close_text(&mut self, out: &mut Vec<Frame>)
        requires
            old(self).block_index < usize::MAX,
        ensures
            final(self)@ == text_closed(old(self)@).state,
            final(out).deep_view() == old(out).deep_view() + text_closed(old(self)@).frames,
    {
        if self.text_block_open {
            out.push(Frame::BlockStop { index: self.block_index });
            self.block_index += 1;
            self.text_block_open = false;
        }
        assert(out.deep_view() =~= old(out).deep_view() + text_closed(old(self)@).frames);
    }

    /// Sends out all tool calls, with `ids` for those that have no id.
    pub fn flush_tools_with(&mut self, ids: &Vec<String>, out: &mut Vec<Frame>)
        requires
            old(self).block_index + old(self).tool_accs@.len() <= usize::MAX,
            ids@.len() == old(self).tool_accs@.len(),
        ensures
            final(self)@ == tools_flushed(old(self)@, ids.deep_view()).state,
            final(out).deep_view() == old(out).deep_view() + tools_flushed(
                old(self)@,
                ids.deep_view(),
            ).frames,
    {
        let ghost slots = self.tool_accs.deep_view();
        let ghost from = self.block_index as nat;
        let ghost before = out.deep_view();
        let ghost names = self.tool_name_map@;
        let mut accs: Vec<Option<ToolAcc>> = Vec::new();
        std::mem::swap(&mut accs, &mut self.tool_accs);
        let mut index: usize = self.block_index;
        let mut i: usize = 0;
        assert(slots.take(0) =~= Seq::<Option<AccModel>>::empty());
        assert(out.deep_view() =~= before + tools_frames(
            slots.take(0),
            from,
            names,
            ids.deep_view(),
        ));
        while i < accs.len()
            invariant
                i <= accs@.len(),
                slots == accs.deep_view(),
                ids@.len() == accs@.len(),
                names == self.tool_name_map@,
                from + slots.len() <= usize::MAX,
                index == from + filled(slots.take(i as int)),
                out.deep_view() == before + tools_frames(
                    slots.take(i as int),
                    from,
                    names,
                    ids.deep_view(),
                ),
            decreases accs.len() - i,
        {
            let ghost so_far = out.deep_view();
            proof {
                assert(slots.take(i + 1).drop_last() =~= slots.take(i as int));
                assert(slots.take(i + 1).last() == accs@[i as int].deep_view());
                filled_grows(slots, i + 1);
            }
            match &accs[i] {
                Some(acc) => {
                    emit_tool(out, acc, index, &self.tool_name_map, ids[i].as_str());
                    assert(ids.deep_view()[i as int] == ids@[i as int]@);
                    index += 1;
                },
                None => {},
            }
            assert(out.deep_view() =~= before + tools_frames(
                slots.take(i + 1),
                from,
                names,
                ids.deep_view(),
            ));
            i += 1;
        }
        assert(slots.take(i as int) =~= slots);
        self.block_index = index;
        assert(self.tool_accs.deep_view() =~= Seq::<Option<AccModel>>::empty());
    }

    /// Takes in the token counts of a chunk.
    fn count_tokens(&mut self, news: &Option<ResponseUsage>)
        ensures
            final(self)@ == (StateModel {
                usage: updated_usage(old(self)@.usage, *news),
                ..old(self)@
            }),
    {
        match news {
            Some(news) => {
                let cached: u32 = cached_of(news);
                self.usage = Usage {
                    input_tokens: news.prompt_tokens,
                    output_tokens: news.completion_tokens,
                    cache_read_input_tokens: if cached > 0 {
                        Some(cached)
                    } else {
                        self.usage.cache_read_input_tokens
                    },
                };
            },
            None => {},
        }
    }

    /// Begins the message, with the id `id`, if it has not begun yet.
    fn begin(&mut self, id: &str, out: &mut Vec<Frame>)
        ensures
            final(self)@ == begun(old(self)@, id@).state,
            final(out).deep_view() == old(out).deep_view() + begun(old(self)@, id@).frames,
    {
        if self.phase == Phase::AwaitingFirstChunk {
            self.phase = Phase::Streaming;
            out.push(
                Frame::MessageStart { id: id.to_string(), model: self.original_model.clone() },
            );
        }
        assert(out.deep_view() =~= old(out).deep_view() + begun(old(self)@, id@).frames);
    }

    /// Sends out a piece of text.
    fn take_text(&mut self, text: &str, out: &mut Vec<Frame>)
        ensures
            final(self)@ == with_text(old(self)@, text@).state,
            final(out).deep_view() == old(out).deep_view() + with_text(old(self)@, text@).frames,
    {
        proof {
            reveal_strlit("");
            if text@.len() == 0 {
                assert(text@ =~= ""@);
            }
        }
        if !same(text, "") {
            if !self.text_block_open {
                out.push(Frame::TextStart { index: self.block_index });
                self.text_block_open = true;
            }
            out.push(Frame::TextDelta { index: self.block_index, text: text.to_string() });
        }
        assert(out.deep_view() =~= old(out).deep_view() + with_text(old(self)@, text@).frames);
    }

    /// Adds a piece to the tool call that it belongs to.
    fn take_piece(&mut self, piece: &ChunkToolCall)
        requires
            piece.index < usize::MAX,
        ensures
            final(self)@ == (StateModel {
                slots: slots_with_piece(old(self)@.slots, *piece),
                ..old(self)@
            }),
    {
        let ghost before = self.tool_accs.deep_view();
        let ghost start = self@;
        let index: usize = piece.index;
        let mut accs: Vec<Option<ToolAcc>> = Vec::new();
        std::mem::swap(&mut accs, &mut self.tool_accs);
        while accs.len() <= index
            invariant
                index < usize::MAX,
                before.len() <= accs@.len(),
                accs@.len() <= index + 1 || accs@.len() == before.len(),
                accs.deep_view() == padded(before, accs@.len()),
            decreases index + 1 - accs.len(),
        {
            let ghost so_far = accs.deep_view();
            let ghost n = accs@.len();
            accs.push(None);
            assert(accs.deep_view() =~= so_far.push(None));
            assert(accs.deep_view() =~= padded(before, n + 1));
        }
        let ghost room = accs.deep_view();
        assert(room =~= padded(before, index as nat + 1));
        let old_slot: &Option<ToolAcc> = &accs[index];
        assert(room[index as int] == old_slot.deep_view());
        let mut acc = match old_slot {
            Some(acc) => ToolAcc {
                id: acc.id.clone(),
                name: acc.name.clone(),
                args: acc.args.clone(),
            },
            None => {
                let acc = ToolAcc {
                    id: String::new(),
                    name: String::new(),
                    args: String::new(),
                };
                assert(acc.id@ =~= Seq::<char>::empty());
                assert(acc.name@ =~= Seq::<char>::empty());
                assert(acc.args@ =~= Seq::<char>::empty());
                acc
            },
        };
        match &piece.id {
            Some(id) => {
                acc.id = id.clone();
            },
            None => {},
        }
        match &piece.function {
            Some(function) => {
                match &function.name {
                    Some(name) => {
                        acc.name = name.clone();
                    },
                    None => {},
                }
                match &function.arguments {
                    Some(arguments) => acc.args.push_str(arguments.as_str()),
                    None => {},
                }
            },
            None => {},
        }
        let ghost model = acc.deep_view();
        accs.set(index, Some(acc));
        assert(accs.deep_view() =~= room.update(index as int, Some(model)));
        std::mem::swap(&mut accs, &mut self.tool_accs);
    }

    /// Adds pieces to the tool calls that they belong to.
    fn take_pieces(&mut self, pieces: &Vec<ChunkToolCall>)
        requires
            slots_needed(old(self)@.slots.len(), pieces@) <= usize::MAX,
        ensures
            final(self)@ == (StateModel {
                slots: slots_with_pieces(old(self)@.slots, pieces@),
                ..old(self)@
            }),
    {
        let ghost start = self@;
        let mut i: usize = 0;
        assert(pieces@.take(0) =~= Seq::<ChunkToolCall>::empty());
        while i < pieces.len()
            invariant
                i <= pieces@.len(),
                slots_needed(start.slots.len(), pieces@) <= usize::MAX,
                self@ == (StateModel {
                    slots: slots_with_pieces(start.slots, pieces@.take(i as int)),
                    ..start
                }),
            decreases pieces.len() - i,
        {
            proof {
                assert(pieces@.take(i + 1).drop_last() =~= pieces@.take(i as int));
                slots_needed_grow(start.slots.len(), pieces@, i + 1);
            }
            self.take_piece(&pieces[i]);
            i += 1;
        }
        assert(pieces@.take(i as int) =~= pieces@);
    }

    /// Takes in why the answer ended.
    fn take_finish(&mut self, reason: &Option<String>, ids: &Vec<String>, out: &mut Vec<Frame>)
        requires
            old(self).block_index + old(self).tool_accs@.len() < usize::MAX,
            ids@.len() == old(self).tool_accs@.len(),
        ensures
            final(self)@ == finished(old(self)@, reason.deep_view(), ids.deep_view()).state,
            final(out).deep_view() == old(out).deep_view() + finished(
                old(self)@,
                reason.deep_view(),
                ids.deep_view(),
            ).frames,
    {
        let ghost start = self@;
        let ghost before = out.deep_view();
        match reason {
            Some(reason) => {
                self.close_text(out);
                if same(reason.as_str(), "tool_calls") {
                    self.flush_tools_with(ids, out);
                    self.final_stop_reason = TOOL_USE.to_string();
                } else if same(reason.as_str(), "length") {
                    self.final_stop_reason = MAX_TOKENS.to_string();
                } else {
                    self.final_stop_reason = END_TURN.to_string();
                }
            },
            None => {},
        }
        assert(out.deep_view() =~= before + finished(
            start,
            reason.deep_view(),
            ids.deep_view(),
        ).frames);
    }

    /// Takes in a chunk.
    fn take_chunk(
        &mut self,
        chunk: &ChatCompletionChunk,
        id: &str,
        ids: &Vec<String>,
        out: &mut Vec<Frame>,
    )
        requires
            fits(old(self)@, StreamInput::Event(OpenAiSseEvent::Chunk(*chunk))),
            ids@.len() == slots_at(
                old(self)@,
                StreamInput::Event(OpenAiSseEvent::Chunk(*chunk)),
            ).len(),
        ensures
            final(self)@ == after_chunk(old(self)@, *chunk, id@, ids.deep_view()).state,
            final(out).deep_view() == old(out).deep_view() + after_chunk(
                old(self)@,
                *chunk,
                id@,
                ids.deep_view(),
            ).frames,
    {
        let ghost start = self@;
        let ghost before = out.deep_view();
        self.count_tokens(&chunk.usage);
        let ghost counted = self@;
        if chunk.choices.len() == 0 {
            assert(out.deep_view() =~= before + after_chunk(
                start,
                *chunk,
                id@,
                ids.deep_view(),
            ).frames);
            return;
        }
        let choice = &chunk.choices[0];
        self.begin(id, out);
        let ghost a = begun(counted, id@);
        let text = match &choice.delta.content {
            Some(text) => text.as_str(),
            None => {
                proof {
                    reveal_strlit("");
                    assert(""@ =~= Seq::<char>::empty());
                }
                ""
            },
        };
        self.take_text(text, out);
        let ghost b = with_text(a.state, text@);
        match &choice.delta.tool_calls {
            Some(pieces) => {
                self.take_pieces(pieces);
                self.has_tool_call = true;
            },
            None => {},
        }
        let ghost c = with_tools(b.state, choice.delta.tool_calls);
        assert(self@ == c);
        proof {
            slots_needed_is_the_number(
                start.slots,
                pieces_of(StreamInput::Event(OpenAiSseEvent::Chunk(*chunk))),
            );
        }
        self.take_finish(&choice.finish_reason, ids, out);
        assert(out.deep_view() =~= before + after_chunk(
            start,
            *chunk,
            id@,
            ids.deep_view(),
        ).frames);
    }

    /// Ends the text block and sends out the tool calls.
    fn drain(&mut self, ids: &Vec<String>, out: &mut Vec<Frame>)
        requires
            old(self).block_index + old(self).tool_accs@.len() < usize::MAX,
            ids@.len() == old(self).tool_accs@.len(),
        ensures
            final(self)@ == drained(old(self)@, ids.deep_view()).state,
            final(out).deep_view() == old(out).deep_view() + drained(
                old(self)@,
                ids.deep_view(),
            ).frames,
    {
        let ghost start = self@;
        let ghost before = out.deep_view();
        self.close_text(out);
        self.flush_tools_with(ids, out);
        self.phase = Phase::Epilogue;
        assert(out.deep_view() =~= before + drained(start, ids.deep_view()).frames);
    }

    /// How many slots for tool calls an input leads to; nothing where they
    /// cannot be counted on this machine.
    fn slots_after(&self, input: &StreamInput<OpenAiSseEvent>) -> (r: Option<usize>)
        ensures
            match r {
                Some(n) => n == slots_needed(self@.slots.len(), pieces_of(*input)),
                None => slots_needed(self@.slots.len(), pieces_of(*input)) > usize::MAX,
            },
    {
        let mut needed: usize = self.tool_accs.len();
        match input {
            StreamInput::Event(OpenAiSseEvent::Chunk(chunk)) => {
                if chunk.choices.len() > 0 {
                    match &chunk.choices[0].delta.tool_calls {
                        Some(pieces) => {
                            let mut i: usize = 0;
                            assert(pieces@.take(0) =~= Seq::<ChunkToolCall>::empty());
                            while i < pieces.len()
                                invariant
                                    i <= pieces@.len(),
                                    pieces@ == pieces_of(*input),
                                    needed == slots_needed(
                                        self.tool_accs@.len(),
                                        pieces@.take(i as int),
                                    ),
                                decreases pieces.len() - i,
                            {
                                proof {
                                    assert(pieces@.take(i + 1).drop_last() =~= pieces@.take(
                                        i as int,
                                    ));
                                    slots_needed_grow(self.tool_accs@.len(), pieces@, i + 1);
                                }
                                if pieces[i].index == usize::MAX {
                                    return None;
                                }
                                if needed <= pieces[i].index {
                                    needed = pieces[i].index + 1;
                                }
                                i += 1;
                            }
                            assert(pieces@.take(i as int) =~= pieces@);
                        },
                        None => {},
                    }
                }
            },
            _ => {},
        }
        Some(needed)
    }

    /// Tells whether the numbers that an input leads to can be counted on this
    /// machine.
    pub fn has_room(&self, input: &StreamInput<OpenAiSseEvent>) -> (r: bool)
        ensures
            r == fits(self@, *input),
    {
        match self.slots_after(input) {
            Some(needed) => needed < usize::MAX - self.block_index,
            None => false,
        }
    }

    /// Takes a step, and gives back the frames that go to the client. `id` is
    /// the id of a message that begins, and `ids` holds one for each tool call
    /// that has none.
    pub fn step_with(
        &mut self,
        input: &StreamInput<OpenAiSseEvent>,
        id: &str,
        ids: &Vec<String>,
    ) -> (r: Vec<Frame>)
        requires
            fits(old(self)@, *input),
            ids@.len() == slots_at(old(self)@, *input).len(),
        ensures
            final(self)@ == after_step(old(self)@, *input, id@, ids.deep_view()).state,
            r.deep_view() == after_step(old(self)@, *input, id@, ids.deep_view()).frames,
    {
        let mut out: Vec<Frame> = Vec::new();
        let ghost start = self@;
        assert(out.deep_view() =~= Seq::<FrameModel>::empty());
        if !(self.phase == Phase::AwaitingFirstChunk || self.phase == Phase::Streaming) {
            return out;
        }
        match input {
            StreamInput::Event(OpenAiSseEvent::Chunk(chunk)) => {
                self.take_chunk(chunk, id, ids, &mut out);
            },
            StreamInput::Event(OpenAiSseEvent::Done) => {
                self.drain(ids, &mut out);
            },
            StreamInput::Failed(error) => {
                out.push(Frame::Error { message: error.message() });
                self.phase = Phase::Epilogue;
            },
            StreamInput::Ended => {
                self.drain(ids, &mut out);
            },
            StreamInput::TimedOut { seconds } => {
                let kind = if self.phase == Phase::AwaitingFirstChunk {
                    "first-byte"
                } else {
                    "idle"
                };
                out.push(Frame::Error { message: timeout_message(kind, *seconds) });
                self.phase = Phase::Epilogue;
            },
        }
        assert(out.deep_view() =~= after_input(start, *input, id@, ids.deep_view()).frames);
        if self.phase == Phase::Epilogue {
            let stop_reason = if self.has_tool_call {
                TOOL_USE
            } else {
                self.final_stop_reason.as_str()
            };
            emit_epilogue(&mut out, stop_reason, &self.usage, self.estimated_input_tokens);
            self.phase = Phase::Done;
        }
        out
    }

    /// Takes a step, and gives back the frames that go to the client. A
    /// message that begins gets a generated id, and so does each tool call
    /// that has none.
    pub fn step(&mut self, input: &StreamInput<OpenAiSseEvent>) -> (r: Vec<Frame>)
        requires
            fits(old(self)@, *input),
        ensures
            exists|id: Seq<char>, ids: Seq<Seq<char>>|
                {
                    &&& #[trigger] serves(old(self)@, *input, id, ids)
                    &&& final(self)@ == after_step(old(self)@, *input, id, ids).state
                    &&& r.deep_view() == after_step(old(self)@, *input, id, ids).frames
                },
    {
        proof {
            slots_needed_is_the_number(self@.slots, pieces_of(*input));
        }
        let needed: usize = match self.slots_after(input) {
            Some(needed) => needed,
            None => 0,
        };
        let id = if self.phase == Phase::AwaitingFirstChunk {
            generate_message_id()
        } else {
            String::new()
        };
        let ids = if sends_tools(input) {
            fresh_ids(needed)
        } else {
            no_ids(needed)
        };
        assert(serves(self@, *input, id@, ids.deep_view()));
        self.step_with(input, id.as_str(), &ids)
    }
}

// ---------------------------------------------------------------------------
// A whole stream
// ---------------------------------------------------------------------------

/// What all of `inputs` lead to. `ids` holds a message id for each input, and
/// `tool_ids` the ids for tool calls that have none.
pub open spec fn after_run(
    s: StateModel,
    inputs: Seq<StreamInput<OpenAiSseEvent>>,
    ids: Seq<Seq<char>>,
    tool_ids: Seq<Seq<Seq<char>>>,
) -> Outcome
    decreases inputs.len(),
{
    if inputs.len() == 0 {
        Outcome { state: s, frames: Seq::empty() }
    } else {
        let earlier = after_run(s, inputs.drop_last(), ids, tool_ids);
        let step = after_step(
            earlier.state,
            inputs.last(),
            ids[inputs.len() - 1],
            tool_ids[inputs.len() - 1],
        );
        Outcome { state: step.state, frames: earlier.frames + step.frames }
    }
}

/// The input is the end of the upstream's stream, by itself or by an event.
pub open spec fn is_end(input: StreamInput<OpenAiSseEvent>) -> bool {
    !(input matches StreamInput::Event(OpenAiSseEvent::Chunk(_)))
}

/// No frame belongs to the end of a message.
pub open spec fn goes_on(frames: Seq<FrameModel>) -> bool {
    forall|i: int| 0 <= i < frames.len() ==> !is_closing(#[trigger] frames[i])
}

proof fn goes_on_concat(a: Seq<FrameModel>, b: Seq<FrameModel>)
    requires
        goes_on(a),
        goes_on(b),
    ensures
        goes_on(a + b),
{
    assert forall|i: int| 0 <= i < (a + b).len() implies !is_closing(#[trigger] (a + b)[i]) by {
        if i < a.len() {
            assert((a + b)[i] == a[i]);
        } else {
            assert((a + b)[i] == b[i - a.len()]);
        }
    }
}

proof fn tools_go_on(
    slots: Seq<Option<AccModel>>,
    from: nat,
    names: Map<Seq<char>, Seq<char>>,
    ids: Seq<Seq<char>>,
)
    ensures
        goes_on(tools_frames(slots, from, names, ids)),
    decreases slots.len(),
{
    if slots.len() > 0 {
        let rest = slots.drop_last();
        tools_go_on(rest, from, names, ids);
        if let Some(acc) = slots.last() {
            goes_on_concat(
                tools_frames(rest, from, names, ids),
                tool_frames(acc, from + filled(rest), names, ids[slots.len() - 1]),
            );
        }
    }
}

proof fn input_goes_on(
    s: StateModel,
    input: StreamInput<OpenAiSseEvent>,
    id: Seq<char>,
    ids: Seq<Seq<char>>,
)
    requires
        is_open(s),
    ensures
        goes_on(after_input(s, input, id, ids).frames),
        is_end(input) <==> after_input(s, input, id, ids).state.phase == Phase::Epilogue,
        !is_end(input) ==> is_open(after_input(s, input, id, ids).state),
{
    match input {
        StreamInput::Event(OpenAiSseEvent::Chunk(chunk)) => {
            if chunk.choices@.len() > 0 {
                let s1 = StateModel { usage: updated_usage(s.usage, chunk.usage), ..s };
                let choice = chunk.choices@[0];
                let a = begun(s1, id);
                let b = with_text(
                    a.state,
                    match choice.delta.content {
                        Some(text) => text@,
                        None => Seq::empty(),
                    },
                );
                let c = with_tools(b.state, choice.delta.tool_calls);
                finish_goes_on(c, choice.finish_reason.deep_view(), ids);
                let d = finished(c, choice.finish_reason.deep_view(), ids);
                goes_on_concat(a.frames, b.frames);
                goes_on_concat(a.frames + b.frames, d.frames);
            }
        },
        StreamInput::Event(OpenAiSseEvent::Done) => {
            drain_goes_on(s, ids);
        },
        StreamInput::Ended => {
            drain_goes_on(s, ids);
        },
        _ => {},
    }
}

proof fn finish_goes_on(s: StateModel, reason: Option<Seq<char>>, ids: Seq<Seq<char>>)
    ensures
        goes_on(finished(s, reason, ids).frames),
        finished(s, reason, ids).state.phase == s.phase,
{
    let closed = text_closed(s);
    tools_go_on(closed.state.slots, closed.state.block_index, closed.state.names, ids);
    goes_on_concat(closed.frames, tools_flushed(closed.state, ids).frames);
}

proof fn drain_goes_on(s: StateModel, ids: Seq<Seq<char>>)
    ensures
        goes_on(drained(s, ids).frames),
{
    let closed = text_closed(s);
    tools_go_on(closed.state.slots, closed.state.block_index, closed.state.names, ids);
    goes_on_concat(closed.frames, tools_flushed(closed.state, ids).frames);
}

/// A step goes on or ends the message properly.
proof fn step_goes_on_or_ends(
    s: StateModel,
    input: StreamInput<OpenAiSseEvent>,
    id: Seq<char>,
    ids: Seq<Seq<char>>,
)
    requires
        is_open(s),
    ensures
        ({
            let step = after_step(s, input, id, ids);
            if is_end(input) {
                step.state.phase == Phase::Done && ends_properly(step.frames)
            } else {
                is_open(step.state) && goes_on(step.frames)
            }
        }),
{
    let out = after_input(s, input, id, ids);
    input_goes_on(s, input, id, ids);
    if is_end(input) {
        let step = after_step(s, input, id, ids);
        assert forall|i: int| 0 <= i < step.frames.len() - 2 implies !is_closing(
            #[trigger] step.frames[i],
        ) by {
            assert(step.frames[i] == out.frames[i]);
        }
    }
}

proof fn ends_properly_after(a: Seq<FrameModel>, b: Seq<FrameModel>)
    requires
        goes_on(a),
        ends_properly(b),
    ensures
        ends_properly(a + b),
{
    let all = a + b;
    assert(all[all.len() - 2] == b[b.len() - 2]);
    assert(all[all.len() - 1] == b[b.len() - 1]);
    assert forall|i: int| 0 <= i < all.len() - 2 implies !is_closing(#[trigger] all[i]) by {
        if i < a.len() {
            assert(all[i] == a[i]);
        } else {
            assert(all[i] == b[i - a.len()]);
        }
    }
}

/// One of `inputs` is the end of the upstream's stream.
pub open spec fn has_end(inputs: Seq<StreamInput<OpenAiSseEvent>>) -> bool {
    exists|k: int| 0 <= k < inputs.len() && is_end(#[trigger] inputs[k])
}

proof fn has_end_step(inputs: Seq<StreamInput<OpenAiSseEvent>>)
    requires
        inputs.len() > 0,
    ensures
        has_end(inputs) == (has_end(inputs.drop_last()) || is_end(inputs.last())),
{
    let rest = inputs.drop_last();
    assert(inputs[inputs.len() - 1] == inputs.last());
    if has_end(rest) {
        let k = choose|k: int| 0 <= k < rest.len() && is_end(#[trigger] rest[k]);
        assert(is_end(inputs[k]));
    }
    if has_end(inputs) {
        let k = choose|k: int| 0 <= k < inputs.len() && is_end(#[trigger] inputs[k]);
        if k < rest.len() {
            assert(is_end(rest[k]));
        }
    }
}

/// The message ends once and properly: as soon as the upstream's stream is
/// over, however it is, and not before. Nothing follows.
pub proof fn message_ends_once(
    s: StateModel,
    inputs: Seq<StreamInput<OpenAiSseEvent>>,
    ids: Seq<Seq<char>>,
    tool_ids: Seq<Seq<Seq<char>>>,
)
    requires
        is_open(s),
    ensures
        ({
            let run = after_run(s, inputs, ids, tool_ids);
            if has_end(inputs) {
                run.state.phase == Phase::Done && ends_properly(run.frames)
            } else {
                is_open(run.state) && goes_on(run.frames)
            }
        }),
    decreases inputs.len(),
{
    if inputs.len() > 0 {
        let n = inputs.len() - 1;
        let earlier = after_run(s, inputs.drop_last(), ids, tool_ids);
        let step = after_step(earlier.state, inputs.last(), ids[n], tool_ids[n]);
        message_ends_once(s, inputs.drop_last(), ids, tool_ids);
        has_end_step(inputs);
        if has_end(inputs.drop_last()) {
            assert(earlier.frames + step.frames =~= earlier.frames);
        } else {
            step_goes_on_or_ends(earlier.state, inputs.last(), ids[n], tool_ids[n]);
            if is_end(inputs.last()) {
                ends_properly_after(earlier.frames, step.frames);
            } else {
                goes_on_concat(earlier.frames, step.frames);
            }
        }
    }
}

proof fn tools_number_blocks(
    slots: Seq<Option<AccModel>>,
    from: nat,
    names: Map<Seq<char>, Seq<char>>,
    ids: Seq<Seq<char>>,
)
    ensures
        counts_blocks(tools_frames(slots, from, names, ids), from),
        blocks_ended(tools_frames(slots, from, names, ids)) == filled(slots),
    decreases slots.len(),
{
    if slots.len() > 0 {
        let rest = slots.drop_last();
        let earlier = tools_frames(rest, from, names, ids);
        tools_number_blocks(rest, from, names, ids);
        if let Some(acc) = slots.last() {
            let index = from + filled(rest);
            let call = tool_frames(acc, index, names, ids[slots.len() - 1]);
            tool_numbers_block(acc, index, names, ids[slots.len() - 1]);
            counts_blocks_concat(earlier, call, from);
            blocks_ended_concat(earlier, call);
        }
    }
}

proof fn tool_numbers_block(
    acc: AccModel,
    index: nat,
    names: Map<Seq<char>, Seq<char>>,
    fallback: Seq<char>,
)
    ensures
        counts_blocks(tool_frames(acc, index, names, fallback), index),
        blocks_ended(tool_frames(acc, index, names, fallback)) == 1,
{
    let f = tool_frames(acc, index, names, fallback);
    one_frame(f[0], index);
    one_frame(f[1], index);
    one_frame(f[2], index);
    one_frame(f[3], index);
    two_frames(f[0], f[1], index);
    let ab = seq![f[0], f[1]];
    blocks_ended_concat(ab, seq![f[2]]);
    counts_blocks_concat(ab, seq![f[2]], index);
    let abc = ab + seq![f[2]];
    blocks_ended_concat(abc, seq![f[3]]);
    counts_blocks_concat(abc, seq![f[3]], index);
    assert(f =~= abc + seq![f[3]]);
}

/// Two frames of one block, neither of which ends it.
proof fn two_frames(a: FrameModel, b: FrameModel, index: nat)
    requires
        !(a is BlockStop),
        !(b is BlockStop),
        counts_blocks(seq![a], index),
        counts_blocks(seq![b], index),
    ensures
        counts_blocks(seq![a, b], index),
        blocks_ended(seq![a, b]) == 0,
{
    one_frame(a, index);
    one_frame(b, index);
    assert(seq![a, b] =~= seq![a] + seq![b]);
    counts_blocks_concat(seq![a], seq![b], index);
    blocks_ended_concat(seq![a], seq![b]);
}

/// The frames of an outcome count the blocks of the state before it.
pub open spec fn numbers_blocks(s: StateModel, out: Outcome) -> bool {
    &&& counts_blocks(out.frames, s.block_index)
    &&& out.state.block_index == s.block_index + blocks_ended(out.frames)
}

proof fn closing_text_numbers_blocks(s: StateModel)
    ensures
        numbers_blocks(s, text_closed(s)),
{
    if s.text_open {
        one_frame(FrameModel::BlockStop { index: s.block_index }, s.block_index);
    }
}

proof fn flushing_numbers_blocks(s: StateModel, ids: Seq<Seq<char>>)
    ensures
        numbers_blocks(
            s,
            Outcome {
                state: tools_flushed(text_closed(s).state, ids).state,
                frames: text_closed(s).frames + tools_flushed(text_closed(s).state, ids).frames,
            },
        ),
{
    let closed = text_closed(s);
    let out = tools_flushed(closed.state, ids);
    closing_text_numbers_blocks(s);
    tools_number_blocks(closed.state.slots, closed.state.block_index, closed.state.names, ids);
    counts_blocks_concat(closed.frames, out.frames, s.block_index);
    blocks_ended_concat(closed.frames, out.frames);
}

proof fn choice_numbers_blocks(
    s: StateModel,
    choice: ChunkChoice,
    id: Seq<char>,
    ids: Seq<Seq<char>>,
)
    ensures
        numbers_blocks(s, after_choice(s, choice, id, ids)),
{
    let n = s.block_index;
    let text = match choice.delta.content {
        Some(text) => text@,
        None => Seq::empty(),
    };
    let a = begun(s, id);
    let b = with_text(a.state, text);
    let c = with_tools(b.state, choice.delta.tool_calls);
    let d = finished(c, choice.finish_reason.deep_view(), ids);
    if a.frames.len() > 0 {
        one_frame(a.frames[0], n);
        assert(a.frames =~= seq![a.frames[0]]);
    }
    if b.frames.len() == 1 {
        one_frame(b.frames[0], n);
        assert(b.frames =~= seq![b.frames[0]]);
    } else if b.frames.len() == 2 {
        one_frame(b.frames[0], n);
        one_frame(b.frames[1], n);
        two_frames(b.frames[0], b.frames[1], n);
        assert(b.frames =~= seq![b.frames[0], b.frames[1]]);
    }
    closing_text_numbers_blocks(c);
    flushing_numbers_blocks(c, ids);
    counts_blocks_concat(a.frames, b.frames, n);
    blocks_ended_concat(a.frames, b.frames);
    counts_blocks_concat(a.frames + b.frames, d.frames, n);
    blocks_ended_concat(a.frames + b.frames, d.frames);
}

proof fn step_numbers_blocks(
    s: StateModel,
    input: StreamInput<OpenAiSseEvent>,
    id: Seq<char>,
    ids: Seq<Seq<char>>,
)
    ensures
        numbers_blocks(s, after_step(s, input, id, ids)),
{
    let out = after_input(s, input, id, ids);
    let n = s.block_index;
    match input {
        StreamInput::Event(OpenAiSseEvent::Chunk(chunk)) => {
            if chunk.choices@.len() > 0 {
                choice_numbers_blocks(
                    StateModel { usage: updated_usage(s.usage, chunk.usage), ..s },
                    chunk.choices@[0],
                    id,
                    ids,
                );
            }
        },
        StreamInput::Failed(_) => {
            one_frame(out.frames[0], n);
            assert(out.frames =~= seq![out.frames[0]]);
        },
        StreamInput::TimedOut { .. } => {
            one_frame(out.frames[0], n);
            assert(out.frames =~= seq![out.frames[0]]);
        },
        _ => {
            flushing_numbers_blocks(s, ids);
        },
    }
    assert(numbers_blocks(s, out));
    let closing = closing_frames(final_reason(out.state), out.state.usage, out.state.estimated);
    closing_frames_number_no_block(
        final_reason(out.state),
        out.state.usage,
        out.state.estimated,
        out.state.block_index,
    );
    counts_blocks_concat(out.frames, closing, n);
    blocks_ended_concat(out.frames, closing);
}

/// Blocks are numbered from 0 on, one after the other: each frame carries the
/// number of blocks that have ended before it.
pub proof fn blocks_are_numbered(
    s: StateModel,
    inputs: Seq<StreamInput<OpenAiSseEvent>>,
    ids: Seq<Seq<char>>,
    tool_ids: Seq<Seq<Seq<char>>>,
)
    ensures
        numbers_blocks(s, after_run(s, inputs, ids, tool_ids)),
    decreases inputs.len(),
{
    if inputs.len() > 0 {
        let n = inputs.len() - 1;
        let earlier = after_run(s, inputs.drop_last(), ids, tool_ids);
        let step = after_step(earlier.state, inputs.last(), ids[n], tool_ids[n]);
        blocks_are_numbered(s, inputs.drop_last(), ids, tool_ids);
        step_numbers_blocks(earlier.state, inputs.last(), ids[n], tool_ids[n]);
        counts_blocks_concat(earlier.frames, step.frames, s.block_index);
        blocks_ended_concat(earlier.frames, step.frames);
    }
}

/// The block that is open in a state.
pub open spec fn open_blocks(s: StateModel) -> Blocks {
    if s.text_open {
        Blocks::OneOpen
    } else {
        Blocks::NoneOpen
    }
}

/// The frames of an outcome lead from the block that was open to the one that
/// is.
pub open spec fn keeps_blocks_apart(s: StateModel, out: Outcome) -> bool {
    after_frames(open_blocks(s), out.frames) == open_blocks(out.state)
}

proof fn tools_are_kept_apart(
    slots: Seq<Option<AccModel>>,
    from: nat,
    names: Map<Seq<char>, Seq<char>>,
    ids: Seq<Seq<char>>,
)
    ensures
        after_frames(Blocks::NoneOpen, tools_frames(slots, from, names, ids)) == Blocks::NoneOpen,
    decreases slots.len(),
{
    if slots.len() > 0 {
        let rest = slots.drop_last();
        tools_are_kept_apart(rest, from, names, ids);
        if let Some(acc) = slots.last() {
            let call = tool_frames(acc, from + filled(rest), names, ids[slots.len() - 1]);
            after_few_frames(Blocks::NoneOpen, call);
            after_frames_concat(Blocks::NoneOpen, tools_frames(rest, from, names, ids), call);
        }
    }
}

proof fn flushing_keeps_blocks_apart(s: StateModel, ids: Seq<Seq<char>>)
    ensures
        keeps_blocks_apart(s, text_closed(s)),
        after_frames(
            open_blocks(s),
            text_closed(s).frames + tools_flushed(text_closed(s).state, ids).frames,
        ) == Blocks::NoneOpen,
{
    let closed = text_closed(s);
    after_few_frames(open_blocks(s), closed.frames);
    tools_are_kept_apart(closed.state.slots, closed.state.block_index, closed.state.names, ids);
    after_frames_concat(open_blocks(s), closed.frames, tools_flushed(closed.state, ids).frames);
}

proof fn choice_keeps_blocks_apart(
    s: StateModel,
    choice: ChunkChoice,
    id: Seq<char>,
    ids: Seq<Seq<char>>,
)
    ensures
        keeps_blocks_apart(s, after_choice(s, choice, id, ids)),
{
    let text = match choice.delta.content {
        Some(text) => text@,
        None => Seq::empty(),
    };
    let a = begun(s, id);
    let b = with_text(a.state, text);
    let c = with_tools(b.state, choice.delta.tool_calls);
    let d = finished(c, choice.finish_reason.deep_view(), ids);
    after_few_frames(open_blocks(s), a.frames);
    after_few_frames(open_blocks(a.state), b.frames);
    flushing_keeps_blocks_apart(c, ids);
    after_frames_concat(open_blocks(s), a.frames, b.frames);
    after_frames_concat(open_blocks(s), a.frames + b.frames, d.frames);
}

proof fn step_keeps_blocks_apart(
    s: StateModel,
    input: StreamInput<OpenAiSseEvent>,
    id: Seq<char>,
    ids: Seq<Seq<char>>,
)
    ensures
        keeps_blocks_apart(s, after_step(s, input, id, ids)),
{
    let out = after_input(s, input, id, ids);
    match input {
        StreamInput::Event(OpenAiSseEvent::Chunk(chunk)) => {
            if chunk.choices@.len() > 0 {
                choice_keeps_blocks_apart(
                    StateModel { usage: updated_usage(s.usage, chunk.usage), ..s },
                    chunk.choices@[0],
                    id,
                    ids,
                );
            }
        },
        StreamInput::Failed(_) => {
            after_few_frames(open_blocks(s), out.frames);
        },
        StreamInput::TimedOut { .. } => {
            after_few_frames(open_blocks(s), out.frames);
        },
        _ => {
            flushing_keeps_blocks_apart(s, ids);
        },
    }
    let closing = closing_frames(final_reason(out.state), out.state.usage, out.state.estimated);
    after_few_frames(open_blocks(out.state), closing);
    after_frames_concat(open_blocks(s), out.frames, closing);
}

/// One block follows the other: none begins inside another, each ends at most
/// once, and what belongs to a block comes between its beginning and its end.
pub proof fn blocks_are_kept_apart(
    s: StateModel,
    inputs: Seq<StreamInput<OpenAiSseEvent>>,
    ids: Seq<Seq<char>>,
    tool_ids: Seq<Seq<Seq<char>>>,
)
    ensures
        keeps_blocks_apart(s, after_run(s, inputs, ids, tool_ids)),
    decreases inputs.len(),
{
    if inputs.len() > 0 {
        let n = inputs.len() - 1;
        let earlier = after_run(s, inputs.drop_last(), ids, tool_ids);
        let step = after_step(earlier.state, inputs.last(), ids[n], tool_ids[n]);
        blocks_are_kept_apart(s, inputs.drop_last(), ids, tool_ids);
        step_keeps_blocks_apart(earlier.state, inputs.last(), ids[n], tool_ids[n]);
        after_frames_concat(open_blocks(s), earlier.frames, step.frames);
    }
}

/// When the upstream's stream is over and did not break off, no block is left
/// open and no tool call is left behind.
pub proof fn nothing_is_left_behind(
    s: StateModel,
    input: StreamInput<OpenAiSseEvent>,
    id: Seq<char>,
    ids: Seq<Seq<char>>,
)
    requires
        is_open(s),
        input is Ended || input == StreamInput::Event(OpenAiSseEvent::Done),
    ensures
        ({
            let step = after_step(s, input, id, ids);
            &&& step.state.phase == Phase::Done
            &&& !step.state.text_open
            &&& step.state.slots.len() == 0
            &&& step.frames == text_closed(s).frames + tools_frames(
                s.slots,
                text_closed(s).state.block_index,
                s.names,
                ids,
            ) + closing_frames(final_reason(s), s.usage, s.estimated)
        }),
{
}

/// Every tool block that goes out has an id that the Messages API takes.
pub proof fn tool_blocks_have_ids(
    slots: Seq<Option<AccModel>>,
    from: nat,
    names: Map<Seq<char>, Seq<char>>,
    ids: Seq<Seq<char>>,
    i: int,
)
    requires
        ids_for(slots, ids),
        0 <= i < tools_frames(slots, from, names, ids).len(),
    ensures
        tools_frames(slots, from, names, ids)[i] matches FrameModel::ToolStart { id, .. } ==> is_id(
            id,
        ),
    decreases slots.len(),
{
    let rest = slots.drop_last();
    let earlier = tools_frames(rest, from, names, ids);
    if i < earlier.len() {
        let fewer = ids.drop_last();
        tools_need_no_more_ids(rest, from, names, ids, fewer);
        assert forall|k: int| 0 <= k < rest.len() implies (#[trigger] rest[k] matches Some(acc)
            ==> acc.id.len() == 0 ==> is_generated_id(fewer[k]) && is_id(fewer[k])) by {
            assert(rest[k] == slots[k]);
        }
        tool_blocks_have_ids(rest, from, names, fewer, i);
    } else if let Some(acc) = slots.last() {
        assert(slots[slots.len() - 1] == slots.last());
        cleaned_is_an_id(acc.id);
    }
}

proof fn tools_need_no_more_ids(
    slots: Seq<Option<AccModel>>,
    from: nat,
    names: Map<Seq<char>, Seq<char>>,
    a: Seq<Seq<char>>,
    b: Seq<Seq<char>>,
)
    requires
        forall|k: int| 0 <= k < slots.len() ==> #[trigger] a[k] == b[k],
    ensures
        tools_frames(slots, from, names, a) == tools_frames(slots, from, names, b),
    decreases slots.len(),
{
    if slots.len() > 0 {
        assert(a[slots.len() - 1] == b[slots.len() - 1]);
        tools_need_no_more_ids(slots.drop_last(), from, names, a, b);
    }
}

/// The arguments of the tool call with the upstream's index `i`, as far as
/// they have come.
pub open spec fn arguments_at(slots: Seq<Option<AccModel>>, i: int) -> Seq<char> {
    if 0 <= i < slots.len() {
        match slots[i] {
            Some(acc) => acc.args,
            None => Seq::empty(),
        }
    } else {
        Seq::empty()
    }
}

/// The arguments that a piece brings.
pub open spec fn piece_arguments(piece: ChunkToolCall) -> Seq<char> {
    match piece.function {
        Some(function) => match function.arguments {
            Some(arguments) => arguments@,
            None => Seq::empty(),
        },
        None => Seq::empty(),
    }
}

/// The arguments that `pieces` bring for the tool call with the index `i`, one
/// behind the other.
pub open spec fn joined_arguments(pieces: Seq<ChunkToolCall>, i: int) -> Seq<char>
    decreases pieces.len(),
{
    if pieces.len() == 0 {
        Seq::empty()
    } else if pieces.last().index == i {
        joined_arguments(pieces.drop_last(), i) + piece_arguments(pieces.last())
    } else {
        joined_arguments(pieces.drop_last(), i)
    }
}

/// In whatever pieces the arguments of a tool call come, and however they are
/// mixed with those of others, they are put together in their order.
pub proof fn arguments_are_put_together(
    slots: Seq<Option<AccModel>>,
    pieces: Seq<ChunkToolCall>,
    i: int,
)
    ensures
        arguments_at(slots_with_pieces(slots, pieces), i) == arguments_at(slots, i)
            + joined_arguments(pieces, i),
    decreases pieces.len(),
{
    if pieces.len() == 0 {
        assert(arguments_at(slots, i) + joined_arguments(pieces, i) =~= arguments_at(slots, i));
    } else {
        let before = slots_with_pieces(slots, pieces.drop_last());
        let piece = pieces.last();
        arguments_are_put_together(slots, pieces.drop_last(), i);
        assert(arguments_at(slots_with_piece(before, piece), i) =~= arguments_at(before, i) + if piece.index
            == i {
            piece_arguments(piece)
        } else {
            Seq::empty()
        });
        assert(arguments_at(slots_with_pieces(slots, pieces), i) =~= arguments_at(slots, i)
            + joined_arguments(pieces, i));
    }
}

/// No frame begins a message.
pub open spec fn begins_nothing(frames: Seq<FrameModel>) -> bool {
    forall|i: int| 0 <= i < frames.len() ==> !((#[trigger] frames[i]) is MessageStart)
}

proof fn tools_begin_nothing(
    slots: Seq<Option<AccModel>>,
    from: nat,
    names: Map<Seq<char>, Seq<char>>,
    ids: Seq<Seq<char>>,
)
    ensures
        begins_nothing(tools_frames(slots, from, names, ids)),
    decreases slots.len(),
{
    if slots.len() > 0 {
        let rest = slots.drop_last();
        tools_begin_nothing(rest, from, names, ids);
        if let Some(acc) = slots.last() {
            let a = tools_frames(rest, from, names, ids);
            let b = tool_frames(acc, from + filled(rest), names, ids[slots.len() - 1]);
            assert forall|i: int| 0 <= i < (a + b).len() implies !((#[trigger] (a + b)[i])
                is MessageStart) by {
                if i < a.len() {
                    assert((a + b)[i] == a[i]);
                } else {
                    assert((a + b)[i] == b[i - a.len()]);
                }
            }
        }
    }
}

/// Once the message has begun, nothing begins another; and the step that
/// begins it has its beginning as the first frame.
proof fn step_begins_once(
    s: StateModel,
    input: StreamInput<OpenAiSseEvent>,
    id: Seq<char>,
    ids: Seq<Seq<char>>,
)
    ensures
        ({
            let step = after_step(s, input, id, ids);
            if s.phase == Phase::AwaitingFirstChunk && step.state.phase == Phase::Streaming {
                &&& step.frames.len() > 0
                &&& step.frames[0] == (FrameModel::MessageStart { id, model: s.model })
                &&& begins_nothing(step.frames.skip(1))
            } else {
                &&& begins_nothing(step.frames)
                &&& s.phase == Phase::AwaitingFirstChunk && step.state.phase
                    == Phase::AwaitingFirstChunk ==> step.frames.len() == 0 && step.state.slots
                    == s.slots && step.state.text_open == s.text_open
            }
        }),
{
    let closed = text_closed(s);
    tools_begin_nothing(closed.state.slots, closed.state.block_index, closed.state.names, ids);
    if let StreamInput::Event(OpenAiSseEvent::Chunk(chunk)) = input {
        if chunk.choices@.len() > 0 && is_open(s) {
            let s1 = StateModel { usage: updated_usage(s.usage, chunk.usage), ..s };
            let choice = chunk.choices@[0];
            let text = match choice.delta.content {
                Some(text) => text@,
                None => Seq::empty(),
            };
            let a = begun(s1, id);
            let b = with_text(a.state, text);
            let c = with_tools(b.state, choice.delta.tool_calls);
            let d = finished(c, choice.finish_reason.deep_view(), ids);
            let closed = text_closed(c);
            tools_begin_nothing(
                closed.state.slots,
                closed.state.block_index,
                closed.state.names,
                ids,
            );
            assert(begins_nothing(d.frames)) by {
                let flushed = tools_flushed(closed.state, ids).frames;
                assert forall|i: int| 0 <= i < d.frames.len() implies !((#[trigger] d.frames[i])
                    is MessageStart) by {
                    if i >= closed.frames.len() {
                        assert(d.frames[i] == flushed[i - closed.frames.len()]);
                    }
                }
            }
            let step = after_step(s, input, id, ids);
            assert(step.frames == a.frames + b.frames + d.frames);
            assert forall|i: int| a.frames.len() <= i < step.frames.len() implies !((
            #[trigger] step.frames[i]) is MessageStart) by {
                if i >= a.frames.len() + b.frames.len() {
                    assert(step.frames[i] == d.frames[i - a.frames.len() - b.frames.len()]);
                } else {
                    assert(step.frames[i] == b.frames[i - a.frames.len()]);
                }
            }
            if s.phase == Phase::AwaitingFirstChunk {
                assert forall|i: int| 0 <= i < step.frames.skip(1).len() implies !((
                #[trigger] step.frames.skip(1)[i]) is MessageStart) by {
                    assert(step.frames.skip(1)[i] == step.frames[i + 1]);
                }
            }
        }
    } else if is_open(s) {
        let out = after_input(s, input, id, ids);
        let flushed = tools_flushed(closed.state, ids).frames;
        let step = after_step(s, input, id, ids);
        assert forall|i: int| 0 <= i < out.frames.len() implies !((#[trigger] out.frames[i])
            is MessageStart) by {
            if !(out.frames[0] is Error) && i >= closed.frames.len() {
                assert(out.frames[i] == flushed[i - closed.frames.len()]);
            }
        }
        assert forall|i: int| 0 <= i < step.frames.len() implies !((#[trigger] step.frames[i])
            is MessageStart) by {
            if i < out.frames.len() {
                assert(step.frames[i] == out.frames[i]);
            }
        }
    }
}

/// The message begins once, with its first frame: what stands behind that
/// never begins another, and a frame of a block never comes before it.
pub proof fn message_begins_once(
    model: Seq<char>,
    estimated: u32,
    names: Map<Seq<char>, Seq<char>>,
    inputs: Seq<StreamInput<OpenAiSseEvent>>,
    ids: Seq<Seq<char>>,
    tool_ids: Seq<Seq<Seq<char>>>,
)
    ensures
        ({
            let run = after_run(initial_state(model, estimated, names), inputs, ids, tool_ids);
            &&& forall|i: int|
                0 < i < run.frames.len() ==> !((#[trigger] run.frames[i]) is MessageStart)
            &&& run.state.phase == Phase::Streaming ==> run.frames.len() > 0
                && run.frames[0] is MessageStart
            &&& run.state.phase == Phase::AwaitingFirstChunk ==> run.frames.len() == 0
            &&& forall|i: int|
                0 <= i < run.frames.len() && frame_index(#[trigger] run.frames[i]) is Some
                    ==> run.frames[0] is MessageStart
        }),
{
    beginning_comes_first(initial_state(model, estimated, names), inputs, ids, tool_ids);
}

proof fn beginning_comes_first(
    s: StateModel,
    inputs: Seq<StreamInput<OpenAiSseEvent>>,
    ids: Seq<Seq<char>>,
    tool_ids: Seq<Seq<Seq<char>>>,
)
    requires
        s.phase == Phase::AwaitingFirstChunk,
        s.slots.len() == 0,
        !s.text_open,
    ensures
        ({
            let run = after_run(s, inputs, ids, tool_ids);
            &&& forall|i: int|
                0 < i < run.frames.len() ==> !((#[trigger] run.frames[i]) is MessageStart)
            &&& run.state.phase == Phase::Streaming ==> run.frames.len() > 0
                && run.frames[0] is MessageStart
            &&& run.state.phase == Phase::AwaitingFirstChunk ==> run.frames.len() == 0
                && run.state.slots.len() == 0 && !run.state.text_open
            &&& run.state.phase != Phase::Epilogue
            &&& forall|i: int|
                0 <= i < run.frames.len() && frame_index(#[trigger] run.frames[i]) is Some
                    ==> run.frames[0] is MessageStart
        }),
    decreases inputs.len(),
{
    if inputs.len() > 0 {
        let n = inputs.len() - 1;
        let input = inputs.last();
        let earlier = after_run(s, inputs.drop_last(), ids, tool_ids);
        let step = after_step(earlier.state, input, ids[n], tool_ids[n]);
        let run = after_run(s, inputs, ids, tool_ids);
        beginning_comes_first(s, inputs.drop_last(), ids, tool_ids);
        step_begins_once(earlier.state, input, ids[n], tool_ids[n]);
        if is_open(earlier.state) {
            input_goes_on(earlier.state, input, ids[n], tool_ids[n]);
        }
        if earlier.frames.len() == 0 {
            assert(run.frames =~= step.frames);
            assert forall|i: int| 0 < i < run.frames.len() implies !((#[trigger] run.frames[i])
                is MessageStart) by {
                if step.state.phase == Phase::Streaming {
                    assert(step.frames.skip(1)[i - 1] == step.frames[i]);
                }
            }
            if earlier.state.phase == Phase::AwaitingFirstChunk && step.state.phase
                == Phase::Done {
                nothing_to_drain(earlier.state, input, ids[n], tool_ids[n]);
            }
        } else {
            assert(run.frames[0] == earlier.frames[0]);
            assert forall|i: int| 0 < i < run.frames.len() implies !((#[trigger] run.frames[i])
                is MessageStart) by {
                if i < earlier.frames.len() {
                    assert(run.frames[i] == earlier.frames[i]);
                } else {
                    assert(run.frames[i] == step.frames[i - earlier.frames.len()]);
                }
            }
            assert forall|i: int|
                0 <= i < run.frames.len() && frame_index(
                    #[trigger] run.frames[i],
                ) is Some implies run.frames[0] is MessageStart by {
                if i < earlier.frames.len() {
                    assert(run.frames[i] == earlier.frames[i]);
                }
            }
        }
    }
}

/// A stream that ends before its first chunk has no block to end.
proof fn nothing_to_drain(
    s: StateModel,
    input: StreamInput<OpenAiSseEvent>,
    id: Seq<char>,
    ids: Seq<Seq<char>>,
)
    requires
        s.phase == Phase::AwaitingFirstChunk,
        s.slots.len() == 0,
        !s.text_open,
        after_step(s, input, id, ids).state.phase == Phase::Done,
    ensures
        forall|i: int|
            0 <= i < after_step(s, input, id, ids).frames.len() ==> frame_index(
                #[trigger] after_step(s, input, id, ids).frames[i],
            ) is None,
{
    input_goes_on(s, input, id, ids);
}

/// A message that has ended says why, and how many tokens it took, by what the
/// stream has brought.
pub proof fn end_tells_what_came(
    s: StateModel,
    inputs: Seq<StreamInput<OpenAiSseEvent>>,
    ids: Seq<Seq<char>>,
    tool_ids: Seq<Seq<Seq<char>>>,
)
    requires
        is_open(s),
        after_run(s, inputs, ids, tool_ids).state.phase == Phase::Done,
    ensures
        ({
            let run = after_run(s, inputs, ids, tool_ids);
            run.frames.len() >= 2 && run.frames.skip(run.frames.len() - 2) == closing_frames(
                final_reason(run.state),
                run.state.usage,
                run.state.estimated,
            )
        }),
    decreases inputs.len(),
{
    let n = inputs.len() - 1;
    let earlier = after_run(s, inputs.drop_last(), ids, tool_ids);
    let run = after_run(s, inputs, ids, tool_ids);
    message_ends_once(s, inputs.drop_last(), ids, tool_ids);
    if earlier.state.phase == Phase::Done {
        end_tells_what_came(s, inputs.drop_last(), ids, tool_ids);
        assert(run.frames =~= earlier.frames);
    } else {
        input_goes_on(earlier.state, inputs.last(), ids[n], tool_ids[n]);
        assert(run.frames.skip(run.frames.len() - 2) =~= closing_frames(
            final_reason(run.state),
            run.state.usage,
            run.state.estimated,
        ));
    }
}

/// The input brings tool calls.
pub open spec fn brings_tools(input: StreamInput<OpenAiSseEvent>) -> bool {
    input matches StreamInput::Event(OpenAiSseEvent::Chunk(chunk)) && chunk.choices@.len() > 0
        && chunk.choices@[0].delta.tool_calls is Some
}

/// A message with tool calls ends for the sake of them, whatever the upstream
/// says.
pub proof fn tool_calls_decide_the_stop_reason(
    s: StateModel,
    inputs: Seq<StreamInput<OpenAiSseEvent>>,
    ids: Seq<Seq<char>>,
    tool_ids: Seq<Seq<Seq<char>>>,
    k: int,
)
    requires
        is_open(s),
        after_run(s, inputs, ids, tool_ids).state.phase == Phase::Done,
        0 <= k < inputs.len(),
        brings_tools(inputs[k]),
        is_open(after_run(s, inputs.take(k), ids, tool_ids).state),
    ensures
        ({
            let frames = after_run(s, inputs, ids, tool_ids).frames;
            &&& frames.len() >= 2
            &&& frames[frames.len() - 2] matches FrameModel::MessageDelta { stop_reason, .. }
            &&& stop_reason == TOOL_USE@
        }),
{
    end_tells_what_came(s, inputs, ids, tool_ids);
    tools_are_remembered(s, inputs, ids, tool_ids, k);
    end_names_tools(after_run(s, inputs, ids, tool_ids));
}

proof fn end_names_tools(run: Outcome)
    requires
        run.state.has_tool_call,
        run.frames.len() >= 2,
        run.frames.skip(run.frames.len() - 2) == closing_frames(
            final_reason(run.state),
            run.state.usage,
            run.state.estimated,
        ),
    ensures
        run.frames[run.frames.len() - 2] matches FrameModel::MessageDelta { stop_reason, .. }
            && stop_reason == TOOL_USE@,
{
    assert(run.frames.skip(run.frames.len() - 2)[0] == run.frames[run.frames.len() - 2]);
}

proof fn tools_are_remembered(
    s: StateModel,
    inputs: Seq<StreamInput<OpenAiSseEvent>>,
    ids: Seq<Seq<char>>,
    tool_ids: Seq<Seq<Seq<char>>>,
    k: int,
)
    requires
        0 <= k < inputs.len(),
        brings_tools(inputs[k]),
        is_open(after_run(s, inputs.take(k), ids, tool_ids).state),
    ensures
        after_run(s, inputs, ids, tool_ids).state.has_tool_call,
    decreases inputs.len(),
{
    if k == inputs.len() - 1 {
        assert(inputs.take(k) =~= inputs.drop_last());
    } else {
        assert(inputs.drop_last().take(k) =~= inputs.take(k));
        tools_are_remembered(s, inputs.drop_last(), ids, tool_ids, k);
    }
}

/// The input is a failure or a timeout.
pub open spec fn is_failure(input: StreamInput<OpenAiSseEvent>) -> bool {
    input is Failed || input is TimedOut
}

/// A failure or a timeout comes before any other end of the upstream's stream.
pub open spec fn breaks_off(inputs: Seq<StreamInput<OpenAiSseEvent>>) -> bool {
    exists|k: int|
        0 <= k < inputs.len() && is_failure(#[trigger] inputs[k]) && !has_end(inputs.take(k))
}

proof fn tools_tell_no_error(
    slots: Seq<Option<AccModel>>,
    from: nat,
    names: Map<Seq<char>, Seq<char>>,
    ids: Seq<Seq<char>>,
)
    ensures
        !has_error(tools_frames(slots, from, names, ids)),
    decreases slots.len(),
{
    if slots.len() > 0 {
        let rest = slots.drop_last();
        tools_tell_no_error(rest, from, names, ids);
        if let Some(acc) = slots.last() {
            has_error_concat(
                tools_frames(rest, from, names, ids),
                tool_frames(acc, from + filled(rest), names, ids[slots.len() - 1]),
            );
        }
    }
}

proof fn flushing_tells_no_error(s: StateModel, ids: Seq<Seq<char>>)
    ensures
        !has_error(text_closed(s).frames),
        !has_error(text_closed(s).frames + tools_flushed(text_closed(s).state, ids).frames),
{
    let closed = text_closed(s);
    tools_tell_no_error(closed.state.slots, closed.state.block_index, closed.state.names, ids);
    has_error_concat(closed.frames, tools_flushed(closed.state, ids).frames);
}

proof fn choice_tells_no_error(
    s: StateModel,
    choice: ChunkChoice,
    id: Seq<char>,
    ids: Seq<Seq<char>>,
)
    ensures
        !has_error(after_choice(s, choice, id, ids).frames),
{
    let text = match choice.delta.content {
        Some(text) => text@,
        None => Seq::empty(),
    };
    let a = begun(s, id);
    let b = with_text(a.state, text);
    let c = with_tools(b.state, choice.delta.tool_calls);
    let d = finished(c, choice.finish_reason.deep_view(), ids);
    flushing_tells_no_error(c, ids);
    has_error_concat(a.frames, b.frames);
    has_error_concat(a.frames + b.frames, d.frames);
}

proof fn step_tells_errors(
    s: StateModel,
    input: StreamInput<OpenAiSseEvent>,
    id: Seq<char>,
    ids: Seq<Seq<char>>,
)
    ensures
        has_error(after_step(s, input, id, ids).frames) == (is_open(s) && is_failure(input)),
{
    let out = after_input(s, input, id, ids);
    match input {
        StreamInput::Event(OpenAiSseEvent::Chunk(chunk)) => {
            if chunk.choices@.len() > 0 {
                choice_tells_no_error(
                    StateModel { usage: updated_usage(s.usage, chunk.usage), ..s },
                    chunk.choices@[0],
                    id,
                    ids,
                );
            }
        },
        StreamInput::Failed(_) => {
            assert(out.frames[0] is Error);
        },
        StreamInput::TimedOut { .. } => {
            assert(out.frames[0] is Error);
        },
        _ => {
            flushing_tells_no_error(s, ids);
        },
    }
    let closing = closing_frames(final_reason(out.state), out.state.usage, out.state.estimated);
    has_error_concat(out.frames, closing);
}

proof fn breaks_off_step(inputs: Seq<StreamInput<OpenAiSseEvent>>)
    requires
        inputs.len() > 0,
    ensures
        breaks_off(inputs) == (breaks_off(inputs.drop_last()) || (is_failure(inputs.last())
            && !has_end(inputs.drop_last()))),
{
    let rest = inputs.drop_last();
    let n = inputs.len() - 1;
    assert(inputs.take(n) =~= rest);
    if breaks_off(inputs) {
        let k = choose|k: int|
            0 <= k < inputs.len() && is_failure(#[trigger] inputs[k]) && !has_end(inputs.take(k));
        if k < n {
            assert(rest[k] == inputs[k]);
            assert(rest.take(k) =~= inputs.take(k));
        }
    }
    if breaks_off(rest) {
        let k = choose|k: int|
            0 <= k < rest.len() && is_failure(#[trigger] rest[k]) && !has_end(rest.take(k));
        assert(inputs[k] == rest[k]);
        assert(rest.take(k) =~= inputs.take(k));
    }
    if is_failure(inputs.last()) && !has_end(rest) {
        assert(is_failure(inputs[n]));
    }
}

/// The client is told of an error exactly where a failure or a timeout ends
/// the upstream's stream.
pub proof fn errors_are_told(
    s: StateModel,
    inputs: Seq<StreamInput<OpenAiSseEvent>>,
    ids: Seq<Seq<char>>,
    tool_ids: Seq<Seq<Seq<char>>>,
)
    requires
        is_open(s),
    ensures
        has_error(after_run(s, inputs, ids, tool_ids).frames) <==> breaks_off(inputs),
    decreases inputs.len(),
{
    if inputs.len() > 0 {
        let n = inputs.len() - 1;
        let earlier = after_run(s, inputs.drop_last(), ids, tool_ids);
        let step = after_step(earlier.state, inputs.last(), ids[n], tool_ids[n]);
        errors_are_told(s, inputs.drop_last(), ids, tool_ids);
        message_ends_once(s, inputs.drop_last(), ids, tool_ids);
        step_tells_errors(earlier.state, inputs.last(), ids[n], tool_ids[n]);
        has_error_concat(earlier.frames, step.frames);
        breaks_off_step(inputs);
    }
}

} // verus!
