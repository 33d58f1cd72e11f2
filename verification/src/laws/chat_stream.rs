//! A streamed answer of the Chat Completions API, as the client puts it
//! together.

use vstd::prelude::*;

use crate::convert::frames::FrameModel;
use crate::convert::stream::{
    after_chunk, after_input, after_run, after_step, arguments_are_put_together, arguments_at,
    begun, closing_frames, drained, filled, final_reason, finished, initial_state, is_open,
    joined_arguments, padded, slots_with_pieces, text_closed, tool_frames, tools_flushed,
    tools_frames, updated_usage, with_text, with_tools, AccModel, OpenAiSseEvent, Phase, StateModel,
    StreamError, StreamInput,
};
use crate::decimal::decimal;
use crate::laws::client_view::{
    all_seen, all_seen_concat, block_more, four_seen, nothing_seen, one_seen, seen, shown_text,
    tool_calls, two_seen, BlockView, ClientView,
};
use crate::types::claude::Usage;
use crate::types::openai::{ChatCompletionChunk, ChunkToolCall, ResponseUsage};
use crate::util::fix_json::fixed;
use crate::util::tool_id::id_or;
use crate::util::tool_name::restored;

verus! {

// ---------------------------------------------------------------------------
// What the upstream sends
// ---------------------------------------------------------------------------

/// The chunks that come before the end of the upstream's stream, whatever its
/// end is.
pub open spec fn chunks_before_end(inputs: Seq<StreamInput<OpenAiSseEvent>>) -> Seq<
    ChatCompletionChunk,
>
    decreases inputs.len(),
{
    if inputs.len() == 0 {
        Seq::empty()
    } else {
        let earlier = chunks_before_end(inputs.drop_last());
        if earlier.len() < inputs.len() - 1 {
            earlier
        } else {
            match inputs.last() {
                StreamInput::Event(OpenAiSseEvent::Chunk(chunk)) => earlier.push(chunk),
                _ => earlier,
            }
        }
    }
}

/// The text of the first choice of a chunk.
pub open spec fn chunk_text(chunk: ChatCompletionChunk) -> Seq<char> {
    if chunk.choices@.len() > 0 {
        match chunk.choices@[0].delta.content {
            Some(text) => text@,
            None => Seq::empty(),
        }
    } else {
        Seq::empty()
    }
}

/// The texts of the chunks, one behind the other.
pub open spec fn sent_text(chunks: Seq<ChatCompletionChunk>) -> Seq<char>
    decreases chunks.len(),
{
    if chunks.len() == 0 {
        Seq::empty()
    } else {
        sent_text(chunks.drop_last()) + chunk_text(chunks.last())
    }
}

/// The pieces of tool calls of the first choice of a chunk.
pub open spec fn chunk_pieces(chunk: ChatCompletionChunk) -> Seq<ChunkToolCall> {
    if chunk.choices@.len() > 0 {
        match chunk.choices@[0].delta.tool_calls {
            Some(pieces) => pieces@,
            None => Seq::empty(),
        }
    } else {
        Seq::empty()
    }
}

/// Why the answer ends, where a chunk says so.
pub open spec fn chunk_finish(chunk: ChatCompletionChunk) -> Option<Seq<char>> {
    if chunk.choices@.len() > 0 {
        match chunk.choices@[0].finish_reason {
            Some(reason) => Some(reason@),
            None => None,
        }
    } else {
        None
    }
}

/// The last word of the chunks on why the answer ends.
pub open spec fn last_finish(chunks: Seq<ChatCompletionChunk>) -> Option<Seq<char>>
    decreases chunks.len(),
{
    if chunks.len() == 0 {
        None
    } else if chunk_finish(chunks.last()) is Some {
        chunk_finish(chunks.last())
    } else {
        last_finish(chunks.drop_last())
    }
}

/// One of the chunks has tool calls.
pub open spec fn any_tools(chunks: Seq<ChatCompletionChunk>) -> bool
    decreases chunks.len(),
{
    chunks.len() > 0 && (any_tools(chunks.drop_last()) || (chunks.last().choices@.len() > 0
        && chunks.last().choices@[0].delta.tool_calls is Some))
}

/// One of the chunks has a choice.
pub open spec fn any_choice(chunks: Seq<ChatCompletionChunk>) -> bool
    decreases chunks.len(),
{
    chunks.len() > 0 && (any_choice(chunks.drop_last()) || chunks.last().choices@.len() > 0)
}

/// Which of the chunks has the first choice.
pub open spec fn first_choice(chunks: Seq<ChatCompletionChunk>) -> int
    decreases chunks.len(),
{
    if chunks.len() == 0 {
        0
    } else if any_choice(chunks.drop_last()) {
        first_choice(chunks.drop_last())
    } else {
        chunks.len() - 1
    }
}

/// The last token counts of the chunks.
pub open spec fn last_usage(chunks: Seq<ChatCompletionChunk>) -> Option<ResponseUsage>
    decreases chunks.len(),
{
    if chunks.len() == 0 {
        None
    } else if chunks.last().usage is Some {
        chunks.last().usage
    } else {
        last_usage(chunks.drop_last())
    }
}

/// The last count of cached tokens that is not zero; zero where there is none.
pub open spec fn last_cached(chunks: Seq<ChatCompletionChunk>) -> u32
    decreases chunks.len(),
{
    if chunks.len() == 0 {
        0
    } else {
        match chunks.last().usage {
            Some(usage) => match usage.prompt_tokens_details {
                Some(details) => match details.cached_tokens {
                    Some(n) => if n > 0 {
                        n
                    } else {
                        last_cached(chunks.drop_last())
                    },
                    None => last_cached(chunks.drop_last()),
                },
                None => last_cached(chunks.drop_last()),
            },
            None => last_cached(chunks.drop_last()),
        }
    }
}

// ---------------------------------------------------------------------------
// The tool calls that the upstream sends in pieces
// ---------------------------------------------------------------------------

/// One of the pieces belongs to the tool call with the upstream's index `i`.
pub open spec fn is_sent(pieces: Seq<ChunkToolCall>, i: int) -> bool
    decreases pieces.len(),
{
    pieces.len() > 0 && (pieces.last().index == i || is_sent(pieces.drop_last(), i))
}

/// The last id that the pieces give the tool call.
pub open spec fn sent_id(pieces: Seq<ChunkToolCall>, i: int) -> Seq<char>
    decreases pieces.len(),
{
    if pieces.len() == 0 {
        Seq::empty()
    } else if pieces.last().index == i && pieces.last().id is Some {
        pieces.last().id->0@
    } else {
        sent_id(pieces.drop_last(), i)
    }
}

/// The last name that the pieces give the tool call.
pub open spec fn sent_name(pieces: Seq<ChunkToolCall>, i: int) -> Seq<char>
    decreases pieces.len(),
{
    if pieces.len() == 0 {
        Seq::empty()
    } else if pieces.last().index == i && pieces.last().function is Some
        && pieces.last().function->0.name is Some {
        pieces.last().function->0.name->0@
    } else {
        sent_name(pieces.drop_last(), i)
    }
}

/// One above the highest index of the pieces.
pub open spec fn above_all(pieces: Seq<ChunkToolCall>) -> nat
    decreases pieces.len(),
{
    if pieces.len() == 0 {
        0
    } else {
        let earlier = above_all(pieces.drop_last());
        if pieces.last().index < earlier {
            earlier
        } else {
            pieces.last().index as nat + 1
        }
    }
}

/// The tool call with the index `i` as the client is to get it: with the id
/// that was sent for it, or else `fallback`, its declared name, and its
/// arguments in one piece.
pub open spec fn sent_call(
    pieces: Seq<ChunkToolCall>,
    i: int,
    names: Map<Seq<char>, Seq<char>>,
    fallback: Seq<char>,
) -> BlockView {
    BlockView::Tool {
        id: id_or(sent_id(pieces, i), fallback),
        name: restored(names, sent_name(pieces, i)),
        input: fixed(joined_arguments(pieces, i)),
    }
}

/// The tool calls with an index below `n`, by their index.
pub open spec fn sent_calls(
    pieces: Seq<ChunkToolCall>,
    n: nat,
    names: Map<Seq<char>, Seq<char>>,
    ids: Seq<Seq<char>>,
) -> Seq<BlockView>
    decreases n,
{
    if n == 0 {
        Seq::empty()
    } else {
        let earlier = sent_calls(pieces, (n - 1) as nat, names, ids);
        if is_sent(pieces, n - 1) {
            earlier.push(sent_call(pieces, n - 1, names, ids[n - 1]))
        } else {
            earlier
        }
    }
}

/// All tool calls of the pieces, by their index.
pub open spec fn all_sent_calls(
    pieces: Seq<ChunkToolCall>,
    names: Map<Seq<char>, Seq<char>>,
    ids: Seq<Seq<char>>,
) -> Seq<BlockView> {
    sent_calls(pieces, above_all(pieces), names, ids)
}

/// The pieces of tool calls since the upstream last said that it was done with
/// its tool calls.
pub open spec fn open_pieces(chunks: Seq<ChatCompletionChunk>) -> Seq<ChunkToolCall>
    decreases chunks.len(),
{
    if chunks.len() == 0 || chunk_finish(chunks.last()) == Some("tool_calls"@) {
        Seq::empty()
    } else {
        open_pieces(chunks.drop_last()) + chunk_pieces(chunks.last())
    }
}

/// The tool calls that the upstream is done with. `tool_ids` holds the ids of
/// those that have none.
pub open spec fn closed_calls(
    chunks: Seq<ChatCompletionChunk>,
    names: Map<Seq<char>, Seq<char>>,
    tool_ids: Seq<Seq<Seq<char>>>,
) -> Seq<BlockView>
    decreases chunks.len(),
{
    if chunks.len() == 0 {
        Seq::empty()
    } else {
        let earlier = closed_calls(chunks.drop_last(), names, tool_ids);
        if chunk_finish(chunks.last()) == Some("tool_calls"@) {
            earlier + all_sent_calls(
                open_pieces(chunks.drop_last()) + chunk_pieces(chunks.last()),
                names,
                tool_ids[chunks.len() - 1],
            )
        } else {
            earlier
        }
    }
}

// ---------------------------------------------------------------------------
// Slots and pieces
// ---------------------------------------------------------------------------

proof fn slots_of_pieces(pieces: Seq<ChunkToolCall>, i: int)
    requires
        0 <= i,
    ensures
        ({
            let slots = slots_with_pieces(Seq::empty(), pieces);
            &&& slots.len() == above_all(pieces)
            &&& is_sent(pieces, i) <==> i < slots.len() && slots[i] is Some
            &&& is_sent(pieces, i) ==> slots[i]->0.id == sent_id(pieces, i)
            &&& is_sent(pieces, i) ==> slots[i]->0.name == sent_name(pieces, i)
            &&& is_sent(pieces, i) ==> slots[i]->0.args == joined_arguments(pieces, i)
            &&& !is_sent(pieces, i) ==> sent_id(pieces, i).len() == 0 && sent_name(
                pieces,
                i,
            ).len() == 0
        }),
    decreases pieces.len(),
{
    if pieces.len() > 0 {
        let rest = pieces.drop_last();
        let piece = pieces.last();
        let before = slots_with_pieces(Seq::empty(), rest);
        let room = padded(before, piece.index as nat + 1);
        slots_of_pieces(rest, i);
        if !is_sent(rest, i) {
            assert(sent_id(rest, i) =~= Seq::<char>::empty());
            assert(sent_name(rest, i) =~= Seq::<char>::empty());
        }
        if i < before.len() {
            assert(room[i] == before[i]);
        } else if i < room.len() {
            assert(room[i] is None);
        }
    }
    arguments_are_put_together(Seq::empty(), pieces, i);
    assert(arguments_at(Seq::empty(), i) + joined_arguments(pieces, i) =~= joined_arguments(
        pieces,
        i,
    ));
}

proof fn pieces_in_two(slots: Seq<Option<AccModel>>, a: Seq<ChunkToolCall>, b: Seq<ChunkToolCall>)
    ensures
        slots_with_pieces(slots, a + b) == slots_with_pieces(slots_with_pieces(slots, a), b),
    decreases b.len(),
{
    if b.len() == 0 {
        assert(a + b =~= a);
    } else {
        assert((a + b).drop_last() =~= a + b.drop_last());
        pieces_in_two(slots, a, b.drop_last());
    }
}

/// The tool calls that slots hold, as the client is to get them.
spec fn slot_calls(
    slots: Seq<Option<AccModel>>,
    names: Map<Seq<char>, Seq<char>>,
    ids: Seq<Seq<char>>,
) -> Seq<BlockView>
    decreases slots.len(),
{
    if slots.len() == 0 {
        Seq::empty()
    } else {
        let earlier = slot_calls(slots.drop_last(), names, ids);
        match slots.last() {
            Some(acc) => earlier.push(
                BlockView::Tool {
                    id: id_or(acc.id, ids[slots.len() - 1]),
                    name: restored(names, acc.name),
                    input: fixed(acc.args),
                },
            ),
            None => earlier,
        }
    }
}

proof fn slot_calls_are_sent_calls(
    pieces: Seq<ChunkToolCall>,
    n: nat,
    names: Map<Seq<char>, Seq<char>>,
    ids: Seq<Seq<char>>,
)
    requires
        n <= slots_with_pieces(Seq::empty(), pieces).len(),
    ensures
        slot_calls(slots_with_pieces(Seq::empty(), pieces).take(n as int), names, ids)
            == sent_calls(pieces, n, names, ids),
    decreases n,
{
    let slots = slots_with_pieces(Seq::empty(), pieces);
    if n > 0 {
        slot_calls_are_sent_calls(pieces, (n - 1) as nat, names, ids);
        slots_of_pieces(pieces, n - 1);
        assert(slots.take(n as int).drop_last() =~= slots.take(n - 1));
        assert(slots.take(n as int).last() == slots[n - 1]);
    }
}

// ---------------------------------------------------------------------------
// What the client makes of it
// ---------------------------------------------------------------------------

/// The client and the state of the translation agree.
spec fn agree(s: StateModel, c: ClientView) -> bool {
    &&& !c.confused
    &&& c.open == s.text_open
    &&& c.blocks.len() == s.block_index + if c.open {
        1nat
    } else {
        0
    }
    &&& c.open ==> c.blocks.last() is Text
}

/// The client is the same but for its blocks.
spec fn same_but_blocks(a: ClientView, b: ClientView) -> bool {
    &&& a.head == b.head
    &&& a.stop_reason == b.stop_reason
    &&& a.usage == b.usage
    &&& a.over == b.over
    &&& a.error == b.error
}

proof fn closing_text(s: StateModel, c: ClientView)
    requires
        agree(s, c),
    ensures
        ({
            let d = all_seen(c, text_closed(s).frames);
            &&& agree(text_closed(s).state, d)
            &&& same_but_blocks(c, d)
            &&& d.blocks == c.blocks
            &&& !d.open
        }),
{
    if s.text_open {
        one_seen(c, FrameModel::BlockStop { index: s.block_index });
    }
}

proof fn taking_text(s: StateModel, c: ClientView, text: Seq<char>)
    requires
        agree(s, c),
    ensures
        ({
            let d = all_seen(c, with_text(s, text).frames);
            &&& agree(with_text(s, text).state, d)
            &&& same_but_blocks(c, d)
            &&& shown_text(d.blocks) == shown_text(c.blocks) + text
            &&& tool_calls(d.blocks) == tool_calls(c.blocks)
        }),
{
    let delta = FrameModel::TextDelta { index: s.block_index, text };
    if text.len() == 0 {
        assert(shown_text(c.blocks) + text =~= shown_text(c.blocks));
    } else if s.text_open {
        one_seen(c, delta);
        let old_text = c.blocks.last()->Text_text;
        let rest = c.blocks.drop_last();
        assert(c.blocks =~= rest.push(c.blocks.last()));
        block_more(rest, c.blocks.last());
        block_more(rest, BlockView::Text { text: old_text + text });
        assert(shown_text(rest) + old_text + text =~= shown_text(rest) + (old_text + text));
    } else {
        let start = FrameModel::TextStart { index: s.block_index };
        two_seen(c, start, delta);
        let empty = BlockView::Text { text: Seq::empty() };
        let begun_view = seen(c, start);
        assert(begun_view.blocks.last() == empty);
        assert(begun_view.blocks.drop_last() =~= c.blocks);
        assert(Seq::<char>::empty() + text =~= text);
        block_more(c.blocks, BlockView::Text { text });
    }
}

proof fn sending_tool(
    acc: AccModel,
    c: ClientView,
    names: Map<Seq<char>, Seq<char>>,
    fallback: Seq<char>,
)
    requires
        !c.confused,
        !c.open,
    ensures
        all_seen(c, tool_frames(acc, c.blocks.len(), names, fallback)) == (ClientView {
            blocks: c.blocks.push(
                BlockView::Tool {
                    id: id_or(acc.id, fallback),
                    name: restored(names, acc.name),
                    input: fixed(acc.args),
                },
            ),
            ..c
        }),
{
    let frames = tool_frames(acc, c.blocks.len(), names, fallback);
    four_seen(c, frames);
    let id = id_or(acc.id, fallback);
    let name = restored(names, acc.name);
    let empty = Seq::<char>::empty();
    let a = seen(c, frames[0]);
    assert(a.blocks.last() == BlockView::Tool { id, name, input: empty });
    assert(a.blocks.drop_last() =~= c.blocks);
    let b = seen(a, frames[1]);
    assert(empty + empty =~= empty);
    assert(b.blocks =~= a.blocks);
    let d = seen(b, frames[2]);
    assert(empty + fixed(acc.args) =~= fixed(acc.args));
    assert(d.blocks =~= c.blocks.push(BlockView::Tool { id, name, input: fixed(acc.args) }));
}

proof fn sending_tools(
    slots: Seq<Option<AccModel>>,
    c: ClientView,
    names: Map<Seq<char>, Seq<char>>,
    ids: Seq<Seq<char>>,
)
    requires
        !c.confused,
        !c.open,
    ensures
        ({
            let d = all_seen(c, tools_frames(slots, c.blocks.len(), names, ids));
            &&& d == (ClientView { blocks: d.blocks, ..c })
            &&& d.blocks.len() == c.blocks.len() + filled(slots)
            &&& shown_text(d.blocks) == shown_text(c.blocks)
            &&& tool_calls(d.blocks) == tool_calls(c.blocks) + slot_calls(slots, names, ids)
        }),
    decreases slots.len(),
{
    let from = c.blocks.len();
    if slots.len() == 0 {
        assert(tool_calls(c.blocks) + slot_calls(slots, names, ids) =~= tool_calls(c.blocks));
    } else {
        let rest = slots.drop_last();
        sending_tools(rest, c, names, ids);
        let earlier = tools_frames(rest, from, names, ids);
        let d = all_seen(c, earlier);
        match slots.last() {
            Some(acc) => {
                let fallback = ids[slots.len() - 1];
                let frames = tool_frames(acc, from + filled(rest), names, fallback);
                all_seen_concat(c, earlier, frames);
                sending_tool(acc, d, names, fallback);
                let call = BlockView::Tool {
                    id: id_or(acc.id, fallback),
                    name: restored(names, acc.name),
                    input: fixed(acc.args),
                };
                block_more(d.blocks, call);
                assert(shown_text(d.blocks) + Seq::<char>::empty() =~= shown_text(d.blocks));
                assert((tool_calls(c.blocks) + slot_calls(rest, names, ids)).push(call)
                    =~= tool_calls(c.blocks) + slot_calls(slots, names, ids));
            },
            None => {},
        }
    }
}

proof fn flushing(s: StateModel, c: ClientView, pieces: Seq<ChunkToolCall>, ids: Seq<Seq<char>>)
    requires
        agree(s, c),
        !s.text_open,
        s.slots == slots_with_pieces(Seq::empty(), pieces),
    ensures
        ({
            let d = all_seen(c, tools_flushed(s, ids).frames);
            &&& agree(tools_flushed(s, ids).state, d)
            &&& same_but_blocks(c, d)
            &&& shown_text(d.blocks) == shown_text(c.blocks)
            &&& tool_calls(d.blocks) == tool_calls(c.blocks) + all_sent_calls(pieces, s.names, ids)
        }),
{
    sending_tools(s.slots, c, s.names, ids);
    slots_of_pieces(pieces, 0);
    slot_calls_are_sent_calls(pieces, s.slots.len(), s.names, ids);
    assert(s.slots.take(s.slots.len() as int) =~= s.slots);
}

// ---------------------------------------------------------------------------
// A whole stream
// ---------------------------------------------------------------------------

/// The token counts that the state keeps of the chunks.
spec fn kept_counts(chunks: Seq<ChatCompletionChunk>) -> Usage {
    Usage {
        input_tokens: match last_usage(chunks) {
            Some(usage) => usage.prompt_tokens,
            None => 0,
        },
        output_tokens: match last_usage(chunks) {
            Some(usage) => usage.completion_tokens,
            None => 0,
        },
        cache_read_input_tokens: if last_cached(chunks) > 0 {
            Some(last_cached(chunks))
        } else {
            None
        },
    }
}

/// The client's word for the upstream's last word on why the answer ends.
pub open spec fn word_for(finish: Option<Seq<char>>) -> Seq<char> {
    if finish == Some("tool_calls"@) {
        "tool_use"@
    } else if finish == Some("length"@) {
        "max_tokens"@
    } else {
        "end_turn"@
    }
}

/// The state and the client as the chunks have made them, as long as the
/// stream goes on.
spec fn going_on(
    s: StateModel,
    c: ClientView,
    chunks: Seq<ChatCompletionChunk>,
    start: StateModel,
    ids: Seq<Seq<char>>,
    tool_ids: Seq<Seq<Seq<char>>>,
) -> bool {
    &&& agree(s, c)
    &&& is_open(s)
    &&& s.names == start.names
    &&& s.estimated == start.estimated
    &&& s.model == start.model
    &&& s.slots == slots_with_pieces(Seq::empty(), open_pieces(chunks))
    &&& s.usage == kept_counts(chunks)
    &&& s.stop_reason == word_for(last_finish(chunks))
    &&& s.has_tool_call == any_tools(chunks)
    &&& (s.phase == Phase::Streaming) == any_choice(chunks)
    &&& shown_text(c.blocks) == sent_text(chunks)
    &&& tool_calls(c.blocks) == closed_calls(chunks, start.names, tool_ids)
    &&& c.head is Some == any_choice(chunks)
    &&& c.head matches Some((id, model)) ==> id == ids[first_choice(chunks)] && model
        == start.model
    &&& c.stop_reason is None
    &&& c.usage is None
    &&& !c.over
    &&& c.error is None
}

proof fn beginning(s: StateModel, c: ClientView, id: Seq<char>)
    requires
        agree(s, c),
        is_open(s),
    ensures
        ({
            let d = all_seen(c, begun(s, id).frames);
            &&& agree(begun(s, id).state, d)
            &&& begun(s, id).state == (StateModel { phase: Phase::Streaming, ..s })
            &&& d == (ClientView { head: d.head, ..c })
            &&& d.head == if s.phase == Phase::Streaming {
                c.head
            } else {
                Some((id, s.model))
            }
        }),
{
    if s.phase == Phase::AwaitingFirstChunk {
        one_seen(c, FrameModel::MessageStart { id, model: s.model });
    }
}

proof fn finishing(
    s: StateModel,
    c: ClientView,
    reason: Option<Seq<char>>,
    pieces: Seq<ChunkToolCall>,
    ids: Seq<Seq<char>>,
)
    requires
        agree(s, c),
        s.slots == slots_with_pieces(Seq::empty(), pieces),
    ensures
        ({
            let out = finished(s, reason, ids);
            let d = all_seen(c, out.frames);
            &&& agree(out.state, d)
            &&& same_but_blocks(c, d)
            &&& shown_text(d.blocks) == shown_text(c.blocks)
            &&& out.state.names == s.names
            &&& out.state.estimated == s.estimated
            &&& out.state.model == s.model
            &&& out.state.usage == s.usage
            &&& out.state.has_tool_call == s.has_tool_call
            &&& out.state.phase == s.phase
            &&& out.state.stop_reason == if reason is Some {
                word_for(reason)
            } else {
                s.stop_reason
            }
            &&& tool_calls(d.blocks) == if reason == Some("tool_calls"@) {
                tool_calls(c.blocks) + all_sent_calls(pieces, s.names, ids)
            } else {
                tool_calls(c.blocks)
            }
            &&& out.state.slots == if reason == Some("tool_calls"@) {
                Seq::empty()
            } else {
                s.slots
            }
        }),
{
    if reason is Some {
        let closed = text_closed(s);
        closing_text(s, c);
        let d = all_seen(c, closed.frames);
        if reason == Some("tool_calls"@) {
            flushing(closed.state, d, pieces, ids);
            all_seen_concat(c, closed.frames, tools_flushed(closed.state, ids).frames);
        } else {
            different_words();
        }
    }
}

proof fn different_words()
    ensures
        "tool_calls"@ != "length"@,
{
    reveal_strlit("tool_calls");
    reveal_strlit("length");
    assert("tool_calls"@.len() != "length"@.len());
}

proof fn one_chunk(
    s: StateModel,
    c: ClientView,
    chunks: Seq<ChatCompletionChunk>,
    chunk: ChatCompletionChunk,
    start: StateModel,
    ids: Seq<Seq<char>>,
    tool_ids: Seq<Seq<Seq<char>>>,
)
    requires
        going_on(s, c, chunks, start, ids, tool_ids),
    ensures
        ({
            let n = chunks.len() as int;
            let out = after_chunk(s, chunk, ids[n], tool_ids[n]);
            going_on(
                out.state,
                all_seen(c, out.frames),
                chunks.push(chunk),
                start,
                ids,
                tool_ids,
            )
        }),
{
    let more = chunks.push(chunk);
    let id = ids[chunks.len() as int];
    let fallbacks = tool_ids[chunks.len() as int];
    assert(more.drop_last() =~= chunks);
    assert(more.last() == chunk);
    let counted = StateModel { usage: updated_usage(s.usage, chunk.usage), ..s };
    assert(counted.usage == kept_counts(more));
    let text = chunk_text(chunk);
    let pieces = open_pieces(chunks) + chunk_pieces(chunk);
    pieces_in_two(Seq::empty(), open_pieces(chunks), chunk_pieces(chunk));
    if chunk.choices@.len() == 0 {
        assert(open_pieces(chunks) + chunk_pieces(chunk) =~= open_pieces(chunks));
        assert(sent_text(chunks) + text =~= sent_text(chunks));
    } else {
        let choice = chunk.choices@[0];
        let a = begun(counted, id);
        beginning(counted, c, id);
        let c1 = all_seen(c, a.frames);
        let b = with_text(a.state, text);
        taking_text(a.state, c1, text);
        let c2 = all_seen(c1, b.frames);
        let t = with_tools(b.state, choice.delta.tool_calls);
        assert(t.slots == slots_with_pieces(Seq::empty(), pieces)) by {
            if choice.delta.tool_calls is None {
                assert(pieces =~= open_pieces(chunks));
            }
        }
        let reason = chunk_finish(chunk);
        assert(choice.finish_reason.deep_view() == reason);
        finishing(t, c2, reason, pieces, fallbacks);
        let d = finished(t, reason, fallbacks);
        all_seen_concat(c, a.frames, b.frames);
        all_seen_concat(c, a.frames + b.frames, d.frames);
        if reason == Some("tool_calls"@) {
            assert(slots_with_pieces(Seq::empty(), open_pieces(more)) =~= Seq::<
                Option<AccModel>,
            >::empty());
        }
    }
}

proof fn ending(c: ClientView, stop_reason: Seq<char>, usage: Usage, estimated: u32)
    ensures
        ({
            let frames = closing_frames(stop_reason, usage, estimated);
            let d = all_seen(c, frames);
            &&& frames[0] matches FrameModel::MessageDelta { stop_reason: r, usage: u }
            &&& r == stop_reason
            &&& d == (ClientView { stop_reason: Some(r), usage: Some(u), over: true, ..c })
        }),
{
    let frames = closing_frames(stop_reason, usage, estimated);
    two_seen(c, frames[0], frames[1]);
    assert(frames =~= seq![frames[0], frames[1]]);
}

/// How the client's token counts follow from the upstream's: `total` counts
/// the cached tokens too, and the client's count of input tokens does not.
/// Where the request was estimated, the smaller count is taken.
pub open spec fn counts_follow(
    usage: Usage,
    total: u32,
    cached: u32,
    output: u32,
    estimated: u32,
) -> bool {
    let fresh = if total >= cached {
        total - cached
    } else {
        0
    };
    &&& usage.output_tokens == output
    &&& usage.cache_read_input_tokens == if cached > 0 {
        Some(cached)
    } else {
        None
    }
    &&& estimated == 0 ==> usage.input_tokens == fresh
    &&& fresh == 0 ==> usage.input_tokens == estimated
    &&& usage.input_tokens == estimated || usage.input_tokens == fresh
    &&& estimated > 0 && fresh > 0 ==> usage.input_tokens <= estimated && usage.input_tokens
        <= fresh
}

/// What a client has of a stream that is over.
pub open spec fn is_told_the_end(
    c: ClientView,
    chunks: Seq<ChatCompletionChunk>,
    estimated: u32,
) -> bool {
    &&& c.over
    &&& c.stop_reason == Some(
        if any_tools(chunks) {
            "tool_use"@
        } else {
            word_for(last_finish(chunks))
        },
    )
    &&& c.usage matches Some(usage) && counts_follow(
        usage,
        match last_usage(chunks) {
            Some(counts) => counts.prompt_tokens,
            None => 0,
        },
        last_cached(chunks),
        match last_usage(chunks) {
            Some(counts) => counts.completion_tokens,
            None => 0,
        },
        estimated,
    )
}

/// The stream has come to its end in order, with the upstream's end mark or
/// the end of its bytes, at the place behind its chunks.
pub open spec fn ends_in_order(inputs: Seq<StreamInput<OpenAiSseEvent>>) -> bool {
    let n = chunks_before_end(inputs).len();
    n < inputs.len() && (inputs[n as int] is Ended || inputs[n as int] == StreamInput::Event(
        OpenAiSseEvent::Done,
    ))
}

/// What the client is to be told of a stream that broke off behind its chunks.
pub open spec fn error_of(inputs: Seq<StreamInput<OpenAiSseEvent>>) -> Option<Seq<char>> {
    let chunks = chunks_before_end(inputs);
    if chunks.len() >= inputs.len() {
        None
    } else {
        match inputs[chunks.len() as int] {
            StreamInput::Failed(StreamError::Connection(cause)) => Some(
                "connection error: "@ + cause@,
            ),
            StreamInput::TimedOut { seconds } => Some(
                "stream "@ + if any_choice(chunks) {
                    "idle"@
                } else {
                    "first-byte"@
                } + " timeout ("@ + decimal(seconds as nat) + "s)"@,
            ),
            _ => None,
        }
    }
}

/// All that a client gets of a run of the translation.
pub open spec fn client_of(
    start: StateModel,
    inputs: Seq<StreamInput<OpenAiSseEvent>>,
    ids: Seq<Seq<char>>,
    tool_ids: Seq<Seq<Seq<char>>>,
) -> ClientView {
    all_seen(nothing_seen(), after_run(start, inputs, ids, tool_ids).frames)
}

/// All that is known of a run of the translation.
spec fn run_is_right(
    start: StateModel,
    inputs: Seq<StreamInput<OpenAiSseEvent>>,
    ids: Seq<Seq<char>>,
    tool_ids: Seq<Seq<Seq<char>>>,
) -> bool {
    let run = after_run(start, inputs, ids, tool_ids);
    let c = client_of(start, inputs, ids, tool_ids);
    let chunks = chunks_before_end(inputs);
    if chunks.len() == inputs.len() {
        going_on(run.state, c, chunks, start, ids, tool_ids)
    } else {
        &&& chunks.len() < inputs.len()
        &&& run.state.phase == Phase::Done
        &&& !c.confused
        &&& shown_text(c.blocks) == sent_text(chunks)
        &&& tool_calls(c.blocks) == if ends_in_order(inputs) {
            closed_calls(chunks, start.names, tool_ids) + all_sent_calls(
                open_pieces(chunks),
                start.names,
                tool_ids[chunks.len() as int],
            )
        } else {
            closed_calls(chunks, start.names, tool_ids)
        }
        &&& c.head is Some == any_choice(chunks)
        &&& c.head matches Some((id, model)) ==> id == ids[first_choice(chunks)] && model
            == start.model
        &&& ends_in_order(inputs) ==> !c.open
        &&& is_told_the_end(c, chunks, start.estimated)
        &&& c.error == error_of(inputs)
    }
}

proof fn last_step(
    start: StateModel,
    inputs: Seq<StreamInput<OpenAiSseEvent>>,
    ids: Seq<Seq<char>>,
    tool_ids: Seq<Seq<Seq<char>>>,
)
    requires
        inputs.len() > 0,
        chunks_before_end(inputs.drop_last()).len() == inputs.len() - 1,
        !(inputs.last() matches StreamInput::Event(OpenAiSseEvent::Chunk(_))),
        run_is_right(start, inputs.drop_last(), ids, tool_ids),
    ensures
        run_is_right(start, inputs, ids, tool_ids),
{
    let n = inputs.len() - 1;
    let rest = inputs.drop_last();
    let chunks = chunks_before_end(rest);
    let earlier = after_run(start, rest, ids, tool_ids);
    let s = earlier.state;
    let c = client_of(start, rest, ids, tool_ids);
    let input = inputs.last();
    let out = after_input(s, input, ids[n], tool_ids[n]);
    let step = after_step(s, input, ids[n], tool_ids[n]);
    let closing = closing_frames(final_reason(out.state), out.state.usage, out.state.estimated);
    assert(inputs[n] == input);
    let d = all_seen(c, out.frames);
    if ends_in_order(inputs) {
        let closed = text_closed(s);
        closing_text(s, c);
        let e = all_seen(c, closed.frames);
        flushing(closed.state, e, open_pieces(chunks), tool_ids[n]);
        all_seen_concat(c, closed.frames, tools_flushed(closed.state, tool_ids[n]).frames);
        assert(out == drained(s, tool_ids[n]));
    } else {
        one_seen(c, out.frames[0]);
        assert(out.frames =~= seq![out.frames[0]]);
    }
    ending(d, final_reason(out.state), out.state.usage, out.state.estimated);
    all_seen_concat(c, out.frames, closing);
    all_seen_concat(nothing_seen(), earlier.frames, step.frames);
}

proof fn every_run_is_right(
    start: StateModel,
    inputs: Seq<StreamInput<OpenAiSseEvent>>,
    ids: Seq<Seq<char>>,
    tool_ids: Seq<Seq<Seq<char>>>,
)
    requires
        start == initial_state(start.model, start.estimated, start.names),
    ensures
        run_is_right(start, inputs, ids, tool_ids),
    decreases inputs.len(),
{
    if inputs.len() == 0 {
        assert(slots_with_pieces(Seq::empty(), open_pieces(Seq::empty())) =~= start.slots);
    } else {
        let n = inputs.len() - 1;
        let rest = inputs.drop_last();
        let earlier = after_run(start, rest, ids, tool_ids);
        let c = client_of(start, rest, ids, tool_ids);
        let chunks = chunks_before_end(rest);
        let step = after_step(earlier.state, inputs.last(), ids[n], tool_ids[n]);
        every_run_is_right(start, rest, ids, tool_ids);
        all_seen_concat(nothing_seen(), earlier.frames, step.frames);
        if chunks.len() < rest.len() {
            assert(step.frames.len() == 0);
            assert(earlier.frames + step.frames =~= earlier.frames);
            assert(inputs[chunks.len() as int] == rest[chunks.len() as int]);
        } else {
            match inputs.last() {
                StreamInput::Event(OpenAiSseEvent::Chunk(chunk)) => {
                    one_chunk(earlier.state, c, chunks, chunk, start, ids, tool_ids);
                },
                _ => {
                    last_step(start, inputs, ids, tool_ids);
                },
            }
        }
    }
}

// ---------------------------------------------------------------------------
// Laws
// ---------------------------------------------------------------------------

/// The client shows the text that the upstream sends, whatever pieces it comes
/// in: no character is lost, added or moved. What comes behind the end of the
/// upstream's stream does not count.
pub proof fn text_arrives_whole(
    model: Seq<char>,
    estimated: u32,
    names: Map<Seq<char>, Seq<char>>,
    inputs: Seq<StreamInput<OpenAiSseEvent>>,
    ids: Seq<Seq<char>>,
    tool_ids: Seq<Seq<Seq<char>>>,
)
    ensures
        shown_text(
            client_of(initial_state(model, estimated, names), inputs, ids, tool_ids).blocks,
        ) == sent_text(chunks_before_end(inputs)),
{
    every_run_is_right(initial_state(model, estimated, names), inputs, ids, tool_ids);
}

/// A client can make sense of every stream: each block begins with its number,
/// gets pieces of its own kind only, and ends before the next one begins.
/// Where the upstream's stream ends in order, no block is left open.
pub proof fn client_makes_sense_of_it(
    model: Seq<char>,
    estimated: u32,
    names: Map<Seq<char>, Seq<char>>,
    inputs: Seq<StreamInput<OpenAiSseEvent>>,
    ids: Seq<Seq<char>>,
    tool_ids: Seq<Seq<Seq<char>>>,
)
    ensures
        ({
            let c = client_of(initial_state(model, estimated, names), inputs, ids, tool_ids);
            !c.confused && (ends_in_order(inputs) ==> !c.open)
        }),
{
    every_run_is_right(initial_state(model, estimated, names), inputs, ids, tool_ids);
}

/// Each tool call that the upstream sends arrives as one block of its own, by
/// the upstream's index: with the last id and the last name that were sent for
/// it, and with all of its arguments in their order, repaired. A tool call that
/// the upstream was not done with when its stream broke off does not arrive.
pub proof fn tool_calls_arrive_whole(
    model: Seq<char>,
    estimated: u32,
    names: Map<Seq<char>, Seq<char>>,
    inputs: Seq<StreamInput<OpenAiSseEvent>>,
    ids: Seq<Seq<char>>,
    tool_ids: Seq<Seq<Seq<char>>>,
)
    ensures
        ({
            let chunks = chunks_before_end(inputs);
            let closed = closed_calls(chunks, names, tool_ids);
            tool_calls(
                client_of(initial_state(model, estimated, names), inputs, ids, tool_ids).blocks,
            ) == if ends_in_order(inputs) {
                closed + all_sent_calls(open_pieces(chunks), names, tool_ids[chunks.len() as int])
            } else {
                closed
            }
        }),
{
    every_run_is_right(initial_state(model, estimated, names), inputs, ids, tool_ids);
}

/// As soon as the upstream's stream is over, and not before, the client is told
/// why the answer ended and what it took: `tool_use` if there were tool calls,
/// and else what the upstream's last word on it means, with the upstream's last
/// token counts.
pub proof fn end_is_told(
    model: Seq<char>,
    estimated: u32,
    names: Map<Seq<char>, Seq<char>>,
    inputs: Seq<StreamInput<OpenAiSseEvent>>,
    ids: Seq<Seq<char>>,
    tool_ids: Seq<Seq<Seq<char>>>,
)
    ensures
        ({
            let c = client_of(initial_state(model, estimated, names), inputs, ids, tool_ids);
            let chunks = chunks_before_end(inputs);
            if chunks.len() < inputs.len() {
                is_told_the_end(c, chunks, estimated)
            } else {
                !c.over && c.stop_reason is None && c.usage is None
            }
        }),
{
    every_run_is_right(initial_state(model, estimated, names), inputs, ids, tool_ids);
}

/// The message begins with the upstream's first choice, under the id that was
/// made for it then and the name of the model that the client asked for.
pub proof fn message_names_the_clients_model(
    model: Seq<char>,
    estimated: u32,
    names: Map<Seq<char>, Seq<char>>,
    inputs: Seq<StreamInput<OpenAiSseEvent>>,
    ids: Seq<Seq<char>>,
    tool_ids: Seq<Seq<Seq<char>>>,
)
    ensures
        ({
            let c = client_of(initial_state(model, estimated, names), inputs, ids, tool_ids);
            &&& c.head is Some <==> any_choice(chunks_before_end(inputs))
            &&& c.head matches Some((id, named)) ==> id == ids[first_choice(
                chunks_before_end(inputs),
            )] && named == model
        }),
{
    every_run_is_right(initial_state(model, estimated, names), inputs, ids, tool_ids);
}

/// A client is told of an error exactly where the upstream's stream breaks off
/// or stays silent, and it is told which: the cause of the failure, or the
/// time, and whether anything had come before.
pub proof fn errors_are_passed_on(
    model: Seq<char>,
    estimated: u32,
    names: Map<Seq<char>, Seq<char>>,
    inputs: Seq<StreamInput<OpenAiSseEvent>>,
    ids: Seq<Seq<char>>,
    tool_ids: Seq<Seq<Seq<char>>>,
)
    ensures
        client_of(initial_state(model, estimated, names), inputs, ids, tool_ids).error == error_of(
            inputs,
        ),
{
    every_run_is_right(initial_state(model, estimated, names), inputs, ids, tool_ids);
}

} // verus!
