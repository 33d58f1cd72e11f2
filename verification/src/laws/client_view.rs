//! A client that puts a streamed message together out of its frames.

use vstd::prelude::*;

use crate::convert::frames::FrameModel;
use crate::types::claude::Usage;

verus! {

/// A block of a message, as far as it has come.
pub enum BlockView {
    Text { text: Seq<char> },
    Thinking { text: Seq<char> },
    Tool { id: Seq<char>, name: Seq<char>, input: Seq<char> },
}

/// What a client has of a message.
pub struct ClientView {
    /// The id and the model of the message, once it has begun.
    pub head: Option<(Seq<char>, Seq<char>)>,
    pub blocks: Seq<BlockView>,
    /// The last block has not ended yet.
    pub open: bool,
    /// A frame came that no client can make sense of: a block inside another,
    /// a piece for no block or for one of another kind, or a wrong number.
    pub confused: bool,
    pub stop_reason: Option<Seq<char>>,
    pub usage: Option<Usage>,
    pub over: bool,
    /// The last error that it was told of.
    pub error: Option<Seq<char>>,
}

/// A client before the first frame.
pub open spec fn nothing_seen() -> ClientView {
    ClientView {
        head: None,
        blocks: Seq::empty(),
        open: false,
        confused: false,
        stop_reason: None,
        usage: None,
        over: false,
        error: None,
    }
}

/// A client that cannot make sense of a frame.
pub open spec fn confused(c: ClientView) -> ClientView {
    ClientView { confused: true, ..c }
}

/// A block begins with the number of blocks before it.
pub open spec fn block_begins(c: ClientView, index: nat, block: BlockView) -> ClientView {
    if c.open || index != c.blocks.len() {
        confused(c)
    } else {
        ClientView { blocks: c.blocks.push(block), open: true, ..c }
    }
}

/// The open block is replaced by what it has grown to.
pub open spec fn block_grows(c: ClientView, index: nat, block: BlockView) -> ClientView {
    if !c.open || index + 1 != c.blocks.len() {
        confused(c)
    } else {
        ClientView { blocks: c.blocks.drop_last().push(block), ..c }
    }
}

/// What a client makes of a frame.
pub open spec fn seen(c: ClientView, frame: FrameModel) -> ClientView {
    match frame {
        FrameModel::MessageStart { id, model } => ClientView { head: Some((id, model)), ..c },
        FrameModel::TextStart { index } => block_begins(
            c,
            index,
            BlockView::Text { text: Seq::empty() },
        ),
        FrameModel::ThinkingStart { index } => block_begins(
            c,
            index,
            BlockView::Thinking { text: Seq::empty() },
        ),
        FrameModel::ToolStart { index, id, name } => block_begins(
            c,
            index,
            BlockView::Tool { id, name, input: Seq::empty() },
        ),
        FrameModel::TextDelta { index, text: more } => match c.blocks.last() {
            BlockView::Text { text } => block_grows(
                c,
                index,
                BlockView::Text { text: text + more },
            ),
            _ => confused(c),
        },
        FrameModel::ThinkingDelta { index, thinking: more } => match c.blocks.last() {
            BlockView::Thinking { text } => block_grows(
                c,
                index,
                BlockView::Thinking { text: text + more },
            ),
            _ => confused(c),
        },
        FrameModel::InputDelta { index, partial_json: more } => match c.blocks.last() {
            BlockView::Tool { id, name, input } => block_grows(
                c,
                index,
                BlockView::Tool { id, name, input: input + more },
            ),
            _ => confused(c),
        },
        FrameModel::BlockStop { index } => if !c.open || index + 1 != c.blocks.len() {
            confused(c)
        } else {
            ClientView { open: false, ..c }
        },
        FrameModel::MessageDelta { stop_reason, usage } => ClientView {
            stop_reason: Some(stop_reason),
            usage: Some(usage),
            ..c
        },
        FrameModel::MessageStop => ClientView { over: true, ..c },
        FrameModel::Error { message } => ClientView { error: Some(message), ..c },
    }
}

/// What a client makes of a run of frames.
pub open spec fn all_seen(c: ClientView, frames: Seq<FrameModel>) -> ClientView
    decreases frames.len(),
{
    if frames.len() == 0 {
        c
    } else {
        seen(all_seen(c, frames.drop_last()), frames.last())
    }
}

/// Two runs of frames are seen one behind the other.
pub proof fn all_seen_concat(c: ClientView, a: Seq<FrameModel>, b: Seq<FrameModel>)
    ensures
        all_seen(c, a + b) == all_seen(all_seen(c, a), b),
    decreases b.len(),
{
    if b.len() == 0 {
        assert(a + b =~= a);
    } else {
        assert((a + b).drop_last() =~= a + b.drop_last());
        all_seen_concat(c, a, b.drop_last());
    }
}

/// One frame.
pub proof fn one_seen(c: ClientView, frame: FrameModel)
    ensures
        all_seen(c, seq![frame]) == seen(c, frame),
{
    reveal_with_fuel(all_seen, 2);
    assert(seq![frame].drop_last() =~= Seq::<FrameModel>::empty());
}

/// Two frames.
pub proof fn two_seen(c: ClientView, a: FrameModel, b: FrameModel)
    ensures
        all_seen(c, seq![a, b]) == seen(seen(c, a), b),
{
    one_seen(c, a);
    assert(seq![a, b].drop_last() =~= seq![a]);
}

/// Four frames.
pub proof fn four_seen(c: ClientView, frames: Seq<FrameModel>)
    requires
        frames.len() == 4,
    ensures
        all_seen(c, frames) == seen(
            seen(seen(seen(c, frames[0]), frames[1]), frames[2]),
            frames[3],
        ),
{
    reveal_with_fuel(all_seen, 5);
}

/// The text that a client shows: that of all text blocks, one behind the
/// other.
pub open spec fn shown_text(blocks: Seq<BlockView>) -> Seq<char>
    decreases blocks.len(),
{
    if blocks.len() == 0 {
        Seq::empty()
    } else {
        shown_text(blocks.drop_last()) + match blocks.last() {
            BlockView::Text { text } => text,
            _ => Seq::empty(),
        }
    }
}

/// The tool calls of a message, in their order.
pub open spec fn tool_calls(blocks: Seq<BlockView>) -> Seq<BlockView>
    decreases blocks.len(),
{
    if blocks.len() == 0 {
        Seq::empty()
    } else if blocks.last() is Tool {
        tool_calls(blocks.drop_last()).push(blocks.last())
    } else {
        tool_calls(blocks.drop_last())
    }
}

/// A block more.
pub proof fn block_more(blocks: Seq<BlockView>, block: BlockView)
    ensures
        shown_text(blocks.push(block)) == shown_text(blocks) + match block {
            BlockView::Text { text } => text,
            _ => Seq::empty(),
        },
        tool_calls(blocks.push(block)) == if block is Tool {
            tool_calls(blocks).push(block)
        } else {
            tool_calls(blocks)
        },
{
    assert(blocks.push(block).drop_last() =~= blocks);
}

} // verus!
