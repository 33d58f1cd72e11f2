//! The events of a streamed message.

use vstd::prelude::*;

use crate::json::{
    error_message, json_number, json_text, object_tree, put, text_or, to_text, written_json, Json,
    Tree,
};
use crate::text::{chars_of, text_of};
use crate::types::claude::{
    Usage, CONTENT_BLOCK_DELTA, CONTENT_BLOCK_START, CONTENT_BLOCK_STOP, DELTA_INPUT_JSON,
    DELTA_TEXT, DELTA_THINKING, MESSAGE_DELTA, MESSAGE_START, MESSAGE_STOP, TOOL_USE,
};
use crate::util::random::{is_lower_hex, new_uuid};

verus! {

/// An event of a streamed message.
#[derive(Debug)]
pub enum Frame {
    /// The message begins.
    MessageStart { id: String, model: String },
    /// A block of text begins.
    TextStart { index: usize },
    /// A block of reasoning begins.
    ThinkingStart { index: usize },
    /// A tool call begins.
    ToolStart { index: usize, id: String, name: String },
    /// More of a block of text.
    TextDelta { index: usize, text: String },
    /// More of a block of reasoning.
    ThinkingDelta { index: usize, thinking: String },
    /// More of the input of a tool call.
    InputDelta { index: usize, partial_json: String },
    /// A block has ended.
    BlockStop { index: usize },
    /// Why the message ends, and its token counts.
    MessageDelta { stop_reason: String, usage: Usage },
    /// The message has ended.
    MessageStop,
    /// Something went wrong.
    Error { message: String },
}

/// The model of a [`Frame`].
pub enum FrameModel {
    MessageStart { id: Seq<char>, model: Seq<char> },
    TextStart { index: nat },
    ThinkingStart { index: nat },
    ToolStart { index: nat, id: Seq<char>, name: Seq<char> },
    TextDelta { index: nat, text: Seq<char> },
    ThinkingDelta { index: nat, thinking: Seq<char> },
    InputDelta { index: nat, partial_json: Seq<char> },
    BlockStop { index: nat },
    MessageDelta { stop_reason: Seq<char>, usage: Usage },
    MessageStop,
    Error { message: Seq<char> },
}

impl DeepView for Frame {
    type V = FrameModel;

    open spec fn deep_view(&self) -> FrameModel {
        match self {
            Frame::MessageStart { id, model } => FrameModel::MessageStart {
                id: id@,
                model: model@,
            },
            Frame::TextStart { index } => FrameModel::TextStart { index: *index as nat },
            Frame::ThinkingStart { index } => FrameModel::ThinkingStart { index: *index as nat },
            Frame::ToolStart { index, id, name } => FrameModel::ToolStart {
                index: *index as nat,
                id: id@,
                name: name@,
            },
            Frame::TextDelta { index, text } => FrameModel::TextDelta {
                index: *index as nat,
                text: text@,
            },
            Frame::ThinkingDelta { index, thinking } => FrameModel::ThinkingDelta {
                index: *index as nat,
                thinking: thinking@,
            },
            Frame::InputDelta { index, partial_json } => FrameModel::InputDelta {
                index: *index as nat,
                partial_json: partial_json@,
            },
            Frame::BlockStop { index } => FrameModel::BlockStop { index: *index as nat },
            Frame::MessageDelta { stop_reason, usage } => FrameModel::MessageDelta {
                stop_reason: stop_reason@,
                usage: *usage,
            },
            Frame::MessageStop => FrameModel::MessageStop,
            Frame::Error { message } => FrameModel::Error { message: message@ },
        }
    }
}

// ---------------------------------------------------------------------------
// The JSON of a frame
// ---------------------------------------------------------------------------

/// The name under which a frame is sent.
pub open spec fn frame_name(frame: FrameModel) -> Seq<char> {
    match frame {
        FrameModel::MessageStart { .. } => MESSAGE_START@,
        FrameModel::TextStart { .. } => CONTENT_BLOCK_START@,
        FrameModel::ThinkingStart { .. } => CONTENT_BLOCK_START@,
        FrameModel::ToolStart { .. } => CONTENT_BLOCK_START@,
        FrameModel::TextDelta { .. } => CONTENT_BLOCK_DELTA@,
        FrameModel::ThinkingDelta { .. } => CONTENT_BLOCK_DELTA@,
        FrameModel::InputDelta { .. } => CONTENT_BLOCK_DELTA@,
        FrameModel::BlockStop { .. } => CONTENT_BLOCK_STOP@,
        FrameModel::MessageDelta { .. } => MESSAGE_DELTA@,
        FrameModel::MessageStop => MESSAGE_STOP@,
        FrameModel::Error { .. } => "error"@,
    }
}

/// An object with one member.
pub open spec fn object1(key: Seq<char>, value: Tree) -> Map<Seq<char>, Tree> {
    Map::<Seq<char>, Tree>::empty().insert(key, value)
}

/// An object with the member `type`.
pub open spec fn typed(kind: Seq<char>) -> Map<Seq<char>, Tree> {
    object1("type"@, Tree::Text(kind))
}

/// A count as a JSON number.
pub open spec fn count(n: int) -> Tree {
    Tree::Number(json_number(n as u64))
}

/// Token counts as JSON. Cached tokens are named only where there are any.
pub open spec fn usage_tree(usage: Usage) -> Tree {
    let counts = object1("input_tokens"@, count(usage.input_tokens as int)).insert(
        "output_tokens"@,
        count(usage.output_tokens as int),
    );
    Tree::Object(
        match usage.cache_read_input_tokens {
            Some(cached) => counts.insert("cache_read_input_tokens"@, count(cached as int)),
            None => counts,
        },
    )
}

/// The JSON of a frame that begins the block `index`.
pub open spec fn block_start_tree(index: nat, block: Map<Seq<char>, Tree>) -> Tree {
    Tree::Object(
        typed(CONTENT_BLOCK_START@).insert("index"@, count(index as int)).insert(
            "content_block"@,
            Tree::Object(block),
        ),
    )
}

/// The JSON of a frame that adds to the block `index`.
pub open spec fn block_delta_tree(index: nat, delta: Map<Seq<char>, Tree>) -> Tree {
    Tree::Object(
        typed(CONTENT_BLOCK_DELTA@).insert("index"@, count(index as int)).insert(
            "delta"@,
            Tree::Object(delta),
        ),
    )
}

/// The JSON of the message that begins: it is empty and counts no token yet.
pub open spec fn new_message_tree(id: Seq<char>, model: Seq<char>) -> Tree {
    Tree::Object(
        object1("id"@, Tree::Text(id)).insert("type"@, Tree::Text("message"@)).insert(
            "role"@,
            Tree::Text("assistant"@),
        ).insert("model"@, Tree::Text(model)).insert("content"@, Tree::Array(Seq::empty())).insert(
            "stop_reason"@,
            Tree::Null,
        ).insert("stop_sequence"@, Tree::Null).insert(
            "usage"@,
            usage_tree(
                Usage { input_tokens: 0, output_tokens: 0, cache_read_input_tokens: None },
            ),
        ),
    )
}

/// The JSON of a frame.
pub open spec fn frame_tree(frame: FrameModel) -> Tree {
    match frame {
        FrameModel::MessageStart { id, model } => Tree::Object(
            typed(MESSAGE_START@).insert("message"@, new_message_tree(id, model)),
        ),
        FrameModel::TextStart { index } => block_start_tree(
            index,
            typed("text"@).insert("text"@, Tree::Text(""@)),
        ),
        FrameModel::ThinkingStart { index } => block_start_tree(
            index,
            typed("thinking"@).insert("thinking"@, Tree::Text(""@)),
        ),
        FrameModel::ToolStart { index, id, name } => block_start_tree(
            index,
            typed(TOOL_USE@).insert("id"@, Tree::Text(id)).insert(
                "name"@,
                Tree::Text(name),
            ).insert("input"@, Tree::Object(Map::empty())),
        ),
        FrameModel::TextDelta { index, text } => block_delta_tree(
            index,
            typed(DELTA_TEXT@).insert("text"@, Tree::Text(text)),
        ),
        FrameModel::ThinkingDelta { index, thinking } => block_delta_tree(
            index,
            typed(DELTA_THINKING@).insert("thinking"@, Tree::Text(thinking)),
        ),
        FrameModel::InputDelta { index, partial_json } => block_delta_tree(
            index,
            typed(DELTA_INPUT_JSON@).insert("partial_json"@, Tree::Text(partial_json)),
        ),
        FrameModel::BlockStop { index } => Tree::Object(
            typed(CONTENT_BLOCK_STOP@).insert("index"@, count(index as int)),
        ),
        FrameModel::MessageDelta { stop_reason, usage } => Tree::Object(
            typed(MESSAGE_DELTA@).insert(
                "delta"@,
                Tree::Object(
                    object1("stop_reason"@, Tree::Text(stop_reason)).insert(
                        "stop_sequence"@,
                        Tree::Null,
                    ),
                ),
            ).insert("usage"@, usage_tree(usage)),
        ),
        FrameModel::MessageStop => Tree::Object(typed(MESSAGE_STOP@)),
        FrameModel::Error { message } => Tree::Object(
            typed("error"@).insert(
                "error"@,
                Tree::Object(
                    typed("api_error"@).insert(
                        "message"@,
                        Tree::Text("Streaming error: "@ + message),
                    ),
                ),
            ),
        ),
    }
}

/// The members of an object that begins with `type`.
fn typed_entries(kind: &str) -> (r: Vec<(String, Json)>)
    ensures
        object_tree(r@) == typed(kind@),
{
    let mut entries: Vec<(String, Json)> = Vec::new();
    put(&mut entries, "type", Json::text(kind));
    entries
}

/// Token counts as JSON.
fn usage_json(usage: &Usage) -> (r: Json)
    ensures
        r@ == usage_tree(*usage),
{
    let mut entries: Vec<(String, Json)> = Vec::new();
    put(&mut entries, "input_tokens", Json::number(usage.input_tokens as u64));
    put(&mut entries, "output_tokens", Json::number(usage.output_tokens as u64));
    match usage.cache_read_input_tokens {
        Some(cached) => put(&mut entries, "cache_read_input_tokens", Json::number(cached as u64)),
        None => {},
    }
    Json::Object(entries)
}

fn block_start_json(index: usize, block: Vec<(String, Json)>) -> (r: Json)
    ensures
        r@ == block_start_tree(index as nat, object_tree(block@)),
{
    let mut entries = typed_entries(CONTENT_BLOCK_START);
    put(&mut entries, "index", Json::number(index as u64));
    put(&mut entries, "content_block", Json::Object(block));
    Json::Object(entries)
}

fn block_delta_json(index: usize, delta: Vec<(String, Json)>) -> (r: Json)
    ensures
        r@ == block_delta_tree(index as nat, object_tree(delta@)),
{
    let mut entries = typed_entries(CONTENT_BLOCK_DELTA);
    put(&mut entries, "index", Json::number(index as u64));
    put(&mut entries, "delta", Json::Object(delta));
    Json::Object(entries)
}

fn new_message_json(id: &str, model: &str) -> (r: Json)
    ensures
        r@ == new_message_tree(id@, model@),
{
    let mut entries: Vec<(String, Json)> = Vec::new();
    put(&mut entries, "id", Json::text(id));
    put(&mut entries, "type", Json::text("message"));
    put(&mut entries, "role", Json::text("assistant"));
    put(&mut entries, "model", Json::text(model));
    let empty: Vec<Json> = Vec::new();
    let content = Json::Array(empty);
    assert(content@ == Tree::Array(Seq::empty()));
    put(&mut entries, "content", content);
    put(&mut entries, "stop_reason", Json::Null);
    put(&mut entries, "stop_sequence", Json::Null);
    put(
        &mut entries,
        "usage",
        usage_json(
            &Usage { input_tokens: 0, output_tokens: 0, cache_read_input_tokens: None },
        ),
    );
    Json::Object(entries)
}

impl Frame {
    /// The name under which the frame is sent.
    pub fn name(&self) -> (r: &'static str)
        ensures
            r@ == frame_name(self.deep_view()),
    {
        match self {
            Frame::MessageStart { .. } => MESSAGE_START,
            Frame::TextStart { .. } => CONTENT_BLOCK_START,
            Frame::ThinkingStart { .. } => CONTENT_BLOCK_START,
            Frame::ToolStart { .. } => CONTENT_BLOCK_START,
            Frame::TextDelta { .. } => CONTENT_BLOCK_DELTA,
            Frame::ThinkingDelta { .. } => CONTENT_BLOCK_DELTA,
            Frame::InputDelta { .. } => CONTENT_BLOCK_DELTA,
            Frame::BlockStop { .. } => CONTENT_BLOCK_STOP,
            Frame::MessageDelta { .. } => MESSAGE_DELTA,
            Frame::MessageStop => MESSAGE_STOP,
            Frame::Error { .. } => "error",
        }
    }

    /// The JSON of the frame.
    pub fn to_json(&self) -> (r: Json)
        ensures
            r@ == frame_tree(self.deep_view()),
    {
        match self {
            Frame::MessageStart { id, model } => {
                let mut entries = typed_entries(MESSAGE_START);
                put(&mut entries, "message", new_message_json(id.as_str(), model.as_str()));
                Json::Object(entries)
            },
            Frame::TextStart { index } => {
                let mut block = typed_entries("text");
                put(&mut block, "text", Json::text(""));
                block_start_json(*index, block)
            },
            Frame::ThinkingStart { index } => {
                let mut block = typed_entries("thinking");
                put(&mut block, "thinking", Json::text(""));
                block_start_json(*index, block)
            },
            Frame::ToolStart { index, id, name } => {
                let mut block = typed_entries(TOOL_USE);
                put(&mut block, "id", Json::text(id.as_str()));
                put(&mut block, "name", Json::text(name.as_str()));
                put(&mut block, "input", Json::Object(Vec::new()));
                block_start_json(*index, block)
            },
            Frame::TextDelta { index, text } => {
                let mut delta = typed_entries(DELTA_TEXT);
                put(&mut delta, "text", Json::text(text.as_str()));
                block_delta_json(*index, delta)
            },
            Frame::ThinkingDelta { index, thinking } => {
                let mut delta = typed_entries(DELTA_THINKING);
                put(&mut delta, "thinking", Json::text(thinking.as_str()));
                block_delta_json(*index, delta)
            },
            Frame::InputDelta { index, partial_json } => {
                let mut delta = typed_entries(DELTA_INPUT_JSON);
                put(&mut delta, "partial_json", Json::text(partial_json.as_str()));
                block_delta_json(*index, delta)
            },
            Frame::BlockStop { index } => {
                let mut entries = typed_entries(CONTENT_BLOCK_STOP);
                put(&mut entries, "index", Json::number(*index as u64));
                Json::Object(entries)
            },
            Frame::MessageDelta { stop_reason, usage } => {
                let mut delta: Vec<(String, Json)> = Vec::new();
                put(&mut delta, "stop_reason", Json::text(stop_reason.as_str()));
                put(&mut delta, "stop_sequence", Json::Null);
                let mut entries = typed_entries(MESSAGE_DELTA);
                put(&mut entries, "delta", Json::Object(delta));
                put(&mut entries, "usage", usage_json(usage));
                Json::Object(entries)
            },
            Frame::MessageStop => Json::Object(typed_entries(MESSAGE_STOP)),
            Frame::Error { message } => {
                let mut text = "Streaming error: ".to_string();
                text.push_str(message.as_str());
                let mut error = typed_entries("api_error");
                put(&mut error, "message", Json::text(text.as_str()));
                let mut entries = typed_entries("error");
                put(&mut entries, "error", Json::Object(error));
                Json::Object(entries)
            },
        }
    }
}

/// What is sent in place of a frame that cannot be written.
pub open spec fn serialization_error(message: Seq<char>) -> Seq<char> {
    "{\"type\":\"error\",\"error\":{\"type\":\"serialization_error\",\"message\":\""@ + message
        + "\"}}"@
}

/// What is sent in place of a frame that cannot be written.
pub fn serialization_error_text(message: &str) -> (r: String)
    ensures
        r@ == serialization_error(message@),
{
    let mut text =
        "{\"type\":\"error\",\"error\":{\"type\":\"serialization_error\",\"message\":\"".to_string();
    text.push_str(message);
    text.push_str("\"}}");
    text
}

impl Frame {
    /// The data of the frame: its JSON text, or an error with the writer's
    /// message where there is none.
    pub fn data(&self) -> (r: String)
        ensures
            match written_json(frame_tree(self.deep_view())) {
                Some(text) => r@ == text,
                None => exists|message: Seq<char>| r@ == #[trigger] serialization_error(message),
            },
    {
        match to_text(self.to_json()) {
            Ok(text) => text,
            Err(e) => serialization_error_text(error_message(&e).as_str()),
        }
    }

    /// The data of the frame: its JSON text, or nothing where there is none.
    pub fn data_or_empty(&self) -> (r: String)
        ensures
            r@ == json_text(frame_tree(self.deep_view()), ""@),
    {
        text_or(&self.to_json(), "")
    }
}

// ---------------------------------------------------------------------------
// Message ids
// ---------------------------------------------------------------------------

/// A message id: `msg_` and 24 hexadecimal digits.
pub open spec fn is_message_id(id: Seq<char>) -> bool {
    &&& id.len() == 28
    &&& id.take(4) == "msg_"@
    &&& forall|i: int| 4 <= i < 28 ==> is_lower_hex(#[trigger] id[i])
}

/// A message id out of the first digits of `hex`.
pub fn message_id_from(hex: &str) -> (r: String)
    requires
        hex@.len() >= 24,
    ensures
        r@ == "msg_"@ + hex@.take(24),
{
    let chars = chars_of(hex);
    let mut id = "msg_".to_string();
    id.push_str(text_of(&chars, 0, 24).as_str());
    assert(hex@.subrange(0, 24) =~= hex@.take(24));
    id
}

/// A fresh message id.
pub fn generate_message_id() -> (r: String)
    ensures
        is_message_id(r@),
{
    let uuid = new_uuid();
    let id = message_id_from(uuid.as_str());
    proof {
        reveal_strlit("msg_");
        assert(id@.take(4) =~= "msg_"@);
        assert forall|i: int| 4 <= i < 28 implies is_lower_hex(#[trigger] id@[i]) by {
            assert(id@[i] == uuid@[i - 4]);
        }
    }
    id
}

// ---------------------------------------------------------------------------
// The numbers of the blocks
// ---------------------------------------------------------------------------

/// The index that a frame carries.
pub open spec fn frame_index(frame: FrameModel) -> Option<nat> {
    match frame {
        FrameModel::TextStart { index } => Some(index),
        FrameModel::ThinkingStart { index } => Some(index),
        FrameModel::ToolStart { index, .. } => Some(index),
        FrameModel::TextDelta { index, .. } => Some(index),
        FrameModel::ThinkingDelta { index, .. } => Some(index),
        FrameModel::InputDelta { index, .. } => Some(index),
        FrameModel::BlockStop { index } => Some(index),
        _ => None,
    }
}

/// How many blocks the frames end.
pub open spec fn blocks_ended(frames: Seq<FrameModel>) -> nat
    decreases frames.len(),
{
    if frames.len() == 0 {
        0
    } else {
        blocks_ended(frames.drop_last()) + if frames.last() is BlockStop {
            1nat
        } else {
            0
        }
    }
}

/// The frames count the blocks from `from` on: each carries the number of
/// blocks that have ended before it.
pub open spec fn counts_blocks(frames: Seq<FrameModel>, from: nat) -> bool {
    forall|i: int|
        0 <= i < frames.len() ==> (frame_index(#[trigger] frames[i]) matches Some(index) ==> index
            == from + blocks_ended(frames.take(i)))
}

/// Blocks that end in two runs of frames.
pub proof fn blocks_ended_concat(a: Seq<FrameModel>, b: Seq<FrameModel>)
    ensures
        blocks_ended(a + b) == blocks_ended(a) + blocks_ended(b),
    decreases b.len(),
{
    if b.len() == 0 {
        assert(a + b =~= a);
    } else {
        assert((a + b).drop_last() =~= a + b.drop_last());
        blocks_ended_concat(a, b.drop_last());
    }
}

/// A run of frames that counts on from another.
pub proof fn counts_blocks_concat(a: Seq<FrameModel>, b: Seq<FrameModel>, from: nat)
    requires
        counts_blocks(a, from),
        counts_blocks(b, from + blocks_ended(a)),
    ensures
        counts_blocks(a + b, from),
{
    let all = a + b;
    assert forall|i: int| 0 <= i < all.len() implies (frame_index(#[trigger] all[i]) matches Some(
        index,
    ) ==> index == from + blocks_ended(all.take(i))) by {
        if i < a.len() {
            assert(all[i] == a[i]);
            assert(all.take(i) =~= a.take(i));
        } else {
            assert(all[i] == b[i - a.len()]);
            assert(all.take(i) =~= a + b.take(i - a.len()));
            blocks_ended_concat(a, b.take(i - a.len()));
        }
    }
}

/// A single frame.
pub proof fn one_frame(frame: FrameModel, from: nat)
    ensures
        blocks_ended(seq![frame]) == if frame is BlockStop {
            1nat
        } else {
            0
        },
        counts_blocks(seq![frame], from) == (frame_index(frame) matches Some(index) ==> index
            == from),
{
    let frames = seq![frame];
    assert(blocks_ended(Seq::<FrameModel>::empty()) == 0);
    assert(frames.last() == frame);
    assert(frames.drop_last() =~= Seq::<FrameModel>::empty());
    assert(frames.take(0) =~= Seq::<FrameModel>::empty());
    assert(frames[0] == frame);
}

// ---------------------------------------------------------------------------
// Blocks that begin and end
// ---------------------------------------------------------------------------

/// Whether a block has begun and not ended yet.
pub enum Blocks {
    NoneOpen,
    OneOpen,
    /// A block began inside another, or a frame belonged to no block.
    Wrong,
}

/// What a frame makes of it.
pub open spec fn after_frame(blocks: Blocks, frame: FrameModel) -> Blocks {
    match frame {
        FrameModel::TextStart { .. } => begun_block(blocks),
        FrameModel::ThinkingStart { .. } => begun_block(blocks),
        FrameModel::ToolStart { .. } => begun_block(blocks),
        FrameModel::TextDelta { .. } => within_block(blocks),
        FrameModel::ThinkingDelta { .. } => within_block(blocks),
        FrameModel::InputDelta { .. } => within_block(blocks),
        FrameModel::BlockStop { .. } => match blocks {
            Blocks::OneOpen => Blocks::NoneOpen,
            _ => Blocks::Wrong,
        },
        _ => blocks,
    }
}

/// A block begins where none is open.
pub open spec fn begun_block(blocks: Blocks) -> Blocks {
    match blocks {
        Blocks::NoneOpen => Blocks::OneOpen,
        _ => Blocks::Wrong,
    }
}

/// More of a block comes where one is open.
pub open spec fn within_block(blocks: Blocks) -> Blocks {
    match blocks {
        Blocks::OneOpen => Blocks::OneOpen,
        _ => Blocks::Wrong,
    }
}

/// What a run of frames makes of it.
pub open spec fn after_frames(blocks: Blocks, frames: Seq<FrameModel>) -> Blocks
    decreases frames.len(),
{
    if frames.len() == 0 {
        blocks
    } else {
        after_frame(after_frames(blocks, frames.drop_last()), frames.last())
    }
}

/// Two runs of frames.
pub proof fn after_frames_concat(blocks: Blocks, a: Seq<FrameModel>, b: Seq<FrameModel>)
    ensures
        after_frames(blocks, a + b) == after_frames(after_frames(blocks, a), b),
    decreases b.len(),
{
    if b.len() == 0 {
        assert(a + b =~= a);
    } else {
        assert((a + b).drop_last() =~= a + b.drop_last());
        after_frames_concat(blocks, a, b.drop_last());
    }
}

/// A run of at most four frames.
pub proof fn after_few_frames(blocks: Blocks, frames: Seq<FrameModel>)
    requires
        frames.len() <= 4,
    ensures
        frames.len() == 0 ==> after_frames(blocks, frames) == blocks,
        frames.len() == 1 ==> after_frames(blocks, frames) == after_frame(blocks, frames[0]),
        frames.len() == 2 ==> after_frames(blocks, frames) == after_frame(
            after_frame(blocks, frames[0]),
            frames[1],
        ),
        frames.len() == 4 ==> after_frames(blocks, frames) == after_frame(
            after_frame(after_frame(after_frame(blocks, frames[0]), frames[1]), frames[2]),
            frames[3],
        ),
{
    reveal_with_fuel(after_frames, 5);
}

// ---------------------------------------------------------------------------
// Errors
// ---------------------------------------------------------------------------

/// One of the frames is an error.
pub open spec fn has_error(frames: Seq<FrameModel>) -> bool {
    exists|i: int| 0 <= i < frames.len() && (#[trigger] frames[i]) is Error
}

/// Errors in two runs of frames.
pub proof fn has_error_concat(a: Seq<FrameModel>, b: Seq<FrameModel>)
    ensures
        has_error(a + b) == (has_error(a) || has_error(b)),
{
    let all = a + b;
    if has_error(a) {
        let i = choose|i: int| 0 <= i < a.len() && (#[trigger] a[i]) is Error;
        assert(all[i] is Error);
    }
    if has_error(b) {
        let i = choose|i: int| 0 <= i < b.len() && (#[trigger] b[i]) is Error;
        assert(all[a.len() + i] is Error);
    }
    if has_error(all) {
        let i = choose|i: int| 0 <= i < all.len() && (#[trigger] all[i]) is Error;
        if i < a.len() {
            assert(a[i] is Error);
        } else {
            assert(b[i - a.len()] is Error);
        }
    }
}

} // verus!
