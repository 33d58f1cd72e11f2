//! The frames as the client reads them: which value stands under which name.

use vstd::prelude::*;

use crate::convert::frames::{frame_name, frame_tree, serialization_error, FrameModel};
use crate::json::{json_number, Tree};
use crate::types::claude::Usage;

verus! {

/// What stands under `key` in an object; null where nothing does.
pub open spec fn under(t: Tree, key: Seq<char>) -> Tree {
    match t {
        Tree::Object(m) => if m.contains_key(key) {
            m[key]
        } else {
            Tree::Null
        },
        _ => Tree::Null,
    }
}

/// A number as it is sent.
pub open spec fn number(n: int) -> Tree {
    Tree::Number(json_number(n as u64))
}

/// A text as it is sent.
pub open spec fn text(s: Seq<char>) -> Tree {
    Tree::Text(s)
}

proof fn names_differ()
    ensures
        "type"@ != "index"@,
        "type"@ != "content_block"@,
        "type"@ != "delta"@,
        "type"@ != "usage"@,
        "type"@ != "message"@,
        "type"@ != "error"@,
        "type"@ != "role"@,
        "type"@ != "id"@,
        "type"@ != "model"@,
        "type"@ != "content"@,
        "type"@ != "stop_reason"@,
        "type"@ != "stop_sequence"@,
        "type"@ != "text"@,
        "type"@ != "thinking"@,
        "type"@ != "name"@,
        "type"@ != "input"@,
        "type"@ != "partial_json"@,
        "index"@ != "content_block"@,
        "index"@ != "delta"@,
        "delta"@ != "usage"@,
        "id"@ != "role"@,
        "id"@ != "model"@,
        "id"@ != "content"@,
        "id"@ != "stop_reason"@,
        "id"@ != "stop_sequence"@,
        "id"@ != "usage"@,
        "id"@ != "name"@,
        "id"@ != "input"@,
        "name"@ != "input"@,
        "role"@ != "model"@,
        "role"@ != "content"@,
        "role"@ != "stop_reason"@,
        "role"@ != "stop_sequence"@,
        "role"@ != "usage"@,
        "model"@ != "content"@,
        "model"@ != "stop_reason"@,
        "model"@ != "stop_sequence"@,
        "model"@ != "usage"@,
        "content"@ != "stop_reason"@,
        "content"@ != "stop_sequence"@,
        "content"@ != "usage"@,
        "stop_reason"@ != "stop_sequence"@,
        "stop_reason"@ != "usage"@,
        "stop_sequence"@ != "usage"@,
        "input_tokens"@ != "output_tokens"@,
        "input_tokens"@ != "cache_read_input_tokens"@,
        "output_tokens"@ != "cache_read_input_tokens"@,
{
    reveal_strlit("type");
    reveal_strlit("index");
    reveal_strlit("content_block");
    reveal_strlit("delta");
    reveal_strlit("usage");
    reveal_strlit("message");
    reveal_strlit("error");
    reveal_strlit("role");
    reveal_strlit("id");
    reveal_strlit("model");
    reveal_strlit("content");
    reveal_strlit("stop_reason");
    reveal_strlit("stop_sequence");
    reveal_strlit("text");
    reveal_strlit("thinking");
    reveal_strlit("name");
    reveal_strlit("input");
    reveal_strlit("partial_json");
    reveal_strlit("input_tokens");
    reveal_strlit("output_tokens");
    reveal_strlit("cache_read_input_tokens");
    assert("type"@[1] == 'y' && "text"@[1] == 'e');
    assert("type"@[0] == 't' && "role"@[0] == 'r' && "name"@[0] == 'n');
    assert("index"@[0] == 'i' && "delta"@[0] == 'd' && "usage"@[0] == 'u' && "model"@[0] == 'm');
    assert("type"@.len() == 4 && "index"@.len() == 5 && "content_block"@.len() == 13);
    assert("message"@.len() == 7 && "error"@.len() == 5 && "id"@.len() == 2);
    assert("content"@.len() == 7 && "stop_reason"@.len() == 11 && "stop_sequence"@.len() == 13);
    assert("thinking"@.len() == 8 && "input"@.len() == 5 && "partial_json"@.len() == 12);
    assert("input_tokens"@.len() == 12 && "output_tokens"@.len() == 13);
    assert("cache_read_input_tokens"@.len() == 23);
}

/// The token counts stand under their names. Cached tokens are named only
/// where there are any.
pub open spec fn counts_stand(t: Tree, usage: Usage) -> bool {
    &&& under(t, "input_tokens"@) == number(usage.input_tokens as int)
    &&& under(t, "output_tokens"@) == number(usage.output_tokens as int)
    &&& under(t, "cache_read_input_tokens"@) == match usage.cache_read_input_tokens {
        Some(n) => number(n as int),
        None => Tree::Null,
    }
}

/// The kind that a frame names is the name that it is sent under.
pub proof fn frame_names_its_kind(frame: FrameModel)
    ensures
        under(frame_tree(frame), "type"@) == text(frame_name(frame)),
        frame is MessageStart ==> frame_name(frame) == "message_start"@,
        frame is TextStart || frame is ThinkingStart || frame is ToolStart ==> frame_name(frame)
            == "content_block_start"@,
        frame is TextDelta || frame is ThinkingDelta || frame is InputDelta ==> frame_name(frame)
            == "content_block_delta"@,
        frame is BlockStop ==> frame_name(frame) == "content_block_stop"@,
        frame is MessageDelta ==> frame_name(frame) == "message_delta"@,
        frame is MessageStop ==> frame_name(frame) == "message_stop"@,
        frame is Error ==> frame_name(frame) == "error"@,
{
    names_differ();
}

/// A frame of a block carries the number of the block.
pub proof fn frame_carries_its_number(frame: FrameModel, n: nat)
    requires
        match frame {
            FrameModel::TextStart { index } => index == n,
            FrameModel::ThinkingStart { index } => index == n,
            FrameModel::ToolStart { index, .. } => index == n,
            FrameModel::TextDelta { index, .. } => index == n,
            FrameModel::ThinkingDelta { index, .. } => index == n,
            FrameModel::InputDelta { index, .. } => index == n,
            FrameModel::BlockStop { index } => index == n,
            _ => false,
        },
    ensures
        under(frame_tree(frame), "index"@) == number(n as int),
{
    names_differ();
}

/// A block that begins names its kind and is empty; a tool call also names its
/// id and its tool.
pub proof fn block_that_begins_is_empty(index: nat, id: Seq<char>, name: Seq<char>)
    ensures
        ({
            let block = under(frame_tree(FrameModel::TextStart { index }), "content_block"@);
            under(block, "type"@) == text("text"@) && under(block, "text"@) == text(""@)
        }),
        ({
            let block = under(frame_tree(FrameModel::ThinkingStart { index }), "content_block"@);
            under(block, "type"@) == text("thinking"@) && under(block, "thinking"@) == text(""@)
        }),
        ({
            let block = under(
                frame_tree(FrameModel::ToolStart { index, id, name }),
                "content_block"@,
            );
            &&& under(block, "type"@) == text("tool_use"@)
            &&& under(block, "id"@) == text(id)
            &&& under(block, "name"@) == text(name)
            &&& under(block, "input"@) == Tree::Object(Map::empty())
        }),
{
    names_differ();
}

/// A piece of a block stands under the name that goes with its kind.
pub proof fn piece_stands_under_its_kind(index: nat, piece: Seq<char>)
    ensures
        ({
            let delta = under(
                frame_tree(FrameModel::TextDelta { index, text: piece }),
                "delta"@,
            );
            under(delta, "type"@) == text("text_delta"@) && under(delta, "text"@) == text(piece)
        }),
        ({
            let delta = under(
                frame_tree(FrameModel::ThinkingDelta { index, thinking: piece }),
                "delta"@,
            );
            under(delta, "type"@) == text("thinking_delta"@) && under(delta, "thinking"@) == text(
                piece,
            )
        }),
        ({
            let delta = under(
                frame_tree(FrameModel::InputDelta { index, partial_json: piece }),
                "delta"@,
            );
            under(delta, "type"@) == text("input_json_delta"@) && under(delta, "partial_json"@)
                == text(piece)
        }),
{
    names_differ();
}

/// A message that begins names its id and its model, and is an empty one of
/// the assistant's.
pub proof fn message_that_begins_is_empty(id: Seq<char>, model: Seq<char>)
    ensures
        ({
            let message = under(frame_tree(FrameModel::MessageStart { id, model }), "message"@);
            &&& under(message, "id"@) == text(id)
            &&& under(message, "model"@) == text(model)
            &&& under(message, "type"@) == text("message"@)
            &&& under(message, "role"@) == text("assistant"@)
            &&& under(message, "content"@) == Tree::Array(Seq::empty())
            &&& under(message, "stop_reason"@) == Tree::Null
            &&& counts_stand(
                under(message, "usage"@),
                Usage { input_tokens: 0, output_tokens: 0, cache_read_input_tokens: None },
            )
        }),
{
    names_differ();
}

/// A message that ends names the reason and the token counts.
pub proof fn message_that_ends_names_its_counts(stop_reason: Seq<char>, usage: Usage)
    ensures
        ({
            let t = frame_tree(FrameModel::MessageDelta { stop_reason, usage });
            &&& under(under(t, "delta"@), "stop_reason"@) == text(stop_reason)
            &&& counts_stand(under(t, "usage"@), usage)
        }),
{
    names_differ();
}

/// An error names its cause.
pub proof fn error_names_its_cause(message: Seq<char>)
    ensures
        ({
            let error = under(frame_tree(FrameModel::Error { message }), "error"@);
            &&& under(error, "type"@) == text("api_error"@)
            &&& under(error, "message"@) == text("Streaming error: "@ + message)
        }),
{
    names_differ();
}

/// What is sent in place of a frame that cannot be written names the cause.
pub proof fn unwritable_frame_names_its_cause(message: Seq<char>)
    ensures
        serialization_error(message)
            == "{\"type\":\"error\",\"error\":{\"type\":\"serialization_error\",\"message\":\""@
            + message + "\"}}"@,
{
}

} // verus!
