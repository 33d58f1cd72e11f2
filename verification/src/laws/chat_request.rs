//! A request to the Chat Completions API, as the upstream reads it.

use vstd::prelude::*;

use crate::config::ProxyConfig;
use crate::convert::request::{
    all_chat_messages, chat_messages, chat_request, result_items_text, result_text_of,
    sorted_blocks, system_blocks_text, Sorted,
};
use crate::json::{array_tree, array_tree_items, json_text, Json, Tree};
use crate::laws::responses_request::url_of;
use crate::laws::wire::{text, under};
use crate::types::claude::{
    ContentBlock, Message, MessageContent, MessagesRequest, SystemBlock, SystemContent, Tool,
    ToolResultContent,
};
use crate::types::openai::{
    ChatContentModel, ChatMessageModel, ChatPartModel, ChatToolModel, ToolCallModel,
};

verus! {

// ---------------------------------------------------------------------------
// The conversation
// ---------------------------------------------------------------------------

proof fn messages_in_two(a: Seq<Message>, b: Seq<Message>)
    ensures
        all_chat_messages(a + b) == all_chat_messages(a) + all_chat_messages(b),
    decreases b.len(),
{
    if b.len() == 0 {
        assert(a + b =~= a);
        assert(all_chat_messages(a) + all_chat_messages(b) =~= all_chat_messages(a));
    } else {
        assert((a + b).drop_last() =~= a + b.drop_last());
        messages_in_two(a, b.drop_last());
        assert(all_chat_messages(a + b) =~= all_chat_messages(a) + all_chat_messages(b));
    }
}

/// What is asked in two requests, one behind the other, is asked in the same
/// order in one: the system text, then the first messages, then the later ones.
pub proof fn conversation_keeps_its_order(
    whole: MessagesRequest,
    first: MessagesRequest,
    later: MessagesRequest,
    config: ProxyConfig,
)
    requires
        whole.messages@ == first.messages@ + later.messages@,
        first.system == whole.system,
        later.system is None,
    ensures
        chat_request(whole, config).messages == chat_request(first, config).messages + chat_request(
            later,
            config,
        ).messages,
{
    messages_in_two(first.messages@, later.messages@);
    assert(chat_request(whole, config).messages =~= chat_request(first, config).messages
        + chat_request(later, config).messages);
}

/// A request without a system text and without messages asks nothing.
pub proof fn nothing_becomes_nothing(req: MessagesRequest, config: ProxyConfig)
    requires
        req.messages@.len() == 0,
        req.system is None,
    ensures
        chat_request(req, config).messages.len() == 0,
{
}

/// A message with nothing but this text.
pub open spec fn is_plain(m: ChatMessageModel, role: Seq<char>, s: Seq<char>) -> bool {
    &&& m.role == role
    &&& m.content == Some(ChatContentModel::Text(s))
    &&& m.tool_calls is None
    &&& m.tool_call_id is None
}

proof fn one_message(req: MessagesRequest, config: ProxyConfig)
    requires
        req.system is None,
        req.messages@.len() == 1,
    ensures
        chat_request(req, config).messages == chat_messages(req.messages@[0]),
{
    reveal_with_fuel(all_chat_messages, 2);
    assert(req.messages@.drop_last() =~= Seq::<Message>::empty());
    assert(chat_request(req, config).messages =~= chat_messages(req.messages@[0]));
}

/// A message that is one text becomes one message of the same role with just
/// that text; one without content becomes none.
pub proof fn text_message_is_kept(req: MessagesRequest, config: ProxyConfig)
    requires
        req.system is None,
        req.messages@.len() == 1,
    ensures
        req.messages@[0].content matches MessageContent::Text(s) ==> {
            &&& chat_request(req, config).messages.len() == 1
            &&& is_plain(chat_request(req, config).messages[0], req.messages@[0].role@, s@)
        },
        req.messages@[0].content is Null ==> chat_request(req, config).messages.len() == 0,
{
    one_message(req, config);
}

/// Those of the blocks that are tool results.
pub open spec fn results_in(blocks: Seq<ContentBlock>) -> Seq<ContentBlock>
    decreases blocks.len(),
{
    if blocks.len() == 0 {
        Seq::empty()
    } else if blocks.last() is ToolResult {
        results_in(blocks.drop_last()).push(blocks.last())
    } else {
        results_in(blocks.drop_last())
    }
}

/// Those of the blocks that are tool calls.
pub open spec fn calls_in(blocks: Seq<ContentBlock>) -> Seq<ContentBlock>
    decreases blocks.len(),
{
    if blocks.len() == 0 {
        Seq::empty()
    } else if blocks.last() is ToolUse {
        calls_in(blocks.drop_last()).push(blocks.last())
    } else {
        calls_in(blocks.drop_last())
    }
}

/// Those of the blocks that are texts or images.
pub open spec fn parts_in(blocks: Seq<ContentBlock>) -> Seq<ContentBlock>
    decreases blocks.len(),
{
    if blocks.len() == 0 {
        Seq::empty()
    } else if blocks.last() is Text || blocks.last() is Image {
        parts_in(blocks.drop_last()).push(blocks.last())
    } else {
        parts_in(blocks.drop_last())
    }
}

/// The message is what a tool gave back: it names the call that it answers, and
/// holds the result as a text.
pub open spec fn is_result_of(m: ChatMessageModel, block: ContentBlock) -> bool {
    &&& block matches ContentBlock::ToolResult { tool_use_id, content }
    &&& m.role == "tool"@
    &&& m.tool_call_id == Some(tool_use_id@)
    &&& m.content == Some(ChatContentModel::Text(result_text_of(content)))
    &&& m.tool_calls is None
}

/// The call is what a tool block is: its id, the name of the tool and its input
/// as JSON text.
pub open spec fn is_call_of(call: ToolCallModel, block: ContentBlock) -> bool {
    &&& block matches ContentBlock::ToolUse { id, name, input }
    &&& call.id == id@
    &&& call.call_type == "function"@
    &&& call.name == name@
    &&& call.arguments == json_text(input@, "{}"@)
}

/// The part is the text of a block, or its image as a data URL.
pub open spec fn is_part_of(part: ChatPartModel, block: ContentBlock) -> bool {
    match block {
        ContentBlock::Text { text } => part == (ChatPartModel::Text { text: text@ }),
        ContentBlock::Image { source } => part == (ChatPartModel::ImageUrl { url: url_of(source) }),
        _ => false,
    }
}

spec fn is_sorted(s: Sorted, blocks: Seq<ContentBlock>) -> bool {
    &&& s.results.len() == results_in(blocks).len()
    &&& forall|k: int|
        0 <= k < s.results.len() ==> is_result_of(#[trigger] s.results[k], results_in(blocks)[k])
    &&& s.calls.len() == calls_in(blocks).len()
    &&& forall|k: int|
        0 <= k < s.calls.len() ==> is_call_of(#[trigger] s.calls[k], calls_in(blocks)[k])
    &&& s.parts.len() == parts_in(blocks).len()
    &&& forall|k: int|
        0 <= k < s.parts.len() ==> is_part_of(#[trigger] s.parts[k], parts_in(blocks)[k])
}

proof fn blocks_are_sorted(blocks: Seq<ContentBlock>)
    ensures
        is_sorted(sorted_blocks(blocks), blocks),
    decreases blocks.len(),
{
    if blocks.len() > 0 {
        let rest = blocks.drop_last();
        blocks_are_sorted(rest);
        let s = sorted_blocks(rest);
        let t = sorted_blocks(blocks);
        assert forall|k: int| 0 <= k < t.results.len() implies is_result_of(
            #[trigger] t.results[k],
            results_in(blocks)[k],
        ) by {
            if k < s.results.len() {
                assert(t.results[k] == s.results[k]);
                assert(results_in(blocks)[k] == results_in(rest)[k]);
            }
        }
        assert forall|k: int| 0 <= k < t.calls.len() implies is_call_of(
            #[trigger] t.calls[k],
            calls_in(blocks)[k],
        ) by {
            if k < s.calls.len() {
                assert(t.calls[k] == s.calls[k]);
                assert(calls_in(blocks)[k] == calls_in(rest)[k]);
            }
        }
        assert forall|k: int| 0 <= k < t.parts.len() implies is_part_of(
            #[trigger] t.parts[k],
            parts_in(blocks)[k],
        ) by {
            if k < s.parts.len() {
                assert(t.parts[k] == s.parts[k]);
                assert(parts_in(blocks)[k] == parts_in(rest)[k]);
            }
        }
    }
}

/// Of a message of blocks, each tool result becomes a message of its own, in
/// their order. The texts and images, in their order, and the tool calls, in
/// theirs, become one message of the same role behind them. Nothing is lost,
/// and no message goes out empty.
pub proof fn blocks_are_kept(req: MessagesRequest, config: ProxyConfig, blocks: Vec<ContentBlock>)
    requires
        req.system is None,
        req.messages@.len() == 1,
        req.messages@[0].content == MessageContent::Blocks(blocks),
    ensures
        ({
            let out = chat_request(req, config).messages;
            let results = results_in(blocks@);
            let calls = calls_in(blocks@);
            let parts = parts_in(blocks@);
            &&& out.len() >= results.len()
            &&& forall|k: int|
                0 <= k < results.len() ==> is_result_of(#[trigger] out[k], results[k])
            &&& if calls.len() == 0 && parts.len() == 0 {
                out.len() == results.len()
            } else {
                let last = out[results.len() as int];
                &&& out.len() == results.len() + 1
                &&& last.role == req.messages@[0].role@
                &&& last.tool_call_id is None
                &&& if parts.len() == 0 {
                    last.content is None
                } else {
                    &&& last.content matches Some(ChatContentModel::Parts(got))
                    &&& got.len() == parts.len()
                    &&& forall|k: int|
                        0 <= k < parts.len() ==> is_part_of(#[trigger] got[k], parts[k])
                }
                &&& if calls.len() == 0 {
                    last.tool_calls is None
                } else {
                    &&& last.tool_calls matches Some(got)
                    &&& got.len() == calls.len()
                    &&& forall|k: int|
                        0 <= k < calls.len() ==> is_call_of(#[trigger] got[k], calls[k])
                }
            }
        }),
{
    one_message(req, config);
    blocks_are_sorted(blocks@);
    let s = sorted_blocks(blocks@);
    let out = chat_request(req, config).messages;
    assert forall|k: int| 0 <= k < s.results.len() implies is_result_of(
        #[trigger] out[k],
        results_in(blocks@)[k],
    ) by {
        assert(out[k] == s.results[k]);
    }
}

// ---------------------------------------------------------------------------
// Texts
// ---------------------------------------------------------------------------

/// What a tool gave back as a text stays that text; a single JSON value becomes
/// the text that it has, or else its JSON; and nothing becomes an empty text.
pub proof fn result_is_kept(s: String, value: Json)
    ensures
        result_text_of(None).len() == 0,
        result_text_of(Some(ToolResultContent::Text(s))) == s@,
        under(value@, "text"@) matches Tree::Text(t) ==> result_text_of(
            Some(ToolResultContent::Object(value)),
        ) == t,
        !(under(value@, "text"@) is Text) ==> result_text_of(
            Some(ToolResultContent::Object(value)),
        ) == json_text(value@, ""@),
{
}

/// The texts in a list of results stand in their order, one on each line.
pub proof fn result_texts_keep_their_order(items: Seq<Tree>, item: Tree)
    ensures
        result_items_text(Seq::empty()).len() == 0,
        under(item, "text"@) matches Tree::Text(t) ==> {
            &&& result_items_text(items).len() > 0 && t.len() > 0 ==> result_items_text(
                items.push(item),
            ) == result_items_text(items) + "\n"@ + t
            &&& result_items_text(items).len() == 0 ==> result_items_text(items.push(item)) == t
        },
        !(under(item, "text"@) is Text) ==> result_items_text(items.push(item))
            == result_items_text(items),
{
    assert(items.push(item).drop_last() =~= items);
    assert(result_items_text(items).len() == 0 ==> result_items_text(items) =~= Seq::empty());
}

/// A list of results is read item by item.
pub proof fn result_lists_are_read(items: Vec<Json>, trees: Seq<Tree>)
    requires
        trees.len() == items@.len(),
        forall|i: int| 0 <= i < trees.len() ==> #[trigger] trees[i] == items@[i]@,
    ensures
        result_text_of(Some(ToolResultContent::Blocks(items))) == result_items_text(trees),
{
    array_tree_items(items@);
    assert(array_tree(items@) =~= trees);
}

/// A system text goes out first, as it is; an empty one does not go out.
pub proof fn system_text_comes_first(req: MessagesRequest, config: ProxyConfig, s: String)
    requires
        req.system == Some(SystemContent::Text(s)),
    ensures
        ({
            let out = chat_request(req, config).messages;
            let rest = all_chat_messages(req.messages@);
            if s@.len() == 0 {
                out == rest
            } else {
                out.len() == rest.len() + 1 && is_plain(out[0], "system"@, s@) && out.skip(1)
                    == rest
            }
        }),
{
    let out = chat_request(req, config).messages;
    let rest = all_chat_messages(req.messages@);
    if s@.len() == 0 {
        assert(out =~= rest);
    } else {
        assert(out.skip(1) =~= rest);
    }
}

/// The text blocks of a system field go out first too, as one text, in their
/// order, with empty lines between them.
pub proof fn system_blocks_come_first(
    req: MessagesRequest,
    config: ProxyConfig,
    blocks: Vec<SystemBlock>,
)
    requires
        req.system == Some(SystemContent::Blocks(blocks)),
    ensures
        ({
            let out = chat_request(req, config).messages;
            let rest = all_chat_messages(req.messages@);
            let s = system_blocks_text(blocks@);
            if s.len() == 0 {
                out == rest
            } else {
                out.len() == rest.len() + 1 && is_plain(out[0], "system"@, s) && out.skip(1)
                    == rest
            }
        }),
{
    let out = chat_request(req, config).messages;
    let rest = all_chat_messages(req.messages@);
    if system_blocks_text(blocks@).len() == 0 {
        assert(out =~= rest);
    } else {
        assert(out.skip(1) =~= rest);
    }
}

/// Each text block of a system field adds its text behind the earlier ones.
pub proof fn system_blocks_keep_their_order(blocks: Seq<SystemBlock>, block: SystemBlock)
    ensures
        system_blocks_text(Seq::empty()).len() == 0,
        block.text matches Some(s) ==> block.block_type@ == "text"@ ==> {
            &&& system_blocks_text(blocks).len() > 0 && s@.len() > 0 ==> system_blocks_text(
                blocks.push(block),
            ) == system_blocks_text(blocks) + "\n\n"@ + s@
            &&& system_blocks_text(blocks).len() == 0 ==> system_blocks_text(blocks.push(block))
                == s@
        },
        (block.text is None || block.block_type@ != "text"@) ==> system_blocks_text(
            blocks.push(block),
        ) == system_blocks_text(blocks),
{
    assert(blocks.push(block).drop_last() =~= blocks);
    assert(system_blocks_text(blocks).len() == 0 ==> system_blocks_text(blocks) =~= Seq::empty());
}

// ---------------------------------------------------------------------------
// Tools and the rest
// ---------------------------------------------------------------------------

/// The outgoing tool is this declared tool, field by field.
pub open spec fn is_tool_of(out: ChatToolModel, tool: Tool) -> bool {
    &&& out.tool_type == "function"@
    &&& out.name == tool.name@
    &&& out.description == match tool.description {
        Some(description) => Some(description@),
        None => None,
    }
    &&& out.parameters == tool.input_schema@
}

/// Every declared tool goes out as it is, in the same order; no tools at all
/// are sent where none is declared.
pub proof fn every_tool_goes_out(req: MessagesRequest, config: ProxyConfig)
    ensures
        (req.tools is None || req.tools->0@.len() == 0) ==> chat_request(req, config).tools is None,
        req.tools matches Some(tools) ==> tools@.len() > 0 ==> {
            &&& chat_request(req, config).tools matches Some(out)
            &&& out.len() == tools@.len()
            &&& forall|k: int| 0 <= k < tools@.len() ==> is_tool_of(#[trigger] out[k], tools@[k])
        },
{
}

/// A client that asks for any tool gets `required`, one that asks for a certain
/// tool gets that one, and every other gets `auto`. Nothing is said where the
/// client says nothing.
pub proof fn choice_of_tools_is_kept(req: MessagesRequest, config: ProxyConfig)
    ensures
        req.tool_choice is None ==> chat_request(req, config).tool_choice is None,
        req.tool_choice matches Some(choice) ==> {
            let kind = under(choice@, "type"@);
            &&& chat_request(req, config).tool_choice matches Some(out)
            &&& kind == text("any"@) ==> out == text("required"@)
            &&& under(choice@, "name"@) matches Tree::Text(name) ==> kind == text("tool"@) ==> {
                &&& under(out, "type"@) == text("function"@)
                &&& under(under(out, "function"@), "name"@) == text(name)
            }
            &&& kind != text("any"@) && (kind != text("tool"@) || !(under(
                choice@,
                "name"@,
            ) is Text)) ==> out == text("auto"@)
        },
{
    reveal_strlit("any");
    reveal_strlit("tool");
    reveal_strlit("type");
    reveal_strlit("function");
    assert("any"@.len() != "tool"@.len());
    assert("type"@.len() != "function"@.len());
}

/// The limit of tokens is the client's where the settings allow it, and else
/// the nearer limit of the settings. Stop texts go out as they are. A stream is
/// asked for, with its token counts, exactly where the client asks for one.
pub proof fn rest_of_the_request(req: MessagesRequest, config: ProxyConfig)
    ensures
        ({
            let out = chat_request(req, config);
            &&& config.min_tokens_limit <= req.max_tokens <= config.max_tokens_limit
                ==> out.max_tokens == req.max_tokens
            &&& config.min_tokens_limit <= config.max_tokens_limit < req.max_tokens
                ==> out.max_tokens == config.max_tokens_limit
            &&& req.max_tokens < config.min_tokens_limit && config.min_tokens_limit
                <= config.max_tokens_limit ==> out.max_tokens == config.min_tokens_limit
            &&& out.max_tokens >= config.min_tokens_limit
            &&& req.stop_sequences is None ==> out.stop is None
            &&& req.stop_sequences matches Some(stop) ==> {
                &&& out.stop matches Some(got)
                &&& got.len() == stop@.len()
                &&& forall|k: int| 0 <= k < stop@.len() ==> #[trigger] got[k] == stop@[k]@
            }
            &&& out.stream == (req.stream == Some(true))
            &&& out.stream_options is Some == out.stream
            &&& out.stream_options matches Some(options) ==> options.include_usage
        }),
{
}

} // verus!
