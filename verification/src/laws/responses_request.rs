//! A request to the Responses API, as the upstream reads it.

use vstd::prelude::*;

use crate::config::ProxyConfig;
use crate::convert::responses::request::{
    after_blocks, flushed, message_items, messages_items, normalized, outgoing_name,
    request_short_names, result_item, result_items, result_parts, system_block, system_blocks,
    translated_request, Progress,
};
use crate::json::{json_text, Json, Tree};
use crate::laws::wire::{text, under};
use crate::text::{has_prefix, trimmed};
use crate::types::claude::{
    ContentBlock, ImageSource, Message, MessageContent, MessagesRequest, SystemBlock, SystemContent,
    Tool, ToolResultContent,
};
use crate::types::responses::{
    ContentPartModel, FunctionCallOutputModel, InputItemModel, ResponsesToolModel,
};

verus! {

// ---------------------------------------------------------------------------
// The conversation
// ---------------------------------------------------------------------------

/// The items come in the order of the messages: those of the first messages
/// stand before those of the later ones, so that a tool call stands before its
/// result.
pub proof fn items_keep_the_order_of_messages(
    a: Seq<Message>,
    b: Seq<Message>,
    shorts: Map<Seq<char>, Seq<char>>,
)
    ensures
        messages_items(a + b, shorts) == messages_items(a, shorts) + messages_items(b, shorts),
    decreases b.len(),
{
    if b.len() == 0 {
        assert(a + b =~= a);
        assert(messages_items(a, shorts) + messages_items(b, shorts) =~= messages_items(
            a,
            shorts,
        ));
    } else {
        assert((a + b).drop_last() =~= a + b.drop_last());
        items_keep_the_order_of_messages(a, b.drop_last(), shorts);
        assert(messages_items(a + b, shorts) =~= messages_items(a, shorts) + messages_items(
            b,
            shorts,
        ));
    }
}

/// What is asked in two requests, one behind the other, is asked in the same
/// order in one: the system text, then the first messages, then the later ones.
pub proof fn conversation_keeps_its_order(
    whole: MessagesRequest,
    first: MessagesRequest,
    later: MessagesRequest,
    config: ProxyConfig,
)
    requires
        whole.messages@ == first.messages@ + later.messages@,
        first.tools == whole.tools,
        later.tools == whole.tools,
        first.system == whole.system,
        later.system is None,
    ensures
        translated_request(whole, config).input == translated_request(first, config).input
            + translated_request(later, config).input,
{
    let shorts = request_short_names(whole);
    items_keep_the_order_of_messages(first.messages@, later.messages@, shorts);
    assert(translated_request(whole, config).input =~= translated_request(first, config).input
        + translated_request(later, config).input);
}

/// A request without a system text and without messages asks nothing.
pub proof fn nothing_becomes_nothing(req: MessagesRequest, config: ProxyConfig)
    requires
        req.messages@.len() == 0,
        req.system is None,
    ensures
        translated_request(req, config).input.len() == 0,
{
}

/// A part that holds a text of this role: the assistant's is output, every
/// other is input.
pub open spec fn is_text_of(part: ContentPartModel, s: Seq<char>, role: Seq<char>) -> bool {
    if role == "assistant"@ {
        part == (ContentPartModel::OutputText { text: s })
    } else {
        part == (ContentPartModel::InputText { text: s })
    }
}

/// A message that is one text becomes one message of the same role with just
/// that text.
pub proof fn text_message_is_kept(req: MessagesRequest, config: ProxyConfig, s: String)
    requires
        req.system is None,
        req.messages@.len() == 1,
        req.messages@[0].content == MessageContent::Text(s),
    ensures
        ({
            let input = translated_request(req, config).input;
            &&& input.len() == 1
            &&& input[0] matches InputItemModel::Message { role, content }
            &&& role == req.messages@[0].role@
            &&& content.len() == 1
            &&& is_text_of(content[0], s@, role)
        }),
{
    let shorts = request_short_names(req);
    reveal_with_fuel(messages_items, 2);
    assert(req.messages@.drop_last() =~= Seq::<Message>::empty());
    assert(translated_request(req, config).input =~= message_items(req.messages@[0], shorts));
}

/// A message of blocks goes out as the items of its blocks, and one without
/// content as none.
pub proof fn message_becomes_the_items_of_its_blocks(
    req: MessagesRequest,
    config: ProxyConfig,
    blocks: Vec<ContentBlock>,
)
    requires
        req.system is None,
        req.messages@.len() == 1,
        req.messages@[0].content == MessageContent::Blocks(blocks) || (
        req.messages@[0].content is Null && blocks@.len() == 0),
    ensures
        translated_request(req, config).input == items_of_blocks(
            blocks@,
            req.messages@[0].role@,
            request_short_names(req),
        ),
{
    let shorts = request_short_names(req);
    reveal_with_fuel(messages_items, 2);
    assert(req.messages@.drop_last() =~= Seq::<Message>::empty());
    assert(translated_request(req, config).input =~= message_items(req.messages@[0], shorts));
}

/// The items of a message of blocks.
pub open spec fn items_of_blocks(
    blocks: Seq<ContentBlock>,
    role: Seq<char>,
    shorts: Map<Seq<char>, Seq<char>>,
) -> Seq<InputItemModel> {
    flushed(after_blocks(blocks, role, shorts), role).items
}

/// The block is a tool call or a tool result.
pub open spec fn stands_alone(block: ContentBlock) -> bool {
    block is ToolUse || block is ToolResult
}

/// The item is what this tool block is to become: the call with its id, its
/// outgoing name and its input as JSON text, or the result with the id of the
/// call that it answers and its parts.
pub open spec fn is_item_of(
    item: InputItemModel,
    block: ContentBlock,
    shorts: Map<Seq<char>, Seq<char>>,
) -> bool {
    match block {
        ContentBlock::ToolUse { id, name, input } => item == (InputItemModel::FunctionCall {
            call_id: id@,
            name: outgoing_name(shorts, name@),
            arguments: json_text(input@, "{}"@),
        }),
        ContentBlock::ToolResult { tool_use_id, content } => item == (
        InputItemModel::FunctionCallOutput {
            call_id: tool_use_id@,
            output: FunctionCallOutputModel::Parts(result_parts(content)),
        }),
        _ => false,
    }
}

proof fn blocks_behind_tool(
    p: Progress,
    blocks: Seq<ContentBlock>,
    before: Seq<ContentBlock>,
    role: Seq<char>,
    shorts: Map<Seq<char>, Seq<char>>,
)
    requires
        p == after_blocks(before, role, shorts),
        p.pending.len() == 0,
    ensures
        ({
            let q = after_blocks(before + blocks, role, shorts);
            let r = after_blocks(blocks, role, shorts);
            q.items == p.items + r.items && q.pending == r.pending
        }),
    decreases blocks.len(),
{
    if blocks.len() == 0 {
        assert(before + blocks =~= before);
        assert(p.pending =~= Seq::<ContentPartModel>::empty());
    } else {
        let rest = blocks.drop_last();
        assert((before + blocks).drop_last() =~= before + rest);
        blocks_behind_tool(p, rest, before, role, shorts);
        let q = after_blocks(before + blocks, role, shorts);
        let r = after_blocks(blocks, role, shorts);
        assert(q.items =~= p.items + r.items);
    }
}

/// A tool call and a tool result become one item each, at their place: behind
/// the items of the blocks before, and before those of the blocks behind.
pub proof fn tool_blocks_stand_at_their_place(
    before: Seq<ContentBlock>,
    block: ContentBlock,
    behind: Seq<ContentBlock>,
    role: Seq<char>,
    shorts: Map<Seq<char>, Seq<char>>,
)
    requires
        stands_alone(block),
    ensures
        ({
            let first = items_of_blocks(before, role, shorts);
            let items = items_of_blocks(before.push(block) + behind, role, shorts);
            &&& items.len() > first.len()
            &&& items.take(first.len() as int) == first
            &&& is_item_of(items[first.len() as int], block, shorts)
            &&& items.skip(first.len() as int + 1) == items_of_blocks(behind, role, shorts)
        }),
{
    let done = before.push(block);
    assert(done.drop_last() =~= before);
    assert(done.last() == block);
    let p = after_blocks(done, role, shorts);
    blocks_behind_tool(p, behind, done, role, shorts);
    let first = items_of_blocks(before, role, shorts);
    let items = items_of_blocks(done + behind, role, shorts);
    let last = items_of_blocks(behind, role, shorts);
    assert(p.items =~= first.push(p.items.last()));
    assert(items =~= p.items + last);
    assert(items.take(first.len() as int) =~= first);
    assert(items.skip(first.len() as int + 1) =~= last);
}

/// The part is what this block is to become: its text, or its image as a data
/// URL.
pub open spec fn is_part_of(part: ContentPartModel, block: ContentBlock, role: Seq<char>) -> bool {
    match block {
        ContentBlock::Text { text } => is_text_of(part, text@, role),
        ContentBlock::Image { source } => part == (ContentPartModel::InputImage {
            image_url: url_of(source),
        }),
        _ => false,
    }
}

/// An image as a data URL.
pub open spec fn url_of(source: ImageSource) -> Seq<char> {
    "data:"@ + match source.media_type {
        Some(media_type) => media_type@,
        None => "application/octet-stream"@,
    } + ";base64,"@ + match source.data {
        Some(data) => data@,
        None => ""@,
    }
}

proof fn parts_so_far(blocks: Seq<ContentBlock>, role: Seq<char>, shorts: Map<Seq<char>, Seq<char>>)
    requires
        forall|i: int| 0 <= i < blocks.len() ==> !stands_alone(#[trigger] blocks[i]),
    ensures
        ({
            let p = after_blocks(blocks, role, shorts);
            &&& p.items.len() == 0
            &&& p.pending.len() == blocks.len()
            &&& forall|i: int|
                0 <= i < blocks.len() ==> is_part_of(#[trigger] p.pending[i], blocks[i], role)
        }),
    decreases blocks.len(),
{
    if blocks.len() > 0 {
        let rest = blocks.drop_last();
        let n = blocks.len() - 1;
        assert forall|i: int| 0 <= i < rest.len() implies !stands_alone(#[trigger] rest[i]) by {
            assert(rest[i] == blocks[i]);
        }
        parts_so_far(rest, role, shorts);
        let p = after_blocks(rest, role, shorts);
        let q = after_blocks(blocks, role, shorts);
        assert(!stands_alone(blocks[n]));
        assert forall|i: int| 0 <= i < blocks.len() implies is_part_of(
            #[trigger] q.pending[i],
            blocks[i],
            role,
        ) by {
            if i < n {
                assert(q.pending[i] == p.pending[i]);
                assert(is_part_of(p.pending[i], rest[i], role));
            }
        }
    }
}

/// Texts and images without a tool block between them become one message of the
/// same role, with one part for each of them, in their order.
pub proof fn texts_and_images_become_one_message(
    blocks: Seq<ContentBlock>,
    role: Seq<char>,
    shorts: Map<Seq<char>, Seq<char>>,
)
    requires
        blocks.len() > 0,
        forall|i: int| 0 <= i < blocks.len() ==> !stands_alone(#[trigger] blocks[i]),
    ensures
        ({
            let items = items_of_blocks(blocks, role, shorts);
            &&& items.len() == 1
            &&& items[0] matches InputItemModel::Message { role: got, content }
            &&& got == role
            &&& content.len() == blocks.len()
            &&& forall|i: int|
                0 <= i < blocks.len() ==> is_part_of(#[trigger] content[i], blocks[i], role)
        }),
{
    parts_so_far(blocks, role, shorts);
}

// ---------------------------------------------------------------------------
// Tool results
// ---------------------------------------------------------------------------

/// What a tool gave back as a text goes out as that text; a single JSON value
/// as the text that it has, or else as its JSON; and nothing as nothing.
pub proof fn result_is_kept(s: String, value: Json)
    ensures
        result_parts(None).len() == 0,
        result_parts(Some(ToolResultContent::Text(s))) == seq![
            ContentPartModel::InputText { text: s@ },
        ],
        ({
            let parts = result_parts(Some(ToolResultContent::Object(value)));
            &&& parts.len() == 1
            &&& under(value@, "text"@) matches Tree::Text(t) ==> parts[0] == (
            ContentPartModel::InputText { text: t })
            &&& !(under(value@, "text"@) is Text) ==> parts[0] == (ContentPartModel::InputText {
                text: json_text(value@, ""@),
            })
        }),
{
}

/// The items of a tool result become parts in their order.
pub proof fn result_items_keep_their_order(a: Seq<Json>, b: Seq<Json>)
    ensures
        result_items(a + b) == result_items(a) + result_items(b),
    decreases b.len(),
{
    if b.len() == 0 {
        assert(a + b =~= a);
        assert(result_items(a) + result_items(b) =~= result_items(a));
    } else {
        assert((a + b).drop_last() =~= a + b.drop_last());
        result_items_keep_their_order(a, b.drop_last());
        assert(result_items(a + b) =~= result_items(a) + result_items(b));
    }
}

/// The item of a tool result that is a list: a text becomes its text, an image
/// a data URL, and anything else nothing.
pub proof fn result_item_is_kept(items: Vec<Json>)
    requires
        items@.len() == 1,
    ensures
        ({
            let item = items@[0]@;
            let parts = result_parts(Some(ToolResultContent::Blocks(items)));
            let source = under(item, "source"@);
            &&& under(item, "type"@) == text("text"@) ==> parts == seq![
                ContentPartModel::InputText {
                    text: match under(item, "text"@) {
                        Tree::Text(t) => t,
                        _ => ""@,
                    },
                },
            ]
            &&& under(item, "type"@) == text("image"@) && source is Object ==> parts == seq![
                ContentPartModel::InputImage {
                    image_url: "data:"@ + match under(source, "media_type"@) {
                        Tree::Text(t) => t,
                        _ => "application/octet-stream"@,
                    } + ";base64,"@ + match under(source, "data"@) {
                        Tree::Text(t) => t,
                        _ => ""@,
                    },
                },
            ]
            &&& under(item, "type"@) != text("text"@) && under(item, "type"@) != text("image"@)
                ==> parts.len() == 0
        }),
{
    reveal_with_fuel(result_items, 2);
    reveal_strlit("text");
    reveal_strlit("image");
    assert("text"@.len() != "image"@.len());
    assert(items@.drop_last() =~= Seq::<Json>::empty());
    let parts = result_parts(Some(ToolResultContent::Blocks(items)));
    assert(parts =~= result_item(items@[0]@));
}

// ---------------------------------------------------------------------------
// The system text
// ---------------------------------------------------------------------------

/// The text is blank or carries billing data.
pub open spec fn stays_here(s: Seq<char>) -> bool {
    trimmed(s).len() == 0 || has_prefix(trimmed(s), "x-anthropic-billing-header: "@)
}

/// A system text goes out first, as a message of the developer with just that
/// text, trimmed. A blank text and one with billing data stay here.
pub proof fn system_text_comes_first(req: MessagesRequest, config: ProxyConfig, s: String)
    requires
        req.system == Some(SystemContent::Text(s)),
    ensures
        ({
            let input = translated_request(req, config).input;
            let rest = messages_items(req.messages@, request_short_names(req));
            if stays_here(s@) {
                input == rest
            } else {
                &&& input.len() == rest.len() + 1
                &&& input.skip(1) == rest
                &&& input[0] == (InputItemModel::Message {
                    role: "developer"@,
                    content: seq![ContentPartModel::InputText { text: trimmed(s@) }],
                })
            }
        }),
{
    let input = translated_request(req, config).input;
    let rest = messages_items(req.messages@, request_short_names(req));
    if stays_here(s@) {
        assert(input =~= rest);
    } else {
        assert(input.skip(1) =~= rest);
    }
}

/// The blocks of a system field go out first too, in one message of the
/// developer.
pub proof fn system_blocks_come_first(
    req: MessagesRequest,
    config: ProxyConfig,
    blocks: Vec<SystemBlock>,
)
    requires
        req.system == Some(SystemContent::Blocks(blocks)),
    ensures
        ({
            let input = translated_request(req, config).input;
            let rest = messages_items(req.messages@, request_short_names(req));
            let parts = system_blocks(blocks@);
            if parts.len() == 0 {
                input == rest
            } else {
                &&& input.len() == rest.len() + 1
                &&& input.skip(1) == rest
                &&& input[0] == (InputItemModel::Message { role: "developer"@, content: parts })
            }
        }),
{
    let input = translated_request(req, config).input;
    let rest = messages_items(req.messages@, request_short_names(req));
    if system_blocks(blocks@).len() == 0 {
        assert(input =~= rest);
    } else {
        assert(input.skip(1) =~= rest);
    }
}

/// The blocks of a system field become parts in their order, each text block
/// its text, trimmed.
pub proof fn system_blocks_keep_their_order(blocks: Seq<SystemBlock>, block: SystemBlock)
    ensures
        block.text matches Some(s) ==> block.block_type@ == "text"@ && !stays_here(s@)
            ==> system_blocks(blocks.push(block)) == system_blocks(blocks).push(
            ContentPartModel::InputText { text: trimmed(s@) },
        ),
        (block.text is None || block.block_type@ != "text"@ || stays_here(block.text->0@))
            ==> system_blocks(blocks.push(block)) == system_blocks(blocks),
        system_blocks(Seq::empty()).len() == 0,
{
    assert(blocks.push(block).drop_last() =~= blocks);
    let before = system_blocks(blocks);
    if block.text is Some && block.block_type@ == "text"@ && !stays_here(block.text->0@) {
        assert(before + seq![ContentPartModel::InputText { text: trimmed(block.text->0@) }]
            =~= before.push(ContentPartModel::InputText { text: trimmed(block.text->0@) }));
    } else {
        assert(before + system_block(block) =~= before);
    }
}

// ---------------------------------------------------------------------------
// Tools and the rest
// ---------------------------------------------------------------------------

/// The tool is the web search.
pub open spec fn is_web_search(tool: Tool) -> bool {
    tool.name@ == "web_search_20250305"@ || under(tool.input_schema@, "type"@) == text(
        "web_search_20250305"@,
    )
}

/// Every declared tool goes out, in the same order: the web search as the
/// upstream's own, every other as a function with its description and its
/// schema, under the name under which calls of it go out too. No tools at all
/// are sent where none is declared.
pub proof fn every_tool_goes_out(req: MessagesRequest, config: ProxyConfig)
    ensures
        (req.tools is None || req.tools->0@.len() == 0) ==> translated_request(
            req,
            config,
        ).tools is None,
        req.tools matches Some(tools) ==> tools@.len() > 0 ==> {
            &&& translated_request(req, config).tools matches Some(out)
            &&& out.len() == tools@.len()
            &&& forall|k: int|
                0 <= k < tools@.len() ==> is_tool_of(
                    #[trigger] out[k],
                    tools@[k],
                    request_short_names(req),
                )
        },
{
}

/// The outgoing tool is what this declared tool is to become.
pub open spec fn is_tool_of(
    out: ResponsesToolModel,
    tool: Tool,
    shorts: Map<Seq<char>, Seq<char>>,
) -> bool {
    if is_web_search(tool) {
        out.tool_type == "web_search"@ && out.name is None && out.parameters is None
    } else {
        &&& out.tool_type == "function"@
        &&& out.name == Some(outgoing_name(shorts, tool.name@))
        &&& out.description == match tool.description {
            Some(description) => Some(description@),
            None => None,
        }
        &&& out.parameters == Some(normalized(tool.input_schema@))
        &&& out.strict == Some(false)
    }
}

/// The limit of tokens is the client's; parallel tool calls are allowed unless
/// the client forbids them; the upstream is asked to stream, to keep nothing,
/// and to hand out its reasoning in encrypted form with a summary.
pub proof fn rest_of_the_request(req: MessagesRequest, config: ProxyConfig)
    ensures
        ({
            let out = translated_request(req, config);
            &&& out.max_output_tokens == Some(req.max_tokens)
            &&& out.parallel_tool_calls == !(req.tool_choice matches Some(choice) && under(
                choice@,
                "disable_parallel_tool_use"@,
            ) == Tree::Bool(true))
            &&& out.stream
            &&& !out.store
            &&& out.instructions is None
            &&& out.included == seq!["reasoning.encrypted_content"@]
            &&& out.reasoning matches Some(reasoning) && reasoning.summary == "auto"@
        }),
{
}

} // verus!
