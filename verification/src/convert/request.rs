//! A request on its way to the Chat Completions API.
//!
//! That API takes tool names as they are. Tool results are messages of their
//! own there, and so is the system text.

use vstd::prelude::*;

use crate::config::ProxyConfig;
use crate::convert::frames::{object1, typed};
use crate::convert::responses::request::{data_url, data_url_of, result_text};
use crate::json::{array_tree, array_tree_items, json_text, put, text_or, tree_str_at, Json, Tree};
use crate::model_map::{map_model, mapped_model, tier_of};
use crate::text::same;
use crate::types::claude::{
    ContentBlock, Message, MessageContent, MessagesRequest, SystemBlock, SystemContent, Tool,
    ToolResultContent,
};
use crate::types::openai::{
    ChatCompletionRequest, ChatContent, ChatContentModel, ChatFunction, ChatMessage,
    ChatMessageModel, ChatPartModel, ChatRequestModel, ChatTool, ChatToolModel, ContentPart,
    FunctionCall, ImageUrl, StreamOptions, ToolCall, ToolCallModel,
};

verus! {

// ---------------------------------------------------------------------------
// Texts
// ---------------------------------------------------------------------------

/// `a` and `b` with `between` between them; only one of them where the other
/// is empty.
pub open spec fn joined(a: Seq<char>, between: Seq<char>, b: Seq<char>) -> Seq<char> {
    if a.len() == 0 {
        b
    } else if b.len() == 0 {
        a
    } else {
        a + between + b
    }
}

/// Appends `b`, with `between` before it where there is something to keep
/// apart.
fn join(a: &mut String, between: &str, b: &str)
    ensures
        final(a)@ == joined(old(a)@, between@, b@),
{
    proof {
        reveal_strlit("");
        if a@.len() == 0 {
            assert(a@ =~= ""@);
        }
        if b@.len() == 0 {
            assert(b@ =~= ""@);
        }
    }
    if same(a.as_str(), "") {
        a.push_str(b);
    } else if !same(b, "") {
        a.push_str(between);
        a.push_str(b);
    }
    assert(a@ =~= joined(old(a)@, between@, b@));
}

/// The texts of the text blocks, with empty lines between them.
pub open spec fn system_blocks_text(blocks: Seq<SystemBlock>) -> Seq<char>
    decreases blocks.len(),
{
    if blocks.len() == 0 {
        Seq::empty()
    } else {
        let block = blocks.last();
        joined(
            system_blocks_text(blocks.drop_last()),
            "\n\n"@,
            match block.text {
                Some(text) => if block.block_type@ == "text"@ {
                    text@
                } else {
                    Seq::empty()
                },
                None => Seq::empty(),
            },
        )
    }
}

/// The system text of a request.
pub open spec fn system_text_of(system: Option<SystemContent>) -> Seq<char> {
    match system {
        Some(SystemContent::Text(text)) => text@,
        Some(SystemContent::Blocks(blocks)) => system_blocks_text(blocks@),
        None => Seq::empty(),
    }
}

/// The system text of a request.
fn read_system(system: &Option<SystemContent>) -> (r: String)
    ensures
        r@ == system_text_of(*system),
{
    let mut out = String::new();
    assert(out@ =~= Seq::<char>::empty());
    match system {
        Some(SystemContent::Text(text)) => {
            out.push_str(text.as_str());
            assert(out@ =~= text@);
        },
        Some(SystemContent::Blocks(blocks)) => {
            let mut i: usize = 0;
            assert(blocks@.take(0) =~= Seq::<SystemBlock>::empty());
            while i < blocks.len()
                invariant
                    i <= blocks@.len(),
                    out@ == system_blocks_text(blocks@.take(i as int)),
                decreases blocks.len() - i,
            {
                assert(blocks@.take(i + 1).drop_last() =~= blocks@.take(i as int));
                match &blocks[i].text {
                    Some(text) => {
                        if same(blocks[i].block_type.as_str(), "text") {
                            join(&mut out, "\n\n", text.as_str());
                        }
                    },
                    None => {},
                }
                assert(out@ =~= system_blocks_text(blocks@.take(i + 1)));
                i += 1;
            }
            assert(blocks@.take(i as int) =~= blocks@);
        },
        None => {},
    }
    out
}

/// The texts of the text items of a tool result, one on each line.
pub open spec fn result_items_text(items: Seq<Tree>) -> Seq<char>
    decreases items.len(),
{
    if items.len() == 0 {
        Seq::empty()
    } else {
        joined(
            result_items_text(items.drop_last()),
            "\n"@,
            match tree_str_at(items.last(), "text"@) {
                Some(text) => text,
                None => Seq::empty(),
            },
        )
    }
}

/// What a tool gave back, as a text.
pub open spec fn result_text_of(content: Option<ToolResultContent>) -> Seq<char> {
    match content {
        None => Seq::empty(),
        Some(ToolResultContent::Text(text)) => text@,
        Some(ToolResultContent::Blocks(items)) => result_items_text(array_tree(items@)),
        Some(ToolResultContent::Object(value)) => result_text(value@),
    }
}

/// What a tool gave back, as a text.
fn read_result(content: &Option<ToolResultContent>) -> (r: String)
    ensures
        r@ == result_text_of(*content),
{
    let mut out = String::new();
    assert(out@ =~= Seq::<char>::empty());
    match content {
        None => {},
        Some(ToolResultContent::Text(text)) => {
            out.push_str(text.as_str());
            assert(out@ =~= text@);
        },
        Some(ToolResultContent::Blocks(items)) => {
            let ghost trees = array_tree(items@);
            let mut i: usize = 0;
            proof {
                array_tree_items(items@);
                assert(trees.take(0) =~= Seq::<Tree>::empty());
            }
            while i < items.len()
                invariant
                    i <= items@.len(),
                    trees.len() == items@.len(),
                    forall|k: int| 0 <= k < items@.len() ==> #[trigger] trees[k] == items@[k]@,
                    out@ == result_items_text(trees.take(i as int)),
                decreases items.len() - i,
            {
                assert(trees.take(i + 1).drop_last() =~= trees.take(i as int));
                assert(trees[i as int] == items@[i as int]@);
                match items[i].str_at("text") {
                    Some(text) => join(&mut out, "\n", text),
                    None => {},
                }
                assert(out@ =~= result_items_text(trees.take(i + 1)));
                i += 1;
            }
            assert(trees.take(i as int) =~= trees);
        },
        Some(ToolResultContent::Object(value)) => {
            out = match value.str_at("text") {
                Some(text) => text.to_string(),
                None => text_or(value, ""),
            };
        },
    }
    out
}

// ---------------------------------------------------------------------------
// Messages
// ---------------------------------------------------------------------------

/// A message with nothing but a text.
pub open spec fn text_message(role: Seq<char>, text: Seq<char>) -> ChatMessageModel {
    ChatMessageModel {
        role,
        content: Some(ChatContentModel::Text(text)),
        tool_calls: None,
        tool_call_id: None,
    }
}

/// What blocks become: messages for tool results, and parts and tool calls of
/// one message.
pub struct Sorted {
    pub results: Seq<ChatMessageModel>,
    pub parts: Seq<ChatPartModel>,
    pub calls: Seq<ToolCallModel>,
}

/// What blocks become.
pub open spec fn sorted_blocks(blocks: Seq<ContentBlock>) -> Sorted
    decreases blocks.len(),
{
    if blocks.len() == 0 {
        Sorted { results: Seq::empty(), parts: Seq::empty(), calls: Seq::empty() }
    } else {
        let s = sorted_blocks(blocks.drop_last());
        match blocks.last() {
            ContentBlock::Text { text } => Sorted {
                parts: s.parts.push(ChatPartModel::Text { text: text@ }),
                ..s
            },
            ContentBlock::Image { source } => Sorted {
                parts: s.parts.push(
                    ChatPartModel::ImageUrl {
                        url: data_url_of(
                            source.media_type.deep_view(),
                            source.data.deep_view(),
                        ),
                    },
                ),
                ..s
            },
            ContentBlock::ToolUse { id, name, input } => Sorted {
                calls: s.calls.push(
                    ToolCallModel {
                        id: id@,
                        call_type: "function"@,
                        name: name@,
                        arguments: json_text(input@, "{}"@),
                    },
                ),
                ..s
            },
            ContentBlock::ToolResult { tool_use_id, content } => Sorted {
                results: s.results.push(
                    ChatMessageModel {
                        role: "tool"@,
                        content: Some(ChatContentModel::Text(result_text_of(content))),
                        tool_calls: None,
                        tool_call_id: Some(tool_use_id@),
                    },
                ),
                ..s
            },
        }
    }
}

/// `s`, unless it is empty.
pub open spec fn unless_empty<T>(s: Seq<T>) -> Option<Seq<T>> {
    if s.len() == 0 {
        None
    } else {
        Some(s)
    }
}

/// The messages that a message becomes: the tool results first, as they answer
/// the message before, and then the rest of it, if there is any.
pub open spec fn chat_messages(msg: Message) -> Seq<ChatMessageModel> {
    match msg.content {
        MessageContent::Text(text) => seq![text_message(msg.role@, text@)],
        MessageContent::Null => Seq::empty(),
        MessageContent::Blocks(blocks) => {
            let s = sorted_blocks(blocks@);
            if s.parts.len() == 0 && s.calls.len() == 0 {
                s.results
            } else {
                s.results.push(
                    ChatMessageModel {
                        role: msg.role@,
                        content: match unless_empty(s.parts) {
                            Some(parts) => Some(ChatContentModel::Parts(parts)),
                            None => None,
                        },
                        tool_calls: unless_empty(s.calls),
                        tool_call_id: None,
                    },
                )
            }
        },
    }
}

/// The messages that all messages become.
pub open spec fn all_chat_messages(messages: Seq<Message>) -> Seq<ChatMessageModel>
    decreases messages.len(),
{
    if messages.len() == 0 {
        Seq::empty()
    } else {
        all_chat_messages(messages.drop_last()) + chat_messages(messages.last())
    }
}

/// Appends the messages that blocks become.
fn push_blocks(out: &mut Vec<ChatMessage>, role: &str, blocks: &Vec<ContentBlock>)
    ensures
        ({
            let s = sorted_blocks(blocks@);
            final(out).deep_view() == old(out).deep_view() + if s.parts.len() == 0 && s.calls.len()
                == 0 {
                s.results
            } else {
                s.results.push(
                    ChatMessageModel {
                        role: role@,
                        content: match unless_empty(s.parts) {
                            Some(parts) => Some(ChatContentModel::Parts(parts)),
                            None => None,
                        },
                        tool_calls: unless_empty(s.calls),
                        tool_call_id: None,
                    },
                )
            }
        }),
{
    let ghost before = out.deep_view();
    let mut parts: Vec<ContentPart> = Vec::new();
    let mut calls: Vec<ToolCall> = Vec::new();
    let mut i: usize = 0;
    proof {
        assert(blocks@.take(0) =~= Seq::<ContentBlock>::empty());
        assert(parts.deep_view() =~= Seq::<ChatPartModel>::empty());
        assert(calls.deep_view() =~= Seq::<ToolCallModel>::empty());
        assert(out.deep_view() =~= before + sorted_blocks(blocks@.take(0)).results);
    }
    while i < blocks.len()
        invariant
            i <= blocks@.len(),
            out.deep_view() == before + sorted_blocks(blocks@.take(i as int)).results,
            parts.deep_view() == sorted_blocks(blocks@.take(i as int)).parts,
            calls.deep_view() == sorted_blocks(blocks@.take(i as int)).calls,
        decreases blocks.len() - i,
    {
        let ghost s = sorted_blocks(blocks@.take(i as int));
        let ghost so_far = out.deep_view();
        assert(blocks@.take(i + 1).drop_last() =~= blocks@.take(i as int));
        match &blocks[i] {
            ContentBlock::Text { text } => {
                parts.push(ContentPart::Text { text: text.clone() });
            },
            ContentBlock::Image { source } => {
                let media_type = match &source.media_type {
                    Some(media_type) => Some(media_type.as_str()),
                    None => None,
                };
                let data = match &source.data {
                    Some(data) => Some(data.as_str()),
                    None => None,
                };
                parts.push(
                    ContentPart::ImageUrl { image_url: ImageUrl { url: data_url(media_type, data) } },
                );
            },
            ContentBlock::ToolUse { id, name, input } => {
                calls.push(
                    ToolCall {
                        id: id.clone(),
                        call_type: "function".to_string(),
                        function: FunctionCall {
                            name: name.clone(),
                            arguments: text_or(input, "{}"),
                        },
                    },
                );
            },
            ContentBlock::ToolResult { tool_use_id, content } => {
                let message = ChatMessage {
                    role: "tool".to_string(),
                    content: Some(ChatContent::Text(read_result(content))),
                    tool_calls: None,
                    tool_call_id: Some(tool_use_id.clone()),
                };
                let ghost model = message.deep_view();
                out.push(message);
                assert(out.deep_view() =~= so_far.push(model));
                assert(sorted_blocks(blocks@.take(i + 1)).results == s.results.push(model));
            },
        }
        proof {
            let t = sorted_blocks(blocks@.take(i + 1));
            assert(parts.deep_view() =~= t.parts);
            assert(calls.deep_view() =~= t.calls);
            assert(out.deep_view() =~= before + t.results);
        }
        i += 1;
    }
    assert(blocks@.take(i as int) =~= blocks@);
    if parts.len() > 0 || calls.len() > 0 {
        let ghost so_far = out.deep_view();
        let content = if parts.len() > 0 {
            Some(ChatContent::Parts(parts))
        } else {
            None
        };
        let tool_calls = if calls.len() > 0 {
            Some(calls)
        } else {
            None
        };
        let message = ChatMessage {
            role: role.to_string(),
            content,
            tool_calls,
            tool_call_id: None,
        };
        let ghost model = message.deep_view();
        out.push(message);
        assert(out.deep_view() =~= so_far.push(model));
        assert(out.deep_view() =~= before + sorted_blocks(blocks@).results.push(model));
    }
}

/// Appends the messages that a message becomes.
fn push_message(out: &mut Vec<ChatMessage>, msg: &Message)
    ensures
        final(out).deep_view() == old(out).deep_view() + chat_messages(*msg),
{
    match &msg.content {
        MessageContent::Text(text) => {
            out.push(
                ChatMessage {
                    role: msg.role.clone(),
                    content: Some(ChatContent::Text(text.clone())),
                    tool_calls: None,
                    tool_call_id: None,
                },
            );
            assert(out.deep_view() =~= old(out).deep_view() + chat_messages(*msg));
        },
        MessageContent::Blocks(blocks) => push_blocks(out, msg.role.as_str(), blocks),
        MessageContent::Null => {
            assert(out.deep_view() =~= old(out).deep_view() + chat_messages(*msg));
        },
    }
}

// ---------------------------------------------------------------------------
// Tools
// ---------------------------------------------------------------------------

/// The tool that a declared tool becomes.
pub open spec fn chat_tool(tool: Tool) -> ChatToolModel {
    ChatToolModel {
        tool_type: "function"@,
        name: tool.name@,
        description: tool.description.deep_view(),
        parameters: tool.input_schema@,
    }
}

/// The tools that the declared tools become; none at all where none is
/// declared.
pub open spec fn chat_tools(tools: Option<Vec<Tool>>) -> Option<Seq<ChatToolModel>> {
    match tools {
        Some(tools) => unless_empty(tools@.map_values(|tool: Tool| chat_tool(tool))),
        None => None,
    }
}

/// The tools that the declared tools become.
fn build_chat_tools(tools: &Option<Vec<Tool>>) -> (r: Option<Vec<ChatTool>>)
    ensures
        r.deep_view() == chat_tools(*tools),
{
    let tools = match tools {
        Some(tools) => tools,
        None => return None,
    };
    if tools.len() == 0 {
        return None;
    }
    let mut out: Vec<ChatTool> = Vec::new();
    let mut i: usize = 0;
    while i < tools.len()
        invariant
            i <= tools@.len(),
            out.deep_view() == tools@.take(i as int).map_values(|tool: Tool| chat_tool(tool)),
        decreases tools.len() - i,
    {
        let ghost so_far = out.deep_view();
        let description = match &tools[i].description {
            Some(description) => Some(description.clone()),
            None => None,
        };
        out.push(
            ChatTool {
                tool_type: "function".to_string(),
                function: ChatFunction {
                    name: tools[i].name.clone(),
                    description,
                    parameters: tools[i].input_schema.clone(),
                },
            },
        );
        assert(out.deep_view() =~= so_far.push(chat_tool(tools@[i as int])));
        assert(out.deep_view() =~= tools@.take(i + 1).map_values(|tool: Tool| chat_tool(tool)));
        i += 1;
    }
    assert(tools@.take(i as int) =~= tools@);
    Some(out)
}

/// Which tools may be called: any for `any`, one for `tool`, and else as the
/// model likes.
pub open spec fn chat_choice(choice: Tree) -> Tree {
    if tree_str_at(choice, "type"@) == Some("any"@) {
        Tree::Text("required"@)
    } else {
        match tree_str_at(choice, "name"@) {
            Some(name) => if tree_str_at(choice, "type"@) == Some("tool"@) {
                Tree::Object(
                    typed("function"@).insert(
                        "function"@,
                        Tree::Object(object1("name"@, Tree::Text(name))),
                    ),
                )
            } else {
                Tree::Text("auto"@)
            },
            None => Tree::Text("auto"@),
        }
    }
}

/// Which tools may be called.
fn build_chat_choice(choice: &Json) -> (r: Json)
    ensures
        r@ == chat_choice(choice@),
{
    proof {
        reveal_strlit("any");
        reveal_strlit("tool");
        assert("any"@.len() != "tool"@.len());
    }
    let (any, one) = match choice.str_at("type") {
        Some(kind) => (same(kind, "any"), same(kind, "tool")),
        None => (false, false),
    };
    if any {
        return Json::text("required");
    }
    match choice.str_at("name") {
        Some(name) => {
            if one {
                let mut function: Vec<(String, Json)> = Vec::new();
                put(&mut function, "name", Json::text(name));
                let mut entries: Vec<(String, Json)> = Vec::new();
                put(&mut entries, "type", Json::text("function"));
                put(&mut entries, "function", Json::Object(function));
                Json::Object(entries)
            } else {
                Json::text("auto")
            }
        },
        None => Json::text("auto"),
    }
}

// ---------------------------------------------------------------------------
// The request
// ---------------------------------------------------------------------------

/// The limit of tokens within the limits of the settings.
pub open spec fn limited_tokens(tokens: u32, config: ProxyConfig) -> u32 {
    let capped = if tokens > config.max_tokens_limit {
        config.max_tokens_limit
    } else {
        tokens
    };
    if capped < config.min_tokens_limit {
        config.min_tokens_limit
    } else {
        capped
    }
}

/// The request that goes to the upstream.
pub open spec fn chat_request(req: MessagesRequest, config: ProxyConfig) -> ChatRequestModel {
    let system = system_text_of(req.system);
    let first = if system.len() == 0 {
        Seq::empty()
    } else {
        seq![text_message("system"@, system)]
    };
    let stream = req.stream == Some(true);
    ChatRequestModel {
        model: mapped_model(req.model@, config),
        messages: first + all_chat_messages(req.messages@),
        max_tokens: limited_tokens(req.max_tokens, config),
        stream,
        stop: req.stop_sequences.deep_view(),
        tools: chat_tools(req.tools),
        tool_choice: match req.tool_choice {
            Some(choice) => Some(chat_choice(choice@)),
            None => None,
        },
        stream_options: if stream {
            Some(StreamOptions { include_usage: true })
        } else {
            None
        },
        reasoning_effort: config.effort(tier_of(req.model@)),
    }
}

/// The same texts again.
fn copy_texts(list: &Vec<String>) -> (r: Vec<String>)
    ensures
        r.deep_view() == list.deep_view(),
{
    let mut out: Vec<String> = Vec::new();
    let mut i: usize = 0;
    while i < list.len()
        invariant
            i <= list@.len(),
            out.deep_view() == list.deep_view().take(i as int),
        decreases list.len() - i,
    {
        let ghost so_far = out.deep_view();
        out.push(list[i].clone());
        assert(out.deep_view() =~= so_far.push(list@[i as int]@));
        assert(out.deep_view() =~= list.deep_view().take(i + 1));
        i += 1;
    }
    assert(list.deep_view().take(i as int) =~= list.deep_view());
    out
}

/// Translates a request of the Messages API into one of the Chat Completions
/// API.
pub fn claude_to_openai(req: &MessagesRequest, config: &ProxyConfig) -> (r: ChatCompletionRequest)
    ensures
        r.deep_view() == chat_request(*req, *config),
{
    let mapped = map_model(req.model.as_str(), config);
    let mut messages: Vec<ChatMessage> = Vec::new();
    let system = read_system(&req.system);
    proof {
        reveal_strlit("");
        if system@.len() == 0 {
            assert(system@ =~= ""@);
        }
    }
    if !same(system.as_str(), "") {
        messages.push(
            ChatMessage {
                role: "system".to_string(),
                content: Some(ChatContent::Text(system)),
                tool_calls: None,
                tool_call_id: None,
            },
        );
    }
    let ghost first = messages.deep_view();
    let mut i: usize = 0;
    let all = &req.messages;
    assert(all@.take(0) =~= Seq::<Message>::empty());
    assert(messages.deep_view() =~= first + all_chat_messages(all@.take(0)));
    while i < all.len()
        invariant
            i <= all@.len(),
            messages.deep_view() == first + all_chat_messages(all@.take(i as int)),
        decreases all.len() - i,
    {
        assert(all@.take(i + 1).drop_last() =~= all@.take(i as int));
        push_message(&mut messages, &all[i]);
        assert(messages.deep_view() =~= first + all_chat_messages(all@.take(i + 1)));
        i += 1;
    }
    assert(all@.take(i as int) =~= all@);
    let capped: u32 = if req.max_tokens > config.max_tokens_limit {
        config.max_tokens_limit
    } else {
        req.max_tokens
    };
    let max_tokens: u32 = if capped < config.min_tokens_limit {
        config.min_tokens_limit
    } else {
        capped
    };
    let stream = match req.stream {
        Some(stream) => stream,
        None => false,
    };
    let request = ChatCompletionRequest {
        model: mapped.model,
        messages,
        max_tokens,
        stream,
        stop: match &req.stop_sequences {
            Some(stop) => Some(copy_texts(stop)),
            None => None,
        },
        tools: build_chat_tools(&req.tools),
        tool_choice: match &req.tool_choice {
            Some(choice) => Some(build_chat_choice(choice)),
            None => None,
        },
        stream_options: if stream {
            Some(StreamOptions { include_usage: true })
        } else {
            None
        },
        reasoning_effort: config.resolve_reasoning_effort(mapped.tier),
    };
    assert(request.messages.deep_view() =~= chat_request(*req, *config).messages);
    request
}

} // verus!
