//! A request on its way to the Responses API.

use vstd::prelude::*;

use crate::config::{ModelTier, ProxyConfig};
use crate::convert::responses::names::{
    build_short_name_map, names_of, short_name, short_name_fits, short_names, short_names_fit,
    shorten_name_if_needed, tool_names, TOOL_NAME_LIMIT,
};
use crate::json::{entry, json_text, put, text_or, tree_get, tree_str_at, without, Json, Tree};
use crate::model_map::{map_model, mapped_model, tier_of};
use crate::text::{has_prefix, same, starts_with, trim, trimmed, utf8_len};
use crate::types::claude::{
    ContentBlock, Message, MessageContent, MessagesRequest, SystemBlock, SystemContent, Tool,
    ToolResultContent,
};
use crate::types::responses::{
    ContentPart, ContentPartModel, FunctionCallItem, FunctionCallOutput, FunctionCallOutputItem,
    FunctionCallOutputModel, InputItem, InputItemModel, MessageItem, ReasoningConfig,
    ReasoningConfigModel, ResponsesRequest, ResponsesRequestModel, ResponsesTool,
    ResponsesToolModel,
};
use crate::util::tool_name::ToolNameMap;

verus! {

/// How a system text begins that carries billing data; it stays here.
pub const BILLING_HEADER_PREFIX: &'static str = "x-anthropic-billing-header: ";

/// What a response is asked to hold besides the usual: the reasoning in
/// encrypted form, so that it can be handed back with the next request.
pub const INCLUDE_REASONING: &'static str = "reasoning.encrypted_content";

/// The name of the web search tool.
pub const WEB_SEARCH: &'static str = "web_search_20250305";

// ---------------------------------------------------------------------------
// System text
// ---------------------------------------------------------------------------

/// The part that a system text becomes: none where it is blank or carries
/// billing data.
pub open spec fn system_text(s: Seq<char>) -> Seq<ContentPartModel> {
    let text = trimmed(s);
    if text.len() == 0 || has_prefix(text, BILLING_HEADER_PREFIX@) {
        Seq::empty()
    } else {
        seq![ContentPartModel::InputText { text }]
    }
}

/// The part that a block of the system field becomes.
pub open spec fn system_block(block: SystemBlock) -> Seq<ContentPartModel> {
    match block.text {
        Some(text) => if block.block_type@ == "text"@ {
            system_text(text@)
        } else {
            Seq::empty()
        },
        None => Seq::empty(),
    }
}

/// The parts that the blocks of the system field become.
pub open spec fn system_blocks(blocks: Seq<SystemBlock>) -> Seq<ContentPartModel>
    decreases blocks.len(),
{
    if blocks.len() == 0 {
        Seq::empty()
    } else {
        system_blocks(blocks.drop_last()) + system_block(blocks.last())
    }
}

/// The parts that the system field becomes.
pub open spec fn system_parts(system: SystemContent) -> Seq<ContentPartModel> {
    match system {
        SystemContent::Text(s) => system_text(s@),
        SystemContent::Blocks(blocks) => system_blocks(blocks@),
    }
}

/// Appends the part that a system text becomes.
fn push_system_text(out: &mut Vec<ContentPart>, s: &str)
    ensures
        final(out).deep_view() == old(out).deep_view() + system_text(s@),
{
    let text = trim(s);
    proof {
        reveal_strlit("");
        if text@.len() == 0 {
            assert(text@ =~= ""@);
        }
    }
    if !same(text.as_str(), "") && !starts_with(text.as_str(), BILLING_HEADER_PREFIX) {
        out.push(ContentPart::InputText { text });
    }
    assert(out.deep_view() =~= old(out).deep_view() + system_text(s@));
}

/// The parts that the system field becomes.
pub fn extract_system_parts(system: &SystemContent) -> (r: Vec<ContentPart>)
    ensures
        r.deep_view() == system_parts(*system),
{
    let mut out: Vec<ContentPart> = Vec::new();
    match system {
        SystemContent::Text(s) => {
            push_system_text(&mut out, s.as_str());
            assert(out.deep_view() =~= system_parts(*system));
        },
        SystemContent::Blocks(blocks) => {
            let mut i: usize = 0;
            assert(blocks@.take(0) =~= Seq::<SystemBlock>::empty());
            assert(out.deep_view() =~= system_blocks(blocks@.take(0)));
            while i < blocks.len()
                invariant
                    i <= blocks@.len(),
                    out.deep_view() == system_blocks(blocks@.take(i as int)),
                decreases blocks.len() - i,
            {
                assert(blocks@.take(i + 1).drop_last() =~= blocks@.take(i as int));
                match &blocks[i].text {
                    Some(text) => {
                        if same(blocks[i].block_type.as_str(), "text") {
                            push_system_text(&mut out, text.as_str());
                        }
                    },
                    None => {},
                }
                assert(out.deep_view() =~= system_blocks(blocks@.take(i + 1)));
                i += 1;
            }
            assert(blocks@.take(i as int) =~= blocks@);
        },
    }
    out
}

// ---------------------------------------------------------------------------
// Messages
// ---------------------------------------------------------------------------

/// A text as a part: the assistant's is output, every other is input.
pub open spec fn text_part_of(text: Seq<char>, role: Seq<char>) -> ContentPartModel {
    if role == "assistant"@ {
        ContentPartModel::OutputText { text }
    } else {
        ContentPartModel::InputText { text }
    }
}

/// A text as a part.
pub fn text_part(text: &str, role: &str) -> (r: ContentPart)
    ensures
        r.deep_view() == text_part_of(text@, role@),
{
    if same(role, "assistant") {
        ContentPart::OutputText { text: text.to_string() }
    } else {
        ContentPart::InputText { text: text.to_string() }
    }
}

/// What an image has for a media type where it names none.
pub const DEFAULT_MEDIA_TYPE: &'static str = "application/octet-stream";

/// An image in base64 as a data URL.
pub open spec fn data_url_of(media_type: Option<Seq<char>>, data: Option<Seq<char>>) -> Seq<char> {
    let media_type = match media_type {
        Some(media_type) => media_type,
        None => DEFAULT_MEDIA_TYPE@,
    };
    let data = match data {
        Some(data) => data,
        None => ""@,
    };
    "data:"@ + media_type + ";base64,"@ + data
}

/// An image in base64 as a data URL.
pub fn data_url(media_type: Option<&str>, data: Option<&str>) -> (r: String)
    ensures
        r@ == data_url_of(
            match media_type {
                Some(s) => Some(s@),
                None => None,
            },
            match data {
                Some(s) => Some(s@),
                None => None,
            },
        ),
{
    let mut out = "data:".to_string();
    match media_type {
        Some(media_type) => out.push_str(media_type),
        None => out.push_str(DEFAULT_MEDIA_TYPE),
    }
    out.push_str(";base64,");
    match data {
        Some(data) => out.push_str(data),
        None => out.push_str(""),
    }
    out
}

/// The part that an item of a tool result becomes: a text or an image, and
/// none for anything else.
pub open spec fn result_item(item: Tree) -> Seq<ContentPartModel> {
    if tree_str_at(item, "type"@) == Some("text"@) {
        let text = match tree_str_at(item, "text"@) {
            Some(text) => text,
            None => ""@,
        };
        seq![ContentPartModel::InputText { text }]
    } else if tree_str_at(item, "type"@) == Some("image"@) {
        match tree_get(item, "source"@) {
            Some(source) => seq![
                ContentPartModel::InputImage {
                    image_url: data_url_of(
                        tree_str_at(source, "media_type"@),
                        tree_str_at(source, "data"@),
                    ),
                },
            ],
            None => Seq::empty(),
        }
    } else {
        Seq::empty()
    }
}

/// The parts that the items of a tool result become.
pub open spec fn result_items(items: Seq<Json>) -> Seq<ContentPartModel>
    decreases items.len(),
{
    if items.len() == 0 {
        Seq::empty()
    } else {
        result_items(items.drop_last()) + result_item(items.last()@)
    }
}

/// The text of a tool result that is a single JSON value: its `text`, or else
/// its JSON text.
pub open spec fn result_text(value: Tree) -> Seq<char> {
    match tree_str_at(value, "text"@) {
        Some(text) => text,
        None => json_text(value, ""@),
    }
}

/// The parts that a tool result becomes.
pub open spec fn result_parts(content: Option<ToolResultContent>) -> Seq<ContentPartModel> {
    match content {
        None => Seq::empty(),
        Some(ToolResultContent::Text(s)) => seq![ContentPartModel::InputText { text: s@ }],
        Some(ToolResultContent::Blocks(items)) => result_items(items@),
        Some(ToolResultContent::Object(value)) => seq![
            ContentPartModel::InputText { text: result_text(value@) },
        ],
    }
}

/// Appends the part that an item of a tool result becomes.
fn push_result_item(out: &mut Vec<ContentPart>, item: &Json)
    ensures
        final(out).deep_view() == old(out).deep_view() + result_item(item@),
{
    let kind = match item.str_at("type") {
        Some(kind) => kind,
        None => "",
    };
    proof {
        reveal_strlit("");
        reveal_strlit("text");
        reveal_strlit("image");
        assert(""@.len() != "text"@.len());
        assert(""@.len() != "image"@.len());
        assert("text"@.len() != "image"@.len());
    }
    if same(kind, "text") {
        let text = match item.str_at("text") {
            Some(text) => text.to_string(),
            None => "".to_string(),
        };
        out.push(ContentPart::InputText { text });
    } else if same(kind, "image") {
        match item.get("source") {
            Some(source) => {
                let url = data_url(source.str_at("media_type"), source.str_at("data"));
                out.push(ContentPart::InputImage { image_url: url });
            },
            None => {},
        }
    }
    assert(out.deep_view() =~= old(out).deep_view() + result_item(item@));
}

/// The parts that a tool result becomes.
pub fn tool_result_to_parts(content: &Option<ToolResultContent>) -> (r: Vec<ContentPart>)
    ensures
        r.deep_view() == result_parts(*content),
{
    let mut out: Vec<ContentPart> = Vec::new();
    match content {
        None => {},
        Some(ToolResultContent::Text(s)) => {
            out.push(ContentPart::InputText { text: s.clone() });
        },
        Some(ToolResultContent::Blocks(items)) => {
            let mut i: usize = 0;
            assert(items@.take(0) =~= Seq::<Json>::empty());
            assert(out.deep_view() =~= result_items(items@.take(0)));
            while i < items.len()
                invariant
                    i <= items@.len(),
                    out.deep_view() == result_items(items@.take(i as int)),
                decreases items.len() - i,
            {
                assert(items@.take(i + 1).drop_last() =~= items@.take(i as int));
                push_result_item(&mut out, &items[i]);
                i += 1;
            }
            assert(items@.take(i as int) =~= items@);
        },
        Some(ToolResultContent::Object(value)) => {
            let text = match value.str_at("text") {
                Some(text) => text.to_string(),
                None => text_or(value, ""),
            };
            out.push(ContentPart::InputText { text });
        },
    }
    assert(out.deep_view() =~= result_parts(*content));
    out
}

/// The name under which a tool goes out.
pub open spec fn outgoing_name(shorts: Map<Seq<char>, Seq<char>>, name: Seq<char>) -> Seq<char> {
    if shorts.contains_key(name) {
        shorts[name]
    } else {
        short_name(name)
    }
}

/// The name under which a tool goes out.
fn name_of(shorts: &ToolNameMap, name: &str) -> (r: String)
    ensures
        r@ == outgoing_name(shorts@, name@),
{
    match shorts.get(name) {
        Some(short) => short.clone(),
        None => shorten_name_if_needed(name),
    }
}

/// What has become of the first blocks of a message: the items that are done,
/// and the parts of the message that is still growing.
pub struct Progress {
    pub items: Seq<InputItemModel>,
    pub pending: Seq<ContentPartModel>,
}

/// The growing message, if it has any part, is done.
pub open spec fn flushed(p: Progress, role: Seq<char>) -> Progress {
    if p.pending.len() > 0 {
        Progress {
            items: p.items.push(InputItemModel::Message { role, content: p.pending }),
            pending: Seq::empty(),
        }
    } else {
        p
    }
}

/// What a block does. Texts and images join the growing message; a tool call
/// and a tool result end it and become items of their own.
pub open spec fn after_block(
    p: Progress,
    block: ContentBlock,
    role: Seq<char>,
    shorts: Map<Seq<char>, Seq<char>>,
) -> Progress {
    match block {
        ContentBlock::Text { text } => Progress {
            items: p.items,
            pending: p.pending.push(text_part_of(text@, role)),
        },
        ContentBlock::Image { source } => Progress {
            items: p.items,
            pending: p.pending.push(
                ContentPartModel::InputImage {
                    image_url: data_url_of(
                        source.media_type.deep_view(),
                        source.data.deep_view(),
                    ),
                },
            ),
        },
        ContentBlock::ToolUse { id, name, input } => Progress {
            items: flushed(p, role).items.push(
                InputItemModel::FunctionCall {
                    call_id: id@,
                    name: outgoing_name(shorts, name@),
                    arguments: json_text(input@, "{}"@),
                },
            ),
            pending: Seq::empty(),
        },
        ContentBlock::ToolResult { tool_use_id, content } => Progress {
            items: flushed(p, role).items.push(
                InputItemModel::FunctionCallOutput {
                    call_id: tool_use_id@,
                    output: FunctionCallOutputModel::Parts(result_parts(content)),
                },
            ),
            pending: Seq::empty(),
        },
    }
}

/// What has become of `blocks`.
pub open spec fn after_blocks(
    blocks: Seq<ContentBlock>,
    role: Seq<char>,
    shorts: Map<Seq<char>, Seq<char>>,
) -> Progress
    decreases blocks.len(),
{
    if blocks.len() == 0 {
        Progress { items: Seq::empty(), pending: Seq::empty() }
    } else {
        after_block(after_blocks(blocks.drop_last(), role, shorts), blocks.last(), role, shorts)
    }
}

/// The items that a message becomes.
pub open spec fn message_items(
    msg: Message,
    shorts: Map<Seq<char>, Seq<char>>,
) -> Seq<InputItemModel> {
    match msg.content {
        MessageContent::Text(s) => seq![
            InputItemModel::Message {
                role: msg.role@,
                content: seq![text_part_of(s@, msg.role@)],
            },
        ],
        MessageContent::Null => Seq::empty(),
        MessageContent::Blocks(blocks) => flushed(
            after_blocks(blocks@, msg.role@, shorts),
            msg.role@,
        ).items,
    }
}

/// The items that `messages` become.
pub open spec fn messages_items(
    messages: Seq<Message>,
    shorts: Map<Seq<char>, Seq<char>>,
) -> Seq<InputItemModel>
    decreases messages.len(),
{
    if messages.len() == 0 {
        Seq::empty()
    } else {
        messages_items(messages.drop_last(), shorts) + message_items(messages.last(), shorts)
    }
}

/// Ends the growing message, if it has any part.
fn flush(out: &mut Vec<InputItem>, pending: Vec<ContentPart>, role: &str)
    ensures
        final(out).deep_view() == flushed(
            Progress { items: old(out).deep_view(), pending: pending.deep_view() },
            role@,
        ).items,
{
    if pending.len() > 0 {
        out.push(InputItem::Message(MessageItem { role: role.to_string(), content: pending }));
    }
    assert(out.deep_view() =~= flushed(
        Progress { items: old(out).deep_view(), pending: pending.deep_view() },
        role@,
    ).items);
}

/// Appends the items that the blocks of a message become.
fn process_blocks(
    blocks: &Vec<ContentBlock>,
    role: &str,
    shorts: &ToolNameMap,
    out: &mut Vec<InputItem>,
)
    ensures
        final(out).deep_view() == old(out).deep_view() + flushed(
            after_blocks(blocks@, role@, shorts@),
            role@,
        ).items,
{
    let mut items: Vec<InputItem> = Vec::new();
    let mut pending: Vec<ContentPart> = Vec::new();
    let mut i: usize = 0;
    proof {
        assert(blocks@.take(0) =~= Seq::<ContentBlock>::empty());
        assert(items.deep_view() =~= Seq::<InputItemModel>::empty());
        assert(pending.deep_view() =~= Seq::<ContentPartModel>::empty());
    }
    while i < blocks.len()
        invariant
            i <= blocks@.len(),
            (Progress { items: items.deep_view(), pending: pending.deep_view() }) == after_blocks(
                blocks@.take(i as int),
                role@,
                shorts@,
            ),
        decreases blocks.len() - i,
    {
        let ghost before = Progress { items: items.deep_view(), pending: pending.deep_view() };
        assert(blocks@.take(i + 1).drop_last() =~= blocks@.take(i as int));
        match &blocks[i] {
            ContentBlock::Text { text } => {
                pending.push(text_part(text.as_str(), role));
            },
            ContentBlock::Image { source } => {
                let media_type = match &source.media_type {
                    Some(media_type) => Some(media_type.as_str()),
                    None => None,
                };
                let data = match &source.data {
                    Some(data) => Some(data.as_str()),
                    None => None,
                };
                pending.push(ContentPart::InputImage { image_url: data_url(media_type, data) });
            },
            ContentBlock::ToolUse { id, name, input } => {
                flush(&mut items, pending, role);
                pending = Vec::new();
                items.push(
                    InputItem::FunctionCall(
                        FunctionCallItem {
                            call_id: id.clone(),
                            name: name_of(shorts, name.as_str()),
                            arguments: text_or(input, "{}"),
                        },
                    ),
                );
            },
            ContentBlock::ToolResult { tool_use_id, content } => {
                flush(&mut items, pending, role);
                pending = Vec::new();
                items.push(
                    InputItem::FunctionCallOutput(
                        FunctionCallOutputItem {
                            call_id: tool_use_id.clone(),
                            output: FunctionCallOutput::Parts(tool_result_to_parts(content)),
                        },
                    ),
                );
            },
        }
        proof {
            let after = after_block(before, blocks@[i as int], role@, shorts@);
            assert(items.deep_view() =~= after.items);
            assert(pending.deep_view() =~= after.pending);
        }
        i += 1;
    }
    assert(blocks@.take(i as int) =~= blocks@);
    flush(&mut items, pending, role);
    let ghost done = items.deep_view();
    out.append(&mut items);
    assert(out.deep_view() =~= old(out).deep_view() + done);
}

/// Appends the items that a message becomes.
pub fn process_message(msg: &Message, shorts: &ToolNameMap, out: &mut Vec<InputItem>)
    ensures
        final(out).deep_view() == old(out).deep_view() + message_items(*msg, shorts@),
{
    let role = msg.role.as_str();
    match &msg.content {
        MessageContent::Text(s) => {
            let mut content: Vec<ContentPart> = Vec::new();
            content.push(text_part(s.as_str(), role));
            assert(content.deep_view() =~= seq![text_part_of(s@, role@)]);
            out.push(InputItem::Message(MessageItem { role: role.to_string(), content }));
            assert(out.deep_view() =~= old(out).deep_view() + message_items(*msg, shorts@));
        },
        MessageContent::Blocks(blocks) => process_blocks(blocks, role, shorts, out),
        MessageContent::Null => {
            assert(out.deep_view() =~= old(out).deep_view() + message_items(*msg, shorts@));
        },
    }
}

// ---------------------------------------------------------------------------
// Tools
// ---------------------------------------------------------------------------

/// The schema of a tool that has none: an object without properties.
pub open spec fn empty_schema() -> Tree {
    Tree::Object(
        Map::<Seq<char>, Tree>::empty().insert("type"@, Tree::Text("object"@)).insert(
            "properties"@,
            Tree::Object(Map::empty()),
        ),
    )
}

/// The members of a schema that the upstream takes.
pub open spec fn accepted_members(m: Map<Seq<char>, Tree>) -> Map<Seq<char>, Tree> {
    m.remove("$schema"@).remove("cache_control"@).remove("defer_loading"@)
}

/// A schema as the upstream takes it: without the members that it rejects,
/// with a type, and with properties if the type is `object`.
pub open spec fn normalized(schema: Tree) -> Tree {
    match schema {
        Tree::Object(m) => {
            let m = accepted_members(m);
            let m = if m.contains_key("type"@) {
                m
            } else {
                m.insert("type"@, Tree::Text("object"@))
            };
            if m["type"@] == Tree::Text("object"@) && !m.contains_key("properties"@) {
                Tree::Object(m.insert("properties"@, Tree::Object(Map::empty())))
            } else {
                Tree::Object(m)
            }
        },
        _ => empty_schema(),
    }
}

/// Brings the schema of a tool into the form that the upstream takes.
pub fn normalize_tool_parameters(schema: &Json) -> (r: Json)
    ensures
        r@ == normalized(schema@),
{
    let mut members: Vec<(String, Json)> = match schema.clone() {
        Json::Object(members) => members,
        _ => {
            let mut members: Vec<(String, Json)> = Vec::new();
            put(&mut members, "type", Json::text("object"));
            put(&mut members, "properties", Json::Object(Vec::new()));
            return Json::Object(members);
        },
    };
    members = without(members, "$schema");
    members = without(members, "cache_control");
    members = without(members, "defer_loading");
    if entry(&members, "type").is_none() {
        put(&mut members, "type", Json::text("object"));
    }
    let is_object = match entry(&members, "type") {
        Some(kind) => match kind.as_str() {
            Some(kind) => same(kind, "object"),
            None => false,
        },
        None => false,
    };
    if is_object && entry(&members, "properties").is_none() {
        put(&mut members, "properties", Json::Object(Vec::new()));
    }
    Json::Object(members)
}

/// The tool that a declared tool becomes: the web search becomes the
/// upstream's own, every other a function.
pub open spec fn outgoing_tool(
    tool: Tool,
    shorts: Map<Seq<char>, Seq<char>>,
) -> ResponsesToolModel {
    if tool.name@ == WEB_SEARCH@ || tree_str_at(tool.input_schema@, "type"@) == Some(
        WEB_SEARCH@,
    ) {
        ResponsesToolModel {
            tool_type: "web_search"@,
            name: None,
            description: None,
            parameters: None,
            strict: None,
        }
    } else {
        ResponsesToolModel {
            tool_type: "function"@,
            name: Some(outgoing_name(shorts, tool.name@)),
            description: tool.description.deep_view(),
            parameters: Some(normalized(tool.input_schema@)),
            strict: Some(false),
        }
    }
}

/// The tool that a declared tool becomes.
fn convert_tool(tool: &Tool, shorts: &ToolNameMap) -> (r: ResponsesTool)
    ensures
        r.deep_view() == outgoing_tool(*tool, shorts@),
{
    let web_search = same(tool.name.as_str(), WEB_SEARCH) || match tool.input_schema.str_at("type") {
        Some(kind) => same(kind, WEB_SEARCH),
        None => false,
    };
    if web_search {
        return ResponsesTool {
            tool_type: "web_search".to_string(),
            name: None,
            description: None,
            parameters: None,
            strict: None,
        };
    }
    let description = match &tool.description {
        Some(description) => Some(description.clone()),
        None => None,
    };
    ResponsesTool {
        tool_type: "function".to_string(),
        name: Some(name_of(shorts, tool.name.as_str())),
        description,
        parameters: Some(normalize_tool_parameters(&tool.input_schema)),
        strict: Some(false),
    }
}

/// The tools that the declared tools become; none at all where none is
/// declared.
pub open spec fn outgoing_tools(
    tools: Option<Vec<Tool>>,
    shorts: Map<Seq<char>, Seq<char>>,
) -> Option<Seq<ResponsesToolModel>> {
    match tools {
        Some(tools) => if tools@.len() > 0 {
            Some(tools@.map_values(|tool: Tool| outgoing_tool(tool, shorts)))
        } else {
            None
        },
        None => None,
    }
}

/// The tools that the declared tools become.
pub fn build_tools(tools: &Option<Vec<Tool>>, shorts: &ToolNameMap) -> (r: Option<
    Vec<ResponsesTool>,
>)
    ensures
        r.deep_view() == outgoing_tools(*tools, shorts@),
{
    let tools = match tools {
        Some(tools) => tools,
        None => return None,
    };
    if tools.len() == 0 {
        return None;
    }
    let mut out: Vec<ResponsesTool> = Vec::new();
    let mut i: usize = 0;
    while i < tools.len()
        invariant
            i <= tools@.len(),
            out.deep_view() == tools@.take(i as int).map_values(
                |tool: Tool| outgoing_tool(tool, shorts@),
            ),
        decreases tools.len() - i,
    {
        let ghost before = out.deep_view();
        out.push(convert_tool(&tools[i], shorts));
        assert(out.deep_view() =~= before.push(outgoing_tool(tools@[i as int], shorts@)));
        assert(out.deep_view() =~= tools@.take(i + 1).map_values(
            |tool: Tool| outgoing_tool(tool, shorts@),
        ));
        i += 1;
    }
    assert(tools@.take(i as int) =~= tools@);
    Some(out)
}

// ---------------------------------------------------------------------------
// The rest of the request
// ---------------------------------------------------------------------------

/// The reasoning effort of a request. Where thinking is switched on, it is the
/// configured one or else `medium`; where it is switched off, `none`; where
/// nothing is said of it, the configured one or else `none`.
pub open spec fn outgoing_effort(
    req: MessagesRequest,
    config: ProxyConfig,
    tier: Option<ModelTier>,
) -> Seq<char> {
    match req.thinking {
        Some(thinking) => if !thinking.enabled {
            "none"@
        } else {
            match config.effort(tier) {
                Some(effort) => effort,
                None => "medium"@,
            }
        },
        None => match config.effort(tier) {
            Some(effort) => effort,
            None => "none"@,
        },
    }
}

/// The reasoning that a request asks for.
pub fn build_reasoning(
    req: &MessagesRequest,
    config: &ProxyConfig,
    tier: Option<ModelTier>,
) -> (r: Option<ReasoningConfig>)
    ensures
        r.deep_view() == Some(
            ReasoningConfigModel {
                effort: outgoing_effort(*req, *config, tier),
                summary: "auto"@,
            },
        ),
{
    let (configured, otherwise) = match &req.thinking {
        Some(thinking) => if thinking.enabled {
            (config.resolve_reasoning_effort(tier), "medium")
        } else {
            (None, "none")
        },
        None => (config.resolve_reasoning_effort(tier), "none"),
    };
    let effort = match configured {
        Some(effort) => effort,
        None => otherwise.to_string(),
    };
    Some(ReasoningConfig { effort, summary: "auto".to_string() })
}

/// The client has forbidden parallel tool calls.
pub open spec fn forbids_parallel_calls(tool_choice: Option<Json>) -> bool {
    match tool_choice {
        Some(choice) => tree_get(choice@, "disable_parallel_tool_use"@) == Some(Tree::Bool(true)),
        None => false,
    }
}

/// Tells whether the client has forbidden parallel tool calls.
pub fn is_parallel_tool_calls_disabled(tool_choice: &Option<Json>) -> (r: bool)
    ensures
        r == forbids_parallel_calls(*tool_choice),
{
    match tool_choice {
        Some(choice) => match choice.get("disable_parallel_tool_use") {
            Some(flag) => match flag.as_bool() {
                Some(flag) => flag,
                None => false,
            },
            None => false,
        },
        None => false,
    }
}

/// The names under which the tools of a request go out.
pub open spec fn request_short_names(req: MessagesRequest) -> Map<Seq<char>, Seq<char>> {
    match req.tools {
        Some(tools) => short_names(tool_names(tools@)),
        None => Map::empty(),
    }
}

/// The system text as a message of the developer, where there is any.
pub open spec fn system_items(system: Option<SystemContent>) -> Seq<InputItemModel> {
    match system {
        Some(system) => if system_parts(system).len() > 0 {
            seq![
                InputItemModel::Message { role: "developer"@, content: system_parts(system) },
            ]
        } else {
            Seq::empty()
        },
        None => Seq::empty(),
    }
}

/// The request that goes to the upstream.
pub open spec fn translated_request(
    req: MessagesRequest,
    config: ProxyConfig,
) -> ResponsesRequestModel {
    let shorts = request_short_names(req);
    ResponsesRequestModel {
        model: mapped_model(req.model@, config),
        instructions: None,
        input: system_items(req.system) + messages_items(req.messages@, shorts),
        tools: outgoing_tools(req.tools, shorts),
        reasoning: Some(
            ReasoningConfigModel {
                effort: outgoing_effort(req, config, tier_of(req.model@)),
                summary: "auto"@,
            },
        ),
        parallel_tool_calls: !forbids_parallel_calls(req.tool_choice),
        store: false,
        included: seq![INCLUDE_REASONING@],
        stream: true,
        max_output_tokens: Some(req.max_tokens),
    }
}

/// Translates a request of the Messages API into one of the Responses API.
pub fn claude_to_responses(req: &MessagesRequest, config: &ProxyConfig) -> (r: ResponsesRequest)
    ensures
        r.deep_view() == translated_request(*req, *config),
{
    let mapped = map_model(req.model.as_str(), config);
    let shorts = match &req.tools {
        Some(tools) => build_short_name_map(&names_of(tools)),
        None => ToolNameMap::new(),
    };
    let mut input: Vec<InputItem> = Vec::new();
    match &req.system {
        Some(system) => {
            let content = extract_system_parts(system);
            if content.len() > 0 {
                input.push(
                    InputItem::Message(MessageItem { role: "developer".to_string(), content }),
                );
            }
        },
        None => {},
    }
    assert(input.deep_view() =~= system_items(req.system));
    let messages = &req.messages;
    let mut i: usize = 0;
    assert(messages@.take(0) =~= Seq::<Message>::empty());
    assert(input.deep_view() =~= system_items(req.system) + messages_items(
        messages@.take(0),
        shorts@,
    ));
    while i < messages.len()
        invariant
            i <= messages@.len(),
            input.deep_view() == system_items(req.system) + messages_items(
                messages@.take(i as int),
                shorts@,
            ),
        decreases messages.len() - i,
    {
        assert(messages@.take(i + 1).drop_last() =~= messages@.take(i as int));
        process_message(&messages[i], &shorts, &mut input);
        assert(input.deep_view() =~= system_items(req.system) + messages_items(
            messages@.take(i + 1),
            shorts@,
        ));
        i += 1;
    }
    assert(messages@.take(i as int) =~= messages@);
    let mut included: Vec<String> = Vec::new();
    included.push(INCLUDE_REASONING.to_string());
    assert(included.deep_view() =~= seq![INCLUDE_REASONING@]);
    ResponsesRequest {
        model: mapped.model,
        instructions: None,
        input,
        tools: build_tools(&req.tools, &shorts),
        reasoning: build_reasoning(req, config, mapped.tier),
        parallel_tool_calls: !is_parallel_tool_calls_disabled(&req.tool_choice),
        store: false,
        included,
        stream: true,
        max_output_tokens: Some(req.max_tokens),
    }
}

// ---------------------------------------------------------------------------
// Laws
// ---------------------------------------------------------------------------

/// A normalized schema is an object with a type, without the members that the
/// upstream rejects, and with properties if its type is `object`.
pub proof fn normalized_schema_is_accepted(schema: Tree)
    ensures
        normalized(schema) matches Tree::Object(m) && {
            &&& m.contains_key("type"@)
            &&& m["type"@] == Tree::Text("object"@) ==> m.contains_key("properties"@)
            &&& !m.contains_key("$schema"@)
            &&& !m.contains_key("cache_control"@)
            &&& !m.contains_key("defer_loading"@)
        },
{
    names_of_members_differ();
}

proof fn names_of_members_differ()
    ensures
        "type"@ != "properties"@,
        "type"@ != "$schema"@,
        "type"@ != "cache_control"@,
        "type"@ != "defer_loading"@,
        "properties"@ != "$schema"@,
        "properties"@ != "cache_control"@,
        "properties"@ != "defer_loading"@,
{
    reveal_strlit("type");
    reveal_strlit("properties");
    reveal_strlit("$schema");
    reveal_strlit("cache_control");
    reveal_strlit("defer_loading");
    assert("type"@.len() == 4);
    assert("properties"@.len() == 10);
    assert("$schema"@.len() == 7);
    assert("cache_control"@.len() == 13);
    assert("defer_loading"@.len() == 13);
}

/// Normalizing a normalized schema changes nothing.
pub proof fn normalizing_twice_is_normalizing_once(schema: Tree)
    ensures
        normalized(normalized(schema)) == normalized(schema),
{
    names_of_members_differ();
    normalized_schema_is_accepted(schema);
    if let Tree::Object(m) = normalized(schema) {
        assert(accepted_members(m) =~= m);
    }
}

/// Every member of a schema that the upstream takes is kept.
pub proof fn normalizing_keeps_members(m: Map<Seq<char>, Tree>, key: Seq<char>)
    requires
        m.contains_key(key),
        key != "$schema"@,
        key != "cache_control"@,
        key != "defer_loading"@,
    ensures
        tree_get(normalized(Tree::Object(m)), key) == Some(m[key]),
{
}

/// The name under which any tool goes out fits into the limit of the upstream.
pub proof fn outgoing_names_fit(req: MessagesRequest, name: Seq<char>)
    ensures
        utf8_len(outgoing_name(request_short_names(req), name)) <= TOOL_NAME_LIMIT,
{
    short_name_fits(name);
    if let Some(tools) = req.tools {
        if request_short_names(req).contains_key(name) {
            assert(tools.len() == tools@.len());
            short_names_fit(tool_names(tools@), name);
        }
    }
}

/// A message that grows out of blocks never goes out empty.
pub proof fn no_message_is_empty(msg: Message, shorts: Map<Seq<char>, Seq<char>>, i: int)
    requires
        0 <= i < message_items(msg, shorts).len(),
    ensures
        message_items(msg, shorts)[i] matches InputItemModel::Message { role, content }
            ==> role == msg.role@ && content.len() > 0,
{
    if let MessageContent::Blocks(blocks) = msg.content {
        no_item_is_an_empty_message(blocks@, msg.role@, shorts);
    }
}

proof fn no_item_is_an_empty_message(
    blocks: Seq<ContentBlock>,
    role: Seq<char>,
    shorts: Map<Seq<char>, Seq<char>>,
)
    ensures
        forall|i: int|
            0 <= i < after_blocks(blocks, role, shorts).items.len() ==> {
                (#[trigger] after_blocks(blocks, role, shorts).items[i]) matches
                    InputItemModel::Message { role: r, content } ==> r == role && content.len() > 0
            },
    decreases blocks.len(),
{
    if blocks.len() > 0 {
        no_item_is_an_empty_message(blocks.drop_last(), role, shorts);
    }
}

/// A tool call or a tool result.
pub open spec fn is_tool_block(block: ContentBlock) -> bool {
    block is ToolUse || block is ToolResult
}

/// An item that is a tool call or what one gave back.
pub open spec fn is_tool_item(item: InputItemModel) -> bool {
    !(item is Message)
}

/// The item that a tool block becomes.
pub open spec fn tool_item(
    block: ContentBlock,
    shorts: Map<Seq<char>, Seq<char>>,
) -> InputItemModel {
    after_block(
        Progress { items: Seq::empty(), pending: Seq::empty() },
        block,
        Seq::empty(),
        shorts,
    ).items[0]
}

/// The tool items of a message are those of its tool blocks: none is lost,
/// none is added, and they keep their order.
pub proof fn tool_blocks_become_tool_items(
    blocks: Seq<ContentBlock>,
    role: Seq<char>,
    shorts: Map<Seq<char>, Seq<char>>,
)
    ensures
        flushed(after_blocks(blocks, role, shorts), role).items.filter(
            |item: InputItemModel| is_tool_item(item),
        ) == blocks.filter(|block: ContentBlock| is_tool_block(block)).map_values(
            |block: ContentBlock| tool_item(block, shorts),
        ),
{
    let p = after_blocks(blocks, role, shorts);
    tool_items_so_far(blocks, role, shorts);
    flushing_adds_no_tool_item(p, role);
}

proof fn flushing_adds_no_tool_item(p: Progress, role: Seq<char>)
    ensures
        flushed(p, role).items.filter(|item: InputItemModel| is_tool_item(item))
            == p.items.filter(|item: InputItemModel| is_tool_item(item)),
{
    reveal(Seq::filter);
    assert(flushed(p, role).items.len() > p.items.len() ==> flushed(p, role).items.drop_last()
        =~= p.items);
}

proof fn tool_items_so_far(
    blocks: Seq<ContentBlock>,
    role: Seq<char>,
    shorts: Map<Seq<char>, Seq<char>>,
)
    ensures
        after_blocks(blocks, role, shorts).items.filter(|item: InputItemModel| is_tool_item(item))
            == blocks.filter(|block: ContentBlock| is_tool_block(block)).map_values(
            |block: ContentBlock| tool_item(block, shorts),
        ),
    decreases blocks.len(),
{
    reveal(Seq::filter);
    let is_item = |item: InputItemModel| is_tool_item(item);
    let is_block = |block: ContentBlock| is_tool_block(block);
    let to_item = |block: ContentBlock| tool_item(block, shorts);
    if blocks.len() == 0 {
        assert(blocks.filter(is_block).map_values(to_item) =~= Seq::<InputItemModel>::empty());
        assert(after_blocks(blocks, role, shorts).items.filter(is_item) =~= Seq::<
            InputItemModel,
        >::empty());
    } else {
        let before = after_blocks(blocks.drop_last(), role, shorts);
        let after = after_blocks(blocks, role, shorts);
        let block = blocks.last();
        tool_items_so_far(blocks.drop_last(), role, shorts);
        if is_tool_block(block) {
            flushing_adds_no_tool_item(before, role);
            assert(after.items.drop_last() =~= flushed(before, role).items);
            assert(after.items.last() == tool_item(block, shorts));
            assert(after.items.filter(is_item) =~= before.items.filter(is_item).push(
                tool_item(block, shorts),
            ));
            assert(blocks.filter(is_block) =~= blocks.drop_last().filter(is_block).push(block));
            assert(blocks.filter(is_block).map_values(to_item) =~= blocks.drop_last().filter(
                is_block,
            ).map_values(to_item).push(tool_item(block, shorts)));
        } else {
            assert(after.items =~= before.items);
            assert(blocks.filter(is_block) =~= blocks.drop_last().filter(is_block));
        }
    }
}

} // verus!
