//! The Chat Completions API.

use vstd::prelude::*;

use crate::json::{
    array_tree, array_tree_items, tree_get, tree_str, tree_str_at, Json, Tree,
};
use crate::text::same;

verus! {

// ===== Requests =====

/// A request for a completion, without its sampling parameters.
#[derive(Debug)]
pub struct ChatCompletionRequest {
    pub model: String,
    pub messages: Vec<ChatMessage>,
    pub max_tokens: u32,
    pub stream: bool,
    pub stop: Option<Vec<String>>,
    pub tools: Option<Vec<ChatTool>>,
    pub tool_choice: Option<Json>,
    pub stream_options: Option<StreamOptions>,
    /// Reasoning effort for thinking models (none/low/medium/high/xhigh)
    pub reasoning_effort: Option<String>,
}

#[derive(Debug, Clone, Copy, PartialEq, Eq)]
pub struct StreamOptions {
    pub include_usage: bool,
}

#[derive(Debug)]
pub struct ChatMessage {
    pub role: String,
    pub content: Option<ChatContent>,
    pub tool_calls: Option<Vec<ToolCall>>,
    pub tool_call_id: Option<String>,
}

#[derive(Debug)]
pub enum ChatContent {
    Text(String),
    Parts(Vec<ContentPart>),
}

#[derive(Debug)]
pub enum ContentPart {
    Text { text: String },
    ImageUrl { image_url: ImageUrl },
}

#[derive(Debug)]
pub struct ImageUrl {
    pub url: String,
}

#[derive(Debug)]
pub struct ToolCall {
    pub id: String,
    pub call_type: String,
    pub function: FunctionCall,
}

#[derive(Debug)]
pub struct FunctionCall {
    pub name: String,
    pub arguments: String,
}

/// The model of a [`ToolCall`].
pub struct ToolCallModel {
    pub id: Seq<char>,
    pub call_type: Seq<char>,
    pub name: Seq<char>,
    pub arguments: Seq<char>,
}

impl DeepView for ToolCall {
    type V = ToolCallModel;

    open spec fn deep_view(&self) -> ToolCallModel {
        ToolCallModel {
            id: self.id@,
            call_type: self.call_type@,
            name: self.function.name@,
            arguments: self.function.arguments@,
        }
    }
}

#[derive(Debug)]
pub struct ChatTool {
    pub tool_type: String,
    pub function: ChatFunction,
}

#[derive(Debug)]
pub struct ChatFunction {
    pub name: String,
    pub description: Option<String>,
    pub parameters: Json,
}

/// The model of a [`ChatCompletionRequest`].
pub struct ChatRequestModel {
    pub model: Seq<char>,
    pub messages: Seq<ChatMessageModel>,
    pub max_tokens: u32,
    pub stream: bool,
    pub stop: Option<Seq<Seq<char>>>,
    pub tools: Option<Seq<ChatToolModel>>,
    pub tool_choice: Option<Tree>,
    pub stream_options: Option<StreamOptions>,
    pub reasoning_effort: Option<Seq<char>>,
}

impl DeepView for ChatCompletionRequest {
    type V = ChatRequestModel;

    open spec fn deep_view(&self) -> ChatRequestModel {
        ChatRequestModel {
            model: self.model@,
            messages: self.messages.deep_view(),
            max_tokens: self.max_tokens,
            stream: self.stream,
            stop: self.stop.deep_view(),
            tools: self.tools.deep_view(),
            tool_choice: self.tool_choice.deep_view(),
            stream_options: self.stream_options,
            reasoning_effort: self.reasoning_effort.deep_view(),
        }
    }
}

/// The model of a [`ChatMessage`].
pub struct ChatMessageModel {
    pub role: Seq<char>,
    pub content: Option<ChatContentModel>,
    pub tool_calls: Option<Seq<ToolCallModel>>,
    pub tool_call_id: Option<Seq<char>>,
}

impl DeepView for ChatMessage {
    type V = ChatMessageModel;

    open spec fn deep_view(&self) -> ChatMessageModel {
        ChatMessageModel {
            role: self.role@,
            content: self.content.deep_view(),
            tool_calls: self.tool_calls.deep_view(),
            tool_call_id: self.tool_call_id.deep_view(),
        }
    }
}

/// The model of a [`ChatContent`].
pub enum ChatContentModel {
    Text(Seq<char>),
    Parts(Seq<ChatPartModel>),
}

impl DeepView for ChatContent {
    type V = ChatContentModel;

    open spec fn deep_view(&self) -> ChatContentModel {
        match self {
            ChatContent::Text(text) => ChatContentModel::Text(text@),
            ChatContent::Parts(parts) => ChatContentModel::Parts(parts.deep_view()),
        }
    }
}

/// The model of a [`ContentPart`].
pub enum ChatPartModel {
    Text { text: Seq<char> },
    ImageUrl { url: Seq<char> },
}

impl DeepView for ContentPart {
    type V = ChatPartModel;

    open spec fn deep_view(&self) -> ChatPartModel {
        match self {
            ContentPart::Text { text } => ChatPartModel::Text { text: text@ },
            ContentPart::ImageUrl { image_url } => ChatPartModel::ImageUrl { url: image_url.url@ },
        }
    }
}

/// The model of a [`ChatTool`].
pub struct ChatToolModel {
    pub tool_type: Seq<char>,
    pub name: Seq<char>,
    pub description: Option<Seq<char>>,
    pub parameters: Tree,
}

impl DeepView for ChatTool {
    type V = ChatToolModel;

    open spec fn deep_view(&self) -> ChatToolModel {
        ChatToolModel {
            tool_type: self.tool_type@,
            name: self.function.name@,
            description: self.function.description.deep_view(),
            parameters: self.function.parameters@,
        }
    }
}

// ===== Responses =====

#[derive(Debug)]
pub struct ChatCompletionResponse {
    pub id: String,
    pub choices: Vec<Choice>,
    pub usage: Option<ResponseUsage>,
}

#[derive(Debug)]
pub struct Choice {
    pub message: ChoiceMessage,
    pub finish_reason: Option<String>,
}

#[derive(Debug)]
pub struct ChoiceMessage {
    /// Most providers send a string here; some send an array of parts.
    pub content: AssistantContent,
    pub tool_calls: Option<Vec<ToolCall>>,
}

/// The content of an assistant's message: a text, structured parts, or
/// nothing.
#[derive(Debug)]
pub enum AssistantContent {
    Text(String),
    Parts(Vec<Json>),
    Empty,
}

#[derive(Debug, Clone, Copy, PartialEq, Eq)]
pub struct ResponseUsage {
    pub prompt_tokens: u32,
    pub completion_tokens: u32,
    pub prompt_tokens_details: Option<PromptTokensDetails>,
}

#[derive(Debug, Clone, Copy, PartialEq, Eq)]
pub struct PromptTokensDetails {
    pub cached_tokens: Option<u32>,
}

// ===== Streaming =====

#[derive(Debug)]
pub struct ChatCompletionChunk {
    pub id: String,
    pub choices: Vec<ChunkChoice>,
    pub usage: Option<ResponseUsage>,
}

#[derive(Debug)]
pub struct ChunkChoice {
    pub delta: ChunkDelta,
    pub finish_reason: Option<String>,
}

#[derive(Debug)]
pub struct ChunkDelta {
    pub content: Option<String>,
    pub tool_calls: Option<Vec<ChunkToolCall>>,
}

#[derive(Debug)]
pub struct ChunkToolCall {
    pub index: usize,
    pub id: Option<String>,
    pub function: Option<ChunkFunction>,
}

#[derive(Debug)]
pub struct ChunkFunction {
    pub name: Option<String>,
    pub arguments: Option<String>,
}

// ===== Content of an assistant's message =====

/// What a JSON value is as the content of an assistant's message: a text, an
/// array of parts, and nothing for every other value.
pub open spec fn content_of(value: Tree) -> ContentModel {
    match value {
        Tree::Text(s) => ContentModel::Text(s),
        Tree::Array(parts) => ContentModel::Parts(parts),
        _ => ContentModel::Empty,
    }
}

/// The model of an [`AssistantContent`].
pub enum ContentModel {
    Text(Seq<char>),
    Parts(Seq<Tree>),
    Empty,
}

impl DeepView for AssistantContent {
    type V = ContentModel;

    open spec fn deep_view(&self) -> ContentModel {
        match self {
            AssistantContent::Text(s) => ContentModel::Text(s@),
            AssistantContent::Parts(parts) => ContentModel::Parts(array_tree(parts@)),
            AssistantContent::Empty => ContentModel::Empty,
        }
    }
}

/// The text of a part, if it is a text part.
pub open spec fn part_text(part: Tree) -> Seq<char> {
    match tree_str_at(part, "text"@) {
        Some(text) => if tree_str_at(part, "type"@) == Some("text"@) {
            text
        } else {
            Seq::empty()
        },
        None => Seq::empty(),
    }
}

/// The texts of the text parts, one behind the other.
pub open spec fn joined_text(parts: Seq<Tree>) -> Seq<char>
    decreases parts.len(),
{
    if parts.len() == 0 {
        Seq::empty()
    } else {
        joined_text(parts.drop_last()) + part_text(parts.last())
    }
}

/// `s`, unless it is empty.
pub open spec fn nonempty(s: Seq<char>) -> Option<Seq<char>> {
    if s.len() == 0 {
        None
    } else {
        Some(s)
    }
}

/// The function of a tool call: an object with a name and arguments, or an
/// array of just these two.
pub open spec fn function_of(value: Tree) -> Option<(Seq<char>, Seq<char>)> {
    let (name, arguments) = match value {
        Tree::Object(_) => (tree_str_at(value, "name"@), tree_str_at(value, "arguments"@)),
        Tree::Array(items) => if items.len() == 2 {
            (tree_str(Some(items[0])), tree_str(Some(items[1])))
        } else {
            (None, None)
        },
        _ => (None, None),
    };
    match (name, arguments) {
        (Some(name), Some(arguments)) => Some((name, arguments)),
        _ => None,
    }
}

/// The tool call that a value holds: an object with an id, a type and a
/// function, or an array of just these three.
pub open spec fn call_of(value: Tree) -> Option<ToolCallModel> {
    let (id, call_type, function) = match value {
        Tree::Object(_) => (
            tree_str_at(value, "id"@),
            tree_str_at(value, "type"@),
            tree_get(value, "function"@),
        ),
        Tree::Array(items) => if items.len() == 3 {
            (tree_str(Some(items[0])), tree_str(Some(items[1])), Some(items[2]))
        } else {
            (None, None, None)
        },
        _ => (None, None, None),
    };
    match (id, call_type, function) {
        (Some(id), Some(call_type), Some(function)) => match function_of(function) {
            Some((name, arguments)) => Some(ToolCallModel { id, call_type, name, arguments }),
            None => None,
        },
        _ => None,
    }
}

/// The tool calls that the values hold; a value that holds none is skipped.
pub open spec fn calls_of(values: Seq<Tree>) -> Seq<ToolCallModel>
    decreases values.len(),
{
    if values.len() == 0 {
        Seq::empty()
    } else {
        match call_of(values.last()) {
            Some(call) => calls_of(values.drop_last()).push(call),
            None => calls_of(values.drop_last()),
        }
    }
}

/// The tool calls of a part of type `tool_calls`.
pub open spec fn part_calls(part: Tree) -> Seq<ToolCallModel> {
    match tree_get(part, "tool_calls"@) {
        Some(Tree::Array(values)) => if tree_str_at(part, "type"@) == Some("tool_calls"@) {
            calls_of(values)
        } else {
            Seq::empty()
        },
        _ => Seq::empty(),
    }
}

/// The tool calls that stand inside the content.
pub open spec fn nested_calls(parts: Seq<Tree>) -> Seq<ToolCallModel>
    decreases parts.len(),
{
    if parts.len() == 0 {
        Seq::empty()
    } else {
        nested_calls(parts.drop_last()) + part_calls(parts.last())
    }
}

/// The text that content holds, if any.
pub open spec fn content_text(content: ContentModel) -> Option<Seq<char>> {
    match content {
        ContentModel::Text(s) => nonempty(s),
        ContentModel::Parts(parts) => nonempty(joined_text(parts)),
        ContentModel::Empty => None,
    }
}

/// The tool calls that content holds.
pub open spec fn content_calls(content: ContentModel) -> Seq<ToolCallModel> {
    match content {
        ContentModel::Parts(parts) => nested_calls(parts),
        _ => Seq::empty(),
    }
}

/// Reads the function of a tool call.
fn read_function(value: &Json) -> (r: Option<FunctionCall>)
    ensures
        match r {
            Some(function) => function_of(value@) == Some(
                (function.name@, function.arguments@),
            ),
            None => function_of(value@) is None,
        },
{
    let (name, arguments) = match value {
        Json::Object(_) => (value.str_at("name"), value.str_at("arguments")),
        Json::Array(items) => {
            proof {
                array_tree_items(items@);
            }
            if items.len() == 2 {
                (items[0].as_str(), items[1].as_str())
            } else {
                (None, None)
            }
        },
        _ => (None, None),
    };
    match (name, arguments) {
        (Some(name), Some(arguments)) => Some(
            FunctionCall { name: name.to_string(), arguments: arguments.to_string() },
        ),
        _ => None,
    }
}

/// Reads a tool call.
pub fn read_tool_call(value: &Json) -> (r: Option<ToolCall>)
    ensures
        r.deep_view() == call_of(value@),
{
    let (id, call_type, function) = match value {
        Json::Object(_) => (value.str_at("id"), value.str_at("type"), value.get("function")),
        Json::Array(items) => {
            proof {
                array_tree_items(items@);
            }
            if items.len() == 3 {
                (items[0].as_str(), items[1].as_str(), Some(&items[2]))
            } else {
                (None, None, None)
            }
        },
        _ => (None, None, None),
    };
    match (id, call_type, function) {
        (Some(id), Some(call_type), Some(function)) => match read_function(function) {
            Some(function) => Some(
                ToolCall { id: id.to_string(), call_type: call_type.to_string(), function },
            ),
            None => None,
        },
        _ => None,
    }
}

impl AssistantContent {
    /// What a JSON value is as the content of an assistant's message.
    pub fn from_json(value: Json) -> (r: AssistantContent)
        ensures
            r.deep_view() == content_of(value@),
    {
        match value {
            Json::Text(s) => AssistantContent::Text(s),
            Json::Array(parts) => AssistantContent::Parts(parts),
            _ => AssistantContent::Empty,
        }
    }

    /// The text of the content: of structured parts, the texts of the text
    /// parts one behind the other. Nothing where there is no text.
    pub fn as_text(&self) -> (r: Option<String>)
        ensures
            r.deep_view() == content_text(self.deep_view()),
    {
        let out = match self {
            AssistantContent::Text(s) => s.clone(),
            AssistantContent::Parts(parts) => {
                let mut out = String::new();
                let mut i: usize = 0;
                let ghost trees = array_tree(parts@);
                proof {
                    array_tree_items(parts@);
                    assert(trees.take(0) =~= Seq::<Tree>::empty());
                }
                while i < parts.len()
                    invariant
                        i <= parts@.len(),
                        trees.len() == parts@.len(),
                        forall|k: int| 0 <= k < parts@.len() ==> #[trigger] trees[k] == parts@[k]@,
                        out@ == joined_text(trees.take(i as int)),
                    decreases parts.len() - i,
                {
                    assert(trees.take(i + 1).drop_last() =~= trees.take(i as int));
                    assert(trees[i as int] == parts@[i as int]@);
                    let is_text = match parts[i].str_at("type") {
                        Some(kind) => same(kind, "text"),
                        None => false,
                    };
                    if is_text {
                        match parts[i].str_at("text") {
                            Some(text) => out.push_str(text),
                            None => {},
                        }
                    }
                    assert(out@ =~= joined_text(trees.take(i + 1)));
                    i += 1;
                }
                assert(trees.take(i as int) =~= trees);
                out
            },
            AssistantContent::Empty => return None,
        };
        proof {
            reveal_strlit("");
            if out@.len() == 0 {
                assert(out@ =~= ""@);
            }
        }
        if same(out.as_str(), "") {
            None
        } else {
            Some(out)
        }
    }

    /// The tool calls that stand inside structured content. Some providers
    /// put them there, in parts of type `tool_calls`. What is no tool call in
    /// such a part is skipped.
    pub fn extract_nested_tool_calls(&self) -> (r: Vec<ToolCall>)
        ensures
            r.deep_view() == content_calls(self.deep_view()),
    {
        let mut out: Vec<ToolCall> = Vec::new();
        let parts = match self {
            AssistantContent::Parts(parts) => parts,
            _ => {
                assert(out.deep_view() =~= Seq::<ToolCallModel>::empty());
                return out;
            },
        };
        let mut i: usize = 0;
        let ghost trees = array_tree(parts@);
        proof {
            array_tree_items(parts@);
            assert(trees.take(0) =~= Seq::<Tree>::empty());
            assert(out.deep_view() =~= nested_calls(trees.take(0)));
        }
        while i < parts.len()
            invariant
                i <= parts@.len(),
                trees.len() == parts@.len(),
                forall|k: int| 0 <= k < parts@.len() ==> #[trigger] trees[k] == parts@[k]@,
                out.deep_view() == nested_calls(trees.take(i as int)),
            decreases parts.len() - i,
        {
            assert(trees.take(i + 1).drop_last() =~= trees.take(i as int));
            assert(trees[i as int] == parts@[i as int]@);
            push_part_calls(&mut out, &parts[i]);
            i += 1;
        }
        assert(trees.take(i as int) =~= trees);
        out
    }
}

/// Appends the tool calls of a part.
fn push_part_calls(out: &mut Vec<ToolCall>, part: &Json)
    ensures
        final(out).deep_view() == old(out).deep_view() + part_calls(part@),
{
    let is_calls = match part.str_at("type") {
        Some(kind) => same(kind, "tool_calls"),
        None => false,
    };
    let values = match part.get("tool_calls") {
        Some(value) => value.as_array(),
        None => None,
    };
    match values {
        Some(values) => {
            if is_calls {
                push_calls(out, values);
            }
        },
        None => {},
    }
    assert(out.deep_view() =~= old(out).deep_view() + part_calls(part@));
}

/// Appends the tool calls that `values` hold.
fn push_calls(out: &mut Vec<ToolCall>, values: &Vec<Json>)
    ensures
        final(out).deep_view() == old(out).deep_view() + calls_of(array_tree(values@)),
{
    let mut i: usize = 0;
    let ghost trees = array_tree(values@);
    let ghost before = out.deep_view();
    proof {
        array_tree_items(values@);
        assert(trees.take(0) =~= Seq::<Tree>::empty());
        assert(out.deep_view() =~= before + calls_of(trees.take(0)));
    }
    while i < values.len()
        invariant
            i <= values@.len(),
            trees.len() == values@.len(),
            forall|k: int| 0 <= k < values@.len() ==> #[trigger] trees[k] == values@[k]@,
            out.deep_view() == before + calls_of(trees.take(i as int)),
        decreases values.len() - i,
    {
        let ghost so_far = out.deep_view();
        assert(trees.take(i + 1).drop_last() =~= trees.take(i as int));
        assert(trees[i as int] == values@[i as int]@);
        match read_tool_call(&values[i]) {
            Some(call) => {
                out.push(call);
                assert(out.deep_view() =~= so_far.push(call.deep_view()));
            },
            None => {},
        }
        assert(out.deep_view() =~= before + calls_of(trees.take(i + 1)));
        i += 1;
    }
    assert(trees.take(i as int) =~= trees);
}

} // verus!
