//! The Messages API.

use vstd::prelude::*;

use crate::json::{Json, Tree};

verus! {

/// Names of the events of a stream.
pub const MESSAGE_START: &'static str = "message_start";

pub const CONTENT_BLOCK_START: &'static str = "content_block_start";

pub const CONTENT_BLOCK_DELTA: &'static str = "content_block_delta";

pub const CONTENT_BLOCK_STOP: &'static str = "content_block_stop";

pub const MESSAGE_DELTA: &'static str = "message_delta";

pub const MESSAGE_STOP: &'static str = "message_stop";

/// Kinds of deltas.
pub const DELTA_TEXT: &'static str = "text_delta";

pub const DELTA_INPUT_JSON: &'static str = "input_json_delta";

pub const DELTA_THINKING: &'static str = "thinking_delta";

/// Why a message ended.
pub const END_TURN: &'static str = "end_turn";

pub const MAX_TOKENS: &'static str = "max_tokens";

pub const TOOL_USE: &'static str = "tool_use";

/// A request for a message, without its fractional sampling parameters.
#[derive(Debug)]
pub struct MessagesRequest {
    pub model: String,
    pub max_tokens: u32,
    pub messages: Vec<Message>,
    pub system: Option<SystemContent>,
    pub stop_sequences: Option<Vec<String>>,
    pub stream: Option<bool>,
    pub top_k: Option<u32>,
    pub metadata: Option<Json>,
    pub tools: Option<Vec<Tool>>,
    pub tool_choice: Option<Json>,
    pub thinking: Option<ThinkingConfig>,
}

#[derive(Debug)]
pub struct Message {
    pub role: String,
    pub content: MessageContent,
}

#[derive(Debug)]
pub enum MessageContent {
    Text(String),
    Blocks(Vec<ContentBlock>),
    Null,
}

#[derive(Debug)]
pub enum ContentBlock {
    Text { text: String },
    Image { source: ImageSource },
    ToolUse { id: String, name: String, input: Json },
    ToolResult { tool_use_id: String, content: Option<ToolResultContent> },
}

#[derive(Debug)]
pub struct ImageSource {
    pub source_type: String,
    pub media_type: Option<String>,
    pub data: Option<String>,
}

#[derive(Debug)]
pub enum ToolResultContent {
    Text(String),
    Blocks(Vec<Json>),
    Object(Json),
}

#[derive(Debug)]
pub enum SystemContent {
    Text(String),
    Blocks(Vec<SystemBlock>),
}

#[derive(Debug)]
pub struct SystemBlock {
    pub block_type: String,
    pub text: Option<String>,
    pub cache_control: Option<Json>,
}

/// A tool that the model may call.
#[derive(Debug)]
pub struct Tool {
    pub name: String,
    pub description: Option<String>,
    pub input_schema: Json,
}

#[derive(Debug, Clone, Copy, PartialEq, Eq)]
pub struct ThinkingConfig {
    pub enabled: bool,
}

/// A complete message.
#[derive(Debug)]
pub struct MessagesResponse {
    pub id: String,
    pub response_type: String,
    pub role: String,
    pub model: String,
    pub content: Vec<ResponseContentBlock>,
    pub stop_reason: Option<String>,
    pub stop_sequence: Option<String>,
    pub usage: Usage,
}

/// The model of a [`MessagesResponse`].
pub struct MessagesResponseModel {
    pub id: Seq<char>,
    pub response_type: Seq<char>,
    pub role: Seq<char>,
    pub model: Seq<char>,
    pub content: Seq<ResponseContentBlockModel>,
    pub stop_reason: Option<Seq<char>>,
    pub stop_sequence: Option<Seq<char>>,
    pub usage: Usage,
}

impl DeepView for MessagesResponse {
    type V = MessagesResponseModel;

    open spec fn deep_view(&self) -> MessagesResponseModel {
        MessagesResponseModel {
            id: self.id@,
            response_type: self.response_type@,
            role: self.role@,
            model: self.model@,
            content: self.content.deep_view(),
            stop_reason: self.stop_reason.deep_view(),
            stop_sequence: self.stop_sequence.deep_view(),
            usage: self.usage,
        }
    }
}

#[derive(Debug)]
pub enum ResponseContentBlock {
    Text { text: String },
    ToolUse { id: String, name: String, input: Json },
}

/// The model of a [`ResponseContentBlock`].
pub enum ResponseContentBlockModel {
    Text { text: Seq<char> },
    ToolUse { id: Seq<char>, name: Seq<char>, input: Tree },
}

impl DeepView for ResponseContentBlock {
    type V = ResponseContentBlockModel;

    open spec fn deep_view(&self) -> ResponseContentBlockModel {
        match self {
            ResponseContentBlock::Text { text } => ResponseContentBlockModel::Text { text: text@ },
            ResponseContentBlock::ToolUse { id, name, input } =>
                ResponseContentBlockModel::ToolUse { id: id@, name: name@, input: input@ },
        }
    }
}

/// Token counts. `input_tokens` leaves out what was read from a cache.
#[derive(Debug, Clone, Copy, PartialEq, Eq)]
pub struct Usage {
    pub input_tokens: u32,
    pub output_tokens: u32,
    pub cache_read_input_tokens: Option<u32>,
}

impl Default for Usage {
    fn default() -> (r: Usage)
        ensures
            r == (Usage { input_tokens: 0, output_tokens: 0, cache_read_input_tokens: None }),
    {
        Usage { input_tokens: 0, output_tokens: 0, cache_read_input_tokens: None }
    }
}

} // verus!
