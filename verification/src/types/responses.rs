//! The Responses API.

use vstd::prelude::*;

use crate::json::{Json, Tree};

verus! {

// ===== Requests =====

/// A request for a response.
#[derive(Debug)]
pub struct ResponsesRequest {
    /// The upstream's name of the model.
    pub model: String,
    /// Left empty; the system text travels as a developer message.
    pub instructions: Option<String>,
    /// The conversation with its tool calls, in order.
    pub input: Vec<InputItem>,
    pub tools: Option<Vec<ResponsesTool>>,
    pub reasoning: Option<ReasoningConfig>,
    pub parallel_tool_calls: bool,
    /// Whether the upstream may keep the conversation.
    pub store: bool,
    /// What the response is to hold besides the usual.
    pub included: Vec<String>,
    pub stream: bool,
    pub max_output_tokens: Option<u32>,
}

/// The model of a [`ResponsesRequest`].
pub struct ResponsesRequestModel {
    pub model: Seq<char>,
    pub instructions: Option<Seq<char>>,
    pub input: Seq<InputItemModel>,
    pub tools: Option<Seq<ResponsesToolModel>>,
    pub reasoning: Option<ReasoningConfigModel>,
    pub parallel_tool_calls: bool,
    pub store: bool,
    pub included: Seq<Seq<char>>,
    pub stream: bool,
    pub max_output_tokens: Option<u32>,
}

impl DeepView for ResponsesRequest {
    type V = ResponsesRequestModel;

    open spec fn deep_view(&self) -> ResponsesRequestModel {
        ResponsesRequestModel {
            model: self.model@,
            instructions: self.instructions.deep_view(),
            input: self.input.deep_view(),
            tools: self.tools.deep_view(),
            reasoning: self.reasoning.deep_view(),
            parallel_tool_calls: self.parallel_tool_calls,
            store: self.store,
            included: self.included.deep_view(),
            stream: self.stream,
            max_output_tokens: self.max_output_tokens,
        }
    }
}

/// A single element of the `input` array.
#[derive(Debug)]
pub enum InputItem {
    /// A message of the user, the assistant or the developer.
    Message(MessageItem),
    /// A function call that the assistant made.
    FunctionCall(FunctionCallItem),
    /// What a function call gave back.
    FunctionCallOutput(FunctionCallOutputItem),
}

/// The model of an [`InputItem`].
pub enum InputItemModel {
    Message { role: Seq<char>, content: Seq<ContentPartModel> },
    FunctionCall { call_id: Seq<char>, name: Seq<char>, arguments: Seq<char> },
    FunctionCallOutput { call_id: Seq<char>, output: FunctionCallOutputModel },
}

impl DeepView for InputItem {
    type V = InputItemModel;

    open spec fn deep_view(&self) -> InputItemModel {
        match self {
            InputItem::Message(item) => InputItemModel::Message {
                role: item.role@,
                content: item.content.deep_view(),
            },
            InputItem::FunctionCall(item) => InputItemModel::FunctionCall {
                call_id: item.call_id@,
                name: item.name@,
                arguments: item.arguments@,
            },
            InputItem::FunctionCallOutput(item) => InputItemModel::FunctionCallOutput {
                call_id: item.call_id@,
                output: item.output.deep_view(),
            },
        }
    }
}

#[derive(Debug)]
pub struct MessageItem {
    /// `"developer"`, `"user"` or `"assistant"`.
    pub role: String,
    pub content: Vec<ContentPart>,
}

/// A part of a message or of a function call's output.
#[derive(Debug)]
pub enum ContentPart {
    /// Text that is not the assistant's.
    InputText { text: String },
    /// Text of the assistant.
    OutputText { text: String },
    /// An image as a data URL (`data:<mime>;base64,<data>`).
    InputImage { image_url: String },
}

/// The model of a [`ContentPart`].
pub enum ContentPartModel {
    InputText { text: Seq<char> },
    OutputText { text: Seq<char> },
    InputImage { image_url: Seq<char> },
}

impl DeepView for ContentPart {
    type V = ContentPartModel;

    open spec fn deep_view(&self) -> ContentPartModel {
        match self {
            ContentPart::InputText { text } => ContentPartModel::InputText { text: text@ },
            ContentPart::OutputText { text } => ContentPartModel::OutputText { text: text@ },
            ContentPart::InputImage { image_url } => ContentPartModel::InputImage {
                image_url: image_url@,
            },
        }
    }
}

#[derive(Debug)]
pub struct FunctionCallItem {
    pub call_id: String,
    /// At most 64 bytes long.
    pub name: String,
    /// The arguments as JSON text.
    pub arguments: String,
}

#[derive(Debug)]
pub struct FunctionCallOutputItem {
    pub call_id: String,
    pub output: FunctionCallOutput,
}

#[derive(Debug)]
pub enum FunctionCallOutput {
    Parts(Vec<ContentPart>),
    Text(String),
}

/// The model of a [`FunctionCallOutput`].
pub enum FunctionCallOutputModel {
    Parts(Seq<ContentPartModel>),
    Text(Seq<char>),
}

impl DeepView for FunctionCallOutput {
    type V = FunctionCallOutputModel;

    open spec fn deep_view(&self) -> FunctionCallOutputModel {
        match self {
            FunctionCallOutput::Parts(parts) => FunctionCallOutputModel::Parts(parts.deep_view()),
            FunctionCallOutput::Text(text) => FunctionCallOutputModel::Text(text@),
        }
    }
}

/// A tool that the model may call.
#[derive(Debug)]
pub struct ResponsesTool {
    /// `"function"` or `"web_search"`.
    pub tool_type: String,
    pub name: Option<String>,
    pub description: Option<String>,
    /// A JSON Schema.
    pub parameters: Option<Json>,
    pub strict: Option<bool>,
}

/// The model of a [`ResponsesTool`].
pub struct ResponsesToolModel {
    pub tool_type: Seq<char>,
    pub name: Option<Seq<char>>,
    pub description: Option<Seq<char>>,
    pub parameters: Option<Tree>,
    pub strict: Option<bool>,
}

impl DeepView for ResponsesTool {
    type V = ResponsesToolModel;

    open spec fn deep_view(&self) -> ResponsesToolModel {
        ResponsesToolModel {
            tool_type: self.tool_type@,
            name: self.name.deep_view(),
            description: self.description.deep_view(),
            parameters: self.parameters.deep_view(),
            strict: self.strict,
        }
    }
}

#[derive(Debug)]
pub struct ReasoningConfig {
    pub effort: String,
    pub summary: String,
}

/// The model of a [`ReasoningConfig`].
pub struct ReasoningConfigModel {
    pub effort: Seq<char>,
    pub summary: Seq<char>,
}

impl DeepView for ReasoningConfig {
    type V = ReasoningConfigModel;

    open spec fn deep_view(&self) -> ReasoningConfigModel {
        ReasoningConfigModel { effort: self.effort@, summary: self.summary@ }
    }
}

// ===== Responses =====

/// A complete response.
#[derive(Debug)]
pub struct ResponsesResponse {
    pub id: String,
    pub model: String,
    pub output: Vec<OutputItem>,
    pub usage: ResponsesUsage,
    pub stop_reason: Option<String>,
}

/// The model of a [`ResponsesResponse`].
pub struct ResponsesResponseModel {
    pub id: Seq<char>,
    pub model: Seq<char>,
    pub output: Seq<OutputItemModel>,
    pub usage: ResponsesUsage,
    pub stop_reason: Option<Seq<char>>,
}

impl DeepView for ResponsesResponse {
    type V = ResponsesResponseModel;

    open spec fn deep_view(&self) -> ResponsesResponseModel {
        ResponsesResponseModel {
            id: self.id@,
            model: self.model@,
            output: self.output.deep_view(),
            usage: self.usage,
            stop_reason: self.stop_reason.deep_view(),
        }
    }
}

/// A single element of the `output` array.
#[derive(Debug)]
#[allow(inconsistent_fields)]
pub enum OutputItem {
    Message { content: Vec<ContentPart> },
    Reasoning { summary: Vec<Json>, content: Option<String> },
    FunctionCall { call_id: String, name: String, arguments: String },
}

/// The model of an [`OutputItem`].
#[allow(inconsistent_fields)]
pub enum OutputItemModel {
    Message { content: Seq<ContentPartModel> },
    Reasoning { summary: Seq<Tree>, content: Option<Seq<char>> },
    FunctionCall { call_id: Seq<char>, name: Seq<char>, arguments: Seq<char> },
}

impl DeepView for OutputItem {
    type V = OutputItemModel;

    open spec fn deep_view(&self) -> OutputItemModel {
        match self {
            OutputItem::Message { content } => OutputItemModel::Message {
                content: content.deep_view(),
            },
            OutputItem::Reasoning { summary, content } => OutputItemModel::Reasoning {
                summary: summary.deep_view(),
                content: content.deep_view(),
            },
            OutputItem::FunctionCall { call_id, name, arguments } =>
                OutputItemModel::FunctionCall {
                call_id: call_id@,
                name: name@,
                arguments: arguments@,
            },
        }
    }
}

/// Token counts. `input_tokens` counts what was read from a cache too.
#[derive(Debug, Clone, Copy, PartialEq, Eq)]
pub struct ResponsesUsage {
    pub input_tokens: u32,
    pub output_tokens: u32,
    pub input_tokens_details: InputTokensDetails,
}

impl Default for ResponsesUsage {
    fn default() -> (r: ResponsesUsage)
        ensures
            r == (ResponsesUsage {
                input_tokens: 0,
                output_tokens: 0,
                input_tokens_details: InputTokensDetails { cached_tokens: 0 },
            }),
    {
        ResponsesUsage {
            input_tokens: 0,
            output_tokens: 0,
            input_tokens_details: InputTokensDetails { cached_tokens: 0 },
        }
    }
}

#[derive(Debug, Clone, Copy, PartialEq, Eq)]
pub struct InputTokensDetails {
    pub cached_tokens: u32,
}

// ===== Streaming =====

/// An event of a streamed response.
#[derive(Debug)]
#[allow(inconsistent_fields)]
pub enum ResponsesStreamEvent {
    /// The stream has begun.
    Created { response: ResponseCreatedPayload },
    /// A block of reasoning has begun.
    ReasoningSummaryPartAdded {  },
    /// More of the block of reasoning.
    ReasoningSummaryTextDelta { delta: String },
    /// The block of reasoning has ended.
    ReasoningSummaryPartDone {  },
    /// A part of text has begun.
    ContentPartAdded {  },
    /// More of the part of text.
    OutputTextDelta { delta: String },
    /// The part of text has ended.
    ContentPartDone {  },
    /// An output item, a message or a function call, has begun.
    OutputItemAdded { item: OutputItemAddedPayload },
    /// More of the arguments of the function call.
    FunctionCallArgumentsDelta { delta: String },
    /// All of the arguments of the function call.
    FunctionCallArgumentsDone { arguments: String },
    /// The output item has ended.
    OutputItemDone {  },
    /// The response is complete.
    Completed { response: ResponseCompletedPayload },
}

#[derive(Debug)]
pub struct ResponseCreatedPayload {
    pub id: String,
    pub model: String,
}

#[derive(Debug)]
pub struct OutputItemAddedPayload {
    /// `"message"` or `"function_call"`.
    pub item_type: String,
    pub call_id: Option<String>,
    pub name: Option<String>,
}

#[derive(Debug)]
pub struct ResponseCompletedPayload {
    pub id: String,
    pub model: String,
    pub stop_reason: Option<String>,
    pub usage: Option<ResponsesUsage>,
    pub output: Vec<OutputItem>,
}

} // verus!
