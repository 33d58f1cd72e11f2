//! The models of what goes out leave nothing out: each field of a value is what
//! its model says.

use vstd::prelude::*;

use crate::cli::diagnostics::{DiagnosisModel, PortDiagnosis};
use crate::cli::repair::{RepairCommand, StepModel, StepResult};
use crate::client::sse::{SseItem, SseItemModel};
use crate::convert::frames::{Frame, FrameModel};
use crate::convert::stream::StreamError;
use crate::json::{array_tree, array_tree_items, object_tree, Json, Tree};
use crate::types::claude::{MessagesResponse, ResponseContentBlock, ResponseContentBlockModel};
use crate::types::openai::{
    AssistantContent, ChatCompletionRequest, ChatContent, ChatContentModel, ChatMessage, ChatTool,
    ContentModel, ToolCall,
};
use crate::types::responses::{
    ContentPart, ContentPartModel, FunctionCallOutput, FunctionCallOutputModel, InputItem,
    InputItemModel, OutputItem, OutputItemModel, ResponsesRequest, ResponsesResponse, ResponsesTool,
};

verus! {

/// The text of an optional field.
pub open spec fn said(s: Option<String>) -> Option<Seq<char>> {
    match s {
        Some(s) => Some(s@),
        None => None,
    }
}

// ---------------------------------------------------------------------------
// JSON
// ---------------------------------------------------------------------------

/// A JSON value is what it holds: a text its characters, a list its items in
/// their order.
pub proof fn values_are_what_they_hold(
    flag: bool,
    n: serde_json::Number,
    s: String,
    items: Vec<Json>,
    i: int,
)
    ensures
        Json::Null@ is Null,
        Json::Bool(flag)@ == Tree::Bool(flag),
        Json::Number(n)@ == Tree::Number(n),
        Json::Text(s)@ == Tree::Text(s@),
        Json::Array(items)@ matches Tree::Array(trees) && trees.len() == items@.len() && (0 <= i
            < items@.len() ==> trees[i] == items@[i]@),
{
    array_tree_items(items@);
}

/// An object holds under each name what stands last under it.
pub proof fn last_entry_counts(entries: Seq<(String, Json)>, entry: (String, Json), key: Seq<char>)
    ensures
        object_tree(Seq::empty()).dom() =~= Set::<Seq<char>>::empty(),
        object_tree(entries.push(entry)).contains_key(entry.0@),
        object_tree(entries.push(entry))[entry.0@] == entry.1@,
        key != entry.0@ ==> object_tree(entries.push(entry)).contains_key(key) == object_tree(
            entries,
        ).contains_key(key),
        key != entry.0@ && object_tree(entries).contains_key(key) ==> object_tree(
            entries.push(entry),
        )[key] == object_tree(entries)[key],
{
    assert(entries.push(entry).drop_last() =~= entries);
}

/// An object's model is the map of its entries.
pub proof fn objects_are_their_entries(entries: Vec<(String, Json)>)
    ensures
        Json::Object(entries)@ == Tree::Object(object_tree(entries@)),
{
}

// ---------------------------------------------------------------------------
// What goes to the client
// ---------------------------------------------------------------------------

/// A message.
pub proof fn message_is_its_fields(m: MessagesResponse, i: int)
    ensures
        ({
            let v = m.deep_view();
            &&& v.id == m.id@
            &&& v.response_type == m.response_type@
            &&& v.role == m.role@
            &&& v.model == m.model@
            &&& v.content.len() == m.content@.len()
            &&& 0 <= i < m.content@.len() ==> (match m.content@[i] {
                ResponseContentBlock::Text { text } => v.content[i] == (
                ResponseContentBlockModel::Text { text: text@ }),
                ResponseContentBlock::ToolUse { id, name, input } => v.content[i] == (
                ResponseContentBlockModel::ToolUse { id: id@, name: name@, input: input@ }),
            })
            &&& v.stop_reason == said(m.stop_reason)
            &&& v.stop_sequence == said(m.stop_sequence)
            &&& v.usage == m.usage
        }),
{
}

/// A frame.
pub proof fn frame_is_its_fields(f: Frame)
    ensures
        f matches Frame::MessageStart { id, model } ==> f.deep_view() == (
        FrameModel::MessageStart { id: id@, model: model@ }),
        f matches Frame::TextStart { index } ==> f.deep_view() == (FrameModel::TextStart {
            index: index as nat,
        }),
        f matches Frame::ThinkingStart { index } ==> f.deep_view() == (FrameModel::ThinkingStart {
            index: index as nat,
        }),
        f matches Frame::ToolStart { index, id, name } ==> f.deep_view() == (
        FrameModel::ToolStart { index: index as nat, id: id@, name: name@ }),
        f matches Frame::TextDelta { index, text } ==> f.deep_view() == (FrameModel::TextDelta {
            index: index as nat,
            text: text@,
        }),
        f matches Frame::ThinkingDelta { index, thinking } ==> f.deep_view() == (
        FrameModel::ThinkingDelta { index: index as nat, thinking: thinking@ }),
        f matches Frame::InputDelta { index, partial_json } ==> f.deep_view() == (
        FrameModel::InputDelta { index: index as nat, partial_json: partial_json@ }),
        f matches Frame::BlockStop { index } ==> f.deep_view() == (FrameModel::BlockStop {
            index: index as nat,
        }),
        f matches Frame::MessageDelta { stop_reason, usage } ==> f.deep_view() == (
        FrameModel::MessageDelta { stop_reason: stop_reason@, usage }),
        f is MessageStop ==> f.deep_view() is MessageStop,
        f matches Frame::Error { message } ==> f.deep_view() == (FrameModel::Error {
            message: message@,
        }),
{
}

// ---------------------------------------------------------------------------
// What goes to the upstream
// ---------------------------------------------------------------------------

/// A request to the Responses API.
pub proof fn responses_request_is_its_fields(r: ResponsesRequest, i: int)
    ensures
        ({
            let v = r.deep_view();
            &&& v.model == r.model@
            &&& v.instructions == said(r.instructions)
            &&& v.input.len() == r.input@.len()
            &&& 0 <= i < r.input@.len() ==> v.input[i] == r.input@[i].deep_view()
            &&& v.tools is Some == r.tools is Some
            &&& r.tools matches Some(tools) ==> v.tools->0.len() == tools@.len() && (0 <= i
                < tools@.len() ==> v.tools->0[i] == tools@[i].deep_view())
            &&& v.reasoning is Some == r.reasoning is Some
            &&& r.reasoning matches Some(reasoning) ==> v.reasoning->0.effort == reasoning.effort@
                && v.reasoning->0.summary == reasoning.summary@
            &&& v.parallel_tool_calls == r.parallel_tool_calls
            &&& v.store == r.store
            &&& v.stream == r.stream
            &&& v.max_output_tokens == r.max_output_tokens
            &&& v.included.len() == r.included@.len()
            &&& 0 <= i < r.included@.len() ==> v.included[i] == r.included@[i]@
        }),
{
}

/// An item of a request to the Responses API.
pub proof fn input_item_is_its_fields(item: InputItem, i: int)
    ensures
        item matches InputItem::Message(message) ==> {
            &&& item.deep_view() matches InputItemModel::Message { role, content }
            &&& role == message.role@
            &&& content.len() == message.content@.len()
            &&& 0 <= i < content.len() ==> content[i] == message.content@[i].deep_view()
        },
        item matches InputItem::FunctionCall(call) ==> item.deep_view() == (
        InputItemModel::FunctionCall {
            call_id: call.call_id@,
            name: call.name@,
            arguments: call.arguments@,
        }),
        item matches InputItem::FunctionCallOutput(output) ==> {
            &&& item.deep_view() matches InputItemModel::FunctionCallOutput { call_id, output: got }
            &&& call_id == output.call_id@
            &&& output.output matches FunctionCallOutput::Text(s) ==> got
                == FunctionCallOutputModel::Text(s@)
            &&& output.output matches FunctionCallOutput::Parts(parts) ==> {
                &&& got matches FunctionCallOutputModel::Parts(models)
                &&& models.len() == parts@.len()
                &&& 0 <= i < parts@.len() ==> models[i] == parts@[i].deep_view()
            }
        },
{
}

/// A part of a message.
pub proof fn part_is_its_fields(part: ContentPart)
    ensures
        part matches ContentPart::InputText { text } ==> part.deep_view() == (
        ContentPartModel::InputText { text: text@ }),
        part matches ContentPart::OutputText { text } ==> part.deep_view() == (
        ContentPartModel::OutputText { text: text@ }),
        part matches ContentPart::InputImage { image_url } ==> part.deep_view() == (
        ContentPartModel::InputImage { image_url: image_url@ }),
{
}

/// A tool of a request to the Responses API.
pub proof fn responses_tool_is_its_fields(tool: ResponsesTool)
    ensures
        ({
            let v = tool.deep_view();
            &&& v.tool_type == tool.tool_type@
            &&& v.name == said(tool.name)
            &&& v.description == said(tool.description)
            &&& v.strict == tool.strict
            &&& v.parameters is Some == tool.parameters is Some
            &&& tool.parameters matches Some(schema) ==> v.parameters == Some(schema@)
        }),
{
}

/// A request to the Chat Completions API.
pub proof fn chat_request_is_its_fields(r: ChatCompletionRequest, i: int)
    ensures
        ({
            let v = r.deep_view();
            &&& v.model == r.model@
            &&& v.messages.len() == r.messages@.len()
            &&& 0 <= i < r.messages@.len() ==> v.messages[i] == r.messages@[i].deep_view()
            &&& v.max_tokens == r.max_tokens
            &&& v.stream == r.stream
            &&& v.stop is Some == r.stop is Some
            &&& r.stop matches Some(stop) ==> v.stop->0.len() == stop@.len() && (0 <= i
                < stop@.len() ==> v.stop->0[i] == stop@[i]@)
            &&& v.tools is Some == r.tools is Some
            &&& r.tools matches Some(tools) ==> v.tools->0.len() == tools@.len() && (0 <= i
                < tools@.len() ==> v.tools->0[i] == tools@[i].deep_view())
            &&& v.tool_choice is Some == r.tool_choice is Some
            &&& r.tool_choice matches Some(choice) ==> v.tool_choice == Some(choice@)
            &&& v.stream_options == r.stream_options
            &&& v.reasoning_effort == said(r.reasoning_effort)
        }),
{
}

/// A message of a request to the Chat Completions API.
pub proof fn chat_message_is_its_fields(m: ChatMessage, i: int)
    ensures
        ({
            let v = m.deep_view();
            &&& v.role == m.role@
            &&& v.tool_call_id == said(m.tool_call_id)
            &&& v.content is Some == m.content is Some
            &&& m.content matches Some(ChatContent::Text(s)) ==> v.content == Some(
                ChatContentModel::Text(s@),
            )
            &&& m.content matches Some(ChatContent::Parts(parts)) ==> {
                &&& v.content matches Some(ChatContentModel::Parts(models))
                &&& models.len() == parts@.len()
                &&& 0 <= i < parts@.len() ==> models[i] == parts@[i].deep_view()
            }
            &&& v.tool_calls is Some == m.tool_calls is Some
            &&& m.tool_calls matches Some(calls) ==> v.tool_calls->0.len() == calls@.len() && (0
                <= i < calls@.len() ==> v.tool_calls->0[i] == calls@[i].deep_view())
        }),
{
}

/// A tool call, and a tool of a request to the Chat Completions API.
pub proof fn call_and_tool_are_their_fields(call: ToolCall, tool: ChatTool)
    ensures
        call.deep_view().id == call.id@,
        call.deep_view().call_type == call.call_type@,
        call.deep_view().name == call.function.name@,
        call.deep_view().arguments == call.function.arguments@,
        tool.deep_view().tool_type == tool.tool_type@,
        tool.deep_view().name == tool.function.name@,
        tool.deep_view().description == said(tool.function.description),
        tool.deep_view().parameters == tool.function.parameters@,
{
}

// ---------------------------------------------------------------------------
// What comes from the upstream
// ---------------------------------------------------------------------------

/// The content of an answer.
pub proof fn content_is_what_it_holds(content: AssistantContent)
    ensures
        content matches AssistantContent::Text(s) ==> content.deep_view() == ContentModel::Text(s@),
        content matches AssistantContent::Parts(parts) ==> content.deep_view()
            == ContentModel::Parts(array_tree(parts@)),
        content is Empty ==> content.deep_view() is Empty,
{
}

/// A complete response.
pub proof fn response_is_its_fields(r: ResponsesResponse, i: int)
    ensures
        ({
            let v = r.deep_view();
            &&& v.id == r.id@
            &&& v.model == r.model@
            &&& v.output.len() == r.output@.len()
            &&& 0 <= i < r.output@.len() ==> v.output[i] == r.output@[i].deep_view()
            &&& v.usage == r.usage
            &&& v.stop_reason == said(r.stop_reason)
        }),
{
}

/// An item of a response.
pub proof fn output_item_is_its_fields(item: OutputItem, i: int)
    ensures
        item matches OutputItem::Message { content } ==> {
            &&& item.deep_view() matches OutputItemModel::Message { content: parts }
            &&& parts.len() == content@.len()
            &&& 0 <= i < parts.len() ==> parts[i] == content@[i].deep_view()
        },
        item matches OutputItem::FunctionCall { call_id, name, arguments } ==> item.deep_view() == (
        OutputItemModel::FunctionCall { call_id: call_id@, name: name@, arguments: arguments@ }),
        item is Reasoning ==> item.deep_view() is Reasoning,
{
}

/// An item of a stream.
pub proof fn stream_item_is_its_fields(item: SseItem)
    ensures
        item matches SseItem::Data(data) ==> item.deep_view() == SseItemModel::Data(data@),
        item is Done ==> item.deep_view() is Done,
        item matches SseItem::Failed(StreamError::Connection(cause)) ==> item.deep_view()
            == SseItemModel::Failed(cause@),
{
}

// ---------------------------------------------------------------------------
// What the check-up and the repair say
// ---------------------------------------------------------------------------

/// A diagnosis, a command and what it led to.
pub proof fn repair_is_its_fields(d: PortDiagnosis, c: RepairCommand, s: StepResult, i: int)
    ensures
        d matches PortDiagnosis::WindowsReserved { port, reserved_range } ==> d.deep_view() == (
        DiagnosisModel::WindowsReserved { port, reserved_range }),
        d matches PortDiagnosis::HeldByProcess { port, pid, name } ==> d.deep_view() == (
        DiagnosisModel::HeldByProcess { port, pid, name: name@ }),
        d matches PortDiagnosis::Unknown { port } ==> d.deep_view() == (DiagnosisModel::Unknown {
            port,
        }),
        c.deep_view().label == c.label@,
        c.deep_view().program == c.program@,
        c.deep_view().args.len() == c.args@.len(),
        0 <= i < c.args@.len() ==> c.deep_view().args[i] == c.args@[i]@,
        s is Done ==> s.deep_view() is Done,
        s is AlreadyExcluded ==> s.deep_view() is AlreadyExcluded,
        s matches StepResult::Failed(message) ==> s.deep_view() == StepModel::Failed(message@),
{
}

} // verus!
