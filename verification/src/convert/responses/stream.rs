//! A streamed answer of the Responses API on its way to the client.
//!
//! The client gets its `message_start` at once, with an id made up here,
//! before the upstream has sent anything. So the upstream's own beginning is
//! dropped. Then
//!
//! | the upstream's event                 | becomes                                   |
//! |--------------------------------------|-------------------------------------------|
//! | `response.created`                   | nothing                                   |
//! | `reasoning_summary_part.added`       | the start of a thinking block             |
//! | `reasoning_summary_text.delta`       | more of the thinking block                |
//! | `reasoning_summary_part.done`        | the end of the block                      |
//! | `content_part.added`                 | the start of a text block                 |
//! | `output_text.delta`                  | more of the text block                    |
//! | `content_part.done`                  | the end of the block                      |
//! | `output_item.added` (function call)  | the start of a tool block, an empty input |
//! | `function_call_arguments.delta`      | nothing yet; the arguments are collected  |
//! | `function_call_arguments.done`       | the input of the tool block in one piece  |
//! | `output_item.done`                   | the end of the block                      |
//! | `response.completed`                 | the end of the message                    |
//!
//! A stream that breaks off, ends early or stays silent for too long is ended
//! properly too.

use vstd::prelude::*;

use crate::convert::frames::{
    blocks_ended, blocks_ended_concat, counts_blocks, counts_blocks_concat, generate_message_id,
    has_error, has_error_concat, is_message_id, one_frame, Frame, FrameModel,
};
use crate::convert::stream::{
    closing_frames, closing_frames_number_no_block, ends_properly, emit_epilogue, is_closing,
    timeout_message, timeout_text, StreamInput,
};
use crate::text::same;
use crate::types::claude::{Usage, END_TURN, MAX_TOKENS, TOOL_USE};
use crate::types::responses::{OutputItemAddedPayload, ResponsesStreamEvent, ResponsesUsage};
use crate::util::fix_json::{fix_json, fixed};
use crate::util::tool_id::{
    cleaned_is_an_id, generate, id_or, is_generated_id, is_id, sanitize_or,
};
use crate::util::tool_name::{restore, restored, ToolNameMap};

verus! {

/// How far the stream has come.
#[derive(Debug, Clone, Copy, PartialEq, Eq, Structural)]
pub enum Phase {
    /// Events of the upstream are awaited.
    Streaming,
    /// The message is to be ended.
    Epilogue,
    /// The message has ended.
    Done,
}

/// The state of the translation.
#[derive(Debug)]
pub struct ConverterState {
    /// The index of the current block.
    pub block_index: usize,
    /// Whether the answer has a function call.
    pub has_tool_call: bool,
    /// Whether the current function call has sent pieces of its arguments.
    pub has_received_arguments_delta: bool,
    /// The pieces that it has sent.
    pub args_buffer: String,
    /// Why the answer ended, in the client's words.
    pub final_stop_reason: String,
    /// The token counts of the upstream.
    pub usage: Usage,
    pub phase: Phase,
    /// The estimate of the input tokens.
    pub estimated_input_tokens: u32,
    pub tool_name_map: ToolNameMap,
}

/// The model of a [`ConverterState`].
pub struct StateModel {
    pub block_index: nat,
    pub has_tool_call: bool,
    pub has_delta: bool,
    pub arguments: Seq<char>,
    pub stop_reason: Seq<char>,
    pub usage: Usage,
    pub phase: Phase,
    pub estimated: u32,
    pub names: Map<Seq<char>, Seq<char>>,
}

impl View for ConverterState {
    type V = StateModel;

    open spec fn view(&self) -> StateModel {
        StateModel {
            block_index: self.block_index as nat,
            has_tool_call: self.has_tool_call,
            has_delta: self.has_received_arguments_delta,
            arguments: self.args_buffer@,
            stop_reason: self.final_stop_reason@,
            usage: self.usage,
            phase: self.phase,
            estimated: self.estimated_input_tokens,
            names: self.tool_name_map@,
        }
    }
}

/// The state before the first event.
pub open spec fn initial_state(estimated: u32, names: Map<Seq<char>, Seq<char>>) -> StateModel {
    StateModel {
        block_index: 0,
        has_tool_call: false,
        has_delta: false,
        arguments: Seq::empty(),
        stop_reason: END_TURN@,
        usage: Usage { input_tokens: 0, output_tokens: 0, cache_read_input_tokens: None },
        phase: Phase::Streaming,
        estimated,
        names,
    }
}

// ---------------------------------------------------------------------------
// One event
// ---------------------------------------------------------------------------

/// `s`, or nothing but emptiness.
pub open spec fn or_empty(s: Option<String>) -> Seq<char> {
    match s {
        Some(s) => s@,
        None => Seq::empty(),
    }
}

/// The item is a function call.
pub open spec fn is_call(item: OutputItemAddedPayload) -> bool {
    item.item_type@ == "function_call"@
}

/// The arguments of the current function call: the pieces, if any came, or
/// else what comes at their end.
pub open spec fn whole_arguments(s: StateModel, arguments: Seq<char>) -> Seq<char> {
    if !s.has_delta && arguments.len() > 0 {
        arguments
    } else {
        s.arguments
    }
}

/// The upstream's counts, as the state keeps them.
pub open spec fn kept_usage(usage: ResponsesUsage) -> Usage {
    Usage {
        input_tokens: usage.input_tokens,
        output_tokens: usage.output_tokens,
        cache_read_input_tokens: if usage.input_tokens_details.cached_tokens > 0 {
            Some(usage.input_tokens_details.cached_tokens)
        } else {
            None
        },
    }
}

/// The frames that an event becomes. `fallback` is the id of a function call
/// that has none.
pub open spec fn event_frames(
    s: StateModel,
    event: ResponsesStreamEvent,
    fallback: Seq<char>,
) -> Seq<FrameModel> {
    let index = s.block_index;
    match event {
        ResponsesStreamEvent::Created { .. } => Seq::empty(),
        ResponsesStreamEvent::ReasoningSummaryPartAdded {  } => seq![
            FrameModel::ThinkingStart { index },
        ],
        ResponsesStreamEvent::ReasoningSummaryTextDelta { delta } => seq![
            FrameModel::ThinkingDelta { index, thinking: delta@ },
        ],
        ResponsesStreamEvent::ReasoningSummaryPartDone {  } => seq![
            FrameModel::BlockStop { index },
        ],
        ResponsesStreamEvent::ContentPartAdded {  } => seq![FrameModel::TextStart { index }],
        ResponsesStreamEvent::OutputTextDelta { delta } => seq![
            FrameModel::TextDelta { index, text: delta@ },
        ],
        ResponsesStreamEvent::ContentPartDone {  } => seq![FrameModel::BlockStop { index }],
        ResponsesStreamEvent::OutputItemAdded { item } => if is_call(item) {
            seq![
                FrameModel::ToolStart {
                    index,
                    id: id_or(or_empty(item.call_id), fallback),
                    name: restored(s.names, or_empty(item.name)),
                },
                FrameModel::InputDelta { index, partial_json: Seq::empty() },
            ]
        } else {
            Seq::empty()
        },
        ResponsesStreamEvent::FunctionCallArgumentsDelta { .. } => Seq::empty(),
        ResponsesStreamEvent::FunctionCallArgumentsDone { arguments } => seq![
            FrameModel::InputDelta {
                index,
                partial_json: fixed(whole_arguments(s, arguments@)),
            },
        ],
        ResponsesStreamEvent::OutputItemDone {  } => seq![FrameModel::BlockStop { index }],
        ResponsesStreamEvent::Completed { .. } => Seq::empty(),
    }
}

/// The state after an event.
pub open spec fn after_event(s: StateModel, event: ResponsesStreamEvent) -> StateModel {
    match event {
        ResponsesStreamEvent::ReasoningSummaryPartDone {  } => next_block(s),
        ResponsesStreamEvent::ContentPartDone {  } => next_block(s),
        ResponsesStreamEvent::OutputItemDone {  } => next_block(s),
        ResponsesStreamEvent::OutputItemAdded { item } => if is_call(item) {
            StateModel {
                has_tool_call: true,
                has_delta: false,
                arguments: Seq::empty(),
                ..s
            }
        } else {
            s
        },
        ResponsesStreamEvent::FunctionCallArgumentsDelta { delta } => StateModel {
            has_delta: true,
            arguments: s.arguments + delta@,
            ..s
        },
        ResponsesStreamEvent::Completed { response } => StateModel {
            stop_reason: if response.stop_reason.deep_view() == Some("max_tokens"@) {
                MAX_TOKENS@
            } else {
                END_TURN@
            },
            usage: match response.usage {
                Some(usage) => kept_usage(usage),
                None => s.usage,
            },
            phase: Phase::Epilogue,
            ..s
        },
        _ => s,
    }
}

/// The event ends the current block.
pub open spec fn ends_block(event: ResponsesStreamEvent) -> bool {
    event is ReasoningSummaryPartDone || event is ContentPartDone || event is OutputItemDone
}

/// The state with the next block as the current one.
pub open spec fn next_block(s: StateModel) -> StateModel {
    StateModel { block_index: s.block_index + 1, ..s }
}

// ---------------------------------------------------------------------------
// One step
// ---------------------------------------------------------------------------

/// The frames that what came of waiting becomes, without the end of the
/// message.
pub open spec fn input_frames(
    s: StateModel,
    input: StreamInput<ResponsesStreamEvent>,
    fallback: Seq<char>,
) -> Seq<FrameModel> {
    match input {
        StreamInput::Event(event) => event_frames(s, event, fallback),
        StreamInput::Failed(error) => seq![FrameModel::Error { message: error.text() }],
        StreamInput::Ended => Seq::empty(),
        StreamInput::TimedOut { seconds } => seq![
            FrameModel::Error { message: timeout_text("idle"@, seconds) },
        ],
    }
}

/// The state after what came of waiting.
pub open spec fn after_input(
    s: StateModel,
    input: StreamInput<ResponsesStreamEvent>,
) -> StateModel {
    match input {
        StreamInput::Event(event) => after_event(s, event),
        _ => StateModel { phase: Phase::Epilogue, ..s },
    }
}

/// Why the message ends: a function call comes first.
pub open spec fn final_reason(s: StateModel) -> Seq<char> {
    if s.has_tool_call {
        TOOL_USE@
    } else {
        s.stop_reason
    }
}

/// The frames of a step: those of what came and, where that is the end, those
/// that end the message. A message that has ended gets no more frames.
pub open spec fn step_frames(
    s: StateModel,
    input: StreamInput<ResponsesStreamEvent>,
    fallback: Seq<char>,
) -> Seq<FrameModel> {
    let next = after_input(s, input);
    if s.phase == Phase::Streaming {
        if next.phase == Phase::Epilogue {
            input_frames(s, input, fallback) + closing_frames(
                final_reason(next),
                next.usage,
                next.estimated,
            )
        } else {
            input_frames(s, input, fallback)
        }
    } else {
        Seq::empty()
    }
}

/// The state after a step.
pub open spec fn after_step(s: StateModel, input: StreamInput<ResponsesStreamEvent>) -> StateModel {
    let next = after_input(s, input);
    if s.phase == Phase::Streaming {
        if next.phase == Phase::Epilogue {
            StateModel { phase: Phase::Done, ..next }
        } else {
            next
        }
    } else {
        s
    }
}

/// The next block, if the input asks for one, can be counted on this machine.
pub open spec fn fits(s: ConverterState, input: StreamInput<ResponsesStreamEvent>) -> bool {
    s.block_index < usize::MAX || !(input matches StreamInput::Event(event) && ends_block(event))
}

/// The input begins a function call without an id.
pub open spec fn needs_id(input: StreamInput<ResponsesStreamEvent>) -> bool {
    input matches StreamInput::Event(ResponsesStreamEvent::OutputItemAdded { item }) && is_call(item)
        && or_empty(item.call_id).len() == 0
}

/// `fallback` is a generated id where the input needs one.
pub open spec fn serves(input: StreamInput<ResponsesStreamEvent>, fallback: Seq<char>) -> bool {
    needs_id(input) ==> is_generated_id(fallback) && is_id(fallback)
}

/// The first frame of a message with the id `id`.
pub fn message_start(id: &str, model: &str) -> (r: Frame)
    ensures
        r.deep_view() == (FrameModel::MessageStart { id: id@, model: model@ }),
{
    Frame::MessageStart { id: id.to_string(), model: model.to_string() }
}

/// The first frame of a message, which is sent before the upstream has sent
/// anything.
pub fn synth_message_start(model: &str) -> (r: Frame)
    ensures
        r.deep_view() matches FrameModel::MessageStart { id, model: m } && is_message_id(id) && m
            == model@,
{
    let id = generate_message_id();
    message_start(id.as_str(), model)
}

impl ConverterState {
    /// The state before the first event.
    pub fn new(estimated_input_tokens: u32, tool_name_map: ToolNameMap) -> (r: ConverterState)
        ensures
            r@ == initial_state(estimated_input_tokens, tool_name_map@),
    {
        let state = ConverterState {
            block_index: 0,
            has_tool_call: false,
            has_received_arguments_delta: false,
            args_buffer: String::new(),
            final_stop_reason: END_TURN.to_string(),
            usage: Usage::default(),
            phase: Phase::Streaming,
            estimated_input_tokens,
            tool_name_map,
        };
        assert(state.args_buffer@ =~= Seq::<char>::empty());
        state
    }

    /// Tells whether the next block, if the input asks for one, can be counted
    /// on this machine.
    pub fn has_room(&self, input: &StreamInput<ResponsesStreamEvent>) -> (r: bool)
        ensures
            r == fits(*self, *input),
    {
        let ends = match input {
            StreamInput::Event(ResponsesStreamEvent::ReasoningSummaryPartDone {  }) => true,
            StreamInput::Event(ResponsesStreamEvent::ContentPartDone {  }) => true,
            StreamInput::Event(ResponsesStreamEvent::OutputItemDone {  }) => true,
            _ => false,
        };
        self.block_index < usize::MAX || !ends
    }

    /// Begins a function call.
    fn begin_call(&mut self, item: &OutputItemAddedPayload, fallback: &str, out: &mut Vec<Frame>)
        requires
            is_call(*item),
        ensures
            final(self)@ == after_event(
                old(self)@,
                ResponsesStreamEvent::OutputItemAdded { item: *item },
            ),
            final(out).deep_view() == old(out).deep_view() + event_frames(
                old(self)@,
                ResponsesStreamEvent::OutputItemAdded { item: *item },
                fallback@,
            ),
    {
        self.has_tool_call = true;
        self.has_received_arguments_delta = false;
        self.args_buffer = String::new();
        assert(self.args_buffer@ =~= Seq::<char>::empty());
        proof {
            reveal_strlit("");
            assert(""@ =~= Seq::<char>::empty());
        }
        let call_id = match &item.call_id {
            Some(call_id) => call_id.as_str(),
            None => "",
        };
        let name = match &item.name {
            Some(name) => name.as_str(),
            None => "",
        };
        out.push(
            Frame::ToolStart {
                index: self.block_index,
                id: sanitize_or(call_id, fallback),
                name: restore(&self.tool_name_map, name),
            },
        );
        out.push(Frame::InputDelta { index: self.block_index, partial_json: "".to_string() });
        assert(out.deep_view() =~= old(out).deep_view() + event_frames(
            old(self)@,
            ResponsesStreamEvent::OutputItemAdded { item: *item },
            fallback@,
        ));
    }

    /// Ends the current block.
    fn end_block(&mut self, out: &mut Vec<Frame>)
        requires
            old(self).block_index < usize::MAX,
        ensures
            final(self)@ == next_block(old(self)@),
            final(out).deep_view() == old(out).deep_view() + seq![
                FrameModel::BlockStop { index: old(self)@.block_index },
            ],
    {
        out.push(Frame::BlockStop { index: self.block_index });
        self.block_index += 1;
        assert(out.deep_view() =~= old(out).deep_view() + seq![
            FrameModel::BlockStop { index: old(self)@.block_index },
        ]);
    }

    /// Takes an event of the upstream. `fallback` is the id of a function call
    /// that has none.
    pub fn process_event_with(
        &mut self,
        event: &ResponsesStreamEvent,
        fallback: &str,
        out: &mut Vec<Frame>,
    )
        requires
            old(self).block_index < usize::MAX || !ends_block(*event),
        ensures
            final(self)@ == after_event(old(self)@, *event),
            final(out).deep_view() == old(out).deep_view() + event_frames(
                old(self)@,
                *event,
                fallback@,
            ),
    {
        let index: usize = self.block_index;
        match event {
            ResponsesStreamEvent::Created { .. } => {},
            ResponsesStreamEvent::ReasoningSummaryPartAdded {  } => {
                out.push(Frame::ThinkingStart { index });
            },
            ResponsesStreamEvent::ReasoningSummaryTextDelta { delta } => {
                out.push(Frame::ThinkingDelta { index, thinking: delta.clone() });
            },
            ResponsesStreamEvent::ReasoningSummaryPartDone {  } => self.end_block(out),
            ResponsesStreamEvent::ContentPartAdded {  } => {
                out.push(Frame::TextStart { index });
            },
            ResponsesStreamEvent::OutputTextDelta { delta } => {
                out.push(Frame::TextDelta { index, text: delta.clone() });
            },
            ResponsesStreamEvent::ContentPartDone {  } => self.end_block(out),
            ResponsesStreamEvent::OutputItemAdded { item } => {
                if same(item.item_type.as_str(), "function_call") {
                    self.begin_call(item, fallback, out);
                }
            },
            ResponsesStreamEvent::FunctionCallArgumentsDelta { delta } => {
                self.has_received_arguments_delta = true;
                self.args_buffer.push_str(delta.as_str());
            },
            ResponsesStreamEvent::FunctionCallArgumentsDone { arguments } => {
                proof {
                    reveal_strlit("");
                    if arguments@.len() == 0 {
                        assert(arguments@ =~= ""@);
                    }
                }
                let repaired = if !self.has_received_arguments_delta && !same(
                    arguments.as_str(),
                    "",
                ) {
                    fix_json(arguments.as_str())
                } else {
                    fix_json(self.args_buffer.as_str())
                };
                out.push(Frame::InputDelta { index, partial_json: repaired });
            },
            ResponsesStreamEvent::OutputItemDone {  } => self.end_block(out),
            ResponsesStreamEvent::Completed { response } => {
                let limit_hit = match &response.stop_reason {
                    Some(reason) => same(reason.as_str(), "max_tokens"),
                    None => false,
                };
                self.final_stop_reason = if limit_hit {
                    MAX_TOKENS.to_string()
                } else {
                    END_TURN.to_string()
                };
                match &response.usage {
                    Some(usage) => {
                        let cached: u32 = usage.input_tokens_details.cached_tokens;
                        self.usage = Usage {
                            input_tokens: usage.input_tokens,
                            output_tokens: usage.output_tokens,
                            cache_read_input_tokens: if cached > 0 {
                                Some(cached)
                            } else {
                                None
                            },
                        };
                    },
                    None => {},
                }
                self.phase = Phase::Epilogue;
            },
        }
        assert(out.deep_view() =~= old(out).deep_view() + event_frames(
            old(self)@,
            *event,
            fallback@,
        ));
    }

    /// Takes a step with `fallback` as the id of a function call that has
    /// none, and gives back the frames that go to the client.
    pub fn step_with(
        &mut self,
        input: &StreamInput<ResponsesStreamEvent>,
        fallback: &str,
    ) -> (r: Vec<Frame>)
        requires
            fits(*old(self), *input),
        ensures
            final(self)@ == after_step(old(self)@, *input),
            r.deep_view() == step_frames(old(self)@, *input, fallback@),
    {
        let mut out: Vec<Frame> = Vec::new();
        assert(out.deep_view() =~= Seq::<FrameModel>::empty());
        if self.phase != Phase::Streaming {
            return out;
        }
        match input {
            StreamInput::Event(event) => {
                self.process_event_with(event, fallback, &mut out);
            },
            StreamInput::Failed(error) => {
                out.push(Frame::Error { message: error.message() });
                self.phase = Phase::Epilogue;
            },
            StreamInput::Ended => {
                self.phase = Phase::Epilogue;
            },
            StreamInput::TimedOut { seconds } => {
                out.push(Frame::Error { message: timeout_message("idle", *seconds) });
                self.phase = Phase::Epilogue;
            },
        }
        assert(out.deep_view() =~= input_frames(old(self)@, *input, fallback@));
        if self.phase == Phase::Epilogue {
            let stop_reason = if self.has_tool_call {
                TOOL_USE
            } else {
                self.final_stop_reason.as_str()
            };
            emit_epilogue(&mut out, stop_reason, &self.usage, self.estimated_input_tokens);
            self.phase = Phase::Done;
        }
        out
    }

    /// Takes a step. A function call without an id gets a generated one.
    pub fn step(&mut self, input: &StreamInput<ResponsesStreamEvent>) -> (r: Vec<Frame>)
        requires
            fits(*old(self), *input),
        ensures
            final(self)@ == after_step(old(self)@, *input),
            exists|fallback: Seq<char>| #[trigger]
                serves(*input, fallback) && r.deep_view() == step_frames(
                    old(self)@,
                    *input,
                    fallback,
                ),
    {
        let needed = match input {
            StreamInput::Event(ResponsesStreamEvent::OutputItemAdded { item }) => match &item.call_id {
                Some(call_id) => {
                    proof {
                        reveal_strlit("");
                        if call_id@.len() == 0 {
                            assert(call_id@ =~= ""@);
                        }
                    }
                    same(call_id.as_str(), "")
                },
                None => true,
            },
            _ => false,
        };
        let fallback = if needed {
            generate()
        } else {
            String::new()
        };
        assert(serves(*input, fallback@));
        self.step_with(input, fallback.as_str())
    }
}

// ---------------------------------------------------------------------------
// A whole stream
// ---------------------------------------------------------------------------

/// The state after all of `inputs`.
pub open spec fn after_run(
    s: StateModel,
    inputs: Seq<StreamInput<ResponsesStreamEvent>>,
) -> StateModel
    decreases inputs.len(),
{
    if inputs.len() == 0 {
        s
    } else {
        after_step(after_run(s, inputs.drop_last()), inputs.last())
    }
}

/// The frames of all of `inputs`. `ids` holds an id for each input that needs
/// one.
pub open spec fn run_frames(
    s: StateModel,
    inputs: Seq<StreamInput<ResponsesStreamEvent>>,
    ids: Seq<Seq<char>>,
) -> Seq<FrameModel>
    decreases inputs.len(),
{
    if inputs.len() == 0 {
        Seq::empty()
    } else {
        run_frames(s, inputs.drop_last(), ids) + step_frames(
            after_run(s, inputs.drop_last()),
            inputs.last(),
            ids[inputs.len() - 1],
        )
    }
}

/// The input is the end of the upstream's stream, by itself or by an event.
pub open spec fn is_end(input: StreamInput<ResponsesStreamEvent>) -> bool {
    match input {
        StreamInput::Event(event) => event is Completed,
        _ => true,
    }
}

/// The message ends once and properly: as soon as the upstream's stream is
/// over, however it is, and not before. Nothing follows.
pub proof fn message_ends_once(
    s: StateModel,
    inputs: Seq<StreamInput<ResponsesStreamEvent>>,
    ids: Seq<Seq<char>>,
)
    requires
        s.phase == Phase::Streaming,
    ensures
        (exists|k: int| 0 <= k < inputs.len() && is_end(#[trigger] inputs[k])) <==> after_run(
            s,
            inputs,
        ).phase == Phase::Done,
        after_run(s, inputs).phase != Phase::Epilogue,
        after_run(s, inputs).phase == Phase::Done ==> ends_properly(run_frames(s, inputs, ids)),
        after_run(s, inputs).phase == Phase::Streaming ==> forall|i: int|
            0 <= i < run_frames(s, inputs, ids).len() ==> !is_closing(
                #[trigger] run_frames(s, inputs, ids)[i],
            ),
    decreases inputs.len(),
{
    if inputs.len() > 0 {
        let rest = inputs.drop_last();
        let last = inputs.last();
        let before = after_run(s, rest);
        message_ends_once(s, rest, ids);
        assert(inputs[inputs.len() - 1] == last);
        if exists|k: int| 0 <= k < rest.len() && is_end(#[trigger] rest[k]) {
            let k = choose|k: int| 0 <= k < rest.len() && is_end(#[trigger] rest[k]);
            assert(is_end(inputs[k]));
        }
        if exists|k: int| 0 <= k < inputs.len() && is_end(#[trigger] inputs[k]) {
            let k = choose|k: int| 0 <= k < inputs.len() && is_end(#[trigger] inputs[k]);
            if k < rest.len() {
                assert(is_end(rest[k]));
            }
        }
        if before.phase == Phase::Done {
            assert(run_frames(s, inputs, ids) =~= run_frames(s, rest, ids));
        } else {
            let step = step_frames(before, last, ids[inputs.len() - 1]);
            let added = input_frames(before, last, ids[inputs.len() - 1]);
            assert(forall|i: int| 0 <= i < added.len() ==> !is_closing(#[trigger] added[i]));
            let frames = run_frames(s, inputs, ids);
            let earlier = run_frames(s, rest, ids);
            assert forall|i: int| 0 <= i < earlier.len() + added.len() implies !is_closing(
                #[trigger] frames[i],
            ) by {
                if i < earlier.len() {
                    assert(frames[i] == earlier[i]);
                } else {
                    assert(frames[i] == added[i - earlier.len()]);
                }
            }
        }
    }
}

/// The input is a failure or a timeout.
pub open spec fn is_failure(input: StreamInput<ResponsesStreamEvent>) -> bool {
    input is Failed || input is TimedOut
}

/// A failure or a timeout comes before any other end of the upstream's stream.
pub open spec fn breaks_off(inputs: Seq<StreamInput<ResponsesStreamEvent>>) -> bool {
    exists|k: int|
        0 <= k < inputs.len() && is_failure(#[trigger] inputs[k]) && !has_end(inputs.take(k))
}

/// One of `inputs` is the end of the upstream's stream.
pub open spec fn has_end(inputs: Seq<StreamInput<ResponsesStreamEvent>>) -> bool {
    exists|k: int| 0 <= k < inputs.len() && is_end(#[trigger] inputs[k])
}

proof fn step_tells_errors(
    s: StateModel,
    input: StreamInput<ResponsesStreamEvent>,
    fallback: Seq<char>,
)
    ensures
        has_error(step_frames(s, input, fallback)) == (s.phase == Phase::Streaming && is_failure(
            input,
        )),
{
    let frames = step_frames(s, input, fallback);
    if s.phase == Phase::Streaming && is_failure(input) {
        assert(frames[0] is Error);
    }
}

proof fn breaks_off_step(inputs: Seq<StreamInput<ResponsesStreamEvent>>)
    requires
        inputs.len() > 0,
    ensures
        breaks_off(inputs) == (breaks_off(inputs.drop_last()) || (is_failure(inputs.last())
            && !has_end(inputs.drop_last()))),
{
    let rest = inputs.drop_last();
    let n = inputs.len() - 1;
    assert(inputs.take(n) =~= rest);
    if breaks_off(inputs) {
        let k = choose|k: int|
            0 <= k < inputs.len() && is_failure(#[trigger] inputs[k]) && !has_end(inputs.take(k));
        if k < n {
            assert(rest[k] == inputs[k]);
            assert(rest.take(k) =~= inputs.take(k));
        }
    }
    if breaks_off(rest) {
        let k = choose|k: int|
            0 <= k < rest.len() && is_failure(#[trigger] rest[k]) && !has_end(rest.take(k));
        assert(inputs[k] == rest[k]);
        assert(rest.take(k) =~= inputs.take(k));
    }
    if is_failure(inputs.last()) && !has_end(rest) {
        assert(is_failure(inputs[n]));
    }
}

/// The client is told of an error exactly where a failure or a timeout ends
/// the upstream's stream.
pub proof fn errors_are_told(
    s: StateModel,
    inputs: Seq<StreamInput<ResponsesStreamEvent>>,
    ids: Seq<Seq<char>>,
)
    requires
        s.phase == Phase::Streaming,
    ensures
        has_error(run_frames(s, inputs, ids)) <==> breaks_off(inputs),
    decreases inputs.len(),
{
    if inputs.len() > 0 {
        let rest = inputs.drop_last();
        let before = after_run(s, rest);
        let step = step_frames(before, inputs.last(), ids[inputs.len() - 1]);
        errors_are_told(s, rest, ids);
        message_ends_once(s, rest, ids);
        step_tells_errors(before, inputs.last(), ids[inputs.len() - 1]);
        has_error_concat(run_frames(s, rest, ids), step);
        breaks_off_step(inputs);
    }
}

/// The message begins once: what the upstream sends never begins another.
pub proof fn message_begins_once(
    s: StateModel,
    inputs: Seq<StreamInput<ResponsesStreamEvent>>,
    ids: Seq<Seq<char>>,
    i: int,
)
    requires
        0 <= i < run_frames(s, inputs, ids).len(),
    ensures
        !(run_frames(s, inputs, ids)[i] is MessageStart),
    decreases inputs.len(),
{
    let rest = inputs.drop_last();
    if i < run_frames(s, rest, ids).len() {
        message_begins_once(s, rest, ids, i);
    }
}

/// Blocks are numbered from 0 on, one after the other: each frame carries the
/// number of blocks that have ended before it.
pub proof fn blocks_are_numbered(
    s: StateModel,
    inputs: Seq<StreamInput<ResponsesStreamEvent>>,
    ids: Seq<Seq<char>>,
)
    ensures
        counts_blocks(run_frames(s, inputs, ids), s.block_index),
        after_run(s, inputs).block_index == s.block_index + blocks_ended(
            run_frames(s, inputs, ids),
        ),
    decreases inputs.len(),
{
    if inputs.len() > 0 {
        let rest = inputs.drop_last();
        let before = after_run(s, rest);
        let earlier = run_frames(s, rest, ids);
        let step = step_frames(before, inputs.last(), ids[inputs.len() - 1]);
        blocks_are_numbered(s, rest, ids);
        step_numbers_blocks(before, inputs.last(), ids[inputs.len() - 1]);
        counts_blocks_concat(earlier, step, s.block_index);
        blocks_ended_concat(earlier, step);
    }
}

proof fn step_numbers_blocks(
    s: StateModel,
    input: StreamInput<ResponsesStreamEvent>,
    fallback: Seq<char>,
)
    ensures
        counts_blocks(step_frames(s, input, fallback), s.block_index),
        after_step(s, input).block_index == s.block_index + blocks_ended(
            step_frames(s, input, fallback),
        ),
{
    if s.phase == Phase::Streaming {
        let next = after_input(s, input);
        let added = input_frames(s, input, fallback);
        input_numbers_blocks(s, input, fallback);
        if next.phase == Phase::Epilogue {
            let closing = closing_frames(final_reason(next), next.usage, next.estimated);
            closing_frames_number_no_block(
                final_reason(next),
                next.usage,
                next.estimated,
                next.block_index,
            );
            counts_blocks_concat(added, closing, s.block_index);
            blocks_ended_concat(added, closing);
        }
    }
}

proof fn input_numbers_blocks(
    s: StateModel,
    input: StreamInput<ResponsesStreamEvent>,
    fallback: Seq<char>,
)
    ensures
        counts_blocks(input_frames(s, input, fallback), s.block_index),
        after_input(s, input).block_index == s.block_index + blocks_ended(
            input_frames(s, input, fallback),
        ),
{
    let frames = input_frames(s, input, fallback);
    if frames.len() == 1 {
        one_frame(frames[0], s.block_index);
        assert(frames =~= seq![frames[0]]);
    } else if frames.len() == 2 {
        one_frame(frames[0], s.block_index);
        one_frame(frames[1], s.block_index);
        assert(frames =~= seq![frames[0]] + seq![frames[1]]);
        counts_blocks_concat(seq![frames[0]], seq![frames[1]], s.block_index);
        blocks_ended_concat(seq![frames[0]], seq![frames[1]]);
    }
}

/// A message that has ended says why, and how many tokens it took, by what the
/// stream has brought.
pub proof fn end_tells_what_came(
    s: StateModel,
    inputs: Seq<StreamInput<ResponsesStreamEvent>>,
    ids: Seq<Seq<char>>,
)
    requires
        s.phase == Phase::Streaming,
        after_run(s, inputs).phase == Phase::Done,
    ensures
        ({
            let frames = run_frames(s, inputs, ids);
            let end = after_run(s, inputs);
            frames.len() >= 2 && frames.skip(frames.len() - 2) == closing_frames(
                final_reason(end),
                end.usage,
                end.estimated,
            )
        }),
    decreases inputs.len(),
{
    let rest = inputs.drop_last();
    let before = after_run(s, rest);
    let frames = run_frames(s, inputs, ids);
    message_ends_once(s, rest, ids);
    if before.phase == Phase::Done {
        end_tells_what_came(s, rest, ids);
        assert(frames =~= run_frames(s, rest, ids));
    } else {
        let end = after_run(s, inputs);
        assert(frames.skip(frames.len() - 2) =~= closing_frames(
            final_reason(end),
            end.usage,
            end.estimated,
        ));
    }
}

/// The input begins a function call.
pub open spec fn begins_call(input: StreamInput<ResponsesStreamEvent>) -> bool {
    input matches StreamInput::Event(ResponsesStreamEvent::OutputItemAdded { item }) && is_call(
        item,
    )
}

/// A message with a function call ends for the sake of it, whatever the
/// upstream says.
pub proof fn function_call_decides_the_stop_reason(
    s: StateModel,
    inputs: Seq<StreamInput<ResponsesStreamEvent>>,
    ids: Seq<Seq<char>>,
    k: int,
)
    requires
        s.phase == Phase::Streaming,
        after_run(s, inputs).phase == Phase::Done,
        0 <= k < inputs.len(),
        begins_call(inputs[k]),
        after_run(s, inputs.take(k)).phase == Phase::Streaming,
    ensures
        ({
            let frames = run_frames(s, inputs, ids);
            &&& frames.len() >= 2
            &&& frames[frames.len() - 2] matches FrameModel::MessageDelta { stop_reason, .. }
            &&& stop_reason == TOOL_USE@
        }),
{
    let frames = run_frames(s, inputs, ids);
    end_tells_what_came(s, inputs, ids);
    assert(frames.skip(frames.len() - 2)[0] == frames[frames.len() - 2]);
    call_is_remembered(s, inputs, k);
}

proof fn call_is_remembered(
    s: StateModel,
    inputs: Seq<StreamInput<ResponsesStreamEvent>>,
    k: int,
)
    requires
        0 <= k < inputs.len(),
        begins_call(inputs[k]),
        after_run(s, inputs.take(k)).phase == Phase::Streaming,
    ensures
        after_run(s, inputs).has_tool_call,
    decreases inputs.len(),
{
    if k == inputs.len() - 1 {
        assert(inputs.take(k) =~= inputs.drop_last());
    } else {
        assert(inputs.drop_last().take(k) =~= inputs.take(k));
        call_is_remembered(s, inputs.drop_last(), k);
    }
}

/// Every tool block that goes out has an id that the Messages API takes.
pub proof fn tool_blocks_have_ids(
    s: StateModel,
    input: StreamInput<ResponsesStreamEvent>,
    fallback: Seq<char>,
    i: int,
)
    requires
        serves(input, fallback),
        0 <= i < step_frames(s, input, fallback).len(),
    ensures
        step_frames(s, input, fallback)[i] matches FrameModel::ToolStart { id, .. } ==> is_id(id),
{
    if let StreamInput::Event(ResponsesStreamEvent::OutputItemAdded { item }) = input {
        cleaned_is_an_id(or_empty(item.call_id));
    }
}

/// The state after `events`, none of which ends the stream.
pub open spec fn after_events(s: StateModel, events: Seq<ResponsesStreamEvent>) -> StateModel
    decreases events.len(),
{
    if events.len() == 0 {
        s
    } else {
        after_event(after_events(s, events.drop_last()), events.last())
    }
}

/// The pieces of arguments that `events` bring, one behind the other.
pub open spec fn joined_pieces(events: Seq<ResponsesStreamEvent>) -> Seq<char>
    decreases events.len(),
{
    if events.len() == 0 {
        Seq::empty()
    } else {
        joined_pieces(events.drop_last()) + match events.last() {
            ResponsesStreamEvent::FunctionCallArgumentsDelta { delta } => delta@,
            _ => Seq::empty(),
        }
    }
}

/// In whatever pieces the arguments of a function call come, they go to the
/// client in one, repaired; where no piece came, those that come at the end do.
pub proof fn arguments_go_out_in_one_piece(
    s: StateModel,
    item: OutputItemAddedPayload,
    pieces: Seq<ResponsesStreamEvent>,
    arguments: String,
    fallback: Seq<char>,
)
    requires
        is_call(item),
        forall|i: int|
            0 <= i < pieces.len() ==> (#[trigger] pieces[i]) is FunctionCallArgumentsDelta,
    ensures
        ({
            let begun = after_event(s, ResponsesStreamEvent::OutputItemAdded { item });
            event_frames(
                after_events(begun, pieces),
                ResponsesStreamEvent::FunctionCallArgumentsDone { arguments },
                fallback,
            ) == seq![
                FrameModel::InputDelta {
                    index: s.block_index,
                    partial_json: fixed(
                        if pieces.len() > 0 {
                            joined_pieces(pieces)
                        } else {
                            arguments@
                        },
                    ),
                },
            ]
        }),
{
    let begun = after_event(s, ResponsesStreamEvent::OutputItemAdded { item });
    pieces_are_collected(begun, pieces);
    assert(Seq::<char>::empty() + joined_pieces(pieces) =~= joined_pieces(pieces));
    if pieces.len() == 0 && arguments@.len() == 0 {
        assert(arguments@ =~= Seq::<char>::empty());
    }
}

proof fn pieces_are_collected(s: StateModel, pieces: Seq<ResponsesStreamEvent>)
    requires
        forall|i: int|
            0 <= i < pieces.len() ==> (#[trigger] pieces[i]) is FunctionCallArgumentsDelta,
    ensures
        after_events(s, pieces).arguments == s.arguments + joined_pieces(pieces),
        after_events(s, pieces).has_delta == (s.has_delta || pieces.len() > 0),
        after_events(s, pieces).block_index == s.block_index,
    decreases pieces.len(),
{
    if pieces.len() == 0 {
        assert(s.arguments + joined_pieces(pieces) =~= s.arguments);
    } else {
        assert(pieces[pieces.len() - 1] is FunctionCallArgumentsDelta);
        pieces_are_collected(s, pieces.drop_last());
        assert(s.arguments + joined_pieces(pieces) =~= after_events(s, pieces).arguments);
    }
}

} // verus!
