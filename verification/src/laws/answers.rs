//! Complete answers of both upstream APIs, as the client reads them.

use vstd::prelude::*;

use crate::convert::message::call_block;
use crate::convert::response::{
    all_calls, call_blocks, function_call, outer_calls, text_blocks, translated_answer,
};
use crate::convert::responses::response::{
    has_call, item_blocks, joined_summary, output_blocks, part_block, part_blocks, thinking_text,
    translated_response,
};
use crate::json::{array_tree, array_tree_items, Json, Tree};
use crate::laws::chat_stream::counts_follow;
use crate::laws::wire::{text, under};
use crate::types::claude::{ResponseContentBlockModel, Usage};
use crate::types::openai::{
    call_of, calls_of, content_of, joined_text, nested_calls, AssistantContent,
    ChatCompletionResponse, ContentModel, ToolCallModel,
};
use crate::types::responses::{
    ContentPart, ContentPartModel, OutputItem, OutputItemModel, ResponsesResponse,
};
use crate::util::fix_json::leniently_parsed;
use crate::util::tool_id::cleaned;
use crate::util::tool_name::restored;

verus! {

// ---------------------------------------------------------------------------
// What the client reads
// ---------------------------------------------------------------------------

/// The text that a client shows: that of the text blocks, one behind the other.
pub open spec fn shown_text(blocks: Seq<ResponseContentBlockModel>) -> Seq<char>
    decreases blocks.len(),
{
    if blocks.len() == 0 {
        Seq::empty()
    } else {
        shown_text(blocks.drop_last()) + match blocks.last() {
            ResponseContentBlockModel::Text { text } => text,
            _ => Seq::empty(),
        }
    }
}

/// The tool calls of a message, in their order.
pub open spec fn tool_uses(blocks: Seq<ResponseContentBlockModel>) -> Seq<ResponseContentBlockModel>
    decreases blocks.len(),
{
    if blocks.len() == 0 {
        Seq::empty()
    } else if blocks.last() is ToolUse {
        tool_uses(blocks.drop_last()).push(blocks.last())
    } else {
        tool_uses(blocks.drop_last())
    }
}

proof fn read_concat(a: Seq<ResponseContentBlockModel>, b: Seq<ResponseContentBlockModel>)
    ensures
        shown_text(a + b) == shown_text(a) + shown_text(b),
        tool_uses(a + b) == tool_uses(a) + tool_uses(b),
    decreases b.len(),
{
    if b.len() == 0 {
        assert(a + b =~= a);
        assert(shown_text(a) + shown_text(b) =~= shown_text(a));
        assert(tool_uses(a) + tool_uses(b) =~= tool_uses(a));
    } else {
        assert((a + b).drop_last() =~= a + b.drop_last());
        read_concat(a, b.drop_last());
        assert(shown_text(a + b) =~= shown_text(a) + shown_text(b));
        assert(tool_uses(a + b) =~= tool_uses(a) + tool_uses(b));
    }
}

proof fn read_one(block: ResponseContentBlockModel)
    ensures
        shown_text(seq![block]) == (match block {
            ResponseContentBlockModel::Text { text } => text,
            _ => Seq::empty(),
        }),
        tool_uses(seq![block]) == if block is ToolUse {
            seq![block]
        } else {
            Seq::empty()
        },
{
    reveal_with_fuel(shown_text, 2);
    reveal_with_fuel(tool_uses, 2);
    assert(seq![block].drop_last() =~= Seq::<ResponseContentBlockModel>::empty());
    assert(shown_text(seq![block]) =~= match block {
        ResponseContentBlockModel::Text { text } => text,
        _ => Seq::empty(),
    });
    assert(tool_uses(seq![block]) =~= if block is ToolUse {
        seq![block]
    } else {
        Seq::empty()
    });
}

/// The block is the call of a tool with this id, name and arguments: the id
/// with only the characters that the client takes, the declared spelling of the
/// name, and what the arguments stand for, or else the arguments themselves.
pub open spec fn is_use_of(
    block: ResponseContentBlockModel,
    id: Seq<char>,
    name: Seq<char>,
    arguments: Seq<char>,
    names: Map<Seq<char>, Seq<char>>,
) -> bool {
    &&& block matches ResponseContentBlockModel::ToolUse { id: got_id, name: got_name, input }
    &&& id.len() > 0 ==> got_id == cleaned(id)
    &&& got_name == restored(names, name)
    &&& leniently_parsed(arguments) matches Some(value) ==> input == value
    &&& leniently_parsed(arguments) is None ==> under(input, "raw_arguments"@) == text(arguments)
}

// ---------------------------------------------------------------------------
// The Chat Completions API
// ---------------------------------------------------------------------------

/// The text of those of the parts that are texts, one behind the other.
pub open spec fn texts_of_parts(parts: Seq<Json>) -> Seq<char>
    decreases parts.len(),
{
    if parts.len() == 0 {
        Seq::empty()
    } else {
        texts_of_parts(parts.drop_last()) + match under(parts.last()@, "text"@) {
            Tree::Text(s) => if under(parts.last()@, "type"@) == text("text"@) {
                s
            } else {
                Seq::empty()
            },
            _ => Seq::empty(),
        }
    }
}

/// The text of the first choice of an answer.
pub open spec fn sent_text(response: ChatCompletionResponse) -> Seq<char> {
    if response.choices@.len() > 0 {
        match response.choices@[0].message.content {
            AssistantContent::Text(s) => s@,
            AssistantContent::Parts(parts) => texts_of_parts(parts@),
            AssistantContent::Empty => Seq::empty(),
        }
    } else {
        Seq::empty()
    }
}

/// The tool calls beside the content of the first choice, field by field.
pub open spec fn calls_beside(response: ChatCompletionResponse) -> Seq<ToolCallModel> {
    if response.choices@.len() > 0 && response.choices@[0].message.tool_calls is Some {
        let calls = response.choices@[0].message.tool_calls->0@;
        Seq::new(
            calls.len(),
            |i: int|
                ToolCallModel {
                    id: calls[i].id@,
                    call_type: calls[i].call_type@,
                    name: calls[i].function.name@,
                    arguments: calls[i].function.arguments@,
                },
        )
    } else {
        Seq::empty()
    }
}

/// The tool calls inside the content of the first choice.
pub open spec fn calls_inside(response: ChatCompletionResponse) -> Seq<ToolCallModel> {
    if response.choices@.len() > 0 {
        match response.choices@[0].message.content {
            AssistantContent::Parts(parts) => calls_in_parts(parts@),
            _ => Seq::empty(),
        }
    } else {
        Seq::empty()
    }
}

/// The tool calls of those of the parts that hold some.
pub open spec fn calls_in_parts(parts: Seq<Json>) -> Seq<ToolCallModel>
    decreases parts.len(),
{
    if parts.len() == 0 {
        Seq::empty()
    } else {
        calls_in_parts(parts.drop_last()) + match under(parts.last()@, "tool_calls"@) {
            Tree::Array(values) => if under(parts.last()@, "type"@) == text("tool_calls"@) {
                calls_in_values(values)
            } else {
                Seq::empty()
            },
            _ => Seq::empty(),
        }
    }
}

/// The tool calls that the values are; what is none is skipped.
pub open spec fn calls_in_values(values: Seq<Tree>) -> Seq<ToolCallModel>
    decreases values.len(),
{
    if values.len() == 0 {
        Seq::empty()
    } else {
        let earlier = calls_in_values(values.drop_last());
        match call_of(values.last()) {
            Some(call) => earlier.push(call),
            None => earlier,
        }
    }
}

/// Those of the calls that call a function.
pub open spec fn function_calls(calls: Seq<ToolCallModel>) -> Seq<ToolCallModel>
    decreases calls.len(),
{
    if calls.len() == 0 {
        Seq::empty()
    } else if calls.last().call_type == "function"@ {
        function_calls(calls.drop_last()).push(calls.last())
    } else {
        function_calls(calls.drop_last())
    }
}

proof fn parts_are_read(parts: Seq<Json>, trees: Seq<Tree>)
    requires
        trees.len() == parts.len(),
        forall|i: int| 0 <= i < parts.len() ==> #[trigger] trees[i] == parts[i]@,
    ensures
        joined_text(trees) == texts_of_parts(parts),
        nested_calls(trees) == calls_in_parts(parts),
    decreases parts.len(),
{
    if parts.len() > 0 {
        let rest = parts.drop_last();
        assert forall|i: int| 0 <= i < rest.len() implies #[trigger] trees.drop_last()[i]
            == rest[i]@ by {
            assert(trees[i] == parts[i]@);
        }
        parts_are_read(rest, trees.drop_last());
        assert(trees[parts.len() - 1] == parts[parts.len() - 1]@);
        if let Tree::Array(values) = under(parts.last()@, "tool_calls"@) {
            values_are_read(values);
        }
    }
}

proof fn values_are_read(values: Seq<Tree>)
    ensures
        calls_of(values) == calls_in_values(values),
    decreases values.len(),
{
    if values.len() > 0 {
        values_are_read(values.drop_last());
    }
}

proof fn answer_is_read(response: ChatCompletionResponse)
    ensures
        all_calls(response) == calls_beside(response) + calls_inside(response),
        shown_text(text_blocks(response)) == sent_text(response),
        tool_uses(text_blocks(response)).len() == 0,
        text_blocks(response).len() <= 1,
{
    if response.choices@.len() > 0 {
        let message = response.choices@[0].message;
        if let AssistantContent::Parts(parts) = message.content {
            array_tree_items(parts@);
            parts_are_read(parts@, array_tree(parts@));
        }
        assert(outer_calls(response) =~= calls_beside(response));
        assert(all_calls(response) =~= calls_beside(response) + calls_inside(response));
        if sent_text(response).len() > 0 {
            read_one(ResponseContentBlockModel::Text { text: sent_text(response) });
            assert(text_blocks(response) =~= seq![
                ResponseContentBlockModel::Text { text: sent_text(response) },
            ]);
        } else {
            assert(sent_text(response) =~= Seq::<char>::empty());
        }
    } else {
        assert(all_calls(response) =~= calls_beside(response) + calls_inside(response));
    }
}

proof fn calls_are_blocks(
    calls: Seq<ToolCallModel>,
    names: Map<Seq<char>, Seq<char>>,
    ids: Seq<Seq<char>>,
)
    ensures
        tool_uses(call_blocks(calls, names, ids)) == call_blocks(calls, names, ids),
        shown_text(call_blocks(calls, names, ids)).len() == 0,
        call_blocks(calls, names, ids).len() == function_calls(calls).len(),
        forall|k: int|
            0 <= k < function_calls(calls).len() ==> is_use_of(
                #[trigger] call_blocks(calls, names, ids)[k],
                function_calls(calls)[k].id,
                function_calls(calls)[k].name,
                function_calls(calls)[k].arguments,
                names,
            ),
    decreases calls.len(),
{
    if calls.len() > 0 {
        let rest = calls.drop_last();
        let earlier = call_blocks(rest, names, ids);
        calls_are_blocks(rest, names, ids);
        if calls.last().call_type == "function"@ {
            let block = call_block(function_call(calls.last()), names, ids[calls.len() - 1]);
            assert(earlier.push(block) =~= earlier + seq![block]);
            read_concat(earlier, seq![block]);
            read_one(block);
            assert(tool_uses(earlier) + seq![block] =~= earlier.push(block));
        }
    }
}

/// An object inside the content is a tool call exactly where it has an id, a
/// type and a function with a name and arguments, all of them texts; the call
/// has just these.
pub proof fn nested_call_is_read(
    m: Map<Seq<char>, Tree>,
    id: Seq<char>,
    call_type: Seq<char>,
    name: Seq<char>,
    arguments: Seq<char>,
)
    ensures
        ({
            let value = Tree::Object(m);
            let function = under(value, "function"@);
            call_of(value) == Some(ToolCallModel { id, call_type, name, arguments })
                <==> (under(value, "id"@) == text(id) && under(value, "type"@) == text(call_type)
                && ((function is Object && under(function, "name"@) == text(name) && under(
                function,
                "arguments"@,
            ) == text(arguments)) || function == Tree::Array(seq![text(name), text(arguments)])))
        }),
{
    let function = under(Tree::Object(m), "function"@);
    if let Tree::Array(items) = function {
        if items.len() == 2 {
            assert(items =~= seq![items[0], items[1]]);
        }
    }
    if function == Tree::Array(seq![text(name), text(arguments)]) {
        assert(function->Array_0[0] == text(name));
        assert(function->Array_0[1] == text(arguments));
    }
}

/// The client shows the text of the first choice, all of it and nothing else,
/// whether it comes as one text or in parts.
pub proof fn answer_text_arrives_whole(
    response: ChatCompletionResponse,
    model: Seq<char>,
    estimated: u32,
    names: Map<Seq<char>, Seq<char>>,
    ids: Seq<Seq<char>>,
)
    ensures
        shown_text(translated_answer(response, model, estimated, names, ids).content) == sent_text(
            response,
        ),
{
    let first = text_blocks(response);
    let second = call_blocks(all_calls(response), names, ids);
    answer_is_read(response);
    calls_are_blocks(all_calls(response), names, ids);
    read_concat(first, second);
    assert(shown_text(first) + shown_text(second) =~= shown_text(first));
    if (first + second).len() == 0 {
        reveal_strlit("");
        read_one(ResponseContentBlockModel::Text { text: ""@ });
        assert(shown_text(first + second) =~= ""@);
    }
}

/// Every call of a function has a block of its own, in the same order: first
/// the calls beside the content, then those inside it. Each block carries the
/// id, the name and the arguments of its own call.
pub proof fn answer_calls_arrive_whole(
    response: ChatCompletionResponse,
    model: Seq<char>,
    estimated: u32,
    names: Map<Seq<char>, Seq<char>>,
    ids: Seq<Seq<char>>,
)
    ensures
        ({
            let uses = tool_uses(
                translated_answer(response, model, estimated, names, ids).content,
            );
            let calls = function_calls(calls_beside(response) + calls_inside(response));
            &&& uses.len() == calls.len()
            &&& forall|k: int|
                0 <= k < calls.len() ==> is_use_of(
                    #[trigger] uses[k],
                    calls[k].id,
                    calls[k].name,
                    calls[k].arguments,
                    names,
                )
        }),
{
    let first = text_blocks(response);
    let second = call_blocks(all_calls(response), names, ids);
    answer_is_read(response);
    calls_are_blocks(all_calls(response), names, ids);
    read_concat(first, second);
    assert(tool_uses(first) + tool_uses(second) =~= second);
    if (first + second).len() == 0 {
        read_one(ResponseContentBlockModel::Text { text: ""@ });
    }
}

/// A text stands before the tool calls.
pub proof fn answer_text_comes_first(
    response: ChatCompletionResponse,
    model: Seq<char>,
    estimated: u32,
    names: Map<Seq<char>, Seq<char>>,
    ids: Seq<Seq<char>>,
    k: int,
)
    requires
        0 < k < translated_answer(response, model, estimated, names, ids).content.len(),
    ensures
        translated_answer(response, model, estimated, names, ids).content[k] is ToolUse,
{
    let first = text_blocks(response);
    let second = call_blocks(all_calls(response), names, ids);
    answer_is_read(response);
    calls_are_blocks(all_calls(response), names, ids);
    assert((first + second)[k] == second[k - first.len()]);
}

/// The message is the assistant's, under the upstream's id and the client's
/// name of the model. It says why it ended: `tool_use` where there was any tool
/// call, and else what the upstream's word means. Its token counts follow from
/// the upstream's.
pub proof fn answer_head_and_end(
    response: ChatCompletionResponse,
    model: Seq<char>,
    estimated: u32,
    names: Map<Seq<char>, Seq<char>>,
    ids: Seq<Seq<char>>,
)
    ensures
        ({
            let message = translated_answer(response, model, estimated, names, ids);
            let finish = if response.choices@.len() > 0 {
                response.choices@[0].finish_reason
            } else {
                None
            };
            &&& message.id == response.id@
            &&& message.model == model
            &&& message.role == "assistant"@
            &&& message.response_type == "message"@
            &&& message.stop_sequence is None
            &&& message.stop_reason == Some(
                if (calls_beside(response) + calls_inside(response)).len() > 0 {
                    "tool_use"@
                } else {
                    match finish {
                        Some(word) => if word@ == "length"@ {
                            "max_tokens"@
                        } else if word@ == "tool_calls"@ || word@ == "function_call"@ {
                            "tool_use"@
                        } else {
                            "end_turn"@
                        },
                        None => "end_turn"@,
                    }
                },
            )
            &&& match response.usage {
                Some(counts) => counts_follow(
                    message.usage,
                    counts.prompt_tokens,
                    match counts.prompt_tokens_details {
                        Some(details) => match details.cached_tokens {
                            Some(n) => n,
                            None => 0,
                        },
                        None => 0,
                    },
                    counts.completion_tokens,
                    estimated,
                ),
                None => message.usage == (Usage {
                    input_tokens: 0,
                    output_tokens: 0,
                    cache_read_input_tokens: None,
                }),
            }
        }),
{
    answer_is_read(response);
    reveal_strlit("stop");
    reveal_strlit("length");
    reveal_strlit("tool_calls");
    reveal_strlit("function_call");
    assert("stop"@.len() != "length"@.len());
    assert("stop"@.len() != "tool_calls"@.len());
    assert("stop"@.len() != "function_call"@.len());
}

// ---------------------------------------------------------------------------
// The Responses API
// ---------------------------------------------------------------------------

/// The text of those of the parts that are output, one behind the other.
pub open spec fn output_text(parts: Seq<ContentPart>) -> Seq<char>
    decreases parts.len(),
{
    if parts.len() == 0 {
        Seq::empty()
    } else {
        output_text(parts.drop_last()) + match parts.last() {
            ContentPart::OutputText { text } => text@,
            _ => Seq::empty(),
        }
    }
}

/// The text of the messages of an output, one behind the other.
pub open spec fn messages_text(items: Seq<OutputItem>) -> Seq<char>
    decreases items.len(),
{
    if items.len() == 0 {
        Seq::empty()
    } else {
        messages_text(items.drop_last()) + match items.last() {
            OutputItem::Message { content } => output_text(content@),
            _ => Seq::empty(),
        }
    }
}

/// Those of the items that are function calls.
pub open spec fn call_items(items: Seq<OutputItem>) -> Seq<OutputItem>
    decreases items.len(),
{
    if items.len() == 0 {
        Seq::empty()
    } else if items.last() is FunctionCall {
        call_items(items.drop_last()).push(items.last())
    } else {
        call_items(items.drop_last())
    }
}

proof fn parts_are_texts(parts: Seq<ContentPart>, models: Seq<ContentPartModel>)
    requires
        models.len() == parts.len(),
        forall|i: int| 0 <= i < parts.len() ==> #[trigger] models[i] == parts[i].deep_view(),
    ensures
        shown_text(part_blocks(models)) == output_text(parts),
        tool_uses(part_blocks(models)).len() == 0,
    decreases parts.len(),
{
    if parts.len() > 0 {
        let rest = models.drop_last();
        assert forall|i: int| 0 <= i < rest.len() implies #[trigger] rest[i]
            == parts.drop_last()[i].deep_view() by {
            assert(models[i] == parts[i].deep_view());
        }
        parts_are_texts(parts.drop_last(), rest);
        assert(models[parts.len() - 1] == parts[parts.len() - 1].deep_view());
        let block = part_block(models.last());
        read_concat(part_blocks(rest), block);
        if block.len() > 0 {
            read_one(block[0]);
            assert(block =~= seq![block[0]]);
        } else {
            let more = match parts.last() {
                ContentPart::OutputText { text } => text@,
                _ => Seq::empty(),
            };
            assert(more =~= Seq::<char>::empty());
            assert(shown_text(block) =~= more);
        }
        assert(tool_uses(part_blocks(models)) =~= Seq::<ResponseContentBlockModel>::empty());
    }
}

/// The block is the call that the item is.
pub open spec fn is_use_of_item(
    block: ResponseContentBlockModel,
    item: OutputItem,
    names: Map<Seq<char>, Seq<char>>,
) -> bool {
    item matches OutputItem::FunctionCall { call_id, name, arguments } && is_use_of(
        block,
        call_id@,
        name@,
        arguments@,
        names,
    )
}

proof fn output_is_read(
    items: Seq<OutputItem>,
    models: Seq<OutputItemModel>,
    names: Map<Seq<char>, Seq<char>>,
    ids: Seq<Seq<char>>,
)
    requires
        models.len() == items.len(),
        forall|i: int| 0 <= i < items.len() ==> #[trigger] models[i] == items[i].deep_view(),
    ensures
        shown_text(output_blocks(models, names, ids)) == messages_text(items),
        tool_uses(output_blocks(models, names, ids)).len() == call_items(items).len(),
        forall|k: int|
            0 <= k < call_items(items).len() ==> is_use_of_item(
                #[trigger] tool_uses(output_blocks(models, names, ids))[k],
                call_items(items)[k],
                names,
            ),
        has_call(models) == (call_items(items).len() > 0),
    decreases items.len(),
{
    if items.len() > 0 {
        let rest = models.drop_last();
        let n = items.len() - 1;
        assert forall|i: int| 0 <= i < rest.len() implies #[trigger] rest[i]
            == items.drop_last()[i].deep_view() by {
            assert(models[i] == items[i].deep_view());
        }
        output_is_read(items.drop_last(), rest, names, ids);
        assert(models[n] == items[n].deep_view());
        let earlier = output_blocks(rest, names, ids);
        let block = item_blocks(models.last(), names, ids[n]);
        read_concat(earlier, block);
        match items.last() {
            OutputItem::Message { content } => {
                let parts = content.deep_view();
                assert forall|i: int| 0 <= i < content@.len() implies #[trigger] parts[i]
                    == content@[i].deep_view() by {}
                parts_are_texts(content@, parts);
            },
            OutputItem::Reasoning { .. } => {
                assert(shown_text(earlier) + shown_text(block) =~= shown_text(earlier));
            },
            OutputItem::FunctionCall { .. } => {
                read_one(block[0]);
                assert(block =~= seq![block[0]]);
                assert(shown_text(earlier) + shown_text(block) =~= shown_text(earlier));
            },
        }
        assert(tool_uses(output_blocks(models, names, ids)) =~= tool_uses(earlier) + tool_uses(
            block,
        ));
        if has_call(rest) {
            let i = choose|i: int| 0 <= i < rest.len() && (#[trigger] rest[i]) is FunctionCall;
            assert(models[i] is FunctionCall);
        }
        if has_call(models) && !(models.last() is FunctionCall) {
            let i = choose|i: int| 0 <= i < models.len() && (#[trigger] models[i]) is FunctionCall;
            assert(rest[i] is FunctionCall);
        }
        if models.last() is FunctionCall {
            assert(models[n] is FunctionCall);
        }
    }
}

proof fn items_of(
    response: ResponsesResponse,
    names: Map<Seq<char>, Seq<char>>,
    ids: Seq<Seq<char>>,
)
    ensures
        ({
            let items = response.output@;
            let blocks = output_blocks(response.output.deep_view(), names, ids);
            &&& shown_text(blocks) == messages_text(items)
            &&& tool_uses(blocks).len() == call_items(items).len()
            &&& forall|k: int|
                0 <= k < call_items(items).len() ==> is_use_of_item(
                    #[trigger] tool_uses(blocks)[k],
                    call_items(items)[k],
                    names,
                )
            &&& has_call(response.output.deep_view()) == (call_items(items).len() > 0)
        }),
{
    let models = response.output.deep_view();
    assert forall|i: int| 0 <= i < response.output@.len() implies #[trigger] models[i]
        == response.output@[i].deep_view() by {}
    output_is_read(response.output@, models, names, ids);
}

/// The client shows the text of the messages of the output, all of it and
/// nothing else; reasoning is not shown.
pub proof fn response_text_arrives_whole(
    response: ResponsesResponse,
    model: Seq<char>,
    estimated: u32,
    names: Map<Seq<char>, Seq<char>>,
    ids: Seq<Seq<char>>,
)
    ensures
        shown_text(translated_response(response, model, estimated, names, ids).content)
            == messages_text(response.output@),
{
    items_of(response, names, ids);
    let blocks = output_blocks(response.output.deep_view(), names, ids);
    if blocks.len() == 0 {
        reveal_strlit("");
        read_one(ResponseContentBlockModel::Text { text: ""@ });
        assert(shown_text(blocks) =~= ""@);
    }
}

/// Every function call of the output has a block of its own, in the same order,
/// which carries the id, the name and the arguments of its own item.
pub proof fn response_calls_arrive_whole(
    response: ResponsesResponse,
    model: Seq<char>,
    estimated: u32,
    names: Map<Seq<char>, Seq<char>>,
    ids: Seq<Seq<char>>,
)
    ensures
        ({
            let uses = tool_uses(
                translated_response(response, model, estimated, names, ids).content,
            );
            let calls = call_items(response.output@);
            &&& uses.len() == calls.len()
            &&& forall|k: int|
                0 <= k < calls.len() ==> is_use_of_item(#[trigger] uses[k], calls[k], names)
        }),
{
    items_of(response, names, ids);
    if output_blocks(response.output.deep_view(), names, ids).len() == 0 {
        read_one(ResponseContentBlockModel::Text { text: ""@ });
    }
}

/// The blocks come in the order of the items: those of the first items stand
/// before those of the later ones.
pub proof fn response_blocks_keep_their_order(
    a: Seq<OutputItemModel>,
    b: Seq<OutputItemModel>,
    names: Map<Seq<char>, Seq<char>>,
    ids: Seq<Seq<char>>,
    later: Seq<Seq<char>>,
)
    requires
        ids.len() == a.len(),
        later.len() >= b.len(),
    ensures
        output_blocks(a + b, names, ids + later) == output_blocks(a, names, ids) + output_blocks(
            b,
            names,
            later,
        ),
    decreases b.len(),
{
    if b.len() == 0 {
        assert(a + b =~= a);
        more_ids(a, names, ids, later);
        assert(output_blocks(a, names, ids) + output_blocks(b, names, later) =~= output_blocks(
            a,
            names,
            ids,
        ));
    } else {
        assert((a + b).drop_last() =~= a + b.drop_last());
        response_blocks_keep_their_order(a, b.drop_last(), names, ids, later);
        assert((ids + later)[(a + b).len() - 1] == later[b.len() - 1]);
        assert(output_blocks(a + b, names, ids + later) =~= output_blocks(a, names, ids)
            + output_blocks(b, names, later));
    }
}

proof fn more_ids(
    items: Seq<OutputItemModel>,
    names: Map<Seq<char>, Seq<char>>,
    ids: Seq<Seq<char>>,
    later: Seq<Seq<char>>,
)
    requires
        ids.len() >= items.len(),
    ensures
        output_blocks(items, names, ids + later) == output_blocks(items, names, ids),
    decreases items.len(),
{
    if items.len() > 0 {
        more_ids(items.drop_last(), names, ids, later);
    }
}

/// The message is the assistant's, under the upstream's id and the client's
/// name of the model. It says why it ended: `tool_use` where there was a
/// function call, `max_tokens` where the upstream says so, and else `end_turn`.
/// Its token counts follow from the upstream's.
pub proof fn response_head_and_end(
    response: ResponsesResponse,
    model: Seq<char>,
    estimated: u32,
    names: Map<Seq<char>, Seq<char>>,
    ids: Seq<Seq<char>>,
)
    ensures
        ({
            let message = translated_response(response, model, estimated, names, ids);
            &&& message.id == response.id@
            &&& message.model == model
            &&& message.role == "assistant"@
            &&& message.response_type == "message"@
            &&& message.stop_sequence is None
            &&& message.stop_reason == Some(
                if call_items(response.output@).len() > 0 {
                    "tool_use"@
                } else {
                    match response.stop_reason {
                        Some(word) => if word@ == "max_tokens"@ {
                            "max_tokens"@
                        } else {
                            "end_turn"@
                        },
                        None => "end_turn"@,
                    }
                },
            )
            &&& counts_follow(
                message.usage,
                response.usage.input_tokens,
                response.usage.input_tokens_details.cached_tokens,
                response.usage.output_tokens,
                estimated,
            )
        }),
{
    items_of(response, names, ids);
}

// ---------------------------------------------------------------------------
// Content and reasoning
// ---------------------------------------------------------------------------

/// Content is a text where it is one, parts where it is a list, and nothing
/// where it is anything else.
pub proof fn content_is_what_it_is(s: Seq<char>, parts: Seq<Tree>, other: Tree)
    ensures
        content_of(Tree::Text(s)) == ContentModel::Text(s),
        content_of(Tree::Array(parts)) == ContentModel::Parts(parts),
        !(other is Text) && !(other is Array) ==> content_of(other) is Empty,
{
}

/// The text of reasoning is that of the parts of its summary, in their order,
/// each a text or an object with one; and its content only where there is none.
pub proof fn reasoning_is_read(summary: Seq<Tree>, part: Tree, content: Option<Seq<char>>)
    ensures
        joined_summary(Seq::empty()).len() == 0,
        under(part, "text"@) matches Tree::Text(t) ==> joined_summary(summary.push(part))
            == joined_summary(summary) + t,
        part matches Tree::Text(t) ==> joined_summary(summary.push(part)) == joined_summary(summary)
            + t,
        !(part is Text) && !(under(part, "text"@) is Text) ==> joined_summary(summary.push(part))
            == joined_summary(summary),
        joined_summary(summary).len() > 0 ==> thinking_text(summary, content) == joined_summary(
            summary,
        ),
        joined_summary(summary).len() == 0 ==> thinking_text(summary, content) == match content {
            Some(c) => c,
            None => Seq::empty(),
        },
{
    assert(summary.push(part).drop_last() =~= summary);
    if !(part is Text) && !(under(part, "text"@) is Text) {
        assert(joined_summary(summary) + Seq::<char>::empty() =~= joined_summary(summary));
    }
}

/// A list of an id, a type and a function is a tool call too, and no list of
/// another length is.
pub proof fn nested_call_is_read_from_a_list(
    items: Seq<Tree>,
    id: Seq<char>,
    call_type: Seq<char>,
    m: Map<Seq<char>, Tree>,
    name: Seq<char>,
    arguments: Seq<char>,
)
    requires
        under(Tree::Object(m), "name"@) == text(name),
        under(Tree::Object(m), "arguments"@) == text(arguments),
    ensures
        call_of(Tree::Array(seq![text(id), text(call_type), Tree::Object(m)])) == Some(
            ToolCallModel { id, call_type, name, arguments },
        ),
        items.len() != 3 ==> call_of(Tree::Array(items)) is None,
{
    let list = seq![text(id), text(call_type), Tree::Object(m)];
    assert(list[0] == text(id) && list[1] == text(call_type) && list[2] == Tree::Object(m));
}

} // verus!
