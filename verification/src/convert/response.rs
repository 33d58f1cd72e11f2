//! A complete answer of the Chat Completions API on its way to the client.

use vstd::prelude::*;

use crate::convert::message::{
    assemble_message, block_of_call, call_block, message_of, report_usage, reported_usage,
    tool_block_has_an_id, Call,
};
use crate::text::same;
use crate::types::claude::{
    MessagesResponse, MessagesResponseModel, ResponseContentBlock, ResponseContentBlockModel, Usage,
    END_TURN, MAX_TOKENS, TOOL_USE,
};
use crate::types::openai::{
    content_calls, content_text, ChatCompletionResponse, ResponseUsage, ToolCall, ToolCallModel,
};
use crate::util::fix_json::leniently_parsed;
use crate::util::tool_id::{is_generated_id, is_id};
use crate::util::tool_name::ToolNameMap;

verus! {

/// The tool calls beside the content of the first choice.
pub open spec fn outer_calls(response: ChatCompletionResponse) -> Seq<ToolCallModel> {
    if response.choices@.len() > 0 {
        match response.choices@[0].message.tool_calls {
            Some(calls) => calls.deep_view(),
            None => Seq::empty(),
        }
    } else {
        Seq::empty()
    }
}

/// All tool calls of the first choice: those beside the content and then those
/// inside it.
pub open spec fn all_calls(response: ChatCompletionResponse) -> Seq<ToolCallModel> {
    if response.choices@.len() > 0 {
        outer_calls(response) + content_calls(response.choices@[0].message.content.deep_view())
    } else {
        Seq::empty()
    }
}

/// The call of a function.
pub open spec fn function_call(call: ToolCallModel) -> Call {
    Call { id: call.id, name: call.name, arguments: call.arguments }
}

/// The blocks that the calls of functions become; other calls become none.
/// `ids` holds an id for each call that has none.
pub open spec fn call_blocks(
    calls: Seq<ToolCallModel>,
    names: Map<Seq<char>, Seq<char>>,
    ids: Seq<Seq<char>>,
) -> Seq<ResponseContentBlockModel>
    decreases calls.len(),
{
    if calls.len() == 0 {
        Seq::empty()
    } else {
        let earlier = call_blocks(calls.drop_last(), names, ids);
        if calls.last().call_type == "function"@ {
            earlier.push(call_block(function_call(calls.last()), names, ids[calls.len() - 1]))
        } else {
            earlier
        }
    }
}

/// The text of the first choice as a block, if it has any.
pub open spec fn text_blocks(response: ChatCompletionResponse) -> Seq<ResponseContentBlockModel> {
    if response.choices@.len() > 0 {
        match content_text(response.choices@[0].message.content.deep_view()) {
            Some(text) => seq![ResponseContentBlockModel::Text { text }],
            None => Seq::empty(),
        }
    } else {
        Seq::empty()
    }
}

/// The upstream's word for why the answer ended; `stop` where it says nothing.
pub open spec fn finish_reason(response: ChatCompletionResponse) -> Seq<char> {
    if response.choices@.len() > 0 {
        match response.choices@[0].finish_reason {
            Some(reason) => reason@,
            None => "stop"@,
        }
    } else {
        "stop"@
    }
}

/// The client's word for why an answer without tool calls ended.
pub open spec fn stop_reason_for(finish: Seq<char>) -> Seq<char> {
    if finish == "length"@ {
        MAX_TOKENS@
    } else if finish == "tool_calls"@ || finish == "function_call"@ {
        TOOL_USE@
    } else {
        END_TURN@
    }
}

/// The client's word for why an answer without tool calls ended.
pub fn map_finish_reason(finish: &str) -> (r: &'static str)
    ensures
        r@ == stop_reason_for(finish@),
{
    if same(finish, "length") {
        MAX_TOKENS
    } else if same(finish, "tool_calls") || same(finish, "function_call") {
        TOOL_USE
    } else {
        END_TURN
    }
}

/// How many tokens the upstream took from a cache.
pub open spec fn cached_tokens(usage: ResponseUsage) -> u32 {
    match usage.prompt_tokens_details {
        Some(details) => match details.cached_tokens {
            Some(n) => n,
            None => 0,
        },
        None => 0,
    }
}

/// How many tokens the upstream took from a cache.
pub fn cached_of(usage: &ResponseUsage) -> (r: u32)
    ensures
        r == cached_tokens(*usage),
{
    match &usage.prompt_tokens_details {
        Some(details) => match details.cached_tokens {
            Some(n) => n,
            None => 0,
        },
        None => 0,
    }
}

/// The token counts of an answer; all zero where the upstream sent none.
pub open spec fn usage_of(usage: Option<ResponseUsage>, estimated: u32) -> Usage {
    match usage {
        Some(usage) => reported_usage(
            usage.prompt_tokens,
            cached_tokens(usage),
            usage.completion_tokens,
            estimated,
        ),
        None => Usage { input_tokens: 0, output_tokens: 0, cache_read_input_tokens: None },
    }
}

/// The message that an answer becomes.
pub open spec fn translated_answer(
    response: ChatCompletionResponse,
    model: Seq<char>,
    estimated: u32,
    names: Map<Seq<char>, Seq<char>>,
    ids: Seq<Seq<char>>,
) -> MessagesResponseModel {
    message_of(
        response.id@,
        model,
        text_blocks(response) + call_blocks(all_calls(response), names, ids),
        if all_calls(response).len() > 0 {
            TOOL_USE@
        } else {
            stop_reason_for(finish_reason(response))
        },
        usage_of(response.usage, estimated),
    )
}

/// `ids` holds a generated id for each call that has none.
pub open spec fn ids_for(calls: Seq<ToolCallModel>, ids: Seq<Seq<char>>) -> bool {
    &&& ids.len() == calls.len()
    &&& forall|i: int|
        0 <= i < calls.len() && calls[i].call_type == "function"@ && calls[i].id.len() == 0 ==> {
            is_generated_id(#[trigger] ids[i]) && is_id(ids[i])
        }
}

/// The first `n` calls determine the blocks that they become.
proof fn call_blocks_of_prefix(
    calls: Seq<ToolCallModel>,
    names: Map<Seq<char>, Seq<char>>,
    ids: Seq<Seq<char>>,
    more: Seq<char>,
)
    requires
        ids.len() >= calls.len(),
    ensures
        call_blocks(calls, names, ids.push(more)) == call_blocks(calls, names, ids),
    decreases calls.len(),
{
    if calls.len() > 0 {
        call_blocks_of_prefix(calls.drop_last(), names, ids, more);
    }
}

/// Appends the block that a call becomes, if it becomes any, and an id for it.
fn push_call(out: &mut Vec<ResponseContentBlock>, call: &ToolCall, names: &ToolNameMap) -> (r: Ghost<
    Seq<char>,
>)
    ensures
        call.call_type@ == "function"@ ==> final(out).deep_view() == old(out).deep_view().push(
            call_block(function_call(call.deep_view()), names@, r@),
        ),
        call.call_type@ != "function"@ ==> final(out).deep_view() == old(out).deep_view(),
        call.call_type@ == "function"@ && call.id@.len() == 0 ==> is_generated_id(r@) && is_id(r@),
{
    if same(call.call_type.as_str(), "function") {
        let (block, id) = block_of_call(
            call.id.as_str(),
            call.function.name.as_str(),
            call.function.arguments.as_str(),
            names,
        );
        out.push(block);
        assert(out.deep_view() =~= old(out).deep_view().push(block.deep_view()));
        Ghost(id@)
    } else {
        Ghost(Seq::empty())
    }
}

/// Appends the blocks that `calls` become. They follow the calls `done`, whose
/// ids are `ids`.
fn push_calls(
    out: &mut Vec<ResponseContentBlock>,
    calls: &Vec<ToolCall>,
    names: &ToolNameMap,
    Ghost(first): Ghost<Seq<ResponseContentBlockModel>>,
    Ghost(done): Ghost<Seq<ToolCallModel>>,
    Ghost(ids): Ghost<Seq<Seq<char>>>,
) -> (r: Ghost<Seq<Seq<char>>>)
    requires
        ids_for(done, ids),
        old(out).deep_view() == first + call_blocks(done, names@, ids),
    ensures
        ids_for(done + calls.deep_view(), r@),
        final(out).deep_view() == first + call_blocks(done + calls.deep_view(), names@, r@),
{
    let mut i: usize = 0;
    let ghost mut ids = ids;
    assert(done + calls.deep_view().take(0) =~= done);
    while i < calls.len()
        invariant
            i <= calls@.len(),
            ids_for(done + calls.deep_view().take(i as int), ids),
            out.deep_view() == first + call_blocks(
                done + calls.deep_view().take(i as int),
                names@,
                ids,
            ),
        decreases calls.len() - i,
    {
        let ghost before = done + calls.deep_view().take(i as int);
        let ghost after = done + calls.deep_view().take(i + 1);
        let id = push_call(out, &calls[i], names);
        proof {
            assert(after.drop_last() =~= before);
            assert(after.last() == calls@[i as int].deep_view());
            call_blocks_of_prefix(before, names@, ids, id@);
            let more = ids.push(id@);
            assert(more[after.len() - 1] == id@);
            assert(ids_for(after, more)) by {
                assert forall|k: int|
                    0 <= k < after.len() && after[k].call_type == "function"@
                        && after[k].id.len() == 0 implies is_generated_id(#[trigger] more[k])
                    && is_id(more[k]) by {
                    if k < before.len() {
                        assert(after[k] == before[k]);
                        assert(more[k] == ids[k]);
                    }
                }
            }
            ids = more;
            assert(out.deep_view() =~= first + call_blocks(after, names@, ids));
        }
        i += 1;
    }
    assert(calls.deep_view().take(i as int) =~= calls.deep_view());
    Ghost(ids)
}

/// Translates an answer of the Chat Completions API into a message. A call
/// without an id gets a generated one.
pub fn openai_to_claude(
    response: &ChatCompletionResponse,
    original_model: &str,
    estimated_input_tokens: u32,
    tool_name_map: &ToolNameMap,
) -> (r: MessagesResponse)
    ensures
        exists|ids: Seq<Seq<char>>| #[trigger]
            ids_for(all_calls(*response), ids) && r.deep_view() == translated_answer(
                *response,
                original_model@,
                estimated_input_tokens,
                tool_name_map@,
                ids,
            ),
{
    let mut blocks: Vec<ResponseContentBlock> = Vec::new();
    let ghost mut ids: Seq<Seq<char>> = Seq::empty();
    let mut finish: &str = "stop";
    let mut has_calls = false;
    assert(blocks.deep_view() =~= Seq::<ResponseContentBlockModel>::empty());
    if response.choices.len() > 0 {
        let choice = &response.choices[0];
        match choice.message.content.as_text() {
            Some(text) => blocks.push(ResponseContentBlock::Text { text }),
            None => {},
        }
        let ghost first = text_blocks(*response);
        assert(blocks.deep_view() =~= first);
        assert(blocks.deep_view() =~= first + call_blocks(
            Seq::empty(),
            tool_name_map@,
            ids,
        ));
        match &choice.message.tool_calls {
            Some(calls) => {
                let given = push_calls(
                    &mut blocks,
                    calls,
                    tool_name_map,
                    Ghost(first),
                    Ghost(Seq::empty()),
                    Ghost(ids),
                );
                proof {
                    ids = given@;
                    assert(Seq::<ToolCallModel>::empty() + calls.deep_view()
                        =~= outer_calls(*response));
                }
                has_calls = calls.len() > 0;
            },
            None => {
                assert(outer_calls(*response) =~= Seq::<ToolCallModel>::empty());
            },
        }
        let nested = choice.message.content.extract_nested_tool_calls();
        let given = push_calls(
            &mut blocks,
            &nested,
            tool_name_map,
            Ghost(first),
            Ghost(outer_calls(*response)),
            Ghost(ids),
        );
        proof {
            ids = given@;
        }
        has_calls = has_calls || nested.len() > 0;
        match &choice.finish_reason {
            Some(reason) => {
                finish = reason.as_str();
            },
            None => {},
        }
    }
    assert(blocks.deep_view() =~= text_blocks(*response) + call_blocks(
        all_calls(*response),
        tool_name_map@,
        ids,
    ));
    assert(has_calls == (all_calls(*response).len() > 0));
    let stop_reason = if has_calls {
        TOOL_USE
    } else {
        map_finish_reason(finish)
    };
    let usage = match &response.usage {
        Some(usage) => report_usage(
            usage.prompt_tokens,
            cached_of(usage),
            usage.completion_tokens,
            estimated_input_tokens,
        ),
        None => Usage::default(),
    };
    assert(ids_for(all_calls(*response), ids));
    assemble_message(response.id.as_str(), original_model, blocks, stop_reason, usage)
}

// ---------------------------------------------------------------------------
// Laws
// ---------------------------------------------------------------------------

/// An answer with a tool call, wherever it stands, ends for the sake of it,
/// whatever the upstream says.
pub proof fn tool_calls_decide_the_stop_reason(
    response: ChatCompletionResponse,
    model: Seq<char>,
    estimated: u32,
    names: Map<Seq<char>, Seq<char>>,
    ids: Seq<Seq<char>>,
)
    requires
        all_calls(response).len() > 0,
    ensures
        translated_answer(response, model, estimated, names, ids).stop_reason == Some(TOOL_USE@),
{
}

/// A message has at least one block.
pub proof fn message_has_a_block(
    response: ChatCompletionResponse,
    model: Seq<char>,
    estimated: u32,
    names: Map<Seq<char>, Seq<char>>,
    ids: Seq<Seq<char>>,
)
    ensures
        translated_answer(response, model, estimated, names, ids).content.len() > 0,
{
}

/// Every tool block of a message has an id that the Messages API takes.
pub proof fn tool_blocks_have_ids(
    calls: Seq<ToolCallModel>,
    names: Map<Seq<char>, Seq<char>>,
    ids: Seq<Seq<char>>,
    i: int,
)
    requires
        ids_for(calls, ids),
        0 <= i < call_blocks(calls, names, ids).len(),
    ensures
        call_blocks(calls, names, ids)[i] matches ResponseContentBlockModel::ToolUse { id, .. }
            && is_id(id),
    decreases calls.len(),
{
    let rest = calls.drop_last();
    let earlier = call_blocks(rest, names, ids);
    if i < earlier.len() {
        blocks_need_no_more_ids(rest, names, ids, ids.drop_last());
        assert(ids_for(rest, ids.drop_last())) by {
            assert forall|k: int|
                0 <= k < rest.len() && rest[k].call_type == "function"@ && rest[k].id.len()
                    == 0 implies is_generated_id(#[trigger] ids.drop_last()[k]) && is_id(
                ids.drop_last()[k],
            ) by {
                assert(rest[k] == calls[k]);
                assert(ids.drop_last()[k] == ids[k]);
            }
        }
        tool_blocks_have_ids(rest, names, ids.drop_last(), i);
    } else {
        let call = calls.last();
        assert(calls[calls.len() - 1] == call);
        if call.id.len() == 0 {
            assert(is_id(ids[calls.len() - 1]));
        }
        tool_block_has_an_id(
            function_call(call),
            names,
            leniently_parsed(call.arguments),
            ids[calls.len() - 1],
        );
    }
}

/// The ids of the calls alone count.
proof fn blocks_need_no_more_ids(
    calls: Seq<ToolCallModel>,
    names: Map<Seq<char>, Seq<char>>,
    a: Seq<Seq<char>>,
    b: Seq<Seq<char>>,
)
    requires
        forall|k: int| 0 <= k < calls.len() ==> #[trigger] a[k] == b[k],
    ensures
        call_blocks(calls, names, a) == call_blocks(calls, names, b),
    decreases calls.len(),
{
    if calls.len() > 0 {
        assert(a[calls.len() - 1] == b[calls.len() - 1]);
        blocks_need_no_more_ids(calls.drop_last(), names, a, b);
    }
}

/// Where every call has an id, nothing is generated: the message depends on
/// the answer alone.
pub proof fn message_depends_on_the_answer(
    response: ChatCompletionResponse,
    model: Seq<char>,
    estimated: u32,
    names: Map<Seq<char>, Seq<char>>,
    a: Seq<Seq<char>>,
    b: Seq<Seq<char>>,
)
    requires
        forall|k: int|
            0 <= k < all_calls(response).len() ==> (#[trigger] all_calls(response)[k]).id.len() > 0,
    ensures
        translated_answer(response, model, estimated, names, a) == translated_answer(
            response,
            model,
            estimated,
            names,
            b,
        ),
{
    ids_are_not_needed(all_calls(response), names, a, b);
}

proof fn ids_are_not_needed(
    calls: Seq<ToolCallModel>,
    names: Map<Seq<char>, Seq<char>>,
    a: Seq<Seq<char>>,
    b: Seq<Seq<char>>,
)
    requires
        forall|k: int| 0 <= k < calls.len() ==> (#[trigger] calls[k]).id.len() > 0,
    ensures
        call_blocks(calls, names, a) == call_blocks(calls, names, b),
    decreases calls.len(),
{
    if calls.len() > 0 {
        assert(calls[calls.len() - 1].id.len() > 0);
        ids_are_not_needed(calls.drop_last(), names, a, b);
    }
}

} // verus!
