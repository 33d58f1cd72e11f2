//! A complete answer of the Responses API on its way to the client.

use vstd::prelude::*;

use crate::convert::message::{
    assemble_message, block_of_call, call_block, message_of, report_usage, reported_usage,
    tool_block_has_an_id, Call,
};
use crate::json::{tree_str_at, Json, Tree};
use crate::text::same;
use crate::types::claude::{
    MessagesResponse, MessagesResponseModel, ResponseContentBlock, ResponseContentBlockModel,
    END_TURN, MAX_TOKENS, TOOL_USE,
};
use crate::types::responses::{
    ContentPart, ContentPartModel, OutputItem, OutputItemModel, ResponsesResponse,
};
use crate::util::fix_json::leniently_parsed;
use crate::util::tool_id::{is_generated_id, is_id};
use crate::util::tool_name::ToolNameMap;

verus! {

/// The block that a part of a message becomes: output text that is not empty
/// becomes a text block, anything else none.
pub open spec fn part_block(part: ContentPartModel) -> Seq<ResponseContentBlockModel> {
    match part {
        ContentPartModel::OutputText { text } => if text.len() > 0 {
            seq![ResponseContentBlockModel::Text { text }]
        } else {
            Seq::empty()
        },
        _ => Seq::empty(),
    }
}

/// The blocks that the parts of a message become.
pub open spec fn part_blocks(parts: Seq<ContentPartModel>) -> Seq<ResponseContentBlockModel>
    decreases parts.len(),
{
    if parts.len() == 0 {
        Seq::empty()
    } else {
        part_blocks(parts.drop_last()) + part_block(parts.last())
    }
}

/// The blocks that an output item becomes. Reasoning becomes none. `id` serves
/// a function call that has none.
pub open spec fn item_blocks(
    item: OutputItemModel,
    names: Map<Seq<char>, Seq<char>>,
    id: Seq<char>,
) -> Seq<ResponseContentBlockModel> {
    match item {
        OutputItemModel::Message { content } => part_blocks(content),
        OutputItemModel::Reasoning { .. } => Seq::empty(),
        OutputItemModel::FunctionCall { call_id, name, arguments } => seq![
            call_block(Call { id: call_id, name, arguments }, names, id),
        ],
    }
}

/// The blocks that the output items become. `ids` holds an id for each
/// function call that has none.
pub open spec fn output_blocks(
    items: Seq<OutputItemModel>,
    names: Map<Seq<char>, Seq<char>>,
    ids: Seq<Seq<char>>,
) -> Seq<ResponseContentBlockModel>
    decreases items.len(),
{
    if items.len() == 0 {
        Seq::empty()
    } else {
        output_blocks(items.drop_last(), names, ids) + item_blocks(
            items.last(),
            names,
            ids[items.len() - 1],
        )
    }
}

/// One of the items is a function call.
pub open spec fn has_call(items: Seq<OutputItemModel>) -> bool {
    exists|i: int| 0 <= i < items.len() && (#[trigger] items[i]) is FunctionCall
}

/// The client's word for why an answer ended: a function call comes first,
/// then the limit of tokens.
pub open spec fn stop_reason_of(has_call: bool, reason: Option<Seq<char>>) -> Seq<char> {
    if has_call {
        TOOL_USE@
    } else if reason == Some("max_tokens"@) {
        MAX_TOKENS@
    } else {
        END_TURN@
    }
}

/// The client's word for why an answer ended.
pub fn derive_stop_reason(has_call: bool, reason: &Option<String>) -> (r: &'static str)
    ensures
        r@ == stop_reason_of(has_call, reason.deep_view()),
{
    if has_call {
        return TOOL_USE;
    }
    match reason {
        Some(reason) => if same(reason.as_str(), "max_tokens") {
            MAX_TOKENS
        } else {
            END_TURN
        },
        None => END_TURN,
    }
}

/// The message that an answer becomes.
pub open spec fn translated_response(
    response: ResponsesResponse,
    model: Seq<char>,
    estimated: u32,
    names: Map<Seq<char>, Seq<char>>,
    ids: Seq<Seq<char>>,
) -> MessagesResponseModel {
    message_of(
        response.id@,
        model,
        output_blocks(response.output.deep_view(), names, ids),
        stop_reason_of(has_call(response.output.deep_view()), response.stop_reason.deep_view()),
        reported_usage(
            response.usage.input_tokens,
            response.usage.input_tokens_details.cached_tokens,
            response.usage.output_tokens,
            estimated,
        ),
    )
}

/// A function call without an id.
pub open spec fn lacks_id(item: OutputItemModel) -> bool {
    item matches OutputItemModel::FunctionCall { call_id, .. } && call_id.len() == 0
}

/// `ids` holds a generated id for each function call that has none.
pub open spec fn ids_for(items: Seq<OutputItemModel>, ids: Seq<Seq<char>>) -> bool {
    &&& ids.len() == items.len()
    &&& forall|i: int|
        0 <= i < items.len() && lacks_id(items[i]) ==> {
            is_generated_id(#[trigger] ids[i]) && is_id(ids[i])
        }
}

/// Appends the blocks that the parts of a message become.
fn push_parts(out: &mut Vec<ResponseContentBlock>, parts: &Vec<ContentPart>)
    ensures
        final(out).deep_view() == old(out).deep_view() + part_blocks(parts.deep_view()),
{
    let ghost before = out.deep_view();
    let ghost models = parts.deep_view();
    let mut i: usize = 0;
    assert(models.take(0) =~= Seq::<ContentPartModel>::empty());
    assert(out.deep_view() =~= before + part_blocks(models.take(0)));
    while i < parts.len()
        invariant
            i <= parts@.len(),
            models == parts.deep_view(),
            out.deep_view() == before + part_blocks(models.take(i as int)),
        decreases parts.len() - i,
    {
        let ghost so_far = out.deep_view();
        assert(models.take(i + 1).drop_last() =~= models.take(i as int));
        match &parts[i] {
            ContentPart::OutputText { text } => {
                proof {
                    reveal_strlit("");
                    if text@.len() == 0 {
                        assert(text@ =~= ""@);
                    }
                }
                if !same(text.as_str(), "") {
                    out.push(ResponseContentBlock::Text { text: text.clone() });
                }
            },
            _ => {},
        }
        assert(out.deep_view() =~= so_far + part_block(models[i as int]));
        assert(out.deep_view() =~= before + part_blocks(models.take(i + 1)));
        i += 1;
    }
    assert(models.take(i as int) =~= models);
}

/// Appends the blocks that an output item becomes.
fn push_item(out: &mut Vec<ResponseContentBlock>, item: &OutputItem, names: &ToolNameMap) -> (r:
    Ghost<Seq<char>>)
    ensures
        final(out).deep_view() == old(out).deep_view() + item_blocks(item.deep_view(), names@, r@),
        lacks_id(item.deep_view()) ==> is_generated_id(r@) && is_id(r@),
{
    match item {
        OutputItem::Message { content } => {
            push_parts(out, content);
            Ghost(Seq::empty())
        },
        OutputItem::Reasoning { .. } => {
            assert(out.deep_view() =~= old(out).deep_view() + Seq::empty());
            Ghost(Seq::empty())
        },
        OutputItem::FunctionCall { call_id, name, arguments } => {
            let (block, id) = block_of_call(
                call_id.as_str(),
                name.as_str(),
                arguments.as_str(),
                names,
            );
            out.push(block);
            assert(out.deep_view() =~= old(out).deep_view() + item_blocks(
                item.deep_view(),
                names@,
                id@,
            ));
            Ghost(id@)
        },
    }
}

/// The ids of the items alone count.
proof fn blocks_need_no_more_ids(
    items: Seq<OutputItemModel>,
    names: Map<Seq<char>, Seq<char>>,
    a: Seq<Seq<char>>,
    b: Seq<Seq<char>>,
)
    requires
        forall|k: int| 0 <= k < items.len() ==> #[trigger] a[k] == b[k],
    ensures
        output_blocks(items, names, a) == output_blocks(items, names, b),
    decreases items.len(),
{
    if items.len() > 0 {
        assert(a[items.len() - 1] == b[items.len() - 1]);
        blocks_need_no_more_ids(items.drop_last(), names, a, b);
    }
}

/// Translates an answer of the Responses API into a message. A function call
/// without an id gets a generated one.
pub fn responses_to_claude(
    response: &ResponsesResponse,
    original_model: &str,
    estimated_input_tokens: u32,
    tool_name_map: &ToolNameMap,
) -> (r: MessagesResponse)
    ensures
        exists|ids: Seq<Seq<char>>| #[trigger]
            ids_for(response.output.deep_view(), ids) && r.deep_view() == translated_response(
                *response,
                original_model@,
                estimated_input_tokens,
                tool_name_map@,
                ids,
            ),
{
    let mut blocks: Vec<ResponseContentBlock> = Vec::new();
    let ghost mut ids: Seq<Seq<char>> = Seq::empty();
    let mut calls = false;
    let output = &response.output;
    let ghost items = output.deep_view();
    let mut i: usize = 0;
    assert(items.take(0) =~= Seq::<OutputItemModel>::empty());
    assert(blocks.deep_view() =~= output_blocks(items.take(0), tool_name_map@, ids));
    while i < output.len()
        invariant
            i <= output@.len(),
            items == output.deep_view(),
            ids_for(items.take(i as int), ids),
            blocks.deep_view() == output_blocks(items.take(i as int), tool_name_map@, ids),
            calls == has_call(items.take(i as int)),
        decreases output.len() - i,
    {
        let ghost before = items.take(i as int);
        let ghost after = items.take(i + 1);
        let id = push_item(&mut blocks, &output[i], tool_name_map);
        let is_call = match &output[i] {
            OutputItem::FunctionCall { .. } => true,
            _ => false,
        };
        calls = calls || is_call;
        proof {
            assert(after.drop_last() =~= before);
            assert(after.last() == output@[i as int].deep_view());
            let more = ids.push(id@);
            assert(more[after.len() - 1] == id@);
            blocks_need_no_more_ids(before, tool_name_map@, ids, more);
            assert(ids_for(after, more)) by {
                assert forall|k: int| 0 <= k < after.len() && lacks_id(after[k]) implies
                    is_generated_id(#[trigger] more[k]) && is_id(more[k]) by {
                    if k < before.len() {
                        assert(after[k] == before[k]);
                        assert(more[k] == ids[k]);
                    }
                }
            }
            ids = more;
            assert(calls == has_call(after)) by {
                if has_call(before) {
                    let k = choose|k: int|
                        0 <= k < before.len() && (#[trigger] before[k]) is FunctionCall;
                    assert(after[k] is FunctionCall);
                }
                if is_call {
                    assert(after[i as int] is FunctionCall);
                }
                if has_call(after) {
                    let k = choose|k: int|
                        0 <= k < after.len() && (#[trigger] after[k]) is FunctionCall;
                    if k < before.len() {
                        assert(before[k] is FunctionCall);
                    }
                }
            }
        }
        i += 1;
    }
    assert(items.take(i as int) =~= items);
    assert(ids_for(items, ids));
    let usage = report_usage(
        response.usage.input_tokens,
        response.usage.input_tokens_details.cached_tokens,
        response.usage.output_tokens,
        estimated_input_tokens,
    );
    let stop_reason = derive_stop_reason(calls, &response.stop_reason);
    assemble_message(response.id.as_str(), original_model, blocks, stop_reason, usage)
}

// ---------------------------------------------------------------------------
// Reasoning
// ---------------------------------------------------------------------------

/// The text of a part of a summary: its `text`, or the part itself if it is a
/// text.
pub open spec fn summary_text(part: Tree) -> Seq<char> {
    match tree_str_at(part, "text"@) {
        Some(text) => text,
        None => match part {
            Tree::Text(s) => s,
            _ => Seq::empty(),
        },
    }
}

/// The texts of the parts of a summary, one behind the other.
pub open spec fn joined_summary(summary: Seq<Tree>) -> Seq<char>
    decreases summary.len(),
{
    if summary.len() == 0 {
        Seq::empty()
    } else {
        joined_summary(summary.drop_last()) + summary_text(summary.last())
    }
}

/// The text of a reasoning item: that of its summary, or its content where the
/// summary has none.
pub open spec fn thinking_text(summary: Seq<Tree>, content: Option<Seq<char>>) -> Seq<char> {
    if joined_summary(summary).len() > 0 {
        joined_summary(summary)
    } else {
        match content {
            Some(content) => content,
            None => Seq::empty(),
        }
    }
}

/// The text of a reasoning item. A complete message has no place for it.
pub fn extract_thinking_text(summary: &Vec<Json>, content: &Option<String>) -> (r: String)
    ensures
        r@ == thinking_text(summary.deep_view(), content.deep_view()),
{
    let mut out = String::new();
    let ghost trees = summary.deep_view();
    let mut i: usize = 0;
    assert(trees.take(0) =~= Seq::<Tree>::empty());
    while i < summary.len()
        invariant
            i <= summary@.len(),
            trees == summary.deep_view(),
            out@ == joined_summary(trees.take(i as int)),
        decreases summary.len() - i,
    {
        assert(trees.take(i + 1).drop_last() =~= trees.take(i as int));
        match summary[i].str_at("text") {
            Some(text) => out.push_str(text),
            None => match summary[i].as_str() {
                Some(text) => out.push_str(text),
                None => {},
            },
        }
        assert(out@ =~= joined_summary(trees.take(i + 1)));
        i += 1;
    }
    assert(trees.take(i as int) =~= trees);
    proof {
        reveal_strlit("");
        if out@.len() == 0 {
            assert(out@ =~= ""@);
        }
    }
    if same(out.as_str(), "") {
        match content {
            Some(content) => out.push_str(content.as_str()),
            None => {},
        }
    }
    assert(out@ =~= thinking_text(summary.deep_view(), content.deep_view()));
    out
}

// ---------------------------------------------------------------------------
// Laws
// ---------------------------------------------------------------------------

/// An answer with a function call ends for the sake of it, whatever the
/// upstream says.
pub proof fn function_calls_decide_the_stop_reason(
    response: ResponsesResponse,
    model: Seq<char>,
    estimated: u32,
    names: Map<Seq<char>, Seq<char>>,
    ids: Seq<Seq<char>>,
)
    requires
        has_call(response.output.deep_view()),
    ensures
        translated_response(response, model, estimated, names, ids).stop_reason == Some(TOOL_USE@),
{
}

/// A message has at least one block.
pub proof fn message_has_a_block(
    response: ResponsesResponse,
    model: Seq<char>,
    estimated: u32,
    names: Map<Seq<char>, Seq<char>>,
    ids: Seq<Seq<char>>,
)
    ensures
        translated_response(response, model, estimated, names, ids).content.len() > 0,
{
}

/// Every tool block of a message has an id that the Messages API takes.
pub proof fn tool_blocks_have_ids(
    items: Seq<OutputItemModel>,
    names: Map<Seq<char>, Seq<char>>,
    ids: Seq<Seq<char>>,
    i: int,
)
    requires
        ids_for(items, ids),
        0 <= i < output_blocks(items, names, ids).len(),
    ensures
        output_blocks(items, names, ids)[i] matches ResponseContentBlockModel::ToolUse { id, .. }
            ==> is_id(id),
    decreases items.len(),
{
    let rest = items.drop_last();
    let earlier = output_blocks(rest, names, ids);
    let item = items.last();
    assert(items[items.len() - 1] == item);
    if i < earlier.len() {
        let fewer = ids.drop_last();
        blocks_need_no_more_ids(rest, names, ids, fewer);
        assert(ids_for(rest, fewer)) by {
            assert forall|k: int| 0 <= k < rest.len() && lacks_id(rest[k]) implies is_generated_id(
                #[trigger] fewer[k],
            ) && is_id(fewer[k]) by {
                assert(rest[k] == items[k]);
                assert(fewer[k] == ids[k]);
            }
        }
        tool_blocks_have_ids(rest, names, fewer, i);
    } else {
        if let OutputItemModel::FunctionCall { call_id, name, arguments } = item {
            if call_id.len() == 0 {
                assert(is_id(ids[items.len() - 1]));
            }
            tool_block_has_an_id(
                Call { id: call_id, name, arguments },
                names,
                leniently_parsed(arguments),
                ids[items.len() - 1],
            );
        } else if let OutputItemModel::Message { content } = item {
            part_blocks_are_texts(content);
            assert(output_blocks(items, names, ids)[i] == part_blocks(content)[i - earlier.len()]);
        }
    }
}

proof fn part_blocks_are_texts(parts: Seq<ContentPartModel>)
    ensures
        forall|i: int| 0 <= i < part_blocks(parts).len() ==> (#[trigger] part_blocks(parts)[i]) is Text,
    decreases parts.len(),
{
    if parts.len() > 0 {
        part_blocks_are_texts(parts.drop_last());
    }
}

/// Where every function call has an id, nothing is generated: the message
/// depends on the answer alone.
pub proof fn message_depends_on_the_answer(
    response: ResponsesResponse,
    model: Seq<char>,
    estimated: u32,
    names: Map<Seq<char>, Seq<char>>,
    a: Seq<Seq<char>>,
    b: Seq<Seq<char>>,
)
    requires
        forall|k: int|
            0 <= k < response.output@.len() ==> !lacks_id(
                #[trigger] response.output.deep_view()[k],
            ),
    ensures
        translated_response(response, model, estimated, names, a) == translated_response(
            response,
            model,
            estimated,
            names,
            b,
        ),
{
    ids_are_not_needed(response.output.deep_view(), names, a, b);
}

proof fn ids_are_not_needed(
    items: Seq<OutputItemModel>,
    names: Map<Seq<char>, Seq<char>>,
    a: Seq<Seq<char>>,
    b: Seq<Seq<char>>,
)
    requires
        forall|k: int| 0 <= k < items.len() ==> !lacks_id(#[trigger] items[k]),
    ensures
        output_blocks(items, names, a) == output_blocks(items, names, b),
    decreases items.len(),
{
    if items.len() > 0 {
        assert(!lacks_id(items[items.len() - 1]));
        ids_are_not_needed(items.drop_last(), names, a, b);
    }
}

} // verus!
