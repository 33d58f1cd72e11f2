//! The pieces of a message that both upstream APIs share.

use vstd::prelude::*;

use crate::json::{put, Json, Tree};
use crate::text::same;
use crate::types::claude::{
    MessagesResponse, MessagesResponseModel, ResponseContentBlock, ResponseContentBlockModel, Usage,
};
use crate::util::fix_json::{leniently_parsed, parse_lenient};
use crate::util::tool_id::{
    cleaned_is_an_id, generate, id_or, is_generated_id, is_id, sanitize_or,
};
use crate::util::tool_name::{restore, restored, ToolNameMap};

verus! {

// ---------------------------------------------------------------------------
// Tool calls
// ---------------------------------------------------------------------------

/// The input of a tool call: what its arguments stand for, or else the
/// arguments themselves under `raw_arguments`.
pub open spec fn arguments_of(parsed: Option<Tree>, raw: Seq<char>) -> Tree {
    match parsed {
        Some(input) => input,
        None => Tree::Object(
            Map::<Seq<char>, Tree>::empty().insert("raw_arguments"@, Tree::Text(raw)),
        ),
    }
}

/// The input of a tool call with the arguments `raw`, which were read as
/// `parsed`.
pub fn arguments_or_raw(parsed: Option<Json>, raw: &str) -> (r: Json)
    ensures
        r@ == arguments_of(parsed.deep_view(), raw@),
{
    match parsed {
        Some(input) => input,
        None => {
            let mut entries: Vec<(String, Json)> = Vec::new();
            put(&mut entries, "raw_arguments", Json::text(raw));
            Json::Object(entries)
        },
    }
}

/// A tool call as the upstream makes it.
pub struct Call {
    pub id: Seq<char>,
    pub name: Seq<char>,
    pub arguments: Seq<char>,
}

/// The block that a tool call becomes. `fallback` is its id where the upstream
/// gave it none.
pub open spec fn tool_block(
    call: Call,
    names: Map<Seq<char>, Seq<char>>,
    parsed: Option<Tree>,
    fallback: Seq<char>,
) -> ResponseContentBlockModel {
    ResponseContentBlockModel::ToolUse {
        id: id_or(call.id, fallback),
        name: restored(names, call.name),
        input: arguments_of(parsed, call.arguments),
    }
}

/// The block that a tool call becomes, with its arguments read as `parsed`.
pub fn tool_use_block(
    id: &str,
    name: &str,
    arguments: &str,
    names: &ToolNameMap,
    parsed: Option<Json>,
    fallback: &str,
) -> (r: ResponseContentBlock)
    ensures
        r.deep_view() == tool_block(
            Call { id: id@, name: name@, arguments: arguments@ },
            names@,
            parsed.deep_view(),
            fallback@,
        ),
{
    ResponseContentBlock::ToolUse {
        id: sanitize_or(id, fallback),
        name: restore(names, name),
        input: arguments_or_raw(parsed, arguments),
    }
}

/// The block that a tool call becomes, with its arguments read leniently.
pub open spec fn call_block(
    call: Call,
    names: Map<Seq<char>, Seq<char>>,
    fallback: Seq<char>,
) -> ResponseContentBlockModel {
    tool_block(call, names, leniently_parsed(call.arguments), fallback)
}

/// The block that a tool call becomes, and the id that was generated for it
/// where it has none.
pub fn block_of_call(id: &str, name: &str, arguments: &str, names: &ToolNameMap) -> (r: (
    ResponseContentBlock,
    String,
))
    ensures
        r.0.deep_view() == call_block(
            Call { id: id@, name: name@, arguments: arguments@ },
            names@,
            r.1@,
        ),
        id@.len() == 0 ==> is_generated_id(r.1@) && is_id(r.1@),
{
    let parsed = match parse_lenient(arguments) {
        Ok(input) => Some(input),
        Err(_) => None,
    };
    proof {
        reveal_strlit("");
        if id@.len() == 0 {
            assert(id@ =~= ""@);
        }
    }
    let fallback = if same(id, "") {
        generate()
    } else {
        String::new()
    };
    (tool_use_block(id, name, arguments, names, parsed, fallback.as_str()), fallback)
}

/// Whatever id the upstream gave a call, the block has one that the Messages
/// API takes.
pub proof fn tool_block_has_an_id(
    call: Call,
    names: Map<Seq<char>, Seq<char>>,
    parsed: Option<Tree>,
    fallback: Seq<char>,
)
    requires
        call.id.len() == 0 ==> is_id(fallback),
    ensures
        tool_block(call, names, parsed, fallback) matches ResponseContentBlockModel::ToolUse {
            id,
            ..
        } && is_id(id),
{
    cleaned_is_an_id(call.id);
}

// ---------------------------------------------------------------------------
// Token counts
// ---------------------------------------------------------------------------

/// The smaller of two counts that are not zero, or else the one that is not.
pub open spec fn smaller_known(a: u32, b: u32) -> u32 {
    if a > 0 && b > 0 {
        if a <= b {
            a
        } else {
            b
        }
    } else if a > 0 {
        a
    } else {
        b
    }
}

/// Token counts in the client's sense. The upstream's `total` of input tokens
/// counts the `cached` ones too; the client's count does not. The count is
/// held against the estimate that was made of the request; 0 stands for no
/// estimate.
pub open spec fn reported_usage(total: u32, cached: u32, output: u32, estimated: u32) -> Usage {
    let fresh = if cached <= total {
        (total - cached) as u32
    } else {
        0
    };
    Usage {
        input_tokens: smaller_known(estimated, fresh),
        output_tokens: output,
        cache_read_input_tokens: if cached > 0 {
            Some(cached)
        } else {
            None
        },
    }
}

/// Token counts in the client's sense.
pub fn report_usage(total: u32, cached: u32, output: u32, estimated: u32) -> (r: Usage)
    ensures
        r == reported_usage(total, cached, output, estimated),
{
    let fresh: u32 = total.saturating_sub(cached);
    let input_tokens: u32 = if estimated > 0 && fresh > 0 {
        if estimated <= fresh {
            estimated
        } else {
            fresh
        }
    } else if estimated > 0 {
        estimated
    } else {
        fresh
    };
    Usage {
        input_tokens,
        output_tokens: output,
        cache_read_input_tokens: if cached > 0 {
            Some(cached)
        } else {
            None
        },
    }
}

/// No token is counted twice: fresh and cached tokens together are at most the
/// upstream's total. The one exception is an estimate that stands in because
/// all of the input was cached.
pub proof fn no_token_counts_twice(total: u32, cached: u32, output: u32, estimated: u32)
    requires
        cached <= total,
        cached < total || estimated == 0,
    ensures
        ({
            let usage = reported_usage(total, cached, output, estimated);
            usage.input_tokens + match usage.cache_read_input_tokens {
                Some(n) => n as int,
                None => 0int,
            } <= total
        }),
{
}

// ---------------------------------------------------------------------------
// The message
// ---------------------------------------------------------------------------

/// The blocks of a message: one empty text where there is none.
pub open spec fn at_least_one(blocks: Seq<ResponseContentBlockModel>) -> Seq<
    ResponseContentBlockModel,
> {
    if blocks.len() == 0 {
        seq![ResponseContentBlockModel::Text { text: ""@ }]
    } else {
        blocks
    }
}

/// A message of the assistant.
pub open spec fn message_of(
    id: Seq<char>,
    model: Seq<char>,
    blocks: Seq<ResponseContentBlockModel>,
    stop_reason: Seq<char>,
    usage: Usage,
) -> MessagesResponseModel {
    MessagesResponseModel {
        id,
        response_type: "message"@,
        role: "assistant"@,
        model,
        content: at_least_one(blocks),
        stop_reason: Some(stop_reason),
        stop_sequence: None,
        usage,
    }
}

/// A message of the assistant.
pub fn assemble_message(
    id: &str,
    model: &str,
    blocks: Vec<ResponseContentBlock>,
    stop_reason: &str,
    usage: Usage,
) -> (r: MessagesResponse)
    ensures
        r.deep_view() == message_of(id@, model@, blocks.deep_view(), stop_reason@, usage),
{
    let mut content = blocks;
    if content.len() == 0 {
        content.push(ResponseContentBlock::Text { text: "".to_string() });
    }
    assert(content.deep_view() =~= at_least_one(blocks.deep_view()));
    MessagesResponse {
        id: id.to_string(),
        response_type: "message".to_string(),
        role: "assistant".to_string(),
        model: model.to_string(),
        content,
        stop_reason: Some(stop_reason.to_string()),
        stop_sequence: None,
        usage,
    }
}

} // verus!
