//! Which API the upstream has.
//!
//! The Chat Completions API is tried first, and the Responses API only where
//! the first cannot be reached. An answer that refuses the request still shows
//! that the endpoint exists; a missing one, a failing server or no answer at
//! all does not.

use vstd::prelude::*;

use crate::convert::frames::object1;
use crate::json::{array_tree, json_number, put, Json, Tree};
use crate::text::{drop_trailing, trim_end_matches};
use crate::upstream::mode::UpstreamApiMode;

verus! {

// ---------------------------------------------------------------------------
// Addresses
// ---------------------------------------------------------------------------

/// What an API's endpoint is called.
pub open spec fn endpoint(mode: UpstreamApiMode) -> Seq<char> {
    match mode {
        UpstreamApiMode::Responses => "/responses"@,
        UpstreamApiMode::ChatCompletions => "/chat/completions"@,
    }
}

/// The address of an API's endpoint. Slashes at the end of the base address do
/// not count.
pub open spec fn url_of(base: Seq<char>, mode: UpstreamApiMode) -> Seq<char> {
    drop_trailing(base, '/') + endpoint(mode)
}

/// The base address without slashes at its end.
pub fn normalize_base_url(base: &str) -> (r: String)
    ensures
        r@ == drop_trailing(base@, '/'),
{
    trim_end_matches(base, '/')
}

/// The address of an API's endpoint.
pub fn endpoint_url(base: &str, mode: UpstreamApiMode) -> (r: String)
    ensures
        r@ == url_of(base@, mode),
{
    let mut url = normalize_base_url(base);
    match mode {
        UpstreamApiMode::Responses => url.push_str("/responses"),
        UpstreamApiMode::ChatCompletions => url.push_str("/chat/completions"),
    }
    url
}

// ---------------------------------------------------------------------------
// The course of the detection
// ---------------------------------------------------------------------------

/// An answer with this status shows that the endpoint exists. Nothing stands
/// for no answer at all.
pub open spec fn shows_endpoint(status: Option<u16>) -> bool {
    match status {
        Some(status) => 200 <= status < 300 || (400 <= status < 500 && status != 404 && status
            != 405),
        None => false,
    }
}

/// Tells whether an answer shows that the endpoint exists.
pub fn endpoint_exists(status: Option<u16>) -> (r: bool)
    ensures
        r == shows_endpoint(status),
{
    match status {
        Some(status) => {
            if 200 <= status && status < 300 {
                true
            } else if status == 404 || status == 405 {
                false
            } else {
                400 <= status && status < 500
            }
        },
        None => false,
    }
}

/// How far the detection has come.
#[derive(Debug, Clone, Copy, PartialEq, Eq, Structural)]
pub enum Detection {
    /// This API is to be tried.
    Probing(UpstreamApiMode),
    /// The upstream has this API.
    Found(UpstreamApiMode),
    /// The upstream has none of them.
    Failed,
}

/// The API that is tried first.
pub const FIRST_PROBE: UpstreamApiMode = UpstreamApiMode::ChatCompletions;

/// Where the answer `status` to a probe leads.
pub open spec fn after_probe(detection: Detection, status: Option<u16>) -> Detection {
    match detection {
        Detection::Probing(mode) => if shows_endpoint(status) {
            Detection::Found(mode)
        } else {
            match mode {
                UpstreamApiMode::ChatCompletions => Detection::Probing(UpstreamApiMode::Responses),
                UpstreamApiMode::Responses => Detection::Failed,
            }
        },
        _ => detection,
    }
}

impl Detection {
    /// Before the first probe.
    pub fn start() -> (r: Detection)
        ensures
            r == Detection::Probing(FIRST_PROBE),
    {
        Detection::Probing(UpstreamApiMode::ChatCompletions)
    }

    /// Takes the answer to a probe; nothing stands for no answer at all.
    pub fn answer(self, status: Option<u16>) -> (r: Detection)
        ensures
            r == after_probe(self, status),
    {
        match self {
            Detection::Probing(mode) => {
                if endpoint_exists(status) {
                    Detection::Found(mode)
                } else {
                    match mode {
                        UpstreamApiMode::ChatCompletions => Detection::Probing(
                            UpstreamApiMode::Responses,
                        ),
                        UpstreamApiMode::Responses => Detection::Failed,
                    }
                }
            },
            other => other,
        }
    }
}

/// Two probes always decide: the Chat Completions API if its endpoint exists,
/// else the Responses API if that exists, else none.
pub proof fn two_probes_decide(chat: Option<u16>, responses: Option<u16>)
    ensures
        after_probe(after_probe(Detection::Probing(FIRST_PROBE), chat), responses) == (
        if shows_endpoint(chat) {
            Detection::Found(UpstreamApiMode::ChatCompletions)
        } else if shows_endpoint(responses) {
            Detection::Found(UpstreamApiMode::Responses)
        } else {
            Detection::Failed
        }),
{
}

/// What is said of an upstream that has none of the APIs.
pub open spec fn unsupported_text(base: Seq<char>) -> Seq<char> {
    "upstream does not support ChatCompletions API ("@ + drop_trailing(base, '/')
        + "/chat/completions) or Responses API ("@ + drop_trailing(base, '/')
        + "/responses) at this base URL — check OPENAI_BASE_URL and network connectivity"@
}

/// What is said of an upstream that has none of the APIs.
pub fn unsupported_message(base: &str) -> (r: String)
    ensures
        r@ == unsupported_text(base@),
{
    let base = normalize_base_url(base);
    let mut out = "upstream does not support ChatCompletions API (".to_string();
    out.push_str(base.as_str());
    out.push_str("/chat/completions) or Responses API (");
    out.push_str(base.as_str());
    out.push_str(
        "/responses) at this base URL — check OPENAI_BASE_URL and network connectivity",
    );
    out
}

// ---------------------------------------------------------------------------
// What is sent as a probe
// ---------------------------------------------------------------------------

/// The most tokens that a probe asks for.
pub const PROBE_TOKENS: u64 = 16;

/// How many seconds a probe waits for its answer.
pub const PROBE_TIMEOUT: u64 = 10;

/// A probe of the Chat Completions API.
pub open spec fn chat_probe(model: Seq<char>) -> Tree {
    let message = Tree::Object(
        object1("role"@, Tree::Text("user"@)).insert("content"@, Tree::Text("hi"@)),
    );
    Tree::Object(
        object1("model"@, Tree::Text(model)).insert("messages"@, Tree::Array(seq![message])).insert(
            "max_tokens"@,
            Tree::Number(json_number(PROBE_TOKENS)),
        ).insert("stream"@, Tree::Bool(false)),
    )
}

/// A probe of the Responses API.
pub open spec fn responses_probe(model: Seq<char>) -> Tree {
    let part = Tree::Object(
        object1("type"@, Tree::Text("input_text"@)).insert("text"@, Tree::Text("hi"@)),
    );
    let message = Tree::Object(
        object1("type"@, Tree::Text("message"@)).insert("role"@, Tree::Text("user"@)).insert(
            "content"@,
            Tree::Array(seq![part]),
        ),
    );
    Tree::Object(
        object1("model"@, Tree::Text(model)).insert("input"@, Tree::Array(seq![message])).insert(
            "max_output_tokens"@,
            Tree::Number(json_number(PROBE_TOKENS)),
        ).insert("stream"@, Tree::Bool(false)),
    )
}

/// A probe of an API.
pub open spec fn probe_of(mode: UpstreamApiMode, model: Seq<char>) -> Tree {
    match mode {
        UpstreamApiMode::Responses => responses_probe(model),
        UpstreamApiMode::ChatCompletions => chat_probe(model),
    }
}

/// An array with one item.
fn single(item: Json) -> (r: Json)
    ensures
        r@ == Tree::Array(seq![item@]),
{
    let mut items: Vec<Json> = Vec::new();
    let ghost tree = item@;
    items.push(item);
    proof {
        assert(items@.drop_last() =~= Seq::<Json>::empty());
        assert(array_tree(Seq::<Json>::empty()) =~= Seq::<Tree>::empty());
        assert(array_tree(items@) =~= seq![tree]);
    }
    Json::Array(items)
}

/// A probe of the Chat Completions API.
pub fn chat_probe_body(model: &str) -> (r: Json)
    ensures
        r@ == chat_probe(model@),
{
    let mut message: Vec<(String, Json)> = Vec::new();
    put(&mut message, "role", Json::text("user"));
    put(&mut message, "content", Json::text("hi"));
    let mut body: Vec<(String, Json)> = Vec::new();
    put(&mut body, "model", Json::text(model));
    put(&mut body, "messages", single(Json::Object(message)));
    put(&mut body, "max_tokens", Json::number(PROBE_TOKENS));
    put(&mut body, "stream", Json::Bool(false));
    Json::Object(body)
}

/// A probe of the Responses API.
pub fn responses_probe_body(model: &str) -> (r: Json)
    ensures
        r@ == responses_probe(model@),
{
    let mut part: Vec<(String, Json)> = Vec::new();
    put(&mut part, "type", Json::text("input_text"));
    put(&mut part, "text", Json::text("hi"));
    let mut message: Vec<(String, Json)> = Vec::new();
    put(&mut message, "type", Json::text("message"));
    put(&mut message, "role", Json::text("user"));
    put(&mut message, "content", single(Json::Object(part)));
    let mut body: Vec<(String, Json)> = Vec::new();
    put(&mut body, "model", Json::text(model));
    put(&mut body, "input", single(Json::Object(message)));
    put(&mut body, "max_output_tokens", Json::number(PROBE_TOKENS));
    put(&mut body, "stream", Json::Bool(false));
    Json::Object(body)
}

/// A probe of an API.
pub fn probe_body(mode: UpstreamApiMode, model: &str) -> (r: Json)
    ensures
        r@ == probe_of(mode, model@),
{
    match mode {
        UpstreamApiMode::Responses => responses_probe_body(model),
        UpstreamApiMode::ChatCompletions => chat_probe_body(model),
    }
}

} // verus!
