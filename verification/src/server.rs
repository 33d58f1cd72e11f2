//! What the server answers, apart from the sending.

use vstd::prelude::*;

use crate::config::ProxyConfig;
use crate::convert::frames::object1;
use crate::convert::request::{chat_request, claude_to_openai, text_message};
use crate::convert::responses::names::{build_tool_name_map, response_names_of};
use crate::convert::responses::request::{claude_to_responses, translated_request};
use crate::decimal::{decimal, decimal_text};
use crate::json::{json_number, put, Json, Tree};
use crate::text::{chars_of, chars_start_with, has_prefix, same, text_of};
use crate::types::claude::{MessagesRequest, Tool};
use crate::types::openai::{ChatCompletionRequest, ChatContent, ChatMessage, ChatRequestModel};
use crate::types::responses::ResponsesRequest;
use crate::upstream::mode::UpstreamApiMode;
use crate::util::tool_name::{build_map, declared_names_of, ToolNameMap};

verus! {

/// The most bytes that a request may have (50 MiB).
pub const MAX_BODY_BYTES: usize = 52_428_800;

/// How many seconds a stream may be silent before a sign of life is sent.
pub const KEEP_ALIVE_SECONDS: u64 = 15;

// ---------------------------------------------------------------------------
// Messages
// ---------------------------------------------------------------------------

/// What is sent to the upstream for a message.
#[derive(Debug)]
pub enum UpstreamCall {
    /// A request to the Responses API.
    Responses(ResponsesRequest),
    /// A request to the Chat Completions API.
    ChatCompletions(ChatCompletionRequest),
}

/// How a request for a message is served.
#[derive(Debug)]
pub struct MessagePlan {
    pub call: UpstreamCall,
    /// Whether the client gets the answer as a stream.
    pub stream: bool,
    /// The names by which the tools are known when they come back.
    pub names: ToolNameMap,
}

/// The names by which the tools of a request are known when they come back.
/// The Responses API gets long names in a shortened form.
pub open spec fn known_names(mode: UpstreamApiMode, tools: Option<Vec<Tool>>) -> Map<
    Seq<char>,
    Seq<char>,
> {
    let tools = match tools {
        Some(tools) => Some(&tools),
        None => None,
    };
    match mode {
        UpstreamApiMode::Responses => response_names_of(tools),
        UpstreamApiMode::ChatCompletions => declared_names_of(tools),
    }
}

/// Decides how a request for a message is served.
pub fn plan_message(request: &MessagesRequest, config: &ProxyConfig, mode: UpstreamApiMode) -> (r:
    MessagePlan)
    ensures
        r.names@ == known_names(mode, request.tools),
        r.stream == (request.stream == Some(true)),
        match mode {
            UpstreamApiMode::Responses => r.call matches UpstreamCall::Responses(upstream)
                && upstream.deep_view() == translated_request(*request, *config),
            UpstreamApiMode::ChatCompletions => r.call matches UpstreamCall::ChatCompletions(
                upstream,
            ) && upstream.deep_view() == chat_request(*request, *config),
        },
{
    let tools = match &request.tools {
        Some(tools) => Some(tools),
        None => None,
    };
    let stream = match request.stream {
        Some(stream) => stream,
        None => false,
    };
    match mode {
        UpstreamApiMode::Responses => MessagePlan {
            call: UpstreamCall::Responses(claude_to_responses(request, config)),
            stream,
            names: build_tool_name_map(tools),
        },
        UpstreamApiMode::ChatCompletions => MessagePlan {
            call: UpstreamCall::ChatCompletions(claude_to_openai(request, config)),
            stream,
            names: build_map(tools),
        },
    }
}

// ---------------------------------------------------------------------------
// Access
// ---------------------------------------------------------------------------

/// `bytes` begin with `prefix`.
pub open spec fn bytes_begin(bytes: Seq<u8>, prefix: Seq<u8>) -> bool {
    prefix.len() <= bytes.len() && bytes.take(prefix.len() as int) == prefix
}

/// `http://localhost`
pub open spec fn localhost_name() -> Seq<u8> {
    seq![104, 116, 116, 112, 58, 47, 47, 108, 111, 99, 97, 108, 104, 111, 115, 116]
}

/// `http://127.0.0.1`
pub open spec fn localhost_v4() -> Seq<u8> {
    seq![104, 116, 116, 112, 58, 47, 47, 49, 50, 55, 46, 48, 46, 48, 46, 49]
}

/// `http://[::1]`
pub open spec fn localhost_v6() -> Seq<u8> {
    seq![104, 116, 116, 112, 58, 47, 47, 91, 58, 58, 49, 93]
}

/// Tells whether `bytes` begin with `prefix`.
fn starts(bytes: &Vec<u8>, prefix: &Vec<u8>) -> (r: bool)
    ensures
        r == bytes_begin(bytes@, prefix@),
{
    if prefix.len() > bytes.len() {
        return false;
    }
    let mut i: usize = 0;
    while i < prefix.len()
        invariant
            prefix@.len() <= bytes@.len(),
            i <= prefix@.len(),
            forall|k: int| 0 <= k < i ==> bytes@[k] == prefix@[k],
        decreases prefix.len() - i,
    {
        if bytes[i] != prefix[i] {
            assert(bytes@.take(prefix@.len() as int)[i as int] != prefix@[i as int]);
            return false;
        }
        i += 1;
    }
    assert(bytes@.take(prefix@.len() as int) =~= prefix@);
    true
}

/// The origin is `host`, with a port behind it or not.
pub open spec fn is_at(origin: Seq<u8>, host: Seq<u8>) -> bool {
    origin == host || {
        &&& bytes_begin(origin, host.push(58))
        &&& forall|i: int| host.len() < i < origin.len() ==> 48 <= #[trigger] origin[i] <= 57
    }
}

/// Tells whether the origin is `host`, with a port behind it or not.
fn at(origin: &Vec<u8>, host: &Vec<u8>) -> (r: bool)
    ensures
        r == is_at(origin@, host@),
{
    if !starts(origin, host) {
        assert(origin@ == host@ ==> origin@.take(host@.len() as int) =~= host@);
        assert(bytes_begin(origin@, host@.push(58)) ==> origin@.take(host@.len() as int) =~= host@)
            by {
            if bytes_begin(origin@, host@.push(58)) {
                assert forall|k: int| 0 <= k < host@.len() implies origin@[k] == host@[k] by {
                    assert(origin@.take(host@.len() as int + 1)[k] == host@.push(58)[k]);
                }
            }
        }
        return false;
    }
    assert(forall|k: int| 0 <= k < host@.len() ==> origin@.take(host@.len() as int)[k] == host@[k]);
    if origin.len() == host.len() {
        assert(origin@ =~= host@);
        return true;
    }
    if origin[host.len()] != 58 {
        assert(origin@.take(host@.len() as int + 1)[host@.len() as int] != 58);
        return false;
    }
    assert(origin@.take(host@.len() as int + 1) =~= host@.push(58));
    let mut i: usize = host.len() + 1;
    while i < origin.len()
        invariant
            host@.len() < i <= origin@.len(),
            forall|k: int| host@.len() < k < i ==> 48 <= #[trigger] origin@[k] <= 57,
        decreases origin.len() - i,
    {
        if origin[i] < 48 || origin[i] > 57 {
            return false;
        }
        i += 1;
    }
    true
}

/// A page of this origin may call the proxy.
pub open spec fn is_local(origin: Seq<u8>) -> bool {
    is_at(origin, localhost_name()) || is_at(origin, localhost_v4()) || is_at(
        origin,
        localhost_v6(),
    )
}

/// Tells whether a page of this origin may call the proxy: one of this machine,
/// over HTTP and on any port.
pub fn is_local_origin(origin: &Vec<u8>) -> (r: bool)
    ensures
        r == (is_at(origin@, localhost_name()) || is_at(origin@, localhost_v4()) || is_at(
            origin@,
            localhost_v6(),
        )),
        r == is_local(origin@),
{
    let name: Vec<u8> = vec![
        104, 116, 116, 112, 58, 47, 47, 108, 111, 99, 97, 108, 104, 111, 115, 116,
    ];
    let v4: Vec<u8> = vec![
        104, 116, 116, 112, 58, 47, 47, 49, 50, 55, 46, 48, 46, 48, 46, 49,
    ];
    let v6: Vec<u8> = vec![104, 116, 116, 112, 58, 47, 47, 91, 58, 58, 49, 93];
    assert(name@ =~= localhost_name());
    assert(v4@ =~= localhost_v4());
    assert(v6@ =~= localhost_v6());
    at(origin, &name) || at(origin, &v4) || at(origin, &v6)
}

/// The key in an `Authorization` header: what stands behind `Bearer `.
pub open spec fn bearer_key(authorization: Seq<char>) -> Option<Seq<char>> {
    if has_prefix(authorization, "Bearer "@) {
        Some(authorization.skip("Bearer "@.len() as int))
    } else {
        None
    }
}

/// The key that a request presents: that of its `x-api-key` header, or else
/// that of its `Authorization` header.
pub open spec fn presented_key(
    api_key: Option<Seq<char>>,
    authorization: Option<Seq<char>>,
) -> Option<Seq<char>> {
    match api_key {
        Some(key) => Some(key),
        None => match authorization {
            Some(authorization) => bearer_key(authorization),
            None => None,
        },
    }
}

/// A request with these headers is served: it presents the key that is set, or
/// none is set.
pub open spec fn is_served(
    config: ProxyConfig,
    api_key: Option<Seq<char>>,
    authorization: Option<Seq<char>>,
) -> bool {
    config.anthropic_api_key matches Some(expected) ==> presented_key(api_key, authorization)
        == Some(expected@)
}

/// Tells whether a request with these headers is served: it presents the key
/// that is set, or none is set.
pub fn is_authorized(
    config: &ProxyConfig,
    api_key: &Option<String>,
    authorization: &Option<String>,
) -> (r: bool)
    ensures
        r == match config.anthropic_api_key {
            Some(expected) => presented_key(api_key.deep_view(), authorization.deep_view()) == Some(
                expected@,
            ),
            None => true,
        },
        r == is_served(*config, api_key.deep_view(), authorization.deep_view()),
{
    let expected = match &config.anthropic_api_key {
        Some(expected) => expected.as_str(),
        None => return true,
    };
    match api_key {
        Some(key) => same(key.as_str(), expected),
        None => match authorization {
            Some(authorization) => {
                let chars = chars_of(authorization.as_str());
                let prefix = chars_of("Bearer ");
                assert(chars@.skip(0) =~= chars@);
                if chars_start_with(&chars, 0, &prefix) {
                    let key = text_of(&chars, prefix.len(), chars.len());
                    assert(key@ =~= authorization@.skip("Bearer "@.len() as int));
                    same(key.as_str(), expected)
                } else {
                    false
                }
            },
            None => false,
        },
    }
}

// ---------------------------------------------------------------------------
// Other answers
// ---------------------------------------------------------------------------

/// The address that the server listens on.
pub open spec fn listen_address_of(config: ProxyConfig) -> Seq<char> {
    config.host@ + ":"@ + decimal(config.port as nat)
}

/// The address that the server listens on.
pub fn listen_address(config: &ProxyConfig) -> (r: String)
    ensures
        r@ == listen_address_of(*config),
{
    let mut out = config.host.clone();
    out.push_str(":");
    out.push_str(decimal_text(config.port as u64).as_str());
    out
}

/// The answer to a question for the proxy's health at `now`, in seconds since
/// 1970.
pub open spec fn health_tree(config: ProxyConfig, now: u64) -> Tree {
    Tree::Object(
        object1("status"@, Tree::Text("healthy"@)).insert(
            "timestamp"@,
            Tree::Text(decimal(now as nat)),
        ).insert("openai_api_configured"@, Tree::Bool(config.openai_api_key@.len() > 0)).insert(
            "client_api_key_validation"@,
            Tree::Bool(config.anthropic_api_key is Some),
        ),
    )
}

/// The answer to a question for the proxy's health.
pub fn health_body(config: &ProxyConfig, now: u64) -> (r: Json)
    ensures
        r@ == health_tree(*config, now),
{
    proof {
        reveal_strlit("");
        if config.openai_api_key@.len() == 0 {
            assert(config.openai_api_key@ =~= ""@);
        }
    }
    let mut body: Vec<(String, Json)> = Vec::new();
    put(&mut body, "status", Json::text("healthy"));
    put(&mut body, "timestamp", Json::Text(decimal_text(now)));
    put(
        &mut body,
        "openai_api_configured",
        Json::Bool(!same(config.openai_api_key.as_str(), "")),
    );
    put(&mut body, "client_api_key_validation", Json::Bool(config.anthropic_api_key.is_some()));
    Json::Object(body)
}

/// What the proxy tells of itself.
pub open spec fn root_tree(config: ProxyConfig, version: Seq<char>) -> Tree {
    let settings = object1("openai_base_url"@, Tree::Text(config.openai_base_url@)).insert(
        "big_model"@,
        Tree::Text(config.big_model@),
    ).insert("middle_model"@, Tree::Text(config.middle())).insert(
        "small_model"@,
        Tree::Text(config.small_model@),
    );
    let endpoints = object1("messages"@, Tree::Text("/v1/messages"@)).insert(
        "count_tokens"@,
        Tree::Text("/v1/messages/count_tokens"@),
    ).insert("health"@, Tree::Text("/health"@)).insert(
        "test_connection"@,
        Tree::Text("/test-connection"@),
    );
    Tree::Object(
        object1("message"@, Tree::Text("cc-proxy v"@ + version)).insert(
            "status"@,
            Tree::Text("running"@),
        ).insert("config"@, Tree::Object(settings)).insert("endpoints"@, Tree::Object(endpoints)),
    )
}

/// What the proxy tells of itself.
pub fn root_body(config: &ProxyConfig, version: &str) -> (r: Json)
    ensures
        r@ == root_tree(*config, version@),
{
    let mut settings: Vec<(String, Json)> = Vec::new();
    put(&mut settings, "openai_base_url", Json::text(config.openai_base_url.as_str()));
    put(&mut settings, "big_model", Json::text(config.big_model.as_str()));
    put(&mut settings, "middle_model", Json::text(config.effective_middle_model()));
    put(&mut settings, "small_model", Json::text(config.small_model.as_str()));
    let mut endpoints: Vec<(String, Json)> = Vec::new();
    put(&mut endpoints, "messages", Json::text("/v1/messages"));
    put(&mut endpoints, "count_tokens", Json::text("/v1/messages/count_tokens"));
    put(&mut endpoints, "health", Json::text("/health"));
    put(&mut endpoints, "test_connection", Json::text("/test-connection"));
    let mut message = "cc-proxy v".to_string();
    message.push_str(version);
    let mut body: Vec<(String, Json)> = Vec::new();
    put(&mut body, "message", Json::Text(message));
    put(&mut body, "status", Json::text("running"));
    put(&mut body, "config", Json::Object(settings));
    put(&mut body, "endpoints", Json::Object(endpoints));
    Json::Object(body)
}

/// The answer to a question for a number of tokens.
pub fn token_count_body(tokens: u32) -> (r: Json)
    ensures
        r@ == Tree::Object(object1("input_tokens"@, Tree::Number(json_number(tokens as u64)))),
{
    let mut body: Vec<(String, Json)> = Vec::new();
    put(&mut body, "input_tokens", Json::number(tokens as u64));
    Json::Object(body)
}

/// The request by which the connection to the upstream is tested: a greeting
/// to the small model, for a few tokens.
pub fn connection_test_request(config: &ProxyConfig) -> (r: ChatCompletionRequest)
    ensures
        r.deep_view() == (ChatRequestModel {
            model: config.small_model@,
            messages: seq![text_message("user"@, "Hello"@)],
            max_tokens: 5,
            stream: false,
            stop: None,
            tools: None,
            tool_choice: None,
            stream_options: None,
            reasoning_effort: None,
        }),
{
    let mut messages: Vec<ChatMessage> = Vec::new();
    messages.push(
        ChatMessage {
            role: "user".to_string(),
            content: Some(ChatContent::Text("Hello".to_string())),
            tool_calls: None,
            tool_call_id: None,
        },
    );
    assert(messages.deep_view() =~= seq![text_message("user"@, "Hello"@)]);
    ChatCompletionRequest {
        model: config.small_model.clone(),
        messages,
        max_tokens: 5,
        stream: false,
        stop: None,
        tools: None,
        tool_choice: None,
        stream_options: None,
        reasoning_effort: None,
    }
}

/// What is said of a connection that works.
pub open spec fn connection_ok_tree(config: ProxyConfig, response_id: Seq<char>) -> Tree {
    Tree::Object(
        object1("status"@, Tree::Text("success"@)).insert(
            "message"@,
            Tree::Text("Connected to upstream API"@),
        ).insert("model_used"@, Tree::Text(config.small_model@)).insert(
            "response_id"@,
            Tree::Text(response_id),
        ),
    )
}

/// What is said of a connection that works.
pub fn connection_ok_body(config: &ProxyConfig, response_id: &str) -> (r: Json)
    ensures
        r@ == connection_ok_tree(*config, response_id@),
{
    let mut body: Vec<(String, Json)> = Vec::new();
    put(&mut body, "status", Json::text("success"));
    put(&mut body, "message", Json::text("Connected to upstream API"));
    put(&mut body, "model_used", Json::text(config.small_model.as_str()));
    put(&mut body, "response_id", Json::text(response_id));
    Json::Object(body)
}

/// What is said of a connection that does not work.
pub fn connection_failed_body(error: &str) -> (r: Json)
    ensures
        r@ == Tree::Object(
            object1("status"@, Tree::Text("failed"@)).insert("error"@, Tree::Text(error@)),
        ),
{
    let mut body: Vec<(String, Json)> = Vec::new();
    put(&mut body, "status", Json::text("failed"));
    put(&mut body, "error", Json::text(error));
    Json::Object(body)
}

} // verus!
