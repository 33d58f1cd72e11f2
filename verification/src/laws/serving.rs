//! Who is served, from which page, by which upstream API, and what the proxy
//! tells of itself.

use vstd::prelude::*;

use crate::config::ProxyConfig;
use crate::convert::responses::names::{
    declared_names_come_first, short_names, shortened_name_is_restored, tool_names,
};
use crate::convert::responses::request::outgoing_name;
use crate::decimal::{decimal, decimal_round_trip, decimal_value};
use crate::json::Tree;
use crate::laws::texts::part_stands_between;
use crate::laws::wire::{number, text, under};
use crate::server::{
    bearer_key, bytes_begin, connection_ok_tree, health_tree, is_at, is_local, is_served,
    known_names, listen_address_of, localhost_name, localhost_v4, localhost_v6, presented_key,
    root_tree,
};
use crate::split::has_part;
use crate::text::drop_trailing;
use crate::types::claude::Tool;
use crate::upstream::detector::{
    after_probe, probe_of, shows_endpoint, unsupported_text, url_of, Detection, FIRST_PROBE,
};
use crate::upstream::mode::UpstreamApiMode;
use crate::util::tool_name::{canonical_name, declared_name_is_restored, declared_names, restored};

verus! {

// ---------------------------------------------------------------------------
// Keys and pages
// ---------------------------------------------------------------------------

/// The key of the `x-api-key` header counts, whatever else is sent. Without it
/// the one behind `Bearer ` in the `Authorization` header does. Nothing else is
/// a key.
pub proof fn keys_come_from_their_headers(key: Seq<char>, other: Option<Seq<char>>, s: Seq<char>)
    ensures
        presented_key(Some(key), other) == Some(key),
        presented_key(None, Some("Bearer "@ + key)) == Some(key),
        presented_key(None, None) is None,
        (forall|k: Seq<char>| s != "Bearer "@ + k) ==> presented_key(None, Some(s)) is None,
{
    let given = "Bearer "@ + key;
    assert(given.take("Bearer "@.len() as int) =~= "Bearer "@);
    assert(given.skip("Bearer "@.len() as int) =~= key);
    if bearer_key(s) is Some {
        assert(s =~= "Bearer "@ + s.skip("Bearer "@.len() as int));
    }
}

/// Where no key is set, everybody is served. Where one is set, a request with an
/// `x-api-key` header is served exactly if that is the key, one without it
/// exactly if the key stands behind `Bearer ` in its `Authorization` header, and
/// one without both is not.
pub proof fn only_the_key_opens(
    config: ProxyConfig,
    expected: String,
    key: Seq<char>,
    other: Option<Seq<char>>,
)
    ensures
        config.anthropic_api_key is None ==> is_served(config, Some(key), other) && is_served(
            config,
            None,
            other,
        ),
        config.anthropic_api_key == Some(expected) ==> {
            &&& is_served(config, Some(key), other) <==> key == expected@
            &&& is_served(config, None, Some("Bearer "@ + key)) <==> key == expected@
            &&& !is_served(config, None, None)
        },
{
    keys_come_from_their_headers(key, other, Seq::empty());
}

/// A page of a host is one with just that origin, or with a colon and a port
/// behind it; any other character behind the host makes it another host's.
pub proof fn page_is_the_hosts_own(host: Seq<u8>, port: Seq<u8>, c: u8, rest: Seq<u8>)
    ensures
        is_at(host, host),
        (forall|i: int| 0 <= i < port.len() ==> 48 <= #[trigger] port[i] <= 57) ==> is_at(
            host.push(58) + port,
            host,
        ),
        c != 58 ==> !is_at(host.push(c) + rest, host),
        (exists|i: int| 0 <= i < port.len() && !(48 <= #[trigger] port[i] <= 57)) ==> !is_at(
            host.push(58) + port,
            host,
        ),
{
    let all = host.push(58) + port;
    assert(all.take(host.push(58).len() as int) =~= host.push(58));
    assert forall|i: int| host.len() < i < all.len() implies all[i] == #[trigger] port[
    i - host.len() - 1] by {}
    if forall|i: int| 0 <= i < port.len() ==> 48 <= #[trigger] port[i] <= 57 {
        assert forall|i: int| host.len() < i < all.len() implies 48 <= #[trigger] all[i] <= 57 by {
            assert(all[i] == port[i - host.len() - 1]);
        }
    }
    if exists|i: int| 0 <= i < port.len() && !(48 <= #[trigger] port[i] <= 57) {
        let i = choose|i: int| 0 <= i < port.len() && !(48 <= #[trigger] port[i] <= 57);
        assert(all[host.len() + 1 + i] == port[i]);
        assert(all != host) by {
            assert(all.len() > host.len());
        }
    }
    if c != 58 {
        let other = host.push(c) + rest;
        assert(other.len() > host.len());
        assert(other[host.len() as int] == c);
        if is_at(other, host) {
            assert(other.take(host.push(58).len() as int)[host.len() as int] == 58);
        }
    }
}

/// The three hosts are this machine's own: `localhost` and its two addresses,
/// over HTTP.
pub proof fn hosts_are_this_machines()
    ensures
        localhost_name().len() == "http://localhost"@.len(),
        forall|i: int|
            0 <= i < localhost_name().len() ==> #[trigger] localhost_name()[i] as int
                == "http://localhost"@[i] as int,
        localhost_v4().len() == "http://127.0.0.1"@.len(),
        forall|i: int|
            0 <= i < localhost_v4().len() ==> #[trigger] localhost_v4()[i] as int
                == "http://127.0.0.1"@[i] as int,
        localhost_v6().len() == "http://[::1]"@.len(),
        forall|i: int|
            0 <= i < localhost_v6().len() ==> #[trigger] localhost_v6()[i] as int
                == "http://[::1]"@[i] as int,
{
    reveal_strlit("http://localhost");
    reveal_strlit("http://127.0.0.1");
    reveal_strlit("http://[::1]");
}

/// Pages of this machine may call the proxy, on any port, and a page of a host
/// whose name only begins like one of its names may not.
pub proof fn only_local_pages_may_call(port: Seq<u8>, c: u8, rest: Seq<u8>)
    requires
        forall|i: int| 0 <= i < port.len() ==> 48 <= #[trigger] port[i] <= 57,
        c != 58,
    ensures
        is_local(localhost_name()),
        is_local(localhost_v4()),
        is_local(localhost_v6()),
        is_local(localhost_name().push(58) + port),
        is_local(localhost_v4().push(58) + port),
        is_local(localhost_v6().push(58) + port),
        !is_local(localhost_name().push(c) + rest),
        !is_local(localhost_v4().push(c) + rest),
        !is_local(localhost_v6().push(c) + rest),
{
    page_is_the_hosts_own(localhost_name(), port, c, rest);
    page_is_the_hosts_own(localhost_v4(), port, c, rest);
    page_is_the_hosts_own(localhost_v6(), port, c, rest);
    hosts_differ(localhost_name().push(c) + rest);
    hosts_differ(localhost_v4().push(c) + rest);
    hosts_differ(localhost_v6().push(c) + rest);
}

/// The eighth character tells the hosts apart.
proof fn hosts_differ(origin: Seq<u8>)
    ensures
        is_at(origin, localhost_name()) ==> origin[7] == 108,
        is_at(origin, localhost_v4()) ==> origin[7] == 49,
        is_at(origin, localhost_v6()) ==> origin[7] == 91,
{
    let a = localhost_name();
    let b = localhost_v4();
    let c = localhost_v6();
    if is_at(origin, a) && origin != a {
        assert(origin.take(a.push(58).len() as int)[7] == a.push(58)[7]);
    }
    if is_at(origin, b) && origin != b {
        assert(origin.take(b.push(58).len() as int)[7] == b.push(58)[7]);
    }
    if is_at(origin, c) && origin != c {
        assert(origin.take(c.push(58).len() as int)[7] == c.push(58)[7]);
    }
}

// ---------------------------------------------------------------------------
// The upstream's API
// ---------------------------------------------------------------------------

/// An answer that succeeds shows an endpoint, and so does one that refuses the
/// request. One that says that there is no such place or method, one of a
/// failing server and none at all do not.
pub proof fn answers_show_endpoints(status: u16)
    ensures
        200 <= status <= 299 ==> shows_endpoint(Some(status)),
        status == 400 || status == 401 || status == 403 || status == 422 || status == 429
            ==> shows_endpoint(Some(status)),
        400 <= status <= 499 && status != 404 && status != 405 ==> shows_endpoint(Some(status)),
        status == 404 || status == 405 ==> !shows_endpoint(Some(status)),
        status >= 500 ==> !shows_endpoint(Some(status)),
        status < 200 || 300 <= status <= 399 ==> !shows_endpoint(Some(status)),
        !shows_endpoint(None),
{
}

/// The Chat Completions API is taken where its endpoint shows, whatever the
/// other does; the Responses API only where that alone does. What was found
/// stays.
pub proof fn chat_comes_first(chat: Option<u16>, responses: Option<u16>, later: Option<u16>)
    ensures
        ({
            let first = after_probe(Detection::Probing(FIRST_PROBE), chat);
            let second = after_probe(first, responses);
            &&& FIRST_PROBE == UpstreamApiMode::ChatCompletions
            &&& shows_endpoint(chat) ==> first == Detection::Found(UpstreamApiMode::ChatCompletions)
            &&& !shows_endpoint(chat) ==> first == Detection::Probing(UpstreamApiMode::Responses)
            &&& shows_endpoint(chat) ==> second == first
            &&& !shows_endpoint(chat) && shows_endpoint(responses) ==> second == Detection::Found(
                UpstreamApiMode::Responses,
            )
            &&& !shows_endpoint(chat) && !shows_endpoint(responses) ==> second == Detection::Failed
            &&& after_probe(second, later) == second
        }),
{
}

proof fn slashes_are_dropped(base: Seq<char>, n: nat)
    requires
        base.len() == 0 || base.last() != '/',
    ensures
        drop_trailing(base + Seq::new(n, |i: int| '/'), '/') == base,
    decreases n,
{
    let slashes = Seq::new(n, |i: int| '/');
    if n == 0 {
        assert(base + slashes =~= base);
    } else {
        let fewer = Seq::new((n - 1) as nat, |i: int| '/');
        assert((base + slashes).last() == '/');
        assert((base + slashes).drop_last() =~= base + fewer);
        slashes_are_dropped(base, (n - 1) as nat);
    }
}

/// The address of an endpoint is the base address with the name of the
/// endpoint behind it, however many slashes the base address ends in.
pub proof fn address_is_base_and_endpoint(base: Seq<char>, n: nat)
    requires
        base.len() == 0 || base.last() != '/',
    ensures
        ({
            let given = base + Seq::new(n, |i: int| '/');
            &&& url_of(given, UpstreamApiMode::ChatCompletions) == base + "/chat/completions"@
            &&& url_of(given, UpstreamApiMode::Responses) == base + "/responses"@
        }),
{
    slashes_are_dropped(base, n);
}

/// A probe asks the model that is to be used, without a stream.
pub proof fn probe_asks_the_model(mode: UpstreamApiMode, model: Seq<char>)
    ensures
        under(probe_of(mode, model), "model"@) == text(model),
        under(probe_of(mode, model), "stream"@) == Tree::Bool(false),
        mode == UpstreamApiMode::ChatCompletions ==> under(
            probe_of(mode, model),
            "messages"@,
        ) is Array && under(probe_of(mode, model), "max_tokens"@) == number(16),
        mode == UpstreamApiMode::Responses ==> under(probe_of(mode, model), "input"@) is Array
            && under(probe_of(mode, model), "max_output_tokens"@) == number(16),
{
    reveal_strlit("model");
    reveal_strlit("stream");
    reveal_strlit("messages");
    reveal_strlit("max_tokens");
    reveal_strlit("input");
    reveal_strlit("max_output_tokens");
    assert("model"@.len() == 5 && "model"@[0] == 'm');
    assert("input"@.len() == 5 && "input"@[0] == 'i');
    assert("stream"@.len() == 6 && "messages"@.len() == 8 && "max_tokens"@.len() == 10);
    assert("max_output_tokens"@.len() == 17);
}

/// An upstream without any of the APIs is told with both addresses that were
/// tried.
pub proof fn missing_apis_are_told(base: Seq<char>)
    ensures
        has_part(unsupported_text(base), url_of(base, UpstreamApiMode::ChatCompletions)),
        has_part(unsupported_text(base), url_of(base, UpstreamApiMode::Responses)),
{
    let bare = drop_trailing(base, '/');
    let before = "upstream does not support ChatCompletions API ("@;
    let between = "/chat/completions) or Responses API ("@;
    let behind =
        "/responses) at this base URL — check OPENAI_BASE_URL and network connectivity"@;
    reveal_strlit("/chat/completions");
    reveal_strlit("/chat/completions) or Responses API (");
    reveal_strlit("/responses");
    reveal_strlit(
        "/responses) at this base URL — check OPENAI_BASE_URL and network connectivity",
    );
    let chat = "/chat/completions"@;
    let responses = "/responses"@;
    assert(between =~= chat + between.skip(17));
    assert(behind =~= responses + behind.skip(10));
    let all = unsupported_text(base);
    assert(all =~= before + (bare + chat) + (between.skip(17) + bare + behind));
    part_stands_between(
        Seq::empty(),
        before,
        bare + chat,
        between.skip(17) + bare + behind,
    );
    assert(all =~= (before + bare + between) + (bare + responses) + behind.skip(10));
    part_stands_between(
        Seq::empty(),
        before + bare + between,
        bare + responses,
        behind.skip(10),
    );
}

/// Bytes begin with what was put before them.
pub proof fn bytes_begin_with_their_beginning(bytes: Seq<u8>, rest: Seq<u8>)
    ensures
        bytes_begin(bytes + rest, bytes),
        bytes_begin(rest, bytes) ==> rest == bytes + rest.skip(bytes.len() as int),
{
    assert((bytes + rest).take(bytes.len() as int) =~= bytes);
    if bytes_begin(rest, bytes) {
        assert(rest =~= bytes + rest.skip(bytes.len() as int));
    }
}

/// A probe is a greeting of the user's.
pub proof fn probe_is_a_greeting(model: Seq<char>)
    ensures
        ({
            let probe = probe_of(UpstreamApiMode::ChatCompletions, model);
            &&& under(probe, "messages"@) matches Tree::Array(messages)
            &&& messages.len() == 1
            &&& under(messages[0], "role"@) == text("user"@)
            &&& under(messages[0], "content"@) == text("hi"@)
        }),
        ({
            let probe = probe_of(UpstreamApiMode::Responses, model);
            &&& under(probe, "input"@) matches Tree::Array(items)
            &&& items.len() == 1
            &&& under(items[0], "role"@) == text("user"@)
            &&& under(items[0], "type"@) == text("message"@)
            &&& under(items[0], "content"@) matches Tree::Array(parts)
            &&& parts.len() == 1
            &&& under(parts[0], "type"@) == text("input_text"@)
            &&& under(parts[0], "text"@) == text("hi"@)
        }),
{
    reveal_strlit("model");
    reveal_strlit("stream");
    reveal_strlit("messages");
    reveal_strlit("max_tokens");
    reveal_strlit("input");
    reveal_strlit("max_output_tokens");
    reveal_strlit("role");
    reveal_strlit("content");
    reveal_strlit("type");
    reveal_strlit("text");
    assert("model"@.len() == 5 && "stream"@.len() == 6 && "messages"@.len() == 8);
    assert("max_tokens"@.len() == 10 && "max_output_tokens"@.len() == 17 && "input"@.len() == 5);
    assert("role"@.len() == 4 && "role"@[0] == 'r' && "content"@.len() == 7);
    assert("type"@.len() == 4 && "type"@[0] == 't' && "type"@[1] == 'y');
    assert("text"@.len() == 4 && "text"@[1] == 'e');
}

// ---------------------------------------------------------------------------
// Tool names
// ---------------------------------------------------------------------------

/// Whichever API serves a request, a tool that the upstream calls by a spelling
/// of its declared name is known by that name; of several tools with one form
/// it is the first.
pub proof fn declared_tools_are_known(
    mode: UpstreamApiMode,
    tools: Vec<Tool>,
    i: int,
    got: Seq<char>,
)
    requires
        0 <= i < tools@.len(),
        forall|j: int|
            0 <= j < i ==> canonical_name((#[trigger] tools@[j]).name@) != canonical_name(
                tools@[i].name@,
            ),
        canonical_name(got).len() > 0,
        canonical_name(got) == canonical_name(tools@[i].name@),
    ensures
        restored(known_names(mode, Some(tools)), got) == tools@[i].name@,
{
    declared_name_is_restored(tools@, i, got);
    form_is_declared(tools@, i);
    if mode == UpstreamApiMode::Responses {
        declared_names_come_first(tools@, got);
    }
}

/// A long name that went out to the Responses API in its short form is known by
/// its declared name when it comes back, unless the form of the short name is
/// empty, or another declared name or an earlier short name has the same.
pub proof fn short_names_are_known(tools: Vec<Tool>, i: int)
    requires
        0 <= i < tools@.len(),
        ({
            let shorts = short_names(tool_names(tools@));
            let name = tools@[i].name@;
            let key = canonical_name(outgoing_name(shorts, name));
            &&& outgoing_name(shorts, name) != name
            &&& key.len() > 0
            &&& forall|j: int|
                0 <= j < tools@.len() && canonical_name((#[trigger] tools@[j]).name@) == key
                    ==> tools@[j].name@ == name
            &&& forall|j: int|
                0 <= j < i && outgoing_name(shorts, (#[trigger] tools@[j]).name@)
                    != tools@[j].name@ && canonical_name(outgoing_name(shorts, tools@[j].name@))
                    == key ==> tools@[j].name@ == name
        }),
    ensures
        restored(
            known_names(UpstreamApiMode::Responses, Some(tools)),
            outgoing_name(short_names(tool_names(tools@)), tools@[i].name@),
        ) == tools@[i].name@,
{
    let shorts = short_names(tool_names(tools@));
    assert forall|j: int| 0 <= j < tools@.len() implies shorts.contains_key(
        (#[trigger] tools@[j]).name@,
    ) by {
        every_tool_has_a_short_name(tools@, j);
    }
    assert(shorts.contains_key(tools@[i].name@));
    shortened_name_is_restored(tools@, i);
}

proof fn every_tool_has_a_short_name(tools: Seq<Tool>, j: int)
    requires
        0 <= j < tools.len(),
    ensures
        short_names(tool_names(tools)).contains_key(tools[j].name@),
    decreases tools.len(),
{
    let names = tool_names(tools);
    assert(names.drop_last() =~= tool_names(tools.drop_last()));
    assert(names.last() == tools.last().name@);
    if j < tools.len() - 1 {
        every_tool_has_a_short_name(tools.drop_last(), j);
    }
}

proof fn form_is_declared(tools: Seq<Tool>, i: int)
    requires
        0 <= i < tools.len(),
        canonical_name(tools[i].name@).len() > 0,
    ensures
        declared_names(tools).contains_key(canonical_name(tools[i].name@)),
    decreases tools.len(),
{
    if i < tools.len() - 1 {
        form_is_declared(tools.drop_last(), i);
    }
}

/// Without declared tools no name is changed.
pub proof fn without_tools_names_stay(mode: UpstreamApiMode, got: Seq<char>)
    ensures
        restored(known_names(mode, None), got) == got,
{
}

// ---------------------------------------------------------------------------
// What the proxy tells of itself
// ---------------------------------------------------------------------------

/// The address is the host, a colon and the port.
pub proof fn address_names_host_and_port(config: ProxyConfig)
    ensures
        ({
            let address = listen_address_of(config);
            let n = config.host@.len() as int;
            &&& address.take(n) == config.host@
            &&& address[n] == ':'
            &&& decimal_value(address.skip(n + 1)) == config.port
        }),
{
    reveal_strlit(":");
    let address = listen_address_of(config);
    let n = config.host@.len() as int;
    decimal_round_trip(config.port as nat);
    assert(address.take(n) =~= config.host@);
    assert(address.skip(n + 1) =~= decimal(config.port as nat));
}

/// The proxy says that it is healthy, when, and which keys are set.
pub proof fn health_is_told(config: ProxyConfig, now: u64)
    ensures
        ({
            let t = health_tree(config, now);
            &&& under(t, "status"@) == text("healthy"@)
            &&& under(t, "timestamp"@) == text(decimal(now as nat))
            &&& under(t, "openai_api_configured"@) == Tree::Bool(config.openai_api_key@.len() > 0)
            &&& under(t, "client_api_key_validation"@) == Tree::Bool(
                config.anthropic_api_key is Some,
            )
        }),
{
    reveal_strlit("status");
    reveal_strlit("timestamp");
    reveal_strlit("openai_api_configured");
    reveal_strlit("client_api_key_validation");
    assert("status"@.len() == 6 && "timestamp"@.len() == 9);
    assert("openai_api_configured"@.len() == 21 && "client_api_key_validation"@.len() == 25);
}

/// The proxy tells its version and the models that it uses: the middle one is
/// the big one where none is set.
pub proof fn models_are_told(config: ProxyConfig, version: Seq<char>)
    ensures
        ({
            let t = root_tree(config, version);
            let settings = under(t, "config"@);
            &&& under(t, "message"@) == text("cc-proxy v"@ + version)
            &&& under(t, "status"@) == text("running"@)
            &&& under(under(t, "endpoints"@), "messages"@) == text("/v1/messages"@)
            &&& under(under(t, "endpoints"@), "count_tokens"@) == text(
                "/v1/messages/count_tokens"@,
            )
            &&& under(under(t, "endpoints"@), "health"@) == text("/health"@)
            &&& under(under(t, "endpoints"@), "test_connection"@) == text("/test-connection"@)
            &&& under(settings, "openai_base_url"@) == text(config.openai_base_url@)
            &&& under(settings, "big_model"@) == text(config.big_model@)
            &&& under(settings, "small_model"@) == text(config.small_model@)
            &&& under(settings, "middle_model"@) == text(
                match config.middle_model {
                    Some(model) => model@,
                    None => config.big_model@,
                },
            )
        }),
{
    reveal_strlit("config");
    reveal_strlit("message");
    reveal_strlit("status");
    reveal_strlit("endpoints");
    reveal_strlit("messages");
    reveal_strlit("count_tokens");
    reveal_strlit("health");
    reveal_strlit("test_connection");
    assert("messages"@.len() == 8 && "count_tokens"@.len() == 12 && "health"@.len() == 6
        && "test_connection"@.len() == 15);
    reveal_strlit("openai_base_url");
    reveal_strlit("big_model");
    reveal_strlit("small_model");
    reveal_strlit("middle_model");
    assert("config"@.len() == 6 && "config"@[0] == 'c' && "status"@.len() == 6 && "status"@[0]
        == 's');
    assert("message"@.len() == 7 && "endpoints"@.len() == 9);
    assert("openai_base_url"@.len() == 15 && "big_model"@.len() == 9 && "small_model"@.len() == 11
        && "middle_model"@.len() == 12);
}

/// A connection that works is told with the small model and the upstream's id.
pub proof fn connection_is_told(config: ProxyConfig, id: Seq<char>)
    ensures
        ({
            let t = connection_ok_tree(config, id);
            &&& under(t, "status"@) == text("success"@)
            &&& under(t, "model_used"@) == text(config.small_model@)
            &&& under(t, "response_id"@) == text(id)
        }),
{
    reveal_strlit("status");
    reveal_strlit("message");
    reveal_strlit("model_used");
    reveal_strlit("response_id");
    assert("status"@.len() == 6 && "message"@.len() == 7 && "model_used"@.len() == 10
        && "response_id"@.len() == 11);
}

} // verus!
