//! The settings and the greeting.

use vstd::prelude::*;

use crate::config::ProxyConfig;
use crate::server::{listen_address, listen_address_of};

verus! {

/// The settings that count.
pub open spec fn settings_from(
    file: Option<Result<ProxyConfig, String>>,
    environment: Result<ProxyConfig, String>,
) -> Result<ProxyConfig, String> {
    match file {
        Some(loaded) => loaded,
        None => environment,
    }
}

/// The settings: those of the settings file where there is one, and else those
/// of the environment. A file that cannot be read is an error.
pub fn load_config(
    file: Option<Result<ProxyConfig, String>>,
    environment: Result<ProxyConfig, String>,
) -> (r: Result<ProxyConfig, String>)
    ensures
        r == match file {
            Some(loaded) => loaded,
            None => environment,
        },
        r == settings_from(file, environment),
{
    match file {
        Some(loaded) => loaded,
        None => environment,
    }
}

/// A reasoning effort, `none` where none is set.
pub open spec fn effort_or_none(effort: Option<String>) -> Seq<char> {
    match effort {
        Some(effort) => effort@,
        None => "none"@,
    }
}

/// A line of the greeting about a model.
pub open spec fn model_line(label: Seq<char>, model: Seq<char>, effort: Option<String>) -> Seq<char> {
    label + model + " (reasoning: "@ + effort_or_none(effort) + ")"@
}

/// The greeting of the server, line by line.
pub open spec fn greeting(config: ProxyConfig, version: Seq<char>) -> Seq<Seq<char>> {
    seq![
        "🚀 cc-proxy v"@ + version,
        "   Base URL:     "@ + config.openai_base_url@,
        model_line("   Big Model:    "@, config.big_model@, config.big_reasoning),
        model_line("   Middle Model: "@, config.middle(), config.middle_reasoning),
        model_line("   Small Model:  "@, config.small_model@, config.small_reasoning),
        "   Server:       "@ + listen_address_of(config),
        "   Auth:         "@ + if config.anthropic_api_key is Some {
            "enabled"@
        } else {
            "disabled"@
        },
    ]
}

/// A line out of its label and what follows it.
fn line(label: &str, rest: &str) -> (r: String)
    ensures
        r@ == label@ + rest@,
{
    let mut out = label.to_string();
    out.push_str(rest);
    out
}

/// A line of the greeting about a model.
fn model_text(label: &str, model: &str, effort: &Option<String>) -> (r: String)
    ensures
        r@ == model_line(label@, model@, *effort),
{
    let mut out = label.to_string();
    out.push_str(model);
    out.push_str(" (reasoning: ");
    match effort {
        Some(effort) => out.push_str(effort.as_str()),
        None => out.push_str("none"),
    }
    out.push_str(")");
    out
}

/// The greeting of the server, line by line.
pub fn startup_banner(config: &ProxyConfig, version: &str) -> (r: Vec<String>)
    ensures
        r.deep_view() == greeting(*config, version@),
{
    let mut out: Vec<String> = Vec::new();
    out.push(line("🚀 cc-proxy v", version));
    out.push(line("   Base URL:     ", config.openai_base_url.as_str()));
    out.push(
        model_text("   Big Model:    ", config.big_model.as_str(), &config.big_reasoning),
    );
    out.push(
        model_text(
            "   Middle Model: ",
            config.effective_middle_model(),
            &config.middle_reasoning,
        ),
    );
    out.push(
        model_text("   Small Model:  ", config.small_model.as_str(), &config.small_reasoning),
    );
    out.push(line("   Server:       ", listen_address(config).as_str()));
    out.push(
        line(
            "   Auth:         ",
            if config.anthropic_api_key.is_some() {
                "enabled"
            } else {
                "disabled"
            },
        ),
    );
    assert(out.deep_view() =~= greeting(*config, version@));
    out
}

} // verus!
