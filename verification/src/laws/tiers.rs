//! The upstream's model and the reasoning effort, by the tier that the client
//! asks for.

use vstd::prelude::*;

use crate::config::{ModelTier, ProxyConfig};
use crate::convert::request::chat_request;
use crate::convert::responses::request::translated_request;
use crate::model_map::{mapped_model, tier_of};
use crate::split::has_part;
use crate::types::claude::MessagesRequest;

verus! {

/// Both upstream APIs are asked for the same model.
pub open spec fn asks_for_model(
    req: MessagesRequest,
    config: ProxyConfig,
    model: Seq<char>,
) -> bool {
    &&& chat_request(req, config).model == model
    &&& translated_request(req, config).model == model
}

/// Both upstream APIs are asked for the same reasoning effort, where the
/// client has not switched thinking off.
pub open spec fn asks_for_effort(
    req: MessagesRequest,
    config: ProxyConfig,
    effort: Seq<char>,
) -> bool {
    &&& chat_request(req, config).reasoning_effort == Some(effort)
    &&& (req.thinking matches Some(thinking) ==> thinking.enabled) ==> (
    translated_request(req, config).reasoning matches Some(reasoning) && reasoning.effort == effort)
}

/// No upstream API is asked for reasoning; only where the client has switched
/// thinking on, the Responses API is asked for a medium effort.
pub open spec fn asks_for_no_effort(req: MessagesRequest, config: ProxyConfig) -> bool {
    &&& chat_request(req, config).reasoning_effort is None
    &&& translated_request(req, config).reasoning matches Some(reasoning) && reasoning.effort
        == if req.thinking matches Some(thinking) && thinking.enabled {
        "medium"@
    } else {
        "none"@
    }
}

/// A request for an opus model goes to the big model, with the effort that is
/// set for it; no other tier's settings count.
pub proof fn opus_is_big(req: MessagesRequest, config: ProxyConfig)
    requires
        has_part(req.model@, "opus"@),
    ensures
        asks_for_model(req, config, config.big_model@),
        config.big_reasoning matches Some(effort) ==> if effort@ == "none"@ {
            asks_for_no_effort(req, config)
        } else {
            asks_for_effort(req, config, effort@)
        },
        config.big_reasoning is None ==> if config.reasoning_effort@ == "none"@ {
            asks_for_no_effort(req, config)
        } else {
            asks_for_effort(req, config, config.reasoning_effort@)
        },
{
}

/// A request for a sonnet model goes to the middle model, or to the big one
/// where there is none, with the effort that is set for the middle one.
pub proof fn sonnet_is_middle(req: MessagesRequest, config: ProxyConfig)
    requires
        has_part(req.model@, "sonnet"@),
        !has_part(req.model@, "opus"@),
    ensures
        config.middle_model matches Some(model) ==> asks_for_model(req, config, model@),
        config.middle_model is None ==> asks_for_model(req, config, config.big_model@),
        config.middle_reasoning matches Some(effort) ==> if effort@ == "none"@ {
            asks_for_no_effort(req, config)
        } else {
            asks_for_effort(req, config, effort@)
        },
        config.middle_reasoning is None ==> if config.reasoning_effort@ == "none"@ {
            asks_for_no_effort(req, config)
        } else {
            asks_for_effort(req, config, config.reasoning_effort@)
        },
{
}

/// A request for a haiku model goes to the small model, with the effort that
/// is set for it.
pub proof fn haiku_is_small(req: MessagesRequest, config: ProxyConfig)
    requires
        has_part(req.model@, "haiku"@),
        !has_part(req.model@, "opus"@),
        !has_part(req.model@, "sonnet"@),
    ensures
        asks_for_model(req, config, config.small_model@),
        config.small_reasoning matches Some(effort) ==> if effort@ == "none"@ {
            asks_for_no_effort(req, config)
        } else {
            asks_for_effort(req, config, effort@)
        },
        config.small_reasoning is None ==> if config.reasoning_effort@ == "none"@ {
            asks_for_no_effort(req, config)
        } else {
            asks_for_effort(req, config, config.reasoning_effort@)
        },
{
}

/// A request for any other model goes to just that one, with the general
/// effort.
pub proof fn other_models_pass_through(req: MessagesRequest, config: ProxyConfig)
    requires
        !has_part(req.model@, "haiku"@),
        !has_part(req.model@, "opus"@),
        !has_part(req.model@, "sonnet"@),
    ensures
        asks_for_model(req, config, req.model@),
        if config.reasoning_effort@ == "none"@ {
            asks_for_no_effort(req, config)
        } else {
            asks_for_effort(req, config, config.reasoning_effort@)
        },
{
}

/// A client that has switched thinking off gets none, whatever is set.
pub proof fn thinking_can_be_switched_off(req: MessagesRequest, config: ProxyConfig)
    requires
        req.thinking matches Some(thinking) && !thinking.enabled,
    ensures
        translated_request(req, config).reasoning matches Some(reasoning) && reasoning.effort
            == "none"@,
{
}

/// A tier has the effort of its own setting, and the general one where it has
/// none. The word `none` asks for nothing.
pub proof fn effort_is_the_tiers_own(config: ProxyConfig, tier: ModelTier, own: Option<String>)
    requires
        tier == ModelTier::Big ==> own == config.big_reasoning,
        tier == ModelTier::Middle ==> own == config.middle_reasoning,
        tier == ModelTier::Small ==> own == config.small_reasoning,
    ensures
        own matches Some(effort) ==> config.effort(Some(tier)) == if effort@ == "none"@ {
            None
        } else {
            Some(effort@)
        },
        own is None ==> config.effort(Some(tier)) == config.effort(None),
        config.effort(None) == if config.reasoning_effort@ == "none"@ {
            None
        } else {
            Some(config.reasoning_effort@)
        },
{
}

/// The effort of one tier does not depend on the settings of another.
pub proof fn tiers_do_not_mix(a: ProxyConfig, b: ProxyConfig)
    requires
        a.reasoning_effort@ == b.reasoning_effort@,
    ensures
        a.big_reasoning == b.big_reasoning ==> a.effort(Some(ModelTier::Big)) == b.effort(
            Some(ModelTier::Big),
        ),
        a.middle_reasoning == b.middle_reasoning ==> a.effort(Some(ModelTier::Middle)) == b.effort(
            Some(ModelTier::Middle),
        ),
        a.small_reasoning == b.small_reasoning ==> a.effort(Some(ModelTier::Small)) == b.effort(
            Some(ModelTier::Small),
        ),
{
}

/// The tier that the settings are looked up by is the one that the model is
/// looked up by.
pub proof fn tier_and_model_go_together(model: Seq<char>, config: ProxyConfig)
    ensures
        tier_of(model) == Some(ModelTier::Big) <==> has_part(model, "opus"@),
        tier_of(model) == Some(ModelTier::Middle) <==> has_part(model, "sonnet"@) && !has_part(
            model,
            "opus"@,
        ),
        tier_of(model) == Some(ModelTier::Small) <==> has_part(model, "haiku"@) && !has_part(
            model,
            "opus"@,
        ) && !has_part(model, "sonnet"@),
        tier_of(model) == Some(ModelTier::Big) ==> mapped_model(model, config) == config.big_model@,
        tier_of(model) == Some(ModelTier::Small) ==> mapped_model(model, config)
            == config.small_model@,
        tier_of(model) is None ==> mapped_model(model, config) == model,
{
}

} // verus!
