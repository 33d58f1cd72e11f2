//! Which upstream model serves a request.

use vstd::prelude::*;

use crate::config::{ModelTier, ProxyConfig};
use crate::split::{contains, has_part};

verus! {

/// The upstream model of a request, and the tier it was chosen by.
#[derive(Debug)]
pub struct MappedModel {
    pub model: String,
    pub tier: Option<ModelTier>,
}

/// The tier that a model name asks for.
pub open spec fn tier_of(model: Seq<char>) -> Option<ModelTier> {
    if has_part(model, "opus"@) {
        Some(ModelTier::Big)
    } else if has_part(model, "sonnet"@) {
        Some(ModelTier::Middle)
    } else if has_part(model, "haiku"@) {
        Some(ModelTier::Small)
    } else {
        None
    }
}

/// The upstream model for the model name of a request. A name without a tier
/// passes through.
pub open spec fn mapped_model(model: Seq<char>, config: ProxyConfig) -> Seq<char> {
    match tier_of(model) {
        Some(tier) => config.tier_model(tier),
        None => model,
    }
}

/// The upstream model for the model name of a request.
pub fn map_model(model: &str, config: &ProxyConfig) -> (r: MappedModel)
    ensures
        r.model@ == mapped_model(model@, *config),
        r.tier == tier_of(model@),
{
    if contains(model, "opus") {
        MappedModel { model: config.big_model.clone(), tier: Some(ModelTier::Big) }
    } else if contains(model, "sonnet") {
        MappedModel {
            model: config.effective_middle_model().to_string(),
            tier: Some(ModelTier::Middle),
        }
    } else if contains(model, "haiku") {
        MappedModel { model: config.small_model.clone(), tier: Some(ModelTier::Small) }
    } else {
        MappedModel { model: model.to_string(), tier: None }
    }
}

} // verus!
