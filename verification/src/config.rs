//! The settings of the proxy.

use vstd::prelude::*;

verus! {

/// Settings of the proxy.
#[derive(Debug)]
pub struct ProxyConfig {
    pub openai_api_key: String,
    pub openai_base_url: String,
    pub big_model: String,
    pub middle_model: Option<String>,
    pub small_model: String,
    pub host: String,
    pub port: u16,
    /// The key that clients have to present, if any.
    pub anthropic_api_key: Option<String>,
    pub azure_api_version: Option<String>,
    pub log_level: String,
    pub max_tokens_limit: u32,
    pub min_tokens_limit: u32,
    /// Times in seconds.
    pub request_timeout: u64,
    pub streaming_first_byte_timeout: u64,
    pub streaming_idle_timeout: u64,
    pub connect_timeout: u64,
    pub custom_headers: Vec<(String, String)>,
    /// Reasoning effort of requests whose tier has none of its own.
    pub reasoning_effort: String,
    pub big_reasoning: Option<String>,
    pub middle_reasoning: Option<String>,
    pub small_reasoning: Option<String>,
}

/// The three sizes of models that a client asks for.
#[derive(Debug, Clone, Copy, PartialEq, Eq, Structural)]
pub enum ModelTier {
    Big,
    Middle,
    Small,
}

impl ProxyConfig {
    /// The middle model; the big one where none is set.
    pub open spec fn middle(&self) -> Seq<char> {
        match self.middle_model {
            Some(model) => model@,
            None => self.big_model@,
        }
    }

    /// The middle model; the big one where none is set.
    pub fn effective_middle_model(&self) -> (r: &str)
        ensures
            r@ == self.middle(),
    {
        match &self.middle_model {
            Some(model) => model.as_str(),
            None => self.big_model.as_str(),
        }
    }

    /// The model of a tier.
    pub open spec fn tier_model(&self, tier: ModelTier) -> Seq<char> {
        match tier {
            ModelTier::Big => self.big_model@,
            ModelTier::Middle => self.middle(),
            ModelTier::Small => self.small_model@,
        }
    }

    /// The reasoning effort of a tier: its own where one is set, else the
    /// general one. A model without a tier has the general one.
    pub open spec fn tier_effort(&self, tier: Option<ModelTier>) -> Seq<char> {
        let own = match tier {
            Some(ModelTier::Big) => self.big_reasoning,
            Some(ModelTier::Middle) => self.middle_reasoning,
            Some(ModelTier::Small) => self.small_reasoning,
            None => None,
        };
        match own {
            Some(effort) => effort@,
            None => self.reasoning_effort@,
        }
    }

    /// The reasoning effort that is asked for, if any.
    pub open spec fn effort(&self, tier: Option<ModelTier>) -> Option<Seq<char>> {
        if self.tier_effort(tier) == "none"@ {
            None
        } else {
            Some(self.tier_effort(tier))
        }
    }

    /// The reasoning effort that a tier asks for; nothing where it is `none`.
    pub fn resolve_reasoning_effort(&self, tier: Option<ModelTier>) -> (r: Option<String>)
        ensures
            r.deep_view() == self.effort(tier),
    {
        let own = match tier {
            Some(ModelTier::Big) => &self.big_reasoning,
            Some(ModelTier::Middle) => &self.middle_reasoning,
            Some(ModelTier::Small) => &self.small_reasoning,
            None => &None,
        };
        let effort = match own {
            Some(effort) => effort.as_str(),
            None => self.reasoning_effort.as_str(),
        };
        if *effort == *"none" {
            None
        } else {
            Some(effort.to_string())
        }
    }
}

} // verus!
