//! The APIs of an upstream.

use vstd::prelude::*;

verus! {

/// The API that an upstream is spoken to in.
#[derive(Debug, Clone, Copy, PartialEq, Eq, Structural)]
pub enum UpstreamApiMode {
    /// The Responses API (`/responses`).
    Responses,
    /// The Chat Completions API (`/chat/completions`).
    ChatCompletions,
}

impl UpstreamApiMode {
    /// A short name for logs.
    pub fn as_str(&self) -> (r: &'static str)
        ensures
            r@ == match self {
                UpstreamApiMode::Responses => "responses"@,
                UpstreamApiMode::ChatCompletions => "chat_completions"@,
            },
    {
        match self {
            UpstreamApiMode::Responses => "responses",
            UpstreamApiMode::ChatCompletions => "chat_completions",
        }
    }
}

} // verus!
