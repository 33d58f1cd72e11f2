//! The messages of the three APIs: the Messages API that the client speaks,
//! the Chat Completions API and the Responses API.

pub mod claude;
pub mod openai;
pub mod responses;
