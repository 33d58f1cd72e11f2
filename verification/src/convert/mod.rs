//! Translation between the Messages API and the upstream APIs.
//!
//! - [`frames`]: the events of a streamed message.
//! - [`message`]: what both upstream APIs share.
//! - [`request`]: a request to the Chat Completions API.
//! - [`response`]: a complete answer of the Chat Completions API.
//! - [`responses`]: the Responses API.
//! - [`stream`]: a streamed answer of the Chat Completions API.

pub mod frames;
pub mod message;
pub mod request;
pub mod response;
pub mod responses;
pub mod stream;
