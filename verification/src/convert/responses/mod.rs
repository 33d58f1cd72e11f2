//! Translation between the Messages API and the Responses API.
//!
//! - [`names`]: tool names that the Responses API takes.
//! - [`request`]: a request on its way to the upstream.
//! - [`response`]: a complete answer on its way back.
//! - [`stream`]: a streamed answer on its way back.

pub mod names;
pub mod request;
pub mod response;
pub mod stream;
