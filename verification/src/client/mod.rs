//! What is done with the bytes and events that the upstream sends.
//!
//! - [`sse`]: a stream of bytes as a stream of server-sent events.
//! - [`aggregate`]: a stream of events as one complete answer.

pub mod aggregate;
pub mod sse;
