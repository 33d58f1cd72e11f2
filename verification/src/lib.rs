//! A proxy that lets a client of the Messages API talk to an upstream with an
//! OpenAI-compatible API.
//!
//! A request of the client is translated into one of the Chat Completions API
//! or of the Responses API, and the answer, complete or streamed, is
//! translated back. This crate holds what the proxy decides and computes; what
//! it reads and sends is left to the program around it.
//!
//! Each function states its result over mathematical models: texts are
//! sequences of characters, JSON values are [`json::Tree`], and each message
//! type has a model type beside it. Random ids are chosen in functions that
//! say what holds of any choice; a function beside each takes the id as an
//! argument and fixes the whole result.
//!
//! - [`types`]: the messages of the three APIs.
//! - [`convert`]: the translation.
//! - [`client`]: events read out of bytes, and a stream made into one answer.
//! - [`upstream`]: which API the upstream has.
//! - [`server`]: what the server answers.
//! - [`config`] and [`model_map`]: the settings, and the models by them.
//! - [`util`]: tool ids, tool names and almost-JSON.
//! - [`cli`]: the start, the check-up and the repair of a reserved port.
//! - [`json`], [`text`], [`split`] and [`decimal`]: the ground that all of it
//!   stands on.
//! - [`laws`]: what the operations are for, stated of all their inputs.

pub mod cli;
pub mod client;
pub mod config;
pub mod convert;
pub mod decimal;
pub mod json;
pub mod laws;
pub mod model_map;
pub mod server;
pub mod split;
pub mod text;
pub mod types;
pub mod upstream;
pub mod util;
