//! What the operations are for, stated of all their inputs.
//!
//! The functions of the other modules say what each of them computes. The
//! proofs here say what the client and the upstream get of it: which texts,
//! names, ids and counts arrive, in which order, and from which field of what
//! was sent they come.
//!
//! - [`chat_request`] and [`responses_request`]: requests.
//! - [`answers`]: complete answers.
//! - [`chat_stream`] and [`responses_stream`]: streamed answers, as
//!   [`client_view`] puts them together and [`wire`] writes them.
//! - [`reading`] and [`aggregated`]: events out of bytes, and a stream made into
//!   one answer.
//! - [`tiers`]: the upstream's model and the reasoning effort.
//! - [`serving`]: keys, pages, the upstream's API, and what the proxy tells of
//!   itself.
//! - [`upkeep`]: the start, the check-up and the repair of a reserved port.
//! - [`views`]: the models leave nothing out.
//! - [`spellings`] and [`texts`]: ids, names, arguments, lines, words and
//!   numbers.

pub mod aggregated;
pub mod answers;
pub mod chat_request;
pub mod chat_stream;
pub mod client_view;
pub mod reading;
pub mod responses_request;
pub mod responses_stream;
pub mod serving;
pub mod spellings;
pub mod texts;
pub mod tiers;
pub mod upkeep;
pub mod views;
pub mod wire;
