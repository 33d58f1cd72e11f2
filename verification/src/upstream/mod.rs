//! The upstream and the API that it speaks.
//!
//! - [`mode`]: the two APIs.
//! - [`detector`]: which of them the upstream has.

pub mod detector;
pub mod mode;
