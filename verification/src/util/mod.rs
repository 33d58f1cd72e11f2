//! Small helpers of the translation.
//!
//! - [`random`]: random hexadecimal digits for ids.
//! - [`tool_id`]: tool call ids that the Messages API accepts.
//! - [`tool_name`]: the declared spelling of a tool name.
//! - [`fix_json`]: tool arguments in almost-JSON turned into JSON.

pub mod fix_json;
pub mod random;
pub mod tool_id;
pub mod tool_name;
