//! What the commands decide, apart from asking the system and printing.
//!
//! - [`diagnostics`]: why a port cannot be used.
//! - [`daemon`]: the proxy in the background.
//! - [`doctor`]: the check-up.
//! - [`repair`]: the repair of a reserved port.
//! - [`start`]: the settings and the greeting.

pub mod daemon;
pub mod diagnostics;
pub mod doctor;
pub mod repair;
pub mod start;
