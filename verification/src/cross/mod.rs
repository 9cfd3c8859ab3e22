//! Platform abstraction: the kinds of commands and directories the
//! platform layer knows, its errors, and the per-platform decisions.
pub mod error;
pub mod platform;
