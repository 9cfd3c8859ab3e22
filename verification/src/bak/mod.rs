//! The `bak` tool: ad hoc `.bak` copies of single files.
pub mod error;
pub mod mirror;
pub mod rotation;
pub mod session;
pub mod laws;
pub mod xattr;
