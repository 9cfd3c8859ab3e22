//! Verified core of the SourceTrait backup tools: the storage layout of
//! rotational backups, the `.bak` rotation of the `bak` tool, and the remote
//! commands that synchronize backups.
pub mod text;
pub mod path;
pub mod order;
pub mod bak;
pub mod command;
pub mod cross;
pub mod backup;
