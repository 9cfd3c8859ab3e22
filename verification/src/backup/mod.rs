//! The rotational backup system: its storage layout, the errors of its
//! jobs, the commands it runs on remotes, and the steps of its jobs.
pub mod archive;
pub mod config_cmd;
pub mod consts;
pub mod date;
pub mod error;
pub mod laws;
pub mod layout;
pub mod os_snapshot;
pub mod remote;
pub mod setup;
pub mod ssh;
pub mod sync;
pub mod sys;
