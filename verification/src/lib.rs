//! Verified core of a desktop shell around the `jj` version-control tool.
//!
//! The shell spawns `jj` as a subprocess and reacts to filesystem changes.
//! Everything that can be stated and proved lives here: mapping a finished
//! command invocation to a success/failure outcome, parsing the textual
//! output of `jj` (operation log, commit log, working-copy status, remote
//! list) into structured records, and the watch/debounce decision logic.
//! Process spawning, the filesystem watcher and the GUI glue stay outside,
//! handing this crate plain values and taking plain values back.

pub mod args;
pub mod command;
pub mod commits;
pub mod json;
pub mod oplog;
pub mod remotes;
pub mod status;
pub mod text;
pub mod watcher;
