//! Remote control of an external media player, and a local HTTP server
//! that streams media files to other devices with byte ranges.
//!
//! The player is driven over a line-based JSON protocol whose replies are
//! matched to requests by id (`protocol`, `player`, `supervisor`). Files
//! are registered under opaque ids (`registry`) and served by a server
//! whose lifecycle and URLs are in `server`; `range` decides what each
//! request gets. The remaining modules hold the small rules of the mount
//! helper, the global shortcuts, the tray, and the command results.
use vstd::prelude::*;

pub mod text;
pub mod range;
pub mod registry;
pub mod server;
pub mod protocol;
pub mod player;
pub mod supervisor;
pub mod command;
pub mod mount;
pub mod shortcuts;
pub mod tray;

verus! {

} // verus!
