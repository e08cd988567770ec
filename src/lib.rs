//! An in-process actor runtime: actors with private JSON state and FIFO
//! mailboxes, driven by a single tick scheduler, whose internals are also
//! projected as a small virtual filesystem.
//!
//! The library holds the runtime's logic: the supervisor and its control
//! operations (`system`, `protocol`), the two phases of a tick around the
//! script host (`tick`, `actor`), the filesystem overlay's tree, reads,
//! listings, walks and buffered commits (`path`, `render`, `overlay`,
//! `listing`, `walk`, `fid`, `commit`), the per-actor store (`store`), and
//! the properties that hold across operations (`laws`).
pub mod actor;
pub mod commit;
pub mod config;
pub mod fid;
pub mod json;
pub mod laws;
pub mod listing;
pub mod message;
pub mod order;
pub mod overlay;
pub mod path;
pub mod protocol;
pub mod render;
pub mod store;
pub mod system;
pub mod text;
pub mod tick;
pub mod walk;
