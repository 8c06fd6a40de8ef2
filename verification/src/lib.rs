//! Watches a directory of append-only, rotating text log files, extracts
//! join/leave lifecycle events from the lines appended to the newest file,
//! aggregates bursts of events into short human-readable summaries, and
//! decides how the surrounding workers start, switch and shut down.
//!
//! Everything that decides or computes lives here, verified; a thin shell
//! that performs file, timer and device I/O calls into this crate.

pub mod audio;
pub mod discovery;
pub mod manifest;
pub mod notifier;
pub mod parser;
pub mod runtime;
pub mod shutdown;
pub mod tail;
pub mod text;
pub mod watcher;
