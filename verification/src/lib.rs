//! A concurrent recursive file-search engine, verified.
//!
//! The engine walks a directory tree looking for files whose name satisfies a
//! search target (exact name or compiled pattern). Work fans out one task per
//! subdirectory; completion of the dynamically growing task set is detected by
//! a pair of monotonic counters; per-entry and per-directory failures are
//! reported without aborting sibling work; a one-shot cancellation flag stops
//! further fan-out.
//!
//! This crate holds the decision logic: entry classification, name matching,
//! completion tracking, and the walk state machine that turns one directory
//! listing into matches, errors and newly discovered subdirectories. The
//! filesystem calls, the task scheduler and the output channels live outside
//! it and feed the state machine plain values.

pub mod entry;
pub mod matcher;
pub mod counter;
pub mod walk;
pub mod tree;
pub mod schedule;
