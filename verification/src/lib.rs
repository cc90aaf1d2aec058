//! Backend core for a Jujutsu (jj) repository browser.
//!
//! The crate validates user-supplied repository paths, probes a directory for
//! the jj metadata layout, interprets the outcome of running the `jj`
//! command-line tool, and parses the text that `jj log` emits into typed
//! change records.  All decision logic lives here and is verified; the shell
//! around it (process spawning, GUI plumbing) only feeds plain values in and
//! out.

pub mod errors;
pub mod sys;
pub mod text;
pub mod record;
pub mod parse;
pub mod validate;
pub mod repo;
pub mod tool;
