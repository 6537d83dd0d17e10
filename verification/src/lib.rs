//! Capability-restricted tools for an autonomous agent: shell command
//! execution behind an allow-list validator, confined file reading with
//! line/byte ceilings, and document search with a bounded external utility.
//!
//! The safety-critical logic — command validation, quote-aware pipeline
//! splitting, path confinement, output windowing and truncation, and the
//! classification of process outcomes into each capability's closed error
//! taxonomy — is specified and verified here. The surrounding process
//! plumbing (spawning, reading, the deadline race itself) stays outside the
//! library and hands results in as plain values.

pub mod bash;
pub mod colors;
pub mod console;
pub mod outcome;
pub mod read_file;
pub mod search_docs;
pub mod split;
pub mod text;
pub mod tools;
