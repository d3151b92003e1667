//! Supervision of an external media transcoding tool: building its command
//! line, following its progress, cancelling its jobs and reading the
//! metadata of media files from an external probing tool.
//!
//! The library decides and computes; running the tools, reading their
//! output and keeping time are left to the caller, who hands in plain values.

pub mod capabilities;
pub mod command;
pub mod decode;
pub mod formats;
pub mod json;
pub mod monitor;
pub mod number;
pub mod options;
pub mod pattern;
pub mod probe;
pub mod progress;
pub mod renamer;
pub mod sample;
pub mod simple_command;
pub mod stream;
pub mod supervisor;
pub mod text;
pub mod unicode;
