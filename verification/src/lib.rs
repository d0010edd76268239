//! Verified core of a local-first semantic memory store for AI coding
//! agents: what it accepts to store, how records are written to and read
//! back from the vector store, how listings are ordered and paged, how
//! filters and deletions are decided, and what the command-line tools and
//! the local protocol make of their input.

pub mod cli;
pub mod cursor;
pub mod datetime;
pub mod embedding;
pub mod error;
pub mod ids;
pub mod ipc;
pub mod mcp;
pub mod memory;
pub mod model;
pub mod storage;
pub mod text;

pub use error::MemoriError;
pub use model::{ForgetFilter, MemoryRecord, Query};
