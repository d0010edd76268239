//! The local protocol between the long-running server and the command-line
//! tools: its requests, where its socket lives, and how the server turns a
//! request into a call on the store.

pub mod proto;
pub mod server;
