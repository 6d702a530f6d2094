//! A tool server with one tool, `fetch`: the framing of messages on a byte
//! stream, the JSON-RPC envelope and its dispatch, the allowlist of URLs,
//! and the rules by which an HTTP response is cut to a limit and reported.
//! Every function states what it computes, and the statement is proved.

pub mod config;
pub mod decimal;
pub mod fetch_tool;
pub mod json;
pub mod mcp;
pub mod server;
pub mod text;
