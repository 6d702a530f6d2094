pub mod jsonrpc;
pub mod stdio;
