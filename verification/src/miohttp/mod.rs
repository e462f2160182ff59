//! The event-loop HTTP server: per-connection state machine, request
//! reading, responses and the connection table of the handler.

pub mod parser;
pub mod request;
pub mod response;
pub mod connection;
pub mod server;
pub mod token_gen;
