//! Spur: the connection state machines, request and response handling,
//! scheduling and channel logic of a callback-driven HTTP server, with
//! their contracts.

pub mod text;
pub mod asynchttp;
pub mod miohttp;
pub mod prototype;
pub mod thread_pool;
pub mod experiments;
pub mod server;
pub mod demo;
