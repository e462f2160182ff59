//! The asynchronous HTTP front: responses kept in an `InlinableString`,
//! requests with fixed-size byte fields, and the worker manager.

pub mod httpstr;
pub mod response;
pub mod request;
pub mod manager;
