//! A multi-producer channel whose receivers convert what they take, and
//! a select that merges several receivers into one.
//!
//! A channel's query holds the values sent and not yet taken, and the
//! transports of receivers that are ready to take one. A receiver's
//! outvalue holds at most one value taken for it, and its transports
//! while they are not ready. Taking a value readies the transports; the
//! query then pairs ready transports with values in the order both came.
//!
//! Blocking until a value comes is left to the caller: `get` returns
//! `None` when no value is there yet, and the caller asks again with
//! `get_sync` until one is.

pub mod fnconvert;
pub mod query;
pub mod transport;
pub mod outvalue;
pub mod sender;
pub mod transformer;
pub mod receiver;
pub mod chan;
