//! Side designs kept beside the server: a channel with selectable,
//! converting receivers built on locks, and filling a model from the
//! fields of a form.

pub mod mutex_chan;
pub mod post;
