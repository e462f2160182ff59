//! The sending end of a channel.

use vstd::prelude::*;
use std::sync::Arc;
use crate::experiments::mutex_chan::query::{QueryLock, QueryInv};

verus! {

#[verifier::reject_recursive_types(T)]
pub struct Sender<T> {
    query: Arc<QueryLock<T>>,
}

impl<T> Sender<T> {
    #[verifier::type_invariant]
    closed spec fn inv(self) -> bool {
        self.query.pred() == QueryInv
    }

    /// The channel the sender feeds.
    pub closed spec fn query(&self) -> Arc<QueryLock<T>> {
        self.query
    }

    pub fn new(query: Arc<QueryLock<T>>) -> (r: Sender<T>)
        requires
            query.pred() == QueryInv,
        ensures
            r.query() == query,
    {
        Sender { query }
    }

    /// Queues a value, and hands it on when a receiver is ready for it.
    pub fn send(&self, value: T) {
        proof {
            use_type_invariant(self);
        }
        let (mut query_inner, handle) = self.query.acquire_write();
        query_inner.push_value(value);
        handle.release_write(query_inner);
    }
}

} // verus!
