//! What a receiver keeps to make further transports from its channel.

use vstd::prelude::*;
use std::sync::Arc;
use crate::experiments::mutex_chan::query::{QueryLock, QueryInv};
use crate::experiments::mutex_chan::outvalue::Outvalue;
use crate::experiments::mutex_chan::transport::Transport;
use crate::experiments::mutex_chan::fnconvert::{Fnconvert, SharedConvert, StaticFunc, Convert, Func, share, lemma_next_converts};

verus! {

#[verifier::reject_recursive_types(T)]
#[verifier::reject_recursive_types(R)]
pub struct Transformer<T, R> {
    pub(crate) query: Arc<QueryLock<T>>,
    pub(crate) outvalue: Arc<Outvalue<R>>,
    pub(crate) fnconvert: SharedConvert<T, R>,
}

impl<T, R> Transformer<T, R> {
    #[verifier::type_invariant]
    pub(crate) closed spec fn inv(self) -> bool {
        self.query.pred() == QueryInv
    }

    /// The channel values come from.
    pub closed spec fn query(&self) -> Arc<QueryLock<T>> {
        self.query
    }

    /// How values from the channel are converted.
    pub closed spec fn conversion(&self) -> SharedConvert<T, R> {
        self.fnconvert
    }

    /// The channel and the conversion are the transformer's fields.
    pub(crate) proof fn lemma_fields(&self)
        ensures
            self.query() == self.query,
            self.conversion() == self.fnconvert,
    {
    }

    pub fn new(query: Arc<QueryLock<T>>, outvalue: Arc<Outvalue<R>>, fnconvert: SharedConvert<T, R>) -> (r: Transformer<T, R>)
        requires
            query.pred() == QueryInv,
        ensures
            r.query() == query,
            r.conversion() == fnconvert,
    {
        Transformer { query, outvalue, fnconvert }
    }
}

impl<T: Send + Sync + 'static, R: Send + Sync + 'static> Transformer<T, R> {
    /// A transport from the same channel to `outvalue`, which converts as
    /// this one does and then applies `transform`; `outvalue` is to admit
    /// whatever that gives.
    pub fn transform<K: Send + Sync + 'static>(self, outvalue: Arc<Outvalue<K>>, transform: StaticFunc<R, K>) -> (r: Transport<T, K>)
        requires
            forall|a: T, b: R, k: K|
                #![trigger self.conversion().converts(a, b), transform.gives(b, k)]
                self.conversion().converts(a, b) && transform.gives(b, k) ==> outvalue.mutex.pred().allows(k),
        ensures
            r.query() == self.query(),
            r.outvalue() == outvalue,
            forall|a: T, k: K| #[trigger] r.conversion().converts(a, k)
                <==> exists|b: R| #[trigger] self.conversion().converts(a, b) && transform.gives(b, k),
    {
        proof {
            use_type_invariant(&self);
        }
        let ghost old_conv = self.conversion();
        let ghost func = transform;
        let Transformer { query, outvalue: _, fnconvert } = self;
        let then = Arc::new(transform);
        assert(then == func);
        let next: Fnconvert<T, R, K> = Fnconvert::Next(fnconvert, then);
        let boxed = Box::new(next);
        assert(*boxed == next);
        let shared = share(boxed);
        assert forall|a: T, k: K| #[trigger] shared.converts(a, k)
            <==> exists|b: R| #[trigger] old_conv.converts(a, b) && func.gives(b, k) by {
            assert(shared.converts(a, k) == next.converts(a, k));
            lemma_next_converts(old_conv, then, a, k);
        }
        assert forall|a: T, k: K| #[trigger] shared.converts(a, k) implies outvalue.mutex.pred().allows(k) by {
            let b = choose|b: R| #[trigger] old_conv.converts(a, b) && func.gives(b, k);
            assert(old_conv.converts(a, b) && func.gives(b, k));
        }
        Transport::new(query, outvalue, shared)
    }
}

} // verus!
