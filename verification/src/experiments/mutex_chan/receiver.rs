//! The receiving end of a channel.

use vstd::prelude::*;
use std::sync::Arc;
use crate::experiments::mutex_chan::outvalue::Outvalue;
use crate::experiments::mutex_chan::transformer::Transformer;
use crate::experiments::mutex_chan::transport::Transport;
use crate::experiments::mutex_chan::query::QueryLock;
use crate::experiments::mutex_chan::fnconvert::{StaticFunc, SharedConvert, Convert, Func, Fnconvert, share, lemma_next_converts};

verus! {

#[verifier::reject_recursive_types(T)]
#[verifier::reject_recursive_types(R)]
pub struct Receiver<T, R> {
    pub outvalue: Arc<Outvalue<R>>,
    transformer: Transformer<T, R>,
}

impl<T, R> Receiver<T, R> {
    /// The channel the receiver takes from.
    pub closed spec fn query(&self) -> Arc<QueryLock<T>> {
        self.transformer.query()
    }

    /// How the receiver converts values from its channel.
    pub closed spec fn conversion(&self) -> SharedConvert<T, R> {
        self.transformer.conversion()
    }

    /// Where the receiver's values arrive.
    pub closed spec fn outvalue_of(&self) -> Arc<Outvalue<R>> {
        self.outvalue
    }

    pub fn new(outvalue: Arc<Outvalue<R>>, transformer: Transformer<T, R>) -> (r: Receiver<T, R>)
        ensures
            r.outvalue_of() == outvalue,
            r.query() == transformer.query(),
            r.conversion() == transformer.conversion(),
            r.wf() <==> forall|v: R| #[trigger] outvalue.mutex.pred().allows(v)
                ==> exists|a: T| #[trigger] transformer.conversion().converts(a, v),
    {
        Receiver { outvalue, transformer }
    }

    /// Whether the receiver's outvalue admits only what its conversion
    /// can give.
    pub closed spec fn wf(&self) -> bool {
        forall|v: R| #[trigger] self.outvalue.mutex.pred().allows(v) ==> exists|a: T| #[trigger] self.conversion().converts(a, v)
    }

    /// Takes a value if one is there or comes when the receiver gets
    /// ready; `None` when the caller is to wait with `outvalue.get_sync`.
    /// A value taken is one the outvalue admits, so for a well-formed
    /// receiver one that its conversion gives.
    pub fn get(&self) -> (r: Option<R>)
        ensures
            r matches Some(v) ==> self.outvalue_of().mutex.pred().allows(v),
            self.wf() ==> (r matches Some(v) ==> exists|a: T| #[trigger] self.conversion().converts(a, v)),
    {
        self.outvalue.get()
    }
}

impl<T: Send + Sync + 'static, R: Send + Sync + 'static> Receiver<T, R> {
    /// Turns the receiver into a transport from its channel to `outvalue`
    /// that applies `trans_fn` after the receiver's own conversion;
    /// `outvalue` is to admit whatever that gives.
    pub fn transform<K: Send + Sync + 'static>(self, outvalue: Arc<Outvalue<K>>, trans_fn: StaticFunc<R, K>) -> (r: Transport<T, K>)
        requires
            forall|a: T, b: R, k: K|
                #![trigger self.conversion().converts(a, b), trans_fn.gives(b, k)]
                self.conversion().converts(a, b) && trans_fn.gives(b, k) ==> outvalue.mutex.pred().allows(k),
        ensures
            r.query() == self.query(),
            r.outvalue() == outvalue,
            forall|a: T, k: K| #[trigger] r.conversion().converts(a, k)
                <==> exists|b: R| #[trigger] self.conversion().converts(a, b) && trans_fn.gives(b, k),
    {
        let ghost old_conv = self.conversion();
        let ghost func = trans_fn;
        let Receiver { outvalue: _, transformer } = self;
        proof {
            use_type_invariant(&transformer);
            transformer.lemma_fields();
        }
        let Transformer { query, outvalue: _, fnconvert } = transformer;
        let then = Arc::new(trans_fn);
        assert(then == func);
        let next: Fnconvert<T, R, K> = Fnconvert::Next(fnconvert, then);
        let boxed = Box::new(next);
        assert(*boxed == next);
        let shared = share(boxed);
        assert forall|a: T, k: K| #[trigger] shared.converts(a, k)
            <==> exists|b: R| #[trigger] old_conv.converts(a, b) && func.gives(b, k) by {
            assert(shared.converts(a, k) == next.converts(a, k));
            lemma_next_converts(old_conv, then, a, k);
        }
        assert forall|a: T, k: K| #[trigger] shared.converts(a, k) implies outvalue.mutex.pred().allows(k) by {
            let b = choose|b: R| #[trigger] old_conv.converts(a, b) && func.gives(b, k);
            assert(old_conv.converts(a, b) && func.gives(b, k));
        }
        let r = Transport::new(query, outvalue, shared);
        r
    }
}

} // verus!
