//! Channels, and selects over several receivers.

use vstd::prelude::*;
use std::sync::Arc;
use crate::experiments::mutex_chan::query::{Query, QueryLock, QueryInv};
use crate::experiments::mutex_chan::outvalue::Outvalue;
use crate::experiments::mutex_chan::sender::Sender;
use crate::experiments::mutex_chan::receiver::Receiver;
use crate::experiments::mutex_chan::transport::{Transport, TransportOut};
use crate::experiments::mutex_chan::transformer::Transformer;
use crate::experiments::mutex_chan::fnconvert::{Fnconvert, Identity, StaticFunc, Convert, Func, share};

verus! {

#[verifier::reject_recursive_types(T)]
pub struct Chan<T> {
    query: Arc<QueryLock<T>>,
}

impl<T> Chan<T> {
    #[verifier::type_invariant]
    closed spec fn inv(self) -> bool {
        self.query.pred() == QueryInv
    }

    /// The shared state of the channel.
    pub closed spec fn query(&self) -> Arc<QueryLock<T>> {
        self.query
    }

    pub fn new() -> (r: Chan<T>) {
        Chan { query: Query::new() }
    }

    /// A sender into this channel.
    pub fn sender(&self) -> (r: Sender<T>)
        ensures
            r.query() == self.query(),
    {
        proof {
            use_type_invariant(self);
        }
        Sender::new(self.query.clone())
    }
}

impl<T: Send + Sync + 'static> Chan<T> {
    /// A receiver from this channel, taking values unchanged; its
    /// outvalue admits only what its conversion gives.
    pub fn receiver(&self) -> (r: Receiver<T, T>)
        ensures
            r.query() == self.query(),
            r.wf(),
            forall|a: T, c: T| #[trigger] r.conversion().converts(a, c) ==> c == a,
    {
        proof {
            use_type_invariant(self);
        }
        let identity: StaticFunc<T, T> = Box::new(Identity);
        let ghost id_g = identity;
        assert forall|a: T, c: T| #[trigger] id_g.gives(a, c) implies c == a by {
            assert(id_g.gives(a, c) == Identity.gives(a, c));
        }
        let func = Arc::new(identity);
        assert(func == id_g);
        let first: Box<Fnconvert<T, T, T>> = Box::new(Fnconvert::First(func));
        let fnconvert = share(first);
        let ghost conv = fnconvert;
        assert forall|a: T, c: T| #[trigger] conv.converts(a, c) implies c == a by {
            assert(first.converts(a, c));
        }
        let outvalue = Outvalue::new_allowing(Ghost(|v: T| exists|a: T| #[trigger] conv.converts(a, v)));
        assert forall|a: T, v: T| #[trigger] fnconvert.converts(a, v) implies outvalue.mutex.pred().allows(v) by {
            assert(conv.converts(a, v));
        }
        let transport = Transport::new(self.query.clone(), outvalue.clone(), fnconvert.clone());
        let transformer = Transformer::new(self.query.clone(), outvalue.clone(), fnconvert);
        let (mut inner, handle) = outvalue.mutex.acquire_write();
        let boxed: Box<dyn TransportOut<T>> = Box::new(transport);
        inner.list.push_back(boxed);
        handle.release_write(inner);
        Receiver::new(outvalue.clone(), transformer)
    }

    /// A sender and a receiver of this channel, as `sender` and
    /// `receiver` give them.
    pub fn couple(&self) -> (r: (Sender<T>, Receiver<T, T>))
        ensures
            r.0.query() == self.query(),
            r.1.query() == self.query(),
            r.1.wf(),
            forall|a: T, c: T| #[trigger] r.1.conversion().converts(a, c) ==> c == a,
    {
        (self.sender(), self.receiver())
    }
}

/// Merges several receivers into one outvalue.
#[verifier::reject_recursive_types(Out)]
pub struct Select<Out> {
    outvalue: Arc<Outvalue<Out>>,
}

impl<Out> Select<Out> {
    /// The outvalue of a select admits any value.
    #[verifier::type_invariant]
    closed spec fn inv(self) -> bool {
        forall|v: Out| #[trigger] self.outvalue.mutex.pred().allows(v)
    }
}

impl<Out> Select<Out> {
    /// The outvalue the receivers added deliver into.
    pub closed spec fn slot(&self) -> Arc<Outvalue<Out>> {
        self.outvalue
    }
}

impl<Out: Send + Sync + 'static> Select<Out> {
    pub fn new() -> (r: Select<Out>) {
        Select { outvalue: Outvalue::new() }
    }

    /// Makes `rec` deliver into this select, with `transform` applied to
    /// what it takes.
    pub fn add<T: Send + Sync + 'static, R: Send + Sync + 'static>(&self, rec: Receiver<T, R>, transform: StaticFunc<R, Out>) {
        proof {
            use_type_invariant(self);
        }
        let new_transport = rec.transform(self.outvalue.clone(), transform);
        let (mut inner, handle) = self.outvalue.mutex.acquire_write();
        let boxed: Box<dyn TransportOut<Out>> = Box::new(new_transport);
        inner.list.push_back(boxed);
        handle.release_write(inner);
    }

    /// Takes a value from any of the receivers added; `None` when the
    /// caller is to wait with `get_sync`. A value taken is one the
    /// select's outvalue admits.
    pub fn get(&self) -> (r: Option<Out>)
        ensures
            r matches Some(v) ==> self.slot().mutex.pred().allows(v),
    {
        self.outvalue.get()
    }

    /// Takes a value if one has come; a value taken is one the select's
    /// outvalue admits.
    pub fn get_sync(&self) -> (r: Option<Out>)
        ensures
            r matches Some(v) ==> self.slot().mutex.pred().allows(v),
    {
        self.outvalue.get_sync()
    }
}

} // verus!
