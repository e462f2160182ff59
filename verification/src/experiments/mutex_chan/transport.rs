//! A transport carries values from a channel's query to one receiver's
//! outvalue, converting them on the way.

use vstd::prelude::*;
use std::sync::Arc;
use crate::experiments::mutex_chan::query::{Query, QueryLock, QueryInv};
use crate::experiments::mutex_chan::outvalue::Outvalue;
use crate::experiments::mutex_chan::fnconvert::SharedConvert;

verus! {

/// The side of a transport that the query sees.
pub trait TransportIn<T>: Send + Sync {
    /// Whether a delivery of `value` that answered `r` is one this
    /// transport can make.
    spec fn took(&self, value: T, r: Option<T>) -> bool;

    /// Delivers a value; gives it back when the receiver cannot take it.
    fn send(self: Box<Self>, value: T) -> (r: Option<T>)
        ensures
            self.took(value, r),
            r matches Some(v) ==> v == value,
    ;
}

/// The side of a transport that the receiver sees.
pub trait TransportOut<R>: Send + Sync {
    /// Makes the transport ready to take a value from its query.
    fn ready(self: Box<Self>);
}

#[verifier::reject_recursive_types(T)]
#[verifier::reject_recursive_types(R)]
pub struct Transport<T, R> {
    pub(crate) query: Arc<QueryLock<T>>,
    pub(crate) outvalue: Arc<Outvalue<R>>,
    pub(crate) fnconvert: SharedConvert<T, R>,
}

impl<T, R> Transport<T, R> {
    /// The query is locked with the predicate that keeps it settled, and
    /// the outvalue admits whatever the conversion gives.
    #[verifier::type_invariant]
    pub(crate) closed spec fn inv(self) -> bool {
        &&& self.query.pred() == QueryInv
        &&& forall|a: T, v: R| #[trigger] self.fnconvert.converts(a, v) ==> self.outvalue.mutex.pred().allows(v)
    }

    pub fn new(query: Arc<QueryLock<T>>, outvalue: Arc<Outvalue<R>>, fnconvert: SharedConvert<T, R>) -> (r: Transport<T, R>)
        requires
            query.pred() == QueryInv,
            forall|a: T, v: R| #[trigger] fnconvert.converts(a, v) ==> outvalue.mutex.pred().allows(v),
        ensures
            r.query() == query,
            r.outvalue() == outvalue,
            r.conversion() == fnconvert,
    {
        Transport { query, outvalue, fnconvert }
    }

    /// The channel the transport takes values from.
    pub closed spec fn query(&self) -> Arc<QueryLock<T>> {
        self.query
    }

    /// How the transport converts what it carries.
    pub closed spec fn conversion(&self) -> SharedConvert<T, R> {
        self.fnconvert
    }

    /// The outvalue the transport delivers to.
    pub closed spec fn outvalue(&self) -> Arc<Outvalue<R>> {
        self.outvalue
    }
}

impl<T: Send + Sync + 'static, R: Send + Sync + 'static> TransportIn<T> for Transport<T, R> {
    /// A value comes back only as it was sent.
    open spec fn took(&self, value: T, r: Option<T>) -> bool {
        r matches Some(v) ==> v == value
    }

    /// Delivers the converted value to the outvalue when it is empty and
    /// still in use; the transport then waits in the outvalue until it is
    /// readied again. A full outvalue keeps the transport and gives the
    /// value back; one no longer in use drops the transport.
    fn send(self: Box<Self>, value: T) -> (r: Option<T>) {
        proof {
            use_type_invariant(&*self);
        }
        let outvalue = self.outvalue.clone();
        let (mut inner, handle) = outvalue.mutex.acquire_write();
        if inner.end_flag {
            handle.release_write(inner);
            return Some(value);
        }
        if inner.value.is_some() {
            inner.list.push_back(self);
            handle.release_write(inner);
            Some(value)
        } else {
            let converted = self.fnconvert.conv(value);
            inner.value = Some(converted);
            inner.list.push_back(self);
            handle.release_write(inner);
            None
        }
    }
}

impl<T: Send + Sync + 'static, R: Send + Sync + 'static> TransportOut<R> for Transport<T, R> {
    /// Puts the transport among the ready ones of its query, which then
    /// hands out what it holds.
    fn ready(self: Box<Self>) {
        proof {
            use_type_invariant(&*self);
        }
        let query = self.query.clone();
        let (mut query_guard, handle) = query.acquire_write();
        query_guard.senders.push_back(self);
        query_guard.sending();
        handle.release_write(query_guard);
    }
}

} // verus!
