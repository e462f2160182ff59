//! The slot where a receiver's values arrive.

use vstd::prelude::*;
use vstd::rwlock::{RwLock, RwLockPredicate};
use std::collections::VecDeque;
use std::sync::Arc;
use crate::experiments::mutex_chan::transport::TransportOut;

verus! {

/// Whether the outvalue is no longer in use, the value taken for the
/// receiver if any, and the transports that are not ready.
#[verifier::reject_recursive_types(R)]
pub struct OutvalueInner<R> {
    pub end_flag: bool,
    pub value: Option<R>,
    pub list: VecDeque<Box<dyn TransportOut<R>>>,
}

/// The values an outvalue may hold: its lock admits a value taken for
/// the receiver only when `admits` holds of it.
#[verifier::reject_recursive_types(R)]
pub struct OutvalueInv<R> {
    pub admits: Ghost<spec_fn(R) -> bool>,
}

impl<R> OutvalueInv<R> {
    /// Whether the outvalue may hold `v`.
    pub open spec fn allows(self, v: R) -> bool {
        (self.admits@)(v)
    }
}

impl<R> RwLockPredicate<OutvalueInner<R>> for OutvalueInv<R> {
    open spec fn inv(self, v: OutvalueInner<R>) -> bool {
        v.value matches Some(x) ==> self.allows(x)
    }
}

pub type OutvalueLock<R> = RwLock<OutvalueInner<R>, OutvalueInv<R>>;

#[verifier::reject_recursive_types(R)]
pub struct Outvalue<R> {
    pub mutex: OutvalueLock<R>,
}

/// What a first look into an outvalue finds: the value, or the
/// transports to make ready.
#[verifier::reject_recursive_types(R)]
pub enum GetResult<R> {
    List(VecDeque<Box<dyn TransportOut<R>>>),
    Value(R),
}

impl<R> OutvalueInner<R> {
    /// An outvalue in use, empty, without transports, behind its lock,
    /// which admits any value.
    pub fn new() -> (r: OutvalueLock<R>)
        ensures
            forall|v: R| r.pred().allows(v),
    {
        Self::new_allowing(Ghost(|v: R| true))
    }

    /// An outvalue in use, empty, without transports, behind a lock that
    /// admits the values that `allows` holds of.
    pub fn new_allowing(Ghost(allows): Ghost<spec_fn(R) -> bool>) -> (r: OutvalueLock<R>)
        ensures
            r.pred().admits@ == allows,
    {
        let inner = OutvalueInner { end_flag: false, value: None, list: VecDeque::new() };
        RwLock::new(inner, Ghost(OutvalueInv { admits: Ghost(allows) }))
    }

    /// Takes the value out.
    pub fn take(&mut self) -> (r: Option<R>)
        ensures
            r == old(self).value,
            final(self).value is None,
            final(self).list@ == old(self).list@,
            final(self).end_flag == old(self).end_flag,
    {
        self.value.take()
    }

    /// Takes all transports out, in their order.
    pub fn get_list_and_drain(&mut self) -> (r: VecDeque<Box<dyn TransportOut<R>>>)
        ensures
            r@ == old(self).list@,
            final(self).list@.len() == 0,
            final(self).value == old(self).value,
            final(self).end_flag == old(self).end_flag,
    {
        let mut out: VecDeque<Box<dyn TransportOut<R>>> = VecDeque::new();
        std::mem::swap(&mut out, &mut self.list);
        out
    }
}

impl<R> Outvalue<R> {
    /// An empty outvalue that admits any value.
    pub fn new() -> (r: Arc<Outvalue<R>>)
        ensures
            forall|v: R| r.mutex.pred().allows(v),
    {
        Arc::new(Outvalue { mutex: OutvalueInner::new() })
    }

    /// An empty outvalue that admits the values `allows` holds of.
    pub fn new_allowing(Ghost(allows): Ghost<spec_fn(R) -> bool>) -> (r: Arc<Outvalue<R>>)
        ensures
            r.mutex.pred().admits@ == allows,
    {
        Arc::new(Outvalue { mutex: OutvalueInner::new_allowing(Ghost(allows)) })
    }

    /// Takes the value when there is one; otherwise takes out the
    /// transports that are to be made ready. A value taken is one the
    /// outvalue admits.
    pub fn get_value(&self) -> (r: GetResult<R>)
        ensures
            r matches GetResult::Value(v) ==> self.mutex.pred().allows(v),
    {
        let (mut guard, handle) = self.mutex.acquire_write();
        let value = guard.take();
        match value {
            Some(value) => {
                handle.release_write(guard);
                GetResult::Value(value)
            },
            None => {
                let list = guard.get_list_and_drain();
                handle.release_write(guard);
                GetResult::List(list)
            },
        }
    }

    /// Takes the value if it has come; a value taken is one the outvalue
    /// admits.
    pub fn get_sync(&self) -> (r: Option<R>)
        ensures
            r matches Some(v) ==> self.mutex.pred().allows(v),
    {
        let (mut guard, handle) = self.mutex.acquire_write();
        let value = guard.take();
        handle.release_write(guard);
        value
    }

    /// Takes the value if there is one. Otherwise makes every waiting
    /// transport ready, last first, so that the channels hand out what
    /// they hold, and takes the value if one came; `None` when none did,
    /// and the caller then waits for it with `get_sync`. A value taken is
    /// one the outvalue admits.
    pub fn get(&self) -> (r: Option<R>)
        ensures
            r matches Some(v) ==> self.mutex.pred().allows(v),
    {
        match self.get_value() {
            GetResult::Value(value) => Some(value),
            GetResult::List(list_invitation) => {
                let mut list_invitation = list_invitation;
                loop
                    decreases list_invitation@.len(),
                {
                    match list_invitation.pop_back() {
                        Some(invit_item) => {
                            invit_item.ready();
                        },
                        None => {
                            return self.get_sync();
                        },
                    }
                }
            },
        }
    }
}

} // verus!
