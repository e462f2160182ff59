//! A worker's channel, with the worker's number.

use vstd::prelude::*;
use crate::thread_pool::types::CounterType;

verus! {

pub struct SenderId<W> {
    pub id: CounterType,
    pub sender: W,
}

impl<W> SenderId<W> {
    pub fn new(id: CounterType, sender: W) -> (r: SenderId<W>)
        ensures
            r.id == id,
            r.sender == sender,
    {
        SenderId { id, sender }
    }

    pub fn id(&self) -> (r: CounterType)
        ensures
            r == self.id,
    {
        self.id
    }
}

} // verus!
