//! Worker numbers, handed out 1, 2, 3, ...

use vstd::prelude::*;
use crate::thread_pool::types::CounterType;

verus! {

pub struct AutoId {
    id: CounterType,
}

impl AutoId {
    /// The number that `get` gives next.
    pub closed spec fn next(&self) -> nat {
        self.id as nat
    }

    pub fn new() -> (r: AutoId)
        ensures
            r.next() == 1,
    {
        AutoId { id: 1 }
    }

    /// A number never given before.
    pub fn get(&mut self) -> (id: CounterType)
        requires
            old(self).next() < CounterType::MAX,
        ensures
            id == old(self).next(),
            final(self).next() == old(self).next() + 1,
    {
        let id_clone = self.id;
        self.id = self.id + 1;
        id_clone
    }
}

} // verus!
