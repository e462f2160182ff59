//! The shared state of a channel: values sent and not yet taken, and the
//! transports of receivers that are ready to take one.

use vstd::prelude::*;
use vstd::rwlock::{RwLock, RwLockPredicate};
use std::collections::VecDeque;
use std::sync::Arc;
use crate::experiments::mutex_chan::transport::TransportIn;

verus! {

#[verifier::reject_recursive_types(T)]
pub struct Query<T> {
    pub values: VecDeque<T>,
    pub senders: VecDeque<Box<dyn TransportIn<T>>>,
}

/// A query never holds a value and a ready transport at once: when both
/// are there, the value goes to the transport.
pub open spec fn settled<T>(q: Query<T>) -> bool {
    q.values@.len() == 0 || q.senders@.len() == 0
}

/// The lock of a query keeps it settled.
pub struct QueryInv;

impl<T> RwLockPredicate<Query<T>> for QueryInv {
    open spec fn inv(self, q: Query<T>) -> bool {
        settled(q)
    }
}

pub type QueryLock<T> = RwLock<Query<T>, QueryInv>;

/// How many pairs of a value and a transport there are.
pub open spec fn pairs<A, B>(a: Seq<A>, b: Seq<B>) -> int {
    if a.len() <= b.len() { a.len() as int } else { b.len() as int }
}

impl<T> Query<T> {
    /// An empty query, behind its lock.
    pub fn new() -> (r: Arc<QueryLock<T>>)
        ensures
            r.pred() == QueryInv,
    {
        let q = Query { values: VecDeque::new(), senders: VecDeque::new() };
        Arc::new(RwLock::new(q, Ghost(QueryInv)))
    }

    /// Queues a sent value behind those already queued, then hands values
    /// to ready transports as `sending` does. On a settled query: with no
    /// transport ready the value waits at the end of the queue, and
    /// otherwise the first ready transport is sent it, and leaves.
    pub fn push_value(&mut self, value: T)
        ensures
            settled(*final(self)),
            final(self).values@ == old(self).values@.push(value).skip(pairs(old(self).values@.push(value), old(self).senders@)),
            final(self).senders@ == old(self).senders@.skip(pairs(old(self).values@.push(value), old(self).senders@)),
            old(self).senders@.len() == 0 ==> final(self).values@ == old(self).values@.push(value)
                && final(self).senders@ == old(self).senders@,
            settled(*old(self)) && old(self).senders@.len() > 0 ==> {
                &&& final(self).values@.len() == 0
                &&& final(self).senders@ == old(self).senders@.drop_first()
                &&& exists|r: Option<T>| #[trigger] old(self).senders@[0].took(value, r)
            },
    {
        let ghost values0 = self.values@;
        let ghost senders0 = self.senders@;
        self.values.push_back(value);
        let ghost pushed = self.values@;
        assert(pushed == values0.push(value));
        self.sending();
        proof {
            let k = pairs(pushed, senders0);
            if senders0.len() == 0 {
                assert(k == 0);
                assert(self.values@ =~= pushed);
                assert(self.senders@ =~= senders0);
            }
            if values0.len() == 0 && senders0.len() > 0 {
                assert(k == 1);
                assert(pushed[0] == value);
                assert(self.senders@ =~= senders0.drop_first());
                let answers = choose|answers: Seq<Option<T>>| #[trigger] answers.len() == pairs(pushed, senders0)
                    && forall|i: int| 0 <= i < answers.len() ==> #[trigger] senders0[i].took(pushed[i], answers[i]);
                assert(senders0[0].took(pushed[0], answers[0]));
            }
        }
    }

    /// Hands values to ready transports, first to first, until one of
    /// the two runs out: the i-th transport is sent the i-th value. A
    /// transport whose receiver already holds a value gives the value
    /// back, and the value is dropped.
    pub fn sending(&mut self)
        ensures
            settled(*final(self)),
            final(self).values@ == old(self).values@.skip(pairs(old(self).values@, old(self).senders@)),
            final(self).senders@ == old(self).senders@.skip(pairs(old(self).values@, old(self).senders@)),
            exists|answers: Seq<Option<T>>| #[trigger] answers.len() == pairs(old(self).values@, old(self).senders@)
                && forall|i: int| 0 <= i < answers.len()
                    ==> #[trigger] old(self).senders@[i].took(old(self).values@[i], answers[i]),
    {
        let ghost values0 = self.values@;
        let ghost senders0 = self.senders@;
        let ghost mut n: int = 0;
        let ghost mut answers: Seq<Option<T>> = Seq::empty();
        while self.senders.len() > 0 && self.values.len() > 0
            invariant
                values0 == old(self).values@,
                senders0 == old(self).senders@,
                0 <= n <= values0.len(),
                n <= senders0.len(),
                self.values@ == values0.skip(n),
                self.senders@ == senders0.skip(n),
                answers.len() == n,
                forall|i: int| 0 <= i < n ==> #[trigger] senders0[i].took(values0[i], answers[i]),
            decreases self.senders@.len(),
        {
            let sender = self.senders.pop_front();
            let value = self.values.pop_front();
            match (sender, value) {
                (Some(sender), Some(value)) => {
                    assert(value == values0[n]);
                    assert(sender == senders0[n]);
                    let answer = sender.send(value);
                    proof {
                        answers = answers.push(answer);
                    }
                },
                _ => {},
            }
            proof {
                n = n + 1;
            }
            assert(self.values@ =~= values0.skip(n));
            assert(self.senders@ =~= senders0.skip(n));
        }
        assert(n == pairs(values0, senders0));
        assert(answers.len() == pairs(values0, senders0));
    }
}

} // verus!
