//! The scheduling state of the pool.

use vstd::prelude::*;
use std::collections::HashMap;
use std::collections::VecDeque;
use crate::thread_pool::types::CounterType;
use crate::thread_pool::sender_id::SenderId;
use crate::thread_pool::autoid::AutoId;

verus! {

broadcast use vstd::std_specs::hash::group_hash_axioms;

/// The queued tasks, the idle workers in the order they became idle, and
/// the busy workers by number.
pub struct Inner<P, W> {
    autoid: AutoId,
    task: VecDeque<P>,
    workers_idle: VecDeque<SenderId<W>>,
    workers_busy: HashMap<CounterType, SenderId<W>>,
}

pub open spec fn ids_of<W>(s: Seq<SenderId<W>>) -> Seq<CounterType> {
    s.map_values(|w: SenderId<W>| w.id)
}

/// The dispatches that pairing idle workers with queued tasks makes: the
/// first idle worker gets the first task, and so on, as far as both reach.
pub open spec fn pairing<P>(idle: Seq<CounterType>, tasks: Seq<P>) -> Seq<(CounterType, P)> {
    let k = if idle.len() <= tasks.len() { idle.len() } else { tasks.len() };
    Seq::new(k, |i: int| (idle[i], tasks[i]))
}

pub open spec fn pair_count<A, B>(a: Seq<A>, b: Seq<B>) -> int {
    if a.len() <= b.len() { a.len() as int } else { b.len() as int }
}

/// No task waits while a worker is idle.
pub open spec fn balanced<A, B>(idle: Seq<A>, tasks: Seq<B>) -> bool {
    idle.len() == 0 || tasks.len() == 0
}

/// The idle workers, the queue and the dispatch after a task `p` comes:
/// it goes to the first idle worker when no task waits, else to the end
/// of the queue.
pub open spec fn after_run<P>(idle: Seq<CounterType>, tasks: Seq<P>, p: P) -> (Seq<CounterType>, Seq<P>, Option<(CounterType, P)>) {
    if tasks.len() == 0 && idle.len() > 0 {
        (idle.drop_first(), tasks, Some((idle[0], p)))
    } else {
        (idle, tasks.push(p), None)
    }
}

/// A pool in which no task waits while a worker is idle stays so when a
/// task comes.
pub proof fn lemma_run_keeps_balance<P>(idle: Seq<CounterType>, tasks: Seq<P>, p: P)
    requires
        balanced(idle, tasks),
    ensures
        balanced(after_run(idle, tasks, p).0, after_run(idle, tasks, p).1),
{
}

/// Tasks are handed out in the order they came and none is lost or
/// doubled: the tasks dispatched, followed by those still queued, are the
/// tasks that were queued.
pub proof fn lemma_tasks_kept_in_order<P>(idle: Seq<CounterType>, tasks: Seq<P>)
    ensures
        pairing(idle, tasks).map_values(|d: (CounterType, P)| d.1) + tasks.skip(pairing(idle, tasks).len() as int) == tasks,
{
    let d = pairing(idle, tasks);
    assert(d.map_values(|d: (CounterType, P)| d.1) + tasks.skip(d.len() as int) =~= tasks);
}

/// Each idle worker gets at most one task, and the workers are taken in
/// the order they became idle.
pub proof fn lemma_workers_taken_in_order<P>(idle: Seq<CounterType>, tasks: Seq<P>)
    ensures
        pairing(idle, tasks).map_values(|d: (CounterType, P)| d.0) == idle.take(pairing(idle, tasks).len() as int),
{
    let d = pairing(idle, tasks);
    assert(d.map_values(|d: (CounterType, P)| d.0) =~= idle.take(d.len() as int));
}

impl<P, W> Inner<P, W> {
    pub closed spec fn tasks(&self) -> Seq<P> {
        self.task@
    }

    pub closed spec fn idle(&self) -> Seq<CounterType> {
        ids_of(self.workers_idle@)
    }

    pub closed spec fn busy(&self) -> Set<CounterType> {
        self.workers_busy@.dom()
    }

    /// The number the next worker gets.
    pub closed spec fn next_id(&self) -> nat {
        self.autoid.next()
    }

    /// Every worker is idle or busy, not both, idle at most once, and has
    /// a number that was handed out.
    pub closed spec fn wf(&self) -> bool {
        &&& self.autoid.next() >= 1
        &&& forall|k: CounterType| #[trigger] self.workers_busy@.contains_key(k)
            ==> self.workers_busy@[k].id == k && 1 <= k < self.autoid.next()
        &&& forall|i: int| 0 <= i < self.workers_idle@.len()
            ==> 1 <= #[trigger] self.workers_idle@[i].id < self.autoid.next()
            && !self.workers_busy@.contains_key(self.workers_idle@[i].id)
        &&& forall|i: int, j: int| 0 <= i < j < self.workers_idle@.len()
            ==> #[trigger] self.workers_idle@[i].id != #[trigger] self.workers_idle@[j].id
    }

    /// A pool with no workers and no tasks.
    pub fn new() -> (r: Inner<P, W>)
        ensures
            r.wf(),
            r.tasks() == Seq::<P>::empty(),
            r.idle() == Seq::<CounterType>::empty(),
            r.busy() == Set::<CounterType>::empty(),
            r.next_id() == 1,
    {
        let r = Inner {
            autoid: AutoId::new(),
            task: VecDeque::new(),
            workers_idle: VecDeque::new(),
            workers_busy: HashMap::new(),
        };
        assert(r.idle() =~= Seq::<CounterType>::empty());
        assert(r.busy() =~= Set::<CounterType>::empty());
        r
    }

    /// Adds an idle worker that receives its tasks through `sender`;
    /// returns its number.
    pub fn create_worker(&mut self, sender: W) -> (id: CounterType)
        requires
            old(self).wf(),
            old(self).next_id() < CounterType::MAX,
        ensures
            final(self).wf(),
            id == old(self).next_id(),
            final(self).next_id() == old(self).next_id() + 1,
            final(self).idle() == old(self).idle().push(id),
            final(self).busy() == old(self).busy(),
            final(self).tasks() == old(self).tasks(),
    {
        let id = self.autoid.get();
        let sender_id = SenderId::new(id, sender);
        self.workers_idle.push_back(sender_id);
        assert(self.idle() =~= old(self).idle().push(id));
        id
    }

    /// The channel stored for worker `id`: the busy worker's, or the idle
    /// one's with that number.
    pub closed spec fn sender_of(&self, id: CounterType) -> Option<W> {
        if self.workers_busy@.contains_key(id) {
            Some(self.workers_busy@[id].sender)
        } else if exists|i: int| 0 <= i < self.workers_idle@.len() && #[trigger] self.workers_idle@[i].id == id {
            Some(self.workers_idle@[choose|i: int| 0 <= i < self.workers_idle@.len() && #[trigger] self.workers_idle@[i].id == id].sender)
        } else {
            None
        }
    }

    /// The channel of a worker, busy or idle.
    pub fn sender(&self, id: CounterType) -> (r: Option<&W>)
        requires
            self.wf(),
        ensures
            match r {
                Some(w) => self.sender_of(id) == Some(*w),
                None => self.sender_of(id) is None,
            },
            self.busy().contains(id) ==> r is Some,
            r is Some ==> self.busy().contains(id) || self.idle().contains(id),
    {
        match self.workers_busy.get(&id) {
            Some(sender_id) => Some(&sender_id.sender),
            None => {
                let mut i: usize = 0;
                while i < self.workers_idle.len()
                    invariant
                        i <= self.workers_idle@.len(),
                        self.wf(),
                        !self.workers_busy@.contains_key(id),
                        forall|k: int| 0 <= k < i ==> self.workers_idle@[k].id != id,
                    decreases self.workers_idle@.len() - i,
                {
                    if self.workers_idle[i].id == id {
                        assert(self.idle()[i as int] == id);
                        let ghost c = choose|c: int| 0 <= c < self.workers_idle@.len() && #[trigger] self.workers_idle@[c].id == id;
                        assert(c == i as int) by {
                            if c < i as int {
                                assert(self.workers_idle@[c].id != self.workers_idle@[i as int].id);
                            } else if c > i as int {
                                assert(self.workers_idle@[i as int].id != self.workers_idle@[c].id);
                            }
                        }
                        return Some(&self.workers_idle[i].sender);
                    }
                    i = i + 1;
                }
                None
            },
        }
    }

    /// Marks a worker that finished its task as idle and hands out what
    /// is queued.
    pub fn set_as_idle(&mut self, id: CounterType) -> (r: Vec<(CounterType, P)>)
        requires
            old(self).wf(),
            old(self).busy().contains(id),
        ensures
            final(self).wf(),
            r@ == pairing(old(self).idle().push(id), old(self).tasks()),
            final(self).idle() == old(self).idle().push(id).skip(r@.len() as int),
            final(self).tasks() == old(self).tasks().skip(r@.len() as int),
            final(self).busy() == old(self).busy().remove(id) + Set::new(|k: CounterType| exists|i: int| 0 <= i < r@.len() && #[trigger] r@[i].0 == k),
            final(self).next_id() == old(self).next_id(),
            balanced(final(self).idle(), final(self).tasks()),
    {
        let sender_id = self.workers_busy.remove(&id);
        match sender_id {
            Some(sender_id) => {
                let ghost before = self.workers_idle@;
                self.workers_idle.push_back(sender_id);
                assert(self.idle() =~= old(self).idle().push(id));
                self.refresh_state()
            },
            None => {
                proof {
                    assert(false);
                }
                Vec::new()
            },
        }
    }

    fn set_as_busy(&mut self, sender_id: SenderId<W>)
        requires
            !old(self).workers_busy@.contains_key(sender_id.id),
        ensures
            final(self).workers_busy@ == old(self).workers_busy@.insert(sender_id.id, sender_id),
            final(self).workers_idle@ == old(self).workers_idle@,
            final(self).task@ == old(self).task@,
            final(self).autoid == old(self).autoid,
    {
        let id = sender_id.id();
        let result = self.workers_busy.insert(id, sender_id);
        match result {
            Some(_) => {
                proof {
                    assert(false);
                }
            },
            None => {},
        }
    }

    /// Queues a task, or hands it to the first idle worker when no task is
    /// waiting.
    pub fn run(&mut self, param: P) -> (r: Option<(CounterType, P)>)
        requires
            old(self).wf(),
        ensures
            final(self).wf(),
            final(self).next_id() == old(self).next_id(),
            (final(self).idle(), final(self).tasks(), r) == after_run(old(self).idle(), old(self).tasks(), param),
            final(self).busy() == (match r {
                Some((id, _)) => old(self).busy().insert(id),
                None => old(self).busy(),
            }),
    {
        if self.task.len() == 0 {
            match self.workers_idle.pop_front() {
                Some(worker_sender) => {
                    let id = worker_sender.id();
                    assert(old(self).workers_idle@[0].id == id);
                    self.set_as_busy(worker_sender);
                    assert(self.idle() =~= old(self).idle().drop_first());
                    assert(self.busy() =~= old(self).busy().insert(id));
                    Some((id, param))
                },
                None => {
                    self.task.push_back(param);
                    None
                },
            }
        } else {
            self.task.push_back(param);
            None
        }
    }

    /// Hands queued tasks to idle workers, in order, until one of the two
    /// runs out.
    pub fn refresh_state(&mut self) -> (r: Vec<(CounterType, P)>)
        requires
            old(self).wf(),
        ensures
            final(self).wf(),
            r@ == pairing(old(self).idle(), old(self).tasks()),
            final(self).idle() == old(self).idle().skip(r@.len() as int),
            final(self).tasks() == old(self).tasks().skip(r@.len() as int),
            final(self).busy() == old(self).busy() + Set::new(|k: CounterType| exists|i: int| 0 <= i < r@.len() && #[trigger] r@[i].0 == k),
            final(self).next_id() == old(self).next_id(),
            balanced(final(self).idle(), final(self).tasks()),
    {
        let mut out: Vec<(CounterType, P)> = Vec::new();
        let ghost idle0 = old(self).idle();
        let ghost tasks0 = old(self).tasks();
        let ghost busy0 = old(self).busy();
        loop
            invariant
                self.wf(),
                self.next_id() == old(self).next_id(),
                idle0 == old(self).idle(),
                tasks0 == old(self).tasks(),
                busy0 == old(self).busy(),
                out@.len() <= idle0.len(),
                out@.len() <= tasks0.len(),
                out@ == pairing(idle0.take(out@.len() as int), tasks0.take(out@.len() as int)),
                self.idle() == idle0.skip(out@.len() as int),
                self.tasks() == tasks0.skip(out@.len() as int),
                self.busy() == busy0 + Set::new(|k: CounterType| exists|i: int| 0 <= i < out@.len() && #[trigger] out@[i].0 == k),
            decreases self.tasks().len(),
        {
            let ghost before_idle = self.workers_idle@;
            let ghost before_ids = self.idle();
            let ghost before_busy = self.busy();
            let ghost before_out = out@;
            let ghost n = out@.len() as int;
            let w = self.workers_idle.pop_front();
            let t = self.task.pop_front();
            match (w, t) {
                (Some(worker_sender), Some(param)) => {
                    let id = worker_sender.id();
                    assert(before_idle.len() > 0);
                    assert(before_ids.len() == before_idle.len());
                    assert(before_ids[0] == id);
                    assert(before_ids == idle0.skip(n));
                    assert(idle0.skip(n).len() == idle0.len() - n);
                    assert(n < idle0.len());
                    assert(idle0.skip(n)[0] == idle0[n]);
                    assert(idle0[n] == id);
                    assert(tasks0[n] == param);
                    assert(!self.workers_busy@.contains_key(id));
                    self.set_as_busy(worker_sender);
                    out.push((id, param));
                    assert(self.idle().len() == before_ids.len() - 1);
                    assert(idle0.skip(n + 1).len() == before_ids.len() - 1);
                    assert forall|i: int| 0 <= i < self.idle().len() implies #[trigger] self.idle()[i] == idle0.skip(n + 1)[i] by {
                        assert(self.workers_idle@[i] == before_idle[i + 1]);
                        assert(self.idle()[i] == before_ids[i + 1]);
                        assert(before_ids[i + 1] == idle0.skip(n)[i + 1]);
                        assert(idle0.skip(n)[i + 1] == idle0[n + i + 1]);
                    }
                    assert(self.idle() =~= idle0.skip(n + 1));
                    assert(self.tasks() =~= tasks0.skip(n + 1));
                    assert(out@ =~= pairing(idle0.take(n + 1), tasks0.take(n + 1)));
                    assert(self.busy() == before_busy.insert(id));
                    assert(forall|i: int| 0 <= i < n ==> out@[i] == before_out[i]);
                    assert(out@[n] == (id, param));
                    assert(self.busy() =~= busy0 + Set::new(|k: CounterType| exists|i: int| 0 <= i < out@.len() && #[trigger] out@[i].0 == k)) by {
                        assert forall|k: CounterType| self.busy().contains(k) implies (busy0 + Set::new(|k: CounterType| exists|i: int| 0 <= i < out@.len() && #[trigger] out@[i].0 == k)).contains(k) by {
                            if k == id {
                                assert(out@[n].0 == k);
                            } else {
                                assert(before_busy.contains(k));
                                if !busy0.contains(k) {
                                    let i = choose|i: int| 0 <= i < before_out.len() && #[trigger] before_out[i].0 == k;
                                    assert(out@[i].0 == k);
                                }
                            }
                        }
                        assert forall|k: CounterType| (busy0 + Set::new(|k: CounterType| exists|i: int| 0 <= i < out@.len() && #[trigger] out@[i].0 == k)).contains(k) implies self.busy().contains(k) by {
                            if !busy0.contains(k) {
                                let i = choose|i: int| 0 <= i < out@.len() && #[trigger] out@[i].0 == k;
                                if i < n {
                                    assert(before_out[i].0 == k);
                                    assert(before_busy.contains(k));
                                }
                            }
                        }
                    }
                },
                (Some(worker_sender), None) => {
                    self.workers_idle.push_front(worker_sender);
                    assert(self.workers_idle@ =~= before_idle);
                    assert(self.idle() =~= idle0.skip(n));
                    assert(self.tasks().len() == 0);
                    assert(tasks0.skip(n).len() == 0);
                    assert(pairing(idle0, tasks0) =~= pairing(idle0.take(n), tasks0.take(n)));
                    return out;
                },
                (None, Some(param)) => {
                    self.task.push_front(param);
                    assert(self.tasks() =~= tasks0.skip(n));
                    assert(before_ids.len() == 0);
                    assert(idle0.len() == n);
                    assert(pairing(idle0, tasks0) =~= pairing(idle0.take(n), tasks0.take(n)));
                    return out;
                },
                (None, None) => {
                    assert(before_ids.len() == 0);
                    assert(idle0.len() == n);
                    assert(pairing(idle0, tasks0) =~= pairing(idle0.take(n), tasks0.take(n)));
                    return out;
                },
            }
        }
    }
}

} // verus!
