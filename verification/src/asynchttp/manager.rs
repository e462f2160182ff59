//! A manager that keeps a set number of workers started: it calls its
//! `create` function, with its own name, once for each worker missing.

use vstd::prelude::*;

verus! {

#[verifier::reject_recursive_types(F)]
pub struct Manager<F: Fn(String)> {
    name: String,
    len: u32,
    count: u32,
    create: F,
    started: Ghost<Seq<Seq<char>>>,
}

impl<F: Fn(String)> Manager<F> {
    /// No more workers are started than wanted, and `create` accepts
    /// every name.
    #[verifier::type_invariant]
    spec fn inv(self) -> bool {
        &&& self.count <= self.len
        &&& forall|s: String| #[trigger] self.create.requires((s,))
    }

    /// The name given to each worker.
    pub closed spec fn name(&self) -> Seq<char> {
        self.name@
    }

    /// How many workers are wanted.
    pub closed spec fn len(&self) -> u32 {
        self.len
    }

    /// The names `create` was called with, in order: one call per worker
    /// started.
    pub closed spec fn started(&self) -> Seq<Seq<char>> {
        self.started@
    }

    /// How many workers were started.
    pub closed spec fn count(&self) -> u32 {
        self.count
    }

    /// A manager for `len` workers named `name`; all of them are started
    /// before it is returned.
    pub fn new(name: String, len: u32, create: F) -> (r: Manager<F>)
        requires
            forall|s: String| #[trigger] create.requires((s,)),
        ensures
            r.name() == name@,
            r.len() == len,
            r.count() == len,
            r.started() == Seq::new(len as nat, |i: int| name@),
    {
        let mut instance = Manager { name, len, count: 0, create, started: Ghost(Seq::empty()) };
        assert(instance.started() =~= Seq::new(0, |i: int| instance.name()));
        instance.refresh();
        instance
    }

    /// Stops the workers; nothing is done yet.
    pub fn shoutdown(&mut self)
        ensures
            final(self).name() == old(self).name(),
            final(self).len() == old(self).len(),
            final(self).count() == old(self).count(),
            final(self).started() == old(self).started(),
    {
    }

    /// Starts workers until as many run as are wanted.
    fn refresh(&mut self)
        ensures
            final(self).name() == old(self).name(),
            final(self).len() == old(self).len(),
            final(self).count() == old(self).len(),
            old(self).started() == Seq::new(old(self).count() as nat, |i: int| old(self).name()) ==>
                final(self).started() == Seq::new(old(self).len() as nat, |i: int| old(self).name()),
    {
        proof {
            use_type_invariant(&*self);
        }
        while self.count < self.len
            invariant
                self.name() == old(self).name(),
                self.len() == old(self).len(),
                self.count() <= self.len(),
                old(self).started() == Seq::new(old(self).count() as nat, |i: int| old(self).name()) ==>
                    self.started() == Seq::new(self.count() as nat, |i: int| self.name()),
            decreases self.len() - self.count(),
        {
            let thread_name = self.name.clone();
            self.spawn(thread_name);
            assert(old(self).started() == Seq::new(old(self).count() as nat, |i: int| old(self).name()) ==>
                self.started() =~= Seq::new(self.count() as nat, |i: int| self.name()));
        }
    }

    /// Starts one worker named `name`.
    fn spawn(&mut self, name: String)
        requires
            old(self).count() < old(self).len(),
        ensures
            final(self).name() == old(self).name(),
            final(self).len() == old(self).len(),
            final(self).count() == old(self).count() + 1,
            final(self).started() == old(self).started().push(name@),
    {
        proof {
            use_type_invariant(&*self);
        }
        let ghost called = name@;
        (self.create)(name);
        self.count = self.count + 1;
        proof {
            self.started@ = self.started@.push(called);
        }
    }
}

} // verus!
