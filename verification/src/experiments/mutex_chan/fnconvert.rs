//! Conversions applied to values on their way to a receiver: a first
//! function, and further functions chained after it.

use vstd::prelude::*;
use std::sync::Arc;
use std::marker::PhantomData;

verus! {

/// A function that a conversion applies; it accepts every argument.
pub trait Func<A, C>: Send + Sync {
    /// Whether calling the function on `a` may give `c`.
    spec fn gives(&self, a: A, c: C) -> bool;

    fn call(&self, a: A) -> (c: C)
        ensures
            self.gives(a, c),
    ;
}

pub type StaticFunc<A, C> = Box<dyn Func<A, C>>;

/// A closure that accepts every argument, as a `Func`.
#[verifier::reject_recursive_types(A)]
#[verifier::reject_recursive_types(C)]
pub struct Closure<A, C, F: Fn(A) -> C> {
    f: F,
    marker: PhantomData<(A, C)>,
}

impl<A, C, F: Fn(A) -> C> Closure<A, C, F> {
    #[verifier::type_invariant]
    spec fn total(self) -> bool {
        forall|a: A| #[trigger] self.f.requires((a,))
    }

    /// The closure that is called.
    pub closed spec fn func(&self) -> F {
        self.f
    }

    pub fn new(f: F) -> (r: Closure<A, C, F>)
        requires
            forall|a: A| #[trigger] f.requires((a,)),
        ensures
            r.func() == f,
    {
        Closure { f, marker: PhantomData }
    }
}

impl<A: Send + Sync, C: Send + Sync, F: Fn(A) -> C + Send + Sync> Func<A, C> for Closure<A, C, F> {
    /// What the closure's own contract allows it to return.
    open spec fn gives(&self, a: A, c: C) -> bool {
        self.func().ensures((a,), c)
    }

    fn call(&self, a: A) -> (c: C) {
        proof {
            use_type_invariant(self);
        }
        (self.f)(a)
    }
}

/// The function that gives its argument back.
pub struct Identity;

impl<A: Send + Sync> Func<A, A> for Identity {
    open spec fn gives(&self, a: A, c: A) -> bool {
        c == a
    }

    fn call(&self, a: A) -> (c: A) {
        a
    }
}

/// A conversion from `A` to `C`.
pub trait Convert<A, C>: Send + Sync {
    /// Whether converting `a` may give `c`.
    spec fn converts(&self, a: A, c: C) -> bool;

    fn conv(&self, a: A) -> (c: C)
        ensures
            self.converts(a, c),
    ;
}

/// A conversion that several holders share.
pub type SharedConvert<A, C> = Arc<Box<dyn Convert<A, C>>>;

/// A first function, or a conversion to `B` followed by a function.
/// Conversions are shared, not copied, by whoever needs them.
#[verifier::reject_recursive_types(A)]
#[verifier::reject_recursive_types(B)]
#[verifier::reject_recursive_types(C)]
pub enum Fnconvert<A, B, C> {
    First(Arc<StaticFunc<A, C>>),
    Next(SharedConvert<A, B>, Arc<StaticFunc<B, C>>),
}

impl<A: Send + Sync, B: Send + Sync, C: Send + Sync> Fnconvert<A, B, C> {
    /// A conversion that applies `funk`.
    pub fn new(funk: StaticFunc<A, C>) -> (r: Box<Fnconvert<A, B, C>>)
        ensures
            *r matches Fnconvert::First(f) && f == funk,
            forall|a: A, c: C| #[trigger] r.converts(a, c) <==> funk.gives(a, c),
    {
        let f = Arc::new(funk);
        assert(f == funk);
        let c = Fnconvert::First(f);
        let r = Box::new(c);
        assert(*r == c);
        r
    }
}

impl<A: Send + Sync, B: Send + Sync, C: Send + Sync> Convert<A, C> for Fnconvert<A, B, C> {
    /// The first function applied to the value, or the earlier conversion
    /// followed by the function.
    open spec fn converts(&self, a: A, c: C) -> bool {
        match self {
            Fnconvert::First(func) => func.gives(a, c),
            Fnconvert::Next(next_conv, func) => exists|b: B| #[trigger] next_conv.converts(a, b) && func.gives(b, c),
        }
    }

    fn conv(&self, value: A) -> (c: C) {
        match self {
            Fnconvert::First(func) => func.call(value),
            Fnconvert::Next(next_conv, func) => func.call(next_conv.conv(value)),
        }
    }
}

/// Makes a conversion shareable.
pub fn share<A: Send + Sync + 'static, B: Send + Sync + 'static, C: Send + Sync + 'static>(
    c: Box<Fnconvert<A, B, C>>,
) -> (r: SharedConvert<A, C>)
    ensures
        forall|a: A, x: C| #[trigger] r.converts(a, x) == c.converts(a, x),
{
    let ghost orig = *c;
    let b: Box<dyn Convert<A, C>> = c;
    let r = Arc::new(b);
    assert forall|a: A, x: C| #[trigger] r.converts(a, x) == orig.converts(a, x) by {
        assert(b.converts(a, x) == orig.converts(a, x));
    }
    r
}

} // verus!
verus! {

/// A conversion chained after another converts as the other followed by
/// its function.
pub proof fn lemma_next_converts<A: Send + Sync, B: Send + Sync, C: Send + Sync>(
    next_conv: SharedConvert<A, B>,
    func: Arc<StaticFunc<B, C>>,
    a: A,
    c: C,
)
    ensures
        Fnconvert::Next(next_conv, func).converts(a, c) == exists|b: B| #[trigger] next_conv.converts(a, b) && func.gives(b, c),
{
    let n = Fnconvert::<A, B, C>::Next(next_conv, func);
    if exists|b: B| #[trigger] next_conv.converts(a, b) && func.gives(b, c) {
        let b = choose|b: B| #[trigger] next_conv.converts(a, b) && func.gives(b, c);
        assert(n->Next_0 == next_conv);
        assert(n->Next_0.converts(a, b));
        assert(n->Next_1.gives(b, c));
        assert(n.converts(a, c));
    }
}

} // verus!
