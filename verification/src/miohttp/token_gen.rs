//! Tokens that name the sockets of the event loop.

use vstd::prelude::*;

verus! {

/// Hands out tokens 0, 1, 2, ... in order, so that no token is given twice.
pub struct TokenGen {
    next: usize,
}

impl TokenGen {
    /// The token that `get` gives next; every token given so far is below it.
    pub closed spec fn next_token(&self) -> nat {
        self.next as nat
    }

    pub fn new() -> (r: TokenGen)
        ensures
            r.next_token() == 0,
    {
        TokenGen { next: 0 }
    }

    /// Whether another token can be given.
    pub fn has_next(&self) -> (r: bool)
        ensures
            r == (self.next_token() < usize::MAX),
    {
        self.next < usize::MAX
    }

    /// A token never given before.
    pub fn get(&mut self) -> (t: usize)
        requires
            old(self).next_token() < usize::MAX,
        ensures
            t == old(self).next_token(),
            final(self).next_token() == old(self).next_token() + 1,
    {
        let t = self.next;
        self.next = self.next + 1;
        t
    }
}

} // verus!
