//! Identifiers for shapes, handed out by a counter that the scene owns.
use vstd::prelude::*;

verus! {

/// Hands out each identifier at most once, in increasing order.
pub struct IdSource {
    next: usize,
}

impl IdSource {
    /// The identifier that the next call of `fresh` hands out.
    pub closed spec fn spec_next(&self) -> nat {
        self.next as nat
    }

    pub fn new() -> (r: Self)
        ensures
            r.spec_next() == 0,
    {
        IdSource { next: 0 }
    }

    /// A new identifier, or `None` once every `usize` has been handed out.
    pub fn fresh(&mut self) -> (r: Option<usize>)
        ensures
            old(self).spec_next() < usize::MAX ==> r == Some(old(self).spec_next() as usize)
                && final(self).spec_next() == old(self).spec_next() + 1,
            old(self).spec_next() >= usize::MAX ==> r is None && final(self).spec_next()
                == old(self).spec_next(),
    {
        if self.next < usize::MAX {
            let id = self.next;
            self.next = self.next + 1;
            Some(id)
        } else {
            None
        }
    }
}

} // verus!
