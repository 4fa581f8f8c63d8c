//! Identifiers and the counter that issues them.
//!
//! A domain, like the addressable surfaces it manages, is named by a
//! process-wide unique integer.  Instead of an ambient global counter, an
//! explicit [`IdAllocator`] is injected wherever a fresh identifier is
//! needed; its contract is what makes uniqueness provable.

use vstd::prelude::*;

verus! {

/// Identifies one domain for the lifetime of the process.
pub type DomainId = usize;

/// Identifies one addressable channel ("tab") owned by the external registry.
pub type TabId = usize;

/// Identifies one window owned by the external registry.
pub type WindowId = usize;

/// A counter that issues identifiers, each exactly once.
pub struct IdAllocator {
    /// The next identifier to be issued; everything below it has been issued.
    pub next: usize,
}

impl IdAllocator {
    /// An allocator that has issued nothing yet.
    pub fn new() -> (r: Self)
        ensures
            r.next == 0,
    {
        IdAllocator { next: 0 }
    }

    /// Issue the next identifier.
    pub fn allocate(&mut self) -> (r: usize)
        requires
            old(self).next < usize::MAX,
        ensures
            r == old(self).next,
            final(self).next == old(self).next + 1,
    {
        let id = self.next;
        self.next = self.next + 1;
        id
    }
}

/// Identifiers issued at different times by one allocator never coincide.
///
/// An allocation returns the allocator's current state and moves that state
/// strictly upward, so an identifier issued while the counter stood at
/// `first` differs from every identifier issued after the counter has passed
/// it.
pub proof fn lemma_allocations_distinct(first: usize, later_next: usize, second: usize)
    requires
        first < later_next,
        later_next <= second,
    ensures
        first != second,
{
}

} // verus!
