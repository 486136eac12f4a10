use vstd::prelude::*;

verus! {

/// Hands out reservation and item ids, each one once, in increasing order.
#[derive(Debug)]
pub struct IdAllocator {
    next: u32,
}

impl IdAllocator {
    /// The id that the next allocation returns.
    pub closed spec fn next_id(&self) -> nat {
        self.next as nat
    }

    /// Whether one more id can be handed out.
    pub open spec fn has_next(&self) -> bool {
        self.next_id() < u32::MAX
    }

    pub fn new() -> (r: IdAllocator)
        ensures
            r.next_id() == 0,
    {
        IdAllocator { next: 0 }
    }

    pub fn can_allocate(&self) -> (r: bool)
        ensures
            r == self.has_next(),
    {
        self.next < u32::MAX
    }

    pub fn allocate(&mut self) -> (id: u32)
        requires
            old(self).has_next(),
        ensures
            id == old(self).next_id(),
            final(self).next_id() == old(self).next_id() + 1,
    {
        let id = self.next;
        self.next = self.next + 1;
        id
    }
}

} // verus!
