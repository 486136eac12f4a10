use vstd::prelude::*;
use crate::ids::IdAllocator;
use crate::server_type::ServerType;

verus! {

/// A single unit of stock, identified by a fresh id.
#[derive(Debug, Clone, Copy)]
pub struct Item {
    id: u32,
    tp: ServerType,
}

impl Item {
    pub closed spec fn item_id(&self) -> u32 {
        self.id
    }

    pub closed spec fn kind(&self) -> ServerType {
        self.tp
    }

    pub fn new(ids: &mut IdAllocator, tp: ServerType) -> (r: Item)
        requires
            old(ids).has_next(),
        ensures
            r.item_id() == old(ids).next_id(),
            final(ids).next_id() == old(ids).next_id() + 1,
            r.kind() == tp,
    {
        Item { id: ids.allocate(), tp }
    }

    pub fn id(&self) -> (r: u32)
        ensures
            r == self.item_id(),
    {
        self.id
    }

    pub fn server_type(&self) -> (r: ServerType)
        ensures
            r == self.kind(),
    {
        self.tp
    }
}

} // verus!
