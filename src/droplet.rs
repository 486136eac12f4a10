use vstd::prelude::*;
use crate::ids::IdAllocator;
use crate::server_type::{ServerType, price_of};

verus! {

/// One reserved unit of a server type, held by one account.
#[derive(Debug)]
pub struct Droplet {
    id: u32,
    tp: ServerType,
    owner: String,
    value: i32,
}

impl Droplet {
    pub closed spec fn droplet_id(&self) -> u32 {
        self.id
    }

    pub closed spec fn kind(&self) -> ServerType {
        self.tp
    }

    pub closed spec fn holder(&self) -> Seq<char> {
        self.owner@
    }

    /// What was paid: the list price, or the winning bid.
    pub closed spec fn price_paid(&self) -> i32 {
        self.value
    }

    /// A unit bought at list price, under a fresh id.
    pub fn new_reserved(ids: &mut IdAllocator, tp: ServerType, owner: &str) -> (r: Droplet)
        requires
            old(ids).has_next(),
        ensures
            r.droplet_id() == old(ids).next_id(),
            final(ids).next_id() == old(ids).next_id() + 1,
            r.kind() == tp,
            r.holder() == owner@,
            r.price_paid() == price_of(tp),
    {
        Droplet { id: ids.allocate(), tp, owner: owner.to_owned(), value: tp.price() }
    }

    /// A unit won at auction for `value`, under a fresh id.
    pub fn new_auctioned(ids: &mut IdAllocator, tp: ServerType, owner: &str, value: i32) -> (r:
        Droplet)
        requires
            old(ids).has_next(),
        ensures
            r.droplet_id() == old(ids).next_id(),
            final(ids).next_id() == old(ids).next_id() + 1,
            r.kind() == tp,
            r.holder() == owner@,
            r.price_paid() == value,
    {
        Droplet { id: ids.allocate(), tp, owner: owner.to_owned(), value }
    }

    /// Whether `owner` holds this reservation.
    pub fn held_by(&self, owner: &String) -> (r: bool)
        ensures
            r == (self.holder() == owner@),
    {
        self.owner == *owner
    }

    pub fn id(&self) -> (r: u32)
        ensures
            r == self.droplet_id(),
    {
        self.id
    }

    pub fn owner(&self) -> (r: &str)
        ensures
            r@ == self.holder(),
    {
        self.owner.as_str()
    }

    pub fn server_type(&self) -> (r: ServerType)
        ensures
            r == self.kind(),
    {
        self.tp
    }

    pub fn value(&self) -> (r: i32)
        ensures
            r == self.price_paid(),
    {
        self.value
    }
}

impl Clone for Droplet {
    fn clone(&self) -> (r: Self)
        ensures
            r == *self,
    {
        Droplet { id: self.id, tp: self.tp, owner: self.owner.clone(), value: self.value }
    }
}

} // verus!
