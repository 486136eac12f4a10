use vstd::prelude::*;
use crate::client::Client;
use crate::ids::IdAllocator;
use crate::server_type::ServerType;

verus! {

/// The best offer so far for one unit: a single value and the account that made it.
#[derive(Debug)]
pub struct TopBid {
    id: u32,
    tp: ServerType,
    value: i32,
    owner: String,
}

impl TopBid {
    pub closed spec fn top_id(&self) -> u32 {
        self.id
    }

    pub closed spec fn kind(&self) -> ServerType {
        self.tp
    }

    pub closed spec fn top_value(&self) -> i32 {
        self.value
    }

    pub closed spec fn leader(&self) -> Seq<char> {
        self.owner@
    }

    pub fn new(ids: &mut IdAllocator, tp: ServerType, owner: &Client, value: i32) -> (r: TopBid)
        requires
            old(ids).has_next(),
        ensures
            r.top_id() == old(ids).next_id(),
            final(ids).next_id() == old(ids).next_id() + 1,
            r.kind() == tp,
            r.top_value() == value,
            r.leader() == owner.email_view(),
    {
        TopBid { id: ids.allocate(), tp, value, owner: owner.email().to_owned() }
    }

    /// Takes the lead when `value` beats the current one; an equal offer does not.
    pub fn bid(&mut self, value: i32, owner: &Client) -> (r: bool)
        ensures
            r == (value > old(self).top_value()),
            final(self).top_id() == old(self).top_id(),
            final(self).kind() == old(self).kind(),
            r ==> final(self).top_value() == value && final(self).leader() == owner.email_view(),
            !r ==> *final(self) == *old(self),
    {
        if value > self.value {
            self.value = value;
            self.owner = owner.email().to_owned();
            true
        } else {
            false
        }
    }

    pub fn id(&self) -> (r: u32)
        ensures
            r == self.top_id(),
    {
        self.id
    }

    pub fn owner(&self) -> (r: &str)
        ensures
            r@ == self.leader(),
    {
        self.owner.as_str()
    }

    pub fn value(&self) -> (r: i32)
        ensures
            r == self.top_value(),
    {
        self.value
    }
}

} // verus!
