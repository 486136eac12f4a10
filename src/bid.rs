use vstd::prelude::*;

verus! {

/// An offer of `value` for one unit, made by the account `owner`.
#[derive(Debug)]
pub struct Bid {
    value: i32,
    owner: String,
}

impl Bid {
    pub closed spec fn bid_value(&self) -> i32 {
        self.value
    }

    pub closed spec fn bidder(&self) -> Seq<char> {
        self.owner@
    }

    pub fn new(owner: &str, value: i32) -> (r: Bid)
        ensures
            r.bidder() == owner@,
            r.bid_value() == value,
    {
        Bid { value, owner: owner.to_owned() }
    }

    pub fn owner(&self) -> (r: &str)
        ensures
            r@ == self.bidder(),
    {
        self.owner.as_str()
    }

    pub fn value(&self) -> (r: i32)
        ensures
            r == self.bid_value(),
    {
        self.value
    }
}

impl Clone for Bid {
    fn clone(&self) -> (r: Self)
        ensures
            r == *self,
    {
        Bid { value: self.value, owner: self.owner.clone() }
    }
}

} // verus!
