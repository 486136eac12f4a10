use vstd::prelude::*;
use crate::bid::Bid;
use crate::server_type::ServerType;
use crate::task::Task;

verus! {

/// Ticks from the first bid until an auction closes.
pub const AUCTION_DELAY: usize = 10;

/// Why a bid was not taken.
#[derive(Debug)]
pub enum BidError {
    /// The offer did not beat the current highest one, whose value is given.
    BidTooLow(i32),
    /// The shared state could not be locked.
    LockError,
}

/// Values strictly increase along the sequence.
pub open spec fn strictly_rising(bids: Seq<Bid>) -> bool {
    forall|i: int, j: int| 0 <= i < j < bids.len() ==> bids[i].bid_value() < bids[j].bid_value()
}

/// A running auction for one unit of a server type: the bids taken so far, in the
/// order they came, and the countdown to its close.
#[derive(Debug)]
pub struct Auction {
    server_type: ServerType,
    bids: Vec<Bid>,
    callback: Task,
}

impl Auction {
    pub closed spec fn kind(&self) -> ServerType {
        self.server_type
    }

    pub closed spec fn bid_seq(&self) -> Seq<Bid> {
        self.bids@
    }

    pub closed spec fn timer(&self) -> Task {
        self.callback
    }

    /// At least one bid, each higher than the ones before.
    pub open spec fn wf(&self) -> bool {
        &&& self.bid_seq().len() > 0
        &&& strictly_rising(self.bid_seq())
    }

    /// The highest bid, which is the latest.
    pub open spec fn top(&self) -> Bid {
        self.bid_seq().last()
    }

    /// Opens an auction on its first bid; it closes after `AUCTION_DELAY` ticks.
    pub fn new(server_type: ServerType, bid: Bid) -> (r: Auction)
        ensures
            r.wf(),
            r.kind() == server_type,
            r.bid_seq() == seq![bid],
            r.timer().pending_ticks() == AUCTION_DELAY,
            !r.timer().has_fired(),
    {
        let mut bids: Vec<Bid> = Vec::new();
        bids.push(bid);
        Auction { server_type, bids, callback: Task::new(AUCTION_DELAY) }
    }

    /// Takes `bid` only if it is strictly higher than the current highest bid.
    pub fn bid(&mut self, bid: Bid) -> (r: Result<(), BidError>)
        requires
            old(self).wf(),
        ensures
            final(self).wf(),
            final(self).kind() == old(self).kind(),
            final(self).timer() == old(self).timer(),
            r is Ok <==> bid.bid_value() > old(self).top().bid_value(),
            r is Ok ==> final(self).bid_seq() == old(self).bid_seq().push(bid),
            r is Err ==> *final(self) == *old(self) && r == Err::<(), BidError>(
                BidError::BidTooLow(old(self).top().bid_value()),
            ),
    {
        let top = self.bids[self.bids.len() - 1].value();
        if bid.value() > top {
            self.bids.push(bid);
            Ok(())
        } else {
            Err(BidError::BidTooLow(top))
        }
    }

    /// A copy of the highest bid.
    pub fn highest_bid(&self) -> (r: Bid)
        requires
            self.wf(),
        ensures
            r == self.top(),
    {
        self.bids[self.bids.len() - 1].clone()
    }

    pub fn server_type(&self) -> (r: ServerType)
        ensures
            r == self.kind(),
    {
        self.server_type
    }

    /// Ticks left before the auction closes.
    pub fn remaining(&self) -> (r: usize)
        ensures
            r == self.timer().pending_ticks(),
    {
        self.callback.delay()
    }

    /// Advances the countdown; true on the one tick on which the auction closes.
    pub fn tick(&mut self) -> (closes: bool)
        ensures
            closes == old(self).timer().fires_on_tick(),
            final(self).timer().pending_ticks() == old(self).timer().ticked_delay(),
            final(self).timer().has_fired() == (old(self).timer().has_fired() || closes),
            final(self).kind() == old(self).kind(),
            final(self).bid_seq() == old(self).bid_seq(),
    {
        self.callback.tick()
    }
}

} // verus!
