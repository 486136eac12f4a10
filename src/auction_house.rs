use vstd::prelude::*;
use crate::auction::{Auction, BidError};
use crate::bid::Bid;
use crate::client::Client;
use crate::droplet::Droplet;
use crate::ids::IdAllocator;
use crate::model::{
    auction_index, auctions_wf, bid_placed, bought, closing, count_kind, dropped, due,
    emails_unique, entry_index, expired, has_auction, has_entry, holds_id, id_index, ids_apart,
    ids_below, ids_distinct, keys_unique, kept_after_tick, lemma_apart_push, lemma_apart_remove,
    lemma_auction_index, lemma_count_positive, lemma_count_push, lemma_count_remove,
    lemma_entry_index, lemma_id_index, lemma_units_frame, one_released, one_taken, owned_by,
    released, restock_entries, settled, signed_up, ticked, won_by,
};
use crate::server_type::{ServerType, expires_automatically};
use crate::task::Task;
use crate::transaction::Transaction;

verus! {

/// Ticks after which a direct purchase of an auto-expiring type is released.
pub const EXPIRY_DELAY: usize = 60;

/// Why an operation on the auction house failed.
#[derive(Debug)]
pub enum AHouseError {
    /// No unit of this type is available.
    OutOfStock(ServerType),
    /// No account with this email, or the password does not match.
    InvalidClient(String),
    /// An account with this email already exists.
    EmailTaken(String),
    /// The shared state could not be locked; the text says why.
    LockError(String),
    /// The offer did not beat the current highest bid.
    BidTooLow,
}

impl From<BidError> for AHouseError {
    fn from(_error: BidError) -> (r: AHouseError)
        ensures
            r == AHouseError::BidTooLow,
    {
        AHouseError::BidTooLow
    }
}

impl vstd::std_specs::convert::FromSpecImpl<BidError> for AHouseError {
    open spec fn obeys_from_spec() -> bool {
        true
    }

    open spec fn from_spec(v: BidError) -> AHouseError {
        AHouseError::BidTooLow
    }
}

/// Something that a countdown asks the auction house to do when it runs out.
#[derive(Debug, Clone, Copy, PartialEq, Eq, Structural)]
pub enum Event {
    /// Close the running auction for this type.
    Settle(ServerType),
    /// Release the direct purchase with this id, whoever holds it.
    Expire(u32),
}

/// A stock entry: the type, the units available now, and all units ever restocked.
pub type StockEntry = (ServerType, u32, u32);

/// A pending release: the id of a direct purchase and the countdown to its release.
pub type Expiry = (u32, Task);

/// The marketplace: stock per type, the accounts, the reservations made by direct
/// purchase and by auction, the running auctions, and the pending releases.
#[derive(Debug)]
pub struct AuctionHouse {
    stock: Vec<StockEntry>,
    auctions: Vec<Auction>,
    reserved_a: Vec<Droplet>,
    reserved_d: Vec<Droplet>,
    clients: Vec<Client>,
    expiries: Vec<Expiry>,
    ids: IdAllocator,
}

impl AuctionHouse {
    pub closed spec fn stock_entries(&self) -> Seq<StockEntry> {
        self.stock@
    }

    /// The running auctions, at most one per type.
    pub closed spec fn running(&self) -> Seq<Auction> {
        self.auctions@
    }

    /// Reservations made by auction settlement.
    pub closed spec fn won(&self) -> Seq<Droplet> {
        self.reserved_a@
    }

    /// Reservations made by direct purchase.
    pub closed spec fn direct(&self) -> Seq<Droplet> {
        self.reserved_d@
    }

    /// The registered accounts, in order of registration.
    pub closed spec fn accounts(&self) -> Seq<Client> {
        self.clients@
    }

    /// Pending releases of direct purchases.
    pub closed spec fn expiries(&self) -> Seq<Expiry> {
        self.expiries@
    }

    /// The id that the next reservation gets.
    pub closed spec fn next_id(&self) -> nat {
        self.ids.next_id()
    }

    /// Units of `st` available now.
    pub open spec fn available(&self, st: ServerType) -> nat {
        let s = self.stock_entries();
        if has_entry(s, st) {
            s[entry_index(s, st)].1 as nat
        } else {
            0
        }
    }

    /// Units of `st` ever restocked.
    pub open spec fn restocked(&self, st: ServerType) -> nat {
        let s = self.stock_entries();
        if has_entry(s, st) {
            s[entry_index(s, st)].2 as nat
        } else {
            0
        }
    }

    /// Units of `st` held in reservations of either kind.
    pub open spec fn reserved(&self, st: ServerType) -> nat {
        count_kind(self.direct(), st) + count_kind(self.won(), st)
    }

    /// Whether one more reservation id can be handed out.
    pub open spec fn ids_left(&self) -> bool {
        self.next_id() < u32::MAX
    }

    pub open spec fn is_registered(&self, email: Seq<char>) -> bool {
        exists|i: int| 0 <= i < self.accounts().len() && self.accounts()[i].email_view() == email
    }

    /// Where the account with this email stands, if it is registered.
    pub open spec fn account_index(&self, email: Seq<char>) -> int {
        choose|i: int| 0 <= i < self.accounts().len() && self.accounts()[i].email_view() == email
    }

    /// The consistency of the whole state. Above all: for every type, the units
    /// available and the units reserved add up to the units ever restocked.
    pub open spec fn wf(&self) -> bool {
        &&& keys_unique(self.stock_entries())
        &&& forall|st: ServerType| #[trigger]
            self.available(st) + self.reserved(st) == self.restocked(st)
        &&& ids_below(self.direct(), self.next_id())
        &&& ids_below(self.won(), self.next_id())
        &&& ids_distinct(self.direct())
        &&& ids_distinct(self.won())
        &&& ids_apart(self.direct(), self.won())
        &&& emails_unique(self.accounts())
        &&& auctions_wf(self.running())
    }

    pub fn new() -> (r: AuctionHouse)
        ensures
            r.wf(),
            r.stock_entries() == Seq::<StockEntry>::empty(),
            r.running() == Seq::<Auction>::empty(),
            r.won() == Seq::<Droplet>::empty(),
            r.direct() == Seq::<Droplet>::empty(),
            r.accounts() == Seq::<Client>::empty(),
            r.expiries() == Seq::<Expiry>::empty(),
            r.next_id() == 0,
    {
        let r = AuctionHouse {
            stock: Vec::new(),
            auctions: Vec::new(),
            reserved_a: Vec::new(),
            reserved_d: Vec::new(),
            clients: Vec::new(),
            expiries: Vec::new(),
            ids: IdAllocator::new(),
        };
        r
    }

    fn find_stock(&self, st: ServerType) -> (r: Option<usize>)
        requires
            keys_unique(self.stock_entries()),
        ensures
            r is Some <==> has_entry(self.stock_entries(), st),
            r matches Some(i) ==> i == entry_index(self.stock_entries(), st) && i
                < self.stock_entries().len(),
    {
        let mut i: usize = 0;
        while i < self.stock.len()
            invariant
                i <= self.stock@.len(),
                keys_unique(self.stock@),
                forall|j: int| 0 <= j < i ==> self.stock@[j].0 != st,
            decreases self.stock@.len() - i,
        {
            if self.stock[i].0 == st {
                proof {
                    lemma_entry_index(self.stock@, i as int, st);
                }
                return Some(i);
            }
            i = i + 1;
        }
        None
    }

    /// Whether one more reservation can be filed: ids are `u32` and handed out once.
    pub fn can_reserve(&self) -> (r: bool)
        ensures
            r == self.ids_left(),
    {
        self.ids.can_allocate()
    }

    /// Whether `add(st)` keeps the counters of `st` within range.
    pub fn can_add(&self, st: ServerType) -> (r: bool)
        requires
            self.wf(),
        ensures
            r == (self.restocked(st) < u32::MAX),
    {
        match self.find_stock(st) {
            Some(i) => self.stock[i].2 < u32::MAX,
            None => true,
        }
    }

    /// Restocks one unit of `st`.
    pub fn add(&mut self, server_type: ServerType)
        requires
            old(self).wf(),
            old(self).restocked(server_type) < u32::MAX,
        ensures
            final(self).wf(),
            final(self).stock_entries() == restock_entries(old(self).stock_entries(), server_type),
            final(self).available(server_type) == old(self).available(server_type) + 1,
            final(self).restocked(server_type) == old(self).restocked(server_type) + 1,
            forall|t: ServerType|
                t != server_type ==> final(self).available(t) == old(self).available(t)
                    && final(self).restocked(t) == old(self).restocked(t),
            final(self).running() == old(self).running(),
            final(self).won() == old(self).won(),
            final(self).direct() == old(self).direct(),
            final(self).accounts() == old(self).accounts(),
            final(self).expiries() == old(self).expiries(),
            final(self).next_id() == old(self).next_id(),
    {
        let ghost s0 = self.stock@;
        match self.find_stock(server_type) {
            Some(i) => {
                let e = self.stock[i];
                assert(old(self).available(server_type) + old(self).reserved(server_type)
                    == old(self).restocked(server_type));
                self.stock.set(i, (server_type, e.1 + 1, e.2 + 1));
                proof {
                    assert(self.stock@ == restock_entries(s0, server_type));
                    assert(keys_unique(self.stock@));
                    lemma_entry_index(self.stock@, i as int, server_type);
                    assert forall|t: ServerType| t != server_type implies
                        self.available(t) == old(self).available(t)
                        && self.restocked(t) == old(self).restocked(t) by {
                        if has_entry(s0, t) {
                            let k = entry_index(s0, t);
                            lemma_entry_index(self.stock@, k, t);
                        } else {
                            assert(!has_entry(self.stock@, t));
                        }
                    }
                }
            },
            None => {
                self.stock.push((server_type, 1, 1));
                proof {
                    assert(keys_unique(self.stock@));
                    lemma_entry_index(self.stock@, s0.len() as int, server_type);
                    assert forall|t: ServerType| t != server_type implies
                        self.available(t) == old(self).available(t)
                        && self.restocked(t) == old(self).restocked(t) by {
                        if has_entry(s0, t) {
                            let k = entry_index(s0, t);
                            lemma_entry_index(self.stock@, k, t);
                        } else {
                            assert(!has_entry(self.stock@, t));
                        }
                    }
                }
            },
        }
        assert forall|t: ServerType| #[trigger]
            self.available(t) + self.reserved(t) == self.restocked(t) by {
            assert(old(self).available(t) + old(self).reserved(t) == old(self).restocked(t));
        }
    }

    /// Each stocked type with the units available now, in the order the types were
    /// first restocked.
    pub fn ls(&self) -> (r: Vec<(ServerType, u32)>)
        requires
            self.wf(),
        ensures
            r@.len() == self.stock_entries().len(),
            forall|i: int|
                0 <= i < r@.len() ==> r@[i] == (self.stock_entries()[i].0, self.stock_entries()[i].1),
            forall|i: int| 0 <= i < r@.len() ==> r@[i].1 == self.available(#[trigger] r@[i].0),
    {
        let mut r: Vec<(ServerType, u32)> = Vec::new();
        let mut i: usize = 0;
        while i < self.stock.len()
            invariant
                i <= self.stock@.len(),
                r@.len() == i,
                forall|j: int| 0 <= j < i ==> r@[j] == (self.stock@[j].0, self.stock@[j].1),
            decreases self.stock@.len() - i,
        {
            r.push((self.stock[i].0, self.stock[i].1));
            i = i + 1;
        }
        proof {
            assert forall|i: int| 0 <= i < r@.len() implies r@[i].1 == self.available(
                #[trigger] r@[i].0,
            ) by {
                lemma_entry_index(self.stock@, i, r@[i].0);
            }
        }
        r
    }

    fn find_client(&self, email: &String) -> (r: Option<usize>)
        requires
            emails_unique(self.accounts()),
        ensures
            r is Some <==> self.is_registered(email@),
            r matches Some(i) ==> i == self.account_index(email@) && i < self.accounts().len(),
    {
        let mut i: usize = 0;
        while i < self.clients.len()
            invariant
                i <= self.clients@.len(),
                emails_unique(self.clients@),
                forall|j: int| 0 <= j < i ==> self.clients@[j].email_view() != email@,
            decreases self.clients@.len() - i,
        {
            if self.clients[i].has_email(email) {
                proof {
                    let k = self.account_index(email@);
                    assert(self.is_registered(email@));
                    assert(k == i);
                }
                return Some(i);
            }
            i = i + 1;
        }
        None
    }

    /// Creates an account unless the email is taken.
    pub fn register(&mut self, email: &str, password: &str) -> (r: Result<Client, AHouseError>)
        requires
            old(self).wf(),
        ensures
            final(self).wf(),
            signed_up(*old(self), *final(self), email@, password@, r),
    {
        let key = email.to_owned();
        match self.find_client(&key) {
            Some(_) => Err(AHouseError::EmailTaken(key)),
            None => {
                let client = Client::new(key, password.to_owned());
                let copy = client.clone();
                self.clients.push(client);
                proof {
                    assert(self.clients@.drop_last() =~= old(self).clients@);
                    assert forall|i: int, j: int|
                        0 <= i < j < self.clients@.len() implies self.clients@[i].email_view()
                        != self.clients@[j].email_view() by {
                        if j == self.clients@.len() - 1 {
                            assert(!old(self).is_registered(email@));
                            assert(old(self).clients@[i] == self.clients@[i]);
                        }
                    }
                    lemma_units_frame(old(self), self);
                }
                Ok(copy)
            },
        }
    }

    /// The account, if the email is registered and the password matches it exactly.
    /// An unknown email and a wrong password give the same error.
    pub fn login(&self, email: &str, password: &str) -> (r: Result<Client, AHouseError>)
        requires
            self.wf(),
        ensures
            r is Ok <==> self.is_registered(email@) && self.accounts()[self.account_index(
                email@,
            )].password_view() == password@,
            r matches Ok(c) ==> self.accounts()[self.account_index(email@)].same_as(&c),
            r matches Err(e) ==> e matches AHouseError::InvalidClient(m) && m@ == email@,
    {
        let key = email.to_owned();
        match self.find_client(&key) {
            None => Err(AHouseError::InvalidClient(key)),
            Some(i) => {
                let pw = password.to_owned();
                let stored = self.clients[i].password().to_owned();
                if stored == pw {
                    Ok(self.clients[i].clone())
                } else {
                    Err(AHouseError::InvalidClient(key))
                }
            },
        }
    }

    /// The account registered under this email, if any.
    pub fn profile(&self, ctl: &str) -> (r: Option<Client>)
        requires
            self.wf(),
        ensures
            r is Some <==> self.is_registered(ctl@),
            r matches Some(c) ==> self.accounts()[self.account_index(ctl@)].same_as(&c),
    {
        let key = ctl.to_owned();
        match self.find_client(&key) {
            None => None,
            Some(i) => Some(self.clients[i].clone()),
        }
    }

    /// Buys one unit of `sv_tp` for the account `clt`, and returns the reservation's id.
    pub fn buy(&mut self, sv_tp: ServerType, clt: &str) -> (r: Result<u32, AHouseError>)
        requires
            old(self).wf(),
            old(self).ids_left(),
        ensures
            final(self).wf(),
            bought(*old(self), *final(self), sv_tp, clt@, r),
    {
        let key = clt.to_owned();
        let ci = match self.find_client(&key) {
            None => return Err(AHouseError::InvalidClient(key)),
            Some(i) => i,
        };
        let si = match self.find_stock(sv_tp) {
            None => return Err(AHouseError::OutOfStock(sv_tp)),
            Some(i) => i,
        };
        let e = self.stock[si];
        if e.1 == 0 {
            return Err(AHouseError::OutOfStock(sv_tp));
        }
        self.stock.set(si, (sv_tp, e.1 - 1, e.2));
        let ghost s1 = self.stock@;
        let d = Droplet::new_reserved(&mut self.ids, sv_tp, clt);
        let id = d.id();
        proof {
            lemma_apart_push(old(self).reserved_d@, old(self).reserved_a@, d, old(self).next_id());
            lemma_count_push(old(self).reserved_d@, d, sv_tp);
        }
        self.reserved_d.push(d);
        if sv_tp.auto_expires() {
            self.expiries.push((id, Task::new(EXPIRY_DELAY)));
        }
        let t = Transaction::new_purchase(sv_tp);
        self.clients[ci].record(t);
        proof {
            assert(self.reserved_d@.drop_last() =~= old(self).reserved_d@);
            lemma_entry_index(s1, si as int, sv_tp);
            assert forall|u: ServerType| u != sv_tp implies
                self.available(u) == old(self).available(u) by {
                if has_entry(old(self).stock@, u) {
                    lemma_entry_index(s1, entry_index(old(self).stock@, u), u);
                } else {
                    assert(!has_entry(s1, u));
                }
            }
            assert forall|u: ServerType| #[trigger] self.restocked(u) == old(self).restocked(u) by {
                if has_entry(old(self).stock@, u) {
                    lemma_entry_index(s1, entry_index(old(self).stock@, u), u);
                } else {
                    assert(!has_entry(s1, u));
                }
            }
            assert forall|u: ServerType| #[trigger]
                self.available(u) + self.reserved(u) == self.restocked(u) by {
                assert(old(self).available(u) + old(self).reserved(u) == old(self).restocked(u));
                lemma_count_push(old(self).reserved_d@, d, u);
            }
            assert forall|i: int, j: int|
                0 <= i < j < self.clients@.len() implies self.clients@[i].email_view()
                != self.clients@[j].email_view() by {
                assert(old(self).clients@[i].email_view() != old(self).clients@[j].email_view());
            }
            assert(self.clients@ =~= old(self).clients@.update(ci as int, self.clients@[ci as int]));
            assert(one_taken(*old(self), *self, sv_tp));
            if expires_automatically(sv_tp) {
                assert(self.expiries().drop_last() =~= old(self).expiries());
            }
        }
        Ok(id)
    }

    fn position_of(pool: &Vec<Droplet>, id: u32) -> (r: Option<usize>)
        requires
            ids_distinct(pool@),
        ensures
            r is Some <==> holds_id(pool@, id),
            r matches Some(k) ==> k == id_index(pool@, id) && k < pool@.len(),
    {
        let mut k: usize = 0;
        while k < pool.len()
            invariant
                k <= pool@.len(),
                ids_distinct(pool@),
                forall|j: int| 0 <= j < k ==> pool@[j].droplet_id() != id,
            decreases pool@.len() - k,
        {
            if pool[k].id() == id {
                proof {
                    lemma_id_index(pool@, k as int, id);
                }
                return Some(k);
            }
            k = k + 1;
        }
        None
    }

    /// Removes the reservation at `k` of one pool and puts its unit back in stock.
    fn release(&mut self, from_won: bool, k: usize)
        requires
            old(self).wf(),
            from_won ==> k < old(self).won().len(),
            !from_won ==> k < old(self).direct().len(),
        ensures
            final(self).wf(),
            released(*old(self), *final(self), from_won, k as int),
    {
        let d = if from_won {
            self.reserved_a.remove(k)
        } else {
            self.reserved_d.remove(k)
        };
        let st = d.server_type();
        proof {
            if from_won {
                lemma_count_positive(old(self).reserved_a@, k as int);
                lemma_count_remove(old(self).reserved_a@, k as int, st);
                lemma_apart_remove(old(self).reserved_a@, old(self).reserved_d@, k as int, self.ids.next_id());
            } else {
                lemma_count_positive(old(self).reserved_d@, k as int);
                lemma_count_remove(old(self).reserved_d@, k as int, st);
                lemma_apart_remove(old(self).reserved_d@, old(self).reserved_a@, k as int, self.ids.next_id());
            }
            assert(old(self).available(st) + old(self).reserved(st) == old(self).restocked(st));
        }
        match self.find_stock(st) {
            Some(si) => {
                let e = self.stock[si];
                self.stock.set(si, (st, e.1 + 1, e.2));
                proof {
                    let s0 = old(self).stock@;
                    lemma_entry_index(self.stock@, si as int, st);
                    assert forall|u: ServerType| u != st implies self.available(u)
                        == old(self).available(u) by {
                        if has_entry(s0, u) {
                            lemma_entry_index(self.stock@, entry_index(s0, u), u);
                        } else {
                            assert(!has_entry(self.stock@, u));
                        }
                    }
                    assert forall|u: ServerType| #[trigger] self.restocked(u)
                        == old(self).restocked(u) by {
                        if has_entry(s0, u) {
                            lemma_entry_index(self.stock@, entry_index(s0, u), u);
                        } else {
                            assert(!has_entry(self.stock@, u));
                        }
                    }
                    assert forall|u: ServerType| #[trigger]
                        self.available(u) + self.reserved(u) == self.restocked(u) by {
                        assert(old(self).available(u) + old(self).reserved(u) == old(self).restocked(u));
                        if from_won {
                            lemma_count_remove(old(self).reserved_a@, k as int, u);
                        } else {
                            lemma_count_remove(old(self).reserved_d@, k as int, u);
                        }
                    }
                    assert(one_released(*old(self), *self, st));
                }
            },
            None => {
                proof {
                    assert(false);
                }
            },
        }
    }

    /// Gives back the reservation `id` if it belongs to `ctl`; true when it did.
    pub fn drop_server(&mut self, ctl: &str, id: u32) -> (r: bool)
        requires
            old(self).wf(),
        ensures
            final(self).wf(),
            dropped(*old(self), *final(self), ctl@, id, r),
    {
        let key = ctl.to_owned();
        match Self::position_of(&self.reserved_d, id) {
            Some(k) => {
                if self.reserved_d[k].held_by(&key) {
                    self.release(false, k);
                    return true;
                }
            },
            None => {},
        }
        match Self::position_of(&self.reserved_a, id) {
            Some(k) => {
                if self.reserved_a[k].held_by(&key) {
                    self.release(true, k);
                    return true;
                }
            },
            None => {},
        }
        false
    }

    /// Releases the direct purchase `id`, whoever holds it; false when it is already
    /// gone. This is what a reservation's countdown does when it runs out.
    pub fn expire(&mut self, id: u32) -> (r: bool)
        requires
            old(self).wf(),
        ensures
            final(self).wf(),
            expired(*old(self), *final(self), id, r),
    {
        match Self::position_of(&self.reserved_d, id) {
            Some(k) => {
                self.release(false, k);
                true
            },
            None => false,
        }
    }

    fn find_auction(&self, st: ServerType) -> (r: Option<usize>)
        requires
            auctions_wf(self.running()),
        ensures
            r is Some <==> has_auction(self.running(), st),
            r matches Some(k) ==> k == auction_index(self.running(), st) && k
                < self.running().len(),
    {
        let mut k: usize = 0;
        while k < self.auctions.len()
            invariant
                k <= self.auctions@.len(),
                auctions_wf(self.auctions@),
                forall|j: int| 0 <= j < k ==> self.auctions@[j].kind() != st,
            decreases self.auctions@.len() - k,
        {
            if self.auctions[k].server_type() == st {
                proof {
                    lemma_auction_index(self.auctions@, k as int, st);
                }
                return Some(k);
            }
            k = k + 1;
        }
        None
    }

    /// Places `bid` on the auction for `server_type`, opening the auction if none is
    /// running. The session number `_id` is the caller's; the auction does not use it.
    pub fn auction(&mut self, server_type: ServerType, bid: Bid, _id: usize) -> (r: Result<
        (),
        AHouseError,
    >)
        requires
            old(self).wf(),
        ensures
            final(self).wf(),
            bid_placed(*old(self), *final(self), server_type, bid, r),
    {
        let bidder = bid.owner().to_owned();
        if self.find_client(&bidder).is_none() {
            return Err(AHouseError::InvalidClient(bidder));
        }
        match self.find_auction(server_type) {
            Some(k) => {
                let placed = self.auctions[k].bid(bid);
                proof {
                    assert forall|i: int| 0 <= i < self.auctions@.len() implies #[trigger]
                        self.auctions@[i].wf() by {
                        if i != k {
                            assert(self.auctions@[i] == old(self).auctions@[i]);
                        }
                    }
                    assert forall|i: int, j: int|
                        0 <= i < j < self.auctions@.len() implies self.auctions@[i].kind()
                        != self.auctions@[j].kind() by {
                        assert(old(self).auctions@[i].kind() != old(self).auctions@[j].kind());
                    }
                    lemma_units_frame(old(self), self);
                    assert(self.auctions@ =~= old(self).auctions@.update(k as int, self.auctions@[k as int]));
                }
                match placed {
                    Ok(()) => Ok(()),
                    Err(e) => {
                        proof {
                            assert(self.auctions@ =~= old(self).auctions@);
                        }
                        Err(AHouseError::from(e))
                    },
                }
            },
            None => {
                let a = Auction::new(server_type, bid);
                self.auctions.push(a);
                proof {
                    assert(self.auctions@.drop_last() =~= old(self).auctions@);
                    assert forall|i: int| 0 <= i < self.auctions@.len() implies #[trigger]
                        self.auctions@[i].wf() by {
                        if i < old(self).auctions@.len() {
                            assert(self.auctions@[i] == old(self).auctions@[i]);
                        }
                    }
                    assert forall|i: int, j: int|
                        0 <= i < j < self.auctions@.len() implies self.auctions@[i].kind()
                        != self.auctions@[j].kind() by {
                        if j == old(self).auctions@.len() {
                            assert(!has_auction(old(self).auctions@, server_type));
                            assert(self.auctions@[i] == old(self).auctions@[i]);
                        }
                    }
                    lemma_units_frame(old(self), self);
                }
                Ok(())
            },
        }
    }

    /// Turns `bid` into a reservation of one unit of `server_type` at the bid's value.
    pub fn buy_auctioned(&mut self, server_type: ServerType, bid: Bid) -> (r: Result<
        (),
        AHouseError,
    >)
        requires
            old(self).wf(),
            old(self).ids_left(),
        ensures
            final(self).wf(),
            final(self).running() == old(self).running(),
            won_by(*old(self), *final(self), server_type, bid, r),
    {
        let si = match self.find_stock(server_type) {
            None => return Err(AHouseError::OutOfStock(server_type)),
            Some(i) => i,
        };
        let e = self.stock[si];
        if e.1 == 0 {
            return Err(AHouseError::OutOfStock(server_type));
        }
        self.stock.set(si, (server_type, e.1 - 1, e.2));
        let ghost s1 = self.stock@;
        let d = Droplet::new_auctioned(&mut self.ids, server_type, bid.owner(), bid.value());
        proof {
            lemma_apart_push(old(self).reserved_a@, old(self).reserved_d@, d, old(self).next_id());
        }
        self.reserved_a.push(d);
        let winner = bid.owner().to_owned();
        match self.find_client(&winner) {
            Some(ci) => {
                let t = Transaction::new_auction(server_type, bid.value());
                self.clients[ci].record(t);
                proof {
                    assert forall|i: int, j: int|
                        0 <= i < j < self.clients@.len() implies self.clients@[i].email_view()
                        != self.clients@[j].email_view() by {
                        assert(old(self).clients@[i].email_view()
                            != old(self).clients@[j].email_view());
                    }
                    assert(self.clients@ =~= old(self).clients@.update(
                        ci as int,
                        self.clients@[ci as int],
                    ));
                }
            },
            None => {},
        }
        proof {
            assert(self.reserved_a@.drop_last() =~= old(self).reserved_a@);
            lemma_entry_index(s1, si as int, server_type);
            assert forall|u: ServerType| u != server_type implies self.available(u)
                == old(self).available(u) by {
                if has_entry(old(self).stock@, u) {
                    lemma_entry_index(s1, entry_index(old(self).stock@, u), u);
                } else {
                    assert(!has_entry(s1, u));
                }
            }
            assert forall|u: ServerType| #[trigger] self.restocked(u) == old(self).restocked(u) by {
                if has_entry(old(self).stock@, u) {
                    lemma_entry_index(s1, entry_index(old(self).stock@, u), u);
                } else {
                    assert(!has_entry(s1, u));
                }
            }
            assert forall|u: ServerType| #[trigger]
                self.available(u) + self.reserved(u) == self.restocked(u) by {
                assert(old(self).available(u) + old(self).reserved(u) == old(self).restocked(u));
                lemma_count_push(old(self).reserved_a@, d, u);
            }
            assert(one_taken(*old(self), *self, server_type));
        }
        Ok(())
    }

    /// Closes the auction for `server_type`, if one is running, and hands its unit to
    /// the highest bid. A failure here has no caller to go to: the auction is closed
    /// either way.
    pub fn settle(&mut self, server_type: ServerType) -> (r: Result<(), AHouseError>)
        requires
            old(self).wf(),
            old(self).ids_left(),
        ensures
            final(self).wf(),
            settled(*old(self), *final(self), server_type, r),
    {
        match self.find_auction(server_type) {
            None => Ok(()),
            Some(k) => {
                let a = self.auctions.remove(k);
                let top = a.highest_bid();
                proof {
                    let s = old(self).auctions@;
                    assert forall|i: int| 0 <= i < self.auctions@.len() implies #[trigger]
                        self.auctions@[i].wf() by {
                        if i < k {
                            assert(self.auctions@[i] == s[i]);
                        } else {
                            assert(self.auctions@[i] == s[i + 1]);
                        }
                    }
                    assert forall|i: int, j: int|
                        0 <= i < j < self.auctions@.len() implies self.auctions@[i].kind()
                        != self.auctions@[j].kind() by {
                        let i0 = if i < k { i } else { i + 1 };
                        let j0 = if j < k { j } else { j + 1 };
                        assert(self.auctions@[i] == s[i0]);
                        assert(self.auctions@[j] == s[j0]);
                    }
                    lemma_units_frame(old(self), self);
                }
                self.buy_auctioned(server_type, top)
            },
        }
    }

    /// Carries out what a countdown asked for: a settlement or a release. True when
    /// a unit changed hands.
    pub fn fire(&mut self, ev: Event) -> (r: bool)
        requires
            old(self).wf(),
            old(self).ids_left(),
        ensures
            final(self).wf(),
            match ev {
                Event::Settle(st) => exists|x: Result<(), AHouseError>|
                    settled(*old(self), *final(self), st, x) && r == (has_auction(
                        old(self).running(),
                        st,
                    ) && x is Ok),
                Event::Expire(id) => expired(*old(self), *final(self), id, r),
            },
    {
        match ev {
            Event::Settle(st) => {
                let running = self.find_auction(st).is_some();
                let out = self.settle(st);
                running && out.is_ok()
            },
            Event::Expire(id) => self.expire(id),
        }
    }

    /// Advances every countdown by one tick, and returns what falls due, in order:
    /// first the auctions that close, then the releases. Releases that fall due leave
    /// the schedule; auctions stay until they are settled.
    pub fn advance(&mut self) -> (r: Vec<Event>)
        requires
            old(self).wf(),
        ensures
            final(self).wf(),
            r@ == closing(old(self).running()) + due(old(self).expiries()),
            final(self).running().len() == old(self).running().len(),
            forall|k: int|
                0 <= k < old(self).running().len() ==> {
                    &&& (#[trigger] final(self).running()[k]).kind() == old(self).running()[k].kind()
                    &&& final(self).running()[k].bid_seq() == old(self).running()[k].bid_seq()
                    &&& ticked(old(self).running()[k].timer(), final(self).running()[k].timer())
                },
            kept_after_tick(old(self).expiries(), final(self).expiries()),
            final(self).stock_entries() == old(self).stock_entries(),
            final(self).direct() == old(self).direct(),
            final(self).won() == old(self).won(),
            final(self).accounts() == old(self).accounts(),
            final(self).next_id() == old(self).next_id(),
    {
        let mut events: Vec<Event> = Vec::new();
        let ghost a0 = self.auctions@;
        let mut k: usize = 0;
        while k < self.auctions.len()
            invariant
                k <= self.auctions@.len(),
                self.auctions@.len() == a0.len(),
                auctions_wf(a0),
                events@ == closing(a0.take(k as int)),
                forall|j: int|
                    0 <= j < a0.len() ==> {
                        &&& (#[trigger] self.auctions@[j]).kind() == a0[j].kind()
                        &&& self.auctions@[j].bid_seq() == a0[j].bid_seq()
                    },
                forall|j: int| 0 <= j < k ==> ticked(a0[j].timer(), #[trigger] self.auctions@[j].timer()),
                forall|j: int| k <= j < a0.len() ==> #[trigger] self.auctions@[j] == a0[j],
                self.stock@ == old(self).stock@,
                self.reserved_a@ == old(self).reserved_a@,
                self.reserved_d@ == old(self).reserved_d@,
                self.clients@ == old(self).clients@,
                self.expiries@ == old(self).expiries@,
                self.ids == old(self).ids,
            decreases a0.len() - k,
        {
            let st = self.auctions[k].server_type();
            let closes = self.auctions[k].tick();
            proof {
                assert(a0.take(k as int + 1).drop_last() =~= a0.take(k as int));
                assert(a0.take(k as int + 1).last() == a0[k as int]);
            }
            if closes {
                events.push(Event::Settle(st));
            }
            k = k + 1;
        }
        proof {
            assert(a0.take(a0.len() as int) =~= a0);
        }
        let ghost settles = events@;
        let mut pending: Vec<Expiry> = Vec::new();
        std::mem::swap(&mut pending, &mut self.expiries);
        let mut kept: Vec<Expiry> = Vec::new();
        let mut j: usize = 0;
        while j < pending.len()
            invariant
                j <= pending@.len(),
                pending@ == old(self).expiries@,
                self.stock@ == old(self).stock@,
                self.reserved_a@ == old(self).reserved_a@,
                self.reserved_d@ == old(self).reserved_d@,
                self.clients@ == old(self).clients@,
                self.ids == old(self).ids,
                self.auctions@.len() == a0.len(),
                forall|i: int|
                    0 <= i < a0.len() ==> {
                        &&& (#[trigger] self.auctions@[i]).kind() == a0[i].kind()
                        &&& self.auctions@[i].bid_seq() == a0[i].bid_seq()
                        &&& ticked(a0[i].timer(), self.auctions@[i].timer())
                    },
                events@ == settles + due(pending@.take(j as int)),
                kept_after_tick(pending@.take(j as int), kept@),
            decreases pending@.len() - j,
        {
            let mut e = pending[j];
            let fires = e.1.tick();
            proof {
                assert(pending@.take(j as int + 1).drop_last() =~= pending@.take(j as int));
                assert(pending@.take(j as int + 1).last() == pending@[j as int]);
            }
            if fires {
                events.push(Event::Expire(e.0));
                proof {
                    assert(events@ =~= settles + due(pending@.take(j as int + 1)));
                }
            } else {
                let ghost before = kept@;
                kept.push(e);
                proof {
                    assert(kept@.drop_last() =~= before);
                }
            }
            j = j + 1;
        }
        proof {
            assert(pending@.take(pending@.len() as int) =~= pending@);
        }
        self.expiries = kept;
        proof {
            assert forall|i: int| 0 <= i < self.auctions@.len() implies #[trigger]
                self.auctions@[i].wf() by {
                assert(a0[i].wf());
            }
            lemma_units_frame(old(self), self);
        }
        events
    }

    fn collect_owned(pool: &Vec<Droplet>, owner: &String, out: &mut Vec<Droplet>)
        ensures
            final(out)@ == old(out)@ + owned_by(pool@, owner@),
    {
        let ghost start = out@;
        let mut k: usize = 0;
        while k < pool.len()
            invariant
                k <= pool@.len(),
                out@ == start + owned_by(pool@.take(k as int), owner@),
            decreases pool@.len() - k,
        {
            proof {
                assert(pool@.take(k as int + 1).drop_last() =~= pool@.take(k as int));
                assert(pool@.take(k as int + 1).last() == pool@[k as int]);
            }
            if pool[k].held_by(owner) {
                out.push(pool[k].clone());
                proof {
                    assert(out@ =~= start + owned_by(pool@.take(k as int + 1), owner@));
                }
            }
            k = k + 1;
        }
        proof {
            assert(pool@.take(pool@.len() as int) =~= pool@);
        }
    }

    /// The reservations that `clt` holds: direct purchases first, then units won at
    /// auction, each in the order they were made.
    pub fn ls_m(&self, clt: &str) -> (r: Vec<Droplet>)
        ensures
            r@ == owned_by(self.direct(), clt@) + owned_by(self.won(), clt@),
    {
        let key = clt.to_owned();
        let mut r: Vec<Droplet> = Vec::new();
        Self::collect_owned(&self.reserved_d, &key, &mut r);
        Self::collect_owned(&self.reserved_a, &key, &mut r);
        proof {
            assert(Seq::<Droplet>::empty() + owned_by(self.direct(), clt@) =~= owned_by(self.direct(), clt@));
        }
        r
    }
}

} // verus!
