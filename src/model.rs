//! What the auction house holds, seen as sequences, and what each of its
//! operations does to it.

use vstd::prelude::*;
use crate::auction::{Auction, AUCTION_DELAY};
use crate::auction_house::{AHouseError, AuctionHouse, Event, Expiry, StockEntry, EXPIRY_DELAY};
use crate::bid::Bid;
use crate::client::Client;
use crate::droplet::Droplet;
use crate::server_type::{ServerType, price_of, expires_automatically};
use crate::task::Task;
use crate::transaction::Transaction;

verus! {

/// Whether the stock has an entry for `st`.
pub open spec fn has_entry(s: Seq<StockEntry>, st: ServerType) -> bool {
    exists|i: int| 0 <= i < s.len() && s[i].0 == st
}

/// Where the entry for `st` stands in the stock.
pub open spec fn entry_index(s: Seq<StockEntry>, st: ServerType) -> int {
    choose|i: int| 0 <= i < s.len() && s[i].0 == st
}

/// At most one stock entry per type.
pub open spec fn keys_unique(s: Seq<StockEntry>) -> bool {
    forall|i: int, j: int| 0 <= i < j < s.len() ==> s[i].0 != s[j].0
}

/// The stock after one more unit of `st` arrives.
pub open spec fn restock_entries(s: Seq<StockEntry>, st: ServerType) -> Seq<StockEntry> {
    if has_entry(s, st) {
        let i = entry_index(s, st);
        s.update(i, (st, (s[i].1 + 1) as u32, (s[i].2 + 1) as u32))
    } else {
        s.push((st, 1u32, 1u32))
    }
}

/// How many reservations in `s` are of type `st`.
pub open spec fn count_kind(s: Seq<Droplet>, st: ServerType) -> nat
    decreases s.len(),
{
    if s.len() == 0 {
        0
    } else {
        count_kind(s.drop_last(), st) + if s.last().kind() == st {
            1nat
        } else {
            0nat
        }
    }
}

/// Every id in `s` is below `bound`.
pub open spec fn ids_below(s: Seq<Droplet>, bound: nat) -> bool {
    forall|i: int| 0 <= i < s.len() ==> s[i].droplet_id() < bound
}

/// No two reservations in `s` share an id.
pub open spec fn ids_distinct(s: Seq<Droplet>) -> bool {
    forall|i: int, j: int| 0 <= i < j < s.len() ==> s[i].droplet_id() != s[j].droplet_id()
}

/// No id occurs in both `a` and `b`.
pub open spec fn ids_apart(a: Seq<Droplet>, b: Seq<Droplet>) -> bool {
    forall|i: int, j: int|
        0 <= i < a.len() && 0 <= j < b.len() ==> a[i].droplet_id() != b[j].droplet_id()
}

/// No two accounts share an email.
pub open spec fn emails_unique(s: Seq<Client>) -> bool {
    forall|i: int, j: int| 0 <= i < j < s.len() ==> s[i].email_view() != s[j].email_view()
}

/// Every running auction is well formed, and no two are for the same type.
pub open spec fn auctions_wf(s: Seq<Auction>) -> bool {
    &&& forall|i: int| 0 <= i < s.len() ==> s[i].wf()
    &&& forall|i: int, j: int| 0 <= i < j < s.len() ==> s[i].kind() != s[j].kind()
}

/// Appending a reservation counts it once, under its own type.
pub(crate) proof fn lemma_count_push(s: Seq<Droplet>, d: Droplet, st: ServerType)
    ensures
        count_kind(s.push(d), st) == count_kind(s, st) + if d.kind() == st {
            1nat
        } else {
            0nat
        },
{
    assert(s.push(d).drop_last() =~= s);
}

/// Removing a reservation uncounts it once, under its own type.
pub(crate) proof fn lemma_count_remove(s: Seq<Droplet>, i: int, st: ServerType)
    requires
        0 <= i < s.len(),
    ensures
        count_kind(s.remove(i), st) + (if s[i].kind() == st {
            1nat
        } else {
            0nat
        }) == count_kind(s, st),
    decreases s.len(),
{
    if i == s.len() - 1 {
        assert(s.remove(i) =~= s.drop_last());
    } else {
        let t = s.drop_last();
        lemma_count_remove(t, i, st);
        assert(s.remove(i) =~= t.remove(i).push(s.last()));
        lemma_count_push(t.remove(i), s.last(), st);
    }
}

/// With unique keys, the entry found for `st` is the one at `i`.
pub(crate) proof fn lemma_entry_index(s: Seq<StockEntry>, i: int, st: ServerType)
    requires
        keys_unique(s),
        0 <= i < s.len(),
        s[i].0 == st,
    ensures
        has_entry(s, st),
        entry_index(s, st) == i,
{
    assert(has_entry(s, st));
}

/// What `register(email, password)` does: a taken email is refused and nothing
/// changes; otherwise a new account with an empty history is appended and a copy of
/// it returned.
pub open spec fn signed_up(
    old: AuctionHouse,
    new: AuctionHouse,
    email: Seq<char>,
    password: Seq<char>,
    r: Result<Client, AHouseError>,
) -> bool {
    if old.is_registered(email) {
        &&& new == old
        &&& r matches Err(AHouseError::EmailTaken(e)) && e@ == email
    } else {
        &&& r matches Ok(c) && c.email_view() == email && c.password_view() == password
            && c.history_view() == Seq::<Transaction>::empty()
        &&& new.accounts().len() == old.accounts().len() + 1
        &&& new.accounts().drop_last() == old.accounts()
        &&& r->Ok_0.same_as(&new.accounts().last())
        &&& new.stock_entries() == old.stock_entries()
        &&& new.running() == old.running()
        &&& new.won() == old.won()
        &&& new.direct() == old.direct()
        &&& new.expiries() == old.expiries()
        &&& new.next_id() == old.next_id()
    }
}

/// `b` is `a` with its history extended by a purchase of `st` at list price.
pub open spec fn purchase_recorded(a: Client, b: Client, st: ServerType) -> bool {
    let t = b.history_view().last();
    &&& a.recorded(&b, t)
    &&& t.kind() == st
    &&& t.paid() == price_of(st)
    &&& !t.by_auction()
}

/// `b` is `a` with its history extended by a unit of `st` won for `value`.
pub open spec fn win_recorded(a: Client, b: Client, st: ServerType, value: i32) -> bool {
    let t = b.history_view().last();
    &&& a.recorded(&b, t)
    &&& t.kind() == st
    &&& t.paid() == value
    &&& t.by_auction()
}

/// The stock `a` with one unit of `st` taken.
pub open spec fn taken_entries(a: Seq<StockEntry>, st: ServerType) -> Seq<StockEntry> {
    let i = entry_index(a, st);
    a.update(i, (st, (a[i].1 - 1) as u32, a[i].2))
}

/// `new` counts one unit of `st` fewer than `old` as available, and the same otherwise.
pub open spec fn one_taken(old: AuctionHouse, new: AuctionHouse, st: ServerType) -> bool {
    &&& new.stock_entries() == taken_entries(old.stock_entries(), st)
    &&& new.available(st) + 1 == old.available(st)
    &&& forall|t: ServerType| #[trigger] new.restocked(t) == old.restocked(t)
    &&& forall|t: ServerType| t != st ==> #[trigger] new.available(t) == old.available(t)
}

/// `new` counts one unit of `st` more than `old` as available, and the same otherwise.
pub open spec fn one_released(old: AuctionHouse, new: AuctionHouse, st: ServerType) -> bool {
    &&& new.stock_entries() == returned_entries(old.stock_entries(), st)
    &&& new.available(st) == old.available(st) + 1
    &&& forall|t: ServerType| #[trigger] new.restocked(t) == old.restocked(t)
    &&& forall|t: ServerType| t != st ==> #[trigger] new.available(t) == old.available(t)
}

/// The stock `a` with one unit of `st` given back.
pub open spec fn returned_entries(a: Seq<StockEntry>, st: ServerType) -> Seq<StockEntry> {
    let i = entry_index(a, st);
    a.update(i, (st, (a[i].1 + 1) as u32, a[i].2))
}

/// What `buy(st, clt)` does: it fails for an unknown account, then for a type with
/// nothing available, and otherwise takes one unit, files a reservation under the next
/// id, schedules its release when the type expires automatically, and records the
/// purchase in the buyer's history.
pub open spec fn bought(
    old: AuctionHouse,
    new: AuctionHouse,
    st: ServerType,
    clt: Seq<char>,
    r: Result<u32, AHouseError>,
) -> bool {
    if !old.is_registered(clt) {
        &&& new == old
        &&& r matches Err(AHouseError::InvalidClient(e)) && e@ == clt
    } else if old.available(st) == 0 {
        &&& new == old
        &&& r == Err::<u32, AHouseError>(AHouseError::OutOfStock(st))
    } else {
        let id = old.next_id();
        let i = old.account_index(clt);
        let d = new.direct().last();
        &&& r == Ok::<u32, AHouseError>(id as u32)
        &&& new.next_id() == id + 1
        &&& one_taken(old, new, st)
        &&& new.direct().len() == old.direct().len() + 1
        &&& new.direct().drop_last() == old.direct()
        &&& d.droplet_id() == id && d.kind() == st && d.holder() == clt && d.price_paid()
            == price_of(st)
        &&& new.won() == old.won()
        &&& new.running() == old.running()
        &&& if expires_automatically(st) {
            &&& new.expiries().len() == old.expiries().len() + 1
            &&& new.expiries().drop_last() == old.expiries()
            &&& new.expiries().last().0 == id
            &&& new.expiries().last().1.pending_ticks() == EXPIRY_DELAY
            &&& !new.expiries().last().1.has_fired()
        } else {
            new.expiries() == old.expiries()
        }
        &&& new.accounts() == old.accounts().update(i, new.accounts()[i])
        &&& purchase_recorded(old.accounts()[i], new.accounts()[i], st)
    }
}

/// Whether some reservation in `s` has this id.
pub open spec fn holds_id(s: Seq<Droplet>, id: u32) -> bool {
    exists|i: int| 0 <= i < s.len() && s[i].droplet_id() == id
}

/// Where the reservation with this id stands in `s`.
pub open spec fn id_index(s: Seq<Droplet>, id: u32) -> int {
    choose|i: int| 0 <= i < s.len() && s[i].droplet_id() == id
}

/// Whether `s` holds a reservation with this id that belongs to `owner`.
pub open spec fn owns(s: Seq<Droplet>, owner: Seq<char>, id: u32) -> bool {
    holds_id(s, id) && s[id_index(s, id)].holder() == owner
}

/// `new` is `old` with the reservation at `k` of one pool (the auction pool when
/// `from_won`) removed and its unit back in stock; nothing else differs.
pub open spec fn released(old: AuctionHouse, new: AuctionHouse, from_won: bool, k: int) -> bool {
    &&& if from_won {
        &&& new.won() == old.won().remove(k)
        &&& new.direct() == old.direct()
        &&& one_released(old, new, old.won()[k].kind())
    } else {
        &&& new.direct() == old.direct().remove(k)
        &&& new.won() == old.won()
        &&& one_released(old, new, old.direct()[k].kind())
    }
    &&& new.running() == old.running()
    &&& new.accounts() == old.accounts()
    &&& new.expiries() == old.expiries()
    &&& new.next_id() == old.next_id()
}

/// What `drop_server(owner, id)` does: when `owner` holds a reservation with this id,
/// in either pool, it is removed and its unit goes back to stock; otherwise nothing
/// changes and the answer is false.
pub open spec fn dropped(
    old: AuctionHouse,
    new: AuctionHouse,
    owner: Seq<char>,
    id: u32,
    r: bool,
) -> bool {
    &&& r == (owns(old.direct(), owner, id) || owns(old.won(), owner, id))
    &&& if owns(old.direct(), owner, id) {
        released(old, new, false, id_index(old.direct(), id))
    } else if owns(old.won(), owner, id) {
        released(old, new, true, id_index(old.won(), id))
    } else {
        new == old
    }
}

/// What `expire(id)` does: when a direct purchase with this id is still held, by
/// anyone, it is removed and its unit goes back to stock; otherwise nothing changes.
pub open spec fn expired(old: AuctionHouse, new: AuctionHouse, id: u32, r: bool) -> bool {
    &&& r == holds_id(old.direct(), id)
    &&& if r {
        released(old, new, false, id_index(old.direct(), id))
    } else {
        new == old
    }
}

/// Whether a running auction in `s` is for `st`.
pub open spec fn has_auction(s: Seq<Auction>, st: ServerType) -> bool {
    exists|i: int| 0 <= i < s.len() && s[i].kind() == st
}

/// Where the running auction for `st` stands in `s`.
pub open spec fn auction_index(s: Seq<Auction>, st: ServerType) -> int {
    choose|i: int| 0 <= i < s.len() && s[i].kind() == st
}

/// Stock, reservations, accounts, pending releases and ids are the same.
pub open spec fn same_but_auctions(old: AuctionHouse, new: AuctionHouse) -> bool {
    &&& new.stock_entries() == old.stock_entries()
    &&& new.direct() == old.direct()
    &&& new.won() == old.won()
    &&& new.accounts() == old.accounts()
    &&& new.expiries() == old.expiries()
    &&& new.next_id() == old.next_id()
}

/// What `auction(st, bid, _)` does: it fails for an unknown bidder; with an auction
/// for `st` running, it takes the bid only if it beats the highest one; with none, it
/// opens one on this bid.
pub open spec fn bid_placed(
    old: AuctionHouse,
    new: AuctionHouse,
    st: ServerType,
    bid: Bid,
    r: Result<(), AHouseError>,
) -> bool {
    if !old.is_registered(bid.bidder()) {
        &&& new == old
        &&& r matches Err(AHouseError::InvalidClient(e)) && e@ == bid.bidder()
    } else if has_auction(old.running(), st) {
        let k = auction_index(old.running(), st);
        let a = old.running()[k];
        if bid.bid_value() > a.top().bid_value() {
            &&& r == Ok::<(), AHouseError>(())
            &&& same_but_auctions(old, new)
            &&& new.running() == old.running().update(k, new.running()[k])
            &&& new.running()[k].kind() == st
            &&& new.running()[k].bid_seq() == a.bid_seq().push(bid)
            &&& new.running()[k].timer() == a.timer()
        } else {
            &&& r == Err::<(), AHouseError>(AHouseError::BidTooLow)
            &&& same_but_auctions(old, new)
            &&& new.running() == old.running()
        }
    } else {
        let a = new.running().last();
        &&& r == Ok::<(), AHouseError>(())
        &&& same_but_auctions(old, new)
        &&& new.running().len() == old.running().len() + 1
        &&& new.running().drop_last() == old.running()
        &&& a.kind() == st
        &&& a.bid_seq() == seq![bid]
        &&& a.timer().pending_ticks() == AUCTION_DELAY
        &&& !a.timer().has_fired()
    }
}

/// What settling a unit of `st` on `bid` does to everything but the running auctions:
/// with nothing available it fails and changes nothing; otherwise it takes one unit,
/// files a reservation for the bidder at the bid's value under the next id, and
/// records the win in the bidder's history when the bidder has an account.
pub open spec fn won_by(
    old: AuctionHouse,
    new: AuctionHouse,
    st: ServerType,
    bid: Bid,
    r: Result<(), AHouseError>,
) -> bool {
    if old.available(st) == 0 {
        &&& r == Err::<(), AHouseError>(AHouseError::OutOfStock(st))
        &&& same_but_auctions(old, new)
    } else {
        let id = old.next_id();
        let d = new.won().last();
        &&& r == Ok::<(), AHouseError>(())
        &&& new.next_id() == id + 1
        &&& one_taken(old, new, st)
        &&& new.won().len() == old.won().len() + 1
        &&& new.won().drop_last() == old.won()
        &&& d.droplet_id() == id && d.kind() == st && d.holder() == bid.bidder() && d.price_paid()
            == bid.bid_value()
        &&& new.direct() == old.direct()
        &&& new.expiries() == old.expiries()
        &&& if old.is_registered(bid.bidder()) {
            let i = old.account_index(bid.bidder());
            &&& new.accounts() == old.accounts().update(i, new.accounts()[i])
            &&& win_recorded(old.accounts()[i], new.accounts()[i], st, bid.bid_value())
        } else {
            new.accounts() == old.accounts()
        }
    }
}

/// What `settle(st)` does: with no auction for `st` running, nothing; otherwise the
/// auction is closed and its highest bid wins a unit, if one is available.
pub open spec fn settled(
    old: AuctionHouse,
    new: AuctionHouse,
    st: ServerType,
    r: Result<(), AHouseError>,
) -> bool {
    if !has_auction(old.running(), st) {
        &&& new == old
        &&& r == Ok::<(), AHouseError>(())
    } else {
        let k = auction_index(old.running(), st);
        &&& new.running() == old.running().remove(k)
        &&& won_by(old, new, st, old.running()[k].top(), r)
    }
}

/// `b` is `a` one tick later.
pub open spec fn ticked(a: Task, b: Task) -> bool {
    &&& b.pending_ticks() == a.ticked_delay()
    &&& b.has_fired() == (a.has_fired() || a.fires_on_tick())
}

/// The settlements that the next tick brings, in the order of the auctions.
pub open spec fn closing(s: Seq<Auction>) -> Seq<Event>
    decreases s.len(),
{
    if s.len() == 0 {
        Seq::empty()
    } else {
        let e = closing(s.drop_last());
        if s.last().timer().fires_on_tick() {
            e.push(Event::Settle(s.last().kind()))
        } else {
            e
        }
    }
}

/// The releases that the next tick brings, in the order they were scheduled.
pub open spec fn due(s: Seq<Expiry>) -> Seq<Event>
    decreases s.len(),
{
    if s.len() == 0 {
        Seq::empty()
    } else {
        let e = due(s.drop_last());
        if s.last().1.fires_on_tick() {
            e.push(Event::Expire(s.last().0))
        } else {
            e
        }
    }
}

/// `new` holds, in order and one tick later, the releases of `old` that the tick does
/// not bring.
pub open spec fn kept_after_tick(old: Seq<Expiry>, new: Seq<Expiry>) -> bool
    decreases old.len(),
{
    if old.len() == 0 {
        new.len() == 0
    } else if old.last().1.fires_on_tick() {
        kept_after_tick(old.drop_last(), new)
    } else {
        &&& new.len() > 0
        &&& new.last().0 == old.last().0
        &&& ticked(old.last().1, new.last().1)
        &&& kept_after_tick(old.drop_last(), new.drop_last())
    }
}

/// The reservations in `s` that `owner` holds, in order.
pub open spec fn owned_by(s: Seq<Droplet>, owner: Seq<char>) -> Seq<Droplet>
    decreases s.len(),
{
    if s.len() == 0 {
        Seq::empty()
    } else {
        let r = owned_by(s.drop_last(), owner);
        if s.last().holder() == owner {
            r.push(s.last())
        } else {
            r
        }
    }
}

/// With one auction per type, the auction found for `st` is the one at `i`.
pub(crate) proof fn lemma_auction_index(s: Seq<Auction>, i: int, st: ServerType)
    requires
        auctions_wf(s),
        0 <= i < s.len(),
        s[i].kind() == st,
    ensures
        has_auction(s, st),
        auction_index(s, st) == i,
{
    assert(has_auction(s, st));
}

/// With distinct ids, the reservation found for `id` is the one at `i`.
pub(crate) proof fn lemma_id_index(s: Seq<Droplet>, i: int, id: u32)
    requires
        ids_distinct(s),
        0 <= i < s.len(),
        s[i].droplet_id() == id,
    ensures
        holds_id(s, id),
        id_index(s, id) == i,
{
    assert(holds_id(s, id));
}

/// A reservation in `s` is counted under its type.
pub(crate) proof fn lemma_count_positive(s: Seq<Droplet>, k: int)
    requires
        0 <= k < s.len(),
    ensures
        count_kind(s, s[k].kind()) >= 1,
{
    lemma_count_remove(s, k, s[k].kind());
}

/// Appending a reservation under the next id keeps ids fresh and the pools apart.
pub(crate) proof fn lemma_apart_push(a: Seq<Droplet>, b: Seq<Droplet>, d: Droplet, bound: nat)
    requires
        ids_below(a, bound),
        ids_below(b, bound),
        ids_distinct(a),
        ids_apart(a, b),
        d.droplet_id() == bound,
    ensures
        ids_below(a.push(d), bound + 1),
        ids_below(b, bound + 1),
        ids_distinct(a.push(d)),
        ids_apart(a.push(d), b),
        ids_apart(b, a.push(d)),
{
    assert forall|i: int, j: int|
        0 <= i < b.len() && 0 <= j < a.push(d).len() implies b[i].droplet_id() != a.push(
        d,
    )[j].droplet_id() by {
        if j < a.len() {
            assert(a.push(d)[j] == a[j]);
        }
    }
}

/// Removing a reservation keeps ids fresh and the pools apart, and its id is gone.
pub(crate) proof fn lemma_apart_remove(a: Seq<Droplet>, b: Seq<Droplet>, k: int, bound: nat)
    requires
        ids_below(a, bound),
        ids_distinct(a),
        ids_apart(a, b),
        0 <= k < a.len(),
    ensures
        ids_below(a.remove(k), bound),
        ids_distinct(a.remove(k)),
        ids_apart(a.remove(k), b),
        ids_apart(b, a.remove(k)),
        forall|i: int| 0 <= i < a.remove(k).len() ==> a.remove(k)[i].droplet_id() != a[k].droplet_id(),
{
    let r = a.remove(k);
    assert forall|i: int| 0 <= i < r.len() implies r[i] == if i < k {
        a[i]
    } else {
        a[i + 1]
    } by {}
}

/// What `wf` asks of the stock and the reservations carries over to a state whose
/// stock and reservations are the same.
pub(crate) proof fn lemma_units_frame(a: &AuctionHouse, b: &AuctionHouse)
    requires
        a.wf(),
        b.stock_entries() == a.stock_entries(),
        b.direct() == a.direct(),
        b.won() == a.won(),
        b.next_id() == a.next_id(),
        emails_unique(b.accounts()),
        auctions_wf(b.running()),
    ensures
        b.wf(),
{
    assert forall|t: ServerType| #[trigger]
        b.available(t) + b.reserved(t) == b.restocked(t) by {
        assert(a.available(t) + a.reserved(t) == a.restocked(t));
    }
}

} // verus!
