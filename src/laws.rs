use vstd::prelude::*;
use crate::auction_house::{AHouseError, AuctionHouse};
use crate::model::{
    bought, dropped, expired, holds_id, id_index, ids_apart, ids_distinct, owns,
    purchase_recorded,
};
use crate::droplet::Droplet;
use crate::server_type::ServerType;

verus! {

/// For every server type, the units available and the units held in reservations
/// add up to the units ever restocked. Every operation keeps `wf`, so this holds
/// between any two operations.
pub proof fn units_are_conserved(h: &AuctionHouse, st: ServerType)
    requires
        h.wf(),
    ensures
        h.available(st) + h.reserved(st) == h.restocked(st),
{
}

/// A purchase leaves every registered account registered.
proof fn lemma_buy_keeps_accounts(
    h0: AuctionHouse,
    h1: AuctionHouse,
    st: ServerType,
    clt: Seq<char>,
    r: Result<u32, AHouseError>,
    e: Seq<char>,
)
    requires
        bought(h0, h1, st, clt, r),
        h0.is_registered(e),
    ensures
        h1.is_registered(e),
{
    if h0.is_registered(clt) && h0.available(st) > 0 {
        let i = h0.account_index(clt);
        let j = h0.account_index(e);
        assert(purchase_recorded(h0.accounts()[i], h1.accounts()[i], st));
        assert(h1.accounts()[j].email_view() == e);
    }
}

proof fn lemma_sold_out(
    states: Seq<AuctionHouse>,
    st: ServerType,
    buyers: Seq<Seq<char>>,
    results: Seq<Result<u32, AHouseError>>,
    n: int,
)
    requires
        buyers.len() >= 1,
        states.len() == buyers.len() + 1,
        results.len() == buyers.len(),
        states[0].available(st) == 1,
        forall|i: int| 0 <= i < buyers.len() ==> states[0].is_registered(#[trigger] buyers[i]),
        forall|i: int|
            0 <= i < buyers.len() ==> bought(
                #[trigger] states[i],
                states[i + 1],
                st,
                buyers[i],
                results[i],
            ),
        1 <= n <= buyers.len(),
    ensures
        states[n].available(st) == 0,
        forall|i: int| 0 <= i < buyers.len() ==> states[n].is_registered(#[trigger] buyers[i]),
        results[n - 1] is Ok <==> n == 1,
    decreases n,
{
    assert(bought(states[n - 1], states[n], st, buyers[n - 1], results[n - 1]));
    if n == 1 {
        assert forall|i: int| 0 <= i < buyers.len() implies states[1].is_registered(
            #[trigger] buyers[i],
        ) by {
            lemma_buy_keeps_accounts(states[0], states[1], st, buyers[0], results[0], buyers[i]);
        }
    } else {
        lemma_sold_out(states, st, buyers, results, n - 1);
        assert(states[n - 1].is_registered(buyers[n - 1]));
    }
}

/// When buyers race for the last unit of a type, the first purchase to run takes it
/// and every later one fails with `OutOfStock`. The purchases run one after another,
/// each on the state the previous one left, and every buyer has an account.
pub proof fn last_unit_goes_to_one_buyer(
    states: Seq<AuctionHouse>,
    st: ServerType,
    buyers: Seq<Seq<char>>,
    results: Seq<Result<u32, AHouseError>>,
)
    requires
        buyers.len() >= 1,
        states.len() == buyers.len() + 1,
        results.len() == buyers.len(),
        states[0].wf(),
        states[0].available(st) == 1,
        forall|i: int| 0 <= i < buyers.len() ==> states[0].is_registered(#[trigger] buyers[i]),
        forall|i: int|
            0 <= i < buyers.len() ==> bought(
                #[trigger] states[i],
                states[i + 1],
                st,
                buyers[i],
                results[i],
            ),
    ensures
        results[0] is Ok,
        forall|i: int|
            1 <= i < buyers.len() ==> #[trigger] results[i] == Err::<u32, AHouseError>(
                AHouseError::OutOfStock(st),
            ),
{
    lemma_sold_out(states, st, buyers, results, 1);
    assert forall|i: int| 1 <= i < buyers.len() implies #[trigger] results[i] == Err::<
        u32,
        AHouseError,
    >(AHouseError::OutOfStock(st)) by {
        lemma_sold_out(states, st, buyers, results, i);
        assert(bought(states[i], states[i + 1], st, buyers[i], results[i]));
    }
}

/// An account cannot drop a reservation that another account holds: the answer is
/// false and nothing changes.
pub proof fn drop_needs_the_owner(
    h0: AuctionHouse,
    h1: AuctionHouse,
    caller: Seq<char>,
    id: u32,
    r: bool,
)
    requires
        h0.wf(),
        dropped(h0, h1, caller, id, r),
        holds_id(h0.direct(), id) && h0.direct()[id_index(h0.direct(), id)].holder() != caller
            || holds_id(h0.won(), id) && h0.won()[id_index(h0.won(), id)].holder() != caller,
    ensures
        !r,
        h1 == h0,
{
    lemma_pools_apart(h0, id);
}

/// A reservation id is in at most one of the two pools.
proof fn lemma_pools_apart(h: AuctionHouse, id: u32)
    requires
        h.wf(),
    ensures
        !(holds_id(h.direct(), id) && holds_id(h.won(), id)),
{
    if holds_id(h.direct(), id) && holds_id(h.won(), id) {
        let i = id_index(h.direct(), id);
        let j = id_index(h.won(), id);
        assert(ids_apart(h.direct(), h.won()));
        assert(h.direct()[i].droplet_id() != h.won()[j].droplet_id());
    }
}

/// After a successful removal, no reservation with that id is left in the pool.
proof fn lemma_gone_after_remove(s: Seq<Droplet>, id: u32)
    requires
        ids_distinct(s),
        holds_id(s, id),
    ensures
        !holds_id(s.remove(id_index(s, id)), id),
{
    let k = id_index(s, id);
    let t = s.remove(k);
    if holds_id(t, id) {
        let j = id_index(t, id);
        if j < k {
            assert(t[j] == s[j]);
        } else {
            assert(t[j] == s[j + 1]);
        }
    }
}

/// Dropping a reservation succeeds once, for its owner: a second drop of the same id
/// answers false.
pub proof fn drop_succeeds_once(
    h0: AuctionHouse,
    h1: AuctionHouse,
    h2: AuctionHouse,
    owner: Seq<char>,
    id: u32,
    r1: bool,
    r2: bool,
)
    requires
        h0.wf(),
        dropped(h0, h1, owner, id, r1),
        dropped(h1, h2, owner, id, r2),
    ensures
        r1 == (owns(h0.direct(), owner, id) || owns(h0.won(), owner, id)),
        !r2,
{
    lemma_pools_apart(h0, id);
    if owns(h0.direct(), owner, id) {
        lemma_gone_after_remove(h0.direct(), id);
    } else if owns(h0.won(), owner, id) {
        lemma_gone_after_remove(h0.won(), id);
    }
}

/// A countdown that releases a direct purchase and an explicit drop of it, in this
/// order: exactly one of them releases the unit, and it comes back to stock once.
pub proof fn expiry_then_drop_release_once(
    h0: AuctionHouse,
    h1: AuctionHouse,
    h2: AuctionHouse,
    owner: Seq<char>,
    id: u32,
    r1: bool,
    r2: bool,
)
    requires
        h0.wf(),
        holds_id(h0.direct(), id),
        expired(h0, h1, id, r1),
        dropped(h1, h2, owner, id, r2),
    ensures
        r1 && !r2,
        h2.available(h0.direct()[id_index(h0.direct(), id)].kind()) == h0.available(
            h0.direct()[id_index(h0.direct(), id)].kind(),
        ) + 1,
        forall|t: ServerType|
            t != h0.direct()[id_index(h0.direct(), id)].kind() ==> #[trigger] h2.available(t)
                == h0.available(t),
{
    lemma_pools_apart(h0, id);
    lemma_gone_after_remove(h0.direct(), id);
}

/// An explicit drop of a direct purchase and the countdown that releases it, in this
/// order: exactly one of them releases the unit, and it comes back to stock once.
pub proof fn drop_then_expiry_release_once(
    h0: AuctionHouse,
    h1: AuctionHouse,
    h2: AuctionHouse,
    owner: Seq<char>,
    id: u32,
    r1: bool,
    r2: bool,
)
    requires
        h0.wf(),
        holds_id(h0.direct(), id),
        dropped(h0, h1, owner, id, r1),
        expired(h1, h2, id, r2),
    ensures
        r1 != r2,
        h2.available(h0.direct()[id_index(h0.direct(), id)].kind()) == h0.available(
            h0.direct()[id_index(h0.direct(), id)].kind(),
        ) + 1,
        forall|t: ServerType|
            t != h0.direct()[id_index(h0.direct(), id)].kind() ==> #[trigger] h2.available(t)
                == h0.available(t),
{
    lemma_pools_apart(h0, id);
    lemma_gone_after_remove(h0.direct(), id);
}

} // verus!
