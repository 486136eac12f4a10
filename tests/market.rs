use auction_house::auction_house::{AHouseError, AuctionHouse, Event, EXPIRY_DELAY};
use auction_house::auction::AUCTION_DELAY;
use auction_house::bid::Bid;
use auction_house::server_type::ServerType;

fn house_with(slow: u32, fast: u32) -> AuctionHouse {
    let mut h = AuctionHouse::new();
    for _ in 0..slow {
        h.add(ServerType::Slow);
    }
    for _ in 0..fast {
        h.add(ServerType::Fast);
    }
    h
}

fn available(h: &AuctionHouse, st: ServerType) -> u32 {
    h.ls().iter().find(|(t, _)| *t == st).map(|(_, n)| *n).unwrap_or(0)
}

fn run_ticks(h: &mut AuctionHouse, n: usize) -> Vec<Event> {
    let mut all = Vec::new();
    for _ in 0..n {
        all.extend(h.advance());
    }
    all
}

#[test]
fn buy_until_out_of_stock() {
    let mut h = house_with(2, 0);
    for who in ["a", "b", "c"] {
        h.register(who, "p").unwrap();
    }
    let x = h.buy(ServerType::Slow, "a").unwrap();
    assert_eq!(available(&h, ServerType::Slow), 1);
    let y = h.buy(ServerType::Slow, "b").unwrap();
    assert_ne!(x, y);
    assert_eq!(available(&h, ServerType::Slow), 0);
    let z = h.buy(ServerType::Slow, "c");
    assert!(matches!(z, Err(AHouseError::OutOfStock(ServerType::Slow))));
    assert_eq!(available(&h, ServerType::Slow), 0);
}

#[test]
fn register_twice_and_login() {
    let mut h = AuctionHouse::new();
    let c = h.register("a@x", "p").unwrap();
    assert_eq!(c.email(), "a@x");
    assert_eq!(c.password(), "p");
    match h.register("a@x", "p") {
        Err(AHouseError::EmailTaken(e)) => assert_eq!(e, "a@x"),
        other => panic!("expected EmailTaken, got {:?}", other),
    }
    match h.login("a@x", "wrong") {
        Err(AHouseError::InvalidClient(e)) => assert_eq!(e, "a@x"),
        other => panic!("expected InvalidClient, got {:?}", other),
    }
    let ok = h.login("a@x", "p").unwrap();
    assert_eq!(ok.email(), "a@x");
}

#[test]
fn login_unknown_email_is_invalid_client() {
    let h = AuctionHouse::new();
    assert!(matches!(h.login("nobody", "p"), Err(AHouseError::InvalidClient(_))));
}

#[test]
fn buy_needs_an_account() {
    let mut h = house_with(1, 0);
    match h.buy(ServerType::Slow, "ghost") {
        Err(AHouseError::InvalidClient(e)) => assert_eq!(e, "ghost"),
        other => panic!("expected InvalidClient, got {:?}", other),
    }
    assert_eq!(available(&h, ServerType::Slow), 1);
}

#[test]
fn buy_type_never_stocked_is_out_of_stock() {
    let mut h = house_with(1, 0);
    h.register("a", "p").unwrap();
    assert!(matches!(h.buy(ServerType::Fast, "a"), Err(AHouseError::OutOfStock(ServerType::Fast))));
}

#[test]
fn last_unit_goes_to_one_buyer() {
    let mut h = house_with(0, 1);
    let buyers = ["a", "b", "c", "d"];
    for who in buyers {
        h.register(who, "p").unwrap();
    }
    let results: Vec<_> = buyers.iter().map(|who| h.buy(ServerType::Fast, who)).collect();
    assert!(results[0].is_ok());
    for r in &results[1..] {
        assert!(matches!(r, Err(AHouseError::OutOfStock(ServerType::Fast))));
    }
}

#[test]
fn drop_only_by_owner_and_only_once() {
    let mut h = house_with(1, 0);
    h.register("a", "p").unwrap();
    h.register("b", "p").unwrap();
    let id = h.buy(ServerType::Slow, "a").unwrap();
    assert!(!h.drop_server("b", id));
    assert_eq!(available(&h, ServerType::Slow), 0);
    assert!(h.drop_server("a", id));
    assert_eq!(available(&h, ServerType::Slow), 1);
    assert!(!h.drop_server("a", id));
    assert_eq!(available(&h, ServerType::Slow), 1);
    assert!(!h.drop_server("a", 9999));
}

#[test]
fn expiry_after_drop_releases_once() {
    let mut h = house_with(0, 1);
    h.register("a", "p").unwrap();
    let id = h.buy(ServerType::Fast, "a").unwrap();
    assert!(h.drop_server("a", id));
    assert!(!h.expire(id));
    assert_eq!(available(&h, ServerType::Fast), 1);
}

#[test]
fn drop_after_expiry_releases_once() {
    let mut h = house_with(0, 1);
    h.register("a", "p").unwrap();
    let id = h.buy(ServerType::Fast, "a").unwrap();
    assert!(h.expire(id));
    assert!(!h.drop_server("a", id));
    assert_eq!(available(&h, ServerType::Fast), 1);
    assert!(h.ls_m("a").is_empty());
}

#[test]
fn fast_purchase_expires_after_its_delay() {
    let mut h = house_with(0, 1);
    h.register("a", "p").unwrap();
    let id = h.buy(ServerType::Fast, "a").unwrap();
    assert!(run_ticks(&mut h, EXPIRY_DELAY - 1).is_empty());
    let due = h.advance();
    assert_eq!(due, vec![Event::Expire(id)]);
    assert!(h.fire(Event::Expire(id)));
    assert_eq!(available(&h, ServerType::Fast), 1);
    assert!(run_ticks(&mut h, 3).is_empty());
}

#[test]
fn slow_purchase_does_not_expire() {
    let mut h = house_with(1, 0);
    h.register("a", "p").unwrap();
    h.buy(ServerType::Slow, "a").unwrap();
    assert!(run_ticks(&mut h, EXPIRY_DELAY + 5).is_empty());
    assert_eq!(h.ls_m("a").len(), 1);
}

#[test]
fn scheduled_release_after_drop_is_a_no_op() {
    let mut h = house_with(0, 2);
    h.register("a", "p").unwrap();
    let id = h.buy(ServerType::Fast, "a").unwrap();
    assert!(h.drop_server("a", id));
    let due = run_ticks(&mut h, EXPIRY_DELAY);
    assert_eq!(due, vec![Event::Expire(id)]);
    assert!(!h.fire(Event::Expire(id)));
    assert_eq!(available(&h, ServerType::Fast), 2);
}

#[test]
fn auction_bids_ten_fifteen_twelve() {
    let mut h = house_with(1, 0);
    for who in ["x", "y", "z"] {
        h.register(who, "p").unwrap();
    }
    assert!(h.auction(ServerType::Slow, Bid::new("x", 10), 0).is_ok());
    assert!(h.auction(ServerType::Slow, Bid::new("y", 15), 1).is_ok());
    assert!(matches!(h.auction(ServerType::Slow, Bid::new("z", 12), 2), Err(AHouseError::BidTooLow)));
    let due = run_ticks(&mut h, AUCTION_DELAY);
    assert_eq!(due, vec![Event::Settle(ServerType::Slow)]);
    assert!(h.fire(Event::Settle(ServerType::Slow)));
    let won = h.ls_m("y");
    assert_eq!(won.len(), 1);
    assert_eq!(won[0].server_type(), ServerType::Slow);
    assert_eq!(won[0].value(), 15);
    assert!(h.ls_m("x").is_empty());
    assert!(h.ls_m("z").is_empty());
    assert_eq!(available(&h, ServerType::Slow), 0);
    let profile = h.profile("y").unwrap();
    assert_eq!(profile.history().len(), 1);
    assert!(profile.history()[0].is_auction());
    assert_eq!(profile.history()[0].value(), 15);
}

#[test]
fn equal_bid_is_too_low() {
    let mut h = house_with(1, 0);
    h.register("x", "p").unwrap();
    h.register("y", "p").unwrap();
    h.auction(ServerType::Slow, Bid::new("x", 10), 0).unwrap();
    assert!(matches!(h.auction(ServerType::Slow, Bid::new("y", 10), 0), Err(AHouseError::BidTooLow)));
}

#[test]
fn auction_needs_an_account() {
    let mut h = house_with(1, 0);
    match h.auction(ServerType::Slow, Bid::new("ghost", 10), 0) {
        Err(AHouseError::InvalidClient(e)) => assert_eq!(e, "ghost"),
        other => panic!("expected InvalidClient, got {:?}", other),
    }
    assert!(run_ticks(&mut h, AUCTION_DELAY).is_empty());
}

#[test]
fn settlement_without_stock_fails_and_closes() {
    let mut h = AuctionHouse::new();
    h.register("x", "p").unwrap();
    h.auction(ServerType::Fast, Bid::new("x", 50), 0).unwrap();
    assert!(matches!(h.settle(ServerType::Fast), Err(AHouseError::OutOfStock(ServerType::Fast))));
    assert!(h.ls_m("x").is_empty());
    assert!(h.settle(ServerType::Fast).is_ok());
    // a new auction may start once the old one is closed
    assert!(h.auction(ServerType::Fast, Bid::new("x", 1), 0).is_ok());
}

#[test]
fn settle_fires_exactly_once() {
    let mut h = house_with(2, 0);
    h.register("x", "p").unwrap();
    h.auction(ServerType::Slow, Bid::new("x", 30), 0).unwrap();
    let due = run_ticks(&mut h, AUCTION_DELAY + 5);
    assert_eq!(due, vec![Event::Settle(ServerType::Slow)]);
    assert!(h.fire(Event::Settle(ServerType::Slow)));
    assert!(!h.fire(Event::Settle(ServerType::Slow)));
    assert_eq!(h.ls_m("x").len(), 1);
    assert_eq!(available(&h, ServerType::Slow), 1);
}

#[test]
fn buy_auctioned_reserves_at_bid_value() {
    let mut h = house_with(1, 0);
    h.register("x", "p").unwrap();
    h.buy_auctioned(ServerType::Slow, Bid::new("x", 77)).unwrap();
    let held = h.ls_m("x");
    assert_eq!(held.len(), 1);
    assert_eq!(held[0].value(), 77);
    assert!(matches!(
        h.buy_auctioned(ServerType::Slow, Bid::new("x", 80)),
        Err(AHouseError::OutOfStock(ServerType::Slow))
    ));
}

#[test]
fn units_are_conserved_across_operations() {
    let mut h = house_with(3, 2);
    h.register("a", "p").unwrap();
    h.register("b", "p").unwrap();
    let a1 = h.buy(ServerType::Slow, "a").unwrap();
    h.buy(ServerType::Fast, "b").unwrap();
    h.auction(ServerType::Slow, Bid::new("b", 99), 0).unwrap();
    let due = run_ticks(&mut h, AUCTION_DELAY);
    for e in due {
        h.fire(e);
    }
    h.drop_server("a", a1);
    for st in [ServerType::Slow, ServerType::Fast] {
        let reserved = ["a", "b"]
            .iter()
            .map(|who| h.ls_m(who).iter().filter(|d| d.server_type() == st).count() as u32)
            .sum::<u32>();
        let total = if st == ServerType::Slow { 3 } else { 2 };
        assert_eq!(available(&h, st) + reserved, total);
    }
}

#[test]
fn ls_lists_types_in_restock_order() {
    let mut h = AuctionHouse::new();
    assert!(h.ls().is_empty());
    h.add(ServerType::Fast);
    h.add(ServerType::Slow);
    h.add(ServerType::Fast);
    assert_eq!(h.ls(), vec![(ServerType::Fast, 2), (ServerType::Slow, 1)]);
    assert!(h.can_add(ServerType::Slow));
    assert!(h.can_reserve());
}

#[test]
fn ls_m_lists_own_reservations_in_order() {
    let mut h = house_with(3, 0);
    h.register("a", "p").unwrap();
    h.register("b", "p").unwrap();
    let x = h.buy(ServerType::Slow, "a").unwrap();
    h.buy(ServerType::Slow, "b").unwrap();
    let z = h.buy(ServerType::Slow, "a").unwrap();
    let ids: Vec<u32> = h.ls_m("a").iter().map(|d| d.id()).collect();
    assert_eq!(ids, vec![x, z]);
    assert!(h.ls_m("a").iter().all(|d| d.owner() == "a" && d.value() == 20));
}

#[test]
fn profile_records_purchases() {
    let mut h = house_with(0, 1);
    assert!(h.profile("a").is_none());
    h.register("a", "p").unwrap();
    assert!(h.profile("a").unwrap().history().is_empty());
    h.buy(ServerType::Fast, "a").unwrap();
    let c = h.profile("a").unwrap();
    assert_eq!(c.email(), "a");
    assert_eq!(c.history().len(), 1);
    let t = &c.history()[0];
    assert_eq!(t.server_type(), ServerType::Fast);
    assert_eq!(t.value(), 40);
    assert!(!t.is_auction());
    // 2020-01-01 as seconds since the Unix epoch
    assert!(t.timestamp().0 > 1_577_836_800);
    assert!(t.timestamp().1 < 1_000_000_000);
}

#[test]
fn reservation_ids_are_distinct_and_increasing() {
    let mut h = house_with(3, 0);
    h.register("a", "p").unwrap();
    let a = h.buy(ServerType::Slow, "a").unwrap();
    let b = h.buy(ServerType::Slow, "a").unwrap();
    h.drop_server("a", a);
    let c = h.buy(ServerType::Slow, "a").unwrap();
    assert!(a < b && b < c);
}
