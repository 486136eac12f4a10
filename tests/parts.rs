use auction_house::auction::{Auction, BidError, AUCTION_DELAY};
use auction_house::bid::Bid;
use auction_house::client::Client;
use auction_house::droplet::Droplet;
use auction_house::ids::IdAllocator;
use auction_house::item::Item;
use auction_house::server_type::ServerType;
use auction_house::task::Task;
use auction_house::topbid::TopBid;
use auction_house::transaction::Transaction;

#[test]
fn server_type_prices() {
    assert_eq!(ServerType::Slow.price(), 20);
    assert_eq!(ServerType::Fast.price(), 40);
}

#[test]
fn server_type_from_str() {
    assert_eq!(ServerType::from_str("Fast"), Some(ServerType::Fast));
    assert_eq!(ServerType::from_str("Slow"), Some(ServerType::Slow));
    assert_eq!(ServerType::from_str("slow"), None);
    assert_eq!(ServerType::from_str(""), None);
    assert_eq!(ServerType::from_str("Fast "), None);
}

#[test]
fn only_fast_expires() {
    assert!(ServerType::Fast.auto_expires());
    assert!(!ServerType::Slow.auto_expires());
}

#[test]
fn task_fires_once_after_delay() {
    let mut t = Task::new(3);
    assert_eq!(t.delay(), 3);
    assert!(!t.tick());
    assert!(!t.tick());
    assert_eq!(t.delay(), 1);
    assert!(t.tick());
    assert!(t.done());
    assert_eq!(t.delay(), 0);
    assert!(!t.tick());
}

#[test]
fn task_with_no_delay_fires_on_first_tick() {
    let mut t = Task::new(0);
    assert!(!t.done());
    assert!(t.tick());
    assert!(!t.tick());
}

#[test]
fn auction_takes_only_higher_bids() {
    let mut a = Auction::new(ServerType::Fast, Bid::new("x", 10));
    assert_eq!(a.server_type(), ServerType::Fast);
    assert_eq!(a.remaining(), AUCTION_DELAY);
    assert!(a.bid(Bid::new("y", 15)).is_ok());
    assert!(matches!(a.bid(Bid::new("z", 12)), Err(BidError::BidTooLow(15))));
    assert!(matches!(a.bid(Bid::new("z", 15)), Err(BidError::BidTooLow(15))));
    let top = a.highest_bid();
    assert_eq!(top.owner(), "y");
    assert_eq!(top.value(), 15);
}

#[test]
fn auction_closes_after_its_delay() {
    let mut a = Auction::new(ServerType::Slow, Bid::new("x", 1));
    for _ in 0..AUCTION_DELAY - 1 {
        assert!(!a.tick());
    }
    assert!(a.tick());
    assert!(!a.tick());
}

#[test]
fn bid_accessors_and_clone() {
    let b = Bid::new("me", -3);
    let c = b.clone();
    assert_eq!(c.owner(), "me");
    assert_eq!(c.value(), -3);
}

#[test]
fn client_accessors() {
    let mut c = Client::new("e".to_string(), "pw".to_string());
    assert_eq!(c.email(), "e");
    assert_eq!(c.password(), "pw");
    assert!(c.has_email(&"e".to_string()));
    assert!(!c.has_email(&"f".to_string()));
    c.record(Transaction::new_auction(ServerType::Slow, 5));
    let d = c.clone();
    assert_eq!(d.history().len(), 1);
    assert_eq!(d.history()[0].value(), 5);
}

#[test]
fn ids_increase() {
    let mut ids = IdAllocator::new();
    assert!(ids.can_allocate());
    assert_eq!(ids.allocate(), 0);
    assert_eq!(ids.allocate(), 1);
}

#[test]
fn droplets_get_fresh_ids() {
    let mut ids = IdAllocator::new();
    let a = Droplet::new_reserved(&mut ids, ServerType::Fast, "o");
    let b = Droplet::new_auctioned(&mut ids, ServerType::Slow, "p", 99);
    assert_eq!(a.id(), 0);
    assert_eq!(a.value(), 40);
    assert_eq!(a.owner(), "o");
    assert_eq!(a.server_type(), ServerType::Fast);
    assert!(a.held_by(&"o".to_string()));
    assert_eq!(b.id(), 1);
    assert_eq!(b.value(), 99);
    assert_eq!(b.server_type(), ServerType::Slow);
}

#[test]
fn items_get_fresh_ids() {
    let mut ids = IdAllocator::new();
    let a = Item::new(&mut ids, ServerType::Slow);
    let b = Item::new(&mut ids, ServerType::Fast);
    assert_eq!(a.id(), 0);
    assert_eq!(b.id(), 1);
    assert_eq!(b.server_type(), ServerType::Fast);
}

#[test]
fn top_bid_keeps_the_strictly_higher() {
    let mut ids = IdAllocator::new();
    let x = Client::new("x".to_string(), "p".to_string());
    let y = Client::new("y".to_string(), "p".to_string());
    let mut t = TopBid::new(&mut ids, ServerType::Fast, &x, 10);
    assert_eq!(t.id(), 0);
    assert!(!t.bid(10, &y));
    assert_eq!(t.owner(), "x");
    assert!(t.bid(11, &y));
    assert_eq!(t.owner(), "y");
    assert_eq!(t.value(), 11);
}

#[test]
fn purchase_transaction_uses_list_price() {
    let t = Transaction::new_purchase(ServerType::Slow);
    assert_eq!(t.value(), 20);
    assert!(!t.is_auction());
    assert_eq!(t.server_type(), ServerType::Slow);
    let (secs, nanos) = t.timestamp();
    assert!(secs > 1_577_836_800);
    assert!(nanos < 1_000_000_000);
}
