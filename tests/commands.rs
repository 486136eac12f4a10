use auction_house::auction_house::{AHouseError, AuctionHouse};
use auction_house::command::{parse_command, Command, CommandError};
use auction_house::server_type::ServerType;
use auction_house::session::{Reply, SessionState};

fn words(line: &str) -> Vec<String> {
    line.split(' ').filter(|s| !s.is_empty()).map(|s| s.to_string()).collect()
}

#[test]
fn blank_and_quit() {
    assert!(matches!(parse_command(&words(""), false), Err(CommandError::Blank)));
    assert!(matches!(parse_command(&words("quit"), false), Ok(Command::Quit)));
}

#[test]
fn register_and_login_need_two_arguments() {
    match parse_command(&words("register a@x p"), false) {
        Ok(Command::Register(e, p)) => {
            assert_eq!(e, "a@x");
            assert_eq!(p, "p");
        }
        other => panic!("{:?}", other),
    }
    assert!(matches!(parse_command(&words("register a@x"), false), Err(CommandError::RegisterUsage)));
    assert!(matches!(parse_command(&words("login a@x"), true), Err(CommandError::LoginUsage)));
    match parse_command(&words("login a@x p"), false) {
        Ok(Command::Login(e, p)) => {
            assert_eq!(e, "a@x");
            assert_eq!(p, "p");
        }
        other => panic!("{:?}", other),
    }
}

#[test]
fn ls_variants() {
    assert!(matches!(parse_command(&words("ls"), false), Ok(Command::Ls)));
    assert!(matches!(parse_command(&words("ls -m"), true), Ok(Command::LsMine)));
    assert!(matches!(parse_command(&words("ls -m"), false), Err(CommandError::LoginRequired)));
    assert!(matches!(parse_command(&words("ls -x"), true), Err(CommandError::LsUsage)));
}

#[test]
fn account_commands_need_a_login_first() {
    for line in ["buy", "buy Fast", "profile", "drop 3", "drop", "auction Fast 10"] {
        assert!(matches!(parse_command(&words(line), false), Err(CommandError::LoginRequired)), "{}", line);
    }
}

#[test]
fn buy_arguments() {
    assert!(matches!(parse_command(&words("buy Fast"), true), Ok(Command::Buy(ServerType::Fast))));
    assert!(matches!(parse_command(&words("buy"), true), Err(CommandError::BuyUsage)));
    assert!(matches!(parse_command(&words("buy Medium"), true), Err(CommandError::InvalidServerType)));
    assert!(matches!(parse_command(&words("profile"), true), Ok(Command::Profile)));
}

#[test]
fn drop_arguments() {
    assert!(matches!(parse_command(&words("drop 12"), true), Ok(Command::Drop(12))));
    assert!(matches!(parse_command(&words("drop"), true), Err(CommandError::DropUsage)));
    match parse_command(&words("drop x1"), true) {
        Err(CommandError::InvalidId(s)) => assert_eq!(s, "x1"),
        other => panic!("{:?}", other),
    }
}

#[test]
fn auction_arguments() {
    assert!(matches!(
        parse_command(&words("auction Slow 15"), true),
        Ok(Command::Auction(ServerType::Slow, 15))
    ));
    assert!(matches!(parse_command(&words("auction Slow"), true), Err(CommandError::AuctionUsage)));
    assert!(matches!(parse_command(&words("auction Big 15"), true), Err(CommandError::InvalidServerType)));
    assert!(matches!(parse_command(&words("auction Slow lots"), true), Err(CommandError::InvalidAmount)));
}

#[test]
fn unknown_command() {
    match parse_command(&words("dance now"), true) {
        Err(CommandError::UnknownCommand(s)) => assert_eq!(s, "dance"),
        other => panic!("{:?}", other),
    }
}

fn run(state: &mut SessionState, house: &mut AuctionHouse, line: &str) -> Reply {
    match parse_command(&words(line), state.logged_in()) {
        Ok(cmd) => {
            if SessionState::is_query(&cmd) {
                state.answer(house, cmd)
            } else {
                state.perform(house, cmd)
            }
        }
        Err(e) => Reply::Refused(e),
    }
}

#[test]
fn session_walkthrough() {
    let mut house = AuctionHouse::new();
    house.add(ServerType::Slow);
    let mut s = SessionState::new(7);
    assert!(!s.logged_in());
    assert!(matches!(run(&mut s, &mut house, "buy Slow"), Reply::Refused(CommandError::LoginRequired)));
    assert!(matches!(run(&mut s, &mut house, "register a@x p"), Reply::Registered));
    assert!(s.logged_in());
    let id = match run(&mut s, &mut house, "buy Slow") {
        Reply::Bought(id) => id,
        other => panic!("{:?}", other),
    };
    assert!(matches!(run(&mut s, &mut house, "buy Slow"), Reply::Failed(AHouseError::OutOfStock(ServerType::Slow))));
    match run(&mut s, &mut house, "ls -m") {
        Reply::Reservations(v) => assert_eq!(v.iter().map(|d| d.id()).collect::<Vec<_>>(), vec![id]),
        other => panic!("{:?}", other),
    }
    match run(&mut s, &mut house, "ls") {
        Reply::Stock(v) => assert_eq!(v, vec![(ServerType::Slow, 0)]),
        other => panic!("{:?}", other),
    }
    match run(&mut s, &mut house, "profile") {
        Reply::Account(c) => assert_eq!(c.email(), "a@x"),
        other => panic!("{:?}", other),
    }
    assert!(matches!(run(&mut s, &mut house, "auction Fast 12"), Reply::BidPlaced));
    assert!(matches!(run(&mut s, &mut house, "auction Fast 12"), Reply::Failed(AHouseError::BidTooLow)));
    assert!(matches!(run(&mut s, &mut house, &format!("drop {}", id)), Reply::Dropped(true)));
    assert!(matches!(run(&mut s, &mut house, &format!("drop {}", id)), Reply::Dropped(false)));
}

#[test]
fn session_login_switches_account() {
    let mut house = AuctionHouse::new();
    house.register("a", "p").unwrap();
    let mut s = SessionState::new(0);
    match run(&mut s, &mut house, "login a wrong") {
        Reply::Failed(AHouseError::InvalidClient(e)) => assert_eq!(e, "a"),
        other => panic!("{:?}", other),
    }
    assert!(!s.logged_in());
    assert!(matches!(run(&mut s, &mut house, "login a p"), Reply::LoggedIn));
    assert!(s.logged_in());
    match run(&mut s, &mut house, "register a p") {
        Reply::Failed(AHouseError::EmailTaken(e)) => assert_eq!(e, "a"),
        other => panic!("{:?}", other),
    }
}
