use vstd::prelude::*;
use crate::auction_house::{AHouseError, AuctionHouse};
use crate::bid::Bid;
use crate::client::Client;
use crate::command::{Command, CommandError};
use crate::droplet::Droplet;
use crate::model::{bid_placed, bought, dropped, owned_by, signed_up};
use crate::server_type::ServerType;

verus! {

/// What a request came to, for the caller to put into words.
#[derive(Debug)]
pub enum Reply {
    Registered,
    LoggedIn,
    /// Each stocked type with the units available.
    Stock(Vec<(ServerType, u32)>),
    /// The caller's own reservations.
    Reservations(Vec<Droplet>),
    /// The id of the new reservation.
    Bought(u32),
    /// The caller's account.
    Account(Client),
    /// Whether the reservation was given back.
    Dropped(bool),
    BidPlaced,
    Failed(AHouseError),
    Refused(CommandError),
    Quit,
}

/// Whether a command leaves the auction house as it is.
pub open spec fn reads_only(cmd: Command) -> bool {
    match cmd {
        Command::Login(_, _) | Command::Ls | Command::LsMine | Command::Profile | Command::Quit => true,
        _ => false,
    }
}

/// One connection's state: its number, and the account it acts for once it has
/// registered or logged in.
#[derive(Debug)]
pub struct SessionState {
    id: usize,
    user: Option<String>,
}

impl SessionState {
    pub closed spec fn number(&self) -> usize {
        self.id
    }

    /// The email of the account the session acts for.
    pub closed spec fn acting_for(&self) -> Option<Seq<char>> {
        match self.user {
            Some(u) => Some(u@),
            None => None,
        }
    }

    pub fn new(id: usize) -> (r: SessionState)
        ensures
            r.number() == id,
            r.acting_for() is None,
    {
        SessionState { id, user: None }
    }

    pub fn logged_in(&self) -> (r: bool)
        ensures
            r == self.acting_for() is Some,
    {
        self.user.is_some()
    }

    /// Whether `cmd` leaves the auction house as it is, so that `answer` can serve it.
    pub fn is_query(cmd: &Command) -> (r: bool)
        ensures
            r == reads_only(*cmd),
    {
        match cmd {
            Command::Login(_, _) | Command::Ls | Command::LsMine | Command::Profile
            | Command::Quit => true,
            _ => false,
        }
    }

    /// Serves a command that only reads the auction house.
    pub fn answer(&mut self, house: &AuctionHouse, cmd: Command) -> (r: Reply)
        requires
            house.wf(),
            reads_only(cmd),
        ensures
            final(self).number() == old(self).number(),
            match cmd {
                Command::Login(e, p) => if house.is_registered(e@) && house.accounts()[house.account_index(
                    e@,
                )].password_view() == p@ {
                    &&& r matches Reply::LoggedIn
                    &&& final(self).acting_for() == Some(e@)
                } else {
                    &&& r matches Reply::Failed(AHouseError::InvalidClient(m)) && m@ == e@
                    &&& final(self).acting_for() == old(self).acting_for()
                },
                Command::Ls => {
                    &&& final(self).acting_for() == old(self).acting_for()
                    &&& r matches Reply::Stock(v)
                    &&& v@.len() == house.stock_entries().len()
                    &&& forall|i: int|
                        0 <= i < v@.len() ==> v@[i] == (
                            house.stock_entries()[i].0,
                            house.stock_entries()[i].1,
                        )
                },
                Command::LsMine => {
                    &&& final(self).acting_for() == old(self).acting_for()
                    &&& match old(self).acting_for() {
                        None => r matches Reply::Refused(CommandError::LoginRequired),
                        Some(u) => (r matches Reply::Reservations(v) && v@ == owned_by(
                            house.direct(),
                            u,
                        ) + owned_by(house.won(), u)),
                    }
                },
                Command::Profile => {
                    &&& final(self).acting_for() == old(self).acting_for()
                    &&& match old(self).acting_for() {
                        None => r matches Reply::Refused(CommandError::LoginRequired),
                        Some(u) => if house.is_registered(u) {
                            (r matches Reply::Account(c) && house.accounts()[house.account_index(
                                u,
                            )].same_as(&c))
                        } else {
                            (r matches Reply::Failed(AHouseError::InvalidClient(m)) && m@ == u)
                        },
                    }
                },
                _ => {
                    &&& final(self).acting_for() == old(self).acting_for()
                    &&& r matches Reply::Quit
                },
            },
    {
        match cmd {
            Command::Login(e, p) => match house.login(e.as_str(), p.as_str()) {
                Ok(_) => {
                    self.user = Some(e);
                    Reply::LoggedIn
                },
                Err(err) => Reply::Failed(err),
            },
            Command::Ls => Reply::Stock(house.ls()),
            Command::LsMine => match &self.user {
                None => Reply::Refused(CommandError::LoginRequired),
                Some(u) => Reply::Reservations(house.ls_m(u.as_str())),
            },
            Command::Profile => match &self.user {
                None => Reply::Refused(CommandError::LoginRequired),
                Some(u) => match house.profile(u.as_str()) {
                    Some(c) => Reply::Account(c),
                    None => Reply::Failed(AHouseError::InvalidClient(u.clone())),
                },
            },
            _ => Reply::Quit,
        }
    }

    /// Carries out a command that changes the auction house.
    pub fn perform(&mut self, house: &mut AuctionHouse, cmd: Command) -> (r: Reply)
        requires
            old(house).wf(),
            old(house).ids_left(),
            !reads_only(cmd),
        ensures
            final(house).wf(),
            final(self).number() == old(self).number(),
            match cmd {
                Command::Register(e, p) => match r {
                    Reply::Registered => {
                        &&& exists|c: Client|
                            signed_up(*old(house), *final(house), e@, p@, Ok::<Client, AHouseError>(c))
                        &&& final(self).acting_for() == Some(e@)
                    },
                    Reply::Failed(err) => {
                        &&& signed_up(*old(house), *final(house), e@, p@, Err::<Client, AHouseError>(err))
                        &&& final(self).acting_for() == old(self).acting_for()
                    },
                    _ => false,
                },
                _ => final(self).acting_for() == old(self).acting_for() && match old(
                    self,
                ).acting_for() {
                    None => {
                        &&& r matches Reply::Refused(CommandError::LoginRequired)
                        &&& *final(house) == *old(house)
                    },
                    Some(u) => match cmd {
                        Command::Buy(st) => match r {
                            Reply::Bought(id) => bought(*old(house), *final(house), st, u, Ok(id)),
                            Reply::Failed(err) => bought(*old(house), *final(house), st, u, Err(err)),
                            _ => false,
                        },
                        Command::Drop(id) => match r {
                            Reply::Dropped(b) => dropped(*old(house), *final(house), u, id, b),
                            _ => false,
                        },
                        Command::Auction(st, v) => exists|b: Bid|
                            b.bidder() == u && b.bid_value() == v && match r {
                                Reply::BidPlaced => bid_placed(*old(house), *final(house), st, b, Ok(())),
                                Reply::Failed(err) => bid_placed(
                                    *old(house),
                                    *final(house),
                                    st,
                                    b,
                                    Err(err),
                                ),
                                _ => false,
                            },
                        _ => false,
                    },
                },
            },
    {
        match cmd {
            Command::Register(e, p) => match house.register(e.as_str(), p.as_str()) {
                Ok(_) => {
                    self.user = Some(e);
                    Reply::Registered
                },
                Err(err) => Reply::Failed(err),
            },
            Command::Buy(st) => match &self.user {
                None => Reply::Refused(CommandError::LoginRequired),
                Some(u) => match house.buy(st, u.as_str()) {
                    Ok(id) => Reply::Bought(id),
                    Err(err) => Reply::Failed(err),
                },
            },
            Command::Drop(id) => match &self.user {
                None => Reply::Refused(CommandError::LoginRequired),
                Some(u) => Reply::Dropped(house.drop_server(u.as_str(), id)),
            },
            Command::Auction(st, v) => match &self.user {
                None => Reply::Refused(CommandError::LoginRequired),
                Some(u) => {
                    let bid = Bid::new(u.as_str(), v);
                    match house.auction(st, bid, self.id) {
                        Ok(()) => Reply::BidPlaced,
                        Err(err) => Reply::Failed(err),
                    }
                },
            },
            _ => Reply::Quit,
        }
    }
}

} // verus!
