use vstd::prelude::*;
use crate::server_type::{ServerType, price_of};

verus! {

/// Relies on chrono::Utc::now, read as whole seconds since the Unix epoch
/// (`DateTime::timestamp`) and the nanoseconds past that second
/// (`DateTime::timestamp_subsec_nanos`). The nanoseconds come from the system
/// clock's sub-second part, so they stay below one second.
#[verifier::external_body]
fn utc_now() -> (r: (i64, u32))
    ensures
        r.1 < 1_000_000_000,
{
    let now = chrono::Utc::now();
    (now.timestamp(), now.timestamp_subsec_nanos())
}

/// One entry of an account's history: a unit bought at list price, or won at auction.
#[derive(Debug)]
pub struct Transaction {
    secs: i64,
    nanos: u32,
    server_type: ServerType,
    value: i32,
    auction: bool,
}

impl Transaction {
    pub closed spec fn kind(&self) -> ServerType {
        self.server_type
    }

    pub closed spec fn paid(&self) -> i32 {
        self.value
    }

    pub closed spec fn by_auction(&self) -> bool {
        self.auction
    }

    pub closed spec fn seconds(&self) -> i64 {
        self.secs
    }

    pub closed spec fn subsec_nanos(&self) -> u32 {
        self.nanos
    }

    /// A purchase at list price, dated now.
    pub fn new_purchase(server_type: ServerType) -> (r: Transaction)
        ensures
            r.kind() == server_type,
            r.paid() == price_of(server_type),
            !r.by_auction(),
            r.subsec_nanos() < 1_000_000_000,
    {
        let (secs, nanos) = utc_now();
        Transaction { secs, nanos, server_type, value: server_type.price(), auction: false }
    }

    /// A unit won at auction for `value`, dated now.
    pub fn new_auction(server_type: ServerType, value: i32) -> (r: Transaction)
        ensures
            r.kind() == server_type,
            r.paid() == value,
            r.by_auction(),
            r.subsec_nanos() < 1_000_000_000,
    {
        let (secs, nanos) = utc_now();
        Transaction { secs, nanos, server_type, value, auction: true }
    }

    pub fn server_type(&self) -> (r: ServerType)
        ensures
            r == self.kind(),
    {
        self.server_type
    }

    pub fn value(&self) -> (r: i32)
        ensures
            r == self.paid(),
    {
        self.value
    }

    pub fn is_auction(&self) -> (r: bool)
        ensures
            r == self.by_auction(),
    {
        self.auction
    }

    /// Seconds since the Unix epoch and nanoseconds past that second.
    pub fn timestamp(&self) -> (r: (i64, u32))
        ensures
            r == (self.seconds(), self.subsec_nanos()),
    {
        (self.secs, self.nanos)
    }
}

impl Clone for Transaction {
    fn clone(&self) -> (r: Self)
        ensures
            r == *self,
    {
        Transaction {
            secs: self.secs,
            nanos: self.nanos,
            server_type: self.server_type,
            value: self.value,
            auction: self.auction,
        }
    }
}

} // verus!
