use vstd::prelude::*;

verus! {

/// Unit price of a slow server.
pub const SLOW_PRICE: i32 = 20;

/// Unit price of a fast server.
pub const FAST_PRICE: i32 = 40;

/// The kinds of server units on sale.
#[derive(Debug, Clone, Copy, PartialEq, Eq, Structural, PartialOrd, Ord, Hash)]
pub enum ServerType {
    Slow,
    Fast,
}

/// The fixed unit price of each kind.
pub open spec fn price_of(t: ServerType) -> i32 {
    match t {
        ServerType::Slow => SLOW_PRICE,
        ServerType::Fast => FAST_PRICE,
    }
}

/// The kind that a name denotes, if any.
pub open spec fn parse_server_type(s: Seq<char>) -> Option<ServerType> {
    if s == "Fast"@ {
        Some(ServerType::Fast)
    } else if s == "Slow"@ {
        Some(ServerType::Slow)
    } else {
        None
    }
}

/// Whether direct purchases of a kind are released automatically after a delay.
pub open spec fn expires_automatically(t: ServerType) -> bool {
    t == ServerType::Fast
}

impl ServerType {
    pub fn price(&self) -> (r: i32)
        ensures
            r == price_of(*self),
    {
        match self {
            ServerType::Slow => SLOW_PRICE,
            ServerType::Fast => FAST_PRICE,
        }
    }

    pub fn from_str(s: &str) -> (r: Option<ServerType>)
        ensures
            r == parse_server_type(s@),
    {
        let owned = s.to_owned();
        if owned == "Fast".to_owned() {
            Some(ServerType::Fast)
        } else if owned == "Slow".to_owned() {
            Some(ServerType::Slow)
        } else {
            None
        }
    }

    /// Direct purchases of a fast server are reclaimed after a delay; slow ones are kept
    /// until dropped.
    pub fn auto_expires(&self) -> (r: bool)
        ensures
            r == expires_automatically(*self),
    {
        match self {
            ServerType::Slow => false,
            ServerType::Fast => true,
        }
    }
}

} // verus!
