//! An in-memory marketplace for typed server units: direct purchases,
//! per-type auctions, and scheduled release of reservations.

pub mod server_type;
pub mod ids;
pub mod task;
pub mod bid;
pub mod transaction;
pub mod client;
pub mod droplet;
pub mod item;
pub mod topbid;
pub mod auction;
pub mod auction_house;
pub mod model;
pub mod laws;
pub mod parse;
pub mod command;
pub mod session;
