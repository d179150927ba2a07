//! An append-only voting ledger: polls, the candidates registered for each
//! poll and the votes cast in it, each stored once under an address derived
//! from its key.

pub mod address;
pub mod ledger;
pub mod records;
pub mod voting;
