//! A minimal on-chain voting protocol: create a poll, register up to a
//! fixed number of candidates, and let each identity cast at most one vote
//! per poll within a time window.
//!
//! The crate verifies the protocol's state-transition logic together with
//! its binary encoding contract: the deterministic record layout, the
//! instruction payload layout, and the seed bytes from which candidate and
//! receipt addresses are derived.

pub mod accounts;
pub mod codec;
pub mod errors;
pub mod indexer;
pub mod instructions;
pub mod laws;
pub mod ledger;
pub mod pubkey;
pub mod records;
pub mod seeds;
pub mod state;
