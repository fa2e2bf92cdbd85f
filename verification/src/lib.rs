//! A marketplace for bundles of soulbound access-control tokens (SBTs).
//!
//! A seller lists an ordered set of token locators; buyers place escrowed
//! offers against the listing; the seller accepts exactly one offer by
//! issuing a signed capability (a permission) naming the buyer, and the
//! escrowed payment is split between the seller and the issuers of the
//! listed tokens.
//!
//! The state of the whole marketplace lives in [`Contract`]; its operations
//! are specified against a mathematical view of that state and proved to
//! maintain its invariants. Host concerns (caller identity, attached
//! deposits, the execution of scheduled transfers) are passed in and out as
//! plain values, so the core is host-agnostic.

pub mod contract;
pub mod errors;
pub mod ids;
pub mod laws;
pub mod listings;
pub mod model;
pub mod offers;
pub mod permissions;
pub mod settlement;
pub mod types;
