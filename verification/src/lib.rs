//! A verified model of a minimal tipping ledger.
//!
//! A host runtime keeps one account per recipient at a deterministically
//! derived address.  Three operations act on that state: creating the
//! account, sending a tip into it, and withdrawing funds out of it, the
//! last only to the recipient recorded at creation.  The modules here
//! state each operation's effect exactly and prove the ledger's
//! invariants: the recorded recipient never changes, the lifetime tip
//! counter only grows, and every failing call leaves the state untouched.
//! The byte layout the record is persisted under is verified as well,
//! with its decoder proved inverse to the encoder.

pub mod account;
pub mod codec;
pub mod errors;
pub mod keys;
pub mod ledger;
