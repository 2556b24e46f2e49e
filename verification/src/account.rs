//! The per-recipient account record and its place in the host's state.

use vstd::prelude::*;

use crate::keys::Pubkey;

verus! {

/// The record this program stores at the derived address: who may
/// withdraw, how much has ever been tipped, and the derivation
/// discriminant that reproduces the address.
#[derive(Clone, Copy, Debug)]
pub struct TipAccount {
    /// Set once at creation; the only key allowed to withdraw.
    pub recipient: Pubkey,
    /// Lifetime sum of all tips ever sent to this account.  Informational:
    /// withdrawals do not decrease it, so it is not the spendable balance.
    pub total_tips: u64,
    /// The discriminant byte found during address derivation, stored so
    /// later operations re-derive the same address without searching.
    pub bump: u8,
}

/// One allocated tip account as the host runtime holds it: the stored
/// record together with the token balance at the account's address.
/// The balance, not `total_tips`, is what a withdrawal may spend.
#[derive(Clone, Copy, Debug)]
pub struct TipEntry {
    pub account: TipAccount,
    pub balance: u64,
}

} // verus!
