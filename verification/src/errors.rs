//! Everything an invocation of the ledger can abort with.

use vstd::prelude::*;

verus! {

/// The errors this program itself raises.
#[derive(Clone, Copy, Debug, PartialEq, Eq, Structural)]
pub enum TippingError {
    /// The amount argument of a send or a withdrawal is zero.
    InvalidAmount,
    /// The signer of a withdrawal is not the account's recorded recipient.
    UnauthorizedWithdrawal,
    /// A withdrawal asks for more than the account currently holds.
    InsufficientFunds,
    /// Adding the tip to the lifetime counter would leave the 64-bit range.
    Overflow,
}

/// Failures the host runtime raises on its own, before or while it
/// carries out what an operation asks of it.  The program does not catch
/// or translate these; they abort the invocation as they are.
#[derive(Clone, Copy, Debug, PartialEq, Eq, Structural)]
pub enum HostError {
    /// Account creation at an address that is already occupied.
    AccountAlreadyExists,
    /// No account lives at the derived address the transaction names.
    AccountNotFound,
    /// The paying signer cannot cover what the operation moves out of
    /// its wallet.
    InsufficientPayerFunds,
    /// A transfer would push the receiving balance past the 64-bit range.
    BalanceOverflow,
}

/// What an invocation aborts with: an error of the program's own, or one
/// of the host runtime's.  Either way the host persists none of the
/// invocation's effects.
#[derive(Clone, Copy, Debug, PartialEq, Eq, Structural)]
pub enum InvokeError {
    Program(TippingError),
    Host(HostError),
}

} // verus!
