//! The ledger: the host runtime's account state, and the three
//! operations this program performs on it.
//!
//! The host keeps at most one tip account per recipient key, because the
//! account's address is derived deterministically from that key and the
//! host creates an account at a given address only once.  `Ledger` models
//! exactly that state: a collection of allocated tip accounts, no two for
//! the same recipient.  Each operation is a single atomic transition: it
//! either succeeds with precisely the effect its contract states, or it
//! fails and changes nothing.

use vstd::prelude::*;

use crate::account::{TipAccount, TipEntry};
use crate::errors::{HostError, InvokeError, TippingError};
use crate::keys::{pubkey_eq, Pubkey};

verus! {

/// No two entries are kept for the same recipient key: the host's
/// create-once semantics at deterministically derived addresses.
pub open spec fn wf_entries(entries: Seq<TipEntry>) -> bool {
    forall|i: int, j: int|
        0 <= i < j < entries.len() ==> entries[i].account.recipient@ != entries[j].account.recipient@
}

/// Some entry is kept for this recipient key.
pub open spec fn spec_has_account(entries: Seq<TipEntry>, recipient: Seq<u8>) -> bool {
    exists|i: int| 0 <= i < entries.len() && entries[i].account.recipient@ == recipient
}

/// The index of the entry kept for this recipient key.  Meaningful only
/// where such an entry exists; unique wherever `wf_entries` holds.
pub open spec fn spec_index_of(entries: Seq<TipEntry>, recipient: Seq<u8>) -> int {
    choose|i: int| 0 <= i < entries.len() && entries[i].account.recipient@ == recipient
}

/// An entry at a known position is the one `spec_index_of` points at.
pub proof fn lemma_index_unique(entries: Seq<TipEntry>, recipient: Seq<u8>, i: int)
    requires
        wf_entries(entries),
        0 <= i < entries.len(),
        entries[i].account.recipient@ == recipient,
    ensures
        spec_has_account(entries, recipient),
        spec_index_of(entries, recipient) == i,
{
    assert(spec_has_account(entries, recipient));
    let j: int = spec_index_of(entries, recipient);
    if j < i {
        assert(entries[j].account.recipient@ != entries[i].account.recipient@);
    } else if i < j {
        assert(entries[i].account.recipient@ != entries[j].account.recipient@);
    }
}

/// The host runtime's account state, as far as this program reads or
/// writes it: every allocated tip account, each with its stored record
/// and the balance held at its address.
pub struct Ledger {
    pub entries: Vec<TipEntry>,
}

impl Ledger {
    /// The state invariant: one account per recipient.
    pub open spec fn wf(&self) -> bool {
        wf_entries(self.entries@)
    }

    /// A state with no accounts allocated yet.
    pub fn new() -> (l: Ledger)
        ensures
            l.wf(),
            l.entries@.len() == 0,
    {
        Ledger { entries: Vec::new() }
    }
}

/// The position of the entry kept for this recipient, if one is.
pub fn find_entry(entries: &Vec<TipEntry>, recipient: &Pubkey) -> (r: Option<usize>)
    ensures
        match r {
            Some(i) => i < entries@.len() && entries@[i as int].account.recipient@ == recipient@,
            None => !spec_has_account(entries@, recipient@),
        },
{
    let n: usize = entries.len();
    let mut i: usize = 0;
    while i < n
        invariant
            i <= n,
            n == entries@.len(),
            forall|j: int| 0 <= j < i ==> entries@[j].account.recipient@ != recipient@,
        decreases n - i,
    {
        if pubkey_eq(&entries[i].account.recipient, recipient) {
            return Some(i);
        }
        i = i + 1;
    }
    None
}

/// The record and balance a freshly created account holds: the recipient
/// and discriminant as given, a zeroed counter, and the host's minimum
/// reserve as the opening balance.
pub open spec fn new_entry(recipient: Pubkey, bump: u8, reserve: u64) -> TipEntry {
    TipEntry {
        account: TipAccount { recipient, total_tips: 0, bump },
        balance: reserve,
    }
}

/// What creating an account for `recipient` does to the state: the new
/// entries, the payer's balance, and the outcome.  Creation fails if the
/// derived address is already occupied, or if the payer cannot fund the
/// host's minimum reserve; on failure nothing changes.
pub open spec fn spec_initialize(
    entries: Seq<TipEntry>,
    recipient: Pubkey,
    bump: u8,
    reserve: u64,
    payer_balance: u64,
) -> (Seq<TipEntry>, u64, Result<(), InvokeError>) {
    if spec_has_account(entries, recipient@) {
        (entries, payer_balance, Err(InvokeError::Host(HostError::AccountAlreadyExists)))
    } else if payer_balance < reserve {
        (entries, payer_balance, Err(InvokeError::Host(HostError::InsufficientPayerFunds)))
    } else {
        (
            entries.push(new_entry(recipient, bump, reserve)),
            (payer_balance - reserve) as u64,
            Ok(()),
        )
    }
}

/// What the host runtime hands an account-creation instruction.
#[derive(Clone, Copy, Debug)]
pub struct InitializeTipAccount {
    /// Whose tips the new account will accumulate.  Need not sign.
    pub recipient: Pubkey,
    /// Balance of the signing payer's wallet, which funds the reserve.
    pub payer_balance: u64,
    /// The derivation discriminant the host found for the new address.
    pub bump: u8,
    /// The minimum balance the host requires to keep the account alive.
    pub reserve: u64,
}

/// Create the tip account for `ctx.recipient` at its derived address.
///
/// Succeeds exactly when no account exists for that recipient yet and the
/// payer can fund the reserve; the new account records the recipient and
/// discriminant, starts its counter at zero, and opens with the reserve
/// as its balance.  Any failure leaves the state untouched.
pub fn initialize_tip_account(ledger: &mut Ledger, ctx: &mut InitializeTipAccount) -> (r: Result<
    (),
    InvokeError,
>)
    requires
        old(ledger).wf(),
    ensures
        final(ledger).wf(),
        final(ctx).recipient == old(ctx).recipient,
        final(ctx).bump == old(ctx).bump,
        final(ctx).reserve == old(ctx).reserve,
        (final(ledger).entries@, final(ctx).payer_balance, r) == spec_initialize(
            old(ledger).entries@,
            old(ctx).recipient,
            old(ctx).bump,
            old(ctx).reserve,
            old(ctx).payer_balance,
        ),
        r is Ok <==> !spec_has_account(old(ledger).entries@, old(ctx).recipient@)
            && old(ctx).payer_balance >= old(ctx).reserve,
        r is Ok ==> final(ledger).entries@ == old(ledger).entries@.push(
            new_entry(old(ctx).recipient, old(ctx).bump, old(ctx).reserve),
        ) && final(ctx).payer_balance == old(ctx).payer_balance - old(ctx).reserve,
        spec_has_account(old(ledger).entries@, old(ctx).recipient@) ==> r == Err::<
            (),
            InvokeError,
        >(InvokeError::Host(HostError::AccountAlreadyExists)),
        r is Err ==> final(ledger).entries@ == old(ledger).entries@ && final(ctx).payer_balance
            == old(ctx).payer_balance,
{
    match find_entry(&ledger.entries, &ctx.recipient) {
        Some(i) => {
            proof {
                lemma_index_unique(ledger.entries@, ctx.recipient@, i as int);
            }
            Err(InvokeError::Host(HostError::AccountAlreadyExists))
        },
        None => {
            if ctx.payer_balance < ctx.reserve {
                Err(InvokeError::Host(HostError::InsufficientPayerFunds))
            } else {
                let entry = TipEntry {
                    account: TipAccount {
                        recipient: ctx.recipient,
                        total_tips: 0,
                        bump: ctx.bump,
                    },
                    balance: ctx.reserve,
                };
                let ghost before = ledger.entries@;
                ledger.entries.push(entry);
                ctx.payer_balance = ctx.payer_balance - ctx.reserve;
                proof {
                    assert forall|a: int, b: int|
                        0 <= a < b < ledger.entries@.len() implies ledger.entries@[a].account.recipient@
                        != ledger.entries@[b].account.recipient@ by {
                        if b == before.len() {
                            assert(ledger.entries@[a] == before[a]);
                        }
                    }
                }
                Ok(())
            }
        },
    }
}

/// Creating a tip account is a once-only act: once a call for a
/// recipient has succeeded, any later call for the same recipient fails
/// with `AccountAlreadyExists` — whatever payer balance, discriminant or
/// reserve it brings — and changes nothing.
pub proof fn lemma_initialize_twice_fails(
    entries: Seq<TipEntry>,
    recipient: Pubkey,
    bump1: u8,
    reserve1: u64,
    payer1: u64,
    bump2: u8,
    reserve2: u64,
    payer2: u64,
)
    requires
        spec_initialize(entries, recipient, bump1, reserve1, payer1).2 is Ok,
    ensures
        ({
            let mid = spec_initialize(entries, recipient, bump1, reserve1, payer1).0;
            spec_initialize(mid, recipient, bump2, reserve2, payer2) == (
                mid,
                payer2,
                Err::<(), InvokeError>(InvokeError::Host(HostError::AccountAlreadyExists)),
            )
        }),
{
    let mid = spec_initialize(entries, recipient, bump1, reserve1, payer1).0;
    assert(mid[entries.len() as int].account.recipient@ == recipient@);
    assert(spec_has_account(mid, recipient@));
}

/// An entry after a tip of `amount` lands: both the lifetime counter and
/// the balance grow by the amount; recipient and discriminant stay.
pub open spec fn entry_after_send(e: TipEntry, amount: u64) -> TipEntry {
    TipEntry {
        account: TipAccount {
            recipient: e.account.recipient,
            total_tips: (e.account.total_tips + amount) as u64,
            bump: e.account.bump,
        },
        balance: (e.balance + amount) as u64,
    }
}

/// An entry after a withdrawal of `amount`: only the balance shrinks;
/// the lifetime counter never decreases.
pub open spec fn entry_after_withdraw(e: TipEntry, amount: u64) -> TipEntry {
    TipEntry { account: e.account, balance: (e.balance - amount) as u64 }
}

/// What sending a tip does to the state, in the order the checks run:
/// the named account must exist at its derived address, the amount must
/// be positive, the tipper must cover it, the transfer must not push the
/// account's balance past the 64-bit range, and the lifetime counter must
/// not overflow.  The first failed check decides the error; every failure
/// leaves the state unchanged, the counter overflow included — the host
/// rolls the already-performed transfer back with the rest.
pub open spec fn spec_send(
    entries: Seq<TipEntry>,
    recipient: Seq<u8>,
    tipper_balance: u64,
    amount: u64,
) -> (Seq<TipEntry>, u64, Result<(), InvokeError>) {
    if !spec_has_account(entries, recipient) {
        (entries, tipper_balance, Err(InvokeError::Host(HostError::AccountNotFound)))
    } else if amount == 0 {
        (entries, tipper_balance, Err(InvokeError::Program(TippingError::InvalidAmount)))
    } else if tipper_balance < amount {
        (entries, tipper_balance, Err(InvokeError::Host(HostError::InsufficientPayerFunds)))
    } else {
        let i: int = spec_index_of(entries, recipient);
        let e = entries[i];
        if e.balance + amount > u64::MAX {
            (entries, tipper_balance, Err(InvokeError::Host(HostError::BalanceOverflow)))
        } else if e.account.total_tips + amount > u64::MAX {
            (entries, tipper_balance, Err(InvokeError::Program(TippingError::Overflow)))
        } else {
            (
                entries.update(i, entry_after_send(e, amount)),
                (tipper_balance - amount) as u64,
                Ok(()),
            )
        }
    }
}

/// What the host runtime hands a send-tip instruction.
#[derive(Clone, Copy, Debug)]
pub struct SendTip {
    /// The recipient whose tip account the transaction names.  The host
    /// has verified the account's address against this key and the
    /// stored discriminant before the instruction runs.
    pub recipient: Pubkey,
    /// Balance of the signing tipper's wallet.
    pub tipper_balance: u64,
}

/// Move `amount` from the tipper into the recipient's tip account and
/// add it to the account's lifetime counter.
///
/// Succeeds exactly when the account exists, the amount is positive, the
/// tipper covers it, and neither the balance nor the counter would leave
/// the 64-bit range.  A zero amount is rejected as `InvalidAmount`; a
/// counter overflow as `Overflow`, with the transfer rolled back: no
/// failing call changes anything.
pub fn send_tip(ledger: &mut Ledger, ctx: &mut SendTip, amount: u64) -> (r: Result<
    (),
    InvokeError,
>)
    requires
        old(ledger).wf(),
    ensures
        final(ledger).wf(),
        final(ctx).recipient == old(ctx).recipient,
        (final(ledger).entries@, final(ctx).tipper_balance, r) == spec_send(
            old(ledger).entries@,
            old(ctx).recipient@,
            old(ctx).tipper_balance,
            amount,
        ),
        r is Ok <==> ({
            let es = old(ledger).entries@;
            let k = old(ctx).recipient@;
            &&& spec_has_account(es, k)
            &&& amount > 0
            &&& old(ctx).tipper_balance >= amount
            &&& es[spec_index_of(es, k)].balance + amount <= u64::MAX
            &&& es[spec_index_of(es, k)].account.total_tips + amount <= u64::MAX
        }),
        r is Ok ==> ({
            let es = old(ledger).entries@;
            let i: int = spec_index_of(es, old(ctx).recipient@);
            &&& final(ledger).entries@ == es.update(i, entry_after_send(es[i], amount))
            &&& final(ctx).tipper_balance == old(ctx).tipper_balance - amount
        }),
        spec_has_account(old(ledger).entries@, old(ctx).recipient@) && amount == 0 ==> r == Err::<
            (),
            InvokeError,
        >(InvokeError::Program(TippingError::InvalidAmount)),
        ({
            let es = old(ledger).entries@;
            let k = old(ctx).recipient@;
            &&& spec_has_account(es, k)
            &&& amount > 0
            &&& old(ctx).tipper_balance >= amount
            &&& es[spec_index_of(es, k)].balance + amount <= u64::MAX
            &&& es[spec_index_of(es, k)].account.total_tips + amount > u64::MAX
        }) ==> r == Err::<(), InvokeError>(InvokeError::Program(TippingError::Overflow)),
        r is Err ==> final(ledger).entries@ == old(ledger).entries@ && final(ctx).tipper_balance
            == old(ctx).tipper_balance,
{
    match find_entry(&ledger.entries, &ctx.recipient) {
        None => Err(InvokeError::Host(HostError::AccountNotFound)),
        Some(i) => {
            proof {
                lemma_index_unique(ledger.entries@, ctx.recipient@, i as int);
            }
            if amount == 0 {
                return Err(InvokeError::Program(TippingError::InvalidAmount));
            }
            if ctx.tipper_balance < amount {
                return Err(InvokeError::Host(HostError::InsufficientPayerFunds));
            }
            let e = ledger.entries[i];
            if e.balance > u64::MAX - amount {
                return Err(InvokeError::Host(HostError::BalanceOverflow));
            }
            match e.account.total_tips.checked_add(amount) {
                None => Err(InvokeError::Program(TippingError::Overflow)),
                Some(total) => {
                    let ghost before = ledger.entries@;
                    ledger.entries[i] = TipEntry {
                        account: TipAccount {
                            recipient: e.account.recipient,
                            total_tips: total,
                            bump: e.account.bump,
                        },
                        balance: e.balance + amount,
                    };
                    ctx.tipper_balance = ctx.tipper_balance - amount;
                    proof {
                        assert(ledger.entries@ == before.update(
                            i as int,
                            entry_after_send(before[i as int], amount),
                        ));
                        assert forall|a: int, b: int|
                            0 <= a < b < ledger.entries@.len() implies ledger.entries@[a].account.recipient@
                            != ledger.entries@[b].account.recipient@ by {
                            assert(ledger.entries@[a].account.recipient
                                == before[a].account.recipient);
                            assert(ledger.entries@[b].account.recipient
                                == before[b].account.recipient);
                        }
                    }
                    Ok(())
                },
            }
        },
    }
}

/// What withdrawing does to the state, in the order the checks run: the
/// named account must exist at its derived address, the signer must be
/// the recorded recipient, the amount must be positive and covered by
/// the account's current balance — the balance, not the lifetime
/// counter — and the payout must not push the signer's wallet past the
/// 64-bit range.  The first failed check decides the error; every
/// failure leaves the state unchanged.
pub open spec fn spec_withdraw(
    entries: Seq<TipEntry>,
    account_recipient: Seq<u8>,
    signer: Seq<u8>,
    signer_balance: u64,
    amount: u64,
) -> (Seq<TipEntry>, u64, Result<(), InvokeError>) {
    if !spec_has_account(entries, account_recipient) {
        (entries, signer_balance, Err(InvokeError::Host(HostError::AccountNotFound)))
    } else {
        let i: int = spec_index_of(entries, account_recipient);
        let e = entries[i];
        if e.account.recipient@ != signer {
            (
                entries,
                signer_balance,
                Err(InvokeError::Program(TippingError::UnauthorizedWithdrawal)),
            )
        } else if amount == 0 {
            (entries, signer_balance, Err(InvokeError::Program(TippingError::InvalidAmount)))
        } else if e.balance < amount {
            (entries, signer_balance, Err(InvokeError::Program(TippingError::InsufficientFunds)))
        } else if signer_balance + amount > u64::MAX {
            (entries, signer_balance, Err(InvokeError::Host(HostError::BalanceOverflow)))
        } else {
            (
                entries.update(i, entry_after_withdraw(e, amount)),
                (signer_balance + amount) as u64,
                Ok(()),
            )
        }
    }
}

/// What the host runtime hands a withdraw instruction.
#[derive(Clone, Copy, Debug)]
pub struct WithdrawTips {
    /// The key the named tip account was derived from: its recorded
    /// recipient.  The host has verified the account's address against
    /// it before the instruction runs.
    pub account_recipient: Pubkey,
    /// The signing withdrawer, who claims to be the recipient.
    pub recipient: Pubkey,
    /// Balance of the signer's wallet, which receives the payout.
    pub recipient_balance: u64,
}

/// Pay `amount` out of the named tip account to its recorded recipient.
///
/// Succeeds exactly when the account exists, the signer is the recorded
/// recipient, the amount is positive and no more than the account's
/// current balance, and the payout fits the signer's wallet.  A signer
/// other than the recorded recipient is rejected as
/// `UnauthorizedWithdrawal`; overdrawing as `InsufficientFunds`.  The
/// lifetime counter keeps its value; no failing call changes anything.
pub fn withdraw_tips(ledger: &mut Ledger, ctx: &mut WithdrawTips, amount: u64) -> (r: Result<
    (),
    InvokeError,
>)
    requires
        old(ledger).wf(),
    ensures
        final(ledger).wf(),
        final(ctx).account_recipient == old(ctx).account_recipient,
        final(ctx).recipient == old(ctx).recipient,
        (final(ledger).entries@, final(ctx).recipient_balance, r) == spec_withdraw(
            old(ledger).entries@,
            old(ctx).account_recipient@,
            old(ctx).recipient@,
            old(ctx).recipient_balance,
            amount,
        ),
        r is Ok <==> ({
            let es = old(ledger).entries@;
            let k = old(ctx).account_recipient@;
            &&& spec_has_account(es, k)
            &&& es[spec_index_of(es, k)].account.recipient@ == old(ctx).recipient@
            &&& amount > 0
            &&& es[spec_index_of(es, k)].balance >= amount
            &&& old(ctx).recipient_balance + amount <= u64::MAX
        }),
        r is Ok ==> ({
            let es = old(ledger).entries@;
            let i: int = spec_index_of(es, old(ctx).account_recipient@);
            &&& final(ledger).entries@ == es.update(i, entry_after_withdraw(es[i], amount))
            &&& final(ledger).entries@[i].account == es[i].account
            &&& final(ctx).recipient_balance == old(ctx).recipient_balance + amount
        }),
        ({
            let es = old(ledger).entries@;
            let k = old(ctx).account_recipient@;
            spec_has_account(es, k)
                && es[spec_index_of(es, k)].account.recipient@ != old(ctx).recipient@
        }) ==> r == Err::<(), InvokeError>(
            InvokeError::Program(TippingError::UnauthorizedWithdrawal),
        ),
        ({
            let es = old(ledger).entries@;
            let k = old(ctx).account_recipient@;
            &&& spec_has_account(es, k)
            &&& es[spec_index_of(es, k)].account.recipient@ == old(ctx).recipient@
            &&& amount > 0
            &&& es[spec_index_of(es, k)].balance < amount
        }) ==> r == Err::<(), InvokeError>(InvokeError::Program(TippingError::InsufficientFunds)),
        r is Err ==> final(ledger).entries@ == old(ledger).entries@
            && final(ctx).recipient_balance == old(ctx).recipient_balance,
{
    match find_entry(&ledger.entries, &ctx.account_recipient) {
        None => Err(InvokeError::Host(HostError::AccountNotFound)),
        Some(i) => {
            proof {
                lemma_index_unique(ledger.entries@, ctx.account_recipient@, i as int);
            }
            let e = ledger.entries[i];
            if !pubkey_eq(&e.account.recipient, &ctx.recipient) {
                return Err(InvokeError::Program(TippingError::UnauthorizedWithdrawal));
            }
            if amount == 0 {
                return Err(InvokeError::Program(TippingError::InvalidAmount));
            }
            if e.balance < amount {
                return Err(InvokeError::Program(TippingError::InsufficientFunds));
            }
            if ctx.recipient_balance > u64::MAX - amount {
                return Err(InvokeError::Host(HostError::BalanceOverflow));
            }
            let ghost before = ledger.entries@;
            ledger.entries[i] = TipEntry { account: e.account, balance: e.balance - amount };
            ctx.recipient_balance = ctx.recipient_balance + amount;
            proof {
                assert(ledger.entries@ == before.update(
                    i as int,
                    entry_after_withdraw(before[i as int], amount),
                ));
                assert forall|a: int, b: int|
                    0 <= a < b < ledger.entries@.len() implies ledger.entries@[a].account.recipient@
                    != ledger.entries@[b].account.recipient@ by {
                    assert(ledger.entries@[a].account.recipient == before[a].account.recipient);
                    assert(ledger.entries@[b].account.recipient == before[b].account.recipient);
                }
            }
            Ok(())
        },
    }
}

} // verus!
