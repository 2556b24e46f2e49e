use tipping_program::errors::{HostError, InvokeError, TippingError};
use tipping_program::keys::{pubkey_eq, Pubkey};
use tipping_program::ledger::{
    find_entry, initialize_tip_account, send_tip, withdraw_tips, InitializeTipAccount, Ledger,
    SendTip, WithdrawTips,
};

fn key(tag: u8) -> Pubkey {
    Pubkey { bytes: [tag; 32] }
}

fn init(
    ledger: &mut Ledger,
    recipient: Pubkey,
    payer_balance: u64,
    reserve: u64,
) -> (Result<(), InvokeError>, u64) {
    let mut ctx = InitializeTipAccount {
        recipient,
        payer_balance,
        bump: 254,
        reserve,
    };
    let r = initialize_tip_account(ledger, &mut ctx);
    (r, ctx.payer_balance)
}

fn send(
    ledger: &mut Ledger,
    recipient: Pubkey,
    tipper_balance: u64,
    amount: u64,
) -> (Result<(), InvokeError>, u64) {
    let mut ctx = SendTip {
        recipient,
        tipper_balance,
    };
    let r = send_tip(ledger, &mut ctx, amount);
    (r, ctx.tipper_balance)
}

fn withdraw(
    ledger: &mut Ledger,
    account_recipient: Pubkey,
    signer: Pubkey,
    signer_balance: u64,
    amount: u64,
) -> (Result<(), InvokeError>, u64) {
    let mut ctx = WithdrawTips {
        account_recipient,
        recipient: signer,
        recipient_balance: signer_balance,
    };
    let r = withdraw_tips(ledger, &mut ctx, amount);
    (r, ctx.recipient_balance)
}

#[test]
fn initialize_creates_account() {
    let mut ledger = Ledger::new();
    let r = key(1);
    let (res, payer_after) = init(&mut ledger, r, 10_000, 900);
    assert_eq!(res, Ok(()));
    assert_eq!(payer_after, 9_100);
    assert_eq!(ledger.entries.len(), 1);
    assert!(pubkey_eq(&ledger.entries[0].account.recipient, &r));
    assert_eq!(ledger.entries[0].account.total_tips, 0);
    assert_eq!(ledger.entries[0].account.bump, 254);
    assert_eq!(ledger.entries[0].balance, 900);
}

#[test]
fn initialize_twice_fails() {
    let mut ledger = Ledger::new();
    let r = key(1);
    assert_eq!(init(&mut ledger, r, 10_000, 900).0, Ok(()));
    let (res, payer_after) = init(&mut ledger, r, 10_000, 900);
    assert_eq!(
        res,
        Err(InvokeError::Host(HostError::AccountAlreadyExists))
    );
    assert_eq!(payer_after, 10_000);
    assert_eq!(ledger.entries.len(), 1);
    assert_eq!(ledger.entries[0].balance, 900);
}

#[test]
fn initialize_insufficient_payer_fails() {
    let mut ledger = Ledger::new();
    let (res, payer_after) = init(&mut ledger, key(1), 100, 900);
    assert_eq!(
        res,
        Err(InvokeError::Host(HostError::InsufficientPayerFunds))
    );
    assert_eq!(payer_after, 100);
    assert_eq!(ledger.entries.len(), 0);
}

#[test]
fn send_increases_counter_and_balance() {
    let mut ledger = Ledger::new();
    let r = key(1);
    init(&mut ledger, r, 10_000, 900).0.unwrap();
    let (res, tipper_after) = send(&mut ledger, r, 5_000, 40);
    assert_eq!(res, Ok(()));
    assert_eq!(tipper_after, 4_960);
    assert_eq!(ledger.entries[0].account.total_tips, 40);
    assert_eq!(ledger.entries[0].balance, 940);
}

#[test]
fn sends_accumulate() {
    let mut ledger = Ledger::new();
    let r = key(1);
    init(&mut ledger, r, 10_000, 900).0.unwrap();
    assert_eq!(send(&mut ledger, r, 5_000, 30).0, Ok(()));
    assert_eq!(send(&mut ledger, r, 5_000, 70).0, Ok(()));
    assert_eq!(ledger.entries[0].account.total_tips, 100);
    assert_eq!(ledger.entries[0].balance, 1_000);
}

#[test]
fn zero_amount_send_fails() {
    let mut ledger = Ledger::new();
    let r = key(1);
    init(&mut ledger, r, 10_000, 900).0.unwrap();
    let (res, tipper_after) = send(&mut ledger, r, 5_000, 0);
    assert_eq!(
        res,
        Err(InvokeError::Program(TippingError::InvalidAmount))
    );
    assert_eq!(tipper_after, 5_000);
    assert_eq!(ledger.entries[0].account.total_tips, 0);
    assert_eq!(ledger.entries[0].balance, 900);
}

#[test]
fn zero_amount_withdraw_fails() {
    let mut ledger = Ledger::new();
    let r = key(1);
    init(&mut ledger, r, 10_000, 900).0.unwrap();
    let (res, signer_after) = withdraw(&mut ledger, r, r, 0, 0);
    assert_eq!(
        res,
        Err(InvokeError::Program(TippingError::InvalidAmount))
    );
    assert_eq!(signer_after, 0);
    assert_eq!(ledger.entries[0].balance, 900);
}

#[test]
fn send_to_missing_account_fails() {
    let mut ledger = Ledger::new();
    let (res, tipper_after) = send(&mut ledger, key(1), 5_000, 40);
    assert_eq!(res, Err(InvokeError::Host(HostError::AccountNotFound)));
    assert_eq!(tipper_after, 5_000);
}

#[test]
fn withdraw_from_missing_account_fails() {
    let mut ledger = Ledger::new();
    let (res, signer_after) = withdraw(&mut ledger, key(1), key(1), 0, 40);
    assert_eq!(res, Err(InvokeError::Host(HostError::AccountNotFound)));
    assert_eq!(signer_after, 0);
}

#[test]
fn send_insufficient_tipper_fails() {
    let mut ledger = Ledger::new();
    let r = key(1);
    init(&mut ledger, r, 10_000, 900).0.unwrap();
    let (res, tipper_after) = send(&mut ledger, r, 39, 40);
    assert_eq!(
        res,
        Err(InvokeError::Host(HostError::InsufficientPayerFunds))
    );
    assert_eq!(tipper_after, 39);
    assert_eq!(ledger.entries[0].balance, 900);
}

#[test]
fn overdraw_fails() {
    let mut ledger = Ledger::new();
    let r = key(1);
    init(&mut ledger, r, 10_000, 900).0.unwrap();
    send(&mut ledger, r, 5_000, 100).0.unwrap();
    let (res, signer_after) = withdraw(&mut ledger, r, r, 7, 1_001);
    assert_eq!(
        res,
        Err(InvokeError::Program(TippingError::InsufficientFunds))
    );
    assert_eq!(signer_after, 7);
    assert_eq!(ledger.entries[0].account.total_tips, 100);
    assert_eq!(ledger.entries[0].balance, 1_000);
}

#[test]
fn unauthorized_withdraw_fails() {
    let mut ledger = Ledger::new();
    let r = key(1);
    let impostor = key(2);
    init(&mut ledger, r, 10_000, 900).0.unwrap();
    send(&mut ledger, r, 5_000, 100).0.unwrap();
    let (res, signer_after) = withdraw(&mut ledger, r, impostor, 7, 50);
    assert_eq!(
        res,
        Err(InvokeError::Program(TippingError::UnauthorizedWithdrawal))
    );
    assert_eq!(signer_after, 7);
    assert_eq!(ledger.entries[0].balance, 1_000);
}

#[test]
fn round_trip() {
    let mut ledger = Ledger::new();
    let r = key(1);
    init(&mut ledger, r, 10_000, 500).0.unwrap();
    assert_eq!(send(&mut ledger, r, 5_000, 100).0, Ok(()));
    let (res, signer_after) = withdraw(&mut ledger, r, r, 7, 100);
    assert_eq!(res, Ok(()));
    assert_eq!(signer_after, 107);
    assert_eq!(ledger.entries[0].balance, 500);
    assert_eq!(ledger.entries[0].account.total_tips, 100);
}

#[test]
fn overflow_send_fails_and_persists_nothing() {
    let mut ledger = Ledger::new();
    let r = key(1);
    init(&mut ledger, r, 10_000, 0).0.unwrap();
    assert_eq!(send(&mut ledger, r, u64::MAX, u64::MAX).0, Ok(()));
    assert_eq!(ledger.entries[0].account.total_tips, u64::MAX);
    assert_eq!(withdraw(&mut ledger, r, r, 0, u64::MAX).0, Ok(()));
    assert_eq!(ledger.entries[0].balance, 0);
    let (res, tipper_after) = send(&mut ledger, r, 5_000, 1);
    assert_eq!(res, Err(InvokeError::Program(TippingError::Overflow)));
    assert_eq!(tipper_after, 5_000);
    assert_eq!(ledger.entries[0].balance, 0);
    assert_eq!(ledger.entries[0].account.total_tips, u64::MAX);
}

#[test]
fn send_past_balance_range_fails() {
    let mut ledger = Ledger::new();
    let r = key(1);
    init(&mut ledger, r, u64::MAX, u64::MAX).0.unwrap();
    let (res, tipper_after) = send(&mut ledger, r, 5_000, 1);
    assert_eq!(res, Err(InvokeError::Host(HostError::BalanceOverflow)));
    assert_eq!(tipper_after, 5_000);
    assert_eq!(ledger.entries[0].balance, u64::MAX);
    assert_eq!(ledger.entries[0].account.total_tips, 0);
}

#[test]
fn withdraw_past_wallet_range_fails() {
    let mut ledger = Ledger::new();
    let r = key(1);
    init(&mut ledger, r, 10_000, 900).0.unwrap();
    let (res, signer_after) = withdraw(&mut ledger, r, r, u64::MAX, 1);
    assert_eq!(res, Err(InvokeError::Host(HostError::BalanceOverflow)));
    assert_eq!(signer_after, u64::MAX);
    assert_eq!(ledger.entries[0].balance, 900);
}

#[test]
fn two_accounts_stay_independent() {
    let mut ledger = Ledger::new();
    let a = key(1);
    let b = key(2);
    init(&mut ledger, a, 10_000, 900).0.unwrap();
    init(&mut ledger, b, 10_000, 700).0.unwrap();
    assert_eq!(send(&mut ledger, a, 5_000, 123).0, Ok(()));
    let ia = find_entry(&ledger.entries, &a).unwrap();
    let ib = find_entry(&ledger.entries, &b).unwrap();
    assert_eq!(ledger.entries[ia].account.total_tips, 123);
    assert_eq!(ledger.entries[ia].balance, 1_023);
    assert_eq!(ledger.entries[ib].account.total_tips, 0);
    assert_eq!(ledger.entries[ib].balance, 700);
}
