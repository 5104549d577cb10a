//! Concrete replays of short logs against the processor, checking the
//! final account state field by field. Amounts are in ten-thousandth
//! units: 10.0 is 100_000 units.

use ledger::processor::{
    chargeback, deposit, dispute, process_all, process_transaction, resolve, withdrawal, Outcome,
};
use ledger::store::Ledger;
use ledger::types::{Amount, Transaction, TransactionType, MAX_AMOUNT_UNITS};

fn txn(tx_type: TransactionType, client: u16, tx: u32, units: Option<i128>) -> Transaction {
    Transaction::new(tx_type, client, tx, units.map(Amount::from_units))
}

fn account(ledger: &Ledger, client: u16) -> (i128, i128, i128, bool) {
    let a = ledger
        .get_account(client)
        .expect("account should exist");
    (a.available.units, a.held.units, a.total.units, a.locked)
}

#[test]
fn deposit_then_withdrawal() {
    let mut l = Ledger::new();
    let r1 = deposit(txn(TransactionType::Deposit, 1, 1, Some(100_000)), &mut l);
    let r2 = withdrawal(txn(TransactionType::Withdrawal, 1, 2, Some(30_000)), &mut l);
    assert_eq!(r1, Outcome::Applied);
    assert_eq!(r2, Outcome::Applied);
    assert_eq!(account(&l, 1), (70_000, 0, 70_000, false));
}

#[test]
fn withdrawal_beyond_available_is_rejected() {
    let mut l = Ledger::new();
    deposit(txn(TransactionType::Deposit, 1, 1, Some(100_000)), &mut l);
    let r = withdrawal(txn(TransactionType::Withdrawal, 1, 2, Some(150_000)), &mut l);
    assert_eq!(r, Outcome::InsufficientFunds);
    assert_eq!(account(&l, 1), (100_000, 0, 100_000, false));
}

#[test]
fn dispute_holds_and_resolve_releases() {
    let mut l = Ledger::new();
    deposit(txn(TransactionType::Deposit, 1, 1, Some(100_000)), &mut l);
    let r1 = dispute(txn(TransactionType::Dispute, 1, 1, None), &mut l);
    assert_eq!(r1, Outcome::Applied);
    assert_eq!(account(&l, 1), (0, 100_000, 100_000, false));
    let r2 = resolve(txn(TransactionType::Resolve, 1, 1, None), &mut l);
    assert_eq!(r2, Outcome::Applied);
    assert_eq!(account(&l, 1), (100_000, 0, 100_000, false));
}

#[test]
fn chargeback_reverses_and_locks() {
    let mut l = Ledger::new();
    deposit(txn(TransactionType::Deposit, 1, 1, Some(100_000)), &mut l);
    dispute(txn(TransactionType::Dispute, 1, 1, None), &mut l);
    let r = chargeback(txn(TransactionType::Chargeback, 1, 1, None), &mut l);
    assert_eq!(r, Outcome::Applied);
    assert_eq!(account(&l, 1), (0, 0, 0, true));

    // A later deposit on the locked account leaves the balances alone but
    // still rewrites the transaction record for its id.
    let r2 = deposit(txn(TransactionType::Deposit, 1, 1, Some(50_000)), &mut l);
    assert_eq!(r2, Outcome::AccountLocked);
    assert_eq!(account(&l, 1), (0, 0, 0, true));
    let rec = l.get_transaction(1).expect("record should exist");
    assert_eq!(rec.signed_amount.units, 50_000);
    assert!(!rec.dispute_open);
}

#[test]
fn dispute_of_unknown_transaction_is_a_no_op() {
    let mut l = Ledger::new();
    let r = dispute(txn(TransactionType::Dispute, 1, 99, None), &mut l);
    assert_eq!(r, Outcome::UnknownTransaction);
    assert!(l.get_account(1).is_none());
    assert!(l.get_transaction(99).is_none());
}

#[test]
fn dispute_of_a_withdrawal_is_a_no_op() {
    let mut l = Ledger::new();
    deposit(txn(TransactionType::Deposit, 1, 1, Some(100_000)), &mut l);
    withdrawal(txn(TransactionType::Withdrawal, 1, 5, Some(20_000)), &mut l);
    let r = dispute(txn(TransactionType::Dispute, 1, 5, None), &mut l);
    assert_eq!(r, Outcome::NotDisputable);
    assert_eq!(account(&l, 1), (80_000, 0, 80_000, false));
    let rec = l.get_transaction(5).expect("record should exist");
    assert!(!rec.dispute_open);
}

#[test]
fn balance_equation_holds_at_every_step() {
    let mut l = Ledger::new();
    let log = vec![
        txn(TransactionType::Deposit, 1, 1, Some(100_000)),
        txn(TransactionType::Deposit, 2, 2, Some(55_500)),
        txn(TransactionType::Withdrawal, 1, 3, Some(25_000)),
        txn(TransactionType::Dispute, 1, 1, None),
        txn(TransactionType::Resolve, 1, 1, None),
        txn(TransactionType::Dispute, 2, 2, None),
        txn(TransactionType::Chargeback, 2, 2, None),
    ];
    for t in log {
        process_transaction(t, &mut l);
        for client in [1u16, 2u16] {
            if let Some(a) = l.get_account(client) {
                assert_eq!(a.total.units, a.available.units + a.held.units);
            }
        }
    }
}

#[test]
fn locked_account_never_changes_again() {
    let mut l = Ledger::new();
    deposit(txn(TransactionType::Deposit, 1, 1, Some(100_000)), &mut l);
    dispute(txn(TransactionType::Dispute, 1, 1, None), &mut l);
    chargeback(txn(TransactionType::Chargeback, 1, 1, None), &mut l);
    let frozen = account(&l, 1);
    assert!(frozen.3);

    assert_eq!(
        deposit(txn(TransactionType::Deposit, 1, 7, Some(10_000)), &mut l),
        Outcome::AccountLocked
    );
    assert_eq!(
        withdrawal(txn(TransactionType::Withdrawal, 1, 8, Some(10_000)), &mut l),
        Outcome::AccountLocked
    );
    assert_eq!(
        dispute(txn(TransactionType::Dispute, 1, 7, None), &mut l),
        Outcome::AccountLocked
    );
    assert_eq!(account(&l, 1), frozen);
}

#[test]
fn resolve_replay_is_idempotent() {
    let mut l = Ledger::new();
    deposit(txn(TransactionType::Deposit, 1, 1, Some(100_000)), &mut l);
    dispute(txn(TransactionType::Dispute, 1, 1, None), &mut l);
    resolve(txn(TransactionType::Resolve, 1, 1, None), &mut l);
    let settled = account(&l, 1);
    let r = resolve(txn(TransactionType::Resolve, 1, 1, None), &mut l);
    assert_eq!(r, Outcome::NotDisputed);
    assert_eq!(account(&l, 1), settled);
}

#[test]
fn chargeback_replay_is_idempotent() {
    let mut l = Ledger::new();
    deposit(txn(TransactionType::Deposit, 1, 1, Some(100_000)), &mut l);
    dispute(txn(TransactionType::Dispute, 1, 1, None), &mut l);
    chargeback(txn(TransactionType::Chargeback, 1, 1, None), &mut l);
    let settled = account(&l, 1);
    let r = chargeback(txn(TransactionType::Chargeback, 1, 1, None), &mut l);
    assert_eq!(r, Outcome::NotDisputed);
    assert_eq!(account(&l, 1), settled);
}

#[test]
fn dispute_then_resolve_restores_the_account() {
    let mut l = Ledger::new();
    deposit(txn(TransactionType::Deposit, 1, 1, Some(100_000)), &mut l);
    withdrawal(txn(TransactionType::Withdrawal, 1, 2, Some(40_000)), &mut l);
    let before = account(&l, 1);
    dispute(txn(TransactionType::Dispute, 1, 1, None), &mut l);
    assert_eq!(account(&l, 1).2, before.2);
    resolve(txn(TransactionType::Resolve, 1, 1, None), &mut l);
    assert_eq!(account(&l, 1), before);
}

#[test]
fn withdrawal_against_unknown_client_is_a_no_op() {
    let mut l = Ledger::new();
    let r = withdrawal(txn(TransactionType::Withdrawal, 9, 1, Some(10_000)), &mut l);
    assert_eq!(r, Outcome::UnknownClient);
    assert!(l.get_account(9).is_none());
    // The movement record is still written.
    let rec = l.get_transaction(1).expect("record should exist");
    assert_eq!(rec.signed_amount.units, -10_000);
}

#[test]
fn second_dispute_of_the_same_transaction_is_rejected() {
    let mut l = Ledger::new();
    deposit(txn(TransactionType::Deposit, 1, 1, Some(100_000)), &mut l);
    dispute(txn(TransactionType::Dispute, 1, 1, None), &mut l);
    let held = account(&l, 1);
    let r = dispute(txn(TransactionType::Dispute, 1, 1, None), &mut l);
    assert_eq!(r, Outcome::AlreadyDisputed);
    assert_eq!(account(&l, 1), held);
}

#[test]
fn resolve_of_unknown_transaction_is_rejected() {
    let mut l = Ledger::new();
    let r = resolve(txn(TransactionType::Resolve, 1, 42, None), &mut l);
    assert_eq!(r, Outcome::UnknownTransaction);
    assert!(l.get_account(1).is_none());
}

#[test]
fn deposit_past_the_range_cap_is_rejected() {
    let mut l = Ledger::new();
    let r1 = deposit(
        txn(TransactionType::Deposit, 1, 1, Some(MAX_AMOUNT_UNITS)),
        &mut l,
    );
    assert_eq!(r1, Outcome::Applied);
    let r2 = deposit(
        txn(TransactionType::Deposit, 1, 2, Some(MAX_AMOUNT_UNITS)),
        &mut l,
    );
    assert_eq!(r2, Outcome::OutOfRange);
    assert_eq!(account(&l, 1), (MAX_AMOUNT_UNITS, 0, MAX_AMOUNT_UNITS, false));
}

#[test]
fn replaying_a_whole_log_matches_stepwise_processing() {
    let log = vec![
        txn(TransactionType::Deposit, 1, 1, Some(100_000)),
        txn(TransactionType::Withdrawal, 1, 2, Some(30_000)),
        txn(TransactionType::Deposit, 2, 3, Some(1)),
        txn(TransactionType::Dispute, 1, 1, None),
        txn(TransactionType::Chargeback, 1, 1, None),
    ];
    let replayed = process_all(&log);

    let mut stepped = Ledger::new();
    for t in &log {
        process_transaction(*t, &mut stepped);
    }
    for client in [1u16, 2u16] {
        assert_eq!(
            replayed.get_account(client).copied(),
            stepped.get_account(client).copied()
        );
    }
    // Disputing the deposit after part of it was withdrawn drives
    // `available` negative; the chargeback then removes the held funds
    // and locks the account.
    assert_eq!(account(&replayed, 1), (-30_000, 0, -30_000, true));
    assert_eq!(account(&replayed, 2), (1, 0, 1, false));
}

#[test]
fn empty_log_yields_an_empty_store() {
    let l = process_all(&Vec::new());
    assert!(l.get_account(0).is_none());
    assert!(l.get_transaction(0).is_none());
}

#[test]
fn dispute_may_name_a_different_client_than_the_depositor() {
    // The store keys records by transaction id alone, so a dispute moves
    // the recorded amount on whatever account the dispute itself names.
    let mut l = Ledger::new();
    deposit(txn(TransactionType::Deposit, 1, 1, Some(100_000)), &mut l);
    deposit(txn(TransactionType::Deposit, 2, 7, Some(50_000)), &mut l);
    let r = dispute(txn(TransactionType::Dispute, 2, 1, None), &mut l);
    assert_eq!(r, Outcome::Applied);
    assert_eq!(account(&l, 2), (-50_000, 100_000, 50_000, false));
    assert_eq!(account(&l, 1), (100_000, 0, 100_000, false));
}

#[test]
fn withdrawal_of_zero_commits_and_changes_nothing() {
    let mut l = Ledger::new();
    deposit(txn(TransactionType::Deposit, 1, 1, Some(100_000)), &mut l);
    let r = withdrawal(txn(TransactionType::Withdrawal, 1, 2, Some(0)), &mut l);
    assert_eq!(r, Outcome::Applied);
    assert_eq!(account(&l, 1), (100_000, 0, 100_000, false));
    let rec = l.get_transaction(2).expect("record should exist");
    assert_eq!(rec.signed_amount.units, 0);
}
