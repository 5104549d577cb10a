//! The transaction processor: the state machine that applies one
//! transaction at a time to the ledger store.
//!
//! Each operation's effect is given first as a spec-level step function on
//! `LedgerView`, returning the new view together with the named outcome;
//! the executable operation is proved to match that step exactly. Every
//! rejection is a silent no-op on the store, reported only through the
//! returned [`Outcome`].

use vstd::prelude::*;

use crate::store::{Ledger, LedgerView, empty_ledger, ledger_wf};
use crate::types::{
    Account, Amount, Client, MAX_AMOUNT_UNITS, Transaction, TransactionId, TransactionRecord,
    TransactionType, amount_in_range, transaction_wf, txn_amount,
};

verus! {

/// How the processor disposed of one transaction. Every value but
/// `Applied` names a rejection that left the account mapping unchanged.
#[derive(Clone, Copy, Debug, PartialEq, Eq, Structural)]
pub enum Outcome {
    /// The transaction mutated the store.
    Applied,
    /// A withdrawal would have driven `available` below zero.
    InsufficientFunds,
    /// The target account is locked; balances stay frozen.
    AccountLocked,
    /// The named client has no account.
    UnknownClient,
    /// The referenced transaction id was never recorded.
    UnknownTransaction,
    /// A dispute referenced a transaction already under dispute.
    AlreadyDisputed,
    /// A resolve or chargeback referenced a transaction with no open dispute.
    NotDisputed,
    /// A dispute referenced a withdrawal, which is non-disputable.
    NotDisputable,
    /// A balance would have left the representable fixed-point range.
    OutOfRange,
}

/// Effect of `Deposit(c, t, a)`: the record for `t` is (re)written
/// unconditionally; the account is created on first sight, credited when
/// unlocked and in range, and untouched otherwise.
pub open spec fn spec_deposit(l: LedgerView, c: Client, t: TransactionId, a: int) -> (
    LedgerView,
    Outcome,
) {
    let records2 = l.records.insert(
        t,
        TransactionRecord { signed_amount: Amount { units: a as i128 }, dispute_open: false },
    );
    if !l.accounts.dom().contains(c) {
        (
            LedgerView {
                accounts: l.accounts.insert(
                    c,
                    Account {
                        available: Amount { units: a as i128 },
                        held: Amount { units: 0 },
                        total: Amount { units: a as i128 },
                        locked: false,
                    },
                ),
                records: records2,
            },
            Outcome::Applied,
        )
    } else if l.accounts[c].locked {
        (LedgerView { accounts: l.accounts, records: records2 }, Outcome::AccountLocked)
    } else {
        let acc = l.accounts[c];
        let new_available = acc.available.units + a;
        let new_total = acc.total.units + a;
        if !amount_in_range(new_available) || !amount_in_range(new_total) {
            (LedgerView { accounts: l.accounts, records: records2 }, Outcome::OutOfRange)
        } else {
            (
                LedgerView {
                    accounts: l.accounts.insert(
                        c,
                        Account {
                            available: Amount { units: new_available as i128 },
                            held: acc.held,
                            total: Amount { units: new_total as i128 },
                            locked: acc.locked,
                        },
                    ),
                    records: records2,
                },
                Outcome::Applied,
            )
        }
    }
}

/// Effect of `Withdrawal(c, t, a)`: the record for `t` is (re)written
/// unconditionally with the negated amount; the account is debited only
/// when it exists, is unlocked, the result is in range and `available`
/// stays non-negative.
pub open spec fn spec_withdrawal(l: LedgerView, c: Client, t: TransactionId, a: int) -> (
    LedgerView,
    Outcome,
) {
    let records2 = l.records.insert(
        t,
        TransactionRecord { signed_amount: Amount { units: (-a) as i128 }, dispute_open: false },
    );
    if !l.accounts.dom().contains(c) {
        (LedgerView { accounts: l.accounts, records: records2 }, Outcome::UnknownClient)
    } else if l.accounts[c].locked {
        (LedgerView { accounts: l.accounts, records: records2 }, Outcome::AccountLocked)
    } else {
        let acc = l.accounts[c];
        let new_available = acc.available.units - a;
        let new_total = acc.total.units - a;
        if !amount_in_range(new_available) || !amount_in_range(new_total) {
            (LedgerView { accounts: l.accounts, records: records2 }, Outcome::OutOfRange)
        } else if new_available < 0 {
            (LedgerView { accounts: l.accounts, records: records2 }, Outcome::InsufficientFunds)
        } else {
            (
                LedgerView {
                    accounts: l.accounts.insert(
                        c,
                        Account {
                            available: Amount { units: new_available as i128 },
                            held: acc.held,
                            total: Amount { units: new_total as i128 },
                            locked: acc.locked,
                        },
                    ),
                    records: records2,
                },
                Outcome::Applied,
            )
        }
    }
}

/// Effect of `Dispute(c, t)`: when `t` names a recorded, undisputed,
/// non-withdrawal movement and `c` an existing unlocked account, the
/// movement's amount shifts from `available` to `held` and the record's
/// dispute flag opens; otherwise nothing changes.
pub open spec fn spec_dispute(l: LedgerView, c: Client, t: TransactionId) -> (
    LedgerView,
    Outcome,
) {
    if !l.records.dom().contains(t) {
        (l, Outcome::UnknownTransaction)
    } else if l.records[t].dispute_open {
        (l, Outcome::AlreadyDisputed)
    } else if l.records[t].signed_amount.units < 0 {
        (l, Outcome::NotDisputable)
    } else if !l.accounts.dom().contains(c) {
        (l, Outcome::UnknownClient)
    } else if l.accounts[c].locked {
        (l, Outcome::AccountLocked)
    } else {
        let a = l.records[t].signed_amount.units as int;
        let acc = l.accounts[c];
        let new_available = acc.available.units - a;
        let new_held = acc.held.units + a;
        if !amount_in_range(new_available) || !amount_in_range(new_held) {
            (l, Outcome::OutOfRange)
        } else {
            (
                LedgerView {
                    accounts: l.accounts.insert(
                        c,
                        Account {
                            available: Amount { units: new_available as i128 },
                            held: Amount { units: new_held as i128 },
                            total: acc.total,
                            locked: acc.locked,
                        },
                    ),
                    records: l.records.insert(
                        t,
                        TransactionRecord {
                            signed_amount: l.records[t].signed_amount,
                            dispute_open: true,
                        },
                    ),
                },
                Outcome::Applied,
            )
        }
    }
}

/// Effect of `Resolve(c, t)`: when `t` names a recorded movement under an
/// open dispute and `c` an existing unlocked account, the held amount
/// returns to `available` and the dispute closes; otherwise nothing
/// changes.
pub open spec fn spec_resolve(l: LedgerView, c: Client, t: TransactionId) -> (
    LedgerView,
    Outcome,
) {
    if !l.records.dom().contains(t) {
        (l, Outcome::UnknownTransaction)
    } else if !l.records[t].dispute_open {
        (l, Outcome::NotDisputed)
    } else if !l.accounts.dom().contains(c) {
        (l, Outcome::UnknownClient)
    } else if l.accounts[c].locked {
        (l, Outcome::AccountLocked)
    } else {
        let a = l.records[t].signed_amount.units as int;
        let acc = l.accounts[c];
        let new_available = acc.available.units + a;
        let new_held = acc.held.units - a;
        if !amount_in_range(new_available) || !amount_in_range(new_held) {
            (l, Outcome::OutOfRange)
        } else {
            (
                LedgerView {
                    accounts: l.accounts.insert(
                        c,
                        Account {
                            available: Amount { units: new_available as i128 },
                            held: Amount { units: new_held as i128 },
                            total: acc.total,
                            locked: acc.locked,
                        },
                    ),
                    records: l.records.insert(
                        t,
                        TransactionRecord {
                            signed_amount: l.records[t].signed_amount,
                            dispute_open: false,
                        },
                    ),
                },
                Outcome::Applied,
            )
        }
    }
}

/// Effect of `Chargeback(c, t)`: when `t` names a recorded movement under
/// an open dispute and `c` an existing unlocked account, the held amount
/// leaves the account, the dispute closes, and the account locks for
/// good; otherwise nothing changes.
pub open spec fn spec_chargeback(l: LedgerView, c: Client, t: TransactionId) -> (
    LedgerView,
    Outcome,
) {
    if !l.records.dom().contains(t) {
        (l, Outcome::UnknownTransaction)
    } else if !l.records[t].dispute_open {
        (l, Outcome::NotDisputed)
    } else if !l.accounts.dom().contains(c) {
        (l, Outcome::UnknownClient)
    } else if l.accounts[c].locked {
        (l, Outcome::AccountLocked)
    } else {
        let a = l.records[t].signed_amount.units as int;
        let acc = l.accounts[c];
        let new_held = acc.held.units - a;
        let new_total = acc.total.units - a;
        if !amount_in_range(new_held) || !amount_in_range(new_total) {
            (l, Outcome::OutOfRange)
        } else {
            (
                LedgerView {
                    accounts: l.accounts.insert(
                        c,
                        Account {
                            available: acc.available,
                            held: Amount { units: new_held as i128 },
                            total: Amount { units: new_total as i128 },
                            locked: true,
                        },
                    ),
                    records: l.records.insert(
                        t,
                        TransactionRecord {
                            signed_amount: l.records[t].signed_amount,
                            dispute_open: false,
                        },
                    ),
                },
                Outcome::Applied,
            )
        }
    }
}

/// The ledger after one transaction of any kind.
pub open spec fn spec_apply(l: LedgerView, txn: Transaction) -> LedgerView {
    match txn.tx_type {
        TransactionType::Deposit => spec_deposit(l, txn.client, txn.tx, txn_amount(txn)).0,
        TransactionType::Withdrawal => spec_withdrawal(l, txn.client, txn.tx, txn_amount(txn)).0,
        TransactionType::Dispute => spec_dispute(l, txn.client, txn.tx).0,
        TransactionType::Resolve => spec_resolve(l, txn.client, txn.tx).0,
        TransactionType::Chargeback => spec_chargeback(l, txn.client, txn.tx).0,
    }
}

/// The outcome the processor reports for one transaction.
pub open spec fn spec_outcome(l: LedgerView, txn: Transaction) -> Outcome {
    match txn.tx_type {
        TransactionType::Deposit => spec_deposit(l, txn.client, txn.tx, txn_amount(txn)).1,
        TransactionType::Withdrawal => spec_withdrawal(l, txn.client, txn.tx, txn_amount(txn)).1,
        TransactionType::Dispute => spec_dispute(l, txn.client, txn.tx).1,
        TransactionType::Resolve => spec_resolve(l, txn.client, txn.tx).1,
        TransactionType::Chargeback => spec_chargeback(l, txn.client, txn.tx).1,
    }
}

/// The ledger after a whole log, applied strictly in order.
pub open spec fn spec_replay(l: LedgerView, txns: Seq<Transaction>) -> LedgerView
    decreases txns.len(),
{
    if txns.len() == 0 {
        l
    } else {
        spec_replay(spec_apply(l, txns[0]), txns.drop_first())
    }
}

/// Every transaction of a log is well formed.
pub open spec fn log_wf(txns: Seq<Transaction>) -> bool {
    forall|i: int| 0 <= i < txns.len() ==> transaction_wf(#[trigger] txns[i])
}

/// Applies a deposit: records the movement, then credits the account
/// unless it is locked or the credit would leave the fixed-point range.
pub fn deposit(transaction: Transaction, ledger: &mut Ledger) -> (r: Outcome)
    requires
        ledger_wf(old(ledger)@),
        transaction.amount is Some,
        0 < txn_amount(transaction) <= MAX_AMOUNT_UNITS,
    ensures
        final(ledger)@ == spec_deposit(
            old(ledger)@,
            transaction.client,
            transaction.tx,
            txn_amount(transaction),
        ).0,
        r == spec_deposit(
            old(ledger)@,
            transaction.client,
            transaction.tx,
            txn_amount(transaction),
        ).1,
        ledger_wf(final(ledger)@),
{
    let amount = transaction.amount.unwrap();
    ledger.put_transaction(
        transaction.tx,
        TransactionRecord { signed_amount: amount, dispute_open: false },
    );

    let account = match ledger.get_account(transaction.client) {
        Some(a) => *a,
        None => {
            ledger.put_account(
                transaction.client,
                Account {
                    available: amount,
                    held: Amount { units: 0 },
                    total: amount,
                    locked: false,
                },
            );
            return Outcome::Applied;
        },
    };
    if account.locked {
        return Outcome::AccountLocked;
    }
    let new_available = account.available.units + amount.units;
    let new_total = account.total.units + amount.units;
    if new_available > MAX_AMOUNT_UNITS || new_total > MAX_AMOUNT_UNITS {
        return Outcome::OutOfRange;
    }
    ledger.put_account(
        transaction.client,
        Account {
            available: Amount { units: new_available },
            held: account.held,
            total: Amount { units: new_total },
            locked: account.locked,
        },
    );
    Outcome::Applied
}

/// Applies a withdrawal: records the negated movement, then debits the
/// account unless it is absent, locked, out of range, or short of funds.
pub fn withdrawal(transaction: Transaction, ledger: &mut Ledger) -> (r: Outcome)
    requires
        ledger_wf(old(ledger)@),
        transaction.amount is Some,
        amount_in_range(txn_amount(transaction)),
    ensures
        final(ledger)@ == spec_withdrawal(
            old(ledger)@,
            transaction.client,
            transaction.tx,
            txn_amount(transaction),
        ).0,
        r == spec_withdrawal(
            old(ledger)@,
            transaction.client,
            transaction.tx,
            txn_amount(transaction),
        ).1,
        ledger_wf(final(ledger)@),
{
    let amount = transaction.amount.unwrap();
    ledger.put_transaction(
        transaction.tx,
        TransactionRecord { signed_amount: Amount { units: -amount.units }, dispute_open: false },
    );

    let account = match ledger.get_account(transaction.client) {
        Some(a) => *a,
        None => {
            return Outcome::UnknownClient;
        },
    };
    if account.locked {
        return Outcome::AccountLocked;
    }
    let new_available = account.available.units - amount.units;
    let new_total = account.total.units - amount.units;
    if new_available < -MAX_AMOUNT_UNITS || new_available > MAX_AMOUNT_UNITS || new_total
        < -MAX_AMOUNT_UNITS || new_total > MAX_AMOUNT_UNITS {
        return Outcome::OutOfRange;
    }
    if new_available < 0 {
        return Outcome::InsufficientFunds;
    }
    ledger.put_account(
        transaction.client,
        Account {
            available: Amount { units: new_available },
            held: account.held,
            total: Amount { units: new_total },
            locked: account.locked,
        },
    );
    Outcome::Applied
}

/// Applies a dispute: opens a hold on a recorded, undisputed deposit for
/// an existing unlocked account; every other case is a no-op.
pub fn dispute(transaction: Transaction, ledger: &mut Ledger) -> (r: Outcome)
    requires
        ledger_wf(old(ledger)@),
    ensures
        final(ledger)@ == spec_dispute(old(ledger)@, transaction.client, transaction.tx).0,
        r == spec_dispute(old(ledger)@, transaction.client, transaction.tx).1,
        ledger_wf(final(ledger)@),
{
    let record = match ledger.get_transaction(transaction.tx) {
        Some(rec) => *rec,
        None => {
            return Outcome::UnknownTransaction;
        },
    };
    if record.dispute_open {
        return Outcome::AlreadyDisputed;
    }
    if record.signed_amount.units < 0 {
        return Outcome::NotDisputable;
    }
    let account = match ledger.get_account(transaction.client) {
        Some(a) => *a,
        None => {
            return Outcome::UnknownClient;
        },
    };
    if account.locked {
        return Outcome::AccountLocked;
    }
    let new_available = account.available.units - record.signed_amount.units;
    let new_held = account.held.units + record.signed_amount.units;
    if new_available < -MAX_AMOUNT_UNITS || new_available > MAX_AMOUNT_UNITS || new_held
        < -MAX_AMOUNT_UNITS || new_held > MAX_AMOUNT_UNITS {
        return Outcome::OutOfRange;
    }
    ledger.put_transaction(
        transaction.tx,
        TransactionRecord { signed_amount: record.signed_amount, dispute_open: true },
    );
    ledger.put_account(
        transaction.client,
        Account {
            available: Amount { units: new_available },
            held: Amount { units: new_held },
            total: account.total,
            locked: account.locked,
        },
    );
    Outcome::Applied
}

/// Applies a resolve: releases the hold of an open dispute back to
/// `available` for an existing unlocked account; every other case is a
/// no-op.
pub fn resolve(transaction: Transaction, ledger: &mut Ledger) -> (r: Outcome)
    requires
        ledger_wf(old(ledger)@),
    ensures
        final(ledger)@ == spec_resolve(old(ledger)@, transaction.client, transaction.tx).0,
        r == spec_resolve(old(ledger)@, transaction.client, transaction.tx).1,
        ledger_wf(final(ledger)@),
{
    let record = match ledger.get_transaction(transaction.tx) {
        Some(rec) => *rec,
        None => {
            return Outcome::UnknownTransaction;
        },
    };
    if !record.dispute_open {
        return Outcome::NotDisputed;
    }
    let account = match ledger.get_account(transaction.client) {
        Some(a) => *a,
        None => {
            return Outcome::UnknownClient;
        },
    };
    if account.locked {
        return Outcome::AccountLocked;
    }
    let new_available = account.available.units + record.signed_amount.units;
    let new_held = account.held.units - record.signed_amount.units;
    if new_available < -MAX_AMOUNT_UNITS || new_available > MAX_AMOUNT_UNITS || new_held
        < -MAX_AMOUNT_UNITS || new_held > MAX_AMOUNT_UNITS {
        return Outcome::OutOfRange;
    }
    ledger.put_transaction(
        transaction.tx,
        TransactionRecord { signed_amount: record.signed_amount, dispute_open: false },
    );
    ledger.put_account(
        transaction.client,
        Account {
            available: Amount { units: new_available },
            held: Amount { units: new_held },
            total: account.total,
            locked: account.locked,
        },
    );
    Outcome::Applied
}

/// Applies a chargeback: reverses the held movement of an open dispute
/// and locks the account for good; every other case is a no-op.
pub fn chargeback(transaction: Transaction, ledger: &mut Ledger) -> (r: Outcome)
    requires
        ledger_wf(old(ledger)@),
    ensures
        final(ledger)@ == spec_chargeback(old(ledger)@, transaction.client, transaction.tx).0,
        r == spec_chargeback(old(ledger)@, transaction.client, transaction.tx).1,
        ledger_wf(final(ledger)@),
{
    let record = match ledger.get_transaction(transaction.tx) {
        Some(rec) => *rec,
        None => {
            return Outcome::UnknownTransaction;
        },
    };
    if !record.dispute_open {
        return Outcome::NotDisputed;
    }
    let account = match ledger.get_account(transaction.client) {
        Some(a) => *a,
        None => {
            return Outcome::UnknownClient;
        },
    };
    if account.locked {
        return Outcome::AccountLocked;
    }
    let new_held = account.held.units - record.signed_amount.units;
    let new_total = account.total.units - record.signed_amount.units;
    if new_held < -MAX_AMOUNT_UNITS || new_held > MAX_AMOUNT_UNITS || new_total
        < -MAX_AMOUNT_UNITS || new_total > MAX_AMOUNT_UNITS {
        return Outcome::OutOfRange;
    }
    ledger.put_transaction(
        transaction.tx,
        TransactionRecord { signed_amount: record.signed_amount, dispute_open: false },
    );
    ledger.put_account(
        transaction.client,
        Account {
            available: account.available,
            held: Amount { units: new_held },
            total: Amount { units: new_total },
            locked: true,
        },
    );
    Outcome::Applied
}

/// Applies one transaction of any kind to the store.
pub fn process_transaction(transaction: Transaction, ledger: &mut Ledger) -> (r: Outcome)
    requires
        ledger_wf(old(ledger)@),
        transaction_wf(transaction),
    ensures
        final(ledger)@ == spec_apply(old(ledger)@, transaction),
        r == spec_outcome(old(ledger)@, transaction),
        ledger_wf(final(ledger)@),
{
    match transaction.tx_type {
        TransactionType::Deposit => deposit(transaction, ledger),
        TransactionType::Withdrawal => withdrawal(transaction, ledger),
        TransactionType::Dispute => dispute(transaction, ledger),
        TransactionType::Resolve => resolve(transaction, ledger),
        TransactionType::Chargeback => chargeback(transaction, ledger),
    }
}

/// A log stays well formed when its first transaction is dropped.
pub proof fn lemma_log_wf_drop_first(txns: Seq<Transaction>)
    requires
        log_wf(txns),
        txns.len() > 0,
    ensures
        log_wf(txns.drop_first()),
{
    assert forall|i: int| 0 <= i < txns.drop_first().len() implies transaction_wf(
        #[trigger] txns.drop_first()[i],
    ) by {
        assert(txns.drop_first()[i] == txns[i + 1]);
    }
}

/// Replaying a log and then one more transaction is the same as replaying
/// the extended log.
pub proof fn lemma_replay_snoc(l: LedgerView, txns: Seq<Transaction>, txn: Transaction)
    ensures
        spec_replay(l, txns.push(txn)) == spec_apply(spec_replay(l, txns), txn),
    decreases txns.len(),
{
    if txns.len() == 0 {
        assert(txns.push(txn).drop_first() =~= Seq::<Transaction>::empty());
        assert(txns.push(txn)[0] == txn);
        assert(spec_replay(l, txns) == l);
        assert(spec_replay(l, txns.push(txn)) == spec_replay(
            spec_apply(l, txn),
            Seq::<Transaction>::empty(),
        ));
        assert(spec_replay(spec_apply(l, txn), Seq::<Transaction>::empty()) == spec_apply(l, txn));
    } else {
        assert(txns.push(txn)[0] == txns[0]);
        assert(txns.push(txn).drop_first() =~= txns.drop_first().push(txn));
        lemma_replay_snoc(spec_apply(l, txns[0]), txns.drop_first(), txn);
        assert(spec_replay(l, txns.push(txn)) == spec_replay(
            spec_apply(l, txns[0]),
            txns.drop_first().push(txn),
        ));
        assert(spec_replay(l, txns) == spec_replay(spec_apply(l, txns[0]), txns.drop_first()));
    }
}

/// Replays a whole log, in order, against a fresh store, and returns the
/// final per-client account state.
pub fn process_all(transactions: &Vec<Transaction>) -> (l: Ledger)
    requires
        log_wf(transactions@),
    ensures
        l@ == spec_replay(empty_ledger(), transactions@),
        ledger_wf(l@),
{
    let mut ledger = Ledger::new();
    let n = transactions.len();
    let mut i: usize = 0;
    while i < n
        invariant
            n == transactions@.len(),
            0 <= i <= n,
            log_wf(transactions@),
            ledger@ == spec_replay(empty_ledger(), transactions@.take(i as int)),
            ledger_wf(ledger@),
        decreases n - i,
    {
        let txn = transactions[i];
        proof {
            assert(transactions@.take(i as int + 1) =~= transactions@.take(i as int).push(
                transactions@[i as int],
            ));
            lemma_replay_snoc(empty_ledger(), transactions@.take(i as int), transactions@[i as int]);
        }
        process_transaction(txn, &mut ledger);
        i = i + 1;
    }
    proof {
        assert(transactions@.take(n as int) =~= transactions@);
    }
    ledger
}

} // verus!
