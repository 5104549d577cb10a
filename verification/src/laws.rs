//! The rules the processor maintains, stated and proved over the
//! spec-level step functions: the balance equation, the freeze of locked
//! accounts, idempotence of settling operations, and the dispute/resolve
//! round trip.

use vstd::prelude::*;

use crate::processor::{
    Outcome, lemma_log_wf_drop_first, log_wf, spec_apply, spec_chargeback, spec_deposit,
    spec_dispute, spec_replay, spec_resolve, spec_withdrawal,
};
use crate::store::{LedgerView, empty_ledger, ledger_wf};
use crate::types::{Account, Client, Transaction, TransactionId, TransactionType, transaction_wf};

verus! {

/// One account's books balance: `total == available + held`.
pub open spec fn account_balanced(a: Account) -> bool {
    a.total.units == a.available.units + a.held.units
}

/// Every account in the ledger balances.
pub open spec fn ledger_balanced(l: LedgerView) -> bool {
    forall|c: Client| l.accounts.dom().contains(c) ==> account_balanced(#[trigger] l.accounts[c])
}

/// Law: applying any one transaction preserves `total == available +
/// held` on every account.
pub proof fn lemma_apply_preserves_balance(l: LedgerView, txn: Transaction)
    requires
        ledger_balanced(l),
    ensures
        ledger_balanced(spec_apply(l, txn)),
{
    let l2 = spec_apply(l, txn);
    assert forall|c: Client| l2.accounts.dom().contains(c) implies account_balanced(
        #[trigger] l2.accounts[c],
    ) by {
        if l.accounts.dom().contains(c) {
            assert(account_balanced(l.accounts[c]));
        }
    }
}

/// Law: replaying any log against a balanced ledger leaves every account
/// with `total == available + held`. The empty ledger is balanced, so
/// the property holds at every observation point of a full replay.
pub proof fn lemma_replay_preserves_balance(l: LedgerView, txns: Seq<Transaction>)
    requires
        ledger_balanced(l),
    ensures
        ledger_balanced(spec_replay(l, txns)),
    decreases txns.len(),
{
    if txns.len() > 0 {
        lemma_apply_preserves_balance(l, txns[0]);
        lemma_replay_preserves_balance(spec_apply(l, txns[0]), txns.drop_first());
    }
}

/// Law: at every observation point of a replay from the empty store —
/// that is, after every prefix of the log — every account satisfies
/// `total == available + held`.
pub proof fn lemma_replay_prefix_balanced(txns: Seq<Transaction>, k: int)
    requires
        0 <= k <= txns.len(),
    ensures
        ledger_balanced(spec_replay(empty_ledger(), txns.take(k))),
{
    lemma_replay_preserves_balance(empty_ledger(), txns.take(k));
}

/// Balances that deposits and withdrawals alone can produce: nothing is
/// held and nothing is negative.
pub open spec fn account_settled_nonneg(a: Account) -> bool {
    &&& a.available.units >= 0
    &&& a.held.units == 0
    &&& a.total.units == a.available.units
}

/// Every account holds only settled, non-negative balances.
pub open spec fn ledger_settled_nonneg(l: LedgerView) -> bool {
    forall|c: Client| l.accounts.dom().contains(c) ==> account_settled_nonneg(
        #[trigger] l.accounts[c],
    )
}

/// A log that moves funds without referencing earlier transactions.
pub open spec fn movement_only_log(txns: Seq<Transaction>) -> bool {
    forall|i: int|
        0 <= i < txns.len() ==> ((#[trigger] txns[i]).tx_type is Deposit
            || txns[i].tx_type is Withdrawal)
}

/// Law: a well-formed log of deposits and withdrawals alone keeps every
/// account at `available >= 0`, `held == 0` (so `held >= 0`) and `total
/// == available`. A dispute can break non-negativity: after a deposit
/// whose funds were since withdrawn, disputing the deposit drives
/// `available` below zero, which is why this law excludes the
/// dispute-referencing kinds.
pub proof fn lemma_replay_movements_nonneg(l: LedgerView, txns: Seq<Transaction>)
    requires
        ledger_settled_nonneg(l),
        log_wf(txns),
        movement_only_log(txns),
    ensures
        ledger_settled_nonneg(spec_replay(l, txns)),
    decreases txns.len(),
{
    if txns.len() > 0 {
        let txn = txns[0];
        let l1 = spec_apply(l, txn);
        assert(transaction_wf(txn));
        assert forall|c: Client| l1.accounts.dom().contains(c) implies account_settled_nonneg(
            #[trigger] l1.accounts[c],
        ) by {
            if l.accounts.dom().contains(c) {
                assert(account_settled_nonneg(l.accounts[c]));
            }
        }
        lemma_log_wf_drop_first(txns);
        assert forall|i: int| 0 <= i < txns.drop_first().len() implies ((
        #[trigger] txns.drop_first()[i]).tx_type is Deposit
            || txns.drop_first()[i].tx_type is Withdrawal) by {
            assert(txns.drop_first()[i] == txns[i + 1]);
        }
        lemma_replay_movements_nonneg(l1, txns.drop_first());
    }
}

/// Both balances of one account are non-negative.
pub open spec fn account_nonneg(a: Account) -> bool {
    a.available.units >= 0 && a.held.units >= 0
}

/// Both balances of every account are non-negative.
pub open spec fn ledger_nonneg(l: LedgerView) -> bool {
    forall|c: Client| l.accounts.dom().contains(c) ==> account_nonneg(#[trigger] l.accounts[c])
}

/// Law: a deposit of a positive in-range amount keeps every balance
/// non-negative.
pub proof fn lemma_deposit_preserves_nonneg(l: LedgerView, c: Client, t: TransactionId, a: int)
    requires
        ledger_nonneg(l),
        0 < a <= crate::types::MAX_AMOUNT_UNITS,
    ensures
        ledger_nonneg(spec_deposit(l, c, t, a).0),
{
    let l2 = spec_deposit(l, c, t, a).0;
    assert forall|c2: Client| l2.accounts.dom().contains(c2) implies account_nonneg(
        #[trigger] l2.accounts[c2],
    ) by {
        if l.accounts.dom().contains(c2) {
            assert(account_nonneg(l.accounts[c2]));
        }
    }
}

/// Law: a withdrawal keeps every balance non-negative: it only commits
/// when the debited `available` stays at or above zero, and `held` is
/// untouched.
pub proof fn lemma_withdrawal_preserves_nonneg(l: LedgerView, c: Client, t: TransactionId, a: int)
    requires
        ledger_nonneg(l),
    ensures
        ledger_nonneg(spec_withdrawal(l, c, t, a).0),
{
    let l2 = spec_withdrawal(l, c, t, a).0;
    assert forall|c2: Client| l2.accounts.dom().contains(c2) implies account_nonneg(
        #[trigger] l2.accounts[c2],
    ) by {
        if l.accounts.dom().contains(c2) {
            assert(account_nonneg(l.accounts[c2]));
        }
    }
}

/// Law: a dispute keeps every balance non-negative exactly when, if it
/// takes effect, the disputed amount does not exceed the account's
/// current `available` funds. A dispute of a deposit whose funds were
/// since withdrawn crosses that boundary and drives `available` below
/// zero.
pub proof fn lemma_dispute_preserves_nonneg(l: LedgerView, c: Client, t: TransactionId)
    requires
        ledger_nonneg(l),
        spec_dispute(l, c, t).1 == Outcome::Applied ==> l.records[t].signed_amount.units
            <= l.accounts[c].available.units,
    ensures
        ledger_nonneg(spec_dispute(l, c, t).0),
{
    let l2 = spec_dispute(l, c, t).0;
    assert forall|c2: Client| l2.accounts.dom().contains(c2) implies account_nonneg(
        #[trigger] l2.accounts[c2],
    ) by {
        if l.accounts.dom().contains(c2) {
            assert(account_nonneg(l.accounts[c2]));
        }
    }
}

/// Law: a resolve keeps every balance non-negative exactly when, if it
/// takes effect, the released amount is between zero and the account's
/// current `held` funds; a dispute opened for the same client put it
/// there.
pub proof fn lemma_resolve_preserves_nonneg(l: LedgerView, c: Client, t: TransactionId)
    requires
        ledger_nonneg(l),
        spec_resolve(l, c, t).1 == Outcome::Applied ==> 0 <= l.records[t].signed_amount.units
            <= l.accounts[c].held.units,
    ensures
        ledger_nonneg(spec_resolve(l, c, t).0),
{
    let l2 = spec_resolve(l, c, t).0;
    assert forall|c2: Client| l2.accounts.dom().contains(c2) implies account_nonneg(
        #[trigger] l2.accounts[c2],
    ) by {
        if l.accounts.dom().contains(c2) {
            assert(account_nonneg(l.accounts[c2]));
        }
    }
}

/// Law: a chargeback keeps every balance non-negative exactly when, if
/// it takes effect, the reversed amount is between zero and the
/// account's current `held` funds.
pub proof fn lemma_chargeback_preserves_nonneg(l: LedgerView, c: Client, t: TransactionId)
    requires
        ledger_nonneg(l),
        spec_chargeback(l, c, t).1 == Outcome::Applied ==> 0 <= l.records[t].signed_amount.units
            <= l.accounts[c].held.units,
    ensures
        ledger_nonneg(spec_chargeback(l, c, t).0),
{
    let l2 = spec_chargeback(l, c, t).0;
    assert forall|c2: Client| l2.accounts.dom().contains(c2) implies account_nonneg(
        #[trigger] l2.accounts[c2],
    ) by {
        if l.accounts.dom().contains(c2) {
            assert(account_nonneg(l.accounts[c2]));
        }
    }
}

/// Law: once an account is locked, no transaction of any kind changes it
/// again; in particular `available`, `held`, `total` and `locked` itself
/// stay as they are.
pub proof fn lemma_apply_preserves_locked_account(l: LedgerView, txn: Transaction, c: Client)
    requires
        l.accounts.dom().contains(c),
        l.accounts[c].locked,
    ensures
        spec_apply(l, txn).accounts.dom().contains(c),
        spec_apply(l, txn).accounts[c] == l.accounts[c],
{
}

/// Law: once an account is locked, replaying any further log leaves that
/// account exactly as it was.
pub proof fn lemma_replay_preserves_locked_account(
    l: LedgerView,
    txns: Seq<Transaction>,
    c: Client,
)
    requires
        l.accounts.dom().contains(c),
        l.accounts[c].locked,
    ensures
        spec_replay(l, txns).accounts.dom().contains(c),
        spec_replay(l, txns).accounts[c] == l.accounts[c],
    decreases txns.len(),
{
    if txns.len() > 0 {
        lemma_apply_preserves_locked_account(l, txns[0], c);
        lemma_replay_preserves_locked_account(spec_apply(l, txns[0]), txns.drop_first(), c);
    }
}

/// Law: replaying the same dispute against the same transaction id is a
/// no-op: a second identical dispute finds the dispute already open and
/// leaves the ledger where the first left it.
pub proof fn lemma_dispute_idempotent(l: LedgerView, c: Client, t: TransactionId)
    ensures
        spec_dispute(spec_dispute(l, c, t).0, c, t).0 == spec_dispute(l, c, t).0,
{
}

/// Law: replaying the same resolve against an already-settled
/// transaction id is a no-op: a second identical resolve leaves the
/// ledger where the first left it.
pub proof fn lemma_resolve_idempotent(l: LedgerView, c: Client, t: TransactionId)
    ensures
        spec_resolve(spec_resolve(l, c, t).0, c, t).0 == spec_resolve(l, c, t).0,
{
}

/// Law: replaying the same chargeback against an already-settled
/// transaction id is a no-op: a second identical chargeback leaves the
/// ledger where the first left it.
pub proof fn lemma_chargeback_idempotent(l: LedgerView, c: Client, t: TransactionId)
    ensures
        spec_chargeback(spec_chargeback(l, c, t).0, c, t).0 == spec_chargeback(l, c, t).0,
{
}

/// Law: a dispute that takes effect, followed by a resolve of the same
/// transaction for the same client, restores the whole ledger — in
/// particular `available` and `held` — to its pre-dispute state, and
/// `total` is unchanged throughout.
pub proof fn lemma_dispute_resolve_roundtrip(l: LedgerView, c: Client, t: TransactionId)
    requires
        ledger_wf(l),
        spec_dispute(l, c, t).1 == Outcome::Applied,
    ensures
        spec_dispute(l, c, t).0.accounts[c].total == l.accounts[c].total,
        spec_resolve(spec_dispute(l, c, t).0, c, t).0 == l,
{
    let l1 = spec_dispute(l, c, t).0;
    let l2 = spec_resolve(l1, c, t).0;
    assert(l2.accounts =~= l.accounts);
    assert(l2.records =~= l.records);
    assert(l2 =~= l);
}

} // verus!
