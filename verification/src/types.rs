//! Data model: fixed-point amounts, transactions, accounts and the stored
//! per-transaction record.

use vstd::prelude::*;

verus! {

/// A client identifier.
pub type Client = u16;

/// A transaction identifier, globally unique within a log.
pub type TransactionId = u32;

/// Number of fixed-point units in one whole currency unit: amounts carry
/// exactly four fractional decimal digits.
pub const UNITS_PER_WHOLE: i128 = 10_000;

/// Largest magnitude, in ten-thousandth units, that an amount or a balance
/// may hold. Sums and differences of two in-range values always fit in
/// an `i128`, so the arithmetic below never overflows.
pub const MAX_AMOUNT_UNITS: i128 = 79_228_162_514_264_337_593_543_950_335;

/// A fixed-point decimal amount: a signed count of ten-thousandths of a
/// whole currency unit.
#[derive(Clone, Copy, Debug, PartialEq, Eq, Structural)]
pub struct Amount {
    pub units: i128,
}

/// Whether a unit count lies within the representable range.
pub open spec fn amount_in_range(units: int) -> bool {
    -MAX_AMOUNT_UNITS <= units <= MAX_AMOUNT_UNITS
}

/// Well-formedness of an amount: its unit count is in range.
pub open spec fn amount_wf(a: Amount) -> bool {
    amount_in_range(a.units as int)
}

impl Amount {
    /// Builds an amount from a raw count of ten-thousandth units.
    pub fn from_units(units: i128) -> (r: Amount)
        ensures
            r.units == units,
    {
        Amount { units }
    }

    /// The zero amount.
    pub fn zero() -> (r: Amount)
        ensures
            r.units == 0,
    {
        Amount { units: 0 }
    }
}

/// The five kinds of record a transaction log may carry.
#[derive(Clone, Copy, Debug, PartialEq, Eq, Structural)]
pub enum TransactionType {
    Deposit,
    Withdrawal,
    Dispute,
    Resolve,
    Chargeback,
}

/// One decoded input record. `amount` is present only for deposits and
/// withdrawals; the other kinds reference an earlier transaction by id.
#[derive(Clone, Copy, Debug)]
pub struct Transaction {
    pub tx_type: TransactionType,
    pub client: Client,
    pub tx: TransactionId,
    pub amount: Option<Amount>,
}

impl Transaction {
    /// Builds a transaction value.
    pub fn new(
        tx_type: TransactionType,
        client: Client,
        tx: TransactionId,
        amount: Option<Amount>,
    ) -> (r: Transaction)
        ensures
            r == (Transaction { tx_type, client, tx, amount }),
    {
        Transaction { tx_type, client, tx, amount }
    }

    /// The kind of this transaction.
    pub fn tx_type(&self) -> (r: TransactionType)
        ensures
            r == self.tx_type,
    {
        self.tx_type
    }

    /// The client the transaction names.
    pub fn client(&self) -> (r: Client)
        ensures
            r == self.client,
    {
        self.client
    }

    /// The transaction id the record carries or references.
    pub fn tx(&self) -> (r: TransactionId)
        ensures
            r == self.tx,
    {
        self.tx
    }

    /// The moved amount, where the kind carries one.
    pub fn amount(&self) -> (r: Option<Amount>)
        ensures
            r == self.amount,
    {
        self.amount
    }
}

/// The amount a deposit or withdrawal moves, as a unit count; zero where
/// the transaction carries no amount.
pub open spec fn txn_amount(t: Transaction) -> int {
    match t.amount {
        Some(a) => a.units as int,
        None => 0,
    }
}

/// A well-formed input transaction: a deposit carries a positive in-range
/// amount, a withdrawal carries an in-range amount. The referencing kinds
/// need no amount.
pub open spec fn transaction_wf(t: Transaction) -> bool {
    match t.tx_type {
        TransactionType::Deposit => t.amount is Some && 0 < txn_amount(t)
            && txn_amount(t) <= MAX_AMOUNT_UNITS,
        TransactionType::Withdrawal => t.amount is Some && amount_in_range(txn_amount(t)),
        _ => true,
    }
}

/// One client's balances. `available` may be withdrawn or placed in
/// dispute, `held` is frozen by open disputes, and `locked` marks an
/// account frozen for good by a chargeback.
#[derive(Clone, Copy, Debug, PartialEq, Eq, Structural)]
pub struct Account {
    pub available: Amount,
    pub held: Amount,
    pub total: Amount,
    pub locked: bool,
}

/// Well-formedness of an account: every balance is in range.
pub open spec fn account_wf(a: Account) -> bool {
    &&& amount_wf(a.available)
    &&& amount_wf(a.held)
    &&& amount_wf(a.total)
}

/// What the store keeps about a processed deposit or withdrawal:
/// the original movement (negative for a withdrawal) and whether a
/// dispute is currently open against it.
#[derive(Clone, Copy, Debug, PartialEq, Eq, Structural)]
pub struct TransactionRecord {
    pub signed_amount: Amount,
    pub dispute_open: bool,
}

/// Well-formedness of a stored record: its amount is in range.
pub open spec fn record_wf(r: TransactionRecord) -> bool {
    amount_wf(r.signed_amount)
}

} // verus!
