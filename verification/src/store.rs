//! The ledger store: two mappings, client id to account and transaction id
//! to stored record. Pure storage; each put replaces the prior value whole.

use std::collections::HashMap;
use vstd::prelude::*;

use crate::types::{Account, Client, TransactionId, TransactionRecord, account_wf, record_wf};

verus! {

broadcast use vstd::std_specs::hash::group_hash_axioms;

/// The mathematical content of a ledger store: two finite maps.
#[verifier::ext_equal]
pub ghost struct LedgerView {
    pub accounts: Map<Client, Account>,
    pub records: Map<TransactionId, TransactionRecord>,
}

/// The ledger a replay starts from: no accounts, no records.
pub open spec fn empty_ledger() -> LedgerView {
    LedgerView { accounts: Map::empty(), records: Map::empty() }
}

/// Well-formedness of a ledger: every account and every stored record
/// holds only in-range amounts.
pub open spec fn ledger_wf(l: LedgerView) -> bool {
    &&& forall|c: Client| l.accounts.dom().contains(c) ==> account_wf(#[trigger] l.accounts[c])
    &&& forall|t: TransactionId| l.records.dom().contains(t) ==> record_wf(#[trigger] l.records[t])
}

/// The ledger store. Holds the per-client accounts and the per-transaction
/// records; the processor is its only mutator.
pub struct Ledger {
    pub accounts: HashMap<Client, Account>,
    pub records: HashMap<TransactionId, TransactionRecord>,
}

impl View for Ledger {
    type V = LedgerView;

    open spec fn view(&self) -> LedgerView {
        LedgerView { accounts: self.accounts@, records: self.records@ }
    }
}

impl Ledger {
    /// An empty store.
    pub fn new() -> (l: Ledger)
        ensures
            l@ == empty_ledger(),
    {
        let l = Ledger { accounts: HashMap::new(), records: HashMap::new() };
        proof {
            assert(l@ =~= empty_ledger());
        }
        l
    }

    /// Looks a client's account up.
    pub fn get_account(&self, client: Client) -> (r: Option<&Account>)
        ensures
            match r {
                Some(a) => self@.accounts.contains_key(client) && *a == self@.accounts[client],
                None => !self@.accounts.contains_key(client),
            },
    {
        self.accounts.get(&client)
    }

    /// Stores a client's account, replacing any prior value.
    pub fn put_account(&mut self, client: Client, account: Account)
        ensures
            final(self)@.accounts == old(self)@.accounts.insert(client, account),
            final(self)@.records == old(self)@.records,
    {
        self.accounts.insert(client, account);
    }

    /// Looks the stored record for a transaction id up.
    pub fn get_transaction(&self, tx: TransactionId) -> (r: Option<&TransactionRecord>)
        ensures
            match r {
                Some(rec) => self@.records.contains_key(tx) && *rec == self@.records[tx],
                None => !self@.records.contains_key(tx),
            },
    {
        self.records.get(&tx)
    }

    /// Stores the record for a transaction id, replacing any prior value.
    pub fn put_transaction(&mut self, tx: TransactionId, record: TransactionRecord)
        ensures
            final(self)@.records == old(self)@.records.insert(tx, record),
            final(self)@.accounts == old(self)@.accounts,
    {
        self.records.insert(tx, record);
    }
}

} // verus!
