//! The reference store: the whole ledger in memory, owned by one value.
//!
//! Every operation takes the store by exclusive reference, so no operation
//! can interleave with another and none can be observed half done.

use std::collections::HashMap;
use vstd::prelude::*;
use crate::decimal::Decimal;
use crate::model::{clone_entries, views, Account, LedgerError, Timestamp, Transaction};
use crate::state::{lemma_apply_transfer_wf, lemma_apply_wf, lemma_empty_wf, lemma_open_account_wf, LedgerState};
use crate::storage::Storage;

verus! {

broadcast use vstd::std_specs::hash::group_hash_axioms;

/// The reply recorded for one account and idempotency key.
struct IdempotencyRecord {
    account_id: u128,
    key: String,
    transactions: Vec<Transaction>,
}

/// The account and key that a record is filed under.
spec fn key_of(record: IdempotencyRecord) -> (u128, Seq<char>) {
    (record.account_id, record.key@)
}

/// A ledger held in memory: the accounts by identifier, the log of entries
/// in the order they were applied, and the recorded replies.
pub struct InMemoryStorage {
    accounts: HashMap<u128, Account>,
    transactions: Vec<Transaction>,
    records: Vec<IdempotencyRecord>,
    state: Ghost<LedgerState>,
}

impl InMemoryStorage {
    /// What is held agrees with the ledger it stands for.
    spec fn agrees(&self) -> bool {
        let s = self.state@;
        &&& forall|id: u128| #[trigger]
            self.accounts@.contains_key(id) <==> s.accounts.contains_key(id)
        &&& forall|id: u128| #[trigger]
            self.accounts@.contains_key(id) ==> self.accounts@[id]@ == s.accounts[id]
        &&& views(self.transactions@) =~= s.log
        &&& forall|r: int|
            0 <= r < self.records.len() ==> {
                let k = #[trigger] key_of(self.records[r]);
                &&& s.replies.contains_key(k)
                &&& views(self.records[r].transactions@) =~= s.replies[k]
            }
        &&& forall|k: (u128, Seq<char>)| #[trigger]
            s.replies.contains_key(k) ==> exists|r: int|
                0 <= r < self.records.len() && #[trigger] key_of(self.records[r]) == k
    }

    /// An empty ledger.
    pub fn new() -> (store: InMemoryStorage)
        ensures
            store.inv(),
            store.state() == LedgerState::empty(),
    {
        proof {
            lemma_empty_wf();
        }
        InMemoryStorage {
            accounts: HashMap::new(),
            transactions: Vec::new(),
            records: Vec::new(),
            state: Ghost(LedgerState::empty()),
        }
    }

    /// Where the reply for `account_id` and `key` is recorded, if it is.
    fn find_record(&self, account_id: u128, key: &String) -> (r: Option<usize>)
        requires
            self.inv(),
        ensures
            match r {
                Some(i) => i < self.records.len() && key_of(self.records[i as int]) == (
                    account_id,
                    key@,
                ),
                None => !self.state@.replies.contains_key((account_id, key@)),
            },
    {
        let mut i: usize = 0;
        while i < self.records.len()
            invariant
                i <= self.records.len(),
                forall|j: int| 0 <= j < i ==> #[trigger] key_of(self.records[j]) != (account_id, key@),
            decreases self.records.len() - i,
        {
            let record = &self.records[i];
            if record.account_id == account_id && record.key == *key {
                return Some(i);
            }
            i += 1;
        }
        None
    }

    /// Whether some entry of the log has the identifier `tx_id`.
    fn has_transaction(&self, tx_id: u128) -> (found: bool)
        requires
            self.inv(),
        ensures
            found == self.state@.has_entry(tx_id),
    {
        let mut i: usize = 0;
        while i < self.transactions.len()
            invariant
                i <= self.transactions.len(),
                views(self.transactions@) == self.state@.log,
                forall|j: int| 0 <= j < i ==> (#[trigger] self.state@.log[j]).id != tx_id,
            decreases self.transactions.len() - i,
        {
            if self.transactions[i].id == tx_id {
                assert(self.state@.log[i as int].id == tx_id);
                return true;
            }
            i += 1;
        }
        false
    }
}

impl Storage for InMemoryStorage {
    closed spec fn state(&self) -> LedgerState {
        self.state@
    }

    closed spec fn inv(&self) -> bool {
        self.state@.wf() && self.agrees()
    }

    proof fn lemma_inv_wf(&self) {
    }

    fn create_account(&mut self, id: u128, currency: String, now: Timestamp) -> (r: Result<
        Account,
        LedgerError,
    >) {
        if self.accounts.contains_key(&id) {
            return Err(LedgerError::AlreadyExists);
        }
        if currency.as_str().is_empty() {
            return Err(LedgerError::InvalidOperation);
        }
        let ghost before = self.state@;
        let account = Account {
            uuid: id,
            currency,
            balance: Decimal::zero(),
            version: 0,
            created_at: now,
            last_updated_at: now,
        };
        self.accounts.insert(id, account.clone());
        self.state = Ghost(before.open_account(id, account.currency@, now));
        proof {
            lemma_open_account_wf(before, id, account.currency@, now);
            assert(self.records == old(self).records);
            assert(self.transactions == old(self).transactions);
        }
        Ok(account)
    }

    fn get_account(&self, id: u128) -> (r: Result<Account, LedgerError>) {
        match self.accounts.get(&id) {
            Some(account) => Ok(account.clone()),
            None => Err(LedgerError::NotFound),
        }
    }

    fn find_idempotent(&self, account_id: u128, key: &String) -> (r: Option<Vec<Transaction>>) {
        match self.find_record(account_id, key) {
            Some(i) => Some(clone_entries(&self.records[i].transactions)),
            None => None,
        }
    }

    fn apply(
        &mut self,
        account_id: u128,
        amount: Decimal,
        key: String,
        tx_id: u128,
        now: Timestamp,
    ) -> (r: Result<(Account, Transaction), LedgerError>) {
        let current = match self.accounts.get(&account_id) {
            Some(account) => account.clone(),
            None => {
                return Err(LedgerError::NotFound);
            },
        };
        if key.as_str().is_empty() {
            return Err(LedgerError::InvalidOperation);
        }
        if self.find_record(account_id, &key).is_some() {
            return Err(LedgerError::AlreadyExists);
        }
        if self.has_transaction(tx_id) || current.version == u64::MAX {
            return Err(LedgerError::StorageUnavailable);
        }
        let balance = match current.balance.checked_add(amount) {
            Some(balance) => balance,
            None => {
                return Err(LedgerError::StorageUnavailable);
            },
        };
        let ghost before = self.state@;
        let entry = Transaction {
            id: tx_id,
            account_id,
            amount,
            currency: current.currency.clone(),
            account_version: current.version + 1,
            created_at: now,
            idempotency_key: key,
        };
        let updated = Account {
            uuid: current.uuid,
            currency: current.currency,
            balance,
            version: current.version + 1,
            created_at: current.created_at,
            last_updated_at: now,
        };
        let mut reply: Vec<Transaction> = Vec::new();
        reply.push(entry.clone());
        self.accounts.insert(account_id, updated.clone());
        self.transactions.push(entry.clone());
        self.records.push(
            IdempotencyRecord {
                account_id,
                key: entry.idempotency_key.clone(),
                transactions: reply,
            },
        );
        self.state = Ghost(before.apply(account_id, amount, entry.idempotency_key@, tx_id, now));
        proof {
            lemma_apply_wf(before, account_id, amount, entry.idempotency_key@, tx_id, now);
            let e = before.entry(account_id, amount, entry.idempotency_key@, tx_id, now);
            assert(entry@ == e);
            assert(views(self.transactions@) =~= before.log.push(e));
            assert(views(reply@) =~= seq![e]);
            let n = old(self).records.len() as int;
            assert(key_of(self.records[n]) == (account_id, entry.idempotency_key@));
            assert forall|r: int| 0 <= r < self.records.len() implies {
                let k = #[trigger] key_of(self.records[r]);
                &&& self.state@.replies.contains_key(k)
                &&& views(self.records[r].transactions@) == self.state@.replies[k]
            } by {
                if r < n {
                    assert(self.records[r] == old(self).records[r]);
                }
            }
            assert forall|k: (u128, Seq<char>)| #[trigger]
                self.state@.replies.contains_key(k) implies exists|r: int|
                0 <= r < self.records.len() && #[trigger] key_of(self.records[r]) == k by {
                if k == (account_id, entry.idempotency_key@) {
                    assert(key_of(self.records[n]) == k);
                } else {
                    let r = choose|r: int|
                        0 <= r < old(self).records.len() && #[trigger] key_of(
                            old(self).records[r],
                        ) == k;
                    assert(self.records[r] == old(self).records[r]);
                    assert(key_of(self.records[r]) == k);
                }
            }
        }
        Ok((updated, entry))
    }

    fn apply_transfer(
        &mut self,
        from: u128,
        to: u128,
        amount: Decimal,
        key: String,
        debit_id: u128,
        credit_id: u128,
        now: Timestamp,
    ) -> (r: Result<(Account, Account, Transaction, Transaction), LedgerError>) {
        if from == to {
            return Err(LedgerError::InvalidOperation);
        }
        let payer = match self.accounts.get(&from) {
            Some(account) => account.clone(),
            None => {
                return Err(LedgerError::NotFound);
            },
        };
        let payee = match self.accounts.get(&to) {
            Some(account) => account.clone(),
            None => {
                return Err(LedgerError::NotFound);
            },
        };
        if key.as_str().is_empty() {
            return Err(LedgerError::InvalidOperation);
        }
        if self.find_record(from, &key).is_some() || self.find_record(to, &key).is_some() {
            return Err(LedgerError::AlreadyExists);
        }
        if debit_id == credit_id || self.has_transaction(debit_id) || self.has_transaction(
            credit_id,
        ) {
            return Err(LedgerError::StorageUnavailable);
        }
        if payer.version == u64::MAX || payee.version == u64::MAX {
            return Err(LedgerError::StorageUnavailable);
        }
        let debit_amount = match amount.checked_neg() {
            Some(opposite) => opposite,
            None => {
                return Err(LedgerError::StorageUnavailable);
            },
        };
        let payer_balance = match payer.balance.checked_add(debit_amount) {
            Some(balance) => balance,
            None => {
                return Err(LedgerError::StorageUnavailable);
            },
        };
        let payee_balance = match payee.balance.checked_add(amount) {
            Some(balance) => balance,
            None => {
                return Err(LedgerError::StorageUnavailable);
            },
        };
        let ghost before = self.state@;
        let ghost key_view = key@;
        let debit = Transaction {
            id: debit_id,
            account_id: from,
            amount: debit_amount,
            currency: payer.currency.clone(),
            account_version: payer.version + 1,
            created_at: now,
            idempotency_key: key.clone(),
        };
        let credit = Transaction {
            id: credit_id,
            account_id: to,
            amount,
            currency: payee.currency.clone(),
            account_version: payee.version + 1,
            created_at: now,
            idempotency_key: key.clone(),
        };
        let payer_after = Account {
            uuid: payer.uuid,
            currency: payer.currency,
            balance: payer_balance,
            version: payer.version + 1,
            created_at: payer.created_at,
            last_updated_at: now,
        };
        let payee_after = Account {
            uuid: payee.uuid,
            currency: payee.currency,
            balance: payee_balance,
            version: payee.version + 1,
            created_at: payee.created_at,
            last_updated_at: now,
        };
        let mut reply: Vec<Transaction> = Vec::new();
        reply.push(debit.clone());
        reply.push(credit.clone());
        let second_reply = clone_entries(&reply);
        self.accounts.insert(from, payer_after.clone());
        self.accounts.insert(to, payee_after.clone());
        self.transactions.push(debit.clone());
        self.transactions.push(credit.clone());
        self.records.push(IdempotencyRecord { account_id: from, key: key.clone(), transactions: reply });
        self.records.push(IdempotencyRecord { account_id: to, key, transactions: second_reply });
        self.state = Ghost(
            before.apply_transfer(from, to, amount, key_view, debit_id, credit_id, now),
        );
        proof {
            lemma_apply_transfer_wf(
                before,
                from,
                to,
                amount,
                key_view,
                debit_id,
                credit_id,
                now,
            );
            let d = before.debit_leg(from, amount, key_view, debit_id, now);
            let c = before.credit_leg(to, amount, key_view, credit_id, now);
            assert(debit@ == d);
            assert(credit@ == c);
            assert(views(self.transactions@) =~= before.log.push(d).push(c));
            assert(views(reply@) =~= seq![d, c]);
            assert(views(second_reply@) =~= seq![d, c]);
            let n = old(self).records.len() as int;
            assert(key_of(self.records[n]) == (from, key_view));
            assert(key_of(self.records[n + 1]) == (to, key_view));
            assert forall|r: int| 0 <= r < self.records.len() implies {
                let k = #[trigger] key_of(self.records[r]);
                &&& self.state@.replies.contains_key(k)
                &&& views(self.records[r].transactions@) == self.state@.replies[k]
            } by {
                if r < n {
                    assert(self.records[r] == old(self).records[r]);
                }
            }
            assert forall|k: (u128, Seq<char>)| #[trigger]
                self.state@.replies.contains_key(k) implies exists|r: int|
                0 <= r < self.records.len() && #[trigger] key_of(self.records[r]) == k by {
                if k == (from, key_view) {
                    assert(key_of(self.records[n]) == k);
                } else if k == (to, key_view) {
                    assert(key_of(self.records[n + 1]) == k);
                } else {
                    let r = choose|r: int|
                        0 <= r < old(self).records.len() && #[trigger] key_of(
                            old(self).records[r],
                        ) == k;
                    assert(self.records[r] == old(self).records[r]);
                    assert(key_of(self.records[r]) == k);
                }
            }
        }
        Ok((payer_after, payee_after, debit, credit))
    }
}

} // verus!
