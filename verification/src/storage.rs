//! What the use cases ask of a store. A store owns the whole ledger; each of
//! its operations takes effect entirely or not at all.

use vstd::prelude::*;
use crate::decimal::Decimal;
use crate::model::{views, Account, LedgerError, Timestamp, Transaction};
use crate::state::LedgerState;

verus! {

pub trait Storage: Sized {
    /// The ledger that the store holds.
    spec fn state(&self) -> LedgerState;

    /// The store's own invariant, which ties what it holds to `state`.
    spec fn inv(&self) -> bool;

    /// A store that satisfies its own invariant holds a ledger that satisfies
    /// the ledger's.
    proof fn lemma_inv_wf(&self)
        requires
            self.inv(),
        ensures
            self.state().wf(),
    ;

    /// Opens the account `id` with a zero balance at version zero.
    /// Refuses with `AlreadyExists` where the identifier is taken, and
    /// otherwise with `InvalidOperation` where the currency code is empty.
    fn create_account(&mut self, id: u128, currency: String, now: Timestamp) -> (r: Result<
        Account,
        LedgerError,
    >)
        requires
            old(self).inv(),
        ensures
            final(self).inv(),
            match old(self).state().open_refusal(id, currency@) {
                Some(e) => r matches Err(x) && x == e && final(self).state() == old(self).state(),
                None => {
                    &&& r matches Ok(a)
                    &&& a@ == final(self).state().accounts[id]
                    &&& final(self).state() == old(self).state().open_account(id, currency@, now)
                },
            },
    ;

    /// Reads the account `id`. Refuses with `NotFound` where there is none.
    fn get_account(&self, id: u128) -> (r: Result<Account, LedgerError>)
        requires
            self.inv(),
        ensures
            match r {
                Ok(a) => self.state().accounts.contains_key(id) && a@ == self.state().accounts[id],
                Err(e) => !self.state().accounts.contains_key(id) && e == LedgerError::NotFound,
            },
    ;

    /// The reply recorded for `account_id` and `key`, if that pair was
    /// processed before.
    fn find_idempotent(&self, account_id: u128, key: &String) -> (r: Option<Vec<Transaction>>)
        requires
            self.inv(),
        ensures
            match r {
                Some(list) => self.state().replies.contains_key((account_id, key@)) && views(list@)
                    == self.state().replies[(account_id, key@)],
                None => !self.state().replies.contains_key((account_id, key@)),
            },
    ;

    /// Applies one entry of `amount` to `account_id`: the balance moves, the
    /// version goes up by one, the entry joins the log and is recorded as the
    /// reply for `key`, all together. Refuses with `NotFound` where the
    /// account is missing, with `InvalidOperation` where the key is empty,
    /// with `AlreadyExists` where the key was processed for it before, and
    /// with `StorageUnavailable` where `tx_id` is already in the log or the
    /// result cannot be represented, in that order.
    fn apply(
        &mut self,
        account_id: u128,
        amount: Decimal,
        key: String,
        tx_id: u128,
        now: Timestamp,
    ) -> (r: Result<(Account, Transaction), LedgerError>)
        requires
            old(self).inv(),
        ensures
            final(self).inv(),
            match old(self).state().apply_refusal(account_id, amount, key@, tx_id) {
                Some(e) => r matches Err(x) && x == e && final(self).state() == old(self).state(),
                None => {
                    &&& r matches Ok(pair)
                    &&& pair.0@ == final(self).state().accounts[account_id]
                    &&& pair.1@ == old(self).state().entry(
                        account_id,
                        amount,
                        key@,
                        tx_id,
                        now,
                    )
                    &&& final(self).state() == old(self).state().apply(
                        account_id,
                        amount,
                        key@,
                        tx_id,
                        now,
                    )
                },
            },
    ;

    /// Applies both legs of a transfer of `amount` from `from` to `to`, or
    /// neither: a debit on `from`, then a credit on `to`, each raising its own
    /// account's version by one, and the pair recorded as the reply for `key`
    /// on either account. Refuses with `InvalidOperation` where the two
    /// accounts are one, with `NotFound` where either is missing, with
    /// `InvalidOperation` where the key is empty, with `AlreadyExists` where
    /// the key was processed for either before, and with `StorageUnavailable`
    /// where an identifier is not fresh or a result cannot be represented, in
    /// that order.
    fn apply_transfer(
        &mut self,
        from: u128,
        to: u128,
        amount: Decimal,
        key: String,
        debit_id: u128,
        credit_id: u128,
        now: Timestamp,
    ) -> (r: Result<(Account, Account, Transaction, Transaction), LedgerError>)
        requires
            old(self).inv(),
        ensures
            final(self).inv(),
            match old(self).state().transfer_refusal(
                from,
                to,
                amount,
                key@,
                debit_id,
                credit_id,
            ) {
                Some(e) => r matches Err(x) && x == e && final(self).state() == old(self).state(),
                None => {
                    &&& r matches Ok(done)
                    &&& done.0@ == final(self).state().accounts[from]
                    &&& done.1@ == final(self).state().accounts[to]
                    &&& done.2@ == old(self).state().debit_leg(
                        from,
                        amount,
                        key@,
                        debit_id,
                        now,
                    )
                    &&& done.3@ == old(self).state().credit_leg(
                        to,
                        amount,
                        key@,
                        credit_id,
                        now,
                    )
                    &&& final(self).state() == old(self).state().apply_transfer(
                        from,
                        to,
                        amount,
                        key@,
                        debit_id,
                        credit_id,
                        now,
                    )
                },
            },
    ;
}

} // verus!
