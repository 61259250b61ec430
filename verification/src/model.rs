//! The entities of the ledger and the errors its operations report.
//!
//! Amounts and balances are exact decimals. Identifiers are the 128-bit
//! values of UUIDs.

use vstd::prelude::*;
use crate::decimal::Decimal;

verus! {

/// A point in time: whole seconds since the Unix epoch and the nanoseconds
/// within that second.
#[derive(Clone, Copy, Debug, PartialEq, Eq, Structural)]
pub struct Timestamp {
    pub seconds: i64,
    pub nanos: u32,
}

/// Why a ledger operation was refused. Every refusal leaves the ledger as it was.
#[derive(Clone, Copy, Debug, PartialEq, Eq, Structural)]
pub enum LedgerError {
    /// No account has the given identifier.
    NotFound,
    /// The identifier is taken; or, of the store alone, the idempotency key
    /// was already processed for the account.
    AlreadyExists,
    /// The amount is zero or negative.
    InvalidAmount,
    /// The debit would take the balance below zero.
    InsufficientFunds,
    /// The two accounts of a transfer hold different currencies.
    CurrencyMismatch,
    /// The request makes no sense as posed: a transfer to the same account,
    /// a transfer under a key that another operation has used on either
    /// account, an empty currency code or an empty idempotency key.
    InvalidOperation,
    /// The store cannot hold the result: an entry identifier that is already
    /// in the log, or a balance or version beyond what it can represent.
    StorageUnavailable,
}

/// An account as the ledger holds it.
#[derive(Debug, PartialEq, Eq)]
pub struct Account {
    pub uuid: u128,
    pub currency: String,
    pub balance: Decimal,
    pub version: u64,
    pub created_at: Timestamp,
    pub last_updated_at: Timestamp,
}

/// The mathematical value of an [`Account`].
pub struct AccountView {
    pub uuid: u128,
    pub currency: Seq<char>,
    pub balance: Decimal,
    pub version: nat,
    pub created_at: Timestamp,
    pub last_updated_at: Timestamp,
}

impl View for Account {
    type V = AccountView;

    open spec fn view(&self) -> AccountView {
        AccountView {
            uuid: self.uuid,
            currency: self.currency@,
            balance: self.balance,
            version: self.version as nat,
            created_at: self.created_at,
            last_updated_at: self.last_updated_at,
        }
    }
}

impl Clone for Account {
    fn clone(&self) -> (copy: Self)
        ensures
            copy == *self,
    {
        Account {
            uuid: self.uuid,
            currency: self.currency.clone(),
            balance: self.balance,
            version: self.version,
            created_at: self.created_at,
            last_updated_at: self.last_updated_at,
        }
    }
}

/// One ledger entry: a signed amount posted against one account. A positive
/// amount is a credit, a negative one a debit.
#[derive(Debug, PartialEq, Eq)]
pub struct Transaction {
    pub id: u128,
    pub account_id: u128,
    pub amount: Decimal,
    pub currency: String,
    /// The account's version once this entry was applied.
    pub account_version: u64,
    pub created_at: Timestamp,
    pub idempotency_key: String,
}

/// The mathematical value of a [`Transaction`].
pub struct TransactionView {
    pub id: u128,
    pub account_id: u128,
    pub amount: Decimal,
    pub currency: Seq<char>,
    pub account_version: nat,
    pub created_at: Timestamp,
    pub idempotency_key: Seq<char>,
}

impl View for Transaction {
    type V = TransactionView;

    open spec fn view(&self) -> TransactionView {
        TransactionView {
            id: self.id,
            account_id: self.account_id,
            amount: self.amount,
            currency: self.currency@,
            account_version: self.account_version as nat,
            created_at: self.created_at,
            idempotency_key: self.idempotency_key@,
        }
    }
}

impl Clone for Transaction {
    fn clone(&self) -> (copy: Self)
        ensures
            copy == *self,
    {
        Transaction {
            id: self.id,
            account_id: self.account_id,
            amount: self.amount,
            currency: self.currency.clone(),
            account_version: self.account_version,
            created_at: self.created_at,
            idempotency_key: self.idempotency_key.clone(),
        }
    }
}

/// The values of a list of entries, in order.
pub open spec fn views(entries: Seq<Transaction>) -> Seq<TransactionView> {
    Seq::new(entries.len(), |i: int| entries[i]@)
}

/// Copies a list of entries.
pub fn clone_entries(entries: &Vec<Transaction>) -> (copy: Vec<Transaction>)
    ensures
        copy@ == entries@,
{
    let mut copy: Vec<Transaction> = Vec::new();
    let mut i: usize = 0;
    while i < entries.len()
        invariant
            i <= entries.len(),
            copy@ == entries@.take(i as int),
        decreases entries.len() - i,
    {
        copy.push(entries[i].clone());
        assert(entries@.take(i + 1) =~= entries@.take(i as int).push(entries@[i as int]));
        i += 1;
    }
    assert(entries@.take(entries.len() as int) =~= entries@);
    copy
}

} // verus!
