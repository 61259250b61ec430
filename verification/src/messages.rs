//! What the service is asked and what it answers, as plain values.
//! Identifiers, versions and amounts travel as text, amounts as decimals.

use vstd::prelude::*;
use crate::model::{AccountView, LedgerError, Timestamp, TransactionView};
use crate::amount::amount_decimal;
use crate::text::{decimal_digits, hyphenated};

verus! {

#[derive(Debug, PartialEq, Eq)]
pub struct AccountCreationRequest {
    pub uuid: String,
    pub currency: String,
}

#[derive(Debug, PartialEq, Eq)]
pub struct GetAccountRequest {
    pub uuid: String,
}

#[derive(Debug, PartialEq, Eq)]
pub struct DepositRequest {
    pub account_uuid: String,
    pub amount: String,
    pub idempotency_key: String,
}

#[derive(Debug, PartialEq, Eq)]
pub struct WithdrawRequest {
    pub account_uuid: String,
    pub amount: String,
    pub idempotency_key: String,
}

#[derive(Debug, PartialEq, Eq)]
pub struct TransferRequest {
    pub from_account_uuid: String,
    pub to_account_uuid: String,
    pub amount: String,
    pub idempotency_key: String,
}

/// An account as it is answered.
#[derive(Debug, PartialEq, Eq)]
pub struct AccountResponse {
    pub currency: String,
    pub balance: String,
    pub uuid: String,
    pub version: String,
    pub created_at: Timestamp,
    pub last_updated_at: Timestamp,
}

/// The mathematical value of an [`AccountResponse`].
pub struct AccountResponseView {
    pub currency: Seq<char>,
    pub balance: Seq<char>,
    pub uuid: Seq<char>,
    pub version: Seq<char>,
    pub created_at: Timestamp,
    pub last_updated_at: Timestamp,
}

impl View for AccountResponse {
    type V = AccountResponseView;

    open spec fn view(&self) -> AccountResponseView {
        AccountResponseView {
            currency: self.currency@,
            balance: self.balance@,
            uuid: self.uuid@,
            version: self.version@,
            created_at: self.created_at,
            last_updated_at: self.last_updated_at,
        }
    }
}

/// One ledger entry as it is answered.
#[derive(Debug, PartialEq, Eq)]
pub struct TransactionResponse {
    pub id: String,
    pub amount: String,
    pub currency: String,
    pub account_version: String,
    pub account_id: String,
    pub created_at: Timestamp,
    pub idempotency_key: String,
}

/// The mathematical value of a [`TransactionResponse`].
pub struct TransactionResponseView {
    pub id: Seq<char>,
    pub amount: Seq<char>,
    pub currency: Seq<char>,
    pub account_version: Seq<char>,
    pub account_id: Seq<char>,
    pub created_at: Timestamp,
    pub idempotency_key: Seq<char>,
}

impl View for TransactionResponse {
    type V = TransactionResponseView;

    open spec fn view(&self) -> TransactionResponseView {
        TransactionResponseView {
            id: self.id@,
            amount: self.amount@,
            currency: self.currency@,
            account_version: self.account_version@,
            account_id: self.account_id@,
            created_at: self.created_at,
            idempotency_key: self.idempotency_key@,
        }
    }
}

/// The entries that a posting operation answers, in order.
#[derive(Debug, PartialEq, Eq)]
pub struct TransactionsResponse {
    pub transactions: Vec<TransactionResponse>,
}

impl View for TransactionsResponse {
    type V = Seq<TransactionResponseView>;

    open spec fn view(&self) -> Seq<TransactionResponseView> {
        Seq::new(self.transactions@.len(), |i: int| self.transactions@[i]@)
    }
}

/// Why the service refused a request.
#[derive(Clone, Copy, Debug, PartialEq, Eq, Structural)]
pub enum ServiceError {
    /// A text that should name an account does not spell an identifier.
    MalformedUuid,
    /// A text that should give an amount is no decimal, or has more units
    /// or places than a decimal can hold.
    MalformedAmount,
    /// The ledger refused the operation.
    Ledger(LedgerError),
}

/// How an account is answered: identifier in canonical text, version as a
/// decimal numeral, balance as decimal text, the rest as it is.
pub open spec fn account_response(a: AccountView) -> AccountResponseView {
    AccountResponseView {
        currency: a.currency,
        balance: amount_decimal(a.balance),
        uuid: hyphenated(a.uuid),
        version: decimal_digits(a.version),
        created_at: a.created_at,
        last_updated_at: a.last_updated_at,
    }
}

/// How an entry is answered: identifiers in canonical text, the account
/// version as a decimal numeral, the amount as decimal text, the rest as
/// it is.
pub open spec fn transaction_response(t: TransactionView) -> TransactionResponseView {
    TransactionResponseView {
        id: hyphenated(t.id),
        amount: amount_decimal(t.amount),
        currency: t.currency,
        account_version: decimal_digits(t.account_version),
        account_id: hyphenated(t.account_id),
        created_at: t.created_at,
        idempotency_key: t.idempotency_key,
    }
}

/// How a list of entries is answered: each entry in turn.
pub open spec fn transactions_response(list: Seq<TransactionView>) -> Seq<TransactionResponseView> {
    Seq::new(list.len(), |i: int| transaction_response(list[i]))
}

} // verus!
