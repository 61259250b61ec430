//! The inputs of the use cases.

use vstd::prelude::*;
use crate::amount::{amount_from_decimal, decimal_amount, representable};
use crate::decimal::Decimal;
use crate::messages::{
    AccountCreationRequest, DepositRequest, ServiceError, TransferRequest, WithdrawRequest,
};
use crate::text::{parse_uuid, uuid_from_text};

verus! {

/// Asks for a new account.
#[derive(Debug, PartialEq, Eq)]
pub struct AccountCreationDTO {
    pub uuid: u128,
    /// The currency code; it may not be empty.
    pub currency: String,
}

/// Asks for `amount` to be credited to an account.
#[derive(Debug, PartialEq, Eq)]
pub struct DepositTransactionDTO {
    pub account_id: u128,
    /// The amount to credit; it must be positive.
    pub amount: Decimal,
    /// The caller's token for this deposit; it may not be empty.
    pub idempotency_key: String,
}

/// Asks for `amount` to be debited from an account.
#[derive(Debug, PartialEq, Eq)]
pub struct WithdrawalTransactionDTO {
    pub account_id: u128,
    /// The amount to debit; it must be positive.
    pub amount: Decimal,
    /// The caller's token for this withdrawal; it may not be empty.
    pub idempotency_key: String,
}

/// Asks for `amount` to be moved from one account to another.
#[derive(Debug, PartialEq, Eq)]
pub struct TransferTransactionDTO {
    pub from_account_id: u128,
    pub to_account_id: u128,
    /// The amount to move; it must be positive.
    pub amount: Decimal,
    /// The caller's token for this transfer; it may not be empty.
    pub idempotency_key: String,
}

/// The account that a text names, or why it names none.
pub open spec fn read_account(text: Seq<char>) -> Result<u128, ServiceError> {
    match uuid_from_text(text) {
        Some(id) => Ok(id),
        None => Err(ServiceError::MalformedUuid),
    }
}

/// The amount that a decimal text writes, exactly, or why it gives none.
pub open spec fn read_amount(text: Seq<char>) -> Result<Decimal, ServiceError> {
    match representable(decimal_amount(text)) {
        Some(amount) => Ok(amount),
        None => Err(ServiceError::MalformedAmount),
    }
}

/// The account and the amount of a deposit or a withdrawal, read from
/// their texts, the account first.
pub open spec fn read_posting(account: Seq<char>, amount: Seq<char>) -> Result<
    (u128, Decimal),
    ServiceError,
> {
    match read_account(account) {
        Err(e) => Err(e),
        Ok(id) => match read_amount(amount) {
            Err(e) => Err(e),
            Ok(units) => Ok((id, units)),
        },
    }
}

/// The two accounts and the amount of a transfer, read from their texts:
/// the payer first, then the payee, then the amount.
pub open spec fn read_transfer(from: Seq<char>, to: Seq<char>, amount: Seq<char>) -> Result<
    (u128, u128, Decimal),
    ServiceError,
> {
    match read_account(from) {
        Err(e) => Err(e),
        Ok(payer) => match read_posting(to, amount) {
            Err(e) => Err(e),
            Ok(rest) => Ok((payer, rest.0, rest.1)),
        },
    }
}

/// Reads an account from its text.
pub fn account_from_text(text: &str) -> (r: Result<u128, ServiceError>)
    ensures
        r == read_account(text@),
{
    match parse_uuid(text) {
        Some(id) => Ok(id),
        None => Err(ServiceError::MalformedUuid),
    }
}

/// Reads an account and an amount from their texts.
fn posting_from_text(account: &str, amount: &str) -> (r: Result<(u128, Decimal), ServiceError>)
    ensures
        r == read_posting(account@, amount@),
{
    let id = match account_from_text(account) {
        Ok(id) => id,
        Err(e) => {
            return Err(e);
        },
    };
    match amount_from_decimal(amount) {
        Some(units) => Ok((id, units)),
        None => Err(ServiceError::MalformedAmount),
    }
}

impl AccountCreationDTO {
    /// Reads the request: the identifier from its text, the currency as it is.
    pub fn from_request(request: AccountCreationRequest) -> (r: Result<
        AccountCreationDTO,
        ServiceError,
    >)
        ensures
            match read_account(request.uuid@) {
                Ok(id) => r matches Ok(dto) && dto.uuid == id && dto.currency@
                    == request.currency@,
                Err(e) => r matches Err(x) && x == e,
            },
    {
        match account_from_text(request.uuid.as_str()) {
            Ok(id) => Ok(AccountCreationDTO { uuid: id, currency: request.currency }),
            Err(e) => Err(e),
        }
    }
}

impl DepositTransactionDTO {
    /// Reads the request: the account and the amount from their texts, the
    /// key as it is.
    pub fn from_request(request: DepositRequest) -> (r: Result<DepositTransactionDTO, ServiceError>)
        ensures
            match read_posting(request.account_uuid@, request.amount@) {
                Ok(read) => r matches Ok(dto) && dto.account_id == read.0 && dto.amount == read.1
                    && dto.idempotency_key@ == request.idempotency_key@,
                Err(e) => r matches Err(x) && x == e,
            },
    {
        match posting_from_text(request.account_uuid.as_str(), request.amount.as_str()) {
            Ok(read) => Ok(
                DepositTransactionDTO {
                    account_id: read.0,
                    amount: read.1,
                    idempotency_key: request.idempotency_key,
                },
            ),
            Err(e) => Err(e),
        }
    }
}

impl WithdrawalTransactionDTO {
    /// Reads the request: the account and the amount from their texts, the
    /// key as it is.
    pub fn from_request(request: WithdrawRequest) -> (r: Result<
        WithdrawalTransactionDTO,
        ServiceError,
    >)
        ensures
            match read_posting(request.account_uuid@, request.amount@) {
                Ok(read) => r matches Ok(dto) && dto.account_id == read.0 && dto.amount == read.1
                    && dto.idempotency_key@ == request.idempotency_key@,
                Err(e) => r matches Err(x) && x == e,
            },
    {
        match posting_from_text(request.account_uuid.as_str(), request.amount.as_str()) {
            Ok(read) => Ok(
                WithdrawalTransactionDTO {
                    account_id: read.0,
                    amount: read.1,
                    idempotency_key: request.idempotency_key,
                },
            ),
            Err(e) => Err(e),
        }
    }
}

impl TransferTransactionDTO {
    /// Reads the request: both accounts and the amount from their texts,
    /// the key as it is.
    pub fn from_request(request: TransferRequest) -> (r: Result<
        TransferTransactionDTO,
        ServiceError,
    >)
        ensures
            match read_transfer(
                request.from_account_uuid@,
                request.to_account_uuid@,
                request.amount@,
            ) {
                Ok(read) => r matches Ok(dto) && dto.from_account_id == read.0 && dto.to_account_id
                    == read.1 && dto.amount == read.2 && dto.idempotency_key@
                    == request.idempotency_key@,
                Err(e) => r matches Err(x) && x == e,
            },
    {
        let from = match account_from_text(request.from_account_uuid.as_str()) {
            Ok(id) => id,
            Err(e) => {
                return Err(e);
            },
        };
        match posting_from_text(request.to_account_uuid.as_str(), request.amount.as_str()) {
            Ok(read) => Ok(
                TransferTransactionDTO {
                    from_account_id: from,
                    to_account_id: read.0,
                    amount: read.1,
                    idempotency_key: request.idempotency_key,
                },
            ),
            Err(e) => Err(e),
        }
    }
}

} // verus!
