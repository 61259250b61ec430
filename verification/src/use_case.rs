//! The five operations of the ledger, each one atomic step on a store.
//!
//! Every operation is stated twice: as a function on ledger values that says
//! what the step is, and as the code that takes the step on a store. A step
//! that fails leaves the ledger as it was. A step that posts entries is given
//! the identifiers of the entries it is to create and the time of posting.

use vstd::prelude::*;
use crate::decimal::Decimal;
use crate::dto::{
    AccountCreationDTO, DepositTransactionDTO, TransferTransactionDTO, WithdrawalTransactionDTO,
};
use crate::model::{
    views, Account, AccountView, LedgerError, Timestamp, Transaction, TransactionView,
};
use crate::state::LedgerState;
use crate::storage::Storage;

verus! {

/// Where a step leaves the ledger, and what it answers.
pub struct Step<T> {
    pub state: LedgerState,
    pub result: Result<T, LedgerError>,
}

/// The value of what an operation on accounts answers.
pub open spec fn account_result(r: Result<Account, LedgerError>) -> Result<
    AccountView,
    LedgerError,
> {
    match r {
        Ok(account) => Ok(account@),
        Err(e) => Err(e),
    }
}

/// The value of what a posting operation answers.
pub open spec fn posting_result(r: Result<Vec<Transaction>, LedgerError>) -> Result<
    Seq<TransactionView>,
    LedgerError,
> {
    match r {
        Ok(list) => Ok(views(list@)),
        Err(e) => Err(e),
    }
}

/// Creating an account: refused with `AlreadyExists` for an identifier
/// that is taken and otherwise with `InvalidOperation` for an empty currency
/// code; otherwise the account is opened and answered.
pub open spec fn create_account_step(
    s: LedgerState,
    id: u128,
    currency: Seq<char>,
    now: Timestamp,
) -> Step<AccountView> {
    match s.open_refusal(id, currency) {
        Some(e) => Step { state: s, result: Err(e) },
        None => {
            let t = s.open_account(id, currency, now);
            Step { state: t, result: Ok(t.accounts[id]) }
        },
    }
}

/// Reading an account: the account, or `NotFound`.
pub open spec fn get_account_answer(s: LedgerState, id: u128) -> Result<AccountView, LedgerError> {
    if s.accounts.contains_key(id) {
        Ok(s.accounts[id])
    } else {
        Err(LedgerError::NotFound)
    }
}

/// Applying one entry on behalf of a deposit or a withdrawal.
pub open spec fn post_step(
    s: LedgerState,
    account_id: u128,
    amount: Decimal,
    key: Seq<char>,
    tx_id: u128,
    now: Timestamp,
) -> Step<Seq<TransactionView>> {
    match s.apply_refusal(account_id, amount, key, tx_id) {
        Some(e) => Step { state: s, result: Err(e) },
        None => Step {
            state: s.apply(account_id, amount, key, tx_id, now),
            result: Ok(seq![s.entry(account_id, amount, key, tx_id, now)]),
        },
    }
}

/// A deposit: refused with `InvalidAmount` unless the amount is positive;
/// answered from the record where the account and key were processed before;
/// otherwise one credit is applied, unless the store refuses it: with
/// `NotFound` for a missing account, with `InvalidOperation` for an empty
/// key, with `StorageUnavailable` for an entry it cannot hold.
pub open spec fn deposit_step(
    s: LedgerState,
    account_id: u128,
    amount: Decimal,
    key: Seq<char>,
    tx_id: u128,
    now: Timestamp,
) -> Step<Seq<TransactionView>> {
    if amount.units <= 0 {
        Step { state: s, result: Err(LedgerError::InvalidAmount) }
    } else if s.replies.contains_key((account_id, key)) {
        Step { state: s, result: Ok(s.replies[(account_id, key)]) }
    } else {
        post_step(s, account_id, amount, key, tx_id, now)
    }
}

/// A withdrawal: as a deposit, but the entry is a debit, and it is refused
/// with `NotFound` for a missing account and with `InsufficientFunds` where
/// the balance would go below zero, before the store is asked.
pub open spec fn withdraw_step(
    s: LedgerState,
    account_id: u128,
    amount: Decimal,
    key: Seq<char>,
    tx_id: u128,
    now: Timestamp,
) -> Step<Seq<TransactionView>> {
    if amount.units <= 0 {
        Step { state: s, result: Err(LedgerError::InvalidAmount) }
    } else if s.replies.contains_key((account_id, key)) {
        Step { state: s, result: Ok(s.replies[(account_id, key)]) }
    } else if !s.accounts.contains_key(account_id) {
        Step { state: s, result: Err(LedgerError::NotFound) }
    } else if s.accounts[account_id].balance.value() < amount.value() {
        Step { state: s, result: Err(LedgerError::InsufficientFunds) }
    } else {
        post_step(s, account_id, amount.negated(), key, tx_id, now)
    }
}

/// A transfer: refused with `InvalidOperation` where the two accounts are
/// one and with `InvalidAmount` unless the amount is positive; answered from
/// the record where this transfer, from the one account to the other under
/// the key, was applied before; refused with `NotFound` where either account
/// is missing, with `CurrencyMismatch` where their currencies differ, with
/// `InsufficientFunds` where the payer holds less than the amount, and with
/// `InvalidOperation` where another operation has used the key on either
/// account; otherwise both legs are applied and answered, the debit first,
/// unless the store refuses them: with `InvalidOperation` for an empty key,
/// with `StorageUnavailable` for entries it cannot hold.
pub open spec fn transfer_step(
    s: LedgerState,
    from: u128,
    to: u128,
    amount: Decimal,
    key: Seq<char>,
    debit_id: u128,
    credit_id: u128,
    now: Timestamp,
) -> Step<Seq<TransactionView>> {
    if from == to {
        Step { state: s, result: Err(LedgerError::InvalidOperation) }
    } else if amount.units <= 0 {
        Step { state: s, result: Err(LedgerError::InvalidAmount) }
    } else if s.transfer_reply(from, to, key) is Some {
        Step { state: s, result: Ok(s.transfer_reply(from, to, key).unwrap()) }
    } else if !s.accounts.contains_key(from) || !s.accounts.contains_key(to) {
        Step { state: s, result: Err(LedgerError::NotFound) }
    } else if s.accounts[from].currency != s.accounts[to].currency {
        Step { state: s, result: Err(LedgerError::CurrencyMismatch) }
    } else if s.accounts[from].balance.value() < amount.value() {
        Step { state: s, result: Err(LedgerError::InsufficientFunds) }
    } else if s.replies.contains_key((from, key)) || s.replies.contains_key((to, key)) {
        Step { state: s, result: Err(LedgerError::InvalidOperation) }
    } else {
        match s.transfer_refusal(from, to, amount, key, debit_id, credit_id) {
            Some(e) => Step { state: s, result: Err(e) },
            None => Step {
                state: s.apply_transfer(from, to, amount, key, debit_id, credit_id, now),
                result: Ok(
                    seq![
                        s.debit_leg(from, amount, key, debit_id, now),
                        s.credit_leg(to, amount, key, credit_id, now),
                    ],
                ),
            },
        }
    }
}

/// Creates the account that `dto` asks for.
pub fn create_account<S: Storage>(storage: &mut S, dto: AccountCreationDTO, now: Timestamp) -> (r:
    Result<Account, LedgerError>)
    requires
        old(storage).inv(),
    ensures
        final(storage).inv(),
        final(storage).state() == create_account_step(
            old(storage).state(),
            dto.uuid,
            dto.currency@,
            now,
        ).state,
        account_result(r) == create_account_step(
            old(storage).state(),
            dto.uuid,
            dto.currency@,
            now,
        ).result,
{
    storage.create_account(dto.uuid, dto.currency, now)
}

/// Reads the account `id`.
pub fn get_account_by_uuid<S: Storage>(storage: &S, id: u128) -> (r: Result<Account, LedgerError>)
    requires
        storage.inv(),
    ensures
        account_result(r) == get_account_answer(storage.state(), id),
{
    storage.get_account(id)
}

/// Applies one entry and answers it as a list of one.
fn post_one<S: Storage>(
    storage: &mut S,
    account_id: u128,
    amount: Decimal,
    key: String,
    tx_id: u128,
    now: Timestamp,
) -> (r: Result<Vec<Transaction>, LedgerError>)
    requires
        old(storage).inv(),
    ensures
        final(storage).inv(),
        final(storage).state() == post_step(
            old(storage).state(),
            account_id,
            amount,
            key@,
            tx_id,
            now,
        ).state,
        posting_result(r) == post_step(
            old(storage).state(),
            account_id,
            amount,
            key@,
            tx_id,
            now,
        ).result,
{
    match storage.apply(account_id, amount, key, tx_id, now) {
        Ok(applied) => {
            let mut list: Vec<Transaction> = Vec::new();
            list.push(applied.1);
            assert(views(list@) =~= seq![applied.1@]);
            Ok(list)
        },
        Err(e) => Err(e),
    }
}

/// Credits the amount that `dto` names, once per account and key.
pub fn deposit<S: Storage>(
    storage: &mut S,
    dto: DepositTransactionDTO,
    tx_id: u128,
    now: Timestamp,
) -> (r: Result<Vec<Transaction>, LedgerError>)
    requires
        old(storage).inv(),
    ensures
        final(storage).inv(),
        final(storage).state() == deposit_step(
            old(storage).state(),
            dto.account_id,
            dto.amount,
            dto.idempotency_key@,
            tx_id,
            now,
        ).state,
        posting_result(r) == deposit_step(
            old(storage).state(),
            dto.account_id,
            dto.amount,
            dto.idempotency_key@,
            tx_id,
            now,
        ).result,
{
    if dto.amount.units <= 0 {
        return Err(LedgerError::InvalidAmount);
    }
    if let Some(earlier) = storage.find_idempotent(dto.account_id, &dto.idempotency_key) {
        return Ok(earlier);
    }
    post_one(storage, dto.account_id, dto.amount, dto.idempotency_key, tx_id, now)
}

/// Debits the amount that `dto` names, once per account and key, unless the
/// balance would go below zero.
pub fn withdraw<S: Storage>(
    storage: &mut S,
    dto: WithdrawalTransactionDTO,
    tx_id: u128,
    now: Timestamp,
) -> (r: Result<Vec<Transaction>, LedgerError>)
    requires
        old(storage).inv(),
    ensures
        final(storage).inv(),
        final(storage).state() == withdraw_step(
            old(storage).state(),
            dto.account_id,
            dto.amount,
            dto.idempotency_key@,
            tx_id,
            now,
        ).state,
        posting_result(r) == withdraw_step(
            old(storage).state(),
            dto.account_id,
            dto.amount,
            dto.idempotency_key@,
            tx_id,
            now,
        ).result,
{
    if dto.amount.units <= 0 {
        return Err(LedgerError::InvalidAmount);
    }
    if let Some(earlier) = storage.find_idempotent(dto.account_id, &dto.idempotency_key) {
        return Ok(earlier);
    }
    let account = match storage.get_account(dto.account_id) {
        Ok(account) => account,
        Err(e) => {
            return Err(e);
        },
    };
    if account.balance.less_than(dto.amount) {
        return Err(LedgerError::InsufficientFunds);
    }
    let debit = Decimal { units: -dto.amount.units, places: dto.amount.places };
    post_one(storage, dto.account_id, debit, dto.idempotency_key, tx_id, now)
}

/// Whether two entries have the same value.
fn same_entry(a: &Transaction, b: &Transaction) -> (same: bool)
    ensures
        same == (a@ == b@),
{
    a.id == b.id && a.account_id == b.account_id && a.amount.units == b.amount.units
        && a.amount.places == b.amount.places && a.currency
        == b.currency && a.account_version == b.account_version && a.created_at.seconds
        == b.created_at.seconds && a.created_at.nanos == b.created_at.nanos && a.idempotency_key
        == b.idempotency_key
}

/// Whether the replies recorded for the two accounts of a transfer are the
/// reply of that transfer: one list of two entries, the first on `from` and
/// the second on `to`.
fn is_transfer_reply(payer: &Vec<Transaction>, payee: &Vec<Transaction>, from: u128, to: u128) -> (yes:
    bool)
    ensures
        yes == {
            &&& views(payee@) == views(payer@)
            &&& views(payer@).len() == 2
            &&& views(payer@)[0].account_id == from
            &&& views(payer@)[1].account_id == to
        },
{
    if payer.len() != 2 || payee.len() != 2 {
        assert(views(payer@).len() == payer@.len());
        assert(views(payee@).len() == payee@.len());
        return false;
    }
    let same = same_entry(&payer[0], &payee[0]) && same_entry(&payer[1], &payee[1]);
    proof {
        assert(views(payer@)[0] == payer@[0]@ && views(payer@)[1] == payer@[1]@);
        assert(views(payee@)[0] == payee@[0]@ && views(payee@)[1] == payee@[1]@);
        if same {
            assert(views(payee@) =~= views(payer@));
        }
    }
    same && payer[0].account_id == from && payer[1].account_id == to
}

/// Moves the amount that `dto` names from one account to the other, once per
/// key, both legs or neither.
pub fn transfer<S: Storage>(
    storage: &mut S,
    dto: TransferTransactionDTO,
    debit_id: u128,
    credit_id: u128,
    now: Timestamp,
) -> (r: Result<Vec<Transaction>, LedgerError>)
    requires
        old(storage).inv(),
    ensures
        final(storage).inv(),
        final(storage).state() == transfer_step(
            old(storage).state(),
            dto.from_account_id,
            dto.to_account_id,
            dto.amount,
            dto.idempotency_key@,
            debit_id,
            credit_id,
            now,
        ).state,
        posting_result(r) == transfer_step(
            old(storage).state(),
            dto.from_account_id,
            dto.to_account_id,
            dto.amount,
            dto.idempotency_key@,
            debit_id,
            credit_id,
            now,
        ).result,
{
    if dto.from_account_id == dto.to_account_id {
        return Err(LedgerError::InvalidOperation);
    }
    if dto.amount.units <= 0 {
        return Err(LedgerError::InvalidAmount);
    }
    let payer_reply = storage.find_idempotent(dto.from_account_id, &dto.idempotency_key);
    let payee_reply = storage.find_idempotent(dto.to_account_id, &dto.idempotency_key);
    let key_taken = payer_reply.is_some() || payee_reply.is_some();
    if let Some(earlier) = payer_reply {
        if let Some(other) = payee_reply {
            if is_transfer_reply(&earlier, &other, dto.from_account_id, dto.to_account_id) {
                return Ok(earlier);
            }
        }
    }
    let payer = match storage.get_account(dto.from_account_id) {
        Ok(account) => account,
        Err(e) => {
            return Err(e);
        },
    };
    let payee = match storage.get_account(dto.to_account_id) {
        Ok(account) => account,
        Err(e) => {
            return Err(e);
        },
    };
    if payer.currency != payee.currency {
        return Err(LedgerError::CurrencyMismatch);
    }
    if payer.balance.less_than(dto.amount) {
        return Err(LedgerError::InsufficientFunds);
    }
    if key_taken {
        return Err(LedgerError::InvalidOperation);
    }
    match storage.apply_transfer(
        dto.from_account_id,
        dto.to_account_id,
        dto.amount,
        dto.idempotency_key,
        debit_id,
        credit_id,
        now,
    ) {
        Ok(applied) => {
            let mut list: Vec<Transaction> = Vec::new();
            list.push(applied.2);
            list.push(applied.3);
            assert(views(list@) =~= seq![applied.2@, applied.3@]);
            Ok(list)
        },
        Err(e) => Err(e),
    }
}

} // verus!
