//! The service: reads a request, runs the use case on its store, and writes
//! the answer. It owns the store, so whoever holds the service exclusively
//! runs one operation at a time.

use vstd::prelude::*;
use crate::amount::decimal_from_amount;
use crate::dto::{
    account_from_text, read_account, read_posting, read_transfer, AccountCreationDTO,
    DepositTransactionDTO, TransferTransactionDTO, WithdrawalTransactionDTO,
};
use crate::messages::{
    account_response, transaction_response, transactions_response, AccountCreationRequest,
    AccountResponse, AccountResponseView, DepositRequest, GetAccountRequest, ServiceError,
    TransactionResponse, TransactionResponseView, TransactionsResponse, TransferRequest,
    WithdrawRequest,
};
use crate::model::{views, Account, AccountView, LedgerError, Timestamp, Transaction, TransactionView};
use crate::state::LedgerState;
use crate::storage::Storage;
use crate::text::{decimal_text, uuid_from_text, uuid_text};
use crate::use_case::{
    account_result, create_account, create_account_step, deposit, deposit_step,
    get_account_answer, get_account_by_uuid, posting_result, transfer, transfer_step, withdraw,
    withdraw_step,
};

verus! {

/// The ledger service over a store of kind `T`.
pub struct MiniLedgerService<T: Storage> {
    storage: T,
}

/// Writes one entry as it is answered.
pub fn map_transaction_to_response(tx: &Transaction) -> (response: TransactionResponse)
    ensures
        response@ == transaction_response(tx@),
        uuid_from_text(response.id@) == Some(tx.id),
        uuid_from_text(response.account_id@) == Some(tx.account_id),
{
    TransactionResponse {
        id: uuid_text(tx.id),
        amount: decimal_from_amount(tx.amount),
        currency: tx.currency.clone(),
        account_version: decimal_text(tx.account_version as u128),
        account_id: uuid_text(tx.account_id),
        created_at: tx.created_at,
        idempotency_key: tx.idempotency_key.clone(),
    }
}

/// Writes an account as it is answered.
pub fn map_account_to_response(account: &Account) -> (response: AccountResponse)
    ensures
        response@ == account_response(account@),
        uuid_from_text(response.uuid@) == Some(account.uuid),
{
    AccountResponse {
        currency: account.currency.clone(),
        balance: decimal_from_amount(account.balance),
        uuid: uuid_text(account.uuid),
        version: decimal_text(account.version as u128),
        created_at: account.created_at,
        last_updated_at: account.last_updated_at,
    }
}

/// Writes a list of entries as it is answered, each in turn.
pub fn map_transactions_to_response(list: &Vec<Transaction>) -> (response: TransactionsResponse)
    ensures
        response@ == transactions_response(views(list@)),
{
    let mut transactions: Vec<TransactionResponse> = Vec::new();
    let mut i: usize = 0;
    while i < list.len()
        invariant
            i <= list.len(),
            transactions@.len() == i,
            forall|j: int| 0 <= j < i ==> (#[trigger] transactions@[j])@ == transaction_response(list@[j]@),
        decreases list.len() - i,
    {
        transactions.push(map_transaction_to_response(&list[i]));
        i += 1;
    }
    let response = TransactionsResponse { transactions };
    assert(response@ =~= transactions_response(views(list@)));
    response
}

/// What the service answers to a request about an account, given what the
/// use case answered.
pub open spec fn account_reply(result: Result<AccountView, LedgerError>) -> Result<
    AccountResponseView,
    ServiceError,
> {
    match result {
        Ok(a) => Ok(account_response(a)),
        Err(e) => Err(ServiceError::Ledger(e)),
    }
}

/// What the service answers to a posting request, given what the use case
/// answered.
pub open spec fn posting_reply(result: Result<Seq<TransactionView>, LedgerError>) -> Result<
    Seq<TransactionResponseView>,
    ServiceError,
> {
    match result {
        Ok(list) => Ok(transactions_response(list)),
        Err(e) => Err(ServiceError::Ledger(e)),
    }
}

/// The value of what the service answers about an account.
pub open spec fn account_reply_view(r: Result<AccountResponse, ServiceError>) -> Result<
    AccountResponseView,
    ServiceError,
> {
    match r {
        Ok(response) => Ok(response@),
        Err(e) => Err(e),
    }
}

/// The value of what the service answers to a posting request.
pub open spec fn posting_reply_view(r: Result<TransactionsResponse, ServiceError>) -> Result<
    Seq<TransactionResponseView>,
    ServiceError,
> {
    match r {
        Ok(response) => Ok(response@),
        Err(e) => Err(e),
    }
}

/// Writes the answer of a use case about an account.
fn answer_account(result: Result<Account, LedgerError>) -> (r: Result<AccountResponse, ServiceError>)
    ensures
        account_reply_view(r) == account_reply(account_result(result)),
{
    match result {
        Ok(account) => Ok(map_account_to_response(&account)),
        Err(e) => Err(ServiceError::Ledger(e)),
    }
}

/// Writes the answer of a posting use case.
fn answer_posting(result: Result<Vec<Transaction>, LedgerError>) -> (r: Result<
    TransactionsResponse,
    ServiceError,
>)
    ensures
        posting_reply_view(r) == posting_reply(posting_result(result)),
{
    match result {
        Ok(list) => Ok(map_transactions_to_response(&list)),
        Err(e) => Err(ServiceError::Ledger(e)),
    }
}

impl<T: Storage> MiniLedgerService<T> {
    /// The ledger that the service's store holds.
    pub closed spec fn state(&self) -> LedgerState {
        self.storage.state()
    }

    /// The store's invariant.
    pub closed spec fn inv(&self) -> bool {
        self.storage.inv()
    }

    /// A service that satisfies its invariant holds a ledger that satisfies
    /// the ledger's.
    pub proof fn lemma_inv_wf(&self)
        requires
            self.inv(),
        ensures
            self.state().wf(),
    {
        self.storage.lemma_inv_wf();
    }

    /// A service on the given store.
    pub fn new(storage: T) -> (service: Self)
        requires
            storage.inv(),
        ensures
            service.inv(),
            service.state() == storage.state(),
    {
        MiniLedgerService { storage }
    }

    /// Creates an account. A text that spells no identifier is refused
    /// with `MalformedUuid`; otherwise the answer is that of the use case.
    pub fn create_account(&mut self, request: AccountCreationRequest, now: Timestamp) -> (r: Result<
        AccountResponse,
        ServiceError,
    >)
        requires
            old(self).inv(),
        ensures
            final(self).inv(),
            match read_account(request.uuid@) {
                Err(e) => r matches Err(x) && x == e && final(self).state() == old(self).state(),
                Ok(id) => {
                    let step = create_account_step(old(self).state(), id, request.currency@, now);
                    &&& final(self).state() == step.state
                    &&& account_reply_view(r) == account_reply(step.result)
                },
            },
    {
        match AccountCreationDTO::from_request(request) {
            Ok(dto) => answer_account(create_account(&mut self.storage, dto, now)),
            Err(e) => Err(e),
        }
    }

    /// Reads an account. A text that spells no identifier is refused with
    /// `MalformedUuid`; otherwise the answer is the account or `NotFound`.
    pub fn get_account(&self, request: GetAccountRequest) -> (r: Result<
        AccountResponse,
        ServiceError,
    >)
        requires
            self.inv(),
        ensures
            match read_account(request.uuid@) {
                Err(e) => r matches Err(x) && x == e,
                Ok(id) => account_reply_view(r) == account_reply(
                    get_account_answer(self.state(), id),
                ),
            },
    {
        match account_from_text(request.uuid.as_str()) {
            Ok(id) => answer_account(get_account_by_uuid(&self.storage, id)),
            Err(e) => Err(e),
        }
    }

    /// Deposits. A text that spells no identifier is refused with
    /// `MalformedUuid` and one that gives no amount with `MalformedAmount`;
    /// otherwise the answer is that of the use case, which is given `tx_id`
    /// for the entry it may create.
    pub fn deposit(&mut self, request: DepositRequest, tx_id: u128, now: Timestamp) -> (r: Result<
        TransactionsResponse,
        ServiceError,
    >)
        requires
            old(self).inv(),
        ensures
            final(self).inv(),
            match read_posting(request.account_uuid@, request.amount@) {
                Err(e) => r matches Err(x) && x == e && final(self).state() == old(self).state(),
                Ok(read) => {
                    let step = deposit_step(
                        old(self).state(),
                        read.0,
                        read.1,
                        request.idempotency_key@,
                        tx_id,
                        now,
                    );
                    &&& final(self).state() == step.state
                    &&& posting_reply_view(r) == posting_reply(step.result)
                },
            },
    {
        match DepositTransactionDTO::from_request(request) {
            Ok(dto) => answer_posting(deposit(&mut self.storage, dto, tx_id, now)),
            Err(e) => Err(e),
        }
    }

    /// Withdraws. A text that spells no identifier is refused with
    /// `MalformedUuid` and one that gives no amount with `MalformedAmount`;
    /// otherwise the answer is that of the use case, which is given `tx_id`
    /// for the entry it may create.
    pub fn withdraw(&mut self, request: WithdrawRequest, tx_id: u128, now: Timestamp) -> (r: Result<
        TransactionsResponse,
        ServiceError,
    >)
        requires
            old(self).inv(),
        ensures
            final(self).inv(),
            match read_posting(request.account_uuid@, request.amount@) {
                Err(e) => r matches Err(x) && x == e && final(self).state() == old(self).state(),
                Ok(read) => {
                    let step = withdraw_step(
                        old(self).state(),
                        read.0,
                        read.1,
                        request.idempotency_key@,
                        tx_id,
                        now,
                    );
                    &&& final(self).state() == step.state
                    &&& posting_reply_view(r) == posting_reply(step.result)
                },
            },
    {
        match WithdrawalTransactionDTO::from_request(request) {
            Ok(dto) => answer_posting(withdraw(&mut self.storage, dto, tx_id, now)),
            Err(e) => Err(e),
        }
    }

    /// Transfers. A text that spells no identifier is refused with
    /// `MalformedUuid` and one that gives no amount with `MalformedAmount`;
    /// otherwise the answer is that of the use case, which is given
    /// `debit_id` and `credit_id` for the two entries it may create.
    pub fn transfer(
        &mut self,
        request: TransferRequest,
        debit_id: u128,
        credit_id: u128,
        now: Timestamp,
    ) -> (r: Result<TransactionsResponse, ServiceError>)
        requires
            old(self).inv(),
        ensures
            final(self).inv(),
            match read_transfer(
                request.from_account_uuid@,
                request.to_account_uuid@,
                request.amount@,
            ) {
                Err(e) => r matches Err(x) && x == e && final(self).state() == old(self).state(),
                Ok(read) => {
                    let step = transfer_step(
                        old(self).state(),
                        read.0,
                        read.1,
                        read.2,
                        request.idempotency_key@,
                        debit_id,
                        credit_id,
                        now,
                    );
                    &&& final(self).state() == step.state
                    &&& posting_reply_view(r) == posting_reply(step.result)
                },
            },
    {
        match TransferTransactionDTO::from_request(request) {
            Ok(dto) => answer_posting(transfer(&mut self.storage, dto, debit_id, credit_id, now)),
            Err(e) => Err(e),
        }
    }
}

} // verus!
