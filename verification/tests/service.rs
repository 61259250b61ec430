use mini_ledger::decimal::Decimal;
use mini_ledger::dto::{DepositTransactionDTO, TransferTransactionDTO};
use mini_ledger::memory::InMemoryStorage;
use mini_ledger::messages::{
    AccountCreationRequest, AccountResponse, DepositRequest, GetAccountRequest, ServiceError,
    TransactionResponse, TransferRequest, WithdrawRequest,
};
use mini_ledger::model::{Account, LedgerError, Timestamp, Transaction};
use mini_ledger::server::{
    map_account_to_response, map_transaction_to_response, map_transactions_to_response,
    MiniLedgerService,
};
use mini_ledger::text::decimal_text;

const A_TEXT: &str = "550e8400-e29b-41d4-a716-446655440000";
const A: u128 = 0x550e8400_e29b_41d4_a716_446655440000;
const B_TEXT: &str = "0123abcd-4567-89ef-fedc-ba9876543210";
const B: u128 = 0x0123abcd_4567_89ef_fedc_ba9876543210;

fn at(seconds: i64) -> Timestamp {
    Timestamp { seconds, nanos: 500 }
}

fn service() -> MiniLedgerService<InMemoryStorage> {
    MiniLedgerService::new(InMemoryStorage::new())
}

fn open(service: &mut MiniLedgerService<InMemoryStorage>, uuid: &str, currency: &str) {
    service
        .create_account(
            AccountCreationRequest { uuid: uuid.to_string(), currency: currency.to_string() },
            at(1),
        )
        .unwrap();
}

fn read(service: &MiniLedgerService<InMemoryStorage>, uuid: &str) -> AccountResponse {
    service.get_account(GetAccountRequest { uuid: uuid.to_string() }).unwrap()
}

#[test]
fn numerals_are_decimal_without_leading_zeros() {
    assert_eq!(decimal_text(0), "0");
    assert_eq!(decimal_text(7), "7");
    assert_eq!(decimal_text(10), "10");
    assert_eq!(decimal_text(1234567890), "1234567890");
    assert_eq!(decimal_text(18446744073709551615), "18446744073709551615");
    assert_eq!(decimal_text(u128::MAX), "340282366920938463463374607431768211455");
}

#[test]
fn entry_is_answered_with_identifiers_as_text() {
    let tx = Transaction {
        id: 0xff,
        account_id: A,
        amount: Decimal { units: -30, places: 2 },
        currency: "USD".to_string(),
        account_version: 12,
        created_at: at(7),
        idempotency_key: "t1".to_string(),
    };
    assert_eq!(
        map_transaction_to_response(&tx),
        TransactionResponse {
            id: "00000000-0000-0000-0000-0000000000ff".to_string(),
            amount: "-0.30".to_string(),
            currency: "USD".to_string(),
            account_version: "12".to_string(),
            account_id: A_TEXT.to_string(),
            created_at: at(7),
            idempotency_key: "t1".to_string(),
        }
    );
    let list = map_transactions_to_response(&vec![tx]);
    assert_eq!(list.transactions.len(), 1);
    assert_eq!(list.transactions[0].account_id, A_TEXT);
}

#[test]
fn account_is_answered_with_identifier_as_text() {
    let account = Account {
        uuid: B,
        currency: "EUR".to_string(),
        balance: Decimal { units: 1250, places: 2 },
        version: 3,
        created_at: at(1),
        last_updated_at: at(5),
    };
    assert_eq!(
        map_account_to_response(&account),
        AccountResponse {
            currency: "EUR".to_string(),
            balance: "12.50".to_string(),
            uuid: B_TEXT.to_string(),
            version: "3".to_string(),
            created_at: at(1),
            last_updated_at: at(5),
        }
    );
}

#[test]
fn requests_are_read_into_use_case_inputs() {
    let dto = DepositTransactionDTO::from_request(DepositRequest {
        account_uuid: A_TEXT.to_string(),
        amount: "100".to_string(),
        idempotency_key: "k1".to_string(),
    });
    assert_eq!(
        dto,
        Ok(DepositTransactionDTO {
            account_id: A,
            amount: Decimal { units: 100, places: 0 },
            idempotency_key: "k1".to_string(),
        })
    );
    let dto = TransferTransactionDTO::from_request(TransferRequest {
        from_account_uuid: A_TEXT.to_string(),
        to_account_uuid: B_TEXT.to_uppercase(),
        amount: "0.05".to_string(),
        idempotency_key: "t1".to_string(),
    });
    assert_eq!(
        dto,
        Ok(TransferTransactionDTO {
            from_account_id: A,
            to_account_id: B,
            amount: Decimal { units: 5, places: 2 },
            idempotency_key: "t1".to_string(),
        })
    );
    assert_eq!(
        DepositTransactionDTO::from_request(DepositRequest {
            account_uuid: "not-a-uuid".to_string(),
            amount: "100".to_string(),
            idempotency_key: "k1".to_string(),
        }),
        Err(ServiceError::MalformedUuid)
    );
    assert_eq!(
        DepositTransactionDTO::from_request(DepositRequest {
            account_uuid: A_TEXT.to_string(),
            amount: "1e2".to_string(),
            idempotency_key: "k1".to_string(),
        }),
        Err(ServiceError::MalformedAmount)
    );
    assert_eq!(
        DepositTransactionDTO::from_request(DepositRequest {
            account_uuid: "not-a-uuid".to_string(),
            amount: "1e2".to_string(),
            idempotency_key: "k1".to_string(),
        }),
        Err(ServiceError::MalformedUuid)
    );
    assert_eq!(
        TransferTransactionDTO::from_request(TransferRequest {
            from_account_uuid: A_TEXT.to_string(),
            to_account_uuid: String::new(),
            amount: "5".to_string(),
            idempotency_key: "t1".to_string(),
        }),
        Err(ServiceError::MalformedUuid)
    );
    assert_eq!(
        TransferTransactionDTO::from_request(TransferRequest {
            from_account_uuid: A_TEXT.to_string(),
            to_account_uuid: B_TEXT.to_string(),
            amount: "five".to_string(),
            idempotency_key: "t1".to_string(),
        }),
        Err(ServiceError::MalformedAmount)
    );
}

#[test]
fn scenario_deposit_then_repeat() {
    let mut service = service();
    open(&mut service, A_TEXT, "USD");
    let request = || DepositRequest {
        account_uuid: A_TEXT.to_string(),
        amount: "100".to_string(),
        idempotency_key: "k1".to_string(),
    };
    let first = service.deposit(request(), 1, at(2)).unwrap();
    assert_eq!(first.transactions.len(), 1);
    assert_eq!(first.transactions[0].amount, "100");
    assert_eq!(first.transactions[0].account_id, A_TEXT);
    assert_eq!(first.transactions[0].account_version, "1");
    assert_eq!(first.transactions[0].idempotency_key, "k1");
    let account = read(&service, A_TEXT);
    assert_eq!(account.balance, "100");
    assert_eq!(account.version, "1");
    assert_eq!(account.uuid, A_TEXT);
    assert_eq!(account.currency, "USD");
    assert_eq!(account.created_at, at(1));
    assert_eq!(account.last_updated_at, at(2));

    let again = service.deposit(request(), 2, at(3)).unwrap();
    assert_eq!(again, first);
    let account = read(&service, A_TEXT);
    assert_eq!(account.balance, "100");
    assert_eq!(account.version, "1");
}

#[test]
fn scenario_withdraw_more_than_balance() {
    let mut service = service();
    open(&mut service, A_TEXT, "USD");
    service
        .deposit(
            DepositRequest {
                account_uuid: A_TEXT.to_string(),
                amount: "100".to_string(),
                idempotency_key: "k1".to_string(),
            },
            1,
            at(2),
        )
        .unwrap();
    let r = service.withdraw(
        WithdrawRequest {
            account_uuid: A_TEXT.to_string(),
            amount: "150".to_string(),
            idempotency_key: "w1".to_string(),
        },
        2,
        at(3),
    );
    assert_eq!(r, Err(ServiceError::Ledger(LedgerError::InsufficientFunds)));
    assert_eq!(read(&service, A_TEXT).balance, "100");
}

#[test]
fn scenario_transfer_between_two_accounts() {
    let mut service = service();
    open(&mut service, A_TEXT, "USD");
    open(&mut service, B_TEXT, "USD");
    service
        .deposit(
            DepositRequest {
                account_uuid: A_TEXT.to_string(),
                amount: "50".to_string(),
                idempotency_key: "d1".to_string(),
            },
            1,
            at(2),
        )
        .unwrap();
    let legs = service
        .transfer(
            TransferRequest {
                from_account_uuid: A_TEXT.to_string(),
                to_account_uuid: B_TEXT.to_string(),
                amount: "30".to_string(),
                idempotency_key: "t1".to_string(),
            },
            2,
            3,
            at(4),
        )
        .unwrap();
    assert_eq!(legs.transactions.len(), 2);
    assert_eq!(legs.transactions[0].amount, "-30");
    assert_eq!(legs.transactions[0].account_id, A_TEXT);
    assert_eq!(legs.transactions[0].idempotency_key, "t1");
    assert_eq!(legs.transactions[1].amount, "30");
    assert_eq!(legs.transactions[1].account_id, B_TEXT);
    assert_eq!(legs.transactions[1].idempotency_key, "t1");
    assert_ne!(legs.transactions[0].id, legs.transactions[1].id);
    assert_eq!(read(&service, A_TEXT).balance, "20");
    assert_eq!(read(&service, B_TEXT).balance, "30");
}

#[test]
fn scenario_account_never_created() {
    let service = service();
    assert_eq!(
        service.get_account(GetAccountRequest { uuid: A_TEXT.to_string() }),
        Err(ServiceError::Ledger(LedgerError::NotFound))
    );
}

#[test]
fn malformed_identifiers_are_refused() {
    let mut service = service();
    open(&mut service, A_TEXT, "USD");
    assert_eq!(
        service.create_account(
            AccountCreationRequest { uuid: "zzz".to_string(), currency: "USD".to_string() },
            at(1)
        ),
        Err(ServiceError::MalformedUuid)
    );
    assert_eq!(
        service.get_account(GetAccountRequest { uuid: String::new() }),
        Err(ServiceError::MalformedUuid)
    );
    assert_eq!(
        service.deposit(
            DepositRequest {
                account_uuid: "550e8400-e29b-41d4-a716".to_string(),
                amount: "1".to_string(),
                idempotency_key: "k".to_string(),
            },
            1,
            at(2)
        ),
        Err(ServiceError::MalformedUuid)
    );
    assert_eq!(
        service.withdraw(
            WithdrawRequest {
                account_uuid: "?".to_string(),
                amount: "1".to_string(),
                idempotency_key: "k".to_string(),
            },
            1,
            at(2)
        ),
        Err(ServiceError::MalformedUuid)
    );
    assert_eq!(
        service.transfer(
            TransferRequest {
                from_account_uuid: A_TEXT.to_string(),
                to_account_uuid: "?".to_string(),
                amount: "1".to_string(),
                idempotency_key: "k".to_string(),
            },
            1,
            2,
            at(2)
        ),
        Err(ServiceError::MalformedUuid)
    );
    assert_eq!(
        service.deposit(
            DepositRequest {
                account_uuid: A_TEXT.to_string(),
                amount: "1,5".to_string(),
                idempotency_key: "k".to_string(),
            },
            1,
            at(2)
        ),
        Err(ServiceError::MalformedAmount)
    );
    assert_eq!(read(&service, A_TEXT).balance, "0");
}

#[test]
fn service_passes_the_ledger_errors_on() {
    let mut service = service();
    open(&mut service, A_TEXT, "USD");
    assert_eq!(
        service.create_account(
            AccountCreationRequest { uuid: A_TEXT.to_string(), currency: "USD".to_string() },
            at(1)
        ),
        Err(ServiceError::Ledger(LedgerError::AlreadyExists))
    );
    assert_eq!(
        service.deposit(
            DepositRequest {
                account_uuid: A_TEXT.to_string(),
                amount: "0.00".to_string(),
                idempotency_key: "k".to_string(),
            },
            1,
            at(2)
        ),
        Err(ServiceError::Ledger(LedgerError::InvalidAmount))
    );
    assert_eq!(
        service.transfer(
            TransferRequest {
                from_account_uuid: A_TEXT.to_string(),
                to_account_uuid: A_TEXT.to_string(),
                amount: "1".to_string(),
                idempotency_key: "k".to_string(),
            },
            1,
            2,
            at(2)
        ),
        Err(ServiceError::Ledger(LedgerError::InvalidOperation))
    );
}

#[test]
fn a_small_amount_is_deposited_as_it_is() {
    let mut service = service();
    open(&mut service, A_TEXT, "USD");
    let posted = service
        .deposit(
            DepositRequest {
                account_uuid: A_TEXT.to_string(),
                amount: "0.001".to_string(),
                idempotency_key: "k1".to_string(),
            },
            1,
            at(2),
        )
        .unwrap();
    assert_eq!(posted.transactions[0].amount, "0.001");
    assert_eq!(read(&service, A_TEXT).balance, "0.001");
    let posted = service
        .deposit(
            DepositRequest {
                account_uuid: A_TEXT.to_string(),
                amount: "0.006".to_string(),
                idempotency_key: "k2".to_string(),
            },
            2,
            at(2),
        )
        .unwrap();
    assert_eq!(posted.transactions[0].amount, "0.006");
    assert_eq!(read(&service, A_TEXT).balance, "0.007");
    let gone = service
        .withdraw(
            WithdrawRequest {
                account_uuid: A_TEXT.to_string(),
                amount: "0.0070".to_string(),
                idempotency_key: "w1".to_string(),
            },
            3,
            at(3),
        )
        .unwrap();
    assert_eq!(gone.transactions[0].amount, "-0.0070");
    assert_eq!(read(&service, A_TEXT).balance, "0.0000");
    assert_eq!(
        service.deposit(
            DepositRequest {
                account_uuid: A_TEXT.to_string(),
                amount: "-0.001".to_string(),
                idempotency_key: "k3".to_string(),
            },
            4,
            at(2)
        ),
        Err(ServiceError::Ledger(LedgerError::InvalidAmount))
    );
}
