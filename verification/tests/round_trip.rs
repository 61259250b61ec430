use mini_ledger::memory::InMemoryStorage;
use mini_ledger::messages::{AccountCreationRequest, DepositRequest, GetAccountRequest};
use mini_ledger::model::Timestamp;
use mini_ledger::server::MiniLedgerService;

#[test]
fn answered_identifier_names_the_same_account() {
    let mut service = MiniLedgerService::new(InMemoryStorage::new());
    let now = Timestamp { seconds: 1, nanos: 0 };
    let created = service
        .create_account(
            AccountCreationRequest {
                uuid: "{550E8400-E29B-41D4-A716-446655440000}".to_string(),
                currency: "USD".to_string(),
            },
            now,
        )
        .unwrap();
    assert_eq!(created.uuid, "550e8400-e29b-41d4-a716-446655440000");
    let posted = service
        .deposit(
            DepositRequest {
                account_uuid: created.uuid.clone(),
                amount: "0.05".to_string(),
                idempotency_key: "k".to_string(),
            },
            7,
            now,
        )
        .unwrap();
    assert_eq!(posted.transactions[0].account_id, created.uuid);
    let read = service.get_account(GetAccountRequest { uuid: created.uuid.clone() }).unwrap();
    assert_eq!(read.uuid, created.uuid);
    assert_eq!(read.balance, "0.05");
}
