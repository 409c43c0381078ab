use openbank::errors::EntityKind;
use openbank::errors::OpenBankError;
use openbank::store::LedgerStore;
use openbank::types::CreateAccountRequest;
use openbank::types::CreateUserRequest;
use openbank::types::DepositRequest;
use openbank::types::WithdrawRequest;
use openbank::withdrawal::RecoveryAction;
use openbank::withdrawal::SettlementEvent;
use openbank::withdrawal::WithdrawalOutcome;
use openbank::withdrawal::resolve_settlement;
use openbank::withdrawal::recovery_action;
use openbank::withdrawal::validate_withdrawal;

const WALLET: &str = "0x00000000000000000000000000000000000000aa";

fn store_with_user(wallet: Option<&str>) -> LedgerStore {
    let mut store = LedgerStore::new();
    store
        .create_user(CreateUserRequest {
            email: String::from("alice@example.com"),
            name: String::from("Alice"),
            wallet_address: wallet.map(String::from),
        })
        .unwrap();
    store
}

#[test]
fn withdrawal_without_wallet_fails_and_leaves_store_unchanged() {
    let mut store = store_with_user(None);
    let account = store
        .create_account(0, CreateAccountRequest { currency: String::from("USD") })
        .unwrap();
    store
        .record_deposit(account.id, DepositRequest { amount: 500, description: None })
        .unwrap();
    let r = validate_withdrawal(
        &store,
        WithdrawRequest { user_id: 0, amount: 100, description: None },
    );
    assert!(matches!(r, Err(OpenBankError::NoWalletAddress { user_id: 0 })));
    // the ledger is untouched
    assert_eq!(store.get_account(account.id).unwrap().balance, 500);
    assert_eq!(store.list_transactions(account.id).unwrap().len(), 1);
}

#[test]
fn withdrawal_validation_order_and_errors() {
    let store = store_with_user(Some(WALLET));
    let non_positive = validate_withdrawal(
        &store,
        WithdrawRequest { user_id: 9, amount: 0, description: None },
    );
    assert!(matches!(non_positive, Err(OpenBankError::InvalidAmount { amount: 0 })));
    let unknown_user = validate_withdrawal(
        &store,
        WithdrawRequest { user_id: 9, amount: 5, description: None },
    );
    assert!(matches!(
        unknown_user,
        Err(OpenBankError::NotFound { entity: EntityKind::User, id: 9 })
    ));
}

#[test]
fn withdrawal_validation_resolves_wallet_and_amount() {
    let store = store_with_user(Some(WALLET));
    let v = validate_withdrawal(
        &store,
        WithdrawRequest { user_id: 0, amount: 2_500_000, description: None },
    )
    .unwrap();
    assert_eq!(v.user_id, 0);
    assert_eq!(v.wallet_address, WALLET);
    assert_eq!(v.amount_minor, 2_500_000);
    assert_eq!(v.description, "API withdrawal");
    let with_note = validate_withdrawal(
        &store,
        WithdrawRequest {
            user_id: 0,
            amount: 1,
            description: Some(String::from("rent")),
        },
    )
    .unwrap();
    assert_eq!(with_note.description, "rent");
}

#[test]
fn timeout_reports_uncertain_and_demands_balance_query() {
    let store = store_with_user(Some(WALLET));
    let intent = validate_withdrawal(
        &store,
        WithdrawRequest { user_id: 0, amount: 100, description: None },
    )
    .unwrap();
    let outcome = resolve_settlement(&intent, SettlementEvent::TimedOut);
    assert_eq!(outcome, WithdrawalOutcome::Uncertain);
    // the documented recovery path is a balance query, never a blind resend
    assert_eq!(recovery_action(&outcome), RecoveryAction::QueryExternalBalance);
}

#[test]
fn settlement_events_map_to_terminal_states() {
    let store = store_with_user(Some(WALLET));
    let intent = validate_withdrawal(
        &store,
        WithdrawRequest { user_id: 0, amount: 100, description: None },
    )
    .unwrap();
    let settled = resolve_settlement(&intent, SettlementEvent::Confirmed);
    assert_eq!(settled, WithdrawalOutcome::Settled);
    assert_eq!(recovery_action(&settled), RecoveryAction::Complete);
    let unavailable = resolve_settlement(&intent, SettlementEvent::Unavailable);
    assert_eq!(
        unavailable,
        WithdrawalOutcome::ExternalCallFailed(OpenBankError::SettlementUnavailable)
    );
    assert_eq!(recovery_action(&unavailable), RecoveryAction::RetryRequest);
    let rejected = resolve_settlement(&intent, SettlementEvent::Rejected);
    assert_eq!(
        rejected,
        WithdrawalOutcome::ExternalCallFailed(OpenBankError::SettlementRejected)
    );
    let bad_address = resolve_settlement(&intent, SettlementEvent::AddressRejected);
    match bad_address {
        WithdrawalOutcome::ExternalCallFailed(OpenBankError::InvalidAddress { address }) => {
            assert_eq!(address, WALLET);
        }
        other => panic!("expected InvalidAddress, got {:?}", other),
    }
}

#[test]
fn settled_withdrawal_leaves_ledger_untouched() {
    // the reconciliation policy: the external system is authoritative, no
    // local debit is recorded on success
    let mut store = store_with_user(Some(WALLET));
    let account = store
        .create_account(0, CreateAccountRequest { currency: String::from("USD") })
        .unwrap();
    store
        .record_deposit(account.id, DepositRequest { amount: 900, description: None })
        .unwrap();
    let intent = validate_withdrawal(
        &store,
        WithdrawRequest { user_id: 0, amount: 300, description: None },
    )
    .unwrap();
    let outcome = resolve_settlement(&intent, SettlementEvent::Confirmed);
    assert_eq!(outcome, WithdrawalOutcome::Settled);
    assert_eq!(store.get_account(account.id).unwrap().balance, 900);
    assert_eq!(store.list_transactions(account.id).unwrap().len(), 1);
}
