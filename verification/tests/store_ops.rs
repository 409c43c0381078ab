use openbank::errors::EntityKind;
use openbank::errors::OpenBankError;
use openbank::store::LedgerStore;
use openbank::types::AccountType;
use openbank::types::CreateAccountRequest;
use openbank::types::CreateUserRequest;
use openbank::types::DepositRequest;
use openbank::types::TransactionType;

fn user_request(email: &str, wallet: Option<&str>) -> CreateUserRequest {
    CreateUserRequest {
        email: String::from(email),
        name: String::from("Alice"),
        wallet_address: wallet.map(String::from),
    }
}

const WALLET_A: &str = "0x00000000000000000000000000000000000000aa";
const WALLET_B: &str = "0x00000000000000000000000000000000000000bb";

#[test]
fn empty_store_has_no_entities() {
    let store = LedgerStore::new();
    assert!(matches!(
        store.get_user(0),
        Err(OpenBankError::NotFound { entity: EntityKind::User, id: 0 })
    ));
    assert!(matches!(
        store.get_account(0),
        Err(OpenBankError::NotFound { entity: EntityKind::Account, id: 0 })
    ));
    assert!(matches!(store.list_transactions(0), Err(OpenBankError::NotFound { .. })));
    assert!(matches!(store.list_accounts_for_user(0), Err(OpenBankError::NotFound { .. })));
}

#[test]
fn create_user_assigns_sequential_ids() {
    let mut store = LedgerStore::new();
    let u0 = store.create_user(user_request("a@example.com", None)).unwrap();
    let u1 = store.create_user(user_request("b@example.com", None)).unwrap();
    assert_eq!(u0.id, 0);
    assert_eq!(u1.id, 1);
    assert_eq!(u0.email, "a@example.com");
    assert!(u0.wallet_address.is_none());
    assert!(u0.accounts.is_empty());
    let fetched = store.get_user(0).unwrap();
    assert_eq!(fetched.email, "a@example.com");
}

#[test]
fn duplicate_email_rejected_without_mutation() {
    let mut store = LedgerStore::new();
    store.create_user(user_request("alice@example.com", None)).unwrap();
    let second = store.create_user(CreateUserRequest {
        email: String::from("alice@example.com"),
        name: String::from("Someone Else"),
        wallet_address: None,
    });
    match second {
        Err(OpenBankError::DuplicateEmail { email }) => assert_eq!(email, "alice@example.com"),
        other => panic!("expected DuplicateEmail, got {:?}", other),
    }
    // exactly one user made it in
    assert!(store.get_user(0).is_ok());
    assert!(store.get_user(1).is_err());
}

#[test]
fn duplicate_wallet_rejected() {
    let mut store = LedgerStore::new();
    store.create_user(user_request("a@example.com", Some(WALLET_A))).unwrap();
    let second = store.create_user(user_request("b@example.com", Some(WALLET_A)));
    match second {
        Err(OpenBankError::DuplicateWallet { address }) => assert_eq!(address, WALLET_A),
        other => panic!("expected DuplicateWallet, got {:?}", other),
    }
    // a different wallet is fine
    let third = store.create_user(user_request("b@example.com", Some(WALLET_B)));
    assert!(third.is_ok());
}

#[test]
fn malformed_wallet_rejected() {
    let mut store = LedgerStore::new();
    let bad_prefix = store.create_user(user_request(
        "a@example.com",
        Some("1x00000000000000000000000000000000000000aa"),
    ));
    assert!(matches!(bad_prefix, Err(OpenBankError::InvalidAddress { .. })));
    let bad_length = store.create_user(user_request("a@example.com", Some("0xabc")));
    assert!(matches!(bad_length, Err(OpenBankError::InvalidAddress { .. })));
    assert!(store.get_user(0).is_err());
}

#[test]
fn create_account_links_owner_and_history() {
    let mut store = LedgerStore::new();
    let user = store.create_user(user_request("a@example.com", None)).unwrap();
    let account = store
        .create_account(user.id, CreateAccountRequest { currency: String::from("USD") })
        .unwrap();
    assert_eq!(account.id, 0);
    assert_eq!(account.user_id, user.id);
    assert_eq!(account.balance, 0);
    assert_eq!(account.currency, "USD");
    assert!(account.is_active);
    assert!(matches!(account.account_type, AccountType::Deposit));
    // the three effects are all visible: account, owner link, empty history
    assert!(store.get_account(0).is_ok());
    assert_eq!(store.get_user(user.id).unwrap().accounts, vec![0]);
    assert!(store.list_transactions(0).unwrap().is_empty());
}

#[test]
fn create_account_unknown_user_mutates_nothing() {
    let mut store = LedgerStore::new();
    store.create_user(user_request("a@example.com", None)).unwrap();
    let r = store.create_account(7, CreateAccountRequest { currency: String::from("USD") });
    assert!(matches!(r, Err(OpenBankError::NotFound { entity: EntityKind::User, id: 7 })));
    // no account appeared anywhere
    assert!(store.get_account(0).is_err());
    assert!(store.get_user(0).unwrap().accounts.is_empty());
}

#[test]
fn deposit_scenario_two_deposits() {
    // create alice, a USD account, deposit 100.0 then 50.0 (in micro-units)
    let mut store = LedgerStore::new();
    let user = store.create_user(user_request("alice@example.com", None)).unwrap();
    let account = store
        .create_account(user.id, CreateAccountRequest { currency: String::from("USD") })
        .unwrap();
    let t1 = store
        .record_deposit(
            account.id,
            DepositRequest { amount: 100_000_000, description: Some(String::from("init")) },
        )
        .unwrap();
    assert_eq!(t1.amount, 100_000_000);
    assert_eq!(t1.balance_after, 100_000_000);
    assert_eq!(t1.description, "init");
    assert_eq!(t1.account_id, account.id);
    assert_eq!(t1.user_id, user.id);
    assert!(matches!(t1.transaction_type, TransactionType::Deposit));
    let t2 = store
        .record_deposit(account.id, DepositRequest { amount: 50_000_000, description: None })
        .unwrap();
    assert_eq!(t2.balance_after, 150_000_000);
    assert_eq!(t2.description, "Deposit");
    assert_eq!(store.get_account(account.id).unwrap().balance, 150_000_000);
    let history = store.list_transactions(account.id).unwrap();
    assert_eq!(history.len(), 2);
    assert_eq!(history[0].id, t1.id);
    assert_eq!(history[1].id, t2.id);
    assert_eq!(history[0].balance_after, 100_000_000);
    assert_eq!(history[1].balance_after, 150_000_000);
}

#[test]
fn deposit_non_positive_amount_never_mutates() {
    let mut store = LedgerStore::new();
    let user = store.create_user(user_request("a@example.com", None)).unwrap();
    let account = store
        .create_account(user.id, CreateAccountRequest { currency: String::from("USD") })
        .unwrap();
    let zero =
        store.record_deposit(account.id, DepositRequest { amount: 0, description: None });
    assert!(matches!(zero, Err(OpenBankError::InvalidAmount { amount: 0 })));
    let negative =
        store.record_deposit(account.id, DepositRequest { amount: -5, description: None });
    assert!(matches!(negative, Err(OpenBankError::InvalidAmount { amount: -5 })));
    assert_eq!(store.get_account(account.id).unwrap().balance, 0);
    assert!(store.list_transactions(account.id).unwrap().is_empty());
}

#[test]
fn deposit_unknown_account_rejected() {
    let mut store = LedgerStore::new();
    let r = store.record_deposit(3, DepositRequest { amount: 10, description: None });
    assert!(matches!(r, Err(OpenBankError::NotFound { entity: EntityKind::Account, id: 3 })));
}

#[test]
fn balance_equals_sum_of_deposits_in_any_order() {
    // the same three amounts applied in two different orders settle to the
    // same balance: the sum of all of them
    let amounts_one = [7_i64, 1_000_000, 39];
    let amounts_two = [39_i64, 7, 1_000_000];
    let mut totals = Vec::new();
    for amounts in [amounts_one, amounts_two] {
        let mut store = LedgerStore::new();
        let user = store
            .create_user(CreateUserRequest {
                email: String::from("a@example.com"),
                name: String::from("Alice"),
                wallet_address: None,
            })
            .unwrap();
        let account = store
            .create_account(user.id, CreateAccountRequest { currency: String::from("USD") })
            .unwrap();
        for a in amounts {
            store
                .record_deposit(account.id, DepositRequest { amount: a, description: None })
                .unwrap();
        }
        totals.push(store.get_account(account.id).unwrap().balance);
    }
    assert_eq!(totals[0], 1_000_046);
    assert_eq!(totals[1], 1_000_046);
}

#[test]
fn deposits_on_different_accounts_are_independent() {
    let mut store = LedgerStore::new();
    let user = store.create_user(user_request("a@example.com", None)).unwrap();
    let acc_usd = store
        .create_account(user.id, CreateAccountRequest { currency: String::from("USD") })
        .unwrap();
    let acc_eur = store
        .create_account(user.id, CreateAccountRequest { currency: String::from("EUR") })
        .unwrap();
    store
        .record_deposit(acc_usd.id, DepositRequest { amount: 11, description: None })
        .unwrap();
    store
        .record_deposit(acc_eur.id, DepositRequest { amount: 22, description: None })
        .unwrap();
    assert_eq!(store.get_account(acc_usd.id).unwrap().balance, 11);
    assert_eq!(store.get_account(acc_eur.id).unwrap().balance, 22);
    let accounts = store.list_accounts_for_user(user.id).unwrap();
    assert_eq!(accounts.len(), 2);
    assert_eq!(accounts[0].currency, "USD");
    assert_eq!(accounts[1].currency, "EUR");
}

#[test]
fn transaction_ids_unique_across_accounts() {
    let mut store = LedgerStore::new();
    let user = store.create_user(user_request("a@example.com", None)).unwrap();
    let acc_a = store
        .create_account(user.id, CreateAccountRequest { currency: String::from("USD") })
        .unwrap();
    let acc_b = store
        .create_account(user.id, CreateAccountRequest { currency: String::from("USD") })
        .unwrap();
    let t0 = store
        .record_deposit(acc_a.id, DepositRequest { amount: 1, description: None })
        .unwrap();
    let t1 = store
        .record_deposit(acc_b.id, DepositRequest { amount: 2, description: None })
        .unwrap();
    let t2 = store
        .record_deposit(acc_a.id, DepositRequest { amount: 3, description: None })
        .unwrap();
    assert_eq!(t0.id, 0);
    assert_eq!(t1.id, 1);
    assert_eq!(t2.id, 2);
}
