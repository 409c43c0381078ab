//! The three ledger entities — `User`, `Account`, `Transaction` — their
//! request types, and the record returned by the external settlement
//! system's balance query.
//!
//! Each entity has a mathematical view (`UserView`, `AccountView`,
//! `TransactionView`) over which all contracts and invariants are stated:
//! strings become `Seq<char>`, vectors become `Seq`, and the numeric fields
//! carry over unchanged.
//!
//! Amounts are integers counting micro-units (10^-6) of the account's
//! currency, the same fixed-point representation the external settlement
//! system uses for its minor units.

use vstd::prelude::*;

verus! {

/// The single account kind in scope: an account that tracks deposits.
#[derive(Clone, Copy, Debug, PartialEq, Eq, Structural)]
pub enum AccountType {
    Deposit,
}

/// The kind of a ledger transaction.
#[derive(Clone, Copy, Debug, PartialEq, Eq, Structural)]
pub enum TransactionType {
    Deposit,
    Transfer,
}

/// A registered user. Created once; mutated only to append an account id.
#[derive(Debug)]
pub struct User {
    /// Identifier assigned by the store: the user's index in the user list.
    pub id: usize,
    /// Unique across all users.
    pub email: String,
    pub name: String,
    /// Address in the external settlement system's namespace; unique across
    /// users when present.
    pub wallet_address: Option<String>,
    /// Milliseconds since the Unix epoch.
    pub created_at: i64,
    /// Ids of the accounts this user owns, in creation order, append-only.
    pub accounts: Vec<usize>,
}

/// The mathematical view of a [`User`].
#[verifier::ext_equal]
pub struct UserView {
    pub id: usize,
    pub email: Seq<char>,
    pub name: Seq<char>,
    pub wallet_address: Option<Seq<char>>,
    pub created_at: i64,
    pub accounts: Seq<usize>,
}

impl View for User {
    type V = UserView;

    open spec fn view(&self) -> UserView {
        UserView {
            id: self.id,
            email: self.email@,
            name: self.name@,
            wallet_address: match self.wallet_address {
                Some(w) => Some(w@),
                None => None,
            },
            created_at: self.created_at,
            accounts: self.accounts@,
        }
    }
}

/// An account owned by exactly one user. Its balance always equals the sum
/// of the deposit amounts recorded against it.
#[derive(Debug)]
pub struct Account {
    /// Identifier assigned by the store: the account's index in the account
    /// list.
    pub id: usize,
    /// The owning user; set at creation, immutable.
    pub user_id: usize,
    pub account_type: AccountType,
    /// Non-negative balance in micro-units of `currency`.
    pub balance: i64,
    pub currency: String,
    /// Milliseconds since the Unix epoch.
    pub created_at: i64,
    pub is_active: bool,
}

/// The mathematical view of an [`Account`].
#[verifier::ext_equal]
pub struct AccountView {
    pub id: usize,
    pub user_id: usize,
    pub account_type: AccountType,
    pub balance: i64,
    pub currency: Seq<char>,
    pub created_at: i64,
    pub is_active: bool,
}

impl View for Account {
    type V = AccountView;

    open spec fn view(&self) -> AccountView {
        AccountView {
            id: self.id,
            user_id: self.user_id,
            account_type: self.account_type,
            balance: self.balance,
            currency: self.currency@,
            created_at: self.created_at,
            is_active: self.is_active,
        }
    }
}

/// An append-only ledger entry: immutable once created.
#[derive(Debug)]
pub struct Transaction {
    /// Identifier assigned by the store, unique across all transactions.
    pub id: usize,
    /// Owner of the account at the time of recording.
    pub user_id: usize,
    pub account_id: usize,
    pub transaction_type: TransactionType,
    /// Positive amount in micro-units.
    pub amount: i64,
    pub description: String,
    /// Milliseconds since the Unix epoch.
    pub timestamp: i64,
    /// The account balance immediately after this transaction applied.
    pub balance_after: i64,
}

/// The mathematical view of a [`Transaction`].
#[verifier::ext_equal]
pub struct TransactionView {
    pub id: usize,
    pub user_id: usize,
    pub account_id: usize,
    pub transaction_type: TransactionType,
    pub amount: i64,
    pub description: Seq<char>,
    pub timestamp: i64,
    pub balance_after: i64,
}

impl View for Transaction {
    type V = TransactionView;

    open spec fn view(&self) -> TransactionView {
        TransactionView {
            id: self.id,
            user_id: self.user_id,
            account_id: self.account_id,
            transaction_type: self.transaction_type,
            amount: self.amount,
            description: self.description@,
            timestamp: self.timestamp,
            balance_after: self.balance_after,
        }
    }
}

/// Input to user registration.
#[derive(Debug)]
pub struct CreateUserRequest {
    pub email: String,
    pub name: String,
    pub wallet_address: Option<String>,
}

/// Input to account creation; the currency code, e.g. "USD".
#[derive(Debug)]
pub struct CreateAccountRequest {
    pub currency: String,
}

/// Input to a deposit: a positive amount in micro-units and an optional
/// description.
#[derive(Debug)]
pub struct DepositRequest {
    pub amount: i64,
    pub description: Option<String>,
}

/// Input to a withdrawal: the requesting user, a positive amount in
/// micro-units and an optional description.
#[derive(Debug)]
pub struct WithdrawRequest {
    pub user_id: usize,
    pub amount: i64,
    pub description: Option<String>,
}

/// The external settlement system's balance record for one address, as
/// returned by its balance query. All figures are in the external system's
/// minor units; the timestamps are whatever clock the external system
/// reports.
#[derive(Clone, Copy, Debug, PartialEq, Eq, Structural)]
pub struct ContractUserBalance {
    pub deposited: u64,
    pub withdrawn: u64,
    pub last_deposit: u64,
    pub last_withdrawal: u64,
    pub has_deposited: bool,
}

/// Copies a list of entity ids.
fn clone_ids(v: &Vec<usize>) -> (r: Vec<usize>)
    ensures
        r@ == v@,
{
    let mut r: Vec<usize> = Vec::new();
    let mut i: usize = 0;
    while i < v.len()
        invariant
            i <= v.len(),
            r@ == v@.subrange(0, i as int),
        decreases v.len() - i,
    {
        r.push(v[i]);
        i = i + 1;
        proof {
            assert(r@ =~= v@.subrange(0, i as int));
        }
    }
    proof {
        assert(r@ =~= v@);
    }
    r
}

impl Clone for User {
    fn clone(&self) -> (r: Self)
        ensures
            r@ == self@,
    {
        User {
            id: self.id,
            email: self.email.clone(),
            name: self.name.clone(),
            wallet_address: match &self.wallet_address {
                Some(w) => Some(w.clone()),
                None => None,
            },
            created_at: self.created_at,
            accounts: clone_ids(&self.accounts),
        }
    }
}

impl Clone for Account {
    fn clone(&self) -> (r: Self)
        ensures
            r@ == self@,
    {
        Account {
            id: self.id,
            user_id: self.user_id,
            account_type: self.account_type,
            balance: self.balance,
            currency: self.currency.clone(),
            created_at: self.created_at,
            is_active: self.is_active,
        }
    }
}

impl Clone for Transaction {
    fn clone(&self) -> (r: Self)
        ensures
            r@ == self@,
    {
        Transaction {
            id: self.id,
            user_id: self.user_id,
            account_id: self.account_id,
            transaction_type: self.transaction_type,
            amount: self.amount,
            description: self.description.clone(),
            timestamp: self.timestamp,
            balance_after: self.balance_after,
        }
    }
}

} // verus!
