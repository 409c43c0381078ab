//! An in-memory bookkeeping ledger: users, accounts, and the append-only
//! transaction history that produced each account's balance, together with
//! the sequencing rules for settling withdrawals against an external
//! value-transfer system.

pub mod amount;
pub mod clock;
pub mod errors;
pub mod laws;
pub mod store;
pub mod types;
pub mod withdrawal;

pub use errors::EntityKind;
pub use errors::OpenBankError;
pub use types::Account;
pub use types::AccountType;
pub use types::ContractUserBalance;
pub use types::CreateAccountRequest;
pub use types::CreateUserRequest;
pub use types::DepositRequest;
pub use types::Transaction;
pub use types::TransactionType;
pub use types::User;
pub use types::WithdrawRequest;
