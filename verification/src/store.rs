//! The ledger store: the authoritative in-memory collections of users,
//! accounts and per-account transaction histories, with every mutation
//! exposed only through operations that preserve the store's invariants.
//!
//! The store's mathematical model is [`StoreView`]: three sequences indexed
//! by entity id (an entity's id is its position in its collection, so ids
//! are unique by construction) plus the next transaction id. The central
//! invariant, [`StoreView::wf`], ties an account's balance to the sum of
//! the deposit amounts in its history, keeps emails and wallet addresses
//! unique across users, and keeps users' account lists consistent with
//! account ownership.
//!
//! Each mutating operation is specified twice: an exact transition relation
//! (`create_user_spec`, `create_account_spec`, `record_deposit_spec`) that
//! pins down the result and the whole new state for every input, and the
//! operation's `ensures` that it satisfies the relation and preserves
//! well-formedness. The relations are what the concurrency laws in
//! [`crate::laws`] are proved over.

use vstd::prelude::*;

use crate::clock::now_millis;
use crate::errors::EntityKind;
use crate::errors::OpenBankError;
use crate::types::Account;
use crate::types::AccountType;
use crate::types::AccountView;
use crate::types::CreateAccountRequest;
use crate::types::CreateUserRequest;
use crate::types::DepositRequest;
use crate::types::Transaction;
use crate::types::TransactionType;
use crate::types::TransactionView;
use crate::types::User;
use crate::types::UserView;

verus! {

/// Sum of the amounts of the deposit-kind transactions in `s`.
pub open spec fn sum_deposit_amounts(s: Seq<TransactionView>) -> int
    decreases s.len(),
{
    if s.len() == 0 {
        0
    } else {
        sum_deposit_amounts(s.drop_last()) + if s.last().transaction_type
            == TransactionType::Deposit {
            s.last().amount as int
        } else {
            0
        }
    }
}

/// The shape of a well-formed external wallet address: 42 characters
/// beginning with `0x`.
pub open spec fn wallet_format_ok(w: Seq<char>) -> bool {
    w.len() == 42 && w[0] == '0' && w[1] == 'x'
}

/// Some user in `s` already has this email.
pub open spec fn email_taken(s: StoreView, email: Seq<char>) -> bool {
    exists|j: int| 0 <= j < s.users.len() && (#[trigger] s.users[j]).email == email
}

/// Some user in `s` already has this wallet address.
pub open spec fn wallet_taken(s: StoreView, w: Seq<char>) -> bool {
    exists|j: int| 0 <= j < s.users.len() && (#[trigger] s.users[j]).wallet_address == Some(w)
}

/// The mathematical model of the ledger store.
#[verifier::ext_equal]
pub struct StoreView {
    pub users: Seq<UserView>,
    pub accounts: Seq<AccountView>,
    /// One transaction history per account, indexed by account id.
    pub txns: Seq<Seq<TransactionView>>,
    pub next_tx_id: usize,
}

impl StoreView {
    /// An entity's id is its position in its collection, every account has
    /// a history and an existing owner.
    pub open spec fn ids_consistent(self) -> bool {
        &&& self.txns.len() == self.accounts.len()
        &&& forall|j: int| 0 <= j < self.users.len() ==> (#[trigger] self.users[j]).id == j
        &&& forall|i: int|
            0 <= i < self.accounts.len() ==> (#[trigger] self.accounts[i]).id == i
                && self.accounts[i].user_id < self.users.len()
    }

    /// No two users share an email.
    pub open spec fn emails_unique(self) -> bool {
        forall|j1: int, j2: int|
            0 <= j1 < self.users.len() && 0 <= j2 < self.users.len() && j1 != j2 ==> (
            #[trigger] self.users[j1]).email != (#[trigger] self.users[j2]).email
    }

    /// No two users share a wallet address.
    pub open spec fn wallets_unique(self) -> bool {
        forall|j1: int, j2: int|
            0 <= j1 < self.users.len() && 0 <= j2 < self.users.len() && j1 != j2
                && (#[trigger] self.users[j1]).wallet_address is Some ==> self.users[j1].wallet_address
                != (#[trigger] self.users[j2]).wallet_address
    }

    /// Every stored wallet address has the well-formed shape.
    pub open spec fn wallets_well_formed(self) -> bool {
        forall|j: int|
            0 <= j < self.users.len() && (#[trigger] self.users[j]).wallet_address is Some
                ==> wallet_format_ok(self.users[j].wallet_address.unwrap())
    }

    /// Users' account lists are exact: every listed id is an account owned
    /// by that user, the lists ascend (creation order), and every account
    /// is listed by its owner.
    pub open spec fn ownership_consistent(self) -> bool {
        &&& forall|j: int, n: int|
            0 <= j < self.users.len() && 0 <= n < self.users[j].accounts.len() ==> (
            #[trigger] self.users[j].accounts[n]) < self.accounts.len()
                && self.accounts[self.users[j].accounts[n] as int].user_id == j
        &&& forall|j: int, n1: int, n2: int|
            0 <= j < self.users.len() && 0 <= n1 < n2 < self.users[j].accounts.len() ==> (
            #[trigger] self.users[j].accounts[n1]) < (#[trigger] self.users[j].accounts[n2])
        &&& forall|i: int|
            0 <= i < self.accounts.len() ==> self.users[(#[trigger] self.accounts[i]).user_id as int].accounts.contains(
                i as usize)
    }

    /// Every history entry is a positive deposit against its own account,
    /// recorded for the account's owner, and its `balance_after` is the
    /// running sum of the history up to and including it.
    pub open spec fn histories_consistent(self) -> bool {
        forall|i: int, k: int|
            #![trigger self.txns[i][k]]
            0 <= i < self.txns.len() && 0 <= k < self.txns[i].len() ==> {
                let t = self.txns[i][k];
                &&& t.account_id == i
                &&& i < self.accounts.len() ==> t.user_id == self.accounts[i].user_id
                &&& t.transaction_type == TransactionType::Deposit
                &&& t.amount > 0
                &&& t.balance_after == sum_deposit_amounts(self.txns[i].take(k + 1))
            }
    }

    /// Each account's balance is non-negative and equals the sum of the
    /// deposit amounts recorded against it.
    pub open spec fn balances_correct(self) -> bool {
        forall|i: int|
            0 <= i < self.accounts.len() && i < self.txns.len() ==> (
            #[trigger] self.accounts[i]).balance >= 0 && self.accounts[i].balance
                == sum_deposit_amounts(self.txns[i])
    }

    /// Transaction ids are below the next id to hand out, ascend within
    /// each account's history, and never repeat across the store.
    pub open spec fn tx_ids_consistent(self) -> bool {
        &&& forall|i: int, k: int|
            #![trigger self.txns[i][k]]
            0 <= i < self.txns.len() && 0 <= k < self.txns[i].len() ==> self.txns[i][k].id
                < self.next_tx_id
        &&& forall|i: int, k1: int, k2: int|
            0 <= i < self.txns.len() && 0 <= k1 < k2 < self.txns[i].len() ==> (
            #[trigger] self.txns[i][k1]).id < (#[trigger] self.txns[i][k2]).id
        &&& forall|i1: int, k1: int, i2: int, k2: int|
            #![trigger self.txns[i1][k1], self.txns[i2][k2]]
            0 <= i1 < self.txns.len() && 0 <= k1 < self.txns[i1].len() && 0 <= i2
                < self.txns.len() && 0 <= k2 < self.txns[i2].len() && (i1 != i2 || k1 != k2)
                ==> self.txns[i1][k1].id != self.txns[i2][k2].id
    }

    /// The store's well-formedness invariant: established by
    /// [`LedgerStore::new`] and preserved by every operation.
    pub open spec fn wf(self) -> bool {
        &&& self.ids_consistent()
        &&& self.emails_unique()
        &&& self.wallets_unique()
        &&& self.wallets_well_formed()
        &&& self.ownership_consistent()
        &&& self.histories_consistent()
        &&& self.balances_correct()
        &&& self.tx_ids_consistent()
    }
}

/// What `create_user` does: for every input, exactly which result comes
/// back and how the store changes. Validation failures leave the store
/// untouched; precedence is address shape, then email uniqueness, then
/// wallet uniqueness.
pub open spec fn create_user_spec(
    pre: StoreView,
    req: CreateUserRequest,
    r: Result<User, OpenBankError>,
    post: StoreView,
) -> bool {
    if req.wallet_address is Some && !wallet_format_ok(req.wallet_address.unwrap()@) {
        &&& post == pre
        &&& match r {
            Err(OpenBankError::InvalidAddress { address }) => address@
                == req.wallet_address.unwrap()@,
            _ => false,
        }
    } else if email_taken(pre, req.email@) {
        &&& post == pre
        &&& match r {
            Err(OpenBankError::DuplicateEmail { email }) => email@ == req.email@,
            _ => false,
        }
    } else if req.wallet_address is Some && wallet_taken(pre, req.wallet_address.unwrap()@) {
        &&& post == pre
        &&& match r {
            Err(OpenBankError::DuplicateWallet { address }) => address@
                == req.wallet_address.unwrap()@,
            _ => false,
        }
    } else {
        match r {
            Ok(u) => {
                &&& u@.id == pre.users.len()
                &&& u@.email == req.email@
                &&& u@.name == req.name@
                &&& u@.wallet_address == match req.wallet_address {
                    Some(w) => Some(w@),
                    None => None::<Seq<char>>,
                }
                &&& u@.accounts.len() == 0
                &&& post.users == pre.users.push(u@)
                &&& post.accounts == pre.accounts
                &&& post.txns == pre.txns
                &&& post.next_tx_id == pre.next_tx_id
            },
            Err(_) => false,
        }
    }
}

/// What `create_account` does. On an unknown user nothing changes; on
/// success the new account, its empty history and the owner's account-list
/// entry appear together.
pub open spec fn create_account_spec(
    pre: StoreView,
    user_id: usize,
    req: CreateAccountRequest,
    r: Result<Account, OpenBankError>,
    post: StoreView,
) -> bool {
    if user_id >= pre.users.len() {
        &&& post == pre
        &&& r == Err::<Account, OpenBankError>(
            OpenBankError::NotFound { entity: EntityKind::User, id: user_id },
        )
    } else {
        match r {
            Ok(a) => {
                &&& a@.id == pre.accounts.len()
                &&& a@.user_id == user_id
                &&& a@.account_type == AccountType::Deposit
                &&& a@.balance == 0
                &&& a@.currency == req.currency@
                &&& a@.is_active
                &&& post.users == pre.users.update(
                    user_id as int,
                    UserView {
                        accounts: pre.users[user_id as int].accounts.push(a.id),
                        ..pre.users[user_id as int]
                    },
                )
                &&& post.accounts == pre.accounts.push(a@)
                &&& post.txns == pre.txns.push(Seq::<TransactionView>::empty())
                &&& post.next_tx_id == pre.next_tx_id
            },
            Err(_) => false,
        }
    }
}

/// What `record_deposit` does. A non-positive amount or an unknown account
/// leaves the store untouched; on success the balance update and the
/// appended transaction appear together, with `balance_after` the new
/// balance.
pub open spec fn record_deposit_spec(
    pre: StoreView,
    account_id: usize,
    req: DepositRequest,
    r: Result<Transaction, OpenBankError>,
    post: StoreView,
) -> bool {
    if req.amount <= 0 {
        &&& post == pre
        &&& r == Err::<Transaction, OpenBankError>(
            OpenBankError::InvalidAmount { amount: req.amount },
        )
    } else if account_id >= pre.accounts.len() {
        &&& post == pre
        &&& r == Err::<Transaction, OpenBankError>(
            OpenBankError::NotFound { entity: EntityKind::Account, id: account_id },
        )
    } else {
        match r {
            Ok(t) => {
                &&& t@.id == pre.next_tx_id
                &&& t@.user_id == pre.accounts[account_id as int].user_id
                &&& t@.account_id == account_id
                &&& t@.transaction_type == TransactionType::Deposit
                &&& t@.amount == req.amount
                &&& t@.description == match req.description {
                    Some(d) => d@,
                    None => "Deposit"@,
                }
                &&& t@.balance_after == pre.accounts[account_id as int].balance + req.amount
                &&& post.users == pre.users
                &&& post.accounts == pre.accounts.update(
                    account_id as int,
                    AccountView {
                        balance: (pre.accounts[account_id as int].balance + req.amount) as i64,
                        ..pre.accounts[account_id as int]
                    },
                )
                &&& post.txns == pre.txns.update(
                    account_id as int,
                    pre.txns[account_id as int].push(t@),
                )
                &&& post.next_tx_id == pre.next_tx_id + 1
            },
            Err(_) => false,
        }
    }
}

/// The ledger store. Owns the three entity collections; callers reach them
/// only through the operations below, never through raw handles.
pub struct LedgerStore {
    users: Vec<User>,
    accounts: Vec<Account>,
    transactions: Vec<Vec<Transaction>>,
    next_tx_id: usize,
}

impl View for LedgerStore {
    type V = StoreView;

    closed spec fn view(&self) -> StoreView {
        StoreView {
            users: Seq::new(self.users@.len(), |j: int| self.users@[j]@),
            accounts: Seq::new(self.accounts@.len(), |i: int| self.accounts@[i]@),
            txns: Seq::new(
                self.transactions@.len(),
                |i: int|
                    Seq::new(self.transactions@[i]@.len(), |k: int| self.transactions@[i]@[k]@),
            ),
            next_tx_id: self.next_tx_id,
        }
    }
}

impl LedgerStore {
    /// An empty, well-formed store.
    pub fn new() -> (s: Self)
        ensures
            s@.users.len() == 0,
            s@.accounts.len() == 0,
            s@.txns.len() == 0,
            s@.next_tx_id == 0,
            s@.wf(),
    {
        LedgerStore { users: Vec::new(), accounts: Vec::new(), transactions: Vec::new(), next_tx_id: 0 }
    }

    /// The id the next recorded transaction will get. Callers use it to
    /// check, before a deposit, that an id is left to hand out.
    pub fn next_transaction_id(&self) -> (r: usize)
        ensures
            r == self@.next_tx_id,
    {
        self.next_tx_id
    }

    /// Looks a user up by id; `NotFound` exactly when the id is unknown.
    pub fn get_user(&self, user_id: usize) -> (r: Result<User, OpenBankError>)
        ensures
            match r {
                Ok(u) => user_id < self@.users.len() && u@ == self@.users[user_id as int],
                Err(e) => user_id >= self@.users.len() && e == (OpenBankError::NotFound {
                    entity: EntityKind::User,
                    id: user_id,
                }),
            },
    {
        if user_id < self.users.len() {
            Ok(self.users[user_id].clone())
        } else {
            Err(OpenBankError::NotFound { entity: EntityKind::User, id: user_id })
        }
    }

    /// Looks an account up by id; `NotFound` exactly when the id is unknown.
    pub fn get_account(&self, account_id: usize) -> (r: Result<Account, OpenBankError>)
        ensures
            match r {
                Ok(a) => account_id < self@.accounts.len() && a@
                    == self@.accounts[account_id as int],
                Err(e) => account_id >= self@.accounts.len() && e == (OpenBankError::NotFound {
                    entity: EntityKind::Account,
                    id: account_id,
                }),
            },
    {
        if account_id < self.accounts.len() {
            Ok(self.accounts[account_id].clone())
        } else {
            Err(OpenBankError::NotFound { entity: EntityKind::Account, id: account_id })
        }
    }

    /// Registers a user. See [`create_user_spec`] for the exact contract:
    /// a malformed wallet address, a taken email or a taken wallet address
    /// is rejected without mutation; otherwise the user is inserted with a
    /// fresh id and no accounts.
    #[verifier::loop_isolation(false)]
    pub fn create_user(&mut self, req: CreateUserRequest) -> (r: Result<User, OpenBankError>)
        requires
            old(self)@.wf(),
        ensures
            final(self)@.wf(),
            create_user_spec(old(self)@, req, r, final(self)@),
    {
        let wallet_bad = match &req.wallet_address {
            Some(w) => !wallet_format_check(w),
            None => false,
        };
        if wallet_bad {
            let address = req.wallet_address.unwrap();
            return Err(OpenBankError::InvalidAddress { address });
        }
        let mut j: usize = 0;
        while j < self.users.len()
            invariant
                *self == *old(self),
                j <= self.users.len(),
                forall|m: int| 0 <= m < j ==> (#[trigger] self@.users[m]).email != req.email@,
            decreases self.users.len() - j,
        {
            if self.users[j].email == req.email {
                assert(self@.users[j as int].email == req.email@);
                return Err(OpenBankError::DuplicateEmail { email: req.email });
            }
            j = j + 1;
        }
        if let Some(w) = &req.wallet_address {
            let mut m: usize = 0;
            while m < self.users.len()
                invariant
                    *self == *old(self),
                    m <= self.users.len(),
                    forall|n: int|
                        0 <= n < m ==> (#[trigger] self@.users[n]).wallet_address != Some(w@),
                decreases self.users.len() - m,
            {
                let taken = match &self.users[m].wallet_address {
                    Some(existing) => *existing == *w,
                    None => false,
                };
                if taken {
                    assert(self@.users[m as int].wallet_address == Some(w@));
                    let address = req.wallet_address.unwrap();
                    return Err(OpenBankError::DuplicateWallet { address });
                }
                m = m + 1;
            }
        }
        let id = self.users.len();
        let created_at = now_millis();
        let user = User {
            id,
            email: req.email,
            name: req.name,
            wallet_address: req.wallet_address,
            created_at,
            accounts: Vec::new(),
        };
        let stored = user.clone();
        self.users.push(stored);
        proof {
            assert(final(self)@.users =~= old(self)@.users.push(user@));
            assert(final(self)@.accounts =~= old(self)@.accounts);
            assert(final(self)@.txns =~~= old(self)@.txns);
            lemma_insert_user_preserves_wf(old(self)@, final(self)@, user@);
        }
        Ok(user)
    }

    /// Opens a deposit-tracking account for an existing user. See
    /// [`create_account_spec`]: the new account (balance 0), its empty
    /// transaction history and the owner's account-list entry are applied
    /// as one logical unit; an unknown user mutates nothing.
    pub fn create_account(&mut self, user_id: usize, req: CreateAccountRequest) -> (r: Result<
        Account,
        OpenBankError,
    >)
        requires
            old(self)@.wf(),
        ensures
            final(self)@.wf(),
            create_account_spec(old(self)@, user_id, req, r, final(self)@),
    {
        if user_id >= self.users.len() {
            return Err(OpenBankError::NotFound { entity: EntityKind::User, id: user_id });
        }
        let account_id = self.accounts.len();
        let created_at = now_millis();
        let account = Account {
            id: account_id,
            user_id,
            account_type: AccountType::Deposit,
            balance: 0,
            currency: req.currency,
            created_at,
            is_active: true,
        };
        let stored = account.clone();
        self.accounts.push(stored);
        self.transactions.push(Vec::new());
        self.users[user_id].accounts.push(account_id);
        proof {
            assert(final(self)@.accounts =~= old(self)@.accounts.push(account@));
            assert(final(self)@.txns =~~= old(self)@.txns.push(Seq::<TransactionView>::empty()));
            assert(final(self)@.users =~~= old(self)@.users.update(
                user_id as int,
                UserView {
                    accounts: old(self)@.users[user_id as int].accounts.push(account_id),
                    ..old(self)@.users[user_id as int]
                },
            ));
            lemma_insert_account_preserves_wf(old(self)@, final(self)@, account@);
        }
        Ok(account)
    }

    /// Records a deposit against an account. See [`record_deposit_spec`]:
    /// the balance update and the appended transaction are one atomic
    /// effect; a non-positive amount or an unknown account mutates
    /// nothing. The two `requires` besides well-formedness are machine
    /// limits: the new balance must fit in `i64` and a transaction id must
    /// be left to hand out.
    pub fn record_deposit(&mut self, account_id: usize, req: DepositRequest) -> (r: Result<
        Transaction,
        OpenBankError,
    >)
        requires
            old(self)@.wf(),
            account_id < old(self)@.accounts.len() && req.amount > 0 ==> old(
                self,
            )@.accounts[account_id as int].balance + req.amount <= i64::MAX && old(self)@.next_tx_id
                < usize::MAX,
        ensures
            final(self)@.wf(),
            record_deposit_spec(old(self)@, account_id, req, r, final(self)@),
    {
        if req.amount <= 0 {
            return Err(OpenBankError::InvalidAmount { amount: req.amount });
        }
        if account_id >= self.accounts.len() {
            return Err(OpenBankError::NotFound { entity: EntityKind::Account, id: account_id });
        }
        let tx_id = self.next_tx_id;
        self.next_tx_id = tx_id + 1;
        let account = &mut self.accounts[account_id];
        let new_balance = account.balance + req.amount;
        account.balance = new_balance;
        let user_id = self.accounts[account_id].user_id;
        let description = match req.description {
            Some(d) => d,
            None => <String as vstd::string::StringExecFns>::from_str("Deposit"),
        };
        let timestamp = now_millis();
        let transaction = Transaction {
            id: tx_id,
            user_id,
            account_id,
            transaction_type: TransactionType::Deposit,
            amount: req.amount,
            description,
            timestamp,
            balance_after: new_balance,
        };
        let stored = transaction.clone();
        self.transactions[account_id].push(stored);
        proof {
            assert(final(self)@.users =~= old(self)@.users);
            assert(final(self)@.accounts =~~= old(self)@.accounts.update(
                account_id as int,
                AccountView {
                    balance: new_balance,
                    ..old(self)@.accounts[account_id as int]
                },
            ));
            assert(final(self)@.txns =~~= old(self)@.txns.update(
                account_id as int,
                old(self)@.txns[account_id as int].push(transaction@),
            ));
            lemma_append_deposit_preserves_wf(old(self)@, final(self)@, transaction@);
        }
        Ok(transaction)
    }

    /// Returns an account's transaction history in application order;
    /// `NotFound` exactly when the account is unknown.
    #[verifier::loop_isolation(false)]
    pub fn list_transactions(&self, account_id: usize) -> (r: Result<
        Vec<Transaction>,
        OpenBankError,
    >)
        ensures
            match r {
                Ok(ts) => account_id < self@.txns.len() && ts@.len() == self@.txns[
                    account_id as int
                ].len() && forall|k: int|
                    0 <= k < ts@.len() ==> (#[trigger] ts@[k])@ == self@.txns[account_id as int][k],
                Err(e) => account_id >= self@.txns.len() && e == (OpenBankError::NotFound {
                    entity: EntityKind::Account,
                    id: account_id,
                }),
            },
    {
        if account_id >= self.transactions.len() {
            return Err(OpenBankError::NotFound { entity: EntityKind::Account, id: account_id });
        }
        let history = &self.transactions[account_id];
        let mut ts: Vec<Transaction> = Vec::new();
        let mut k: usize = 0;
        while k < history.len()
            invariant
                k <= history.len(),
                ts@.len() == k,
                forall|m: int|
                    0 <= m < k ==> (#[trigger] ts@[m])@ == self@.txns[account_id as int][m],
            decreases history.len() - k,
        {
            ts.push(history[k].clone());
            k = k + 1;
        }
        Ok(ts)
    }

    /// Returns the accounts a user owns, in creation order; `NotFound`
    /// exactly when the user is unknown.
    #[verifier::loop_isolation(false)]
    pub fn list_accounts_for_user(&self, user_id: usize) -> (r: Result<Vec<Account>, OpenBankError>)
        requires
            self@.wf(),
        ensures
            match r {
                Ok(accts) => user_id < self@.users.len() && accts@.len() == self@.users[
                    user_id as int
                ].accounts.len() && forall|n: int|
                    0 <= n < accts@.len() ==> (#[trigger] accts@[n])@ == self@.accounts[self@.users[
                        user_id as int
                    ].accounts[n] as int],
                Err(e) => user_id >= self@.users.len() && e == (OpenBankError::NotFound {
                    entity: EntityKind::User,
                    id: user_id,
                }),
            },
    {
        if user_id >= self.users.len() {
            return Err(OpenBankError::NotFound { entity: EntityKind::User, id: user_id });
        }
        let ids = &self.users[user_id].accounts;
        let mut accts: Vec<Account> = Vec::new();
        let mut n: usize = 0;
        while n < ids.len()
            invariant
                n <= ids.len(),
                accts@.len() == n,
                forall|m: int|
                    0 <= m < n ==> (#[trigger] accts@[m])@ == self@.accounts[self@.users[
                        user_id as int
                    ].accounts[m] as int],
            decreases ids.len() - n,
        {
            let account_id = ids[n];
            assert(self@.users[user_id as int].accounts[n as int] == account_id);
            assert(account_id < self@.accounts.len());
            accts.push(self.accounts[account_id].clone());
            n = n + 1;
        }
        Ok(accts)
    }
}

/// Checks the well-formed wallet address shape.
fn wallet_format_check(w: &String) -> (b: bool)
    ensures
        b == wallet_format_ok(w@),
{
    let s = w.as_str();
    let n = s.unicode_len();
    if n != 42 {
        false
    } else {
        s.get_char(0) == '0' && s.get_char(1) == 'x'
    }
}

/// Inserting a fresh user whose email and wallet are not yet present keeps
/// the store well-formed.
proof fn lemma_insert_user_preserves_wf(pre: StoreView, post: StoreView, u: UserView)
    requires
        pre.wf(),
        !email_taken(pre, u.email),
        u.wallet_address is Some ==> !wallet_taken(pre, u.wallet_address.unwrap()),
        u.wallet_address is Some ==> wallet_format_ok(u.wallet_address.unwrap()),
        u.id == pre.users.len(),
        u.accounts.len() == 0,
        post.users == pre.users.push(u),
        post.accounts == pre.accounts,
        post.txns == pre.txns,
        post.next_tx_id == pre.next_tx_id,
    ensures
        post.wf(),
{
    let n = pre.users.len() as int;
    assert forall|j1: int, j2: int|
        0 <= j1 < post.users.len() && 0 <= j2 < post.users.len() && j1 != j2 implies (
    #[trigger] post.users[j1]).email != (#[trigger] post.users[j2]).email by {
        if j1 == n {
            assert(post.users[j2] == pre.users[j2]);
        } else if j2 == n {
            assert(post.users[j1] == pre.users[j1]);
        } else {
            assert(post.users[j1] == pre.users[j1]);
            assert(post.users[j2] == pre.users[j2]);
        }
    }
    assert forall|j1: int, j2: int|
        0 <= j1 < post.users.len() && 0 <= j2 < post.users.len() && j1 != j2
            && (#[trigger] post.users[j1]).wallet_address is Some implies post.users[j1].wallet_address
        != (#[trigger] post.users[j2]).wallet_address by {
        if j1 == n {
            assert(post.users[j2] == pre.users[j2]);
        } else if j2 == n {
            assert(post.users[j1] == pre.users[j1]);
        } else {
            assert(post.users[j1] == pre.users[j1]);
            assert(post.users[j2] == pre.users[j2]);
        }
    }
    assert forall|i: int| 0 <= i < post.accounts.len() implies post.users[(
    #[trigger] post.accounts[i]).user_id as int].accounts.contains(i as usize) by {
        assert(post.accounts[i] == pre.accounts[i]);
        assert(post.users[pre.accounts[i].user_id as int]
            == pre.users[pre.accounts[i].user_id as int]);
    }
}

/// Appending a fresh zero-balance account with an empty history, and
/// listing it with its owner, keeps the store well-formed.
proof fn lemma_insert_account_preserves_wf(pre: StoreView, post: StoreView, a: AccountView)
    requires
        pre.wf(),
        a.id == pre.accounts.len(),
        a.user_id < pre.users.len(),
        a.balance == 0,
        post.users == pre.users.update(
            a.user_id as int,
            UserView {
                accounts: pre.users[a.user_id as int].accounts.push(a.id),
                ..pre.users[a.user_id as int]
            },
        ),
        post.accounts == pre.accounts.push(a),
        post.txns == pre.txns.push(Seq::<TransactionView>::empty()),
        post.next_tx_id == pre.next_tx_id,
    ensures
        post.wf(),
{
    let owner = a.user_id as int;
    let new_id = a.id;
    assert forall|j: int, n: int|
        0 <= j < post.users.len() && 0 <= n < post.users[j].accounts.len() implies (
    #[trigger] post.users[j].accounts[n]) < post.accounts.len()
        && post.accounts[post.users[j].accounts[n] as int].user_id == j by {
        if j == owner && n == pre.users[owner].accounts.len() {
            assert(post.users[j].accounts[n] == new_id);
            assert(post.accounts[new_id as int] == a);
        } else {
            assert(post.users[j].accounts[n] == pre.users[j].accounts[n]);
            assert(post.accounts[pre.users[j].accounts[n] as int]
                == pre.accounts[pre.users[j].accounts[n] as int]);
        }
    }
    assert forall|j: int, n1: int, n2: int|
        0 <= j < post.users.len() && 0 <= n1 < n2 < post.users[j].accounts.len() implies (
    #[trigger] post.users[j].accounts[n1]) < (#[trigger] post.users[j].accounts[n2]) by {
        if j == owner && n2 == pre.users[owner].accounts.len() {
            assert(post.users[j].accounts[n1] == pre.users[j].accounts[n1]);
            assert(pre.users[j].accounts[n1] < pre.accounts.len());
        } else {
            assert(post.users[j].accounts[n1] == pre.users[j].accounts[n1]);
            assert(post.users[j].accounts[n2] == pre.users[j].accounts[n2]);
        }
    }
    assert forall|i: int| 0 <= i < post.accounts.len() implies post.users[(
    #[trigger] post.accounts[i]).user_id as int].accounts.contains(i as usize) by {
        if i == new_id as int {
            let list = post.users[owner].accounts;
            assert(list[pre.users[owner].accounts.len() as int] == new_id);
        } else {
            assert(post.accounts[i] == pre.accounts[i]);
            let j = pre.accounts[i].user_id as int;
            let n = choose|n: int|
                0 <= n < pre.users[j].accounts.len() && pre.users[j].accounts[n] == i as usize;
            assert(post.users[j].accounts[n] == i as usize);
        }
    }
    assert forall|i: int| 0 <= i < post.accounts.len() && i < post.txns.len() implies (
    #[trigger] post.accounts[i]).balance >= 0 && post.accounts[i].balance == sum_deposit_amounts(
        post.txns[i],
    ) by {
        if i == new_id as int {
            assert(post.txns[i] =~= Seq::<TransactionView>::empty());
            assert(sum_deposit_amounts(post.txns[i]) == 0);
        } else {
            assert(post.accounts[i] == pre.accounts[i]);
            assert(post.txns[i] == pre.txns[i]);
        }
    }
}

/// Appending one deposit to a history adds its amount to the history's sum.
proof fn lemma_sum_push(s: Seq<TransactionView>, t: TransactionView)
    requires
        t.transaction_type == TransactionType::Deposit,
    ensures
        sum_deposit_amounts(s.push(t)) == sum_deposit_amounts(s) + t.amount,
{
    assert(s.push(t).drop_last() =~= s);
    assert(s.push(t).last() == t);
}

/// Appending a positive deposit to an account's history while adding its
/// amount to that account's balance keeps the store well-formed.
proof fn lemma_append_deposit_preserves_wf(pre: StoreView, post: StoreView, t: TransactionView)
    requires
        pre.wf(),
        0 <= t.account_id < pre.accounts.len(),
        t.user_id == pre.accounts[t.account_id as int].user_id,
        t.transaction_type == TransactionType::Deposit,
        t.amount > 0,
        t.id == pre.next_tx_id,
        pre.next_tx_id < usize::MAX,
        t.balance_after == pre.accounts[t.account_id as int].balance + t.amount,
        pre.accounts[t.account_id as int].balance + t.amount <= i64::MAX,
        post.users == pre.users,
        post.accounts == pre.accounts.update(
            t.account_id as int,
            AccountView {
                balance: (pre.accounts[t.account_id as int].balance + t.amount) as i64,
                ..pre.accounts[t.account_id as int]
            },
        ),
        post.txns == pre.txns.update(
            t.account_id as int,
            pre.txns[t.account_id as int].push(t),
        ),
        post.next_tx_id == pre.next_tx_id + 1,
    ensures
        post.wf(),
{
    let a = t.account_id as int;
    let old_len = pre.txns[a].len() as int;
    lemma_sum_push(pre.txns[a], t);
    assert forall|i: int, k: int|
        #![trigger post.txns[i][k]]
        0 <= i < post.txns.len() && 0 <= k < post.txns[i].len() implies {
        let e = post.txns[i][k];
        &&& e.account_id == i
        &&& i < post.accounts.len() ==> e.user_id == post.accounts[i].user_id
        &&& e.transaction_type == TransactionType::Deposit
        &&& e.amount > 0
        &&& e.balance_after == sum_deposit_amounts(post.txns[i].take(k + 1))
    } by {
        if i == a {
            if k < old_len {
                assert(post.txns[i][k] == pre.txns[i][k]);
                assert(post.txns[i].take(k + 1) =~= pre.txns[i].take(k + 1));
            } else {
                assert(post.txns[i][k] == t);
                assert(post.txns[i].take(k + 1) =~= pre.txns[a].push(t));
            }
        } else {
            assert(post.txns[i] == pre.txns[i]);
            assert(post.txns[i].take(k + 1) == pre.txns[i].take(k + 1));
            if i < post.accounts.len() {
                assert(post.accounts[i] == pre.accounts[i]);
            }
        }
    }
    assert forall|i: int| 0 <= i < post.accounts.len() && i < post.txns.len() implies (
    #[trigger] post.accounts[i]).balance >= 0 && post.accounts[i].balance == sum_deposit_amounts(
        post.txns[i],
    ) by {
        if i == a {
            assert(post.txns[i] == pre.txns[a].push(t));
        } else {
            assert(post.accounts[i] == pre.accounts[i]);
            assert(post.txns[i] == pre.txns[i]);
        }
    }
    assert forall|i: int| 0 <= i < post.accounts.len() implies post.users[(
    #[trigger] post.accounts[i]).user_id as int].accounts.contains(i as usize) by {
        assert(post.accounts[i].user_id == pre.accounts[i].user_id);
    }
    assert forall|i1: int, k1: int, i2: int, k2: int|
        #![trigger post.txns[i1][k1], post.txns[i2][k2]]
        0 <= i1 < post.txns.len() && 0 <= k1 < post.txns[i1].len() && 0 <= i2 < post.txns.len()
            && 0 <= k2 < post.txns[i2].len() && (i1 != i2 || k1 != k2) implies post.txns[i1][k1].id
        != post.txns[i2][k2].id by {
        if i1 == a && k1 == old_len {
            assert(post.txns[i1][k1] == t);
            if !(i2 == a && k2 == old_len) {
                assert(post.txns[i2][k2].id < pre.next_tx_id);
            }
        } else if i2 == a && k2 == old_len {
            assert(post.txns[i2][k2] == t);
            assert(post.txns[i1][k1].id < pre.next_tx_id);
        } else {
            assert(post.txns[i1][k1] == pre.txns[i1][k1]);
            assert(post.txns[i2][k2] == pre.txns[i2][k2]);
        }
    }
}

} // verus!
