//! The ledger's global laws, proved from the store's invariant and the
//! operations' transition relations.
//!
//! The store serializes its mutations (callers guard it with one exclusive
//! lock, or one per collection shard), so any concurrent execution of
//! deposits on one account is equivalent to some sequential order of them.
//! The laws here quantify over every such order: what they establish holds
//! regardless of the interleaving the lock happened to pick.

use vstd::prelude::*;
use vstd::seq_lib::group_to_multiset_ensures;

use crate::errors::OpenBankError;
use crate::store::StoreView;
use crate::store::create_user_spec;
use crate::store::record_deposit_spec;
use crate::store::sum_deposit_amounts;
use crate::types::CreateUserRequest;
use crate::types::DepositRequest;
use crate::types::Transaction;
use crate::types::User;

verus! {

/// In any well-formed store — so at any quiescent point — each account's
/// balance equals the sum of the deposit amounts in its transaction
/// history.
pub proof fn lemma_balance_is_deposit_sum(s: StoreView, i: int)
    requires
        s.wf(),
        0 <= i < s.accounts.len(),
    ensures
        s.accounts[i].balance == sum_deposit_amounts(s.txns[i]),
{
}

/// In any well-formed store, no two users share an email.
pub proof fn lemma_no_shared_email(s: StoreView, j1: int, j2: int)
    requires
        s.wf(),
        0 <= j1 < s.users.len(),
        0 <= j2 < s.users.len(),
        j1 != j2,
    ensures
        s.users[j1].email != s.users[j2].email,
{
}

/// One step of a history's running sum.
proof fn lemma_sum_take_step(h: Seq<crate::types::TransactionView>, m: int)
    requires
        0 <= m < h.len(),
    ensures
        sum_deposit_amounts(h.take(m + 1)) == sum_deposit_amounts(h.take(m)) + (
        if h[m].transaction_type == crate::types::TransactionType::Deposit {
            h[m].amount as int
        } else {
            0
        }),
{
    assert(h.take(m + 1).drop_last() =~= h.take(m));
    assert(h.take(m + 1).last() == h[m]);
}

/// Within one account's history the `balance_after` snapshots strictly
/// increase in application order: what `ListTransactions` returns is
/// monotonically consistent with the single serialization order the
/// account's deposits resolved to.
pub proof fn lemma_balance_after_monotone(s: StoreView, i: int, k1: int, k2: int)
    requires
        s.wf(),
        0 <= i < s.txns.len(),
        0 <= k1 < k2 < s.txns[i].len(),
    ensures
        s.txns[i][k1].balance_after < s.txns[i][k2].balance_after,
    decreases k2 - k1,
{
    let h = s.txns[i];
    lemma_sum_take_step(h, k2);
    if k1 + 1 == k2 {
        lemma_sum_take_step(h, k1);
    } else {
        lemma_balance_after_monotone(s, i, k1, k2 - 1);
    }
}

/// Sum of the amounts of a batch of deposit requests.
pub open spec fn sum_request_amounts(reqs: Seq<DepositRequest>) -> int
    decreases reqs.len(),
{
    if reqs.len() == 0 {
        0
    } else {
        sum_request_amounts(reqs.drop_last()) + reqs.last().amount
    }
}

/// No lost updates: a batch of N successful deposits on one account,
/// serialized in any order, leaves the account's balance higher by exactly
/// the sum of all N amounts. `states` is the chain of store states the
/// serialization went through; each step is one `record_deposit` that
/// returned `Ok`.
pub proof fn lemma_deposits_accumulate(
    states: Seq<StoreView>,
    account_id: usize,
    reqs: Seq<DepositRequest>,
    txs: Seq<Transaction>,
)
    requires
        states.len() == reqs.len() + 1,
        txs.len() == reqs.len(),
        forall|i: int|
            0 <= i < reqs.len() ==> record_deposit_spec(
                states[i],
                account_id,
                reqs[i],
                Ok(txs[i]),
                states[i + 1],
            ),
    ensures
        reqs.len() > 0 ==> account_id < states[0].accounts.len()
            && account_id < states.last().accounts.len() && states.last().accounts[
            account_id as int
        ].balance == states[0].accounts[account_id as int].balance + sum_request_amounts(reqs),
    decreases reqs.len(),
{
    if reqs.len() > 0 {
        let n = reqs.len() as int;
        let prev = states.drop_last();
        assert forall|i: int| 0 <= i < n - 1 implies record_deposit_spec(
            prev[i],
            account_id,
            reqs.drop_last()[i],
            Ok(txs.drop_last()[i]),
            prev[i + 1],
        ) by {
            assert(prev[i] == states[i]);
            assert(prev[i + 1] == states[i + 1]);
            assert(reqs.drop_last()[i] == reqs[i]);
            assert(txs.drop_last()[i] == txs[i]);
        }
        lemma_deposits_accumulate(prev, account_id, reqs.drop_last(), txs.drop_last());
        assert(record_deposit_spec(
            states[n - 1],
            account_id,
            reqs[n - 1],
            Ok(txs[n - 1]),
            states[n],
        ));
        assert(states.last() == states[n]);
        assert(prev.last() == states[n - 1]);
        assert(prev[0] == states[0]);
        let a = account_id as int;
        assert(reqs[n - 1].amount > 0 && account_id < states[n - 1].accounts.len());
        assert(states[n].accounts[a].balance == states[n - 1].accounts[a].balance + reqs[n
            - 1].amount);
        assert(reqs.last() == reqs[n - 1]);
        assert(sum_request_amounts(reqs) == sum_request_amounts(reqs.drop_last()) + reqs[n
            - 1].amount);
        if n == 1 {
            assert(reqs.drop_last().len() == 0);
            assert(sum_request_amounts(reqs.drop_last()) == 0);
        }
    }
}

/// The sum of a batch of deposit requests does not depend on the order
/// they are listed in: any two serializations of the same requests sum to
/// the same total. Together with `lemma_deposits_accumulate`, the final
/// balance after N concurrent deposits is independent of the
/// interleaving.
pub proof fn lemma_sum_request_amounts_permutation(
    reqs1: Seq<DepositRequest>,
    reqs2: Seq<DepositRequest>,
)
    requires
        reqs1.to_multiset() == reqs2.to_multiset(),
    ensures
        sum_request_amounts(reqs1) == sum_request_amounts(reqs2),
    decreases reqs1.len(),
{
    broadcast use group_to_multiset_ensures;

    if reqs1.len() == 0 {
        assert(reqs2.to_multiset().len() == 0);
        assert(reqs2.len() == 0);
    } else {
        let x = reqs1.last();
        let n1 = reqs1.len() - 1;
        assert(reqs1 == reqs1.drop_last().push(x));
        assert(reqs1.to_multiset() =~= reqs1.drop_last().to_multiset().insert(x));
        assert(reqs2.to_multiset().count(x) > 0);
        assert(reqs2.contains(x));
        let j = choose|j: int| 0 <= j < reqs2.len() && reqs2[j] == x;
        lemma_sum_request_amounts_remove(reqs2, j);
        assert(reqs2.remove(j).to_multiset() =~= reqs2.to_multiset().remove(x));
        assert(reqs1.drop_last().to_multiset() =~= reqs2.remove(j).to_multiset());
        lemma_sum_request_amounts_permutation(reqs1.drop_last(), reqs2.remove(j));
    }
}

/// The two previous laws combined: if the same batch of deposits on one
/// account is serialized in two different orders from the same starting
/// state, both serializations end with the same balance — the starting
/// balance plus the sum of all the amounts. No interleaving loses an
/// update.
pub proof fn lemma_deposit_order_irrelevant(
    states1: Seq<StoreView>,
    states2: Seq<StoreView>,
    account_id: usize,
    reqs1: Seq<DepositRequest>,
    reqs2: Seq<DepositRequest>,
    txs1: Seq<Transaction>,
    txs2: Seq<Transaction>,
)
    requires
        states1.len() == reqs1.len() + 1,
        states2.len() == reqs2.len() + 1,
        txs1.len() == reqs1.len(),
        txs2.len() == reqs2.len(),
        reqs1.len() > 0,
        reqs1.to_multiset() == reqs2.to_multiset(),
        states1[0] == states2[0],
        forall|i: int|
            0 <= i < reqs1.len() ==> record_deposit_spec(
                states1[i],
                account_id,
                reqs1[i],
                Ok(txs1[i]),
                states1[i + 1],
            ),
        forall|i: int|
            0 <= i < reqs2.len() ==> record_deposit_spec(
                states2[i],
                account_id,
                reqs2[i],
                Ok(txs2[i]),
                states2[i + 1],
            ),
    ensures
        account_id < states1.last().accounts.len(),
        account_id < states2.last().accounts.len(),
        states1.last().accounts[account_id as int].balance == states2.last().accounts[
            account_id as int
        ].balance,
        states1.last().accounts[account_id as int].balance == states1[0].accounts[
            account_id as int
        ].balance + sum_request_amounts(reqs1),
{
    broadcast use group_to_multiset_ensures;

    assert(reqs2.len() == reqs2.to_multiset().len());
    assert(reqs1.len() == reqs1.to_multiset().len());
    lemma_deposits_accumulate(states1, account_id, reqs1, txs1);
    lemma_deposits_accumulate(states2, account_id, reqs2, txs2);
    lemma_sum_request_amounts_permutation(reqs1, reqs2);
}

/// Removing one request from a batch lowers the batch's sum by exactly
/// that request's amount.
proof fn lemma_sum_request_amounts_remove(reqs: Seq<DepositRequest>, j: int)
    requires
        0 <= j < reqs.len(),
    ensures
        sum_request_amounts(reqs) == sum_request_amounts(reqs.remove(j)) + reqs[j].amount,
    decreases reqs.len(),
{
    let n = reqs.len() - 1;
    if j == n {
        assert(reqs.remove(j) =~= reqs.drop_last());
    } else {
        assert(reqs.remove(j).drop_last() =~= reqs.drop_last().remove(j));
        assert(reqs.remove(j).last() == reqs.last());
        lemma_sum_request_amounts_remove(reqs.drop_last(), j);
        assert(reqs.drop_last()[j] == reqs[j]);
    }
}

/// Duplicate registration excluded: once a `CreateUser` call with some
/// email has succeeded, a second call with the same email (and a
/// well-formed wallet address, if any) changes nothing and reports
/// `DuplicateEmail`. However two such calls serialize, exactly one
/// succeeds.
pub proof fn lemma_duplicate_email_rejected(
    s0: StoreView,
    s1: StoreView,
    s2: StoreView,
    req1: CreateUserRequest,
    req2: CreateUserRequest,
    r1: Result<User, OpenBankError>,
    r2: Result<User, OpenBankError>,
)
    requires
        create_user_spec(s0, req1, r1, s1),
        r1 is Ok,
        req2.email@ == req1.email@,
        req2.wallet_address is Some ==> crate::store::wallet_format_ok(
            req2.wallet_address.unwrap()@,
        ),
        create_user_spec(s1, req2, r2, s2),
    ensures
        s2 == s1,
        match r2 {
            Err(OpenBankError::DuplicateEmail { email }) => email@ == req1.email@,
            _ => false,
        },
{
    let u = r1.unwrap();
    let witness = s0.users.len() as int;
    assert(s1.users[witness] == u@);
    assert(crate::store::email_taken(s1, req2.email@));
}

} // verus!
