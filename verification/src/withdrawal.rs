//! The withdrawal flow: debiting value out of the ledger through the
//! external settlement system.
//!
//! A withdrawal attempt moves `Requested -> Validated -> ExternalCallSent`
//! and then to exactly one terminal state: `Settled`, `ExternalCallFailed`
//! or `Uncertain`. The two halves verified here are the decisions around
//! the one unreliable step:
//!
//! - [`validate_withdrawal`] takes the request from `Requested` to
//!   `Validated` against a read-only view of the store — validation never
//!   mutates the ledger, and no store lock need be held once it returns.
//! - [`resolve_settlement`] maps what came back from the settlement
//!   client's send operation to the terminal state.
//!
//! The chosen reconciliation policy: the external call is authoritative.
//! On success no local debit transaction is appended and no balance is
//! decremented — outflows are reconciled solely through the external
//! system's own balance record ([`crate::types::ContractUserBalance`]).
//! This is a deliberate, documented scope limitation of the ledger, not an
//! oversight; extending it to a local debit entry reconciled against
//! external confirmation is an open design question.

use vstd::prelude::*;

use crate::errors::EntityKind;
use crate::errors::OpenBankError;
use crate::store::LedgerStore;
use crate::store::StoreView;
use crate::types::WithdrawRequest;

verus! {

/// A withdrawal intent that passed validation: the user exists, has a
/// wallet address, and the amount is positive.
pub struct ValidatedWithdrawal {
    pub user_id: usize,
    /// Destination in the external settlement system's namespace.
    pub wallet_address: String,
    /// Amount in the external system's minor units. The ledger's
    /// micro-unit amounts use the same fixed-point scale, so the value
    /// carries over exactly.
    pub amount_minor: u64,
    pub description: String,
}

/// What the settlement client's send operation came back with, as observed
/// by the caller that performed it.
#[derive(Clone, Copy, Debug, PartialEq, Eq, Structural)]
pub enum SettlementEvent {
    /// The external system accepted the transfer.
    Confirmed,
    /// Transport or RPC failure: the external system was unreachable or
    /// errored before accepting anything.
    Unavailable,
    /// The external system explicitly refused the transfer.
    Rejected,
    /// The external system refused the destination address as malformed.
    AddressRejected,
    /// The call timed out after the request may have been delivered: the
    /// outcome is unknown.
    TimedOut,
}

/// The terminal state of a withdrawal attempt.
#[derive(Debug, PartialEq, Eq)]
pub enum WithdrawalOutcome {
    /// Funds moved externally. By the reconciliation policy above, no
    /// local ledger mutation accompanies this.
    Settled,
    /// The external call failed with the given error; nothing moved and
    /// the ledger was never touched, so the whole request may be retried.
    ExternalCallFailed(OpenBankError),
    /// The outcome of the external call could not be determined. Not a
    /// failure and not a success: the caller must query the external
    /// balance to learn the truth before doing anything else.
    Uncertain,
}

/// Advice on how to proceed from a terminal withdrawal state.
#[derive(Clone, Copy, Debug, PartialEq, Eq, Structural)]
pub enum RecoveryAction {
    /// Terminal success; nothing to recover.
    Complete,
    /// The request had no effect anywhere; it is safe to retry it whole.
    RetryRequest,
    /// Query the external system's balance record for the destination to
    /// learn whether the transfer applied. Never blindly resend.
    QueryExternalBalance,
}

/// What `validate_withdrawal` returns for every store state and request:
/// a non-positive amount is rejected first, then an unknown user, then a
/// missing wallet address; otherwise the intent is accepted with the
/// user's wallet address and the amount carried over exactly to minor
/// units.
pub open spec fn validate_withdrawal_spec(
    s: StoreView,
    req: WithdrawRequest,
    r: Result<ValidatedWithdrawal, OpenBankError>,
) -> bool {
    if req.amount <= 0 {
        r == Err::<ValidatedWithdrawal, OpenBankError>(
            OpenBankError::InvalidAmount { amount: req.amount },
        )
    } else if req.user_id >= s.users.len() {
        r == Err::<ValidatedWithdrawal, OpenBankError>(
            OpenBankError::NotFound { entity: EntityKind::User, id: req.user_id },
        )
    } else if s.users[req.user_id as int].wallet_address is None {
        r == Err::<ValidatedWithdrawal, OpenBankError>(
            OpenBankError::NoWalletAddress { user_id: req.user_id },
        )
    } else {
        match r {
            Ok(v) => {
                &&& v.user_id == req.user_id
                &&& v.wallet_address@ == s.users[req.user_id as int].wallet_address.unwrap()
                &&& v.amount_minor == req.amount
                &&& v.description@ == match req.description {
                    Some(d) => d@,
                    None => "API withdrawal"@,
                }
            },
            Err(_) => false,
        }
    }
}

/// Takes a withdrawal request from `Requested` to `Validated`. Reads the
/// store through a shared reference: validation has no ledger side effect
/// on any path, success or failure.
pub fn validate_withdrawal(store: &LedgerStore, req: WithdrawRequest) -> (r: Result<
    ValidatedWithdrawal,
    OpenBankError,
>)
    ensures
        validate_withdrawal_spec(store@, req, r),
{
    if req.amount <= 0 {
        return Err(OpenBankError::InvalidAmount { amount: req.amount });
    }
    let user = match store.get_user(req.user_id) {
        Ok(u) => u,
        Err(e) => {
            return Err(e);
        },
    };
    let wallet_address = match user.wallet_address {
        Some(w) => w,
        None => {
            return Err(OpenBankError::NoWalletAddress { user_id: req.user_id });
        },
    };
    let amount_minor = req.amount as u64;
    let description = match req.description {
        Some(d) => d,
        None => <String as vstd::string::StringExecFns>::from_str("API withdrawal"),
    };
    Ok(ValidatedWithdrawal { user_id: req.user_id, wallet_address, amount_minor, description })
}

/// Takes a sent withdrawal to its terminal state from what the settlement
/// client's send came back with. A timeout becomes `Uncertain`, never a
/// silent success or failure; an explicit failure surfaces the settlement
/// error verbatim. No path mutates the ledger.
pub fn resolve_settlement(intent: &ValidatedWithdrawal, event: SettlementEvent) -> (o:
    WithdrawalOutcome)
    ensures
        o == match event {
            SettlementEvent::Confirmed => WithdrawalOutcome::Settled,
            SettlementEvent::Unavailable => WithdrawalOutcome::ExternalCallFailed(
                OpenBankError::SettlementUnavailable,
            ),
            SettlementEvent::Rejected => WithdrawalOutcome::ExternalCallFailed(
                OpenBankError::SettlementRejected,
            ),
            SettlementEvent::AddressRejected => WithdrawalOutcome::ExternalCallFailed(
                OpenBankError::InvalidAddress { address: intent.wallet_address },
            ),
            SettlementEvent::TimedOut => WithdrawalOutcome::Uncertain,
        },
{
    match event {
        SettlementEvent::Confirmed => WithdrawalOutcome::Settled,
        SettlementEvent::Unavailable => WithdrawalOutcome::ExternalCallFailed(
            OpenBankError::SettlementUnavailable,
        ),
        SettlementEvent::Rejected => WithdrawalOutcome::ExternalCallFailed(
            OpenBankError::SettlementRejected,
        ),
        SettlementEvent::AddressRejected => WithdrawalOutcome::ExternalCallFailed(
            OpenBankError::InvalidAddress { address: intent.wallet_address.clone() },
        ),
        SettlementEvent::TimedOut => WithdrawalOutcome::Uncertain,
    }
}

/// The documented recovery path from each terminal state: a failed call
/// left no trace, so the request may be retried whole; an uncertain call
/// demands a balance query of the external system first — retrying the
/// send there could double-spend.
pub fn recovery_action(o: &WithdrawalOutcome) -> (a: RecoveryAction)
    ensures
        a == match *o {
            WithdrawalOutcome::Settled => RecoveryAction::Complete,
            WithdrawalOutcome::ExternalCallFailed(_) => RecoveryAction::RetryRequest,
            WithdrawalOutcome::Uncertain => RecoveryAction::QueryExternalBalance,
        },
{
    match o {
        WithdrawalOutcome::Settled => RecoveryAction::Complete,
        WithdrawalOutcome::ExternalCallFailed(_) => RecoveryAction::RetryRequest,
        WithdrawalOutcome::Uncertain => RecoveryAction::QueryExternalBalance,
    }
}

} // verus!
