//! The closed error taxonomy of the ledger.
//!
//! Every operation reports failure through [`OpenBankError`]. Each variant
//! carries only structured fields (an entity id, the offending value), never
//! free-form text, so callers can pattern-match reliably. Validation errors
//! (`NotFound`, `DuplicateEmail`, `DuplicateWallet`, `InvalidAmount`,
//! `NoWalletAddress`) are detected before any mutation or external call and
//! are side-effect-free. `SettlementUnavailable`, `SettlementRejected` and
//! `Uncertain` can only arise after validation passed, from the external
//! settlement call.

use vstd::prelude::*;

verus! {

/// Which entity collection a `NotFound` error refers to.
#[derive(Clone, Copy, Debug, PartialEq, Eq, Structural)]
pub enum EntityKind {
    User,
    Account,
}

/// The ledger's error taxonomy.
#[derive(Debug, PartialEq, Eq)]
pub enum OpenBankError {
    /// A referenced user or account is absent from the store.
    NotFound { entity: EntityKind, id: usize },
    /// A user with this email already exists.
    DuplicateEmail { email: String },
    /// Another user already registered this wallet address.
    DuplicateWallet { address: String },
    /// A non-positive amount was given where a positive one is required.
    InvalidAmount { amount: i64 },
    /// A withdrawal was requested for a user who has no wallet address.
    NoWalletAddress { user_id: usize },
    /// A malformed external address.
    InvalidAddress { address: String },
    /// The external settlement system was unreachable or errored.
    SettlementUnavailable,
    /// The external settlement system explicitly refused the operation.
    SettlementRejected,
    /// The outcome of an external call could not be determined.
    Uncertain,
}

} // verus!
