//! The one place the ledger reads a clock.
//!
//! Records are stamped with milliseconds since the Unix epoch. Nothing in
//! the ledger's contracts depends on the value: transactions within an
//! account are ordered by application order, not by wall-clock time.

use vstd::prelude::*;

verus! {

/// Relies on chrono's `Utc::now` and `DateTime::timestamp_millis`: the
/// current time as milliseconds since the Unix epoch. `Utc::now` refuses a
/// system clock set before the epoch, so a returned value is non-negative.
#[verifier::external_body]
pub fn now_millis() -> (r: i64)
    ensures
        r >= 0,
{
    chrono::Utc::now().timestamp_millis()
}

} // verus!
