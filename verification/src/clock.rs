//! The wall clock, behind a trusted boundary.
//!
//! Store mutations take the timestamp they stamp rows with as an argument,
//! so their contracts are exact for every clock value; this module only
//! supplies the conventional source of that argument.

use vstd::prelude::*;

verus! {

/// Milliseconds since the Unix epoch, now.
///
/// Relies on chrono's `Utc::now` and `DateTime::timestamp_millis`. The
/// result depends on the wall clock, so nothing is promised of it.
/// `Utc::now` panics on a system clock set before the Unix epoch; that
/// environmental assumption is inherited here, since a fallback would
/// take logic this trusted body must not hold.
#[verifier::external_body]
pub fn now_millis() -> i64 {
    chrono::Utc::now().timestamp_millis()
}

} // verus!
