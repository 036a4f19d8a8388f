//! Wall-clock reading for the convenience methods.

use crate::cache::TIME_BOUND;
use vstd::prelude::*;

verus! {

/// Relies on chrono's `Utc::now` and `DateTime::timestamp`: the current UTC
/// wall-clock time in whole seconds since the Unix epoch. Nothing is assumed
/// of the value; callers clamp it into the range the cache arithmetic
/// supports. (`Utc::now` itself panics when the system clock reads before
/// the epoch.)
#[verifier::external_body]
fn now_utc_seconds() -> i64 {
    chrono::Utc::now().timestamp()
}

/// The current wall-clock time, clamped into `[0, TIME_BOUND)`.
pub fn clamped_now() -> (r: i64)
    ensures
        0 <= r < TIME_BOUND,
{
    let t = now_utc_seconds();
    if t < 0 {
        0
    } else if t >= TIME_BOUND {
        TIME_BOUND - 1
    } else {
        t
    }
}

} // verus!
