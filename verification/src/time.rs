//! The one place where the service reads a clock. Protocol code never does:
//! every protocol function takes the current epoch second as an argument and
//! is verified for every value of it.

use vstd::prelude::*;

verus! {

/// Relies on `chrono::Utc::now` for the current unix timestamp; nothing is
/// assumed of the value it returns.
#[verifier::external_body]
fn utc_now_timestamp() -> i64 {
    chrono::Utc::now().timestamp()
}

/// Reads the clock and clamps it into `u64` (an epoch second before 1970
/// becomes 0).
pub fn current_epoch() -> (r: u64)
    ensures
        r <= i64::MAX as u64,
{
    let t = utc_now_timestamp();
    if t < 0 {
        0
    } else {
        t as u64
    }
}

} // verus!
