//! Monotonic time read from the operating system.
use vstd::prelude::*;

verus! {

/// `std::time::Instant`, a point on the monotonic clock; opaque here.
#[verifier::external_type_specification]
#[verifier::external_body]
pub struct ExInstant(std::time::Instant);

/// Calls `std::time::Instant::now`; nothing is claimed of the instant read.
#[verifier::external_body]
pub(crate) fn instant_now() -> (i: std::time::Instant) {
    std::time::Instant::now()
}

/// Calls `std::time::Instant::elapsed` and returns whole milliseconds;
/// nothing is claimed of the time read.
#[verifier::external_body]
pub(crate) fn millis_since(start: &std::time::Instant) -> (ms: u128) {
    start.elapsed().as_millis()
}

/// Milliseconds as a signed 64-bit count, saturating at `i64::MAX`.
pub fn saturating_millis(ms: u128) -> (r: i64)
    ensures
        r as int == if ms > i64::MAX {
            i64::MAX as int
        } else {
            ms as int
        },
{
    if ms > 0x7fff_ffff_ffff_ffffu128 {
        0x7fff_ffff_ffff_ffffi64
    } else {
        ms as i64
    }
}

} // verus!
