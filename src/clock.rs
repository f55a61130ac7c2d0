//! The current time, in milliseconds since the epoch.

use vstd::prelude::*;

use crate::error::ApiError;

verus! {

/// Relies on time::get_time: the current time as whole seconds since the epoch
/// and the nanoseconds past them, which `Timespec::new` keeps below one second.
#[verifier::external_body]
fn clock_now() -> (r: (i64, i32))
    ensures
        0 <= r.1 < 1_000_000_000,
{
    let t = time::get_time();
    (t.sec, t.nsec)
}

/// The milliseconds since the epoch of a time given as seconds and nanoseconds.
pub open spec fn millis_of(sec: int, nsec: int) -> int {
    sec * 1000 + nsec / 1_000_000
}

/// Converts seconds and nanoseconds since the epoch to milliseconds; a time
/// before the epoch or beyond the range of `u64` is a clock error.
pub fn millis_since_epoch(sec: i64, nsec: i32) -> (r: Result<u64, ApiError>)
    requires
        0 <= nsec < 1_000_000_000,
    ensures
        0 <= sec && millis_of(sec as int, nsec as int) <= u64::MAX ==> r == Ok::<u64, ApiError>(
            millis_of(sec as int, nsec as int) as u64,
        ),
        !(0 <= sec && millis_of(sec as int, nsec as int) <= u64::MAX) ==> r == Err::<
            u64,
            ApiError,
        >(ApiError::ClockError),
{
    if sec < 0 {
        return Err(ApiError::ClockError);
    }
    let s: u64 = sec as u64;
    let extra: u64 = (nsec / 1_000_000) as u64;
    if s > (u64::MAX - extra) / 1000 {
        assert(s * 1000 + extra > u64::MAX) by (nonlinear_arith)
            requires
                s > (u64::MAX - extra) / 1000,
                extra < 1000,
        ;
        return Err(ApiError::ClockError);
    }
    assert(s * 1000 + extra <= u64::MAX) by (nonlinear_arith)
        requires
            s <= (u64::MAX - extra) / 1000,
            extra < 1000,
    ;
    Ok(s * 1000 + extra)
}

/// The current time in milliseconds since the epoch; a clock reading outside
/// the range of `u64` is a clock error.
pub fn now_millis() -> (r: Result<u64, ApiError>)
    ensures
        r matches Err(e) ==> e == ApiError::ClockError,
{
    let (sec, nsec) = clock_now();
    millis_since_epoch(sec, nsec)
}

} // verus!
