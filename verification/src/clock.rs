//! The clocks the gateway reads: a monotonic one for budgets and deadlines,
//! and the wall clock for timestamps. Nothing is stated of what they return:
//! it depends on the time of the call. The functions that use them take the
//! time as an argument in a variant of their own.
use vstd::prelude::*;

verus! {

#[verifier::external_type_specification]
#[verifier::external_body]
pub struct ExInstant(std::time::Instant);

/// `Instant::now`: the current instant of the monotonic clock.
#[verifier::external_body]
pub(crate) fn instant_now() -> std::time::Instant {
    std::time::Instant::now()
}

/// `Instant::elapsed`: whole milliseconds since `origin` on the monotonic clock.
#[verifier::external_body]
pub(crate) fn millis_since(origin: &std::time::Instant) -> u64 {
    origin.elapsed().as_millis() as u64
}

/// `time::OffsetDateTime::now_utc().unix_timestamp()`: the Unix time in seconds.
#[verifier::external_body]
pub(crate) fn unix_now_secs() -> i64 {
    time::OffsetDateTime::now_utc().unix_timestamp()
}

/// `chrono::Utc::now().timestamp()`: the Unix time in seconds.
#[verifier::external_body]
pub(crate) fn chrono_now_secs() -> i64 {
    chrono::Utc::now().timestamp()
}

/// `SystemTime::now()` since the Unix epoch: `Some` of the milliseconds, or
/// `None` when the clock is set before the epoch.
#[verifier::external_body]
pub(crate) fn system_millis_since_epoch() -> Option<u128> {
    std::time::SystemTime::now().duration_since(std::time::UNIX_EPOCH).ok().map(|d| d.as_millis())
}

} // verus!

verus! {

/// `SystemTime::now().duration_since(UNIX_EPOCH).unwrap_or_default().as_secs()`:
/// whole seconds since the Unix epoch, 0 when the clock is set before it.
#[verifier::external_body]
pub(crate) fn unix_secs_or_zero() -> u64 {
    std::time::SystemTime::now().duration_since(std::time::UNIX_EPOCH).unwrap_or_default().as_secs()
}

} // verus!
