//! Reading the system clock as time since the Unix epoch.

use vstd::prelude::*;

verus! {

/// `std::time::SystemTime`, a reading of the system clock.
#[verifier::external_type_specification]
#[verifier::external_body]
pub struct ExSystemTime(std::time::SystemTime);

/// `SystemTime::now`: the current reading of the system clock. Nothing is
/// promised of it.
#[verifier::external_body]
fn system_now() -> (t: std::time::SystemTime) {
    std::time::SystemTime::now()
}

/// `SystemTime::duration_since(UNIX_EPOCH)`: how long after the Unix epoch
/// the reading lies; `None` (the call's error) when the reading is earlier
/// than the epoch. Nothing is promised of the duration.
#[verifier::external_body]
fn since_unix_epoch(t: std::time::SystemTime) -> (d: Option<core::time::Duration>) {
    match t.duration_since(std::time::SystemTime::UNIX_EPOCH) {
        Ok(d) => Some(d),
        Err(_) => None,
    }
}

/// `Duration::as_secs`: the whole seconds of a duration.
#[verifier::external_body]
fn whole_secs(d: core::time::Duration) -> (s: u64) {
    d.as_secs()
}

/// `Duration::subsec_nanos`: the fractional part of a duration in
/// nanoseconds, which the documentation gives as less than one billion.
#[verifier::external_body]
fn fraction_nanos(d: core::time::Duration) -> (n: u32)
    ensures
        n < 1_000_000_000,
{
    d.subsec_nanos()
}

/// The current time since the Unix epoch as (seconds, nanoseconds); `None`
/// when the clock reads earlier than the epoch.
pub(crate) fn clock_reading() -> (r: Option<(u64, u32)>)
    ensures
        r matches Some(t) ==> t.1 < 1_000_000_000,
{
    match since_unix_epoch(system_now()) {
        Some(d) => Some((whole_secs(d), fraction_nanos(d))),
        None => None,
    }
}

} // verus!
