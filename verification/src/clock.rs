//! The wall clock, read in whole seconds or milliseconds since the Unix epoch.

use vstd::prelude::*;
use std::time::{SystemTime, SystemTimeError, Duration};

verus! {

#[verifier::external_type_specification]
#[verifier::external_body]
pub struct ExSystemTime(SystemTime);

#[verifier::external_type_specification]
#[verifier::external_body]
pub struct ExSystemTimeError(SystemTimeError);

/// Calls `SystemTime::now`. The result is the machine's clock at the time of
/// the call; nothing is claimed of it.
#[verifier::external_body]
fn system_now() -> SystemTime {
    SystemTime::now()
}

/// Calls `SystemTime::duration_since(UNIX_EPOCH)`: the time elapsed since the
/// epoch, or an error when `t` lies before it. Nothing is claimed of which
/// comes back.
#[verifier::external_body]
fn since_unix_epoch(t: &SystemTime) -> Result<Duration, SystemTimeError> {
    t.duration_since(std::time::UNIX_EPOCH)
}

/// Calls `Duration::as_secs`: the whole seconds of `d`. The value of an
/// opaque duration is not modelled, so nothing is claimed of the result.
#[verifier::external_body]
fn whole_secs(d: &Duration) -> u64 {
    d.as_secs()
}

/// Calls `Duration::as_millis`: the whole milliseconds of `d`. The value of
/// an opaque duration is not modelled, so nothing is claimed of the result.
#[verifier::external_body]
fn whole_millis(d: &Duration) -> u128 {
    d.as_millis()
}

/// Whole seconds since the Unix epoch; 0 if the clock reads before the epoch.
pub fn now_secs() -> u64 {
    let t = system_now();
    match since_unix_epoch(&t) {
        Ok(d) => whole_secs(&d),
        Err(_) => 0,
    }
}

/// Milliseconds since the Unix epoch, truncated to `i64` as `as i64` does;
/// 0 if the clock reads before the epoch.
pub fn now_ms() -> i64 {
    let t = system_now();
    match since_unix_epoch(&t) {
        Ok(d) => {
            let ms = whole_millis(&d);
            ms as i64
        },
        Err(_) => 0,
    }
}

} // verus!
