//! The wall clock, in whole seconds since the Unix epoch.

use std::time::{Duration, SystemTime};

use vstd::prelude::*;

verus! {

#[verifier::external_type_specification]
#[verifier::external_body]
pub struct ExSystemTime(SystemTime);

/// `SystemTime::now`: the current wall-clock time.
#[verifier::external_body]
fn system_now() -> (t: SystemTime) {
    SystemTime::now()
}

/// `SystemTime::duration_since(UNIX_EPOCH)`: the time elapsed since the Unix
/// epoch, or `None` when the clock reads earlier than the epoch.
#[verifier::external_body]
fn elapsed_since_epoch(t: &SystemTime) -> (d: Option<Duration>) {
    t.duration_since(std::time::UNIX_EPOCH).ok()
}

/// What `Duration::as_secs` returns for a duration.
pub uninterp spec fn duration_seconds(d: Duration) -> u64;

/// `Duration::as_secs`: the whole number of seconds in the duration.
#[verifier::external_body]
fn seconds_of(d: &Duration) -> (s: u64)
    ensures
        s == duration_seconds(*d),
{
    d.as_secs()
}

/// Seconds since the Unix epoch by the system clock; zero when the clock
/// reads earlier than the epoch.
pub(crate) fn unix_seconds_now() -> u64 {
    let now = system_now();
    match elapsed_since_epoch(&now) {
        Some(d) => seconds_of(&d),
        None => 0,
    }
}

} // verus!
