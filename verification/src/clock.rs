//! Monotonic time, read from the machine.

use vstd::prelude::*;
use std::time::{Duration, Instant, SystemTime};

verus! {

#[verifier::external_type_specification]
#[verifier::external_body]
pub struct ExInstant(Instant);

#[verifier::external_type_specification]
#[verifier::external_body]
pub struct ExSystemTime(SystemTime);

/// Reads the system clock (`std::time::SystemTime::now`). Nothing is promised of the time
/// returned: it depends on the machine and the moment of the call.
#[verifier::external_body]
pub(crate) fn system_time_now() -> (t: SystemTime) {
    SystemTime::now()
}

/// The time since the Unix epoch at `t`, `None` when `t` is before it
/// (`SystemTime::duration_since(UNIX_EPOCH)`). Nothing is stated of it.
#[verifier::external_body]
pub(crate) fn since_unix_epoch(t: &SystemTime) -> (d: Option<Duration>) {
    t.duration_since(std::time::UNIX_EPOCH).ok()
}

/// Reads the monotonic clock (`std::time::Instant::now`). Nothing is promised of the instant
/// returned: it depends on the machine and the moment of the call.
#[verifier::external_body]
pub(crate) fn instant_now() -> (t: Instant) {
    Instant::now()
}

/// The time since `start` by the monotonic clock read now (`Instant::elapsed`). Nothing is
/// stated of it.
#[verifier::external_body]
pub(crate) fn elapsed_since(start: &Instant) -> (d: Duration) {
    start.elapsed()
}

/// The time from `earlier` to `later`, zero when `later` is not after `earlier`
/// (`Instant::saturating_duration_since`). Nothing is stated of it.
#[verifier::external_body]
pub(crate) fn duration_between(earlier: &Instant, later: &Instant) -> (d: Duration) {
    later.saturating_duration_since(*earlier)
}

/// Whether duration `a` is at least duration `b` (`<Duration as PartialOrd>::ge`). Nothing is
/// stated of the answer: durations hold no value Verus can read.
#[verifier::external_body]
pub(crate) fn duration_at_least(a: &Duration, b: &Duration) -> (r: bool) {
    *a >= *b
}

/// Whole seconds in `d` (`Duration::as_secs`). Nothing is stated of the number, since a
/// duration holds no value Verus can read.
#[verifier::external_body]
pub(crate) fn duration_as_secs(d: &Duration) -> (s: u64) {
    d.as_secs()
}

/// Nanoseconds in `d` (`Duration::as_nanos`). Nothing is stated of the number, since a
/// duration holds no value Verus can read.
#[verifier::external_body]
pub(crate) fn duration_as_nanos(d: &Duration) -> (n: u128) {
    d.as_nanos()
}

/// Whether duration `a` is longer than duration `b` (`<Duration as PartialOrd>::gt`). Nothing
/// is stated of the answer: durations hold no value Verus can read.
#[verifier::external_body]
pub(crate) fn duration_longer(a: &Duration, b: &Duration) -> (r: bool) {
    *a > *b
}

/// The duration of `secs` whole seconds (`Duration::from_secs`).
#[verifier::external_body]
pub(crate) fn duration_from_secs(secs: u64) -> (d: Duration) {
    Duration::from_secs(secs)
}

/// Milliseconds in `d` (`Duration::as_millis`). Nothing is stated of the number, since a
/// duration holds no value Verus can read.
#[verifier::external_body]
pub(crate) fn duration_as_millis(d: &Duration) -> (n: u128) {
    d.as_millis()
}

} // verus!
