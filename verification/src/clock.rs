//! The wall clock, as a distance from the Unix epoch.

use std::time::{Duration, SystemTime, UNIX_EPOCH};
use vstd::prelude::*;

verus! {

/// The wall clock's point in time of std, carried as an opaque value.
#[verifier::external_type_specification]
#[verifier::external_body]
pub struct ExSystemTime(SystemTime);

/// `SystemTime::now` of std: the current time, of which nothing is claimed.
pub assume_specification[ SystemTime::now ]() -> SystemTime
;

/// How long after the Unix epoch a point in time is; nothing for one before it.
pub uninterp spec fn since_epoch_of(t: SystemTime) -> Option<Duration>;

/// `SystemTime::duration_since` of std, from the Unix epoch: how long after it a
/// point in time is, or nothing for one before it. It is a function of the point
/// in time; which moment the clock shows is left open.
#[verifier::external_body]
fn since_epoch(t: SystemTime) -> (r: Option<Duration>)
    ensures
        r == since_epoch_of(t),
{
    t.duration_since(UNIX_EPOCH).ok()
}

/// The nanoseconds that a duration holds.
pub uninterp spec fn nanos_in(d: Duration) -> nat;

/// `Duration::as_secs` of std: the whole seconds that a duration holds.
pub assume_specification[ Duration::as_secs ](d: &Duration) -> (s: u64)
    ensures
        s == nanos_in(*d) / 1_000_000_000,
;

/// `Duration::as_millis` of std: the whole milliseconds that a duration holds.
pub assume_specification[ Duration::as_millis ](d: &Duration) -> (ms: u128)
    ensures
        ms == nanos_in(*d) / 1_000_000,
;

/// The nanoseconds since the Unix epoch; none at a point in time before it.
pub open spec fn epoch_nanos(d: Option<Duration>) -> nat {
    match d {
        Some(d) => nanos_in(d),
        None => 0,
    }
}

/// Whole seconds since the Unix epoch; none at a point in time before it.
pub fn secs_of(since: Option<Duration>) -> (s: u64)
    ensures
        s == epoch_nanos(since) / 1_000_000_000,
{
    match since {
        Some(d) => d.as_secs(),
        None => 0,
    }
}

/// Whole milliseconds since the Unix epoch; none at a point in time before it.
pub fn ms_of(since: Option<Duration>) -> (ms: u128)
    ensures
        ms == epoch_nanos(since) / 1_000_000,
{
    match since {
        Some(d) => d.as_millis(),
        None => 0,
    }
}

/// Seconds since the Unix epoch at the moment that the clock shows; none by a
/// clock that is set before it.
pub fn now_secs() -> (s: u64)
    ensures
        exists|t: SystemTime|
            s == epoch_nanos(#[trigger] since_epoch_of(t)) / 1_000_000_000,
{
    secs_of(since_epoch(SystemTime::now()))
}

/// Milliseconds since the Unix epoch at the moment that the clock shows; none by
/// a clock that is set before it.
pub fn now_ms() -> (ms: u128)
    ensures
        exists|t: SystemTime| ms == epoch_nanos(#[trigger] since_epoch_of(t)) / 1_000_000,
{
    ms_of(since_epoch(SystemTime::now()))
}

} // verus!
