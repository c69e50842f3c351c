//! Points in time and spans of time as plain numbers of nanoseconds.
//!
//! The clock is read once, through [`Timestamp::now`]; every decision about
//! expiry is made by verified code on the number it returned.

use vstd::prelude::*;
use std::time::{Duration, SystemTime, SystemTimeError};

verus! {

/// The number of nanoseconds in a second.
pub const NANOS_PER_SEC: u128 = 1_000_000_000;

/// The number of nanoseconds in a millisecond.
pub const NANOS_PER_MILLI: u128 = 1_000_000;

/// The number of nanoseconds in the longest `Duration` (`u64::MAX` seconds
/// and 999,999,999 nanoseconds).
pub const MAX_DURATION_NANOS: u128 = 18_446_744_073_709_551_615_999_999_999;

#[verifier::external_type_specification]
#[verifier::external_body]
pub struct ExSystemTime(SystemTime);

#[verifier::external_type_specification]
#[verifier::external_body]
pub struct ExSystemTimeError(SystemTimeError);

/// What `Duration::as_nanos` returns for a duration: its total length in
/// nanoseconds.
pub uninterp spec fn duration_nanos(d: Duration) -> u128;

/// Calls `Duration::as_nanos`. The contract claims that the result is the
/// duration's named length, which std documents as never more than that of
/// `Duration::MAX`, and that no other duration has that length: a duration
/// is whole seconds and under a second of nanoseconds, so its length in
/// nanoseconds determines it.
#[verifier::external_body]
pub fn duration_as_nanos(d: &Duration) -> (r: u128)
    ensures
        r == duration_nanos(*d),
        r <= MAX_DURATION_NANOS,
        forall|e: Duration| #[trigger] duration_nanos(e) == r ==> e == *d,
{
    d.as_nanos()
}

/// Calls `Duration::new`. The contract claims that a duration made of
/// `secs` seconds and `nanos` nanoseconds, with `nanos` under one second so
/// that std carries nothing and cannot panic, is `secs * 10^9 + nanos`
/// nanoseconds long, and is the only duration of that length.
#[verifier::external_body]
pub fn duration_new(secs: u64, nanos: u32) -> (r: Duration)
    requires
        nanos < NANOS_PER_SEC,
    ensures
        duration_nanos(r) == secs * NANOS_PER_SEC + nanos,
        forall|e: Duration| #[trigger] duration_nanos(e) == duration_nanos(r) ==> e == r,
{
    Duration::new(secs, nanos)
}

/// `Duration`'s `clone`: `Duration` is `Copy`, so the clone is the value
/// itself.
pub assume_specification [<Duration as Clone>::clone](d: &Duration) -> (r: Duration)
    ensures
        r == *d,
;

/// Calls `SystemTime::now`. Nothing is claimed of the time it reads.
#[verifier::external_body]
fn system_time_now() -> SystemTime {
    SystemTime::now()
}

/// Calls `SystemTime::duration_since` with the Unix epoch. Nothing is
/// claimed: the answer depends on the clock reading it is given.
#[verifier::external_body]
fn since_unix_epoch(t: &SystemTime) -> Result<Duration, SystemTimeError> {
    t.duration_since(std::time::UNIX_EPOCH)
}

/// A point in time: nanoseconds since the Unix epoch.
#[derive(Debug, Clone, Copy, PartialEq, Eq, Structural)]
pub struct Timestamp {
    nanos: u128,
}

impl View for Timestamp {
    type V = u128;

    closed spec fn view(&self) -> u128 {
        self.nanos
    }
}

impl Timestamp {
    /// The point `nanos` nanoseconds after the Unix epoch.
    pub fn from_nanos(nanos: u128) -> (r: Timestamp)
        ensures
            r@ == nanos,
    {
        Timestamp { nanos }
    }

    /// Nanoseconds since the Unix epoch.
    pub fn as_nanos(&self) -> (r: u128)
        ensures
            r == self@,
    {
        self.nanos
    }

    /// The current time as the system clock reports it. A clock set before
    /// the Unix epoch reads as the epoch itself.
    pub fn now() -> (r: Timestamp)
        ensures
            is_clock_reading(r@),
    {
        let t = system_time_now();
        match since_unix_epoch(&t) {
            Ok(d) => Timestamp { nanos: duration_as_nanos(&d) },
            Err(_) => Timestamp { nanos: 0 },
        }
    }
}

/// Whether `t` is a reading the clock can give: at most the longest
/// `Duration` after the Unix epoch.
pub open spec fn is_clock_reading(t: u128) -> bool {
    t <= MAX_DURATION_NANOS
}

/// The nanoseconds from `from` to `to`, or zero where `to` comes first.
pub open spec fn nanos_between(from: u128, to: u128) -> nat {
    if to >= from {
        (to - from) as nat
    } else {
        0
    }
}

/// A duration of `nanos` nanoseconds, or the longest duration where `nanos`
/// is longer still.
pub fn duration_from_nanos(nanos: u128) -> (r: Duration)
    ensures
        duration_nanos(r) == if nanos <= MAX_DURATION_NANOS { nanos } else { MAX_DURATION_NANOS },
        forall|e: Duration| #[trigger] duration_nanos(e) == duration_nanos(r) ==> e == r,
{
    let n: u128 = if nanos <= MAX_DURATION_NANOS { nanos } else { MAX_DURATION_NANOS };
    let secs: u128 = n / NANOS_PER_SEC;
    let sub: u128 = n % NANOS_PER_SEC;
    assert(secs <= u64::MAX);
    duration_new(secs as u64, sub as u32)
}

} // verus!
