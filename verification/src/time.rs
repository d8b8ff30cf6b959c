//! Spans of time, and the clocks they are measured with.
//!
//! What depends on the time takes it as an argument, in nanoseconds; the functions that ask a
//! clock only pass its answer on.

use std::time::{Instant, SystemTime};
use vstd::prelude::*;

verus! {

/// `std::time::Instant`, a point on the machine's monotonic clock; opaque.
#[verifier::external_type_specification]
#[verifier::external_body]
pub struct ExInstant(std::time::Instant);

/// `std::time::SystemTime`, a point in calendar time; opaque.
#[verifier::external_type_specification]
#[verifier::external_body]
pub struct ExSystemTime(std::time::SystemTime);

/// `std::time::Instant::now`. Nothing is said of the point in time.
pub assume_specification[ std::time::Instant::now ]() -> std::time::Instant
;

/// `std::time::Instant::elapsed`. Nothing is said of how much time has passed.
pub assume_specification[ std::time::Instant::elapsed ](
    this: &std::time::Instant,
) -> core::time::Duration
;

/// `std::time::SystemTime::now`. Nothing is said of the point in time.
pub assume_specification[ std::time::SystemTime::now ]() -> std::time::SystemTime
;

/// `core::time::Duration::as_nanos`. A duration is a `u64` of seconds and a part of a second, so
/// its nanoseconds stay below the first span that takes more seconds than that.
pub assume_specification[ core::time::Duration::as_nanos ](this: &core::time::Duration) -> (r: u128)
    ensures
        r < 0x1_0000_0000_0000_0000 * 1_000_000_000,
;

/// `std::time::SystemTime::duration_since` with the Unix epoch: what has passed since then, or
/// nothing where the clock stands before it.
#[verifier::external_body]
fn since_unix_epoch(t: SystemTime) -> (r: Option<core::time::Duration>) {
    t.duration_since(SystemTime::UNIX_EPOCH).ok()
}

/// Nanoseconds in a second.
pub const NANOS_PER_SEC: u128 = 1_000_000_000;

/// Nanoseconds in a millisecond.
pub const NANOS_PER_MILLI: u128 = 1_000_000;

/// A span of time.
#[derive(Clone, Copy, PartialEq, Eq, Structural, Debug)]
pub struct Duration {
    pub nanos: u128,
}

impl Duration {
    /// A span of whole seconds.
    pub fn from_secs(secs: u64) -> (r: Self)
        ensures
            r.nanos == secs * NANOS_PER_SEC,
    {
        Duration { nanos: secs as u128 * NANOS_PER_SEC }
    }

    /// A span of whole milliseconds.
    pub fn from_millis(millis: u64) -> (r: Self)
        ensures
            r.nanos == millis * NANOS_PER_MILLI,
    {
        Duration { nanos: millis as u128 * NANOS_PER_MILLI }
    }

    /// The whole seconds of the span, as far as a `u64` can count them.
    pub open spec fn secs(self) -> u64 {
        if self.nanos / NANOS_PER_SEC > u64::MAX {
            u64::MAX
        } else {
            (self.nanos / NANOS_PER_SEC) as u64
        }
    }

    /// The whole seconds of the span, as far as a `u64` can count them.
    pub fn as_secs(&self) -> (r: u64)
        ensures
            r == self.secs(),
    {
        let secs: u128 = self.nanos / NANOS_PER_SEC;
        if secs > u64::MAX as u128 {
            u64::MAX
        } else {
            secs as u64
        }
    }

    /// What is left of this span when `other` is taken off; nothing where `other` is longer.
    pub fn saturating_sub(&self, other: Duration) -> (r: Duration)
        ensures
            r.nanos == if self.nanos >= other.nanos {
                self.nanos - other.nanos
            } else {
                0
            },
    {
        if self.nanos >= other.nanos {
            Duration { nanos: self.nanos - other.nanos }
        } else {
            Duration { nanos: 0 }
        }
    }
}

/// A clock that counts from when it was started and is never set back.
pub struct Clock {
    origin: Instant,
}

impl Clock {
    /// A clock that starts to count now.
    pub fn start() -> (r: Self) {
        Clock { origin: Instant::now() }
    }

    /// How long the clock has been running.
    pub fn now(&self) -> (r: Duration)
        ensures
            r.nanos < 0x1_0000_0000_0000_0000 * 1_000_000_000,
    {
        Duration { nanos: self.origin.elapsed().as_nanos() }
    }

    /// A second clock that counts from the same moment.
    pub fn same(&self) -> (r: Self)
        ensures
            r == *self,
    {
        Clock { origin: self.origin }
    }
}

/// How long ago the Unix epoch was; nothing where the calendar stands before it.
pub fn unix_time() -> (r: Duration)
    ensures
        r.nanos < 0x1_0000_0000_0000_0000 * 1_000_000_000,
{
    match since_unix_epoch(SystemTime::now()) {
        Some(d) => Duration { nanos: d.as_nanos() },
        None => Duration { nanos: 0 },
    }
}

/// Seconds since the Unix epoch, which a server start is told apart by.
pub fn boot_time() -> (r: u64)
    ensures
        exists|t: Duration| r == #[trigger] t.secs(),
{
    unix_time().as_secs()
}

} // verus!
