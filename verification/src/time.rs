//! Spans of time.
use vstd::prelude::*;

verus! {

/// A span of time, in nanoseconds.
#[derive(Clone, Copy, Debug, PartialEq, Eq, Structural)]
pub struct Duration {
    pub nanos: u128,
}

impl Duration {
    pub fn zero() -> (r: Duration)
        ensures
            r.nanos == 0,
    {
        Duration { nanos: 0 }
    }

    pub fn from_nanos(nanos: u64) -> (r: Duration)
        ensures
            r.nanos == nanos,
    {
        Duration { nanos: nanos as u128 }
    }

    pub fn from_micros(micros: u64) -> (r: Duration)
        ensures
            r.nanos == micros * 1_000,
    {
        Duration { nanos: micros as u128 * 1_000 }
    }

    pub fn from_millis(millis: u64) -> (r: Duration)
        ensures
            r.nanos == millis * 1_000_000,
    {
        Duration { nanos: millis as u128 * 1_000_000 }
    }

    pub fn from_secs(secs: u64) -> (r: Duration)
        ensures
            r.nanos == secs * 1_000_000_000,
    {
        Duration { nanos: secs as u128 * 1_000_000_000 }
    }

    /// The whole milliseconds.
    pub fn as_millis(self) -> (r: u128)
        ensures
            r == self.nanos / 1_000_000,
    {
        self.nanos / 1_000_000
    }

    pub fn is_zero(self) -> (r: bool)
        ensures
            r == (self.nanos == 0),
    {
        self.nanos == 0
    }

    /// The shorter of the two.
    pub fn min(self, other: Duration) -> (r: Duration)
        ensures
            r == shorter(self, other),
    {
        if self.nanos <= other.nanos {
            self
        } else {
            other
        }
    }

    /// What is left of the first once the second is over.
    pub fn saturating_sub(self, other: Duration) -> (r: Duration)
        ensures
            r == left_over(self, other),
    {
        if self.nanos <= other.nanos {
            Duration { nanos: 0 }
        } else {
            Duration { nanos: self.nanos - other.nanos }
        }
    }
}

/// The shorter of the two spans.
pub open spec fn shorter(a: Duration, b: Duration) -> Duration {
    if a.nanos <= b.nanos {
        a
    } else {
        b
    }
}

/// What is left of `a` once `b` is over.
pub open spec fn left_over(a: Duration, b: Duration) -> Duration {
    if a.nanos <= b.nanos {
        Duration { nanos: 0 }
    } else {
        Duration { nanos: (a.nanos - b.nanos) as u128 }
    }
}

/// The whole milliseconds that passed, at most as many as the request allows.
pub open spec fn counted_ms(elapsed: Duration, timeout_ms: u64) -> u64 {
    if elapsed.nanos / 1_000_000 > timeout_ms {
        timeout_ms
    } else {
        (elapsed.nanos / 1_000_000) as u64
    }
}

/// The whole milliseconds that passed, at most as many as the request allows.
pub fn elapsed_ms(elapsed: Duration, timeout_ms: u64) -> (r: u64)
    ensures
        r == counted_ms(elapsed, timeout_ms),
{
    let ms: u128 = elapsed.as_millis();
    if ms > timeout_ms as u128 {
        timeout_ms
    } else {
        ms as u64
    }
}

} // verus!
