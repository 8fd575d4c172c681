//! Spans of time and points in time, to the nanosecond.

use vstd::prelude::*;

verus! {

pub const NANOS_PER_SEC: u128 = 1_000_000_000;

pub const NANOS_PER_MILLI: u128 = 1_000_000;

/// The longest span: 64 bits of seconds and the nanoseconds below the next one.
pub const MAX_DURATION_NANOS: u128 = 18_446_744_073_709_551_615_999_999_999;

/// The first point in time: the least signed 64-bit count of seconds.
pub const MIN_TIME_NANOS: i128 = -9_223_372_036_854_775_808_000_000_000;

/// The last point in time: the greatest signed 64-bit count of seconds and the nanoseconds below
/// the next one.
pub const MAX_TIME_NANOS: i128 = 9_223_372_036_854_775_807_999_999_999;

/// A span of time. Its view is the number of nanoseconds.
#[derive(Clone, Copy, Debug, PartialEq, Eq, Structural)]
pub struct Duration {
    nanos: u128,
}

/// A point of a clock that never goes back. Its view is the number of nanoseconds since the
/// clock's origin.
#[derive(Clone, Copy, Debug, PartialEq, Eq, Structural)]
pub struct Instant {
    nanos: i128,
}

/// A point in calendar time. Its view is the number of nanoseconds since the Unix epoch.
#[derive(Clone, Copy, Debug, PartialEq, Eq, Structural)]
pub struct SystemTime {
    nanos: i128,
}

pub open spec fn in_time_range(nanos: int) -> bool {
    MIN_TIME_NANOS <= nanos <= MAX_TIME_NANOS
}

impl View for Duration {
    type V = int;

    closed spec fn view(&self) -> int {
        self.nanos as int
    }
}

/// A span of time is never negative.
pub proof fn lemma_duration_is_no_less_than_zero(d: Duration)
    ensures
        d@ >= 0,
{
}

impl View for Instant {
    type V = int;

    closed spec fn view(&self) -> int {
        self.nanos as int
    }
}

impl View for SystemTime {
    type V = int;

    closed spec fn view(&self) -> int {
        self.nanos as int
    }
}

impl Duration {
    #[verifier::type_invariant]
    spec fn representable(self) -> bool {
        self.nanos <= MAX_DURATION_NANOS
    }

    pub fn from_secs(secs: u64) -> (d: Duration)
        ensures
            d@ == secs * NANOS_PER_SEC,
    {
        Duration { nanos: secs as u128 * NANOS_PER_SEC }
    }

    pub fn from_millis(millis: u64) -> (d: Duration)
        ensures
            d@ == millis * NANOS_PER_MILLI,
    {
        Duration { nanos: millis as u128 * NANOS_PER_MILLI }
    }

    /// The span of `nanos` nanoseconds, unless that is too long.
    pub fn from_nanos(nanos: u128) -> (r: Option<Duration>)
        ensures
            match r {
                Some(d) => d@ == nanos,
                None => nanos > MAX_DURATION_NANOS,
            },
            r is Some <==> nanos <= MAX_DURATION_NANOS,
    {
        if nanos <= MAX_DURATION_NANOS {
            Some(Duration { nanos })
        } else {
            None
        }
    }

    pub fn as_nanos(&self) -> (nanos: u128)
        ensures
            nanos == self@,
            nanos <= MAX_DURATION_NANOS,
    {
        proof {
            use_type_invariant(self);
        }
        self.nanos
    }

    pub fn as_secs(&self) -> (secs: u64)
        ensures
            secs == self@ / (NANOS_PER_SEC as int),
    {
        proof {
            use_type_invariant(self);
        }
        (self.nanos / NANOS_PER_SEC) as u64
    }

    pub fn is_zero(&self) -> (b: bool)
        ensures
            b == (self@ == 0),
    {
        self.nanos == 0
    }

    /// Twice this span, or `max` where that is shorter.
    pub fn doubled_up_to(&self, max: Duration) -> (d: Duration)
        ensures
            d@ == if 2 * self@ <= max@ {
                2 * self@
            } else {
                max@
            },
    {
        proof {
            use_type_invariant(self);
            use_type_invariant(&max);
        }
        let twice: u128 = self.nanos * 2;
        if twice <= max.nanos {
            Duration { nanos: twice }
        } else {
            max
        }
    }
}

impl Instant {
    #[verifier::type_invariant]
    spec fn representable(self) -> bool {
        in_time_range(self.nanos as int)
    }

    /// The point that is `nanos` nanoseconds after the clock's origin, where there is one.
    pub fn from_nanos(nanos: i128) -> (r: Option<Instant>)
        ensures
            match r {
                Some(t) => t@ == nanos,
                None => true,
            },
            r is Some <==> in_time_range(nanos as int),
    {
        if MIN_TIME_NANOS <= nanos && nanos <= MAX_TIME_NANOS {
            Some(Instant { nanos })
        } else {
            None
        }
    }

    pub fn as_nanos(&self) -> (nanos: i128)
        ensures
            nanos == self@,
            in_time_range(nanos as int),
    {
        proof {
            use_type_invariant(self);
        }
        self.nanos
    }

    /// The point that comes `d` after this one, where there is one.
    pub fn checked_add(&self, d: Duration) -> (r: Option<Instant>)
        ensures
            match r {
                Some(t) => t@ == self@ + d@,
                None => true,
            },
            r is Some <==> in_time_range(self@ + d@),
    {
        proof {
            use_type_invariant(self);
            use_type_invariant(&d);
        }
        Instant::from_nanos(self.nanos + d.nanos as i128)
    }

    /// How long after `earlier` this point comes, unless it comes before it.
    pub fn checked_duration_since(&self, earlier: Instant) -> (r: Option<Duration>)
        ensures
            match r {
                Some(d) => d@ == self@ - earlier@,
                None => true,
            },
            r is Some <==> earlier@ <= self@,
    {
        proof {
            use_type_invariant(self);
            use_type_invariant(&earlier);
        }
        if earlier.nanos <= self.nanos {
            Some(Duration { nanos: (self.nanos - earlier.nanos) as u128 })
        } else {
            None
        }
    }
}

impl SystemTime {
    #[verifier::type_invariant]
    spec fn representable(self) -> bool {
        in_time_range(self.nanos as int)
    }

    /// The point that is `nanos` nanoseconds after the Unix epoch, where there is one.
    pub fn from_unix_nanos(nanos: i128) -> (r: Option<SystemTime>)
        ensures
            match r {
                Some(t) => t@ == nanos,
                None => true,
            },
            r is Some <==> in_time_range(nanos as int),
    {
        if MIN_TIME_NANOS <= nanos && nanos <= MAX_TIME_NANOS {
            Some(SystemTime { nanos })
        } else {
            None
        }
    }

    pub fn unix_nanos(&self) -> (nanos: i128)
        ensures
            nanos == self@,
            in_time_range(nanos as int),
    {
        proof {
            use_type_invariant(self);
        }
        self.nanos
    }

    /// The point that comes `d` after this one, where there is one.
    pub fn checked_add(&self, d: Duration) -> (r: Option<SystemTime>)
        ensures
            match r {
                Some(t) => t@ == self@ + d@,
                None => true,
            },
            r is Some <==> in_time_range(self@ + d@),
    {
        proof {
            use_type_invariant(self);
            use_type_invariant(&d);
        }
        SystemTime::from_unix_nanos(self.nanos + d.nanos as i128)
    }

    /// The point that comes `d` before this one, where there is one.
    pub fn checked_sub(&self, d: Duration) -> (r: Option<SystemTime>)
        ensures
            match r {
                Some(t) => t@ == self@ - d@,
                None => true,
            },
            r is Some <==> in_time_range(self@ - d@),
    {
        proof {
            use_type_invariant(self);
            use_type_invariant(&d);
        }
        SystemTime::from_unix_nanos(self.nanos - d.nanos as i128)
    }
}

} // verus!
