//! Instants and spans of time, in whole nanoseconds.

use vstd::prelude::*;

verus! {

/// The longest span that a [`Duration`] can hold, in nanoseconds.
pub open spec fn max_duration() -> int {
    u64::MAX * 1_000_000_000 + 999_999_999
}

/// `n` whole seconds, in nanoseconds.
pub open spec fn seconds(n: int) -> int {
    n * 1_000_000_000
}

/// The whole seconds of a span are the span but for less than a second.
pub proof fn lemma_whole_seconds(nanos: int)
    ensures
        nanos - seconds(1) < seconds(nanos / seconds(1)) <= nanos,
{
    assert(nanos == 1_000_000_000 * (nanos / 1_000_000_000) + nanos % 1_000_000_000);
}

/// The larger of two numbers.
pub open spec fn max(a: int, b: int) -> int {
    if a < b {
        b
    } else {
        a
    }
}

/// The smaller of two numbers.
pub open spec fn min(a: int, b: int) -> int {
    if a < b {
        a
    } else {
        b
    }
}

/// A span of time. Its view is its length in nanoseconds.
///
/// Up to `u64::MAX` seconds and a fraction of one second fit.
#[derive(Clone, Copy, Debug, PartialEq, Eq, PartialOrd, Ord, Structural)]
pub struct Duration {
    nanos: u128,
}

impl View for Duration {
    type V = int;

    closed spec fn view(&self) -> int {
        self.nanos as int
    }
}

impl Duration {
    #[verifier::type_invariant]
    spec fn fits(self) -> bool {
        self.nanos <= max_duration()
    }

    /// A span of `secs` seconds and `nanos` nanoseconds.
    pub fn new(secs: u64, nanos: u32) -> (r: Duration)
        requires
            seconds(secs as int) + nanos <= max_duration(),
        ensures
            r@ == seconds(secs as int) + nanos,
    {
        Duration { nanos: secs as u128 * 1_000_000_000u128 + nanos as u128 }
    }

    /// A span of whole seconds.
    pub fn from_secs(secs: u64) -> (r: Duration)
        ensures
            r@ == seconds(secs as int),
    {
        Duration { nanos: secs as u128 * 1_000_000_000u128 }
    }

    /// The whole seconds of the span.
    pub fn as_secs(&self) -> (r: u64)
        ensures
            r == self@ / seconds(1),
            0 <= self@ <= max_duration(),
    {
        proof {
            use_type_invariant(self);
        }
        (self.nanos / 1_000_000_000u128) as u64
    }

    /// What the span holds beyond its whole seconds, in nanoseconds.
    pub fn subsec_nanos(&self) -> (r: u32)
        ensures
            r == self@ % seconds(1),
    {
        (self.nanos % 1_000_000_000u128) as u32
    }

    /// The longer of two spans.
    pub fn longer(self, other: Duration) -> (r: Duration)
        ensures
            r@ == max(self@, other@),
    {
        if self.nanos < other.nanos {
            other
        } else {
            self
        }
    }

    /// Whether this span is longer than the other.
    pub fn exceeds(self, other: Duration) -> (r: bool)
        ensures
            r == (self@ > other@),
    {
        self.nanos > other.nanos
    }

    /// The two spans one after the other, where that fits.
    pub fn checked_plus(self, other: Duration) -> (r: Option<Duration>)
        ensures
            match r {
                Some(sum) => sum@ == self@ + other@ && sum@ <= max_duration(),
                None => self@ + other@ > max_duration(),
            },
    {
        proof {
            use_type_invariant(&self);
            use_type_invariant(&other);
        }
        let sum: u128 = self.nanos + other.nanos;
        if sum <= u64::MAX as u128 * 1_000_000_000u128 + 999_999_999 {
            Some(Duration { nanos: sum })
        } else {
            None
        }
    }

    /// What is left of this span after the other, nothing where the other is longer.
    pub fn minus(self, other: Duration) -> (r: Duration)
        ensures
            r@ == max(self@ - other@, 0),
    {
        proof {
            use_type_invariant(&self);
        }
        if self.nanos < other.nanos {
            Duration { nanos: 0 }
        } else {
            Duration { nanos: self.nanos - other.nanos }
        }
    }
}

/// A span is not negative.
pub proof fn lemma_duration_nonnegative(d: Duration)
    ensures
        0 <= d@,
{
}

/// An instant. Its view is the number of nanoseconds since the Unix epoch, negative before it.
#[derive(Clone, Copy, Debug, PartialEq, Eq, PartialOrd, Ord, Structural)]
pub struct SystemTime {
    nanos: i128,
}

impl View for SystemTime {
    type V = int;

    closed spec fn view(&self) -> int {
        self.nanos as int
    }
}

/// The earliest instant, in nanoseconds since the Unix epoch.
pub open spec fn min_instant() -> int {
    seconds(i64::MIN as int)
}

/// The latest instant, in nanoseconds since the Unix epoch.
pub open spec fn max_instant() -> int {
    seconds(i64::MAX as int) + 999_999_999
}

/// Whether the second number of a reading of the clock is a fraction of one second.
pub open spec fn is_reading(reading: Result<(u64, u32), (u64, u32)>) -> bool {
    match reading {
        Ok(after) => after.1 < 1_000_000_000,
        Err(before) => before.1 < 1_000_000_000,
    }
}

/// The instant that a reading of the clock stands for, cut to the range of instants.
pub open spec fn read_instant(reading: Result<(u64, u32), (u64, u32)>) -> int {
    match reading {
        Ok((secs, nanos)) => min(seconds(secs as int) + nanos, max_instant()),
        Err((secs, nanos)) => max(-(seconds(secs as int) + nanos), min_instant()),
    }
}

impl SystemTime {
    #[verifier::type_invariant]
    spec fn fits(self) -> bool {
        min_instant() <= self.nanos <= max_instant()
    }

    /// The instant `secs` seconds and `nanos` nanoseconds after the Unix epoch.
    pub fn from_unix(secs: i64, nanos: u32) -> (r: SystemTime)
        requires
            seconds(secs as int) + nanos <= max_instant(),
        ensures
            r@ == seconds(secs as int) + nanos,
    {
        SystemTime { nanos: secs as i128 * 1_000_000_000i128 + nanos as i128 }
    }

    /// The time that has passed since `earlier`, unless that instant is later.
    pub fn since(self, earlier: SystemTime) -> (r: Option<Duration>)
        ensures
            match r {
                Some(d) => d@ == self@ - earlier@ && 0 <= d@ <= max_duration(),
                None => self@ < earlier@,
            },
    {
        proof {
            use_type_invariant(&self);
            use_type_invariant(&earlier);
        }
        if self.nanos < earlier.nanos {
            None
        } else {
            Some(Duration { nanos: (self.nanos - earlier.nanos) as u128 })
        }
    }

    /// Whether this instant is after the other.
    pub fn is_after(self, other: SystemTime) -> (r: bool)
        ensures
            r == (self@ > other@),
    {
        self.nanos > other.nanos
    }

    /// The whole seconds since the Unix epoch, rounded down, and the nanoseconds behind them.
    pub fn to_unix(self) -> (r: (i64, u32))
        ensures
            r.0 == self@ / seconds(1),
            r.1 == self@ % seconds(1),
    {
        proof {
            use_type_invariant(&self);
        }
        let shifted: u128 = (self.nanos + 9_223_372_036_854_775_808i128 * 1_000_000_000i128) as u128;
        let secs: i128 = (shifted / 1_000_000_000u128) as i128 - 9_223_372_036_854_775_808i128;
        let nanos: u32 = (shifted % 1_000_000_000u128) as u32;
        proof {
            assert(self.nanos == secs * 1_000_000_000 + nanos);
            assert(self@ / 1_000_000_000 == secs && self@ % 1_000_000_000 == nanos);
        }
        (secs as i64, nanos)
    }

    /// The present instant.
    ///
    /// The clock decides which one; an instant beyond the range comes out as its end.
    pub fn now() -> (r: SystemTime)
        ensures
            min_instant() <= r@ <= max_instant(),
    {
        SystemTime::from_clock(clock_reading())
    }

    /// The instant that a reading of the clock stands for: the seconds and nanoseconds after the Unix
    /// epoch as `Ok`, or those before it as `Err`. An instant beyond the range comes out as its end.
    pub fn from_clock(reading: Result<(u64, u32), (u64, u32)>) -> (r: SystemTime)
        requires
            is_reading(reading),
        ensures
            r@ == read_instant(reading),
    {
        match reading {
            Ok((secs, nanos)) => {
                if secs <= 9_223_372_036_854_775_807u64 {
                    SystemTime::from_unix(secs as i64, nanos)
                } else {
                    SystemTime::from_unix(i64::MAX, 999_999_999)
                }
            },
            Err((secs, nanos)) => {
                if secs < 9_223_372_036_854_775_808u64 {
                    SystemTime { nanos: -(secs as i128 * 1_000_000_000i128 + nanos as i128) }
                } else {
                    SystemTime::from_unix(i64::MIN, 0)
                }
            },
        }
    }
}

/// Reads the system clock with `std::time::SystemTime::now`: the seconds and nanoseconds after
/// the Unix epoch as `Ok`, or those before it as `Err`. Which instant comes back is left open;
/// the second number is a fraction of one second.
#[verifier::external_body]
fn clock_reading() -> (r: Result<(u64, u32), (u64, u32)>)
    ensures
        is_reading(r),
{
    match std::time::SystemTime::now().duration_since(std::time::UNIX_EPOCH) {
        Ok(after) => Ok((after.as_secs(), after.subsec_nanos())),
        Err(before) => Err((before.duration().as_secs(), before.duration().subsec_nanos())),
    }
}

} // verus!
