//! Points in time and stretches of time, measured by a monotonic clock.
use vstd::prelude::*;

verus! {

/// The standard library's monotonic instant. Its content stays hidden.
#[verifier::external_type_specification]
#[verifier::external_body]
pub struct ExInstant(std::time::Instant);

/// `Instant::now` reads the clock; nothing is known of what it shows.
pub assume_specification[ std::time::Instant::now ]() -> (r: std::time::Instant)
;

/// `Instant::elapsed` is the time since the instant; nothing is known of its
/// length.
pub assume_specification[ std::time::Instant::elapsed ](i: &std::time::Instant) -> (r:
    std::time::Duration)
;

/// `Duration::as_secs` is the whole seconds of a duration. That they are those
/// of this very duration is left unsaid: a duration read from the clock is
/// known by nothing else.
pub assume_specification[ std::time::Duration::as_secs ](d: &std::time::Duration) -> (r: u64)
;

/// `Duration::subsec_nanos` is the part of a duration beyond its whole
/// seconds, always less than a second. That it is the part of this very
/// duration is left unsaid, as for the seconds.
pub assume_specification[ std::time::Duration::subsec_nanos ](d: &std::time::Duration) -> (r: u32)
    ensures
        r < 1_000_000_000,
;

/// A stretch of time.
#[derive(Debug, Clone, Copy, PartialEq, Eq, Structural)]
pub struct Span {
    pub nanos: u128,
}

pub const NANOS_PER_SEC: u128 = 1_000_000_000;

pub const NANOS_PER_MILLI: u128 = 1_000_000;

/// The most whole seconds that a standard duration holds.
pub const MAX_SECS: u128 = 18_446_744_073_709_551_615;

impl Span {
    /// No time at all.
    pub open spec fn none() -> Span {
        Span { nanos: 0 }
    }

    /// The two stretches together, up to what the type can hold.
    pub open spec fn with(self, other: Span) -> Span {
        Span {
            nanos: if self.nanos + other.nanos <= u128::MAX {
                (self.nanos + other.nanos) as u128
            } else {
                u128::MAX
            },
        }
    }

    /// The whole seconds in the stretch.
    pub open spec fn whole_secs(self) -> nat {
        (self.nanos / NANOS_PER_SEC) as nat
    }

    /// The whole seconds, as far as a standard duration holds them.
    pub open spec fn standard_secs(self) -> u64 {
        if self.whole_secs() <= u64::MAX {
            self.whole_secs() as u64
        } else {
            u64::MAX
        }
    }

    /// The nanoseconds beyond the whole seconds.
    pub open spec fn subsec_nanos(self) -> u32 {
        (self.nanos % NANOS_PER_SEC) as u32
    }

    /// The stretch of so many seconds and nanoseconds.
    pub open spec fn of(secs: u64, nanos: u32) -> Span {
        Span { nanos: (secs * NANOS_PER_SEC + nanos) as u128 }
    }

    pub fn zero() -> (r: Span)
        ensures
            r == Span::none(),
    {
        Span { nanos: 0 }
    }

    pub fn from_secs(secs: u64) -> (r: Span)
        ensures
            r.nanos == secs * NANOS_PER_SEC,
    {
        Span { nanos: (secs as u128) * NANOS_PER_SEC }
    }

    pub fn from_millis(millis: u64) -> (r: Span)
        ensures
            r.nanos == millis * NANOS_PER_MILLI,
    {
        Span { nanos: (millis as u128) * NANOS_PER_MILLI }
    }

    pub fn plus(self, other: Span) -> (r: Span)
        ensures
            r == self.with(other),
    {
        if self.nanos <= u128::MAX - other.nanos {
            Span { nanos: self.nanos + other.nanos }
        } else {
            Span { nanos: u128::MAX }
        }
    }

    /// The whole seconds, rounded down.
    pub fn secs(self) -> (r: u128)
        ensures
            r == self.whole_secs(),
    {
        self.nanos / NANOS_PER_SEC
    }

    /// The stretch of so many seconds and nanoseconds.
    pub fn from_parts(secs: u64, nanos: u32) -> (r: Span)
        ensures
            r == Span::of(secs, nanos),
    {
        Span { nanos: (secs as u128) * NANOS_PER_SEC + (nanos as u128) }
    }

    /// The whole seconds, as far as a standard duration holds them, and the
    /// nanoseconds beyond.
    pub fn parts(self) -> (r: (u64, u32))
        ensures
            r == (self.standard_secs(), self.subsec_nanos()),
            r.1 < NANOS_PER_SEC,
    {
        let whole: u128 = self.secs();
        let secs: u64 = if whole <= MAX_SECS {
            whole as u64
        } else {
            u64::MAX
        };
        (secs, (self.nanos % NANOS_PER_SEC) as u32)
    }
}

/// A point in time, as the time passed since the clock was started.
#[derive(Debug, Clone, Copy, PartialEq, Eq, Structural)]
pub struct Moment {
    pub since_start: Span,
}

impl Moment {
    /// The time from `earlier` to this moment; none if `earlier` is later.
    pub open spec fn since(self, earlier: Moment) -> Span {
        Span {
            nanos: if self.since_start.nanos >= earlier.since_start.nanos {
                (self.since_start.nanos - earlier.since_start.nanos) as u128
            } else {
                0
            },
        }
    }

    /// The moment that comes `span` later.
    pub open spec fn after(self, span: Span) -> Moment {
        Moment { since_start: self.since_start.with(span) }
    }

    /// The time since the start is one that a standard duration holds.
    pub open spec fn standard(self) -> bool {
        self.since_start.whole_secs() <= u64::MAX
    }

    /// This moment is `other` or comes after it.
    pub open spec fn reached(self, other: Moment) -> bool {
        self.since_start.nanos >= other.since_start.nanos
    }

    pub fn duration_since(self, earlier: Moment) -> (r: Span)
        ensures
            r == self.since(earlier),
    {
        if self.since_start.nanos >= earlier.since_start.nanos {
            Span { nanos: self.since_start.nanos - earlier.since_start.nanos }
        } else {
            Span { nanos: 0 }
        }
    }

    pub fn plus(self, span: Span) -> (r: Moment)
        ensures
            r == self.after(span),
    {
        Moment { since_start: self.since_start.plus(span) }
    }

    pub fn has_reached(self, other: Moment) -> (r: bool)
        ensures
            r == self.reached(other),
    {
        self.since_start.nanos >= other.since_start.nanos
    }
}

/// A running monotonic clock.
#[derive(Debug)]
pub struct Clock {
    start: std::time::Instant,
}

impl Clock {
    /// Starts a clock.
    pub fn start() -> Clock {
        Clock { start: std::time::Instant::now() }
    }

    /// The moment that the clock shows. Which one it is depends on the time;
    /// whichever it is, it lies within what a standard duration holds.
    pub fn now(&self) -> (r: Moment)
        ensures
            r.standard(),
    {
        let passed = self.start.elapsed();
        Moment { since_start: Span::from_parts(passed.as_secs(), passed.subsec_nanos()) }
    }
}

/// The time up to a moment that a clock shows is one that a standard duration
/// holds: its seconds and nanoseconds give it back, with nothing cut off.
pub proof fn clock_spans_are_exact(earlier: Moment, later: Moment)
    requires
        later.standard(),
    ensures
        later.since(earlier).standard_secs() == later.since(earlier).whole_secs(),
        Span::of(later.since(earlier).standard_secs(), later.since(earlier).subsec_nanos())
            == later.since(earlier),
{
}

} // verus!
