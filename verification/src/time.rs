//! Points in time, and spans of it.

use vstd::prelude::*;

verus! {

/// A point in time, counted in microseconds from an arbitrary origin.
#[derive(Debug, Clone, Copy, PartialEq, Eq, Structural, Hash)]
pub struct Instant {
    /// Microseconds since the origin.
    pub micros: i64,
}

/// A span of time, in microseconds.
#[derive(Debug, Clone, Copy, PartialEq, Eq, Structural, Hash)]
pub struct Duration {
    /// The number of microseconds.
    pub micros: u64,
}

impl Instant {
    /// The origin.
    pub fn zero() -> (instant: Instant)
        ensures
            instant.micros == 0,
    {
        Instant { micros: 0 }
    }

    /// The earliest point in time.
    pub fn earliest() -> (instant: Instant)
        ensures
            instant.micros == i64::MIN,
    {
        Instant { micros: i64::MIN }
    }

    /// The latest point in time, which stands for never.
    pub fn never() -> (instant: Instant)
        ensures
            instant.micros == i64::MAX,
    {
        Instant { micros: i64::MAX }
    }

    /// The point in time that is a span later, or the latest one if there is none that late.
    pub open spec fn spec_after(self, span: Duration) -> Instant {
        if self.micros + span.micros > i64::MAX {
            Instant { micros: i64::MAX }
        } else {
            Instant { micros: (self.micros + span.micros) as i64 }
        }
    }

    /// The point in time that is a span later, or the latest one if there is none that late.
    pub fn after(self, span: Duration) -> (instant: Instant)
        ensures
            instant == self.spec_after(span),
    {
        let micros: i128 = self.micros as i128 + span.micros as i128;
        if micros > 0x7fff_ffff_ffff_ffff {
            Instant { micros: i64::MAX }
        } else {
            Instant { micros: micros as i64 }
        }
    }

    /// The point in time that is a span earlier, or the earliest one if there is none that
    /// early.
    pub open spec fn spec_before(self, span: Duration) -> Instant {
        if self.micros - span.micros < i64::MIN {
            Instant { micros: i64::MIN }
        } else {
            Instant { micros: (self.micros - span.micros) as i64 }
        }
    }

    /// The point in time that is a span earlier, or the earliest one if there is none that
    /// early.
    pub fn before(self, span: Duration) -> (instant: Instant)
        ensures
            instant == self.spec_before(span),
    {
        let micros: i128 = self.micros as i128 - span.micros as i128;
        if micros < -0x8000_0000_0000_0000 {
            Instant { micros: i64::MIN }
        } else {
            Instant { micros: micros as i64 }
        }
    }

    /// The earlier of two points in time.
    pub open spec fn spec_earlier(self, other: Instant) -> Instant {
        if self.micros <= other.micros {
            self
        } else {
            other
        }
    }

    /// The earlier of two points in time.
    pub fn min(self, other: Instant) -> (instant: Instant)
        ensures
            instant == self.spec_earlier(other),
    {
        if self.micros <= other.micros {
            self
        } else {
            other
        }
    }
}

/// Moving by a span and back returns to where one was, as long as neither end of time is reached,
/// and time goes no further than its ends.
pub proof fn law_instants(instant: Instant, span: Duration, other: Instant)
    ensures
        instant.micros + span.micros <= i64::MAX ==> instant.spec_after(span).micros
            == instant.micros + span.micros && instant.spec_after(span).spec_before(span) == instant,
        instant.micros + span.micros > i64::MAX ==> instant.spec_after(span).micros == i64::MAX,
        instant.micros - span.micros >= i64::MIN ==> instant.spec_before(span).micros
            == instant.micros - span.micros && instant.spec_before(span).spec_after(span) == instant,
        instant.micros - span.micros < i64::MIN ==> instant.spec_before(span).micros == i64::MIN,
        instant.spec_earlier(other).micros <= instant.micros,
        instant.spec_earlier(other).micros <= other.micros,
        instant.spec_earlier(other) == instant || instant.spec_earlier(other) == other,
{
}

} // verus!
