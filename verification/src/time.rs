//! Instants and spans of time, counted in whole microseconds.

use vstd::prelude::*;

verus! {

/// Microseconds in one second.
pub const MICROS_PER_SECOND: i128 = 1_000_000;

/// Microseconds in one hour.
pub const MICROS_PER_HOUR: i128 = 3_600_000_000;

/// Microseconds in one day.
pub const MICROS_PER_DAY: i128 = 86_400_000_000;

/// An instant on the UTC time line: whole microseconds since 1970-01-01T00:00:00Z.
#[derive(Clone, Copy, Debug, PartialEq, Eq)]
pub struct Timestamp {
    pub micros: i64,
}

/// A signed span of time in whole microseconds.
#[derive(Clone, Copy, Debug, PartialEq, Eq)]
pub struct TimeDelta {
    pub micros: i128,
}

/// The span of `seconds` seconds.
pub open spec fn span_of_seconds(seconds: u64) -> TimeDelta {
    TimeDelta { micros: (seconds * MICROS_PER_SECOND) as i128 }
}

/// The span of `hours` hours.
pub open spec fn span_of_hours(hours: u64) -> TimeDelta {
    TimeDelta { micros: (hours * MICROS_PER_HOUR) as i128 }
}

/// The span of `days` days.
pub open spec fn span_of_days(days: u64) -> TimeDelta {
    TimeDelta { micros: (days * MICROS_PER_DAY) as i128 }
}

impl TimeDelta {
    /// The span of `seconds` seconds.
    pub fn seconds(seconds: u64) -> (span: TimeDelta)
        ensures
            span == span_of_seconds(seconds),
            span.micros == seconds * MICROS_PER_SECOND,
    {
        TimeDelta { micros: (seconds as i128) * MICROS_PER_SECOND }
    }

    /// The span of `hours` hours.
    pub fn hours(hours: u64) -> (span: TimeDelta)
        ensures
            span == span_of_hours(hours),
            span.micros == hours * MICROS_PER_HOUR,
    {
        TimeDelta { micros: (hours as i128) * MICROS_PER_HOUR }
    }

    /// The span of `days` days.
    pub fn days(days: u64) -> (span: TimeDelta)
        ensures
            span == span_of_days(days),
            span.micros == days * MICROS_PER_DAY,
    {
        TimeDelta { micros: (days as i128) * MICROS_PER_DAY }
    }

    /// Whether this span is at least as long as `other`.
    pub fn is_at_least(&self, other: TimeDelta) -> (longer: bool)
        ensures
            longer == (self.micros >= other.micros),
    {
        self.micros >= other.micros
    }
}

impl Timestamp {
    /// The time that passed from `earlier` to `self`; negative where `earlier` is the later instant.
    pub fn since(&self, earlier: Timestamp) -> (elapsed: TimeDelta)
        ensures
            elapsed.micros == self.micros - earlier.micros,
    {
        TimeDelta { micros: (self.micros as i128) - (earlier.micros as i128) }
    }

    /// The reference time of an operation: `asked_at` where the caller fixed one,
    /// else the present reading of the clock.
    pub fn or_now(asked_at: Option<Timestamp>) -> (reference: Timestamp)
        ensures
            asked_at matches Some(fixed) ==> reference == fixed,
    {
        match asked_at {
            Some(fixed) => fixed,
            None => utc_now(),
        }
    }
}

/// Reads the system clock with `chrono::Utc::now` and turns the reading into
/// microseconds with `DateTime::timestamp_micros`. The clock decides the value, so
/// nothing is claimed of it. chrono stops the process when the system clock is
/// set before 1970.
#[verifier::external_body]
fn utc_now() -> (now: Timestamp) {
    Timestamp { micros: chrono::Utc::now().timestamp_micros() }
}

} // verus!
