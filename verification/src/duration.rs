//! Spans of time handed to the wheels.
use vstd::prelude::*;

verus! {

/// Seconds in one minute.
pub const MINUTE_AS_SECS: u64 = 60;

/// Seconds in one hour.
pub const HOUR_AS_SECS: u64 = 3600;

/// Seconds in one day.
pub const DAY_AS_SECS: u64 = 86400;

/// Seconds in one week.
pub const WEEK_AS_SECS: u64 = 604800;

/// A non-negative span of time: whole seconds and the nanoseconds beyond them.
#[derive(Clone, Copy, Debug, PartialEq, Eq, Structural)]
pub struct Duration {
    seconds: u64,
    nanoseconds: u32,
}

impl Duration {
    /// The whole seconds of the span.
    pub closed spec fn secs(self) -> nat {
        self.seconds as nat
    }

    /// The nanoseconds of the span beyond its whole seconds.
    pub closed spec fn subsec_nanos(self) -> nat {
        self.nanoseconds as nat
    }

    /// A span of `seconds` seconds.
    pub fn seconds(seconds: u64) -> (d: Self)
        ensures
            d.secs() == seconds,
            d.subsec_nanos() == 0,
    {
        Duration { seconds, nanoseconds: 0 }
    }

    /// A span of `milliseconds` milliseconds.
    pub fn milliseconds(milliseconds: u64) -> (d: Self)
        ensures
            d.secs() == milliseconds / 1000,
            d.subsec_nanos() == (milliseconds % 1000) * 1_000_000,
    {
        let rest: u64 = milliseconds % 1000;
        let nanos: u64 = rest * 1_000_000;
        Duration { seconds: milliseconds / 1000, nanoseconds: nanos as u32 }
    }

    /// A span of `minutes` minutes.
    pub fn minutes(minutes: u64) -> (d: Self)
        requires
            minutes * 60 <= u64::MAX,
        ensures
            d.secs() == minutes * 60,
            d.subsec_nanos() == 0,
    {
        Duration { seconds: minutes * MINUTE_AS_SECS, nanoseconds: 0 }
    }

    /// A span of `hours` hours.
    pub fn hours(hours: u64) -> (d: Self)
        requires
            hours * 3600 <= u64::MAX,
        ensures
            d.secs() == hours * 3600,
            d.subsec_nanos() == 0,
    {
        Duration { seconds: hours * HOUR_AS_SECS, nanoseconds: 0 }
    }

    /// A span of `days` days.
    pub fn days(days: u64) -> (d: Self)
        requires
            days * 86400 <= u64::MAX,
        ensures
            d.secs() == days * 86400,
            d.subsec_nanos() == 0,
    {
        Duration { seconds: days * DAY_AS_SECS, nanoseconds: 0 }
    }

    /// A span of `weeks` weeks.
    pub fn weeks(weeks: u64) -> (d: Self)
        requires
            weeks * 604800 <= u64::MAX,
        ensures
            d.secs() == weeks * 604800,
            d.subsec_nanos() == 0,
    {
        Duration { seconds: weeks * WEEK_AS_SECS, nanoseconds: 0 }
    }

    /// The number of whole seconds in the span.
    pub fn whole_seconds(&self) -> (n: u64)
        ensures
            n == self.secs(),
    {
        self.seconds
    }

    /// The number of whole minutes in the span.
    pub fn whole_minutes(&self) -> (n: u64)
        ensures
            n == self.secs() / 60,
    {
        self.seconds / MINUTE_AS_SECS
    }

    /// The number of whole hours in the span.
    pub fn whole_hours(&self) -> (n: u64)
        ensures
            n == self.secs() / 3600,
    {
        self.seconds / HOUR_AS_SECS
    }

    /// The number of whole days in the span.
    pub fn whole_days(&self) -> (n: u64)
        ensures
            n == self.secs() / 86400,
    {
        self.seconds / DAY_AS_SECS
    }

    /// The number of whole weeks in the span.
    pub fn whole_weeks(&self) -> (n: u64)
        ensures
            n == self.secs() / 604800,
    {
        self.seconds / WEEK_AS_SECS
    }

    /// The number of whole milliseconds in the span.
    pub fn whole_milliseconds(&self) -> (n: u128)
        ensures
            n == self.secs() * 1000 + self.subsec_nanos() / 1_000_000,
    {
        let secs: u128 = self.seconds as u128;
        let nanos: u128 = self.nanoseconds as u128;
        secs * 1000 + nanos / 1_000_000
    }
}

} // verus!
