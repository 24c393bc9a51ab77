//! Instants in time, as plain integer values.
//!
//! A [`Timestamp`] is a count of seconds since the Unix epoch together with
//! the utc offset of the wall clock that observed it.  All scheduling
//! arithmetic in the crate works on these integers; the system clock is read
//! only through [`LocalTimeProvider::now`].

use vstd::prelude::*;

verus! {

/// Seconds in one day.
pub const SECONDS_PER_DAY: i64 = 86_400;

/// Largest count of UTC seconds the library schedules for (around year 33,700).
pub const MAX_TIMESTAMP_SECONDS: i64 = 1_000_000_000_000;

/// An instant: seconds since the Unix epoch, plus the utc offset (in seconds)
/// of the wall clock it was observed on.  Two timestamps denote the same
/// instant exactly when their `utc_seconds` agree; the offset only affects
/// wall-clock (local) time computations such as the day boundary.
#[derive(Debug, Clone, Copy, PartialEq, Eq, Structural)]
pub struct Timestamp {
    pub utc_seconds: i64,
    pub offset_seconds: i64,
}

impl Timestamp {
    /// The instant lies in the supported range and the offset is less than a day.
    pub open spec fn wf(self) -> bool {
        &&& 0 <= self.utc_seconds <= MAX_TIMESTAMP_SECONDS
        &&& -SECONDS_PER_DAY < self.offset_seconds < SECONDS_PER_DAY
    }

    /// Seconds since the epoch on the local wall clock.
    pub open spec fn local_seconds(self) -> int {
        self.utc_seconds + self.offset_seconds
    }

    pub fn new(utc_seconds: i64, offset_seconds: i64) -> (r: Timestamp)
        ensures
            r.utc_seconds == utc_seconds,
            r.offset_seconds == offset_seconds,
    {
        Timestamp { utc_seconds, offset_seconds }
    }

    /// The same instant, `seconds` later, keeping the offset.
    pub fn plus_seconds(self, seconds: u64) -> (r: Timestamp)
        requires
            0 <= self.utc_seconds,
            self.utc_seconds + seconds <= i64::MAX,
        ensures
            r.utc_seconds == self.utc_seconds + seconds,
            r.offset_seconds == self.offset_seconds,
    {
        Timestamp {
            utc_seconds: self.utc_seconds + (seconds as i64),
            offset_seconds: self.offset_seconds,
        }
    }
}

/// Day number of a Gregorian calendar date, counted from the Unix epoch
/// (1970-01-01 is day 0), by the standard era decomposition of the civil
/// calendar.
pub open spec fn spec_days_from_civil(year: int, month: int, day: int) -> int {
    let y = if month <= 2 { year - 1 } else { year };
    let era = y / 400;
    let yoe = y - era * 400;
    let mp = (month + 9) % 12;
    let doy = (153 * mp + 2) / 5 + day - 1;
    let doe = yoe * 365 + yoe / 4 - yoe / 100 + doy;
    era * 146097 + doe - 719468
}

/// Day number of a Gregorian date counted from the Unix epoch.
pub fn days_from_civil(year: i64, month: i64, day: i64) -> (r: i64)
    requires
        1970 <= year <= 30000,
        1 <= month <= 12,
        1 <= day <= 31,
    ensures
        r == spec_days_from_civil(year as int, month as int, day as int),
{
    let y: i64 = if month <= 2 { year - 1 } else { year };
    let era: i64 = y / 400;
    let yoe: i64 = y - era * 400;
    let mp: i64 = (month + 9) % 12;
    let doy: i64 = (153 * mp + 2) / 5 + day - 1;
    let doe: i64 = yoe * 365 + yoe / 4 - yoe / 100 + doy;
    era * 146097 + doe - 719468
}

/// The instant at the given wall-clock date and time of day, observed on a
/// clock with the given utc offset.
pub fn timestamp_from_civil(
    year: i64,
    month: i64,
    day: i64,
    hour: i64,
    minute: i64,
    second: i64,
    offset_seconds: i64,
) -> (r: Timestamp)
    requires
        1970 <= year <= 30000,
        1 <= month <= 12,
        1 <= day <= 31,
        0 <= hour < 24,
        0 <= minute < 60,
        0 <= second < 60,
        -SECONDS_PER_DAY < offset_seconds < SECONDS_PER_DAY,
    ensures
        r.utc_seconds == spec_days_from_civil(year as int, month as int, day as int)
            * SECONDS_PER_DAY + hour * 3600 + minute * 60 + second - offset_seconds,
        r.offset_seconds == offset_seconds,
{
    let days: i64 = days_from_civil(year, month, day);
    assert(0 <= spec_days_from_civil(year as int, month as int, day as int) <= 11000000);
    Timestamp {
        utc_seconds: days * SECONDS_PER_DAY + hour * 3600 + minute * 60 + second
            - offset_seconds,
        offset_seconds,
    }
}

/// Reads the system clock.
pub struct LocalTimeProvider {}

impl LocalTimeProvider {
    /// Relies on `chrono::Local::now`: the current instant (`timestamp()`,
    /// seconds since the Unix epoch) and the local utc offset
    /// (`FixedOffset::local_minus_utc`, which chrono keeps strictly within
    /// one day of UTC).  Nothing is assumed about the instant itself.
    #[verifier::external_body]
    pub fn now() -> (r: Timestamp)
        ensures
            -SECONDS_PER_DAY < r.offset_seconds < SECONDS_PER_DAY,
    {
        let now = chrono::Local::now();
        Timestamp {
            utc_seconds: now.timestamp(),
            offset_seconds: now.offset().local_minus_utc() as i64,
        }
    }
}

/// A clock fixed at one instant, for deterministic tests.
pub struct TestTimeProvider {
    pub fixed: Timestamp,
}

impl TestTimeProvider {
    pub fn new(fixed: Timestamp) -> (r: TestTimeProvider)
        ensures
            r.fixed == fixed,
    {
        TestTimeProvider { fixed }
    }

    pub fn now(&self) -> (r: Timestamp)
        ensures
            r == self.fixed,
    {
        self.fixed
    }
}

} // verus!
