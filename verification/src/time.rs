//! Spans of time and instants, as plain numbers.

use chrono::Datelike;
use vstd::prelude::*;

verus! {

/// A span of time, in whole milliseconds.
#[derive(Debug, Clone, Copy, PartialEq, Eq, Structural)]
pub struct Duration {
    pub millis: u128,
}

impl Duration {
    /// The span of `secs` seconds.
    pub fn from_secs(secs: u64) -> (r: Duration)
        ensures
            r.millis == secs * 1000,
    {
        Duration { millis: secs as u128 * 1000 }
    }

    /// The span of `millis` milliseconds.
    pub fn from_millis(millis: u64) -> (r: Duration)
        ensures
            r.millis == millis,
    {
        Duration { millis: millis as u128 }
    }

    /// The whole seconds in the span, at most `u64::MAX`.
    pub open spec fn secs(self) -> nat {
        let s = self.millis / 1000;
        if s > u64::MAX {
            u64::MAX as nat
        } else {
            s as nat
        }
    }

    /// The milliseconds in the span, at most `u64::MAX`.
    pub open spec fn capped_millis(self) -> nat {
        if self.millis > u64::MAX {
            u64::MAX as nat
        } else {
            self.millis as nat
        }
    }

    /// The whole seconds in the span.
    pub fn as_secs(&self) -> (r: u64)
        ensures
            r == self.secs(),
    {
        let s: u128 = self.millis / 1000;
        if s > u64::MAX as u128 {
            u64::MAX
        } else {
            s as u64
        }
    }

    /// The milliseconds in the span, at most `u64::MAX`.
    pub fn as_millis(&self) -> (r: u64)
        ensures
            r == self.capped_millis(),
    {
        if self.millis > u64::MAX as u128 {
            u64::MAX
        } else {
            self.millis as u64
        }
    }
}

/// An instant in UTC: seconds since the Unix epoch and the nanoseconds after them.
#[derive(Debug, Clone, Copy, PartialEq, Eq, Structural)]
pub struct Timestamp {
    pub secs: i64,
    pub nanos: u32,
}

impl Timestamp {
    /// Whether this instant comes before `other`.
    pub open spec fn before(self, other: Timestamp) -> bool {
        self.secs < other.secs || (self.secs == other.secs && self.nanos < other.nanos)
    }

    /// Whether the instant is within a leap second, which counts on from the second before it.
    pub open spec fn is_leap(self) -> bool {
        self.nanos >= 1_000_000_000
    }

    /// The leap second that lies between `other` and this instant, as one second or its negative: the
    /// earlier of their times of day is in one.
    pub open spec fn leap_between(self, other: Timestamp) -> int {
        let here = self.secs as int % 86_400;
        let there = other.secs as int % 86_400;
        if here > there && other.is_leap() {
            1
        } else if here < there && self.is_leap() {
            -1
        } else {
            0
        }
    }

    /// The nanoseconds from `other` to this instant.
    pub open spec fn nanos_since(self, other: Timestamp) -> int {
        (self.secs - other.secs + self.leap_between(other)) * 1_000_000_000 + self.nanos - other.nanos
    }

    /// The nanoseconds from `earlier` to this instant; negative where it comes first.
    pub fn nanos_after(&self, earlier: &Timestamp) -> (r: i128)
        ensures
            r == self.nanos_since(*earlier),
    {
        let here: i128 = time_of_day(self.secs);
        let there: i128 = time_of_day(earlier.secs);
        let leap: i128 = if here > there && earlier.nanos >= 1_000_000_000 {
            1
        } else if here < there && self.nanos >= 1_000_000_000 {
            -1
        } else {
            0
        };
        (self.secs as i128 - earlier.secs as i128 + leap) * 1_000_000_000 + self.nanos as i128
            - earlier.nanos as i128
    }

    /// Whether this instant comes before `other`.
    pub fn is_before(&self, other: &Timestamp) -> (r: bool)
        ensures
            r == self.before(*other),
    {
        self.secs < other.secs || (self.secs == other.secs && self.nanos < other.nanos)
    }
}

/// The second of its day that a second since the Unix epoch is.
fn time_of_day(secs: i64) -> (r: i128)
    ensures
        r == secs as int % 86_400,
{
    let shifted: u128 = (secs as i128 + 86_400 * 106_751_991_167_301) as u128;
    (shifted % 86_400) as i128
}

/// What `chrono::DateTime::parse_from_rfc3339` reads in a text, if it is an RFC-3339 instant.
pub uninterp spec fn rfc3339_instant(s: Seq<char>) -> Option<Timestamp>;

/// `chrono::DateTime::parse_from_rfc3339`: the instant that the text denotes, in UTC.
#[verifier::external_body]
pub(crate) fn parse_rfc3339(s: &str) -> (r: Option<Timestamp>)
    ensures
        r == rfc3339_instant(s@),
{
    let d = chrono::DateTime::parse_from_rfc3339(s).ok()?;
    Some(Timestamp { secs: d.timestamp(), nanos: d.timestamp_subsec_nanos() })
}

/// What `chrono::DateTime::parse_from_rfc2822` reads in a text, if it is such a date.
pub uninterp spec fn rfc2822_instant(s: Seq<char>) -> Option<Timestamp>;

/// `chrono::DateTime::parse_from_rfc2822`: the instant that the text denotes, in UTC.
#[verifier::external_body]
pub(crate) fn parse_rfc2822(s: &str) -> (r: Option<Timestamp>)
    ensures
        r == rfc2822_instant(s@),
{
    let d = chrono::DateTime::parse_from_rfc2822(s).ok()?;
    Some(Timestamp { secs: d.timestamp(), nanos: d.timestamp_subsec_nanos() })
}

/// What `chrono::NaiveDate::parse_from_str` reads in a text by a format, if it is such a date: the
/// number of its day, as `chrono::Datelike::num_days_from_ce` counts them.
pub uninterp spec fn date_day(s: Seq<char>, format: Seq<char>) -> Option<i32>;

/// `chrono::NaiveDate::parse_from_str`: the date that the text denotes, as the number of its day,
/// where the first day of the year 1 is day 1.
#[verifier::external_body]
pub(crate) fn parse_date(s: &str, format: &str) -> (r: Option<i32>)
    ensures
        r == date_day(s@, format@),
{
    chrono::NaiveDate::parse_from_str(s, format).ok().map(|d| d.num_days_from_ce())
}

/// The number of the day on which the Unix epoch begins.
pub const EPOCH_DAY: i64 = 719_163;

/// The first instant of a day in UTC.
pub open spec fn midnight_of(day: i32) -> Timestamp {
    Timestamp { secs: ((day - EPOCH_DAY) * 86_400) as i64, nanos: 0 }
}

/// The first instant of a day in UTC.
pub fn midnight(day: i32) -> (r: Timestamp)
    ensures
        r == midnight_of(day),
{
    Timestamp { secs: (day as i64 - EPOCH_DAY) * 86_400, nanos: 0 }
}

/// What `chrono::DateTime::to_rfc3339_opts` prints for an instant, to the second and with `Z`;
/// nothing for an instant that `chrono` cannot hold.
pub uninterp spec fn rfc3339_text(t: Timestamp) -> Seq<char>;

/// `chrono::DateTime::to_rfc3339_opts` with whole seconds and `Z`.
#[verifier::external_body]
pub(crate) fn format_rfc3339(t: Timestamp) -> (r: String)
    ensures
        r@ == rfc3339_text(t),
{
    let d = chrono::DateTime::from_timestamp(t.secs, t.nanos);
    d.map(|x| x.to_rfc3339_opts(chrono::SecondsFormat::Secs, true)).unwrap_or_default()
}

/// The first second that `chrono` can hold, since the Unix epoch.
pub const EARLIEST_SECS: i64 = -8_334_601_228_800;

/// The last second that `chrono` can hold, since the Unix epoch.
pub const LATEST_SECS: i64 = 8_210_266_876_799;

/// The instant that is a number of seconds after the Unix epoch, if it can be held.
pub open spec fn instant_value(secs: int) -> Option<Timestamp> {
    if EARLIEST_SECS <= secs <= LATEST_SECS {
        Some(Timestamp { secs: secs as i64, nanos: 0 })
    } else {
        None
    }
}

/// `chrono::DateTime::from_timestamp` at a whole second: that instant, or nothing where the second
/// is before the year -262143 or after the year 262142.
#[verifier::external_body]
pub(crate) fn instant_at(secs: i64) -> (r: Option<Timestamp>)
    ensures
        r == instant_value(secs as int),
{
    let d = chrono::DateTime::from_timestamp(secs, 0)?;
    Some(Timestamp { secs: d.timestamp(), nanos: d.timestamp_subsec_nanos() })
}

/// `chrono::Utc::now`: the machine's clock. Nothing is promised of what it shows.
#[verifier::external_body]
pub(crate) fn now_utc() -> Timestamp {
    let d = chrono::Utc::now();
    Timestamp { secs: d.timestamp(), nanos: d.timestamp_subsec_nanos() }
}

} // verus!
