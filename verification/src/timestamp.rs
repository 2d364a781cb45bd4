//! Instants on the UTC time line, and the calls that read the clock and parse
//! dates.

use vstd::prelude::*;

verus! {

/// The largest distance from the epoch, in seconds, that a [`Timestamp`]
/// holds. The date library counts days in 32 bits and seconds within the day,
/// so every instant that it represents lies within this distance.
pub const SECONDS_LIMIT: i64 = 200_000_000_000_000;

/// The exclusive bound of the nanosecond part. A value of a thousand million
/// or more marks a leap second, as in the date library.
pub const NANOS_LIMIT: u32 = 2_000_000_000;

/// An instant in UTC: whole seconds since 1970-01-01T00:00:00Z and the
/// nanoseconds past that second.
#[derive(Clone, Copy, Debug, PartialEq, Eq, Structural)]
pub struct Timestamp {
    seconds: i64,
    nanos: u32,
}

/// The instant that `text` encodes under `layout` when the layout carries a
/// UTC offset, as the date library parses it; `None` where it does not parse.
pub uninterp spec fn offset_datetime_instant(text: Seq<char>, layout: Seq<char>) -> Option<
    Timestamp,
>;

/// The instant that `text` encodes under `layout` when read as a date and time
/// in UTC, as the date library parses it; `None` where it does not parse.
pub uninterp spec fn naive_datetime_instant(text: Seq<char>, layout: Seq<char>) -> Option<
    Timestamp,
>;

/// The day that `text` encodes under `layout`, counted from 1970-01-01, as the
/// date library parses it; `None` where it does not parse.
pub uninterp spec fn naive_date_epoch_days(text: Seq<char>, layout: Seq<char>) -> Option<i32>;

impl Timestamp {
    /// Both parts lie within their limits.
    #[verifier::type_invariant]
    spec fn in_range(self) -> bool {
        &&& -SECONDS_LIMIT <= self.seconds <= SECONDS_LIMIT
        &&& self.nanos < NANOS_LIMIT
    }

    /// Whole seconds since the epoch.
    pub closed spec fn secs(self) -> int {
        self.seconds as int
    }

    /// Nanoseconds past the whole second.
    pub closed spec fn subsec_nanos(self) -> int {
        self.nanos as int
    }

    /// Whole milliseconds since the epoch.
    pub open spec fn millis_since_epoch(self) -> int {
        self.secs() * 1000 + self.subsec_nanos() / 1_000_000
    }

    /// The timestamp with the given parts; `None` where a part is out of range.
    pub fn new(seconds: i64, nanos: u32) -> (r: Option<Timestamp>)
        ensures
            r is Some <==> -SECONDS_LIMIT <= seconds <= SECONDS_LIMIT && nanos < NANOS_LIMIT,
            r matches Some(t) ==> t.secs() == seconds && t.subsec_nanos() == nanos,
    {
        if -SECONDS_LIMIT <= seconds && seconds <= SECONDS_LIMIT && nanos < NANOS_LIMIT {
            Some(Timestamp { seconds, nanos })
        } else {
            None
        }
    }

    /// Midnight UTC at the start of the day `days` days from 1970-01-01.
    pub closed spec fn midnight(days: i32) -> Timestamp {
        Timestamp { seconds: (days * 86_400) as i64, nanos: 0 }
    }

    /// Midnight of a day lies a whole number of days from the epoch.
    pub proof fn lemma_midnight(days: i32)
        ensures
            Timestamp::midnight(days).secs() == days * 86_400,
            Timestamp::midnight(days).subsec_nanos() == 0,
    {
    }

    /// Midnight UTC at the start of the day `days` days from 1970-01-01.
    pub fn from_epoch_days(days: i32) -> (r: Timestamp)
        ensures
            r == Timestamp::midnight(days),
            r.secs() == days * 86_400,
            r.subsec_nanos() == 0,
    {
        let wide: i64 = days as i64;
        Timestamp { seconds: wide * 86_400, nanos: 0 }
    }

    /// Whole seconds since the epoch.
    pub fn seconds(&self) -> (r: i64)
        ensures
            r == self.secs(),
            -SECONDS_LIMIT <= r <= SECONDS_LIMIT,
    {
        proof {
            use_type_invariant(self);
        }
        self.seconds
    }

    /// Nanoseconds past the whole second.
    pub fn nanos(&self) -> (r: u32)
        ensures
            r == self.subsec_nanos(),
            r < NANOS_LIMIT,
    {
        proof {
            use_type_invariant(self);
        }
        self.nanos
    }

    /// Whole milliseconds since the epoch.
    pub fn millis(&self) -> (r: i64)
        ensures
            r == self.millis_since_epoch(),
    {
        proof {
            use_type_invariant(self);
        }
        let whole: i64 = self.seconds * 1000;
        let part: u32 = self.nanos / 1_000_000;
        whole + part as i64
    }
}

/// Calls `chrono::Utc::now`, which reads the system clock. Trusted: the
/// instant lies within the range that a [`Timestamp`] holds; nothing else is
/// claimed of it. The date library gives up where the clock reads a time
/// before 1970.
#[verifier::external_body]
pub(crate) fn current_time() -> (r: Timestamp)
    ensures
        -SECONDS_LIMIT <= r.secs() <= SECONDS_LIMIT,
        r.subsec_nanos() < NANOS_LIMIT,
{
    let now = chrono::Utc::now();
    Timestamp { seconds: now.timestamp(), nanos: now.timestamp_subsec_nanos() }
}

/// Calls `chrono::DateTime::parse_from_str` and moves the result to UTC.
/// Trusted: whether the text parses, and the instant it encodes, depend on the
/// text and the layout alone, and are named by [`offset_datetime_instant`];
/// the instant lies within the range that a [`Timestamp`] holds.
#[verifier::external_body]
pub(crate) fn parse_offset_datetime(text: &str, layout: &str) -> (r: Option<Timestamp>)
    ensures
        r == offset_datetime_instant(text@, layout@),
        r matches Some(instant) ==> -SECONDS_LIMIT <= instant.secs() <= SECONDS_LIMIT
            && instant.subsec_nanos() < NANOS_LIMIT,
{
    match chrono::DateTime::parse_from_str(text, layout) {
        Ok(parsed) => {
            let utc = parsed.with_timezone(&chrono::Utc);
            Some(Timestamp { seconds: utc.timestamp(), nanos: utc.timestamp_subsec_nanos() })
        },
        Err(_) => None,
    }
}

/// Calls `chrono::NaiveDateTime::parse_from_str` and reads the result as UTC.
/// Trusted: whether the text parses, and the instant it encodes, depend on the
/// text and the layout alone, and are named by [`naive_datetime_instant`]; the
/// instant lies within the range that a [`Timestamp`] holds.
#[verifier::external_body]
pub(crate) fn parse_naive_datetime(text: &str, layout: &str) -> (r: Option<Timestamp>)
    ensures
        r == naive_datetime_instant(text@, layout@),
        r matches Some(instant) ==> -SECONDS_LIMIT <= instant.secs() <= SECONDS_LIMIT
            && instant.subsec_nanos() < NANOS_LIMIT,
{
    match chrono::NaiveDateTime::parse_from_str(text, layout) {
        Ok(parsed) => {
            let utc = chrono::TimeZone::from_utc_datetime(&chrono::Utc, &parsed);
            Some(Timestamp { seconds: utc.timestamp(), nanos: utc.timestamp_subsec_nanos() })
        },
        Err(_) => None,
    }
}

/// Calls `chrono::NaiveDate::parse_from_str` and counts the day from the
/// epoch. Trusted: whether the text parses, and the day it encodes, depend on
/// the text and the layout alone, and are named by [`naive_date_epoch_days`].
#[verifier::external_body]
pub(crate) fn parse_naive_date(text: &str, layout: &str) -> (r: Option<i32>)
    ensures
        r == naive_date_epoch_days(text@, layout@),
{
    match chrono::NaiveDate::parse_from_str(text, layout) {
        Ok(parsed) => Some(parsed.to_epoch_days()),
        Err(_) => None,
    }
}

} // verus!
