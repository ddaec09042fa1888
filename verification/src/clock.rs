//! Instants on the UTC time line and the elapsed time between them.
use vstd::prelude::*;

verus! {

/// A point on the UTC time line: whole seconds since the Unix epoch and the
/// nanoseconds past that second. The nanoseconds reach past one second only
/// while a leap second is being counted.
#[derive(Clone, Copy, Debug, PartialEq, Eq, Structural)]
pub struct Instant {
    pub seconds: i64,
    pub nanos: u32,
}

pub const NANOS_PER_SECOND: i64 = 1_000_000_000;

pub const SECONDS_PER_DAY: i64 = 86_400;

pub const SECONDS_PER_HOUR: i64 = 3_600;

/// A bound on the seconds of any instant a calendar date can name.
pub const MAX_CALENDAR_SECONDS: i64 = 10_000_000_000_000;

impl Instant {
    /// The representation keeps the nanoseconds under two seconds.
    pub open spec fn wf(self) -> bool {
        self.nanos < 2 * NANOS_PER_SECOND
    }

    /// Within the years that a calendar date can name (about 262,000 years
    /// either side of the epoch).
    pub open spec fn in_calendar_range(self) -> bool {
        -MAX_CALENDAR_SECONDS <= self.seconds <= MAX_CALENDAR_SECONDS
    }
}

/// The instant named by an RFC 3339 timestamp, or `None` when the text is not
/// one.
pub uninterp spec fn rfc3339_instant(text: Seq<char>) -> Option<Instant>;

/// Parses an RFC 3339 timestamp with `chrono::DateTime::parse_from_rfc3339`.
/// Trusted: the result is the instant that chrono reads from the text
/// (`timestamp` and `timestamp_subsec_nanos` of the parsed value), `None`
/// where chrono reports an error; its nanoseconds stay under two seconds as
/// chrono's time representation keeps them, and its seconds within the
/// calendar years chrono can represent.
#[verifier::external_body]
pub(crate) fn parse_rfc3339(text: &str) -> (r: Option<Instant>)
    ensures
        r == rfc3339_instant(text@),
        r matches Some(i) ==> i.wf() && i.in_calendar_range(),
{
    match chrono::DateTime::parse_from_rfc3339(text) {
        Ok(parsed) => Some(Instant { seconds: parsed.timestamp(), nanos: parsed.timestamp_subsec_nanos() }),
        Err(_) => None,
    }
}

/// The second of the day, counted from midnight UTC.
pub open spec fn second_of_day(i: Instant) -> int {
    (i.seconds as int) % (SECONDS_PER_DAY as int)
}

/// The leap second that one of the two instants may still be counting.
pub open spec fn leap_correction(later: Instant, earlier: Instant) -> int {
    if second_of_day(later) > second_of_day(earlier) && earlier.nanos >= NANOS_PER_SECOND {
        1
    } else if second_of_day(later) < second_of_day(earlier) && later.nanos >= NANOS_PER_SECOND {
        -1
    } else {
        0
    }
}

/// The signed time from `earlier` to `later`, in nanoseconds.
pub open spec fn elapsed_nanos(later: Instant, earlier: Instant) -> int {
    (later.seconds - earlier.seconds + leap_correction(later, earlier)) * (NANOS_PER_SECOND as int)
        + later.nanos - earlier.nanos
}

/// Integer division rounding toward zero, for a positive divisor.
pub open spec fn div_toward_zero(a: int, b: int) -> int {
    if a >= 0 {
        a / b
    } else {
        -((-a) / b)
    }
}

/// The whole seconds from `earlier` to `later`, rounded toward zero.
pub open spec fn whole_seconds_between(later: Instant, earlier: Instant) -> int {
    div_toward_zero(elapsed_nanos(later, earlier), NANOS_PER_SECOND as int)
}

/// The whole hours from `earlier` to `later`, rounded toward zero.
pub open spec fn whole_hours_between(later: Instant, earlier: Instant) -> int {
    div_toward_zero(
        div_toward_zero(elapsed_nanos(later, earlier), NANOS_PER_SECOND as int),
        SECONDS_PER_HOUR as int,
    )
}

fn quotient_toward_zero(a: i128, b: i128) -> (r: i128)
    requires
        b > 0,
        -0x4000_0000_0000_0000_0000_0000_0000_0000 < a < 0x4000_0000_0000_0000_0000_0000_0000_0000,
    ensures
        r == div_toward_zero(a as int, b as int),
{
    if a >= 0 {
        a / b
    } else {
        -((-a) / b)
    }
}

/// The whole hours elapsed from `earlier` to `later`, rounded toward zero,
/// with a leap second counted where either instant falls in one.
pub fn elapsed_whole_hours(later: Instant, earlier: Instant) -> (r: i64)
    requires
        later.wf(),
        earlier.wf(),
    ensures
        r == whole_hours_between(later, earlier),
{
    let later_day_second = (later.seconds as i128) % 86_400;
    let later_day_second = if later_day_second < 0 { later_day_second + 86_400 } else { later_day_second };
    let earlier_day_second = (earlier.seconds as i128) % 86_400;
    let earlier_day_second = if earlier_day_second < 0 { earlier_day_second + 86_400 } else { earlier_day_second };
    assert(later_day_second == second_of_day(later));
    assert(earlier_day_second == second_of_day(earlier));
    let correction: i128 = if later_day_second > earlier_day_second && earlier.nanos >= 1_000_000_000 {
        1
    } else if later_day_second < earlier_day_second && later.nanos >= 1_000_000_000 {
        -1
    } else {
        0
    };
    let seconds: i128 = later.seconds as i128 - earlier.seconds as i128 + correction;
    let nanos: i128 = seconds * 1_000_000_000 + later.nanos as i128 - earlier.nanos as i128;
    assert(nanos == elapsed_nanos(later, earlier));
    let whole_seconds = quotient_toward_zero(nanos, 1_000_000_000);
    assert(-0x1_0000_0000_0000_0000int <= whole_seconds <= 0x1_0000_0000_0000_0000int);
    let hours = quotient_toward_zero(whole_seconds, 3_600);
    assert(i64::MIN <= hours <= i64::MAX);
    hours as i64
}

/// The calendar date (`YYYY-MM-DD`) in Europe/Istanbul of the instant an
/// RFC 3339 timestamp names, or `None` when the text is not one.
pub uninterp spec fn istanbul_date_of(text: Seq<char>) -> Option<Seq<char>>;

/// The Istanbul business date of a timestamp, from chrono's
/// `DateTime::parse_from_rfc3339`, `with_timezone(&chrono_tz::Europe::Istanbul)`
/// and `date_naive`. Trusted: the date is the one chrono and chrono-tz give
/// for the text, and there is one exactly when chrono reads the timestamp.
#[verifier::external_body]
pub(crate) fn istanbul_date(text: &str) -> (r: Option<String>)
    ensures
        match r {
            Some(d) => istanbul_date_of(text@) == Some(d@),
            None => istanbul_date_of(text@) is None,
        },
        (r is Some) == (rfc3339_instant(text@) is Some),
{
    match chrono::DateTime::parse_from_rfc3339(text) {
        Ok(t) => Some(t.with_timezone(&chrono_tz::Europe::Istanbul).date_naive().to_string()),
        Err(_) => None,
    }
}

/// The same instant as an RFC 3339 timestamp in UTC, or `None` when the text
/// is not a timestamp.
pub uninterp spec fn utc_rfc3339_of(text: Seq<char>) -> Option<Seq<char>>;

/// Rewrites a timestamp in UTC with chrono's `DateTime::parse_from_rfc3339`,
/// `with_timezone(&Utc)` and `to_rfc3339`. Trusted: the text is the one
/// chrono writes, and there is one exactly when chrono reads the timestamp.
#[verifier::external_body]
pub(crate) fn utc_rfc3339(text: &str) -> (r: Option<String>)
    ensures
        match r {
            Some(t) => utc_rfc3339_of(text@) == Some(t@),
            None => utc_rfc3339_of(text@) is None,
        },
        (r is Some) == (rfc3339_instant(text@) is Some),
{
    match chrono::DateTime::parse_from_rfc3339(text) {
        Ok(t) => Some(t.with_timezone(&chrono::Utc).to_rfc3339()),
        Err(_) => None,
    }
}

/// Whether a text is a calendar date in the form `YYYY-MM-DD`, as chrono's
/// `NaiveDate::parse_from_str` with `%Y-%m-%d` reads it.
pub uninterp spec fn iso_date_valid(text: Seq<char>) -> bool;

/// Checks a calendar date with `chrono::NaiveDate::parse_from_str` and the
/// format `%Y-%m-%d`. Trusted: the answer is chrono's, a function of the
/// text alone.
#[verifier::external_body]
pub(crate) fn is_iso_date(text: &str) -> (r: bool)
    ensures
        r == iso_date_valid(text@),
{
    chrono::NaiveDate::parse_from_str(text, "%Y-%m-%d").is_ok()
}

/// The signed time from `earlier` to `later` in nanoseconds, with a leap
/// second counted where either instant falls in one.
pub fn elapsed_nanoseconds(later: Instant, earlier: Instant) -> (r: i128)
    requires
        later.wf(),
        earlier.wf(),
    ensures
        r == elapsed_nanos(later, earlier),
{
    let later_day_second = (later.seconds as i128) % 86_400;
    let later_day_second = if later_day_second < 0 { later_day_second + 86_400 } else { later_day_second };
    let earlier_day_second = (earlier.seconds as i128) % 86_400;
    let earlier_day_second = if earlier_day_second < 0 { earlier_day_second + 86_400 } else { earlier_day_second };
    assert(later_day_second == second_of_day(later));
    assert(earlier_day_second == second_of_day(earlier));
    let correction: i128 = if later_day_second > earlier_day_second && earlier.nanos >= 1_000_000_000 {
        1
    } else if later_day_second < earlier_day_second && later.nanos >= 1_000_000_000 {
        -1
    } else {
        0
    };
    let seconds: i128 = later.seconds as i128 - earlier.seconds as i128 + correction;
    seconds * 1_000_000_000 + later.nanos as i128 - earlier.nanos as i128
}

/// The whole seconds elapsed from `earlier` to `later`, rounded toward zero,
/// with a leap second counted where either instant falls in one.
pub fn elapsed_whole_seconds(later: Instant, earlier: Instant) -> (r: i64)
    requires
        later.wf(),
        earlier.wf(),
        later.in_calendar_range(),
        earlier.in_calendar_range(),
    ensures
        r == whole_seconds_between(later, earlier),
{
    let later_day_second = (later.seconds as i128) % 86_400;
    let later_day_second = if later_day_second < 0 { later_day_second + 86_400 } else { later_day_second };
    let earlier_day_second = (earlier.seconds as i128) % 86_400;
    let earlier_day_second = if earlier_day_second < 0 { earlier_day_second + 86_400 } else { earlier_day_second };
    assert(later_day_second == second_of_day(later));
    assert(earlier_day_second == second_of_day(earlier));
    let correction: i128 = if later_day_second > earlier_day_second && earlier.nanos >= 1_000_000_000 {
        1
    } else if later_day_second < earlier_day_second && later.nanos >= 1_000_000_000 {
        -1
    } else {
        0
    };
    let seconds: i128 = later.seconds as i128 - earlier.seconds as i128 + correction;
    let nanos: i128 = seconds * 1_000_000_000 + later.nanos as i128 - earlier.nanos as i128;
    assert(nanos == elapsed_nanos(later, earlier));
    let whole_seconds = quotient_toward_zero(nanos, 1_000_000_000);
    assert(-30_000_000_000_000int <= whole_seconds <= 30_000_000_000_000int);
    whole_seconds as i64
}

} // verus!
