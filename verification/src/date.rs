//! Calendar days, held as Julian day numbers in the range of `time::Date`
//! (years -9999 to 9999), with the conversions to and from Unix timestamps
//! that the weekly view uses.
//!
//! Each operation is the one `time` defines, in a few lines: a date's
//! weekday is its Julian day modulo 7, adding days adds to the Julian day
//! within the range, a timestamp falls on the day of its floor division by
//! 86 400 seconds when it lies within the range, and midnight of a day is
//! its distance from the epoch in seconds.

use vstd::prelude::*;

verus! {

/// The Julian day of -9999-01-01, the first day `time::Date` holds.
pub const MIN_JULIAN_DAY: i32 = -1_930_999;

/// The Julian day of 9999-12-31, the last day `time::Date` holds.
pub const MAX_JULIAN_DAY: i32 = 5_373_484;

/// The Julian day of 1970-01-01, the Unix epoch.
pub const UNIX_EPOCH_JULIAN_DAY: i32 = 2_440_588;

/// Seconds in a day.
pub const SECONDS_PER_DAY: i64 = 86_400;

/// The Julian day `jd` is one that a date can have.
pub open spec fn julian_day_in_range(jd: int) -> bool {
    MIN_JULIAN_DAY <= jd <= MAX_JULIAN_DAY
}

/// The number of days from Monday of the Julian day `jd` (Julian day 0 was a
/// Monday).
pub open spec fn days_from_monday(jd: int) -> int {
    jd % 7
}

/// The Unix timestamp of midnight UTC starting the Julian day `jd`.
pub open spec fn midnight_timestamp(jd: int) -> int {
    (jd - UNIX_EPOCH_JULIAN_DAY) * SECONDS_PER_DAY
}

/// The Julian day on which the Unix timestamp `ts` falls, in UTC.
pub open spec fn julian_day_of_timestamp(ts: int) -> int {
    ts / (SECONDS_PER_DAY as int) + UNIX_EPOCH_JULIAN_DAY
}

/// The first Unix timestamp of the date range.
pub open spec fn min_timestamp() -> int {
    midnight_timestamp(MIN_JULIAN_DAY as int)
}

/// The last Unix timestamp of the date range.
pub open spec fn max_timestamp() -> int {
    midnight_timestamp(MAX_JULIAN_DAY as int) + SECONDS_PER_DAY - 1
}

/// A day of the proleptic Gregorian calendar.
#[derive(Clone, Copy, Debug, PartialEq, Eq, Structural)]
pub struct Date {
    julian_day: i32,
}

impl View for Date {
    type V = int;

    /// The date's Julian day.
    closed spec fn view(&self) -> int {
        self.julian_day as int
    }
}

/// The date of the Julian day `jd` (meaningful for `jd` in range).
pub closed spec fn date_of(jd: int) -> Date {
    Date { julian_day: jd as i32 }
}

/// A Julian day within the range is the Julian day of its date.
pub proof fn lemma_view_of_date_of(jd: int)
    requires
        julian_day_in_range(jd),
    ensures
        date_of(jd)@ == jd,
{
}

/// Every date is the `date_of` its Julian day.
pub proof fn lemma_date_of_view(d: Date)
    ensures
        date_of(d@) == d,
{
}

/// The Monday starting a week, moved back by a week, is the Monday
/// starting the week before: going back seven days and taking the week
/// start commute.
pub proof fn lemma_week_start_shift(jd: int, weeks: int)
    ensures
        (jd + 7 * weeks) - days_from_monday(jd + 7 * weeks) == (jd - days_from_monday(jd)) + 7
            * weeks,
{
    assert((jd + 7 * weeks) % 7 == jd % 7) by (nonlinear_arith);
}

/// Midnight of a day falls on that day, and within the range of
/// timestamps: converting a date to its midnight timestamp and back gives
/// the date.
pub proof fn lemma_midnight_roundtrip(jd: int)
    requires
        julian_day_in_range(jd),
    ensures
        julian_day_of_timestamp(midnight_timestamp(jd)) == jd,
        min_timestamp() <= midnight_timestamp(jd) <= max_timestamp(),
{
    assert((jd - UNIX_EPOCH_JULIAN_DAY) * 86400 / 86400 == jd - UNIX_EPOCH_JULIAN_DAY)
        by (nonlinear_arith);
    assert(midnight_timestamp(jd) >= min_timestamp()) by (nonlinear_arith)
        requires
            jd >= MIN_JULIAN_DAY,
    ;
    assert(midnight_timestamp(jd) <= midnight_timestamp(MAX_JULIAN_DAY as int)) by (nonlinear_arith)
        requires
            jd <= MAX_JULIAN_DAY,
    ;
}

/// Every second of a day, from its midnight to the second before the next
/// midnight, falls on that day.
pub proof fn lemma_timestamp_in_day(jd: int, ts: int)
    requires
        midnight_timestamp(jd) <= ts < midnight_timestamp(jd) + SECONDS_PER_DAY,
    ensures
        julian_day_of_timestamp(ts) == jd,
{
    assert(ts / 86400 == jd - UNIX_EPOCH_JULIAN_DAY) by (nonlinear_arith)
        requires
            (jd - UNIX_EPOCH_JULIAN_DAY) * 86400 <= ts < (jd - UNIX_EPOCH_JULIAN_DAY) * 86400 + 86400,
    ;
}

/// Timestamps are ordered as the days they fall on: a later timestamp
/// never falls on an earlier day.
pub proof fn lemma_timestamp_day_monotonic(a: int, b: int)
    requires
        a <= b,
    ensures
        julian_day_of_timestamp(a) <= julian_day_of_timestamp(b),
{
    assert(a / 86400 <= b / 86400) by (nonlinear_arith)
        requires
            a <= b,
    ;
}

impl Date {
    #[verifier::type_invariant]
    spec fn in_range(self) -> bool {
        julian_day_in_range(self.julian_day as int)
    }

    /// The date of the Julian day `jd`; `None` out of range.
    pub fn from_julian_day(jd: i32) -> (r: Option<Date>)
        ensures
            r is Some <==> julian_day_in_range(jd as int),
            r matches Some(d) ==> d@ == jd,
    {
        if MIN_JULIAN_DAY <= jd && jd <= MAX_JULIAN_DAY {
            Some(Date { julian_day: jd })
        } else {
            None
        }
    }

    /// The date's Julian day.
    pub fn julian_day(&self) -> (r: i32)
        ensures
            r as int == self@,
            julian_day_in_range(r as int),
    {
        proof {
            use_type_invariant(self);
        }
        self.julian_day
    }

    /// The date `days` days later (earlier for a negative `days`); `None`
    /// when that leaves the range.
    pub fn checked_add_days(&self, days: i64) -> (r: Option<Date>)
        ensures
            r is Some <==> julian_day_in_range(self@ + days),
            r matches Some(d) ==> d@ == self@ + days,
    {
        let jd = self.julian_day();
        if days < (MIN_JULIAN_DAY as i64) - (jd as i64) || days > (MAX_JULIAN_DAY as i64) - (
        jd as i64) {
            None
        } else {
            Some(Date { julian_day: (jd as i64 + days) as i32 })
        }
    }

    /// The number of days from Monday of this date: 0 on a Monday, 6 on a
    /// Sunday.
    pub fn number_days_from_monday(&self) -> (r: u8)
        ensures
            r as int == days_from_monday(self@),
            r < 7,
    {
        let jd = self.julian_day();
        let offset = (jd as i64 - MIN_JULIAN_DAY as i64) as u64;
        let m = offset % 7;
        assert(m as int == days_from_monday(jd as int)) by (nonlinear_arith)
            requires
                offset == jd - MIN_JULIAN_DAY,
                m == offset % 7,
                MIN_JULIAN_DAY == -275857 * 7,
        ;
        m as u8
    }

    /// The Unix timestamp of midnight UTC starting this date.
    pub fn midnight_unix_timestamp(&self) -> (r: i64)
        ensures
            r as int == midnight_timestamp(self@),
    {
        let jd = self.julian_day();
        (jd as i64 - UNIX_EPOCH_JULIAN_DAY as i64) * SECONDS_PER_DAY
    }

    /// The date, in UTC, of the Unix timestamp `ts`; `None` when it falls
    /// outside the range of dates.
    pub fn from_unix_timestamp(ts: i64) -> (r: Option<Date>)
        ensures
            r is Some <==> min_timestamp() <= ts <= max_timestamp(),
            r matches Some(d) ==> d@ == julian_day_of_timestamp(ts as int),
            r matches Some(d) ==> d == date_of(julian_day_of_timestamp(ts as int)),
    {
        let lo: i64 = (MIN_JULIAN_DAY as i64 - UNIX_EPOCH_JULIAN_DAY as i64) * SECONDS_PER_DAY;
        let hi: i64 = (MAX_JULIAN_DAY as i64 - UNIX_EPOCH_JULIAN_DAY as i64) * SECONDS_PER_DAY
            + SECONDS_PER_DAY - 1;
        if ts < lo || ts > hi {
            return None;
        }
        let shifted = (ts - lo) as u64;
        let days_after_min = shifted / (SECONDS_PER_DAY as u64);
        assert(days_after_min + MIN_JULIAN_DAY == ts as int / (SECONDS_PER_DAY as int)
            + UNIX_EPOCH_JULIAN_DAY) by (nonlinear_arith)
            requires
                shifted == ts - lo,
                lo == (MIN_JULIAN_DAY - UNIX_EPOCH_JULIAN_DAY) * 86400,
                days_after_min == shifted / 86400,
                SECONDS_PER_DAY == 86400,
        ;
        assert(days_after_min <= MAX_JULIAN_DAY - MIN_JULIAN_DAY) by (nonlinear_arith)
            requires
                shifted <= hi - lo,
                hi - lo == (MAX_JULIAN_DAY - MIN_JULIAN_DAY) * 86400 + 86399,
                days_after_min == shifted / 86400,
        ;
        Some(Date { julian_day: (MIN_JULIAN_DAY as i64 + days_after_min as i64) as i32 })
    }
}

/// The Monday of the week (ISO 8601) that holds `date`.
pub fn week_start_date(date: Date) -> (r: Date)
    ensures
        r@ == date@ - days_from_monday(date@),
        days_from_monday(r@) == 0,
        date@ - 6 <= r@ <= date@,
{
    let k = date.number_days_from_monday();
    let jd = date.julian_day();
    proof {
        assert((jd - k) % 7 == 0) by (nonlinear_arith)
            requires
                k == jd % 7,
        ;
        assert(MIN_JULIAN_DAY as int % 7 == 0);
        assert(jd - k >= MIN_JULIAN_DAY) by (nonlinear_arith)
            requires
                k == jd % 7,
                jd >= MIN_JULIAN_DAY,
                MIN_JULIAN_DAY as int % 7 == 0,
                0 <= k < 7,
        ;
    }
    match date.checked_add_days(-(k as i64)) {
        Some(d) => d,
        None => date,
    }
}

} // verus!
