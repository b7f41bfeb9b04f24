//! The command-line rules: reading the `--from`/`--to` time filters, and
//! recognising an error that Full Disk Access would cure.

use vstd::prelude::*;

use crate::date::{julian_day_in_range, midnight_timestamp, Date};
use crate::models::ExportFilters;
use crate::text::{contains, contains_text};

verus! {

/// The Unix timestamp of `s` read as an RFC 3339 date-time
/// (`2025-01-02T03:04:05Z`, or with an offset), by the `time` crate; `None`
/// when it is not one.
pub uninterp spec fn rfc3339_unix_timestamp(s: Seq<char>) -> Option<i64>;

/// The format description of a date and time, `YYYY-MM-DD HH:MM` with
/// optional `:SS`, in the syntax of `time`'s format descriptions (version 1).
pub const DATETIME_FORMAT: &'static str = "[year]-[month]-[day] [hour]:[minute][optional [:[second]]]";

/// The format description of a date, `YYYY-MM-DD`.
pub const DATE_FORMAT: &'static str = "[year]-[month]-[day]";

/// The Unix timestamp of `s` read in UTC by the `time` crate as a date and
/// time in the format description `format`; `None` when `time` refuses the
/// description or the text.
pub uninterp spec fn datetime_unix_timestamp(s: Seq<char>, format: Seq<char>) -> Option<i64>;

/// The Julian day of `s` read as a date by the `time` crate in the format
/// description `format`; `None` when `time` refuses the description or the
/// text.
pub uninterp spec fn calendar_date_julian_day(s: Seq<char>, format: Seq<char>) -> Option<i32>;

/// `OffsetDateTime::parse(s, &Rfc3339)` from `time`, then `unix_timestamp()`
/// of the result. The result is named, not stated: it is whatever `time`'s
/// RFC 3339 parser reads from `s`.
#[verifier::external_body]
fn parse_rfc3339(s: &str) -> (r: Option<i64>)
    ensures
        r == rfc3339_unix_timestamp(s@),
{
    match time::OffsetDateTime::parse(s, &time::format_description::well_known::Rfc3339) {
        Ok(dt) => Some(dt.unix_timestamp()),
        Err(_) => None,
    }
}

/// `time::format_description::parse_owned::<1>(format)`, then
/// `PrimitiveDateTime::parse(s, ..)` with that description, taken as UTC
/// (`assume_utc`), then `unix_timestamp()`; `None` when `time` refuses the
/// description or the text. The result is named, not stated.
#[verifier::external_body]
fn parse_datetime(s: &str, format: &str) -> (r: Option<i64>)
    ensures
        r == datetime_unix_timestamp(s@, format@),
{
    let items = match time::format_description::parse_owned::<1>(format) {
        Ok(f) => f,
        Err(_) => return None,
    };
    match time::PrimitiveDateTime::parse(s, &items) {
        Ok(dt) => Some(dt.assume_utc().unix_timestamp()),
        Err(_) => None,
    }
}

/// `time::format_description::parse(format)`, then `Date::parse(s, ..)`
/// with that description, then `to_julian_day()`; `None` when `time`
/// refuses the description or the text. The result is named; of it the
/// contract states only that a parsed date lies in `time::Date`'s range, as
/// every `time::Date` does.
#[verifier::external_body]
fn parse_calendar_date(s: &str, format: &str) -> (r: Option<i32>)
    ensures
        r == calendar_date_julian_day(s@, format@),
        r matches Some(jd) ==> julian_day_in_range(jd as int),
{
    let items = match time::format_description::parse(format) {
        Ok(f) => f,
        Err(_) => return None,
    };
    match time::Date::parse(s, &items) {
        Ok(d) => Some(d.to_julian_day()),
        Err(_) => None,
    }
}

/// Why a time filter was refused.
#[derive(Clone, Copy, Debug, PartialEq, Eq, Structural)]
pub enum DateTimeError {
    /// None of the accepted forms ("Unrecognized datetime format").
    UnrecognizedFormat,
}

/// The timestamp chosen from what the three readings gave: the RFC 3339
/// one, else the `YYYY-MM-DD HH:MM[:SS]` one, else midnight UTC of the
/// date.
pub open spec fn first_reading(rfc3339: Option<i64>, minutes: Option<i64>, date_jd: Option<int>) -> Option<int> {
    match rfc3339 {
        Some(t) => Some(t as int),
        None => match minutes {
            Some(t) => Some(t as int),
            None => match date_jd {
                Some(jd) => Some(midnight_timestamp(jd)),
                None => None,
            },
        },
    }
}

/// Chooses the timestamp from the three readings of a time filter, in the
/// order of preference: RFC 3339, then date and time, then date alone at
/// midnight UTC.
pub fn choose_reading(rfc3339: Option<i64>, minutes: Option<i64>, date: Option<Date>) -> (r: Result<
    i64,
    DateTimeError,
>)
    ensures
        r matches Ok(t) ==> first_reading(
            rfc3339,
            minutes,
            match date {
                Some(d) => Some(d@),
                None => None,
            },
        ) == Some(t as int),
        r is Err <==> first_reading(
            rfc3339,
            minutes,
            match date {
                Some(d) => Some(d@),
                None => None,
            },
        ) is None,
{
    match rfc3339 {
        Some(t) => Ok(t),
        None => match minutes {
            Some(t) => Ok(t),
            None => match date {
                Some(d) => Ok(d.midnight_unix_timestamp()),
                None => Err(DateTimeError::UnrecognizedFormat),
            },
        },
    }
}

/// The timestamp that a time filter stands for.
pub open spec fn datetime_or_date(s: Seq<char>) -> Option<int> {
    first_reading(
        rfc3339_unix_timestamp(s),
        datetime_unix_timestamp(s, DATETIME_FORMAT@),
        match calendar_date_julian_day(s, DATE_FORMAT@) {
            Some(jd) => Some(jd as int),
            None => None,
        },
    )
}

/// Reads a time filter: an RFC 3339 date-time, `YYYY-MM-DD HH:MM[:SS]` in
/// UTC, or a date `YYYY-MM-DD` at midnight UTC; as a Unix timestamp.
pub fn parse_datetime_or_date(s: &str) -> (r: Result<i64, DateTimeError>)
    ensures
        r matches Ok(t) ==> datetime_or_date(s@) == Some(t as int),
        r is Err <==> datetime_or_date(s@) is None,
{
    let rfc3339 = parse_rfc3339(s);
    let minutes = parse_datetime(s, DATETIME_FORMAT);
    let date = match parse_calendar_date(s, DATE_FORMAT) {
        Some(jd) => Date::from_julian_day(jd),
        None => None,
    };
    choose_reading(rfc3339, minutes, date)
}

/// Why the export options were refused.
#[derive(Clone, Copy, Debug, PartialEq, Eq, Structural)]
pub enum FilterArgError {
    /// `--from` was refused ("Parsing --from").
    From(DateTimeError),
    /// `--to` was refused ("Parsing --to").
    To(DateTimeError),
}

/// The export filters from the `--from`, `--to` and `--app` options.
pub fn export_filters_from_args(from: Option<&str>, to: Option<&str>, app: Option<String>) -> (r:
    Result<ExportFilters, FilterArgError>)
    ensures
        from matches Some(s) && datetime_or_date(s@) is None ==> r == Err::<
            ExportFilters,
            FilterArgError,
        >(FilterArgError::From(DateTimeError::UnrecognizedFormat)),
        (from matches Some(s) ==> datetime_or_date(s@) is Some) && (to matches Some(s)
            && datetime_or_date(s@) is None) ==> r == Err::<ExportFilters, FilterArgError>(
            FilterArgError::To(DateTimeError::UnrecognizedFormat),
        ),
        r matches Ok(f) ==> {
            &&& (match from {
                Some(s) => f.from matches Some(t) && datetime_or_date(s@) == Some(t as int),
                None => f.from is None,
            })
            &&& (match to {
                Some(s) => f.to matches Some(t) && datetime_or_date(s@) == Some(t as int),
                None => f.to is None,
            })
            &&& f.app == app
        },
        (from matches Some(s) ==> datetime_or_date(s@) is Some) && (to matches Some(s)
            ==> datetime_or_date(s@) is Some) ==> r is Ok,
{
    let from_ts = match from {
        Some(s) => match parse_datetime_or_date(s) {
            Ok(t) => Some(t),
            Err(e) => {
                return Err(FilterArgError::From(e));
            },
        },
        None => None,
    };
    let to_ts = match to {
        Some(s) => match parse_datetime_or_date(s) {
            Ok(t) => Some(t),
            Err(e) => {
                return Err(FilterArgError::To(e));
            },
        },
        None => None,
    };
    Ok(ExportFilters { from: from_ts, to: to_ts, app })
}

/// An error message that suggests a permission problem: it mentions
/// "permission", "denied", "open" or "Operation not permitted".
pub open spec fn mentions_permission(message: Seq<char>) -> bool {
    ||| contains_text(message, "permission"@)
    ||| contains_text(message, "denied"@)
    ||| contains_text(message, "open"@)
    ||| contains_text(message, "Operation not permitted"@)
}

/// Whether the error message (the error with its causes, `{:#}`) looks like
/// a failure to open Apple's database for want of Full Disk Access.
pub fn likely_permission_error(message: &str) -> (r: bool)
    ensures
        r == mentions_permission(message@),
{
    contains(message, "permission") || contains(message, "denied") || contains(message, "open")
        || contains(message, "Operation not permitted")
}

/// Whether a failed sync is answered with the hint to grant Full Disk
/// Access: the database read was Apple's at its default path, and the error
/// message looks like a failure to open it.
pub fn suggests_full_disk_access(reads_default_knowledge_db: bool, message: &str) -> (r: bool)
    ensures
        r == (reads_default_knowledge_db && mentions_permission(message@)),
{
    reads_default_knowledge_db && likely_permission_error(message)
}

} // verus!
