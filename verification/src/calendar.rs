//! Calendar dates and instants, read and written by chrono.
//!
//! A date is carried as its day number in the proleptic Gregorian calendar,
//! 1 January of the year 1 being day 1. What chrono makes of a text, and the
//! text it makes of a day, are named here and not spelled out.

use vstd::prelude::*;

verus! {

/// The day number of the date that `text` spells as year-month-day
/// (`%Y-%m-%d`), if chrono reads it as a date.
pub uninterp spec fn day_number(text: Seq<char>) -> Option<int>;

/// The text that chrono writes for the day `day` as day, month name and year
/// (`%d %B %Y`), if the day lies in the range of its dates.
pub uninterp spec fn long_date_text(day: int) -> Option<Seq<char>>;

/// `chrono::NaiveDate::parse_from_str` with the format `%Y-%m-%d`, the date
/// then taken as its `num_days_from_ce`. Reading depends on the text alone;
/// a text that is no such date gives `None`.
#[verifier::external_body]
pub(crate) fn parse_day_number(text: &str) -> (day: Option<i32>)
    ensures
        match day {
            Some(n) => day_number(text@) == Some(n as int),
            None => day_number(text@) is None,
        },
{
    chrono::NaiveDate::parse_from_str(text, "%Y-%m-%d").ok().map(
        |date| chrono::Datelike::num_days_from_ce(&date),
    )
}

/// `chrono::NaiveDate::format` with the format `%d %B %Y`, on the date that
/// `chrono::NaiveDate::from_num_days_from_ce_opt` makes of the day number.
/// Writing depends on the day alone; a day out of range gives `None`.
#[verifier::external_body]
pub(crate) fn write_long_date(day: i32) -> (text: Option<String>)
    ensures
        match text {
            Some(t) => long_date_text(day as int) == Some(t@),
            None => long_date_text(day as int) is None,
        },
{
    chrono::NaiveDate::from_num_days_from_ce_opt(day).map(
        |date| date.format("%d %B %Y").to_string(),
    )
}

/// The shape that every RFC 3339 stamp in UTC has: a date and a time of day,
/// which take nineteen characters or more, followed by the offset "+00:00".
pub open spec fn is_utc_stamp(text: Seq<char>) -> bool {
    text.len() >= 25 && text.subrange(text.len() - 6, text.len() as int) == "+00:00"@
}

/// The instant that chrono reads from a text as an RFC 3339 stamp: the whole
/// seconds since 1970-01-01T00:00:00Z and the nanoseconds since the last
/// second boundary; `None` where the text is no such stamp.
pub uninterp spec fn instant_of(text: Seq<char>) -> Option<(int, int)>;

/// The RFC 3339 text that chrono writes for the instant in UTC that lies
/// `secs` seconds and `nanos` nanoseconds after 1970-01-01T00:00:00Z, if
/// the instant lies in the range of its dates.
pub uninterp spec fn stamp_text(secs: int, nanos: int) -> Option<Seq<char>>;

/// `chrono::DateTime::parse_from_rfc3339`, the instant then taken as its
/// `timestamp` and its `timestamp_subsec_nanos`. Reading depends on the text
/// alone; a text that chrono does not read gives `None`.
#[verifier::external_body]
pub(crate) fn read_stamp(text: &str) -> (instant: Option<(i64, u32)>)
    ensures
        match instant {
            Some(i) => instant_of(text@) == Some((i.0 as int, i.1 as int)),
            None => instant_of(text@) is None,
        },
{
    chrono::DateTime::parse_from_rfc3339(text).ok().map(
        |instant| (instant.timestamp(), instant.timestamp_subsec_nanos()),
    )
}

/// `chrono::DateTime::to_rfc3339` on the instant that
/// `chrono::DateTime::from_timestamp` makes of seconds and nanoseconds.
/// Writing depends on the two numbers alone; an instant out of range gives
/// `None`. Every text written has the shape of a stamp in UTC.
#[verifier::external_body]
pub(crate) fn write_stamp(secs: i64, nanos: u32) -> (text: Option<String>)
    ensures
        match text {
            Some(t) => stamp_text(secs as int, nanos as int) == Some(t@) && is_utc_stamp(t@),
            None => stamp_text(secs as int, nanos as int) is None,
        },
{
    chrono::DateTime::from_timestamp(secs, nanos).map(|instant| instant.to_rfc3339())
}

} // verus!
