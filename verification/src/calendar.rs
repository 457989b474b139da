//! The calendar, as far as the journal needs it: the week of a timestamp and
//! its date and time as text, both in UTC.

use vstd::prelude::*;

verus! {

/// The ISO 8601 week number of the UTC day on which the timestamp falls;
/// `None` for a timestamp that lies beyond the calendar's range.
pub uninterp spec fn iso_week_of(timestamp: i64) -> Option<u32>;

/// The UTC date and time of the timestamp, written as year, month, day,
/// hour, minute and second: `2015-05-15 01:02:03`. A year from 0 to 9999 has
/// four digits; any other year has a sign and as many digits as it takes.
/// `None` for a timestamp that lies beyond the calendar's range.
pub uninterp spec fn utc_text_of(timestamp: i64) -> Option<Seq<char>>;

/// Calls `chrono::DateTime::from_timestamp` with no nanoseconds, and on the
/// moment it gives `Datelike::iso_week` and `IsoWeek::week`. Trusted: the
/// result is the week that `iso_week_of` names, and a week number lies between
/// 1 and 53. Nothing is proved of how the week is computed.
#[verifier::external_body]
pub(crate) fn iso_week(timestamp: i64) -> (week: Option<u32>)
    ensures
        week == iso_week_of(timestamp),
        week matches Some(w) ==> 1 <= w <= 53,
{
    match chrono::DateTime::from_timestamp(timestamp, 0) {
        Some(moment) => Some(chrono::Datelike::iso_week(&moment).week()),
        None => None,
    }
}

/// Calls `chrono::DateTime::from_timestamp` with no nanoseconds, and on the
/// moment it gives `DateTime::format` with `%Y-%m-%d %H:%M:%S`. Trusted: the
/// result is the text that `utc_text_of` names. Nothing is proved of what the
/// text holds.
#[verifier::external_body]
pub(crate) fn utc_text(timestamp: i64) -> (text: Option<String>)
    ensures
        match text {
            Some(t) => utc_text_of(timestamp) == Some(t@),
            None => utc_text_of(timestamp) is None,
        },
{
    match chrono::DateTime::from_timestamp(timestamp, 0) {
        Some(moment) => Some(moment.format("%Y-%m-%d %H:%M:%S").to_string()),
        None => None,
    }
}

} // verus!
