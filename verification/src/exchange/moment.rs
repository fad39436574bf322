//! Moments in time, as the `chrono` and `chrono-tz` crates read and write them.

use vstd::prelude::*;
use vstd::string::*;

use chrono::{Datelike, Offset, TimeZone, Timelike};

verus! {

/// A date with a time of day: seconds since 1970-01-01T00:00:00 and the
/// nanoseconds past that second. In a leap second, which in a zone can follow any
/// second, the nanoseconds run on past one second.
#[derive(Clone, Copy)]
pub struct Moment {
    pub seconds: i64,
    pub nanos: u32,
}

/// The name of a zone of the IANA database that `chrono_tz` carries.
pub uninterp spec fn is_zone(name: Seq<char>) -> bool;

/// What `chrono::NaiveDateTime::parse_from_str` reads a text as.
pub uninterp spec fn moment_parse(text: Seq<char>, format: Seq<char>) -> Option<Moment>;

/// The instant that `chrono::DateTime::parse_from_rfc3339` reads a text as.
pub uninterp spec fn instant_parse(text: Seq<char>) -> Option<Moment>;

/// What clocks in a zone show at an instant; `None` where that is beyond the
/// dates that `chrono` holds.
pub uninterp spec fn zone_local(zone: Seq<char>, instant: Moment) -> Option<Moment>;

/// The one instant at which clocks in a zone show a date and time; `None` where
/// they never show it or show it more than once.
pub uninterp spec fn zone_instant(zone: Seq<char>, local: Moment) -> Option<Moment>;

/// A date and time written in a format of `chrono`; `None` where it is beyond
/// the dates that `chrono` holds.
pub uninterp spec fn moment_text(m: Moment, format: Seq<char>) -> Option<Seq<char>>;

/// What `chrono::NaiveDate::parse_from_str` reads a text as: the number of the
/// day, which is 1 on the first of January of the year 1.
pub uninterp spec fn date_parse(text: Seq<char>, format: Seq<char>) -> Option<i32>;

/// A day, by its number, written by `chrono::NaiveDate::format`; `None` where it
/// is beyond the dates that `chrono` holds.
pub uninterp spec fn date_text(day: i32, format: Seq<char>) -> Option<Seq<char>>;

/// Whether `chrono_tz::Tz` has a zone of that name.
#[verifier::external_body]
pub(crate) fn zone_known(name: &str) -> (r: bool)
    ensures
        r == is_zone(name@),
{
    name.parse::<chrono_tz::Tz>().is_ok()
}

/// Reads a text with `chrono::NaiveDateTime::parse_from_str`.
#[verifier::external_body]
pub(crate) fn parse_moment(text: &str, format: &str) -> (r: Option<Moment>)
    ensures
        r == moment_parse(text@, format@),
{
    let read = chrono::NaiveDateTime::parse_from_str(text, format).ok()?.and_utc();
    Some(Moment { seconds: read.timestamp(), nanos: read.timestamp_subsec_nanos() })
}

/// Reads a text with `chrono::DateTime::parse_from_rfc3339`.
#[verifier::external_body]
pub(crate) fn parse_instant(text: &str) -> (r: Option<Moment>)
    ensures
        r == instant_parse(text@),
{
    let read = chrono::DateTime::parse_from_rfc3339(text).ok()?;
    Some(Moment { seconds: read.timestamp(), nanos: read.timestamp_subsec_nanos() })
}

/// Moves an instant into a zone with the zone's offset from UTC at that instant
/// (`chrono::TimeZone::offset_from_utc_datetime`).
#[verifier::external_body]
pub(crate) fn local_in_zone(zone: &str, instant: Moment) -> (r: Option<Moment>)
    requires
        is_zone(zone@),
    ensures
        r == zone_local(zone@, instant),
{
    let tz = zone.parse::<chrono_tz::Tz>().ok()?;
    let whole = chrono::DateTime::from_timestamp(instant.seconds, 0)?.naive_utc();
    let utc = whole.with_nanosecond(instant.nanos)?;
    let local = utc.checked_add_offset(tz.offset_from_utc_datetime(&utc).fix())?.and_utc();
    Some(Moment { seconds: local.timestamp(), nanos: local.timestamp_subsec_nanos() })
}

/// Finds the instant of a local date and time in a zone
/// (`chrono::TimeZone::from_local_datetime`, where it gives a single result).
#[verifier::external_body]
pub(crate) fn instant_in_zone(zone: &str, local: Moment) -> (r: Option<Moment>)
    requires
        is_zone(zone@),
    ensures
        r == zone_instant(zone@, local),
{
    let tz = zone.parse::<chrono_tz::Tz>().ok()?;
    let whole = chrono::DateTime::from_timestamp(local.seconds, 0)?.naive_utc();
    let naive = whole.with_nanosecond(local.nanos)?;
    let found = tz.from_local_datetime(&naive).single()?;
    Some(Moment { seconds: found.timestamp(), nanos: found.timestamp_subsec_nanos() })
}

/// Writes a date and time with `chrono::NaiveDateTime::format`.
#[verifier::external_body]
pub(crate) fn write_moment(m: Moment, format: &str) -> (r: Option<String>)
    requires
        format@ == "%Y-%m-%dT%H:%M:%S"@,
    ensures
        match r {
            Some(t) => moment_text(m, format@) == Some(t@),
            None => moment_text(m, format@) is None,
        },
{
    let whole = chrono::DateTime::from_timestamp(m.seconds, 0)?.naive_utc();
    Some(whole.with_nanosecond(m.nanos)?.format(format).to_string())
}

/// Reads a date with `chrono::NaiveDate::parse_from_str`.
#[verifier::external_body]
pub(crate) fn parse_date(text: &str, format: &str) -> (r: Option<i32>)
    ensures
        r == date_parse(text@, format@),
{
    Some(chrono::NaiveDate::parse_from_str(text, format).ok()?.num_days_from_ce())
}

/// Writes a date with `chrono::NaiveDate::format`.
#[verifier::external_body]
pub(crate) fn write_date(day: i32, format: &str) -> (r: Option<String>)
    requires
        format@ == "%Y-%m-%d"@,
    ensures
        match r {
            Some(t) => date_text(day, format@) == Some(t@),
            None => date_text(day, format@) is None,
        },
{
    Some(chrono::NaiveDate::from_num_days_from_ce_opt(day)?.format(format).to_string())
}

} // verus!
