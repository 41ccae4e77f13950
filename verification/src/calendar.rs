//! What the monitor has from chrono: the wall clock, the local time zone, and the reading and
//! writing of dates and times.

use chrono::{Datelike, Timelike, TimeZone};
use vstd::prelude::*;

use crate::time::{CivilDate, CivilMinute, LocalTime};

verus! {

/// How the local clock shows a minute of the calendar.
#[derive(Debug, Clone, Copy, PartialEq, Eq, Structural)]
pub enum LocalReading {
    /// Never: the clock was put forward over it.
    Never,
    /// Once.
    Once(LocalTime),
    /// Twice: the clock was put back over it.
    Twice(LocalTime, LocalTime),
}

/// `chrono::Local::now` reads the wall clock. Which time comes back is up to the clock and the
/// time zone.
#[verifier::external_body]
pub(crate) fn local_now() -> (r: LocalTime)
    ensures
        r.wf(),
{
    let now = chrono::Local::now();
    LocalTime {
        seconds: now.timestamp(),
        nanosecond: now.timestamp_subsec_nanos(),
        offset: now.offset().local_minus_utc(),
    }
}

/// `chrono::DateTime::with_timezone`, for the zone `chrono::Local`, gives the local reading at an
/// instant. The instant stays the same; the offset is up to the time zone.
#[verifier::external_body]
pub(crate) fn local_at(seconds: i64) -> (r: LocalTime)
    requires
        crate::time::FIRST_SECOND <= seconds <= crate::time::LAST_SECOND,
    ensures
        r.wf(),
        r.seconds == seconds,
        r.nanosecond == 0,
{
    let instant = chrono::DateTime::from_timestamp(seconds, 0).unwrap();
    let local = instant.with_timezone(&chrono::Local);
    LocalTime { seconds, nanosecond: 0, offset: local.offset().local_minus_utc() }
}

/// `chrono::Local::from_local_datetime` finds the instants at which the local clock shows a
/// minute. How many there are, and which, is up to the time zone; each of them does show it.
#[verifier::external_body]
pub(crate) fn local_readings(minute: CivilMinute) -> (r: LocalReading)
    requires
        minute.wf(),
    ensures
        match r {
            LocalReading::Never => true,
            LocalReading::Once(only) => only.shows(minute),
            LocalReading::Twice(first, second) => first.shows(minute) && second.shows(minute),
        },
{
    let day = chrono::NaiveDate::from_ymd_opt(minute.date.year, minute.date.month, minute.date.day);
    let shown = day.unwrap().and_hms_opt(minute.hour, minute.minute, 0).unwrap();
    let plain = |t: chrono::DateTime<chrono::Local>| LocalTime {
        seconds: t.timestamp(),
        nanosecond: t.timestamp_subsec_nanos(),
        offset: t.offset().local_minus_utc(),
    };
    match chrono::Local.from_local_datetime(&shown) {
        chrono::LocalResult::None => LocalReading::Never,
        chrono::LocalResult::Single(only) => LocalReading::Once(plain(only)),
        chrono::LocalResult::Ambiguous(a, b) => LocalReading::Twice(plain(a), plain(b)),
    }
}

/// Whether `t` is what reading the wall clock gave.
pub closed spec fn clock_gave(t: LocalTime) -> bool {
    call_ensures(local_now, (), t)
}

/// Whether `t` is what the time zone gave for the second `seconds`.
pub closed spec fn zone_gave_at(seconds: i64, t: LocalTime) -> bool {
    call_ensures(local_at, (seconds,), t)
}

/// Whether `reading` is what the time zone gave for `minute`.
pub closed spec fn zone_gave(minute: CivilMinute, reading: LocalReading) -> bool {
    call_ensures(local_readings, (minute,), reading)
}

/// Only reading the wall clock gives a reading of the wall clock.
pub(crate) proof fn law_clock_is_read(t: LocalTime)
    ensures
        clock_gave(t) <==> call_ensures(local_now, (), t),
{
}

/// Only the time zone gives the local time of a second.
pub(crate) proof fn law_zone_is_asked_at(seconds: i64, t: LocalTime)
    ensures
        zone_gave_at(seconds, t) <==> call_ensures(local_at, (seconds,), t),
        zone_gave_at(seconds, t) ==> t.seconds == seconds && t.nanosecond == 0,
{
}

/// Only the time zone gives how the local clock shows a minute, and each time that it gives shows
/// the minute.
pub(crate) proof fn law_zone_is_asked(minute: CivilMinute, reading: LocalReading)
    ensures
        zone_gave(minute, reading) <==> call_ensures(local_readings, (minute,), reading),
        zone_gave(minute, reading) ==> match reading {
            LocalReading::Never => true,
            LocalReading::Once(only) => only.shows(minute),
            LocalReading::Twice(first, second) => first.shows(minute) && second.shows(minute),
        },
{
}

/// `chrono::DateTime::date_naive` gives the day that the local clock shows.
#[verifier::external_body]
pub(crate) fn local_date(t: &LocalTime) -> (r: CivilDate)
    requires
        t.has_date(),
    ensures
        t.falls_on(r),
{
    let instant = chrono::DateTime::from_timestamp(t.seconds, t.nanosecond).unwrap();
    let zone = chrono::FixedOffset::east_opt(t.offset).unwrap();
    let date = instant.with_timezone(&zone).date_naive();
    CivilDate { year: date.year(), month: date.month(), day: date.day() }
}

/// What `chrono::NaiveDateTime::parse_from_str` reads from a text in a format, where the format
/// gives no seconds.
pub uninterp spec fn parsed_minute(text: Seq<char>, format: Seq<char>) -> Option<CivilMinute>;

/// `chrono::NaiveDateTime::parse_from_str` reads a date and time from `text`. The formats give
/// no seconds, so that the time is the start of a minute.
#[verifier::external_body]
pub(crate) fn parse_minute(text: &str, format: &str) -> (r: Option<CivilMinute>)
    requires
        format@ == "%Y %H:%M on %e %b"@ || format@ == "%Y %I:%M %p on %e %b"@,
    ensures
        r == parsed_minute(text@, format@),
        r matches Some(minute) ==> minute.wf(),
{
    let read = chrono::NaiveDateTime::parse_from_str(text, format).ok()?;
    Some(
        CivilMinute {
            date: CivilDate { year: read.year(), month: read.month(), day: read.day() },
            hour: read.hour(),
            minute: read.minute(),
        },
    )
}

/// The hour and the minute that `chrono::NaiveTime::parse_from_str` reads from a text in a
/// format, where the format gives no seconds.
pub uninterp spec fn parsed_time(text: Seq<char>, format: Seq<char>) -> Option<(u32, u32)>;

/// `chrono::NaiveTime::parse_from_str` reads a time of the day from `text`. The formats give no
/// seconds, so that it is the start of a minute.
#[verifier::external_body]
pub(crate) fn parse_time(text: &str, format: &str) -> (r: Option<(u32, u32)>)
    requires
        format@ == "%H:%M"@ || format@ == "%I:%M %p"@,
    ensures
        r == parsed_time(text@, format@),
        r matches Some(time) ==> time.0 < 24 && time.1 < 60,
{
    let read = chrono::NaiveTime::parse_from_str(text, format).ok()?;
    Some((read.hour(), read.minute()))
}

/// `minute` in another year, where that day exists there.
pub open spec fn in_year(minute: CivilMinute, year: i32) -> Option<CivilMinute> {
    let moved = CivilMinute { date: CivilDate { year, ..minute.date }, ..minute };
    if moved.date.wf() {
        Some(moved)
    } else {
        None
    }
}

/// `chrono::Datelike::with_year` moves a date and time to another year, and fails where the day
/// does not exist there or the calendar does not cover it.
#[verifier::external_body]
pub(crate) fn with_year(minute: CivilMinute, year: i32) -> (r: Option<CivilMinute>)
    requires
        minute.wf(),
    ensures
        r == in_year(minute, year),
{
    let day = chrono::NaiveDate::from_ymd_opt(minute.date.year, minute.date.month, minute.date.day);
    let moved = day.unwrap().and_hms_opt(minute.hour, minute.minute, 0).unwrap().with_year(year)?;
    Some(
        CivilMinute {
            date: CivilDate { year: moved.year(), month: moved.month(), day: moved.day() },
            hour: moved.hour(),
            minute: moved.minute(),
        },
    )
}

/// `chrono::NaiveDateTime::checked_add_signed` moves a date and time by a number of days, and
/// fails where the calendar does not cover the result.
#[verifier::external_body]
pub(crate) fn add_days(minute: CivilMinute, days: i64) -> (r: Option<CivilMinute>)
    requires
        minute.wf(),
        -1_000_000 <= days <= 1_000_000,
    ensures
        match r {
            Some(moved) => moved.wf() && moved.hour == minute.hour && moved.minute == minute.minute
                && moved.date.days() == minute.date.days() + days,
            None => !(crate::time::FIRST_SECOND <= minute.seconds() + days * 86_400
                <= crate::time::LAST_SECOND),
        },
{
    let day = chrono::NaiveDate::from_ymd_opt(minute.date.year, minute.date.month, minute.date.day);
    let shown = day.unwrap().and_hms_opt(minute.hour, minute.minute, 0).unwrap();
    let moved = shown.checked_add_signed(chrono::Duration::days(days))?;
    Some(
        CivilMinute {
            date: CivilDate { year: moved.year(), month: moved.month(), day: moved.day() },
            hour: moved.hour(),
            minute: moved.minute(),
        },
    )
}

/// What `chrono::DateTime::format` writes for the instant `seconds` and `nanosecond`, in a zone
/// that is `offset` seconds ahead of universal time.
pub uninterp spec fn formatted_time(
    seconds: i64,
    nanosecond: u32,
    offset: i32,
    pattern: Seq<char>,
) -> Seq<char>;

/// Whether `s` is made of digits, spaces, colons and signs, and ends with a digit.
pub open spec fn is_clock_text(s: Seq<char>) -> bool {
    &&& s.len() > 0
    &&& crate::text::is_digit(s.last())
    &&& forall|i: int|
        0 <= i < s.len() ==> crate::text::is_digit(#[trigger] s[i]) || s[i] == ' ' || s[i] == ':'
            || s[i] == '+' || s[i] == '-'
}

/// `chrono::DateTime::format` writes a reading of the local clock. The patterns give numbers, with
/// signs, colons and spaces between them, and end with the offset of the zone.
#[verifier::external_body]
pub(crate) fn format_time(t: &LocalTime, pattern: &str) -> (r: String)
    requires
        t.wf(),
        pattern@ == "%Y-%m-%d %H:%M %Z"@ || pattern@ == "%Y-%m-%d %H:%M:%S %Z"@,
    ensures
        r@ == formatted_time(t.seconds, t.nanosecond, t.offset, pattern@),
        is_clock_text(r@),
{
    let instant = chrono::DateTime::from_timestamp(t.seconds, t.nanosecond).unwrap();
    let zone = chrono::FixedOffset::east_opt(t.offset).unwrap();
    instant.with_timezone(&zone).format(pattern).to_string()
}

} // verus!
