//! Dates and times of day as plain numbers, and the calendar operations
//! that read and write them.

use chrono::Datelike;
use chrono::NaiveDate;
use chrono::NaiveDateTime;
use chrono::NaiveTime;
use chrono::Timelike;
use std::fmt::Write;
use std::str::FromStr;
use vstd::prelude::*;

verus! {

/// A day of the calendar.
#[derive(Clone, Copy, PartialEq, Eq, Debug, Structural)]
pub struct CalendarDate {
    pub year: i32,
    pub month: u32,
    pub day: u32,
}

/// A time of day. A `nano` of a thousand million or more stands for a leap
/// second.
#[derive(Clone, Copy, PartialEq, Eq, Debug, Structural)]
pub struct TimeOfDay {
    pub hour: u32,
    pub minute: u32,
    pub second: u32,
    pub nano: u32,
}

/// A day and a time of that day.
#[derive(Clone, Copy, PartialEq, Eq, Debug, Structural)]
pub struct Moment {
    pub date: CalendarDate,
    pub time: TimeOfDay,
}

/// The time of day that `chrono::NaiveTime::parse_and_remainder` reads at
/// the start of a text, if it reads one.
pub uninterp spec fn time_at_start(text: Seq<char>, pattern: Seq<char>) -> Option<TimeOfDay>;

/// The time of day that `chrono::NaiveTime::from_str` reads in a text, if
/// it reads one.
pub uninterp spec fn time_of(text: Seq<char>) -> Option<TimeOfDay>;

/// The time of day that `chrono::NaiveTime::parse_from_str` reads in a
/// text, if it reads one.
pub uninterp spec fn time_by_pattern(text: Seq<char>, pattern: Seq<char>) -> Option<TimeOfDay>;

/// The day and time that `chrono::NaiveDateTime::parse_from_str` reads in a
/// text, if it reads them.
pub uninterp spec fn moment_by_pattern(text: Seq<char>, pattern: Seq<char>) -> Option<Moment>;

/// The four numbers are a time of day: within their ranges, with a `nano`
/// of a thousand million or more only in the last second of a minute.
pub open spec fn is_time(time: TimeOfDay) -> bool {
    &&& time.hour < 24
    &&& time.minute < 60
    &&& time.second < 60
    &&& time.nano < 2_000_000_000
    &&& (time.nano < 1_000_000_000 || time.second == 59)
}

/// The seconds from midnight to a time of day, its `nano` left aside.
pub open spec fn seconds_of(time: TimeOfDay) -> int {
    time.hour * 3600 + time.minute * 60 + time.second
}

/// The whole seconds from `earlier` to `later`, counted toward zero. A
/// leap second that `earlier` stands in, before `later`, is one second
/// more; likewise the other way round.
pub open spec fn seconds_between(later: TimeOfDay, earlier: TimeOfDay) -> int {
    let leap: int = if seconds_of(later) > seconds_of(earlier) && earlier.nano >= 1_000_000_000 {
        1
    } else if seconds_of(later) < seconds_of(earlier) && later.nano >= 1_000_000_000 {
        -1
    } else {
        0
    };
    let fraction: int = later.nano - earlier.nano;
    let seconds: int = seconds_of(later) - seconds_of(earlier) + leap + fraction / 1_000_000_000;
    if seconds < 0 && fraction % 1_000_000_000 > 0 {
        seconds + 1
    } else {
        seconds
    }
}

/// The whole minutes from `earlier` to `later`, counted toward zero;
/// `None` where either is no time of day.
pub open spec fn minutes_between(later: TimeOfDay, earlier: TimeOfDay) -> Option<i64> {
    if is_time(later) && is_time(earlier) {
        let seconds: int = seconds_between(later, earlier);
        if seconds >= 0 {
            Some((seconds / 60) as i64)
        } else {
            Some((-((-seconds) / 60)) as i64)
        }
    } else {
        None
    }
}

/// Two times of one day are less than a day apart.
pub proof fn law_minutes_within_a_day(later: TimeOfDay, earlier: TimeOfDay)
    requires
        is_time(later),
        is_time(earlier),
    ensures
        minutes_between(later, earlier) matches Some(minutes) && -1440 <= minutes <= 1440,
{
}

/// Between two times on the full second, the minutes are those of the
/// difference of their seconds from midnight.
pub proof fn law_minutes_of_whole_seconds(later: TimeOfDay, earlier: TimeOfDay)
    requires
        is_time(later),
        is_time(earlier),
        later.nano == 0,
        earlier.nano == 0,
    ensures
        seconds_between(later, earlier) == seconds_of(later) - seconds_of(earlier),
        seconds_of(later) >= seconds_of(earlier) ==> minutes_between(later, earlier) == Some(
            ((seconds_of(later) - seconds_of(earlier)) / 60) as i64,
        ),
{
}

/// A day and time written by `chrono::NaiveDateTime::format`; `None` where
/// they are no day or time, or the pattern cannot be written.
pub uninterp spec fn written(date: CalendarDate, time: TimeOfDay, pattern: Seq<char>) -> Option<
    Seq<char>,
>;

/// `chrono::NaiveTime::parse_and_remainder`, whose remainder is dropped.
/// The time read, taken apart by `chrono::Timelike`, depends on the text
/// and the pattern alone, and is given the name [`time_at_start`].
#[verifier::external_body]
pub(crate) fn read_time_at_start(text: &str, pattern: &str) -> (r: Option<TimeOfDay>)
    ensures
        r == time_at_start(text@, pattern@),
{
    match NaiveTime::parse_and_remainder(text, pattern) {
        Ok((t, _)) => Some(
            TimeOfDay { hour: t.hour(), minute: t.minute(), second: t.second(), nano: t.nanosecond() },
        ),
        Err(_) => None,
    }
}

/// `chrono::NaiveTime::from_str`. The time read depends on the text alone,
/// and is given the name [`time_of`].
#[verifier::external_body]
pub(crate) fn read_time(text: &str) -> (r: Option<TimeOfDay>)
    ensures
        r == time_of(text@),
{
    match NaiveTime::from_str(text) {
        Ok(t) => Some(
            TimeOfDay { hour: t.hour(), minute: t.minute(), second: t.second(), nano: t.nanosecond() },
        ),
        Err(_) => None,
    }
}

/// `chrono::NaiveTime::parse_from_str`. The time read depends on the text
/// and the pattern alone, and is given the name [`time_by_pattern`].
#[verifier::external_body]
pub(crate) fn read_time_by_pattern(text: &str, pattern: &str) -> (r: Option<TimeOfDay>)
    ensures
        r == time_by_pattern(text@, pattern@),
{
    match NaiveTime::parse_from_str(text, pattern) {
        Ok(t) => Some(
            TimeOfDay { hour: t.hour(), minute: t.minute(), second: t.second(), nano: t.nanosecond() },
        ),
        Err(_) => None,
    }
}

/// `chrono::NaiveDateTime::parse_from_str`. The day and time read, taken
/// apart by `chrono::Datelike` and `chrono::Timelike`, depend on the text
/// and the pattern alone, and are given the name [`moment_by_pattern`].
#[verifier::external_body]
pub(crate) fn read_moment_by_pattern(text: &str, pattern: &str) -> (r: Option<Moment>)
    ensures
        r == moment_by_pattern(text@, pattern@),
{
    match NaiveDateTime::parse_from_str(text, pattern) {
        Ok(m) => Some(
            Moment {
                date: CalendarDate { year: m.year(), month: m.month(), day: m.day() },
                time: TimeOfDay { hour: m.hour(), minute: m.minute(), second: m.second(), nano: m.nanosecond() },
            },
        ),
        Err(_) => None,
    }
}

/// `chrono::NaiveTime::signed_duration_since`, in the whole minutes of
/// `chrono::TimeDelta::num_minutes`, on two times put together again by
/// `chrono::NaiveTime::from_hms_nano_opt`. The span is the difference of
/// the seconds and of the nanoseconds, with one second more or less for a
/// leap second that the time taken away stands in or the other passes;
/// seconds and minutes are counted toward zero.
#[verifier::external_body]
pub(crate) fn whole_minutes_between(later: TimeOfDay, earlier: TimeOfDay) -> (r: Option<i64>)
    ensures
        r == minutes_between(later, earlier),
{
    let a = NaiveTime::from_hms_nano_opt(later.hour, later.minute, later.second, later.nano)?;
    let b = NaiveTime::from_hms_nano_opt(earlier.hour, earlier.minute, earlier.second, earlier.nano)?;
    Some(a.signed_duration_since(b).num_minutes())
}

/// `chrono::NaiveDateTime::format`, on a day and a time put together again
/// by `chrono::NaiveDate::from_ymd_opt` and
/// `chrono::NaiveTime::from_hms_nano_opt`. The text depends on the day, the
/// time and the pattern alone, and is given the name [`written`].
#[verifier::external_body]
pub(crate) fn write_moment(date: CalendarDate, time: TimeOfDay, pattern: &str) -> (r: Option<String>)
    ensures
        match r {
            Some(text) => written(date, time, pattern@) == Some(text@),
            None => written(date, time, pattern@).is_none(),
        },
{
    let day = NaiveDate::from_ymd_opt(date.year, date.month, date.day)?;
    let clock = NaiveTime::from_hms_nano_opt(time.hour, time.minute, time.second, time.nano)?;
    let mut text = String::new();
    write!(text, "{}", NaiveDateTime::new(day, clock).format(pattern)).ok()?;
    Some(text)
}

} // verus!
