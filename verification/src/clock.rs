//! The calendar date and the time of day of an instant, at an offset from
//! UTC, and how they are written out.
//!
//! An instant is a number of seconds since 1970-01-01 00:00:00 UTC, without
//! leap seconds. An offset is a number of seconds east of UTC.

use vstd::prelude::*;
use vstd::string::StringExecFns;
use chrono::{Datelike, Timelike};
use crate::number::{integer_text, push_integer, push_two_digits, two_digits};

verus! {

/// A day of the week.
#[derive(Clone, Copy, Debug, PartialEq, Eq, Structural)]
pub enum Weekday {
    Mon,
    Tue,
    Wed,
    Thu,
    Fri,
    Sat,
    Sun,
}

/// What a clock and a calendar show at an instant.
#[derive(Clone, Copy, Debug, PartialEq, Eq, Structural)]
pub struct CivilTime {
    pub year: i32,
    pub month: u32,
    pub day: u32,
    pub weekday: Weekday,
    pub hour: u32,
    pub minute: u32,
}

/// What clock and calendar show at the instant `timestamp`, `offset` seconds
/// east of UTC; `None` where the calendar does not reach that far or the
/// offset is a day or more.
///
/// This is what `chrono` computes: `DateTime::from_timestamp`, moved by
/// `DateTime::with_timezone` to `FixedOffset::east_opt(offset)`, and read
/// with `year`, `month`, `day`, `weekday`, `hour` and `minute`.
pub uninterp spec fn civil_time(timestamp: i64, offset: i32) -> Option<CivilTime>;

/// Calls `chrono::DateTime::from_timestamp` and `FixedOffset::east_opt`,
/// which give nothing for a timestamp or an offset out of range, then
/// `DateTime::with_timezone`, and reads the fields of the result. The
/// computation depends on the two numbers alone.
#[verifier::external_body]
pub(crate) fn civil_time_at(timestamp: i64, offset: i32) -> (time: Option<CivilTime>)
    ensures
        time == civil_time(timestamp, offset),
{
    let utc = chrono::DateTime::from_timestamp(timestamp, 0)?;
    let local = utc.with_timezone(&chrono::FixedOffset::east_opt(offset)?);
    let weekday = match local.weekday() {
        chrono::Weekday::Mon => Weekday::Mon,
        chrono::Weekday::Tue => Weekday::Tue,
        chrono::Weekday::Wed => Weekday::Wed,
        chrono::Weekday::Thu => Weekday::Thu,
        chrono::Weekday::Fri => Weekday::Fri,
        chrono::Weekday::Sat => Weekday::Sat,
        chrono::Weekday::Sun => Weekday::Sun,
    };
    let (year, month, day) = (local.year(), local.month(), local.day());
    Some(CivilTime { year, month, day, weekday, hour: local.hour(), minute: local.minute() })
}

/// What the clock shows at `now` for a timezone `offset` seconds east of
/// UTC. An offset that no timezone can have is taken as 0.
pub open spec fn reading_of(now: i64, offset: i32) -> Option<CivilTime> {
    match civil_time(now, offset) {
        Some(time) => Some(time),
        None => civil_time(now, 0),
    }
}

/// The minute of the hour at `now`, in UTC. A new minute begins at the same
/// instant at every offset of whole minutes.
pub open spec fn minute_at(now: i64) -> Option<u32> {
    match civil_time(now, 0) {
        Some(time) => Some(time.minute),
        None => None,
    }
}

/// The short English name of a day of the week.
pub open spec fn weekday_name(weekday: Weekday) -> Seq<char> {
    match weekday {
        Weekday::Mon => "Mon"@,
        Weekday::Tue => "Tue"@,
        Weekday::Wed => "Wed"@,
        Weekday::Thu => "Thu"@,
        Weekday::Fri => "Fri"@,
        Weekday::Sat => "Sat"@,
        Weekday::Sun => "Sun"@,
    }
}

/// The date as the line shows it: `2024-01-31 Wed`.
pub open spec fn date_of(time: CivilTime) -> Seq<char> {
    integer_text(time.year as int) + seq!['-'] + two_digits(time.month as nat) + seq!['-']
        + two_digits(time.day as nat) + seq![' '] + weekday_name(time.weekday)
}

/// The time of day as the line shows it: `09:05`.
pub open spec fn time_of(time: CivilTime) -> Seq<char> {
    two_digits(time.hour as nat) + seq![':'] + two_digits(time.minute as nat)
}

/// Date and time as they are typed into a pane: `20240131_0905`.
pub open spec fn stamp_of(time: CivilTime) -> Seq<char> {
    integer_text(time.year as int) + two_digits(time.month as nat) + two_digits(time.day as nat)
        + seq!['_'] + two_digits(time.hour as nat) + two_digits(time.minute as nat)
}

/// Reads the clock at `now` for a timezone `offset` seconds east of UTC.
pub fn read_clock(now: i64, offset: i32) -> (reading: Option<CivilTime>)
    ensures
        reading == reading_of(now, offset),
{
    match civil_time_at(now, offset) {
        Some(time) => Some(time),
        None => civil_time_at(now, 0),
    }
}

/// The minute of the hour at `now`, in UTC.
pub fn read_minute(now: i64) -> (minute: Option<u32>)
    ensures
        minute == minute_at(now),
{
    match civil_time_at(now, 0) {
        Some(time) => Some(time.minute),
        None => None,
    }
}

/// Writes the date out, as in `2024-01-31 Wed`.
pub fn date_text(time: &CivilTime) -> (text: String)
    ensures
        text@ == date_of(*time),
{
    let mut text = String::new();
    push_integer(&mut text, time.year);
    text.push('-');
    push_two_digits(&mut text, time.month);
    text.push('-');
    push_two_digits(&mut text, time.day);
    text.push(' ');
    text.append(
        match time.weekday {
            Weekday::Mon => "Mon",
            Weekday::Tue => "Tue",
            Weekday::Wed => "Wed",
            Weekday::Thu => "Thu",
            Weekday::Fri => "Fri",
            Weekday::Sat => "Sat",
            Weekday::Sun => "Sun",
        },
    );
    assert(text@ =~= date_of(*time));
    text
}

/// Writes the time of day out, as in `09:05`.
pub fn time_text(time: &CivilTime) -> (text: String)
    ensures
        text@ == time_of(*time),
{
    let mut text = String::new();
    push_two_digits(&mut text, time.hour);
    text.push(':');
    push_two_digits(&mut text, time.minute);
    assert(text@ =~= time_of(*time));
    text
}

/// Writes date and time out in one word, as in `20240131_0905`.
pub fn stamp_text(time: &CivilTime) -> (text: String)
    ensures
        text@ == stamp_of(*time),
{
    let mut text = String::new();
    push_integer(&mut text, time.year);
    push_two_digits(&mut text, time.month);
    push_two_digits(&mut text, time.day);
    text.push('_');
    push_two_digits(&mut text, time.hour);
    push_two_digits(&mut text, time.minute);
    assert(text@ =~= stamp_of(*time));
    text
}

} // verus!
