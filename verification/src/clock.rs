//! Instants and the Beijing calendar.
//!
//! An instant is a number of seconds since 1970-01-01T00:00:00Z with a
//! nanosecond part. Beijing local time is UTC+8 throughout the year.
//! Reading and writing instants as text is left to `chrono`.

use crate::text::{digit_char, digit_of, opt_text};
use vstd::prelude::*;

verus! {

/// An instant: whole seconds since the Unix epoch, and the nanoseconds
/// since that second.
#[derive(Debug, Clone, Copy, PartialEq, Eq, Structural)]
pub struct Timestamp {
    pub secs: i64,
    pub nanos: u32,
}

/// The seconds by which Beijing local time is ahead of UTC.
pub const BEIJING_OFFSET_SECS: i64 = 28800;

pub const SECS_PER_DAY: i64 = 86400;

pub const NANOS_PER_SEC: i64 = 1000000000;

/// The Beijing local day of an instant, counted from 1970-01-01.
pub open spec fn beijing_day(secs: int) -> int {
    (secs + 28800) / 86400
}

/// The Beijing local minute of the day, from 0 to 1439.
pub open spec fn beijing_minute(secs: int) -> int {
    ((secs + 28800) % 86400) / 60
}

/// The Beijing local day of the week, from 0 for Monday to 6 for Sunday.
/// 1970-01-01 was a Thursday.
pub open spec fn beijing_weekday(secs: int) -> int {
    (beijing_day(secs) + 3) % 7
}

/// Whether the market trades at a day of the week and minute of the day:
/// Monday to Friday, from 09:30 to 11:30 and from 13:00 to 15:00, the ends
/// included.
pub open spec fn market_open(weekday: int, minute: int) -> bool {
    weekday < 5 && ((570 <= minute && minute <= 690) || (780 <= minute && minute <= 900))
}

/// Whether the market trades at an instant.
pub open spec fn market_open_at(secs: int) -> bool {
    market_open(beijing_weekday(secs), beijing_minute(secs))
}

/// The nanoseconds from `earlier` to `later`; negative if `later` comes
/// first.
pub open spec fn nanos_between(earlier: Timestamp, later: Timestamp) -> int {
    (later.secs - earlier.secs) * 1000000000 + (later.nanos - earlier.nanos)
}

/// Whether at least `secs` seconds lie between `earlier` and `later`.
pub open spec fn elapsed_at_least(earlier: Timestamp, later: Timestamp, secs: int) -> bool {
    nanos_between(earlier, later) >= secs * 1000000000
}

/// The Beijing local day of an instant and the second of that day.
fn split(secs: i64) -> (r: (i64, u32))
    ensures
        r.0 == (secs + 28800) / 86400,
        r.1 == (secs + 28800) % 86400,
        r.1 < 86400,
{
    let t: i128 = secs as i128 + 28800;
    if t >= 0 {
        let day = t / 86400;
        let second = t % 86400;
        (day as i64, second as u32)
    } else {
        let n: i128 = -t;
        let q: i128 = (n + 86399) / 86400;
        let second: i128 = q * 86400 - n;
        assert(0 <= second < 86400);
        assert(t == (-q) * 86400 + second);
        assert(t / 86400 == -q);
        assert(t % 86400 == second);
        ((-q) as i64, second as u32)
    }
}

/// The Beijing local day of an instant.
pub fn day_of(now: &Timestamp) -> (day: i64)
    ensures
        day == beijing_day(now.secs as int),
{
    split(now.secs).0
}

/// The Beijing local minute of the day of an instant.
pub fn minute_of(now: &Timestamp) -> (minute: u32)
    ensures
        minute == beijing_minute(now.secs as int),
        minute < 1440,
{
    split(now.secs).1 / 60
}

/// The Beijing local day of the week of an instant, from 0 for Monday.
pub fn weekday_of(now: &Timestamp) -> (weekday: u32)
    ensures
        weekday == beijing_weekday(now.secs as int),
        weekday < 7,
{
    let day: i128 = split(now.secs).0 as i128 + 3;
    if day >= 0 {
        (day % 7) as u32
    } else {
        let n: i128 = -day;
        let q: i128 = (n + 6) / 7;
        let rest: i128 = q * 7 - n;
        assert(0 <= rest < 7);
        assert(day == (-q) * 7 + rest);
        assert(day % 7 == rest);
        rest as u32
    }
}

/// Whether the market trades at `now`.
pub fn is_market_hours(now: &Timestamp) -> (open: bool)
    ensures
        open == market_open_at(now.secs as int),
{
    let weekday = weekday_of(now);
    if weekday >= 5 {
        return false;
    }
    let minute = minute_of(now);
    (570 <= minute && minute <= 690) || (780 <= minute && minute <= 900)
}

/// Whether at least `secs` seconds lie between `earlier` and `later`.
pub fn has_elapsed(earlier: &Timestamp, later: &Timestamp, secs: i64) -> (r: bool)
    ensures
        r == elapsed_at_least(*earlier, *later, secs as int),
{
    let whole: i128 = (later.secs as i128 - earlier.secs as i128) * 1000000000;
    let part: i128 = later.nanos as i128 - earlier.nanos as i128;
    let wanted: i128 = secs as i128 * 1000000000;
    whole + part >= wanted
}

/// A minute of the day as `HH:MM`.
pub open spec fn clock_text(minute: int) -> Seq<char> {
    seq![
        digit_char(minute / 60 / 10),
        digit_char(minute / 60 % 10),
        ':',
        digit_char(minute % 60 / 10),
        digit_char(minute % 60 % 10),
    ]
}

/// The Beijing local time of day of an instant as `HH:MM`.
pub fn current_minute(now: &Timestamp) -> (text: String)
    ensures
        text@ == clock_text(beijing_minute(now.secs as int)),
{
    let minute = minute_of(now);
    let hours = minute / 60;
    let minutes = minute % 60;
    let mut text = String::new();
    text.push(digit_of((hours / 10) as u64));
    text.push(digit_of((hours % 10) as u64));
    text.push(':');
    text.push(digit_of((minutes / 10) as u64));
    text.push(digit_of((minutes % 10) as u64));
    assert(text@ =~= clock_text(minute as int));
    text
}

/// The instant that an RFC 3339 text denotes, as
/// `chrono::DateTime::parse_from_rfc3339` reads it; `None` for a text it
/// rejects. It depends on the text alone.
pub uninterp spec fn rfc3339_instant(text: Seq<char>) -> Option<Timestamp>;

/// Reads an RFC 3339 date and time with `chrono::DateTime::parse_from_rfc3339`
/// and takes the instant by `timestamp` and `timestamp_subsec_nanos`. The
/// contract names the result and says nothing more of it.
#[verifier::external_body]
pub(crate) fn parse_rfc3339(text: &str) -> (r: Option<Timestamp>)
    ensures
        r == rfc3339_instant(text@),
{
    match chrono::DateTime::parse_from_rfc3339(text) {
        Ok(t) => Some(Timestamp { secs: t.timestamp(), nanos: t.timestamp_subsec_nanos() }),
        Err(_) => None,
    }
}

/// Whether something last done at the time written in `last` is due again
/// at `now`, `interval` seconds being the least distance: always if it was
/// never done or the time cannot be read, else if at least `interval`
/// seconds have passed since.
pub open spec fn interval_elapsed(last: Option<Seq<char>>, interval: int, now: Timestamp) -> bool {
    match last {
        None => true,
        Some(text) => match rfc3339_instant(text) {
            None => true,
            Some(then) => elapsed_at_least(then, now, interval),
        },
    }
}

/// Whether something last done at the time written in `last` is due again
/// at `now`.
pub fn is_interval_elapsed(last: &Option<String>, interval: i64, now: &Timestamp) -> (r: bool)
    ensures
        r == interval_elapsed(opt_text(*last), interval as int, *now),
{
    match last {
        None => true,
        Some(text) => match parse_rfc3339(text.as_str()) {
            None => true,
            Some(then) => has_elapsed(&then, now, interval),
        },
    }
}

/// The calendar date `YYYY-MM-DD` of a UTC instant, as `chrono` writes it
/// with the format `%Y-%m-%d`; `None` for an instant outside the years
/// that `chrono::DateTime::from_timestamp` can hold. It depends on the
/// seconds alone.
pub uninterp spec fn utc_date_text(secs: int) -> Option<Seq<char>>;

/// Makes a UTC date and time with `chrono::DateTime::from_timestamp` and
/// writes its date with `format("%Y-%m-%d")`. The contract names the result
/// and says nothing more of it.
#[verifier::external_body]
fn format_utc_date(secs: i64) -> (r: Option<String>)
    ensures
        match r {
            Some(text) => utc_date_text(secs as int) == Some(text@),
            None => utc_date_text(secs as int) is None,
        },
{
    match chrono::DateTime::from_timestamp(secs, 0) {
        Some(t) => Some(t.format("%Y-%m-%d").to_string()),
        None => None,
    }
}

/// The Beijing local date of an instant as `YYYY-MM-DD`: the UTC date
/// eight hours later.
pub open spec fn beijing_date_text(secs: int) -> Option<Seq<char>> {
    if secs + 28800 > i64::MAX {
        None
    } else {
        utc_date_text(secs + 28800)
    }
}

/// The Beijing local date of an instant as `YYYY-MM-DD`, or `None` where
/// the calendar cannot hold it.
pub fn beijing_date(now: &Timestamp) -> (r: Option<String>)
    ensures
        match r {
            Some(text) => beijing_date_text(now.secs as int) == Some(text@),
            None => beijing_date_text(now.secs as int) is None,
        },
{
    if now.secs > i64::MAX - BEIJING_OFFSET_SECS {
        None
    } else {
        format_utc_date(now.secs + BEIJING_OFFSET_SECS)
    }
}

} // verus!
