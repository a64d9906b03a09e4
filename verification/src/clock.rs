//! The boundary to the calendar library and the system clock.
//!
//! Instants are seconds since the Unix epoch in UTC. A wall-clock time is
//! held the same way, as the seconds that the epoch's own wall clock would
//! have counted up to it; a calendar day is the number of days since the
//! epoch's day. The trusted wrappers below turn text and instants into these
//! numbers; everything built on them is verified.

use vstd::prelude::*;
use chrono::{
    DateTime, Datelike, Local, NaiveDate, NaiveDateTime, NaiveTime, TimeZone, Timelike, Utc,
};
use crate::event::{valid_instant, MAX_INSTANT, MIN_INSTANT};

verus! {

/// Seconds in a day.
pub const DAY_SECONDS: i64 = 86_400;

/// What the calendar library reads from `text` as a time of day in the
/// given format, in seconds since midnight.
pub uninterp spec fn parsed_time(text: Seq<char>, format: Seq<char>) -> Option<u32>;

/// What the calendar library reads from `text` as a date in the given
/// format, in days since the epoch.
pub uninterp spec fn parsed_date(text: Seq<char>, format: Seq<char>) -> Option<i64>;

/// What the calendar library reads from `text` as a date with a time in the
/// given format, in wall-clock seconds.
pub uninterp spec fn parsed_date_time(text: Seq<char>, format: Seq<char>) -> Option<i64>;

/// Calls `chrono::NaiveTime::parse_from_str` and hands back the seconds
/// since midnight of the time it read, or `None` where it reports an error.
/// Trusted: the result is a function of the two texts, and a time of day
/// lies below 86400 seconds.
#[verifier::external_body]
pub(crate) fn parse_time(text: &str, format: &str) -> (r: Option<u32>)
    ensures
        r == parsed_time(text@, format@),
        r matches Some(s) ==> s < 86_400,
{
    match NaiveTime::parse_from_str(text, format) {
        Ok(time) => Some(time.num_seconds_from_midnight()),
        Err(_) => None,
    }
}

/// Calls `chrono::NaiveDate::parse_from_str` and hands back the date it
/// read as days since the epoch, or `None` where it reports an error.
/// Trusted: the result is a function of the two texts.
#[verifier::external_body]
pub(crate) fn parse_date(text: &str, format: &str) -> (r: Option<i64>)
    ensures
        r == parsed_date(text@, format@),
{
    match NaiveDate::parse_from_str(text, format) {
        Ok(date) => Some(i64::from(date.to_epoch_days())),
        Err(_) => None,
    }
}

/// Calls `chrono::NaiveDateTime::parse_from_str` and hands back the
/// wall-clock seconds of what it read, or `None` where it reports an error.
/// Trusted: the result is a function of the two texts.
#[verifier::external_body]
pub(crate) fn parse_date_time_text(text: &str, format: &str) -> (r: Option<i64>)
    ensures
        r == parsed_date_time(text@, format@),
{
    match NaiveDateTime::parse_from_str(text, format) {
        Ok(wall) => Some(wall.and_utc().timestamp()),
        Err(_) => None,
    }
}

/// Largest day number, counted from the epoch's day, that the library
/// computes with. It lies within the years that the calendar library
/// holds, which end about 95 026 000 days after the epoch and begin about
/// 96 465 000 days before it.
pub const MAX_DAY: i64 = 95_000_000;

/// Whether `day` is a day number that the library computes with. Every
/// day on which an event can fall is.
pub open spec fn valid_day(day: int) -> bool {
    -MAX_DAY <= day <= MAX_DAY
}

/// The year, the month and the day of the month that the calendar gives
/// to a day.
pub uninterp spec fn civil_date(day: i64) -> (i32, u32, u32);

/// Calls `chrono::NaiveDate::from_epoch_days` and hands back the year, the
/// month and the day of the month of the date. Trusted: the calendar
/// library holds every day that the library computes with, and the result
/// is a function of the day.
#[verifier::external_body]
pub(crate) fn civil_date_of(day: i64) -> (date: (i32, u32, u32))
    requires
        valid_day(day as int),
    ensures
        date == civil_date(day),
{
    let date = NaiveDate::from_epoch_days(day as i32).unwrap();
    (date.year(), date.month(), date.day())
}

/// Reads the system clock through `chrono::Utc::now`, in whole seconds.
/// Trusted; nothing is claimed of the value.
#[verifier::external_body]
pub(crate) fn system_instant() -> i64 {
    Utc::now().timestamp()
}

/// Asks `chrono::Local` for the offset of the machine's zone from UTC at
/// the given instant, in seconds to add to UTC. Trusted: an offset of the
/// calendar library is less than a day in either direction.
#[verifier::external_body]
pub(crate) fn zone_offset_at(instant: i64) -> (offset: i32)
    requires
        valid_instant(instant as int),
    ensures
        -86_400 < offset < 86_400,
{
    let utc = DateTime::from_timestamp(instant, 0).unwrap().naive_utc();
    Local.offset_from_utc_datetime(&utc).local_minus_utc()
}

/// Asks `chrono::Local` for the instant at which the machine's zone shows
/// the given wall-clock time. `None` where the calendar library cannot hold
/// that time, or the zone shows it never or twice. Trusted: the instant
/// lies less than a day from the wall-clock seconds.
#[verifier::external_body]
pub(crate) fn zone_instant_of(wall: i64) -> (r: Option<i64>)
    ensures
        r matches Some(t) ==> wall - 86_400 < t < wall + 86_400,
{
    match DateTime::from_timestamp(wall, 0) {
        Some(shown) => match Local.from_local_datetime(&shown.naive_utc()).single() {
            Some(at) => Some(at.timestamp()),
            None => None,
        },
        None => None,
    }
}

/// The day that holds the wall-clock second `wall`.
pub open spec fn day_of(wall: int) -> int {
    wall / (DAY_SECONDS as int)
}

/// The second of its day at which the wall clock shows `wall`.
pub open spec fn second_of_day(wall: int) -> int {
    wall % (DAY_SECONDS as int)
}

/// The day that holds the wall-clock second `wall`.
pub fn wall_day(wall: i64) -> (day: i64)
    ensures
        day == day_of(wall as int),
{
    let quotient: i64 = wall / DAY_SECONDS;
    if wall % DAY_SECONDS < 0 {
        quotient - 1
    } else {
        quotient
    }
}

/// The second of its day at which the wall clock shows `wall`.
pub fn wall_second_of_day(wall: i64) -> (second: i64)
    ensures
        second == second_of_day(wall as int),
        0 <= second < DAY_SECONDS,
{
    let rest: i64 = wall % DAY_SECONDS;
    if rest < 0 {
        rest + DAY_SECONDS
    } else {
        rest
    }
}

/// What a reading of the clock comes to: the instant that was read, or
/// nothing where events cannot carry it.
pub open spec fn usable(reading: i64) -> Option<i64> {
    if valid_instant(reading as int) {
        Some(reading)
    } else {
        None
    }
}

/// What a reading of the clock comes to.
pub fn usable_instant(reading: i64) -> (instant: Option<i64>)
    ensures
        instant == usable(reading),
{
    if MIN_INSTANT <= reading && reading <= MAX_INSTANT {
        Some(reading)
    } else {
        None
    }
}

/// The current instant, or `None` where the system clock shows a time that
/// events cannot carry.
pub fn current_instant() -> (now: Option<i64>)
    ensures
        now matches Some(t) ==> valid_instant(t as int),
{
    usable_instant(system_instant())
}

/// What a wall clock shows at an instant when it runs `offset` seconds
/// ahead of UTC.
pub fn wall_time_at(instant: i64, offset: i32) -> (wall: i64)
    requires
        valid_instant(instant as int),
        -DAY_SECONDS < offset < DAY_SECONDS,
    ensures
        wall == instant + offset,
{
    instant + offset as i64
}

/// What the wall clock of the machine's zone shows at the given instant.
/// It differs from the instant by less than a day.
pub fn local_wall_time(instant: i64) -> (wall: i64)
    requires
        valid_instant(instant as int),
    ensures
        instant - DAY_SECONDS < wall < instant + DAY_SECONDS,
{
    wall_time_at(instant, zone_offset_at(instant))
}

/// The calendar day that the machine's zone shows at the given instant. It
/// is the day of the instant in UTC, the day before, or the day after.
pub fn local_day(instant: i64) -> (day: i64)
    requires
        valid_instant(instant as int),
    ensures
        day_of(instant as int) - 1 <= day <= day_of(instant as int) + 1,
        valid_day(day as int),
{
    wall_day(local_wall_time(instant))
}

} // verus!
