//! Calendar months on the time line.
//!
//! Minutes, hours, days and weeks all have a fixed number of seconds;
//! months do not. Which month an instant falls in, and at which instant a
//! month begins, is asked of the `chrono` crate. What `chrono` answers is
//! not proved here: it is given a name, and everything that is built on the
//! answers is checked before it is used.

use crate::time::Timestamp;
use chrono::Datelike;
use vstd::prelude::*;

verus! {

/// The year and the month of the date that `chrono` gives to the instant
/// `secs` seconds after 1970-01-01 00:00:00, or `None` where `chrono` has no
/// date for it.
pub uninterp spec fn civil_month_of(secs: i64) -> Option<(i32, u32)>;

/// The instant, in seconds since 1970-01-01 00:00:00, at which `chrono`
/// lets the date `year`-`month`-`day` begin, or `None` where `chrono` has
/// no such date.
pub uninterp spec fn civil_date_start(year: i32, month: u32, day: u32) -> Option<i64>;

/// Calls `chrono::DateTime::from_timestamp_secs` and reads the year and
/// the month of the date it returns (`Datelike::year`, `Datelike::month`).
/// Nothing is claimed of the answer but that it depends on `secs` alone.
#[verifier::external_body]
fn month_of(secs: i64) -> (r: Option<(i32, u32)>)
    ensures
        r == civil_month_of(secs),
{
    match chrono::DateTime::from_timestamp_secs(secs) {
        Some(at) => Some((at.naive_utc().year(), at.naive_utc().month())),
        None => None,
    }
}

/// Calls `chrono::NaiveDate::from_ymd_opt` and reads the midnight at which
/// the date it returns begins as seconds since 1970-01-01 00:00:00
/// (`DateTime::timestamp`). Nothing is claimed of the answer but that it
/// depends on the three numbers alone.
#[verifier::external_body]
fn date_start(year: i32, month: u32, day: u32) -> (r: Option<i64>)
    ensures
        r == civil_date_start(year, month, day),
{
    match chrono::NaiveDate::from_ymd_opt(year, month, day) {
        Some(date) => Some(chrono::NaiveDateTime::from(date).and_utc().timestamp()),
        None => None,
    }
}

/// The month that follows `month` of `year`: the next month of the same
/// year, and after December the January of the next year. `None` where
/// `month` is no month or the next year cannot be written.
pub open spec fn spec_month_after(year: i32, month: u32) -> Option<(i32, u32)> {
    if 1 <= month < 12 {
        Some((year, (month + 1) as u32))
    } else if month == 12 && year < i32::MAX {
        Some(((year + 1) as i32, 1u32))
    } else {
        None
    }
}

/// `start` as the beginning of a period that holds `t`: accepted when it
/// is there and not after `t`.
pub open spec fn spec_begin_at(start: Option<i64>, t: Timestamp) -> Option<Timestamp> {
    match start {
        Some(s) if s <= t.secs => Some(Timestamp { secs: s }),
        _ => None,
    }
}

/// `end` as the end of a period that holds `t`: accepted when it is there
/// and after `t`.
pub open spec fn spec_end_at(end: Option<i64>, t: Timestamp) -> Option<Timestamp> {
    match end {
        Some(e) if t.secs < e => Some(Timestamp { secs: e }),
        _ => None,
    }
}

/// The beginning of the calendar month that holds `t`.
pub open spec fn spec_month_floor(t: Timestamp) -> Option<Timestamp> {
    match civil_month_of(t.secs) {
        Some((year, month)) => spec_begin_at(civil_date_start(year, month, 1), t),
        None => None,
    }
}

/// The beginning of the calendar month after the one that holds `t`.
pub open spec fn spec_month_ceil(t: Timestamp) -> Option<Timestamp> {
    match civil_month_of(t.secs) {
        Some((year, month)) => match spec_month_after(year, month) {
            Some((next_year, next_month)) => spec_end_at(
                civil_date_start(next_year, next_month, 1),
                t,
            ),
            None => None,
        },
        None => None,
    }
}

/// The month that follows `month` of `year`. December rolls over to
/// January of the next year.
pub fn month_after(year: i32, month: u32) -> (r: Option<(i32, u32)>)
    ensures
        r == spec_month_after(year, month),
{
    if 1 <= month && month < 12 {
        Some((year, month + 1))
    } else if month == 12 && year < i32::MAX {
        Some((year + 1, 1))
    } else {
        None
    }
}

/// Accepts `start` as the beginning of a period that holds `t`.
pub fn begin_at(start: Option<i64>, t: Timestamp) -> (r: Option<Timestamp>)
    ensures
        r == spec_begin_at(start, t),
{
    match start {
        Some(s) => if s <= t.secs {
            Some(Timestamp { secs: s })
        } else {
            None
        },
        None => None,
    }
}

/// Accepts `end` as the end of a period that holds `t`.
pub fn end_at(end: Option<i64>, t: Timestamp) -> (r: Option<Timestamp>)
    ensures
        r == spec_end_at(end, t),
{
    match end {
        Some(e) => if t.secs < e {
            Some(Timestamp { secs: e })
        } else {
            None
        },
        None => None,
    }
}

/// The beginning of the calendar month that holds `t`, where the calendar
/// places it at or before `t`.
pub fn month_floor(t: Timestamp) -> (r: Option<Timestamp>)
    ensures
        r == spec_month_floor(t),
        r matches Some(s) ==> s@ <= t@,
{
    match month_of(t.secs) {
        Some((year, month)) => begin_at(date_start(year, month, 1), t),
        None => None,
    }
}

/// The beginning of the calendar month after the one that holds `t`, where
/// the calendar places it after `t`.
pub fn month_ceil(t: Timestamp) -> (r: Option<Timestamp>)
    ensures
        r == spec_month_ceil(t),
        r matches Some(e) ==> t@ < e@,
{
    match month_of(t.secs) {
        Some((year, month)) => match month_after(year, month) {
            Some((next_year, next_month)) => end_at(date_start(next_year, next_month, 1), t),
            None => None,
        },
        None => None,
    }
}

} // verus!
