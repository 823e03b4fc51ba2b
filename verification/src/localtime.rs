//! Local-time arithmetic, delegated to the chrono crate behind trusted
//! wrappers. Every result here depends on the machine's time zone and, for
//! the current date, on the clock, so the contracts state only what holds
//! of every outcome; the verified callers take these values as given.

use vstd::prelude::*;
use chrono::{Datelike, TimeZone, Timelike};
use crate::window::TimeWindow;

verus! {

/// One instant carried opaquely through this module: a chrono local
/// date-time held in a hidden field, because `chrono::DateTime`'s `TimeZone`
/// parameter keeps the type itself from being declared to the verifier.
#[verifier::external_body]
pub struct LocalInstant {
    dt: chrono::DateTime<chrono::Local>,
}

/// Relies on chrono's `Local::now`: the current local date and time.
#[verifier::external_body]
fn local_now() -> (r: LocalInstant) {
    LocalInstant { dt: chrono::Local::now() }
}

/// Relies on chrono's `TimeZone::with_ymd_and_hms` for the local zone:
/// `Some` holds the given calendar date and time of day interpreted in
/// local time; `None` when that date or time does not exist (or is
/// ambiguous) there. A month outside 1..=12 or a day outside 1..=31 is
/// documented to be refused outright.
#[verifier::external_body]
fn local_datetime_of(y: i32, mo: u32, d: u32, h: u32, mi: u32, s: u32) -> (r: Option<
    LocalInstant,
>)
    ensures
        r is Some ==> 1 <= mo <= 12 && 1 <= d <= 31,
{
    chrono::Local.with_ymd_and_hms(y, mo, d, h, mi, s).single().map(|dt| LocalInstant { dt })
}

/// Relies on chrono's `TimeZone::timestamp_opt` for the local zone: the
/// local representation of a unix timestamp, `None` when the timestamp is
/// out of chrono's range.
#[verifier::external_body]
fn local_of_timestamp(ts: i64) -> (r: Option<LocalInstant>) {
    chrono::Local.timestamp_opt(ts, 0).single().map(|dt| LocalInstant { dt })
}

/// Relies on chrono's `DateTime::checked_sub_days`: the same local time of
/// day the given number of calendar days earlier; `None` on overflow or
/// when that time does not exist, or is ambiguous, in the local zone.
#[verifier::external_body]
fn datetime_sub_days(t: &LocalInstant, days: u64) -> (r: Option<LocalInstant>) {
    t.dt.checked_sub_days(chrono::Days::new(days)).map(|dt| LocalInstant { dt })
}

/// Relies on chrono's `DateTime::timestamp`: the unix timestamp in seconds.
#[verifier::external_body]
fn datetime_timestamp(t: &LocalInstant) -> (r: i64) {
    t.dt.timestamp()
}

/// Relies on chrono's `Datelike::year`.
#[verifier::external_body]
fn datetime_year(t: &LocalInstant) -> (r: i32) {
    t.dt.year()
}

/// Relies on chrono's `Datelike::month`: documented to lie in 1..=12.
#[verifier::external_body]
fn datetime_month(t: &LocalInstant) -> (r: u32)
    ensures
        1 <= r <= 12,
{
    t.dt.month()
}

/// Relies on chrono's `Datelike::day`: documented to lie in 1..=31.
#[verifier::external_body]
fn datetime_day(t: &LocalInstant) -> (r: u32)
    ensures
        1 <= r <= 31,
{
    t.dt.day()
}

/// Relies on chrono's `Timelike::hour`: documented to lie in 0..=23.
#[verifier::external_body]
fn datetime_hour(t: &LocalInstant) -> (r: u32)
    ensures
        r <= 23,
{
    t.dt.hour()
}

/// Relies on chrono's `Timelike::minute`: documented to lie in 0..=59.
#[verifier::external_body]
fn datetime_minute(t: &LocalInstant) -> (r: u32)
    ensures
        r <= 59,
{
    t.dt.minute()
}

/// The local calendar stamp of a unix timestamp, reduced to the plain
/// fields that the log-line format uses. `None` when chrono cannot place
/// the timestamp, or when its year falls outside the four digits the
/// fixed-width stamp can carry.
pub fn local_stamp_of(ts: i64) -> (r: Option<(u32, u32, u32, u32, u32)>)
    ensures
        r is Some ==> {
            let (y, mo, d, h, mi) = r->0;
            y < 10000 && 1 <= mo <= 12 && 1 <= d <= 31 && h <= 23 && mi <= 59
        },
{
    let dt = match local_of_timestamp(ts) {
        Some(dt) => dt,
        None => {
            return None;
        },
    };
    let y = datetime_year(&dt);
    if y < 0 || y > 9999 {
        return None;
    }
    Some((y as u32, datetime_month(&dt), datetime_day(&dt), datetime_hour(&dt), datetime_minute(&dt)))
}

/// The current local date, as (year, month, day).
pub fn today() -> (r: (i32, u32, u32))
    ensures
        1 <= r.1 <= 12,
        1 <= r.2 <= 31,
{
    let now = local_now();
    (datetime_year(&now), datetime_month(&now), datetime_day(&now))
}

/// Defaults any missing component of the target date to the current local
/// date, as the original command-line defaults do.
pub fn resolve_date(year: Option<i32>, month: Option<u32>, day: Option<u32>) -> (r: (i32, u32, u32))
    ensures
        year is Some ==> r.0 == year->0,
        month is Some ==> r.1 == month->0,
        day is Some ==> r.2 == day->0,
        month is None ==> 1 <= r.1 <= 12,
        day is None ==> 1 <= r.2 <= 31,
{
    let (ty, tm, td) = today();
    let y = match year {
        Some(y) => y,
        None => ty,
    };
    let mo = match month {
        Some(mo) => mo,
        None => tm,
    };
    let d = match day {
        Some(d) => d,
        None => td,
    };
    (y, mo, d)
}

/// The harvesting window for one target date: `until` at 23:59:59 local
/// time of that date, `since` five calendar days earlier. `None` when the
/// local zone has no such time, when the bounds do not land in strict
/// order, or always when the month or day is plainly out of range.
pub fn window_for_date(y: i32, mo: u32, d: u32) -> (r: Option<TimeWindow>)
    ensures
        r is Some ==> r->0.wf(),
        r is Some ==> 1 <= mo <= 12 && 1 <= d <= 31,
{
    let until = match local_datetime_of(y, mo, d, 23, 59, 59) {
        Some(dt) => dt,
        None => {
            return None;
        },
    };
    let since = match datetime_sub_days(&until, 5) {
        Some(dt) => dt,
        None => {
            return None;
        },
    };
    TimeWindow::new(datetime_timestamp(&since), datetime_timestamp(&until))
}

/// The `year-month-day` hint for the summarization prompt, any missing
/// component defaulted to the current local date.
pub fn get_date_string(year: Option<i32>, month: Option<u32>, day: Option<u32>) -> (r: String)
    ensures
        (year is Some && month is Some && day is Some) ==> r@ == crate::strfmt::date_chars(
            year->0 as int,
            month->0 as int,
            day->0 as int,
        ),
        exists|y: int, mo: int, d: int|
            r@ == crate::strfmt::date_chars(y, mo, d) && (year is Some ==> y == year->0) && (
            month is Some ==> mo == month->0) && (day is Some ==> d == day->0) && (month is None
                ==> 1 <= mo <= 12) && (day is None ==> 1 <= d <= 31),
{
    let (y, mo, d) = resolve_date(year, month, day);
    let r = crate::strfmt::date_string_from(y, mo, d);
    proof {
        assert(r@ == crate::strfmt::date_chars(y as int, mo as int, d as int) && (year is Some
            ==> y as int == year->0) && (month is Some ==> mo as int == month->0) && (day is Some
            ==> d as int == day->0) && (month is None ==> 1 <= mo as int <= 12) && (day is None
            ==> 1 <= d as int <= 31));
    }
    r
}

} // verus!
