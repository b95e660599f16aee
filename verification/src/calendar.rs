//! Dates.

use chrono::{Datelike, Timelike};
use vstd::prelude::*;

use crate::time::Timestamp;

verus! {

/// A point in time by its date and its time of day, in UTC.
#[derive(Clone, Copy, Debug, PartialEq, Eq, Structural)]
pub struct Calendar {
    pub year: i32,
    pub month: u32,
    pub day: u32,
    pub hour: u32,
    pub minute: u32,
    pub second: u32,
    pub nanos: u32,
}

/// The first year that there is.
pub const FIRST_YEAR: i32 = -262_143;

/// The last year that there is.
pub const LAST_YEAR: i32 = 262_142;

impl Calendar {
    /// Whether the parts are within their bounds. Whether a month has the day is not asked.
    pub open spec fn wf(self) -> bool {
        &&& FIRST_YEAR <= self.year <= LAST_YEAR
        &&& 1 <= self.month <= 12
        &&& 1 <= self.day <= 31
        &&& self.hour < 24
        &&& self.minute < 60
        &&& self.second < 60
        &&& self.nanos < 1_000_000_000
    }
}

/// The date and the time of day of a point in time.
pub uninterp spec fn date_of(at: Timestamp) -> Calendar;

/// The point in time with a date and a time of day, where there is one.
pub uninterp spec fn instant_at(date: Calendar) -> Option<Timestamp>;

/// `chrono::DateTime::from_timestamp` and the accessors of `Datelike` and `Timelike`: the parts
/// depend on the point in time alone, and are within their bounds.
#[verifier::external_body]
fn to_calendar(at: Timestamp) -> (res: Calendar)
    requires
        at.ordinary(),
    ensures
        res == date_of(at),
        res.wf(),
{
    let time = chrono::DateTime::from_timestamp(at.seconds, at.nanos).unwrap_or_default();
    Calendar {
        year: time.year(),
        month: time.month(),
        day: time.day(),
        hour: time.hour(),
        minute: time.minute(),
        second: time.second(),
        nanos: time.nanosecond(),
    }
}

/// `chrono::NaiveDate::from_ymd_opt` and `and_hms_nano_opt`, in UTC: the point in time depends
/// on the parts alone and has these parts, and every month has a first day.
#[verifier::external_body]
fn from_calendar(date: Calendar) -> (res: Option<Timestamp>)
    ensures
        res == instant_at(date),
        res matches Some(at) ==> at.wf() && date_of(at) == date,
        date.wf() && date.day == 1 ==> res is Some && res->0.ordinary(),
{
    let day = chrono::NaiveDate::from_ymd_opt(date.year, date.month, date.day)?;
    let time = day.and_hms_nano_opt(date.hour, date.minute, date.second, date.nanos)?.and_utc();
    Some(Timestamp { seconds: time.timestamp(), nanos: time.timestamp_subsec_nanos() })
}

/// Midnight of the first day of a month.
pub open spec fn start_of_month(date: Calendar) -> Calendar {
    Calendar { day: 1, hour: 0, minute: 0, second: 0, nanos: 0, ..date }
}

/// The first day of the month after a date, at the same time of day.
pub open spec fn first_of_next_month(date: Calendar) -> Calendar {
    if date.month == 12 {
        Calendar { year: (date.year + 1) as i32, month: 1, day: 1, ..date }
    } else {
        Calendar { month: (date.month + 1) as u32, day: 1, ..date }
    }
}

/// Midnight of the first day of the month of a date.
pub fn first_midnight(date: Calendar) -> (res: Calendar)
    ensures
        res == start_of_month(date),
{
    Calendar {
        year: date.year,
        month: date.month,
        day: 1,
        hour: 0,
        minute: 0,
        second: 0,
        nanos: 0,
    }
}

/// The start of the month of a point in time.
pub fn month_start(now: Timestamp) -> (res: Timestamp)
    requires
        now.ordinary(),
    ensures
        instant_at(start_of_month(date_of(now))) == Some(res),
        res.ordinary(),
{
    match from_calendar(first_midnight(to_calendar(now))) {
        Some(at) => at,
        None => now,
    }
}

/// The first day of the month after a date, at the same time of day.
pub fn next_month(date: Calendar) -> (res: Calendar)
    requires
        date.wf(),
        date.year < LAST_YEAR || date.month < 12,
    ensures
        res == first_of_next_month(date),
        res.wf(),
{
    if date.month == 12 {
        Calendar {
            year: date.year + 1,
            month: 1,
            day: 1,
            hour: date.hour,
            minute: date.minute,
            second: date.second,
            nanos: date.nanos,
        }
    } else {
        Calendar {
            year: date.year,
            month: date.month + 1,
            day: 1,
            hour: date.hour,
            minute: date.minute,
            second: date.second,
            nanos: date.nanos,
        }
    }
}

/// Whether a date is in the last month that there is.
pub open spec fn is_last_month(date: Calendar) -> bool {
    date.year == LAST_YEAR && date.month == 12
}

/// The start of the month after that of a point in time, where there is one.
pub fn next_month_start(now: Timestamp) -> (res: Option<Timestamp>)
    requires
        now.ordinary(),
    ensures
        res is None <==> is_last_month(date_of(now)),
        res matches Some(at) ==> instant_at(
            first_of_next_month(start_of_month(date_of(now))),
        ) == Some(at) && at.ordinary(),
{
    let date: Calendar = to_calendar(now);
    if date.year == LAST_YEAR && date.month == 12 {
        return None;
    }
    from_calendar(next_month(first_midnight(date)))
}

/// The date from which a subscription is billed that is taken out on a date: that date, or the
/// first of the next month where not every month has its day. The time of day stays. There is
/// none only in the last month that there is.
pub open spec fn anchor_of(date: Calendar) -> Option<Calendar> {
    if date.day <= 28 {
        Some(date)
    } else if is_last_month(date) {
        None
    } else {
        Some(first_of_next_month(date))
    }
}

/// The date from which a subscription is billed that is taken out on a date.
pub fn anchor_date(date: Calendar) -> (res: Option<Calendar>)
    requires
        date.wf(),
    ensures
        res == anchor_of(date),
{
    if date.day <= 28 {
        Some(date)
    } else if date.year == LAST_YEAR && date.month == 12 {
        None
    } else {
        Some(next_month(date))
    }
}

/// The point in time from which a subscription is billed that is taken out now.
pub fn billing_anchor(now: Timestamp) -> (res: Option<Timestamp>)
    requires
        now.ordinary(),
    ensures
        date_of(now).day <= 28 ==> res == Some(now),
        date_of(now).day > 28 ==> match anchor_of(date_of(now)) {
            Some(date) => res is Some && instant_at(date) == res,
            None => res is None,
        },
{
    let date: Calendar = to_calendar(now);
    if date.day <= 28 {
        return Some(now);
    }
    match anchor_date(date) {
        Some(anchor) => from_calendar(anchor),
        None => None,
    }
}

/// A subscription is billed from a day that every month has, at the same time of day as it was
/// taken out.
pub proof fn anchor_day_is_in_every_month(date: Calendar)
    requires
        date.wf(),
    ensures
        anchor_of(date) matches Some(anchor) ==> {
            &&& anchor.wf()
            &&& anchor.day <= 28
            &&& anchor.hour == date.hour
            &&& anchor.minute == date.minute
            &&& anchor.second == date.second
            &&& anchor.nanos == date.nanos
        },
{
}

/// A subscription is billed from the day that it is taken out on, or from the first day of the
/// next month where that day is behind the 28th.
pub proof fn anchor_day_is_today_or_the_next_first(date: Calendar)
    requires
        date.wf(),
    ensures
        date.day <= 28 ==> anchor_of(date) == Some(date),
        date.day > 28 && !(date.year == 262_142 && date.month == 12) ==> {
            let anchor = anchor_of(date)->0;
            &&& anchor_of(date) is Some
            &&& anchor.day == 1
            &&& 1 <= anchor.month <= 12
            &&& anchor.year * 12 + anchor.month == date.year * 12 + date.month + 1
        },
{
}

/// A month runs from the midnight of its first day to that of the first day of the next one.
pub proof fn month_runs_from_first_to_first(date: Calendar)
    requires
        date.wf(),
        date.year < 262_142,
    ensures
        ({
            let start = start_of_month(date);
            let end = first_of_next_month(start);
            &&& start.year == date.year && start.month == date.month && start.day == 1
            &&& start.hour == 0 && start.minute == 0 && start.second == 0 && start.nanos == 0
            &&& end.day == 1 && 1 <= end.month <= 12
            &&& end.hour == 0 && end.minute == 0 && end.second == 0 && end.nanos == 0
            &&& end.year * 12 + end.month == start.year * 12 + start.month + 1
        }),
{
}

/// A month begins at the midnight of its first day, the next one at that of the first day after
/// it, and what is billed from a day on is billed from then or from the next first day.
pub proof fn months_follow_each_other(
    date: Calendar,
    first: Calendar,
    next: Calendar,
    anchor: Option<Calendar>,
)
    requires
        date.wf(),
        date.year < 262_142,
        call_ensures(first_midnight, (date,), first),
        call_ensures(next_month, (first,), next),
        call_ensures(anchor_date, (date,), anchor),
    ensures
        first.year == date.year && first.month == date.month && first.day == 1,
        first.hour == 0 && first.minute == 0 && first.second == 0 && first.nanos == 0,
        next.year * 12 + next.month == date.year * 12 + date.month + 1,
        1 <= next.month <= 12 && next.day == 1,
        next.hour == 0 && next.minute == 0 && next.second == 0 && next.nanos == 0,
        date.day <= 28 ==> anchor == Some(date),
        date.day > 28 ==> anchor is Some && anchor->0.day == 1 && anchor->0.year * 12
            + anchor->0.month == date.year * 12 + date.month + 1,
{
    anchor_day_is_today_or_the_next_first(date);
}

/// The month and the day from which something is billed are those of the moment at hand.
pub proof fn moments_belong_to_their_month(
    now: Timestamp,
    start: Timestamp,
    next: Option<Timestamp>,
    anchor: Option<Timestamp>,
)
    requires
        now.ordinary(),
        call_ensures(month_start, (now,), start),
        call_ensures(next_month_start, (now,), next),
        call_ensures(billing_anchor, (now,), anchor),
    ensures
        ({
            let date = date_of(now);
            let first = Calendar { day: 1, hour: 0, minute: 0, second: 0, nanos: 0, ..date };
            &&& instant_at(first) == Some(start)
            &&& next is None <==> date.year == 262_142 && date.month == 12
            &&& next is Some && date.month < 12 ==> instant_at(
                Calendar { month: (date.month + 1) as u32, ..first },
            ) == next
            &&& next is Some && date.month == 12 ==> instant_at(
                Calendar { year: (date.year + 1) as i32, month: 1, ..first },
            ) == next
            &&& date.day <= 28 ==> anchor == Some(now)
            &&& anchor is Some && date.day > 28 ==> anchor_of(date) is Some && instant_at(
                anchor_of(date)->0,
            ) == anchor
        }),
{
}

} // verus!
