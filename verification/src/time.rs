//! Points in time.

use vstd::prelude::*;
use vstd::string::*;

use crate::calendar;
use crate::calendar::Calendar;
use crate::text;

verus! {

/// The first second that a point in time can have, at the start of the year -262143.
pub const FIRST_SECOND: i64 = -8_334_601_228_800;

/// The last second that a point in time can have, at the end of the year 262142.
pub const LAST_SECOND: i64 = 8_210_266_876_799;

/// A point in time: whole seconds since 1970-01-01T00:00:00 UTC, and nanoseconds since
/// that second.
#[derive(Clone, Copy, Debug, PartialEq, Eq, Structural)]
pub struct Timestamp {
    pub seconds: i64,
    pub nanos: u32,
}

impl Timestamp {
    /// Whether this is a point in time: its second is in range, and its nanoseconds go
    /// past the second only in the last second of a minute, for a leap second.
    pub open spec fn wf(self) -> bool {
        &&& FIRST_SECOND <= self.seconds <= LAST_SECOND
        &&& self.nanos < 1_000_000_000 || (self.seconds as int % 60 == 59 && self.nanos
            < 2_000_000_000)
    }

    /// Whether this is a point in time that is not in a leap second.
    pub open spec fn ordinary(self) -> bool {
        self.wf() && self.nanos < 1_000_000_000
    }

    /// Whether this is a point in time in one of the years 0 to 9999.
    pub open spec fn has_four_digit_year(self) -> bool {
        self.wf() && -62_167_219_200 <= self.seconds <= 253_402_300_799
    }

    /// The nanoseconds since 1970-01-01T00:00:00 UTC.
    pub open spec fn at(self) -> int {
        self.seconds * 1_000_000_000 + self.nanos
    }
}

/// A number with `n` decimal digits, the higher ones cut off.
pub open spec fn digits(value: int, n: nat) -> Seq<char>
    decreases n,
{
    if n == 0 {
        Seq::empty()
    } else {
        digits(value / 10, (n - 1) as nat).push(text::digit(value % 10))
    }
}

/// A year with at least four digits, and with its sign unless it has just four and is not
/// negative.
pub open spec fn year_text(year: int) -> Seq<char> {
    let size = if year < 0 {
        -year
    } else {
        year
    };
    let number = if size <= 9_999 {
        digits(size, 4)
    } else {
        text::decimal_nat(size as nat)
    };
    if 0 <= year <= 9_999 {
        number
    } else if year < 0 {
        "-"@ + number
    } else {
        "+"@ + number
    }
}

/// The second of a minute: a leap second is the one behind the last.
pub open spec fn second_of(date: Calendar) -> int {
    date.second + if date.nanos >= 1_000_000_000 {
        1int
    } else {
        0
    }
}

/// A date and a time of day up to the second.
pub open spec fn date_and_time(date: Calendar) -> Seq<char> {
    year_text(date.year as int) + "-"@ + digits(date.month as int, 2) + "-"@ + digits(
        date.day as int,
        2,
    ) + "T"@ + digits(date.hour as int, 2) + ":"@ + digits(date.minute as int, 2) + ":"@ + digits(
        second_of(date),
        2,
    )
}

/// The fraction of a second: none, or with three, six or nine digits, as many as it needs.
pub open spec fn fraction_text(date: Calendar) -> Seq<char> {
    let nanos = date.nanos as int % 1_000_000_000;
    if nanos == 0 {
        Seq::empty()
    } else if nanos % 1_000_000 == 0 {
        "."@ + digits(nanos / 1_000_000, 3)
    } else if nanos % 1_000 == 0 {
        "."@ + digits(nanos / 1_000, 6)
    } else {
        "."@ + digits(nanos, 9)
    }
}

/// A point in time in the notation of RFC 3339, cut to the second, in UTC written `Z`.
pub open spec fn rfc3339_text(at: Timestamp) -> Seq<char> {
    date_and_time(calendar::date_of(at)) + "Z"@
}

/// `chrono::DateTime::from_timestamp` and `to_rfc3339_opts` with `SecondsFormat::Secs` and
/// `Z`: the date and the time of day of a valid point in time in that notation.
#[verifier::external_body]
pub(crate) fn rfc3339(at: Timestamp) -> (res: String)
    requires
        at.wf(),
    ensures
        res@ == rfc3339_text(at),
{
    chrono::DateTime::from_timestamp(at.seconds, at.nanos).unwrap_or_default().to_rfc3339_opts(
        chrono::SecondsFormat::Secs,
        true,
    )
}

/// A point in time in the notation of RFC 3339, with as many digits of a second as it
/// needs, in UTC written `Z`.
pub open spec fn rfc3339_exact_text(at: Timestamp) -> Seq<char> {
    date_and_time(calendar::date_of(at)) + fraction_text(calendar::date_of(at)) + "Z"@
}

/// `chrono::DateTime::from_timestamp` and `to_rfc3339_opts` with `SecondsFormat::AutoSi` and
/// `Z`: the date and the time of day of a valid point in time in that notation.
#[verifier::external_body]
pub(crate) fn rfc3339_exact(at: Timestamp) -> (res: String)
    requires
        at.wf(),
    ensures
        res@ == rfc3339_exact_text(at),
{
    chrono::DateTime::from_timestamp(at.seconds, at.nanos).unwrap_or_default().to_rfc3339_opts(
        chrono::SecondsFormat::AutoSi,
        true,
    )
}

/// A point in time in the notation of RFC 3339, with as many digits of a second as it
/// needs, in UTC written `+00:00`.
pub open spec fn rfc3339_offset_text(at: Timestamp) -> Seq<char> {
    date_and_time(calendar::date_of(at)) + fraction_text(calendar::date_of(at)) + "+00:00"@
}

/// `chrono::DateTime::from_timestamp` and `to_rfc3339`: the date and the time of day of a valid
/// point in time in that notation.
#[verifier::external_body]
pub(crate) fn rfc3339_offset(at: Timestamp) -> (res: String)
    requires
        at.wf(),
    ensures
        res@ == rfc3339_offset_text(at),
{
    chrono::DateTime::from_timestamp(at.seconds, at.nanos).unwrap_or_default().to_rfc3339()
}

/// The short name of a day of the week, from Sunday on.
pub open spec fn weekday_text(day: int) -> Seq<char> {
    if day == 0 {
        "Sun"@
    } else if day == 1 {
        "Mon"@
    } else if day == 2 {
        "Tue"@
    } else if day == 3 {
        "Wed"@
    } else if day == 4 {
        "Thu"@
    } else if day == 5 {
        "Fri"@
    } else {
        "Sat"@
    }
}

/// The short name of a month.
pub open spec fn month_text(month: int) -> Seq<char> {
    if month == 1 {
        "Jan"@
    } else if month == 2 {
        "Feb"@
    } else if month == 3 {
        "Mar"@
    } else if month == 4 {
        "Apr"@
    } else if month == 5 {
        "May"@
    } else if month == 6 {
        "Jun"@
    } else if month == 7 {
        "Jul"@
    } else if month == 8 {
        "Aug"@
    } else if month == 9 {
        "Sep"@
    } else if month == 10 {
        "Oct"@
    } else if month == 11 {
        "Nov"@
    } else {
        "Dec"@
    }
}

/// A point in time in the notation of RFC 2822, in UTC written `+0000`. The day that seconds are
/// counted from was a Thursday.
pub open spec fn rfc2822_text(at: Timestamp) -> Seq<char> {
    let date = calendar::date_of(at);
    weekday_text((at.seconds as int / 86_400 + 4) % 7) + ", "@ + text::decimal(date.day as int)
        + " "@ + month_text(date.month as int) + " "@ + digits(date.year as int, 4) + " "@
        + digits(date.hour as int, 2) + ":"@ + digits(date.minute as int, 2) + ":"@ + digits(
        second_of(date),
        2,
    ) + " +0000"@
}

/// `chrono::DateTime::from_timestamp` and `to_rfc2822`: the date and the time of day of a point in
/// time in one of the years 0 to 9999 in that notation.
#[verifier::external_body]
pub(crate) fn rfc2822(at: Timestamp) -> (res: String)
    requires
        at.has_four_digit_year(),
    ensures
        res@ == rfc2822_text(at),
{
    chrono::DateTime::from_timestamp(at.seconds, at.nanos).unwrap_or_default().to_rfc2822()
}

/// The nanoseconds of a day.
pub const DAY_NANOS: i128 = 86_400_000_000_000;

/// A quotient without its fraction, whatever its sign.
pub open spec fn truncated_quotient(n: int, d: int) -> int {
    if n >= 0 {
        n / d
    } else {
        -((-n) / d)
    }
}

/// The whole days from one point in time to another, without the fraction of a day.
pub open spec fn days_from(start: Timestamp, end: Timestamp) -> int {
    truncated_quotient(end.at() - start.at(), DAY_NANOS as int)
}

/// The whole days from one point in time to another, negative where the other is earlier.
pub fn num_days(start: Timestamp, end: Timestamp) -> (res: i64)
    requires
        start.ordinary(),
        end.ordinary(),
    ensures
        res == days_from(start, end),
{
    let from: i128 = start.seconds as i128 * 1_000_000_000 + start.nanos as i128;
    let to: i128 = end.seconds as i128 * 1_000_000_000 + end.nanos as i128;
    let span: i128 = to - from;
    if span >= 0 {
        (span / DAY_NANOS) as i64
    } else {
        -(((-span) / DAY_NANOS) as i64)
    }
}

/// Whether one point in time is earlier than another.
pub open spec fn is_earlier(a: Timestamp, b: Timestamp) -> bool {
    a.seconds < b.seconds || (a.seconds == b.seconds && a.nanos < b.nanos)
}

/// Whether one point in time is earlier than another.
pub fn earlier(a: Timestamp, b: Timestamp) -> (res: bool)
    ensures
        res == is_earlier(a, b),
{
    a.seconds < b.seconds || (a.seconds == b.seconds && a.nanos < b.nanos)
}

/// The point in time some days before another.
pub open spec fn days_before(at: Timestamp, days: int) -> Timestamp {
    Timestamp { seconds: (at.seconds - days * 86_400) as i64, nanos: at.nanos }
}

/// Whether there is a point in time some days before another.
pub open spec fn has_days_before(at: Timestamp, days: int) -> bool {
    at.ordinary() && at.seconds - days * 86_400 >= FIRST_SECOND
}

/// The point in time some days before another.
pub fn minus_days(at: Timestamp, days: u32) -> (res: Timestamp)
    requires
        has_days_before(at, days as int),
    ensures
        res == days_before(at, days as int),
        res.ordinary(),
{
    Timestamp { seconds: at.seconds - days as i64 * 86_400, nanos: at.nanos }
}

/// Whether there is a point in time some seconds after another.
pub open spec fn has_seconds_after(at: Timestamp, seconds: int) -> bool {
    at.ordinary() && at.seconds + seconds <= LAST_SECOND
}

/// The point in time some seconds after another.
pub open spec fn seconds_after(at: Timestamp, seconds: int) -> Timestamp {
    Timestamp { seconds: (at.seconds + seconds) as i64, nanos: at.nanos }
}

/// The point in time some seconds after another.
pub fn plus_seconds(at: Timestamp, seconds: u64) -> (res: Timestamp)
    requires
        has_seconds_after(at, seconds as int),
    ensures
        res == seconds_after(at, seconds as int),
        res.ordinary(),
{
    Timestamp { seconds: at.seconds + seconds as i64, nanos: at.nanos }
}

/// The point in time some seconds after 1970-01-01T00:00:00 UTC, where there is one.
pub open spec fn unix(seconds: i64) -> Option<Timestamp> {
    if FIRST_SECOND <= seconds <= LAST_SECOND {
        Some(Timestamp { seconds, nanos: 0 })
    } else {
        None
    }
}

/// The point in time some seconds after 1970-01-01T00:00:00 UTC, where they are known and there
/// is one.
pub open spec fn optional_unix(seconds: Option<i64>) -> Option<Timestamp> {
    match seconds {
        Some(seconds) => unix(seconds),
        None => None,
    }
}

/// The point in time some seconds after 1970-01-01T00:00:00 UTC, where there is one.
pub fn from_unix(seconds: i64) -> (res: Option<Timestamp>)
    ensures
        res == unix(seconds),
{
    if FIRST_SECOND <= seconds && seconds <= LAST_SECOND {
        Some(Timestamp { seconds, nanos: 0 })
    } else {
        None
    }
}

/// The point in time some seconds after 1970-01-01T00:00:00 UTC, where they are known and there
/// is one.
pub fn from_optional_unix(seconds: Option<i64>) -> (res: Option<Timestamp>)
    ensures
        res == optional_unix(seconds),
{
    match seconds {
        Some(seconds) => from_unix(seconds),
        None => None,
    }
}

/// Of two points in time that are not in leap seconds, the earlier one has fewer nanoseconds
/// behind it.
pub proof fn earlier_is_less(a: Timestamp, b: Timestamp)
    requires
        a.nanos < 1_000_000_000,
        b.nanos < 1_000_000_000,
    ensures
        is_earlier(a, b) <==> a.at() < b.at(),
{
}

/// The point in time some days before another is just so many days before it.
pub proof fn days_before_is_exact(at: Timestamp, days: int)
    requires
        has_days_before(at, days),
        0 <= days,
    ensures
        at.at() - days_before(at, days).at() == days * 86_400_000_000_000,
        days_before(at, days).nanos == at.nanos,
{
    assert(FIRST_SECOND <= at.seconds - days * 86_400 <= at.seconds);
    assert(days * 86_400 * 1_000_000_000 == days * 86_400_000_000_000) by (nonlinear_arith);
}

/// The point in time some seconds after another is just so many seconds after it.
pub proof fn seconds_after_is_exact(at: Timestamp, seconds: int)
    requires
        has_seconds_after(at, seconds),
        0 <= seconds,
    ensures
        seconds_after(at, seconds).at() - at.at() == seconds * 1_000_000_000,
{
}

/// The days from one point in time to another are the whole days between them, without the rest.
pub proof fn days_are_whole(start: Timestamp, end: Timestamp)
    ensures
        start.at() <= end.at() ==> days_from(start, end) * 86_400_000_000_000 <= end.at()
            - start.at() < (days_from(start, end) + 1) * 86_400_000_000_000,
        end.at() <= start.at() ==> days_from(start, end) == -days_from(end, start),
{
    let span = end.at() - start.at();
    if span >= 0 {
        assert((span / 86_400_000_000_000) * 86_400_000_000_000 <= span < (span
            / 86_400_000_000_000 + 1) * 86_400_000_000_000) by (nonlinear_arith);
    }
}

/// Times are compared, and days and seconds are counted, to the second and to the fraction of a
/// second.
pub proof fn times_are_counted_exactly(
    a: Timestamp,
    b: Timestamp,
    less: bool,
    days: u32,
    before: Timestamp,
    seconds: u64,
    after: Timestamp,
    since: i64,
    moment: Option<Timestamp>,
    unix_seconds: i64,
    optional: Option<Timestamp>,
    none: Option<Timestamp>,
)
    requires
        a.ordinary(),
        b.ordinary(),
        has_seconds_after(a, seconds as int),
        call_ensures(earlier, (a, b), less),
        call_ensures(minus_days, (a, days), before),
        call_ensures(plus_seconds, (a, seconds), after),
        call_ensures(num_days, (a, b), since),
        call_ensures(from_unix, (unix_seconds,), moment),
        call_ensures(from_optional_unix, (Some(unix_seconds),), optional),
        call_ensures(from_optional_unix, (None,), none),
    ensures
        less <==> a.at() < b.at(),
        before.seconds + days * 86_400 == a.seconds && before.nanos == a.nanos,
        after.seconds == a.seconds + seconds && after.nanos == a.nanos,
        a.at() <= b.at() ==> since * 86_400_000_000_000 <= b.at() - a.at() && b.at() - a.at() < (
        since + 1) * 86_400_000_000_000,
        moment matches Some(at) ==> at.seconds == unix_seconds && at.nanos == 0,
        0 <= unix_seconds <= 253_402_300_799 ==> moment is Some,
        optional == moment,
        none is None,
{
    earlier_is_less(a, b);
    days_are_whole(a, b);
}

} // verus!
