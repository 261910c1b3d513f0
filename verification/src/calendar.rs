//! The calendar as the scalar types need it: which dates and times exist,
//! and what the `time` crate makes of them.

use vstd::prelude::*;

verus! {

/// A month of the year.
#[derive(Debug, Clone, Copy, PartialEq, Eq, Structural)]
pub enum Month {
    January,
    February,
    March,
    April,
    May,
    June,
    July,
    August,
    September,
    October,
    November,
    December,
}

impl Month {
    /// The number of the month, 1 for January.
    pub open spec fn spec_number(self) -> int {
        match self {
            Month::January => 1,
            Month::February => 2,
            Month::March => 3,
            Month::April => 4,
            Month::May => 5,
            Month::June => 6,
            Month::July => 7,
            Month::August => 8,
            Month::September => 9,
            Month::October => 10,
            Month::November => 11,
            Month::December => 12,
        }
    }

    /// The number of the month, 1 for January.
    pub fn number(self) -> (r: u8)
        ensures
            r == self.spec_number(),
            1 <= r <= 12,
    {
        match self {
            Month::January => 1,
            Month::February => 2,
            Month::March => 3,
            Month::April => 4,
            Month::May => 5,
            Month::June => 6,
            Month::July => 7,
            Month::August => 8,
            Month::September => 9,
            Month::October => 10,
            Month::November => 11,
            Month::December => 12,
        }
    }

    /// The month with the given number, if the number is one from 1 to 12.
    pub fn from_number(number: u8) -> (r: Option<Month>)
        ensures
            match r {
                Some(month) => month.spec_number() == number,
                None => !(1 <= number <= 12),
            },
    {
        match number {
            1 => Some(Month::January),
            2 => Some(Month::February),
            3 => Some(Month::March),
            4 => Some(Month::April),
            5 => Some(Month::May),
            6 => Some(Month::June),
            7 => Some(Month::July),
            8 => Some(Month::August),
            9 => Some(Month::September),
            10 => Some(Month::October),
            11 => Some(Month::November),
            12 => Some(Month::December),
            _ => None,
        }
    }
}

/// Whether `year` has a 29th of February in the Gregorian calendar, which
/// is carried back before its introduction.
pub open spec fn is_leap_year(year: int) -> bool {
    year % 4 == 0 && (year % 100 != 0 || year % 400 == 0)
}

/// The number of days of the month with the number `month` in `year`.
pub open spec fn days_in_month(year: int, month: int) -> int {
    if month == 2 {
        if is_leap_year(year) {
            29
        } else {
            28
        }
    } else if month == 4 || month == 6 || month == 9 || month == 11 {
        30
    } else {
        31
    }
}

/// Whether there is such a day: a day of a month of a year from -9999 to
/// 9999.
pub open spec fn is_calendar_date(year: int, month: int, day: int) -> bool {
    &&& -9999 <= year <= 9999
    &&& 1 <= month <= 12
    &&& 1 <= day <= days_in_month(year, month)
}

/// Whether there is such a time of day, to the second.
pub open spec fn is_clock_time(hour: int, minute: int, second: int) -> bool {
    0 <= hour < 24 && 0 <= minute < 60 && 0 <= second < 60
}

/// The seconds from 1970-01-01 00:00:00 to the first second of the year
/// -9999.
pub const MIN_SECONDS: i64 = -377705116800;

/// The seconds from 1970-01-01 00:00:00 to the last second of the year
/// 9999.
pub const MAX_SECONDS: i64 = 253402300799;

/// The nanoseconds from 1970-01-01 00:00:00 to the first nanosecond of the
/// year -9999.
pub const MIN_NANOS: i128 = -377705116800000000000;

/// The nanoseconds from 1970-01-01 00:00:00 to the last nanosecond of the
/// year 9999.
pub const MAX_NANOS: i128 = 253402300799999999999;

/// The greatest distance from UTC, in seconds, that an offset can have.
pub const MAX_OFFSET: i32 = 93599;

/// The nanoseconds of a day.
pub const NANOS_PER_DAY: i128 = 86400000000000;

/// The days from the first day of the year 0 to the first day of `year`:
/// 365 for each year between them and one more for each leap year.
pub open spec fn days_before_year(year: int) -> int {
    365 * year + (year + 3) / 4 - (year + 99) / 100 + (year + 399) / 400
}

/// The days of `year` that lie before the first day of the month with the
/// number `month`.
pub open spec fn days_before_month(year: int, month: int) -> int
    decreases month,
{
    if month <= 1 {
        0
    } else {
        days_before_month(year, month - 1) + days_in_month(year, month - 1)
    }
}

/// The days from 1970-01-01 to the given day; negative for a day before
/// it.
pub open spec fn day_number(year: int, month: int, day: int) -> int {
    days_before_year(year) - days_before_year(1970) + days_before_month(year, month) + day - 1
}

/// The seconds from 1970-01-01 00:00:00 to the given second of the given
/// day, each day counting 86400 seconds.
pub open spec fn calendar_seconds(
    year: int,
    month: int,
    day: int,
    hour: int,
    minute: int,
    second: int,
) -> int {
    day_number(year, month, day) * 86400 + hour * 3600 + minute * 60 + second
}

/// Whether the given day is the day on which the nanosecond lies that
/// comes `nanos` nanoseconds after 1970-01-01 00:00:00.
pub open spec fn is_date_at(year: int, month: int, day: int, nanos: int) -> bool {
    is_calendar_date(year, month, day) && day_number(year, month, day) == nanos / (
    NANOS_PER_DAY as int)
}

/// The day numbers count the days of the calendar: 1970-01-01 has the
/// number 0, and the day after a day has the next number, within a month,
/// from the last day of a month to the first of the next, and from the
/// last day of a year to the first of the next.
pub proof fn lemma_day_numbers_follow(year: int, month: int, day: int)
    requires
        is_calendar_date(year, month, day),
    ensures
        day_number(1970, 1, 1) == 0,
        day < days_in_month(year, month) ==> day_number(year, month, day + 1) == day_number(
            year,
            month,
            day,
        ) + 1,
        day == days_in_month(year, month) && month < 12 ==> day_number(year, month + 1, 1)
            == day_number(year, month, day) + 1,
        day == 31 && month == 12 ==> day_number(year + 1, 1, 1) == day_number(year, month, day)
            + 1,
{
    reveal_with_fuel(days_before_month, 13);
}

/// A year has 365 days, and a leap year one more.
proof fn lemma_year_length(year: int)
    ensures
        days_before_year(year + 1) == days_before_year(year) + days_before_month(year, 12) + 31,
        days_before_month(year, 12) + 31 == 365 + (if is_leap_year(year) {
            1int
        } else {
            0int
        }),
{
    reveal_with_fuel(days_before_month, 13);
}

/// The first day of a later year comes later.
proof fn lemma_years_grow(a: int, b: int)
    requires
        a <= b,
    ensures
        days_before_year(a) <= days_before_year(b),
    decreases b - a,
{
    if a < b {
        lemma_years_grow(a, b - 1);
        lemma_year_length(b - 1);
    }
}

/// A later month of a year begins after the earlier month has ended.
proof fn lemma_months_grow(year: int, a: int, b: int)
    requires
        1 <= a < b,
    ensures
        days_before_month(year, a) + days_in_month(year, a) <= days_before_month(year, b),
    decreases b - a,
{
    if a < b - 1 {
        lemma_months_grow(year, a, b - 1);
    }
}

/// A later day has a greater number, so no two days share one.
pub proof fn lemma_day_numbers_grow(a: (int, int, int), b: (int, int, int))
    requires
        is_calendar_date(a.0, a.1, a.2),
        is_calendar_date(b.0, b.1, b.2),
        a.0 < b.0 || (a.0 == b.0 && (a.1 < b.1 || (a.1 == b.1 && a.2 < b.2))),
    ensures
        day_number(a.0, a.1, a.2) < day_number(b.0, b.1, b.2),
{
    if a.0 < b.0 {
        lemma_years_grow(a.0 + 1, b.0);
        lemma_year_length(a.0);
        if a.1 < 12 {
            lemma_months_grow(a.0, a.1, 12);
        }
        if b.1 > 1 {
            lemma_months_grow(b.0, 1, b.1);
        }
        assert(days_before_month(b.0, 1) == 0);
        assert(days_before_month(b.0, b.1) >= 0);
    } else if a.1 < b.1 {
        lemma_months_grow(a.0, a.1, b.1);
    }
}

/// A nanosecond lies on one day only.
pub proof fn lemma_date_at_is_one(a: (int, int, int), b: (int, int, int), nanos: int)
    requires
        is_date_at(a.0, a.1, a.2, nanos),
        is_date_at(b.0, b.1, b.2, nanos),
    ensures
        a == b,
{
    if a != b {
        if a.0 < b.0 || (a.0 == b.0 && (a.1 < b.1 || (a.1 == b.1 && a.2 < b.2))) {
            lemma_day_numbers_grow(a, b);
        } else {
            lemma_day_numbers_grow(b, a);
        }
    }
}

/// Every nanosecond of a second of a day lies on that day.
pub proof fn lemma_date_of_calendar_seconds(
    year: int,
    month: int,
    day: int,
    hour: int,
    minute: int,
    second: int,
    nanosecond: int,
)
    requires
        is_calendar_date(year, month, day),
        is_clock_time(hour, minute, second),
        0 <= nanosecond < 1_000_000_000,
    ensures
        is_date_at(
            year,
            month,
            day,
            calendar_seconds(year, month, day, hour, minute, second) * 1_000_000_000 + nanosecond,
        ),
{
    let n = day_number(year, month, day);
    let rest = (hour * 3600 + minute * 60 + second) * 1_000_000_000 + nanosecond;
    let nanos = calendar_seconds(year, month, day, hour, minute, second) * 1_000_000_000
        + nanosecond;
    assert(nanos == n * 86400000000000 + rest);
    assert(0 <= rest < 86400000000000);
    assert(nanos / 86400000000000 == n);
}

/// The days of the calendar lie between its first and its last, and so do
/// their seconds: the first second of the year -9999 and the last of the
/// year 9999 are the bounds that the constants give.
pub proof fn lemma_calendar_bounds(year: int, month: int, day: int)
    requires
        is_calendar_date(year, month, day),
    ensures
        calendar_seconds(-9999, 1, 1, 0, 0, 0) == MIN_SECONDS,
        calendar_seconds(9999, 12, 31, 23, 59, 59) == MAX_SECONDS,
        MIN_SECONDS <= calendar_seconds(year, month, day, 0, 0, 0),
        calendar_seconds(year, month, day, 23, 59, 59) <= MAX_SECONDS,
{
    lemma_year_length(9999);
    assert(days_before_month(-9999, 1) == 0);
    if (year, month, day) != (-9999int, 1int, 1int) {
        lemma_day_numbers_grow((-9999int, 1int, 1int), (year, month, day));
    }
    if (year, month, day) != (9999int, 12int, 31int) {
        lemma_day_numbers_grow((year, month, day), (9999int, 12int, 31int));
    }
}

/// The RFC 3339 text that `time` writes for the time of day and date that
/// come `local_nanos` nanoseconds after 1970-01-01 00:00:00 on a clock that
/// is `offset` seconds ahead of UTC.
pub uninterp spec fn rfc3339_text(local_nanos: int, offset: int) -> Seq<char>;

/// What `time` reads an RFC 3339 text as, if it reads it: the nanoseconds
/// from 1970-01-01 00:00:00 to the date and time of day that the text
/// names, and the seconds by which the clock of the text is ahead of UTC.
pub uninterp spec fn rfc3339_value(text: Seq<char>) -> Option<(int, int)>;

/// `time::Date::from_calendar_date`: whether `time` has the day. It has
/// the days of the Gregorian calendar in the years from -9999 to 9999.
#[verifier::external_body]
pub(crate) fn date_exists(year: i32, month: u8, day: u8) -> (r: bool)
    ensures
        r == is_calendar_date(year as int, month as int, day as int),
{
    match time::Month::try_from(month) {
        Ok(month) => time::Date::from_calendar_date(year, month, day).is_ok(),
        Err(_) => false,
    }
}

/// `time::OffsetDateTime::unix_timestamp` of the given second of the given
/// day in UTC: the seconds from 1970-01-01 00:00:00 to it, each day
/// counting 86400 seconds.
#[verifier::external_body]
pub(crate) fn utc_seconds(year: i32, month: u8, day: u8, hour: u8, minute: u8, second: u8) -> (r:
    i64)
    requires
        is_calendar_date(year as int, month as int, day as int),
        is_clock_time(hour as int, minute as int, second as int),
    ensures
        r == calendar_seconds(
            year as int,
            month as int,
            day as int,
            hour as int,
            minute as int,
            second as int,
        ),
{
    let month = time::Month::try_from(month).unwrap();
    let date = time::Date::from_calendar_date(year, month, day).unwrap();
    let time = time::Time::from_hms(hour, minute, second).unwrap();
    time::OffsetDateTime::new_utc(date, time).unix_timestamp()
}

/// `time::OffsetDateTime::date` of the moment `nanos` nanoseconds after
/// 1970-01-01 00:00:00 UTC: the day of the calendar on which that
/// nanosecond lies.
#[verifier::external_body]
pub(crate) fn date_at(nanos: i128) -> (r: (i32, u8, u8))
    requires
        MIN_NANOS <= nanos <= MAX_NANOS,
    ensures
        is_date_at(r.0 as int, r.1 as int, r.2 as int, nanos as int),
{
    let date = time::OffsetDateTime::from_unix_timestamp_nanos(nanos).unwrap().date();
    (date.year(), u8::from(date.month()), date.day())
}

/// Whether RFC 3339 can write the date and time that come `local_nanos`
/// nanoseconds after 1970-01-01 00:00:00 on a clock `offset` seconds ahead
/// of UTC: the year has four digits, and the offset is one of whole minutes
/// and less than a day.
pub open spec fn is_rfc3339(local_nanos: int, offset: int) -> bool {
    &&& day_number(0, 1, 1) * NANOS_PER_DAY <= local_nanos <= MAX_NANOS
    &&& -86400 < offset < 86400
    &&& offset % 60 == 0
}

/// `time::OffsetDateTime::format` with `Rfc3339`, for the date and time
/// that come `local_nanos` nanoseconds after 1970-01-01 00:00:00 on a clock
/// `offset` seconds ahead of UTC. `time` refuses a year of other than four
/// digits, an offset of a day or more, and an offset that is not one of
/// whole minutes; otherwise the text is the one that `rfc3339_text` names.
#[verifier::external_body]
pub(crate) fn format_rfc3339(local_nanos: i128, offset: i32) -> (r: Option<String>)
    requires
        MIN_NANOS <= local_nanos <= MAX_NANOS,
        -MAX_OFFSET <= offset <= MAX_OFFSET,
    ensures
        r is Some <==> is_rfc3339(local_nanos as int, offset as int),
        r matches Some(text) ==> text@ == rfc3339_text(local_nanos as int, offset as int),
{
    let offset = time::UtcOffset::from_whole_seconds(offset).unwrap();
    let local = time::OffsetDateTime::from_unix_timestamp_nanos(local_nanos).unwrap();
    local.replace_offset(offset).format(&time::format_description::well_known::Rfc3339).ok()
}

/// `time::OffsetDateTime::parse` with `Rfc3339`. What comes back is what
/// `rfc3339_value` names: nothing where `time` refuses the text, else the
/// date and time of day of the text as nanoseconds from 1970-01-01
/// 00:00:00, and its offset in seconds. Both lie in the ranges that `time`
/// has.
#[verifier::external_body]
pub(crate) fn parse_rfc3339(text: &str) -> (r: Option<(i128, i32)>)
    ensures
        match r {
            Some((local_nanos, offset)) => rfc3339_value(text@) == Some(
                (local_nanos as int, offset as int),
            ) && MIN_NANOS <= local_nanos <= MAX_NANOS && -MAX_OFFSET <= offset <= MAX_OFFSET,
            None => rfc3339_value(text@) is None,
        },
{
    let format = time::format_description::well_known::Rfc3339;
    time::OffsetDateTime::parse(text, &format).ok().map(
        |t| (t.replace_offset(time::UtcOffset::UTC).unix_timestamp_nanos(), t.offset().whole_seconds()),
    )
}

} // verus!
