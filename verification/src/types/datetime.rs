//! The date-time scalar: a moment on a clock that runs ahead of UTC or
//! behind it, written as RFC 3339 has it.

use vstd::prelude::*;
use vstd::string::*;
use std::cmp::Ordering;
use vstd::std_specs::cmp::{PartialEqSpecImpl, PartialOrdSpecImpl};
use crate::calendar::{
    calendar_seconds, date_at, date_exists, format_rfc3339, is_calendar_date, is_clock_time,
    is_date_at, is_rfc3339, lemma_calendar_bounds, parse_rfc3339, rfc3339_text, rfc3339_value,
    utc_seconds, Month, MAX_NANOS, MAX_OFFSET, MAX_SECONDS, MIN_NANOS, MIN_SECONDS,
};
use crate::error::Error;
use crate::json::JsonScalar;
use crate::types::date::Date;

verus! {

/// A time of day, to the nanosecond. Its view is the hour, the minute,
/// the second and the nanosecond.
#[derive(Debug, Clone, Copy, PartialEq, Eq, Structural)]
pub struct Time {
    hour: u8,
    minute: u8,
    second: u8,
    nanosecond: u32,
}

impl View for Time {
    type V = (int, int, int, int);

    closed spec fn view(&self) -> (int, int, int, int) {
        (self.hour as int, self.minute as int, self.second as int, self.nanosecond as int)
    }
}

impl Time {
    #[verifier::type_invariant]
    spec fn is_real(&self) -> bool {
        is_clock_time(self.hour as int, self.minute as int, self.second as int) && self.nanosecond
            < 1_000_000_000
    }

    /// The given time of day, if there is such a time.
    pub fn from_hms(hour: u8, minute: u8, second: u8) -> (r: Result<Time, Error>)
        ensures
            match r {
                Ok(time) => is_clock_time(hour as int, minute as int, second as int) && time@ == (
                    hour as int,
                    minute as int,
                    second as int,
                    0int,
                ),
                Err(Error::InvalidInputError(text)) => !is_clock_time(
                    hour as int,
                    minute as int,
                    second as int,
                ) && text@ == "time"@,
                Err(_) => false,
            },
    {
        if hour < 24 && minute < 60 && second < 60 {
            Ok(Time { hour, minute, second, nanosecond: 0 })
        } else {
            Err(Error::InvalidInputError("time".to_owned()))
        }
    }

    /// The given time of day, if there is such a time.
    pub fn from_hms_nano(hour: u8, minute: u8, second: u8, nanosecond: u32) -> (r: Result<
        Time,
        Error,
    >)
        ensures
            match r {
                Ok(time) => is_clock_time(hour as int, minute as int, second as int) && nanosecond
                    < 1_000_000_000 && time@ == (
                    hour as int,
                    minute as int,
                    second as int,
                    nanosecond as int,
                ),
                Err(Error::InvalidInputError(text)) => !(is_clock_time(
                    hour as int,
                    minute as int,
                    second as int,
                ) && nanosecond < 1_000_000_000) && text@ == "time"@,
                Err(_) => false,
            },
    {
        if hour < 24 && minute < 60 && second < 60 && nanosecond < 1_000_000_000 {
            Ok(Time { hour, minute, second, nanosecond })
        } else {
            Err(Error::InvalidInputError("time".to_owned()))
        }
    }

    /// The hour, the minute, the second and the nanosecond.
    pub fn as_hms_nano(&self) -> (r: (u8, u8, u8, u32))
        ensures
            (r.0 as int, r.1 as int, r.2 as int, r.3 as int) == self@,
            is_clock_time(r.0 as int, r.1 as int, r.2 as int),
            r.3 < 1_000_000_000,
    {
        proof {
            use_type_invariant(self);
        }
        (self.hour, self.minute, self.second, self.nanosecond)
    }
}

/// The date and time of day that a JSON value holds, if it holds one: what
/// RFC 3339 reads its text as.
pub open spec fn decode_date_time(value: JsonScalar) -> Option<(int, int)> {
    match value {
        JsonScalar::String(text) => rfc3339_value(text@),
        _ => None,
    }
}

/// A GraphQL DateTime value: a date and a time of day on a clock that is
/// some seconds ahead of UTC.
#[derive(Debug, Clone, Copy)]
pub struct DateTime {
    local_nanos: i128,
    offset: i32,
}

impl DateTime {
    #[verifier::type_invariant]
    spec fn in_range(&self) -> bool {
        MIN_NANOS <= self.local_nanos <= MAX_NANOS && -MAX_OFFSET <= self.offset <= MAX_OFFSET
    }

    /// The date and the time of day on the clock of the value, as the
    /// nanoseconds from 1970-01-01 00:00:00 to them.
    pub closed spec fn local_nanos(&self) -> int {
        self.local_nanos as int
    }

    /// The seconds by which the clock of the value is ahead of UTC.
    pub closed spec fn offset_seconds(&self) -> int {
        self.offset as int
    }

    /// The moment: the nanoseconds from 1970-01-01 00:00:00 UTC to it.
    pub open spec fn instant(&self) -> int {
        self.local_nanos() - self.offset_seconds() * 1_000_000_000
    }

    /// The day on the clock of the value.
    pub fn to_date(&self) -> (r: Date)
        ensures
            is_date_at(r@.0, r@.1, r@.2, self.local_nanos()),
    {
        proof {
            use_type_invariant(self);
        }
        let (year, month, day) = date_at(self.local_nanos);
        Date::from_parts(year, month, day)
    }

    /// The moment `timestamp` seconds after 1970-01-01 00:00:00 UTC, on the
    /// clock of UTC, if it lies in the years from -9999 to 9999.
    pub fn from_unix_timestamp(timestamp: i64) -> (r: Result<DateTime, Error>)
        ensures
            match r {
                Ok(t) => MIN_SECONDS <= timestamp <= MAX_SECONDS && t.local_nanos() == timestamp
                    * 1_000_000_000 && t.offset_seconds() == 0,
                Err(Error::InvalidInputError(text)) => !(MIN_SECONDS <= timestamp <= MAX_SECONDS)
                    && text@ == "timestamp"@,
                Err(_) => false,
            },
    {
        if MIN_SECONDS <= timestamp && timestamp <= MAX_SECONDS {
            Ok(DateTime { local_nanos: (timestamp as i128) * 1_000_000_000, offset: 0 })
        } else {
            Err(Error::InvalidInputError("timestamp".to_owned()))
        }
    }

    /// The moment `timestamp` nanoseconds after 1970-01-01 00:00:00 UTC, on
    /// the clock of UTC, if it lies in the years from -9999 to 9999.
    pub fn from_unix_timestamp_nanos(timestamp: i128) -> (r: Result<DateTime, Error>)
        ensures
            match r {
                Ok(t) => MIN_NANOS <= timestamp <= MAX_NANOS && t.local_nanos() == timestamp
                    && t.offset_seconds() == 0,
                Err(Error::InvalidInputError(text)) => !(MIN_NANOS <= timestamp <= MAX_NANOS)
                    && text@ == "timestamp"@,
                Err(_) => false,
            },
    {
        if MIN_NANOS <= timestamp && timestamp <= MAX_NANOS {
            Ok(DateTime { local_nanos: timestamp, offset: 0 })
        } else {
            Err(Error::InvalidInputError("timestamp".to_owned()))
        }
    }

    /// The first moment of the given day in UTC, if there is such a day.
    pub fn from_calendar_date(year: i32, month: Month, day: u8) -> (r: Result<DateTime, Error>)
        ensures
            match r {
                Ok(t) => is_calendar_date(year as int, month.spec_number(), day as int)
                    && t.local_nanos() == calendar_seconds(
                    year as int,
                    month.spec_number(),
                    day as int,
                    0,
                    0,
                    0,
                ) * 1_000_000_000 && t.offset_seconds() == 0,
                Err(Error::InvalidInputError(text)) => !is_calendar_date(
                    year as int,
                    month.spec_number(),
                    day as int,
                ) && text@ == "date"@,
                Err(_) => false,
            },
    {
        let number = month.number();
        if date_exists(year, number, day) {
            let seconds = utc_seconds(year, number, day, 0, 0, 0);
            proof {
                lemma_calendar_bounds(year as int, number as int, day as int);
            }
            Ok(DateTime { local_nanos: (seconds as i128) * 1_000_000_000, offset: 0 })
        } else {
            Err(Error::InvalidInputError("date".to_owned()))
        }
    }

    /// The given second of the given day in UTC, if there is such a day
    /// and such a time of day. Of the two, the day is looked at first.
    pub fn from_calendar_date_time(
        year: i32,
        month: Month,
        day: u8,
        hour: u8,
        minute: u8,
        second: u8,
    ) -> (r: Result<DateTime, Error>)
        ensures
            match r {
                Ok(t) => is_calendar_date(year as int, month.spec_number(), day as int)
                    && is_clock_time(hour as int, minute as int, second as int) && t.local_nanos()
                    == calendar_seconds(
                    year as int,
                    month.spec_number(),
                    day as int,
                    hour as int,
                    minute as int,
                    second as int,
                ) * 1_000_000_000 && t.offset_seconds() == 0,
                Err(Error::InvalidInputError(text)) => if !is_calendar_date(
                    year as int,
                    month.spec_number(),
                    day as int,
                ) {
                    text@ == "date"@
                } else {
                    !is_clock_time(hour as int, minute as int, second as int) && text@ == "time"@
                },
                Err(_) => false,
            },
    {
        let number = month.number();
        if !date_exists(year, number, day) {
            Err(Error::InvalidInputError("date".to_owned()))
        } else if hour < 24 && minute < 60 && second < 60 {
            let seconds = utc_seconds(year, number, day, hour, minute, second);
            proof {
                lemma_calendar_bounds(year as int, number as int, day as int);
            }
            Ok(DateTime { local_nanos: (seconds as i128) * 1_000_000_000, offset: 0 })
        } else {
            Err(Error::InvalidInputError("time".to_owned()))
        }
    }

    /// The given second of `date` in UTC, if there is such a time of day.
    pub fn from_date_hms(date: Date, hour: u8, minute: u8, second: u8) -> (r: Result<
        DateTime,
        Error,
    >)
        ensures
            match r {
                Ok(t) => is_clock_time(hour as int, minute as int, second as int) && t.local_nanos()
                    == calendar_seconds(
                    date@.0,
                    date@.1,
                    date@.2,
                    hour as int,
                    minute as int,
                    second as int,
                ) * 1_000_000_000 && t.offset_seconds() == 0,
                Err(Error::InvalidInputError(text)) => !is_clock_time(
                    hour as int,
                    minute as int,
                    second as int,
                ) && text@ == "time"@,
                Err(_) => false,
            },
    {
        if hour < 24 && minute < 60 && second < 60 {
            let (year, month, day) = date.to_calendar_date();
            let seconds = utc_seconds(year, month.number(), day, hour, minute, second);
            proof {
                lemma_calendar_bounds(year as int, month.spec_number(), day as int);
            }
            Ok(DateTime { local_nanos: (seconds as i128) * 1_000_000_000, offset: 0 })
        } else {
            Err(Error::InvalidInputError("time".to_owned()))
        }
    }

    /// The time of day `time` of `date` in UTC.
    pub fn from_date_time(date: Date, time: Time) -> (r: DateTime)
        ensures
            r.local_nanos() == calendar_seconds(
                date@.0,
                date@.1,
                date@.2,
                time@.0,
                time@.1,
                time@.2,
            ) * 1_000_000_000 + time@.3,
            r.offset_seconds() == 0,
    {
        let (hour, minute, second, nanosecond) = time.as_hms_nano();
        let (year, month, day) = date.to_calendar_date();
        let seconds = utc_seconds(year, month.number(), day, hour, minute, second);
        proof {
            lemma_calendar_bounds(year as int, month.spec_number(), day as int);
        }
        DateTime { local_nanos: (seconds as i128) * 1_000_000_000 + (nanosecond as i128), offset: 0 }
    }

    /// The moment, as the nanoseconds from 1970-01-01 00:00:00 UTC to it.
    pub fn unix_timestamp_nanos(&self) -> (r: i128)
        ensures
            r == self.instant(),
    {
        proof {
            use_type_invariant(self);
        }
        self.local_nanos - (self.offset as i128) * 1_000_000_000
    }

    /// The seconds by which the clock of the value is ahead of UTC.
    pub fn offset_whole_seconds(&self) -> (r: i32)
        ensures
            r == self.offset_seconds(),
    {
        self.offset
    }

    /// Reads a date and time of day written as RFC 3339 has it; any other
    /// text is refused and handed back in the error.
    pub fn from_str(s: &str) -> (r: Result<DateTime, Error>)
        ensures
            match r {
                Ok(t) => rfc3339_value(s@) == Some((t.local_nanos(), t.offset_seconds())),
                Err(Error::InvalidInputError(text)) => rfc3339_value(s@) is None && text@ == s@,
                Err(_) => false,
            },
    {
        match parse_rfc3339(s) {
            Some((local_nanos, offset)) => Ok(DateTime { local_nanos, offset }),
            None => Err(Error::InvalidInputError(s.to_owned())),
        }
    }

    /// Writes the value as RFC 3339 has it, if it has it: it has no years
    /// of other than four digits and no offsets but those of whole minutes
    /// and less than a day.
    pub fn to_string(&self) -> (r: Option<String>)
        ensures
            r is Some <==> is_rfc3339(self.local_nanos(), self.offset_seconds()),
            r matches Some(text) ==> text@ == rfc3339_text(
                self.local_nanos(),
                self.offset_seconds(),
            ),
    {
        proof {
            use_type_invariant(self);
        }
        format_rfc3339(self.local_nanos, self.offset)
    }

    /// Decodes a JSON value: a string that RFC 3339 reads is taken, and
    /// everything else is refused.
    pub fn from_json(value: &JsonScalar) -> (r: Result<DateTime, Error>)
        ensures
            match r {
                Ok(t) => decode_date_time(*value) == Some((t.local_nanos(), t.offset_seconds())),
                Err(Error::DecodeError(text)) => decode_date_time(*value) is None && text@
                    == "a date and time as in RFC 3339"@,
                Err(_) => false,
            },
    {
        if let JsonScalar::String(text) = value {
            if let Some((local_nanos, offset)) = parse_rfc3339(text.as_str()) {
                return Ok(DateTime { local_nanos, offset });
            }
        }
        Err(Error::DecodeError("a date and time as in RFC 3339".to_owned()))
    }

    /// Encodes the value as a JSON string, and fails where RFC 3339 cannot
    /// write it.
    pub fn to_json(&self) -> (r: Result<JsonScalar, Error>)
        ensures
            match r {
                Ok(JsonScalar::String(text)) => is_rfc3339(self.local_nanos(), self.offset_seconds())
                    && text@ == rfc3339_text(self.local_nanos(), self.offset_seconds()),
                Ok(_) => false,
                Err(Error::SerializationError(text)) => !is_rfc3339(
                    self.local_nanos(),
                    self.offset_seconds(),
                ) && text@ == "Can't format OffsetDateTime"@,
                Err(_) => false,
            },
    {
        match self.to_string() {
            Some(text) => Ok(JsonScalar::String(text)),
            None => Err(Error::SerializationError("Can't format OffsetDateTime".to_owned())),
        }
    }
}

impl PartialEq for DateTime {
    /// Two values are equal where they are the same moment, whatever
    /// their clocks.
    fn eq(&self, other: &DateTime) -> (r: bool) {
        self.unix_timestamp_nanos() == other.unix_timestamp_nanos()
    }
}

impl PartialEqSpecImpl for DateTime {
    open spec fn obeys_eq_spec() -> bool {
        true
    }

    open spec fn eq_spec(&self, other: &DateTime) -> bool {
        self.instant() == other.instant()
    }
}

impl Eq for DateTime {

}

impl PartialOrd for DateTime {
    /// The earlier moment is the lesser one, whatever the clocks.
    fn partial_cmp(&self, other: &DateTime) -> (r: Option<Ordering>) {
        let a = self.unix_timestamp_nanos();
        let b = other.unix_timestamp_nanos();
        if a < b {
            Some(Ordering::Less)
        } else if a > b {
            Some(Ordering::Greater)
        } else {
            Some(Ordering::Equal)
        }
    }
}

impl PartialOrdSpecImpl for DateTime {
    open spec fn obeys_partial_cmp_spec() -> bool {
        true
    }

    open spec fn partial_cmp_spec(&self, other: &DateTime) -> Option<Ordering> {
        if self.instant() < other.instant() {
            Some(Ordering::Less)
        } else if self.instant() > other.instant() {
            Some(Ordering::Greater)
        } else {
            Some(Ordering::Equal)
        }
    }
}

} // verus!
