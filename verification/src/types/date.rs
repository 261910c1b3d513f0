//! The date scalar: a day of the calendar, written `YYYY-MM-DD`.
//!
//! The calendar has the years from -9999 to 9999; the written form has
//! those from 0000 to 9999, so a day before the year 0 can be held and
//! compared, and cannot be written.

use vstd::prelude::*;
use vstd::string::*;
use std::cmp::Ordering;
use vstd::std_specs::cmp::PartialOrdSpecImpl;
use crate::calendar::{date_exists, is_calendar_date, Month};
use crate::error::Error;
use crate::json::JsonScalar;
use crate::text::{
    all_digits, append_padded, chars_of, digits_value, lemma_digits_are_padded_text,
    lemma_padded_text, numeral_str, padded_text, pow10, read_digits,
};

verus! {

/// The text of a day of a year from 0 to 9999: the year with four digits,
/// the month and the day with two each, and a hyphen between each two.
pub open spec fn date_text(year: int, month: int, day: int) -> Seq<char> {
    padded_text(year as nat, 4) + seq!['-'] + padded_text(month as nat, 2) + seq!['-']
        + padded_text(day as nat, 2)
}

/// Whether a text has the form `YYYY-MM-DD`: four digits, a hyphen, two
/// digits, a hyphen, two digits, and nothing else.
pub open spec fn is_date_form(text: Seq<char>) -> bool {
    &&& text.len() == 10
    &&& all_digits(text.subrange(0, 4))
    &&& text[4] == '-'
    &&& all_digits(text.subrange(5, 7))
    &&& text[7] == '-'
    &&& all_digits(text.subrange(8, 10))
}

/// The day that a text names, if it names one: the text has the form
/// `YYYY-MM-DD`, and there is such a day.
pub open spec fn parse_date(text: Seq<char>) -> Option<(int, int, int)> {
    if is_date_form(text) {
        let year = digits_value(text.subrange(0, 4)) as int;
        let month = digits_value(text.subrange(5, 7)) as int;
        let day = digits_value(text.subrange(8, 10)) as int;
        if is_calendar_date(year, month, day) {
            Some((year, month, day))
        } else {
            None
        }
    } else {
        None
    }
}

/// The day that a JSON value holds, if it holds one: the day that its
/// text names.
pub open spec fn decode_date(value: JsonScalar) -> Option<(int, int, int)> {
    match value {
        JsonScalar::String(text) => parse_date(text@),
        _ => None,
    }
}

/// A GraphQL Date value: a day that exists. Its view is the year, the
/// number of the month and the day of the month.
#[derive(Debug, Clone, Copy, PartialEq, Eq, Structural, Ord)]
pub struct Date {
    year: i32,
    month: u8,
    day: u8,
}

impl View for Date {
    type V = (int, int, int);

    closed spec fn view(&self) -> (int, int, int) {
        (self.year as int, self.month as int, self.day as int)
    }
}

impl Date {
    #[verifier::type_invariant]
    spec fn is_real(&self) -> bool {
        is_calendar_date(self.year as int, self.month as int, self.day as int)
    }

    /// The day `day` of `month` in `year`, if there is such a day.
    pub fn from_calendar_date(year: i32, month: Month, day: u8) -> (r: Result<Date, Error>)
        ensures
            match r {
                Ok(date) => is_calendar_date(year as int, month.spec_number(), day as int)
                    && date@ == (year as int, month.spec_number(), day as int),
                Err(Error::InvalidInputError(text)) => !is_calendar_date(
                    year as int,
                    month.spec_number(),
                    day as int,
                ) && text@ == "date"@,
                Err(_) => false,
            },
    {
        let number = month.number();
        if date_exists(year, number, day) {
            Ok(Date { year, month: number, day })
        } else {
            Err(Error::InvalidInputError("date".to_owned()))
        }
    }

    /// The day with the given year, number of the month and day of the
    /// month, which is known to exist.
    pub(crate) fn from_parts(year: i32, month: u8, day: u8) -> (r: Date)
        requires
            is_calendar_date(year as int, month as int, day as int),
        ensures
            r@ == (year as int, month as int, day as int),
    {
        Date { year, month, day }
    }

    /// The year, the month and the day of the month. They name a day
    /// that exists.
    pub fn to_calendar_date(&self) -> (r: (i32, Month, u8))
        ensures
            (r.0 as int, r.1.spec_number(), r.2 as int) == self@,
            is_calendar_date(self@.0, self@.1, self@.2),
    {
        proof {
            use_type_invariant(self);
        }
        (self.year, self.month(), self.day)
    }

    pub fn year(&self) -> (r: i32)
        ensures
            r == self@.0,
            -9999 <= r <= 9999,
    {
        proof {
            use_type_invariant(self);
        }
        self.year
    }

    pub fn month(&self) -> (r: Month)
        ensures
            r.spec_number() == self@.1,
    {
        proof {
            use_type_invariant(self);
        }
        match Month::from_number(self.month) {
            Some(month) => month,
            None => Month::January,
        }
    }

    pub fn day(&self) -> (r: u8)
        ensures
            r == self@.2,
            1 <= r <= 31,
    {
        proof {
            use_type_invariant(self);
        }
        self.day
    }

    /// Reads a day written as `YYYY-MM-DD`; any other text is refused and
    /// handed back in the error.
    pub fn from_str(s: &str) -> (r: Result<Date, Error>)
        ensures
            match r {
                Ok(date) => parse_date(s@) == Some(date@),
                Err(Error::InvalidInputError(text)) => parse_date(s@) is None && text@ == s@,
                Err(_) => false,
            },
    {
        let chars = chars_of(s);
        if chars.len() != 10 {
            return Err(Error::InvalidInputError(s.to_owned()));
        }
        if chars[4] != '-' || chars[7] != '-' {
            return Err(Error::InvalidInputError(s.to_owned()));
        }
        let year = read_digits(&chars, 0, 4, 9999);
        let month = read_digits(&chars, 5, 7, 99);
        let day = read_digits(&chars, 8, 10, 99);
        proof {
            reveal_with_fuel(pow10, 5);
            if all_digits(s@.subrange(0, 4)) {
                lemma_digits_are_padded_text(s@.subrange(0, 4));
            }
            if all_digits(s@.subrange(5, 7)) {
                lemma_digits_are_padded_text(s@.subrange(5, 7));
            }
            if all_digits(s@.subrange(8, 10)) {
                lemma_digits_are_padded_text(s@.subrange(8, 10));
            }
        }
        match (year, month, day) {
            (Some(y), Some(m), Some(d)) => {
                if date_exists(y as i32, m as u8, d as u8) {
                    Ok(Date { year: y as i32, month: m as u8, day: d as u8 })
                } else {
                    Err(Error::InvalidInputError(s.to_owned()))
                }
            },
            _ => Err(Error::InvalidInputError(s.to_owned())),
        }
    }

    /// Decodes a JSON value: a string that names a day as `YYYY-MM-DD` is
    /// taken, and everything else is refused.
    pub fn from_json(value: &JsonScalar) -> (r: Result<Date, Error>)
        ensures
            match r {
                Ok(date) => decode_date(*value) == Some(date@),
                Err(Error::DecodeError(text)) => decode_date(*value) is None && text@
                    == "a date value YYYY-MM-DD"@,
                Err(_) => false,
            },
    {
        if let JsonScalar::String(text) = value {
            if let Ok(date) = Date::from_str(text.as_str()) {
                return Ok(date);
            }
        }
        Err(Error::DecodeError("a date value YYYY-MM-DD".to_owned()))
    }

    /// Encodes the day as a JSON string, and fails where `YYYY-MM-DD`
    /// cannot write it: for a day of a year before 0.
    pub fn to_json(&self) -> (r: Result<JsonScalar, Error>)
        ensures
            match r {
                Ok(JsonScalar::String(text)) => self@.0 >= 0 && text@ == date_text(
                    self@.0,
                    self@.1,
                    self@.2,
                ),
                Ok(_) => false,
                Err(Error::SerializationError(text)) => self@.0 < 0 && text@
                    == "Can't format Date"@,
                Err(_) => false,
            },
    {
        match self.to_string() {
            Some(text) => Ok(JsonScalar::String(text)),
            None => Err(Error::SerializationError("Can't format Date".to_owned())),
        }
    }

    /// Writes the day as `YYYY-MM-DD`, if that form can write it: it has
    /// no years before 0.
    pub fn to_string(&self) -> (r: Option<String>)
        ensures
            match r {
                Some(text) => self@.0 >= 0 && text@ == date_text(self@.0, self@.1, self@.2),
                None => self@.0 < 0,
            },
    {
        proof {
            use_type_invariant(self);
        }
        if self.year < 0 {
            return None;
        }
        let mut r = String::new();
        append_padded(&mut r, self.year as u32, 4);
        r.append(numeral_str('-'));
        append_padded(&mut r, self.month as u32, 2);
        r.append(numeral_str('-'));
        append_padded(&mut r, self.day as u32, 2);
        assert(r@ =~= date_text(self@.0, self@.1, self@.2));
        Some(r)
    }
}

/// How two days stand to each other in time, each given as year, month
/// and day.
pub open spec fn date_order(a: (int, int, int), b: (int, int, int)) -> Ordering {
    if a.0 < b.0 || (a.0 == b.0 && (a.1 < b.1 || (a.1 == b.1 && a.2 < b.2))) {
        Ordering::Less
    } else if a == b {
        Ordering::Equal
    } else {
        Ordering::Greater
    }
}

impl PartialOrd for Date {
    /// The earlier day is the lesser one.
    fn partial_cmp(&self, other: &Date) -> (r: Option<Ordering>) {
        if self.year < other.year {
            Some(Ordering::Less)
        } else if self.year > other.year {
            Some(Ordering::Greater)
        } else if self.month < other.month {
            Some(Ordering::Less)
        } else if self.month > other.month {
            Some(Ordering::Greater)
        } else if self.day < other.day {
            Some(Ordering::Less)
        } else if self.day > other.day {
            Some(Ordering::Greater)
        } else {
            Some(Ordering::Equal)
        }
    }
}

impl PartialOrdSpecImpl for Date {
    open spec fn obeys_partial_cmp_spec() -> bool {
        true
    }

    open spec fn partial_cmp_spec(&self, other: &Date) -> Option<Ordering> {
        Some(date_order(self@, other@))
    }
}

/// Reading what was written gives the day back, for every day that can be
/// written, and writing the day that a text was read as gives the text
/// back, for every text that is read.
pub proof fn lemma_date_round_trip(year: int, month: int, day: int, text: Seq<char>)
    ensures
        is_calendar_date(year, month, day) && year >= 0 ==> parse_date(
            date_text(year, month, day),
        ) == Some((year, month, day)),
        parse_date(text) matches Some(read) ==> read.0 >= 0 && date_text(read.0, read.1, read.2)
            == text,
{
    reveal_with_fuel(pow10, 5);
    if is_calendar_date(year, month, day) && year >= 0 {
        let y = padded_text(year as nat, 4);
        let m = padded_text(month as nat, 2);
        let d = padded_text(day as nat, 2);
        lemma_padded_text(year as nat, 4);
        lemma_padded_text(month as nat, 2);
        lemma_padded_text(day as nat, 2);
        let written = date_text(year, month, day);
        assert(written.subrange(0, 4) =~= y);
        assert(written.subrange(5, 7) =~= m);
        assert(written.subrange(8, 10) =~= d);
        assert(written[4] == '-' && written[7] == '-');
    }
    if parse_date(text) is Some {
        lemma_digits_are_padded_text(text.subrange(0, 4));
        lemma_digits_are_padded_text(text.subrange(5, 7));
        lemma_digits_are_padded_text(text.subrange(8, 10));
        assert(text =~= text.subrange(0, 4) + seq!['-'] + text.subrange(5, 7) + seq!['-']
            + text.subrange(8, 10));
    }
}

} // verus!
