//! The 32-bit integer scalar.

use vstd::prelude::*;
use vstd::string::*;
use std::cmp::Ordering;
use std::ops::{Add, AddAssign, Deref, Div, Mul, Sub};
use vstd::std_specs::cmp::PartialOrdSpecImpl;
use vstd::std_specs::ops::{AddSpecImpl, DivSpecImpl, MulSpecImpl, SubSpecImpl};
use crate::error::Error;
use crate::json::JsonScalar;
use crate::text::{
    append_integer, append_numerals, chars_of, integer_text, is_canonical_integer,
    lemma_integer_round_trip, lemma_integer_text_numerals, parse_integer, read_digits, zeros,
};

verus! {

/// The 32-bit integer that `s` writes, if it writes one.
pub open spec fn parse_i32(s: Seq<char>) -> Option<i32> {
    match parse_integer(s) {
        Some(n) => if i32::MIN <= n <= i32::MAX {
            Some(n as i32)
        } else {
            None
        },
        None => None,
    }
}

/// `text` with a decimal point before its last `decimals` characters, and
/// behind `0.` and as many zeros as it lacks where it has no more than
/// `decimals` characters.
pub open spec fn decimal_text(text: Seq<char>, decimals: nat) -> Seq<char> {
    if text.len() <= decimals {
        seq!['0', '.'] + zeros((decimals - text.len()) as nat) + text
    } else {
        text.subrange(0, text.len() - decimals) + seq!['.'] + text.subrange(
            text.len() - decimals,
            text.len() as int,
        )
    }
}

/// The 32-bit integer that a JSON value holds, if it holds one.
pub open spec fn decode_i32(value: JsonScalar) -> Option<i32> {
    match value {
        JsonScalar::Unsigned(n) => if n <= i32::MAX {
            Some(n as i32)
        } else {
            None
        },
        JsonScalar::Signed(n) => if i32::MIN <= n <= i32::MAX {
            Some(n as i32)
        } else {
            None
        },
        _ => None,
    }
}

/// The JSON value of a 32-bit integer.
pub open spec fn encode_i32(value: i32) -> JsonScalar {
    if value >= 0 {
        JsonScalar::Unsigned(value as u64)
    } else {
        JsonScalar::Signed(value as i64)
    }
}

/// A GraphQL Int value.
#[derive(Debug, Clone, Copy, PartialEq, Eq, Structural)]
pub struct Int(pub i32);

impl Int {
    pub fn new(s: i32) -> (r: Int)
        ensures
            r.0 == s,
    {
        Int(s)
    }

    /// The value as a decimal fraction with `decimals` digits behind the
    /// point: the text of the value, sign included, with the point before
    /// its last `decimals` characters.
    pub fn as_decimal(&self, decimals: usize) -> (r: String)
        ensures
            r@ == decimal_text(integer_text(self.0 as int), decimals as nat),
    {
        let text = self.to_string();
        let chars = chars_of(text.as_str());
        let l = chars.len();
        proof {
            lemma_integer_text_numerals(self.0 as int);
        }
        let mut r = String::new();
        if l <= decimals {
            proof {
                reveal_strlit("0.");
                reveal_strlit("0");
            }
            r.append("0.");
            let mut i: usize = l;
            assert(r@ =~= seq!['0', '.'] + zeros((i - l) as nat));
            while i < decimals
                invariant
                    l <= i <= decimals,
                    r@ == seq!['0', '.'] + zeros((i - l) as nat),
                decreases decimals - i,
            {
                proof {
                    reveal_strlit("0");
                }
                r.append("0");
                i = i + 1;
                assert(zeros((i - l) as nat) =~= zeros((i - 1 - l) as nat).push('0'));
                assert(r@ =~= seq!['0', '.'] + zeros((i - l) as nat));
            }
            append_numerals(&mut r, &chars, 0, l);
            assert(chars@.subrange(0, l as int) =~= chars@);
        } else {
            proof {
                reveal_strlit(".");
            }
            append_numerals(&mut r, &chars, 0, l - decimals);
            r.append(".");
            append_numerals(&mut r, &chars, l - decimals, l);
            assert(r@ =~= decimal_text(chars@, decimals as nat));
        }
        r
    }

    /// Reads an integer: digits behind at most one sign. A text that
    /// writes no integer, or one that 32 bits cannot hold, is refused and
    /// handed back in the error.
    pub fn from_str(s: &str) -> (r: Result<Int, Error>)
        ensures
            match r {
                Ok(value) => parse_i32(s@) == Some(value.0),
                Err(Error::InvalidInputError(text)) => parse_i32(s@) is None && text@ == s@,
                Err(_) => false,
            },
    {
        let chars = chars_of(s);
        let l = chars.len();
        if l == 0 {
            return Err(Error::InvalidInputError(s.to_owned()));
        }
        let first = chars[0];
        let signed = first == '-' || first == '+';
        let start: usize = if signed {
            1
        } else {
            0
        };
        if start == l {
            return Err(Error::InvalidInputError(s.to_owned()));
        }
        let limit: u64 = if first == '-' {
            2147483648
        } else {
            2147483647
        };
        proof {
            if signed {
                assert(chars@.subrange(1, l as int) =~= s@.skip(1));
            } else {
                assert(chars@.subrange(0, l as int) =~= s@);
            }
        }
        match read_digits(&chars, start, l, limit) {
            Some(n) => {
                if first == '-' {
                    Ok(Int((-(n as i64)) as i32))
                } else {
                    Ok(Int(n as i32))
                }
            },
            None => Err(Error::InvalidInputError(s.to_owned())),
        }
    }

    /// Writes the integer: its digits, behind a minus sign where it is
    /// negative.
    pub fn to_string(&self) -> (r: String)
        ensures
            r@ == integer_text(self.0 as int),
    {
        let mut r = String::new();
        append_integer(&mut r, self.0 as i64);
        r
    }

    /// Decodes a JSON value: an integer that 32 bits can hold is taken,
    /// and everything else is refused, a greater integer as much as a value
    /// of another kind.
    pub fn from_json(value: &JsonScalar) -> (r: Result<Int, Error>)
        ensures
            match r {
                Ok(decoded) => decode_i32(*value) == Some(decoded.0),
                Err(Error::DecodeError(text)) => decode_i32(*value) is None && text@
                    == "an i32 value"@,
                Err(_) => false,
            },
    {
        match value {
            JsonScalar::Unsigned(n) => {
                if *n <= 2147483647 {
                    return Ok(Int(*n as i32));
                }
            },
            JsonScalar::Signed(n) => {
                if -2147483648 <= *n && *n <= 2147483647 {
                    return Ok(Int(*n as i32));
                }
            },
            _ => {},
        }
        Err(Error::DecodeError("an i32 value".to_owned()))
    }

    /// Encodes the integer as a JSON value.
    pub fn to_json(&self) -> (r: JsonScalar)
        ensures
            r == encode_i32(self.0),
    {
        if self.0 >= 0 {
            JsonScalar::Unsigned(self.0 as u64)
        } else {
            JsonScalar::Signed(self.0 as i64)
        }
    }
}

/// The quotient of `a` by `b`, rounded towards zero.
pub open spec fn quotient(a: int, b: int) -> int {
    let magnitude = (if a < 0 {
        -a
    } else {
        a
    }) / (if b < 0 {
        -b
    } else {
        b
    });
    if (a < 0) != (b < 0) {
        -magnitude
    } else {
        magnitude
    }
}

impl Deref for Int {
    type Target = i32;

    fn deref(&self) -> (r: &i32)
        ensures
            *r == self.0,
    {
        &self.0
    }
}

impl PartialOrd for Int {
    fn partial_cmp(&self, other: &Int) -> (r: Option<Ordering>) {
        if self.0 < other.0 {
            Some(Ordering::Less)
        } else if self.0 > other.0 {
            Some(Ordering::Greater)
        } else {
            Some(Ordering::Equal)
        }
    }
}

impl PartialOrdSpecImpl for Int {
    open spec fn obeys_partial_cmp_spec() -> bool {
        true
    }

    open spec fn partial_cmp_spec(&self, other: &Int) -> Option<Ordering> {
        if self.0 < other.0 {
            Some(Ordering::Less)
        } else if self.0 > other.0 {
            Some(Ordering::Greater)
        } else {
            Some(Ordering::Equal)
        }
    }
}

impl Add for Int {
    type Output = Int;

    fn add(self, rhs: Int) -> (r: Int) {
        Int(self.0 + rhs.0)
    }
}

impl AddSpecImpl for Int {
    open spec fn obeys_add_spec() -> bool {
        true
    }

    open spec fn add_req(self, rhs: Int) -> bool {
        i32::MIN <= self.0 + rhs.0 <= i32::MAX
    }

    open spec fn add_spec(self, rhs: Int) -> Int {
        Int((self.0 + rhs.0) as i32)
    }
}

impl Sub for Int {
    type Output = Int;

    fn sub(self, rhs: Int) -> (r: Int) {
        Int(self.0 - rhs.0)
    }
}

impl SubSpecImpl for Int {
    open spec fn obeys_sub_spec() -> bool {
        true
    }

    open spec fn sub_req(self, rhs: Int) -> bool {
        i32::MIN <= self.0 - rhs.0 <= i32::MAX
    }

    open spec fn sub_spec(self, rhs: Int) -> Int {
        Int((self.0 - rhs.0) as i32)
    }
}

impl Mul for Int {
    type Output = Int;

    fn mul(self, rhs: Int) -> (r: Int) {
        Int(self.0 * rhs.0)
    }
}

impl MulSpecImpl for Int {
    open spec fn obeys_mul_spec() -> bool {
        true
    }

    open spec fn mul_req(self, rhs: Int) -> bool {
        i32::MIN <= self.0 * rhs.0 <= i32::MAX
    }

    open spec fn mul_spec(self, rhs: Int) -> Int {
        Int((self.0 * rhs.0) as i32)
    }
}

impl Div for Int {
    type Output = Int;

    /// The quotient, rounded towards zero.
    fn div(self, rhs: Int) -> (r: Int) {
        let a: i64 = self.0 as i64;
        let b: i64 = rhs.0 as i64;
        let magnitude: i64 = (if a < 0 {
            -a
        } else {
            a
        }) / (if b < 0 {
            -b
        } else {
            b
        });
        if (a < 0) != (b < 0) {
            Int((-magnitude) as i32)
        } else {
            Int(magnitude as i32)
        }
    }
}

impl DivSpecImpl for Int {
    open spec fn obeys_div_spec() -> bool {
        true
    }

    open spec fn div_req(self, rhs: Int) -> bool {
        rhs.0 != 0 && !(self.0 == i32::MIN && rhs.0 == -1)
    }

    open spec fn div_spec(self, rhs: Int) -> Int {
        Int(quotient(self.0 as int, rhs.0 as int) as i32)
    }
}

impl AddAssign for Int {
    fn add_assign(&mut self, rhs: Int)
        requires
            i32::MIN <= old(self).0 + rhs.0 <= i32::MAX,
        ensures
            final(self).0 == old(self).0 + rhs.0,
    {
        self.0 = self.0 + rhs.0;
    }
}

/// Reading what was written gives the integer back, as text and as JSON,
/// and writing the integer that a canonical text was read as gives the
/// text back.
pub proof fn lemma_int_round_trip(value: i32, text: Seq<char>)
    ensures
        parse_i32(integer_text(value as int)) == Some(value),
        decode_i32(encode_i32(value)) == Some(value),
        is_canonical_integer(text) ==> (parse_i32(text) matches Some(read) ==> integer_text(
            read as int,
        ) == text),
{
    lemma_integer_round_trip(value as int, text);
}

} // verus!
