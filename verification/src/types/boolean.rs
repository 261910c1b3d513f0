//! The boolean scalar.

use vstd::prelude::*;
use vstd::string::*;
use std::cmp::Ordering;
use std::ops::Deref;
use vstd::std_specs::cmp::PartialOrdSpecImpl;
use vstd::std_specs::convert::FromSpecImpl;
use crate::error::Error;
use crate::json::JsonScalar;
use crate::text::str_equals;

verus! {

/// The text of a boolean: `true` or `false`.
pub open spec fn boolean_text(value: bool) -> Seq<char> {
    if value {
        seq!['t', 'r', 'u', 'e']
    } else {
        seq!['f', 'a', 'l', 's', 'e']
    }
}

/// The boolean that a text stands for, if it stands for one.
pub open spec fn parse_boolean(text: Seq<char>) -> Option<bool> {
    if text == boolean_text(true) {
        Some(true)
    } else if text == boolean_text(false) {
        Some(false)
    } else {
        None
    }
}

/// The boolean that a JSON value holds, if it holds one.
pub open spec fn decode_boolean(value: JsonScalar) -> Option<bool> {
    match value {
        JsonScalar::Bool(b) => Some(b),
        _ => None,
    }
}

/// A GraphQL Boolean value.
#[derive(Debug, Clone, Copy, PartialEq, Eq, Structural)]
pub struct Boolean(pub bool);

impl Boolean {
    pub fn new(s: bool) -> (r: Boolean)
        ensures
            r.0 == s,
    {
        Boolean(s)
    }

    /// Reads `true` or `false`; any other text is refused and handed back
    /// in the error.
    pub fn from_str(s: &str) -> (r: Result<Boolean, Error>)
        ensures
            match r {
                Ok(value) => parse_boolean(s@) == Some(value.0),
                Err(Error::InvalidInputError(text)) => parse_boolean(s@) is None && text@ == s@,
                Err(_) => false,
            },
    {
        proof {
            reveal_strlit("true");
            reveal_strlit("false");
            assert("true"@ =~= boolean_text(true));
            assert("false"@ =~= boolean_text(false));
        }
        if str_equals(s, "true") {
            Ok(Boolean(true))
        } else if str_equals(s, "false") {
            Ok(Boolean(false))
        } else {
            Err(Error::InvalidInputError(s.to_owned()))
        }
    }

    /// Writes `true` or `false`.
    pub fn to_string(&self) -> (r: String)
        ensures
            r@ == boolean_text(self.0),
    {
        proof {
            reveal_strlit("true");
            reveal_strlit("false");
            assert("true"@ =~= boolean_text(true));
            assert("false"@ =~= boolean_text(false));
        }
        if self.0 {
            "true".to_owned()
        } else {
            "false".to_owned()
        }
    }

    /// Decodes a JSON value: a boolean is taken, and everything else is
    /// refused.
    pub fn from_json(value: &JsonScalar) -> (r: Result<Boolean, Error>)
        ensures
            match r {
                Ok(decoded) => decode_boolean(*value) == Some(decoded.0),
                Err(Error::DecodeError(text)) => decode_boolean(*value) is None && text@
                    == "a bool value"@,
                Err(_) => false,
            },
    {
        match value {
            JsonScalar::Bool(b) => Ok(Boolean(*b)),
            _ => Err(Error::DecodeError("a bool value".to_owned())),
        }
    }

    /// Encodes the boolean as a JSON value.
    pub fn to_json(&self) -> (r: JsonScalar)
        ensures
            r == JsonScalar::Bool(self.0),
    {
        JsonScalar::Bool(self.0)
    }
}

impl Default for Boolean {
    fn default() -> (r: Boolean)
        ensures
            r.0 == false,
    {
        Boolean(false)
    }
}

impl From<bool> for Boolean {
    fn from(value: bool) -> (r: Boolean) {
        Boolean(value)
    }
}

impl FromSpecImpl<bool> for Boolean {
    open spec fn obeys_from_spec() -> bool {
        true
    }

    open spec fn from_spec(value: bool) -> Boolean {
        Boolean(value)
    }
}

impl Deref for Boolean {
    type Target = bool;

    fn deref(&self) -> (r: &bool)
        ensures
            *r == self.0,
    {
        &self.0
    }
}

impl PartialOrd for Boolean {
    /// `false` comes before `true`.
    fn partial_cmp(&self, other: &Boolean) -> (r: Option<Ordering>) {
        if self.0 == other.0 {
            Some(Ordering::Equal)
        } else if other.0 {
            Some(Ordering::Less)
        } else {
            Some(Ordering::Greater)
        }
    }
}

impl PartialOrdSpecImpl for Boolean {
    open spec fn obeys_partial_cmp_spec() -> bool {
        true
    }

    open spec fn partial_cmp_spec(&self, other: &Boolean) -> Option<Ordering> {
        if self.0 == other.0 {
            Some(Ordering::Equal)
        } else if other.0 {
            Some(Ordering::Less)
        } else {
            Some(Ordering::Greater)
        }
    }
}

/// Reading what was written gives the value back, as text and as JSON,
/// and writing what was read gives the text back.
pub proof fn lemma_boolean_round_trip(value: bool, text: Seq<char>)
    ensures
        parse_boolean(boolean_text(value)) == Some(value),
        decode_boolean(JsonScalar::Bool(value)) == Some(value),
        parse_boolean(text) matches Some(read) ==> boolean_text(read) == text,
{
    assert(boolean_text(true)[0] != boolean_text(false)[0]);
}

} // verus!
