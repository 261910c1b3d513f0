//! The identifier scalar.

use vstd::prelude::*;
use vstd::string::*;
use std::cmp::Ordering;
use std::ops::Deref;
use vstd::std_specs::cmp::{PartialEqSpecImpl, PartialOrdSpecImpl};
use crate::error::Error;
use crate::json::JsonScalar;
use crate::text::{compare_texts, text_order};

verus! {

/// The text that a JSON value holds, if it holds one.
pub open spec fn decode_text(value: JsonScalar) -> Option<Seq<char>> {
    match value {
        JsonScalar::String(text) => Some(text@),
        _ => None,
    }
}

/// A GraphQL ID value.
#[derive(Debug)]
pub struct ID(pub String);

impl ID {
    pub fn new(s: String) -> (r: ID)
        ensures
            r.0 == s,
    {
        ID(s)
    }

    /// Every text is an identifier.
    pub fn from_str(s: &str) -> (r: Result<ID, Error>)
        ensures
            r matches Ok(id) && id.0@ == s@,
    {
        Ok(ID(s.to_owned()))
    }

    /// The identifier as text.
    pub fn to_string(&self) -> (r: String)
        ensures
            r@ == self.0@,
    {
        self.0.clone()
    }

    /// Decodes a JSON value: a string is taken, and everything else is
    /// refused.
    pub fn from_json(value: &JsonScalar) -> (r: Result<ID, Error>)
        ensures
            match r {
                Ok(id) => decode_text(*value) == Some(id.0@),
                Err(Error::DecodeError(text)) => decode_text(*value) is None && text@
                    == "a string value"@,
                Err(_) => false,
            },
    {
        match value {
            JsonScalar::String(text) => Ok(ID(text.clone())),
            _ => Err(Error::DecodeError("a string value".to_owned())),
        }
    }

    /// Encodes the identifier as a JSON string.
    pub fn to_json(&self) -> (r: JsonScalar)
        ensures
            r matches JsonScalar::String(text) && text@ == self.0@,
    {
        JsonScalar::String(self.0.clone())
    }
}

impl Deref for ID {
    type Target = String;

    fn deref(&self) -> (r: &String)
        ensures
            *r == self.0,
    {
        &self.0
    }
}

impl PartialEq for ID {
    fn eq(&self, other: &ID) -> (r: bool) {
        self.0 == other.0
    }
}

impl PartialEqSpecImpl for ID {
    open spec fn obeys_eq_spec() -> bool {
        true
    }

    open spec fn eq_spec(&self, other: &ID) -> bool {
        self.0@ == other.0@
    }
}

impl PartialOrd for ID {
    /// Identifiers are in the order of their texts in a dictionary.
    fn partial_cmp(&self, other: &ID) -> (r: Option<Ordering>) {
        let order = compare_texts(self.0.as_str(), other.0.as_str());
        if order < 0 {
            Some(Ordering::Less)
        } else if order > 0 {
            Some(Ordering::Greater)
        } else {
            Some(Ordering::Equal)
        }
    }
}

impl PartialOrdSpecImpl for ID {
    open spec fn obeys_partial_cmp_spec() -> bool {
        true
    }

    open spec fn partial_cmp_spec(&self, other: &ID) -> Option<Ordering> {
        if text_order(self.0@, other.0@) < 0 {
            Some(Ordering::Less)
        } else if text_order(self.0@, other.0@) > 0 {
            Some(Ordering::Greater)
        } else {
            Some(Ordering::Equal)
        }
    }
}

/// Reading what was written gives the identifier back, as text and as
/// JSON: every text is an identifier and is written as it is.
pub proof fn lemma_id_written_is_read(
    id: &ID,
    written: String,
    encoded: JsonScalar,
    text: &str,
    read: Result<ID, Error>,
    decoded: Result<ID, Error>,
)
    requires
        call_ensures(ID::to_string, (id,), written),
        call_ensures(ID::to_json, (id,), encoded),
        text@ == written@,
        call_ensures(ID::from_str, (text,), read),
        call_ensures(ID::from_json, (&encoded,), decoded),
    ensures
        read matches Ok(back) && back.0@ == id.0@,
        decoded matches Ok(back) && back.0@ == id.0@,
{
}

/// Writing what was read gives the text back.
pub proof fn lemma_id_read_is_written(text: &str, read: Result<ID, Error>, written: String)
    requires
        call_ensures(ID::from_str, (text,), read),
        read matches Ok(id) && call_ensures(ID::to_string, (&id,), written),
    ensures
        written@ == text@,
{
}

} // verus!
