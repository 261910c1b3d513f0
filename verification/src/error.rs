//! The errors a call can end in, and the errors a server reports.

use vstd::prelude::*;

verus! {

/// A place in the request document.
#[derive(Debug)]
pub struct Location {
    pub line: i32,
    pub column: i32,
}

/// One rejected input value and the path to it.
#[derive(Debug)]
pub struct ValidationError {
    pub message: String,
    pub input_path: Vec<String>,
}

/// What a server adds to an error of its own.
#[derive(Debug)]
pub struct Extensions {
    pub error_type: Option<String>,
    pub error_code: Option<String>,
    pub error_description: Option<String>,
    pub error_class: Option<String>,
    pub validation_errors: Option<Vec<ValidationError>>,
}

/// One error as the server reports it in the `errors` list of its answer.
#[derive(Debug)]
pub struct GraphQLJsonError {
    pub message: Option<String>,
    pub locations: Vec<Location>,
    pub path: Vec<String>,
    pub extensions: Extensions,
}

/// How a call fails. Every failure ends the call; nothing is retried.
#[derive(Debug)]
pub enum Error {
    /// The server ran the request and reported errors of its own.
    GraphQLError(Vec<GraphQLJsonError>),
    /// A value of a parameter tree could not be encoded as JSON; the text
    /// says why.
    SerializationError(String),
    /// An answer is not JSON, or not JSON of the expected shape; the text
    /// says why.
    DecodeError(String),
    /// The server answered with this status, which is not a success.
    HttpError(u16),
    /// The answer does not hold what the request asked for.
    InternalError(String),
    /// A text is not a value of the scalar type it was parsed as.
    InvalidInputError(String),
}

} // verus!
