//! A typed client core for query-composition APIs in the GraphQL style.
//!
//! A request document is derived from a tree of parameter objects: every
//! position in the tree owns a prefix, and every name declared at that
//! position is written behind that prefix, so that one parameter type can be
//! embedded at several places of one document without its variables
//! colliding.

pub mod calendar;
pub mod client;
pub mod error;
pub mod json;
pub mod text;
pub mod traits;
pub mod types;

pub use calendar::Month;
pub use client::{
    check_status, query_document, response_data, response_result, ClientBuilder, GraphQLResponse,
};
pub use error::{Error, Extensions, GraphQLJsonError, Location, ValidationError};
pub use json::{JsonScalar, ValueMap};
pub use traits::{
    GraphQL, GraphQLQuery, GraphQLQueryParams, GraphQLType, NoParams, ParamBuffer, VariableBuffer,
};
