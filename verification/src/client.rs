//! Configuration of a client, and the decisions of one call: the document
//! it sends, and what it makes of the answer.
//!
//! The exchange itself is not done here. A caller sends the document and
//! the variables, and asks after each step what the outcome means: first
//! [`check_status`] with the status, then, with what decoding the body
//! gave, [`response_data`] or [`response_result`].

use vstd::prelude::*;
use vstd::string::*;
use crate::error::{Error, GraphQLJsonError};
use crate::json::ValueMap;
use crate::traits::{rendered, selection_set, GraphQLQueryParams, GraphQLType};

verus! {

/// Collects what a client needs before it can be built: the endpoint.
#[derive(Debug)]
pub struct ClientBuilder {
    url: Option<String>,
}

impl ClientBuilder {
    /// The endpoint chosen so far.
    pub closed spec fn endpoint(&self) -> Option<String> {
        self.url
    }

    pub fn new() -> (r: ClientBuilder)
        ensures
            r.endpoint() is None,
    {
        ClientBuilder { url: None }
    }

    /// Chooses `url`, whatever was chosen before.
    pub fn with_url(self, url: String) -> (r: Result<ClientBuilder, Error>)
        ensures
            r matches Ok(b) && b.endpoint() == Some(url),
    {
        let mut this = self;
        this.url = Some(url);
        Ok(this)
    }

    /// Chooses `url` unless an endpoint was chosen before.
    pub fn with_url_if_not_set(self, url: String) -> (r: Result<ClientBuilder, Error>)
        ensures
            r matches Ok(b) && b.endpoint() == (if self.endpoint() is None {
                Some(url)
            } else {
                self.endpoint()
            }),
    {
        let mut this = self;
        if this.url.is_none() {
            this.url = Some(url);
        }
        Ok(this)
    }

    /// Hands out the endpoint, if one was chosen.
    pub fn into_url(self) -> (r: Option<String>)
        ensures
            r == self.endpoint(),
    {
        self.url
    }
}

/// The document of one query: the operation with its declarations, and in
/// its braces the query with its bindings and its selection.
pub open spec fn document_text(
    operation_name: Seq<char>,
    formal: Seq<char>,
    query_name: Seq<char>,
    actual: Seq<char>,
    selection: Seq<char>,
) -> Seq<char> {
    seq!['q', 'u', 'e', 'r', 'y', ' '] + operation_name + formal + seq![' ', '{', ' '] + query_name
        + actual + selection + seq![' ', '}']
}

/// Renders the document that asks for the query `query_name` with the
/// parameters `params` and selects the shape of `T`, as the operation
/// `operation_name`.
pub fn query_document<T: GraphQLType<Q>, Q: GraphQLQueryParams>(
    operation_name: &str,
    query_name: &str,
    params: &Q,
) -> (r: String)
    ensures
        r@ == document_text(
            operation_name@,
            rendered(params.formal_params(Seq::empty())),
            query_name@,
            rendered(params.actual_params(Seq::empty())),
            selection_set(T::query_attributes(params, Seq::empty())),
        ),
{
    proof {
        reveal_strlit("");
        reveal_strlit("query ");
        reveal_strlit(" { ");
        reveal_strlit(" }");
        assert(""@ =~= Seq::<char>::empty());
    }
    let formal = params.get_formal();
    let actual = params.get_actual("");
    let selection = T::get_query_part(params, "");
    let mut r = "query ".to_owned();
    r.append(operation_name);
    r.append(formal.as_str());
    r.append(" { ");
    r.append(query_name);
    r.append(actual.as_str());
    r.append(selection.as_str());
    r.append(" }");
    assert(r@ =~= document_text(operation_name@, formal@, query_name@, actual@, selection@));
    r
}

/// Whether a status reports success: the statuses from 200 to 299 do.
pub open spec fn is_success(status: u16) -> bool {
    200 <= status <= 299
}

/// What the status of an answer means for the call: it goes on after a
/// success and fails with the status otherwise. The body plays no part.
pub fn check_status(status: u16) -> (r: Result<(), Error>)
    ensures
        r == (if is_success(status) {
            Ok::<(), Error>(())
        } else {
            Err::<(), Error>(Error::HttpError(status))
        }),
{
    if 200 <= status && status <= 299 {
        Ok(())
    } else {
        Err(Error::HttpError(status))
    }
}

/// The answer of a server as its body holds it: the errors it reports, if
/// it reports any, and its data by query name.
#[derive(Debug)]
pub struct GraphQLResponse {
    pub errors: Option<Vec<GraphQLJsonError>>,
    pub data: ValueMap,
}

impl GraphQLResponse {
    /// Whether the answer reports at least one error.
    pub open spec fn has_errors(&self) -> bool {
        self.errors matches Some(list) && list@.len() > 0
    }
}

/// The text with which a call fails whose answer lacks `query_name`.
pub open spec fn missing_response_text(query_name: Seq<char>) -> Seq<char> {
    seq![
        'n', 'o', ' ', 'r', 'e', 's', 'p', 'o', 'n', 's', 'e', ' ', 'f', 'o', 'u', 'n', 'd', ' ',
        'f', 'o', 'r', ' ',
    ] + query_name
}

/// What a call that asked for raw data returns. `decoded` is what decoding
/// the body gave: the answer, or the reason why the body is no answer. An
/// answer that reports errors fails with them, whatever data it holds
/// beside them.
pub fn response_data(decoded: Result<GraphQLResponse, String>) -> (r: Result<ValueMap, Error>)
    ensures
        match decoded {
            Err(reason) => r == Err::<ValueMap, Error>(Error::DecodeError(reason)),
            Ok(response) => if response.has_errors() {
                r == Err::<ValueMap, Error>(Error::GraphQLError(response.errors.unwrap()))
            } else {
                r == Ok::<ValueMap, Error>(response.data)
            },
        },
{
    match decoded {
        Err(reason) => Err(Error::DecodeError(reason)),
        Ok(response) => {
            let GraphQLResponse { errors, data } = response;
            match errors {
                Some(list) => {
                    if list.len() > 0 {
                        Err(Error::GraphQLError(list))
                    } else {
                        Ok(data)
                    }
                },
                None => Ok(data),
            }
        },
    }
}

/// What a call that asked for the query `query_name` returns, before its
/// value is decoded into the type of the result. `decoded` is what
/// decoding the body gave. An answer that reports errors fails with them;
/// one that reports none and lacks `query_name` fails and says so.
pub fn response_result(decoded: Result<GraphQLResponse, String>, query_name: &str) -> (r: Result<
    serde_json::Value,
    Error,
>)
    requires
        decoded matches Ok(response) ==> response.data.wf(),
    ensures
        match decoded {
            Err(reason) => r == Err::<serde_json::Value, Error>(Error::DecodeError(reason)),
            Ok(response) => if response.has_errors() {
                r == Err::<serde_json::Value, Error>(
                    Error::GraphQLError(response.errors.unwrap()),
                )
            } else if response.data@.contains_key(query_name@) {
                r == Ok::<serde_json::Value, Error>(response.data@[query_name@])
            } else {
                r matches Err(Error::InternalError(text)) && text@ == missing_response_text(
                    query_name@,
                )
            },
        },
{
    match response_data(decoded) {
        Err(e) => Err(e),
        Ok(data) => {
            let mut data = data;
            match data.remove(query_name) {
                Some(value) => Ok(value),
                None => {
                    proof {
                        reveal_strlit("no response found for ");
                    }
                    let mut text = "no response found for ".to_owned();
                    text.append(query_name);
                    assert(text@ =~= missing_response_text(query_name@));
                    Err(Error::InternalError(text))
                },
            }
        },
    }
}

} // verus!
