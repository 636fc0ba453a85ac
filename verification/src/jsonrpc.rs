//! JSON-RPC-style request and response shapes: `{jsonrpc, id, method,
//! params}` in, `{jsonrpc, id, result}` or `{jsonrpc, id, error}` out. The
//! transport parses and serializes these; the shapes and the fixed error
//! codes are decided here.

use vstd::prelude::*;

verus! {

/// A request id: a number, a string, or null.
pub enum Id {
    Num(i64),
    Str(String),
    Null,
}

impl Id {
    /// Clones an id, preserving its value.
    pub fn dup(&self) -> (r: Id)
        ensures
            r == *self,
    {
        match self {
            Id::Num(n) => Id::Num(*n),
            Id::Str(s) => Id::Str(s.clone()),
            Id::Null => Id::Null,
        }
    }
}

/// The error member of an error response.
pub struct ErrorResponseError {
    pub code: i64,
    pub message: String,
}

/// A successful response envelope.
pub struct ResultResponse<R> {
    pub jsonrpc: String,
    pub id: Id,
    pub result: R,
}

/// An error response envelope.
pub struct ErrorResponse {
    pub jsonrpc: String,
    pub id: Id,
    pub error: ErrorResponseError,
}

/// A response: exactly one of result or error.
pub enum Response<R> {
    Success(ResultResponse<R>),
    Failure(ErrorResponse),
}

/// The id a response carries: the request's, or null when it had none.
pub open spec fn id_matches(out: Id, given: Option<Id>) -> bool {
    match given {
        Option::Some(i) => out == i,
        Option::None => out is Null,
    }
}

/// Clones an optional id, defaulting to null, as every response does.
pub fn id_or_null(id: &Option<Id>) -> (r: Id)
    ensures
        id_matches(r, *id),
{
    match id {
        Option::Some(i) => i.dup(),
        Option::None => Id::Null,
    }
}

} // verus!
