//! What the service answers: a body with headers, or one of two failures.

use crate::date::{date_read, Date};
use crate::number::{number_text, number_to_text};
use crate::text::copy_of;
use vstd::prelude::*;

verus! {

/// The format of a day in a request.
pub const DATE_FORMAT: &'static str = "%Y-%m-%d";

/// A day as a request gives it, `2023-06-03`.
#[derive(Debug, Clone, Copy, PartialEq, Eq, Structural)]
pub struct RequestNaiveDate(pub Date);

/// Text that was given for a day and is none.
#[derive(Debug, Clone, Copy, PartialEq, Eq, Structural)]
pub struct InvalidDate;

impl RequestNaiveDate {
    /// Reads a day from a parameter of a request. The day that comes out
    /// exists.
    pub fn from_param(param: &str) -> (r: Result<RequestNaiveDate, InvalidDate>)
        ensures
            match r {
                Ok(found) => date_read(param@, DATE_FORMAT@) == Some(found.0) && found.0.is_valid(),
                Err(_) => date_read(param@, DATE_FORMAT@) is None,
            },
    {
        match Date::read(param, DATE_FORMAT) {
            Some(date) => Ok(RequestNaiveDate(date)),
            None => Err(InvalidDate),
        }
    }
}

/// An answer of the service.
#[derive(Debug, Clone)]
pub enum ApiResponse {
    Success { body: String, headers: Vec<(String, String)> },
    InternalError(String),
    NotFound(String),
}

/// An `ApiResponse` as contracts see it.
pub enum ResponseView {
    Success { body: Seq<char>, headers: Seq<(Seq<char>, Seq<char>)> },
    InternalError(Seq<char>),
    NotFound(Seq<char>),
}

impl DeepView for ApiResponse {
    type V = ResponseView;

    open spec fn deep_view(&self) -> ResponseView {
        match *self {
            ApiResponse::Success { body, headers } => ResponseView::Success {
                body: body@,
                headers: headers.deep_view(),
            },
            ApiResponse::InternalError(message) => ResponseView::InternalError(message@),
            ApiResponse::NotFound(message) => ResponseView::NotFound(message@),
        }
    }
}

/// A successful answer with the given body and no headers.
pub open spec fn ok_response(body: Seq<char>) -> ResponseView {
    ResponseView::Success { body, headers: Seq::empty() }
}

/// `response` with one more header. Only a successful answer carries
/// headers: a failure stays as it is.
pub open spec fn with_header(response: ResponseView, name: Seq<char>, value: Seq<char>) -> ResponseView {
    match response {
        ResponseView::Success { body, headers } => ResponseView::Success {
            body,
            headers: headers.push((name, value)),
        },
        other => other,
    }
}

/// `response` marked as freshly made.
pub open spec fn marked_fresh(response: ResponseView) -> ResponseView {
    with_header(response, "X-Cached"@, "false"@)
}

/// `response` marked as served from the cache at the age of `age` seconds.
pub open spec fn marked_cached(response: ResponseView, age: u64) -> ResponseView {
    with_header(
        with_header(response, "X-Cached"@, "true"@),
        "X-Cached-Age"@,
        number_text(age as nat),
    )
}

/// The HTTP status of an answer.
pub open spec fn status_of(response: ResponseView) -> u16 {
    match response {
        ResponseView::Success { .. } => 200,
        ResponseView::InternalError(_) => 500,
        ResponseView::NotFound(_) => 404,
    }
}

impl ApiResponse {
    /// A successful answer with the given body.
    pub fn new_ok_from_string(data: String) -> (r: Self)
        ensures
            r.deep_view() == ok_response(data@),
    {
        let headers: Vec<(String, String)> = Vec::new();
        assert(headers.deep_view() =~= Seq::<(Seq<char>, Seq<char>)>::empty());
        ApiResponse::Success { body: data, headers }
    }

    /// Adds a header to a successful answer; a failure is returned as it is.
    pub fn add_header(self, k: &str, v: &str) -> (r: Self)
        ensures
            r.deep_view() == with_header(self.deep_view(), k@, v@),
    {
        match self {
            ApiResponse::Success { body, headers } => {
                let mut headers = headers;
                let ghost before = headers.deep_view();
                headers.push((copy_of(k), copy_of(v)));
                assert(headers.deep_view() =~= before.push((k@, v@)));
                ApiResponse::Success { body, headers }
            },
            other => other,
        }
    }

    /// The failure "internal error" with a message.
    pub fn new_internal_error(error: &str) -> (r: Self)
        ensures
            r.deep_view() == ResponseView::InternalError(error@),
    {
        ApiResponse::InternalError(copy_of(error))
    }

    /// The failure "not found" with a message.
    pub fn new_not_found(error: &str) -> (r: Self)
        ensures
            r.deep_view() == ResponseView::NotFound(error@),
    {
        ApiResponse::NotFound(copy_of(error))
    }

    /// Marks the answer as freshly made.
    pub fn nocache(self) -> (r: Self)
        ensures
            r.deep_view() == marked_fresh(self.deep_view()),
    {
        self.add_header("X-Cached", "false")
    }

    /// Marks the answer as served from the cache, `age` seconds after it was
    /// stored.
    pub fn cached(self, age: u64) -> (r: Self)
        ensures
            r.deep_view() == marked_cached(self.deep_view(), age),
    {
        let seconds = number_to_text(age);
        self.add_header("X-Cached", "true").add_header("X-Cached-Age", seconds.as_str())
    }

    /// The HTTP status of the answer.
    pub fn status_code(&self) -> (r: u16)
        ensures
            r == status_of(self.deep_view()),
    {
        match self {
            ApiResponse::Success { .. } => 200,
            ApiResponse::InternalError(_) => 500,
            ApiResponse::NotFound(_) => 404,
        }
    }
}

} // verus!
