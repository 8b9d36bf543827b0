//! The framework's problem-details error.

use crate::status::StatusCode;
use vstd::prelude::*;

verus! {

/// Problem-details compatible framework error.
#[derive(Debug)]
pub struct ApiError {
    pub status: StatusCode,
    pub title: String,
    pub detail: String,
    pub missing: bool,
}

/// What an [`ApiError`] says.
pub struct Problem {
    pub status: u16,
    pub title: Seq<char>,
    pub detail: Seq<char>,
    pub missing: bool,
}

impl View for ApiError {
    type V = Problem;

    open spec fn view(&self) -> Problem {
        Problem {
            status: self.status@,
            title: self.title@,
            detail: self.detail@,
            missing: self.missing,
        }
    }
}

/// The problem of a malformed request.
pub open spec fn bad_request_problem(detail: Seq<char>) -> Problem {
    Problem { status: 400, title: "Bad Request"@, detail, missing: false }
}

/// The problem of an absent input.
pub open spec fn missing_problem(detail: Seq<char>) -> Problem {
    Problem { status: 400, title: "Bad Request"@, detail, missing: true }
}

impl Clone for ApiError {
    fn clone(&self) -> (r: Self)
        ensures
            r@ == self@,
    {
        ApiError {
            status: self.status,
            title: self.title.clone(),
            detail: self.detail.clone(),
            missing: self.missing,
        }
    }
}

impl ApiError {
    /// An error with the given status, title and detail.
    pub fn new(status: StatusCode, title: &str, detail: &str) -> (r: Self)
        ensures
            r@ == (Problem { status: status@, title: title@, detail: detail@, missing: false }),
            r.status == status,
    {
        ApiError { status, title: title.to_owned(), detail: detail.to_owned(), missing: false }
    }

    /// A `400 Bad Request` error.
    pub fn bad_request(detail: &str) -> (r: Self)
        ensures
            r@ == bad_request_problem(detail@),
    {
        Self::new(StatusCode::bad_request(), "Bad Request", detail)
    }

    /// A missing-input error that optional extractors turn into `None`. Custom
    /// extractors use it only when the input is absent; malformed present input
    /// is a [`ApiError::bad_request`].
    pub fn missing(detail: &str) -> (r: Self)
        ensures
            r@ == missing_problem(detail@),
    {
        let mut error = Self::bad_request(detail);
        error.missing = true;
        error
    }

    /// Whether the error reports an absent input.
    pub fn is_missing(&self) -> (r: bool)
        ensures
            r == self@.missing,
    {
        self.missing
    }
}

} // verus!
