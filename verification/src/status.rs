//! HTTP status codes.

use vstd::prelude::*;

verus! {

/// A three-digit HTTP status code.
#[derive(Clone, Copy, Debug, PartialEq, Eq, Structural)]
pub struct StatusCode {
    code: u16,
}

impl View for StatusCode {
    type V = u16;

    closed spec fn view(&self) -> u16 {
        self.code
    }
}

impl StatusCode {
    #[verifier::type_invariant]
    spec fn three_digits(self) -> bool {
        100 <= self.code < 1000
    }

    /// The status with the given code, when the code has three digits.
    pub fn from_u16(code: u16) -> (r: Option<StatusCode>)
        ensures
            match r {
                Some(status) => status@ == code && 100 <= code < 1000,
                None => code < 100 || code >= 1000,
            },
    {
        if code < 100 || code >= 1000 {
            None
        } else {
            Some(StatusCode { code })
        }
    }

    /// The code as a number.
    pub fn as_u16(&self) -> (r: u16)
        ensures
            r == self@,
            100 <= r < 1000,
    {
        proof {
            use_type_invariant(self);
        }
        self.code
    }

    /// `200 OK`.
    pub fn ok() -> (r: StatusCode)
        ensures
            r@ == 200,
    {
        StatusCode { code: 200 }
    }

    /// `201 Created`.
    pub fn created() -> (r: StatusCode)
        ensures
            r@ == 201,
    {
        StatusCode { code: 201 }
    }

    /// `204 No Content`.
    pub fn no_content() -> (r: StatusCode)
        ensures
            r@ == 204,
    {
        StatusCode { code: 204 }
    }

    /// `304 Not Modified`.
    pub fn not_modified() -> (r: StatusCode)
        ensures
            r@ == 304,
    {
        StatusCode { code: 304 }
    }

    /// `400 Bad Request`.
    pub fn bad_request() -> (r: StatusCode)
        ensures
            r@ == 400,
    {
        StatusCode { code: 400 }
    }

    /// `401 Unauthorized`.
    pub fn unauthorized() -> (r: StatusCode)
        ensures
            r@ == 401,
    {
        StatusCode { code: 401 }
    }

    /// `404 Not Found`.
    pub fn not_found() -> (r: StatusCode)
        ensures
            r@ == 404,
    {
        StatusCode { code: 404 }
    }

    /// `405 Method Not Allowed`.
    pub fn method_not_allowed() -> (r: StatusCode)
        ensures
            r@ == 405,
    {
        StatusCode { code: 405 }
    }

    /// `413 Payload Too Large`.
    pub fn payload_too_large() -> (r: StatusCode)
        ensures
            r@ == 413,
    {
        StatusCode { code: 413 }
    }

    /// `415 Unsupported Media Type`.
    pub fn unsupported_media_type() -> (r: StatusCode)
        ensures
            r@ == 415,
    {
        StatusCode { code: 415 }
    }

    /// `500 Internal Server Error`.
    pub fn internal_server_error() -> (r: StatusCode)
        ensures
            r@ == 500,
    {
        StatusCode { code: 500 }
    }

    /// `502 Bad Gateway`.
    pub fn bad_gateway() -> (r: StatusCode)
        ensures
            r@ == 502,
    {
        StatusCode { code: 502 }
    }

    /// `503 Service Unavailable`.
    pub fn service_unavailable() -> (r: StatusCode)
        ensures
            r@ == 503,
    {
        StatusCode { code: 503 }
    }
}

} // verus!
