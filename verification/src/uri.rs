//! The paths of request URIs.

use crate::plan;
use http::Uri;
use std::str::FromStr;
use vstd::prelude::*;
use vstd::string::*;
use vstd::utf8::*;

verus! {

/// The path of a URI, where the text is one.
pub uninterp spec fn uri_path(text: Seq<char>) -> Option<Seq<char>>;

/// The longest text that `http` parses as a URI, in bytes.
pub const MAX_URI_LENGTH: usize = 65534;

/// Parses a URI with `http::Uri::from_str` and takes its path with `http::Uri::path`. The
/// contract claims that the outcome depends on the text alone, and that a path is no longer
/// than the longest text that is parsed.
#[verifier::external_body]
pub(crate) fn parse_uri_path(text: &str) -> (r: Option<String>)
    ensures
        plan::optional_text(r) == uri_path(text@),
        r matches Some(path) ==> encode_utf8(path@).len() <= MAX_URI_LENGTH,
{
    match Uri::from_str(text) {
        Ok(uri) => Some(uri.path().to_owned()),
        Err(_) => None,
    }
}

/// Why a request cannot be answered at once.
#[derive(Clone, Copy, Debug, PartialEq, Eq, Structural)]
pub enum OneshotError {
    /// The URI cannot be parsed.
    InvalidUri,
    /// A raw handler serves the request, and wants a body that still arrives.
    NeedsIncoming,
}

} // verus!
