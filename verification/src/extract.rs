//! Extractors: what a handler reads of a request, and what it is told when it cannot.

use crate::error;
use crate::error::ApiError;
use crate::headers;
use crate::headers::{get_header, header_name, header_value_str};
use crate::json;
use crate::params;
use crate::params::Params;
use crate::payload;
use crate::payload::bytes_len;
use crate::percent;
use crate::percent::decode_query_component;
use crate::schema;
use crate::response::Json;
use crate::schema::{ApiSchema, OpenApiRequest};
use crate::shared::share;
use crate::status::StatusCode;
use crate::text;
use crate::text::split_once;
use bytes::Bytes;
use http::{HeaderMap, HeaderValue};
use serde_json::Value;
use std::borrow::Cow;
use std::sync::Arc;
use vstd::prelude::*;
use vstd::string::*;
use vstd::utf8::*;

verus! {

/// The state of the application.
#[derive(Debug)]
pub struct State<T>(pub Arc<T>);

impl<T> State<T> {
    /// The state that the application was given.
    pub fn extract(state: &Arc<T>) -> (r: Self)
        ensures
            r.0 == *state,
    {
        State(share(state))
    }
}

impl<T> Clone for State<T> {
    fn clone(&self) -> (r: Self)
        ensures
            r == *self,
    {
        State(share(&self.0))
    }
}

/// The first capture of the path, read as a value. The captures of a route with several are
/// available by name through [`Params`].
#[derive(Clone, Debug)]
pub struct Path<T>(pub T);

/// The query, read as a value.
#[derive(Clone, Debug)]
pub struct Query<T>(pub T);

/// A header field, read as a value of a type that names the field.
#[derive(Clone, Debug)]
pub struct Header<T>(pub T);

/// A type that is read from a header field.
pub trait HeaderSpec: Sized + Send + 'static {
    /// The name of the header field, as messages and documents show it.
    const NAME: &'static str;

    /// The name under which the field is looked up, in lower case.
    const HEADER_NAME: &'static str = Self::NAME;

    /// Reads the value of the field.
    fn parse(value: &str) -> (r: Result<Self, ApiError>);
}

/// What an extractor needs of the router and of the request.
#[derive(Clone, Copy, Debug, PartialEq, Eq, Structural)]
pub struct Needs {
    /// The captures by name, with their decoded values.
    pub params: bool,
    /// The captures, by name or not.
    pub capture: bool,
    /// The whole body.
    pub body: bool,
}

impl Needs {
    /// An extractor that needs nothing.
    pub fn nothing() -> (r: Self)
        ensures
            r == (Needs { params: false, capture: false, body: false }),
    {
        Needs { params: false, capture: false, body: false }
    }

    /// What two extractors need together.
    pub fn join(self, other: Self) -> (r: Self)
        ensures
            r.params == (self.params || other.params),
            r.capture == (self.capture || other.capture),
            r.body == (self.body || other.body),
    {
        Needs {
            params: self.params || other.params,
            capture: self.capture || other.capture,
            body: self.body || other.body,
        }
    }
}

/// A value that was read, or the `400 Bad Request` that carries the message of the failure.
pub fn parsed<T>(result: Result<T, String>) -> (r: Result<T, ApiError>)
    ensures
        match result {
            Ok(value) => r == Ok::<T, ApiError>(value),
            Err(message) => r matches Err(error) && error@ == error::bad_request_problem(message@),
        },
{
    match result {
        Ok(value) => Ok(value),
        Err(message) => Err(ApiError::bad_request(message.as_str())),
    }
}

/// An optional value: an absent input gives none, and any other failure stands.
pub fn optional<T>(result: Result<T, ApiError>) -> (r: Result<Option<T>, ApiError>)
    ensures
        match result {
            Ok(value) => r == Ok::<Option<T>, ApiError>(Some(value)),
            Err(error) => if error@.missing {
                r == Ok::<Option<T>, ApiError>(None)
            } else {
                r == Err::<Option<T>, ApiError>(error)
            },
        },
{
    match result {
        Ok(value) => Ok(Some(value)),
        Err(error) => if error.is_missing() {
            Ok(None)
        } else {
            Err(error)
        },
    }
}

/// The decoded text of the first capture, or the problem that is reported.
pub open spec fn first_capture(ranges: Seq<(int, int)>, bytes: Seq<u8>) -> Result<
    Seq<char>,
    error::Problem,
> {
    if ranges.len() == 0 {
        Err(error::bad_request_problem("missing path parameter"@))
    } else {
        percent::percent_text(bytes.subrange(ranges[0].0, ranges[0].1))
    }
}

/// The decoded text of the first capture of a path.
pub fn path_text<'a>(params: &Params, path: &'a str) -> (r: Result<Cow<'a, str>, ApiError>)
    requires
        params.wf(),
        params.ranges().len() > 0 ==> params::range_fits(params.ranges()[0], path.spec_bytes()),
    ensures
        match r {
            Ok(value) => first_capture(params.ranges(), path.spec_bytes()) == Ok::<
                _,
                error::Problem,
            >(value@),
            Err(problem) => first_capture(params.ranges(), path.spec_bytes()) == Err::<
                Seq<char>,
                _,
            >(problem@),
        },
{
    match params.first_raw(path) {
        Some(raw) => decode_query_component(raw),
        None => Err(ApiError::bad_request("missing path parameter")),
    }
}

/// The problem of an absent header field.
pub open spec fn missing_header_problem(name: Seq<char>) -> error::Problem {
    error::missing_problem("missing header "@ + name)
}

/// The problem of a header field whose value is not visible ASCII text.
pub open spec fn invalid_header_problem(name: Seq<char>) -> error::Problem {
    error::bad_request_problem("invalid header "@ + name)
}

/// The text of the header field `key`, or the problem that is reported under `name`.
pub open spec fn header_field(
    fields: Map<Seq<char>, Seq<Seq<u8>>>,
    key: Seq<char>,
    name: Seq<char>,
) -> Result<Seq<u8>, error::Problem> {
    if !fields.contains_key(key) {
        Err(missing_header_problem(name))
    } else if !headers::all_visible(fields[key][0]) {
        Err(invalid_header_problem(name))
    } else {
        Ok(fields[key][0])
    }
}

/// The text of the header field `key`, which problems call `name`.
pub fn header_text<'a>(
    fields: &'a HeaderMap<HeaderValue>,
    key: &'static str,
    name: &str,
) -> (r: Result<&'a str, ApiError>)
    requires
        headers::is_header_name(key@),
    ensures
        match r {
            Ok(value) => header_field(headers::header_fields(*fields), key@, name@) == Ok::<
                _,
                error::Problem,
            >(encode_utf8(value@)),
            Err(problem) => header_field(headers::header_fields(*fields), key@, name@) == Err::<
                Seq<u8>,
                _,
            >(problem@),
        },
{
    match get_header(fields, &header_name(key)) {
        None => {
            let mut detail = "missing header ".to_owned();
            detail.append(name);
            Err(ApiError::missing(detail.as_str()))
        },
        Some(value) => match header_value_str(value) {
            Some(value) => Ok(value),
            None => {
                let mut detail = "invalid header ".to_owned();
                detail.append(name);
                Err(ApiError::bad_request(detail.as_str()))
            },
        },
    }
}

impl<T: HeaderSpec> Header<T> {
    /// What the extractor says of its request.
    pub fn openapi_request() -> (r: OpenApiRequest)
        ensures
            r@ == schema::header_request(T::NAME@),
    {
        OpenApiRequest::for_header(T::NAME)
    }

    /// Reads the header field that the type names.
    pub fn extract(fields: &HeaderMap<HeaderValue>) -> (r: Result<Self, ApiError>)
        requires
            headers::is_header_name(T::HEADER_NAME@),
        ensures
            match header_field(headers::header_fields(*fields), T::HEADER_NAME@, T::NAME@) {
                Err(problem) => r matches Err(error) && error@ == problem,
                Ok(bytes) => exists|value: &str, parsed: Result<T, ApiError>|
                    encode_utf8(value@) == bytes && #[trigger] call_ensures(
                        T::parse,
                        (value,),
                        parsed,
                    ) && match (r, parsed) {
                        (Ok(header), Ok(inner)) => header.0 == inner,
                        (Err(error), Err(reported)) => error == reported,
                        _ => false,
                    },
            },
    {
        match header_text(fields, T::HEADER_NAME, T::NAME) {
            Err(error) => Err(error),
            Ok(value) => {
                let parsed = T::parse(value);
                assert(call_ensures(T::parse, (value,), parsed));
                match parsed {
                    Ok(inner) => Ok(Header(inner)),
                    Err(error) => Err(error),
                }
            },
        }
    }
}

/// A byte in lower case, if it is an ASCII letter.
pub open spec fn lower_byte(b: u8) -> u8 {
    if 65 <= b <= 90 {
        (b + 32) as u8
    } else {
        b
    }
}

/// Whether two byte strings are equal but for the case of ASCII letters.
pub open spec fn same_letters(a: Seq<u8>, b: Seq<u8>) -> bool {
    &&& a.len() == b.len()
    &&& forall|i: int| 0 <= i < a.len() ==> lower_byte(#[trigger] a[i]) == lower_byte(b[i])
}

/// Whether two texts are equal but for the case of ASCII letters.
fn equal_ignoring_case(a: &str, b: &str) -> (r: bool)
    ensures
        r == same_letters(a.spec_bytes(), b.spec_bytes()),
{
    let a_bytes = a.as_bytes();
    let b_bytes = b.as_bytes();
    if a_bytes.len() != b_bytes.len() {
        return false;
    }
    let mut i: usize = 0;
    while i < a_bytes.len()
        invariant
            i <= a_bytes@.len(),
            a_bytes@.len() == b_bytes@.len(),
            a_bytes@ == a.spec_bytes(),
            b_bytes@ == b.spec_bytes(),
            forall|j: int|
                0 <= j < i ==> lower_byte(#[trigger] a_bytes@[j]) == lower_byte(b_bytes@[j]),
        decreases a_bytes@.len() - i,
    {
        let x: u8 = a_bytes[i];
        let y: u8 = b_bytes[i];
        let x_lower: u8 = if 65 <= x && x <= 90 { x + 32 } else { x };
        let y_lower: u8 = if 65 <= y && y <= 90 { y + 32 } else { y };
        if x_lower != y_lower {
            return false;
        }
        i += 1;
    }
    true
}

/// Whether a media type is JSON: `application/json` in any case, or a subtype of
/// `application` that ends in `+json` behind at least one more character.
pub open spec fn is_json_media(media_type: Seq<char>) -> bool {
    let at = text::position(media_type, '/');
    ||| same_letters(encode_utf8(media_type), encode_utf8("application/json"@))
    ||| {
        &&& at < media_type.len()
        &&& same_letters(encode_utf8(media_type.take(at)), encode_utf8("application"@))
        &&& has_json_suffix(encode_utf8(media_type.skip(at + 1)))
    }
}

/// Whether bytes end in `+json` behind at least one more.
pub open spec fn has_json_suffix(bytes: Seq<u8>) -> bool {
    &&& bytes.len() > 5
    &&& bytes.skip(bytes.len() - 5) == seq![43u8, 106u8, 115u8, 111u8, 110u8]
}

/// Whether a media type is JSON.
pub fn is_json_media_type(media_type: &str) -> (r: bool)
    ensures
        r == is_json_media(media_type@),
{
    if equal_ignoring_case(media_type, "application/json") {
        return true;
    }
    match split_once(media_type, 47) {
        None => {
            proof {
                text::lemma_no_position(media_type@, '/');
            }
            false
        },
        Some((kind, subtype)) => {
            proof {
                text::lemma_position(media_type@, '/', kind@, subtype@);
            }
            let bytes = subtype.as_bytes();
            let length: usize = bytes.len();
            let ends = length > 5 && bytes[length - 5] == 43 && bytes[length - 4] == 106
                && bytes[length - 3] == 115 && bytes[length - 2] == 111 && bytes[length - 1] == 110;
            proof {
                if length > 5 {
                    let tail = bytes@.skip(length - 5);
                    let json = seq![43u8, 106u8, 115u8, 111u8, 110u8];
                    if ends {
                        assert(tail =~= json);
                    } else if tail == json {
                        assert(tail[0] == 43 && tail[1] == 106 && tail[2] == 115 && tail[3] == 111
                            && tail[4] == 110);
                    }
                }
            }
            equal_ignoring_case(kind, "application") && ends
        },
    }
}

/// The content type that a request names, if it is visible ASCII text; else nothing.
pub open spec fn content_type_of(fields: Map<Seq<char>, Seq<Seq<u8>>>) -> Seq<char> {
    if fields.contains_key("content-type"@) && headers::all_visible(fields["content-type"@][0]) {
        decode_utf8(fields["content-type"@][0])
    } else {
        Seq::empty()
    }
}

/// Whether a character is a space or a tab.
pub open spec fn is_blank(c: char) -> bool {
    c == ' ' || c == '\t'
}

/// A text without the blanks at its start.
pub open spec fn trim_front(s: Seq<char>) -> Seq<char>
    decreases s.len(),
{
    if s.len() > 0 && is_blank(s[0]) {
        trim_front(s.drop_first())
    } else {
        s
    }
}

/// A text without the blanks at its end.
pub open spec fn trim_back(s: Seq<char>) -> Seq<char>
    decreases s.len(),
{
    if s.len() > 0 && is_blank(s.last()) {
        trim_back(s.drop_last())
    } else {
        s
    }
}

/// The media type of a content type: what stands before the first `;`, without the blanks
/// around it.
pub open spec fn media_type_of(content_type: Seq<char>) -> Seq<char> {
    trim_back(trim_front(content_type.take(text::position(content_type, ';'))))
}

/// Cuts the blanks off the start of a text.
fn trimmed_front(s: &str) -> (r: &str)
    ensures
        r@ == trim_front(s@),
{
    let bytes = s.as_bytes();
    let length: usize = bytes.len();
    let mut start: usize = 0;
    proof {
        encode_utf8_valid_utf8(s@);
        encode_utf8_decode_utf8(s@);
        is_char_boundary_start_end_of_seq(bytes@);
        assert(bytes@.subrange(0, length as int) =~= bytes@);
    }
    while start < length && (bytes[start] == 32 || bytes[start] == 9)
        invariant
            start <= length,
            length == bytes@.len(),
            bytes@ == s.spec_bytes(),
            valid_utf8(bytes@),
            is_char_boundary(bytes@, start as int),
            valid_utf8(bytes@.subrange(start as int, length as int)),
            trim_front(s@) == trim_front(decode_utf8(bytes@.subrange(start as int, length as int))),
        decreases length - start,
    {
        proof {
            let rest = bytes@.subrange(start as int, length as int);
            let chars = decode_utf8(rest);
            decode_utf8_encode_utf8(rest);
            text::lemma_first_ascii(chars, ' ');
            text::lemma_first_ascii(chars, '\t');
            text::lemma_ascii_split(bytes@, start as int);
            let shorter = bytes@.subrange(start + 1, length as int);
            assert(encode_utf8(chars.drop_first()) =~= shorter) by {
                assert(rest =~= seq![bytes@[start as int]] + shorter);
                assert(rest.skip(1) =~= shorter);
                assert(rest.skip(1) =~= encode_utf8(chars.drop_first()));
            }
            encode_utf8_decode_utf8(chars.drop_first());
        }
        start += 1;
    }
    proof {
        let rest = bytes@.subrange(start as int, length as int);
        decode_utf8_encode_utf8(rest);
        text::lemma_first_ascii(decode_utf8(rest), ' ');
        text::lemma_first_ascii(decode_utf8(rest), '\t');
        is_char_boundary_start_end_of_seq(bytes@);
    }
    text::slice_str(s, start, length)
}

/// Cuts the blanks off the end of a text.
fn trimmed_back(s: &str) -> (r: &str)
    ensures
        r@ == trim_back(s@),
{
    let bytes = s.as_bytes();
    let mut end: usize = bytes.len();
    proof {
        encode_utf8_valid_utf8(s@);
        encode_utf8_decode_utf8(s@);
        is_char_boundary_start_end_of_seq(bytes@);
        assert(bytes@.subrange(0, end as int) =~= bytes@);
    }
    while end > 0 && (bytes[end - 1] == 32 || bytes[end - 1] == 9)
        invariant
            end <= bytes@.len(),
            bytes@ == s.spec_bytes(),
            valid_utf8(bytes@),
            is_char_boundary(bytes@, end as int),
            valid_utf8(bytes@.subrange(0, end as int)),
            trim_back(s@) == trim_back(decode_utf8(bytes@.subrange(0, end as int))),
        decreases end,
    {
        proof {
            let head = bytes@.subrange(0, end as int);
            let chars = decode_utf8(head);
            decode_utf8_encode_utf8(head);
            text::lemma_last_ascii(chars, ' ');
            text::lemma_last_ascii(chars, '\t');
            text::lemma_ascii_split(bytes@, end - 1);
            let shorter = bytes@.subrange(0, end - 1);
            assert(head.drop_last() =~= shorter);
            assert(encode_utf8(chars.drop_last()) =~= shorter);
            encode_utf8_decode_utf8(chars.drop_last());
        }
        end -= 1;
    }
    proof {
        let head = bytes@.subrange(0, end as int);
        decode_utf8_encode_utf8(head);
        text::lemma_last_ascii(decode_utf8(head), ' ');
        text::lemma_last_ascii(decode_utf8(head), '\t');
        is_char_boundary_start_end_of_seq(bytes@);
    }
    text::slice_str(s, 0, end)
}

/// The content type that a request names.
fn content_type(fields: &HeaderMap<HeaderValue>) -> (r: &str)
    ensures
        r@ == content_type_of(headers::header_fields(*fields)),
{
    proof {
        headers::lemma_known_names();
        reveal_strlit("");
    }
    let name = header_name("content-type");
    match get_header(fields, &name) {
        Some(value) => match header_value_str(value) {
            Some(text) => {
                proof {
                    encode_utf8_decode_utf8(text@);
                }
                text
            },
            None => "",
        },
        None => "",
    }
}

/// The media type of a content type.
fn media_type(content_type: &str) -> (r: &str)
    ensures
        r@ == media_type_of(content_type@),
{
    let head = match split_once(content_type, 59) {
        Some((head, tail)) => {
            proof {
                text::lemma_position(content_type@, ';', head@, tail@);
            }
            head
        },
        None => {
            proof {
                text::lemma_no_position(content_type@, ';');
                assert(content_type@.take(content_type@.len() as int) =~= content_type@);
            }
            content_type
        },
    };
    trimmed_back(trimmed_front(head))
}

/// The problem of a body that is not declared as JSON.
pub open spec fn media_type_problem() -> error::Problem {
    error::Problem {
        status: 415,
        title: "Unsupported Media Type"@,
        detail: "expected application/json or application/*+json"@,
        missing: false,
    }
}

/// Why the body of a request is not read as JSON, if it is not: it is absent, or it is not
/// declared as JSON.
pub open spec fn json_problem(
    fields: Map<Seq<char>, Seq<Seq<u8>>>,
    body: Seq<u8>,
) -> Option<error::Problem> {
    let content_type = content_type_of(fields);
    if body.len() == 0 && content_type.len() == 0 {
        Some(error::missing_problem("missing JSON body"@))
    } else if !is_json_media(media_type_of(content_type)) {
        Some(media_type_problem())
    } else {
        None
    }
}

/// Checks that the body of a request is there and declared as JSON.
pub fn check_json_request(fields: &HeaderMap<HeaderValue>, body: &Bytes) -> (r: Result<
    (),
    ApiError,
>)
    ensures
        match r {
            Ok(()) => json_problem(
                headers::header_fields(*fields),
                payload::bytes_contents(*body),
            ) is None,
            Err(problem) => json_problem(
                headers::header_fields(*fields),
                payload::bytes_contents(*body),
            ) == Some(problem@),
        },
{
    let content_type = content_type(fields);
    proof {
        text::lemma_encode_len(content_type@);
    }
    if bytes_len(body) == 0 && content_type.is_empty() {
        return Err(ApiError::missing("missing JSON body"));
    }
    if !is_json_media_type(media_type(content_type)) {
        return Err(
            ApiError::new(
                StatusCode::unsupported_media_type(),
                "Unsupported Media Type",
                "expected application/json or application/*+json",
            ),
        );
    }
    Ok(())
}

impl<T: ApiSchema> Path<T> {
    /// What the extractor says of its request.
    pub fn openapi_request() -> (r: OpenApiRequest)
        ensures
            exists|value: Value| #[trigger]
                call_ensures(T::schema, (), value) && r@ == schema::path_request(
                    json::json_tree(value),
                ),
    {
        let value = T::schema();
        assert(call_ensures(T::schema, (), value));
        OpenApiRequest::for_path(value)
    }
}

impl<T: ApiSchema> Json<T> {
    /// What the extractor says of its request.
    pub fn openapi_request() -> (r: OpenApiRequest)
        ensures
            exists|value: Value| #[trigger]
                call_ensures(T::schema, (), value) && r@ == schema::json_request(
                    json::json_tree(value),
                ),
    {
        let value = T::schema();
        assert(call_ensures(T::schema, (), value));
        OpenApiRequest::for_json(value)
    }
}

} // verus!
