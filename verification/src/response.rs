//! Responses: their bodies, the fixed answers of the framework, and the conversions of
//! handler results.

use crate::error;
use crate::error::ApiError;
use crate::headers;
use crate::headers::{
    clone_header_value, has_header, header_name, header_value, insert_header, new_headers,
    static_header_value, try_insert_header,
};
use crate::json;
use crate::json::{map_insert, new_map, object_value, string_value, unsigned_value, value_to_vec};
use crate::number;
use crate::number::decimal_string;
use crate::payload;
use crate::payload::{
    bytes_from_static, bytes_from_string, bytes_from_vec, bytes_len, clone_bytes, empty_bytes,
};
use crate::schema::ApiSchema;
use crate::status::StatusCode;
use bytes::Bytes;
use http::{HeaderMap, HeaderValue};
use serde_json::Value;
use vstd::prelude::*;
use vstd::string::*;
use vstd::utf8::*;

verus! {

/// The fixed or streaming body of a response.
pub enum ResponseBody<B> {
    Full(Option<Bytes>),
    Stream(B),
}

/// What a body holds: the bytes that are still to be sent, or the stream.
pub enum BodyView<B> {
    Full(Option<Seq<u8>>),
    Stream(B),
}

impl<B> View for ResponseBody<B> {
    type V = BodyView<B>;

    open spec fn view(&self) -> BodyView<B> {
        match self {
            ResponseBody::Full(Some(bytes)) => BodyView::Full(Some(payload::bytes_contents(*bytes))),
            ResponseBody::Full(None) => BodyView::Full(None),
            ResponseBody::Stream(stream) => BodyView::Stream(*stream),
        }
    }
}

/// The length of a body that is known beforehand.
pub open spec fn exact_length<B>(body: BodyView<B>) -> Option<nat> {
    match body {
        BodyView::Full(Some(bytes)) => Some(bytes.len()),
        BodyView::Full(None) => Some(0),
        BodyView::Stream(_) => None,
    }
}

impl<B> ResponseBody<B> {
    /// A body of fixed bytes.
    pub fn full(bytes: Bytes) -> (r: Self)
        ensures
            r@ == BodyView::<B>::Full(Some(payload::bytes_contents(bytes))),
    {
        ResponseBody::Full(Some(bytes))
    }

    /// A body whose chunks a stream produces.
    pub fn stream(stream: B) -> (r: Self)
        ensures
            r@ == BodyView::Stream(stream),
    {
        ResponseBody::Stream(stream)
    }

    /// The bytes of a fixed body that were not taken yet. They can be taken once.
    pub fn take_full(&mut self) -> (r: Option<Bytes>)
        ensures
            match old(self)@ {
                BodyView::Full(Some(bytes)) => {
                    &&& r matches Some(taken)
                    &&& payload::bytes_contents(taken) == bytes
                    &&& final(self)@ == BodyView::<B>::Full(None)
                },
                _ => r is None && final(self)@ == old(self)@,
            },
    {
        match self {
            ResponseBody::Full(bytes) => bytes.take(),
            ResponseBody::Stream(_) => None,
        }
    }

    /// Whether nothing of the body is left to be sent, as far as that is known.
    pub fn is_end_stream(&self) -> (r: bool)
        ensures
            r == (self@ == BodyView::<B>::Full(None)),
    {
        match self {
            ResponseBody::Full(body) => body.is_none(),
            ResponseBody::Stream(_) => false,
        }
    }

    /// The length of the body, where it is known beforehand.
    pub fn exact_size(&self) -> (r: Option<u64>)
        ensures
            match r {
                Some(length) => exact_length(self@) == Some(length as nat),
                None => exact_length(self@) is None,
            },
    {
        match self {
            ResponseBody::Full(Some(bytes)) => Some(bytes_len(bytes) as u64),
            ResponseBody::Full(None) => Some(0),
            ResponseBody::Stream(_) => None,
        }
    }
}

/// A response: its status, its header fields and its body.
pub struct HttpResponse<B> {
    pub status: StatusCode,
    pub headers: HeaderMap<HeaderValue>,
    pub body: ResponseBody<B>,
}

/// What a response says.
pub struct ResponseView<B> {
    pub status: u16,
    pub headers: Map<Seq<char>, Seq<Seq<u8>>>,
    pub body: BodyView<B>,
}

impl<B> View for HttpResponse<B> {
    type V = ResponseView<B>;

    open spec fn view(&self) -> ResponseView<B> {
        ResponseView {
            status: self.status@,
            headers: headers::header_fields(self.headers),
            body: self.body@,
        }
    }
}

/// Whether a response says what the view says.
pub open spec fn says<B>(response: HttpResponse<B>, view: ResponseView<B>) -> bool {
    response@ == view
}

/// The values of a header field with one value, given as text.
pub open spec fn one_value(text: Seq<char>) -> Seq<Seq<u8>> {
    seq![encode_utf8(text)]
}

/// A response of plain text.
pub open spec fn text_response<B>(status: u16, contents: Seq<u8>) -> ResponseView<B> {
    ResponseView {
        status,
        headers: headers::no_header_fields().insert(
            "content-type"@,
            one_value("text/plain; charset=utf-8"@),
        ).insert("content-length"@, one_value(number::decimal(contents.len()))),
        body: BodyView::Full(Some(contents)),
    }
}

/// A response of JSON bytes.
pub open spec fn json_response<B>(status: u16, contents: Seq<u8>) -> ResponseView<B> {
    ResponseView {
        status,
        headers: headers::no_header_fields().insert(
            "content-type"@,
            one_value("application/json"@),
        ),
        body: BodyView::Full(Some(contents)),
    }
}

/// The bytes of a JSON value in a response.
pub open spec fn json_contents(tree: json::JsonTree) -> Seq<u8> {
    encode_utf8(json::json_text(tree))
}

/// The problem details of an error as JSON.
pub open spec fn problem_tree(problem: error::Problem) -> json::JsonTree {
    json::JsonTree::Object(
        json::no_json_fields().insert("type"@, json::JsonTree::Text("about:blank"@)).insert(
            "title"@,
            json::JsonTree::Text(problem.title),
        ).insert(
            "status"@,
            json::JsonTree::Number(number::decimal(problem.status as nat)),
        ).insert("detail"@, json::JsonTree::Text(problem.detail)),
    )
}

/// The response of an error: its problem details as JSON, under its status.
pub open spec fn problem_response<B>(problem: error::Problem) -> ResponseView<B> {
    json_response(problem.status, json_contents(problem_tree(problem)))
}

/// A response without a body, with the header fields given.
pub open spec fn empty_response<B>(
    status: u16,
    fields: Map<Seq<char>, Seq<Seq<u8>>>,
) -> ResponseView<B> {
    ResponseView {
        status,
        headers: fields.insert("content-length"@, one_value("0"@)),
        body: BodyView::Full(Some(Seq::empty())),
    }
}

/// The media type of plain text as a header value.
fn content_type_text() -> (r: HeaderValue)
    ensures
        headers::header_value_bytes(r) == encode_utf8("text/plain; charset=utf-8"@),
{
    proof {
        reveal_strlit("text/plain; charset=utf-8");
        headers::lemma_visible_text("text/plain; charset=utf-8"@);
    }
    static_header_value("text/plain; charset=utf-8")
}

/// The media type of JSON as a header value.
fn content_type_json() -> (r: HeaderValue)
    ensures
        headers::header_value_bytes(r) == encode_utf8("application/json"@),
{
    proof {
        reveal_strlit("application/json");
        headers::lemma_visible_text("application/json"@);
    }
    static_header_value("application/json")
}

/// The header value of a length.
fn length_value(length: u64) -> (r: HeaderValue)
    ensures
        headers::header_value_bytes(r) == encode_utf8(number::decimal(length as nat)),
{
    proof {
        number::lemma_decimal_ascii(length as nat);
        headers::lemma_visible_text(number::decimal(length as nat));
    }
    header_value(decimal_string(length).as_str())
}

/// A plain-text response with its length.
pub fn response_text<B>(status: StatusCode, body: Bytes) -> (r: HttpResponse<B>)
    ensures
        r@ == text_response::<B>(status@, payload::bytes_contents(body)),
        r.status == status,
{
    proof {
        headers::lemma_known_names();
    }
    let length: usize = bytes_len(&body);
    let mut fields = new_headers();
    insert_header(&mut fields, header_name("content-type"), content_type_text());
    insert_header(&mut fields, header_name("content-length"), length_value(length as u64));
    HttpResponse { status, headers: fields, body: ResponseBody::full(body) }
}

/// A response of JSON bytes.
pub fn response_json_bytes<B>(status: StatusCode, body: Bytes) -> (r: HttpResponse<B>)
    ensures
        r@ == json_response::<B>(status@, payload::bytes_contents(body)),
        r.status == status,
{
    proof {
        headers::lemma_known_names();
    }
    let mut fields = new_headers();
    insert_header(&mut fields, header_name("content-type"), content_type_json());
    HttpResponse { status, headers: fields, body: ResponseBody::full(body) }
}

/// A response of a JSON value.
pub fn response_json<B>(status: StatusCode, value: Value) -> (r: HttpResponse<B>)
    ensures
        r@ == json_response::<B>(status@, json_contents(json::json_tree(value))),
        r.status == status,
{
    response_json_bytes(status, bytes_from_vec(value_to_vec(&value)))
}

/// The problem details of an error as a JSON value.
fn problem_value(error: ApiError) -> (r: Value)
    ensures
        json::json_tree(r) == problem_tree(error@),
{
    let code = unsigned_value(error.status.as_u16() as u64);
    let mut map = new_map();
    map_insert(&mut map, "type".to_owned(), string_value("about:blank".to_owned()));
    map_insert(&mut map, "title".to_owned(), string_value(error.title));
    map_insert(&mut map, "status".to_owned(), code);
    map_insert(&mut map, "detail".to_owned(), string_value(error.detail));
    object_value(map)
}

/// A response without a body, and with a length of zero.
fn response_empty<B>(status: StatusCode, fields: HeaderMap<HeaderValue>) -> (r: HttpResponse<B>)
    requires
        headers::takes_header(fields),
    ensures
        r@ == empty_response::<B>(status@, headers::header_fields(fields)),
{
    let mut fields = fields;
    proof {
        headers::lemma_known_names();
        reveal_strlit("0");
        headers::lemma_visible_text("0"@);
    }
    insert_header(&mut fields, header_name("content-length"), static_header_value("0"));
    HttpResponse { status, headers: fields, body: ResponseBody::full(empty_bytes()) }
}

/// What a request with a body over the limit is told.
pub open spec fn too_large_problem() -> error::Problem {
    error::Problem {
        status: 413,
        title: "Payload Too Large"@,
        detail: "request body exceeds the configured limit"@,
        missing: false,
    }
}

/// The answer to a request with a body over the limit.
pub fn payload_too_large_response<B>() -> (r: HttpResponse<B>)
    ensures
        r@ == problem_response::<B>(too_large_problem()),
{
    ApiError::new(
        StatusCode::payload_too_large(),
        "Payload Too Large",
        "request body exceeds the configured limit",
    ).into_response()
}

/// The answer to a request whose body could not be read to its end.
pub fn interrupted_body_response<B>() -> (r: HttpResponse<B>)
    ensures
        r@ == problem_response::<B>(error::bad_request_problem("request body was interrupted"@)),
{
    ApiError::bad_request("request body was interrupted").into_response()
}

/// The answer to a request for an unknown path.
pub fn not_found<B>() -> (r: HttpResponse<B>)
    ensures
        r@ == text_response::<B>(404, encode_utf8("Not Found"@)),
{
    response_text(StatusCode::not_found(), bytes_from_static("Not Found".as_bytes()))
}

/// The header fields that name the allowed methods.
pub open spec fn allow_fields(allow: Seq<char>) -> Map<Seq<char>, Seq<Seq<u8>>> {
    headers::no_header_fields().insert("allow"@, one_value(allow))
}

/// The header fields that name the allowed methods.
fn allow_headers(allow: &str) -> (r: HeaderMap<HeaderValue>)
    requires
        headers::all_value_bytes(encode_utf8(allow@)),
    ensures
        headers::header_fields(r) == allow_fields(allow@),
        headers::takes_header(r),
{
    proof {
        headers::lemma_known_names();
    }
    let mut fields = new_headers();
    insert_header(&mut fields, header_name("allow"), header_value(allow));
    fields
}

/// The automatic answer to `OPTIONS` on a known path.
pub fn options_response<B>(allow: &str) -> (r: HttpResponse<B>)
    requires
        headers::all_value_bytes(encode_utf8(allow@)),
    ensures
        r@ == empty_response::<B>(204, allow_fields(allow@)),
{
    response_empty(StatusCode::no_content(), allow_headers(allow))
}

/// The answer to a method that a known path does not serve.
pub fn method_not_allowed_response<B>(allow: &str) -> (r: HttpResponse<B>)
    requires
        headers::all_value_bytes(encode_utf8(allow@)),
    ensures
        r@ == empty_response::<B>(405, allow_fields(allow@)),
{
    response_empty(StatusCode::method_not_allowed(), allow_headers(allow))
}

/// A response as it answers `HEAD`: the same status and header fields and no body. The length
/// of the body is named where it is known and the response did not name one.
pub open spec fn head_response<B>(response: ResponseView<B>) -> ResponseView<B> {
    ResponseView {
        status: response.status,
        headers: match exact_length(response.body) {
            Some(length) if !response.headers.contains_key("content-length"@) =>
                response.headers.insert("content-length"@, one_value(number::decimal(length))),
            _ => response.headers,
        },
        body: BodyView::Full(Some(Seq::empty())),
    }
}

/// A response as it answers the request, which may be a `HEAD` request.
pub open spec fn answer<B>(is_head: bool, response: ResponseView<B>) -> ResponseView<B> {
    if is_head {
        head_response(response)
    } else {
        response
    }
}

/// Whether answering names the length of the body.
pub open spec fn names_length<B>(is_head: bool, response: ResponseView<B>) -> bool {
    is_head && !response.headers.contains_key("content-length"@) && exact_length(
        response.body,
    ) is Some
}

/// Whether the response takes the header field that answering may add, whatever state its
/// header map is in.
pub open spec fn can_answer<B>(is_head: bool, response: HttpResponse<B>) -> bool {
    names_length(is_head, response@) ==> headers::takes_header(response.headers)
}

/// Takes the body out of a response to a `HEAD` request, and names its length where that is
/// known.
pub fn maybe_head_flag<B>(is_head: bool, response: HttpResponse<B>) -> (r: HttpResponse<B>)
    requires
        can_answer(is_head, response),
    ensures
        r@ == answer(is_head, response@),
        !is_head ==> r == response,
{
    match checked_head_flag(is_head, response) {
        Ok(answered) => answered,
        Err(unchanged) => unchanged,
    }
}

/// Answers as [`maybe_head_flag`] does, and hands the response back where its header map cannot
/// take the length. A map with very many names takes it unless it is full or its table saw many
/// collisions, which the fields do not show.
pub fn checked_head_flag<B>(is_head: bool, response: HttpResponse<B>) -> (r: Result<
    HttpResponse<B>,
    HttpResponse<B>,
>)
    ensures
        match r {
            Ok(answered) => {
                &&& answered@ == answer(is_head, response@)
                &&& !is_head ==> answered == response
                &&& names_length(is_head, response@) ==> !headers::is_full(response.headers)
            },
            Err(unchanged) => !can_answer(is_head, response) && unchanged@ == response@,
        },
{
    if !is_head {
        return Ok(response);
    }
    proof {
        headers::lemma_known_names();
    }
    let size = response.body.exact_size();
    let mut fields = response.headers;
    if !has_header(&fields, &header_name("content-length")) {
        if let Some(length) = size {
            let value = length_value(length);
            if !try_insert_header(&mut fields, header_name("content-length"), value) {
                return Err(
                    HttpResponse { status: response.status, headers: fields, body: response.body },
                );
            }
        }
    }
    Ok(
        HttpResponse {
            status: response.status,
            headers: fields,
            body: ResponseBody::full(empty_bytes()),
        },
    )
}

/// A response that is prepared when its route is registered.
pub enum StaticResponse {
    Text { body: Bytes, content_length: HeaderValue },
    Json { body: Bytes },
}

/// What a prepared response answers.
pub open spec fn static_view<B>(response: StaticResponse) -> ResponseView<B> {
    match response {
        StaticResponse::Text { body, .. } => text_response(200, payload::bytes_contents(body)),
        StaticResponse::Json { body } => json_response(200, payload::bytes_contents(body)),
    }
}

impl StaticResponse {
    /// Whether the prepared length is that of the body.
    pub open spec fn wf(&self) -> bool {
        match self {
            StaticResponse::Text { body, content_length } => headers::header_value_bytes(
                *content_length,
            ) == encode_utf8(number::decimal(payload::bytes_contents(*body).len())),
            StaticResponse::Json { .. } => true,
        }
    }

    /// A prepared response of fixed text.
    pub fn text(body: &'static str) -> (r: Self)
        ensures
            r.wf(),
            r matches StaticResponse::Text { body: bytes, .. } && payload::bytes_contents(bytes)
                == encode_utf8(body@),
    {
        Self::text_bytes(bytes_from_static(body.as_bytes()))
    }

    /// A prepared response of text bytes.
    pub fn text_bytes(body: Bytes) -> (r: Self)
        ensures
            r.wf(),
            r matches StaticResponse::Text { body: bytes, .. } && bytes == body,
    {
        let content_length = length_value(bytes_len(&body) as u64);
        StaticResponse::Text { body, content_length }
    }

    /// A prepared response of JSON bytes.
    pub fn json(body: Bytes) -> (r: Self)
        ensures
            r.wf(),
            r == (StaticResponse::Json { body }),
    {
        StaticResponse::Json { body }
    }

    /// The response itself.
    pub fn to_response<B>(&self) -> (r: HttpResponse<B>)
        requires
            self.wf(),
        ensures
            r@ == static_view::<B>(*self),
            headers::takes_header(r.headers),
    {
        proof {
            headers::lemma_known_names();
        }
        let mut fields = new_headers();
        insert_header(&mut fields, header_name("content-type"), self.content_type());
        let body = match self {
            StaticResponse::Text { body, content_length } => {
                insert_header(
                    &mut fields,
                    header_name("content-length"),
                    clone_header_value(content_length),
                );
                clone_bytes(body)
            },
            StaticResponse::Json { body } => clone_bytes(body),
        };
        HttpResponse { status: StatusCode::ok(), headers: fields, body: ResponseBody::full(body) }
    }

    /// The media type of the body.
    fn content_type(&self) -> (r: HeaderValue)
        ensures
            headers::header_value_bytes(r) == match self {
                StaticResponse::Text { .. } => encode_utf8("text/plain; charset=utf-8"@),
                StaticResponse::Json { .. } => encode_utf8("application/json"@),
            },
    {
        match self {
            StaticResponse::Text { .. } => content_type_text(),
            StaticResponse::Json { .. } => content_type_json(),
        }
    }
}

/// Conversion from handler return values into responses.
pub trait IntoResponse<B>: Send + 'static + Sized {
    /// The response.
    fn into_response(self) -> (r: HttpResponse<B>);
}

impl<B> IntoResponse<B> for ApiError {
    fn into_response(self) -> (r: HttpResponse<B>)
        ensures
            says::<B>(r, problem_response::<B>(self@)),
    {
        let status = self.status;
        response_json(status, problem_value(self))
    }
}

impl<B> IntoResponse<B> for &'static str {
    fn into_response(self) -> (r: HttpResponse<B>)
        ensures
            says::<B>(r, text_response::<B>(200, encode_utf8(self@))),
    {
        response_text(StatusCode::ok(), bytes_from_static(self.as_bytes()))
    }
}

impl<B> IntoResponse<B> for String {
    fn into_response(self) -> (r: HttpResponse<B>)
        ensures
            says::<B>(r, text_response::<B>(200, encode_utf8(self@))),
    {
        response_text(StatusCode::ok(), bytes_from_string(self))
    }
}

impl<B> IntoResponse<B> for Bytes {
    fn into_response(self) -> (r: HttpResponse<B>)
        ensures
            says::<B>(r, text_response::<B>(200, payload::bytes_contents(self))),
    {
        response_text(StatusCode::ok(), self)
    }
}

impl<B> IntoResponse<B> for () {
    fn into_response(self) -> (r: HttpResponse<B>)
        ensures
            says::<B>(r, empty_response::<B>(204, headers::no_header_fields())),
    {
        response_empty(StatusCode::no_content(), new_headers())
    }
}

/// A value that is sent and received as JSON.
#[derive(Clone, Debug)]
pub struct Json<T>(pub T);

/// A JSON response with the status `201 Created`.
#[derive(Clone, Debug)]
pub struct Created<T>(pub T);

/// What a value that could not be serialized is answered with.
pub open spec fn serialization_problem(message: Seq<char>) -> error::Problem {
    error::Problem {
        status: 500,
        title: "Serialization Error"@,
        detail: message,
        missing: false,
    }
}

/// The response of a value, given the bytes that it serializes to or the message of the
/// failure.
pub fn serialized_response<B>(status: StatusCode, serialized: Result<Vec<u8>, String>) -> (r:
    HttpResponse<B>)
    ensures
        match serialized {
            Ok(bytes) => r@ == json_response::<B>(status@, bytes@),
            Err(message) => r@ == problem_response::<B>(serialization_problem(message@)),
        },
{
    match serialized {
        Ok(bytes) => response_json_bytes(status, bytes_from_vec(bytes)),
        Err(message) => ApiError::new(
            StatusCode::internal_server_error(),
            "Serialization Error",
            message.as_str(),
        ).into_response(),
    }
}

/// A JSON body that was serialized beforehand. Cloning it clones the handle of the bytes.
#[derive(Debug)]
pub struct JsonBytes {
    pub bytes: Bytes,
}

impl JsonBytes {
    /// The given bytes as a JSON body.
    pub fn new(bytes: Bytes) -> (r: Self)
        ensures
            r.bytes == bytes,
    {
        JsonBytes { bytes }
    }
}

impl Clone for JsonBytes {
    fn clone(&self) -> (r: Self)
        ensures
            payload::bytes_contents(r.bytes) == payload::bytes_contents(self.bytes),
    {
        JsonBytes { bytes: clone_bytes(&self.bytes) }
    }
}

impl<B> IntoResponse<B> for JsonBytes {
    fn into_response(self) -> (r: HttpResponse<B>)
        ensures
            says::<B>(r, json_response::<B>(200, payload::bytes_contents(self.bytes))),
    {
        response_json_bytes(StatusCode::ok(), self.bytes)
    }
}

/// A response whose chunks are produced lazily by a stream.
pub struct StreamResponse<S>(pub S);

impl<S: Send + 'static> IntoResponse<S> for StreamResponse<S> {
    fn into_response(self) -> (r: HttpResponse<S>)
        ensures
            r@ == (ResponseView {
                status: 200,
                headers: headers::no_header_fields(),
                body: BodyView::Stream(self.0),
            }),
    {
        HttpResponse {
            status: StatusCode::ok(),
            headers: new_headers(),
            body: ResponseBody::stream(self.0),
        }
    }
}

/// The response `204 No Content`.
#[derive(Clone, Copy, Debug)]
pub struct NoContent;

impl Default for NoContent {
    fn default() -> (r: Self)
        ensures
            r == NoContent,
    {
        NoContent
    }
}

impl<B> IntoResponse<B> for NoContent {
    fn into_response(self) -> (r: HttpResponse<B>)
        ensures
            says::<B>(r, empty_response::<B>(204, headers::no_header_fields())),
    {
        ().into_response()
    }
}

/// The response `304 Not Modified`.
#[derive(Clone, Copy, Debug)]
pub struct NotModified;

impl Default for NotModified {
    fn default() -> (r: Self)
        ensures
            r == NotModified,
    {
        NotModified
    }
}

impl<B> IntoResponse<B> for NotModified {
    fn into_response(self) -> (r: HttpResponse<B>)
        ensures
            says::<B>(r, empty_response::<B>(304, headers::no_header_fields())),
    {
        response_empty(StatusCode::not_modified(), new_headers())
    }
}

impl<B, T: IntoResponse<B>> IntoResponse<B> for Result<T, ApiError> {
    fn into_response(self) -> (r: HttpResponse<B>)
        ensures
            match self {
                Ok(value) => call_ensures(T::into_response, (value,), r),
                Err(error) => says::<B>(r, problem_response::<B>(error@)),
            },
    {
        match self {
            Ok(value) => value.into_response(),
            Err(error) => error.into_response(),
        }
    }
}

/// What is said of the response of a handler before it runs.
pub trait ResponseMetadata {
    /// The status of the response.
    fn status_code() -> (r: StatusCode)
        default_ensures
            r@ == 200,
    {
        StatusCode::ok()
    }

    /// The schema of the body, where it has one.
    fn response_schema() -> (r: Option<Value>)
        default_ensures
            r is None,
    {
        None
    }
}

impl ResponseMetadata for &'static str {

}

impl ResponseMetadata for String {

}

impl ResponseMetadata for Bytes {

}

impl ResponseMetadata for JsonBytes {

}

impl<S> ResponseMetadata for StreamResponse<S> {

}

impl ResponseMetadata for () {
    fn status_code() -> (r: StatusCode)
        ensures
            r@ == 204,
    {
        StatusCode::no_content()
    }
}

impl ResponseMetadata for NoContent {
    fn status_code() -> (r: StatusCode)
        ensures
            r@ == 204,
    {
        StatusCode::no_content()
    }
}

impl ResponseMetadata for NotModified {
    fn status_code() -> (r: StatusCode)
        ensures
            r@ == 304,
    {
        StatusCode::not_modified()
    }
}

impl<T: ApiSchema> ResponseMetadata for Json<T> {
    fn response_schema() -> (r: Option<Value>)
        ensures
            r matches Some(schema) && call_ensures(T::schema, (), schema),
    {
        Some(T::schema())
    }
}

impl<T: ApiSchema> ResponseMetadata for Created<T> {
    fn status_code() -> (r: StatusCode)
        ensures
            r@ == 201,
    {
        StatusCode::created()
    }

    fn response_schema() -> (r: Option<Value>)
        ensures
            r matches Some(schema) && call_ensures(T::schema, (), schema),
    {
        Some(T::schema())
    }
}

impl<T: ResponseMetadata> ResponseMetadata for Result<T, ApiError> {
    fn status_code() -> (r: StatusCode)
        ensures
            call_ensures(T::status_code, (), r),
    {
        T::status_code()
    }

    fn response_schema() -> (r: Option<Value>)
        ensures
            call_ensures(T::response_schema, (), r),
    {
        T::response_schema()
    }
}

} // verus!
