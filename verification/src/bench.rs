//! The benchmark server: its handlers, its users, and the replies of its bare variant.

use crate::error;
use crate::error::ApiError;
use crate::extract::HeaderSpec;
use crate::headers;
use crate::headers::{
    get_header, header_name, header_value, header_value_str, insert_header, new_headers,
    static_header_value,
};
use crate::method::Method;
use crate::number;
use crate::number::{decimal_string, parse_u64};
use crate::params::Params;
use crate::payload;
use crate::payload::{bytes_from_static, bytes_from_string, bytes_len, empty_bytes};
use crate::response;
use crate::response::{response_json_bytes, HttpResponse, ResponseBody};
use crate::status::StatusCode;
use crate::text;
use crate::text::{split_once, str_equal, strip_prefix};
use bytes::Bytes;
use http::{HeaderMap, HeaderValue};
use vstd::prelude::*;
use vstd::string::*;
use vstd::utf8::*;

verus! {

/// The header field that names a trace.
#[derive(Debug)]
pub struct TraceId(pub String);

impl HeaderSpec for TraceId {
    const NAME: &'static str = "x-trace-id";

    fn parse(value: &str) -> (r: Result<Self, ApiError>)
        ensures
            r matches Ok(id) && id.0@ == value@,
    {
        Ok(TraceId(value.to_owned()))
    }
}

/// The header field that holds the key of a client.
#[derive(Debug)]
pub struct ApiKey(pub String);

/// What a client with a wrong key is told.
pub open spec fn invalid_key_problem() -> error::Problem {
    error::Problem {
        status: 401,
        title: "Unauthorized"@,
        detail: "invalid API key"@,
        missing: false,
    }
}

impl HeaderSpec for ApiKey {
    const NAME: &'static str = "x-api-key";

    fn parse(value: &str) -> (r: Result<Self, ApiError>)
        ensures
            match r {
                Ok(key) => value@ == "abc-secret"@ && key.0@ == value@,
                Err(error) => value@ != "abc-secret"@ && error@ == invalid_key_problem(),
            },
    {
        if str_equal(value, "abc-secret") {
            Ok(ApiKey(value.to_owned()))
        } else {
            Err(ApiError::new(StatusCode::unauthorized(), "Unauthorized", "invalid API key"))
        }
    }
}

/// Greets the holder of a key.
pub fn secure(key: &ApiKey) -> (r: &'static str)
    ensures
        r@ == if key.0@ == "abc-secret"@ {
            "authorized"@
        } else {
            "unauthorized"@
        },
{
    if str_equal(key.0.as_str(), "abc-secret") {
        "authorized"
    } else {
        "unauthorized"
    }
}

/// The text of a truth value.
pub open spec fn bool_text(value: bool) -> Seq<char> {
    if value {
        "true"@
    } else {
        "false"@
    }
}

/// Repeats a search.
pub fn query_typed(page: u32, active: bool) -> (r: String)
    ensures
        r@ == number::decimal(page as nat) + ":"@ + bool_text(active),
{
    let mut text = decimal_string(page as u64);
    text.append(":");
    text.append(
        if active {
            "true"
        } else {
            "false"
        },
    );
    text
}

/// Repeats the captures `org` and `user`.
pub fn params_typed(params: &Params) -> (r: Option<String>)
    ensures
        match params.named() {
            Some(named) => match (named.lookup("org"@), named.lookup("user"@)) {
                (Some(org), Some(user)) => r matches Some(text) && text@ == org + ":"@ + user,
                _ => r is None,
            },
            None => r is None,
        },
{
    match (params.get("org"), params.get("user")) {
        (Some(org), Some(user)) => {
            let mut text = org.to_owned();
            text.append(":");
            text.append(user);
            Some(text)
        },
        _ => None,
    }
}

/// A small answer.
#[derive(Debug)]
pub struct BenchPayload {
    pub name: String,
}

/// Accepts the one id that is valid.
pub fn validation_success(id: u64) -> (r: Result<BenchPayload, ApiError>)
    ensures
        match r {
            Ok(payload) => id == 42 && payload.name@ == "valid-42"@,
            Err(error) => id != 42 && error@ == error::bad_request_problem("id must be 42"@),
        },
{
    if id == 42 {
        Ok(BenchPayload { name: "valid-42".to_owned() })
    } else {
        Err(ApiError::bad_request("id must be 42"))
    }
}

/// Refuses every request.
pub fn problem() -> (r: ApiError)
    ensures
        r@ == error::bad_request_problem("invalid request"@),
{
    ApiError::bad_request("invalid request")
}

/// A user of the benchmark.
#[derive(Debug)]
pub struct ReferenceUser {
    pub id: u32,
    pub name: String,
    pub email: String,
    pub active: bool,
}

/// Whether a user is the one with the given id.
pub open spec fn is_reference_user(user: ReferenceUser, id: nat) -> bool {
    &&& user.id == id
    &&& user.name@ == "User "@ + number::decimal(id)
    &&& user.email@ == "user"@ + number::decimal(id) + "@example.com"@
    &&& user.active
}

/// The users of the benchmark, a hundred of them.
pub fn reference_users() -> (r: Vec<ReferenceUser>)
    ensures
        r@.len() == 100,
        forall|i: int| 0 <= i < 100 ==> is_reference_user(#[trigger] r@[i], (i + 1) as nat),
{
    let mut users: Vec<ReferenceUser> = Vec::new();
    let mut id: u32 = 1;
    while id <= 100
        invariant
            1 <= id <= 101,
            users@.len() == id - 1,
            forall|i: int|
                0 <= i < users@.len() ==> is_reference_user(#[trigger] users@[i], (i + 1) as nat),
        decreases 101 - id,
    {
        let number = decimal_string(id as u64);
        let mut name = "User ".to_owned();
        name.append(number.as_str());
        let mut email = "user".to_owned();
        email.append(number.as_str());
        email.append("@example.com");
        users.push(ReferenceUser { id, name, email, active: true });
        id += 1;
    }
    users
}

/// Why the users of the database could not be had.
#[derive(Debug)]
pub enum DbFailure {
    NotConfigured,
    Query(String),
}

/// What a client is told when the users of the database could not be had.
pub open spec fn database_problem(failure: DbFailure) -> error::Problem {
    match failure {
        DbFailure::NotConfigured => error::Problem {
            status: 503,
            title: "Database Unavailable"@,
            detail: "DATABASE_URL is not configured"@,
            missing: false,
        },
        DbFailure::Query(message) => error::Problem {
            status: 502,
            title: "Database Error"@,
            detail: message@,
            missing: false,
        },
    }
}

/// The error of a request for the users of the database.
pub fn users_db_error(failure: DbFailure) -> (r: ApiError)
    ensures
        r@ == database_problem(failure),
{
    match failure {
        DbFailure::NotConfigured => ApiError::new(
            StatusCode::service_unavailable(),
            "Database Unavailable",
            "DATABASE_URL is not configured",
        ),
        DbFailure::Query(message) => ApiError::new(
            StatusCode::bad_gateway(),
            "Database Error",
            message.as_str(),
        ),
    }
}

/// The number that a UUID text stands for, if the `uuid` crate reads it as one.
pub uninterp spec fn uuid_number(text: Seq<char>) -> Option<u128>;

/// The hexadecimal digit with the given place in a UUID, counted from the left.
pub open spec fn uuid_digit(number: u128, place: int) -> char {
    let digit = (number as int / vstd::arithmetic::power::pow(16, (31 - place) as nat)) % 16;
    if digit < 10 {
        (digit + 48) as u8 as char
    } else {
        (digit + 87) as u8 as char
    }
}

/// The text of a UUID: thirty-two lower-case hexadecimal digits, with hyphens behind the
/// eighth, twelfth, sixteenth and twentieth.
pub open spec fn uuid_text(number: u128) -> Seq<char> {
    Seq::new(
        36,
        |i: int|
            if i == 8 || i == 13 || i == 18 || i == 23 {
                '-'
            } else if i < 8 {
                uuid_digit(number, i)
            } else if i < 13 {
                uuid_digit(number, i - 1)
            } else if i < 18 {
                uuid_digit(number, i - 2)
            } else if i < 23 {
                uuid_digit(number, i - 3)
            } else {
                uuid_digit(number, i - 4)
            },
    )
}

/// `uuid::Uuid::parse_str`: the number of a UUID text, and nothing for any other text.
#[verifier::external_body]
fn parse_uuid(text: &str) -> (r: Option<u128>)
    ensures
        r == uuid_number(text@),
{
    uuid::Uuid::parse_str(text).ok().map(|id| id.as_u128())
}

/// `uuid::Uuid::to_string`: the hyphenated text of a UUID in lower case.
#[verifier::external_body]
fn uuid_string(number: u128) -> (r: String)
    ensures
        r@ == uuid_text(number),
{
    uuid::Uuid::from_u128(number).to_string()
}

/// A reply without header fields.
pub open spec fn bare_reply(status: u16, body: Seq<u8>) -> response::ResponseView<()> {
    response::ResponseView {
        status,
        headers: headers::no_header_fields(),
        body: response::BodyView::Full(Some(body)),
    }
}

/// A reply with a media type and a length.
pub open spec fn sized_reply(
    status: u16,
    media_type: Seq<char>,
    body: Seq<u8>,
) -> response::ResponseView<()> {
    response::ResponseView {
        status,
        headers: headers::no_header_fields().insert(
            "content-type"@,
            response::one_value(media_type),
        ).insert("content-length"@, response::one_value(number::decimal(body.len()))),
        body: response::BodyView::Full(Some(body)),
    }
}

/// A reply without header fields.
fn bare(status: StatusCode, body: Bytes) -> (r: HttpResponse<()>)
    ensures
        r@ == bare_reply(status@, payload::bytes_contents(body)),
{
    HttpResponse { status, headers: new_headers(), body: ResponseBody::full(body) }
}

/// A reply of fixed text without header fields.
fn bare_text(status: StatusCode, body: &'static str) -> (r: HttpResponse<()>)
    ensures
        r@ == bare_reply(status@, encode_utf8(body@)),
{
    bare(status, bytes_from_static(body.as_bytes()))
}

/// A reply with a media type and a length.
fn sized(status: StatusCode, media_type: &'static str, body: Bytes) -> (r: HttpResponse<()>)
    requires
        headers::all_visible(encode_utf8(media_type@)),
    ensures
        r@ == sized_reply(status@, media_type@, payload::bytes_contents(body)),
{
    let length: u64 = bytes_len(&body) as u64;
    proof {
        headers::lemma_known_names();
        number::lemma_decimal_ascii(length as nat);
        headers::lemma_visible_text(number::decimal(length as nat));
    }
    let mut fields = new_headers();
    insert_header(&mut fields, header_name("content-type"), static_header_value(media_type));
    insert_header(
        &mut fields,
        header_name("content-length"),
        header_value(decimal_string(length).as_str()),
    );
    HttpResponse { status, headers: fields, body: ResponseBody::full(body) }
}

/// A plain-text reply with its length.
fn sized_text(status: StatusCode, body: Bytes) -> (r: HttpResponse<()>)
    ensures
        r@ == sized_reply(status@, "text/plain; charset=utf-8"@, payload::bytes_contents(body)),
{
    proof {
        reveal_strlit("text/plain; charset=utf-8");
        headers::lemma_visible_text("text/plain; charset=utf-8"@);
    }
    sized(status, "text/plain; charset=utf-8", body)
}

/// A JSON reply with its length.
fn sized_json(status: StatusCode, body: &'static str) -> (r: HttpResponse<()>)
    ensures
        r@ == sized_reply(status@, "application/json"@, encode_utf8(body@)),
{
    proof {
        reveal_strlit("application/json");
        headers::lemma_visible_text("application/json"@);
    }
    sized(status, "application/json", bytes_from_static(body.as_bytes()))
}

/// The reply to a value that cannot be used.
pub open spec fn bad_request_reply() -> response::ResponseView<()> {
    bare_reply(400, encode_utf8("Bad Request"@))
}

/// The number in a text, if it has sixty-four bits.
pub open spec fn small_number(text: Seq<char>) -> Option<nat> {
    match number::natural_value(encode_utf8(text)) {
        Some(n) if n <= u64::MAX => Some(n),
        _ => None,
    }
}

/// The reply that repeats a number.
pub open spec fn number_reply(text: Seq<char>) -> response::ResponseView<()> {
    match small_number(text) {
        Some(n) => bare_reply(200, encode_utf8(number::decimal(n))),
        None => bad_request_reply(),
    }
}

/// The reply to the one id that is valid.
pub open spec fn validation_reply(text: Seq<char>) -> response::ResponseView<()> {
    if small_number(text) == Some(42nat) {
        sized_reply(200, "application/json"@, encode_utf8("{\"name\":\"valid-42\"}"@))
    } else {
        bad_request_reply()
    }
}

/// The reply that repeats a UUID, given the number that it stands for.
pub open spec fn uuid_reply_view(number: Option<u128>) -> response::ResponseView<()> {
    match number {
        Some(number) => bare_reply(200, encode_utf8(uuid_text(number))),
        None => bad_request_reply(),
    }
}

/// The reply to a client, by its key.
pub open spec fn secure_reply(fields: Map<Seq<char>, Seq<Seq<u8>>>) -> response::ResponseView<()> {
    if visible_header(fields, "x-api-key"@) == Some(encode_utf8("abc-secret"@)) {
        sized_reply(200, "text/plain; charset=utf-8"@, encode_utf8("authorized"@))
    } else {
        sized_reply(401, "text/plain; charset=utf-8"@, encode_utf8("Unauthorized"@))
    }
}

/// The bytes of a header field that is visible text.
pub open spec fn visible_header(
    fields: Map<Seq<char>, Seq<Seq<u8>>>,
    name: Seq<char>,
) -> Option<Seq<u8>> {
    if fields.contains_key(name) && headers::all_visible(fields[name][0]) {
        Some(fields[name][0])
    } else {
        None
    }
}

/// The reply that repeats two captures.
pub open spec fn params_reply(text: Seq<char>) -> response::ResponseView<()> {
    let at = text::position(text, '/');
    if 0 < at && at < text.len() - 1 {
        sized_reply(
            200,
            "text/plain; charset=utf-8"@,
            encode_utf8(text.take(at) + ":"@ + text.skip(at + 1)),
        )
    } else {
        sized_reply(400, "text/plain; charset=utf-8"@, encode_utf8("Bad Request"@))
    }
}

/// The reply to the one search that is known.
pub open spec fn search_reply(query: Option<Seq<char>>) -> response::ResponseView<()> {
    if query == Some("page=42&active=true"@) {
        bare_reply(200, encode_utf8("42:true"@))
    } else {
        bad_request_reply()
    }
}

/// The reply that repeats a trace.
pub open spec fn trace_reply(fields: Map<Seq<char>, Seq<Seq<u8>>>) -> response::ResponseView<()> {
    match visible_header(fields, "x-trace-id"@) {
        Some(value) => bare_reply(
            if value == encode_utf8("Bad Request"@) {
                400
            } else {
                200
            },
            value,
        ),
        None => bad_request_reply(),
    }
}

/// What the bare server does with a request: it replies, or asks the database first.
pub enum RawAction {
    Reply(HttpResponse<()>),
    QueryDatabase,
}

/// What a [`RawAction`] says.
pub enum RawActionView {
    Reply(response::ResponseView<()>),
    QueryDatabase,
}

impl View for RawAction {
    type V = RawActionView;

    open spec fn view(&self) -> RawActionView {
        match self {
            RawAction::Reply(response) => RawActionView::Reply(response@),
            RawAction::QueryDatabase => RawActionView::QueryDatabase,
        }
    }
}

/// What follows a prefix, if a text starts with it.
pub open spec fn after_prefix(text: Seq<char>, prefix: Seq<char>) -> Option<Seq<char>> {
    if prefix.len() <= text.len() && text.take(prefix.len() as int) == prefix {
        Some(text.skip(prefix.len() as int))
    } else {
        None
    }
}

/// The reply to a path with a value at its end.
pub open spec fn value_reply(path: Seq<char>) -> Option<response::ResponseView<()>> {
    if after_prefix(path, "/params/"@) is Some {
        Some(params_reply(after_prefix(path, "/params/"@)->0))
    } else if after_prefix(path, "/users/"@) is Some {
        Some(number_reply(after_prefix(path, "/users/"@)->0))
    } else if after_prefix(path, "/uuid/"@) is Some {
        Some(uuid_reply_view(uuid_number(after_prefix(path, "/uuid/"@)->0)))
    } else {
        None
    }
}

/// The reply to a path that is known as a whole.
pub open spec fn fixed_reply(path: Seq<char>, users: Seq<u8>) -> Option<
    response::ResponseView<()>,
> {
    if path == "/plaintext"@ || path == "/fixed/path"@ {
        Some(bare_reply(200, encode_utf8("OK"@)))
    } else if path == "/json-static"@ || path == "/json-small"@ {
        Some(response::json_response(200, encode_utf8("{\"id\":1,\"name\":\"Alice\"}"@)))
    } else if path == "/users-static"@ || path == "/users"@ {
        Some(response::json_response(200, users))
    } else if path == "/raw-handler"@ {
        Some(sized_reply(200, "text/plain; charset=utf-8"@, encode_utf8("OK"@)))
    } else if path == "/problem"@ {
        Some(
            sized_reply(
                400,
                "application/json"@,
                encode_utf8(
                    "{\"type\":\"about:blank\",\"title\":\"Bad Request\",\"status\":400,\"detail\":\"invalid request\"}"@,
                ),
            ),
        )
    } else {
        None
    }
}

/// What the bare server does with a request.
pub open spec fn raw_action_of(
    method: Seq<char>,
    path: Seq<char>,
    query: Option<Seq<char>>,
    fields: Map<Seq<char>, Seq<Seq<u8>>>,
    users: Seq<u8>,
) -> RawActionView {
    if method != "GET"@ {
        RawActionView::Reply(
            response::ResponseView {
                status: 405,
                headers: response::allow_fields("GET"@),
                body: response::BodyView::Full(Some(Seq::empty())),
            },
        )
    } else if path == "/users-db"@ {
        RawActionView::QueryDatabase
    } else {
        RawActionView::Reply(
            if fixed_reply(path, users) is Some {
                fixed_reply(path, users)->0
            } else if after_prefix(path, "/validation-success/"@) is Some {
                validation_reply(after_prefix(path, "/validation-success/"@)->0)
            } else if path == "/secure"@ {
                secure_reply(fields)
            } else if value_reply(path) is Some {
                value_reply(path)->0
            } else if path == "/search"@ {
                search_reply(query)
            } else if path == "/trace"@ {
                trace_reply(fields)
            } else {
                bare_reply(404, encode_utf8("Not Found"@))
            },
        )
    }
}

/// What follows one of the known prefixes.
fn after<'a>(text: &'a str, prefix: &str) -> (r: Option<&'a str>)
    requires
        prefix@.len() > 0,
        is_ascii_chars(prefix@),
    ensures
        match r {
            Some(rest) => after_prefix(text@, prefix@) == Some(rest@),
            None => after_prefix(text@, prefix@) is None,
        },
{
    match strip_prefix(text, prefix) {
        Some(rest) => {
            proof {
                assert(text@.take(prefix@.len() as int) =~= prefix@);
                assert(text@.skip(prefix@.len() as int) =~= rest@);
            }
            Some(rest)
        },
        None => {
            proof {
                if after_prefix(text@, prefix@) is Some {
                    let rest = text@.skip(prefix@.len() as int);
                    assert(text@ =~= prefix@ + rest);
                }
            }
            None
        },
    }
}

/// The text of a header field that is visible text.
fn header_of<'a>(fields: &'a HeaderMap<HeaderValue>, name: &'static str) -> (r: Option<&'a str>)
    requires
        headers::is_header_name(name@),
    ensures
        match r {
            Some(value) => visible_header(headers::header_fields(*fields), name@) == Some(
                encode_utf8(value@),
            ),
            None => visible_header(headers::header_fields(*fields), name@) is None,
        },
{
    match get_header(fields, &header_name(name)) {
        Some(value) => header_value_str(value),
        None => None,
    }
}

/// The number in a text, if it has sixty-four bits.
fn number_in(text: &str) -> (r: Option<u64>)
    ensures
        match r {
            Some(n) => small_number(text@) == Some(n as nat),
            None => small_number(text@) is None,
        },
{
    parse_u64(text)
}

/// The reply that repeats a UUID, given the number that it stands for.
pub fn uuid_reply(number: Option<u128>) -> (r: HttpResponse<()>)
    ensures
        r@ == uuid_reply_view(number),
{
    match number {
        Some(number) => bare(StatusCode::ok(), bytes_from_string(uuid_string(number))),
        None => bare_text(StatusCode::bad_request(), "Bad Request"),
    }
}

/// The reply that repeats two captures.
fn params_response(text: &str) -> (r: HttpResponse<()>)
    ensures
        r@ == params_reply(text@),
{
    match split_once(text, 47) {
        Some((org, user)) => {
            proof {
                text::lemma_position(text@, '/', org@, user@);
                text::lemma_encode_len(org@);
                text::lemma_encode_len(user@);
            }
            if !org.is_empty() && !user.is_empty() {
                let mut body = org.to_owned();
                body.append(":");
                body.append(user);
                sized_text(StatusCode::ok(), bytes_from_string(body))
            } else {
                sized_text(
                    StatusCode::bad_request(),
                    bytes_from_static("Bad Request".as_bytes()),
                )
            }
        },
        None => {
            proof {
                text::lemma_no_position(text@, '/');
            }
            sized_text(StatusCode::bad_request(), bytes_from_static("Bad Request".as_bytes()))
        },
    }
}

/// The reply to a path with a value at its end.
fn value_response(path: &str) -> (r: Option<HttpResponse<()>>)
    ensures
        match r {
            Some(response) => value_reply(path@) == Some(response@),
            None => value_reply(path@) is None,
        },
{
    proof {
        reveal_strlit("/params/");
        reveal_strlit("/users/");
        reveal_strlit("/uuid/");
    }
    if let Some(value) = after(path, "/params/") {
        return Some(params_response(value));
    }
    if let Some(value) = after(path, "/users/") {
        return Some(
            match number_in(value) {
                Some(id) => bare(StatusCode::ok(), bytes_from_string(decimal_string(id))),
                None => bare_text(StatusCode::bad_request(), "Bad Request"),
            },
        );
    }
    if let Some(value) = after(path, "/uuid/") {
        return Some(uuid_reply(parse_uuid(value)));
    }
    None
}

/// The reply to a path that is known as a whole.
fn fixed_response(path: &str, users: Bytes) -> (r: Option<HttpResponse<()>>)
    ensures
        match r {
            Some(response) => fixed_reply(path@, payload::bytes_contents(users)) == Some(
                response@,
            ),
            None => fixed_reply(path@, payload::bytes_contents(users)) is None,
        },
{
    if str_equal(path, "/plaintext") || str_equal(path, "/fixed/path") {
        Some(bare_text(StatusCode::ok(), "OK"))
    } else if str_equal(path, "/json-static") || str_equal(path, "/json-small") {
        Some(
            response_json_bytes(
                StatusCode::ok(),
                bytes_from_static("{\"id\":1,\"name\":\"Alice\"}".as_bytes()),
            ),
        )
    } else if str_equal(path, "/users-static") || str_equal(path, "/users") {
        Some(response_json_bytes(StatusCode::ok(), users))
    } else if str_equal(path, "/raw-handler") {
        Some(sized_text(StatusCode::ok(), bytes_from_static("OK".as_bytes())))
    } else if str_equal(path, "/problem") {
        Some(
            sized_json(
                StatusCode::bad_request(),
                "{\"type\":\"about:blank\",\"title\":\"Bad Request\",\"status\":400,\"detail\":\"invalid request\"}",
            ),
        )
    } else {
        None
    }
}

/// What the bare server does with a request. `users` holds the users of the benchmark as
/// JSON.
#[verifier::spinoff_prover]
#[verifier::rlimit(60)]
pub fn raw_action(
    method: &Method,
    path: &str,
    query: Option<&str>,
    fields: &HeaderMap<HeaderValue>,
    users: Bytes,
) -> (r: RawAction)
    ensures
        r@ == raw_action_of(
            method@,
            path@,
            match query {
                Some(query) => Some(query@),
                None => None,
            },
            headers::header_fields(*fields),
            payload::bytes_contents(users),
        ),
{
    if !method.same(&Method::GET) {
        proof {
            headers::lemma_known_names();
            reveal_strlit("GET");
            headers::lemma_visible_text("GET"@);
        }
        let mut allow = new_headers();
        insert_header(&mut allow, header_name("allow"), static_header_value("GET"));
        return RawAction::Reply(
            HttpResponse {
                status: StatusCode::method_not_allowed(),
                headers: allow,
                body: ResponseBody::full(empty_bytes()),
            },
        );
    }
    if str_equal(path, "/users-db") {
        return RawAction::QueryDatabase;
    }
    if let Some(response) = fixed_response(path, users) {
        return RawAction::Reply(response);
    }
    proof {
        reveal_strlit("/validation-success/");
        headers::lemma_bench_names();
    }
    if let Some(value) = after(path, "/validation-success/") {
        return RawAction::Reply(
            match number_in(value) {
                Some(42) => sized_json(StatusCode::ok(), "{\"name\":\"valid-42\"}"),
                _ => bare_text(StatusCode::bad_request(), "Bad Request"),
            },
        );
    }
    if str_equal(path, "/secure") {
        let authorized = match header_of(fields, "x-api-key") {
            Some(key) => {
                proof {
                    text::lemma_encode_injective(key@, "abc-secret"@);
                }
                str_equal(key, "abc-secret")
            },
            None => false,
        };
        return RawAction::Reply(
            if authorized {
                sized_text(StatusCode::ok(), bytes_from_static("authorized".as_bytes()))
            } else {
                sized_text(
                    StatusCode::unauthorized(),
                    bytes_from_static("Unauthorized".as_bytes()),
                )
            },
        );
    }
    if let Some(response) = value_response(path) {
        return RawAction::Reply(response);
    }
    if str_equal(path, "/search") {
        let known = match query {
            Some(query) => str_equal(query, "page=42&active=true"),
            None => false,
        };
        return RawAction::Reply(
            if known {
                bare_text(StatusCode::ok(), "42:true")
            } else {
                bare_text(StatusCode::bad_request(), "Bad Request")
            },
        );
    }
    if str_equal(path, "/trace") {
        return RawAction::Reply(
            match header_of(fields, "x-trace-id") {
                Some(value) => {
                    proof {
                        text::lemma_encode_injective(value@, "Bad Request"@);
                    }
                    let status = if str_equal(value, "Bad Request") {
                        StatusCode::bad_request()
                    } else {
                        StatusCode::ok()
                    };
                    bare(status, bytes_from_string(value.to_owned()))
                },
                None => bare_text(StatusCode::bad_request(), "Bad Request"),
            },
        );
    }
    RawAction::Reply(bare_text(StatusCode::not_found(), "Not Found"))
}

/// What the database gave the bare server.
pub enum DbReply {
    Users(Bytes),
    NotConfigured,
    QueryFailed,
    SerializationFailed,
}

/// The reply to a request for the users of the database.
pub open spec fn db_reply_view(reply: DbReply) -> response::ResponseView<()> {
    match reply {
        DbReply::Users(users) => response::json_response(200, payload::bytes_contents(users)),
        DbReply::NotConfigured => bare_reply(503, encode_utf8("database error"@)),
        DbReply::QueryFailed => bare_reply(502, encode_utf8("database error"@)),
        DbReply::SerializationFailed => bare_reply(500, encode_utf8("database error"@)),
    }
}

/// The reply to a request for the users of the database.
pub fn db_response(reply: DbReply) -> (r: HttpResponse<()>)
    ensures
        r@ == db_reply_view(reply),
{
    match reply {
        DbReply::Users(users) => response_json_bytes(StatusCode::ok(), users),
        DbReply::NotConfigured => bare_text(StatusCode::service_unavailable(), "database error"),
        DbReply::QueryFailed => bare_text(StatusCode::bad_gateway(), "database error"),
        DbReply::SerializationFailed => bare_text(
            StatusCode::internal_server_error(),
            "database error",
        ),
    }
}

} // verus!
