//! The application as a whole: routes are registered, requests are served.

use bytes::Bytes;
use http::{HeaderMap, HeaderName, HeaderValue};
use oas_rs::app::App;
use oas_rs::bench::TraceId;
use oas_rs::derive::{object_schema, query_parameters, SchemaField};
use oas_rs::dispatch::{BodyOutcome, PreparedDispatch};
use oas_rs::error::ApiError;
use oas_rs::extract::{
    check_json_request, optional, parsed, path_text, Header, HeaderSpec, Needs, Path, Query, State,
};
use oas_rs::fields::read_fields;
use oas_rs::method::Method;
use oas_rs::openapi::BuildError;
use oas_rs::params::Params;
use oas_rs::percent::decode_query_component;
use oas_rs::plan::{CaptureMode, Endpoint, HandlerKind};
use oas_rs::response::{
    maybe_head_flag, serialized_response, Created, HttpResponse, IntoResponse, Json, NoContent,
    NotModified, ResponseBody, ResponseMetadata, StreamResponse,
};
use oas_rs::router::resolve_route_set;
use oas_rs::runtime::AppRuntime;
use oas_rs::schema::{ApiSchema, OpenApiRequest};
use oas_rs::status::StatusCode;
use serde_json::Value;
use std::cell::Cell;
use std::rc::Rc;
use std::str::FromStr;
use std::sync::Arc;
use uuid::Uuid;

/// A stream whose chunks are known.
struct Chunks(Vec<Bytes>);

type Reply = HttpResponse<Chunks>;

/// What a handler sees of a request.
struct Call<'a> {
    path: &'a str,
    query: &'a str,
    headers: &'a HeaderMap,
    body: &'a Bytes,
}

type Handler<S> = Box<dyn Fn(&Call<'_>, &Params, &Arc<S>) -> Reply>;

/// A value that a handler reads of a request.
trait Extract<S>: Sized {
    fn needs() -> Needs {
        Needs::nothing()
    }

    fn request() -> OpenApiRequest {
        OpenApiRequest::default()
    }

    fn extract(call: &Call<'_>, params: &Params, state: &Arc<S>) -> Result<Self, ApiError>;
}

impl<S> Extract<S> for State<S> {
    fn extract(_call: &Call<'_>, _params: &Params, state: &Arc<S>) -> Result<Self, ApiError> {
        Ok(State::extract(state))
    }
}

impl<S> Extract<S> for Params {
    fn needs() -> Needs {
        Needs { params: true, capture: true, body: false }
    }

    fn extract(_call: &Call<'_>, params: &Params, _state: &Arc<S>) -> Result<Self, ApiError> {
        Ok(params.clone())
    }
}

impl<S, T: FromStr + ApiSchema> Extract<S> for Path<T>
where
    T::Err: std::fmt::Display,
{
    fn needs() -> Needs {
        Needs { params: false, capture: true, body: false }
    }

    fn request() -> OpenApiRequest {
        Path::<T>::openapi_request()
    }

    fn extract(call: &Call<'_>, params: &Params, _state: &Arc<S>) -> Result<Self, ApiError> {
        let text = path_text(params, call.path)?;
        parsed(text.parse::<T>().map_err(|error| error.to_string())).map(Path)
    }
}

/// A type that is read from a query field by field.
trait QueryType: Sized {
    fn parameters() -> Vec<Value>;
    fn parse(query: &str) -> Result<Self, ApiError>;
}

impl<S, T: QueryType> Extract<S> for Query<T> {
    fn request() -> OpenApiRequest {
        OpenApiRequest::for_query(T::parameters())
    }

    fn extract(call: &Call<'_>, _params: &Params, _state: &Arc<S>) -> Result<Self, ApiError> {
        T::parse(call.query).map(Query)
    }
}

/// A type that is sent and received as JSON.
trait JsonType: ApiSchema + Sized {
    fn from_json(value: Value) -> Result<Self, String>;
    fn to_json(&self) -> Result<Vec<u8>, String>;
}

impl<S, T: JsonType> Extract<S> for Json<T> {
    fn needs() -> Needs {
        Needs { params: false, capture: false, body: true }
    }

    fn request() -> OpenApiRequest {
        Json::<T>::openapi_request()
    }

    fn extract(call: &Call<'_>, _params: &Params, _state: &Arc<S>) -> Result<Self, ApiError> {
        check_json_request(call.headers, call.body)?;
        let value = serde_json::from_slice::<Value>(call.body).map_err(|error| error.to_string());
        parsed(value.and_then(T::from_json)).map(Json)
    }
}

impl<S, T: HeaderSpec> Extract<S> for Header<T> {
    fn request() -> OpenApiRequest {
        Header::<T>::openapi_request()
    }

    fn extract(call: &Call<'_>, _params: &Params, _state: &Arc<S>) -> Result<Self, ApiError> {
        Header::extract(call.headers)
    }
}

impl<S, T: Extract<S>> Extract<S> for Option<T> {
    fn needs() -> Needs {
        T::needs()
    }

    fn request() -> OpenApiRequest {
        T::request().optional()
    }

    fn extract(call: &Call<'_>, params: &Params, state: &Arc<S>) -> Result<Self, ApiError> {
        optional(T::extract(call, params, state))
    }
}

impl<T: JsonType + Send + 'static> IntoResponse<Chunks> for Json<T> {
    fn into_response(self) -> Reply {
        serialized_response(StatusCode::ok(), self.0.to_json())
    }
}

impl<T: JsonType + Send + 'static> IntoResponse<Chunks> for Created<T> {
    fn into_response(self) -> Reply {
        serialized_response(StatusCode::created(), self.0.to_json())
    }
}

fn endpoint<S, R: ResponseMetadata>(
    handler: Handler<S>,
    zero: bool,
    needs: Needs,
    request: OpenApiRequest,
) -> Endpoint<Handler<S>> {
    Endpoint {
        handler,
        zero,
        needs,
        response_status: R::status_code(),
        response_schema: R::response_schema(),
        request,
    }
}

fn zero<S, R>(handler: impl Fn() -> R + 'static) -> Endpoint<Handler<S>>
where
    R: IntoResponse<Chunks> + ResponseMetadata,
{
    endpoint::<S, R>(
        Box::new(move |_, _, _| handler().into_response()),
        true,
        Needs::nothing(),
        OpenApiRequest::default(),
    )
}

fn one<S: 'static, E: Extract<S>, R>(handler: impl Fn(E) -> R + 'static) -> Endpoint<Handler<S>>
where
    R: IntoResponse<Chunks> + ResponseMetadata,
{
    endpoint::<S, R>(
        Box::new(move |call, params, state| match E::extract(call, params, state) {
            Ok(value) => handler(value).into_response(),
            Err(error) => error.into_response(),
        }),
        false,
        E::needs(),
        E::request(),
    )
}

fn two<S: 'static, E: Extract<S>, F: Extract<S>, R>(
    handler: impl Fn(E, F) -> R + 'static,
) -> Endpoint<Handler<S>>
where
    R: IntoResponse<Chunks> + ResponseMetadata,
{
    let mut request = E::request();
    request.merge(F::request());
    endpoint::<S, R>(
        Box::new(move |call, params, state| {
            let first = match E::extract(call, params, state) {
                Ok(value) => value,
                Err(error) => return error.into_response(),
            };
            match F::extract(call, params, state) {
                Ok(second) => handler(first, second).into_response(),
                Err(error) => error.into_response(),
            }
        }),
        false,
        E::needs().join(F::needs()),
        request,
    )
}

/// A response as a client sees it.
struct Answer {
    status: u16,
    headers: HeaderMap,
    body: String,
}

impl Answer {
    fn of(response: Reply) -> Answer {
        let mut body = response.body;
        let bytes: Vec<u8> = match &body {
            ResponseBody::Stream(chunks) => chunks.0.concat(),
            ResponseBody::Full(_) => {
                let taken = body.take_full().expect("a body that was not sent yet");
                assert!(body.is_end_stream());
                taken.to_vec()
            }
        };
        Answer {
            status: response.status.as_u16(),
            headers: response.headers,
            body: String::from_utf8(bytes).expect("text"),
        }
    }

    fn header(&self, name: &str) -> Option<&str> {
        self.headers.get(name).and_then(|value| value.to_str().ok())
    }
}

fn header_map(headers: &[(&str, &str)]) -> HeaderMap {
    let mut map = HeaderMap::new();
    for (name, value) in headers {
        if !name.is_empty() {
            map.append(
                HeaderName::from_str(name).expect("header name"),
                HeaderValue::from_str(value).expect("header value"),
            );
        }
    }
    map
}

fn finish<S>(
    prepared: PreparedDispatch<'_, Handler<S>, Chunks>,
    call: &Call<'_>,
    state: &Arc<S>,
) -> Reply {
    match prepared {
        PreparedDispatch::Ready(response) => response,
        PreparedDispatch::Zero(is_head, handler) | PreparedDispatch::NoParams(is_head, handler) => {
            maybe_head_flag(is_head, handler(call, Params::empty(), state))
        }
        PreparedDispatch::Typed(is_head, handler, params) => {
            maybe_head_flag(is_head, handler(call, &params, state))
        }
        PreparedDispatch::Raw(is_head, handler) => {
            maybe_head_flag(is_head, handler(call, Params::empty(), state))
        }
        PreparedDispatch::Buffered(..) => panic!("the body was collected"),
    }
}

fn split_uri(uri: &str) -> (&str, &str) {
    uri.split_once('?').unwrap_or((uri, ""))
}

fn oneshot<S>(
    app: &mut App<S, Handler<S>>,
    method: Method,
    uri: &str,
    headers: &[(&str, &str)],
    body: Option<Bytes>,
) -> Answer {
    let (path, query) = split_uri(uri);
    let headers = header_map(headers);
    let body = body.unwrap_or_default();
    let call = Call { path, query, headers: &headers, body: &body };
    let state = Arc::clone(&app.state);
    let prepared = app.oneshot(&method, uri, body.len()).expect("valid test request");
    Answer::of(finish(prepared, &call, &state))
}

/// What reading a body comes to.
enum Arrival {
    Whole(Bytes),
    TooLarge,
    Interrupted,
}

fn serve<S>(
    runtime: &AppRuntime<S, Handler<S>>,
    method: Method,
    uri: &str,
    headers: &[(&str, &str)],
    arrival: Arrival,
) -> Answer {
    let (path, query) = split_uri(uri);
    let headers = header_map(headers);
    let empty = Bytes::new();
    let (body, outcome) = match &arrival {
        Arrival::Whole(bytes) => (bytes, BodyOutcome::Collected(bytes.len())),
        Arrival::TooLarge => (&empty, BodyOutcome::TooLarge),
        Arrival::Interrupted => (&empty, BodyOutcome::Interrupted),
    };
    let call = Call { path, query, headers: &headers, body };
    let prepared = match runtime.prepare(&method, path, &headers) {
        PreparedDispatch::Buffered(is_head, index, captures, _limit) => {
            runtime.resume(index, captures, path, outcome, is_head)
        }
        prepared => prepared,
    };
    Answer::of(finish(prepared, &call, &runtime.state))
}

fn runtime_oneshot<S>(
    runtime: &AppRuntime<S, Handler<S>>,
    method: Method,
    uri: &str,
) -> Answer {
    let (path, query) = split_uri(uri);
    let headers = HeaderMap::new();
    let body = Bytes::new();
    let call = Call { path, query, headers: &headers, body: &body };
    let prepared = runtime.oneshot(&method, uri, body.len()).expect("valid test request");
    Answer::of(finish(prepared, &call, &runtime.state))
}

fn plain() -> App<(), Handler<()>> {
    App::new()
}

#[derive(Clone, Default)]
struct TestState;

fn with_test_state() -> App<TestState, Handler<TestState>> {
    plain().with_state(TestState)
}

struct Search {
    page: u32,
    active: bool,
}

impl Search {
    fn fields() -> Vec<SchemaField> {
        vec![
            SchemaField::new("page", u32::schema(), true),
            SchemaField::new("active", bool::schema(), true),
        ]
    }
}

impl QueryType for Search {
    fn parameters() -> Vec<Value> {
        query_parameters(&Search::fields())
    }

    fn parse(query: &str) -> Result<Self, ApiError> {
        let values = read_fields(query, &["page", "active"], &[true, true], |field, value| {
            match field {
                0 => parsed(value.parse::<u32>().map_err(|e| e.to_string())).map(SearchField::Page),
                _ => parsed(value.parse::<bool>().map_err(|e| e.to_string()))
                    .map(SearchField::Active),
            }
        })?;
        match values[..] {
            [Some(SearchField::Page(page)), Some(SearchField::Active(active))] => {
                Ok(Search { page, active })
            }
            _ => panic!("both fields are required"),
        }
    }
}

#[derive(Clone, Copy)]
enum SearchField {
    Page(u32),
    Active(bool),
}

#[derive(PartialEq, Debug)]
struct Payload {
    name: String,
}

impl ApiSchema for Payload {
    fn schema() -> Value {
        object_schema(&[SchemaField::new("name", String::schema(), true)])
    }
}

impl JsonType for Payload {
    fn from_json(value: Value) -> Result<Self, String> {
        match value.get("name").and_then(Value::as_str) {
            Some(name) => Ok(Payload { name: name.to_owned() }),
            None => Err("missing field `name`".to_owned()),
        }
    }

    fn to_json(&self) -> Result<Vec<u8>, String> {
        let mut map = serde_json::Map::new();
        map.insert("name".to_owned(), Value::from(self.name.as_str()));
        serde_json::to_vec(&Value::Object(map)).map_err(|error| error.to_string())
    }
}

struct CustomValue;

impl Extract<TestState> for CustomValue {
    fn extract(
        call: &Call<'_>,
        _params: &Params,
        _state: &Arc<TestState>,
    ) -> Result<Self, ApiError> {
        let Some(value) = call.headers.get("x-custom") else {
            return Err(ApiError::missing("custom value is absent"));
        };
        if value.to_str().ok() == Some("valid") {
            Ok(CustomValue)
        } else {
            Err(ApiError::bad_request("custom value is invalid"))
        }
    }
}

fn hello() -> &'static str {
    "OK"
}

fn user(path: Path<u64>, _state: State<TestState>) -> String {
    path.0.to_string()
}

fn search(query: Query<Search>) -> String {
    format!("{}:{}", query.0.page, query.0.active)
}

fn echo(payload: Json<Payload>) -> Json<Payload> {
    payload
}

fn trace(header: Header<TraceId>) -> String {
    header.0 .0
}

fn presence<T>(value: Option<T>) -> &'static str {
    if value.is_some() {
        "present"
    } else {
        "missing"
    }
}

struct StrictTraceId;

impl HeaderSpec for StrictTraceId {
    const NAME: &'static str = "x-strict-trace-id";

    fn parse(value: &str) -> Result<Self, ApiError> {
        if value == "valid" {
            Ok(StrictTraceId)
        } else {
            Err(ApiError::bad_request("invalid strict trace id"))
        }
    }
}

struct FailingSerialize;

impl ApiSchema for FailingSerialize {
    fn schema() -> Value {
        Value::Object([("type".to_owned(), Value::from("object"))].into_iter().collect())
    }
}

impl JsonType for FailingSerialize {
    fn from_json(_value: Value) -> Result<Self, String> {
        Err("never read".to_owned())
    }

    fn to_json(&self) -> Result<Vec<u8>, String> {
        Err("intentional serialization failure".to_owned())
    }
}

fn params(params: Params) -> String {
    format!("{}:{}", params.get("org").unwrap(), params.get("user").unwrap())
}

fn uuid_user(path: Path<Uuid>) -> Json<Payload> {
    Json(Payload { name: path.0.to_string() })
}

fn ada() -> Json<Payload> {
    Json(Payload { name: "Ada".to_owned() })
}

const ADA: &[u8] = br#"{"name":"Ada"}"#;

#[test]
fn app_registers_static_dynamic_and_query_routes() {
    let mut app = with_test_state();
    app.get("/plaintext", zero(hello))
        .tag("Benchmark")
        .summary("Static response")
        .operation_id("getPlaintext");
    app.get("/users/{id}", two(user)).tag("Users");
    app.get("/search", one(search));

    let response = oneshot(&mut app, Method::GET, "/users/123456", &[("", "")], None);
    assert_eq!(response.status, 200);
    assert_eq!(response.body, "123456");

    let response = oneshot(&mut app, Method::GET, "/search?page=42&active=true", &[], None);
    assert_eq!(response.status, 200);
    assert_eq!(response.body, "42:true");

    let response = oneshot(&mut app, Method::GET, "/search?%70age=42&active=true", &[], None);
    assert_eq!(response.status, 200);
    assert_eq!(response.body, "42:true");

    let response = oneshot(
        &mut app,
        Method::GET,
        "/search?unknown=%ZZ&page=42&active=true",
        &[],
        None,
    );
    assert_eq!(response.status, 400);
}

#[test]
fn handler_supports_eight_extractors() {
    type S = TestState;
    type E1 = Path<u64>;
    type E2 = Query<Search>;
    type E3 = Header<TraceId>;
    type E4 = State<TestState>;
    type E5 = Json<Payload>;
    type E6 = Option<Header<TraceId>>;
    type E7 = Option<Json<Payload>>;
    type E8 = Params;
    fn read(call: &Call<'_>, params: &Params, state: &Arc<S>) -> Result<String, ApiError> {
        let id = <E1 as Extract<S>>::extract(call, params, state)?;
        let query = <E2 as Extract<S>>::extract(call, params, state)?;
        let trace = <E3 as Extract<S>>::extract(call, params, state)?;
        let _state = <E4 as Extract<S>>::extract(call, params, state)?;
        let payload = <E5 as Extract<S>>::extract(call, params, state)?;
        let optional_trace = <E6 as Extract<S>>::extract(call, params, state)?;
        let optional_json = <E7 as Extract<S>>::extract(call, params, state)?;
        let _params = <E8 as Extract<S>>::extract(call, params, state)?;
        Ok(format!(
            "{}:{}:{}:{}:{}:{}",
            id.0,
            query.0.active,
            trace.0 .0,
            payload.0.name,
            optional_trace.is_some(),
            optional_json.is_some(),
        ))
    }
    let needs = <E1 as Extract<S>>::needs()
        .join(<E2 as Extract<S>>::needs())
        .join(<E3 as Extract<S>>::needs())
        .join(<E4 as Extract<S>>::needs())
        .join(<E5 as Extract<S>>::needs())
        .join(<E6 as Extract<S>>::needs())
        .join(<E7 as Extract<S>>::needs())
        .join(<E8 as Extract<S>>::needs());
    assert!(needs.params && needs.capture && needs.body);
    let mut request = <E1 as Extract<S>>::request();
    request.merge(<E2 as Extract<S>>::request());
    request.merge(<E3 as Extract<S>>::request());
    request.merge(<E4 as Extract<S>>::request());
    request.merge(<E5 as Extract<S>>::request());
    request.merge(<E6 as Extract<S>>::request());
    request.merge(<E7 as Extract<S>>::request());
    request.merge(<E8 as Extract<S>>::request());
    let mut app = with_test_state();
    app.post(
        "/multi/{id}",
        endpoint::<S, String>(
            Box::new(|call, params, state| read(call, params, state).into_response()),
            false,
            needs,
            request,
        ),
    );

    let response = oneshot(
        &mut app,
        Method::POST,
        "/multi/42?page=7&active=true",
        &[("content-type", "application/json"), ("x-trace-id", "abc123")],
        Some(Bytes::from_static(ADA)),
    );
    assert_eq!(response.status, 200);
    assert_eq!(response.body, "42:true:abc123:Ada:true:true");

    // The body of the first extractor counts, and every parameter is listed.
    let document = app.openapi_document();
    let operation = &document["paths"]["/multi/{id}"]["post"];
    assert_eq!(operation["requestBody"]["required"], true);
    assert_eq!(operation["parameters"].as_array().map(Vec::len), Some(5));
    assert_eq!(operation["parameters"][4]["in"], "path");
}

#[test]
fn build_freezes_routes_into_an_immutable_runtime() {
    let mut app = plain();
    app.get("/frozen", zero(hello));
    let runtime = app.build().expect("test app builds");

    let response = runtime_oneshot(&runtime, Method::GET, "/frozen");
    assert_eq!(response.status, 200);
    assert_eq!(response.body, "OK");
}

#[test]
fn http_semantics_and_typed_body_header_are_preserved() {
    let json = [("content-type", "application/json")];
    let mut app = plain();
    app.get("/plaintext", zero(hello));
    app.post("/echo", one(echo));
    app.post("/echo-suffix", one(echo));
    app.get("/trace", one(trace));
    app.get("/optional-trace", one(presence::<Header<TraceId>>));
    app.get("/optional-strict-trace", one(presence::<Header<StrictTraceId>>));
    app.post("/optional-json", one(presence::<Json<Payload>>));
    app.get("/never-stream", zero(|| StreamResponse(Chunks(vec![Bytes::from_static(b"never")]))));
    app.get("/failing-created", zero(|| Created(FailingSerialize)));
    app.openapi();
    app.swagger().path("/swagger");

    let response = oneshot(&mut app, Method::HEAD, "/plaintext", &[], None);
    assert_eq!(response.status, 200);
    assert_eq!(response.header("content-length"), Some("2"));
    assert_eq!(response.body, "");
    let response = oneshot(&mut app, Method::POST, "/plaintext", &[], None);
    assert_eq!(response.status, 405);
    assert_eq!(response.header("allow"), Some("GET"));
    let response = oneshot(&mut app, Method::OPTIONS, "/plaintext", &[], None);
    assert_eq!(response.status, 204);
    let response = oneshot(&mut app, Method::POST, "/echo", &json, Some(Bytes::from_static(ADA)));
    assert_eq!(response.status, 200);
    assert_eq!(response.body, r#"{"name":"Ada"}"#);
    let response = oneshot(&mut app, Method::GET, "/trace", &[("x-trace-id", "abc123")], None);
    assert_eq!(response.body, "abc123");
    let response = oneshot(&mut app, Method::GET, "/trace", &[], None);
    assert_eq!(response.status, 400);
    assert_eq!(response.header("content-type"), Some("application/json"));
    let response = oneshot(&mut app, Method::GET, "/optional-trace", &[], None);
    assert_eq!(response.status, 200);
    assert_eq!(response.body, "missing");
    let response = oneshot(
        &mut app,
        Method::GET,
        "/optional-strict-trace",
        &[("x-strict-trace-id", "invalid")],
        None,
    );
    assert_eq!(response.status, 400);
    let response = oneshot(&mut app, Method::POST, "/optional-json", &[], None);
    assert_eq!(response.status, 200);
    assert_eq!(response.body, "missing");
    let not_json = Some(Bytes::from_static(b"not-json"));
    let response = oneshot(&mut app, Method::POST, "/optional-json", &json, not_json.clone());
    assert_eq!(response.status, 400);
    let response = oneshot(&mut app, Method::POST, "/echo", &[], Some(Bytes::from_static(ADA)));
    assert_eq!(response.status, 415);
    let response = oneshot(
        &mut app,
        Method::POST,
        "/echo-suffix",
        &[("content-type", "application/problem+json; charset=utf-8")],
        Some(Bytes::from_static(ADA)),
    );
    assert_eq!(response.status, 200);
    assert_eq!(response.body, r#"{"name":"Ada"}"#);
    let response = oneshot(
        &mut app,
        Method::POST,
        "/echo",
        &[("content-type", "application/jsonfoo")],
        Some(Bytes::from_static(ADA)),
    );
    assert_eq!(response.status, 415);
    let response = oneshot(&mut app, Method::POST, "/echo", &json, not_json);
    assert_eq!(response.status, 400);
    let response = oneshot(&mut app, Method::GET, "/openapi.json", &[], None);
    assert_eq!(response.status, 200);
    let response = oneshot(&mut app, Method::GET, "/swagger", &[], None);
    assert_eq!(response.status, 200);
    assert!(response.body.contains("SwaggerUIBundle"));
    assert!(response.body.contains("/openapi.json"));
    let response = oneshot(&mut app, Method::GET, "/missing", &[], None);
    assert_eq!(response.status, 404);
    let response = oneshot(&mut app, Method::GET, "/failing-created", &[], None);
    assert_eq!(response.status, 500);
    let response = oneshot(&mut app, Method::HEAD, "/never-stream", &[], None);
    assert_eq!(response.status, 200);
    assert_eq!(response.header("content-length"), None);
    assert_eq!(response.body, "");
}

#[test]
fn custom_optional_extractors_distinguish_missing_from_invalid() {
    let mut app = with_test_state();
    app.get("/optional-custom", one(presence::<CustomValue>));

    let response = oneshot(&mut app, Method::GET, "/optional-custom", &[], None);
    assert_eq!(response.status, 200);
    assert_eq!(response.body, "missing");

    let response =
        oneshot(&mut app, Method::GET, "/optional-custom", &[("x-custom", "invalid")], None);
    assert_eq!(response.status, 400);

    let response =
        oneshot(&mut app, Method::GET, "/optional-custom", &[("x-custom", "valid")], None);
    assert_eq!(response.status, 200);
    assert_eq!(response.body, "present");
}

#[test]
fn configured_body_limit_is_enforced_before_collection() {
    let mut app = plain();
    app.max_body_size(4);
    app.post("/echo", one(echo));

    let response = oneshot(
        &mut app,
        Method::POST,
        "/echo",
        &[("content-type", "application/json")],
        Some(Bytes::from_static(ADA)),
    );
    assert_eq!(response.status, 413);
}

#[test]
fn raw_handler_can_receive_hyper_incoming_directly() {
    let mut app = plain();
    app.raw_get(
        "/raw-incoming",
        Box::new(|call, _, _| {
            assert_eq!(call.path, "/raw-incoming");
            "OK".into_response()
        }),
        StatusCode::ok(),
        None,
    );
    let runtime = app.build().expect("test app builds");
    let answer =
        serve(&runtime, Method::GET, "/raw-incoming", &[], Arrival::Whole(Bytes::new()));
    assert_eq!(answer.body, "OK");
}

#[test]
fn openapi_describes_registered_operations() {
    let mut app = plain();
    app.get("/plaintext", zero(hello))
        .tag("Benchmark")
        .summary("Static response")
        .operation_id("getPlaintext");
    let document = app.openapi_document();
    assert_eq!(document["openapi"], "3.1.0");
    assert_eq!(document["paths"]["/plaintext"]["get"]["summary"], "Static response");
    assert_eq!(document["paths"]["/plaintext"]["get"]["operationId"], "getPlaintext");
    assert_eq!(document["paths"]["/plaintext"]["get"]["tags"][0], "Benchmark");
    assert_eq!(document["info"]["title"], "oas-rs");
    assert_eq!(document["info"]["version"], "0.1.0");
}

#[test]
fn swagger_uses_configured_openapi_path() {
    let mut app = plain();
    app.get("/plaintext", zero(hello));
    app.openapi().path("/spec.json");
    app.swagger().path("/swagger");
    let body = oneshot(&mut app, Method::GET, "/swagger", &[], None).body;
    assert!(body.contains("SwaggerUIBundle"));
    assert!(body.contains("/spec.json"));
    assert!(!body.contains("fetch('/openapi.json')"));
}

#[test]
fn router_supports_multiple_params_precedence_and_percent_encoding() {
    let mut app = plain();
    app.get("/users/{id}", one(|id: Path<String>| format!("dynamic:{}", id.0)));
    app.get("/users/me", zero(|| "static"));
    app.get("/orgs/{org}/users/{user}", one(params));

    let body = |app: &mut App<(), Handler<()>>, uri: &str| {
        oneshot(app, Method::GET, uri, &[], None).body
    };
    assert_eq!(body(&mut app, "/users/me"), "static");
    assert_eq!(body(&mut app, "/users/42"), "dynamic:42");
    assert_eq!(body(&mut app, "/orgs/acme/users/alice"), "acme:alice");
    assert_eq!(
        oneshot(&mut app, Method::GET, "/orgs/%FF/users/alice", &[], None).status,
        400
    );
    assert_eq!(body(&mut app, "/users/a%20b"), "dynamic:a b");
    assert_eq!(body(&mut app, "/users/%C3%A9"), "dynamic:é");

    let response = oneshot(&mut app, Method::HEAD, "/users/42", &[], None);
    assert_eq!(response.status, 200);
    assert_eq!(response.header("content-length"), Some("10"));
    assert_eq!(response.body, "");
}

#[test]
fn percent_decoding_preserves_utf8_and_literal_plus() {
    assert_eq!(decode_query_component("%E2%82%AC+value").unwrap(), "€+value");
}

#[test]
fn routes_over_capture_limit_fail_during_build() {
    let mut app = plain();
    app.get("/a/{a}/b/{b}/c/{c}/d/{d}/e/{e}/f/{f}/g/{g}/h/{h}/i/{i}", zero(hello));

    let error = match app.build() {
        Ok(_) => panic!("routes over the capture limit must not build"),
        Err(error) => error,
    };
    assert_eq!(
        error,
        BuildError::TooManyCaptures {
            path: "/a/{a}/b/{b}/c/{c}/d/{d}/e/{e}/f/{f}/g/{g}/h/{h}/i/{i}".to_owned(),
            captures: 9,
            max: 8,
        }
    );
}

#[test]
fn ten_thousand_static_routes_remain_correct() {
    let mut app = plain();
    for index in 0..10_000 {
        let path = format!("/route/{index}");
        app.get(&path, zero(|| "OK"));
    }
    let response = oneshot(&mut app, Method::GET, "/route/9999", &[], None);
    assert_eq!(response.status, 200);
    assert_eq!(response.body, "OK");
}

#[test]
fn openapi_marks_uuid_path_and_bodyless_response() {
    let mut app = plain();
    app.get("/users/{id}", one(uuid_user));
    app.delete("/users/{id}", zero(|| NoContent));
    app.get("/cached", zero(|| NotModified));
    let document = app.openapi_document();
    assert_eq!(
        document["paths"]["/users/{id}"]["get"]["parameters"][0]["schema"]["format"],
        "uuid"
    );
    assert_eq!(
        document["paths"]["/users/{id}"]["delete"]["responses"]["204"]["description"],
        "No Content"
    );
    assert_eq!(
        document["paths"]["/cached"]["get"]["responses"]["304"]["description"],
        "Not Modified"
    );
}

#[test]
fn openapi_uses_extractor_types_and_response_statuses() {
    let mut app = with_test_state();
    app.get("/users/{id}", two(user));
    app.get("/uuid/{id}", one(uuid_user));
    app.get("/search", one(search));
    app.post("/created", zero(|| Created(Payload { name: "created".to_owned() })));
    app.post("/echo", one(echo));
    app.get("/trace", one(trace));
    app.get("/optional-trace", one(presence::<Header<TraceId>>));
    let document = app.openapi_document();

    assert_eq!(
        document["paths"]["/users/{id}"]["get"]["parameters"][0]["schema"]["type"],
        "integer"
    );
    assert_eq!(
        document["paths"]["/users/{id}"]["get"]["parameters"][0]["schema"]["format"],
        "int64"
    );
    assert_eq!(
        document["paths"]["/uuid/{id}"]["get"]["parameters"][0]["schema"]["format"],
        "uuid"
    );
    assert_eq!(
        document["paths"]["/created"]["post"]["responses"]["201"]["description"],
        "Created"
    );
    let schema =
        &document["paths"]["/echo"]["post"]["requestBody"]["content"]["application/json"]["schema"];
    assert_eq!(schema["type"], "object");
    assert_eq!(schema["properties"]["name"]["type"], "string");
    assert_eq!(document["paths"]["/trace"]["get"]["parameters"][0]["in"], "header");
    assert_eq!(
        document["paths"]["/optional-trace"]["get"]["parameters"][0]["required"],
        false
    );
    assert_eq!(document["paths"]["/search"]["get"]["parameters"][0]["name"], "page");
    assert_eq!(
        document["paths"]["/search"]["get"]["parameters"][1]["schema"]["type"],
        "boolean"
    );
}

#[test]
fn all_registered_http_methods_and_bodyless_responses_conform() {
    let mut app = plain();
    app.get("/resource", zero(hello));
    app.head("/head-only", zero(hello));
    app.post("/resource", zero(hello));
    app.put("/resource", zero(hello));
    app.patch("/resource", zero(hello));
    app.delete("/resource", zero(|| NoContent));
    app.options("/explicit-options", zero(|| "explicit"));
    app.get("/cached", zero(|| NotModified));

    for method in [
        Method::GET,
        Method::HEAD,
        Method::POST,
        Method::PUT,
        Method::PATCH,
        Method::DELETE,
    ] {
        let response = oneshot(&mut app, method, "/resource", &[], None);
        assert_ne!(response.status, 405);
    }
    let response = oneshot(&mut app, Method::OPTIONS, "/resource", &[], None);
    assert_eq!(response.status, 204);
    assert_eq!(response.body, "");

    let response = oneshot(&mut app, Method::OPTIONS, "/explicit-options", &[], None);
    assert_eq!(response.status, 200);
    assert_eq!(response.body, "explicit");

    let response = oneshot(&mut app, Method::GET, "/resource/", &[], None);
    assert_eq!(response.status, 200);
    let response = oneshot(&mut app, Method::GET, "/cached", &[], None);
    assert_eq!(response.status, 304);
    assert_eq!(response.header("content-length"), Some("0"));
    assert_eq!(response.body, "");
}

#[test]
fn response_headers_and_allow_metadata_follow_http_semantics() {
    let mut app = plain();
    app.get("/text", zero(hello));
    app.post("/text", zero(hello));
    app.get("/json", zero(ada));
    app.get("/empty", zero(|| NoContent));
    app.get("/not-modified", zero(|| NotModified));

    let response = oneshot(&mut app, Method::GET, "/text", &[], None);
    assert_eq!(response.header("content-type"), Some("text/plain; charset=utf-8"));
    assert_eq!(response.header("content-length"), Some("2"));

    let response = oneshot(&mut app, Method::GET, "/json", &[], None);
    assert_eq!(response.header("content-type"), Some("application/json"));
    assert_eq!(response.header("content-length"), None);

    let response = oneshot(&mut app, Method::GET, "/empty", &[], None);
    assert_eq!(response.status, 204);
    assert_eq!(response.header("content-length"), Some("0"));
    assert_eq!(response.body, "");

    let response = oneshot(&mut app, Method::PUT, "/text", &[], None);
    assert_eq!(response.status, 405);
    assert_eq!(response.header("allow"), Some("GET, POST"));
    assert_eq!(response.header("content-length"), Some("0"));
}

#[test]
fn static_response_routes_return_prebuilt_bytes_and_headers() {
    let mut app = plain();
    app.static_text("/health", "OK");
    app.static_json("/version", Bytes::from_static(br#"{"version":"0.1.0"}"#));

    let response = oneshot(&mut app, Method::GET, "/health", &[], None);
    assert_eq!(response.status, 200);
    assert_eq!(response.header("content-type"), Some("text/plain; charset=utf-8"));
    assert_eq!(response.header("content-length"), Some("2"));
    assert_eq!(response.body, "OK");

    let response = oneshot(&mut app, Method::GET, "/version", &[], None);
    assert_eq!(response.status, 200);
    assert_eq!(response.header("content-type"), Some("application/json"));
    assert_eq!(response.header("content-length"), None);
    assert_eq!(response.body, r#"{"version":"0.1.0"}"#);
}

#[test]
fn interrupted_request_body_does_not_dispatch_handler() {
    let counter = Rc::new(Cell::new(0));
    let seen = Rc::clone(&counter);
    let mut app = plain();
    app.post(
        "/cancel",
        one(move |_payload: Json<Payload>| {
            seen.set(seen.get() + 1);
            "called"
        }),
    );
    let runtime = app.build().expect("test app builds");
    let answer = serve(
        &runtime,
        Method::POST,
        "/cancel",
        &[("content-length", "100")],
        Arrival::Interrupted,
    );
    assert_eq!(counter.get(), 0);
    assert_eq!(answer.status, 400);
    assert_eq!(
        answer.body,
        r#"{"detail":"request body was interrupted","status":400,"title":"Bad Request","type":"about:blank"}"#
    );
}

#[test]
fn bodyless_route_does_not_wait_for_request_body() {
    let mut app = plain();
    app.get("/plaintext", zero(hello));
    app.post("/echo", one(echo));
    let runtime = app.build().expect("test app builds");

    let headers = header_map(&[("content-length", "100")]);
    let prepared: PreparedDispatch<'_, _, Chunks> =
        runtime.prepare(&Method::GET, "/plaintext", &headers);
    assert!(matches!(prepared, PreparedDispatch::Zero(false, _)));

    let answer = serve(
        &runtime,
        Method::POST,
        "/echo",
        &[("content-type", "application/json"), ("content-length", "1048577")],
        Arrival::Interrupted,
    );
    assert_eq!(answer.status, 413);
}

#[test]
fn raw_route_receives_incoming_without_collecting_request_body() {
    let mut app = plain();
    app.raw(
        Method::POST,
        "/raw-incoming",
        Box::new(|_, _, _| "OK".into_response()),
        StatusCode::ok(),
        None,
    );
    let runtime = app.build().expect("test app builds");
    let headers = header_map(&[("content-length", "1048576")]);
    let prepared: PreparedDispatch<'_, _, Chunks> =
        runtime.prepare(&Method::POST, "/raw-incoming", &headers);
    assert!(matches!(prepared, PreparedDispatch::Raw(false, _)));
    let answer = serve(
        &runtime,
        Method::POST,
        "/raw-incoming",
        &[("content-length", "1048576")],
        Arrival::TooLarge,
    );
    assert_eq!(answer.status, 200);
}

#[test]
fn streaming_response_delivers_chunks_without_content_length() {
    let mut app = plain();
    app.get(
        "/stream",
        zero(|| StreamResponse(Chunks(vec![Bytes::from_static(b"streamed")]))),
    );
    let response = oneshot(&mut app, Method::GET, "/stream", &[], None);
    assert_eq!(response.status, 200);
    assert_eq!(response.header("content-length"), None);
    assert_eq!(response.body, "streamed");
}

#[test]
fn deterministic_path_fuzz_smoke_never_panics() {
    let mut app = plain();
    app.get("/fuzz/{value}", one(|value: Path<String>| value.0));

    let alphabet = b"abcXYZ0123456789%_-";
    let mut state = 0x9e3779b9_u32;
    for iteration in 0..20_000 {
        let mut value = String::with_capacity(24);
        for _ in 0..(state as usize % 24) {
            state = state.wrapping_mul(1664525).wrapping_add(1013904223);
            value.push(alphabet[(state as usize) % alphabet.len()] as char);
        }
        let uri = format!("/fuzz/{value}");
        let response = oneshot(&mut app, Method::GET, &uri, &[], Some(Bytes::new()));
        assert!(matches!(response.status, 200 | 400 | 404), "iteration {iteration}");
    }
}

#[test]
fn openapi_document_is_prepared_once_for_server_dispatch() {
    let mut app = plain();
    app.get("/plaintext", zero(hello));
    app.openapi();
    app.swagger().path("/swagger");
    assert!(app.openapi_bytes.is_none());
    assert!(app.swagger_bytes.is_none());

    let runtime = app.build().expect("test app builds");
    let response = runtime_oneshot(&runtime, Method::GET, "/openapi.json");
    assert_eq!(response.status, 200);
    assert!(response.body.contains("/plaintext"));

    let mut updated = plain();
    updated.get("/plaintext", zero(hello));
    updated.openapi().path("/spec.json");
    updated.swagger().path("/swagger");
    let runtime = updated.build().expect("updated app builds");
    let response = runtime_oneshot(&runtime, Method::GET, "/swagger");
    assert!(
        response.body.contains("/spec.json"),
        "Swagger cache did not follow the updated OpenAPI path"
    );
}

#[test]
fn dynamic_terminal_resolves_methods_without_route_scan() {
    let mut app = plain();
    app.get("/resource/{id}", zero(|| "GET"));
    app.post("/resource/{id}", zero(|| "POST"));

    let response = oneshot(&mut app, Method::PUT, "/resource/42", &[], None);
    assert_eq!(response.status, 405);
    assert_eq!(response.header("allow"), Some("GET, POST"));

    let response = oneshot(&mut app, Method::OPTIONS, "/resource/42", &[], None);
    assert_eq!(response.status, 204);
    assert_eq!(response.header("allow"), Some("GET, POST"));

    let response = oneshot(&mut app, Method::PUT, "/other/missing", &[], None);
    assert_eq!(response.status, 404);
}

#[test]
fn a_request_is_parsed_once_it_was_collected() {
    let mut app = plain();
    app.post("/echo", one(echo));
    let runtime = app.build().expect("test app builds");
    let json = [("content-type", "Application/JSON; charset=utf-8")];
    let answer =
        serve(&runtime, Method::POST, "/echo", &json, Arrival::Whole(Bytes::from_static(ADA)));
    assert_eq!(answer.status, 200);
    assert_eq!(answer.body, r#"{"name":"Ada"}"#);
    let answer = serve(&runtime, Method::POST, "/echo", &json, Arrival::TooLarge);
    assert_eq!(answer.status, 413);
    assert_eq!(
        answer.body,
        r#"{"detail":"request body exceeds the configured limit","status":413,"title":"Payload Too Large","type":"about:blank"}"#
    );
    assert!(matches!(runtime.plans[0].capture_mode, CaptureMode::Absent));
}

#[test]
fn generated_paths_answer_as_known_paths() {
    let mut app = plain();
    app.get("/plaintext", zero(hello));
    app.openapi();
    app.swagger();
    for uri in ["/openapi.json", "/docs", "/docs/"] {
        let document = oneshot(&mut app, Method::GET, uri, &[], None);
        assert_eq!(document.status, 200);
        assert!(!document.body.is_empty());
        let length = document.body.len().to_string();
        let response = oneshot(&mut app, Method::HEAD, uri, &[], None);
        assert_eq!(response.status, 200);
        assert_eq!(response.body, "");
        assert_eq!(response.header("content-length"), Some(length.as_str()));
        assert_eq!(response.header("content-type"), document.header("content-type"));
        let response = oneshot(&mut app, Method::POST, uri, &[], None);
        assert_eq!(response.status, 405);
        assert_eq!(response.header("allow"), Some("GET"));
        assert_eq!(response.body, "");
        let response = oneshot(&mut app, Method::OPTIONS, uri, &[], None);
        assert_eq!(response.status, 204);
        assert_eq!(response.header("allow"), Some("GET"));
    }
    let response = oneshot(&mut app, Method::POST, "/openapi.json/more", &[], None);
    assert_eq!(response.status, 404);
}

#[test]
fn routes_beside_a_generated_document_are_served() {
    let build = || {
        let mut app = plain();
        app.post("/openapi.json", zero(|| "posted"));
        app.head("/docs", zero(|| "mine"));
        app.post("/docs/{part}", zero(|| "part"));
        app.openapi();
        app.swagger();
        app
    };
    let mut app = build();
    let runtime = build().build().expect("test app builds");
    let mut answers = Vec::new();
    for uri in ["/openapi.json", "/docs", "/docs/a", "/none"] {
        for method in ["GET", "HEAD", "POST", "PUT", "OPTIONS", "BREW"] {
            let method = Method::from_name(method);
            let open = oneshot(&mut app, method.clone(), uri, &[], None);
            let built = runtime_oneshot(&runtime, method, uri);
            assert_eq!(open.status, built.status);
            assert_eq!(open.headers, built.headers);
            assert_eq!(open.body, built.body);
            answers.push((open.status, open.header("allow").map(str::to_owned), open.body));
        }
    }
    assert_eq!(answers[1].0, 200);
    assert_eq!(answers[1].2, "");
    assert_eq!(answers[2], (200, None, "posted".to_owned()));
    assert_eq!(answers[3], (405, Some("GET, POST".to_owned()), String::new()));
    assert_eq!(answers[4], (204, Some("GET, POST".to_owned()), String::new()));
    assert_eq!(answers[7], (200, None, String::new()));
    assert_eq!(answers[9], (405, Some("GET, HEAD".to_owned()), String::new()));
    assert_eq!(answers[14], (200, None, "part".to_owned()));
    assert_eq!(answers[18].0, 404);
}

#[test]
fn bodies_may_be_read_before_or_after_routing() {
    let mut app = plain();
    app.post("/echo", one(echo));
    app.get("/plaintext", zero(hello));
    let runtime = app.build().expect("test app builds");
    let json = [("content-type", "application/json")];
    for (method, uri) in [(Method::POST, "/echo"), (Method::GET, "/plaintext")] {
        let body = Bytes::from_static(ADA);
        let after = serve(&runtime, method.clone(), uri, &json, Arrival::Whole(body.clone()));
        let headers = header_map(&json);
        let call = Call { path: uri, query: "", headers: &headers, body: &body };
        let prepared = runtime.handle(&method, uri, body.len());
        let before = Answer::of(finish(prepared, &call, &runtime.state));
        assert_eq!((before.status, before.body), (after.status, after.body));
    }
}

#[test]
fn zero_argument_routes_use_the_fast_dispatch_shape() {
    let mut app = plain();
    app.get("/zero", zero(|| "OK"));

    let index = resolve_route_set(&Method::GET, app.static_routes.get("/zero").expect("zero route"))
        .expect("zero route did not resolve");
    assert!(matches!(app.plans[index.index()].handler, HandlerKind::Zero(_)));

    let runtime = app.build().expect("test app builds");
    let response = runtime_oneshot(&runtime, Method::GET, "/zero");
    assert_eq!(response.status, 200);
    assert_eq!(response.body, "OK");
}

#[test]
fn typed_registration_does_not_require_a_cloneable_handler() {
    let handler: Box<dyn Fn(Path<u64>) -> &'static str> = Box::new(|Path(_id)| "OK");
    let mut app = plain();
    app.get("/non-clone/{id}", one(handler));

    let runtime = app.build().expect("test app builds");
    let response = runtime_oneshot(&runtime, Method::GET, "/non-clone/42");
    assert_eq!(response.status, 200);
}

struct AnyTrace;

impl HeaderSpec for AnyTrace {
    const NAME: &'static str = "x-trace";

    fn parse(_value: &str) -> Result<Self, ApiError> {
        Ok(Self)
    }
}

#[test]
fn typed_no_params_dynamic_route_preserves_header_extraction() {
    let mut app = plain();
    app.get("/trace/{id}", one(|_header: Header<AnyTrace>| "OK"));

    let matched = app.dynamic_routes.find("/trace/abc").expect("dynamic route should match");
    let index = matched.routes.route(&Method::GET).expect("dynamic route should resolve");
    assert!(matches!(app.plans[index.index()].handler, HandlerKind::TypedNoParams(_)));

    let response = oneshot(&mut app, Method::GET, "/trace/abc", &[("x-trace", "1")], None);
    assert_eq!(response.status, 200);
}
