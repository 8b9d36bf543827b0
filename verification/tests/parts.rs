//! The parts of the library by themselves.

use bytes::Bytes;
use http::{HeaderMap, HeaderName, HeaderValue};
use oas_rs::bench::{
    db_response, params_typed, problem, query_typed, raw_action, reference_users, secure,
    users_db_error, uuid_reply, validation_success, ApiKey, DbFailure, DbReply, RawAction,
};
use oas_rs::derive::{
    derive_plan, object_schema, option_inner, query_parameters, supports_query_value, DeriveError,
    ItemShape, SchemaField, TypeShape,
};
use oas_rs::dispatch::{
    capture_params, declared_too_large, refuse, route_request, Captures, Routing,
};
use oas_rs::error::ApiError;
use oas_rs::extract::{
    check_json_request, header_text, is_json_media_type, optional, parsed, path_text, Header,
    HeaderSpec, Needs,
};
use oas_rs::fields::read_fields;
use oas_rs::method::Method;
use oas_rs::number::{decimal_string, parse_i64, parse_u64, parse_usize};
use oas_rs::openapi::{swagger_html, swagger_page};
use oas_rs::params::{CaptureRange, CaptureSet, Params};
use oas_rs::path::parse_template;
use oas_rs::percent::{decode_query_component, hex, percent_decode, valid_percent_encoding};
use oas_rs::plan::{capture_names, CaptureMode};
use oas_rs::query::{
    decode_query, plan_query, query_object, query_pairs, query_scalar, required_field, QueryScalar,
};
use oas_rs::response::{
    checked_head_flag, maybe_head_flag, method_not_allowed_response, not_found, options_response,
    payload_too_large_response, response_json, response_text, serialized_response, Created,
    HttpResponse, IntoResponse, Json, JsonBytes, NoContent, NotModified, ResponseBody,
    ResponseMetadata, StaticResponse, StreamResponse,
};
use oas_rs::router::RouteSet;
use oas_rs::schema::{ApiSchema, OpenApiRequest};
use oas_rs::status::StatusCode;
use oas_rs::text::{split_once, strip_prefix};
use oas_rs::trie::DynamicRouteTrie;
use serde_json::Value;
use std::borrow::Cow;
use std::str::FromStr;
use std::sync::Arc;

fn headers(fields: &[(&str, &[u8])]) -> HeaderMap {
    let mut map = HeaderMap::new();
    for (name, value) in fields {
        map.append(
            HeaderName::from_str(name).unwrap(),
            HeaderValue::from_bytes(value).unwrap(),
        );
    }
    map
}

fn header<'a, B>(response: &'a HttpResponse<B>, name: &str) -> Option<&'a str> {
    response.headers.get(name).and_then(|value| value.to_str().ok())
}

fn body<B>(response: &mut HttpResponse<B>) -> Bytes {
    response.body.take_full().expect("a fixed body")
}

#[test]
fn numbers_are_written_and_read() {
    assert_eq!(decimal_string(0), "0");
    assert_eq!(decimal_string(907), "907");
    assert_eq!(decimal_string(u64::MAX), "18446744073709551615");
    assert_eq!(parse_u64("+18446744073709551615"), Some(u64::MAX));
    assert_eq!(parse_u64("18446744073709551616"), None);
    assert_eq!(parse_u64(""), None);
    assert_eq!(parse_u64("-1"), None);
    assert_eq!(parse_u64("+"), None);
    assert_eq!(parse_i64("-9223372036854775808"), Some(i64::MIN));
    assert_eq!(parse_i64("9223372036854775808"), None);
    assert_eq!(parse_i64("+7"), Some(7));
    assert_eq!(parse_i64("-0"), Some(0));
    assert_eq!(parse_i64("1 "), None);
    assert_eq!(parse_usize("0042"), Some(42));
    assert_eq!(parse_usize("4x"), None);
}

#[test]
fn status_codes_have_three_digits() {
    assert_eq!(StatusCode::from_u16(99), None);
    assert_eq!(StatusCode::from_u16(1000), None);
    assert_eq!(StatusCode::from_u16(418).map(|status| status.as_u16()), Some(418));
    assert_eq!(StatusCode::unsupported_media_type().as_u16(), 415);
}

#[test]
fn percent_escapes_are_decoded() {
    assert_eq!(percent_decode("a%20b%2fc").unwrap(), "a b/c");
    assert_eq!(percent_decode("").unwrap(), "");
    assert_eq!(hex(b'f'), Some(15));
    assert_eq!(hex(b'F'), Some(15));
    assert_eq!(hex(b'g'), None);
    let short = percent_decode("%4").unwrap_err();
    assert_eq!(short.detail, "invalid percent encoding");
    assert_eq!(short.status.as_u16(), 400);
    assert_eq!(short.title, "Bad Request");
    assert!(!short.is_missing());
    let bytes = percent_decode("%FF").unwrap_err();
    assert_eq!(bytes.detail, "invalid UTF-8 in percent encoding");
    assert!(valid_percent_encoding("%FF"));
    assert!(valid_percent_encoding("plain+text"));
    assert!(!valid_percent_encoding("%F"));
    assert!(!valid_percent_encoding("%G0"));
    assert_eq!(decode_query_component("a+b").unwrap(), "a+b");
    assert!(matches!(decode_query_component("a+b"), Ok(Cow::Borrowed("a+b"))));
    assert!(matches!(decode_query_component("%61"), Ok(Cow::Owned(text)) if text == "a"));
    assert_eq!(decode_query_component("%6").unwrap_err().detail, "invalid percent encoding");
}

#[test]
fn texts_are_split() {
    assert_eq!(split_once("a=b=c", b'='), Some(("a", "b=c")));
    assert_eq!(split_once("é", b'='), None);
    assert_eq!(strip_prefix("/users/7", "/users/"), Some("7"));
    assert_eq!(strip_prefix("/users/é", "/users/"), Some("é"));
    assert_eq!(strip_prefix("/user", "/users/"), None);
    assert_eq!(strip_prefix("/Users/7", "/users/"), None);
}

#[test]
fn captures_are_packed() {
    let set = CaptureSet::default()
        .with_capture(0, CaptureRange { start: 1, end: 4 })
        .with_capture(1, CaptureRange { start: 5, end: u32::MAX as usize });
    assert_eq!(set.count, 2);
    let range = set.range(1).unwrap();
    assert_eq!((range.start, range.end), (5, u32::MAX as usize));
    assert!(set.range(2).is_none());
    assert!(CaptureSet::default().range(0).is_none());
}

#[test]
fn captures_are_read_by_name() {
    let set = CaptureSet::default()
        .with_capture(0, CaptureRange { start: 1, end: 6 })
        .with_capture(1, CaptureRange { start: 7, end: 8 });
    let names = Arc::new(vec!["first".to_owned(), "second".to_owned()]);
    let params = Params::from_materialized_names(Arc::clone(&names), set, "/a%20b/c").unwrap();
    assert_eq!(params.get("first"), Some("a b"));
    assert_eq!(params.get("second"), Some("c"));
    assert_eq!(params.get("third"), None);
    assert_eq!(params.first_raw("/a%20b/c"), Some("a%20b"));
    let error = Params::from_materialized_names(names, set, "/%FFab/c").unwrap_err();
    assert_eq!(error.detail, "invalid UTF-8 in percent encoding");
    assert!(Params::default().range(0).is_none());
}

#[test]
fn captures_reach_a_handler_by_their_mode() {
    let set = CaptureSet::default().with_capture(0, CaptureRange { start: 1, end: 2 });
    let names = Some(Arc::new(vec!["id".to_owned()]));
    let found = Captures::Dynamic(set);
    let path = "/7///";
    let none = capture_params(CaptureMode::Absent, &names, found, path).unwrap();
    assert_eq!(none.count, 0);
    let borrowed = capture_params(CaptureMode::Borrowed, &None, found, path).unwrap();
    assert_eq!(path_text(&borrowed, path).unwrap(), "7");
    assert_eq!(borrowed.get("id"), None);
    let named = capture_params(CaptureMode::Materialized, &names, found, path).unwrap();
    assert_eq!(named.get("id"), Some("7"));
    let fixed = capture_params(CaptureMode::Materialized, &names, Captures::Fixed, path).unwrap();
    assert_eq!(fixed.get("id"), None);
    let missing = path_text(&fixed, path).unwrap_err();
    assert_eq!(missing.detail, "missing path parameter");
    assert!(!missing.is_missing());
}

#[test]
fn query_pairs_are_split_at_the_first_equals_sign() {
    assert_eq!(query_pairs("a=1&&b=2=3&c&=d"), vec![("a", "1"), ("b", "2=3"), ("c", ""), ("", "d")]);
    assert!(query_pairs("").is_empty());
    assert!(query_pairs("&&").is_empty());
    let pairs = decode_query("%61=b%20c&d=%C3%A9").unwrap();
    assert_eq!(pairs[0], ("a".to_owned(), "b c".to_owned()));
    assert_eq!(pairs[1], ("d".to_owned(), "é".to_owned()));
    assert_eq!(decode_query("a=%F&b=%FF").unwrap_err().detail, "invalid percent encoding");
    assert_eq!(
        decode_query("%FF=%F").unwrap_err().detail,
        "invalid UTF-8 in percent encoding"
    );
}

#[test]
fn query_values_are_classified() {
    assert!(matches!(query_scalar("true".to_owned()), QueryScalar::Bool(true)));
    assert!(matches!(query_scalar("false".to_owned()), QueryScalar::Bool(false)));
    assert!(matches!(query_scalar("-12".to_owned()), QueryScalar::Integer(-12)));
    assert!(matches!(query_scalar("True".to_owned()), QueryScalar::Text(text) if text == "True"));
    assert!(matches!(
        query_scalar("9223372036854775808".to_owned()),
        QueryScalar::Text(text) if text == "9223372036854775808"
    ));
    assert!(matches!(query_scalar(String::new()), QueryScalar::Text(text) if text.is_empty()));
}

#[test]
fn the_last_query_value_counts() {
    let object = query_object(vec![
        ("a".to_owned(), Value::from(1)),
        ("b".to_owned(), Value::from("x")),
        ("a".to_owned(), Value::from(2)),
    ]);
    assert_eq!(object.to_string(), r#"{"a":2,"b":"x"}"#);
}

#[test]
fn query_plans_stop_at_the_first_failure() {
    let fields = ["page", "%70age", "size"];
    let plan = plan_query("page=1&%70age=2&siz%65=3&other=4", &fields);
    let assigned: Vec<(usize, &str)> =
        plan.assignments.iter().map(|(field, value)| (*field, value.as_str())).collect();
    assert_eq!(assigned, vec![(0, "1"), (1, "2"), (2, "3")]);
    assert!(plan.error.is_none());

    let plan = plan_query("page=1&other=%ZZ&size=2", &fields);
    assert_eq!(plan.assignments.len(), 1);
    assert_eq!(plan.error.unwrap().detail, "invalid percent encoding");

    assert_eq!(required_field(Some(7), "page").unwrap(), 7);
    let error = required_field(None::<u8>, "page").unwrap_err();
    assert_eq!(error.detail, "missing query parameter page");
    assert!(!error.is_missing());
}

fn numbers(query: &str) -> Result<Vec<Option<u8>>, ApiError> {
    read_fields(query, &["page", "size", "tag"], &[true, true, false], |_, value| {
        parsed(value.parse::<u8>().map_err(|error| error.to_string()))
    })
}

#[test]
fn queries_are_read_field_by_field() {
    assert_eq!(numbers("page=1&size=2").unwrap(), vec![Some(1), Some(2), None]);
    let values = numbers("size=9&tag=3&page=1&other=x&siz%65=%32").unwrap();
    assert_eq!(values, vec![Some(1), Some(2), Some(3)]);
    let detail = |query| numbers(query).unwrap_err().detail;
    assert_eq!(detail("tag=3"), "missing query parameter page");
    assert_eq!(detail("page=1"), "missing query parameter size");
    assert_eq!(detail(""), "missing query parameter page");
    assert_eq!(detail("page=1&size=2&other=%ZZ"), "invalid percent encoding");
    assert_eq!(detail("page=1&size=%FF"), "invalid UTF-8 in percent encoding");
    assert_eq!(detail("page=x&size=2&page=1"), "invalid digit found in string");
    assert_eq!(detail("page=x&other=%ZZ"), "invalid digit found in string");
    assert_eq!(detail("other=%ZZ&page=x"), "invalid percent encoding");
    assert_eq!(detail("page=300&size=2"), "number too large to fit in target type");
    assert_eq!(numbers("page=x").unwrap_err().status.as_u16(), 400);
    let none = read_fields("a=b", &[], &[], |_, value| Ok::<String, ApiError>(value));
    assert!(none.unwrap().is_empty());
}

#[test]
fn inputs_are_parsed_or_refused() {
    assert_eq!(parsed(Ok::<u8, String>(3)).unwrap(), 3);
    let error = parsed(Err::<u8, String>("no number".to_owned())).unwrap_err();
    assert_eq!(error.detail, "no number");
    assert_eq!(optional(Ok(3)).unwrap(), Some(3));
    assert_eq!(optional(Err::<u8, _>(ApiError::missing("absent"))).unwrap(), None);
    let error = optional(Err::<u8, _>(ApiError::bad_request("wrong"))).unwrap_err();
    assert_eq!(error.clone().detail, "wrong");
    let joined = Needs::nothing().join(Needs { params: false, capture: true, body: true });
    assert_eq!(joined, Needs { params: false, capture: true, body: true });
}

#[test]
fn json_media_types_are_recognized() {
    assert!(is_json_media_type("application/json"));
    assert!(is_json_media_type("APPLICATION/Json"));
    assert!(is_json_media_type("Application/problem+json"));
    assert!(!is_json_media_type("application/+json"));
    assert!(!is_json_media_type("application/problem+JSON"));
    assert!(!is_json_media_type("text/problem+json"));
    assert!(!is_json_media_type("application"));
    assert!(!is_json_media_type(""));
}

#[test]
fn json_requests_are_checked() {
    let text = Bytes::from_static(b"{}");
    let none = Bytes::new();
    let missing = check_json_request(&headers(&[]), &none).unwrap_err();
    assert!(missing.is_missing());
    assert_eq!(missing.detail, "missing JSON body");
    let wrong = check_json_request(&headers(&[]), &text).unwrap_err();
    assert_eq!(wrong.status.as_u16(), 415);
    assert_eq!(wrong.title, "Unsupported Media Type");
    assert_eq!(wrong.detail, "expected application/json or application/*+json");
    assert!(!wrong.is_missing());
    let json = headers(&[("content-type", b" \tapplication/json ; charset=utf-8")]);
    assert!(check_json_request(&json, &text).is_ok());
    assert!(check_json_request(&json, &none).is_ok());
    let opaque = headers(&[("content-type", b"application/json\xff")]);
    assert!(check_json_request(&opaque, &none).unwrap_err().is_missing());
}

#[derive(Debug, PartialEq)]
struct Renamed(String);

impl HeaderSpec for Renamed {
    const NAME: &'static str = "X-Shown";
    const HEADER_NAME: &'static str = "x-sent";

    fn parse(value: &str) -> Result<Self, ApiError> {
        Ok(Renamed(value.to_owned()))
    }
}

#[test]
fn header_fields_are_looked_up_under_their_own_name() {
    let both = headers(&[("x-shown", b"no"), ("x-sent", b"yes")]);
    assert_eq!(Header::<Renamed>::extract(&both).unwrap().0, Renamed("yes".to_owned()));
    let missing = Header::<Renamed>::extract(&headers(&[("x-shown", b"no")])).unwrap_err();
    assert!(missing.is_missing());
    assert_eq!(missing.detail, "missing header X-Shown");
    let invalid = Header::<Renamed>::extract(&headers(&[("x-sent", b"\xff")])).unwrap_err();
    assert_eq!(invalid.detail, "invalid header X-Shown");
    let request = Header::<Renamed>::openapi_request();
    assert_eq!(
        request.parameters[0].to_string(),
        r#"{"in":"header","name":"X-Shown","required":true,"schema":{"type":"string"}}"#
    );
}

#[test]
fn header_fields_are_read() {
    let fields = headers(&[("x-api-key", b"abc-secret"), ("x-raw", b"\xff")]);
    assert_eq!(header_text(&fields, "x-api-key", "X-Api-Key").unwrap(), "abc-secret");
    let missing = header_text(&fields, "x-trace-id", "x-trace-id").unwrap_err();
    assert!(missing.is_missing());
    assert_eq!(missing.detail, "missing header x-trace-id");
    let invalid = header_text(&fields, "x-raw", "X-Raw").unwrap_err();
    assert!(!invalid.is_missing());
    assert_eq!(invalid.detail, "invalid header X-Raw");
    let key = Header::<ApiKey>::extract(&fields).unwrap();
    assert_eq!(secure(&key.0), "authorized");
    let wrong = Header::<ApiKey>::extract(&headers(&[("x-api-key", b"guess")])).unwrap_err();
    assert_eq!(wrong.status.as_u16(), 401);
    assert_eq!(wrong.detail, "invalid API key");
    assert_eq!(ApiKey::NAME, "x-api-key");
    assert_eq!(ApiKey::HEADER_NAME, "x-api-key");
}

#[test]
fn declared_lengths_are_compared() {
    let with = |value: &[u8]| headers(&[("content-length", value)]);
    assert!(declared_too_large(&with(b"11"), 10));
    assert!(!declared_too_large(&with(b"10"), 10));
    assert!(!declared_too_large(&with(b"eleven"), 10));
    assert!(!declared_too_large(&with(b"99999999999999999999999"), 10));
    assert!(!declared_too_large(&headers(&[]), 10));
}

#[test]
fn errors_are_problem_details() {
    let error = ApiError::new(StatusCode::bad_gateway(), "Database \"Error\"", "line\nbreak");
    let mut response: HttpResponse<()> = error.into_response();
    assert_eq!(response.status.as_u16(), 502);
    assert_eq!(header(&response, "content-type"), Some("application/json"));
    assert_eq!(
        body(&mut response),
        r#"{"detail":"line\nbreak","status":502,"title":"Database \"Error\"","type":"about:blank"}"#
    );
    let mut response: HttpResponse<()> = payload_too_large_response();
    assert_eq!(response.status.as_u16(), 413);
    assert_eq!(
        body(&mut response),
        r#"{"detail":"request body exceeds the configured limit","status":413,"title":"Payload Too Large","type":"about:blank"}"#
    );
}

#[test]
fn values_become_responses() {
    let mut text: HttpResponse<()> = "hi".into_response();
    assert_eq!(header(&text, "content-length"), Some("2"));
    assert_eq!(body(&mut text), "hi");
    let mut text: HttpResponse<()> = "grüße".to_owned().into_response();
    assert_eq!(header(&text, "content-length"), Some("7"));
    assert_eq!(body(&mut text), "grüße");
    let mut bytes: HttpResponse<()> = Bytes::from_static(b"\x00\x01\x02").into_response();
    assert_eq!(header(&bytes, "content-type"), Some("text/plain; charset=utf-8"));
    assert_eq!(body(&mut bytes), Bytes::from_static(b"\x00\x01\x02"));
    let mut unit: HttpResponse<()> = ().into_response();
    assert_eq!(unit.status.as_u16(), 204);
    assert_eq!(header(&unit, "content-length"), Some("0"));
    assert_eq!(body(&mut unit), "");
    let prepared = JsonBytes::new(Bytes::from_static(b"[1]"));
    let mut json: HttpResponse<()> = prepared.clone().into_response();
    assert_eq!(header(&json, "content-type"), Some("application/json"));
    assert_eq!(body(&mut json), "[1]");
    let unchanged: HttpResponse<()> = NotModified.into_response();
    assert_eq!(unchanged.status.as_u16(), 304);
    let empty: HttpResponse<()> = NoContent.into_response();
    assert_eq!(empty.status.as_u16(), 204);
    let good: HttpResponse<()> = Ok::<&'static str, ApiError>("fine").into_response();
    assert_eq!(good.status.as_u16(), 200);
    let bad: HttpResponse<()> = Err::<String, ApiError>(problem()).into_response();
    assert_eq!(bad.status.as_u16(), 400);
    let mut value: HttpResponse<()> = response_json(StatusCode::created(), Value::from(true));
    assert_eq!(value.status.as_u16(), 201);
    assert_eq!(body(&mut value), "true");
    let mut stream: HttpResponse<u8> = StreamResponse(9).into_response();
    assert!(stream.body.take_full().is_none());
    assert!(!stream.body.is_end_stream());
    assert_eq!(stream.body.exact_size(), None);
    assert!(matches!(stream.body, ResponseBody::Stream(9)));
}

#[test]
fn serialization_is_answered() {
    let mut good: HttpResponse<()> = serialized_response(StatusCode::created(), Ok(b"{}".to_vec()));
    assert_eq!(good.status.as_u16(), 201);
    assert_eq!(body(&mut good), "{}");
    let mut bad: HttpResponse<()> =
        serialized_response(StatusCode::created(), Err("broken".to_owned()));
    assert_eq!(bad.status.as_u16(), 500);
    assert_eq!(
        body(&mut bad),
        r#"{"detail":"broken","status":500,"title":"Serialization Error","type":"about:blank"}"#
    );
}

#[test]
fn response_metadata_is_known_beforehand() {
    assert_eq!(<&'static str>::status_code().as_u16(), 200);
    assert_eq!(String::response_schema(), None);
    assert_eq!(<()>::status_code().as_u16(), 204);
    assert_eq!(NotModified::status_code().as_u16(), 304);
    assert_eq!(Created::<u32>::status_code().as_u16(), 201);
    assert_eq!(Json::<bool>::response_schema(), Some(bool::schema()));
    assert_eq!(Result::<Created<u32>, ApiError>::status_code().as_u16(), 201);
    assert_eq!(
        Result::<Json<u32>, ApiError>::response_schema().unwrap().to_string(),
        r#"{"format":"int32","type":"integer"}"#
    );
}

#[test]
fn head_responses_keep_status_and_headers() {
    let text: HttpResponse<()> = response_text(StatusCode::ok(), Bytes::from_static(b"hello"));
    let mut head = maybe_head_flag(true, text);
    assert_eq!(header(&head, "content-length"), Some("5"));
    assert_eq!(body(&mut head), "");
    let json: HttpResponse<()> = JsonBytes::new(Bytes::from_static(b"[1,2]")).into_response();
    let mut head = maybe_head_flag(true, json);
    assert_eq!(header(&head, "content-length"), Some("5"));
    assert_eq!(header(&head, "content-type"), Some("application/json"));
    assert_eq!(body(&mut head), "");
    let stream: HttpResponse<u8> = StreamResponse(1).into_response();
    let head = maybe_head_flag(true, stream);
    assert_eq!(header(&head, "content-length"), None);
    let mut same = maybe_head_flag(false, not_found::<()>());
    assert_eq!(same.status.as_u16(), 404);
    assert_eq!(body(&mut same), "Not Found");
    assert!(same.body.is_end_stream());
    assert_eq!(same.body.exact_size(), Some(0));
}

#[test]
fn full_head_responses_are_handed_back() {
    let crowded = |count: usize| {
        let mut response: HttpResponse<()> =
            JsonBytes::new(Bytes::from_static(b"[1]")).into_response();
        for index in 1..count {
            let name = HeaderName::from_str(&format!("x-{index}")).unwrap();
            response.headers.insert(name, HeaderValue::from_static("1"));
        }
        response
    };
    for count in [1, 6553, 6554, 24575] {
        let mut head = checked_head_flag(true, crowded(count)).ok().unwrap();
        assert_eq!(header(&head, "content-length"), Some("3"));
        assert_eq!(head.headers.keys_len(), count + 1);
        assert_eq!(body(&mut head), "");
    }
    let mut same = checked_head_flag(true, crowded(24576)).err().unwrap();
    assert_eq!(same.status.as_u16(), 200);
    assert_eq!(same.headers.keys_len(), 24576);
    assert_eq!(header(&same, "content-length"), None);
    assert_eq!(header(&same, "x-24575"), Some("1"));
    assert_eq!(body(&mut same), "[1]");
    assert!(checked_head_flag(false, crowded(24576)).is_ok());
    let mut named = crowded(24575);
    named.headers.insert("content-length", HeaderValue::from_static("7"));
    let head = checked_head_flag(true, named).ok().unwrap();
    assert_eq!(header(&head, "content-length"), Some("7"));
}

#[test]
fn refusals_name_the_allowed_methods() {
    let options: HttpResponse<()> = options_response("GET, PUT");
    assert_eq!(options.status.as_u16(), 204);
    assert_eq!(header(&options, "allow"), Some("GET, PUT"));
    assert_eq!(header(&options, "content-length"), Some("0"));
    let refused: HttpResponse<()> = method_not_allowed_response("POST");
    assert_eq!(refused.status.as_u16(), 405);
    assert_eq!(header(&refused, "allow"), Some("POST"));

    let mut statics = vstd::hash_map::StringHashMap::new();
    let mut set = RouteSet::default();
    set.insert(Method::PUT, 4);
    statics.insert("/put".to_owned(), set);
    let trie = DynamicRouteTrie::default();
    let routing = route_request(&statics, &trie, &Method::GET, "/put/");
    assert!(matches!(&routing, Routing::MethodNotAllowed(allow) if allow == "PUT"));
    assert_eq!(refuse::<()>(&routing).status.as_u16(), 405);
    let routing = route_request(&statics, &trie, &Method::OPTIONS, "/put");
    assert_eq!(refuse::<()>(&routing).status.as_u16(), 204);
    let routing = route_request(&statics, &trie, &Method::GET, "/");
    assert_eq!(refuse::<()>(&routing).status.as_u16(), 404);
}

#[test]
fn prepared_responses_are_ready() {
    let mut text = StaticResponse::text("ready").to_response::<()>();
    assert_eq!(header(&text, "content-length"), Some("5"));
    assert_eq!(body(&mut text), "ready");
    let mut json = StaticResponse::json(Bytes::from_static(b"{}")).to_response::<()>();
    assert_eq!(header(&json, "content-length"), None);
    assert_eq!(header(&json, "content-type"), Some("application/json"));
    assert_eq!(body(&mut json), "{}");
}

#[test]
fn schemas_are_known() {
    assert_eq!(String::schema().to_string(), r#"{"type":"string"}"#);
    assert_eq!(u32::schema().to_string(), r#"{"format":"int32","type":"integer"}"#);
    assert_eq!(u64::schema().to_string(), r#"{"format":"int64","type":"integer"}"#);
    assert_eq!(i32::schema(), u32::schema());
    assert_eq!(i64::schema(), u64::schema());
    assert_eq!(bool::schema().to_string(), r#"{"type":"boolean"}"#);
    assert_eq!(uuid::Uuid::schema().to_string(), r#"{"format":"uuid","type":"string"}"#);
    assert_eq!(Option::<bool>::schema(), bool::schema());
    assert_eq!(
        Vec::<String>::schema().to_string(),
        r#"{"items":{"type":"string"},"type":"array"}"#
    );
    assert_eq!(<&String>::schema(), String::schema());
}

#[test]
fn requests_are_described() {
    let mut request = OpenApiRequest::for_path(u64::schema());
    request.merge(OpenApiRequest::for_header("x-key"));
    request.merge(OpenApiRequest::for_json(bool::schema()));
    request.merge(OpenApiRequest::for_json(String::schema()));
    request.merge(OpenApiRequest::for_query(vec![Value::from(1)]));
    assert_eq!(request.path_schemas.len(), 1);
    assert_eq!(request.parameters.len(), 2);
    assert_eq!(
        request.request_body.as_ref().unwrap().to_string(),
        r#"{"content":{"application/json":{"schema":{"type":"boolean"}}},"required":true}"#
    );
    let optional = request.clone().optional();
    assert_eq!(
        optional.parameters[0].to_string(),
        r#"{"in":"header","name":"x-key","required":false,"schema":{"type":"string"}}"#
    );
    assert_eq!(optional.parameters[1], Value::from(1));
    assert_eq!(optional.request_body.unwrap()["required"], false);
    assert_eq!(request.parameters[0]["required"], true);
}

fn shape(name: &str) -> TypeShape {
    TypeShape::Path(name.to_owned(), None)
}

fn generic(name: &str, argument: TypeShape) -> TypeShape {
    TypeShape::Path(name.to_owned(), Some(Box::new(argument)))
}

#[test]
fn shapes_of_types_decide_what_is_derived() {
    let optional = generic("Option", shape("u32"));
    assert!(option_inner(&optional).1);
    assert!(!option_inner(&shape("Option")).1);
    assert!(!option_inner(&generic("Vec", shape("u32"))).1);
    assert!(supports_query_value(&optional));
    assert!(supports_query_value(&generic("Option", generic("Option", shape("Uuid")))));
    assert!(supports_query_value(&shape("f64")));
    assert!(!supports_query_value(&generic("Vec", shape("u32"))));
    assert!(!supports_query_value(&TypeShape::Other));

    let plan = derive_plan(&ItemShape::NamedFields(vec![
        shape("u32"),
        generic("Option", shape("String")),
    ]))
    .unwrap();
    assert_eq!(plan.optional, vec![false, true]);
    assert!(plan.direct_query_parser);
    let plan = derive_plan(&ItemShape::NamedFields(vec![shape("Custom")])).unwrap();
    assert!(!plan.direct_query_parser);
    let unnamed = derive_plan(&ItemShape::OtherStruct).unwrap_err();
    assert_eq!(unnamed, DeriveError::UnnamedFields);
    assert_eq!(unnamed.message(), "ApiSchema requires named struct fields");
    let other = derive_plan(&ItemShape::NotStruct).unwrap_err();
    assert_eq!(other.message(), "ApiSchema can only derive for structs");
}

#[test]
fn derived_schemas_name_their_required_fields() {
    let fields = [
        SchemaField::new("page", u32::schema(), true),
        SchemaField::new("tag", String::schema(), false),
    ];
    assert_eq!(
        object_schema(&fields).to_string(),
        r#"{"properties":{"page":{"format":"int32","type":"integer"},"tag":{"type":"string"}},"required":["page"],"type":"object"}"#
    );
    assert_eq!(object_schema(&[]).to_string(), r#"{"properties":{},"type":"object"}"#);
    let parameters = query_parameters(&fields);
    assert_eq!(
        parameters[1].to_string(),
        r#"{"in":"query","name":"tag","required":false,"schema":{"type":"string"}}"#
    );
    assert_eq!(parameters.len(), 2);
}

#[test]
fn capture_names_follow_the_template() {
    assert_eq!(capture_names(&parse_template("/a/{x}/b/{y}")), vec!["x", "y"]);
    assert!(capture_names(&parse_template("/a")).is_empty());
}

#[test]
fn the_swagger_page_quotes_its_path() {
    let page = String::from_utf8(swagger_html(Some("/a\"b")).to_vec()).unwrap();
    assert!(page.contains(r#"SwaggerUIBundle({url:"/a\"b",dom_id:'#swagger-ui'})"#));
    assert!(page.starts_with("<!doctype html><html><head><title>Swagger UI</title>"));
    assert!(page.contains("Loading Swagger UI…"));
    let page = String::from_utf8(swagger_html(None).to_vec()).unwrap();
    assert!(page.contains("url:\"/openapi.json\""));
    assert_eq!(page.as_bytes(), &swagger_page("\"/openapi.json\"")[..]);
    let page = String::from_utf8(swagger_html(Some("\u{1}\u{8}\t\n\u{c}\r\u{1f}\\é\u{7f}")).to_vec());
    assert!(page.unwrap().contains("url:\"\\u0001\\b\\t\\n\\f\\r\\u001f\\\\é\u{7f}\","));
}

#[test]
fn one_hundred_full_reference_users_are_listed() {
    let users = reference_users();
    assert_eq!(users.len(), 100);
    assert_eq!(users[0].email, "user1@example.com");
    assert!(users[99].active);
    assert_eq!(users[99].name, "User 100");
    assert_eq!(users[41].id, 42);
}

#[test]
fn benchmark_handlers_answer() {
    assert_eq!(query_typed(42, true), "42:true");
    assert_eq!(query_typed(0, false), "0:false");
    assert_eq!(validation_success(42).unwrap().name, "valid-42");
    assert_eq!(validation_success(41).unwrap_err().detail, "id must be 42");
    assert_eq!(secure(&ApiKey("other".to_owned())), "unauthorized");
    assert_eq!(params_typed(Params::empty()), None);
    let names = vec!["org".to_owned(), "user".to_owned()];
    let set = CaptureSet::default()
        .with_capture(0, CaptureRange { start: 1, end: 2 })
        .with_capture(1, CaptureRange { start: 3, end: 4 });
    let params = Params::from_match(&names, set, "/a/b", true);
    assert_eq!(params_typed(&params).as_deref(), Some("a:b"));
    let unavailable = users_db_error(DbFailure::NotConfigured);
    assert_eq!(unavailable.status.as_u16(), 503);
    assert_eq!(unavailable.detail, "DATABASE_URL is not configured");
    let failed = users_db_error(DbFailure::Query("gone".to_owned()));
    assert_eq!((failed.status.as_u16(), failed.detail.as_str()), (502, "gone"));
}

fn raw(path: &str, query: Option<&str>, fields: &[(&str, &[u8])]) -> (u16, String) {
    let users = Bytes::from_static(b"[users]");
    match raw_action(&Method::GET, path, query, &headers(fields), users) {
        RawAction::Reply(mut response) => {
            let text = String::from_utf8(body(&mut response).to_vec()).unwrap();
            (response.status.as_u16(), text)
        }
        RawAction::QueryDatabase => (0, "database".to_owned()),
    }
}

#[test]
fn the_bare_server_replies() {
    let bad = (400, "Bad Request".to_owned());
    assert_eq!(raw("/plaintext", None, &[]), (200, "OK".to_owned()));
    assert_eq!(raw("/json-small", None, &[]), (200, r#"{"id":1,"name":"Alice"}"#.to_owned()));
    assert_eq!(raw("/users", None, &[]), (200, "[users]".to_owned()));
    assert_eq!(raw("/users-db", None, &[]), (0, "database".to_owned()));
    assert_eq!(raw("/raw-handler", None, &[]), (200, "OK".to_owned()));
    assert_eq!(raw("/validation-success/42", None, &[]).0, 200);
    assert_eq!(raw("/validation-success/43", None, &[]), bad);
    assert_eq!(raw("/users/0042", None, &[]), (200, "42".to_owned()));
    assert_eq!(raw("/users/x", None, &[]), bad);
    assert_eq!(raw("/params/acme/alice", None, &[]), (200, "acme:alice".to_owned()));
    assert_eq!(raw("/params/acme/", None, &[]), bad);
    assert_eq!(raw("/params/acme", None, &[]), bad);
    assert_eq!(raw("/search", Some("page=42&active=true"), &[]), (200, "42:true".to_owned()));
    assert_eq!(raw("/search", None, &[]), bad);
    assert_eq!(raw("/trace", None, &[("x-trace-id", b"abc")]), (200, "abc".to_owned()));
    assert_eq!(raw("/trace", None, &[]), bad);
    assert_eq!(raw("/trace", None, &[("x-trace-id", b"Bad Request")]), bad);
    assert_eq!(raw("/secure", None, &[("x-api-key", b"abc-secret")]), (200, "authorized".to_owned()));
    assert_eq!(raw("/secure", None, &[]), (401, "Unauthorized".to_owned()));
    assert_eq!(raw("/problem", None, &[]).0, 400);
    assert_eq!(raw("/nowhere", None, &[]), (404, "Not Found".to_owned()));
    assert_eq!(
        raw("/uuid/67E55044-10B1-426F-9247-BB680E5FE0C8", None, &[]),
        (200, "67e55044-10b1-426f-9247-bb680e5fe0c8".to_owned())
    );
    assert_eq!(raw("/uuid/none", None, &[]), bad);
    let action =
        raw_action(&Method::POST, "/plaintext", None, &HeaderMap::new(), Bytes::new());
    let RawAction::Reply(response) = action else {
        panic!("a reply");
    };
    assert_eq!(response.status.as_u16(), 405);
    assert_eq!(header(&response, "allow"), Some("GET"));
}

#[test]
fn the_bare_server_names_types_and_lengths() {
    let told = |path: &str, fields: &[(&str, &[u8])]| {
        let users = Bytes::from_static(b"[]");
        match raw_action(&Method::GET, path, None, &headers(fields), users) {
            RawAction::Reply(response) => (
                header(&response, "content-type").map(str::to_owned),
                header(&response, "content-length").map(str::to_owned),
            ),
            RawAction::QueryDatabase => panic!("a reply"),
        }
    };
    let some = |text: &str| Some(text.to_owned());
    let plain = some("text/plain; charset=utf-8");
    let json = some("application/json");
    assert_eq!(told("/plaintext", &[]), (None, None));
    assert_eq!(told("/fixed/path", &[]), (None, None));
    assert_eq!(told("/json-static", &[]), (json.clone(), None));
    assert_eq!(told("/users-static", &[]), (json.clone(), None));
    assert_eq!(told("/raw-handler", &[]), (plain.clone(), some("2")));
    assert_eq!(told("/problem", &[]), (json.clone(), some("84")));
    assert_eq!(told("/validation-success/42", &[]), (json, some("19")));
    assert_eq!(told("/validation-success/1", &[]), (None, None));
    assert_eq!(told("/secure", &[]), (plain.clone(), some("12")));
    assert_eq!(told("/params/a/b", &[]), (plain.clone(), some("3")));
    assert_eq!(told("/params/a", &[]), (plain, some("11")));
    assert_eq!(told("/users/7", &[]), (None, None));
    assert_eq!(told("/trace", &[("x-trace-id", b"t")]), (None, None));
    assert_eq!(told("/unknown", &[]), (None, None));
}

#[test]
fn uuids_have_their_usual_text() {
    let mut zero = uuid_reply(Some(0));
    assert_eq!(body(&mut zero), "00000000-0000-0000-0000-000000000000");
    let mut counted = uuid_reply(Some(0x0123_4567_89ab_cdef_0123_4567_89ab_cdef));
    assert_eq!(body(&mut counted), "01234567-89ab-cdef-0123-456789abcdef");
    assert_eq!(uuid_reply(None).status.as_u16(), 400);
}

#[test]
fn database_outcomes_are_told_apart() {
    assert_eq!(db_response(DbReply::NotConfigured).status.as_u16(), 503);
    assert_eq!(db_response(DbReply::QueryFailed).status.as_u16(), 502);
    assert_eq!(db_response(DbReply::SerializationFailed).status.as_u16(), 500);
    let mut users = db_response(DbReply::Users(Bytes::from_static(b"[]")));
    assert_eq!(users.status.as_u16(), 200);
    assert_eq!(header(&users, "content-type"), Some("application/json"));
    assert_eq!(body(&mut users), "[]");
}
