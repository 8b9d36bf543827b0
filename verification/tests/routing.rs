//! Routes, captures and plans.

use bytes::Bytes;
use oas_rs::app::{App, RegistrationError, DEFAULT_MAX_BODY_SIZE};
use oas_rs::dispatch::{Captures, PreparedDispatch, Routing};
use oas_rs::extract::Needs;
use oas_rs::method::Method;
use oas_rs::openapi::BuildError;
use oas_rs::params::{CaptureRange, CaptureSet, Params};
use oas_rs::path::{
    check_template, normalize_path, normalize_request_path, parse_template, split_path, Segment,
};
use oas_rs::plan::{BodyMode, CaptureMode, Endpoint, HandlerKind, RoutePlan};
use oas_rs::router::{resolve_route_set, RouteFailure, RouteId, RouteSet};
use oas_rs::schema::OpenApiRequest;
use oas_rs::status::StatusCode;
use oas_rs::trie::{DynamicRouteNode, DynamicRouteTrie, NodeId};
use oas_rs::uri::OneshotError;
use std::mem::size_of;
use std::sync::Arc;

type Name = &'static str;
type TestApp = App<(), Name>;

fn endpoint(handler: Name, zero: bool, needs: Needs) -> Endpoint<Name> {
    Endpoint {
        handler,
        zero,
        needs,
        response_status: StatusCode::ok(),
        response_schema: None,
        request: OpenApiRequest::default(),
    }
}

fn zero(handler: Name) -> Endpoint<Name> {
    endpoint(handler, true, Needs::nothing())
}

fn captured(handler: Name) -> Endpoint<Name> {
    endpoint(handler, false, Needs { params: false, capture: true, body: false })
}

fn with_params(handler: Name) -> Endpoint<Name> {
    endpoint(handler, false, Needs { params: true, capture: true, body: false })
}

fn with_body(handler: Name) -> Endpoint<Name> {
    endpoint(handler, false, Needs { params: false, capture: false, body: true })
}

fn app() -> TestApp {
    App::new()
}

#[test]
fn runtime_keeps_hot_plans_separate_from_cold_metadata() {
    let mut app = app();
    app.get("/zero", zero("OK"));
    app.openapi();

    assert_eq!(app.plans.len(), 1);
    assert_eq!(app.metadata.len(), 1);
}

#[test]
fn build_freezes_route_storage_into_boxed_slices() {
    let mut app = app();
    app.get("/zero", zero("OK"));

    let runtime = app.build().expect("test app builds");

    assert_eq!(runtime.plans.len(), 1);
}

#[test]
fn app_builder_is_available_as_the_registration_type() {
    let mut builder = app();
    builder.get("/zero", zero("OK"));
    assert_eq!(builder.plans.len(), 1);
}

#[test]
fn no_capture_routes_use_a_shared_empty_params() {
    assert!(std::ptr::eq(Params::empty(), Params::empty()));
    assert!(Params::empty().get("id").is_none());
}

#[test]
fn materialized_params_clone_shares_owned_values() {
    let names = vec!["id".to_owned()];
    let captures = CaptureSet::default().with_capture(0, CaptureRange { start: 1, end: 6 });
    let params = Params::from_match(&names, captures, "/alice", true);
    let cloned = params.clone();

    assert_eq!(params.get("id"), Some("alice"));
    assert_eq!(cloned.get("id"), Some("alice"));
    assert!(Arc::ptr_eq(
        params.owned.as_ref().expect("materialized values"),
        cloned.owned.as_ref().expect("materialized values"),
    ));
    assert!(Arc::ptr_eq(
        &params.owned.as_ref().expect("materialized values").names,
        &cloned.owned.as_ref().expect("materialized values").names,
    ));
}

#[test]
fn params_keep_capture_ranges_in_compact_storage() {
    assert!(size_of::<Params>() <= 88);
}

#[test]
fn route_ids_are_compact_u32_handles() {
    assert_eq!(size_of::<RouteId>(), size_of::<u32>());
    assert_eq!(size_of::<NodeId>(), size_of::<u32>());
    assert!(size_of::<Option<NodeId>>() <= size_of::<Option<usize>>());
    assert!(size_of::<DynamicRouteNode>() <= 88);
    assert!(size_of::<RouteSet>() <= 32);
}

#[test]
fn route_sets_keep_allow_metadata_off_the_hot_slots() {
    let mut routes = RouteSet::default();
    assert!(routes.is_empty());
    routes.insert(Method::POST, 0);
    routes.insert(Method::GET, 1);
    assert_eq!(routes.allowed_methods(), "GET, POST");
    routes.remove(&Method::GET);
    assert_eq!(routes.allowed_methods(), "POST");
    assert!(!routes.is_empty());
    routes.remove(&Method::POST);
    assert!(routes.is_empty());
}

#[test]
fn route_plans_encode_capture_materialization_mode() {
    let mut app = app();
    app.get("/plain", zero("OK"));
    app.get("/path/{id}", captured("OK"));
    app.get("/params/{id}", with_params("OK"));

    assert!(matches!(app.plans[0].capture_mode, CaptureMode::Absent));
    assert!(matches!(app.plans[1].capture_mode, CaptureMode::Borrowed));
    assert!(matches!(app.plans[2].capture_mode, CaptureMode::Materialized));
}

#[test]
fn route_plans_precompute_body_modes() {
    let mut app = app();
    app.get("/plain", zero("OK"));
    app.post("/json", with_body("body"));
    app.raw_get("/upload", "OK", StatusCode::ok(), None);

    assert!(matches!(app.plans[0].body_mode, BodyMode::Absent));
    assert!(matches!(app.plans[1].body_mode, BodyMode::Buffered));
    assert_eq!(app.plans[1].body_limit, DEFAULT_MAX_BODY_SIZE as u32);
    assert!(matches!(app.plans[2].body_mode, BodyMode::Incoming));
}

#[test]
fn buffered_body_limit_is_compiled_into_route_plans() {
    let mut app = app();
    app.post("/json", with_body("body"));
    app.raw_get("/upload", "OK", StatusCode::ok(), None);

    app.max_body_size(32);
    assert_eq!(app.plans[0].body_limit, 32);
    assert_eq!(app.plans[1].body_limit, 0);

    app.max_body_size(64);
    assert_eq!(app.plans[0].body_limit, 64);
}

#[test]
fn raw_routes_support_explicit_methods() {
    let mut app = app();
    app.raw(Method::POST, "/upload", "OK", StatusCode::ok(), None);

    let index =
        resolve_route_set(&Method::POST, app.static_routes.get("/upload").expect("raw route"))
            .expect("raw POST route did not resolve");
    assert!(matches!(app.plans[index.index()].handler, HandlerKind::Raw(_)));
}

#[test]
fn raw_routes_are_known_before_a_body_is_read() {
    let mut app = app();
    app.raw(Method::POST, "/upload/{name}", "OK", StatusCode::ok(), None);
    app.get("/plain", zero("OK"));
    app.raw_get("/openapi.json", "raw", StatusCode::ok(), None);
    assert!(app.check_incoming(&Method::POST, "/upload/a/"));
    assert!(!app.check_incoming(&Method::GET, "/upload/a"));
    assert!(!app.check_incoming(&Method::GET, "/plain"));
    assert!(!app.check_answer(&Method::GET, "/openapi.json"));
    assert!(app.check_answer(&Method::GET, "/plain"));
    assert!(app.check_answer(&Method::GET, "/unknown"));
    app.raw(Method::PUT, "/openapi.json", "raw", StatusCode::ok(), None);
    app.openapi();
    assert!(app.check_answer(&Method::GET, "/openapi.json/"));
    assert!(!app.check_answer(&Method::PUT, "/openapi.json/"));
    assert!(app.check_incoming(&Method::GET, "/openapi.json"));
    let PreparedDispatch::Ready(response) = app.answer::<()>(&Method::GET, "/openapi.json", 0)
    else {
        panic!("the document is ready");
    };
    assert_eq!(response.status.as_u16(), 200);
    let refused = app.oneshot::<()>(&Method::PUT, "/openapi.json?a=b", 0).err();
    assert_eq!(refused, Some(OneshotError::NeedsIncoming));
    let refused = app.oneshot::<()>(&Method::POST, "/upload/a", 0).err();
    assert_eq!(refused, Some(OneshotError::NeedsIncoming));
    app.openapi().path("/spec.json");
    let runtime = app.build().expect("test app builds");
    assert!(runtime.check_incoming(&Method::GET, "/openapi.json"));
    assert!(!runtime.check_incoming(&Method::GET, "/spec.json"));
    let refused = runtime.oneshot::<()>(&Method::GET, "/openapi.json", 0).err();
    assert_eq!(refused, Some(OneshotError::NeedsIncoming));
}

#[test]
fn uris_are_reduced_to_their_paths() {
    let mut app = app();
    app.get("/plain", zero("OK"));
    let kept = app.oneshot::<()>(&Method::GET, "http://example.com/plain?x=1", 0);
    assert!(matches!(kept, Ok(PreparedDispatch::Zero(false, handler)) if *handler == "OK"));
    for uri in ["", "/a b", "http://[", "/\u{7f}"] {
        let refused = app.oneshot::<()>(&Method::GET, uri, 0).err();
        assert_eq!(refused, Some(OneshotError::InvalidUri));
    }
    let long = format!("/{}", "a".repeat(65_533));
    assert!(app.oneshot::<()>(&Method::GET, &long, 0).is_ok());
    let longer = format!("/{}", "a".repeat(65_534));
    let runtime = app.build().expect("test app builds");
    assert!(matches!(
        runtime.oneshot::<()>(&Method::HEAD, "/plain/#part", 0),
        Ok(PreparedDispatch::Zero(true, _))
    ));
    let refused = runtime.oneshot::<()>(&Method::GET, &longer, 0).err();
    assert_eq!(refused, Some(OneshotError::InvalidUri));
}

#[test]
fn dynamic_routes_use_a_compiled_method_trie() {
    let mut app = app();
    for index in 0..10_000 {
        let path = format!("/dynamic/{index}/{{id}}");
        app.get(&path, zero("OK"));
    }

    assert!(app.dynamic_routes.node_count() < 20_010);
    let matched = app.dynamic_routes.find("/dynamic/9999/42").expect("dynamic route match");
    assert_eq!(matched.routes.route(&Method::GET).map(RouteId::index), Some(9_999));
    assert_eq!(matched.captures.count, 1);
    assert!(app.dynamic_routes.find("/dynamic/missing/42").is_none());
}

#[test]
fn dynamic_trie_restores_captures_after_failed_static_branch() {
    let mut app = app();
    app.get("/files/static/other", zero("static"));
    app.get("/files/{id}/tail", zero("capture"));

    let matched =
        app.dynamic_routes.find("/files/static/tail").expect("capture fallback should match");
    assert_eq!(matched.captures.count, 1);
    assert_eq!(matched.captures.range(0).unwrap().start, 7);
    assert_eq!(matched.captures.range(0).unwrap().end, 13);
}

#[test]
fn report_hot_path_layout_sizes() {
    println!(
        "Params={} CaptureMode={} BodyMode={} HandlerKind={} RoutePlan={} RouteSet={} DynamicRouteNode={} RouteFailure={}",
        size_of::<Params>(),
        size_of::<CaptureMode>(),
        size_of::<BodyMode>(),
        size_of::<HandlerKind<Box<dyn Fn()>>>(),
        size_of::<RoutePlan<Box<dyn Fn()>>>(),
        size_of::<RouteSet>(),
        size_of::<DynamicRouteNode>(),
        size_of::<RouteFailure>(),
    );
}

#[test]
fn capture_names_stay_out_of_hot_route_plans() {
    assert_eq!(size_of::<CaptureMode>(), 1);
    assert!(size_of::<RoutePlan<Box<dyn Fn()>>>() <= 32);
    assert!(size_of::<RouteFailure>() <= 32);
}

#[test]
fn duplicate_routes_are_rejected_at_registration() {
    let mut app = app();
    app.get("/duplicate", zero("OK"));
    let error = app.check_route(&Method::GET, "/duplicate").unwrap_err();
    assert_eq!(error, RegistrationError::DuplicateRoute);
    assert_eq!(error.message(), "duplicate route");
    assert_eq!(app.check_route(&Method::GET, "/duplicate/"), Err(error));
    assert_eq!(app.check_route(&Method::POST, "/duplicate"), Ok(()));
    assert_eq!(app.check_static_route("/duplicate"), Err(error));
}

#[test]
fn duplicate_operation_ids_are_rejected_at_registration() {
    let mut app = app();
    app.get("/one", zero("OK")).operation_id("same");
    app.get("/two", zero("OK"));
    assert!(!app.check_operation_id("same"));
    assert!(app.check_operation_id("other"));
    app.operation_id("other");
    assert_eq!(app.metadata[1].operation.operation_id.as_deref(), Some("other"));
    assert_eq!(app.metadata[0].operation.operation_id.as_deref(), Some("same"));
}

#[test]
fn malformed_route_templates_are_rejected_at_registration() {
    let app = app();
    let error = app.check_route(&Method::GET, "/users/{id").unwrap_err();
    assert_eq!(error, RegistrationError::InvalidTemplate);
    assert_eq!(error.message(), "invalid route template");
    assert_eq!(app.check_route(&Method::GET, "/users/{}"), Err(error));
    assert_eq!(app.check_route(&Method::GET, "/users/a{b}"), Err(error));
    assert_eq!(app.check_route(&Method::GET, "/users/{id}"), Ok(()));
}

#[test]
fn other_registration_errors_are_told_apart() {
    let mut app = app();
    app.get("/users/{id}", captured("by id"));
    assert_eq!(
        app.check_route(&Method::GET, "/users/{name}"),
        Err(RegistrationError::DuplicatePattern)
    );
    assert_eq!(RegistrationError::DuplicatePattern.message(), "duplicate route pattern and method");
    assert_eq!(app.check_route(&Method::POST, "/users/{name}"), Ok(()));
    assert_eq!(
        app.check_route(&Method::from_name("TRACE"), "/trace"),
        Err(RegistrationError::UnsupportedMethod)
    );
    assert_eq!(RegistrationError::UnsupportedMethod.message(), "unsupported route method");
    assert_eq!(
        app.check_static_route("/static/{id}"),
        Err(RegistrationError::StaticCaptures)
    );
    assert_eq!(
        RegistrationError::StaticCaptures.message(),
        "static response routes cannot contain captures"
    );
    assert_eq!(app.check_static_route("/static/{"), Err(RegistrationError::InvalidTemplate));
    assert_eq!(RegistrationError::TooManyNodes.message(), "dynamic trie exceeds u32::MAX nodes");
    assert_eq!(RegistrationError::TooManyRoutes.message(), "route count exceeds u32::MAX");
}

#[test]
fn a_template_with_nine_captures_is_recorded_and_the_first_is_kept() {
    let long = "/{a}/{b}/{c}/{d}/{e}/{f}/{g}/{h}/{i}";
    let mut app = app();
    app.get("/plain", zero("OK")).tag("kept");
    assert_eq!(app.check_route(&Method::GET, long), Ok(()));
    app.get(long, captured("too long"));
    app.get(&format!("/x{long}"), captured("too long"));
    assert_eq!(app.plans.len(), 1);
    app.summary("of the plain route");
    assert_eq!(app.metadata[0].operation.summary.as_deref(), Some("of the plain route"));
    let error = app.build().err().expect("the build fails");
    assert_eq!(
        error.message(),
        "route has 9 captures, at most 8 are supported: /{a}/{b}/{c}/{d}/{e}/{f}/{g}/{h}/{i}"
    );
}

#[test]
fn eight_captures_are_matched_in_order() {
    let mut app = app();
    app.get("/{a}/{b}/{c}/{d}/{e}/{f}/{g}/{h}", with_params("eight"));
    let runtime = app.build().expect("eight captures build");
    let Routing::Matched(index, Captures::Dynamic(set)) =
        runtime.route(&Method::GET, "/1/22/333/4/5/6/7/8/")
    else {
        panic!("the route matches");
    };
    assert_eq!(index.index(), 0);
    assert_eq!(set.count, 8);
    assert_eq!((set.range(0).unwrap().start, set.range(0).unwrap().end), (1, 2));
    assert_eq!((set.range(2).unwrap().start, set.range(2).unwrap().end), (6, 9));
    assert!(set.range(8).is_none());
}

#[test]
fn fixed_segments_come_before_captures_and_captures_after_dead_ends() {
    let mut app = app();
    app.get("/a/{x}/c", captured("x"));
    app.get("/a/b/{y}", captured("y"));
    app.get("/{z}/b/d", captured("z"));
    let served = |path: &str| match app.dynamic_routes.find(path) {
        Some(found) => found.routes.route(&Method::GET).map(RouteId::index),
        None => None,
    };
    assert_eq!(served("/a/b/c"), Some(1));
    assert_eq!(served("/a/q/c"), Some(0));
    assert_eq!(served("/a/b/d"), Some(1));
    assert_eq!(served("/q/b/d"), Some(2));
    assert_eq!(served("/a/q/d"), None);
    assert_eq!(served("/a/%ZZ/c"), None);
    assert_eq!(served("/a//q/c"), Some(0));
}

#[test]
fn a_static_template_decides_alone() {
    let mut app = app();
    app.get("/users/{id}", captured("by id"));
    app.post("/users/me", zero("me"));
    let runtime = app.build().expect("test app builds");
    assert!(matches!(
        runtime.route(&Method::GET, "/users/me"),
        Routing::MethodNotAllowed(allow) if allow == "POST"
    ));
    assert!(matches!(runtime.route(&Method::GET, "/users/you"), Routing::Matched(..)));
    assert!(matches!(runtime.route(&Method::GET, "/users"), Routing::NotFound));
}

#[test]
fn head_is_served_by_get_unless_it_has_a_route() {
    let mut app = app();
    app.get("/both", zero("get"));
    app.head("/both", zero("head"));
    app.get("/get", zero("get"));
    app.post("/post", zero("post"));
    let runtime = app.build().expect("test app builds");
    let index = |path: &str| match runtime.route(&Method::HEAD, path) {
        Routing::Matched(index, Captures::Fixed) => Some(index.index()),
        _ => None,
    };
    assert_eq!(index("/both"), Some(1));
    assert_eq!(index("/get"), Some(2));
    assert_eq!(index("/post"), None);
    assert!(matches!(
        resolve_route_set(&Method::HEAD, runtime.static_routes.get("/post").unwrap()),
        Err(RouteFailure::MethodNotAllowed(allow)) if allow == "POST"
    ));
    assert!(matches!(
        resolve_route_set(&Method::OPTIONS, runtime.static_routes.get("/both").unwrap()),
        Err(RouteFailure::Options(allow)) if allow == "GET, HEAD"
    ));
}

#[test]
fn generated_documents_conflict_with_routes() {
    let mut app = app();
    app.get("/openapi.json", zero("mine"));
    app.openapi();
    assert!(app.check_build());
    let error = app.build().err().expect("a conflict");
    assert_eq!(
        error,
        BuildError::RouteConflict { path: "/openapi.json".to_owned(), method: Method::GET }
    );
    assert_eq!(error.message(), "generated route conflicts with GET /openapi.json");
}

#[test]
fn generated_documents_need_static_paths() {
    let mut app = app();
    app.swagger().path("/docs/{page}/");
    assert!(app.check_build());
    let error = app.build().err().expect("a template with captures");
    assert_eq!(
        error,
        BuildError::InvalidGeneratedPath { path: "/docs/{page}".to_owned() }
    );
    assert_eq!(error.message(), "generated route must be static: /docs/{page}");
}

#[test]
fn generated_documents_need_well_formed_paths() {
    let mut app = app();
    app.openapi().path("/{");
    assert!(!app.check_build());
    app.openapi().path("/spec");
    app.swagger().path("/spec");
    assert!(app.check_build());
    let error = app.build().err().expect("the page conflicts with the document");
    assert_eq!(
        error,
        BuildError::RouteConflict { path: "/spec".to_owned(), method: Method::GET }
    );
}

#[test]
fn a_build_keeps_the_routes_and_adds_the_documents() {
    let mut app = app();
    app.get("/one", zero("one"));
    app.post("/docs", zero("two"));
    app.openapi().title("T").version("2").description("D");
    app.swagger();
    let document = app.openapi_document().to_string();
    let runtime = app.build().expect("test app builds");
    assert_eq!(runtime.plans.len(), 4);
    let served = |method: Method, path: &str| match runtime.route(&method, path) {
        Routing::Matched(index, _) => Some(index.index()),
        _ => None,
    };
    assert_eq!(served(Method::GET, "/one"), Some(0));
    assert_eq!(served(Method::POST, "/docs"), Some(1));
    assert_eq!(served(Method::GET, "/openapi.json"), Some(2));
    assert_eq!(served(Method::GET, "/docs/"), Some(3));
    let HandlerKind::Static(prepared) = &runtime.plans[2].handler else {
        panic!("the document is prepared");
    };
    let response = prepared.to_response::<()>();
    let mut body = response.body;
    assert_eq!(body.take_full().unwrap(), Bytes::from(document.clone()));
    assert_eq!(
        document,
        r#"{"info":{"description":"D","title":"T","version":"2"},"openapi":"3.1.0","paths":{"/docs":{"post":{"responses":{"200":{"description":"Success"}}}},"/one":{"get":{"responses":{"200":{"description":"Success"}}}}}}"#
    );
}

#[test]
fn kept_documents_follow_the_application() {
    let mut app = app();
    app.get("/one", zero("one"));
    app.openapi();
    app.swagger();
    app.prepare_openapi();
    app.prepare_swagger();
    assert!(app.openapi_bytes.is_some() && app.swagger_bytes.is_some());
    app.get("/two", zero("two"));
    assert!(app.openapi_bytes.is_none() && app.swagger_bytes.is_some());
    app.prepare_openapi();
    app.tag("second");
    assert!(app.openapi_bytes.is_none() && app.swagger_bytes.is_none());
    app.prepare_openapi();
    app.prepare_swagger();
    app.openapi().path("/spec.json");
    assert!(app.openapi_bytes.is_none() && app.swagger_bytes.is_none());
}

#[test]
fn state_is_installed_before_routes() {
    let mut base: App<(), Name> = App::new();
    base.max_body_size(10);
    let app: App<u32, Name> = base.with_state(5);
    assert_eq!(*app.state, 5);
    assert_eq!(app.max_body_size, 10);
    assert!(app.plans.is_empty());
    let fresh: App<(), Name> = App::default();
    assert_eq!(fresh.max_body_size as usize, 1024 * 1024);
}

#[test]
fn a_trie_knows_its_patterns() {
    let mut trie = DynamicRouteTrie::default();
    let segments = parse_template("/users/{id}/posts");
    assert!(trie.has_room(&segments));
    assert!(!trie.has_method(&segments, &Method::GET));
    trie.insert(&segments, Method::GET, 3);
    assert_eq!(trie.node_count(), 4);
    assert!(trie.has_method(&parse_template("/users/{name}/posts"), &Method::GET));
    assert!(!trie.has_method(&parse_template("/users/{name}/posts"), &Method::PUT));
    assert!(!trie.has_method(&parse_template("/users/{name}"), &Method::GET));
}

#[test]
fn patterns_share_the_nodes_of_their_beginnings() {
    let mut app = app();
    for index in 0..10_000 {
        app.get(&format!("/dynamic/{index}/{{id}}"), zero("OK"));
    }
    assert_eq!(app.dynamic_routes.node_count(), 20_002);
    app.post("/dynamic/0/{other}", zero("OK"));
    app.get("/dynamic", zero("OK"));
    assert_eq!(app.dynamic_routes.node_count(), 20_002);
    app.get("/dynamic/0/{id}/more", zero("OK"));
    assert_eq!(app.dynamic_routes.node_count(), 20_003);
}

#[test]
fn a_trie_takes_one_pattern_after_another() {
    let mut trie = DynamicRouteTrie::default();
    trie.insert(&parse_template("/files/static/{v}/other"), Method::GET, 0);
    trie.insert(&parse_template("/files/{id}/x/tail"), Method::GET, 1);
    assert_eq!(trie.node_count(), 8);
    let found = trie.find("/files/static/x/tail").expect("the second pattern");
    assert_eq!(found.routes.route(&Method::GET), Some(RouteId(1)));
    assert_eq!(found.captures.count, 1);
    assert_eq!(found.captures.range(0).unwrap().start, 7);
    assert_eq!(found.captures.range(0).unwrap().end, 13);
}

#[test]
fn paths_have_a_normal_form() {
    assert_eq!(normalize_path(""), "/");
    assert_eq!(normalize_path("/"), "/");
    assert_eq!(normalize_path("/a/"), "/a");
    assert_eq!(normalize_path("/a//"), "/a");
    assert_eq!(normalize_path("//"), "");
    assert_eq!(normalize_request_path(""), "");
    assert_eq!(normalize_request_path("/"), "/");
    assert_eq!(normalize_request_path("/a/b///"), "/a/b");
    assert_eq!(normalize_request_path(normalize_path("/é/").as_str()), "/é");
}

#[test]
fn templates_are_split_into_segments() {
    assert_eq!(split_path("//a///bé/c/"), vec!["a", "bé", "c"]);
    assert!(split_path("/").is_empty());
    let segments = parse_template("/a/{naïve}/b");
    assert!(matches!(&segments[0], Segment::Static(value) if value == "a"));
    assert!(matches!(&segments[1], Segment::Capture(name) if name == "naïve"));
    assert!(matches!(&segments[2], Segment::Static(value) if value == "b"));
    assert!(check_template("/a/{b}"));
    assert!(!check_template("/a/{}"));
    assert!(!check_template("/a/b}"));
    assert!(!check_template("/{a}b"));
}

#[test]
fn methods_have_names() {
    assert_eq!(Method::from_name("GET"), Method::GET);
    assert_eq!(Method::from_name("BREW").as_str(), "BREW");
    assert_eq!(Method::DELETE.as_str(), "DELETE");
    assert!(Method::PATCH.same(&Method::from_name("PATCH")));
}

#[test]
fn generated_documents_do_not_share_a_path() {
    let mut shared = app();
    shared.openapi().path("/docs/");
    shared.swagger();
    assert!(shared.check_build());
    let error = shared.build().err().expect("the paths are the same");
    assert_eq!(error.message(), "generated route conflicts with GET /docs");

    let mut taken = app();
    taken.get("/docs", zero("mine"));
    taken.openapi();
    taken.swagger();
    let error = taken.build().err().expect("the path is taken");
    assert!(matches!(error, BuildError::RouteConflict { path, .. } if path == "/docs"));

    let mut posted = app();
    posted.post("/docs", zero("mine"));
    posted.swagger();
    let runtime = posted.build().expect("another method is free");
    assert_eq!(runtime.plans.len(), 2);
}
