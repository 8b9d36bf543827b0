//! What holds of the functions that change an application or one of its parts.

use crate::app::App;
use crate::method::Method;
use crate::openapi;
use crate::path;
use crate::payload;
use crate::plan;
use crate::plan::{BodyMode, CaptureMode, Endpoint, HandlerKind};
use crate::response::StaticResponse;
use crate::router;
use crate::router::{RouteId, RouteSet};
use crate::schema;
use crate::settings::{OpenApiOptions, SwaggerOptions};
use crate::status::StatusCode;
use bytes::Bytes;
use serde_json::Value;
use vstd::prelude::*;
use vstd::string::*;
use vstd::utf8::*;

verus! {

/// Whether a route was added behind the others, which stay as they were.
pub open spec fn adds_route<S, H>(before: App<S, H>, after: App<S, H>) -> bool {
    let count = before.metadata@.len() as int;
    &&& after.metadata@.len() == count + 1
    &&& after.plans@.len() == count + 1
    &&& forall|i: int|
        0 <= i < count ==> (#[trigger] after.metadata@[i]) == before.metadata@[i]
    &&& forall|i: int| 0 <= i < count ==> (#[trigger] after.plans@[i]) == before.plans@[i]
    &&& after.last_route == Some(count as usize)
    &&& after.state == before.state
    &&& after.max_body_size == before.max_body_size
    &&& after.openapi_config == before.openapi_config
    &&& after.swagger_config == before.swagger_config
}

/// Whether the last route has a method and a path, is shown in the document, and has no
/// documentation but its status and its schema.
pub open spec fn last_is<S, H>(
    app: App<S, H>,
    method: Seq<char>,
    path: Seq<char>,
    status: u16,
    schema: Option<Value>,
) -> bool {
    let route = app.metadata@.last();
    &&& route.method@ == method
    &&& route.template@ == path::normal_path(path)
    &&& !route.builtin
    &&& route.operation.response_status@ == status
    &&& route.operation.tag is None
    &&& route.operation.summary is None
    &&& route.operation.operation_id is None
    &&& match (route.operation.response_schema, schema) {
        (Some(kept), Some(given)) => crate::json::json_tree(kept) == crate::json::json_tree(given),
        (kept, given) => kept is None && given is None,
    }
}

/// Whether the last route calls the handler of an endpoint with what the endpoint needs.
pub open spec fn last_calls<S, H>(app: App<S, H>, endpoint: Endpoint<H>) -> bool {
    let plan = app.plans@.last();
    let fixed = plan::capture_names_of(path::segment_views(app.metadata@.last().segments@)).len()
        == 0;
    &&& plan.handler == if endpoint.zero {
        HandlerKind::Zero(endpoint.handler)
    } else if endpoint.needs.capture {
        HandlerKind::Typed(endpoint.handler)
    } else {
        HandlerKind::TypedNoParams(endpoint.handler)
    }
    &&& plan.body_mode == if endpoint.needs.body {
        BodyMode::Buffered
    } else {
        BodyMode::Absent
    }
    &&& plan.body_limit == if endpoint.needs.body {
        app.max_body_size
    } else {
        0
    }
    &&& plan.capture_mode == if endpoint.needs.params {
        CaptureMode::Materialized
    } else if fixed {
        CaptureMode::Absent
    } else {
        CaptureMode::Borrowed
    }
    &&& app.metadata@.last().operation.request@ == endpoint.request@
}

/// Whether a template has no more captures than a route may have.
pub open spec fn can_stand(path: Seq<char>) -> bool {
    plan::capture_names_of(path::template_segments(path::normal_path(path))).len() <= 8
}

/// What a route that was registered shows.
proof fn lemma_endpoint<S, H>(
    before: App<S, H>,
    after: App<S, H>,
    method: Seq<char>,
    path: Seq<char>,
    endpoint: Endpoint<H>,
)
    requires
        before.wf(),
        before.metadata@.len() < usize::MAX,
        can_stand(path),
        after.routes_endpoint(&before, method, path, endpoint),
    ensures
        adds_route(before, after),
        last_is(after, method, path, endpoint.response_status@, endpoint.response_schema),
        last_calls(after, endpoint),
{
    let segments = path::template_segments(path::normal_path(path));
    plan::lemma_capture_names(segments);
    let count = before.metadata@.len() as int;
    assert forall|i: int| 0 <= i < count implies (#[trigger] after.metadata@[i])
        == before.metadata@[i] by {
        assert(after.metadata@.take(count)[i] == before.metadata@[i]);
    }
    assert(path::segment_views(after.metadata@.last().segments@) == segments);
}

/// `get` registers its endpoint for `GET`.
pub proof fn law_get_registers_its_method<S, H>(
    app: &mut App<S, H>,
    path: &str,
    endpoint: Endpoint<H>,
    r: &mut App<S, H>,
)
    requires
        old(app).wf(),
        old(app).metadata@.len() < usize::MAX,
        can_stand(path@),
        call_ensures(App::<S, H>::get, (app, path, endpoint), r),
    ensures
        adds_route(*old(app), *old(r)),
        last_is(*old(r), "GET"@, path@, endpoint.response_status@, endpoint.response_schema),
        last_calls(*old(r), endpoint),
        *final(app) == *final(r),
{
    lemma_endpoint(*app, *r, "GET"@, path@, endpoint);
}

/// `head` registers its endpoint for `HEAD`.
pub proof fn law_head_registers_its_method<S, H>(
    app: &mut App<S, H>,
    path: &str,
    endpoint: Endpoint<H>,
    r: &mut App<S, H>,
)
    requires
        old(app).wf(),
        old(app).metadata@.len() < usize::MAX,
        can_stand(path@),
        call_ensures(App::<S, H>::head, (app, path, endpoint), r),
    ensures
        adds_route(*old(app), *old(r)),
        last_is(*old(r), "HEAD"@, path@, endpoint.response_status@, endpoint.response_schema),
        last_calls(*old(r), endpoint),
        *final(app) == *final(r),
{
    lemma_endpoint(*app, *r, "HEAD"@, path@, endpoint);
}

/// `post` registers its endpoint for `POST`.
pub proof fn law_post_registers_its_method<S, H>(
    app: &mut App<S, H>,
    path: &str,
    endpoint: Endpoint<H>,
    r: &mut App<S, H>,
)
    requires
        old(app).wf(),
        old(app).metadata@.len() < usize::MAX,
        can_stand(path@),
        call_ensures(App::<S, H>::post, (app, path, endpoint), r),
    ensures
        adds_route(*old(app), *old(r)),
        last_is(*old(r), "POST"@, path@, endpoint.response_status@, endpoint.response_schema),
        last_calls(*old(r), endpoint),
        *final(app) == *final(r),
{
    lemma_endpoint(*app, *r, "POST"@, path@, endpoint);
}

/// `put` registers its endpoint for `PUT`.
pub proof fn law_put_registers_its_method<S, H>(
    app: &mut App<S, H>,
    path: &str,
    endpoint: Endpoint<H>,
    r: &mut App<S, H>,
)
    requires
        old(app).wf(),
        old(app).metadata@.len() < usize::MAX,
        can_stand(path@),
        call_ensures(App::<S, H>::put, (app, path, endpoint), r),
    ensures
        adds_route(*old(app), *old(r)),
        last_is(*old(r), "PUT"@, path@, endpoint.response_status@, endpoint.response_schema),
        last_calls(*old(r), endpoint),
        *final(app) == *final(r),
{
    lemma_endpoint(*app, *r, "PUT"@, path@, endpoint);
}

/// `patch` registers its endpoint for `PATCH`.
pub proof fn law_patch_registers_its_method<S, H>(
    app: &mut App<S, H>,
    path: &str,
    endpoint: Endpoint<H>,
    r: &mut App<S, H>,
)
    requires
        old(app).wf(),
        old(app).metadata@.len() < usize::MAX,
        can_stand(path@),
        call_ensures(App::<S, H>::patch, (app, path, endpoint), r),
    ensures
        adds_route(*old(app), *old(r)),
        last_is(*old(r), "PATCH"@, path@, endpoint.response_status@, endpoint.response_schema),
        last_calls(*old(r), endpoint),
        *final(app) == *final(r),
{
    lemma_endpoint(*app, *r, "PATCH"@, path@, endpoint);
}

/// `delete` registers its endpoint for `DELETE`.
pub proof fn law_delete_registers_its_method<S, H>(
    app: &mut App<S, H>,
    path: &str,
    endpoint: Endpoint<H>,
    r: &mut App<S, H>,
)
    requires
        old(app).wf(),
        old(app).metadata@.len() < usize::MAX,
        can_stand(path@),
        call_ensures(App::<S, H>::delete, (app, path, endpoint), r),
    ensures
        adds_route(*old(app), *old(r)),
        last_is(*old(r), "DELETE"@, path@, endpoint.response_status@, endpoint.response_schema),
        last_calls(*old(r), endpoint),
        *final(app) == *final(r),
{
    lemma_endpoint(*app, *r, "DELETE"@, path@, endpoint);
}

/// `options` registers its endpoint for `OPTIONS`.
pub proof fn law_options_registers_its_method<S, H>(
    app: &mut App<S, H>,
    path: &str,
    endpoint: Endpoint<H>,
    r: &mut App<S, H>,
)
    requires
        old(app).wf(),
        old(app).metadata@.len() < usize::MAX,
        can_stand(path@),
        call_ensures(App::<S, H>::options, (app, path, endpoint), r),
    ensures
        adds_route(*old(app), *old(r)),
        last_is(*old(r), "OPTIONS"@, path@, endpoint.response_status@, endpoint.response_schema),
        last_calls(*old(r), endpoint),
        *final(app) == *final(r),
{
    lemma_endpoint(*app, *r, "OPTIONS"@, path@, endpoint);
}

/// An endpoint is registered for the method that is given.
pub proof fn law_endpoints_are_registered<S, H>(
    app: &mut App<S, H>,
    method: Method,
    path: &str,
    endpoint: Endpoint<H>,
)
    requires
        old(app).wf(),
        old(app).metadata@.len() < usize::MAX,
        can_stand(path@),
        call_ensures(App::<S, H>::add_route, (app, method, path, endpoint), ()),
    ensures
        adds_route(*old(app), *final(app)),
        last_is(*final(app), method@, path@, endpoint.response_status@, endpoint.response_schema),
        last_calls(*final(app), endpoint),
{
    lemma_endpoint(*old(app), *final(app), method@, path@, endpoint);
}

/// Whether the last route hands the body on as it comes in.
pub open spec fn last_is_raw<S, H>(app: App<S, H>, handler: H) -> bool {
    let plan = app.plans@.last();
    &&& plan.handler == HandlerKind::Raw(handler)
    &&& plan.body_mode == BodyMode::Incoming
    &&& plan.body_limit == 0
    &&& plan.capture_mode == CaptureMode::Absent
    &&& app.metadata@.last().operation.request@ == schema::empty_request()
}

/// What a route for bodies as they come in shows.
proof fn lemma_raw<S, H>(
    before: App<S, H>,
    after: App<S, H>,
    method: Seq<char>,
    path: Seq<char>,
    handler: H,
    status: u16,
    schema: Option<Value>,
)
    requires
        before.wf(),
        before.metadata@.len() < usize::MAX,
        can_stand(path),
        after.routes_raw(&before, method, path, handler, status, schema::optional_tree(schema)),
    ensures
        adds_route(before, after),
        last_is(after, method, path, status, schema),
        last_is_raw(after, handler),
{
    plan::lemma_capture_names(path::template_segments(path::normal_path(path)));
    let count = before.metadata@.len() as int;
    assert forall|i: int| 0 <= i < count implies (#[trigger] after.metadata@[i])
        == before.metadata@[i] by {
        assert(after.metadata@.take(count)[i] == before.metadata@[i]);
    }
}

/// A raw handler is registered for its method and given the body as it comes in.
pub proof fn law_raw_handlers_are_registered<S, H>(
    app: &mut App<S, H>,
    method: Method,
    path: &str,
    handler: H,
    status: StatusCode,
    schema: Option<Value>,
    r: &mut App<S, H>,
)
    requires
        old(app).wf(),
        old(app).metadata@.len() < usize::MAX,
        can_stand(path@),
        call_ensures(App::<S, H>::raw, (app, method, path, handler, status, schema), r),
    ensures
        adds_route(*old(app), *old(r)),
        last_is(*old(r), method@, path@, status@, schema),
        last_is_raw(*old(r), handler),
        *final(app) == *final(r),
{
    lemma_raw(*app, *r, method@, path@, handler, status@, schema);
}

/// A raw handler is registered for `GET` where no method is given.
pub proof fn law_raw_get_registers_its_method<S, H>(
    app: &mut App<S, H>,
    path: &str,
    handler: H,
    status: StatusCode,
    schema: Option<Value>,
    r: &mut App<S, H>,
)
    requires
        old(app).wf(),
        old(app).metadata@.len() < usize::MAX,
        can_stand(path@),
        call_ensures(App::<S, H>::raw_get, (app, path, handler, status, schema), r),
    ensures
        adds_route(*old(app), *old(r)),
        last_is(*old(r), "GET"@, path@, status@, schema),
        last_is_raw(*old(r), handler),
        *final(app) == *final(r),
{
    lemma_raw(*app, *r, "GET"@, path@, handler, status@, schema);
}

/// What a route for a prepared response shows.
proof fn lemma_static<S, H>(
    before: App<S, H>,
    after: App<S, H>,
    path: Seq<char>,
    response: StaticResponse,
)
    requires
        before.wf(),
        before.metadata@.len() < usize::MAX,
        after.routes_static(&before, path, response),
    ensures
        adds_route(before, after),
        last_is(after, "GET"@, path, 200, None),
        after.plans@.last().handler matches HandlerKind::Static(kept) && *kept == response,
        after.plans@.last().body_mode == BodyMode::Absent,
{
    let count = before.metadata@.len() as int;
    assert forall|i: int| 0 <= i < count implies (#[trigger] after.metadata@[i])
        == before.metadata@[i] by {
        assert(after.metadata@.take(count)[i] == before.metadata@[i]);
    }
}

/// A prepared text answers `GET` with its bytes.
pub proof fn law_prepared_texts_are_registered<S, H>(
    app: &mut App<S, H>,
    path: &str,
    body: &'static str,
    r: &mut App<S, H>,
)
    requires
        old(app).wf(),
        old(app).metadata@.len() < usize::MAX,
        call_ensures(App::<S, H>::static_text, (app, path, body), r),
    ensures
        adds_route(*old(app), *old(r)),
        last_is(*old(r), "GET"@, path@, 200, None),
        old(r).plans@.last().handler matches HandlerKind::Static(kept)
            && *kept matches StaticResponse::Text { body: bytes, .. }
            && payload::bytes_contents(bytes) == encode_utf8(body@),
        *final(app) == *final(r),
{
    let response = choose|response: StaticResponse| #[trigger]
        r.routes_static(&*app, path@, response) && response.wf() && (
        response matches StaticResponse::Text { body: bytes, .. } && payload::bytes_contents(bytes)
            == encode_utf8(body@));
    lemma_static(*app, *r, path@, response);
}

/// Prepared JSON answers `GET` with its bytes.
pub proof fn law_prepared_json_is_registered<S, H>(
    app: &mut App<S, H>,
    path: &str,
    body: Bytes,
    r: &mut App<S, H>,
)
    requires
        old(app).wf(),
        old(app).metadata@.len() < usize::MAX,
        call_ensures(App::<S, H>::static_json, (app, path, body), r),
    ensures
        adds_route(*old(app), *old(r)),
        last_is(*old(r), "GET"@, path@, 200, None),
        old(r).plans@.last().handler matches HandlerKind::Static(kept)
            && *kept matches StaticResponse::Json { body: bytes } && bytes == body,
        *final(app) == *final(r),
{
    lemma_static(*app, *r, path@, StaticResponse::Json { body });
}

/// Whether nothing but what is configured and what is kept of the documents differs.
pub open spec fn keeps_routes<S, H>(before: App<S, H>, after: App<S, H>) -> bool {
    &&& after.metadata == before.metadata
    &&& after.plans == before.plans
    &&& after.static_routes == before.static_routes
    &&& after.dynamic_routes == before.dynamic_routes
    &&& after.last_route == before.last_route
    &&& after.state == before.state
    &&& after.max_body_size == before.max_body_size
    &&& after.route_error == before.route_error
}

/// The document is enabled with its defaults, and what was configured before stays.
pub proof fn law_documents_are_enabled<S, H>(
    app: &mut App<S, H>,
    r: OpenApiOptions<'_, S, H>,
)
    requires
        call_ensures(App::<S, H>::openapi, (app,), r),
    ensures
        keeps_routes(*old(app), *old(r.app)),
        old(r.app).swagger_config == old(app).swagger_config,
        old(r.app).openapi_bytes is None,
        old(r.app).swagger_bytes is None,
        old(app).openapi_config is Some ==> old(r.app).openapi_config == old(app).openapi_config,
        old(app).openapi_config is None ==> (old(r.app).openapi_config matches Some(config)
            && config.path@ == "/openapi.json"@ && config.title@ == "oas-rs"@ && config.version@
            == "0.1.0"@ && config.description is None),
        *final(app) == *final(r.app),
{
}

/// The page is enabled with its default, and what was configured before stays.
pub proof fn law_pages_are_enabled<S, H>(app: &mut App<S, H>, r: SwaggerOptions<'_, S, H>)
    requires
        call_ensures(App::<S, H>::swagger, (app,), r),
    ensures
        keeps_routes(*old(app), *old(r.app)),
        old(r.app).openapi_config == old(app).openapi_config,
        old(r.app).openapi_bytes == old(app).openapi_bytes,
        old(r.app).swagger_bytes is None,
        old(app).swagger_config is Some ==> old(r.app).swagger_config == old(app).swagger_config,
        old(app).swagger_config is None ==> (old(r.app).swagger_config matches Some(config)
            && config.path@ == "/docs"@),
        *final(app) == *final(r.app),
{
}

/// The path of the document can be set, and nothing else changes.
pub proof fn law_path_of_documents_is_set<S, H>(
    options: OpenApiOptions<'_, S, H>,
    path: &str,
    r: OpenApiOptions<'_, S, H>,
    before: openapi::OpenApiConfig,
)
    requires
        old(options.app).openapi_config == Some(before),
        call_ensures(OpenApiOptions::<'_, S, H>::path, (options, path), r),
    ensures
        keeps_routes(*old(options.app), *old(r.app)),
        old(r.app).swagger_config == old(options.app).swagger_config,
        old(r.app).openapi_bytes is None,
        old(r.app).swagger_bytes is None,
        old(r.app).openapi_config matches Some(config) && config.path@ == path::normal_path(path@)
            && config.title@ == before.title@
            && config.version@ == before.version@
            && plan::optional_text(config.description) == plan::optional_text(before.description),
        *final(r.app) == *final(options.app),
{
}

/// The title of the document can be set, and nothing else changes.
pub proof fn law_title_of_documents_is_set<S, H>(
    options: OpenApiOptions<'_, S, H>,
    title: &str,
    r: OpenApiOptions<'_, S, H>,
    before: openapi::OpenApiConfig,
)
    requires
        old(options.app).openapi_config == Some(before),
        call_ensures(OpenApiOptions::<'_, S, H>::title, (options, title), r),
    ensures
        keeps_routes(*old(options.app), *old(r.app)),
        old(r.app).swagger_config == old(options.app).swagger_config,
        old(r.app).openapi_bytes is None,
        old(r.app).swagger_bytes is None,
        old(r.app).openapi_config matches Some(config) && config.title@ == title@
            && config.path@ == before.path@
            && config.version@ == before.version@
            && plan::optional_text(config.description) == plan::optional_text(before.description),
        *final(r.app) == *final(options.app),
{
}

/// The version of the document can be set, and nothing else changes.
pub proof fn law_version_of_documents_is_set<S, H>(
    options: OpenApiOptions<'_, S, H>,
    version: &str,
    r: OpenApiOptions<'_, S, H>,
    before: openapi::OpenApiConfig,
)
    requires
        old(options.app).openapi_config == Some(before),
        call_ensures(OpenApiOptions::<'_, S, H>::version, (options, version), r),
    ensures
        keeps_routes(*old(options.app), *old(r.app)),
        old(r.app).swagger_config == old(options.app).swagger_config,
        old(r.app).openapi_bytes is None,
        old(r.app).swagger_bytes is None,
        old(r.app).openapi_config matches Some(config) && config.version@ == version@
            && config.path@ == before.path@
            && config.title@ == before.title@
            && plan::optional_text(config.description) == plan::optional_text(before.description),
        *final(r.app) == *final(options.app),
{
}

/// The description of the document can be set, and nothing else changes.
pub proof fn law_description_of_documents_is_set<S, H>(
    options: OpenApiOptions<'_, S, H>,
    description: &str,
    r: OpenApiOptions<'_, S, H>,
    before: openapi::OpenApiConfig,
)
    requires
        old(options.app).openapi_config == Some(before),
        call_ensures(OpenApiOptions::<'_, S, H>::description, (options, description), r),
    ensures
        keeps_routes(*old(options.app), *old(r.app)),
        old(r.app).swagger_config == old(options.app).swagger_config,
        old(r.app).openapi_bytes is None,
        old(r.app).swagger_bytes is None,
        old(r.app).openapi_config matches Some(config) && (config.description matches Some(text) && text@ == description@)
            && config.path@ == before.path@
            && config.title@ == before.title@
            && config.version@ == before.version@,
        *final(r.app) == *final(options.app),
{
}

/// The path of the page can be set, and nothing else changes.
pub proof fn law_path_of_pages_is_set<S, H>(
    options: SwaggerOptions<'_, S, H>,
    path: &str,
    r: SwaggerOptions<'_, S, H>,
)
    requires
        call_ensures(SwaggerOptions::<'_, S, H>::path, (options, path), r),
    ensures
        keeps_routes(*old(options.app), *old(r.app)),
        old(r.app).openapi_config == old(options.app).openapi_config,
        old(r.app).openapi_bytes == old(options.app).openapi_bytes,
        old(r.app).swagger_bytes is None,
        old(r.app).swagger_config matches Some(config) && config.path@ == path::normal_path(path@),
        *final(r.app) == *final(options.app),
{
}

/// The limit holds for the routes that collect their bodies, and no other plan changes.
pub proof fn law_limits_are_set<S, H>(
    app: &mut App<S, H>,
    limit: usize,
    r: &mut App<S, H>,
    index: int,
)
    requires
        0 < limit <= u32::MAX,
        0 <= index < old(app).plans@.len(),
        call_ensures(App::<S, H>::max_body_size, (app, limit), r),
    ensures
        old(r).max_body_size == limit,
        old(r).metadata == old(app).metadata,
        old(r).plans@.len() == old(app).plans@.len(),
        old(r).plans@[index].body_limit == if old(app).plans@[index].body_mode
            == BodyMode::Buffered {
            limit as u32
        } else {
            old(app).plans@[index].body_limit
        },
        old(r).plans@[index].handler == old(app).plans@[index].handler,
        old(r).plans@[index].body_mode == old(app).plans@[index].body_mode,
        old(r).plans@[index].capture_mode == old(app).plans@[index].capture_mode,
        old(r).openapi_config == old(app).openapi_config,
        old(r).swagger_config == old(app).swagger_config,
        *final(app) == *final(r),
{
}

/// The tag of the last route can be set. No other route changes, and the last one keeps its
/// place and the rest of its documentation.
pub proof fn law_tag_of_the_last_route_is_set<S, H>(
    app: &mut App<S, H>,
    tag: &str,
    r: &mut App<S, H>,
    other: int,
)
    requires
        old(app).wf(),
        0 <= other < old(app).metadata@.len(),
        call_ensures(App::<S, H>::tag, (app, tag), r),
    ensures
        old(app).last_route is None ==> *old(r) == *old(app),
        old(app).last_route matches Some(last) ==> {
            let before = old(app).metadata@[last as int];
            let after = old(r).metadata@[last as int];
            &&& after.operation.tag matches Some(text) && text@ == tag@
            &&& after.method@ == before.method@
            &&& after.template@ == before.template@
            &&& after.builtin == before.builtin
            &&& after.operation.response_status@ == before.operation.response_status@
            &&& plan::optional_text(after.operation.summary) == plan::optional_text(
                before.operation.summary,
            )
            &&& plan::optional_text(after.operation.operation_id) == plan::optional_text(
                before.operation.operation_id,
            )
            &&& other != last ==> old(r).metadata@[other]@ == old(app).metadata@[other]@
            &&& old(r).openapi_bytes is None
        },
        old(r).metadata@.len() == old(app).metadata@.len(),
        old(r).plans == old(app).plans,
        old(r).last_route == old(app).last_route,
        *final(app) == *final(r),
{
    if let Some(last) = app.last_route {
        assert(r.routes()[last as int] == r.metadata@[last as int]@);
        assert(r.routes()[other] == r.metadata@[other]@);
        assert(app.routes()[last as int] == app.metadata@[last as int]@);
        assert(app.routes()[other] == app.metadata@[other]@);
        assert(r.routes().len() == app.routes().len());
    }
}

/// The summary of the last route can be set. No other route changes, and the last one keeps its
/// place and the rest of its documentation.
pub proof fn law_summary_of_the_last_route_is_set<S, H>(
    app: &mut App<S, H>,
    summary: &str,
    r: &mut App<S, H>,
    other: int,
)
    requires
        old(app).wf(),
        0 <= other < old(app).metadata@.len(),
        call_ensures(App::<S, H>::summary, (app, summary), r),
    ensures
        old(app).last_route is None ==> *old(r) == *old(app),
        old(app).last_route matches Some(last) ==> {
            let before = old(app).metadata@[last as int];
            let after = old(r).metadata@[last as int];
            &&& after.operation.summary matches Some(text) && text@ == summary@
            &&& after.method@ == before.method@
            &&& after.template@ == before.template@
            &&& after.builtin == before.builtin
            &&& after.operation.response_status@ == before.operation.response_status@
            &&& plan::optional_text(after.operation.tag) == plan::optional_text(
                before.operation.tag,
            )
            &&& plan::optional_text(after.operation.operation_id) == plan::optional_text(
                before.operation.operation_id,
            )
            &&& other != last ==> old(r).metadata@[other]@ == old(app).metadata@[other]@
            &&& old(r).openapi_bytes is None
        },
        old(r).metadata@.len() == old(app).metadata@.len(),
        old(r).plans == old(app).plans,
        old(r).last_route == old(app).last_route,
        *final(app) == *final(r),
{
    if let Some(last) = app.last_route {
        assert(r.routes()[last as int] == r.metadata@[last as int]@);
        assert(r.routes()[other] == r.metadata@[other]@);
        assert(app.routes()[last as int] == app.metadata@[last as int]@);
        assert(app.routes()[other] == app.metadata@[other]@);
        assert(r.routes().len() == app.routes().len());
    }
}

/// The operation id of the last route can be set. No other route changes, and the last one keeps its
/// place and the rest of its documentation.
pub proof fn law_operation_id_of_the_last_route_is_set<S, H>(
    app: &mut App<S, H>,
    operation_id: &str,
    r: &mut App<S, H>,
    other: int,
)
    requires
        old(app).wf(),
        0 <= other < old(app).metadata@.len(),
        call_ensures(App::<S, H>::operation_id, (app, operation_id), r),
    ensures
        old(app).last_route is None ==> *old(r) == *old(app),
        old(app).last_route matches Some(last) ==> {
            let before = old(app).metadata@[last as int];
            let after = old(r).metadata@[last as int];
            &&& after.operation.operation_id matches Some(text) && text@ == operation_id@
            &&& after.method@ == before.method@
            &&& after.template@ == before.template@
            &&& after.builtin == before.builtin
            &&& after.operation.response_status@ == before.operation.response_status@
            &&& plan::optional_text(after.operation.tag) == plan::optional_text(
                before.operation.tag,
            )
            &&& plan::optional_text(after.operation.summary) == plan::optional_text(
                before.operation.summary,
            )
            &&& other != last ==> old(r).metadata@[other]@ == old(app).metadata@[other]@
            &&& old(r).openapi_bytes is None
        },
        old(r).metadata@.len() == old(app).metadata@.len(),
        old(r).plans == old(app).plans,
        old(r).last_route == old(app).last_route,
        *final(app) == *final(r),
{
    if let Some(last) = app.last_route {
        assert(r.routes()[last as int] == r.metadata@[last as int]@);
        assert(r.routes()[other] == r.metadata@[other]@);
        assert(app.routes()[last as int] == app.metadata@[last as int]@);
        assert(app.routes()[other] == app.metadata@[other]@);
        assert(r.routes().len() == app.routes().len());
    }
}

/// An operation id is free where no route has it.
pub proof fn law_operation_ids_are_looked_up<S, H>(app: &App<S, H>, id: &str, r: bool)
    requires
        call_ensures(App::<S, H>::check_operation_id, (app, id), r),
    ensures
        !r <==> exists|i: int|
            0 <= i < app.metadata@.len() && ((
            #[trigger] app.metadata@[i]).operation.operation_id matches Some(text) && text@ == id@),
{
    if !r {
        let i = choose|i: int|
            0 <= i < app.routes().len() && (#[trigger] app.routes()[i]).operation.operation_id
                == Some(id@);
        assert(app.routes()[i] == app.metadata@[i]@);
        assert(app.metadata@[i].operation.operation_id matches Some(text) && text@ == id@);
    }
    if exists|i: int|
        0 <= i < app.metadata@.len() && ((
        #[trigger] app.metadata@[i]).operation.operation_id matches Some(text) && text@ == id@) {
        let i = choose|i: int|
            0 <= i < app.metadata@.len() && ((
            #[trigger] app.metadata@[i]).operation.operation_id matches Some(text) && text@
                == id@);
        assert(app.routes()[i] == app.metadata@[i]@);
    }
}

/// The documents are written where they are enabled, and nothing else changes.
pub proof fn law_documents_are_written<S, H>(app: &mut App<S, H>)
    requires
        call_ensures(App::<S, H>::prepare_openapi, (app,), ()),
    ensures
        keeps_routes(*old(app), *final(app)),
        final(app).openapi_bytes is Some <==> old(app).openapi_config is Some,
        final(app).openapi_bytes matches Some(bytes) ==> payload::bytes_contents(bytes)
            == encode_utf8(
            crate::json::json_text(
                openapi::document_tree(
                    old(app).routes(),
                    openapi::config_of(old(app).openapi_config),
                ),
            ),
        ),
        final(app).openapi_config == old(app).openapi_config,
        final(app).swagger_config == old(app).swagger_config,
{
    assert(final(app).wf());
}

/// A state takes the place of none, and what was configured stays.
pub proof fn law_states_are_installed<T, G, H>(app: App<(), H>, state: T, r: App<T, G>)
    requires
        call_ensures(App::<(), H>::with_state::<T, G>, (app, state), r),
    ensures
        *r.state == state,
        r.metadata@.len() == 0,
        r.plans@.len() == 0,
        r.max_body_size == app.max_body_size,
        r.openapi_config == app.openapi_config,
        r.swagger_config == app.swagger_config,
        r.route_error == app.route_error,
{
}

/// A route that is given to a method is the route of that method, and those of other methods
/// stay.
pub proof fn law_routes_are_given_to_methods(
    set: &mut RouteSet,
    method: Method,
    route: usize,
    other: Seq<char>,
)
    requires
        crate::laws::routing::routable().contains(method@),
        other != method@,
        call_ensures(RouteSet::insert, (set, method, route), ()),
    ensures
        router::route_of(final(set)@, method@) == Some(route as int),
        router::route_of(final(set)@, other) == router::route_of(old(set)@, other),
{
    crate::laws::routing::law_seven_methods_are_routable(method@, other);
}

/// A route that is taken away is gone, and those of other methods stay.
pub proof fn law_routes_are_taken_away(set: &mut RouteSet, method: &Method, other: Seq<char>)
    requires
        other != method@,
        call_ensures(RouteSet::remove, (set, method), ()),
    ensures
        router::route_of(final(set)@, method@) is None,
        router::route_of(final(set)@, other) == router::route_of(old(set)@, other),
{
    crate::laws::routing::law_seven_methods_are_routable(method@, other);
}

/// The route of a method is the one that was given to it.
pub proof fn law_routes_are_looked_up(
    set: &RouteSet,
    method: &Method,
    own: Option<RouteId>,
    serving: Option<RouteId>,
    number: usize,
    id: RouteId,
    index: usize,
)
    requires
        call_ensures(RouteSet::route, (set, method), own),
        call_ensures(router::route_index, (set, method), serving),
        call_ensures(RouteId::new, (number,), id),
        call_ensures(RouteId::index, (id,), index),
    ensures
        own matches Some(route) ==> router::route_of(set@, method@) == Some(route.0 as int),
        own is None ==> router::route_of(set@, method@) is None,
        own is Some ==> serving == own,
        own is None && method@ != "HEAD"@ ==> serving is None,
        own is None && method@ == "HEAD"@ ==> match serving {
            Some(route) => router::route_of(set@, "GET"@) == Some(route.0 as int),
            None => router::route_of(set@, "GET"@) is None,
        },
        index == number,
{
}

/// What two extractors say is joined, and a body that is there stays.
pub proof fn law_merged_requests_are_joined(
    request: &mut schema::OpenApiRequest,
    other: schema::OpenApiRequest,
)
    requires
        call_ensures(schema::OpenApiRequest::merge, (request, other), ()),
    ensures
        final(request)@.path_schemas == old(request)@.path_schemas + other@.path_schemas,
        final(request)@.parameters == old(request)@.parameters + other@.parameters,
        final(request)@.request_body == if old(request)@.request_body is Some {
            old(request)@.request_body
        } else {
            other@.request_body
        },
{
}

/// The parts of a path come one after the other, and none is left out.
pub proof fn law_parts_come_in_order(
    parts: &mut path::PathParts<'_>,
    r: Option<path::PathPart<'_>>,
)
    requires
        old(parts).wf(),
        call_ensures(path::PathParts::<'_>::next, (parts,), r),
    ensures
        final(parts).path == old(parts).path,
        r is None ==> old(parts).remaining().len() == 0,
        r matches Some(part) ==> {
            &&& old(parts).remaining().len() == final(parts).remaining().len() + 1
            &&& old(parts).remaining()[0] == (part.start as int, part.end as int)
            &&& old(parts).remaining().drop_first() == final(parts).remaining()
            &&& encode_utf8(part.value@) == encode_utf8(old(parts).path@).subrange(
                part.start as int,
                part.end as int,
            )
        },
{
}

} // verus!
