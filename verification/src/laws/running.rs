//! What holds of calls of the runtime, of bodies, of statuses and of messages.

use crate::app::{App, RegistrationError};
use crate::dispatch::{BodyOutcome, Captures, PreparedDispatch, Routing, RoutingView};
use crate::laws::answering::has_field;
use crate::method::Method;
use crate::openapi::BuildError;
use crate::payload;
use crate::response::{BodyView, ResponseBody};
use crate::router::RouteId;
use crate::runtime::AppRuntime;
use crate::status::StatusCode;
use crate::uri;
use crate::uri::OneshotError;
use bytes::Bytes;
use vstd::prelude::*;
use vstd::string::*;
use vstd::utf8::*;

verus! {

/// A status has the code that it is named for.
pub proof fn law_statuses_are_named_for_their_codes(r: StatusCode)
    ensures
        call_ensures(StatusCode::created, (), r) ==> r@ == 201,
        call_ensures(StatusCode::no_content, (), r) ==> r@ == 204,
        call_ensures(StatusCode::not_modified, (), r) ==> r@ == 304,
        call_ensures(StatusCode::bad_request, (), r) ==> r@ == 400,
        call_ensures(StatusCode::unauthorized, (), r) ==> r@ == 401,
        call_ensures(StatusCode::not_found, (), r) ==> r@ == 404,
        call_ensures(StatusCode::method_not_allowed, (), r) ==> r@ == 405,
        call_ensures(StatusCode::payload_too_large, (), r) ==> r@ == 413,
        call_ensures(StatusCode::unsupported_media_type, (), r) ==> r@ == 415,
        call_ensures(StatusCode::internal_server_error, (), r) ==> r@ == 500,
        call_ensures(StatusCode::bad_gateway, (), r) ==> r@ == 502,
        call_ensures(StatusCode::service_unavailable, (), r) ==> r@ == 503,
{
}

/// A fixed body gives its bytes once, and has ended when they are taken. A stream keeps what it
/// has, and its length is not known.
pub proof fn law_bodies_are_taken_once<B>(body: &mut ResponseBody<B>, r: Option<Bytes>)
    requires
        call_ensures(ResponseBody::<B>::take_full, (body,), r),
    ensures
        old(body)@ matches BodyView::Full(Some(bytes)) ==> (r matches Some(taken)
            && payload::bytes_contents(taken) == bytes),
        !(old(body)@ matches BodyView::Full(Some(_))) ==> r is None,
        old(body)@ is Full ==> final(body)@ == BodyView::<B>::Full(None),
        old(body)@ is Stream ==> final(body)@ == old(body)@,
{
}

/// What is made of bytes is those bytes, with their length, and what is made of a stream is the
/// stream.
pub proof fn law_bodies_know_their_length<B>(
    bytes: Bytes,
    stream: B,
    full: ResponseBody<B>,
    streamed: ResponseBody<B>,
    length: Option<u64>,
    unknown: Option<u64>,
    ended: bool,
    streaming: bool,
)
    requires
        call_ensures(ResponseBody::<B>::full, (bytes,), full),
        call_ensures(ResponseBody::<B>::stream, (stream,), streamed),
        call_ensures(ResponseBody::<B>::exact_size, (&full,), length),
        call_ensures(ResponseBody::<B>::exact_size, (&streamed,), unknown),
        call_ensures(ResponseBody::<B>::is_end_stream, (&full,), ended),
        call_ensures(ResponseBody::<B>::is_end_stream, (&streamed,), streaming),
    ensures
        full@ == BodyView::<B>::Full(Some(payload::bytes_contents(bytes))),
        streamed@ == BodyView::Stream(stream),
        length matches Some(n) && n == payload::bytes_contents(bytes).len(),
        unknown is None,
        !ended,
        !streaming,
{
}

/// The routes of an application are refused with a message that says why.
pub proof fn law_refused_routes_have_a_message(error: &RegistrationError, r: &'static str)
    requires
        call_ensures(RegistrationError::message, (error,), r),
    ensures
        *error is DuplicateRoute ==> r@ == "duplicate route"@,
        *error is InvalidTemplate ==> r@ == "invalid route template"@,
        *error is StaticCaptures ==> r@ == "static response routes cannot contain captures"@,
        *error is UnsupportedMethod ==> r@ == "unsupported route method"@,
        *error is DuplicatePattern ==> r@ == "duplicate route pattern and method"@,
        *error is TooManyNodes ==> r@ == "dynamic trie exceeds u32::MAX nodes"@,
        *error is TooManyRoutes ==> r@ == "route count exceeds u32::MAX"@,
{
}

/// A schema is not derived with a message that says why.
pub proof fn law_refused_derives_have_a_message(
    error: &crate::derive::DeriveError,
    r: &'static str,
)
    requires
        call_ensures(crate::derive::DeriveError::message, (error,), r),
    ensures
        *error is UnnamedFields ==> r@ == "ApiSchema requires named struct fields"@,
        *error is NotStruct ==> r@ == "ApiSchema can only derive for structs"@,
{
}

/// What the runtime answers without a handler: an unknown path is not found, and a path without
/// a route for the method says which methods it has.
pub open spec fn refused<H, B>(routing: RoutingView, r: PreparedDispatch<'_, H, B>) -> bool {
    match routing {
        RoutingView::NotFound => r matches PreparedDispatch::Ready(response) && response@.status
            == 404 && response@.body == BodyView::<B>::Full(Some(encode_utf8("Not Found"@))),
        RoutingView::Options(allow) => r matches PreparedDispatch::Ready(response)
            && response@.status == 204 && has_field(response@, "allow"@, allow),
        RoutingView::MethodNotAllowed(allow) => r matches PreparedDispatch::Ready(response)
            && response@.status == 405 && has_field(response@, "allow"@, allow) && response@.body
            == BodyView::<B>::Full(Some(Seq::empty())),
        RoutingView::Matched(_, _) => true,
    }
}

/// A request that no route serves is refused before its body is read, and when it was read
/// already.
pub proof fn law_runtime_refuses_what_it_does_not_serve<S, H, B>(
    runtime: &AppRuntime<S, H>,
    method: &Method,
    path: &str,
    length: usize,
    fields: &http::HeaderMap<http::HeaderValue>,
    routing: Routing,
    prepared: PreparedDispatch<'_, H, B>,
    handled: PreparedDispatch<'_, H, B>,
)
    requires
        call_ensures(AppRuntime::<S, H>::route, (runtime, method, path), routing),
        call_ensures(AppRuntime::<S, H>::prepare::<B>, (runtime, method, path, fields), prepared),
        call_ensures(AppRuntime::<S, H>::handle::<B>, (runtime, method, path, length), handled),
    ensures
        refused(routing@, prepared),
        refused(routing@, handled),
        routing@ is Matched || prepared is Ready,
        routing@ is Matched || handled is Ready,
{
    reveal_strlit("allow");
    reveal_strlit("content-length");
    assert("allow"@.len() == 5 && "content-length"@.len() == 14);
}

/// A raw handler is known beforehand, and is handed the request as it comes in.
pub proof fn law_raw_handlers_are_known<S, H, B>(
    runtime: &AppRuntime<S, H>,
    method: &Method,
    path: &str,
    fields: &http::HeaderMap<http::HeaderValue>,
    index: RouteId,
    captures: Captures,
    incoming: bool,
    prepared: PreparedDispatch<'_, H, B>,
)
    requires
        runtime.wf(),
        call_ensures(
            AppRuntime::<S, H>::route,
            (runtime, method, path),
            Routing::Matched(index, captures),
        ),
        call_ensures(AppRuntime::<S, H>::check_incoming, (runtime, method, path), incoming),
        call_ensures(AppRuntime::<S, H>::prepare::<B>, (runtime, method, path, fields), prepared),
    ensures
        incoming <==> runtime.plans@[index.0 as int].handler is Raw,
        incoming <==> prepared is Raw,
{
    assert(crate::plan::plan_serves(
        runtime.plans@[index.0 as int],
        runtime.routes@[index.0 as int],
    ));
}

/// A body that is too large or ends early is refused, whatever route it was for.
pub proof fn law_broken_bodies_are_refused<S, H, B>(
    runtime: &AppRuntime<S, H>,
    index: RouteId,
    captures: Captures,
    path: &str,
    is_head: bool,
    large: PreparedDispatch<'_, H, B>,
    broken: PreparedDispatch<'_, H, B>,
)
    requires
        call_ensures(
            AppRuntime::<S, H>::resume::<B>,
            (runtime, index, captures, path, BodyOutcome::TooLarge, is_head),
            large,
        ),
        call_ensures(
            AppRuntime::<S, H>::resume::<B>,
            (runtime, index, captures, path, BodyOutcome::Interrupted, is_head),
            broken,
        ),
    ensures
        large matches PreparedDispatch::Ready(response) && response@.status == 413,
        broken matches PreparedDispatch::Ready(response) && response@.status == 400,
{
}

/// A URI that cannot be parsed is refused, and so is a request that a raw handler serves. Any
/// other request is handled as one for the path of its URI.
pub proof fn law_requests_are_handled_by_their_uri<S, H, B>(
    runtime: &AppRuntime<S, H>,
    method: &Method,
    uri: &str,
    length: usize,
    path: &str,
    r: Result<PreparedDispatch<'_, H, B>, OneshotError>,
    handled: PreparedDispatch<'_, H, B>,
    incoming: bool,
)
    requires
        call_ensures(AppRuntime::<S, H>::oneshot::<B>, (runtime, method, uri, length), r),
        call_ensures(AppRuntime::<S, H>::handle::<B>, (runtime, method, path, length), handled),
        call_ensures(AppRuntime::<S, H>::check_incoming, (runtime, method, path), incoming),
    ensures
        uri::uri_path(uri@) is None <==> r matches Err(OneshotError::InvalidUri),
        uri::uri_path(uri@) == Some(path@) && incoming ==> r matches Err(
            OneshotError::NeedsIncoming,
        ),
        uri::uri_path(uri@) == Some(path@) && !incoming ==> (r matches Ok(answer) && answer@
            == handled@),
{
}

/// A runtime serves the routes of its application with their plans, and generated documents
/// behind them.
pub proof fn law_runtimes_serve_their_applications<S, H>(
    app: App<S, H>,
    r: Result<AppRuntime<S, H>, BuildError>,
    index: int,
)
    requires
        app.wf(),
        0 <= index < app.metadata@.len(),
        call_ensures(App::<S, H>::build, (app,), r),
    ensures
        app.route_error is Some ==> r is Err,
        app.route_error is None && app.openapi_config is None && app.swagger_config is None
            ==> r is Ok,
        r matches Ok(runtime) ==> {
            &&& runtime.wf()
            &&& runtime.state == app.state
            &&& runtime.routes@[index] == app.metadata@[index]@
            &&& runtime.plans@[index] == app.plans@[index]
            &&& runtime.routes@.len() == app.metadata@.len() + if app.openapi_config is Some {
                1int
            } else {
                0
            } + if app.swagger_config is Some {
                1int
            } else {
                0
            }
        },
{
    if let Ok(runtime) = r {
        let count = app.plans@.len() as int;
        assert(runtime.plans@.take(count)[index] == app.plans@[index]);
        assert(app.routes()[index] == app.metadata@[index]@);
    }
}

} // verus!
