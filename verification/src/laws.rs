//! What holds of the library as a whole.

pub mod answering;
pub mod building;
pub mod calling;
pub mod changing;
pub mod describing;
pub mod filling;
pub mod reading;
pub mod routing;
pub mod running;
pub mod seeing;
pub mod serving;
pub mod writing;

use crate::app;
use crate::app::App;
use crate::compile;
use crate::dispatch;
use crate::error;
use crate::json;
use crate::method;
use crate::number;
use crate::openapi;
use crate::params;
use crate::params::MAX_CAPTURE_PARAMS;
use crate::path;
use crate::percent;
use crate::plan;
use crate::plan::{BodyMode, Endpoint, HandlerKind, RoutePlan};
use crate::query;
use crate::registry;
use crate::response;
use crate::router;
use crate::runtime::AppRuntime;
use crate::schema;
use crate::text;
use crate::trie;
use vstd::prelude::*;
use vstd::string::*;
use vstd::utf8::*;

verus! {

/// A trailing slash does not matter to a request: the path with one more is routed as the path
/// itself. The empty path and the root are what they are.
pub proof fn law_trailing_slash_is_normalized(
    statics: registry::StaticTable,
    dynamics: trie::Table,
    method: Seq<char>,
    path: Seq<char>,
)
    requires
        path.len() > 0,
        path != seq!['/'],
    ensures
        path::normal_request_path(path.push('/')) == path::normal_request_path(path),
        dispatch::routing_of(statics, dynamics, method, path.push('/')) == dispatch::routing_of(
            statics,
            dynamics,
            method,
            path,
        ),
{
    assert(path.push('/').drop_last() =~= path);
    assert(path::trim_slashes(path.push('/')) == path::trim_slashes(path));
    if path.len() == 1 {
        if path[0] == '/' {
            assert(path =~= seq!['/']);
        }
        assert(path::trim_slashes(path) == path);
    }
}

/// A trailing slash does not matter to a registration either.
pub proof fn law_template_slash_is_normalized(path: Seq<char>)
    requires
        path.len() > 0,
        path != seq!['/'],
    ensures
        path::normal_path(path.push('/')) == path::normal_path(path),
{
    law_trailing_slash_is_normalized(Map::empty(), Map::empty(), Seq::empty(), path);
}

/// A template in its normal form is the normal form of a request for it.
pub proof fn law_normal_form_is_stable(path: Seq<char>)
    ensures
        path::normal_request_path(path::normal_path(path)) == path::normal_path(path),
{
    path::lemma_trimmed_prefix(path);
    let normal = path::normal_path(path);
    if normal.len() > 1 {
        path::lemma_trimmed_prefix(normal);
    }
}

/// A template without captures that is the path of a request decides alone: the patterns with
/// captures are not looked at.
pub proof fn law_static_routes_take_precedence(
    statics: registry::StaticTable,
    dynamics: trie::Table,
    others: trie::Table,
    method: Seq<char>,
    path: Seq<char>,
)
    requires
        statics.contains_key(path::normal_request_path(path)),
    ensures
        dispatch::routing_of(statics, dynamics, method, path) == dispatch::routing_of(
            statics,
            others,
            method,
            path,
        ),
{
}

/// The routes of the path of a request, if the path is known.
pub open spec fn routes_for(
    statics: registry::StaticTable,
    dynamics: trie::Table,
    path: Seq<char>,
) -> Option<Map<int, int>> {
    let path = path::normal_request_path(path);
    if statics.contains_key(path) {
        Some(statics[path])
    } else {
        match trie::lookup(dynamics, Seq::empty(), path::path_texts(path), 0) {
            Some(pattern) => Some(dynamics[pattern]),
            None => None,
        }
    }
}

/// `HEAD` is served by its own route, and by that of `GET` where it has none.
pub proof fn law_head_falls_back_to_get(
    statics: registry::StaticTable,
    dynamics: trie::Table,
    path: Seq<char>,
)
    ensures
        routes_for(statics, dynamics, path) matches Some(routes) ==> {
            let head = dispatch::routing_of(statics, dynamics, "HEAD"@, path);
            let get = dispatch::routing_of(statics, dynamics, "GET"@, path);
            match (router::route_of(routes, "HEAD"@), router::route_of(routes, "GET"@)) {
                (Some(route), _) => head matches dispatch::RoutingView::Matched(index, _) && index
                    == route,
                (None, Some(route)) => head == get && (
                get matches dispatch::RoutingView::Matched(index, _) && index == route),
                (None, None) => head is MethodNotAllowed,
            }
        },
{
    method::lemma_slots();
    reveal_strlit("HEAD");
    reveal_strlit("OPTIONS");
    reveal_strlit("GET");
    assert("HEAD"@.len() != "OPTIONS"@.len());
    assert("HEAD"@.len() != "GET"@.len());
    assert("GET"@.len() != "OPTIONS"@.len());
}

/// `OPTIONS` on a known path is served by its own route. Without one it is answered with
/// `204 No Content` and the allowed methods.
pub proof fn law_options_are_answered(
    statics: registry::StaticTable,
    dynamics: trie::Table,
    path: Seq<char>,
)
    ensures
        routes_for(statics, dynamics, path) matches Some(routes) ==> {
            let routing = dispatch::routing_of(statics, dynamics, "OPTIONS"@, path);
            match router::route_of(routes, "OPTIONS"@) {
                Some(route) => routing matches dispatch::RoutingView::Matched(index, _) && index
                    == route,
                None => dispatch::refusal::<()>(routing) == response::empty_response::<()>(
                    204,
                    response::allow_fields(router::allow_header(routes)),
                ),
            }
        },
{
    reveal_strlit("HEAD");
    reveal_strlit("OPTIONS");
    assert("HEAD"@.len() != "OPTIONS"@.len());
}

/// A request for an unknown path is answered with `404`, and one for a known path that does
/// not serve its method with `405` and the allowed methods.
pub proof fn law_unserved_requests_are_refused(
    statics: registry::StaticTable,
    dynamics: trie::Table,
    method: Seq<char>,
    path: Seq<char>,
)
    ensures
        ({
            let routing = dispatch::routing_of(statics, dynamics, method, path);
            match routes_for(statics, dynamics, path) {
                None => routing is NotFound && dispatch::refusal::<()>(routing)
                    == response::text_response::<()>(404, encode_utf8("Not Found"@)),
                Some(routes) => router::serving_route(routes, method) is None && method
                    != "OPTIONS"@ ==> dispatch::refusal::<()>(routing) == response::empty_response::<
                    (),
                >(405, response::allow_fields(router::allow_header(routes))),
            }
        }),
{
}

/// A path that is no template without captures and that no pattern matches is unknown.
pub proof fn law_unmatched_paths_are_unknown(
    statics: registry::StaticTable,
    dynamics: trie::Table,
    method: Seq<char>,
    path: Seq<char>,
)
    requires
        !statics.contains_key(path::normal_request_path(path)),
        forall|pattern: Seq<trie::PatternPart>| #[trigger]
            dynamics.contains_key(pattern) ==> !trie::pattern_matches(
                pattern,
                path::path_texts(path::normal_request_path(path)),
            ),
    ensures
        dispatch::routing_of(statics, dynamics, method, path) is NotFound,
{
    trie::law_found_pattern_matches(
        dynamics,
        path::path_texts(path::normal_request_path(path)),
    );
}

/// The routes by their numbers: two with the same method and template are one.
pub proof fn law_routes_are_unique(
    statics: registry::StaticTable,
    dynamics: trie::Table,
    routes: Seq<plan::RouteView>,
    i: int,
    j: int,
)
    requires
        registry::registry_ok(statics, dynamics, routes),
        0 <= i < routes.len(),
        0 <= j < routes.len(),
        routes[i].method == routes[j].method,
        routes[i].template == routes[j].template,
    ensures
        i == j,
{
    assert(registry::route_ok(routes[i]) && registry::route_ok(routes[j]));
    assert(registry::entry_of(statics, dynamics, routes[i]) == Some(i));
    assert(registry::entry_of(statics, dynamics, routes[j]) == Some(j));
}

/// A route without captures serves the requests for its template.
pub proof fn law_static_routes_are_served<S, H>(app: App<S, H>, index: int, path: Seq<char>)
    requires
        app.wf(),
        0 <= index < app.routes().len(),
        plan::is_static(app.routes()[index].segments),
        path::normal_request_path(path) == app.routes()[index].template,
    ensures
        app.routing(app.routes()[index].method, path) == dispatch::RoutingView::Matched(
            index,
            None,
        ),
{
    let route = app.routes()[index];
    assert(registry::entry_of(app.static_table(), app.dynamic_routes@, route) == Some(index));
}

/// A route with captures serves the requests whose path its pattern matches, unless a template
/// without captures is that path, or a pattern that comes before it matches as well.
pub proof fn law_dynamic_routes_are_served<S, H>(app: App<S, H>, index: int, path: Seq<char>)
    requires
        app.wf(),
        0 <= index < app.routes().len(),
        !plan::is_static(app.routes()[index].segments),
        trie::pattern_matches(
            trie::pattern_of(app.routes()[index].segments),
            path::path_texts(path::normal_request_path(path)),
        ),
        !app.static_table().contains_key(path::normal_request_path(path)),
        forall|other: Seq<trie::PatternPart>| #[trigger]
            app.dynamic_routes@.contains_key(other) && trie::pattern_matches(
                other,
                path::path_texts(path::normal_request_path(path)),
            ) ==> !trie::comes_before(other, trie::pattern_of(app.routes()[index].segments)),
    ensures
        app.routing(app.routes()[index].method, path) == dispatch::RoutingView::Matched(
            index,
            Some(
                trie::captured(
                    trie::pattern_of(app.routes()[index].segments),
                    path::parts_from(encode_utf8(path::normal_request_path(path)), 0),
                ),
            ),
        ),
{
    let route = app.routes()[index];
    let pattern = trie::pattern_of(route.segments);
    let parts = path::path_texts(path::normal_request_path(path));
    assert(registry::route_ok(route));
    assert(registry::entry_of(app.static_table(), app.dynamic_routes@, route) == Some(index));
    trie::law_fixed_segments_take_precedence(app.dynamic_routes@, parts, pattern);
    trie::law_found_pattern_matches(app.dynamic_routes@, parts);
}

/// A route that is served is one of the application's, has the method of the request or `GET`
/// for `HEAD`, and is the path of the request or matches it.
pub proof fn law_served_routes_match<S, H>(app: App<S, H>, method: Seq<char>, path: Seq<char>)
    requires
        app.wf(),
    ensures
        app.routing(method, path) matches dispatch::RoutingView::Matched(index, found) ==> {
            let normal = path::normal_request_path(path);
            let route = app.routes()[index];
            &&& 0 <= index < app.routes().len()
            &&& registry::serves_method(route, method)
            &&& match found {
                None => plan::is_static(route.segments) && route.template == normal,
                Some(ranges) => !plan::is_static(route.segments) && trie::pattern_matches(
                    trie::pattern_of(route.segments),
                    path::path_texts(normal),
                ) && ranges == trie::captured(
                    trie::pattern_of(route.segments),
                    path::parts_from(encode_utf8(normal), 0),
                ),
            }
        },
{
    registry::lemma_matched(app.static_table(), app.dynamic_routes@, app.routes(), method, path);
    trie::law_found_pattern_matches(
        app.dynamic_routes@,
        path::path_texts(path::normal_request_path(path)),
    );
}

/// What was registered is served: a request for the path of a new route without captures is
/// handed to its endpoint, and all other routes are what they were.
pub proof fn law_registered_routes_are_served<S, H>(
    before: App<S, H>,
    after: App<S, H>,
    method: Seq<char>,
    path: Seq<char>,
    endpoint: Endpoint<H>,
    request: Seq<char>,
)
    requires
        before.wf(),
        before.route_problem(method, path) is None,
        after.routes_endpoint(&before, method, path, endpoint),
        plan::is_static(path::template_segments(path::normal_path(path))),
        path::normal_request_path(request) == path::normal_path(path),
    ensures
        ({
            let index = before.plans@.len() as int;
            &&& after.routing(method, request) == dispatch::RoutingView::Matched(index, None)
            &&& after.plans@[index].handler == plan::kind_of(endpoint)
            &&& after.routes().take(index) == before.routes()
            &&& after.plans@.take(index) == before.plans@
        }),
{
    let index = before.plans@.len() as int;
    let segments = path::template_segments(path::normal_path(path));
    plan::lemma_capture_names(segments);
    assert(after.routes()[index] == after.metadata@[index]@);
    law_static_routes_are_served(after, index, request);
    assert(after.plans@.take(index) =~= before.plans@);
    assert forall|i: int| 0 <= i < index implies after.routes()[i] == before.routes()[i] by {
        assert(after.metadata@.take(index)[i] == after.metadata@[i]);
    }
    assert(after.routes().take(index) =~= before.routes());
}

/// A template has no more segments than its path has bytes.
proof fn lemma_segment_count(path: Seq<char>)
    requires
        path.len() > 0,
    ensures
        path::template_segments(path::normal_path(path)).len() <= encode_utf8(path).len(),
{
    path::lemma_normal_prefix(path);
    path::lemma_parts_count(encode_utf8(path::normal_path(path)), 0);
}

/// An application takes a route for a routable method and a well-formed template, unless the
/// method has one for that template or for the same pattern, or the routes or the nodes of the
/// trie cannot be numbered any more. The latter are one more for each segment at most.
pub proof fn law_free_routes_are_taken<S, H>(app: App<S, H>, method: Seq<char>, path: Seq<char>)
    requires
        app.wf(),
        app.plans@.len() < u32::MAX,
        app.dynamic_routes.nodes@.len() + encode_utf8(path).len() <= u32::MAX + 1,
        method::method_slot_of(method) is Some,
        path::valid_template(path::normal_path(path)),
        !app.has_route(method, path::normal_path(path)),
        router::route_of(
            trie::routes_at(
                app.dynamic_routes@,
                trie::pattern_of(path::template_segments(path::normal_path(path))),
            ),
            method,
        ) is None,
    ensures
        app.route_problem(method, path) is None,
{
    if path.len() > 0 {
        lemma_segment_count(path);
    } else {
        text::lemma_encode_ascii_char('/');
        let bytes = encode_utf8(seq!['/']);
        assert(path::slashes_end(bytes, 1) == 1);
        assert(path::slashes_end(bytes, 0) == 1);
        assert(path::parts_from(bytes, 0) =~= Seq::empty());
    }
}

/// An application without routes takes every route of a routable method and a well-formed
/// template.
pub proof fn law_first_routes_are_taken<S, H>(app: App<S, H>, method: Seq<char>, path: Seq<char>)
    requires
        app::no_routes(app),
        method::method_slot_of(method) is Some,
        path::valid_template(path::normal_path(path)),
        encode_utf8(path).len() <= u32::MAX,
    ensures
        app.route_problem(method, path) is None,
{
    law_free_routes_are_taken(app, method, path);
}

/// A route can be registered once: the same method and path, with or without a trailing slash,
/// are refused afterwards.
pub proof fn law_duplicate_routes_are_rejected<S, H>(
    before: App<S, H>,
    after: App<S, H>,
    method: Seq<char>,
    path: Seq<char>,
    endpoint: Endpoint<H>,
    again: Seq<char>,
)
    requires
        before.wf(),
        before.route_problem(method, path) is None,
        after.routes_endpoint(&before, method, path, endpoint),
        app::template_captures(path::normal_path(path)) <= MAX_CAPTURE_PARAMS,
        path::normal_path(again) == path::normal_path(path),
    ensures
        after.route_problem(method, again) == Some(app::RegistrationError::DuplicateRoute),
{
    let index = before.plans@.len() as int;
    assert(after.routes()[index] == after.metadata@[index]@);
    assert(after.has_route(method, path::normal_path(path)));
}

/// Two templates that differ in the names of their captures alone are the same to a method.
pub proof fn law_duplicate_patterns_are_rejected<S, H>(
    app: App<S, H>,
    index: int,
    path: Seq<char>,
)
    requires
        app.wf(),
        0 <= index < app.routes().len(),
        !plan::is_static(app.routes()[index].segments),
        path::valid_template(path::normal_path(path)),
        trie::pattern_of(path::template_segments(path::normal_path(path))) == trie::pattern_of(
            app.routes()[index].segments,
        ),
    ensures
        app.route_problem(app.routes()[index].method, path) is Some,
{
    let route = app.routes()[index];
    let template = path::normal_path(path);
    let segments = path::template_segments(template);
    assert(registry::route_ok(route));
    assert(registry::entry_of(app.static_table(), app.dynamic_routes@, route) == Some(index));
    plan::lemma_capture_names(segments);
    plan::lemma_capture_names(route.segments);
}

/// A template with more captures than a route may have is registered as no route, and makes
/// the build fail: with its own error, or with that of an earlier one.
pub proof fn law_capture_limit_fails_the_build<S, H>(
    before: App<S, H>,
    after: App<S, H>,
    method: Seq<char>,
    path: Seq<char>,
    endpoint: Endpoint<H>,
)
    requires
        before.wf(),
        after.routes_endpoint(&before, method, path, endpoint),
        app::template_captures(path::normal_path(path)) > MAX_CAPTURE_PARAMS,
    ensures
        after.routes() == before.routes(),
        match before.route_error {
            Some(error) => after.build_problem() == Some(error@),
            None => after.build_problem() == Some(
                openapi::BuildErrorView::TooManyCaptures(
                    path::normal_path(path),
                    app::template_captures(path::normal_path(path)) as int,
                    MAX_CAPTURE_PARAMS as int,
                ),
            ),
        },
{
}

/// An error that was recorded stays: no later registration makes the application build.
pub proof fn law_recorded_errors_stay<S, H>(
    before: App<S, H>,
    after: App<S, H>,
    method: Seq<char>,
    path: Seq<char>,
    endpoint: Endpoint<H>,
)
    requires
        before.route_error is Some,
        after.routes_endpoint(&before, method, path, endpoint),
    ensures
        after.route_error == before.route_error,
        after.build_problem() == before.build_problem(),
{
}

/// A build keeps the routes: away from the paths of the generated documents, a request is
/// routed as it was.
pub proof fn law_build_keeps_routes<S, H>(
    app: App<S, H>,
    runtime: AppRuntime<S, H>,
    method: Seq<char>,
    path: Seq<char>,
)
    requires
        app.wf(),
        app.build_problem() is None,
        app.compiles_to(runtime),
        !app.at_generated(path::normal_request_path(path)),
    ensures
        runtime.routing(method, path) == app.routing(method, path),
        app.routing(method, path) matches dispatch::RoutingView::Matched(index, _) ==> {
            &&& runtime.plans@[index] == app.plans@[index]
            &&& runtime.routes@[index] == app.routes()[index]
        },
{
    let normal = path::normal_request_path(path);
    assert(runtime.static_table().contains_key(normal) == app.static_table().contains_key(normal));
    assert(registry::routes_in(runtime.static_table(), normal) == registry::routes_in(
        app.static_table(),
        normal,
    ));
    registry::lemma_matched(app.static_table(), app.dynamic_routes@, app.routes(), method, path);
    if let dispatch::RoutingView::Matched(index, _) = app.routing(method, path) {
        assert(runtime.plans@.take(app.plans@.len() as int)[index] == runtime.plans@[index]);
    }
}

/// A build serves the routes without captures as they were registered.
pub proof fn law_built_routes_are_served<S, H>(
    app: App<S, H>,
    runtime: AppRuntime<S, H>,
    index: int,
    path: Seq<char>,
    fields: Map<Seq<char>, Seq<Seq<u8>>>,
)
    requires
        app.wf(),
        app.build_problem() is None,
        app.compiles_to(runtime),
        0 <= index < app.routes().len(),
        plan::is_static(app.routes()[index].segments),
        path::normal_request_path(path) == app.routes()[index].template,
        !app.at_generated(app.routes()[index].template),
    ensures
        runtime.prepared::<()>(app.routes()[index].method, path, fields) == dispatch::dispatch_of::<
            H,
            (),
        >(
            app.plans@[index],
            app.routes()[index].capture_names,
            index,
            None,
            encode_utf8(path::normal_request_path(path)),
            fields,
            app.routes()[index].method == "HEAD"@,
        ),
{
    law_static_routes_are_served(app, index, path);
    law_build_keeps_routes(app, runtime, app.routes()[index].method, path);
}

/// A build serves the document at its path, as it stands.
pub proof fn law_document_is_served<S, H>(
    app: App<S, H>,
    runtime: AppRuntime<S, H>,
    path: Seq<char>,
    fields: Map<Seq<char>, Seq<Seq<u8>>>,
)
    requires
        app.wf(),
        app.build_problem() is None,
        app.compiles_to(runtime),
        app.openapi_config matches Some(config) && config.path@ == path::normal_request_path(path),
    ensures
        runtime.prepared::<()>("GET"@, path, fields) == dispatch::DispatchView::<H, ()>::Ready(
            response::json_response(200, app.document_bytes()),
        ),
{
    method::lemma_slots();
    lemma_distinct_names();
    let normal = path::normal_request_path(path);
    let count = app.plans@.len() as int;
    let slot = method::method_slot_of("GET"@)->0;
    assert(registry::routes_in(app.statics_with_document(), normal)[slot] == count);
    if let Some(config) = app.swagger_config {
        if config.path@ == normal {
            assert(router::route_of(
                registry::routes_in(app.statics_with_document(), normal),
                "GET"@,
            ) is Some);
        }
    }
    assert(registry::routes_in(runtime.static_table(), normal)[slot] == count);
    assert(runtime.plans@[count].handler is Static);
    assert(runtime.plans@.len() > count);
    assert(plan::plan_serves(runtime.plans@[count], runtime.routes@[count]));
}

/// A build serves the Swagger page at its path, as it stands.
pub proof fn law_page_is_served<S, H>(
    app: App<S, H>,
    runtime: AppRuntime<S, H>,
    path: Seq<char>,
    fields: Map<Seq<char>, Seq<Seq<u8>>>,
)
    requires
        app.wf(),
        app.build_problem() is None,
        app.compiles_to(runtime),
        app.swagger_config matches Some(config) && config.path@ == path::normal_request_path(path),
    ensures
        runtime.prepared::<()>("GET"@, path, fields) == dispatch::DispatchView::<H, ()>::Ready(
            response::text_response(200, app.swagger_page()),
        ),
{
    method::lemma_slots();
    lemma_distinct_names();
    let normal = path::normal_request_path(path);
    let count = (app.plans@.len() + app.document_routes().len()) as int;
    let slot = method::method_slot_of("GET"@)->0;
    assert(registry::routes_in(runtime.static_table(), normal)[slot] == count);
    assert(runtime.plans@[count].handler is Static);
    assert(runtime.plans@.len() > count);
    assert(plan::plan_serves(runtime.plans@[count], runtime.routes@[count]));
}

/// The tables that a build makes, at a path at which a generated document stands: the routes of
/// the path, with the document as the one of `GET`.
proof fn lemma_built_tables<S, H>(app: App<S, H>, normal: Seq<char>)
    requires
        app.build_problem() is None,
    ensures
        app.at_generated(normal) ==> app.statics_with_page().contains_key(normal),
        !app.at_generated(normal) ==> app.statics_with_page().contains_key(normal)
            == app.static_table().contains_key(normal),
        registry::routes_in(app.statics_with_page(), normal) == if app.at_generated(normal) {
            registry::routes_in(app.static_table(), normal).insert(
                method::method_slot_of("GET"@)->0,
                if app.openapi_config matches Some(config) && config.path@ == normal {
                    app.plans@.len() as int
                } else {
                    (app.plans@.len() + app.document_routes().len()) as int
                },
            )
        } else {
            registry::routes_in(app.static_table(), normal)
        },
{
    method::lemma_slots();
}

/// An application answers without a build as it does once it was built.
pub proof fn law_answers_are_those_of_the_build<S, H, B>(
    app: App<S, H>,
    runtime: AppRuntime<S, H>,
    method: Seq<char>,
    path: Seq<char>,
    body_length: int,
)
    requires
        app.wf(),
        app.build_problem() is None,
        app.compiles_to(runtime),
    ensures
        app.answer_needs_incoming(method, path) == runtime.needs_incoming(method, path),
        app.answered::<B>(method, path, body_length) == runtime.handled::<B>(
            method,
            path,
            body_length,
        ),
{
    method::lemma_slots();
    let normal = path::normal_request_path(path);
    let count = app.plans@.len() as int;
    let documents = app.document_routes().len() as int;
    let own = registry::routes_in(app.static_table(), normal);
    lemma_built_tables(app, normal);
    assert forall|i: int| 0 <= i < count implies #[trigger] runtime.plans@[i] == app.plans@[i]
        && runtime.routes@[i] == app.routes()[i] by {
        assert(runtime.plans@.take(count)[i] == runtime.plans@[i]);
    }
    if app.at_generated(normal) {
        let number = if app.openapi_config matches Some(config) && config.path@ == normal {
            count
        } else {
            count + documents
        };
        compile::lemma_other_number(own, count, number, method);
        if let Some(slot) = method::method_slot_of(method) {
            if own.contains_key(slot) {
                assert(registry::static_home(app.routes(), own[slot], normal, slot));
            }
        }
    } else {
        registry::lemma_matched(
            app.static_table(),
            app.dynamic_routes@,
            app.routes(),
            method,
            path,
        );
    }
}

/// At the path of a generated document the methods without a route of their own are answered as
/// at every known path: `HEAD` falls back to the document that `GET` gives, `OPTIONS` is
/// answered with the allowed methods, and every other method is refused with them.
pub proof fn law_generated_paths_are_known_paths<S, H, B>(
    app: App<S, H>,
    method: Seq<char>,
    path: Seq<char>,
    body_length: int,
)
    requires
        app.wf(),
        app.at_generated(path::normal_request_path(path)),
        method != "GET"@ ==> router::route_of(
            registry::routes_in(app.static_table(), path::normal_request_path(path)),
            method,
        ) is None,
    ensures
        ({
            let normal = path::normal_request_path(path);
            let allow = response::allow_fields(
                router::allow_header(app.generated_routes(normal)),
            );
            let document = app.generated_view::<B>(normal)->0;
            app.answered::<B>(method, path, body_length) == dispatch::DispatchView::<H, B>::Ready(
                if method == "GET"@ {
                    document
                } else if method == "HEAD"@ {
                    response::answer(true, document)
                } else if method == "OPTIONS"@ {
                    response::empty_response(204, allow)
                } else {
                    response::empty_response(405, allow)
                },
            )
        }),
{
    method::lemma_slots();
    lemma_distinct_names();
    let normal = path::normal_request_path(path);
    let count = app.plans@.len() as int;
    let own = registry::routes_in(app.static_table(), normal);
    compile::lemma_other_number(own, count, count, method);
}

/// The names of the methods that matter to dispatch are different.
proof fn lemma_distinct_names()
    ensures
        "GET"@ != "HEAD"@,
        "GET"@ != "OPTIONS"@,
        "HEAD"@ != "OPTIONS"@,
{
    reveal_strlit("HEAD");
    reveal_strlit("OPTIONS");
    reveal_strlit("GET");
    assert("HEAD"@.len() == 4 && "OPTIONS"@.len() == 7 && "GET"@.len() == 3);
}

/// A generated document is not served where a route answers `GET` already: the build fails.
pub proof fn law_generated_conflicts_fail_the_build<S, H>(app: App<S, H>, index: int)
    requires
        app.wf(),
        app.route_error is None,
        0 <= index < app.routes().len(),
        plan::is_static(app.routes()[index].segments),
        app.routes()[index].method == "GET"@,
        app.openapi_config matches Some(config) && config.path@ == app.routes()[index].template,
    ensures
        app.build_problem() == Some(
            openapi::BuildErrorView::RouteConflict(app.routes()[index].template, "GET"@),
        ),
{
    let route = app.routes()[index];
    assert(registry::route_ok(route));
    assert(registry::entry_of(app.static_table(), app.dynamic_routes@, route) == Some(index));
}

/// The Swagger page is not served where a route answers `GET` already either.
pub proof fn law_page_conflicts_fail_the_build<S, H>(app: App<S, H>, index: int)
    requires
        app.wf(),
        app.route_error is None,
        app.document_problem() is None,
        0 <= index < app.routes().len(),
        plan::is_static(app.routes()[index].segments),
        app.routes()[index].method == "GET"@,
        app.swagger_config matches Some(config) && config.path@ == app.routes()[index].template,
    ensures
        app.build_problem() == Some(
            openapi::BuildErrorView::RouteConflict(app.routes()[index].template, "GET"@),
        ),
{
    let route = app.routes()[index];
    assert(registry::route_ok(route));
    assert(registry::entry_of(app.static_table(), app.dynamic_routes@, route) == Some(index));
    if let Some(config) = app.openapi_config {
        assert(config.path@ != route.template);
    }
    assert(registry::routes_in(app.statics_with_document(), route.template)
        == registry::routes_in(app.static_table(), route.template));
}

/// The document and the Swagger page are not served at the same path.
pub proof fn law_page_and_document_stand_apart<S, H>(app: App<S, H>)
    requires
        app.wf(),
        app.route_error is None,
        app.document_problem() is None,
        app.openapi_config is Some,
        app.swagger_config matches Some(page) && page.path@ == (app.openapi_config->0).path@,
    ensures
        app.build_problem() == Some(
            openapi::BuildErrorView::RouteConflict((app.openapi_config->0).path@, "GET"@),
        ),
{
    method::lemma_slots();
}

/// The document holds the operation of every route that the application registered, under its
/// template and its method in lower case.
pub proof fn law_document_lists_every_route<S, H>(app: App<S, H>, index: int)
    requires
        app.wf(),
        0 <= index < app.routes().len(),
        !app.routes()[index].builtin,
    ensures
        ({
            let route = app.routes()[index];
            let paths = openapi::paths_of(app.routes(), app.routes().len() as int);
            let operations = openapi::operations_at(paths, route.template);
            let key = openapi::lower_text(route.method);
            &&& paths.contains_key(route.template)
            &&& operations.contains_key(key)
            &&& operations[key] == openapi::operation_tree(route)
        }),
{
    lemma_operation_stays(
        app.static_table(),
        app.dynamic_routes@,
        app.routes(),
        index,
        app.routes().len() as int,
    );
}

/// The operation of a route stays in the document when more routes are added.
proof fn lemma_operation_stays(
    statics: registry::StaticTable,
    dynamics: trie::Table,
    routes: Seq<plan::RouteView>,
    index: int,
    n: int,
)
    requires
        registry::registry_ok(statics, dynamics, routes),
        0 <= index < n <= routes.len(),
        !routes[index].builtin,
    ensures
        ({
            let route = routes[index];
            let paths = openapi::paths_of(routes, n);
            let operations = openapi::operations_at(paths, route.template);
            let key = openapi::lower_text(route.method);
            &&& paths.contains_key(route.template)
            &&& paths[route.template] is Object
            &&& operations.contains_key(key)
            &&& operations[key] == openapi::operation_tree(route)
        }),
    decreases n,
{
    if n > index + 1 {
        lemma_operation_stays(statics, dynamics, routes, index, n - 1);
        let route = routes[index];
        let later = routes[n - 1];
        if !later.builtin && later.template == route.template && openapi::lower_text(later.method)
            == openapi::lower_text(route.method) {
            assert(registry::entry_of(statics, dynamics, route) == Some(index));
            assert(registry::entry_of(statics, dynamics, later) == Some(n - 1));
            openapi::lemma_lower_injective(route.method, later.method);
            law_routes_are_unique(statics, dynamics, routes, index, n - 1);
        }
    }
}

/// The document holds nothing else: every operation in it is that of a route that the
/// application registered.
pub proof fn law_document_lists_only_routes(
    routes: Seq<plan::RouteView>,
    n: int,
    template: Seq<char>,
    key: Seq<char>,
) -> (index: int)
    requires
        0 <= n <= routes.len(),
        openapi::operations_at(openapi::paths_of(routes, n), template).contains_key(key),
    ensures
        0 <= index < n,
        !routes[index].builtin,
        routes[index].template == template,
        openapi::lower_text(routes[index].method) == key,
        openapi::operations_at(openapi::paths_of(routes, n), template)[key]
            == openapi::operation_tree(routes[index]),
    decreases n,
{
    if n == 0 {
        0
    } else {
        let route = routes[n - 1];
        if !route.builtin && route.template == template && openapi::lower_text(route.method)
            == key {
            n - 1
        } else {
            law_document_lists_only_routes(routes, n - 1, template, key)
        }
    }
}

/// A response to `HEAD` has the status of the response and its header fields, and no body. It
/// names the length of a body that is known.
pub proof fn law_head_responses_have_no_body<B>(response: response::ResponseView<B>)
    ensures
        ({
            let head = response::head_response(response);
            &&& head.status == response.status
            &&& head.body == response::BodyView::<B>::Full(Some(Seq::empty()))
            &&& forall|name: Seq<char>|
                response.headers.contains_key(name) ==> #[trigger] head.headers.contains_key(name)
                    && head.headers[name] == response.headers[name]
            &&& response::exact_length(response.body) matches Some(length) ==> {
                &&& head.headers.contains_key("content-length"@)
                &&& !response.headers.contains_key("content-length"@)
                    ==> head.headers["content-length"@] == response::one_value(
                    number::decimal(length),
                )
            }
        }),
{
}

/// A body over the limit of its route is refused before the handler is called, whether its
/// length is declared or found out while it is read.
pub proof fn law_large_bodies_are_refused<H>(
    plan: RoutePlan<H>,
    names: Option<Seq<Seq<char>>>,
    index: int,
    found: Option<Seq<(int, int)>>,
    bytes: Seq<u8>,
    fields: Map<Seq<char>, Seq<Seq<u8>>>,
    length: usize,
    is_head: bool,
)
    requires
        plan.body_mode == BodyMode::Buffered,
        plan.handler is Typed || plan.handler is TypedNoParams,
        length > plan.body_limit,
    ensures
        ({
            let refused = dispatch::DispatchView::<H, ()>::Ready(
                response::problem_response(response::too_large_problem()),
            );
            &&& dispatch::declared_length(fields) == Some(length as nat)
                ==> dispatch::dispatch_of::<H, ()>(
                plan,
                names,
                index,
                found,
                bytes,
                fields,
                is_head,
            ) == refused
            &&& dispatch::resumed_of::<H, ()>(
                plan,
                names,
                found,
                bytes,
                dispatch::BodyOutcome::Collected(length),
                is_head,
            ) == refused
            &&& dispatch::resumed_of::<H, ()>(
                plan,
                names,
                found,
                bytes,
                dispatch::BodyOutcome::TooLarge,
                is_head,
            ) == refused
        }),
{
}

/// A body within the limit of its route reaches the handler, whatever was declared.
pub proof fn law_small_bodies_reach_the_handler<H>(
    plan: RoutePlan<H>,
    names: Option<Seq<Seq<char>>>,
    found: Option<Seq<(int, int)>>,
    bytes: Seq<u8>,
    length: usize,
    is_head: bool,
)
    requires
        length <= plan.body_limit,
    ensures
        dispatch::resumed_of::<H, ()>(
            plan,
            names,
            found,
            bytes,
            dispatch::BodyOutcome::Collected(length),
            is_head,
        ) == dispatch::call_of::<H, ()>(plan, names, found, bytes, is_head),
{
}

/// A raw handler and a handler that reads no body are called at once, whatever length is
/// declared.
pub proof fn law_unread_bodies_are_not_limited<H>(
    plan: RoutePlan<H>,
    names: Option<Seq<Seq<char>>>,
    index: int,
    found: Option<Seq<(int, int)>>,
    bytes: Seq<u8>,
    fields: Map<Seq<char>, Seq<Seq<u8>>>,
    is_head: bool,
)
    requires
        plan.body_mode != BodyMode::Buffered,
    ensures
        dispatch::dispatch_of::<H, ()>(plan, names, index, found, bytes, fields, is_head)
            == dispatch::call_of::<H, ()>(plan, names, found, bytes, is_head),
        plan.handler matches HandlerKind::Raw(handler) ==> dispatch::dispatch_of::<H, ()>(
            plan,
            names,
            index,
            found,
            bytes,
            fields,
            is_head,
        ) == dispatch::DispatchView::<H, ()>::Raw(is_head, handler),
{
}

/// What becomes of a request whose body is read up to the limit of its route, where its route
/// reads one.
pub open spec fn after_reading<S, H>(
    runtime: AppRuntime<S, H>,
    method: Seq<char>,
    path: Seq<char>,
    fields: Map<Seq<char>, Seq<Seq<u8>>>,
    length: usize,
) -> dispatch::DispatchView<H, ()> {
    match runtime.prepared::<()>(method, path, fields) {
        dispatch::DispatchView::Buffered(is_head, index, found, limit) => dispatch::resumed_of(
            runtime.plans@[index],
            runtime.routes@[index].capture_names,
            found,
            encode_utf8(path::normal_request_path(path)),
            if length <= limit {
                dispatch::BodyOutcome::Collected(length)
            } else {
                dispatch::BodyOutcome::TooLarge
            },
            is_head,
        ),
        done => done,
    }
}

/// It does not matter when a body is read: a request whose body comes in whole, with its true
/// length declared or none, is answered as one whose body was read already.
pub proof fn law_bodies_may_be_read_before_or_after<S, H>(
    runtime: AppRuntime<S, H>,
    method: Seq<char>,
    path: Seq<char>,
    fields: Map<Seq<char>, Seq<Seq<u8>>>,
    length: usize,
)
    requires
        runtime.wf(),
        !runtime.needs_incoming(method, path),
        dispatch::declared_length(fields) matches Some(declared) ==> declared == length,
    ensures
        after_reading(runtime, method, path, fields, length) == runtime.handled::<()>(
            method,
            path,
            length as int,
        ),
{
    registry::lemma_matched(
        runtime.static_table(),
        runtime.dynamic_routes@,
        runtime.routes@,
        method,
        path,
    );
    if let dispatch::RoutingView::Matched(index, _) = runtime.routing(method, path) {
        assert(plan::plan_serves(runtime.plans@[index], runtime.routes@[index]));
    }
}

/// Text without `%` is decoded to itself: a `+` stays a plus.
pub proof fn law_text_without_escapes_is_literal(chars: Seq<char>)
    requires
        !chars.contains('%'),
    ensures
        percent::percent_text(encode_utf8(chars)) == Ok::<Seq<char>, error::Problem>(chars),
{
    text::lemma_ascii_contains(chars, '%');
    percent::lemma_plain_bytes(encode_utf8(chars));
    encode_utf8_valid_utf8(chars);
    encode_utf8_decode_utf8(chars);
}

/// A part of a path that can be captured decodes, or is told that its bytes are not UTF-8. A
/// part that cannot be captured does not decode.
pub proof fn law_captures_have_valid_escapes(part: Seq<char>)
    ensures
        match percent::percent_text(encode_utf8(part)) {
            Ok(_) => trie::can_capture(part),
            Err(problem) => if trie::can_capture(part) {
                problem == error::bad_request_problem("invalid UTF-8 in percent encoding"@)
            } else {
                problem == error::bad_request_problem("invalid percent encoding"@)
            },
        },
{
}

/// The captures that a handler reads by name are those of its template: as many values as
/// names.
pub proof fn law_captures_have_names<S, H>(
    app: App<S, H>,
    method: Seq<char>,
    path: Seq<char>,
)
    requires
        app.wf(),
    ensures
        app.routing(method, path) matches dispatch::RoutingView::Matched(index, Some(ranges)) ==> {
            let route = app.routes()[index];
            let bytes = encode_utf8(path::normal_request_path(path));
            &&& ranges.len() == plan::capture_names_of(route.segments).len()
            &&& params::decoded_values(bytes, ranges, ranges.len()) matches Ok(values) ==> values.len()
                == plan::capture_names_of(route.segments).len()
        },
{
    let normal = path::normal_request_path(path);
    law_served_routes_match(app, method, path);
    registry::lemma_matched(app.static_table(), app.dynamic_routes@, app.routes(), method, path);
    trie::law_captures_lie_in_the_path(app.dynamic_routes@, normal);
    if let dispatch::RoutingView::Matched(index, Some(ranges)) = app.routing(method, path) {
        plan::lemma_capture_names(app.routes()[index].segments);
        lemma_decoded_each(encode_utf8(normal), ranges, ranges.len());
    }
}

/// Each range decodes to its own text.
proof fn lemma_decoded_each(bytes: Seq<u8>, ranges: Seq<(int, int)>, n: nat)
    ensures
        params::decoded_values(bytes, ranges, n) matches Ok(values) ==> {
            &&& values.len() == n
            &&& forall|i: int|
                0 <= i < n ==> percent::percent_text(bytes.subrange(ranges[i].0, ranges[i].1))
                    == Ok::<Seq<char>, error::Problem>(#[trigger] values[i])
        },
    decreases n,
{
    if n > 0 {
        lemma_decoded_each(bytes, ranges, (n - 1) as nat);
    }
}

/// The names of the captures up to a segment come first, and each is that of a segment.
proof fn lemma_names_up_to(segments: Seq<path::SegmentView>, n: int)
    requires
        0 <= n <= segments.len(),
    ensures
        ({
            let all = plan::capture_names_of(segments);
            let before = plan::capture_names_of(segments.take(n));
            &&& before.len() <= all.len()
            &&& forall|i: int| 0 <= i < before.len() ==> all[i] == #[trigger] before[i]
            &&& forall|i: int|
                0 <= i < before.len() ==> exists|k: int|
                    0 <= k < n && #[trigger] segments[k] == path::SegmentView::Capture(
                        #[trigger] before[i],
                    )
            &&& n < segments.len() && segments[n] is Capture ==> before.len() < all.len()
                && path::SegmentView::Capture(all[before.len() as int]) == segments[n]
        }),
    decreases segments.len(),
{
    let all = plan::capture_names_of(segments);
    let before = plan::capture_names_of(segments.take(n));
    if n == segments.len() {
        assert(segments.take(n) =~= segments);
        if n > 0 {
            let front = segments.drop_last();
            lemma_names_up_to(front, n - 1);
            assert(front.take(n - 1) =~= front);
            let names = plan::capture_names_of(front);
            assert forall|i: int| 0 <= i < before.len() implies exists|k: int|
                0 <= k < n && #[trigger] segments[k] == path::SegmentView::Capture(
                    #[trigger] before[i],
                ) by {
                if i < names.len() {
                    let k = choose|k: int|
                        0 <= k < n - 1 && #[trigger] front[k] == path::SegmentView::Capture(
                            names[i],
                        );
                    assert(segments[k] == path::SegmentView::Capture(before[i]));
                } else {
                    assert(segments[n - 1] == path::SegmentView::Capture(before[i]));
                }
            }
        }
    } else {
        let front = segments.drop_last();
        lemma_names_up_to(front, n);
        assert(front.take(n) =~= segments.take(n));
        assert forall|i: int| 0 <= i < before.len() implies exists|k: int|
            0 <= k < n && #[trigger] segments[k] == path::SegmentView::Capture(
                #[trigger] before[i],
            ) by {
            let k = choose|k: int|
                0 <= k < n && #[trigger] front[k] == path::SegmentView::Capture(before[i]);
            assert(segments[k] == path::SegmentView::Capture(before[i]));
        }
        if n == front.len() {
            assert(segments.take(n) =~= front);
        }
    }
}

/// A capture holds the part of the path that stands in its place.
pub proof fn lemma_captured_at(pattern: Seq<trie::PatternPart>, ranges: Seq<(int, int)>, n: int)
    requires
        pattern.len() == ranges.len(),
        0 <= n < pattern.len(),
        pattern[n] is Capture,
    ensures
        trie::capture_count(pattern.take(n)) < trie::captured(pattern, ranges).len(),
        trie::captured(pattern, ranges)[trie::capture_count(pattern.take(n)) as int] == ranges[n],
    decreases n,
{
    if n == 0 {
        assert(pattern.take(0) =~= Seq::empty());
    } else {
        lemma_captured_at(pattern.drop_first(), ranges.drop_first(), n - 1);
        assert(pattern.take(n).drop_first() =~= pattern.drop_first().take(n - 1));
        assert(pattern.take(n)[0] == pattern[0]);
    }
}

/// The part of a path is encoded by the bytes that it stands at.
pub proof fn lemma_part_bytes(path: Seq<char>, index: int)
    requires
        0 <= index < path::path_texts(path).len(),
    ensures
        ({
            let bytes = encode_utf8(path);
            let part = path::parts_from(bytes, 0)[index];
            encode_utf8(path::path_texts(path)[index]) == bytes.subrange(part.0, part.1)
        }),
{
    let bytes = encode_utf8(path);
    let part = path::parts_from(bytes, 0)[index];
    encode_utf8_valid_utf8(path);
    is_char_boundary_start_end_of_seq(bytes);
    path::lemma_parts_fit(path, 0);
    assert(path::part_fits(part, bytes));
    valid_utf8_split(bytes, part.1);
    let head = bytes.subrange(0, part.1);
    is_char_boundary_iff_not_is_continuation_byte(bytes, part.0);
    assert(head[part.0] == bytes[part.0]);
    is_char_boundary_iff_not_is_continuation_byte(head, part.0);
    valid_utf8_split(head, part.0);
    assert(head.subrange(part.0, head.len() as int) =~= bytes.subrange(part.0, part.1));
    decode_utf8_encode_utf8(bytes.subrange(part.0, part.1));
}

/// A capture is read by its name as the decoded part of the path that stands in its place,
/// where the parts of a path that a template matches decode at all. Of captures with the same
/// name the first is read.
pub proof fn law_captures_are_read_by_name(
    segments: Seq<path::SegmentView>,
    path: Seq<char>,
    index: int,
    name: Seq<char>,
)
    requires
        trie::pattern_matches(trie::pattern_of(segments), path::path_texts(path)),
        0 <= index < segments.len(),
        segments[index] == path::SegmentView::Capture(name),
        forall|k: int| 0 <= k < index ==> #[trigger] segments[k] != segments[index],
    ensures
        ({
            let bytes = encode_utf8(path);
            let ranges = trie::captured(
                trie::pattern_of(segments),
                path::parts_from(bytes, 0),
            );
            params::decoded_values(bytes, ranges, ranges.len()) matches Ok(values) ==> {
                let named = params::NamedValues {
                    names: plan::capture_names_of(segments),
                    values,
                };
                &&& named.lookup(name) is Some
                &&& percent::percent_text(encode_utf8(path::path_texts(path)[index])) == Ok::<
                    Seq<char>,
                    error::Problem,
                >(named.lookup(name)->0)
            }
        }),
{
    let bytes = encode_utf8(path);
    let pattern = trie::pattern_of(segments);
    let parts = path::parts_from(bytes, 0);
    let ranges = trie::captured(pattern, parts);
    let names = plan::capture_names_of(segments);
    let before = plan::capture_names_of(segments.take(index));
    lemma_names_up_to(segments, index);
    plan::lemma_capture_names(segments.take(index));
    assert(trie::pattern_of(segments.take(index)) =~= pattern.take(index));
    lemma_captured_at(pattern, parts, index);
    lemma_part_bytes(path, index);
    lemma_decoded_each(bytes, ranges, ranges.len());
    if let Ok(values) = params::decoded_values(bytes, ranges, ranges.len()) {
        let named = params::NamedValues { names, values };
        let place = before.len() as int;
        assert(named.first_at(name, place)) by {
            assert forall|i: int| 0 <= i < place implies named.names[i] != name by {
                assert(names[i] == before[i]);
                let k = choose|k: int|
                    0 <= k < index && #[trigger] segments[k] == path::SegmentView::Capture(
                        before[i],
                    );
                assert(segments[k] != segments[index]);
            }
        }
        let found = choose|i: int| named.first_at(name, i);
        assert(found == place);
    }
}

/// A build serves a route with captures as it was registered: the requests whose path its
/// pattern matches, unless a template without captures is that path, or a pattern that comes
/// before it matches as well.
pub proof fn law_built_patterns_are_served<S, H>(
    app: App<S, H>,
    runtime: AppRuntime<S, H>,
    index: int,
    path: Seq<char>,
    fields: Map<Seq<char>, Seq<Seq<u8>>>,
)
    requires
        app.wf(),
        app.build_problem() is None,
        app.compiles_to(runtime),
        0 <= index < app.routes().len(),
        !plan::is_static(app.routes()[index].segments),
        trie::pattern_matches(
            trie::pattern_of(app.routes()[index].segments),
            path::path_texts(path::normal_request_path(path)),
        ),
        !app.static_table().contains_key(path::normal_request_path(path)),
        !app.at_generated(path::normal_request_path(path)),
        forall|other: Seq<trie::PatternPart>| #[trigger]
            app.dynamic_routes@.contains_key(other) && trie::pattern_matches(
                other,
                path::path_texts(path::normal_request_path(path)),
            ) ==> !trie::comes_before(other, trie::pattern_of(app.routes()[index].segments)),
    ensures
        runtime.prepared::<()>(app.routes()[index].method, path, fields) == dispatch::dispatch_of::<
            H,
            (),
        >(
            app.plans@[index],
            app.routes()[index].capture_names,
            index,
            Some(
                trie::captured(
                    trie::pattern_of(app.routes()[index].segments),
                    path::parts_from(encode_utf8(path::normal_request_path(path)), 0),
                ),
            ),
            encode_utf8(path::normal_request_path(path)),
            fields,
            app.routes()[index].method == "HEAD"@,
        ),
{
    law_dynamic_routes_are_served(app, index, path);
    law_build_keeps_routes(app, runtime, app.routes()[index].method, path);
}

/// Two routes do not have the same operation id.
pub proof fn law_operation_ids_are_unique<S, H>(app: App<S, H>, i: int, j: int)
    requires
        app.wf(),
        0 <= i < app.routes().len(),
        0 <= j < app.routes().len(),
        app.routes()[i].operation.operation_id is Some,
        app.routes()[i].operation.operation_id == app.routes()[j].operation.operation_id,
    ensures
        i == j,
{
}

/// The document is one of OpenAPI 3.1 and says of the application what was configured.
pub proof fn law_document_says_what_was_configured(
    routes: Seq<plan::RouteView>,
    config: openapi::ConfigView,
)
    ensures
        openapi::document_tree(routes, config) matches json::JsonTree::Object(document) && {
            &&& document.contains_key("openapi"@)
            &&& document["openapi"@] == json::JsonTree::Text("3.1.0"@)
            &&& document.contains_key("paths"@)
            &&& document["paths"@] == json::JsonTree::Object(
                openapi::paths_of(routes, routes.len() as int),
            )
            &&& document.contains_key("info"@)
            &&& document["info"@] matches json::JsonTree::Object(info) && {
                &&& info.contains_key("title"@) && info["title"@] == json::JsonTree::Text(
                    config.title,
                )
                &&& info.contains_key("version"@) && info["version"@] == json::JsonTree::Text(
                    config.version,
                )
                &&& match config.description {
                    Some(text) => info.contains_key("description"@) && info["description"@]
                        == json::JsonTree::Text(text),
                    None => !info.contains_key("description"@),
                }
            }
        },
{
    reveal_strlit("openapi");
    reveal_strlit("info");
    reveal_strlit("paths");
    reveal_strlit("title");
    reveal_strlit("version");
    reveal_strlit("description");
    assert("openapi"@.len() == 7 && "info"@.len() == 4 && "paths"@.len() == 5);
    assert("title"@.len() == 5 && "version"@.len() == 7 && "description"@.len() == 11);
}

/// Whether a field is there exactly when it has a value, and holds it.
pub open spec fn holds(
    fields: Map<Seq<char>, json::JsonTree>,
    key: Seq<char>,
    value: Option<json::JsonTree>,
) -> bool {
    match value {
        Some(value) => fields.contains_key(key) && fields[key] == value,
        None => !fields.contains_key(key),
    }
}

/// The operation of a route in the document repeats what was said of the route, and nothing
/// that was not said.
pub proof fn law_operations_repeat_what_was_said(route: plan::RouteView)
    ensures
        openapi::operation_tree(route) matches json::JsonTree::Object(fields) && {
            &&& holds(fields, "summary"@, openapi::text_tree(route.operation.summary))
            &&& holds(fields, "operationId"@, openapi::text_tree(route.operation.operation_id))
            &&& holds(
                fields,
                "tags"@,
                match route.operation.tag {
                    Some(tag) => Some(json::JsonTree::List(seq![json::JsonTree::Text(tag)])),
                    None => None,
                },
            )
            &&& holds(
                fields,
                "parameters"@,
                if openapi::parameters_of(route).len() > 0 {
                    Some(json::JsonTree::List(openapi::parameters_of(route)))
                } else {
                    None
                },
            )
            &&& holds(fields, "requestBody"@, route.operation.request.request_body)
            &&& fields.contains_key("responses"@)
        },
{
    reveal_strlit("summary");
    reveal_strlit("operationId");
    reveal_strlit("tags");
    reveal_strlit("parameters");
    reveal_strlit("requestBody");
    reveal_strlit("responses");
    assert("summary"@.len() == 7 && "operationId"@.len() == 11 && "tags"@.len() == 4);
    assert("parameters"@.len() == 10 && "requestBody"@.len() == 11 && "responses"@.len() == 9);
    assert("operationId"@[0] != "requestBody"@[0]);
}

/// Every capture of a template is a required path parameter of its operation, in order, with
/// the schema of the extractor that reads it or that of a string.
pub proof fn law_captures_are_path_parameters(
    segments: Seq<path::SegmentView>,
    schemas: Seq<json::JsonTree>,
)
    ensures
        ({
            let names = plan::capture_names_of(segments);
            let parameters = openapi::path_parameters(segments, schemas, segments.len() as int);
            &&& parameters.len() == names.len()
            &&& forall|i: int|
                0 <= i < names.len() ==> #[trigger] parameters[i] == schema::parameter_tree(
                    "path"@,
                    names[i],
                    true,
                    openapi::capture_schema(schemas, i),
                )
        }),
    decreases segments.len(),
{
    if segments.len() > 0 {
        let front = segments.drop_last();
        law_captures_are_path_parameters(front, schemas);
        lemma_parameters_of_front(segments, schemas, front.len() as int);
    }
}

/// The parameters of the first segments do not depend on the last.
proof fn lemma_parameters_of_front(
    segments: Seq<path::SegmentView>,
    schemas: Seq<json::JsonTree>,
    n: int,
)
    requires
        0 <= n < segments.len(),
    ensures
        openapi::path_parameters(segments, schemas, n) == openapi::path_parameters(
            segments.drop_last(),
            schemas,
            n,
        ),
    decreases n,
{
    if n > 0 {
        lemma_parameters_of_front(segments, schemas, n - 1);
    }
}

/// A key of a query may be escaped: it does what its decoded text does.
pub proof fn law_escaped_keys_name_their_fields(
    fields: Seq<Seq<char>>,
    key: Seq<char>,
    name: Seq<char>,
    value: Seq<char>,
)
    requires
        percent::percent_text(encode_utf8(key)) == Ok::<Seq<char>, error::Problem>(name),
        query::field_index(fields, name) is Some,
        query::field_index(fields, key) is None,
    ensures
        query::pair_effect(fields, (key, value)) == query::pair_effect(fields, (name, value)),
{
}

/// Of the pairs of a query with the same key the last one counts.
pub proof fn law_last_pair_wins(pairs: Seq<(Seq<char>, json::JsonTree)>, i: int)
    requires
        0 <= i < pairs.len(),
        forall|j: int| i < j < pairs.len() ==> (#[trigger] pairs[j]).0 != pairs[i].0,
    ensures
        query::fields_of(pairs).contains_key(pairs[i].0),
        query::fields_of(pairs)[pairs[i].0] == pairs[i].1,
    decreases pairs.len(),
{
    if i < pairs.len() - 1 {
        assert(pairs[pairs.len() - 1].0 != pairs[i].0);
        assert(pairs.drop_last()[i] == pairs[i]);
        assert forall|j: int| i < j < pairs.drop_last().len() implies (
        #[trigger] pairs.drop_last()[j]).0 != pairs[i].0 by {
            assert(pairs[j].0 != pairs[i].0);
        }
        law_last_pair_wins(pairs.drop_last(), i);
    }
}

} // verus!
