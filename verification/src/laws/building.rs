//! What holds of applications while they are built: registration, settings and documentation.

use crate::app::{App, RegistrationError};
use crate::compile;
use crate::laws;
use crate::method::Method;
use crate::openapi;
use crate::path;
use crate::plan;
use crate::schema;
use vstd::prelude::*;
use vstd::string::*;

verus! {

/// A new application has no routes and no documents, and collects bodies up to a mebibyte.
pub proof fn law_new_applications_are_empty<H>(r: App<(), H>)
    requires
        call_ensures(App::<(), H>::new, (), r),
    ensures
        r.plans@.len() == 0,
        r.metadata@.len() == 0,
        r.max_body_size == 1024 * 1024,
        r.openapi_config is None,
        r.swagger_config is None,
        r.route_error is None,
        forall|method: Seq<char>, path: Seq<char>| #[trigger]
            r.routing(method, path) is NotFound,
{
    assert forall|method: Seq<char>, path: Seq<char>| #[trigger]
        r.routing(method, path) is NotFound by {
        laws::law_unmatched_paths_are_unknown(
            r.static_table(),
            r.dynamic_routes@,
            method,
            path,
        );
    }
}

/// Whether a route has the given method and template.
pub open spec fn is_taken<S, H>(app: App<S, H>, method: Seq<char>, template: Seq<char>) -> bool {
    exists|i: int|
        0 <= i < app.metadata@.len() && (#[trigger] app.metadata@[i]).method@ == method
            && app.metadata@[i].template@ == template
}

/// A handler is refused where its method has a route for its template already, and else where
/// its template is not well formed. A template with more captures than a route may have is not
/// refused, and any other is refused where its method is not routable.
pub proof fn law_registrations_are_checked<S, H>(
    app: &App<S, H>,
    method: &Method,
    path: &str,
    r: Result<(), RegistrationError>,
)
    requires
        call_ensures(App::<S, H>::check_route, (app, method, path), r),
    ensures
        ({
            let template = path::normal_path(path@);
            let captures = plan::capture_names_of(path::template_segments(template)).len();
            &&& is_taken(*app, method@, template) <==> r == Err::<(), _>(
                RegistrationError::DuplicateRoute,
            )
            &&& !is_taken(*app, method@, template) ==> (!path::valid_template(template) <==> r
                == Err::<(), _>(RegistrationError::InvalidTemplate))
            &&& !is_taken(*app, method@, template) && path::valid_template(template) && captures
                > 8 ==> r is Ok
            &&& captures <= 8 && !laws::routing::routable().contains(method@) ==> r is Err
            &&& r != Err::<(), _>(RegistrationError::StaticCaptures)
        }),
{
    let template = path::normal_path(path@);
    plan::lemma_capture_names(path::template_segments(template));
    laws::routing::law_seven_methods_are_routable(method@, method@);
    if app.has_route(method@, template) {
        let i = choose|i: int|
            0 <= i < app.routes().len() && (#[trigger] app.routes()[i]).method == method@
                && app.routes()[i].template == template;
        assert(app.routes()[i] == app.metadata@[i]@);
        assert(app.metadata@[i].method@ == method@);
    }
    if is_taken(*app, method@, template) {
        let i = choose|i: int|
            0 <= i < app.metadata@.len() && (#[trigger] app.metadata@[i]).method@ == method@
                && app.metadata@[i].template@ == template;
        assert(app.routes()[i] == app.metadata@[i]@);
    }
}

/// A prepared response is refused for a template with captures, and where `GET` has a route for
/// its template already.
pub proof fn law_prepared_registrations_are_checked<S, H>(
    app: &App<S, H>,
    path: &str,
    r: Result<(), RegistrationError>,
)
    requires
        call_ensures(App::<S, H>::check_static_route, (app, path), r),
    ensures
        ({
            let template = path::normal_path(path@);
            let captures = plan::capture_names_of(path::template_segments(template)).len();
            &&& !path::valid_template(template) <==> r == Err::<(), _>(
                RegistrationError::InvalidTemplate,
            )
            &&& path::valid_template(template) ==> (captures > 0 <==> r == Err::<(), _>(
                RegistrationError::StaticCaptures,
            ))
            &&& path::valid_template(template) && captures == 0 ==> (is_taken(
                *app,
                "GET"@,
                template,
            ) <==> r == Err::<(), _>(RegistrationError::DuplicateRoute))
        }),
{
    let template = path::normal_path(path@);
    plan::lemma_capture_names(path::template_segments(template));
    if app.has_route("GET"@, template) {
        let i = choose|i: int|
            0 <= i < app.routes().len() && (#[trigger] app.routes()[i]).method == "GET"@
                && app.routes()[i].template == template;
        assert(app.routes()[i] == app.metadata@[i]@);
        assert(app.metadata@[i].method@ == "GET"@);
    }
    if is_taken(*app, "GET"@, template) {
        let i = choose|i: int|
            0 <= i < app.metadata@.len() && (#[trigger] app.metadata@[i]).method@ == "GET"@
                && app.metadata@[i].template@ == template;
        assert(app.routes()[i] == app.metadata@[i]@);
    }
}

/// What is said of a route changes the documentation of that route alone: its place, its method
/// and all other routes stay, and so does what is configured.
pub proof fn law_documentation_changes_nothing_else<S, H>(
    before: App<S, H>,
    after: App<S, H>,
    index: int,
    operation: plan::OperationView,
    other: int,
)
    requires
        after.redocuments(&before, index, operation),
        0 <= index < before.routes().len(),
        0 <= other < before.routes().len(),
    ensures
        after.routes().len() == before.routes().len(),
        after.routes()[index].operation == operation,
        after.routes()[index].method == before.routes()[index].method,
        after.routes()[index].template == before.routes()[index].template,
        after.routes()[index].segments == before.routes()[index].segments,
        after.routes()[index].builtin == before.routes()[index].builtin,
        other != index ==> after.routes()[other] == before.routes()[other],
        after.plans == before.plans,
        after.openapi_config == before.openapi_config,
        after.swagger_config == before.swagger_config,
        after.max_body_size == before.max_body_size,
        after.openapi_bytes is None,
{
}

/// The documents that are kept are those of the application as it is.
pub proof fn law_kept_documents_are_current<S, H>(app: App<S, H>)
    requires
        app.wf(),
    ensures
        app.openapi_bytes matches Some(bytes) ==> crate::payload::bytes_contents(bytes)
            == vstd::utf8::encode_utf8(
            crate::json::json_text(
                openapi::document_tree(app.routes(), openapi::config_of(app.openapi_config)),
            ),
        ),
        app.swagger_bytes matches Some(bytes) ==> crate::payload::bytes_contents(bytes)
            == vstd::utf8::encode_utf8(
            openapi::swagger_text(
                Some(openapi::config_of(app.openapi_config).path),
            ),
        ),
{
}

/// A generated document is served by a route of its own: one of `GET`, with the status `200`,
/// which the document does not show.
pub proof fn law_generated_routes_are_builtin(path: Seq<char>)
    ensures
        ({
            let route = compile::generated_route(path);
            &&& route.builtin
            &&& route.method == "GET"@
            &&& route.template == path
            &&& route.operation.status == 200
            &&& route.operation.schema is None
            &&& route.operation.request == schema::empty_request()
        }),
{
}

/// A document cannot be served at a path with captures: the build fails.
pub proof fn law_generated_paths_have_no_captures<S, H>(app: App<S, H>)
    requires
        app.route_error is None,
    ensures
        app.openapi_config matches Some(config) ==> (plan::capture_names_of(
            path::template_segments(config.path@),
        ).len() > 0 ==> app.build_problem() == Some(
            openapi::BuildErrorView::InvalidGeneratedPath(config.path@),
        )),
        app.document_problem() is None ==> (app.swagger_config matches Some(config) ==> (
        plan::capture_names_of(path::template_segments(config.path@)).len() > 0
            ==> app.build_problem() == Some(
            openapi::BuildErrorView::InvalidGeneratedPath(config.path@),
        ))),
{
    if let Some(config) = app.openapi_config {
        plan::lemma_capture_names(path::template_segments(config.path@));
    }
    if let Some(config) = app.swagger_config {
        plan::lemma_capture_names(path::template_segments(config.path@));
    }
}

/// Every route has a plan that fits it. A handler that reads captures is given those of its
/// template, a prepared response stands at a template without captures, and only bodies that are
/// collected have a limit.
pub proof fn law_plans_fit_their_routes<S, H>(app: App<S, H>, index: int)
    requires
        app.wf(),
        0 <= index < app.plans@.len(),
    ensures
        ({
            let plan = app.plans@[index];
            let segments = app.routes()[index].segments;
            let fixed = plan::capture_names_of(segments).len() == 0;
            &&& plan.handler is Typed && !fixed ==> plan.capture_mode
                != plan::CaptureMode::Absent
            &&& plan.handler is Static ==> fixed
            &&& plan.handler is Raw <==> plan.body_mode == plan::BodyMode::Incoming
            &&& plan.handler is Zero || plan.handler is Static ==> plan.body_mode
                == plan::BodyMode::Absent
            &&& plan.body_limit == if plan.body_mode == plan::BodyMode::Buffered {
                app.max_body_size
            } else {
                0
            }
            &&& app.routes()[index].capture_names == if plan.capture_mode
                == plan::CaptureMode::Materialized {
                Some(plan::capture_names_of(segments))
            } else {
                None
            }
            &&& path::valid_template(app.routes()[index].template)
            &&& segments == path::template_segments(app.routes()[index].template)
            &&& plan::capture_names_of(segments).len() <= 8
        }),
{
    plan::lemma_capture_names(app.routes()[index].segments);
    assert(plan::plan_fits(app.plans@[index], app.metadata@[index]@, app.max_body_size));
    assert(app.routes()[index] == app.metadata@[index]@);
    assert(crate::registry::route_ok(app.routes()[index]));
}

/// A route has at most eight captures: a template with more of them is recorded, and with eight
/// it is not.
pub proof fn law_eight_captures_are_the_most<S, H>(
    before: App<S, H>,
    after: App<S, H>,
    method: Seq<char>,
    path: Seq<char>,
    endpoint: plan::Endpoint<H>,
)
    requires
        before.wf(),
        before.route_error is None,
        after.routes_endpoint(&before, method, path, endpoint),
    ensures
        after.route_error is Some <==> plan::capture_names_of(
            path::template_segments(path::normal_path(path)),
        ).len() > 8,
        after.route_error is None ==> after.routes().len() == before.routes().len() + 1,
        after.route_error is Some ==> after.routes() == before.routes(),
{
    plan::lemma_capture_names(path::template_segments(path::normal_path(path)));
}

} // verus!
