//! How an application is compiled into a runtime, and how it answers without that.

use crate::app::App;
use crate::dispatch;
use crate::dispatch::{
    handle_matched, refuse, route_request, Captures, PreparedDispatch, Routing,
};
use crate::method;
use crate::method::Method;
use crate::openapi;
use crate::openapi::BuildError;
use crate::path;
use crate::path::{check_template, normalize_request_path, parse_template};
use crate::payload;
use crate::payload::{clone_bytes, empty_bytes};
use crate::plan;
use crate::plan::{
    all_static, BodyMode, CaptureMode, HandlerKind, Operation, RouteMetadata, RoutePlan,
};
use crate::registry;
use crate::response;
use crate::response::{
    maybe_head_flag, response_json_bytes, response_text, HttpResponse, StaticResponse,
};
use crate::router;
use crate::router::{resolve_route_set, RouteFailure, RouteId, RouteSet};
use crate::runtime::AppRuntime;
use crate::schema;
use crate::schema::OpenApiRequest;
use crate::shared::share;
use crate::status::StatusCode;
use crate::text::str_equal;
use crate::uri;
use crate::uri::{parse_uri_path, OneshotError};
use std::sync::Arc;
use vstd::prelude::*;
use vstd::string::*;
use vstd::utf8::*;

verus! {

/// A route that serves a generated document.
pub open spec fn generated_route(path: Seq<char>) -> plan::RouteView {
    plan::RouteView {
        builtin: true,
        method: "GET"@,
        template: path,
        segments: path::template_segments(path),
        capture_names: None,
        operation: plan::plain_operation(200, None, schema::empty_request()),
    }
}

/// Why a generated document cannot be served at a path: its template has captures, or the
/// path answers `GET` already.
pub open spec fn generated_problem(statics: registry::StaticTable, path: Seq<char>) -> Option<
    openapi::BuildErrorView,
> {
    if !plan::is_static(path::template_segments(path)) {
        Some(openapi::BuildErrorView::InvalidGeneratedPath(path))
    } else if router::route_of(registry::routes_in(statics, path), "GET"@) is Some {
        Some(openapi::BuildErrorView::RouteConflict(path, "GET"@))
    } else {
        None
    }
}

/// Whether a plan serves prepared JSON with the given bytes.
pub open spec fn serves_json<H>(plan: RoutePlan<H>, contents: Seq<u8>) -> bool {
    plan.handler matches HandlerKind::Static(response) && (
    *response matches StaticResponse::Json { body } && payload::bytes_contents(body) == contents)
}

/// Whether a plan serves prepared text with the given bytes.
pub open spec fn serves_text<H>(plan: RoutePlan<H>, contents: Seq<u8>) -> bool {
    plan.handler matches HandlerKind::Static(response) && (
    *response matches StaticResponse::Text { body, .. } && payload::bytes_contents(body)
        == contents)
}

impl<S, H> App<S, H> {
    /// The routes that serve the document.
    pub open spec fn document_routes(&self) -> Seq<plan::RouteView> {
        match self.openapi_config {
            Some(config) => seq![generated_route(config.path@)],
            None => Seq::empty(),
        }
    }

    /// The routes that serve the Swagger page.
    pub open spec fn page_routes(&self) -> Seq<plan::RouteView> {
        match self.swagger_config {
            Some(config) => seq![generated_route(config.path@)],
            None => Seq::empty(),
        }
    }

    /// The table of templates without captures once the document is served.
    pub open spec fn statics_with_document(&self) -> registry::StaticTable {
        match self.openapi_config {
            Some(config) => registry::statics_with(
                self.static_table(),
                generated_route(config.path@),
                self.plans@.len() as int,
            ),
            None => self.static_table(),
        }
    }

    /// The table of templates without captures once the document and the page are served.
    pub open spec fn statics_with_page(&self) -> registry::StaticTable {
        match self.swagger_config {
            Some(config) => registry::statics_with(
                self.statics_with_document(),
                generated_route(config.path@),
                (self.plans@.len() + self.document_routes().len()) as int,
            ),
            None => self.statics_with_document(),
        }
    }

    /// Why the document cannot be served.
    pub open spec fn document_problem(&self) -> Option<openapi::BuildErrorView> {
        match self.openapi_config {
            Some(config) => generated_problem(self.static_table(), config.path@),
            None => None,
        }
    }

    /// Why the Swagger page cannot be served, once the document is.
    pub open spec fn page_problem(&self) -> Option<openapi::BuildErrorView> {
        match self.swagger_config {
            Some(config) => generated_problem(self.statics_with_document(), config.path@),
            None => None,
        }
    }

    /// Why the application cannot be compiled: a template with too many captures, then a
    /// document that cannot be served.
    pub open spec fn build_problem(&self) -> Option<openapi::BuildErrorView> {
        match self.route_error {
            Some(error) => Some(error@),
            None => match self.document_problem() {
                Some(problem) => Some(problem),
                None => self.page_problem(),
            },
        }
    }

    /// Whether the paths of the generated documents are well formed, as far as they are
    /// looked at, and their routes can be numbered.
    pub open spec fn can_build(&self) -> bool {
        self.route_error is None ==> {
            &&& self.openapi_config matches Some(config) ==> path::valid_template(config.path@)
            &&& self.document_problem() is None ==> (self.swagger_config matches Some(config)
                ==> path::valid_template(config.path@))
            &&& self.plans@.len() + self.document_routes().len() + self.page_routes().len()
                <= u32::MAX
        }
    }

    /// Whether a runtime is what the application compiles to: the routes with their plans, and
    /// behind them those of the document and of the page.
    pub open spec fn compiles_to(&self, runtime: AppRuntime<S, H>) -> bool {
        let count = self.plans@.len() as int;
        let documents = self.document_routes().len() as int;
        &&& runtime.wf()
        &&& runtime.state == self.state
        &&& runtime.routes@ == self.routes() + self.document_routes() + self.page_routes()
        &&& runtime.plans@.take(count) == self.plans@
        &&& self.openapi_config is Some ==> serves_json(
            runtime.plans@[count],
            self.document_bytes(),
        )
        &&& self.swagger_config is Some ==> serves_text(
            runtime.plans@[count + documents],
            self.swagger_page(),
        )
        &&& runtime.static_table() == self.statics_with_page()
        &&& runtime.dynamic_routes@ == self.dynamic_routes@
    }

    /// Adds a route that serves a generated document.
    fn add_generated_static_route(&mut self, path: String, response: StaticResponse) -> (r: Result<
        (),
        BuildError,
    >)
        requires
            old(self).routes_ok(),
            response.wf(),
            path::valid_template(path@),
            old(self).plans@.len() < u32::MAX,
        ensures
            match generated_problem(old(self).static_table(), path@) {
                Some(problem) => (r matches Err(error) && error@ == problem) && *final(self)
                    == *old(self),
                None => {
                    &&& r is Ok
                    &&& final(self).extends(
                        old(self),
                        plan::static_plan(response),
                        generated_route(path@),
                    )
                    &&& final(self).openapi_bytes == old(self).openapi_bytes
                    &&& final(self).swagger_bytes == old(self).swagger_bytes
                },
            },
    {
        let segments = parse_template(path.as_str());
        proof {
            plan::lemma_capture_names(path::segment_views(segments@));
        }
        if !all_static(segments.as_slice()) {
            return Err(BuildError::InvalidGeneratedPath { path });
        }
        let taken = match self.static_routes.get(path.as_str()) {
            Some(set) => set.route(&Method::GET).is_some(),
            None => false,
        };
        if taken {
            return Err(BuildError::RouteConflict { path, method: Method::GET });
        }
        let plan = RoutePlan {
            handler: HandlerKind::Static(Box::new(response)),
            body_limit: 0,
            capture_mode: CaptureMode::Absent,
            body_mode: BodyMode::Absent,
        };
        let route = RouteMetadata {
            builtin: true,
            method: Method::GET,
            template: path,
            segments,
            capture_names: None,
            operation: Operation::new(StatusCode::ok(), None, OpenApiRequest::default()),
        };
        self.add_to_tables(plan, route);
        Ok(())
    }

    /// Adds the routes that serve the generated documents.
    fn install_generated_routes(&mut self) -> (r: Result<(), BuildError>)
        requires
            old(self).wf(),
            old(self).route_error is None,
            old(self).can_build(),
            old(self).openapi_bytes is Some == old(self).openapi_config is Some,
            old(self).swagger_bytes is Some == old(self).swagger_config is Some,
        ensures
            match old(self).build_problem() {
                Some(problem) => r matches Err(error) && error@ == problem,
                None => {
                    let count = old(self).plans@.len() as int;
                    let documents = old(self).document_routes().len() as int;
                    &&& r is Ok
                    &&& final(self).routes_ok()
                    &&& final(self).state == old(self).state
                    &&& final(self).routes() == old(self).routes() + old(self).document_routes()
                        + old(self).page_routes()
                    &&& final(self).plans@.take(count) == old(self).plans@
                    &&& old(self).openapi_config is Some ==> serves_json(
                        final(self).plans@[count],
                        old(self).document_bytes(),
                    )
                    &&& old(self).swagger_config is Some ==> serves_text(
                        final(self).plans@[count + documents],
                        old(self).swagger_page(),
                    )
                    &&& final(self).static_table() == old(self).statics_with_page()
                    &&& final(self).dynamic_routes@ == old(self).dynamic_routes@
                },
            },
    {
        let ghost before = *self;
        let openapi_path = match &self.openapi_config {
            Some(config) => Some(config.path.clone()),
            None => None,
        };
        let openapi_body = match &self.openapi_bytes {
            Some(bytes) => Some(clone_bytes(bytes)),
            None => None,
        };
        let swagger_path = match &self.swagger_config {
            Some(config) => Some(config.path.clone()),
            None => None,
        };
        let swagger_body = match &self.swagger_bytes {
            Some(bytes) => Some(clone_bytes(bytes)),
            None => None,
        };
        if let (Some(path), Some(body)) = (openapi_path, openapi_body) {
            match self.add_generated_static_route(path, StaticResponse::json(body)) {
                Ok(()) => {},
                Err(error) => {
                    return Err(error);
                },
            }
        }
        let ghost middle = *self;
        proof {
            assert(before.metadata@.take(before.metadata@.len() as int) =~= before.metadata@);
            lemma_extended_routes(&before, &middle, before.document_routes());
        }
        if let (Some(path), Some(body)) = (swagger_path, swagger_body) {
            match self.add_generated_static_route(path, StaticResponse::text_bytes(body)) {
                Ok(()) => {},
                Err(error) => {
                    return Err(error);
                },
            }
        }
        proof {
            assert(middle.metadata@.take(middle.metadata@.len() as int) =~= middle.metadata@);
            lemma_extended_routes(&middle, self, before.page_routes());
            assert(self.plans@.take(before.plans@.len() as int) =~= before.plans@);
            assert(self.routes() =~= before.routes() + before.document_routes()
                + before.page_routes());
        }
        Ok(())
    }

    /// Freezes the routes into a runtime, which serves the generated documents as well.
    pub fn build(self) -> (r: Result<AppRuntime<S, H>, BuildError>)
        requires
            self.wf(),
            self.can_build(),
        ensures
            match r {
                Ok(runtime) => self.build_problem() is None && self.compiles_to(runtime),
                Err(error) => self.build_problem() == Some(error@),
            },
    {
        let mut app = self;
        if let Some(error) = app.route_error {
            return Err(error);
        }
        app.prepare_openapi();
        app.prepare_swagger();
        let ghost prepared = app;
        match app.install_generated_routes() {
            Ok(()) => {},
            Err(error) => {
                return Err(error);
            },
        }
        let ghost routes = app.routes();
        let mut names: Vec<Option<Arc<Vec<String>>>> = Vec::new();
        let mut i: usize = 0;
        while i < app.metadata.len()
            invariant
                i <= app.metadata@.len(),
                routes == app.routes(),
                names@.len() == i,
                forall|j: int|
                    0 <= j < i ==> plan::optional_names(#[trigger] names@[j])
                        == routes[j].capture_names,
            decreases app.metadata@.len() - i,
        {
            assert(routes[i as int] == app.metadata@[i as int]@);
            names.push(
                match &app.metadata[i].capture_names {
                    Some(names) => Some(share(names)),
                    None => None,
                },
            );
            i += 1;
        }
        let ghost installed = app;
        let runtime = AppRuntime {
            state: app.state,
            plans: app.plans,
            capture_names: names,
            static_routes: app.static_routes,
            dynamic_routes: app.dynamic_routes,
            routes: Ghost(routes),
        };
        proof {
            assert forall|i: int| 0 <= i < runtime.plans@.len() implies plan::plan_serves(
                #[trigger] runtime.plans@[i],
                routes[i],
            ) by {
                assert(plan::plan_fits(
                    installed.plans@[i],
                    installed.metadata@[i]@,
                    installed.max_body_size,
                ));
            }
        }
        Ok(runtime)
    }
}

/// The routes of an application that took at most one route more.
proof fn lemma_extended_routes<S, H>(
    before: &App<S, H>,
    after: &App<S, H>,
    added: Seq<plan::RouteView>,
)
    requires
        added.len() <= 1,
        after.metadata@.len() == before.metadata@.len() + added.len(),
        after.metadata@.take(before.metadata@.len() as int) == before.metadata@,
        added.len() == 1 ==> after.metadata@[before.metadata@.len() as int]@ == added[0],
    ensures
        after.routes() == before.routes() + added,
{
    let count = before.metadata@.len() as int;
    assert forall|i: int| 0 <= i < count implies after.metadata@[i] == before.metadata@[i] by {
        assert(after.metadata@.take(count)[i] == after.metadata@[i]);
    }
    assert(after.routes() =~= before.routes() + added);
}

impl<S, H> App<S, H> {
    /// Whether a generated document can be served at a path.
    fn generated_fits(&self, path: &str) -> (r: bool)
        requires
            self.wf(),
            path::valid_template(path@),
        ensures
            r == generated_problem(self.static_table(), path@) is None,
    {
        let segments = parse_template(path);
        if !all_static(segments.as_slice()) {
            return false;
        }
        match self.static_routes.get(path) {
            Some(set) => set.route(&Method::GET).is_none(),
            None => true,
        }
    }

    /// Whether the paths of the generated documents are well formed, as far as they are
    /// looked at, and their routes can be numbered.
    pub fn check_build(&self) -> (r: bool)
        requires
            self.wf(),
        ensures
            r == self.can_build(),
    {
        if self.route_error.is_some() {
            return true;
        }
        let mut count: usize = 0;
        let mut document_fits = true;
        if let Some(config) = &self.openapi_config {
            if !check_template(config.path.as_str()) {
                return false;
            }
            document_fits = self.generated_fits(config.path.as_str());
            count += 1;
        }
        if let Some(config) = &self.swagger_config {
            if document_fits && !check_template(config.path.as_str()) {
                return false;
            }
            count += 1;
        }
        self.plans.len() <= u32::MAX as usize - count
    }

    /// What the router finds for a request.
    pub open spec fn routing(&self, method: Seq<char>, path: Seq<char>) -> dispatch::RoutingView {
        dispatch::routing_of(self.static_table(), self.dynamic_routes@, method, path)
    }

    /// Whether a request is served by a raw handler.
    pub open spec fn needs_incoming(&self, method: Seq<char>, path: Seq<char>) -> bool {
        self.routing(method, path) matches dispatch::RoutingView::Matched(index, _)
            && self.plans@[index].handler is Raw
    }

    /// What is done with a request whose body was read already.
    pub open spec fn handled<B>(
        &self,
        method: Seq<char>,
        path: Seq<char>,
        body_length: int,
    ) -> dispatch::DispatchView<H, B> {
        match self.routing(method, path) {
            dispatch::RoutingView::Matched(index, found) => dispatch::collected_of(
                self.plans@[index],
                self.routes()[index].capture_names,
                found,
                encode_utf8(path::normal_request_path(path)),
                body_length,
                method == "HEAD"@,
            ),
            routing => dispatch::DispatchView::Ready(dispatch::refusal(routing)),
        }
    }

    /// The response that a generated document gives at a path.
    pub open spec fn generated_view<B>(&self, normal: Seq<char>) -> Option<
        response::ResponseView<B>,
    > {
        if self.openapi_config matches Some(config) && config.path@ == normal {
            Some(response::json_response(200, self.document_bytes()))
        } else if self.swagger_config matches Some(config) && config.path@ == normal {
            Some(response::text_response(200, self.swagger_page()))
        } else {
            None
        }
    }

    /// Whether a generated document stands at a path.
    pub open spec fn at_generated(&self, normal: Seq<char>) -> bool {
        ||| self.openapi_config matches Some(config) && config.path@ == normal
        ||| self.swagger_config matches Some(config) && config.path@ == normal
    }

    /// The routes of a path at which a generated document stands. The route of the document has
    /// the first number that is free.
    pub open spec fn generated_routes(&self, normal: Seq<char>) -> Map<int, int> {
        registry::routes_in(self.static_table(), normal).insert(
            method::method_slot_of("GET"@)->0,
            self.plans@.len() as int,
        )
    }

    /// What the router finds for a request when the generated documents are served as well.
    pub open spec fn full_routing(
        &self,
        method: Seq<char>,
        path: Seq<char>,
    ) -> dispatch::RoutingView {
        let normal = path::normal_request_path(path);
        if self.at_generated(normal) {
            dispatch::resolved(self.generated_routes(normal), method, None)
        } else {
            self.routing(method, path)
        }
    }

    /// Whether a request is served by a raw handler when the generated documents are served as
    /// well.
    pub open spec fn answer_needs_incoming(&self, method: Seq<char>, path: Seq<char>) -> bool {
        self.full_routing(method, path) matches dispatch::RoutingView::Matched(index, _) && index
            < self.plans@.len() && self.plans@[index].handler is Raw
    }

    /// What is done with a request whose body was read already, without a build. The generated
    /// documents answer `GET` at their paths, and `HEAD` where it has no route of its own.
    pub open spec fn answered<B>(
        &self,
        method: Seq<char>,
        path: Seq<char>,
        body_length: int,
    ) -> dispatch::DispatchView<H, B> {
        let normal = path::normal_request_path(path);
        match self.full_routing(method, path) {
            dispatch::RoutingView::Matched(index, found) => if index < self.plans@.len() {
                dispatch::collected_of(
                    self.plans@[index],
                    self.routes()[index].capture_names,
                    found,
                    encode_utf8(normal),
                    body_length,
                    method == "HEAD"@,
                )
            } else {
                dispatch::DispatchView::Ready(
                    response::answer(method == "HEAD"@, self.generated_view(normal)->0),
                )
            },
            routing => dispatch::DispatchView::Ready(dispatch::refusal(routing)),
        }
    }

    /// Whether a request is served by a raw handler, which a body that was read already cannot
    /// be handed to.
    pub fn check_incoming(&self, method: &Method, path: &str) -> (r: bool)
        requires
            self.wf(),
            path.spec_bytes().len() <= u32::MAX,
        ensures
            r == self.needs_incoming(method@, path@),
    {
        proof {
            registry::lemma_matched(
                self.static_table(),
                self.dynamic_routes@,
                self.routes(),
                method@,
                path@,
            );
        }
        match route_request(&self.static_routes, &self.dynamic_routes, method, path) {
            Routing::Matched(index, _) => matches!(
                self.plans[index.index()].handler,
                HandlerKind::Raw(_)
            ),
            _ => false,
        }
    }

    /// Calls the handler of a route once the body of its request was collected.
    fn call_route<B>(
        &self,
        index: RouteId,
        captures: Captures,
        path: &str,
        body_length: usize,
        is_head: bool,
    ) -> (r: PreparedDispatch<'_, H, B>)
        requires
            self.wf(),
            index.0 < self.plans@.len(),
            !(self.plans@[index.0 as int].handler is Raw),
            captures.fit(encode_utf8(path::normal_request_path(path@))),
        ensures
            r@ == dispatch::collected_of::<H, B>(
                self.plans@[index.0 as int],
                self.routes()[index.0 as int].capture_names,
                captures.found(),
                encode_utf8(path::normal_request_path(path@)),
                body_length as int,
                is_head,
            ),
            r.fits(path@),
    {
        assert(plan::plan_fits(
            self.plans@[index.0 as int],
            self.metadata@[index.0 as int]@,
            self.max_body_size,
        ));
        assert(self.routes()[index.0 as int] == self.metadata@[index.0 as int]@);
        handle_matched(
            &self.plans[index.index()],
            &self.metadata[index.index()].capture_names,
            captures,
            path,
            body_length,
            is_head,
        )
    }

    /// What the routes do with a request whose body was read already.
    pub fn handle<B>(&self, method: &Method, path: &str, body_length: usize) -> (r:
        PreparedDispatch<'_, H, B>)
        requires
            self.wf(),
            path.spec_bytes().len() <= u32::MAX,
            !self.needs_incoming(method@, path@),
        ensures
            r@ == self.handled::<B>(method@, path@, body_length as int),
            r.fits(path@),
    {
        let is_head = method.same(&Method::HEAD);
        proof {
            registry::lemma_matched(
                self.static_table(),
                self.dynamic_routes@,
                self.routes(),
                method@,
                path@,
            );
        }
        match route_request(&self.static_routes, &self.dynamic_routes, method, path) {
            Routing::Matched(index, captures) => self.call_route(
                index,
                captures,
                path,
                body_length,
                is_head,
            ),
            routing => PreparedDispatch::Ready(refuse(&routing)),
        }
    }

    /// Whether a generated document stands at a path.
    fn stands_generated(&self, normal: &str) -> (r: bool)
        ensures
            r == self.at_generated(normal@),
    {
        let at_document = match &self.openapi_config {
            Some(config) => str_equal(config.path.as_str(), normal),
            None => false,
        };
        let at_page = match &self.swagger_config {
            Some(config) => str_equal(config.path.as_str(), normal),
            None => false,
        };
        at_document || at_page
    }

    /// What the router finds at a path at which a generated document stands, and nothing where
    /// the document itself is the answer.
    fn route_generated(&self, method: &Method, normal: &str) -> (r: Option<Routing>)
        requires
            self.wf(),
        ensures
            match r {
                Some(routing) => {
                    &&& routing@ == dispatch::resolved(
                        self.generated_routes(normal@),
                        method@,
                        None,
                    )
                    &&& routing.sendable()
                    &&& routing matches Routing::Matched(index, captures) ==> index.0
                        < self.plans@.len() && captures is Fixed
                },
                None => dispatch::resolved(self.generated_routes(normal@), method@, None)
                    == dispatch::RoutingView::Matched(self.plans@.len() as int, None),
            },
    {
        let mut set = match self.static_routes.get(normal) {
            Some(set) => *set,
            None => RouteSet::default(),
        };
        let ghost own = set@;
        assert(own == registry::routes_in(self.static_table(), normal@));
        proof {
            method::lemma_slots();
            lemma_other_number(own, self.plans@.len() as int, 0, method@);
        }
        if method.same(&Method::GET) || (method.same(&Method::HEAD) && set.route(
            &Method::HEAD,
        ).is_none()) {
            return None;
        }
        set.remove(&Method::GET);
        set.insert(Method::GET, 0);
        proof {
            let get = method::method_slot_of("GET"@)->0;
            assert(set@ =~= own.insert(get, 0));
            dispatch::lemma_allow_value(set@);
            if let Some(slot) = method::method_slot_of(method@) {
                if own.contains_key(slot) {
                    assert(registry::static_home(self.routes(), own[slot], normal@, slot));
                }
            }
        }
        Some(
            match resolve_route_set(method, &set) {
                Ok(id) => Routing::Matched(id, Captures::Fixed),
                Err(RouteFailure::Options(allow)) => Routing::Options(allow),
                Err(RouteFailure::MethodNotAllowed(allow)) => Routing::MethodNotAllowed(allow),
            },
        )
    }

    /// Whether a request whose body was read already can be answered without a build: no raw
    /// handler serves it.
    pub fn check_answer(&self, method: &Method, path: &str) -> (r: bool)
        requires
            self.wf(),
            path.spec_bytes().len() <= u32::MAX,
        ensures
            r == !self.answer_needs_incoming(method@, path@),
    {
        let normal = normalize_request_path(path);
        if self.stands_generated(normal) {
            match self.route_generated(method, normal) {
                Some(Routing::Matched(index, _)) => !matches!(
                    self.plans[index.index()].handler,
                    HandlerKind::Raw(_)
                ),
                _ => true,
            }
        } else {
            proof {
                registry::lemma_matched(
                    self.static_table(),
                    self.dynamic_routes@,
                    self.routes(),
                    method@,
                    path@,
                );
            }
            !self.check_incoming(method, path)
        }
    }

    /// Sends a generated document.
    fn send_generated<B>(&self, normal: &str, is_head: bool) -> (r: HttpResponse<B>)
        requires
            self.wf(),
            self.at_generated(normal@),
            self.openapi_bytes is Some == self.openapi_config is Some,
            self.swagger_bytes is Some == self.swagger_config is Some,
        ensures
            r@ == response::answer(is_head, self.generated_view::<B>(normal@)->0),
    {
        let at_document = match &self.openapi_config {
            Some(config) => str_equal(config.path.as_str(), normal),
            None => false,
        };
        if at_document {
            if let Some(bytes) = &self.openapi_bytes {
                return maybe_head_flag(
                    is_head,
                    response_json_bytes(StatusCode::ok(), clone_bytes(bytes)),
                );
            }
        }
        let bytes = match &self.swagger_bytes {
            Some(bytes) => clone_bytes(bytes),
            None => empty_bytes(),
        };
        maybe_head_flag(is_head, response_text(StatusCode::ok(), bytes))
    }

    /// What is done with a request whose body was read already, without a build. The generated
    /// documents are written where they are missing.
    pub fn answer<B>(&mut self, method: &Method, path: &str, body_length: usize) -> (r:
        PreparedDispatch<'_, H, B>)
        requires
            old(self).wf(),
            path.spec_bytes().len() <= u32::MAX,
            !old(self).answer_needs_incoming(method@, path@),
        ensures
            r@ == old(self).answered::<B>(method@, path@, body_length as int),
            r.fits(path@),
            final(self).wf(),
            final(self).has_documents_of(old(self)),
    {
        self.prepare_openapi();
        self.prepare_swagger();
        let normal = normalize_request_path(path);
        if !self.stands_generated(normal) {
            proof {
                registry::lemma_matched(
                    self.static_table(),
                    self.dynamic_routes@,
                    self.routes(),
                    method@,
                    path@,
                );
            }
            return self.handle(method, path, body_length);
        }
        let is_head = method.same(&Method::HEAD);
        match self.route_generated(method, normal) {
            Some(Routing::Matched(index, captures)) => self.call_route(
                index,
                captures,
                path,
                body_length,
                is_head,
            ),
            Some(routing) => PreparedDispatch::Ready(refuse(&routing)),
            None => PreparedDispatch::Ready(self.send_generated(normal, is_head)),
        }
    }

    /// Whether an application is another with its generated documents written.
    pub open spec fn has_documents_of(&self, before: &Self) -> bool {
        &&& *self == (App {
            openapi_bytes: self.openapi_bytes,
            swagger_bytes: self.swagger_bytes,
            ..*before
        })
        &&& self.openapi_bytes is Some == before.openapi_config is Some
        &&& self.swagger_bytes is Some == before.swagger_config is Some
    }

    /// What is done with a request whose body was read already, without a build. A URI that
    /// cannot be parsed is refused, and so is a request that a raw handler serves.
    pub fn oneshot<B>(&mut self, method: &Method, uri: &str, body_length: usize) -> (r: Result<
        PreparedDispatch<'_, H, B>,
        OneshotError,
    >)
        requires
            old(self).wf(),
        ensures
            final(self).wf(),
            match (r, uri::uri_path(uri@)) {
                (Err(OneshotError::InvalidUri), None) => *final(self) == *old(self),
                (Err(OneshotError::NeedsIncoming), Some(path)) => {
                    &&& old(self).answer_needs_incoming(method@, path)
                    &&& *final(self) == *old(self)
                },
                (Ok(dispatch), Some(path)) => {
                    &&& !old(self).answer_needs_incoming(method@, path)
                    &&& dispatch@ == old(self).answered::<B>(method@, path, body_length as int)
                    &&& dispatch.fits(path)
                    &&& final(self).has_documents_of(old(self))
                },
                _ => false,
            },
    {
        let path = match parse_uri_path(uri) {
            Some(path) => path,
            None => {
                return Err(OneshotError::InvalidUri);
            },
        };
        if !self.check_answer(method, path.as_str()) {
            return Err(OneshotError::NeedsIncoming);
        }
        Ok(self.answer(method, path.as_str(), body_length))
    }
}

/// The number of the route of `GET` matters to that route alone.
pub proof fn lemma_other_number(own: Map<int, int>, a: int, b: int, method: Seq<char>)
    ensures
        ({
            let get = method::method_slot_of("GET"@)->0;
            let head = method::method_slot_of("HEAD"@)->0;
            &&& router::allow_header(own.insert(get, a)) == router::allow_header(
                own.insert(get, b),
            )
            &&& if method == "GET"@ || method == "HEAD"@ && !own.contains_key(head) {
                &&& router::serving_route(own.insert(get, a), method) == Some(a)
                &&& router::serving_route(own.insert(get, b), method) == Some(b)
            } else {
                &&& router::serving_route(own.insert(get, a), method) == router::route_of(
                    own,
                    method,
                )
                &&& router::serving_route(own.insert(get, b), method) == router::route_of(
                    own,
                    method,
                )
            }
        }),
{
    method::lemma_slots();
    let get = method::method_slot_of("GET"@)->0;
    router::lemma_allowed_domain(own.insert(get, a), own.insert(get, b), 7);
}

} // verus!
