//! The builder: routes are registered in an application.

use crate::json;
use crate::method;
use crate::method::{method_slot, Method};
use crate::openapi;
use crate::openapi::{BuildError, OpenApiConfig, SwaggerConfig};
use crate::params;
use crate::params::MAX_CAPTURE_PARAMS;
use crate::path;
use crate::path::{check_template, normalize_path, parse_template, Segment};
use crate::payload;
use crate::plan;
use crate::plan::{
    all_static, capture_names, BodyMode, CaptureMode, Endpoint, HandlerKind, Operation,
    RouteMetadata, RoutePlan,
};
use crate::registry;
use crate::response::StaticResponse;
use crate::router;
use crate::router::RouteSet;
use crate::schema;
use crate::schema::OpenApiRequest;
use crate::status::StatusCode;
use crate::text::str_equal;
use crate::trie;
use crate::trie::DynamicRouteTrie;
use bytes::Bytes;
use serde_json::Value;
use std::sync::Arc;
use vstd::hash_map::StringHashMap;
use vstd::prelude::*;
use vstd::string::*;
use vstd::utf8::*;

verus! {

/// The upper bound of request bodies that are collected, unless another is set.
pub const DEFAULT_MAX_BODY_SIZE: usize = 1048576;

/// The routes under construction. `S` is the state of the application, and `H` its handlers.
pub struct App<S, H> {
    pub state: Arc<S>,
    pub max_body_size: u32,
    pub plans: Vec<RoutePlan<H>>,
    pub metadata: Vec<RouteMetadata>,
    pub static_routes: StringHashMap<RouteSet>,
    pub dynamic_routes: DynamicRouteTrie,
    pub last_route: Option<usize>,
    pub openapi_config: Option<OpenApiConfig>,
    pub openapi_bytes: Option<Bytes>,
    pub route_error: Option<BuildError>,
    pub swagger_config: Option<SwaggerConfig>,
    pub swagger_bytes: Option<Bytes>,
}

/// The routes of a static route map.
pub open spec fn static_table_of(routes: Map<Seq<char>, RouteSet>) -> registry::StaticTable {
    routes.map_values(|set: RouteSet| set@)
}

/// Whether no two routes have the same operation id.
pub open spec fn unique_operation_ids(routes: Seq<plan::RouteView>) -> bool {
    forall|i: int, j: int|
        0 <= i < j < routes.len() && (#[trigger] routes[i]).operation.operation_id is Some
            ==> routes[i].operation.operation_id != (
        #[trigger] routes[j]).operation.operation_id
}

/// Why a route cannot be registered.
#[derive(Clone, Copy, Debug, PartialEq, Eq, Structural)]
pub enum RegistrationError {
    DuplicateRoute,
    InvalidTemplate,
    StaticCaptures,
    TooManyNodes,
    UnsupportedMethod,
    TooManyRoutes,
    DuplicatePattern,
}

impl RegistrationError {
    /// The message of the error.
    pub fn message(&self) -> (r: &'static str)
        ensures
            r@ == match self {
                RegistrationError::DuplicateRoute => "duplicate route"@,
                RegistrationError::InvalidTemplate => "invalid route template"@,
                RegistrationError::StaticCaptures =>
                    "static response routes cannot contain captures"@,
                RegistrationError::TooManyNodes => "dynamic trie exceeds u32::MAX nodes"@,
                RegistrationError::UnsupportedMethod => "unsupported route method"@,
                RegistrationError::TooManyRoutes => "route count exceeds u32::MAX"@,
                RegistrationError::DuplicatePattern => "duplicate route pattern and method"@,
            },
    {
        match self {
            RegistrationError::DuplicateRoute => "duplicate route",
            RegistrationError::InvalidTemplate => "invalid route template",
            RegistrationError::StaticCaptures => "static response routes cannot contain captures",
            RegistrationError::TooManyNodes => "dynamic trie exceeds u32::MAX nodes",
            RegistrationError::UnsupportedMethod => "unsupported route method",
            RegistrationError::TooManyRoutes => "route count exceeds u32::MAX",
            RegistrationError::DuplicatePattern => "duplicate route pattern and method",
        }
    }
}

/// A route that the application registered.
pub open spec fn new_route(
    method: Seq<char>,
    template: Seq<char>,
    capture_names: Option<Seq<Seq<char>>>,
    operation: plan::OperationView,
) -> plan::RouteView {
    plan::RouteView {
        builtin: false,
        method,
        template,
        segments: path::template_segments(template),
        capture_names,
        operation,
    }
}

/// The number of captures in a template.
pub open spec fn template_captures(template: Seq<char>) -> nat {
    trie::capture_count(trie::pattern_of(path::template_segments(template)))
}

impl<S, H> App<S, H> {
    /// The routes of templates without captures.
    pub open spec fn static_table(&self) -> registry::StaticTable {
        static_table_of(self.static_routes@)
    }

    /// The routes in the order of their registration.
    pub open spec fn routes(&self) -> Seq<plan::RouteView> {
        plan::route_views(self.metadata@)
    }

    /// Whether the routes are in order: the tables hold exactly the routes, every route has a
    /// plan that fits it, and operation ids are unique.
    pub open spec fn routes_ok(&self) -> bool {
        &&& self.max_body_size > 0
        &&& self.plans@.len() == self.metadata@.len()
        &&& self.dynamic_routes.wf()
        &&& forall|template: Seq<char>|
            self.static_routes@.contains_key(template) ==> (
            #[trigger] self.static_routes@[template]).wf()
        &&& registry::registry_ok(self.static_table(), self.dynamic_routes@, self.routes())
        &&& forall|i: int|
            0 <= i < self.plans@.len() ==> plan::plan_fits(
                #[trigger] self.plans@[i],
                self.metadata@[i]@,
                self.max_body_size,
            )
        &&& unique_operation_ids(self.routes())
        &&& self.last_route matches Some(index) ==> index < self.plans@.len()
    }

    /// The bytes of the OpenAPI document.
    pub open spec fn document_bytes(&self) -> Seq<u8> {
        encode_utf8(
            json::json_text(
                openapi::document_tree(self.routes(), openapi::config_of(self.openapi_config)),
            ),
        )
    }

    /// The bytes of the Swagger page.
    pub open spec fn swagger_page(&self) -> Seq<u8> {
        encode_utf8(
            openapi::swagger_text(
                match self.openapi_config {
                    Some(config) => Some(config.path@),
                    None => None,
                },
            ),
        )
    }

    /// Whether the documents that are kept are those of the application as it is.
    pub open spec fn cache_ok(&self) -> bool {
        &&& self.openapi_bytes matches Some(bytes) ==> self.openapi_config is Some
            && payload::bytes_contents(bytes) == self.document_bytes()
        &&& self.swagger_bytes matches Some(bytes) ==> self.swagger_config is Some
            && payload::bytes_contents(bytes) == self.swagger_page()
    }

    /// Whether the application is in order.
    pub open spec fn wf(&self) -> bool {
        self.routes_ok() && self.cache_ok()
    }

    /// Whether a route has the given method and template.
    pub open spec fn has_route(&self, method: Seq<char>, template: Seq<char>) -> bool {
        exists|i: int|
            0 <= i < self.routes().len() && (#[trigger] self.routes()[i]).method == method
                && self.routes()[i].template == template
    }

    /// Why the tables do not take a route of a method and a template.
    pub open spec fn table_problem(&self, method: Seq<char>, template: Seq<char>) -> Option<
        RegistrationError,
    > {
        let segments = path::template_segments(template);
        let pattern = trie::pattern_of(segments);
        if !plan::is_static(segments) && !self.dynamic_routes.room_for(pattern) {
            Some(RegistrationError::TooManyNodes)
        } else if method::method_slot_of(method) is None {
            Some(RegistrationError::UnsupportedMethod)
        } else if self.plans@.len() >= u32::MAX {
            Some(RegistrationError::TooManyRoutes)
        } else if !plan::is_static(segments) && router::route_of(
            trie::routes_at(self.dynamic_routes@, pattern),
            method,
        ) is Some {
            Some(RegistrationError::DuplicatePattern)
        } else {
            None
        }
    }

    /// Why a handler cannot be registered for a method and a path. A template with too many
    /// captures is no reason: it is recorded, and the build fails.
    pub open spec fn route_problem(&self, method: Seq<char>, path: Seq<char>) -> Option<
        RegistrationError,
    > {
        let template = path::normal_path(path);
        if self.has_route(method, template) {
            Some(RegistrationError::DuplicateRoute)
        } else if !path::valid_template(template) {
            Some(RegistrationError::InvalidTemplate)
        } else if template_captures(template) > MAX_CAPTURE_PARAMS {
            None
        } else {
            self.table_problem(method, template)
        }
    }

    /// Why a prepared response cannot be registered for a path.
    pub open spec fn static_problem(&self, path: Seq<char>) -> Option<RegistrationError> {
        let template = path::normal_path(path);
        if !path::valid_template(template) {
            Some(RegistrationError::InvalidTemplate)
        } else if !plan::is_static(path::template_segments(template)) {
            Some(RegistrationError::StaticCaptures)
        } else if self.has_route("GET"@, template) {
            Some(RegistrationError::DuplicateRoute)
        } else {
            self.table_problem("GET"@, template)
        }
    }

    /// Whether `self` comes from `before` by adding a route to the tables and the lists.
    pub open spec fn extends(
        &self,
        before: &Self,
        plan: RoutePlan<H>,
        route: plan::RouteView,
    ) -> bool {
        let index = before.plans@.len() as int;
        &&& self.routes_ok()
        &&& self.plans@ == before.plans@.push(plan)
        &&& self.metadata@.len() == index + 1
        &&& self.metadata@.take(index) == before.metadata@
        &&& self.metadata@[index]@ == route
        &&& self.static_table() == registry::statics_with(before.static_table(), route, index)
        &&& self.dynamic_routes@ == registry::dynamics_with(before.dynamic_routes@, route, index)
        &&& self.dynamic_routes.nodes@.len() <= before.dynamic_routes.nodes@.len()
            + route.segments.len()
        &&& self.same_settings(before)
    }

    /// Whether nothing but the routes, the last of them and the cached documents differs.
    pub open spec fn same_settings(&self, before: &Self) -> bool {
        &&& self.state == before.state
        &&& self.max_body_size == before.max_body_size
        &&& self.openapi_config == before.openapi_config
        &&& self.swagger_config == before.swagger_config
        &&& self.route_error == before.route_error
    }

    /// Whether the routes are the same.
    pub open spec fn same_routes(&self, before: &Self) -> bool {
        &&& self.plans == before.plans
        &&& self.metadata == before.metadata
        &&& self.static_routes == before.static_routes
        &&& self.dynamic_routes == before.dynamic_routes
        &&& self.last_route == before.last_route
    }

    /// Whether a route was registered by the application: it is the last one, and the cached
    /// document is void.
    pub open spec fn registers(
        &self,
        before: &Self,
        plan: RoutePlan<H>,
        route: plan::RouteView,
    ) -> bool {
        &&& self.extends(before, plan, route)
        &&& self.wf()
        &&& self.last_route == Some(before.plans@.len() as usize)
        &&& self.openapi_bytes is None
        &&& self.swagger_bytes == before.swagger_bytes
    }

    /// Whether a template with too many captures was recorded, and nothing else happened. The
    /// first such template is kept.
    pub open spec fn records_limit(&self, before: &Self, template: Seq<char>) -> bool {
        &&& self.wf()
        &&& self.same_routes(before)
        &&& self.state == before.state
        &&& self.max_body_size == before.max_body_size
        &&& self.openapi_config == before.openapi_config
        &&& self.swagger_config == before.swagger_config
        &&& self.openapi_bytes == before.openapi_bytes
        &&& self.swagger_bytes == before.swagger_bytes
        &&& match before.route_error {
            Some(error) => self.route_error == Some(error),
            None => self.route_error matches Some(error) && error@
                == openapi::BuildErrorView::TooManyCaptures(
                template,
                template_captures(template) as int,
                MAX_CAPTURE_PARAMS as int,
            ),
        }
    }

    /// Whether an endpoint was registered for a method and a path, or its template recorded
    /// as one with too many captures.
    pub open spec fn routes_endpoint(
        &self,
        before: &Self,
        method: Seq<char>,
        path: Seq<char>,
        endpoint: Endpoint<H>,
    ) -> bool {
        let template = path::normal_path(path);
        let segments = path::template_segments(template);
        if template_captures(template) > MAX_CAPTURE_PARAMS {
            self.records_limit(before, template)
        } else {
            self.registers(
                before,
                plan::endpoint_plan(endpoint, segments, before.max_body_size),
                new_route(
                    method,
                    template,
                    if endpoint.needs.params {
                        Some(plan::capture_names_of(segments))
                    } else {
                        None
                    },
                    plan::plain_operation(
                        endpoint.response_status@,
                        schema::optional_tree(endpoint.response_schema),
                        endpoint.request@,
                    ),
                ),
            )
        }
    }

    /// Whether a raw handler was registered for a method and a path, or its template recorded
    /// as one with too many captures.
    pub open spec fn routes_raw(
        &self,
        before: &Self,
        method: Seq<char>,
        path: Seq<char>,
        handler: H,
        status: u16,
        schema: Option<json::JsonTree>,
    ) -> bool {
        let template = path::normal_path(path);
        if template_captures(template) > MAX_CAPTURE_PARAMS {
            self.records_limit(before, template)
        } else {
            self.registers(
                before,
                plan::raw_plan(handler),
                new_route(
                    method,
                    template,
                    None,
                    plan::plain_operation(status, schema, schema::empty_request()),
                ),
            )
        }
    }

    /// Whether a prepared response was registered for a path.
    pub open spec fn routes_static(
        &self,
        before: &Self,
        path: Seq<char>,
        response: StaticResponse,
    ) -> bool {
        self.registers(
            before,
            plan::static_plan(response),
            new_route(
                "GET"@,
                path::normal_path(path),
                None,
                plan::plain_operation(200, None, schema::empty_request()),
            ),
        )
    }

    /// Adds a route to the tables and the lists.
    pub(crate) fn add_to_tables(&mut self, plan: RoutePlan<H>, route: RouteMetadata)
        requires
            old(self).routes_ok(),
            registry::route_ok(route@),
            method::method_slot_of(route@.method) is Some,
            registry::entry_of(
                old(self).static_table(),
                old(self).dynamic_routes@,
                route@,
            ) is None,
            plan::is_static(route@.segments) || old(self).dynamic_routes.room_for(
                trie::pattern_of(route@.segments),
            ),
            old(self).plans@.len() < u32::MAX,
            plan::plan_fits(plan, route@, old(self).max_body_size),
            route@.operation.operation_id is None,
        ensures
            final(self).extends(old(self), plan, route@),
            final(self).last_route == old(self).last_route,
            final(self).openapi_bytes == old(self).openapi_bytes,
            final(self).swagger_bytes == old(self).swagger_bytes,
    {
        let index: usize = self.plans.len();
        let ghost before = *self;
        let ghost view = route@;
        let ghost slot = method::method_slot_of(view.method)->0;
        if all_static(route.segments.as_slice()) {
            let mut set = match self.static_routes.get(route.template.as_str()) {
                Some(set) => *set,
                None => RouteSet::default(),
            };
            assert(set@ == registry::routes_in(before.static_table(), view.template));
            set.insert(route.method.clone(), index);
            self.static_routes.insert(route.template.clone(), set);
            assert(self.static_table() =~= registry::statics_with(
                before.static_table(),
                view,
                index as int,
            ));
        } else {
            self.dynamic_routes.insert(route.segments.as_slice(), route.method.clone(), index);
        }
        self.plans.push(plan);
        self.metadata.push(route);
        proof {
            registry::lemma_added(
                before.static_table(),
                before.dynamic_routes@,
                before.routes(),
                view,
            );
            assert(self.routes() =~= before.routes().push(view));
            assert(self.metadata@.take(index as int) =~= before.metadata@);
        }
    }

    /// Whether a route has the given method and template.
    fn find_route(&self, method: &Method, template: &str) -> (r: bool)
        ensures
            r == self.has_route(method@, template@),
    {
        let mut i: usize = 0;
        while i < self.metadata.len()
            invariant
                i <= self.metadata@.len(),
                forall|j: int|
                    0 <= j < i ==> (#[trigger] self.routes()[j]).method != method@
                        || self.routes()[j].template != template@,
            decreases self.metadata@.len() - i,
        {
            let route = &self.metadata[i];
            assert(self.routes()[i as int] == route@);
            if route.method.same(method) && str_equal(route.template.as_str(), template) {
                return true;
            }
            i += 1;
        }
        false
    }

    /// Checks that the tables take a route.
    fn check_tables(&self, method: &Method, template: &str, segments: &Vec<Segment>) -> (r: Result<
        (),
        RegistrationError,
    >)
        requires
            self.wf(),
            path::segment_views(segments@) == path::template_segments(template@),
        ensures
            match r {
                Ok(()) => self.table_problem(method@, template@) is None,
                Err(error) => self.table_problem(method@, template@) == Some(error),
            },
    {
        let fixed = all_static(segments.as_slice());
        if !fixed && !self.dynamic_routes.has_room(segments.as_slice()) {
            return Err(RegistrationError::TooManyNodes);
        }
        if method_slot(method).is_none() {
            return Err(RegistrationError::UnsupportedMethod);
        }
        if self.plans.len() >= u32::MAX as usize {
            return Err(RegistrationError::TooManyRoutes);
        }
        if !fixed && self.dynamic_routes.has_method(segments.as_slice(), method) {
            return Err(RegistrationError::DuplicatePattern);
        }
        Ok(())
    }

    /// Checks that a handler can be registered for a method and a path.
    pub fn check_route(&self, method: &Method, path: &str) -> (r: Result<(), RegistrationError>)
        requires
            self.wf(),
        ensures
            match r {
                Ok(()) => self.route_problem(method@, path@) is None,
                Err(error) => self.route_problem(method@, path@) == Some(error),
            },
    {
        let template = normalize_path(path);
        if self.find_route(method, template.as_str()) {
            return Err(RegistrationError::DuplicateRoute);
        }
        if !check_template(template.as_str()) {
            return Err(RegistrationError::InvalidTemplate);
        }
        let segments = parse_template(template.as_str());
        if count_captures(segments.as_slice()) > MAX_CAPTURE_PARAMS {
            return Ok(());
        }
        self.check_tables(method, template.as_str(), &segments)
    }

    /// Checks that a prepared response can be registered for a path.
    pub fn check_static_route(&self, path: &str) -> (r: Result<(), RegistrationError>)
        requires
            self.wf(),
        ensures
            match r {
                Ok(()) => self.static_problem(path@) is None,
                Err(error) => self.static_problem(path@) == Some(error),
            },
    {
        let template = normalize_path(path);
        if !check_template(template.as_str()) {
            return Err(RegistrationError::InvalidTemplate);
        }
        let segments = parse_template(template.as_str());
        if !all_static(segments.as_slice()) {
            return Err(RegistrationError::StaticCaptures);
        }
        if self.find_route(&Method::GET, template.as_str()) {
            return Err(RegistrationError::DuplicateRoute);
        }
        self.check_tables(&Method::GET, template.as_str(), &segments)
    }
}

impl<S, H> App<S, H> {
    /// Records a template with too many captures, and tells whether it is one. The first that
    /// is recorded is kept.
    fn record_capture_limit_error(&mut self, template: &str, segments: &[Segment]) -> (r: bool)
        requires
            old(self).wf(),
            path::segment_views(segments@) == path::template_segments(template@),
        ensures
            r == (template_captures(template@) > MAX_CAPTURE_PARAMS),
            r ==> final(self).records_limit(old(self), template@),
            !r ==> *final(self) == *old(self),
    {
        let captures: usize = count_captures(segments);
        if captures <= MAX_CAPTURE_PARAMS {
            return false;
        }
        if self.route_error.is_none() {
            self.route_error = Some(
                BuildError::TooManyCaptures {
                    path: template.to_owned(),
                    captures,
                    max: MAX_CAPTURE_PARAMS,
                },
            );
        }
        true
    }

    /// Adds a route of the application, which becomes the last one.
    fn register(&mut self, plan: RoutePlan<H>, route: RouteMetadata)
        requires
            old(self).wf(),
            registry::route_ok(route@),
            old(self).table_problem(route@.method, route@.template) is None,
            !old(self).has_route(route@.method, route@.template),
            plan::plan_fits(plan, route@, old(self).max_body_size),
            route@.operation.operation_id is None,
        ensures
            final(self).registers(old(self), plan, route@),
    {
        let index: usize = self.plans.len();
        proof {
            if plan::is_static(route@.segments) {
                registry::lemma_static_free(
                    self.static_table(),
                    self.dynamic_routes@,
                    self.routes(),
                    route@,
                );
            }
        }
        self.add_to_tables(plan, route);
        self.openapi_bytes = None;
        self.last_route = Some(index);
    }

    /// Registers an endpoint for a method and a path.
    pub fn add_route(&mut self, method: Method, path: &str, endpoint: Endpoint<H>)
        requires
            endpoint.wf(),
            old(self).wf(),
            old(self).route_problem(method@, path@) is None,
        ensures
            final(self).routes_endpoint(old(self), method@, path@, endpoint),
    {
        let template = normalize_path(path);
        let segments = parse_template(template.as_str());
        let ghost views = path::segment_views(segments@);
        let ghost before = *self;
        if self.record_capture_limit_error(template.as_str(), segments.as_slice()) {
            return;
        }
        let Endpoint { handler, zero, needs, response_status, response_schema, request } = endpoint;
        let names = if needs.params {
            Some(Arc::new(capture_names(segments.as_slice())))
        } else {
            None
        };
        let capture_mode = if needs.params {
            CaptureMode::Materialized
        } else if !all_static(segments.as_slice()) {
            CaptureMode::Borrowed
        } else {
            CaptureMode::Absent
        };
        let handler = if zero {
            HandlerKind::Zero(handler)
        } else if !needs.capture {
            HandlerKind::TypedNoParams(handler)
        } else {
            HandlerKind::Typed(handler)
        };
        let plan = RoutePlan {
            handler,
            body_limit: if needs.body {
                self.max_body_size
            } else {
                0
            },
            capture_mode,
            body_mode: if needs.body {
                BodyMode::Buffered
            } else {
                BodyMode::Absent
            },
        };
        let route = RouteMetadata {
            builtin: false,
            method,
            template,
            segments,
            capture_names: names,
            operation: Operation::new(response_status, response_schema, request),
        };
        self.register(plan, route);
    }

    /// Registers a handler that is given the body as it comes in.
    pub fn add_raw_route(
        &mut self,
        method: Method,
        path: &str,
        handler: H,
        response_status: StatusCode,
        response_schema: Option<Value>,
    )
        requires
            old(self).wf(),
            old(self).route_problem(method@, path@) is None,
        ensures
            final(self).routes_raw(
                old(self),
                method@,
                path@,
                handler,
                response_status@,
                schema::optional_tree(response_schema),
            ),
    {
        let template = normalize_path(path);
        let segments = parse_template(template.as_str());
        if self.record_capture_limit_error(template.as_str(), segments.as_slice()) {
            return;
        }
        let plan = RoutePlan {
            handler: HandlerKind::Raw(handler),
            body_limit: 0,
            capture_mode: CaptureMode::Absent,
            body_mode: BodyMode::Incoming,
        };
        let route = RouteMetadata {
            builtin: false,
            method,
            template,
            segments,
            capture_names: None,
            operation: Operation::new(response_status, response_schema, OpenApiRequest::default()),
        };
        self.register(plan, route);
    }

    /// Registers a prepared response for `GET`.
    pub fn add_static_route(&mut self, path: &str, response: StaticResponse)
        requires
            old(self).wf(),
            response.wf(),
            old(self).static_problem(path@) is None,
        ensures
            final(self).routes_static(old(self), path@, response),
    {
        let template = normalize_path(path);
        let segments = parse_template(template.as_str());
        proof {
            plan::lemma_capture_names(path::segment_views(segments@));
        }
        let plan = RoutePlan {
            handler: HandlerKind::Static(Box::new(response)),
            body_limit: 0,
            capture_mode: CaptureMode::Absent,
            body_mode: BodyMode::Absent,
        };
        let route = RouteMetadata {
            builtin: false,
            method: Method::GET,
            template,
            segments,
            capture_names: None,
            operation: Operation::new(StatusCode::ok(), None, OpenApiRequest::default()),
        };
        self.register(plan, route);
    }

    /// Registers an endpoint for `GET`.
    pub fn get(&mut self, path: &str, endpoint: Endpoint<H>) -> (r: &mut Self)
        requires
            endpoint.wf(),
            old(self).wf(),
            old(self).route_problem("GET"@, path@) is None,
        ensures
            r.routes_endpoint(old(self), "GET"@, path@, endpoint),
            *final(self) == *final(r),
    {
        self.add_route(Method::GET, path, endpoint);
        self
    }

    /// Registers an endpoint for `HEAD`.
    pub fn head(&mut self, path: &str, endpoint: Endpoint<H>) -> (r: &mut Self)
        requires
            endpoint.wf(),
            old(self).wf(),
            old(self).route_problem("HEAD"@, path@) is None,
        ensures
            r.routes_endpoint(old(self), "HEAD"@, path@, endpoint),
            *final(self) == *final(r),
    {
        self.add_route(Method::HEAD, path, endpoint);
        self
    }

    /// Registers an endpoint for `POST`.
    pub fn post(&mut self, path: &str, endpoint: Endpoint<H>) -> (r: &mut Self)
        requires
            endpoint.wf(),
            old(self).wf(),
            old(self).route_problem("POST"@, path@) is None,
        ensures
            r.routes_endpoint(old(self), "POST"@, path@, endpoint),
            *final(self) == *final(r),
    {
        self.add_route(Method::POST, path, endpoint);
        self
    }

    /// Registers an endpoint for `PUT`.
    pub fn put(&mut self, path: &str, endpoint: Endpoint<H>) -> (r: &mut Self)
        requires
            endpoint.wf(),
            old(self).wf(),
            old(self).route_problem("PUT"@, path@) is None,
        ensures
            r.routes_endpoint(old(self), "PUT"@, path@, endpoint),
            *final(self) == *final(r),
    {
        self.add_route(Method::PUT, path, endpoint);
        self
    }

    /// Registers an endpoint for `PATCH`.
    pub fn patch(&mut self, path: &str, endpoint: Endpoint<H>) -> (r: &mut Self)
        requires
            endpoint.wf(),
            old(self).wf(),
            old(self).route_problem("PATCH"@, path@) is None,
        ensures
            r.routes_endpoint(old(self), "PATCH"@, path@, endpoint),
            *final(self) == *final(r),
    {
        self.add_route(Method::PATCH, path, endpoint);
        self
    }

    /// Registers an endpoint for `DELETE`.
    pub fn delete(&mut self, path: &str, endpoint: Endpoint<H>) -> (r: &mut Self)
        requires
            endpoint.wf(),
            old(self).wf(),
            old(self).route_problem("DELETE"@, path@) is None,
        ensures
            r.routes_endpoint(old(self), "DELETE"@, path@, endpoint),
            *final(self) == *final(r),
    {
        self.add_route(Method::DELETE, path, endpoint);
        self
    }

    /// Registers an endpoint for `OPTIONS`.
    pub fn options(&mut self, path: &str, endpoint: Endpoint<H>) -> (r: &mut Self)
        requires
            endpoint.wf(),
            old(self).wf(),
            old(self).route_problem("OPTIONS"@, path@) is None,
        ensures
            r.routes_endpoint(old(self), "OPTIONS"@, path@, endpoint),
            *final(self) == *final(r),
    {
        self.add_route(Method::OPTIONS, path, endpoint);
        self
    }

    /// Registers a handler that is given the body as it comes in. The body is neither
    /// collected nor limited.
    pub fn raw(
        &mut self,
        method: Method,
        path: &str,
        handler: H,
        response_status: StatusCode,
        response_schema: Option<Value>,
    ) -> (r: &mut Self)
        requires
            old(self).wf(),
            old(self).route_problem(method@, path@) is None,
        ensures
            r.routes_raw(
                old(self),
                method@,
                path@,
                handler,
                response_status@,
                schema::optional_tree(response_schema),
            ),
            *final(self) == *final(r),
    {
        self.add_raw_route(method, path, handler, response_status, response_schema);
        self
    }

    /// Registers a handler for `GET` that is given the body as it comes in.
    pub fn raw_get(
        &mut self,
        path: &str,
        handler: H,
        response_status: StatusCode,
        response_schema: Option<Value>,
    ) -> (r: &mut Self)
        requires
            old(self).wf(),
            old(self).route_problem("GET"@, path@) is None,
        ensures
            r.routes_raw(
                old(self),
                "GET"@,
                path@,
                handler,
                response_status@,
                schema::optional_tree(response_schema),
            ),
            *final(self) == *final(r),
    {
        self.raw(Method::GET, path, handler, response_status, response_schema)
    }

    /// Registers a text that is prepared once and answers `GET`.
    pub fn static_text(&mut self, path: &str, body: &'static str) -> (r: &mut Self)
        requires
            old(self).wf(),
            old(self).static_problem(path@) is None,
        ensures
            exists|response: StaticResponse| #[trigger]
                r.routes_static(old(self), path@, response) && response.wf() && (
                response matches StaticResponse::Text { body: bytes, .. }
                    && payload::bytes_contents(bytes) == encode_utf8(body@)),
            *final(self) == *final(r),
    {
        let response = StaticResponse::text(body);
        let ghost prepared = response;
        self.add_static_route(path, response);
        assert(self.routes_static(old(self), path@, prepared));
        self
    }

    /// Registers JSON bytes that are prepared by the application and answer `GET`.
    pub fn static_json(&mut self, path: &str, body: Bytes) -> (r: &mut Self)
        requires
            old(self).wf(),
            old(self).static_problem(path@) is None,
        ensures
            r.routes_static(old(self), path@, (StaticResponse::Json { body })),
            *final(self) == *final(r),
    {
        self.add_static_route(path, StaticResponse::json(body));
        self
    }
}

/// A limit for collected bodies as it is kept in a plan.
pub fn encode_body_limit(limit: usize) -> (r: u32)
    requires
        0 < limit <= u32::MAX,
    ensures
        r == limit,
{
    limit as u32
}

/// Whether an application has no routes yet.
pub open spec fn no_routes<S, H>(app: App<S, H>) -> bool {
    &&& app.wf()
    &&& app.plans@.len() == 0
    &&& app.static_table() == Map::<Seq<char>, Map<int, int>>::empty()
    &&& app.dynamic_routes@ == Map::<Seq<trie::PatternPart>, Map<int, int>>::empty()
    &&& app.dynamic_routes.nodes@.len() == 1
    &&& app.last_route is None
}

impl<S, H> App<S, H> {
    /// An application without routes.
    fn empty(
        state: Arc<S>,
        max_body_size: u32,
        openapi_config: Option<OpenApiConfig>,
        route_error: Option<BuildError>,
        swagger_config: Option<SwaggerConfig>,
    ) -> (r: Self)
        requires
            max_body_size > 0,
        ensures
            no_routes(r),
            r.state == state,
            r.max_body_size == max_body_size,
            r.openapi_config == openapi_config,
            r.openapi_bytes is None,
            r.route_error == route_error,
            r.swagger_config == swagger_config,
            r.swagger_bytes is None,
    {
        let app = App {
            state,
            max_body_size,
            plans: Vec::new(),
            metadata: Vec::new(),
            static_routes: StringHashMap::new(),
            dynamic_routes: DynamicRouteTrie::default(),
            last_route: None,
            openapi_config,
            openapi_bytes: None,
            route_error,
            swagger_config,
            swagger_bytes: None,
        };
        proof {
            assert(app.routes() =~= Seq::empty());
            assert(app.static_table() =~= Map::empty());
        }
        app
    }
}

impl<H> App<(), H> {
    /// An application without state and without routes.
    pub fn new() -> (r: Self)
        ensures
            no_routes(r),
            r.max_body_size == DEFAULT_MAX_BODY_SIZE,
            r.openapi_config is None,
            r.openapi_bytes is None,
            r.route_error is None,
            r.swagger_config is None,
            r.swagger_bytes is None,
    {
        Self::empty(Arc::new(()), encode_body_limit(DEFAULT_MAX_BODY_SIZE), None, None, None)
    }

    /// The application with a state, which is installed before any route.
    pub fn with_state<T, G>(self, state: T) -> (r: App<T, G>)
        requires
            self.wf(),
            self.plans@.len() == 0,
        ensures
            no_routes(r),
            *r.state == state,
            r.max_body_size == self.max_body_size,
            r.openapi_config == self.openapi_config,
            r.route_error == self.route_error,
            r.swagger_config == self.swagger_config,
            r.openapi_bytes == self.openapi_bytes,
            r.swagger_bytes == self.swagger_bytes,
    {
        let ghost before = self;
        let mut app = App::empty(
            Arc::new(state),
            self.max_body_size,
            self.openapi_config,
            self.route_error,
            self.swagger_config,
        );
        app.openapi_bytes = self.openapi_bytes;
        app.swagger_bytes = self.swagger_bytes;
        proof {
            assert(app.routes() =~= before.routes());
        }
        app
    }
}

impl<H> Default for App<(), H> {
    fn default() -> (r: Self)
        ensures
            no_routes(r),
            r.max_body_size == DEFAULT_MAX_BODY_SIZE,
            r.openapi_config is None,
            r.openapi_bytes is None,
            r.route_error is None,
            r.swagger_config is None,
            r.swagger_bytes is None,
    {
        Self::new()
    }
}

/// The number of captures among the segments of a template.
pub fn count_captures(segments: &[Segment]) -> (r: usize)
    ensures
        r == trie::capture_count(trie::pattern_of(path::segment_views(segments@))),
{
    proof {
        plan::lemma_capture_names(path::segment_views(segments@));
    }
    let names = capture_names(segments);
    assert(names@.len() == params::string_views(names@).len());
    names.len()
}

} // verus!
