//! Routes as they are registered: how they are served, and what is said of them.

use crate::extract::Needs;
use crate::json;
use crate::method::Method;
use crate::params;
use crate::path;
use crate::path::Segment;
use crate::response::StaticResponse;
use crate::schema;
use crate::schema::OpenApiRequest;
use crate::status::StatusCode;
use crate::trie;
use serde_json::Value;
use std::sync::Arc;
use vstd::prelude::*;

verus! {

/// How a route is served. `H` is a handler of the application.
pub enum HandlerKind<H> {
    /// A handler without arguments.
    Zero(H),
    /// A handler that reads the request but no captures.
    TypedNoParams(H),
    /// A handler that reads the request and the captures.
    Typed(H),
    /// A handler that is given the body as it comes in.
    Raw(H),
    /// A response that was prepared beforehand.
    Static(Box<StaticResponse>),
}

/// How the captures of a path are handed to the handler.
#[derive(Clone, Copy, Debug, PartialEq, Eq, Structural)]
pub enum CaptureMode {
    /// The route has no captures.
    Absent,
    /// By their positions in the path.
    Borrowed,
    /// By their names, decoded.
    Materialized,
}

/// How the body of a request is handed to the handler.
#[derive(Clone, Copy, Debug, PartialEq, Eq, Structural)]
pub enum BodyMode {
    /// Not at all.
    Absent,
    /// As a whole, up to a limit.
    Buffered,
    /// As it comes in.
    Incoming,
}

/// What dispatch needs of a route.
pub struct RoutePlan<H> {
    pub handler: HandlerKind<H>,
    pub body_limit: u32,
    pub capture_mode: CaptureMode,
    pub body_mode: BodyMode,
}

/// What the application says of a route in its documentation.
pub struct Operation {
    pub tag: Option<String>,
    pub summary: Option<String>,
    pub operation_id: Option<String>,
    pub response_status: StatusCode,
    pub response_schema: Option<Value>,
    pub request: OpenApiRequest,
}

/// What an [`Operation`] says.
#[verifier::ext_equal]
pub struct OperationView {
    pub tag: Option<Seq<char>>,
    pub summary: Option<Seq<char>>,
    pub operation_id: Option<Seq<char>>,
    pub status: u16,
    pub schema: Option<json::JsonTree>,
    pub request: schema::RequestView,
}

/// An optional text.
pub open spec fn optional_text(text: Option<String>) -> Option<Seq<char>> {
    match text {
        Some(text) => Some(text@),
        None => None,
    }
}

impl View for Operation {
    type V = OperationView;

    open spec fn view(&self) -> OperationView {
        OperationView {
            tag: optional_text(self.tag),
            summary: optional_text(self.summary),
            operation_id: optional_text(self.operation_id),
            status: self.response_status@,
            schema: schema::optional_tree(self.response_schema),
            request: self.request@,
        }
    }
}

/// An operation of which the application said nothing yet.
pub open spec fn plain_operation(
    status: u16,
    schema: Option<json::JsonTree>,
    request: schema::RequestView,
) -> OperationView {
    OperationView { tag: None, summary: None, operation_id: None, status, schema, request }
}

impl Operation {
    /// An operation of which the application said nothing yet.
    pub fn new(
        response_status: StatusCode,
        response_schema: Option<Value>,
        request: OpenApiRequest,
    ) -> (r: Self)
        ensures
            r@ == plain_operation(
                response_status@,
                schema::optional_tree(response_schema),
                request@,
            ),
    {
        Operation {
            tag: None,
            summary: None,
            operation_id: None,
            response_status,
            response_schema,
            request,
        }
    }
}

/// What dispatch does not need of a route.
pub struct RouteMetadata {
    pub builtin: bool,
    pub method: Method,
    pub template: String,
    pub segments: Vec<Segment>,
    pub capture_names: Option<Arc<Vec<String>>>,
    pub operation: Operation,
}

/// What a [`RouteMetadata`] says.
#[verifier::ext_equal]
pub struct RouteView {
    pub builtin: bool,
    pub method: Seq<char>,
    pub template: Seq<char>,
    pub segments: Seq<path::SegmentView>,
    pub capture_names: Option<Seq<Seq<char>>>,
    pub operation: OperationView,
}

impl View for RouteMetadata {
    type V = RouteView;

    open spec fn view(&self) -> RouteView {
        RouteView {
            builtin: self.builtin,
            method: self.method@,
            template: self.template@,
            segments: path::segment_views(self.segments@),
            capture_names: optional_names(self.capture_names),
            operation: self.operation@,
        }
    }
}

/// The texts of optional names.
pub open spec fn optional_names(names: Option<Arc<Vec<String>>>) -> Option<Seq<Seq<char>>> {
    match names {
        Some(names) => Some(params::string_views(names@)),
        None => None,
    }
}

/// The views of a list of routes.
pub open spec fn route_views(routes: Seq<RouteMetadata>) -> Seq<RouteView> {
    routes.map_values(|route: RouteMetadata| route@)
}

/// Whether a template has no captures.
pub open spec fn is_static(segments: Seq<path::SegmentView>) -> bool {
    forall|i: int| 0 <= i < segments.len() ==> (#[trigger] segments[i]) is Static
}

/// The names of the captures of a template, in order.
pub open spec fn capture_names_of(segments: Seq<path::SegmentView>) -> Seq<Seq<char>>
    decreases segments.len(),
{
    if segments.len() == 0 {
        Seq::empty()
    } else {
        let before = capture_names_of(segments.drop_last());
        match segments.last() {
            path::SegmentView::Capture(name) => before.push(name),
            path::SegmentView::Static(_) => before,
        }
    }
}

/// The names of the captures of a template.
pub fn capture_names(segments: &[Segment]) -> (r: Vec<String>)
    ensures
        params::string_views(r@) == capture_names_of(path::segment_views(segments@)),
{
    let ghost views = path::segment_views(segments@);
    let mut names: Vec<String> = Vec::new();
    let mut i: usize = 0;
    proof {
        assert(views.take(0) =~= Seq::empty());
        assert(params::string_views(names@) =~= Seq::empty());
    }
    while i < segments.len()
        invariant
            i <= segments@.len(),
            views == path::segment_views(segments@),
            params::string_views(names@) == capture_names_of(views.take(i as int)),
        decreases segments@.len() - i,
    {
        proof {
            assert(views.take(i + 1).drop_last() =~= views.take(i as int));
            assert(views.take(i + 1).last() == segments@[i as int]@);
        }
        if let Segment::Capture(name) = &segments[i] {
            let ghost before = names@;
            names.push(name.clone());
            assert(params::string_views(names@) =~= params::string_views(before).push(name@));
        }
        i += 1;
    }
    assert(views.take(i as int) =~= views);
    names
}

/// A template has as many captures as capture names, and none exactly when it is static.
pub proof fn lemma_capture_names(segments: Seq<path::SegmentView>)
    ensures
        capture_names_of(segments).len() == trie::capture_count(trie::pattern_of(segments)),
        is_static(segments) <==> capture_names_of(segments).len() == 0,
    decreases segments.len(),
{
    let pattern = trie::pattern_of(segments);
    if segments.len() == 0 {
        assert(pattern =~= Seq::empty());
    } else {
        let front = segments.drop_last();
        lemma_capture_names(front);
        assert(trie::pattern_of(front) =~= pattern.drop_last());
        trie::lemma_capture_count_last(pattern);
        if is_static(segments) {
            assert(segments[segments.len() - 1] is Static);
            assert forall|i: int| 0 <= i < front.len() implies (#[trigger] front[i]) is Static by {
                assert(segments[i] is Static);
            }
        }
        if is_static(front) && segments.last() is Static {
            assert forall|i: int| 0 <= i < segments.len() implies (
            #[trigger] segments[i]) is Static by {
                if i < front.len() {
                    assert(front[i] is Static);
                }
            }
        }
    }
}

/// A handler as the application hands it over, with what its arguments need and what it says
/// of its request and its response.
pub struct Endpoint<H> {
    pub handler: H,
    /// Whether the handler takes no arguments.
    pub zero: bool,
    pub needs: Needs,
    pub response_status: StatusCode,
    pub response_schema: Option<Value>,
    pub request: OpenApiRequest,
}

impl<H> Endpoint<H> {
    /// Whether a handler without arguments needs no body.
    pub open spec fn wf(&self) -> bool {
        self.zero ==> !self.needs.body
    }
}

/// How an endpoint is served.
pub open spec fn kind_of<H>(endpoint: Endpoint<H>) -> HandlerKind<H> {
    if endpoint.zero {
        HandlerKind::Zero(endpoint.handler)
    } else if !endpoint.needs.capture {
        HandlerKind::TypedNoParams(endpoint.handler)
    } else {
        HandlerKind::Typed(endpoint.handler)
    }
}

/// How the captures of a route are handed to an endpoint.
pub open spec fn capture_mode_of(needs: Needs, segments: Seq<path::SegmentView>) -> CaptureMode {
    if needs.params {
        CaptureMode::Materialized
    } else if !is_static(segments) {
        CaptureMode::Borrowed
    } else {
        CaptureMode::Absent
    }
}

/// The plan of a route that an endpoint serves.
pub open spec fn endpoint_plan<H>(
    endpoint: Endpoint<H>,
    segments: Seq<path::SegmentView>,
    max_body_size: u32,
) -> RoutePlan<H> {
    RoutePlan {
        handler: kind_of(endpoint),
        body_limit: if endpoint.needs.body {
            max_body_size
        } else {
            0
        },
        capture_mode: capture_mode_of(endpoint.needs, segments),
        body_mode: if endpoint.needs.body {
            BodyMode::Buffered
        } else {
            BodyMode::Absent
        },
    }
}

/// The plan of a route that is given the body as it comes in.
pub open spec fn raw_plan<H>(handler: H) -> RoutePlan<H> {
    RoutePlan {
        handler: HandlerKind::Raw(handler),
        body_limit: 0,
        capture_mode: CaptureMode::Absent,
        body_mode: BodyMode::Incoming,
    }
}

/// The plan of a route with a prepared response.
pub open spec fn static_plan<H>(response: StaticResponse) -> RoutePlan<H> {
    RoutePlan {
        handler: HandlerKind::Static(Box::new(response)),
        body_limit: 0,
        capture_mode: CaptureMode::Absent,
        body_mode: BodyMode::Absent,
    }
}

/// Whether a plan serves its route: a body comes in for raw handlers alone, none is collected
/// for handlers without arguments, prepared responses have neither body nor captures, and
/// captures are materialized where their names are kept.
pub open spec fn plan_serves<H>(plan: RoutePlan<H>, route: RouteView) -> bool {
    &&& plan.body_mode == BodyMode::Incoming <==> plan.handler is Raw
    &&& plan.handler is Zero ==> plan.body_mode == BodyMode::Absent
    &&& plan.handler matches HandlerKind::Static(response) ==> {
        &&& response.wf()
        &&& plan.body_mode == BodyMode::Absent
        &&& is_static(route.segments)
    }
    &&& plan.capture_mode == CaptureMode::Materialized <==> route.capture_names is Some
    &&& route.capture_names matches Some(names) ==> names == capture_names_of(route.segments)
    &&& plan.handler is Typed && plan.capture_mode == CaptureMode::Absent ==> is_static(
        route.segments,
    )
}

/// Whether a plan fits its route in an application: it serves it, and collects a body up to
/// the limit of the application.
pub open spec fn plan_fits<H>(plan: RoutePlan<H>, route: RouteView, max_body_size: u32) -> bool {
    &&& plan_serves(plan, route)
    &&& plan.body_mode == BodyMode::Buffered ==> plan.body_limit == max_body_size
    &&& plan.body_mode != BodyMode::Buffered ==> plan.body_limit == 0
}

/// Whether a template has no captures.
pub fn all_static(segments: &[Segment]) -> (r: bool)
    ensures
        r == is_static(path::segment_views(segments@)),
{
    let ghost views = path::segment_views(segments@);
    let mut i: usize = 0;
    while i < segments.len()
        invariant
            i <= segments@.len(),
            views == path::segment_views(segments@),
            forall|j: int| 0 <= j < i ==> (#[trigger] views[j]) is Static,
        decreases segments@.len() - i,
    {
        assert(views[i as int] == segments@[i as int]@);
        if let Segment::Capture(_) = &segments[i] {
            return false;
        }
        i += 1;
    }
    true
}

} // verus!
