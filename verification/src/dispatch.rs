//! Dispatch: from a request to the handler that is called or the response that is sent.

use crate::error;
use crate::error::ApiError;
use crate::headers;
use crate::headers::{get_header, header_name, header_value_str};
use crate::method;
use crate::method::Method;
use crate::number;
use crate::number::parse_usize;
use crate::params;
use crate::params::{CaptureSet, Params};
use crate::path;
use crate::path::normalize_request_path;
use crate::plan;
use crate::plan::{BodyMode, CaptureMode, HandlerKind, RoutePlan};
use crate::registry;
use crate::response;
use crate::response::{
    interrupted_body_response, maybe_head_flag, method_not_allowed_response, not_found,
    options_response, payload_too_large_response, HttpResponse, IntoResponse,
};
use crate::router;
use crate::router::{resolve_route_set, RouteFailure, RouteId, RouteSet};
use crate::app;
use crate::text;
use crate::trie;
use crate::trie::DynamicRouteTrie;
use http::{HeaderMap, HeaderValue};
use std::sync::Arc;
use vstd::hash_map::StringHashMap;
use vstd::prelude::*;
use vstd::string::*;
use vstd::utf8::*;

verus! {

/// Where the captures of a matched path come from: the route has none, or they were found on
/// the way through the trie.
#[derive(Clone, Copy, Debug)]
pub enum Captures {
    Fixed,
    Dynamic(CaptureSet),
}

impl Captures {
    /// The positions of the captures, where the route was found in the trie.
    pub open spec fn found(&self) -> Option<Seq<(int, int)>> {
        match self {
            Captures::Fixed => None,
            Captures::Dynamic(set) => Some(set.ranges()),
        }
    }

    /// Whether the captures lie in the path.
    pub open spec fn fit(&self, bytes: Seq<u8>) -> bool {
        match self {
            Captures::Fixed => true,
            Captures::Dynamic(set) => set.wf() && params::ranges_fit(set.ranges(), bytes),
        }
    }
}

/// What the router finds for a request.
#[derive(Debug)]
pub enum Routing {
    NotFound,
    Options(String),
    MethodNotAllowed(String),
    Matched(RouteId, Captures),
}

/// What a [`Routing`] says.
pub enum RoutingView {
    NotFound,
    Options(Seq<char>),
    MethodNotAllowed(Seq<char>),
    Matched(int, Option<Seq<(int, int)>>),
}

impl View for Routing {
    type V = RoutingView;

    open spec fn view(&self) -> RoutingView {
        match self {
            Routing::NotFound => RoutingView::NotFound,
            Routing::Options(allow) => RoutingView::Options(allow@),
            Routing::MethodNotAllowed(allow) => RoutingView::MethodNotAllowed(allow@),
            Routing::Matched(id, captures) => RoutingView::Matched(id.0 as int, captures.found()),
        }
    }
}

impl Routing {
    /// Whether the methods that are allowed can stand in a header value.
    pub open spec fn sendable(&self) -> bool {
        match self {
            Routing::Options(allow) => headers::all_value_bytes(encode_utf8(allow@)),
            Routing::MethodNotAllowed(allow) => headers::all_value_bytes(encode_utf8(allow@)),
            _ => true,
        }
    }
}

/// What the routes of a path give for a method: the route that serves it, or the methods that
/// are allowed.
pub open spec fn resolved(
    routes: Map<int, int>,
    method: Seq<char>,
    captures: Option<Seq<(int, int)>>,
) -> RoutingView {
    match router::serving_route(routes, method) {
        Some(route) => RoutingView::Matched(route, captures),
        None => if method == "OPTIONS"@ {
            RoutingView::Options(router::allow_header(routes))
        } else {
            RoutingView::MethodNotAllowed(router::allow_header(routes))
        },
    }
}

/// What the tables give for a request. A template without captures that is the path itself
/// comes before every pattern with captures.
pub open spec fn routing_of(
    statics: registry::StaticTable,
    dynamics: trie::Table,
    method: Seq<char>,
    path: Seq<char>,
) -> RoutingView {
    let path = path::normal_request_path(path);
    if statics.contains_key(path) {
        resolved(statics[path], method, None)
    } else {
        match trie::lookup(dynamics, Seq::empty(), path::path_texts(path), 0) {
            Some(pattern) => resolved(
                dynamics[pattern],
                method,
                Some(trie::captured(pattern, path::parts_from(encode_utf8(path), 0))),
            ),
            None => RoutingView::NotFound,
        }
    }
}

/// Finds the route of a request.
pub fn route_request(
    static_routes: &StringHashMap<RouteSet>,
    dynamic_routes: &DynamicRouteTrie,
    method: &Method,
    path: &str,
) -> (r: Routing)
    requires
        dynamic_routes.wf(),
        forall|template: Seq<char>|
            static_routes@.contains_key(template) ==> (#[trigger] static_routes@[template]).wf(),
        path.spec_bytes().len() <= u32::MAX,
    ensures
        r@ == routing_of(
            app::static_table_of(static_routes@),
            dynamic_routes@,
            method@,
            path@,
        ),
        r matches Routing::Matched(_, captures) ==> captures.fit(
            encode_utf8(path::normal_request_path(path@)),
        ),
        r.sendable(),
{
    let normal = normalize_request_path(path);
    proof {
        path::lemma_normal_prefix(path@);
        trie::law_captures_lie_in_the_path(dynamic_routes@, normal@);
    }
    let (routes, captures) = match static_routes.get(normal) {
        Some(routes) => (routes, Captures::Fixed),
        None => match dynamic_routes.find(normal) {
            Some(found) => (found.routes, Captures::Dynamic(found.captures)),
            None => {
                return Routing::NotFound;
            },
        },
    };
    proof {
        lemma_allow_value(routes@);
    }
    match resolve_route_set(method, routes) {
        Ok(id) => Routing::Matched(id, captures),
        Err(RouteFailure::Options(allow)) => Routing::Options(allow),
        Err(RouteFailure::MethodNotAllowed(allow)) => Routing::MethodNotAllowed(allow),
    }
}

/// What a handler is given of the captures: their positions, and their names with their
/// decoded values where it asked for them.
pub struct ParamsView {
    pub ranges: Seq<(int, int)>,
    pub named: Option<params::NamedValues>,
}

/// What parameters hold.
pub open spec fn params_view(params: Params) -> ParamsView {
    ParamsView { ranges: params.ranges(), named: params.named() }
}

/// No captures.
pub open spec fn no_params() -> ParamsView {
    ParamsView { ranges: Seq::empty(), named: None }
}

/// What a handler is given of the captures of a path, or the problem that it is spared.
pub open spec fn params_of(
    mode: CaptureMode,
    names: Option<Seq<Seq<char>>>,
    found: Option<Seq<(int, int)>>,
    bytes: Seq<u8>,
) -> Result<ParamsView, error::Problem> {
    match (found, mode) {
        (None, _) => Ok(no_params()),
        (Some(_), CaptureMode::Absent) => Ok(no_params()),
        (Some(ranges), CaptureMode::Borrowed) => Ok(ParamsView { ranges, named: None }),
        (Some(ranges), CaptureMode::Materialized) => match params::decoded_values(
            bytes,
            ranges,
            ranges.len(),
        ) {
            Ok(values) => Ok(
                ParamsView {
                    ranges,
                    named: Some(
                        params::NamedValues {
                            names: match names {
                                Some(names) => names,
                                None => Seq::empty(),
                            },
                            values,
                        },
                    ),
                },
            ),
            Err(problem) => Err(problem),
        },
    }
}

/// What a handler is given of the captures of a path.
pub fn capture_params(
    mode: CaptureMode,
    names: &Option<Arc<Vec<String>>>,
    captures: Captures,
    path: &str,
) -> (r: Result<Params, ApiError>)
    requires
        captures.fit(encode_utf8(path::normal_request_path(path@))),
        mode == CaptureMode::Materialized ==> names is Some,
    ensures
        match (
            r,
            params_of(
                mode,
                plan::optional_names(*names),
                captures.found(),
                encode_utf8(path::normal_request_path(path@)),
            ),
        ) {
            (Ok(params), Ok(view)) => {
                &&& params.wf()
                &&& params_view(params) == view
                &&& params::ranges_fit(params.ranges(), path.spec_bytes())
            },
            (Err(error), Err(problem)) => error@ == problem,
            _ => false,
        },
{
    let normal = normalize_request_path(path);
    proof {
        path::lemma_normal_prefix(path@);
        if let Captures::Dynamic(set) = captures {
            params::lemma_ranges_fit_longer(
                set.ranges(),
                path::normal_request_path(path@),
                path@,
            );
        }
    }
    match captures {
        Captures::Fixed => Ok(Params::empty().clone()),
        Captures::Dynamic(set) => match mode {
            CaptureMode::Absent => Ok(Params::empty().clone()),
            CaptureMode::Borrowed => {
                let none: Vec<String> = Vec::new();
                Ok(Params::from_match(none.as_slice(), set, normal, false))
            },
            CaptureMode::Materialized => match names {
                Some(names) => Params::from_materialized_names(
                    crate::shared::share(names),
                    set,
                    normal,
                ),
                None => Ok(Params::empty().clone()),
            },
        },
    }
}

/// What is done with a request: a response is sent, a handler is called, or the body is
/// collected first.
pub enum PreparedDispatch<'a, H, B> {
    Ready(HttpResponse<B>),
    Zero(bool, &'a H),
    NoParams(bool, &'a H),
    Typed(bool, &'a H, Params),
    Raw(bool, &'a H),
    Buffered(bool, RouteId, Captures, usize),
}

/// What a [`PreparedDispatch`] says. The flags tell whether the request is a `HEAD` request.
pub enum DispatchView<H, B> {
    Ready(response::ResponseView<B>),
    Zero(bool, H),
    NoParams(bool, H),
    Typed(bool, H, ParamsView),
    Raw(bool, H),
    Buffered(bool, int, Option<Seq<(int, int)>>, int),
}

impl<'a, H, B> View for PreparedDispatch<'a, H, B> {
    type V = DispatchView<H, B>;

    open spec fn view(&self) -> DispatchView<H, B> {
        match self {
            PreparedDispatch::Ready(response) => DispatchView::Ready(response@),
            PreparedDispatch::Zero(is_head, handler) => DispatchView::Zero(*is_head, **handler),
            PreparedDispatch::NoParams(is_head, handler) => DispatchView::NoParams(
                *is_head,
                **handler,
            ),
            PreparedDispatch::Typed(is_head, handler, params) => DispatchView::Typed(
                *is_head,
                **handler,
                params_view(*params),
            ),
            PreparedDispatch::Raw(is_head, handler) => DispatchView::Raw(*is_head, **handler),
            PreparedDispatch::Buffered(is_head, id, captures, limit) => DispatchView::Buffered(
                *is_head,
                id.0 as int,
                captures.found(),
                *limit as int,
            ),
        }
    }
}

impl<'a, H, B> PreparedDispatch<'a, H, B> {
    /// Whether what is handed on fits the path of the request.
    pub open spec fn fits(&self, path: Seq<char>) -> bool {
        match self {
            PreparedDispatch::Typed(_, _, params) => params.wf() && params::ranges_fit(
                params.ranges(),
                encode_utf8(path),
            ),
            PreparedDispatch::Buffered(_, _, captures, _) => captures.fit(
                encode_utf8(path::normal_request_path(path)),
            ),
            _ => true,
        }
    }
}

/// The call of a handler that reads the captures, or the response to a capture that does not
/// decode.
pub open spec fn typed_call<H, B>(
    is_head: bool,
    handler: H,
    params: Result<ParamsView, error::Problem>,
) -> DispatchView<H, B> {
    match params {
        Ok(params) => DispatchView::Typed(is_head, handler, params),
        Err(problem) => DispatchView::Ready(
            response::answer(is_head, response::problem_response(problem)),
        ),
    }
}

/// The length that a request declares for its body, if it declares one that can be read.
pub open spec fn declared_length(fields: Map<Seq<char>, Seq<Seq<u8>>>) -> Option<nat> {
    if fields.contains_key("content-length"@) && headers::all_visible(
        fields["content-length"@][0],
    ) {
        match number::natural_value(fields["content-length"@][0]) {
            Some(n) if n <= usize::MAX => Some(n),
            _ => None,
        }
    } else {
        None
    }
}

/// Whether a request declares a body over a limit.
pub open spec fn declares_more(fields: Map<Seq<char>, Seq<Seq<u8>>>, limit: int) -> bool {
    declared_length(fields) matches Some(length) && length > limit
}

/// Whether a request declares a body over a limit.
pub fn declared_too_large(fields: &HeaderMap<HeaderValue>, limit: usize) -> (r: bool)
    ensures
        r == declares_more(headers::header_fields(*fields), limit as int),
{
    proof {
        headers::lemma_known_names();
    }
    let name = header_name("content-length");
    match get_header(fields, &name) {
        Some(value) => match header_value_str(value) {
            Some(text) => match parse_usize(text) {
                Some(length) => length > limit,
                None => false,
            },
            None => false,
        },
        None => false,
    }
}

/// What is done with a request before its body is read.
pub open spec fn dispatch_of<H, B>(
    plan: RoutePlan<H>,
    names: Option<Seq<Seq<char>>>,
    index: int,
    found: Option<Seq<(int, int)>>,
    bytes: Seq<u8>,
    fields: Map<Seq<char>, Seq<Seq<u8>>>,
    is_head: bool,
) -> DispatchView<H, B> {
    if plan.body_mode == BodyMode::Buffered {
        if declares_more(fields, plan.body_limit as int) {
            DispatchView::Ready(response::problem_response(response::too_large_problem()))
        } else {
            DispatchView::Buffered(is_head, index, found, plan.body_limit as int)
        }
    } else {
        call_of(plan, names, found, bytes, is_head)
    }
}

/// How a handler is called.
pub open spec fn call_of<H, B>(
    plan: RoutePlan<H>,
    names: Option<Seq<Seq<char>>>,
    found: Option<Seq<(int, int)>>,
    bytes: Seq<u8>,
    is_head: bool,
) -> DispatchView<H, B> {
    match plan.handler {
        HandlerKind::Zero(handler) => DispatchView::Zero(is_head, handler),
        HandlerKind::TypedNoParams(handler) => DispatchView::NoParams(is_head, handler),
        HandlerKind::Typed(handler) => typed_call(
            is_head,
            handler,
            params_of(plan.capture_mode, names, found, bytes),
        ),
        HandlerKind::Raw(handler) => DispatchView::Raw(is_head, handler),
        HandlerKind::Static(prepared) => DispatchView::Ready(
            response::answer(is_head, response::static_view(*prepared)),
        ),
    }
}

/// How a handler is called once the body of its request was collected: a body over the limit
/// is refused, and does not matter to a handler without arguments or a prepared response.
pub open spec fn collected_of<H, B>(
    plan: RoutePlan<H>,
    names: Option<Seq<Seq<char>>>,
    found: Option<Seq<(int, int)>>,
    bytes: Seq<u8>,
    body_length: int,
    is_head: bool,
) -> DispatchView<H, B> {
    if !(plan.handler is Zero) && !(plan.handler is Static) && plan.body_mode == BodyMode::Buffered
        && body_length > plan.body_limit {
        DispatchView::Ready(response::problem_response(response::too_large_problem()))
    } else {
        call_of(plan, names, found, bytes, is_head)
    }
}

/// Calls a handler.
fn call_handler<'a, H, B>(
    plan: &'a RoutePlan<H>,
    names: &Option<Arc<Vec<String>>>,
    captures: Captures,
    path: &str,
    is_head: bool,
) -> (r: PreparedDispatch<'a, H, B>)
    requires
        captures.fit(encode_utf8(path::normal_request_path(path@))),
        plan.capture_mode == CaptureMode::Materialized ==> names is Some,
        plan.handler matches HandlerKind::Static(response) ==> response.wf(),
    ensures
        r@ == call_of::<H, B>(
            *plan,
            plan::optional_names(*names),
            captures.found(),
            encode_utf8(path::normal_request_path(path@)),
            is_head,
        ),
        r.fits(path@),
{
    match &plan.handler {
        HandlerKind::Zero(handler) => PreparedDispatch::Zero(is_head, handler),
        HandlerKind::TypedNoParams(handler) => PreparedDispatch::NoParams(is_head, handler),
        HandlerKind::Typed(handler) => match capture_params(
            plan.capture_mode,
            names,
            captures,
            path,
        ) {
            Ok(params) => PreparedDispatch::Typed(is_head, handler, params),
            Err(error) => PreparedDispatch::Ready(maybe_head_flag(is_head, error.into_response())),
        },
        HandlerKind::Raw(handler) => PreparedDispatch::Raw(is_head, handler),
        HandlerKind::Static(response) => PreparedDispatch::Ready(
            maybe_head_flag(is_head, response.to_response()),
        ),
    }
}

/// What is done with a request whose route was found, before its body is read.
pub fn prepare_matched<'a, H, B>(
    plan: &'a RoutePlan<H>,
    names: &Option<Arc<Vec<String>>>,
    index: RouteId,
    captures: Captures,
    path: &str,
    fields: &HeaderMap<HeaderValue>,
    is_head: bool,
) -> (r: PreparedDispatch<'a, H, B>)
    requires
        captures.fit(encode_utf8(path::normal_request_path(path@))),
        plan.capture_mode == CaptureMode::Materialized ==> names is Some,
        plan.handler matches HandlerKind::Static(response) ==> response.wf(),
    ensures
        r@ == dispatch_of::<H, B>(
            *plan,
            plan::optional_names(*names),
            index.0 as int,
            captures.found(),
            encode_utf8(path::normal_request_path(path@)),
            headers::header_fields(*fields),
            is_head,
        ),
        r.fits(path@),
{
    if plan.body_mode == BodyMode::Buffered {
        let limit: usize = plan.body_limit as usize;
        if declared_too_large(fields, limit) {
            PreparedDispatch::Ready(payload_too_large_response())
        } else {
            PreparedDispatch::Buffered(is_head, index, captures, limit)
        }
    } else {
        call_handler(plan, names, captures, path, is_head)
    }
}

/// How the handler of a request is called once its body was collected.
pub fn handle_matched<'a, H, B>(
    plan: &'a RoutePlan<H>,
    names: &Option<Arc<Vec<String>>>,
    captures: Captures,
    path: &str,
    body_length: usize,
    is_head: bool,
) -> (r: PreparedDispatch<'a, H, B>)
    requires
        captures.fit(encode_utf8(path::normal_request_path(path@))),
        plan.capture_mode == CaptureMode::Materialized ==> names is Some,
        plan.handler matches HandlerKind::Static(response) ==> response.wf(),
        !(plan.handler is Raw),
    ensures
        r@ == collected_of::<H, B>(
            *plan,
            plan::optional_names(*names),
            captures.found(),
            encode_utf8(path::normal_request_path(path@)),
            body_length as int,
            is_head,
        ),
        r.fits(path@),
{
    let reads_body = match &plan.handler {
        HandlerKind::Zero(_) => false,
        HandlerKind::Static(_) => false,
        HandlerKind::TypedNoParams(_) => true,
        HandlerKind::Typed(_) => true,
        HandlerKind::Raw(_) => true,
    };
    if reads_body && plan.body_mode == BodyMode::Buffered && body_length
        > plan.body_limit as usize {
        PreparedDispatch::Ready(payload_too_large_response())
    } else {
        call_handler(plan, names, captures, path, is_head)
    }
}

/// What became of the body of a request.
#[derive(Clone, Copy, Debug, PartialEq, Eq, Structural)]
pub enum BodyOutcome {
    /// All of it was read, with the given length.
    Collected(usize),
    /// It went over the limit.
    TooLarge,
    /// It ended early.
    Interrupted,
}

/// What is done with a request when reading its body has ended.
pub open spec fn resumed_of<H, B>(
    plan: RoutePlan<H>,
    names: Option<Seq<Seq<char>>>,
    found: Option<Seq<(int, int)>>,
    bytes: Seq<u8>,
    outcome: BodyOutcome,
    is_head: bool,
) -> DispatchView<H, B> {
    match outcome {
        BodyOutcome::Collected(length) => collected_of(
            plan,
            names,
            found,
            bytes,
            length as int,
            is_head,
        ),
        BodyOutcome::TooLarge => DispatchView::Ready(
            response::problem_response(response::too_large_problem()),
        ),
        BodyOutcome::Interrupted => DispatchView::Ready(
            response::problem_response(
                error::bad_request_problem("request body was interrupted"@),
            ),
        ),
    }
}

/// What is done with a request when reading its body has ended.
pub fn resume_matched<'a, H, B>(
    plan: &'a RoutePlan<H>,
    names: &Option<Arc<Vec<String>>>,
    captures: Captures,
    path: &str,
    outcome: BodyOutcome,
    is_head: bool,
) -> (r: PreparedDispatch<'a, H, B>)
    requires
        captures.fit(encode_utf8(path::normal_request_path(path@))),
        plan.capture_mode == CaptureMode::Materialized ==> names is Some,
        plan.handler matches HandlerKind::Static(response) ==> response.wf(),
        !(plan.handler is Raw),
    ensures
        r@ == resumed_of::<H, B>(
            *plan,
            plan::optional_names(*names),
            captures.found(),
            encode_utf8(path::normal_request_path(path@)),
            outcome,
            is_head,
        ),
        r.fits(path@),
{
    match outcome {
        BodyOutcome::Collected(length) => handle_matched(
            plan,
            names,
            captures,
            path,
            length,
            is_head,
        ),
        BodyOutcome::TooLarge => PreparedDispatch::Ready(payload_too_large_response()),
        BodyOutcome::Interrupted => PreparedDispatch::Ready(interrupted_body_response()),
    }
}

/// The response to a request that no route serves.
pub open spec fn refusal<B>(routing: RoutingView) -> response::ResponseView<B> {
    match routing {
        RoutingView::Options(allow) => response::empty_response(
            204,
            response::allow_fields(allow),
        ),
        RoutingView::MethodNotAllowed(allow) => response::empty_response(
            405,
            response::allow_fields(allow),
        ),
        _ => response::text_response(404, encode_utf8("Not Found"@)),
    }
}

/// The allowed methods can stand in a header value.
pub proof fn lemma_allow_value(routes: Map<int, int>)
    ensures
        headers::all_value_bytes(encode_utf8(router::allow_header(routes))),
{
    lemma_allowed_visible(routes, 7);
    headers::lemma_visible_text(router::allow_header(routes));
}

/// The names of the allowed methods are visible text.
proof fn lemma_allowed_visible(routes: Map<int, int>, n: int)
    requires
        n <= 7,
    ensures
        forall|i: int|
            0 <= i < router::allowed_text(routes, n).len() ==> ' ' <= #[trigger] router::allowed_text(
                routes,
                n,
            )[i] <= '~',
    decreases n,
{
    if n > 0 {
        lemma_allowed_visible(routes, n - 1);
        reveal_strlit(", ");
        reveal_strlit("DELETE");
        reveal_strlit("GET");
        reveal_strlit("HEAD");
        reveal_strlit("OPTIONS");
        reveal_strlit("PATCH");
        reveal_strlit("POST");
        reveal_strlit("PUT");
        let before = router::allowed_text(routes, n - 1);
        let name = method::slot_name(n - 1);
        let text = router::allowed_text(routes, n);
        assert(forall|i: int| 0 <= i < name.len() ==> ' ' <= #[trigger] name[i] <= '~');
        assert forall|i: int| 0 <= i < text.len() implies ' ' <= #[trigger] text[i] <= '~' by {
            if routes.contains_key(n - 1) && before.len() > 0 {
                if i < before.len() {
                    assert(text[i] == before[i]);
                } else if i < before.len() + 2 {
                    assert(text[i] == ", "@[i - before.len()]);
                } else {
                    assert(text[i] == name[i - before.len() - 2]);
                }
            }
        }
    }
}

/// The response to a request that no route serves.
pub fn refuse<B>(routing: &Routing) -> (r: HttpResponse<B>)
    requires
        !(routing is Matched),
        routing.sendable(),
    ensures
        r@ == refusal::<B>(routing@),
{
    match routing {
        Routing::Options(allow) => options_response(allow.as_str()),
        Routing::MethodNotAllowed(allow) => method_not_allowed_response(allow.as_str()),
        _ => not_found(),
    }
}

} // verus!
