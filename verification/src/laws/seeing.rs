//! What holds of the views: a value is seen as what it holds.

use crate::bench::{RawAction, RawActionView};
use crate::dispatch::{DispatchView, PreparedDispatch, Routing, RoutingView};
use crate::error::ApiError;
use crate::json;
use crate::json::JsonTree;
use crate::method::Method;
use crate::openapi::{BuildError, BuildErrorView, OpenApiConfig};
use crate::params;
use crate::params::{CaptureSet, Params};
use crate::path;
use crate::path::{Segment, SegmentView};
use crate::payload;
use crate::plan;
use crate::plan::{Operation, RouteMetadata};
use crate::query;
use crate::query::{QueryPlan, QueryScalar, ScalarView};
use crate::response::{BodyView, HttpResponse, ResponseBody};
use crate::router::RouteSet;
use crate::schema::OpenApiRequest;
use serde_json::Value;
use vstd::prelude::*;

verus! {

/// A list of values is seen value by value.
pub proof fn law_lists_are_seen_item_by_item(
    values: Seq<Value>,
    strings: Seq<String>,
    segments: Seq<Segment>,
    routes: Seq<RouteMetadata>,
    i: int,
)
    ensures
        json::json_trees(values).len() == values.len(),
        0 <= i < values.len() ==> json::json_trees(values)[i] == json::json_tree(values[i]),
        params::string_views(strings).len() == strings.len(),
        0 <= i < strings.len() ==> params::string_views(strings)[i] == strings[i]@,
        path::segment_views(segments).len() == segments.len(),
        0 <= i < segments.len() ==> path::segment_views(segments)[i] == segments[i]@,
        plan::route_views(routes).len() == routes.len(),
        0 <= i < routes.len() ==> plan::route_views(routes)[i] == routes[i]@,
{
}

/// Pairs, names and assignments are seen one by one.
pub proof fn law_pairs_are_seen_one_by_one(
    raw: Seq<(&str, &str)>,
    decoded: Seq<(String, String)>,
    values: Seq<(String, Value)>,
    names: Seq<&str>,
    plan: QueryPlan,
    i: int,
)
    ensures
        query::pair_texts(raw).len() == raw.len(),
        0 <= i < raw.len() ==> query::pair_texts(raw)[i] == (raw[i].0@, raw[i].1@),
        query::string_pairs(decoded).len() == decoded.len(),
        0 <= i < decoded.len() ==> query::string_pairs(decoded)[i] == (decoded[i].0@, decoded[i].1@),
        query::value_pairs(values).len() == values.len(),
        0 <= i < values.len() ==> query::value_pairs(values)[i] == (
            values[i].0@,
            json::json_tree(values[i].1),
        ),
        query::name_texts(names).len() == names.len(),
        0 <= i < names.len() ==> query::name_texts(names)[i] == names[i]@,
        plan@.0.len() == plan.assignments@.len(),
        0 <= i < plan.assignments@.len() ==> plan@.0[i] == (
            plan.assignments@[i].0 as int,
            plan.assignments@[i].1@,
        ),
        plan@.1 is Some == plan.error is Some,
        plan.error matches Some(error) ==> plan@.1 == Some(error@),
{
}

/// An operation is seen with its tag, its summary, its id, its status, its schema and its
/// request.
pub proof fn law_operations_are_seen_as_they_are(operation: Operation)
    ensures
        match operation.tag {
            Some(text) => operation@.tag == Some(text@),
            None => operation@.tag is None,
        },
        match operation.summary {
            Some(text) => operation@.summary == Some(text@),
            None => operation@.summary is None,
        },
        match operation.operation_id {
            Some(text) => operation@.operation_id == Some(text@),
            None => operation@.operation_id is None,
        },
        operation@.status == operation.response_status@,
        match operation.response_schema {
            Some(value) => operation@.schema == Some(json::json_tree(value)),
            None => operation@.schema is None,
        },
        operation@.request == operation.request@,
{
}

/// A route is seen with its method, its template, its segments, its names and its operation.
pub proof fn law_routes_are_seen_as_they_are(route: RouteMetadata)
    ensures
        route@.builtin == route.builtin,
        route@.method == route.method@,
        route@.template == route.template@,
        route@.segments == path::segment_views(route.segments@),
        match route.capture_names {
            Some(names) => route@.capture_names == Some(params::string_views(names@)),
            None => route@.capture_names is None,
        },
        route@.operation == route.operation@,
{
}

/// A request is seen with its schemas, its parameters and its body.
pub proof fn law_requests_are_seen_as_they_are(request: OpenApiRequest)
    ensures
        request@.path_schemas == json::json_trees(request.path_schemas@),
        request@.parameters == json::json_trees(request.parameters@),
        match request.request_body {
            Some(body) => request@.request_body == Some(json::json_tree(body)),
            None => request@.request_body is None,
        },
{
}

/// An error is seen with its status, its title, its detail, and whether it is one of absence.
pub proof fn law_errors_are_seen_as_they_are(error: ApiError)
    ensures
        error@.status == error.status@,
        error@.title == error.title@,
        error@.detail == error.detail@,
        error@.missing == error.missing,
{
}

/// A response is seen with its status, its header fields and what is left of its body.
pub proof fn law_responses_are_seen_as_they_are<B>(response: HttpResponse<B>)
    ensures
        response@.status == response.status@,
        response@.headers == crate::headers::header_fields(response.headers),
        match response.body {
            ResponseBody::Full(Some(bytes)) => response@.body == BodyView::<B>::Full(
                Some(payload::bytes_contents(bytes)),
            ),
            ResponseBody::Full(None) => response@.body == BodyView::<B>::Full(None),
            ResponseBody::Stream(stream) => response@.body == BodyView::Stream(stream),
        },
{
}

/// Segments, methods and values of a query are seen as what they say.
pub proof fn law_texts_are_seen_as_they_are(text: String, value: bool, n: i64)
    ensures
        Segment::Static(text)@ == SegmentView::Static(text@),
        Segment::Capture(text)@ == SegmentView::Capture(text@),
        Method::Extension(text)@ == text@,
        QueryScalar::Bool(value)@ == ScalarView::Bool(value),
        QueryScalar::Integer(n)@ == ScalarView::Integer(n as int),
        QueryScalar::Text(text)@ == ScalarView::Text(text@),
{
}

/// A configuration and the errors of a build are seen as what they say.
pub proof fn law_configurations_are_seen_as_they_are(config: OpenApiConfig, error: BuildError)
    ensures
        config@.path == config.path@,
        config@.title == config.title@,
        config@.version == config.version@,
        match config.description {
            Some(text) => config@.description == Some(text@),
            None => config@.description is None,
        },
        match error {
            BuildError::RouteConflict { path, method } => error@ == BuildErrorView::RouteConflict(
                path@,
                method@,
            ),
            BuildError::InvalidGeneratedPath { path } => error@
                == BuildErrorView::InvalidGeneratedPath(path@),
            BuildError::TooManyCaptures { path, captures, max } => error@
                == BuildErrorView::TooManyCaptures(path@, captures as int, max as int),
        },
{
}

/// What the router finds, and what is done with it, is seen as it is.
pub proof fn law_decisions_are_seen_as_they_are<'a, H, B>(
    routing: Routing,
    dispatch: PreparedDispatch<'a, H, B>,
    action: RawAction,
)
    ensures
        match routing {
            Routing::NotFound => routing@ == RoutingView::NotFound,
            Routing::Options(allow) => routing@ == RoutingView::Options(allow@),
            Routing::MethodNotAllowed(allow) => routing@ == RoutingView::MethodNotAllowed(allow@),
            Routing::Matched(id, captures) => routing@ == RoutingView::Matched(
                id.0 as int,
                captures.found(),
            ),
        },
        match dispatch {
            PreparedDispatch::Ready(response) => dispatch@ == DispatchView::<H, B>::Ready(
                response@,
            ),
            PreparedDispatch::Zero(is_head, handler) => dispatch@ == DispatchView::<H, B>::Zero(
                is_head,
                *handler,
            ),
            PreparedDispatch::NoParams(is_head, handler) => dispatch@ == DispatchView::<
                H,
                B,
            >::NoParams(is_head, *handler),
            PreparedDispatch::Typed(is_head, handler, params) => dispatch@ matches DispatchView::Typed(
                head,
                called,
                given,
            ) && head == is_head && called == *handler && given.ranges == params.ranges()
                && given.named == params.named(),
            PreparedDispatch::Raw(is_head, handler) => dispatch@ == DispatchView::<H, B>::Raw(
                is_head,
                *handler,
            ),
            PreparedDispatch::Buffered(is_head, id, captures, limit) => dispatch@ == DispatchView::<
                H,
                B,
            >::Buffered(is_head, id.0 as int, captures.found(), limit as int),
        },
        match action {
            RawAction::Reply(response) => action@ == RawActionView::Reply(response@),
            RawAction::QueryDatabase => action@ == RawActionView::QueryDatabase,
        },
{
}

/// The routes of a path are seen by the slots of their methods.
pub proof fn law_route_sets_are_seen_by_slot(routes: RouteSet, slot: int)
    requires
        0 <= slot < 7,
    ensures
        routes@.contains_key(slot) <==> routes.routes@[slot].0 != u32::MAX,
        routes@.contains_key(slot) ==> routes@[slot] == routes.routes@[slot].0,
{
}

/// Captures are seen as the two positions in each word, and named values as their names and
/// their values.
pub proof fn law_captures_are_seen_as_positions(set: CaptureSet, given: Params, i: int)
    ensures
        set.ranges().len() == set.count,
        0 <= i < set.count ==> set.packed@[i] == set.ranges()[i].0 * 0x1_0000_0000
            + set.ranges()[i].1 && 0 <= set.ranges()[i].1 < 0x1_0000_0000,
        given.ranges().len() == given.count,
        0 <= i < given.count ==> given.packed@[i] == given.ranges()[i].0 * 0x1_0000_0000
            + given.ranges()[i].1 && 0 <= given.ranges()[i].1 < 0x1_0000_0000,
        match given.owned {
            Some(owned) => given.named() matches Some(named) && named.names
                == params::string_views(owned.names@) && named.values == params::string_views(
                owned.values@,
            ),
            None => given.named() is None,
        },
{
}

/// A value is read by the first of its names, and nothing is read by a name that is not there.
pub proof fn law_values_are_read_by_their_first_name(
    named: params::NamedValues,
    name: Seq<char>,
    i: int,
)
    ensures
        0 <= i < named.names.len() && i < named.values.len() && named.names[i] == name && (forall|
            j: int,
        | 0 <= j < i ==> #[trigger] named.names[j] != name) ==> named.lookup(name) == Some(
            named.values[i],
        ),
        !named.names.contains(name) ==> named.lookup(name) is None,
{
    if 0 <= i < named.names.len() && i < named.values.len() && named.names[i] == name && (forall|
        j: int,
    | 0 <= j < i ==> #[trigger] named.names[j] != name) {
        assert(named.first_at(name, i));
        let found = choose|k: int| named.first_at(name, k);
        assert(found == i);
    }
    if exists|k: int| named.first_at(name, k) {
        let k = choose|k: int| named.first_at(name, k);
        assert(named.names[k] == name);
    }
}

/// An optional JSON value and an optional text are seen as what they hold.
pub proof fn law_optional_values_are_seen_as_they_are(value: Value, text: String)
    ensures
        crate::schema::optional_tree(Some(value)) == Some::<JsonTree>(json::json_tree(value)),
        crate::schema::optional_tree(None) is None,
        plan::optional_text(Some(text)) == Some(text@),
        plan::optional_text(None) is None,
{
}

} // verus!
