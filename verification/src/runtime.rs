//! The runtime: requests are matched to routes.

use crate::app;
use crate::dispatch;
use crate::dispatch::{
    handle_matched, prepare_matched, refuse, resume_matched, route_request, BodyOutcome, Captures,
    PreparedDispatch, Routing,
};
use crate::headers;
use crate::method::Method;
use crate::path;
use crate::plan;
use crate::plan::{HandlerKind, RoutePlan};
use crate::registry;
use crate::router::{RouteId, RouteSet};
use crate::trie::DynamicRouteTrie;
use crate::uri;
use crate::uri::{parse_uri_path, OneshotError};
use http::{HeaderMap, HeaderValue};
use std::sync::Arc;
use vstd::hash_map::StringHashMap;
use vstd::prelude::*;
use vstd::string::*;
use vstd::utf8::*;

verus! {

/// An application that serves requests and takes no more routes. `routes` holds what was said
/// of the routes when they were registered.
pub struct AppRuntime<S, H> {
    pub state: Arc<S>,
    pub plans: Vec<RoutePlan<H>>,
    pub capture_names: Vec<Option<Arc<Vec<String>>>>,
    pub static_routes: StringHashMap<RouteSet>,
    pub dynamic_routes: DynamicRouteTrie,
    pub routes: Ghost<Seq<plan::RouteView>>,
}

impl<S, H> AppRuntime<S, H> {
    /// The routes of templates without captures.
    pub open spec fn static_table(&self) -> registry::StaticTable {
        app::static_table_of(self.static_routes@)
    }

    /// Whether the tables hold exactly the routes, and every route has a plan that serves it.
    pub open spec fn wf(&self) -> bool {
        &&& self.plans@.len() == self.routes@.len()
        &&& self.capture_names@.len() == self.routes@.len()
        &&& self.dynamic_routes.wf()
        &&& forall|template: Seq<char>|
            self.static_routes@.contains_key(template) ==> (
            #[trigger] self.static_routes@[template]).wf()
        &&& registry::registry_ok(self.static_table(), self.dynamic_routes@, self.routes@)
        &&& forall|i: int|
            0 <= i < self.plans@.len() ==> plan::plan_serves(
                #[trigger] self.plans@[i],
                self.routes@[i],
            )
        &&& forall|i: int|
            0 <= i < self.routes@.len() ==> plan::optional_names(
                #[trigger] self.capture_names@[i],
            ) == self.routes@[i].capture_names
    }

    /// What the router finds for a request.
    pub open spec fn routing(&self, method: Seq<char>, path: Seq<char>) -> dispatch::RoutingView {
        dispatch::routing_of(self.static_table(), self.dynamic_routes@, method, path)
    }

    /// What is done with a request before its body is read.
    pub open spec fn prepared<B>(
        &self,
        method: Seq<char>,
        path: Seq<char>,
        fields: Map<Seq<char>, Seq<Seq<u8>>>,
    ) -> dispatch::DispatchView<H, B> {
        match self.routing(method, path) {
            dispatch::RoutingView::Matched(index, found) => dispatch::dispatch_of(
                self.plans@[index],
                self.routes@[index].capture_names,
                index,
                found,
                encode_utf8(path::normal_request_path(path)),
                fields,
                method == "HEAD"@,
            ),
            routing => dispatch::DispatchView::Ready(dispatch::refusal(routing)),
        }
    }

    /// What is done with a request whose body was read already.
    pub open spec fn handled<B>(
        &self,
        method: Seq<char>,
        path: Seq<char>,
        body_length: int,
    ) -> dispatch::DispatchView<H, B> {
        match self.routing(method, path) {
            dispatch::RoutingView::Matched(index, found) => dispatch::collected_of(
                self.plans@[index],
                self.routes@[index].capture_names,
                found,
                encode_utf8(path::normal_request_path(path)),
                body_length,
                method == "HEAD"@,
            ),
            routing => dispatch::DispatchView::Ready(dispatch::refusal(routing)),
        }
    }

    /// Whether a request is served by a raw handler.
    pub open spec fn needs_incoming(&self, method: Seq<char>, path: Seq<char>) -> bool {
        self.routing(method, path) matches dispatch::RoutingView::Matched(index, _)
            && self.plans@[index].handler is Raw
    }

    /// Finds the route of a request.
    pub fn route(&self, method: &Method, path: &str) -> (r: Routing)
        requires
            self.wf(),
            path.spec_bytes().len() <= u32::MAX,
        ensures
            r@ == self.routing(method@, path@),
            r matches Routing::Matched(index, captures) ==> {
                &&& captures.fit(encode_utf8(path::normal_request_path(path@)))
                &&& index.0 < self.plans@.len()
            },
            r.sendable(),
    {
        proof {
            registry::lemma_matched(
                self.static_table(),
                self.dynamic_routes@,
                self.routes@,
                method@,
                path@,
            );
        }
        route_request(&self.static_routes, &self.dynamic_routes, method, path)
    }

    /// Whether a request is served by a raw handler, which a body that was read already cannot
    /// be handed to.
    pub fn check_incoming(&self, method: &Method, path: &str) -> (r: bool)
        requires
            self.wf(),
            path.spec_bytes().len() <= u32::MAX,
        ensures
            r == self.needs_incoming(method@, path@),
    {
        match self.route(method, path) {
            Routing::Matched(index, _) => matches!(
                self.plans[index.index()].handler,
                HandlerKind::Raw(_)
            ),
            _ => false,
        }
    }

    /// What is done with a request before its body is read.
    pub fn prepare<B>(&self, method: &Method, path: &str, fields: &HeaderMap<HeaderValue>) -> (r:
        PreparedDispatch<'_, H, B>)
        requires
            self.wf(),
            path.spec_bytes().len() <= u32::MAX,
        ensures
            r@ == self.prepared::<B>(method@, path@, headers::header_fields(*fields)),
            r.fits(path@),
            r matches PreparedDispatch::Buffered(_, index, _, _) ==> {
                &&& index.0 < self.plans@.len()
                &&& !(self.plans@[index.0 as int].handler is Raw)
            },
    {
        let is_head = method.same(&Method::HEAD);
        match self.route(method, path) {
            Routing::Matched(index, captures) => {
                assert(plan::plan_serves(
                    self.plans@[index.0 as int],
                    self.routes@[index.0 as int],
                ));
                assert(plan::optional_names(self.capture_names@[index.0 as int])
                    == self.routes@[index.0 as int].capture_names);
                prepare_matched(
                    &self.plans[index.index()],
                    &self.capture_names[index.index()],
                    index,
                    captures,
                    path,
                    fields,
                    is_head,
                )
            },
            routing => PreparedDispatch::Ready(refuse(&routing)),
        }
    }

    /// What is done with a request when reading its body has ended.
    pub fn resume<B>(
        &self,
        index: RouteId,
        captures: Captures,
        path: &str,
        outcome: BodyOutcome,
        is_head: bool,
    ) -> (r: PreparedDispatch<'_, H, B>)
        requires
            self.wf(),
            index.0 < self.plans@.len(),
            !(self.plans@[index.0 as int].handler is Raw),
            captures.fit(encode_utf8(path::normal_request_path(path@))),
        ensures
            r@ == dispatch::resumed_of::<H, B>(
                self.plans@[index.0 as int],
                self.routes@[index.0 as int].capture_names,
                captures.found(),
                encode_utf8(path::normal_request_path(path@)),
                outcome,
                is_head,
            ),
            r.fits(path@),
    {
        assert(plan::plan_serves(self.plans@[index.0 as int], self.routes@[index.0 as int]));
        assert(plan::optional_names(self.capture_names@[index.0 as int])
            == self.routes@[index.0 as int].capture_names);
        resume_matched(
            &self.plans[index.index()],
            &self.capture_names[index.index()],
            captures,
            path,
            outcome,
            is_head,
        )
    }

    /// What is done with a request whose body was read already.
    pub fn handle<B>(&self, method: &Method, path: &str, body_length: usize) -> (r:
        PreparedDispatch<'_, H, B>)
        requires
            self.wf(),
            path.spec_bytes().len() <= u32::MAX,
            !self.needs_incoming(method@, path@),
        ensures
            r@ == self.handled::<B>(method@, path@, body_length as int),
            r.fits(path@),
    {
        let is_head = method.same(&Method::HEAD);
        match self.route(method, path) {
            Routing::Matched(index, captures) => {
                assert(plan::plan_serves(
                    self.plans@[index.0 as int],
                    self.routes@[index.0 as int],
                ));
                assert(plan::optional_names(self.capture_names@[index.0 as int])
                    == self.routes@[index.0 as int].capture_names);
                handle_matched(
                    &self.plans[index.index()],
                    &self.capture_names[index.index()],
                    captures,
                    path,
                    body_length,
                    is_head,
                )
            },
            routing => PreparedDispatch::Ready(refuse(&routing)),
        }
    }

    /// What is done with a request whose body was read already. A URI that cannot be parsed is
    /// refused, and so is a request that a raw handler serves.
    pub fn oneshot<B>(&self, method: &Method, uri: &str, body_length: usize) -> (r: Result<
        PreparedDispatch<'_, H, B>,
        OneshotError,
    >)
        requires
            self.wf(),
        ensures
            match (r, uri::uri_path(uri@)) {
                (Err(OneshotError::InvalidUri), None) => true,
                (Err(OneshotError::NeedsIncoming), Some(path)) => self.needs_incoming(
                    method@,
                    path,
                ),
                (Ok(dispatch), Some(path)) => {
                    &&& !self.needs_incoming(method@, path)
                    &&& dispatch@ == self.handled::<B>(method@, path, body_length as int)
                    &&& dispatch.fits(path)
                },
                _ => false,
            },
    {
        let path = match parse_uri_path(uri) {
            Some(path) => path,
            None => {
                return Err(OneshotError::InvalidUri);
            },
        };
        if self.check_incoming(method, path.as_str()) {
            return Err(OneshotError::NeedsIncoming);
        }
        Ok(self.handle(method, path.as_str(), body_length))
    }
}

} // verus!
