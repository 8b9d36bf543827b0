//! The settings of an application: limits, and the documentation of it and of its routes.

use crate::app::{encode_body_limit, App};
use crate::json;
use crate::json::value_to_string;
use crate::method;
use crate::openapi;
use crate::openapi::{swagger_html, OpenApiConfig, SwaggerConfig};
use crate::path;
use crate::path::normalize_path;
use crate::payload::bytes_from_string;
use crate::plan;
use crate::plan::{BodyMode, RoutePlan};
use crate::registry;
use crate::text::str_equal;
use serde_json::Value;
use vstd::prelude::*;
use vstd::string::*;

verus! {

/// The route with a documentation of its own.
pub open spec fn with_operation(
    route: plan::RouteView,
    operation: plan::OperationView,
) -> plan::RouteView {
    plan::RouteView { operation, ..route }
}

/// A plan with a limit, where it collects a body.
pub open spec fn with_limit<H>(plan: RoutePlan<H>, limit: u32) -> RoutePlan<H> {
    if plan.body_mode == BodyMode::Buffered {
        RoutePlan { body_limit: limit, ..plan }
    } else {
        plan
    }
}

/// The configuration of the document while it is changed.
pub struct OpenApiOptions<'a, S, H> {
    pub app: &'a mut App<S, H>,
}

/// The configuration of the Swagger page while it is changed.
pub struct SwaggerOptions<'a, S, H> {
    pub app: &'a mut App<S, H>,
}

impl<S, H> App<S, H> {
    /// Whether nothing but the configuration of the documents and the documents that are kept
    /// differs.
    pub open spec fn reconfigures(&self, before: &Self) -> bool {
        &&& self.wf()
        &&& self.same_routes(before)
        &&& self.state == before.state
        &&& self.max_body_size == before.max_body_size
        &&& self.route_error == before.route_error
    }

    /// Forgets the documents that are kept.
    pub fn invalidate_openapi_cache(&mut self)
        ensures
            *final(self) == (App { openapi_bytes: None, swagger_bytes: None, ..*old(self) }),
    {
        self.openapi_bytes = None;
        self.swagger_bytes = None;
    }

    /// Enables the OpenAPI document and returns its configuration. Its path, title and
    /// version have defaults.
    pub fn openapi(&mut self) -> (r: OpenApiOptions<'_, S, H>)
        requires
            old(self).wf(),
        ensures
            r.app.reconfigures(old(self)),
            r.app.openapi_config matches Some(config) && config@ == openapi::config_of(
                old(self).openapi_config,
            ),
            old(self).openapi_config is Some ==> r.app.openapi_config == old(self).openapi_config,
            r.app.openapi_bytes is None,
            r.app.swagger_config == old(self).swagger_config,
            r.app.swagger_bytes is None,
            *final(self) == *final(r.app),
    {
        if self.openapi_config.is_none() {
            self.openapi_config = Some(OpenApiConfig::default());
        }
        self.invalidate_openapi_cache();
        OpenApiOptions { app: self }
    }

    /// Enables the Swagger page and returns its configuration. It does not depend on the
    /// document being enabled, and its path has a default.
    pub fn swagger(&mut self) -> (r: SwaggerOptions<'_, S, H>)
        requires
            old(self).wf(),
        ensures
            r.app.reconfigures(old(self)),
            r.app.openapi_config == old(self).openapi_config,
            r.app.openapi_bytes == old(self).openapi_bytes,
            match old(self).swagger_config {
                Some(config) => r.app.swagger_config == Some(config),
                None => r.app.swagger_config matches Some(config) && config.path@ == "/docs"@,
            },
            r.app.swagger_bytes is None,
            *final(self) == *final(r.app),
    {
        if self.swagger_config.is_none() {
            self.swagger_config = Some(SwaggerConfig { path: "/docs".to_owned() });
        }
        self.swagger_bytes = None;
        SwaggerOptions { app: self }
    }

    /// Sets the largest body that is collected, for the routes that there are and for those
    /// to come. Raw handlers are not affected.
    pub fn max_body_size(&mut self, limit: usize) -> (r: &mut Self)
        requires
            old(self).wf(),
            0 < limit <= u32::MAX,
        ensures
            r.wf(),
            r.max_body_size == limit,
            r.plans@ == old(self).plans@.map_values(
                |plan: RoutePlan<H>| with_limit(plan, limit as u32),
            ),
            *r == (App { max_body_size: limit as u32, plans: r.plans, ..*old(self) }),
            *final(self) == *final(r),
    {
        let limit: u32 = encode_body_limit(limit);
        let ghost before = *self;
        self.max_body_size = limit;
        let mut i: usize = 0;
        while i < self.plans.len()
            invariant
                *self == (App { max_body_size: limit, plans: self.plans, ..before }),
                i <= self.plans@.len(),
                self.plans@.len() == before.plans@.len(),
                forall|j: int|
                    0 <= j < i ==> #[trigger] self.plans@[j] == with_limit(before.plans@[j], limit),
                forall|j: int|
                    i <= j < before.plans@.len() ==> #[trigger] self.plans@[j] == before.plans@[j],
            decreases self.plans@.len() - i,
        {
            if self.plans[i].body_mode == BodyMode::Buffered {
                self.plans[i].body_limit = limit;
            }
            i += 1;
        }
        proof {
            assert(self.plans@ =~= before.plans@.map_values(
                |plan: RoutePlan<H>| with_limit(plan, limit),
            ));
            assert forall|j: int| 0 <= j < self.plans@.len() implies plan::plan_fits(
                #[trigger] self.plans@[j],
                self.metadata@[j]@,
                self.max_body_size,
            ) by {
                assert(plan::plan_fits(
                    before.plans@[j],
                    before.metadata@[j]@,
                    before.max_body_size,
                ));
            }
        }
        self
    }
}

impl<'a, S, H> OpenApiOptions<'a, S, H> {
    /// Sets where the document is served.
    pub fn path(self, path: &str) -> (r: Self)
        requires
            self.app.wf(),
            self.app.openapi_config is Some,
        ensures
            r.app.reconfigures(old(self.app)),
            r.app.openapi_config matches Some(config) && config@ == (openapi::ConfigView {
                path: path::normal_path(path@),
                ..openapi::config_of(old(self.app).openapi_config)
            }),
            r.app.openapi_bytes is None,
            r.app.swagger_config == old(self.app).swagger_config,
            r.app.swagger_bytes is None,
            *final(r.app) == *final(self.app),
    {
        let app = self.app;
        if let Some(config) = &mut app.openapi_config {
            config.path = normalize_path(path);
        }
        app.invalidate_openapi_cache();
        OpenApiOptions { app }
    }

    /// Sets the title of the document.
    pub fn title(self, title: &str) -> (r: Self)
        requires
            self.app.wf(),
            self.app.openapi_config is Some,
        ensures
            r.app.reconfigures(old(self.app)),
            r.app.openapi_config matches Some(config) && config@ == (openapi::ConfigView {
                title: title@,
                ..openapi::config_of(old(self.app).openapi_config)
            }),
            r.app.openapi_bytes is None,
            r.app.swagger_config == old(self.app).swagger_config,
            r.app.swagger_bytes is None,
            *final(r.app) == *final(self.app),
    {
        let app = self.app;
        if let Some(config) = &mut app.openapi_config {
            config.title = title.to_owned();
        }
        app.invalidate_openapi_cache();
        OpenApiOptions { app }
    }

    /// Sets the version of the document.
    pub fn version(self, version: &str) -> (r: Self)
        requires
            self.app.wf(),
            self.app.openapi_config is Some,
        ensures
            r.app.reconfigures(old(self.app)),
            r.app.openapi_config matches Some(config) && config@ == (openapi::ConfigView {
                version: version@,
                ..openapi::config_of(old(self.app).openapi_config)
            }),
            r.app.openapi_bytes is None,
            r.app.swagger_config == old(self.app).swagger_config,
            r.app.swagger_bytes is None,
            *final(r.app) == *final(self.app),
    {
        let app = self.app;
        if let Some(config) = &mut app.openapi_config {
            config.version = version.to_owned();
        }
        app.invalidate_openapi_cache();
        OpenApiOptions { app }
    }

    /// Sets the description of the document.
    pub fn description(self, description: &str) -> (r: Self)
        requires
            self.app.wf(),
            self.app.openapi_config is Some,
        ensures
            r.app.reconfigures(old(self.app)),
            r.app.openapi_config matches Some(config) && config@ == (openapi::ConfigView {
                description: Some(description@),
                ..openapi::config_of(old(self.app).openapi_config)
            }),
            r.app.openapi_bytes is None,
            r.app.swagger_config == old(self.app).swagger_config,
            r.app.swagger_bytes is None,
            *final(r.app) == *final(self.app),
    {
        let app = self.app;
        if let Some(config) = &mut app.openapi_config {
            config.description = Some(description.to_owned());
        }
        app.invalidate_openapi_cache();
        OpenApiOptions { app }
    }
}

impl<'a, S, H> SwaggerOptions<'a, S, H> {
    /// Sets where the page is served.
    pub fn path(self, path: &str) -> (r: Self)
        requires
            self.app.wf(),
        ensures
            r.app.reconfigures(old(self.app)),
            r.app.openapi_config == old(self.app).openapi_config,
            r.app.openapi_bytes == old(self.app).openapi_bytes,
            r.app.swagger_config matches Some(config) && config.path@ == path::normal_path(path@),
            r.app.swagger_bytes is None,
            *final(r.app) == *final(self.app),
    {
        let app = self.app;
        app.swagger_config = Some(SwaggerConfig { path: normalize_path(path) });
        app.swagger_bytes = None;
        SwaggerOptions { app }
    }
}

impl<S, H> App<S, H> {
    /// Whether a route has the given operation id.
    pub open spec fn has_operation_id(&self, id: Seq<char>) -> bool {
        exists|i: int|
            0 <= i < self.routes().len() && (#[trigger] self.routes()[i]).operation.operation_id
                == Some(id)
    }

    /// Whether only the documentation of one route differs, and no document is kept.
    pub open spec fn redocuments(
        &self,
        before: &Self,
        index: int,
        operation: plan::OperationView,
    ) -> bool {
        &&& self.wf()
        &&& self.routes() == before.routes().update(
            index,
            with_operation(before.routes()[index], operation),
        )
        &&& *self == (App {
            metadata: self.metadata,
            openapi_bytes: None,
            swagger_bytes: None,
            ..*before
        })
    }

    /// A route whose documentation changes keeps its place.
    proof fn lemma_redocumented(
        &self,
        before: &Self,
        index: int,
        operation: plan::OperationView,
    )
        requires
            before.wf(),
            0 <= index < before.metadata@.len(),
            *self == (App {
                metadata: self.metadata,
                openapi_bytes: None,
                swagger_bytes: None,
                ..*before
            }),
            self.metadata@.len() == before.metadata@.len(),
            forall|i: int|
                0 <= i < before.metadata@.len() && i != index ==> #[trigger] self.metadata@[i]
                    == before.metadata@[i],
            self.metadata@[index]@ == with_operation(before.metadata@[index]@, operation),
            operation.operation_id is Some && operation.operation_id
                != before.routes()[index].operation.operation_id ==> !before.has_operation_id(
                operation.operation_id->0,
            ),
        ensures
            self.redocuments(before, index, operation),
    {
        let routes = before.routes();
        let others = self.routes();
        assert(others =~= routes.update(index, with_operation(routes[index], operation)));
        assert forall|i: int| 0 <= i < routes.len() implies registry::same_place(
            #[trigger] routes[i],
            others[i],
        ) by {}
        registry::lemma_same_places(self.static_table(), self.dynamic_routes@, routes, others);
        assert forall|i: int| 0 <= i < self.plans@.len() implies plan::plan_fits(
            #[trigger] self.plans@[i],
            self.metadata@[i]@,
            self.max_body_size,
        ) by {
            assert(plan::plan_fits(before.plans@[i], before.metadata@[i]@, before.max_body_size));
        }
        assert forall|i: int, j: int|
            0 <= i < j < others.len() && (
            #[trigger] others[i]).operation.operation_id is Some implies others[i].operation.operation_id
            != (#[trigger] others[j]).operation.operation_id by {
            assert(routes[i] == before.routes()[i] && routes[j] == before.routes()[j]);
        }
    }

    /// Sets the tag of the last route.
    pub fn tag(&mut self, tag: &str) -> (r: &mut Self)
        requires
            old(self).wf(),
        ensures
            match old(self).last_route {
                Some(index) => r.redocuments(
                    old(self),
                    index as int,
                    plan::OperationView {
                        tag: Some(tag@),
                        ..old(self).routes()[index as int].operation
                    },
                ),
                None => *r == *old(self),
            },
            *final(self) == *final(r),
    {
        if let Some(index) = self.last_route {
            let ghost before = *self;
            self.metadata[index].operation.tag = Some(tag.to_owned());
            self.invalidate_openapi_cache();
            proof {
                self.lemma_redocumented(
                    &before,
                    index as int,
                    plan::OperationView {
                        tag: Some(tag@),
                        ..before.routes()[index as int].operation
                    },
                );
            }
        }
        self
    }

    /// Sets the summary of the last route.
    pub fn summary(&mut self, summary: &str) -> (r: &mut Self)
        requires
            old(self).wf(),
        ensures
            match old(self).last_route {
                Some(index) => r.redocuments(
                    old(self),
                    index as int,
                    plan::OperationView {
                        summary: Some(summary@),
                        ..old(self).routes()[index as int].operation
                    },
                ),
                None => *r == *old(self),
            },
            *final(self) == *final(r),
    {
        if let Some(index) = self.last_route {
            let ghost before = *self;
            self.metadata[index].operation.summary = Some(summary.to_owned());
            self.invalidate_openapi_cache();
            proof {
                self.lemma_redocumented(
                    &before,
                    index as int,
                    plan::OperationView {
                        summary: Some(summary@),
                        ..before.routes()[index as int].operation
                    },
                );
            }
        }
        self
    }

    /// Sets the operation id of the last route. No other route may have it.
    pub fn operation_id(&mut self, operation_id: &str) -> (r: &mut Self)
        requires
            old(self).wf(),
            !old(self).has_operation_id(operation_id@),
        ensures
            match old(self).last_route {
                Some(index) => r.redocuments(
                    old(self),
                    index as int,
                    plan::OperationView {
                        operation_id: Some(operation_id@),
                        ..old(self).routes()[index as int].operation
                    },
                ),
                None => *r == *old(self),
            },
            *final(self) == *final(r),
    {
        if let Some(index) = self.last_route {
            let ghost before = *self;
            self.metadata[index].operation.operation_id = Some(operation_id.to_owned());
            self.invalidate_openapi_cache();
            proof {
                self.lemma_redocumented(
                    &before,
                    index as int,
                    plan::OperationView {
                        operation_id: Some(operation_id@),
                        ..before.routes()[index as int].operation
                    },
                );
            }
        }
        self
    }

    /// Whether an operation id is free.
    pub fn check_operation_id(&self, operation_id: &str) -> (r: bool)
        ensures
            r == !self.has_operation_id(operation_id@),
    {
        let mut i: usize = 0;
        while i < self.metadata.len()
            invariant
                i <= self.metadata@.len(),
                forall|j: int|
                    0 <= j < i ==> (#[trigger] self.routes()[j]).operation.operation_id != Some(
                        operation_id@,
                    ),
            decreases self.metadata@.len() - i,
        {
            assert(self.routes()[i as int] == self.metadata@[i as int]@);
            if let Some(id) = &self.metadata[i].operation.operation_id {
                if str_equal(id.as_str(), operation_id) {
                    return false;
                }
            }
            i += 1;
        }
        true
    }

    /// The OpenAPI document of the routes that are registered.
    pub fn openapi_document(&self) -> (r: Value)
        requires
            self.wf(),
        ensures
            json::json_tree(r) == openapi::document_tree(
                self.routes(),
                openapi::config_of(self.openapi_config),
            ),
    {
        assert forall|i: int| 0 <= i < self.metadata@.len() implies method::method_slot_of(
            (#[trigger] self.metadata@[i]).method@,
        ) is Some by {
            assert(self.routes()[i] == self.metadata@[i]@);
            assert(registry::entry_of(
                self.static_table(),
                self.dynamic_routes@,
                self.routes()[i],
            ) is Some);
        }
        openapi::openapi_document(&self.metadata, &self.openapi_config)
    }

    /// Writes the document, where it is enabled and none is kept.
    pub fn prepare_openapi(&mut self)
        requires
            old(self).wf(),
        ensures
            final(self).wf(),
            *final(self) == (App { openapi_bytes: final(self).openapi_bytes, ..*old(self) }),
            final(self).openapi_bytes is Some == old(self).openapi_config is Some,
    {
        if self.openapi_config.is_some() && self.openapi_bytes.is_none() {
            let document = self.openapi_document();
            self.openapi_bytes = Some(bytes_from_string(value_to_string(&document)));
        }
    }

    /// Writes the Swagger page, where it is enabled and none is kept.
    pub fn prepare_swagger(&mut self)
        requires
            old(self).wf(),
        ensures
            final(self).wf(),
            *final(self) == (App { swagger_bytes: final(self).swagger_bytes, ..*old(self) }),
            final(self).swagger_bytes is Some == old(self).swagger_config is Some,
    {
        if self.swagger_config.is_some() && self.swagger_bytes.is_none() {
            let path = match &self.openapi_config {
                Some(config) => Some(config.path.as_str()),
                None => None,
            };
            self.swagger_bytes = Some(swagger_html(path));
        }
    }
}

} // verus!
