//! The OpenAPI document, the Swagger page, and what they are configured with.

use crate::json;
use crate::json::{
    array_value, clone_value, map_get_mut, map_insert, new_map, object_mut, object_value,
    string_value,
};
use crate::method;
use crate::method::{method_slot, Method};
use crate::number;
use crate::number::decimal_string;
use crate::path;
use crate::path::Segment;
use crate::payload;
use crate::payload::bytes_from_string;
use crate::plan;
use crate::plan::{Operation, RouteMetadata};
use crate::schema;
use crate::schema::{clone_values, parameter_value, type_schema};
use bytes::Bytes;
use serde_json::{Map as JsonMap, Value};
use vstd::prelude::*;
use vstd::string::*;
use vstd::utf8::*;

verus! {

/// Where the OpenAPI document is served, and what it says of the application.
pub struct OpenApiConfig {
    pub path: String,
    pub title: String,
    pub version: String,
    pub description: Option<String>,
}

/// What an [`OpenApiConfig`] says.
pub struct ConfigView {
    pub path: Seq<char>,
    pub title: Seq<char>,
    pub version: Seq<char>,
    pub description: Option<Seq<char>>,
}

impl View for OpenApiConfig {
    type V = ConfigView;

    open spec fn view(&self) -> ConfigView {
        ConfigView {
            path: self.path@,
            title: self.title@,
            version: self.version@,
            description: plan::optional_text(self.description),
        }
    }
}

/// The configuration of an application that set nothing.
pub open spec fn default_config() -> ConfigView {
    ConfigView {
        path: "/openapi.json"@,
        title: "oas-rs"@,
        version: "0.1.0"@,
        description: None,
    }
}

impl Default for OpenApiConfig {
    fn default() -> (r: Self)
        ensures
            r@ == default_config(),
    {
        OpenApiConfig {
            path: "/openapi.json".to_owned(),
            title: "oas-rs".to_owned(),
            version: "0.1.0".to_owned(),
            description: None,
        }
    }
}

/// Where the Swagger page is served.
pub struct SwaggerConfig {
    pub path: String,
}

/// An error raised while an application is compiled into a runtime.
#[derive(Debug, PartialEq, Eq)]
pub enum BuildError {
    RouteConflict { path: String, method: Method },
    InvalidGeneratedPath { path: String },
    TooManyCaptures { path: String, captures: usize, max: usize },
}

/// What a [`BuildError`] says.
pub enum BuildErrorView {
    RouteConflict(Seq<char>, Seq<char>),
    InvalidGeneratedPath(Seq<char>),
    TooManyCaptures(Seq<char>, int, int),
}

impl View for BuildError {
    type V = BuildErrorView;

    open spec fn view(&self) -> BuildErrorView {
        match self {
            BuildError::RouteConflict { path, method } => BuildErrorView::RouteConflict(
                path@,
                method@,
            ),
            BuildError::InvalidGeneratedPath { path } => BuildErrorView::InvalidGeneratedPath(path@),
            BuildError::TooManyCaptures { path, captures, max } => BuildErrorView::TooManyCaptures(
                path@,
                *captures as int,
                *max as int,
            ),
        }
    }
}

/// The message of a [`BuildError`].
pub open spec fn build_message(error: BuildErrorView) -> Seq<char> {
    match error {
        BuildErrorView::RouteConflict(path, method) => "generated route conflicts with "@ + method
            + " "@ + path,
        BuildErrorView::InvalidGeneratedPath(path) => "generated route must be static: "@ + path,
        BuildErrorView::TooManyCaptures(path, captures, max) => "route has "@ + number::decimal(
            captures as nat,
        ) + " captures, at most "@ + number::decimal(max as nat) + " are supported: "@ + path,
    }
}

impl BuildError {
    /// The message of the error.
    pub fn message(&self) -> (r: String)
        ensures
            r@ == build_message(self@),
    {
        match self {
            BuildError::RouteConflict { path, method } => {
                let mut message = "generated route conflicts with ".to_owned();
                message.append(method.as_str());
                message.append(" ");
                message.append(path.as_str());
                message
            },
            BuildError::InvalidGeneratedPath { path } => {
                let mut message = "generated route must be static: ".to_owned();
                message.append(path.as_str());
                message
            },
            BuildError::TooManyCaptures { path, captures, max } => {
                let mut message = "route has ".to_owned();
                message.append(decimal_string(*captures as u64).as_str());
                message.append(" captures, at most ");
                message.append(decimal_string(*max as u64).as_str());
                message.append(" are supported: ");
                message.append(path.as_str());
                message
            },
        }
    }
}

/// A character in lower case, if it is an ASCII letter.
pub open spec fn lower_char(c: char) -> char {
    if 'A' <= c <= 'Z' {
        (c as u8 + 32) as u8 as char
    } else {
        c
    }
}

/// A text in lower case, as far as its letters are ASCII.
pub open spec fn lower_text(s: Seq<char>) -> Seq<char> {
    s.map_values(|c: char| lower_char(c))
}

/// The name of a routable method in lower case.
fn method_key(method: &Method) -> (r: String)
    requires
        method::method_slot_of(method@) is Some,
    ensures
        r@ == lower_text(method@),
{
    proof {
        lemma_lower_names();
    }
    let slot: usize = match method_slot(method) {
        Some(slot) => slot,
        None => 0,
    };
    let name = match slot {
        0 => "delete",
        1 => "get",
        2 => "head",
        3 => "options",
        4 => "patch",
        5 => "post",
        _ => "put",
    };
    name.to_owned()
}

/// The names of the routable methods in lower case.
pub proof fn lemma_lower_names()
    ensures
        lower_text("DELETE"@) == "delete"@,
        lower_text("GET"@) == "get"@,
        lower_text("HEAD"@) == "head"@,
        lower_text("OPTIONS"@) == "options"@,
        lower_text("PATCH"@) == "patch"@,
        lower_text("POST"@) == "post"@,
        lower_text("PUT"@) == "put"@,
{
    reveal_strlit("DELETE");
    reveal_strlit("GET");
    reveal_strlit("HEAD");
    reveal_strlit("OPTIONS");
    reveal_strlit("PATCH");
    reveal_strlit("POST");
    reveal_strlit("PUT");
    reveal_strlit("delete");
    reveal_strlit("get");
    reveal_strlit("head");
    reveal_strlit("options");
    reveal_strlit("patch");
    reveal_strlit("post");
    reveal_strlit("put");
    assert(lower_text("DELETE"@) =~= "delete"@);
    assert(lower_text("GET"@) =~= "get"@);
    assert(lower_text("HEAD"@) =~= "head"@);
    assert(lower_text("OPTIONS"@) =~= "options"@);
    assert(lower_text("PATCH"@) =~= "patch"@);
    assert(lower_text("POST"@) =~= "post"@);
    assert(lower_text("PUT"@) =~= "put"@);
}

/// Routable methods with the same name in lower case are the same.
pub proof fn lemma_lower_injective(a: Seq<char>, b: Seq<char>)
    requires
        method::method_slot_of(a) is Some,
        method::method_slot_of(b) is Some,
        lower_text(a) == lower_text(b),
    ensures
        a == b,
{
    lemma_lower_names();
    reveal_strlit("delete");
    reveal_strlit("get");
    reveal_strlit("head");
    reveal_strlit("options");
    reveal_strlit("patch");
    reveal_strlit("post");
    reveal_strlit("put");
    assert("delete"@.len() == 6 && "get"@.len() == 3 && "head"@.len() == 4 && "options"@.len()
        == 7);
    assert("patch"@.len() == 5 && "post"@.len() == 4 && "put"@.len() == 3);
    assert("get"@[0] != "put"@[0]);
    assert("head"@[0] != "post"@[0]);
}

/// The schema of the path capture with the given number: the one that was named, or that of
/// a string.
pub open spec fn capture_schema(schemas: Seq<json::JsonTree>, index: int) -> json::JsonTree {
    if index < schemas.len() {
        schemas[index]
    } else {
        schema::type_tree("string"@)
    }
}

/// The path parameters of the first `n` segments of a template.
pub open spec fn path_parameters(
    segments: Seq<path::SegmentView>,
    schemas: Seq<json::JsonTree>,
    n: int,
) -> Seq<json::JsonTree>
    decreases n,
{
    if n <= 0 {
        Seq::empty()
    } else {
        let before = path_parameters(segments, schemas, n - 1);
        match segments[n - 1] {
            path::SegmentView::Capture(name) => before.push(
                schema::parameter_tree(
                    "path"@,
                    name,
                    true,
                    capture_schema(schemas, before.len() as int),
                ),
            ),
            path::SegmentView::Static(_) => before,
        }
    }
}

/// The parameters of a route: those that its extractors name, and those of its path.
pub open spec fn parameters_of(route: plan::RouteView) -> Seq<json::JsonTree> {
    route.operation.request.parameters + path_parameters(
        route.segments,
        route.operation.request.path_schemas,
        route.segments.len() as int,
    )
}

/// What a status means.
pub open spec fn status_text(status: u16) -> Seq<char> {
    if status == 204 {
        "No Content"@
    } else if status == 304 {
        "Not Modified"@
    } else if status == 201 {
        "Created"@
    } else {
        "Success"@
    }
}

/// The response of an operation in the document.
pub open spec fn response_tree(operation: plan::OperationView) -> json::JsonTree {
    let described = json::no_json_fields().insert(
        "description"@,
        json::JsonTree::Text(status_text(operation.status)),
    );
    json::JsonTree::Object(
        match operation.schema {
            Some(schema) => described.insert(
                "content"@,
                json::JsonTree::Object(
                    json::no_json_fields().insert(
                        "application/json"@,
                        json::JsonTree::Object(json::no_json_fields().insert("schema"@, schema)),
                    ),
                ),
            ),
            None => described,
        },
    )
}

/// A map with a field more, where there is a value for it.
pub open spec fn with_optional(
    fields: Map<Seq<char>, json::JsonTree>,
    key: Seq<char>,
    value: Option<json::JsonTree>,
) -> Map<Seq<char>, json::JsonTree> {
    match value {
        Some(value) => fields.insert(key, value),
        None => fields,
    }
}

/// An optional text as JSON.
pub open spec fn text_tree(text: Option<Seq<char>>) -> Option<json::JsonTree> {
    match text {
        Some(text) => Some(json::JsonTree::Text(text)),
        None => None,
    }
}

/// The operation of a route in the document.
pub open spec fn operation_tree(route: plan::RouteView) -> json::JsonTree {
    let operation = route.operation;
    let tagged = with_optional(
        json::no_json_fields(),
        "tags"@,
        match operation.tag {
            Some(tag) => Some(json::JsonTree::List(seq![json::JsonTree::Text(tag)])),
            None => None,
        },
    );
    let summarized = with_optional(tagged, "summary"@, text_tree(operation.summary));
    let named = with_optional(summarized, "operationId"@, text_tree(operation.operation_id));
    let parameters = parameters_of(route);
    let with_parameters = with_optional(
        named,
        "parameters"@,
        if parameters.len() > 0 {
            Some(json::JsonTree::List(parameters))
        } else {
            None
        },
    );
    let with_body = with_optional(
        with_parameters,
        "requestBody"@,
        operation.request.request_body,
    );
    json::JsonTree::Object(
        with_body.insert(
            "responses"@,
            json::JsonTree::Object(
                json::no_json_fields().insert(
                    number::decimal(operation.status as nat),
                    response_tree(operation),
                ),
            ),
        ),
    )
}

/// The operations of a path, by method.
pub open spec fn operations_at(paths: Map<Seq<char>, json::JsonTree>, template: Seq<char>) -> Map<
    Seq<char>,
    json::JsonTree,
> {
    if paths.contains_key(template) {
        match paths[template] {
            json::JsonTree::Object(operations) => operations,
            _ => Map::empty(),
        }
    } else {
        Map::empty()
    }
}

/// The paths of the document: an operation for each route that the application registered,
/// under its template and its method in lower case.
pub open spec fn paths_of(routes: Seq<plan::RouteView>, n: int) -> Map<Seq<char>, json::JsonTree>
    decreases n,
{
    if n <= 0 {
        Map::empty()
    } else {
        let before = paths_of(routes, n - 1);
        let route = routes[n - 1];
        if route.builtin {
            before
        } else {
            before.insert(
                route.template,
                json::JsonTree::Object(
                    operations_at(before, route.template).insert(
                        lower_text(route.method),
                        operation_tree(route),
                    ),
                ),
            )
        }
    }
}

/// What the document says of the application.
pub open spec fn info_tree(config: ConfigView) -> json::JsonTree {
    json::JsonTree::Object(
        with_optional(
            json::no_json_fields().insert("title"@, json::JsonTree::Text(config.title)).insert(
                "version"@,
                json::JsonTree::Text(config.version),
            ),
            "description"@,
            text_tree(config.description),
        ),
    )
}

/// The OpenAPI document of an application.
pub open spec fn document_tree(routes: Seq<plan::RouteView>, config: ConfigView) -> json::JsonTree {
    json::JsonTree::Object(
        json::no_json_fields().insert("openapi"@, json::JsonTree::Text("3.1.0"@)).insert(
            "info"@,
            info_tree(config),
        ).insert("paths"@, json::JsonTree::Object(paths_of(routes, routes.len() as int))),
    )
}

/// The configuration that the document goes by.
pub open spec fn config_of(config: Option<OpenApiConfig>) -> ConfigView {
    match config {
        Some(config) => config@,
        None => default_config(),
    }
}

/// The parameters of a route.
fn route_parameters(route: &RouteMetadata) -> (r: Vec<Value>)
    ensures
        json::json_trees(r@) == parameters_of(route@),
{
    let mut parameters = clone_values(&route.operation.request.parameters);
    let ghost named = json::json_trees(parameters@);
    let ghost schemas = json::json_trees(route.operation.request.path_schemas@);
    let ghost segments = path::segment_views(route.segments@);
    let mut captures: usize = 0;
    let mut i: usize = 0;
    assert(named + Seq::empty() =~= named);
    while i < route.segments.len()
        invariant
            i <= route.segments@.len(),
            segments == path::segment_views(route.segments@),
            schemas == json::json_trees(route.operation.request.path_schemas@),
            captures == path_parameters(segments, schemas, i as int).len(),
            captures <= i,
            json::json_trees(parameters@) == named + path_parameters(segments, schemas, i as int),
        decreases route.segments@.len() - i,
    {
        assert(segments[i as int] == route.segments@[i as int]@);
        if let Segment::Capture(name) = &route.segments[i] {
            let ghost before = parameters@;
            let schemas = &route.operation.request.path_schemas;
            let schema = if captures < schemas.len() {
                clone_value(&schemas[captures])
            } else {
                type_schema("string")
            };
            parameters.push(parameter_value("path", name.as_str(), true, schema));
            captures += 1;
            assert(json::json_trees(parameters@) =~= json::json_trees(before).push(
                json::json_tree(parameters@.last()),
            ));
            assert(json::json_trees(parameters@) =~= named + path_parameters(
                segments,
                json::json_trees(route.operation.request.path_schemas@),
                i + 1,
            ));
        }
        i += 1;
    }
    parameters
}

/// What a status means.
fn status_description(status: u16) -> (r: &'static str)
    ensures
        r@ == status_text(status),
{
    match status {
        204 => "No Content",
        304 => "Not Modified",
        201 => "Created",
        _ => "Success",
    }
}

/// The response of an operation in the document.
fn response_value(operation: &Operation) -> (r: Value)
    ensures
        json::json_tree(r) == response_tree(operation@),
{
    let mut response = new_map();
    map_insert(
        &mut response,
        "description".to_owned(),
        string_value(status_description(operation.response_status.as_u16()).to_owned()),
    );
    if let Some(schema) = &operation.response_schema {
        let mut media = new_map();
        map_insert(&mut media, "schema".to_owned(), clone_value(schema));
        let mut content = new_map();
        map_insert(&mut content, "application/json".to_owned(), object_value(media));
        map_insert(&mut response, "content".to_owned(), object_value(content));
    }
    object_value(response)
}

/// Sets a field to a text, where there is one.
fn insert_text(map: &mut JsonMap<String, Value>, key: &str, text: &Option<String>)
    ensures
        json::json_fields(*final(map)) == with_optional(
            json::json_fields(*old(map)),
            key@,
            text_tree(plan::optional_text(*text)),
        ),
{
    if let Some(text) = text {
        map_insert(map, key.to_owned(), string_value(text.clone()));
    }
}

/// The operation of a route in the document.
pub fn operation_value(route: &RouteMetadata) -> (r: Value)
    ensures
        json::json_tree(r) == operation_tree(route@),
{
    let operation = &route.operation;
    let mut fields = new_map();
    if let Some(tag) = &operation.tag {
        let mut tags: Vec<Value> = Vec::new();
        tags.push(string_value(tag.clone()));
        assert(json::json_trees(tags@) =~= seq![json::JsonTree::Text(tag@)]);
        map_insert(&mut fields, "tags".to_owned(), array_value(tags));
    }
    insert_text(&mut fields, "summary", &operation.summary);
    insert_text(&mut fields, "operationId", &operation.operation_id);
    let parameters = route_parameters(route);
    assert(parameters@.len() == parameters_of(route@).len());
    if parameters.len() > 0 {
        map_insert(&mut fields, "parameters".to_owned(), array_value(parameters));
    }
    if let Some(body) = &operation.request.request_body {
        map_insert(&mut fields, "requestBody".to_owned(), clone_value(body));
    }
    let mut responses = new_map();
    map_insert(
        &mut responses,
        decimal_string(operation.response_status.as_u16() as u64),
        response_value(operation),
    );
    map_insert(&mut fields, "responses".to_owned(), object_value(responses));
    object_value(fields)
}

/// Whether every path of a document holds operations.
spec fn all_objects(paths: Map<Seq<char>, json::JsonTree>) -> bool {
    forall|template: Seq<char>|
        paths.contains_key(template) ==> (#[trigger] paths[template]) is Object
}

/// Adds an operation to the paths of a document.
fn insert_operation(
    paths: &mut JsonMap<String, Value>,
    template: &String,
    method: String,
    operation: Value,
)
    requires
        all_objects(json::json_fields(*old(paths))),
    ensures
        json::json_fields(*final(paths)) == json::json_fields(*old(paths)).insert(
            template@,
            json::JsonTree::Object(
                operations_at(json::json_fields(*old(paths)), template@).insert(
                    method@,
                    json::json_tree(operation),
                ),
            ),
        ),
{
    match map_get_mut(paths, template.as_str()) {
        Some(item) => {
            if let Some(operations) = object_mut(item) {
                map_insert(operations, method, operation);
            }
        },
        None => {
            let mut operations = new_map();
            map_insert(&mut operations, method, operation);
            map_insert(paths, template.clone(), object_value(operations));
        },
    }
}

/// The OpenAPI document of an application.
pub fn openapi_document(routes: &Vec<RouteMetadata>, config: &Option<OpenApiConfig>) -> (r: Value)
    requires
        forall|i: int|
            0 <= i < routes@.len() ==> method::method_slot_of(
                (#[trigger] routes@[i]).method@,
            ) is Some,
    ensures
        json::json_tree(r) == document_tree(plan::route_views(routes@), config_of(*config)),
{
    let ghost views = plan::route_views(routes@);
    let mut paths = new_map();
    let mut i: usize = 0;
    while i < routes.len()
        invariant
            i <= routes@.len(),
            views == plan::route_views(routes@),
            forall|j: int|
                0 <= j < routes@.len() ==> method::method_slot_of(
                    (#[trigger] routes@[j]).method@,
                ) is Some,
            json::json_fields(paths) == paths_of(views, i as int),
            all_objects(json::json_fields(paths)),
        decreases routes@.len() - i,
    {
        let route = &routes[i];
        assert(views[i as int] == route@);
        if !route.builtin {
            let operation = operation_value(route);
            insert_operation(&mut paths, &route.template, method_key(&route.method), operation);
        }
        i += 1;
    }
    let default = OpenApiConfig::default();
    let used = match config {
        Some(config) => config,
        None => &default,
    };
    let mut info = new_map();
    map_insert(&mut info, "title".to_owned(), string_value(used.title.clone()));
    map_insert(&mut info, "version".to_owned(), string_value(used.version.clone()));
    insert_text(&mut info, "description", &used.description);
    let mut document = new_map();
    map_insert(&mut document, "openapi".to_owned(), string_value("3.1.0".to_owned()));
    map_insert(&mut document, "info".to_owned(), object_value(info));
    map_insert(&mut document, "paths".to_owned(), object_value(paths));
    object_value(document)
}

/// The text of the Swagger page before the JSON text of the document's path.
pub open spec fn swagger_head() -> Seq<char> {
    "<!doctype html><html><head><title>Swagger UI</title><link rel=\"stylesheet\" href=\"https://unpkg.com/swagger-ui-dist@5/swagger-ui.css\"></head><body><div id=\"swagger-ui\">Loading Swagger UI…</div><script src=\"https://unpkg.com/swagger-ui-dist@5/swagger-ui-bundle.js\"></script><script>window.onload=()=>window.ui=SwaggerUIBundle({url:"@
}

/// The text of the Swagger page behind the JSON text of the document's path.
pub open spec fn swagger_tail() -> Seq<char> {
    ",dom_id:'#swagger-ui'});</script></body></html>"@
}

/// The text of the Swagger page for a document at the given path.
pub open spec fn swagger_text(path: Option<Seq<char>>) -> Seq<char> {
    let path = match path {
        Some(path) => path,
        None => "/openapi.json"@,
    };
    swagger_head() + json::json_quoted(path) + swagger_tail()
}

/// The Swagger page for a document at the given path.
pub fn swagger_html(openapi_path: Option<&str>) -> (r: Bytes)
    ensures
        payload::bytes_contents(r) == encode_utf8(
            swagger_text(
                match openapi_path {
                    Some(path) => Some(path@),
                    None => None,
                },
            ),
        ),
{
    let path = match openapi_path {
        Some(path) => path,
        None => "/openapi.json",
    };
    swagger_page(json::quote_text(path).as_str())
}

/// The Swagger page around the JSON text of the document's path.
pub fn swagger_page(quoted: &str) -> (r: Bytes)
    ensures
        payload::bytes_contents(r) == encode_utf8(swagger_head() + quoted@ + swagger_tail()),
{
    let mut page = "<!doctype html><html><head><title>Swagger UI</title><link rel=\"stylesheet\" href=\"https://unpkg.com/swagger-ui-dist@5/swagger-ui.css\"></head><body><div id=\"swagger-ui\">Loading Swagger UI…</div><script src=\"https://unpkg.com/swagger-ui-dist@5/swagger-ui-bundle.js\"></script><script>window.onload=()=>window.ui=SwaggerUIBundle({url:".to_owned();
    page.append(quoted);
    page.append(",dom_id:'#swagger-ui'});</script></body></html>");
    bytes_from_string(page)
}

} // verus!
