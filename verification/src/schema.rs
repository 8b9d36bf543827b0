//! Schemas of types, and what extractors and derived types say of a request.

use crate::json;
use crate::json::{
    bool_value, clone_value, map_insert, new_map, object_mut, object_value, string_value,
};
use serde_json::Value;
use vstd::prelude::*;
use vstd::string::*;

verus! {

/// `uuid::Uuid`, of which only the schema is known here.
#[verifier::external_type_specification]
#[verifier::external_body]
pub struct ExUuid(uuid::Uuid);

/// The schema of a type that needs no more than its name.
pub open spec fn type_tree(name: Seq<char>) -> json::JsonTree {
    json::JsonTree::Object(json::no_json_fields().insert("type"@, json::JsonTree::Text(name)))
}

/// The schema of a type with a format.
pub open spec fn format_tree(name: Seq<char>, format: Seq<char>) -> json::JsonTree {
    json::JsonTree::Object(
        json::no_json_fields().insert("type"@, json::JsonTree::Text(name)).insert(
            "format"@,
            json::JsonTree::Text(format),
        ),
    )
}

/// The schema of a list.
pub open spec fn array_tree(items: json::JsonTree) -> json::JsonTree {
    json::JsonTree::Object(
        json::no_json_fields().insert("type"@, json::JsonTree::Text("array"@)).insert(
            "items"@,
            items,
        ),
    )
}

/// The schema of a type that needs no more than its name.
pub(crate) fn type_schema(name: &str) -> (r: Value)
    ensures
        json::json_tree(r) == type_tree(name@),
{
    let mut map = new_map();
    map_insert(&mut map, "type".to_owned(), string_value(name.to_owned()));
    object_value(map)
}

/// The schema of a type with a format.
fn format_schema(name: &str, format: &str) -> (r: Value)
    ensures
        json::json_tree(r) == format_tree(name@, format@),
{
    let mut map = new_map();
    map_insert(&mut map, "type".to_owned(), string_value(name.to_owned()));
    map_insert(&mut map, "format".to_owned(), string_value(format.to_owned()));
    object_value(map)
}

/// The types whose schema is known without reflection. Applications implement it for their
/// own types.
pub trait ApiSchema {
    /// The schema of the type.
    fn schema() -> (r: Value);
}

impl ApiSchema for String {
    fn schema() -> (r: Value)
        ensures
            json::json_tree(r) == type_tree("string"@),
    {
        type_schema("string")
    }
}

impl ApiSchema for u32 {
    fn schema() -> (r: Value)
        ensures
            json::json_tree(r) == format_tree("integer"@, "int32"@),
    {
        format_schema("integer", "int32")
    }
}

impl ApiSchema for u64 {
    fn schema() -> (r: Value)
        ensures
            json::json_tree(r) == format_tree("integer"@, "int64"@),
    {
        format_schema("integer", "int64")
    }
}

impl ApiSchema for i32 {
    fn schema() -> (r: Value)
        ensures
            json::json_tree(r) == format_tree("integer"@, "int32"@),
    {
        format_schema("integer", "int32")
    }
}

impl ApiSchema for i64 {
    fn schema() -> (r: Value)
        ensures
            json::json_tree(r) == format_tree("integer"@, "int64"@),
    {
        format_schema("integer", "int64")
    }
}

impl ApiSchema for bool {
    fn schema() -> (r: Value)
        ensures
            json::json_tree(r) == type_tree("boolean"@),
    {
        type_schema("boolean")
    }
}

impl ApiSchema for uuid::Uuid {
    fn schema() -> (r: Value)
        ensures
            json::json_tree(r) == format_tree("string"@, "uuid"@),
    {
        format_schema("string", "uuid")
    }
}

impl<T: ApiSchema> ApiSchema for Option<T> {
    fn schema() -> (r: Value)
        ensures
            call_ensures(T::schema, (), r),
    {
        T::schema()
    }
}

impl<T: ApiSchema> ApiSchema for Vec<T> {
    fn schema() -> (r: Value)
        ensures
            exists|items: Value| #[trigger]
                call_ensures(T::schema, (), items) && json::json_tree(r) == array_tree(
                    json::json_tree(items),
                ),
    {
        let items = T::schema();
        let ghost tree = json::json_tree(items);
        assert(call_ensures(T::schema, (), items));
        let mut map = new_map();
        map_insert(&mut map, "type".to_owned(), string_value("array".to_owned()));
        map_insert(&mut map, "items".to_owned(), items);
        object_value(map)
    }
}

impl<T: ApiSchema + ?Sized> ApiSchema for &T {
    fn schema() -> (r: Value)
        ensures
            call_ensures(T::schema, (), r),
    {
        T::schema()
    }
}

/// What a handler says of its request: the schemas of its path captures in order, its other
/// parameters, and its body.
#[derive(Debug)]
pub struct OpenApiRequest {
    pub path_schemas: Vec<Value>,
    pub parameters: Vec<Value>,
    pub request_body: Option<Value>,
}

/// What an [`OpenApiRequest`] holds.
#[verifier::ext_equal]
pub struct RequestView {
    pub path_schemas: Seq<json::JsonTree>,
    pub parameters: Seq<json::JsonTree>,
    pub request_body: Option<json::JsonTree>,
}

/// What an optional JSON value holds.
pub open spec fn optional_tree(value: Option<Value>) -> Option<json::JsonTree> {
    match value {
        Some(value) => Some(json::json_tree(value)),
        None => None,
    }
}

impl View for OpenApiRequest {
    type V = RequestView;

    open spec fn view(&self) -> RequestView {
        RequestView {
            path_schemas: json::json_trees(self.path_schemas@),
            parameters: json::json_trees(self.parameters@),
            request_body: optional_tree(self.request_body),
        }
    }
}

/// A request of which nothing is said.
pub open spec fn empty_request() -> RequestView {
    RequestView { path_schemas: Seq::empty(), parameters: Seq::empty(), request_body: None }
}

/// What two extractors say together. The body of the first counts.
pub open spec fn merged_request(first: RequestView, second: RequestView) -> RequestView {
    RequestView {
        path_schemas: first.path_schemas + second.path_schemas,
        parameters: first.parameters + second.parameters,
        request_body: match first.request_body {
            Some(body) => Some(body),
            None => second.request_body,
        },
    }
}

/// Copies a list of JSON values.
pub(crate) fn clone_values(values: &Vec<Value>) -> (r: Vec<Value>)
    ensures
        json::json_trees(r@) == json::json_trees(values@),
{
    let mut result: Vec<Value> = Vec::new();
    let mut i: usize = 0;
    while i < values.len()
        invariant
            i <= values@.len(),
            result@.len() == i,
            forall|j: int|
                0 <= j < i ==> json::json_tree(#[trigger] result@[j]) == json::json_tree(values@[j]),
        decreases values@.len() - i,
    {
        result.push(clone_value(&values[i]));
        i += 1;
    }
    assert(json::json_trees(result@) =~= json::json_trees(values@));
    result
}

/// Copies an optional JSON value.
pub(crate) fn clone_optional(value: &Option<Value>) -> (r: Option<Value>)
    ensures
        optional_tree(r) == optional_tree(*value),
{
    match value {
        Some(value) => Some(clone_value(value)),
        None => None,
    }
}

impl Default for OpenApiRequest {
    fn default() -> (r: Self)
        ensures
            r@ == empty_request(),
    {
        let request = OpenApiRequest {
            path_schemas: Vec::new(),
            parameters: Vec::new(),
            request_body: None,
        };
        assert(request@ =~= empty_request());
        request
    }
}

impl Clone for OpenApiRequest {
    fn clone(&self) -> (r: Self)
        ensures
            r@ == self@,
    {
        OpenApiRequest {
            path_schemas: clone_values(&self.path_schemas),
            parameters: clone_values(&self.parameters),
            request_body: clone_optional(&self.request_body),
        }
    }
}

impl OpenApiRequest {
    /// Adds what another extractor says.
    pub fn merge(&mut self, other: Self)
        ensures
            final(self)@ == merged_request(old(self)@, other@),
    {
        let mut other = other;
        let ghost added = other@;
        self.path_schemas.append(&mut other.path_schemas);
        self.parameters.append(&mut other.parameters);
        if self.request_body.is_none() {
            self.request_body = other.request_body;
        }
        assert(self@ =~= merged_request(old(self)@, added));
    }

    /// What an extractor of a path capture says, given the schema of its type.
    pub fn for_path(schema: Value) -> (r: Self)
        ensures
            r@ == path_request(json::json_tree(schema)),
    {
        let mut path_schemas: Vec<Value> = Vec::new();
        path_schemas.push(schema);
        let request = OpenApiRequest { path_schemas, parameters: Vec::new(), request_body: None };
        assert(request@ =~= path_request(json::json_tree(schema)));
        request
    }

    /// What an extractor of query parameters says.
    pub fn for_query(parameters: Vec<Value>) -> (r: Self)
        ensures
            r@ == (RequestView {
                path_schemas: Seq::empty(),
                parameters: json::json_trees(parameters@),
                request_body: None,
            }),
    {
        let request = OpenApiRequest { path_schemas: Vec::new(), parameters, request_body: None };
        assert(request@.path_schemas =~= Seq::empty());
        request
    }

    /// What an extractor of a JSON body says, given the schema of its type.
    pub fn for_json(schema: Value) -> (r: Self)
        ensures
            r@ == json_request(json::json_tree(schema)),
    {
        let mut media = new_map();
        map_insert(&mut media, "schema".to_owned(), schema);
        let mut content = new_map();
        map_insert(&mut content, "application/json".to_owned(), object_value(media));
        let mut body = new_map();
        map_insert(&mut body, "required".to_owned(), bool_value(true));
        map_insert(&mut body, "content".to_owned(), object_value(content));
        let request = OpenApiRequest {
            path_schemas: Vec::new(),
            parameters: Vec::new(),
            request_body: Some(object_value(body)),
        };
        assert(request@ =~= json_request(json::json_tree(schema)));
        request
    }

    /// What an extractor of a header field says.
    pub fn for_header(name: &str) -> (r: Self)
        ensures
            r@ == header_request(name@),
    {
        let mut parameters: Vec<Value> = Vec::new();
        parameters.push(parameter_value("header", name, true, type_schema("string")));
        let request = OpenApiRequest { path_schemas: Vec::new(), parameters, request_body: None };
        assert(request@ =~= header_request(name@));
        request
    }

    /// What an extractor says when its input may be absent: nothing is required.
    pub fn optional(self) -> (r: Self)
        ensures
            r@ == optional_request(self@),
    {
        let OpenApiRequest { path_schemas, parameters, request_body } = self;
        let mut parameters = parameters;
        let mut request_body = request_body;
        let ghost before = parameters@;
        let mut i: usize = 0;
        while i < parameters.len()
            invariant
                i <= parameters@.len(),
                parameters@.len() == before.len(),
                forall|j: int|
                    0 <= j < i ==> json::json_tree(#[trigger] parameters@[j]) == not_required(
                        json::json_tree(before[j]),
                    ),
                forall|j: int| i <= j < before.len() ==> #[trigger] parameters@[j] == before[j],
            decreases parameters@.len() - i,
        {
            set_not_required(&mut parameters[i]);
            i += 1;
        }
        if let Some(body) = &mut request_body {
            set_not_required(body);
        }
        let request = OpenApiRequest { path_schemas, parameters, request_body };
        assert(request@ =~= optional_request(self@));
        request
    }
}

/// What an extractor of a path capture says.
pub open spec fn path_request(schema: json::JsonTree) -> RequestView {
    RequestView { path_schemas: seq![schema], parameters: Seq::empty(), request_body: None }
}

/// What an extractor of a JSON body says.
pub open spec fn json_request(schema: json::JsonTree) -> RequestView {
    let media = json::JsonTree::Object(json::no_json_fields().insert("schema"@, schema));
    let content = json::JsonTree::Object(json::no_json_fields().insert("application/json"@, media));
    RequestView {
        path_schemas: Seq::empty(),
        parameters: Seq::empty(),
        request_body: Some(
            json::JsonTree::Object(
                json::no_json_fields().insert("required"@, json::JsonTree::Bool(true)).insert(
                    "content"@,
                    content,
                ),
            ),
        ),
    }
}

/// A parameter: where it stands, its name, whether it is required, and its schema.
pub open spec fn parameter_tree(
    place: Seq<char>,
    name: Seq<char>,
    required: bool,
    schema: json::JsonTree,
) -> json::JsonTree {
    json::JsonTree::Object(
        json::no_json_fields().insert("in"@, json::JsonTree::Text(place)).insert(
            "name"@,
            json::JsonTree::Text(name),
        ).insert("required"@, json::JsonTree::Bool(required)).insert("schema"@, schema),
    )
}

/// A parameter.
pub(crate) fn parameter_value(place: &str, name: &str, required: bool, schema: Value) -> (r: Value)
    ensures
        json::json_tree(r) == parameter_tree(place@, name@, required, json::json_tree(schema)),
{
    let mut map = new_map();
    map_insert(&mut map, "in".to_owned(), string_value(place.to_owned()));
    map_insert(&mut map, "name".to_owned(), string_value(name.to_owned()));
    map_insert(&mut map, "required".to_owned(), bool_value(required));
    map_insert(&mut map, "schema".to_owned(), schema);
    object_value(map)
}

/// What an extractor of a header field says.
pub open spec fn header_request(name: Seq<char>) -> RequestView {
    RequestView {
        path_schemas: Seq::empty(),
        parameters: seq![parameter_tree("header"@, name, true, type_tree("string"@))],
        request_body: None,
    }
}

/// An object that is not required. Every other value is left as it is.
pub open spec fn not_required(tree: json::JsonTree) -> json::JsonTree {
    match tree {
        json::JsonTree::Object(fields) => json::JsonTree::Object(
            fields.insert("required"@, json::JsonTree::Bool(false)),
        ),
        _ => tree,
    }
}

/// What an extractor says when its input may be absent.
pub open spec fn optional_request(request: RequestView) -> RequestView {
    RequestView {
        path_schemas: request.path_schemas,
        parameters: request.parameters.map_values(|tree: json::JsonTree| not_required(tree)),
        request_body: match request.request_body {
            Some(body) => Some(not_required(body)),
            None => None,
        },
    }
}

/// Says of an object that it is not required.
fn set_not_required(value: &mut Value)
    ensures
        json::json_tree(*final(value)) == not_required(json::json_tree(*old(value))),
{
    if let Some(map) = object_mut(value) {
        map_insert(map, "required".to_owned(), bool_value(false));
    }
}

} // verus!
