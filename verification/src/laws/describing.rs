//! What holds of the documents: schemas, parameters, operations and the document as a whole.

use crate::app::App;
use crate::derive::SchemaField;
use crate::json;
use crate::json::JsonTree;
use crate::laws;
use crate::method;
use crate::number;
use crate::openapi;
use crate::path;
use crate::plan;
use crate::schema;
use vstd::prelude::*;
use vstd::string::*;

verus! {

/// What an object has under a key, if the value is an object that has the key.
pub open spec fn member(tree: JsonTree, key: Seq<char>) -> Option<JsonTree> {
    match tree {
        JsonTree::Object(fields) => if fields.contains_key(key) {
            Some(fields[key])
        } else {
            None
        },
        _ => None,
    }
}

/// Whether an object has a key of a list.
pub open spec fn has_only(tree: JsonTree, keys: Seq<Seq<char>>) -> bool {
    tree is Object && forall|key: Seq<char>| #[trigger]
        member(tree, key) is Some ==> keys.contains(key)
}

/// The keys that schemas, parameters and responses are made of are different.
pub proof fn lemma_keys()
    ensures
        "type"@ != "format"@ && "type"@ != "items"@ && "type"@ != "properties"@,
        "type"@ != "required"@ && "properties"@ != "required"@,
        "in"@ != "name"@ && "in"@ != "required"@ && "in"@ != "schema"@,
        "name"@ != "required"@ && "name"@ != "schema"@ && "required"@ != "schema"@,
        "required"@ != "content"@ && "description"@ != "content"@,
        "responses"@ != "tags"@ && "responses"@ != "summary"@ && "responses"@ != "operationId"@,
        "responses"@ != "parameters"@ && "responses"@ != "requestBody"@,
        "tags"@ != "summary"@ && "tags"@ != "operationId"@ && "tags"@ != "parameters"@,
        "tags"@ != "requestBody"@ && "summary"@ != "operationId"@ && "summary"@ != "parameters"@,
        "summary"@ != "requestBody"@ && "operationId"@ != "parameters"@,
        "operationId"@ != "requestBody"@ && "parameters"@ != "requestBody"@,
{
    reveal_strlit("type");
    reveal_strlit("format");
    reveal_strlit("items");
    reveal_strlit("properties");
    reveal_strlit("required");
    reveal_strlit("in");
    reveal_strlit("name");
    reveal_strlit("schema");
    reveal_strlit("content");
    reveal_strlit("description");
    reveal_strlit("responses");
    reveal_strlit("tags");
    reveal_strlit("summary");
    reveal_strlit("operationId");
    reveal_strlit("parameters");
    reveal_strlit("requestBody");
    assert("type"@.len() == 4 && "format"@.len() == 6 && "items"@.len() == 5);
    assert("properties"@.len() == 10 && "required"@.len() == 8 && "in"@.len() == 2);
    assert("name"@.len() == 4 && "schema"@.len() == 6 && "content"@.len() == 7);
    assert("description"@.len() == 11 && "responses"@.len() == 9 && "tags"@.len() == 4);
    assert("summary"@.len() == 7 && "operationId"@.len() == 11 && "parameters"@.len() == 10);
    assert("requestBody"@.len() == 11);
    assert("operationId"@[0] == 'o' && "requestBody"@[0] == 'r');
}

/// The schema of a type names the type, and its format or its items where it has them, and
/// says nothing else.
pub proof fn law_schemas_name_their_types(name: Seq<char>, format: Seq<char>, items: JsonTree)
    ensures
        member(schema::type_tree(name), "type"@) == Some(JsonTree::Text(name)),
        has_only(schema::type_tree(name), seq!["type"@]),
        member(schema::format_tree(name, format), "type"@) == Some(JsonTree::Text(name)),
        member(schema::format_tree(name, format), "format"@) == Some(JsonTree::Text(format)),
        has_only(schema::format_tree(name, format), seq!["type"@, "format"@]),
        member(schema::array_tree(items), "type"@) == Some(JsonTree::Text("array"@)),
        member(schema::array_tree(items), "items"@) == Some(items),
        has_only(schema::array_tree(items), seq!["type"@, "items"@]),
{
    lemma_keys();
    assert(seq!["type"@][0] == "type"@);
    assert(seq!["type"@, "format"@][0] == "type"@ && seq!["type"@, "format"@][1] == "format"@);
    assert(seq!["type"@, "items"@][0] == "type"@ && seq!["type"@, "items"@][1] == "items"@);
}

/// A parameter says where it stands, what it is called, whether it is required and what its
/// schema is, and nothing else.
pub proof fn law_parameters_say_what_they_are(
    place: Seq<char>,
    name: Seq<char>,
    required: bool,
    of: JsonTree,
)
    ensures
        ({
            let parameter = schema::parameter_tree(place, name, required, of);
            &&& member(parameter, "in"@) == Some(JsonTree::Text(place))
            &&& member(parameter, "name"@) == Some(JsonTree::Text(name))
            &&& member(parameter, "required"@) == Some(JsonTree::Bool(required))
            &&& member(parameter, "schema"@) == Some(of)
            &&& has_only(parameter, seq!["in"@, "name"@, "required"@, "schema"@])
        }),
{
    lemma_keys();
    let keys = seq!["in"@, "name"@, "required"@, "schema"@];
    assert(keys[0] == "in"@ && keys[1] == "name"@ && keys[2] == "required"@ && keys[3]
        == "schema"@);
}

/// The names of the required fields among the first `n`, each at its place in the order.
proof fn lemma_required(fields: Seq<SchemaField>, n: int)
    requires
        0 <= n <= fields.len(),
    ensures
        crate::derive::required_of(fields, n) == fields.take(n).filter(
            |field: SchemaField| field.required,
        ).map_values(|field: SchemaField| JsonTree::Text(field.name@)),
    decreases n,
{
    let is_required = |field: SchemaField| field.required;
    let text = |field: SchemaField| JsonTree::Text(field.name@);
    reveal(Seq::filter);
    if n == 0 {
        assert(fields.take(0).filter(is_required) =~= Seq::empty());
        assert(crate::derive::required_of(fields, n) =~= Seq::<SchemaField>::empty().map_values(text));
    } else {
        lemma_required(fields, n - 1);
        let front = fields.take(n - 1);
        assert(fields.take(n).drop_last() =~= front);
        assert(fields.take(n).last() == fields[n - 1]);
        if fields[n - 1].required {
            assert(front.filter(is_required).push(fields[n - 1]).map_values(text)
                =~= front.filter(is_required).map_values(text).push(
                JsonTree::Text(fields[n - 1].name@),
            ));
        }
    }
}

/// The properties among the first `n` fields are the last fields with their names.
proof fn lemma_properties(fields: Seq<SchemaField>, n: int, name: Seq<char>)
    requires
        0 <= n <= fields.len(),
    ensures
        crate::derive::properties_of(fields, n).contains_key(name) <==> exists|i: int|
            0 <= i < n && (#[trigger] fields[i]).name@ == name,
        forall|i: int|
            0 <= i < n && (#[trigger] fields[i]).name@ == name && (forall|j: int|
                i < j < n ==> (#[trigger] fields[j]).name@ != name)
                ==> crate::derive::properties_of(fields, n)[name] == json::json_tree(fields[i].schema),
    decreases n,
{
    if n > 0 {
        lemma_properties(fields, n - 1, name);
        if fields[n - 1].name@ == name {
            assert(crate::derive::properties_of(fields, n).contains_key(name));
        } else if exists|i: int| 0 <= i < n && (#[trigger] fields[i]).name@ == name {
            let i = choose|i: int| 0 <= i < n && (#[trigger] fields[i]).name@ == name;
            assert(i < n - 1);
        }
        assert forall|i: int|
            0 <= i < n && (#[trigger] fields[i]).name@ == name && (forall|j: int|
                i < j < n ==> (#[trigger] fields[j]).name@ != name) implies crate::derive::properties_of(
            fields,
            n,
        )[name] == json::json_tree(fields[i].schema) by {
            if i < n - 1 {
                assert(fields[n - 1].name@ != name);
            }
        }
    }
}

/// The schema of a struct is that of an object. Under `required` it lists exactly the names of
/// the required fields, each of them and in order, and has no such list where no field is
/// required.
pub proof fn law_structs_list_their_required_fields(fields: Seq<SchemaField>)
    ensures
        ({
            let names = fields.filter(|field: SchemaField| field.required).map_values(
                |field: SchemaField| JsonTree::Text(field.name@),
            );
            let tree = crate::derive::object_tree(fields);
            &&& member(tree, "type"@) == Some(JsonTree::Text("object"@))
            &&& member(tree, "required"@) == if names.len() > 0 {
                Some(JsonTree::List(names))
            } else {
                None
            }
            &&& has_only(tree, seq!["type"@, "properties"@, "required"@])
        }),
{
    lemma_keys();
    lemma_required(fields, fields.len() as int);
    assert(fields.take(fields.len() as int) =~= fields);
    let keys = seq!["type"@, "properties"@, "required"@];
    assert(keys[0] == "type"@ && keys[1] == "properties"@ && keys[2] == "required"@);
}

/// A name is in the list of required names exactly where a required field has it.
pub proof fn law_required_names_are_those_of_required_fields(
    fields: Seq<SchemaField>,
    name: Seq<char>,
)
    ensures
        (member(crate::derive::object_tree(fields), "required"@) matches Some(JsonTree::List(names))
            && names.contains(JsonTree::Text(name))) <==> exists|i: int|
            0 <= i < fields.len() && (#[trigger] fields[i]).required && fields[i].name@ == name,
{
    law_structs_list_their_required_fields(fields);
    let is_required = |field: SchemaField| field.required;
    let text = |field: SchemaField| JsonTree::Text(field.name@);
    let kept = fields.filter(is_required);
    let names = kept.map_values(text);
    if exists|i: int|
        0 <= i < fields.len() && (#[trigger] fields[i]).required && fields[i].name@ == name {
        let i = choose|i: int|
            0 <= i < fields.len() && (#[trigger] fields[i]).required && fields[i].name@ == name;
        fields.lemma_filter_contains_rev(is_required, fields[i]);
        let j = choose|j: int| 0 <= j < kept.len() && kept[j] == fields[i];
        assert(names[j] == JsonTree::Text(name));
    }
    if names.contains(JsonTree::Text(name)) {
        let j = choose|j: int| 0 <= j < names.len() && names[j] == JsonTree::Text(name);
        lemma_kept_field(fields, j);
        let i = choose|i: int| 0 <= i < fields.len() && fields[i] == kept[j];
        assert(fields[i].required && fields[i].name@ == name);
    }
}

/// A field that is kept is one of the fields, and required.
proof fn lemma_kept_field(fields: Seq<SchemaField>, j: int)
    requires
        0 <= j < fields.filter(|field: SchemaField| field.required).len(),
    ensures
        fields.filter(|field: SchemaField| field.required)[j].required,
        fields.contains(fields.filter(|field: SchemaField| field.required)[j]),
    decreases fields.len(),
{
    let is_required = |field: SchemaField| field.required;
    reveal(Seq::filter);
    let kept = fields.filter(is_required);
    if fields.len() > 0 {
        let front = fields.drop_last();
        if j < front.filter(is_required).len() {
            lemma_kept_field(front, j);
            let i = choose|i: int| 0 <= i < front.len() && front[i] == kept[j];
            assert(fields[i] == kept[j]);
        } else {
            assert(fields[fields.len() - 1] == kept[j]);
        }
    }
}

/// The schema of a struct has a property for the name of each field, with the schema of its
/// type, and no others. Of fields with the same name the last counts.
pub proof fn law_structs_have_a_property_for_each_field(fields: Seq<SchemaField>, index: int)
    requires
        0 <= index < fields.len(),
        forall|j: int|
            index < j < fields.len() ==> (#[trigger] fields[j]).name@ != fields[index].name@,
    ensures
        member(crate::derive::object_tree(fields), "properties"@) matches Some(properties) && {
            &&& member(properties, fields[index].name@) == Some(
                json::json_tree(fields[index].schema),
            )
            &&& forall|name: Seq<char>| #[trigger]
                member(properties, name) is Some ==> exists|i: int|
                    0 <= i < fields.len() && (#[trigger] fields[i]).name@ == name
        },
{
    lemma_keys();
    lemma_properties(fields, fields.len() as int, fields[index].name@);
    let properties = JsonTree::Object(crate::derive::properties_of(fields, fields.len() as int));
    assert forall|name: Seq<char>| #[trigger] member(properties, name) is Some implies exists|
        i: int,
    | 0 <= i < fields.len() && (#[trigger] fields[i]).name@ == name by {
        lemma_properties(fields, fields.len() as int, name);
    }
    assert(crate::derive::properties_of(fields, fields.len() as int)[fields[index].name@]
        == json::json_tree(fields[index].schema));
}

/// A type with `Option` around it.
pub open spec fn option_of(shape: crate::derive::ShapeView) -> crate::derive::ShapeView {
    crate::derive::ShapeView::Path("Option"@, Some(Box::new(shape)))
}

/// An `Option` is taken off a type, and makes its field optional. Every other type is what it
/// is.
pub proof fn law_options_are_taken_off(shape: crate::derive::ShapeView)
    ensures
        crate::derive::inner_of(option_of(shape)) == (shape, true),
        (forall|inner: crate::derive::ShapeView| shape != option_of(inner)) ==> crate::derive::inner_of(shape)
            == (shape, false),
        crate::derive::reads_directly(option_of(shape)) == crate::derive::reads_directly(shape),
{
    if crate::derive::inner_of(shape).1 {
        let inner = crate::derive::inner_of(shape).0;
        assert(shape == option_of(inner));
    }
}

/// The types whose query values are read directly are known by their names.
pub proof fn law_direct_types_are_listed(name: Seq<char>, argument: Option<Box<crate::derive::ShapeView>>)
    requires
        name != "Option"@ || argument is None,
    ensures
        crate::derive::reads_directly(crate::derive::ShapeView::Path(name, argument)) <==> seq![
            "String"@,
            "bool"@,
            "u32"@,
            "u64"@,
            "i32"@,
            "i64"@,
            "f32"@,
            "f64"@,
            "Uuid"@,
        ].contains(name),
        !crate::derive::reads_directly(crate::derive::ShapeView::Other),
{
    let names = seq![
        "String"@,
        "bool"@,
        "u32"@,
        "u64"@,
        "i32"@,
        "i64"@,
        "f32"@,
        "f64"@,
        "Uuid"@,
    ];
    assert(names[0] == "String"@ && names[1] == "bool"@ && names[2] == "u32"@ && names[3]
        == "u64"@ && names[4] == "i32"@ && names[5] == "i64"@ && names[6] == "f32"@ && names[7]
        == "f64"@ && names[8] == "Uuid"@);
}

/// What extractors say together is what each of them says, in order. The first body counts.
pub proof fn law_requests_are_joined(first: schema::RequestView, second: schema::RequestView)
    ensures
        ({
            let both = schema::merged_request(first, second);
            &&& both.parameters == first.parameters + second.parameters
            &&& both.path_schemas == first.path_schemas + second.path_schemas
            &&& first.request_body is Some ==> both.request_body == first.request_body
            &&& first.request_body is None ==> both.request_body == second.request_body
        }),
        schema::merged_request(first, schema::empty_request()) == first,
        schema::merged_request(schema::empty_request(), second) == second,
{
    assert(schema::merged_request(first, schema::empty_request()) =~= first);
    assert(schema::merged_request(schema::empty_request(), second) =~= second);
}

/// What an extractor says of its request: a capture has the schema of its type, a header field
/// is a required parameter of text, and a JSON body is required and has the schema of its type.
pub proof fn law_extractors_describe_their_input(of: JsonTree, name: Seq<char>)
    ensures
        ({
            let path = schema::path_request(of);
            let header = schema::header_request(name);
            let body = schema::json_request(of);
            &&& path.path_schemas == seq![of] && path.parameters.len() == 0
                && path.request_body is None
            &&& header.path_schemas.len() == 0 && header.request_body is None
            &&& header.parameters.len() == 1
            &&& member(header.parameters[0], "in"@) == Some(JsonTree::Text("header"@))
            &&& member(header.parameters[0], "name"@) == Some(JsonTree::Text(name))
            &&& member(header.parameters[0], "required"@) == Some(JsonTree::Bool(true))
            &&& member(header.parameters[0], "schema"@) matches Some(of) && member(of, "type"@)
                == Some(JsonTree::Text("string"@))
            &&& body.path_schemas.len() == 0 && body.parameters.len() == 0
            &&& body.request_body matches Some(tree) && {
                &&& member(tree, "required"@) == Some(JsonTree::Bool(true))
                &&& member(tree, "content"@) matches Some(content) && (member(
                    content,
                    "application/json"@,
                ) matches Some(media) && member(media, "schema"@) == Some(of))
            }
        }),
{
    lemma_keys();
    law_parameters_say_what_they_are(
        "header"@,
        name,
        true,
        schema::type_tree("string"@),
    );
    law_schemas_name_their_types("string"@, "string"@, of);
}

/// What an extractor says when its input may be absent: as many parameters as before, none of
/// them required and else as they were, and likewise for the body.
pub proof fn law_optional_input_is_not_required(
    request: schema::RequestView,
    index: int,
    fields: Map<Seq<char>, JsonTree>,
)
    requires
        0 <= index < request.parameters.len(),
        request.parameters[index] == JsonTree::Object(fields),
    ensures
        ({
            let optional = schema::optional_request(request);
            &&& optional.path_schemas == request.path_schemas
            &&& optional.parameters.len() == request.parameters.len()
            &&& member(optional.parameters[index], "required"@) == Some(JsonTree::Bool(false))
            &&& forall|key: Seq<char>|
                key != "required"@ ==> #[trigger] member(optional.parameters[index], key)
                    == member(request.parameters[index], key)
        }),
{
}

/// A body that may be absent is not required, and is else what it was.
pub proof fn law_optional_bodies_are_not_required(
    request: schema::RequestView,
    fields: Map<Seq<char>, JsonTree>,
)
    ensures
        request.request_body == Some(JsonTree::Object(fields)) ==> (schema::optional_request(
            request,
        ).request_body matches Some(body) && {
            &&& member(body, "required"@) == Some(JsonTree::Bool(false))
            &&& forall|key: Seq<char>|
                key != "required"@ ==> #[trigger] member(body, key) == member(
                    JsonTree::Object(fields),
                    key,
                )
        }),
        request.request_body is None ==> schema::optional_request(request).request_body is None,
{
}

/// A tree without fields has nothing that could be required: it stays as it is.
pub proof fn law_other_trees_stay_as_they_are(request: schema::RequestView, index: int)
    requires
        0 <= index < request.parameters.len(),
    ensures
        !(request.parameters[index] is Object) ==> schema::optional_request(
            request,
        ).parameters[index] == request.parameters[index],
        request.request_body matches Some(body) && !(body is Object) ==> schema::optional_request(
            request,
        ).request_body == request.request_body,
{
}

/// The parameters of an operation are those that its extractors name, and behind them one for
/// each capture of its template: a required path parameter with the name of the capture, and
/// with the schema of the extractor that reads it, or that of a string where none does.
pub proof fn law_operations_list_their_parameters(route: plan::RouteView)
    ensures
        ({
            let named = route.operation.request.parameters;
            let schemas = route.operation.request.path_schemas;
            let captures = plan::capture_names_of(route.segments);
            let parameters = openapi::parameters_of(route);
            &&& parameters.len() == named.len() + captures.len()
            &&& forall|i: int| 0 <= i < named.len() ==> #[trigger] parameters[i] == named[i]
            &&& forall|i: int|
                0 <= i < captures.len() ==> {
                    let parameter = #[trigger] parameters[named.len() + i];
                    &&& member(parameter, "in"@) == Some(JsonTree::Text("path"@))
                    &&& member(parameter, "name"@) == Some(JsonTree::Text(captures[i]))
                    &&& member(parameter, "required"@) == Some(JsonTree::Bool(true))
                    &&& member(parameter, "schema"@) matches Some(of) && if i < schemas.len() {
                        of == schemas[i]
                    } else {
                        member(of, "type"@) == Some(JsonTree::Text("string"@)) && has_only(
                            of,
                            seq!["type"@],
                        )
                    }
                }
        }),
{
    let named = route.operation.request.parameters;
    let schemas = route.operation.request.path_schemas;
    let captures = plan::capture_names_of(route.segments);
    let parameters = openapi::parameters_of(route);
    laws::law_captures_are_path_parameters(route.segments, schemas);
    law_schemas_name_their_types("string"@, "string"@, schema::type_tree("string"@));
    let behind = openapi::path_parameters(route.segments, schemas, route.segments.len() as int);
    assert forall|i: int| 0 <= i < captures.len() implies {
        let parameter = #[trigger] parameters[named.len() + i];
        &&& member(parameter, "in"@) == Some(JsonTree::Text("path"@))
        &&& member(parameter, "name"@) == Some(JsonTree::Text(captures[i]))
        &&& member(parameter, "required"@) == Some(JsonTree::Bool(true))
        &&& member(parameter, "schema"@) matches Some(of) && if i < schemas.len() {
            of == schemas[i]
        } else {
            member(of, "type"@) == Some(JsonTree::Text("string"@)) && has_only(
                of,
                seq!["type"@],
            )
        }
    } by {
        assert(parameters[named.len() + i] == behind[i]);
        law_parameters_say_what_they_are(
            "path"@,
            captures[i],
            true,
            openapi::capture_schema(schemas, i),
        );
    }
}

/// An operation has one response, under the decimal text of its status. It has the schema of
/// the body as that of its JSON content, and no content where the route has no schema. Its
/// description is that of the status.
pub proof fn law_operations_describe_their_response(route: plan::RouteView)
    ensures
        member(openapi::operation_tree(route), "responses"@) matches Some(responses) && {
            &&& has_only(responses, seq![number::decimal(route.operation.status as nat)])
            &&& member(
                responses,
                number::decimal(route.operation.status as nat),
            ) matches Some(response) && {
                &&& has_only(response, seq!["description"@, "content"@])
                &&& member(response, "description"@) == Some(
                    JsonTree::Text(
                        if route.operation.status == 201 {
                            "Created"@
                        } else if route.operation.status == 204 {
                            "No Content"@
                        } else if route.operation.status == 304 {
                            "Not Modified"@
                        } else {
                            "Success"@
                        },
                    ),
                )
                &&& match route.operation.schema {
                    Some(of) => member(response, "content"@) matches Some(content) && {
                        &&& has_only(content, seq!["application/json"@])
                        &&& member(content, "application/json"@) matches Some(media) && {
                            &&& has_only(media, seq!["schema"@])
                            &&& member(media, "schema"@) == Some(of)
                        }
                    },
                    None => member(response, "content"@) is None,
                }
            }
        },
{
    lemma_keys();
    let status = number::decimal(route.operation.status as nat);
    let keys = seq!["description"@, "content"@];
    assert(keys[0] == "description"@ && keys[1] == "content"@);
    assert(seq![status][0] == status);
    assert(seq!["application/json"@][0] == "application/json"@);
    assert(seq!["schema"@][0] == "schema"@);
}

/// An operation says of its route what was said of it and nothing else: its tag, its summary,
/// its id, its parameters where it has any, its body and its response.
pub proof fn law_operations_say_nothing_else(route: plan::RouteView)
    ensures
        ({
            let tree = openapi::operation_tree(route);
            let said = route.operation;
            &&& has_only(
                tree,
                seq![
                    "tags"@,
                    "summary"@,
                    "operationId"@,
                    "parameters"@,
                    "requestBody"@,
                    "responses"@,
                ],
            )
            &&& match said.tag {
                Some(tag) => member(tree, "tags"@) == Some(
                    JsonTree::List(seq![JsonTree::Text(tag)]),
                ),
                None => member(tree, "tags"@) is None,
            }
            &&& match said.summary {
                Some(summary) => member(tree, "summary"@) == Some(JsonTree::Text(summary)),
                None => member(tree, "summary"@) is None,
            }
            &&& match said.operation_id {
                Some(id) => member(tree, "operationId"@) == Some(JsonTree::Text(id)),
                None => member(tree, "operationId"@) is None,
            }
            &&& member(tree, "parameters"@) == if openapi::parameters_of(route).len() > 0 {
                Some(JsonTree::List(openapi::parameters_of(route)))
            } else {
                None
            }
            &&& member(tree, "requestBody"@) == said.request.request_body
        }),
{
    lemma_keys();
    let keys = seq![
        "tags"@,
        "summary"@,
        "operationId"@,
        "parameters"@,
        "requestBody"@,
        "responses"@,
    ];
    assert(keys[0] == "tags"@ && keys[1] == "summary"@ && keys[2] == "operationId"@ && keys[3]
        == "parameters"@ && keys[4] == "requestBody"@ && keys[5] == "responses"@);
}

/// The key of a routable method in the document.
pub open spec fn method_key_of(method: Seq<char>) -> Option<Seq<char>> {
    if method == "DELETE"@ {
        Some("delete"@)
    } else if method == "GET"@ {
        Some("get"@)
    } else if method == "HEAD"@ {
        Some("head"@)
    } else if method == "OPTIONS"@ {
        Some("options"@)
    } else if method == "PATCH"@ {
        Some("patch"@)
    } else if method == "POST"@ {
        Some("post"@)
    } else if method == "PUT"@ {
        Some("put"@)
    } else {
        None
    }
}

/// The document of an application shows every route that was registered: under `paths`, its
/// template and its method in lower case stands its operation.
pub proof fn law_document_shows_every_route<S, H>(app: App<S, H>, index: int)
    requires
        app.wf(),
        0 <= index < app.routes().len(),
        !app.routes()[index].builtin,
    ensures
        ({
            let route = app.routes()[index];
            let document = openapi::document_tree(
                app.routes(),
                openapi::config_of(app.openapi_config),
            );
            method_key_of(route.method) matches Some(key) && (member(
                document,
                "paths"@,
            ) matches Some(paths) && (member(paths, route.template) matches Some(operations)
                && member(operations, key) == Some(openapi::operation_tree(route))))
        }),
{
    let route = app.routes()[index];
    let config = openapi::config_of(app.openapi_config);
    method::lemma_slots();
    openapi::lemma_lower_names();
    assert(registry_entry(app, index));
    laws::law_document_says_what_was_configured(app.routes(), config);
    laws::law_document_lists_every_route(app, index);
}

/// Whether the tables give a route its number.
spec fn registry_entry<S, H>(app: App<S, H>, index: int) -> bool {
    crate::registry::entry_of(
        app.static_table(),
        app.dynamic_routes@,
        app.routes()[index],
    ) == Some(index)
}

/// The document has operations for nothing but the routes that were registered.
pub proof fn law_document_shows_nothing_else(
    routes: Seq<plan::RouteView>,
    config: openapi::ConfigView,
    template: Seq<char>,
    key: Seq<char>,
)
    ensures
        has_only(
            openapi::document_tree(routes, config),
            seq!["openapi"@, "info"@, "paths"@],
        ),
        member(openapi::document_tree(routes, config), "paths"@) matches Some(paths) && (member(
            paths,
            template,
        ) matches Some(operations) && member(operations, key) is Some ==> exists|i: int|
            0 <= i < routes.len() && !(#[trigger] routes[i]).builtin && routes[i].template
                == template && openapi::lower_text(routes[i].method) == key),
{
    laws::law_document_says_what_was_configured(routes, config);
    let keys = seq!["openapi"@, "info"@, "paths"@];
    assert(keys[0] == "openapi"@ && keys[1] == "info"@ && keys[2] == "paths"@);
    let paths = openapi::paths_of(routes, routes.len() as int);
    if paths.contains_key(template) && member(paths[template], key) is Some {
        let i = laws::law_document_lists_only_routes(
            routes,
            routes.len() as int,
            template,
            key,
        );
        assert(!routes[i].builtin);
    }
}

/// The document of an application that configured nothing has a title and a version all the
/// same, and is served at a path of its own.
pub proof fn law_documents_have_defaults()
    ensures
        openapi::config_of(None) == (openapi::ConfigView {
            path: "/openapi.json"@,
            title: "oas-rs"@,
            version: "0.1.0"@,
            description: None,
        }),
{
}

/// A capture is named by its template: the names of the captures are those between braces, in
/// order.
pub proof fn law_capture_names_are_those_of_the_segments(segments: Seq<path::SegmentView>)
    ensures
        plan::capture_names_of(segments) == segments.filter(
            |segment: path::SegmentView| segment is Capture,
        ).map_values(|segment: path::SegmentView| segment->Capture_0),
    decreases segments.len(),
{
    let is_capture = |segment: path::SegmentView| segment is Capture;
    let name = |segment: path::SegmentView| segment->Capture_0;
    reveal(Seq::filter);
    if segments.len() == 0 {
        assert(plan::capture_names_of(segments) =~= segments.filter(is_capture).map_values(name));
    } else {
        let front = segments.drop_last();
        law_capture_names_are_those_of_the_segments(front);
        if segments.last() is Capture {
            assert(front.filter(is_capture).push(segments.last()).map_values(name)
                =~= front.filter(is_capture).map_values(name).push(segments.last()->Capture_0));
        }
    }
}

/// The Swagger page loads the document from the path that is configured, or from the path that
/// documents have by default, and writes it as a JSON text.
pub proof fn law_swagger_page_loads_the_document(path: Seq<char>)
    ensures
        openapi::swagger_text(Some(path))
            == "<!doctype html><html><head><title>Swagger UI</title><link rel=\"stylesheet\" href=\"https://unpkg.com/swagger-ui-dist@5/swagger-ui.css\"></head><body><div id=\"swagger-ui\">Loading Swagger UI…</div><script src=\"https://unpkg.com/swagger-ui-dist@5/swagger-ui-bundle.js\"></script><script>window.onload=()=>window.ui=SwaggerUIBundle({url:"@
            + json::json_quoted(path) + ",dom_id:'#swagger-ui'});</script></body></html>"@,
        openapi::swagger_text(None) == openapi::swagger_text(Some(openapi::config_of(None).path)),
{
}

/// The messages of the errors that stop a build.
pub proof fn law_build_errors_name_what_is_wrong(
    path: Seq<char>,
    method: Seq<char>,
    captures: nat,
    max: nat,
)
    ensures
        openapi::build_message(openapi::BuildErrorView::RouteConflict(path, method))
            == "generated route conflicts with "@ + method + " "@ + path,
        openapi::build_message(openapi::BuildErrorView::InvalidGeneratedPath(path))
            == "generated route must be static: "@ + path,
        openapi::build_message(
            openapi::BuildErrorView::TooManyCaptures(path, captures as int, max as int),
        ) == "route has "@ + number::decimal(captures) + " captures, at most "@ + number::decimal(
            max,
        ) + " are supported: "@ + path,
{
}

} // verus!
