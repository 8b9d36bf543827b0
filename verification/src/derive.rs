//! Derived schemas and query parsers: what is derived from the fields of a struct.

use crate::json;
use crate::json::{
    array_value, clone_value, map_insert, new_map, object_value, string_value,
};
use crate::schema;
use crate::schema::parameter_value;
use crate::text::str_equal;
use serde_json::Value;
use vstd::prelude::*;
use vstd::string::*;

verus! {

/// The shape of a type as it is written: the last segment of a path with its first type
/// argument, or anything else.
#[derive(Debug)]
pub enum TypeShape {
    Path(String, Option<Box<TypeShape>>),
    Other,
}

/// What a [`TypeShape`] says.
pub enum ShapeView {
    Path(Seq<char>, Option<Box<ShapeView>>),
    Other,
}

impl TypeShape {
    /// What the shape says.
    pub open spec fn shape(&self) -> ShapeView
        decreases self,
    {
        match self {
            TypeShape::Path(name, Some(argument)) => ShapeView::Path(
                name@,
                Some(Box::new(argument.shape())),
            ),
            TypeShape::Path(name, None) => ShapeView::Path(name@, None),
            TypeShape::Other => ShapeView::Other,
        }
    }
}

/// The type inside an `Option`, or the type itself; and whether it was inside one.
pub open spec fn inner_of(shape: ShapeView) -> (ShapeView, bool) {
    match shape {
        ShapeView::Path(name, Some(argument)) => if name == "Option"@ {
            (*argument, true)
        } else {
            (shape, false)
        },
        _ => (shape, false),
    }
}

/// Whether a name is that of a type whose query values are read directly.
pub open spec fn is_query_type(name: Seq<char>) -> bool {
    ||| name == "String"@
    ||| name == "bool"@
    ||| name == "u32"@
    ||| name == "u64"@
    ||| name == "i32"@
    ||| name == "i64"@
    ||| name == "f32"@
    ||| name == "f64"@
    ||| name == "Uuid"@
}

/// Whether the values of a type are read directly from a query: a known type, or an `Option`
/// of one, however deep.
pub open spec fn reads_directly(shape: ShapeView) -> bool
    decreases shape,
{
    match shape {
        ShapeView::Path(name, Some(argument)) => if name == "Option"@ {
            reads_directly(*argument)
        } else {
            is_query_type(name)
        },
        ShapeView::Path(name, None) => is_query_type(name),
        ShapeView::Other => false,
    }
}

/// The type inside an `Option`, or the type itself; and whether it was inside one.
pub fn option_inner(ty: &TypeShape) -> (r: (&TypeShape, bool))
    ensures
        (r.0.shape(), r.1) == inner_of(ty.shape()),
{
    match ty {
        TypeShape::Path(name, Some(argument)) => if str_equal(name.as_str(), "Option") {
            (&**argument, true)
        } else {
            (ty, false)
        },
        TypeShape::Path(_, None) => (ty, false),
        TypeShape::Other => (ty, false),
    }
}

/// Whether the values of a type are read directly from a query.
pub fn supports_query_value(ty: &TypeShape) -> (r: bool)
    ensures
        r == reads_directly(ty.shape()),
    decreases ty,
{
    match ty {
        TypeShape::Path(name, Some(argument)) => if str_equal(name.as_str(), "Option") {
            supports_query_value(&**argument)
        } else {
            query_type(name.as_str())
        },
        TypeShape::Path(name, None) => query_type(name.as_str()),
        TypeShape::Other => false,
    }
}

/// Whether a name is that of a type whose query values are read directly.
fn query_type(name: &str) -> (r: bool)
    ensures
        r == is_query_type(name@),
{
    str_equal(name, "String") || str_equal(name, "bool") || str_equal(name, "u32") || str_equal(
        name,
        "u64",
    ) || str_equal(name, "i32") || str_equal(name, "i64") || str_equal(name, "f32") || str_equal(
        name,
        "f64",
    ) || str_equal(name, "Uuid")
}

/// The item that a schema is derived for: the types of its fields, if it is a struct whose
/// fields have names.
#[derive(Debug)]
pub enum ItemShape {
    NamedFields(Vec<TypeShape>),
    OtherStruct,
    NotStruct,
}

/// How a schema is derived: which fields are optional, and whether a query is parsed field by
/// field.
#[derive(Debug)]
pub struct DerivePlan {
    pub optional: Vec<bool>,
    pub direct_query_parser: bool,
}

/// Why a schema cannot be derived.
#[derive(Clone, Copy, Debug, PartialEq, Eq, Structural)]
pub enum DeriveError {
    UnnamedFields,
    NotStruct,
}

impl DeriveError {
    /// The message of the error.
    pub fn message(&self) -> (r: &'static str)
        ensures
            r@ == match self {
                DeriveError::UnnamedFields => "ApiSchema requires named struct fields"@,
                DeriveError::NotStruct => "ApiSchema can only derive for structs"@,
            },
    {
        match self {
            DeriveError::UnnamedFields => "ApiSchema requires named struct fields",
            DeriveError::NotStruct => "ApiSchema can only derive for structs",
        }
    }
}

/// How a schema is derived for an item.
pub fn derive_plan(item: &ItemShape) -> (r: Result<DerivePlan, DeriveError>)
    ensures
        match item {
            ItemShape::NamedFields(fields) => {
                &&& r matches Ok(plan)
                &&& plan.optional@.len() == fields@.len()
                &&& forall|i: int|
                    0 <= i < fields@.len() ==> #[trigger] plan.optional@[i] == inner_of(
                        fields@[i].shape(),
                    ).1
                &&& plan.direct_query_parser == (forall|i: int|
                    0 <= i < fields@.len() ==> reads_directly(
                        inner_of((#[trigger] fields@[i]).shape()).0,
                    ))
            },
            ItemShape::OtherStruct => r == Err::<DerivePlan, _>(DeriveError::UnnamedFields),
            ItemShape::NotStruct => r == Err::<DerivePlan, _>(DeriveError::NotStruct),
        },
{
    match item {
        ItemShape::NamedFields(fields) => {
            let mut optional: Vec<bool> = Vec::new();
            let mut direct = true;
            let mut i: usize = 0;
            while i < fields.len()
                invariant
                    i <= fields@.len(),
                    optional@.len() == i,
                    forall|j: int|
                        0 <= j < i ==> #[trigger] optional@[j] == inner_of(fields@[j].shape()).1,
                    direct == (forall|j: int|
                        0 <= j < i ==> reads_directly(inner_of((#[trigger] fields@[j]).shape()).0)),
                decreases fields@.len() - i,
            {
                let (inner, is_optional) = option_inner(&fields[i]);
                optional.push(is_optional);
                let supported = supports_query_value(inner);
                proof {
                    assert(supported == reads_directly(inner_of(fields@[i as int].shape()).0));
                }
                direct = direct && supported;
                i += 1;
            }
            Ok(DerivePlan { optional, direct_query_parser: direct })
        },
        ItemShape::OtherStruct => Err(DeriveError::UnnamedFields),
        ItemShape::NotStruct => Err(DeriveError::NotStruct),
    }
}

/// A field of a struct: its name, the schema of its type, and whether it is required.
#[derive(Debug)]
pub struct SchemaField {
    pub name: String,
    pub schema: Value,
    pub required: bool,
}

impl SchemaField {
    /// A field.
    pub fn new(name: &str, schema: Value, required: bool) -> (r: Self)
        ensures
            r.name@ == name@,
            r.schema == schema,
            r.required == required,
    {
        SchemaField { name: name.to_owned(), schema, required }
    }
}

/// The properties of the first `n` fields.
pub open spec fn properties_of(fields: Seq<SchemaField>, n: int) -> Map<Seq<char>, json::JsonTree>
    decreases n,
{
    if n <= 0 {
        Map::empty()
    } else {
        properties_of(fields, n - 1).insert(
            fields[n - 1].name@,
            json::json_tree(fields[n - 1].schema),
        )
    }
}

/// The names of the required fields among the first `n`, in order.
pub open spec fn required_of(fields: Seq<SchemaField>, n: int) -> Seq<json::JsonTree>
    decreases n,
{
    if n <= 0 {
        Seq::empty()
    } else if fields[n - 1].required {
        required_of(fields, n - 1).push(json::JsonTree::Text(fields[n - 1].name@))
    } else {
        required_of(fields, n - 1)
    }
}

/// The schema of a struct: an object with a property for each field, and the required ones
/// named where there are any.
pub open spec fn object_tree(fields: Seq<SchemaField>) -> json::JsonTree {
    let count = fields.len() as int;
    let object = json::no_json_fields().insert("type"@, json::JsonTree::Text("object"@)).insert(
        "properties"@,
        json::JsonTree::Object(properties_of(fields, count)),
    );
    json::JsonTree::Object(
        if required_of(fields, count).len() > 0 {
            object.insert("required"@, json::JsonTree::List(required_of(fields, count)))
        } else {
            object
        },
    )
}

/// The schema of a struct.
pub fn object_schema(fields: &[SchemaField]) -> (r: Value)
    ensures
        json::json_tree(r) == object_tree(fields@),
{
    let mut properties = new_map();
    let mut required: Vec<Value> = Vec::new();
    let mut i: usize = 0;
    assert(json::json_trees(required@) =~= Seq::empty());
    while i < fields.len()
        invariant
            i <= fields@.len(),
            json::json_fields(properties) == properties_of(fields@, i as int),
            json::json_trees(required@) == required_of(fields@, i as int),
        decreases fields@.len() - i,
    {
        let field = &fields[i];
        map_insert(&mut properties, field.name.clone(), clone_value(&field.schema));
        if field.required {
            let ghost before = required@;
            required.push(string_value(field.name.clone()));
            assert(json::json_trees(required@) =~= json::json_trees(before).push(
                json::JsonTree::Text(field.name@),
            ));
        }
        i += 1;
    }
    let mut object = new_map();
    map_insert(&mut object, "type".to_owned(), string_value("object".to_owned()));
    map_insert(&mut object, "properties".to_owned(), object_value(properties));
    assert(required@.len() == json::json_trees(required@).len());
    if required.len() > 0 {
        map_insert(&mut object, "required".to_owned(), array_value(required));
    }
    object_value(object)
}

/// The query parameters of a struct, one for each field.
pub fn query_parameters(fields: &[SchemaField]) -> (r: Vec<Value>)
    ensures
        r@.len() == fields@.len(),
        forall|i: int|
            0 <= i < fields@.len() ==> json::json_tree(#[trigger] r@[i]) == schema::parameter_tree(
                "query"@,
                fields@[i].name@,
                fields@[i].required,
                json::json_tree(fields@[i].schema),
            ),
{
    let mut parameters: Vec<Value> = Vec::new();
    let mut i: usize = 0;
    while i < fields.len()
        invariant
            i <= fields@.len(),
            parameters@.len() == i,
            forall|j: int|
                0 <= j < i ==> json::json_tree(#[trigger] parameters@[j])
                    == schema::parameter_tree(
                    "query"@,
                    fields@[j].name@,
                    fields@[j].required,
                    json::json_tree(fields@[j].schema),
                ),
        decreases fields@.len() - i,
    {
        let field = &fields[i];
        parameters.push(
            parameter_value(
                "query",
                field.name.as_str(),
                field.required,
                clone_value(&field.schema),
            ),
        );
        i += 1;
    }
    parameters
}

} // verus!
