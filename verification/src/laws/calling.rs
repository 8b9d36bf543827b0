//! What holds of the functions that are called, in terms of what they are given and give back.

use crate::app::App;
use crate::derive::{DerivePlan, ItemShape, SchemaField, TypeShape};
use crate::dispatch;
use crate::error::ApiError;
use crate::extract;
use crate::extract::Needs;
use crate::headers;
use crate::json;
use crate::json::JsonTree;
use crate::laws::answering::{has_field, names_only, shows};
use crate::laws::describing;
use crate::laws::describing::{has_only, member};
use crate::laws::reading;
use crate::laws::routing;
use crate::method;
use crate::method::Method;
use crate::number;
use crate::openapi;
use crate::params;
use crate::params::{CaptureRange, CaptureSet, Params};
use crate::path;
use crate::path::Segment;
use crate::payload;
use crate::percent;
use crate::plan;
use crate::plan::RouteMetadata;
use crate::query;
use crate::query::QueryScalar;
use crate::response;
use crate::response::{
    BodyView, Created, HttpResponse, IntoResponse, Json, JsonBytes, NoContent, NotModified,
    ResponseMetadata, StaticResponse, StreamResponse,
};
use crate::router;
use crate::router::{RouteFailure, RouteId, RouteSet};
use crate::schema;
use crate::schema::{ApiSchema, OpenApiRequest};
use crate::status::StatusCode;
use bytes::Bytes;
use http::{HeaderMap, HeaderValue};
use serde_json::Value;
use std::borrow::Cow;
use vstd::prelude::*;
use vstd::string::*;
use vstd::utf8::*;

verus! {

/// `hex` gives each hexadecimal digit its value, in upper and in lower case, and gives no value
/// to any other byte.
pub proof fn law_hex_reads_digits(b: u8, r: Option<u8>)
    requires
        call_ensures(percent::hex, (b,), r),
    ensures
        forall|upper: bool, digit: int|
            0 <= digit < 16 && b as char == #[trigger] reading::hex_digits(upper)[digit] ==> r
                == Some(digit as u8),
        r is Some ==> reading::hex_digits(true).contains(b as char)
            || reading::hex_digits(false).contains(b as char),
{
    reading::law_hexadecimal_digits_have_their_values(b);
}

/// `percent_decode` gives back a text whose bytes were all escaped, and a text without `%` as
/// it is.
pub proof fn law_percent_decode_undoes_escaping(
    value: &str,
    chars: Seq<char>,
    upper: bool,
    r: Result<String, ApiError>,
)
    requires
        call_ensures(percent::percent_decode, (value,), r),
    ensures
        encode_utf8(value@) == reading::escaped(encode_utf8(chars), upper) ==> (r matches Ok(
            decoded,
        ) && decoded@ == chars),
        !value@.contains('%') ==> (r matches Ok(decoded) && decoded@ == value@),
        r matches Err(error) ==> error.status@ == 400 && !error.missing,
{
    reading::law_escaped_text_is_read_back(chars, upper);
    if !value@.contains('%') {
        crate::laws::law_text_without_escapes_is_literal(value@);
    }
    reading::law_decoding_gives_the_encoded_text(encode_utf8(value@), chars);
}

/// `decode_query_component` gives the same, and hands a text without `%` back without a copy.
pub proof fn law_query_components_are_decoded(
    value: &str,
    chars: Seq<char>,
    upper: bool,
    r: Result<Cow<'_, str>, ApiError>,
)
    requires
        call_ensures(percent::decode_query_component, (value,), r),
    ensures
        encode_utf8(value@) == reading::escaped(encode_utf8(chars), upper) ==> (r matches Ok(
            decoded,
        ) && decoded@ == chars),
        !value@.contains('%') ==> r == Ok::<Cow<'_, str>, ApiError>(Cow::Borrowed(value)),
{
    reading::law_escaped_text_is_read_back(chars, upper);
}

/// `valid_percent_encoding` accepts every text whose bytes were escaped, and no text with a `%`
/// that two hexadecimal digits do not follow.
pub proof fn law_valid_escapes_are_accepted(
    value: &str,
    bytes: Seq<u8>,
    upper: bool,
    before: Seq<u8>,
    after: Seq<u8>,
    r: bool,
)
    requires
        call_ensures(percent::valid_percent_encoding, (value,), r),
        forall|i: int| 0 <= i < before.len() ==> before[i] != '%' as u8,
        after.len() < 2 || percent::hex_value(after[0]) is None || percent::hex_value(
            after[1],
        ) is None,
    ensures
        encode_utf8(value@) == reading::escaped(bytes, upper) ==> r,
        encode_utf8(value@) == before + seq!['%' as u8] + after ==> !r,
{
    reading::lemma_escaped_bytes(bytes, upper);
    reading::law_broken_escapes_do_not_decode(before, after);
}

/// `decimal_string` writes the digits of a number in base ten, without leading zeros.
pub proof fn law_numbers_are_written_in_decimal(n: u64, r: String)
    requires
        call_ensures(number::decimal_string, (n,), r),
    ensures
        reading::place_value(reading::char_digits(r@)) == n,
        r@.len() > 0,
        n > 0 ==> r@[0] != '0',
        n == 0 ==> r@ == seq!['0'],
        forall|i: int| 0 <= i < r@.len() ==> '0' <= #[trigger] r@[i] <= '9',
{
    reading::law_decimal_text_has_the_value(n as nat);
}

/// Numbers are read back from what is written, up to the largest of their type.
pub proof fn law_written_numbers_are_read_back(
    text: &str,
    n: int,
    signed: Option<i64>,
    unsigned: Option<u64>,
    word: Option<usize>,
)
    requires
        text@ == reading::signed_text(n),
        call_ensures(number::parse_i64, (text,), signed),
        call_ensures(number::parse_u64, (text,), unsigned),
        call_ensures(number::parse_usize, (text,), word),
    ensures
        i64::MIN <= n <= i64::MAX ==> signed == Some(n as i64),
        n < i64::MIN || n > i64::MAX ==> signed is None,
        0 <= n <= u64::MAX ==> unsigned == Some(n as u64),
        n < 0 || n > u64::MAX ==> unsigned is None,
        0 <= n <= usize::MAX ==> word == Some(n as usize),
        n < 0 || n > usize::MAX ==> word is None,
{
    reading::law_integers_are_read_back(n);
    if n < 0 {
        reveal_strlit("-");
        let digits = number::decimal((-n) as nat);
        assert("-"@ =~= seq!['-']);
        crate::text::lemma_first_ascii(text@, '-');
        assert(text@[0] == '-');
        assert(!number::is_digit(encode_utf8(text@)[0]));
    }
}

/// `query_pairs` reads the pairs of a query back as they were written.
pub proof fn law_query_pairs_are_read_back(
    text: &str,
    pairs: Seq<(Seq<char>, Seq<char>)>,
    r: Vec<(&str, &str)>,
)
    requires
        call_ensures(query::query_pairs, (text,), r),
        text@ == reading::written(pairs),
        forall|i: int|
            0 <= i < pairs.len() ==> !(#[trigger] pairs[i]).0.contains('=')
                && !pairs[i].0.contains('&') && !pairs[i].1.contains('&'),
    ensures
        r@.len() == pairs.len(),
        forall|i: int| 0 <= i < pairs.len() ==> (r@[i].0@, r@[i].1@) == #[trigger] pairs[i],
{
    reading::law_written_pairs_are_read_back(pairs);
    assert(query::pair_texts(r@).len() == r@.len());
    assert forall|i: int| 0 <= i < pairs.len() implies (r@[i].0@, r@[i].1@)
        == #[trigger] pairs[i] by {
        assert(query::pair_texts(r@)[i] == pairs[i]);
    }
}

/// `decode_query` decodes the key and the value of every pair, one for one.
pub proof fn law_queries_are_decoded(
    text: &str,
    pairs: Seq<(Seq<char>, Seq<char>)>,
    r: Result<Vec<(String, String)>, ApiError>,
)
    requires
        call_ensures(query::decode_query, (text,), r),
        text@ == reading::written(pairs),
        forall|i: int|
            0 <= i < pairs.len() ==> !(#[trigger] pairs[i]).0.contains('=')
                && !pairs[i].0.contains('&') && !pairs[i].1.contains('&'),
    ensures
        r is Ok <==> forall|i: int| 0 <= i < pairs.len() ==> reading::decodes(#[trigger] pairs[i]),
        r matches Ok(decoded) ==> {
            &&& decoded@.len() == pairs.len()
            &&& forall|i: int|
                0 <= i < pairs.len() ==> {
                    &&& percent::percent_text(encode_utf8(pairs[i].0)) == Ok::<
                        Seq<char>,
                        crate::error::Problem,
                    >((#[trigger] decoded@[i]).0@)
                    &&& percent::percent_text(encode_utf8(pairs[i].1)) == Ok::<
                        Seq<char>,
                        crate::error::Problem,
                    >(decoded@[i].1@)
                }
        },
        r matches Err(error) ==> error.status@ == 400 && !error.missing,
{
    reading::law_written_pairs_are_read_back(pairs);
    reading::law_pairs_are_decoded_one_by_one(pairs, 0);
    match r {
        Ok(decoded) => {
            let views = query::string_pairs(decoded@);
            assert(views.len() == decoded@.len());
            assert forall|i: int| 0 <= i < pairs.len() implies {
                &&& percent::percent_text(encode_utf8(pairs[i].0)) == Ok::<
                    Seq<char>,
                    crate::error::Problem,
                >((#[trigger] decoded@[i]).0@)
                &&& percent::percent_text(encode_utf8(pairs[i].1)) == Ok::<
                    Seq<char>,
                    crate::error::Problem,
                >(decoded@[i].1@)
            } by {
                assert(views[i] == (decoded@[i].0@, decoded@[i].1@));
                assert(pairs[0 + i] == pairs[i]);
            }
            assert forall|i: int| 0 <= i < pairs.len() implies reading::decodes(
                #[trigger] pairs[i],
            ) by {
                assert(decoded@[i].0@ == decoded@[i].0@);
            }
        },
        Err(error) => {
            let i = choose|i: int|
                0 <= i < pairs.len() && #[trigger] reading::fails_with(pairs[i], error@) && (
                forall|j: int| 0 <= j < i ==> reading::decodes(#[trigger] pairs[j]));
            assert(!reading::decodes(pairs[i]));
            reading::law_decoding_gives_the_encoded_text(encode_utf8(pairs[i].0), pairs[i].0);
            reading::law_decoding_gives_the_encoded_text(encode_utf8(pairs[i].1), pairs[i].1);
        },
    }
}

/// `query_scalar` reads `true` and `false` as booleans, the text of every integer of 64 bits as
/// that integer, and every other text as itself.
pub proof fn law_scalars_are_classified(value: String, n: int, r: QueryScalar)
    requires
        call_ensures(query::query_scalar, (value,), r),
    ensures
        value@ == "true"@ ==> r == QueryScalar::Bool(true),
        value@ == "false"@ ==> r == QueryScalar::Bool(false),
        r is Bool ==> value@ == "true"@ || value@ == "false"@,
        i64::MIN <= n <= i64::MAX && value@ == reading::signed_text(n) ==> r
            == QueryScalar::Integer(n as i64),
        r is Integer <==> (number::integer_value(encode_utf8(value@)) matches Some(n) && i64::MIN
            <= n <= i64::MAX),
        r matches QueryScalar::Text(text) ==> text@ == value@,
{
    reading::law_query_values_are_classified(value@);
    reading::law_integers_are_read_back(n);
    reading::lemma_words_are_no_numbers();
}

/// `required_field` gives the value of a field that has one, and names the field otherwise.
pub proof fn law_required_fields_have_a_value<T>(
    value: Option<T>,
    name: &str,
    r: Result<T, ApiError>,
)
    requires
        call_ensures(query::required_field::<T>, (value, name), r),
    ensures
        value matches Some(held) ==> r == Ok::<T, ApiError>(held),
        value is None ==> (r matches Err(error) && error.status@ == 400 && !error.missing
            && error.detail@ == "missing query parameter "@ + name@),
{
}

/// `option_inner` takes an `Option` off a type, and `supports_query_value` looks through it.
pub proof fn law_options_are_looked_through(
    inner: TypeShape,
    whole: TypeShape,
    name: String,
    supported: bool,
    alone: bool,
)
    requires
        name@ == "Option"@,
        whole == TypeShape::Path(name, Some(Box::new(inner))),
        call_ensures(crate::derive::supports_query_value, (&whole,), supported),
        call_ensures(crate::derive::supports_query_value, (&inner,), alone),
    ensures
        supported == alone,
{
    assert(whole.shape() == describing::option_of(inner.shape()));
    describing::law_options_are_taken_off(inner.shape());
}

/// `derive_plan` marks the fields whose type is an `Option` as optional, those alone, and
/// derives nothing for anything but structs with named fields.
pub proof fn law_plans_mark_optional_fields(
    item: ItemShape,
    index: int,
    r: Result<DerivePlan, crate::derive::DeriveError>,
)
    requires
        call_ensures(crate::derive::derive_plan, (&item,), r),
    ensures
        r is Ok <==> item is NamedFields,
        item is OtherStruct ==> r == Err::<DerivePlan, _>(
            crate::derive::DeriveError::UnnamedFields,
        ),
        item is NotStruct ==> r == Err::<DerivePlan, _>(crate::derive::DeriveError::NotStruct),
        item matches ItemShape::NamedFields(fields) && (r matches Ok(plan) && {
            &&& plan.optional@.len() == fields@.len()
            &&& 0 <= index < fields@.len() ==> (plan.optional@[index] <==> (
            fields@[index] matches TypeShape::Path(name, Some(_)) && name@ == "Option"@))
        }) || !(item is NamedFields),
{
    if let ItemShape::NamedFields(fields) = item {
        if 0 <= index < fields@.len() {
            let plan = r->Ok_0;
            assert(plan.optional@[index] == crate::derive::inner_of(fields@[index].shape()).1);
        }
    }
}

/// `object_schema` gives a property to each field, and lists the names of the required ones.
pub proof fn law_struct_schemas_describe_their_fields(
    fields: &[SchemaField],
    index: int,
    name: Seq<char>,
    r: Value,
)
    requires
        call_ensures(crate::derive::object_schema, (fields,), r),
    ensures
        ({
            let tree = json::json_tree(r);
            &&& member(tree, "type"@) == Some(JsonTree::Text("object"@))
            &&& has_only(tree, seq!["type"@, "properties"@, "required"@])
            &&& (member(tree, "required"@) matches Some(JsonTree::List(names)) && names.contains(
                JsonTree::Text(name),
            )) <==> exists|i: int|
                0 <= i < fields@.len() && (#[trigger] fields@[i]).required && fields@[i].name@
                    == name
            &&& member(tree, "required"@) matches Some(JsonTree::List(names)) ==> names.len()
                == fields@.filter(|field: SchemaField| field.required).len()
            &&& 0 <= index < fields@.len() && (forall|j: int|
                index < j < fields@.len() ==> (#[trigger] fields@[j]).name@
                    != fields@[index].name@) ==> (member(tree, "properties"@) matches Some(
                properties,
            ) && member(properties, fields@[index].name@) == Some(
                json::json_tree(fields@[index].schema),
            ))
        }),
{
    describing::law_structs_list_their_required_fields(fields@);
    describing::law_required_names_are_those_of_required_fields(fields@, name);
    if 0 <= index < fields@.len() && (forall|j: int|
        index < j < fields@.len() ==> (#[trigger] fields@[j]).name@ != fields@[index].name@) {
        describing::law_structs_have_a_property_for_each_field(fields@, index);
    }
}

/// `query_parameters` gives one query parameter for each field, in order.
pub proof fn law_fields_are_query_parameters(fields: &[SchemaField], index: int, r: Vec<Value>)
    requires
        call_ensures(crate::derive::query_parameters, (fields,), r),
    ensures
        r@.len() == fields@.len(),
        0 <= index < fields@.len() ==> {
            let parameter = json::json_tree(r@[index]);
            &&& member(parameter, "in"@) == Some(JsonTree::Text("query"@))
            &&& member(parameter, "name"@) == Some(JsonTree::Text(fields@[index].name@))
            &&& member(parameter, "required"@) == Some(JsonTree::Bool(fields@[index].required))
            &&& member(parameter, "schema"@) == Some(json::json_tree(fields@[index].schema))
        },
{
    if 0 <= index < fields@.len() {
        describing::law_parameters_say_what_they_are(
            "query"@,
            fields@[index].name@,
            fields@[index].required,
            json::json_tree(fields@[index].schema),
        );
    }
}

/// `operation_value` describes the response of a route under its status: with the schema of
/// the body as that of its JSON content where the route has one, and without content where it
/// has none.
pub proof fn law_operations_show_the_response(route: &RouteMetadata, r: Value)
    requires
        call_ensures(openapi::operation_value, (route,), r),
    ensures
        member(json::json_tree(r), "responses"@) matches Some(responses) && {
            let status = number::decimal(route.operation.response_status@ as nat);
            &&& has_only(responses, seq![status])
            &&& member(responses, status) matches Some(response) && match
                route.operation.response_schema {
                Some(of) => member(response, "content"@) matches Some(content) && (member(
                    content,
                    "application/json"@,
                ) matches Some(media) && member(media, "schema"@) == Some(json::json_tree(of))),
                None => member(response, "content"@) is None,
            }
        },
{
    describing::law_operations_describe_their_response(route@);
}

/// `operation_value` repeats what was said of a route: its tag, its summary, its id and its
/// body.
pub proof fn law_operations_show_what_was_said(route: &RouteMetadata, r: Value)
    requires
        call_ensures(openapi::operation_value, (route,), r),
    ensures
        ({
            let tree = json::json_tree(r);
            let said = route.operation;
            &&& match said.tag {
                Some(tag) => member(tree, "tags"@) == Some(
                    JsonTree::List(seq![JsonTree::Text(tag@)]),
                ),
                None => member(tree, "tags"@) is None,
            }
            &&& match said.summary {
                Some(text) => member(tree, "summary"@) == Some(JsonTree::Text(text@)),
                None => member(tree, "summary"@) is None,
            }
            &&& match said.operation_id {
                Some(text) => member(tree, "operationId"@) == Some(JsonTree::Text(text@)),
                None => member(tree, "operationId"@) is None,
            }
            &&& match said.request.request_body {
                Some(body) => member(tree, "requestBody"@) == Some(json::json_tree(body)),
                None => member(tree, "requestBody"@) is None,
            }
        }),
{
    describing::law_operations_say_nothing_else(route@);
}

/// `operation_value` lists the parameters of a route: those of its extractors, and one for each
/// capture of its template.
pub proof fn law_operations_show_their_parameters(route: &RouteMetadata, index: int, r: Value)
    requires
        call_ensures(openapi::operation_value, (route,), r),
    ensures
        ({
            let named = route.operation.request.parameters@;
            let captures = plan::capture_names_of(path::segment_views(route.segments@));
            match member(json::json_tree(r), "parameters"@) {
                Some(JsonTree::List(parameters)) => {
                    &&& parameters.len() == named.len() + captures.len()
                    &&& 0 <= index < named.len() ==> parameters[index] == json::json_tree(
                        named[index],
                    )
                    &&& 0 <= index < captures.len() ==> {
                        let parameter = parameters[named.len() + index];
                        &&& member(parameter, "in"@) == Some(JsonTree::Text("path"@))
                        &&& member(parameter, "name"@) == Some(JsonTree::Text(captures[index]))
                        &&& member(parameter, "required"@) == Some(JsonTree::Bool(true))
                    }
                },
                Some(_) => false,
                None => named.len() + captures.len() == 0,
            }
        }),
{
    describing::law_operations_say_nothing_else(route@);
    describing::law_operations_list_their_parameters(route@);
    let named = json::json_trees(route.operation.request.parameters@);
    assert(named.len() == route.operation.request.parameters@.len());
    let parameters = openapi::parameters_of(route@);
    let captures = plan::capture_names_of(path::segment_views(route.segments@));
    if 0 <= index < named.len() {
        assert(parameters[index] == named[index]);
    }
    if 0 <= index < captures.len() {
        assert(member(parameters[named.len() + index], "in"@) == Some(JsonTree::Text("path"@)));
    }
}

/// The document of an application is one of OpenAPI 3.1, and shows every route that was
/// registered under its template and its method in lower case.
pub proof fn law_documents_show_their_routes<S, H>(app: &App<S, H>, index: int, r: Value)
    requires
        app.wf(),
        call_ensures(App::<S, H>::openapi_document, (app,), r),
        0 <= index < app.metadata@.len(),
        !app.metadata@[index].builtin,
    ensures
        ({
            let document = json::json_tree(r);
            let route = app.metadata@[index];
            &&& member(document, "openapi"@) == Some(JsonTree::Text("3.1.0"@))
            &&& describing::method_key_of(route.method@) matches Some(key) && (member(
                document,
                "paths"@,
            ) matches Some(paths) && (member(paths, route.template@) matches Some(operations)
                && member(operations, key) == Some(openapi::operation_tree(route@))))
        }),
{
    let config = openapi::config_of(app.openapi_config);
    assert(app.routes()[index] == app.metadata@[index]@);
    describing::law_document_shows_every_route(*app, index);
    crate::laws::law_document_says_what_was_configured(app.routes(), config);
}

/// `parsed` hands a value on, and turns a message into a bad request that carries it.
pub proof fn law_messages_become_bad_requests<T>(
    result: Result<T, String>,
    r: Result<T, ApiError>,
)
    requires
        call_ensures(extract::parsed::<T>, (result,), r),
    ensures
        result matches Ok(value) ==> r == Ok::<T, ApiError>(value),
        result matches Err(message) ==> (r matches Err(error) && error.status@ == 400
            && error.detail@ == message@ && !error.missing),
{
}

/// `optional` turns an absent input into nothing, and lets every other failure stand.
pub proof fn law_optional_forgives_absence_alone<T>(
    result: Result<T, ApiError>,
    r: Result<Option<T>, ApiError>,
)
    requires
        call_ensures(extract::optional::<T>, (result,), r),
    ensures
        result matches Ok(value) ==> r == Ok::<Option<T>, ApiError>(Some(value)),
        result matches Err(error) ==> (error.missing ==> r == Ok::<Option<T>, ApiError>(None)),
        result matches Err(error) ==> (!error.missing ==> r == Err::<Option<T>, ApiError>(error)),
{
}

/// Two extractors together need what either of them needs, in whatever order.
pub proof fn law_needs_are_joined(a: Needs, b: Needs, none: Needs, ab: Needs, ba: Needs, a0: Needs)
    requires
        call_ensures(Needs::nothing, (), none),
        call_ensures(Needs::join, (a, b), ab),
        call_ensures(Needs::join, (b, a), ba),
        call_ensures(Needs::join, (a, none), a0),
    ensures
        ab == ba,
        a0 == a,
        a.params ==> ab.params,
        a.capture ==> ab.capture,
        a.body ==> ab.body,
        !a.params && !b.params ==> !ab.params,
        !a.capture && !b.capture ==> !ab.capture,
        !a.body && !b.body ==> !ab.body,
{
}

/// `header_text` gives the text of a header field, and tells an absent field from a value that
/// is not visible text.
pub proof fn law_header_texts_are_read<'a>(
    fields: &'a HeaderMap<HeaderValue>,
    key: &'static str,
    name: &str,
    value: Seq<char>,
    r: Result<&'a str, ApiError>,
)
    requires
        call_ensures(extract::header_text, (fields, key, name), r),
    ensures
        shows(headers::header_fields(*fields), key@, value) ==> (r matches Ok(text) && text@
            == value),
        !headers::header_fields(*fields).contains_key(key@) ==> (r matches Err(error)
            && error.missing && error.detail@ == "missing header "@ + name@),
        r matches Err(error) ==> error.status@ == 400,
        headers::header_fields(*fields).contains_key(key@) ==> (r matches Err(error) ==> (
        !error.missing && error.detail@ == "invalid header "@ + name@)),
{
    if shows(headers::header_fields(*fields), key@, value) {
        if let Ok(text) = r {
            crate::text::lemma_encode_injective(text@, value);
        }
    }
}

/// `is_json_media_type` recognizes `application/json` and the subtypes of `application` that
/// end in `+json`.
pub proof fn law_json_media_types_are_known(
    media: &str,
    kind: Seq<char>,
    subtype: Seq<char>,
    r: bool,
)
    requires
        call_ensures(extract::is_json_media_type, (media,), r),
        !kind.contains('/'),
        media@ == kind + seq!['/'] + subtype,
    ensures
        r <==> {
            &&& extract::same_letters(encode_utf8(kind), encode_utf8("application"@))
            &&& {
                ||| extract::same_letters(encode_utf8(subtype), encode_utf8("json"@))
                ||| exists|stem: Seq<char>|
                    stem.len() > 0 && subtype == #[trigger] (stem + "+json"@)
            }
        },
{
    crate::laws::answering::law_json_media_types_are_recognized(kind, subtype);
}

/// `check_json_request` accepts a body exactly where its content type is a JSON media type.
pub proof fn law_json_requests_are_checked(
    fields: &HeaderMap<HeaderValue>,
    body: &Bytes,
    content_type: Seq<char>,
    r: Result<(), ApiError>,
)
    requires
        call_ensures(extract::check_json_request, (fields, body), r),
    ensures
        shows(headers::header_fields(*fields), "content-type"@, content_type) && content_type.len()
            > 0 ==> (r is Ok <==> extract::is_json_media(extract::media_type_of(content_type))),
        shows(headers::header_fields(*fields), "content-type"@, content_type) && content_type.len()
            > 0 ==> (r matches Err(error) ==> error.status@ == 415 && !error.missing),
        !headers::header_fields(*fields).contains_key("content-type"@) ==> (r matches Err(error)
            && if payload::bytes_contents(*body).len() == 0 {
            error.missing && error.status@ == 400
        } else {
            !error.missing && error.status@ == 415
        }),
{
    crate::laws::answering::law_json_bodies_are_declared(
        headers::header_fields(*fields),
        payload::bytes_contents(*body),
        content_type,
    );
}

/// A text is sent as plain text with its length.
pub proof fn law_sent_texts_have_their_length<B>(
    status: StatusCode,
    body: Bytes,
    r: HttpResponse<B>,
)
    requires
        call_ensures(response::response_text::<B>, (status, body), r),
    ensures
        r@.status == status@,
        r@.body == BodyView::<B>::Full(Some(payload::bytes_contents(body))),
        has_field(r@, "content-type"@, "text/plain; charset=utf-8"@),
        has_field(
            r@,
            "content-length"@,
            number::decimal(payload::bytes_contents(body).len()),
        ),
        names_only(r@, seq!["content-type"@, "content-length"@]),
{
    crate::laws::answering::law_texts_are_sent_with_type_and_length::<B>(
        status@,
        payload::bytes_contents(body),
    );
}

/// A JSON value is sent as its compact text, with the type of JSON.
pub proof fn law_sent_values_are_json<B>(
    status: StatusCode,
    body: Bytes,
    value: Value,
    bytes: HttpResponse<B>,
    r: HttpResponse<B>,
)
    requires
        call_ensures(response::response_json_bytes::<B>, (status, body), bytes),
        call_ensures(response::response_json::<B>, (status, value), r),
    ensures
        bytes@.status == status@ && r@.status == status@,
        bytes@.body == BodyView::<B>::Full(Some(payload::bytes_contents(body))),
        r@.body == BodyView::<B>::Full(
            Some(encode_utf8(json::json_text(json::json_tree(value)))),
        ),
        has_field(bytes@, "content-type"@, "application/json"@),
        has_field(r@, "content-type"@, "application/json"@),
{
}

/// The fixed answers have their statuses, and name the allowed methods where they are given
/// them.
pub proof fn law_fixed_answers_have_their_status<B>(
    allow: &str,
    unknown: HttpResponse<B>,
    options: HttpResponse<B>,
    refused: HttpResponse<B>,
    large: HttpResponse<B>,
    cut: HttpResponse<B>,
)
    requires
        call_ensures(response::not_found::<B>, (), unknown),
        call_ensures(response::options_response::<B>, (allow,), options),
        call_ensures(response::method_not_allowed_response::<B>, (allow,), refused),
        call_ensures(response::payload_too_large_response::<B>, (), large),
        call_ensures(response::interrupted_body_response::<B>, (), cut),
    ensures
        unknown@.status == 404,
        unknown@.body == BodyView::<B>::Full(Some(encode_utf8("Not Found"@))),
        options@.status == 204 && has_field(options@, "allow"@, allow@),
        options@.body == BodyView::<B>::Full(Some(Seq::empty())),
        refused@.status == 405 && has_field(refused@, "allow"@, allow@),
        refused@.body == BodyView::<B>::Full(Some(Seq::empty())),
        large@.status == 413,
        cut@.status == 400,
{
    crate::laws::answering::law_empty_responses_have_no_length::<B>(204, allow@);
    crate::laws::answering::law_empty_responses_have_no_length::<B>(405, allow@);
}

/// `maybe_head_flag` takes the body out of a response to `HEAD`, and names its length; any
/// other response is handed on.
pub proof fn law_head_answers_have_no_body<B>(
    is_head: bool,
    given: HttpResponse<B>,
    contents: Seq<u8>,
    r: HttpResponse<B>,
)
    requires
        call_ensures(response::maybe_head_flag::<B>, (is_head, given), r),
    ensures
        !is_head ==> r == given,
        is_head ==> {
            &&& r@.status == given@.status
            &&& r@.body == BodyView::<B>::Full(Some(Seq::empty()))
            &&& given@.body == BodyView::<B>::Full(Some(contents)) && !given@.headers.contains_key(
                "content-length"@,
            ) ==> has_field(r@, "content-length"@, number::decimal(contents.len()))
            &&& forall|name: Seq<char>| #[trigger]
                given@.headers.contains_key(name) ==> r@.headers.contains_key(name)
                    && r@.headers[name] == given@.headers[name]
        },
{
}

/// The values that handlers return become responses: texts and bytes with `200`, nothing with
/// `204`, and an error with its own status.
pub proof fn law_values_become_responses<B>(
    text: &'static str,
    string: String,
    bytes: Bytes,
    json: JsonBytes,
    error: ApiError,
    texts: (HttpResponse<B>, HttpResponse<B>, HttpResponse<B>),
    others: (HttpResponse<B>, HttpResponse<B>, HttpResponse<B>, HttpResponse<B>),
    failed: HttpResponse<B>,
)
    requires
        call_ensures(<&'static str as IntoResponse<B>>::into_response, (text,), texts.0),
        call_ensures(<String as IntoResponse<B>>::into_response, (string,), texts.1),
        call_ensures(<Bytes as IntoResponse<B>>::into_response, (bytes,), texts.2),
        call_ensures(<JsonBytes as IntoResponse<B>>::into_response, (json,), others.0),
        call_ensures(<() as IntoResponse<B>>::into_response, ((),), others.1),
        call_ensures(<NoContent as IntoResponse<B>>::into_response, (NoContent,), others.2),
        call_ensures(<NotModified as IntoResponse<B>>::into_response, (NotModified,), others.3),
        call_ensures(<ApiError as IntoResponse<B>>::into_response, (error,), failed),
    ensures
        texts.0@.status == 200 && texts.1@.status == 200 && texts.2@.status == 200,
        texts.0@.body == BodyView::<B>::Full(Some(encode_utf8(text@))),
        texts.1@.body == BodyView::<B>::Full(Some(encode_utf8(string@))),
        texts.2@.body == BodyView::<B>::Full(Some(payload::bytes_contents(bytes))),
        has_field(texts.0@, "content-type"@, "text/plain; charset=utf-8"@),
        has_field(texts.1@, "content-type"@, "text/plain; charset=utf-8"@),
        others.0@.status == 200 && has_field(others.0@, "content-type"@, "application/json"@),
        others.0@.body == BodyView::<B>::Full(Some(payload::bytes_contents(json.bytes))),
        others.1@.status == 204 && others.2@.status == 204 && others.3@.status == 304,
        others.1@.body == BodyView::<B>::Full(Some(Seq::empty())),
        others.2@.body == BodyView::<B>::Full(Some(Seq::empty())),
        others.3@.body == BodyView::<B>::Full(Some(Seq::empty())),
        failed@.status == error.status@,
        failed@.body == BodyView::<B>::Full(
            Some(encode_utf8(json::json_text(response::problem_tree(error@)))),
        ),
{
    crate::laws::answering::law_texts_are_sent_with_type_and_length::<B>(
        200,
        encode_utf8(text@),
    );
    crate::laws::answering::law_texts_are_sent_with_type_and_length::<B>(
        200,
        encode_utf8(string@),
    );
}

/// A stream is sent with `200` as it is, and without a length.
pub proof fn law_streams_are_sent_as_they_are<B: Send + 'static>(stream: B, r: HttpResponse<B>)
    requires
        call_ensures(
            <StreamResponse<B> as IntoResponse<B>>::into_response,
            (StreamResponse(stream),),
            r,
        ),
    ensures
        r@.status == 200,
        r@.body == BodyView::<B>::Stream(stream),
        !r@.headers.contains_key("content-length"@),
{
}

/// A value that serializes is sent as JSON under its status, and one that does not is answered
/// with `500` and the message.
pub proof fn law_serialized_values_are_sent<B>(
    status: StatusCode,
    bytes: Vec<u8>,
    message: String,
    sent: HttpResponse<B>,
    failed: HttpResponse<B>,
)
    requires
        call_ensures(
            response::serialized_response::<B>,
            (status, Ok::<Vec<u8>, String>(bytes)),
            sent,
        ),
        call_ensures(
            response::serialized_response::<B>,
            (status, Err::<Vec<u8>, String>(message)),
            failed,
        ),
    ensures
        sent@.status == status@,
        sent@.body == BodyView::<B>::Full(Some(bytes@)),
        has_field(sent@, "content-type"@, "application/json"@),
        failed@.status == 500,
        failed@ == response::problem_response::<B>(
            crate::error::Problem {
                status: 500,
                title: "Serialization Error"@,
                detail: message@,
                missing: false,
            },
        ),
{
}

/// What is said of a response beforehand: its status, and the schema of its body where it is
/// JSON.
pub proof fn law_responses_are_known_beforehand<T: ApiSchema, U: ResponseMetadata>(
    none: StatusCode,
    nothing: StatusCode,
    unchanged: StatusCode,
    created: StatusCode,
    either: StatusCode,
    body: Option<Value>,
    made: Option<Value>,
)
    requires
        call_ensures(<() as ResponseMetadata>::status_code, (), none),
        call_ensures(<NoContent as ResponseMetadata>::status_code, (), nothing),
        call_ensures(<NotModified as ResponseMetadata>::status_code, (), unchanged),
        call_ensures(<Created<T> as ResponseMetadata>::status_code, (), created),
        call_ensures(<Result<U, ApiError> as ResponseMetadata>::status_code, (), either),
        call_ensures(<Json<T> as ResponseMetadata>::response_schema, (), body),
        call_ensures(<Created<T> as ResponseMetadata>::response_schema, (), made),
    ensures
        none@ == 204,
        nothing@ == 204,
        unchanged@ == 304,
        created@ == 201,
        call_ensures(<U as ResponseMetadata>::status_code, (), either),
        body matches Some(of) && call_ensures(<T as ApiSchema>::schema, (), of),
        made matches Some(of) && call_ensures(<T as ApiSchema>::schema, (), of),
{
}

/// The schemas of the known types: integers with their formats, text, booleans and UUIDs.
pub proof fn law_known_types_have_their_schemas(
    string: Value,
    boolean: Value,
    id: Value,
    small: Value,
    large: Value,
    short: Value,
    long: Value,
)
    requires
        call_ensures(<String as ApiSchema>::schema, (), string),
        call_ensures(<bool as ApiSchema>::schema, (), boolean),
        call_ensures(<uuid::Uuid as ApiSchema>::schema, (), id),
        call_ensures(<u32 as ApiSchema>::schema, (), small),
        call_ensures(<u64 as ApiSchema>::schema, (), large),
        call_ensures(<i32 as ApiSchema>::schema, (), short),
        call_ensures(<i64 as ApiSchema>::schema, (), long),
    ensures
        member(json::json_tree(string), "type"@) == Some(JsonTree::Text("string"@)),
        member(json::json_tree(string), "format"@) is None,
        member(json::json_tree(boolean), "type"@) == Some(JsonTree::Text("boolean"@)),
        member(json::json_tree(id), "type"@) == Some(JsonTree::Text("string"@)),
        member(json::json_tree(id), "format"@) == Some(JsonTree::Text("uuid"@)),
        member(json::json_tree(small), "type"@) == Some(JsonTree::Text("integer"@)),
        member(json::json_tree(small), "format"@) == Some(JsonTree::Text("int32"@)),
        member(json::json_tree(large), "type"@) == Some(JsonTree::Text("integer"@)),
        member(json::json_tree(large), "format"@) == Some(JsonTree::Text("int64"@)),
        member(json::json_tree(short), "format"@) == Some(JsonTree::Text("int32"@)),
        member(json::json_tree(long), "format"@) == Some(JsonTree::Text("int64"@)),
        json::json_tree(short) == json::json_tree(small),
        json::json_tree(long) == json::json_tree(large),
{
    let none = JsonTree::Text("none"@);
    describing::lemma_keys();
    describing::law_schemas_name_their_types("string"@, "uuid"@, none);
    describing::law_schemas_name_their_types("boolean"@, "uuid"@, none);
    describing::law_schemas_name_their_types("integer"@, "int32"@, none);
    describing::law_schemas_name_their_types("integer"@, "int64"@, none);
}

/// An `Option` and a reference have the schema of what they hold, and a list has it for its
/// items.
pub proof fn law_containers_have_the_schema_of_their_items<T: ApiSchema>(
    maybe: Value,
    list: Value,
)
    requires
        call_ensures(<Option<T> as ApiSchema>::schema, (), maybe),
        call_ensures(<Vec<T> as ApiSchema>::schema, (), list),
    ensures
        call_ensures(<T as ApiSchema>::schema, (), maybe),
        member(json::json_tree(list), "type"@) == Some(JsonTree::Text("array"@)),
        exists|items: Value| #[trigger]
            call_ensures(<T as ApiSchema>::schema, (), items) && member(
                json::json_tree(list),
                "items"@,
            ) == Some(json::json_tree(items)),
{
    let items = choose|items: Value| #[trigger]
        call_ensures(<T as ApiSchema>::schema, (), items) && json::json_tree(list)
            == schema::array_tree(json::json_tree(items));
    describing::law_schemas_name_their_types("array"@, "array"@, json::json_tree(items));
}

/// What an extractor says when its input may be absent: the same parameters, none of them
/// required.
pub proof fn law_optional_extractors_require_nothing(
    request: OpenApiRequest,
    index: int,
    fields: Map<Seq<char>, JsonTree>,
    r: OpenApiRequest,
)
    requires
        call_ensures(OpenApiRequest::optional, (request,), r),
        0 <= index < request.parameters@.len(),
        json::json_tree(request.parameters@[index]) == JsonTree::Object(fields),
    ensures
        r.parameters@.len() == request.parameters@.len(),
        member(json::json_tree(r.parameters@[index]), "required"@) == Some(JsonTree::Bool(false)),
        forall|key: Seq<char>|
            key != "required"@ ==> #[trigger] member(json::json_tree(r.parameters@[index]), key)
                == member(JsonTree::Object(fields), key),
{
    assert(request@.parameters[index] == json::json_tree(request.parameters@[index]));
    assert(r@.parameters.len() == r.parameters@.len());
    describing::law_optional_input_is_not_required(request@, index, fields);
    assert(r@.parameters[index] == json::json_tree(r.parameters@[index]));
}

/// `allowed_methods` lists the methods that have a route, separated by a comma and a space.
pub proof fn law_allowed_methods_are_listed(routes: &RouteSet, r: String)
    requires
        call_ensures(RouteSet::allowed_methods, (routes,), r),
    ensures
        r@ == routing::joined(routing::methods_with_routes(routes@)),
{
    routing::law_allow_lists_the_methods_with_routes(routes@, "GET"@);
}

/// A known path serves a method by its own route, and `HEAD` by that of `GET`. Without one,
/// `OPTIONS` and every other method are told the methods that have one.
pub proof fn law_route_sets_are_resolved(
    method: &Method,
    routes: &RouteSet,
    r: Result<RouteId, RouteFailure>,
)
    requires
        call_ensures(router::resolve_route_set, (method, routes), r),
    ensures
        match r {
            Ok(id) => {
                ||| router::route_of(routes@, method@) == Some(id.0 as int)
                ||| method@ == "HEAD"@ && router::route_of(routes@, method@) is None
                    && router::route_of(routes@, "GET"@) == Some(id.0 as int)
            },
            Err(RouteFailure::Options(allow)) => method@ == "OPTIONS"@ && router::route_of(
                routes@,
                method@,
            ) is None && allow@ == routing::joined(routing::methods_with_routes(routes@)),
            Err(RouteFailure::MethodNotAllowed(allow)) => method@ != "OPTIONS"@
                && router::route_of(routes@, method@) is None && (method@ == "HEAD"@
                ==> router::route_of(routes@, "GET"@) is None) && allow@ == routing::joined(
                routing::methods_with_routes(routes@),
            ),
        },
{
    routing::law_allow_lists_the_methods_with_routes(routes@, "GET"@);
}

/// A method is known by its name, and two methods are the same where their names are.
pub proof fn law_methods_are_known_by_name(
    name: &str,
    other: &str,
    a: Method,
    b: Method,
    same: bool,
    slot: Option<usize>,
)
    requires
        call_ensures(Method::from_name, (name,), a),
        call_ensures(Method::from_name, (other,), b),
        call_ensures(Method::same, (&a, &b), same),
        call_ensures(method::method_slot, (&a,), slot),
    ensures
        a@ == name@,
        same <==> name@ == other@,
        slot is Some <==> routing::routable().contains(name@),
{
    routing::law_seven_methods_are_routable(name@, other@);
}

/// Paths lose their trailing slashes, and the empty route path is the root.
pub proof fn law_paths_are_normalized(
    path: &str,
    slashes: Seq<char>,
    normal: &str,
    route: String,
)
    requires
        call_ensures(path::normalize_request_path, (path,), normal),
        call_ensures(path::normalize_path, (path,), route),
    ensures
        path@.len() == 0 ==> route@ == seq!['/'] && normal@ == path@,
        path@.len() > 0 ==> route@ == normal@,
        path@.len() == 1 ==> normal@ == path@,
        path@.len() > 1 ==> normal@.len() == 0 || normal@.last() != '/',
        normal@.len() <= path@.len(),
        forall|i: int| 0 <= i < normal@.len() ==> normal@[i] == path@[i],
        forall|i: int| normal@.len() <= i < path@.len() ==> path@[i] == '/',
{
    routing::law_normal_paths_lose_their_trailing_slashes(path@);
}

/// `split_path` gives the nonempty parts between the slashes of a path.
pub proof fn law_paths_are_split_at_slashes(path: &str, index: int, r: Vec<&str>)
    requires
        call_ensures(path::split_path, (path,), r),
    ensures
        r@.len() == path::parts_from(encode_utf8(path@), 0).len(),
        0 <= index < r@.len() ==> {
            let part = path::parts_from(encode_utf8(path@), 0)[index];
            &&& routing::is_run(encode_utf8(path@), part)
            &&& encode_utf8(r@[index]@) == encode_utf8(path@).subrange(part.0, part.1)
        },
{
    routing::law_parts_are_the_runs_between_slashes(encode_utf8(path@));
    let texts = r@.map_values(|part: &str| part@);
    assert(texts == path::path_texts(path@));
    assert(texts.len() == r@.len());
    routing::law_parts_hold_their_texts(path@, index);
    if 0 <= index < r@.len() {
        assert(texts[index] == r@[index]@);
        assert(routing::is_run(
            encode_utf8(path@),
            path::parts_from(encode_utf8(path@), 0)[index],
        ));
    }
}

/// `parse_template` makes a capture of each part between braces, and fixed text of every other.
pub proof fn law_templates_are_parsed(path: &str, index: int, name: Seq<char>, r: Vec<Segment>)
    requires
        call_ensures(path::parse_template, (path,), r),
    ensures
        r@.len() == path::path_texts(path@).len(),
        0 <= index < r@.len() ==> {
            let part = path::path_texts(path@)[index];
            &&& part == seq!['{'] + name + seq!['}'] ==> (r@[index] matches Segment::Capture(held)
                && held@ == name)
            &&& (forall|inner: Seq<char>| part != #[trigger] (seq!['{'] + inner + seq!['}'])) ==> (
            r@[index] matches Segment::Static(held) && held@ == part)
        },
{
    let views = path::segment_views(r@);
    assert(views.len() == r@.len());
    routing::law_templates_are_read_part_by_part(path@, index);
    if 0 <= index < r@.len() {
        assert(views[index] == r@[index]@);
        routing::law_braces_make_captures(path::path_texts(path@)[index], name);
    }
}

/// `capture_names` gives the names of the captures in order, and `all_static` tells whether
/// there are none.
pub proof fn law_capture_names_are_given_in_order(
    segments: &[Segment],
    names: Vec<String>,
    fixed: bool,
)
    requires
        call_ensures(plan::capture_names, (segments,), names),
        call_ensures(plan::all_static, (segments,), fixed),
    ensures
        params::string_views(names@) == path::segment_views(segments@).filter(
            |segment: path::SegmentView| segment is Capture,
        ).map_values(|segment: path::SegmentView| segment->Capture_0),
        fixed <==> names@.len() == 0,
{
    describing::law_capture_names_are_those_of_the_segments(path::segment_views(segments@));
    plan::lemma_capture_names(path::segment_views(segments@));
    assert(params::string_views(names@).len() == names@.len());
}

/// A capture that is added is found at its place, and those before it stay.
pub proof fn law_captures_are_kept(
    set: CaptureSet,
    index: usize,
    range: CaptureRange,
    place: usize,
    added: CaptureSet,
    found: Option<CaptureRange>,
    before: Option<CaptureRange>,
)
    requires
        set.wf(),
        index <= set.count,
        call_ensures(CaptureSet::with_capture, (set, index, range), added),
        call_ensures(CaptureSet::range, (&added, place), found),
        call_ensures(CaptureSet::range, (&set, place), before),
    ensures
        place == index ==> (found matches Some(held) && held.start == range.start && held.end
            == range.end),
        place < index ==> (found matches Some(held) && (before matches Some(was) && held.start
            == was.start && held.end == was.end)),
        place > index ==> found is None,
{
}

/// A value is read by its name, and by no name where none are kept.
pub proof fn law_parameters_are_read_by_name(
    given: &Params,
    name: &str,
    i: int,
    r: Option<&str>,
)
    requires
        call_ensures(Params::get, (given, name), r),
    ensures
        given.owned is None ==> r is None,
        given.owned matches Some(owned) ==> {
            &&& 0 <= i < owned.names@.len() && i < owned.values@.len() && owned.names@[i]@ == name@
                && (forall|j: int| 0 <= j < i ==> (#[trigger] owned.names@[j])@ != name@) ==> (
            r matches Some(value) && value@ == owned.values@[i]@)
            &&& (forall|j: int| 0 <= j < owned.names@.len() ==> (#[trigger] owned.names@[j])@
                != name@) ==> r is None
        },
{
    if let Some(owned) = given.owned {
        let named = given.named()->0;
        assert(named.names.len() == owned.names@.len());
        assert forall|j: int| 0 <= j < owned.names@.len() implies #[trigger] named.names[j]
            == owned.names@[j]@ by {}
        crate::laws::seeing::law_values_are_read_by_their_first_name(named, name@, i);
        if forall|j: int| 0 <= j < owned.names@.len() ==> (#[trigger] owned.names@[j])@ != name@ {
            if named.names.contains(name@) {
                let j = choose|j: int| 0 <= j < named.names.len() && named.names[j] == name@;
                assert(owned.names@[j]@ == name@);
            }
        }
        if 0 <= i < owned.names@.len() && i < owned.values@.len() && owned.names@[i]@ == name@ && (
        forall|j: int| 0 <= j < i ==> (#[trigger] owned.names@[j])@ != name@) {
            assert forall|j: int| 0 <= j < i implies #[trigger] named.names[j] != name@ by {
                assert(owned.names@[j]@ != name@);
            }
            assert(named.values[i] == owned.values@[i]@);
        }
    }
}

/// A request that declares a longer body than the limit is known as such, and no other.
pub proof fn law_long_bodies_are_known(
    fields: &HeaderMap<HeaderValue>,
    limit: usize,
    length: nat,
    r: bool,
)
    requires
        call_ensures(dispatch::declared_too_large, (fields, limit), r),
    ensures
        shows(headers::header_fields(*fields), "content-length"@, number::decimal(length))
            && length <= usize::MAX ==> (r <==> length > limit),
        !headers::header_fields(*fields).contains_key("content-length"@) ==> !r,
{
    if shows(headers::header_fields(*fields), "content-length"@, number::decimal(length)) {
        crate::laws::answering::law_declared_lengths_are_read(
            headers::header_fields(*fields),
            length,
        );
    }
}

/// Errors carry what they are made of, and only those of absence are of absence.
pub proof fn law_errors_carry_what_they_say(
    status: StatusCode,
    title: &str,
    detail: &str,
    made: ApiError,
    bad: ApiError,
    absent: ApiError,
    is_absent: bool,
)
    requires
        call_ensures(ApiError::new, (status, title, detail), made),
        call_ensures(ApiError::bad_request, (detail,), bad),
        call_ensures(ApiError::missing, (detail,), absent),
        call_ensures(ApiError::is_missing, (&absent,), is_absent),
    ensures
        made.status == status && made.title@ == title@ && made.detail@ == detail@ && !made.missing,
        bad.status@ == 400 && bad.title@ == "Bad Request"@ && bad.detail@ == detail@
            && !bad.missing,
        absent.status@ == 400 && absent.title@ == "Bad Request"@ && absent.detail@ == detail@
            && absent.missing,
        is_absent,
{
}

/// A status has the code that it is named after.
pub proof fn law_statuses_have_their_codes(
    code: u16,
    ok: StatusCode,
    made: Option<StatusCode>,
    back: u16,
)
    requires
        call_ensures(StatusCode::ok, (), ok),
        call_ensures(StatusCode::from_u16, (code,), made),
        call_ensures(StatusCode::as_u16, (&ok,), back),
    ensures
        back == 200,
        made is Some <==> 100 <= code <= 999,
        made matches Some(status) ==> status@ == code,
{
}

/// A prepared response is sent as it is, with `200`.
pub proof fn law_prepared_responses_are_sent<B>(
    prepared: &StaticResponse,
    body: Bytes,
    text: StaticResponse,
    json: StaticResponse,
    r: HttpResponse<B>,
)
    requires
        call_ensures(StaticResponse::text_bytes, (body,), text),
        call_ensures(StaticResponse::json, (body,), json),
        call_ensures(StaticResponse::to_response::<B>, (prepared,), r),
    ensures
        r@.status == 200,
        *prepared == text ==> r@.body == BodyView::<B>::Full(Some(payload::bytes_contents(body)))
            && has_field(r@, "content-type"@, "text/plain; charset=utf-8"@) && has_field(
            r@,
            "content-length"@,
            number::decimal(payload::bytes_contents(body).len()),
        ),
        *prepared == json ==> r@.body == BodyView::<B>::Full(Some(payload::bytes_contents(body)))
            && has_field(r@, "content-type"@, "application/json"@),
{
    crate::laws::answering::law_prepared_responses_are_sent_as_they_are::<B>(*prepared);
}

} // verus!
