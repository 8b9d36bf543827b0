//! What holds of the answers: responses, problems, media types, plans and calls.

use crate::app;
use crate::app::App;
use crate::dispatch;
use crate::dispatch::DispatchView;
use crate::error;
use crate::extract;
use crate::headers;
use crate::json;
use crate::json::JsonTree;
use crate::laws;
use crate::laws::describing::{has_only, member};
use crate::number;
use crate::params;
use crate::params::MAX_CAPTURE_PARAMS;
use crate::path;
use crate::percent;
use crate::plan;
use crate::plan::{BodyMode, CaptureMode, Endpoint, HandlerKind, RoutePlan};
use crate::response;
use crate::response::{BodyView, ResponseView, StaticResponse};
use crate::schema;
use crate::settings;
use crate::text;
use vstd::prelude::*;
use vstd::string::*;
use vstd::utf8::*;

verus! {

/// Whether a field of a response has the given text as its one value.
pub open spec fn has_field<B>(response: ResponseView<B>, name: Seq<char>, value: Seq<char>) -> bool {
    response.headers.contains_key(name) && response.headers[name] == seq![encode_utf8(value)]
}

/// Whether a response has no fields but those named.
pub open spec fn names_only<B>(response: ResponseView<B>, names: Seq<Seq<char>>) -> bool {
    forall|name: Seq<char>| #[trigger]
        response.headers.contains_key(name) ==> names.contains(name)
}

/// The names of the header fields that answers have are different.
proof fn lemma_field_names()
    ensures
        "content-type"@ != "content-length"@,
        "allow"@ != "content-length"@,
        "allow"@ != "content-type"@,
{
    reveal_strlit("content-type");
    reveal_strlit("content-length");
    reveal_strlit("allow");
    assert("content-type"@.len() == 12 && "content-length"@.len() == 14 && "allow"@.len() == 5);
}

/// A text is sent as plain text in UTF-8 with its length in bytes, and as it is.
pub proof fn law_texts_are_sent_with_type_and_length<B>(status: u16, contents: Seq<u8>)
    ensures
        ({
            let sent = response::text_response::<B>(status, contents);
            &&& sent.status == status
            &&& sent.body == BodyView::<B>::Full(Some(contents))
            &&& has_field(sent, "content-type"@, "text/plain; charset=utf-8"@)
            &&& has_field(sent, "content-length"@, number::decimal(contents.len()))
            &&& names_only(sent, seq!["content-type"@, "content-length"@])
        }),
{
    lemma_field_names();
    let names = seq!["content-type"@, "content-length"@];
    assert(names[0] == "content-type"@ && names[1] == "content-length"@);
}

/// JSON is sent as JSON, and as it is.
pub proof fn law_json_is_sent_with_its_type<B>(status: u16, contents: Seq<u8>)
    ensures
        ({
            let sent = response::json_response::<B>(status, contents);
            &&& sent.status == status
            &&& sent.body == BodyView::<B>::Full(Some(contents))
            &&& has_field(sent, "content-type"@, "application/json"@)
            &&& names_only(sent, seq!["content-type"@])
        }),
{
    assert(seq!["content-type"@][0] == "content-type"@);
}

/// A response without a body says so: it has a length of zero beside the fields that it is
/// given. One that names the allowed methods names them in `Allow`.
pub proof fn law_empty_responses_have_no_length<B>(status: u16, allow: Seq<char>)
    ensures
        ({
            let bare = response::empty_response::<B>(status, headers::no_header_fields());
            let allowing = response::empty_response::<B>(status, response::allow_fields(allow));
            &&& bare.status == status && allowing.status == status
            &&& bare.body == BodyView::<B>::Full(Some(Seq::empty()))
            &&& allowing.body == BodyView::<B>::Full(Some(Seq::empty()))
            &&& has_field(bare, "content-length"@, "0"@)
            &&& has_field(allowing, "content-length"@, "0"@)
            &&& has_field(allowing, "allow"@, allow)
            &&& names_only(bare, seq!["content-length"@])
            &&& names_only(allowing, seq!["allow"@, "content-length"@])
        }),
{
    lemma_field_names();
    assert(seq!["content-length"@][0] == "content-length"@);
    let names = seq!["allow"@, "content-length"@];
    assert(names[0] == "allow"@ && names[1] == "content-length"@);
}

/// A problem is sent under its status, as the JSON of its details: its type, its title, its
/// status and its detail.
pub proof fn law_problems_are_sent_as_their_details<B>(problem: error::Problem)
    ensures
        ({
            let sent = response::problem_response::<B>(problem);
            let details = response::problem_tree(problem);
            &&& sent.status == problem.status
            &&& sent.body == BodyView::<B>::Full(Some(encode_utf8(json::json_text(details))))
            &&& has_field(sent, "content-type"@, "application/json"@)
            &&& names_only(sent, seq!["content-type"@])
            &&& member(details, "type"@) == Some(JsonTree::Text("about:blank"@))
            &&& member(details, "title"@) == Some(JsonTree::Text(problem.title))
            &&& member(details, "status"@) == Some(
                JsonTree::Number(number::decimal(problem.status as nat)),
            )
            &&& member(details, "detail"@) == Some(JsonTree::Text(problem.detail))
            &&& has_only(details, seq!["type"@, "title"@, "status"@, "detail"@])
        }),
{
    reveal_strlit("type");
    reveal_strlit("title");
    reveal_strlit("status");
    reveal_strlit("detail");
    assert("type"@.len() == 4 && "title"@.len() == 5 && "status"@.len() == 6 && "detail"@.len()
        == 6);
    assert("status"@[0] == 's' && "detail"@[0] == 'd');
    let keys = seq!["type"@, "title"@, "status"@, "detail"@];
    assert(keys[0] == "type"@ && keys[1] == "title"@ && keys[2] == "status"@ && keys[3]
        == "detail"@);
    assert(seq!["content-type"@][0] == "content-type"@);
}

/// The problems of the framework: a bad request, an absent input, a body over the limit, a body
/// that is not declared as JSON, and a value that cannot be serialized.
pub proof fn law_problems_have_their_status(detail: Seq<char>)
    ensures
        error::bad_request_problem(detail) == (error::Problem {
            status: 400,
            title: "Bad Request"@,
            detail,
            missing: false,
        }),
        error::missing_problem(detail) == (error::Problem {
            status: 400,
            title: "Bad Request"@,
            detail,
            missing: true,
        }),
        response::too_large_problem() == (error::Problem {
            status: 413,
            title: "Payload Too Large"@,
            detail: "request body exceeds the configured limit"@,
            missing: false,
        }),
        extract::media_type_problem() == (error::Problem {
            status: 415,
            title: "Unsupported Media Type"@,
            detail: "expected application/json or application/*+json"@,
            missing: false,
        }),
        response::serialization_problem(detail) == (error::Problem {
            status: 500,
            title: "Serialization Error"@,
            detail,
            missing: false,
        }),
{
}

/// The answer to a request that no route serves: `404` with a text, and `204` or `405` with the
/// allowed methods and no body.
pub proof fn law_refusals_have_their_status<B>(allow: Seq<char>)
    ensures
        ({
            let unknown = dispatch::refusal::<B>(dispatch::RoutingView::NotFound);
            let options = dispatch::refusal::<B>(dispatch::RoutingView::Options(allow));
            let refused = dispatch::refusal::<B>(dispatch::RoutingView::MethodNotAllowed(allow));
            let none = BodyView::<B>::Full(Some(Seq::empty()));
            &&& unknown.status == 404
            &&& unknown.body == BodyView::<B>::Full(Some(encode_utf8("Not Found"@)))
            &&& options.status == 204 && options.body == none && has_field(
                options,
                "allow"@,
                allow,
            )
            &&& refused.status == 405 && refused.body == none && has_field(
                refused,
                "allow"@,
                allow,
            )
        }),
{
    law_empty_responses_have_no_length::<B>(204, allow);
    law_empty_responses_have_no_length::<B>(405, allow);
}

/// The length of a body is known beforehand unless the body is a stream.
pub proof fn law_fixed_bodies_have_a_length<B>(contents: Seq<u8>, stream: B)
    ensures
        response::exact_length(BodyView::<B>::Full(Some(contents))) == Some(contents.len()),
        response::exact_length(BodyView::<B>::Full(None)) == Some(0nat),
        response::exact_length(BodyView::<B>::Stream(stream)) is None,
{
}

/// A response to `HEAD` names the length of the body that `GET` would have sent, keeps a length
/// that was named, and every other field, and has no body. Any other response is what it is.
pub proof fn law_head_names_the_length_of_the_body<B>(
    response: ResponseView<B>,
    contents: Seq<u8>,
    name: Seq<char>,
)
    ensures
        response::answer(false, response) == response,
        response::answer(true, response).status == response.status,
        response::answer(true, response).body == BodyView::<B>::Full(Some(Seq::empty())),
        response.body == BodyView::<B>::Full(Some(contents)) && !response.headers.contains_key(
            "content-length"@,
        ) ==> has_field(
            response::answer(true, response),
            "content-length"@,
            number::decimal(contents.len()),
        ),
        response.body is Stream ==> response::answer(true, response).headers == response.headers,
        response.headers.contains_key(name) ==> response::answer(
            true,
            response,
        ).headers.contains_key(name) && response::answer(true, response).headers[name]
            == response.headers[name],
        name != "content-length"@ && response::answer(true, response).headers.contains_key(name)
            ==> response.headers.contains_key(name),
{
}

/// A prepared response is sent with the status `200`, as the text or the JSON that it is.
pub proof fn law_prepared_responses_are_sent_as_they_are<B>(prepared: StaticResponse)
    ensures
        ({
            let sent = response::static_view::<B>(prepared);
            &&& sent.status == 200
            &&& match prepared {
                StaticResponse::Text { body, .. } => {
                    &&& sent.body == BodyView::<B>::Full(
                        Some(crate::payload::bytes_contents(body)),
                    )
                    &&& has_field(sent, "content-type"@, "text/plain; charset=utf-8"@)
                    &&& has_field(
                        sent,
                        "content-length"@,
                        number::decimal(crate::payload::bytes_contents(body).len()),
                    )
                },
                StaticResponse::Json { body } => {
                    &&& sent.body == BodyView::<B>::Full(
                        Some(crate::payload::bytes_contents(body)),
                    )
                    &&& has_field(sent, "content-type"@, "application/json"@)
                },
            }
        }),
{
    lemma_field_names();
}

/// Whether two bytes are the same letter in either case, or the same byte.
pub open spec fn same_in_any_case(a: u8, b: u8) -> bool {
    ||| a == b
    ||| 'A' as u8 <= a <= 'Z' as u8 && b == a + 32
    ||| 'A' as u8 <= b <= 'Z' as u8 && a == b + 32
}

/// Texts are compared letter by letter, and the case of a letter does not matter.
pub proof fn law_case_does_not_matter(a: Seq<u8>, b: Seq<u8>)
    ensures
        extract::same_letters(a, b) <==> a.len() == b.len() && forall|i: int|
            0 <= i < a.len() ==> same_in_any_case(#[trigger] a[i], b[i]),
{
    if a.len() == b.len() {
        assert forall|i: int| 0 <= i < a.len() implies (extract::lower_byte(#[trigger] a[i])
            == extract::lower_byte(b[i])) == same_in_any_case(a[i], b[i]) by {}
        if forall|i: int| 0 <= i < a.len() ==> same_in_any_case(#[trigger] a[i], b[i]) {
            assert forall|i: int| 0 <= i < a.len() implies extract::lower_byte(#[trigger] a[i])
                == extract::lower_byte(b[i]) by {
                assert(same_in_any_case(a[i], b[i]));
            }
        }
    }
}

/// A media type is JSON exactly where its type is `application` in any case, and its subtype
/// is `json` in any case or ends in `+json` behind at least one more character.
pub proof fn law_json_media_types_are_recognized(kind: Seq<char>, subtype: Seq<char>)
    requires
        !kind.contains('/'),
    ensures
        extract::is_json_media(kind + seq!['/'] + subtype) <==> {
            &&& extract::same_letters(encode_utf8(kind), encode_utf8("application"@))
            &&& {
                ||| extract::same_letters(encode_utf8(subtype), encode_utf8("json"@))
                ||| exists|stem: Seq<char>|
                    stem.len() > 0 && subtype == #[trigger] (stem + "+json"@)
            }
        },
{
    let media = kind + seq!['/'] + subtype;
    text::lemma_position(media, '/', kind, subtype);
    lemma_suffix(subtype);
    lemma_whole_media_type(kind, subtype);
}

/// A text without `/` is no JSON media type.
pub proof fn law_media_types_have_a_slash(media: Seq<char>)
    requires
        !media.contains('/'),
    ensures
        !extract::is_json_media(media),
{
    text::lemma_no_position(media, '/');
    text::lemma_ascii_contains(media, '/');
    let bytes = encode_utf8(media);
    let whole = encode_utf8("application/json"@);
    reveal_strlit("application/json");
    is_ascii_chars_encode_utf8("application/json"@);
    assert(whole[11] == '/' as u8);
    if extract::same_letters(bytes, whole) {
        assert(extract::lower_byte(bytes[11]) == extract::lower_byte(whole[11]));
        assert(bytes[11] == '/' as u8);
        assert(bytes.contains('/' as u8));
    }
}

/// The suffix of JSON types, in bytes and in characters.
proof fn lemma_suffix(subtype: Seq<char>)
    ensures
        extract::has_json_suffix(encode_utf8(subtype)) <==> exists|stem: Seq<char>|
            stem.len() > 0 && subtype == #[trigger] (stem + "+json"@),
{
    reveal_strlit("+json");
    let tail = "+json"@;
    let json = seq![43u8, 106u8, 115u8, 111u8, 110u8];
    is_ascii_chars_encode_utf8(tail);
    assert(encode_utf8(tail) =~= json);
    let bytes = encode_utf8(subtype);
    if exists|stem: Seq<char>| stem.len() > 0 && subtype == #[trigger] (stem + tail) {
        let stem = choose|stem: Seq<char>| stem.len() > 0 && subtype == #[trigger] (stem + tail);
        text::lemma_encode_concat(stem, tail);
        text::lemma_encode_len(stem);
        assert(bytes.skip(bytes.len() - 5) =~= json);
    }
    if extract::has_json_suffix(bytes) {
        let at = bytes.len() - 5;
        assert(bytes.skip(at)[0] == bytes[at]);
        encode_utf8_valid_utf8(subtype);
        encode_utf8_decode_utf8(subtype);
        text::lemma_ascii_split(bytes, at);
        let stem = decode_utf8(bytes.subrange(0, at));
        decode_utf8_encode_utf8(bytes.subrange(0, at));
        text::lemma_encode_len(stem);
        assert(bytes =~= bytes.subrange(0, at) + json);
        text::lemma_encode_concat(stem, tail);
        text::lemma_encode_injective(subtype, stem + tail);
        assert(stem.len() > 0);
    }
}

/// The media type `application/json` as a whole is its type and its subtype.
proof fn lemma_whole_media_type(kind: Seq<char>, subtype: Seq<char>)
    requires
        !kind.contains('/'),
    ensures
        extract::same_letters(
            encode_utf8(kind + seq!['/'] + subtype),
            encode_utf8("application/json"@),
        ) <==> extract::same_letters(encode_utf8(kind), encode_utf8("application"@))
            && extract::same_letters(encode_utf8(subtype), encode_utf8("json"@)),
{
    reveal_strlit("application/json");
    reveal_strlit("application");
    reveal_strlit("json");
    let a = encode_utf8(kind);
    let b = encode_utf8(subtype);
    let x = encode_utf8("application"@);
    let y = encode_utf8("json"@);
    let whole = encode_utf8("application/json"@);
    assert("application/json"@ =~= "application"@ + seq!['/'] + "json"@);
    text::lemma_encode_concat("application"@ + seq!['/'], "json"@);
    text::lemma_encode_concat("application"@, seq!['/']);
    text::lemma_encode_concat(kind + seq!['/'], subtype);
    text::lemma_encode_concat(kind, seq!['/']);
    text::lemma_encode_ascii_char('/');
    text::lemma_ascii_contains(kind, '/');
    is_ascii_chars_encode_utf8("application"@);
    let media = a + seq!['/' as u8] + b;
    assert(encode_utf8(kind + seq!['/'] + subtype) == media);
    assert(whole == x + seq!['/' as u8] + y);
    assert(x.len() == 11);
    assert forall|i: int| 0 <= i < 11 implies #[trigger] x[i] != '/' as u8 by {
        assert(x[i] == "application"@[i] as u8);
    }
    if extract::same_letters(media, whole) {
        if a.len() < 11 {
            let i = a.len() as int;
            assert(extract::lower_byte(media[i]) == extract::lower_byte(whole[i]));
            assert(whole[i] == x[i]);
        }
        if a.len() > 11 {
            assert(extract::lower_byte(media[11]) == extract::lower_byte(whole[11]));
            assert(media[11] == a[11]);
            assert(a.contains(a[11]));
        }
        assert(a.len() == 11);
        assert forall|i: int| 0 <= i < a.len() implies extract::lower_byte(#[trigger] a[i])
            == extract::lower_byte(x[i]) by {
            assert(extract::lower_byte(media[i]) == extract::lower_byte(whole[i]));
        }
        assert forall|i: int| 0 <= i < b.len() implies extract::lower_byte(#[trigger] b[i])
            == extract::lower_byte(y[i]) by {
            assert(extract::lower_byte(media[i + 12]) == extract::lower_byte(whole[i + 12]));
        }
    }
    if extract::same_letters(a, x) && extract::same_letters(b, y) {
        assert forall|i: int| 0 <= i < media.len() implies extract::lower_byte(
            #[trigger] media[i],
        ) == extract::lower_byte(whole[i]) by {
            if i < 11 {
                assert(extract::lower_byte(a[i]) == extract::lower_byte(x[i]));
            } else if i > 11 {
                assert(extract::lower_byte(b[i - 12]) == extract::lower_byte(y[i - 12]));
            }
        }
    }
}

/// Whether a text holds nothing but spaces and tabs.
pub open spec fn all_blank(chars: Seq<char>) -> bool {
    forall|i: int| 0 <= i < chars.len() ==> #[trigger] chars[i] == ' ' || chars[i] == '\t'
}

/// The media type of a content type is what stands before the first `;`, without the blanks
/// around it.
pub proof fn law_media_types_stand_before_parameters(
    before: Seq<char>,
    media: Seq<char>,
    after: Seq<char>,
    rest: Seq<char>,
)
    requires
        all_blank(before),
        all_blank(after),
        !media.contains(';'),
        media.len() > 0,
        media[0] != ' ' && media[0] != '\t',
        media.last() != ' ' && media.last() != '\t',
    ensures
        extract::media_type_of(before + media + after) == media,
        extract::media_type_of(before + media + after + seq![';'] + rest) == media,
{
    let head = before + media + after;
    assert(!head.contains(';')) by {
        if head.contains(';') {
            let i = choose|i: int| 0 <= i < head.len() && head[i] == ';';
            if i < before.len() {
                assert(before[i] == ';');
            } else if i < before.len() + media.len() {
                assert(media[i - before.len()] == ';');
            } else {
                assert(after[i - before.len() - media.len()] == ';');
            }
        }
    }
    text::lemma_no_position(head, ';');
    assert(head.take(head.len() as int) =~= head);
    text::lemma_position(head + seq![';'] + rest, ';', head, rest);
    lemma_front_blanks(before, media + after);
    lemma_back_blanks(media, after);
    assert(before + (media + after) =~= head);
    assert((media + after)[0] == media[0]);
}

/// Blanks are cut off the front.
proof fn lemma_front_blanks(before: Seq<char>, rest: Seq<char>)
    requires
        all_blank(before),
        rest.len() > 0,
        rest[0] != ' ' && rest[0] != '\t',
    ensures
        extract::trim_front(before + rest) == rest,
    decreases before.len(),
{
    let whole = before + rest;
    if before.len() == 0 {
        assert(whole =~= rest);
    } else {
        assert(whole[0] == before[0]);
        assert(all_blank(before.drop_first())) by {
            assert forall|i: int| 0 <= i < before.drop_first().len() implies (
            #[trigger] before.drop_first()[i] == ' ' || before.drop_first()[i] == '\t') by {
                assert(before[i + 1] == before.drop_first()[i]);
            }
        }
        lemma_front_blanks(before.drop_first(), rest);
        assert(whole.drop_first() =~= before.drop_first() + rest);
    }
}

/// Blanks are cut off the back.
proof fn lemma_back_blanks(front: Seq<char>, after: Seq<char>)
    requires
        all_blank(after),
        front.len() > 0,
        front.last() != ' ' && front.last() != '\t',
    ensures
        extract::trim_back(front + after) == front,
    decreases after.len(),
{
    let whole = front + after;
    if after.len() == 0 {
        assert(whole =~= front);
    } else {
        assert(whole.last() == after.last());
        assert(after[after.len() - 1] == after.last());
        assert(all_blank(after.drop_last())) by {
            assert forall|i: int| 0 <= i < after.drop_last().len() implies (
            #[trigger] after.drop_last()[i] == ' ' || after.drop_last()[i] == '\t') by {
                assert(after[i] == after.drop_last()[i]);
            }
        }
        lemma_back_blanks(front, after.drop_last());
        assert(whole.drop_last() =~= front + after.drop_last());
    }
}

/// Whether the first value of a field is the encoding of a text of visible ASCII characters.
pub open spec fn shows(
    fields: Map<Seq<char>, Seq<Seq<u8>>>,
    name: Seq<char>,
    value: Seq<char>,
) -> bool {
    fields.contains_key(name) && fields[name][0] == encode_utf8(value) && headers::all_visible(
        encode_utf8(value),
    )
}

/// A body is read as JSON exactly where its content type is a JSON media type. An empty body
/// without a content type is absent, and any other body that is not declared as JSON is of the
/// wrong type.
pub proof fn law_json_bodies_are_declared(
    fields: Map<Seq<char>, Seq<Seq<u8>>>,
    body: Seq<u8>,
    content_type: Seq<char>,
)
    ensures
        shows(fields, "content-type"@, content_type) && content_type.len() > 0 ==> {
            let problem = extract::json_problem(fields, body);
            if extract::is_json_media(extract::media_type_of(content_type)) {
                problem is None
            } else {
                problem matches Some(problem) && problem.status == 415 && !problem.missing
            }
        },
        !fields.contains_key("content-type"@) ==> (extract::json_problem(
            fields,
            body,
        ) matches Some(problem) && if body.len() == 0 {
            &&& problem.missing
            &&& problem.status == 400
            &&& problem.detail == "missing JSON body"@
        } else {
            problem.status == 415 && !problem.missing
        }),
{
    encode_utf8_decode_utf8(content_type);
    let none = Seq::<char>::empty();
    assert(!none.contains('/'));
    law_media_types_have_a_slash(none);
    text::lemma_no_position(none, ';');
    assert(none.take(0) =~= none);
    assert(extract::media_type_of(none) == none);
}

/// A header field gives the text of its first value. Without the field the input is absent,
/// and a value that is not visible text is bad.
pub proof fn law_header_fields_are_read(
    fields: Map<Seq<char>, Seq<Seq<u8>>>,
    key: Seq<char>,
    name: Seq<char>,
    value: Seq<char>,
)
    ensures
        shows(fields, key, value) ==> extract::header_field(fields, key, name) == Ok::<
            Seq<u8>,
            error::Problem,
        >(encode_utf8(value)),
        !fields.contains_key(key) ==> (extract::header_field(fields, key, name) matches Err(
            problem,
        ) && problem.missing && problem.status == 400 && problem.detail == "missing header "@
            + name),
        fields.contains_key(key) && !headers::all_visible(fields[key][0]) ==> (
        extract::header_field(fields, key, name) matches Err(problem) && !problem.missing
            && problem.status == 400 && problem.detail == "invalid header "@ + name),
{
}

/// A path extractor reads the first capture, decoded. A path without captures is a bad request.
pub proof fn law_paths_are_read_from_the_first_capture(
    ranges: Seq<(int, int)>,
    bytes: Seq<u8>,
)
    ensures
        ranges.len() > 0 ==> extract::first_capture(ranges, bytes) == percent::percent_text(
            bytes.subrange(ranges[0].0, ranges[0].1),
        ),
        ranges.len() == 0 ==> (extract::first_capture(ranges, bytes) matches Err(problem)
            && problem.status == 400 && !problem.missing && problem.detail
            == "missing path parameter"@),
{
}

/// The captures that a handler reads by name are decoded one for one, in order. One that does
/// not decode is the problem of the request.
pub proof fn law_captures_are_decoded_one_by_one(
    bytes: Seq<u8>,
    ranges: Seq<(int, int)>,
    n: nat,
)
    requires
        n <= ranges.len(),
    ensures
        match params::decoded_values(bytes, ranges, n) {
            Ok(values) => {
                &&& values.len() == n
                &&& forall|i: int|
                    0 <= i < n ==> percent::percent_text(bytes.subrange(ranges[i].0, ranges[i].1))
                        == Ok::<Seq<char>, error::Problem>(#[trigger] values[i])
            },
            Err(problem) => exists|i: int|
                0 <= i < n && percent::percent_text(
                    bytes.subrange((#[trigger] ranges[i]).0, ranges[i].1),
                ) == Err::<Seq<char>, error::Problem>(problem),
        },
    decreases n,
{
    if n > 0 {
        law_captures_are_decoded_one_by_one(bytes, ranges, (n - 1) as nat);
        if let Err(problem) = params::decoded_values(bytes, ranges, n) {
            if params::decoded_values(bytes, ranges, (n - 1) as nat) is Ok {
                let i = n - 1;
                assert(percent::percent_text(bytes.subrange(ranges[i].0, ranges[i].1)) == Err::<
                    Seq<char>,
                    error::Problem,
                >(problem));
            }
        }
    }
}

/// A handler is called with what it asks for: without arguments, without captures, with the
/// captures, or with the body as it comes in. A prepared response is sent.
pub proof fn law_handlers_are_called_as_planned<H>(
    plan: RoutePlan<H>,
    names: Option<Seq<Seq<char>>>,
    found: Option<Seq<(int, int)>>,
    bytes: Seq<u8>,
    is_head: bool,
)
    ensures
        ({
            let call = dispatch::call_of::<H, ()>(plan, names, found, bytes, is_head);
            match plan.handler {
                HandlerKind::Zero(handler) => call == DispatchView::<H, ()>::Zero(
                    is_head,
                    handler,
                ),
                HandlerKind::TypedNoParams(handler) => call == DispatchView::<H, ()>::NoParams(
                    is_head,
                    handler,
                ),
                HandlerKind::Raw(handler) => call == DispatchView::<H, ()>::Raw(is_head, handler),
                HandlerKind::Static(prepared) => call == DispatchView::<H, ()>::Ready(
                    response::answer(is_head, response::static_view(*prepared)),
                ),
                HandlerKind::Typed(handler) => match (found, plan.capture_mode) {
                    (Some(ranges), CaptureMode::Borrowed) => call matches DispatchView::Typed(
                        head,
                        called,
                        given,
                    ) && head == is_head && called == handler && given.ranges == ranges
                        && given.named is None,
                    (Some(ranges), CaptureMode::Materialized) => match params::decoded_values(
                        bytes,
                        ranges,
                        ranges.len(),
                    ) {
                        Ok(values) => call matches DispatchView::Typed(head, called, given)
                            && head == is_head && called == handler && given.ranges == ranges && (
                        given.named matches Some(named) && named.values == values && (
                        names is Some ==> named.names == names->0)),
                        Err(problem) => call == DispatchView::<H, ()>::Ready(
                            response::answer(is_head, response::problem_response(problem)),
                        ),
                    },
                    _ => call matches DispatchView::Typed(head, called, given) && head == is_head
                        && called == handler && given.ranges.len() == 0 && given.named is None,
                },
            }
        }),
{
}

/// A handler without arguments and a prepared response do not see the body, so that its length
/// does not matter to them.
pub proof fn law_unread_bodies_have_no_limit<H>(
    plan: RoutePlan<H>,
    names: Option<Seq<Seq<char>>>,
    found: Option<Seq<(int, int)>>,
    bytes: Seq<u8>,
    length: usize,
    is_head: bool,
)
    requires
        plan.handler is Zero || plan.handler is Static,
    ensures
        dispatch::collected_of::<H, ()>(plan, names, found, bytes, length as int, is_head)
            == if let HandlerKind::Static(prepared) = plan.handler {
            DispatchView::<H, ()>::Ready(
                response::answer(is_head, response::static_view(*prepared)),
            )
        } else {
            DispatchView::Zero(is_head, plan.handler->Zero_0)
        },
        dispatch::resumed_of::<H, ()>(
            plan,
            names,
            found,
            bytes,
            dispatch::BodyOutcome::Collected(length),
            is_head,
        ) == dispatch::collected_of::<H, ()>(plan, names, found, bytes, length as int, is_head),
{
}

/// A body that ends early is a bad request, and its handler is not called.
pub proof fn law_interrupted_bodies_are_refused<H>(
    plan: RoutePlan<H>,
    names: Option<Seq<Seq<char>>>,
    found: Option<Seq<(int, int)>>,
    bytes: Seq<u8>,
    is_head: bool,
)
    ensures
        dispatch::resumed_of::<H, ()>(
            plan,
            names,
            found,
            bytes,
            dispatch::BodyOutcome::Interrupted,
            is_head,
        ) == DispatchView::<H, ()>::Ready(
            response::problem_response(
                error::Problem {
                    status: 400,
                    title: "Bad Request"@,
                    detail: "request body was interrupted"@,
                    missing: false,
                },
            ),
        ),
{
}

/// A body is collected up to the limit of its route, unless more is declared.
pub proof fn law_bodies_are_collected_up_to_the_limit<H>(
    plan: RoutePlan<H>,
    names: Option<Seq<Seq<char>>>,
    index: int,
    found: Option<Seq<(int, int)>>,
    bytes: Seq<u8>,
    fields: Map<Seq<char>, Seq<Seq<u8>>>,
    is_head: bool,
)
    requires
        plan.body_mode == BodyMode::Buffered,
        dispatch::declared_length(fields) matches Some(length) ==> length <= plan.body_limit,
    ensures
        dispatch::dispatch_of::<H, ()>(plan, names, index, found, bytes, fields, is_head)
            == DispatchView::<H, ()>::Buffered(is_head, index, found, plan.body_limit as int),
{
}

/// A request declares the length that it writes in decimal digits.
pub proof fn law_declared_lengths_are_read(fields: Map<Seq<char>, Seq<Seq<u8>>>, length: nat)
    requires
        shows(fields, "content-length"@, number::decimal(length)),
    ensures
        dispatch::declared_length(fields) == if length <= usize::MAX {
            Some(length)
        } else {
            None
        },
{
    laws::reading::law_integers_are_read_back(length as int);
}

/// A request without a length, or with one that is no number, declares none.
pub proof fn law_other_lengths_are_not_read(fields: Map<Seq<char>, Seq<Seq<u8>>>)
    requires
        !fields.contains_key("content-length"@) || number::natural_value(
            fields["content-length"@][0],
        ) is None,
    ensures
        dispatch::declared_length(fields) is None,
{
}

/// How an endpoint is served: without arguments, or with the captures where it needs them. A
/// body is collected exactly where it is needed, up to the limit of the application. Captures
/// are handed over by name where their names are needed, and else by position where the
/// template has any.
pub proof fn law_endpoints_get_what_they_need<H>(
    endpoint: Endpoint<H>,
    segments: Seq<path::SegmentView>,
    limit: u32,
)
    ensures
        ({
            let plan = plan::endpoint_plan(endpoint, segments, limit);
            &&& plan.handler == if endpoint.zero {
                HandlerKind::Zero(endpoint.handler)
            } else if endpoint.needs.capture {
                HandlerKind::Typed(endpoint.handler)
            } else {
                HandlerKind::TypedNoParams(endpoint.handler)
            }
            &&& endpoint.needs.body ==> plan.body_mode == BodyMode::Buffered && plan.body_limit
                == limit
            &&& !endpoint.needs.body ==> plan.body_mode == BodyMode::Absent && plan.body_limit == 0
            &&& endpoint.needs.params ==> plan.capture_mode == CaptureMode::Materialized
            &&& !endpoint.needs.params ==> (plan.capture_mode == CaptureMode::Borrowed <==> exists|
                i: int,
            | 0 <= i < segments.len() && (#[trigger] segments[i]) is Capture)
            &&& !endpoint.needs.params && plan.capture_mode != CaptureMode::Borrowed
                ==> plan.capture_mode == CaptureMode::Absent
        }),
{
}

/// A raw handler is given the body as it comes in, without a limit. A prepared response reads
/// no body.
pub proof fn law_raw_and_prepared_routes_collect_nothing<H>(handler: H, prepared: StaticResponse)
    ensures
        ({
            let raw = plan::raw_plan(handler);
            let fixed = plan::static_plan::<H>(prepared);
            &&& raw.handler == HandlerKind::Raw(handler)
            &&& raw.body_mode == BodyMode::Incoming
            &&& raw.capture_mode == CaptureMode::Absent
            &&& fixed.handler == HandlerKind::<H>::Static(Box::new(prepared))
            &&& fixed.body_mode == BodyMode::Absent
            &&& fixed.capture_mode == CaptureMode::Absent
        }),
{
}

/// A new limit holds for the routes that collect a body, and changes nothing else of any route.
pub proof fn law_limits_hold_for_collected_bodies<H>(plan: RoutePlan<H>, limit: u32)
    ensures
        ({
            let limited = settings::with_limit(plan, limit);
            &&& limited.handler == plan.handler
            &&& limited.capture_mode == plan.capture_mode
            &&& limited.body_mode == plan.body_mode
            &&& limited.body_limit == if plan.body_mode == BodyMode::Buffered {
                limit
            } else {
                plan.body_limit
            }
        }),
{
}

/// A route that is registered for an endpoint has the method and the template that it was
/// registered for, and says of its request and its response what the endpoint says.
pub proof fn law_registered_routes_say_what_was_registered<S, H>(
    before: App<S, H>,
    after: App<S, H>,
    method: Seq<char>,
    path: Seq<char>,
    endpoint: Endpoint<H>,
)
    requires
        after.routes_endpoint(&before, method, path, endpoint),
        app::template_captures(path::normal_path(path)) <= MAX_CAPTURE_PARAMS,
    ensures
        ({
            let index = before.plans@.len() as int;
            let route = after.routes()[index];
            let template = path::normal_path(path);
            &&& after.routes().len() == index + 1
            &&& !route.builtin
            &&& route.method == method
            &&& route.template == template
            &&& route.segments == path::template_segments(template)
            &&& route.capture_names == if endpoint.needs.params {
                Some(plan::capture_names_of(path::template_segments(template)))
            } else {
                None
            }
            &&& route.operation.status == endpoint.response_status@
            &&& route.operation.schema == schema::optional_tree(endpoint.response_schema)
            &&& route.operation.request == endpoint.request@
            &&& route.operation.tag is None
            &&& route.operation.summary is None
            &&& route.operation.operation_id is None
            &&& after.plans@ == before.plans@.push(
                plan::endpoint_plan(
                    endpoint,
                    path::template_segments(template),
                    before.max_body_size,
                ),
            )
        }),
{
    let index = before.plans@.len() as int;
    assert(after.routes()[index] == after.metadata@[index]@);
}

/// A raw handler and a prepared response are registered likewise: they say nothing of a
/// request, and a prepared response is one of `GET` with the status `200`.
pub proof fn law_other_routes_say_what_was_registered<S, H>(
    before: App<S, H>,
    after: App<S, H>,
    method: Seq<char>,
    path: Seq<char>,
    handler: H,
    status: u16,
    of: Option<JsonTree>,
    prepared: StaticResponse,
)
    requires
        app::template_captures(path::normal_path(path)) <= MAX_CAPTURE_PARAMS,
    ensures
        ({
            let index = before.plans@.len() as int;
            let route = after.routes()[index];
            let template = path::normal_path(path);
            &&& after.routes_raw(&before, method, path, handler, status, of) ==> {
                &&& !route.builtin
                &&& route.method == method
                &&& route.template == template
                &&& route.operation.status == status
                &&& route.operation.schema == of
                &&& route.operation.request == schema::empty_request()
                &&& after.plans@ == before.plans@.push(plan::raw_plan(handler))
            }
            &&& after.routes_static(&before, path, prepared) ==> {
                &&& !route.builtin
                &&& route.method == "GET"@
                &&& route.template == template
                &&& route.operation.status == 200
                &&& route.operation.schema is None
                &&& route.operation.request == schema::empty_request()
                &&& after.plans@ == before.plans@.push(plan::static_plan(prepared))
            }
        }),
{
    let index = before.plans@.len() as int;
    if after.routes_raw(&before, method, path, handler, status, of) || after.routes_static(
        &before,
        path,
        prepared,
    ) {
        assert(after.routes()[index] == after.metadata@[index]@);
    }
}

} // verus!
