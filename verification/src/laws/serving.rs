//! What holds of the benchmark: its handlers, its users and its bare server.

use crate::bench;
use crate::bench::{
    ApiKey, BenchPayload, DbFailure, DbReply, RawActionView, ReferenceUser, TraceId,
};
use crate::error::ApiError;
use crate::extract::HeaderSpec;
use crate::laws::answering::{has_field, shows};
use crate::laws::reading;
use crate::number;
use crate::params::Params;
use crate::payload;
use crate::response::{BodyView, HttpResponse, ResponseView};
use bytes::Bytes;
use vstd::arithmetic::power::pow;
use vstd::prelude::*;
use vstd::string::*;
use vstd::utf8::*;

verus! {

/// The users of the benchmark are numbered from one to a hundred, and named by their numbers.
pub proof fn law_users_are_numbered(r: Vec<ReferenceUser>, i: int)
    requires
        call_ensures(bench::reference_users, (), r),
        0 <= i < 100,
    ensures
        r@.len() == 100,
        r@[i].id == i + 1,
        r@[i].name@ == "User "@ + number::decimal((i + 1) as nat),
        r@[i].email@ == "user"@ + number::decimal((i + 1) as nat) + "@example.com"@,
        r@[i].active,
{
    assert(bench::is_reference_user(r@[i], (i + 1) as nat));
}

/// The handlers repeat what they are given.
pub proof fn law_handlers_repeat_their_input(
    page: u32,
    active: bool,
    given: &Params,
    org: Seq<char>,
    user: Seq<char>,
    search: String,
    captures: Option<String>,
)
    requires
        call_ensures(bench::query_typed, (page, active), search),
        call_ensures(bench::params_typed, (given,), captures),
    ensures
        search@ == number::decimal(page as nat) + ":"@ + if active {
            "true"@
        } else {
            "false"@
        },
        given.named() is None ==> captures is None,
        given.named() matches Some(named) ==> (named.lookup("org"@) == Some(org) && named.lookup(
            "user"@,
        ) == Some(user) ==> (captures matches Some(text) && text@ == org + ":"@ + user)),
{
}

/// One id is valid, and one key.
pub proof fn law_one_id_and_one_key_are_valid(
    id: u64,
    value: &str,
    checked: Result<BenchPayload, ApiError>,
    key: Result<ApiKey, ApiError>,
    trace: Result<TraceId, ApiError>,
)
    requires
        call_ensures(bench::validation_success, (id,), checked),
        call_ensures(<ApiKey as HeaderSpec>::parse, (value,), key),
        call_ensures(<TraceId as HeaderSpec>::parse, (value,), trace),
    ensures
        checked is Ok <==> id == 42,
        checked matches Ok(payload) ==> payload.name@ == "valid-42"@,
        checked matches Err(error) ==> error.status@ == 400 && error.detail@ == "id must be 42"@,
        key is Ok <==> value@ == "abc-secret"@,
        key matches Ok(held) ==> held.0@ == value@,
        key matches Err(error) ==> error.status@ == 401 && error.detail@ == "invalid API key"@,
        trace matches Ok(held) && held.0@ == value@,
{
}

/// A request for the users of the database fails with `503` where there is none, and with `502`
/// and the message where the query fails.
pub proof fn law_database_failures_have_their_status(
    message: String,
    absent: ApiError,
    failed: ApiError,
)
    requires
        call_ensures(bench::users_db_error, (DbFailure::NotConfigured,), absent),
        call_ensures(bench::users_db_error, (DbFailure::Query(message),), failed),
    ensures
        absent.status@ == 503 && absent.detail@ == "DATABASE_URL is not configured"@,
        failed.status@ == 502 && failed.detail@ == message@,
{
}

/// The bare server tells the failures of the database apart by their status.
pub proof fn law_database_replies_have_their_status(
    users: Bytes,
    sent: HttpResponse<()>,
    absent: HttpResponse<()>,
    failed: HttpResponse<()>,
    unwritten: HttpResponse<()>,
)
    requires
        call_ensures(bench::db_response, (DbReply::Users(users),), sent),
        call_ensures(bench::db_response, (DbReply::NotConfigured,), absent),
        call_ensures(bench::db_response, (DbReply::QueryFailed,), failed),
        call_ensures(bench::db_response, (DbReply::SerializationFailed,), unwritten),
    ensures
        sent@.status == 200,
        sent@.body == BodyView::<()>::Full(Some(payload::bytes_contents(users))),
        has_field(sent@, "content-type"@, "application/json"@),
        absent@.status == 503,
        failed@.status == 502,
        unwritten@.status == 500,
{
}

/// The bare server answers `GET` alone, and says so.
pub proof fn law_bare_server_answers_get(
    method: Seq<char>,
    path: Seq<char>,
    query: Option<Seq<char>>,
    fields: Map<Seq<char>, Seq<Seq<u8>>>,
    users: Seq<u8>,
)
    requires
        method != "GET"@,
    ensures
        bench::raw_action_of(method, path, query, fields, users) matches RawActionView::Reply(reply)
            && reply.status == 405 && has_field(reply, "allow"@, "GET"@) && reply.body
            == BodyView::<()>::Full(Some(Seq::empty())),
{
}

/// The reply to a path that starts with a known prefix.
pub open spec fn reply_to(path: Seq<char>) -> ResponseView<()> {
    bench::raw_action_of("GET"@, path, None, Map::empty(), Seq::empty())->Reply_0
}

/// The first characters of the paths that the bare server knows.
proof fn lemma_known_paths(path: Seq<char>)
    ensures
        path.len() > 1 && path[0] == '/' && path[1] == 'u' && path.len() > 6 && path[5] == 's'
            && path[6] == '/' ==> bench::fixed_reply(path, Seq::empty()) is None && path
            != "/users-db"@ && path != "/secure"@ && bench::after_prefix(
            path,
            "/validation-success/"@,
        ) is None && bench::after_prefix(path, "/params/"@) is None,
        path.len() > 1 && path[0] == '/' && path[1] == 'v' ==> bench::fixed_reply(
            path,
            Seq::empty(),
        ) is None && path != "/users-db"@,
{
    reveal_strlit("/plaintext");
    reveal_strlit("/fixed/path");
    reveal_strlit("/json-static");
    reveal_strlit("/json-small");
    reveal_strlit("/users-static");
    reveal_strlit("/users");
    reveal_strlit("/raw-handler");
    reveal_strlit("/problem");
    reveal_strlit("/users-db");
    reveal_strlit("/secure");
    reveal_strlit("/validation-success/");
    reveal_strlit("/params/");
    assert("/plaintext"@[1] == 'p' && "/fixed/path"@[1] == 'f' && "/json-static"@[1] == 'j');
    assert("/json-small"@[1] == 'j' && "/raw-handler"@[1] == 'r' && "/problem"@[1] == 'p');
    assert("/users-static"@[6] == '-' && "/users"@.len() == 6 && "/users-db"@[6] == '-');
    assert("/users-static"@[1] == 'u' && "/users"@[1] == 'u' && "/users-db"@[1] == 'u');
    assert("/secure"@[1] == 's' && "/validation-success/"@[1] == 'v' && "/params/"@[1] == 'p');
    if path.len() > 1 && path[1] == 'u' {
        if bench::after_prefix(path, "/validation-success/"@) is Some {
            let prefix = "/validation-success/"@;
            assert(path.take(prefix.len() as int)[1] == path[1]);
        }
        if bench::after_prefix(path, "/params/"@) is Some {
            let prefix = "/params/"@;
            assert(path.take(prefix.len() as int)[1] == path[1]);
        }
    }
}

/// The bare server repeats a number of 64 bits, and refuses everything else in its place.
pub proof fn law_bare_server_repeats_numbers(n: nat, other: Seq<char>)
    requires
        n <= u64::MAX,
        number::natural_value(encode_utf8(other)) is None,
    ensures
        reply_to("/users/"@ + number::decimal(n)).status == 200,
        reply_to("/users/"@ + number::decimal(n)).body == BodyView::<()>::Full(
            Some(encode_utf8(number::decimal(n))),
        ),
        reply_to("/users/"@ + other).status == 400,
{
    reveal_strlit("/users/");
    let digits = number::decimal(n);
    let good = "/users/"@ + digits;
    let bad = "/users/"@ + other;
    reading::law_integers_are_read_back(n as int);
    assert(good[0] == '/' && good[1] == 'u' && good[5] == 's' && good[6] == '/');
    assert(bad[0] == '/' && bad[1] == 'u' && bad[5] == 's' && bad[6] == '/');
    lemma_known_paths(good);
    lemma_known_paths(bad);
    assert(good.take(7) =~= "/users/"@);
    assert(bad.take(7) =~= "/users/"@);
    assert(good.skip(7) =~= digits);
    assert(bad.skip(7) =~= other);
}

/// The bare server accepts one id and refuses every other.
pub proof fn law_bare_server_accepts_one_id(n: nat)
    requires
        n <= u64::MAX,
    ensures
        ({
            let reply = reply_to("/validation-success/"@ + number::decimal(n));
            if n == 42 {
                &&& reply.status == 200
                &&& reply.body == BodyView::<()>::Full(
                    Some(encode_utf8("{\"name\":\"valid-42\"}"@)),
                )
                &&& has_field(reply, "content-type"@, "application/json"@)
            } else {
                reply.status == 400
            }
        }),
{
    reveal_strlit("/validation-success/");
    reveal_strlit("content-type");
    reveal_strlit("content-length");
    assert("content-type"@.len() == 12 && "content-length"@.len() == 14);
    let digits = number::decimal(n);
    let path = "/validation-success/"@ + digits;
    reading::law_integers_are_read_back(n as int);
    assert(path[0] == '/' && path[1] == 'v');
    lemma_known_paths(path);
    assert(path.take(20) =~= "/validation-success/"@);
    assert(path.skip(20) =~= digits);
}

/// The bare server authorizes the holders of the key alone.
pub proof fn law_bare_server_knows_its_key(
    fields: Map<Seq<char>, Seq<Seq<u8>>>,
    key: Seq<char>,
)
    requires
        shows(fields, "x-api-key"@, key),
    ensures
        key == "abc-secret"@ ==> replies(bench::secure_reply(fields), 200, "authorized"@),
        key != "abc-secret"@ ==> replies(bench::secure_reply(fields), 401, "Unauthorized"@),
        replies(bench::secure_reply(Map::empty()), 401, "Unauthorized"@),
{
    crate::text::lemma_encode_injective(key, "abc-secret"@);
}

/// The bare server repeats two captures with a colon between them, where both are there.
pub proof fn law_bare_server_repeats_captures(first: Seq<char>, second: Seq<char>)
    requires
        !first.contains('/'),
    ensures
        ({
            let reply = bench::params_reply(first + seq!['/'] + second);
            if first.len() > 0 && second.len() > 0 {
                reply.status == 200 && reply.body == BodyView::<()>::Full(
                    Some(encode_utf8(first + seq![':'] + second)),
                )
            } else {
                reply.status == 400
            }
        }),
{
    crate::text::lemma_position(first + seq!['/'] + second, '/', first, second);
    reveal_strlit(":");
    assert(":"@ =~= seq![':']);
}

/// A UUID that is read is written back, and any other text is refused.
pub proof fn law_bare_server_repeats_uuids(number: u128)
    ensures
        bench::uuid_reply_view(Some(number)).status == 200,
        bench::uuid_reply_view(Some(number)).body == BodyView::<()>::Full(
            Some(encode_utf8(bench::uuid_text(number))),
        ),
        bench::uuid_reply_view(None).status == 400,
        bench::uuid_text(number).len() == 36,
        forall|i: int|
            0 <= i < 36 ==> (#[trigger] bench::uuid_text(number)[i] == '-' <==> i == 8 || i == 13
                || i == 18 || i == 23),
{
    assert forall|i: int| 0 <= i < 36 implies (#[trigger] bench::uuid_text(number)[i] == '-'
        <==> i == 8 || i == 13 || i == 18 || i == 23) by {
        if !(i == 8 || i == 13 || i == 18 || i == 23) {
            let place = if i < 8 {
                i
            } else if i < 13 {
                i - 1
            } else if i < 18 {
                i - 2
            } else if i < 23 {
                i - 3
            } else {
                i - 4
            };
            assert(bench::uuid_digit(number, place) != '-');
        }
    }
}

/// A trace is repeated, with `200` unless it is the text of a refusal.
pub proof fn law_bare_server_repeats_traces(
    fields: Map<Seq<char>, Seq<Seq<u8>>>,
    value: Seq<char>,
)
    ensures
        shows(fields, "x-trace-id"@, value) ==> {
            &&& bench::trace_reply(fields).body == BodyView::<()>::Full(Some(encode_utf8(value)))
            &&& value != "Bad Request"@ ==> bench::trace_reply(fields).status == 200
        },
        !fields.contains_key("x-trace-id"@) ==> bench::trace_reply(fields).status == 400,
{
    crate::text::lemma_encode_injective(value, "Bad Request"@);
}

/// The reply with a text as its body.
pub open spec fn replies(reply: ResponseView<()>, status: u16, body: Seq<char>) -> bool {
    reply.status == status && reply.body == BodyView::<()>::Full(Some(encode_utf8(body)))
}

/// The digits of a UUID are those of its number in base sixteen.
pub proof fn law_uuids_are_written_in_base_sixteen(number: u128, place: int)
    requires
        0 <= place < 32,
    ensures
        bench::uuid_digit(number, place) == reading::hex_digits(false)[(number as int / pow(
            16,
            (31 - place) as nat,
        )) % 16],
        0 <= place < 8 ==> bench::uuid_text(number)[place] == bench::uuid_digit(number, place),
        8 <= place < 12 ==> bench::uuid_text(number)[place + 1] == bench::uuid_digit(
            number,
            place,
        ),
        12 <= place < 16 ==> bench::uuid_text(number)[place + 2] == bench::uuid_digit(
            number,
            place,
        ),
        16 <= place < 20 ==> bench::uuid_text(number)[place + 3] == bench::uuid_digit(
            number,
            place,
        ),
        20 <= place ==> bench::uuid_text(number)[place + 4] == bench::uuid_digit(number, place),
{
    reading::lemma_hex_digits();
    let digit = (number as int / pow(16, (31 - place) as nat)) % 16;
    assert(0 <= digit < 16);
    assert(bench::uuid_digit(number, place) as int == reading::hex_digits(false)[digit] as int);
}

/// The bare server knows one search.
pub proof fn law_bare_server_knows_one_search(query: Option<Seq<char>>)
    ensures
        query == Some("page=42&active=true"@) ==> replies(
            bench::search_reply(query),
            200,
            "42:true"@,
        ),
        query != Some("page=42&active=true"@) ==> replies(
            bench::search_reply(query),
            400,
            "Bad Request"@,
        ),
{
}

/// The paths that the bare server knows as a whole.
pub open spec fn whole_paths() -> Seq<Seq<char>> {
    seq![
        "/plaintext"@,
        "/fixed/path"@,
        "/json-static"@,
        "/json-small"@,
        "/users-static"@,
        "/users"@,
        "/raw-handler"@,
        "/problem"@,
    ]
}

/// What the paths of the bare server are like.
proof fn lemma_path_texts()
    ensures
        "/plaintext"@.len() == 10 && "/plaintext"@[1] == 'p' && "/plaintext"@[2] == 'l',
        "/fixed/path"@.len() == 11 && "/fixed/path"@[1] == 'f',
        "/json-static"@.len() == 12 && "/json-static"@[1] == 'j',
        "/json-small"@.len() == 11 && "/json-small"@[1] == 'j',
        "/users-static"@.len() == 13 && "/users-static"@[1] == 'u',
        "/users"@.len() == 6 && "/users"@[1] == 'u',
        "/users-db"@.len() == 9 && "/users-db"@[1] == 'u',
        "/raw-handler"@.len() == 12 && "/raw-handler"@[1] == 'r',
        "/problem"@.len() == 8 && "/problem"@[1] == 'p' && "/problem"@[2] == 'r',
        "/secure"@.len() == 7 && "/secure"@[1] == 's' && "/secure"@[3] == 'c',
        "/search"@.len() == 7 && "/search"@[1] == 's' && "/search"@[3] == 'a',
        "/trace"@.len() == 6 && "/trace"@[1] == 't',
        "/validation-success/"@.len() == 20 && "/validation-success/"@[1] == 'v',
        "/params/"@.len() == 8 && "/params/"@[1] == 'p',
        "/users/"@.len() == 7 && "/users/"@[1] == 'u',
        "/uuid/"@.len() == 6 && "/uuid/"@[1] == 'u',
{
    reveal_strlit("/plaintext");
    reveal_strlit("/fixed/path");
    reveal_strlit("/json-static");
    reveal_strlit("/json-small");
    reveal_strlit("/users-static");
    reveal_strlit("/users");
    reveal_strlit("/users-db");
    reveal_strlit("/raw-handler");
    reveal_strlit("/problem");
    reveal_strlit("/secure");
    reveal_strlit("/search");
    reveal_strlit("/trace");
    reveal_strlit("/validation-success/");
    reveal_strlit("/params/");
    reveal_strlit("/users/");
    reveal_strlit("/uuid/");
}

/// The bare server replies to the paths that it knows as a whole, and to no other.
pub proof fn law_bare_server_knows_its_paths(path: Seq<char>, users: Seq<u8>)
    ensures
        bench::fixed_reply(path, users) is Some <==> whole_paths().contains(path),
        path == "/plaintext"@ || path == "/fixed/path"@ || path == "/raw-handler"@ ==> replies(
            bench::fixed_reply(path, users)->0,
            200,
            "OK"@,
        ),
        path == "/json-static"@ || path == "/json-small"@ ==> replies(
            bench::fixed_reply(path, users)->0,
            200,
            "{\"id\":1,\"name\":\"Alice\"}"@,
        ) && has_field(bench::fixed_reply(path, users)->0, "content-type"@, "application/json"@),
        path == "/users-static"@ || path == "/users"@ ==> bench::fixed_reply(path, users)->0.status
            == 200 && bench::fixed_reply(path, users)->0.body == BodyView::<()>::Full(Some(users)),
        path == "/problem"@ ==> bench::fixed_reply(path, users)->0.status == 400 && has_field(
            bench::fixed_reply(path, users)->0,
            "content-type"@,
            "application/json"@,
        ),
{
    lemma_path_texts();
    reveal_strlit("content-type");
    reveal_strlit("content-length");
    assert("content-type"@.len() == 12 && "content-length"@.len() == 14);
    let known = whole_paths();
    assert(known[0] == "/plaintext"@ && known[1] == "/fixed/path"@ && known[2] == "/json-static"@
        && known[3] == "/json-small"@ && known[4] == "/users-static"@ && known[5] == "/users"@
        && known[6] == "/raw-handler"@ && known[7] == "/problem"@);
    if known.contains(path) {
        let i = choose|i: int| 0 <= i < known.len() && known[i] == path;
        assert(0 <= i < 8);
    }
}

/// Whether a path starts with a text.
pub open spec fn starts_with(path: Seq<char>, start: Seq<char>) -> bool {
    start.is_prefix_of(path)
}

/// A prefix is found where a path starts with it.
proof fn lemma_start(path: Seq<char>, start: Seq<char>)
    ensures
        bench::after_prefix(path, start) is Some <==> starts_with(path, start),
        bench::after_prefix(path, start) matches Some(rest) ==> path == start + rest,
        starts_with(path, start) && start.len() > 1 ==> path.len() >= start.len() && path[1]
            == start[1],
{
    if bench::after_prefix(path, start) is Some {
        assert(path.take(start.len() as int) =~= start);
        assert(path =~= start + path.skip(start.len() as int));
    }
    if starts_with(path, start) {
        assert(path.take(start.len() as int) =~= start);
        if start.len() > 1 {
            assert(start[1] == path[1]);
        }
    }
}

/// The bare server does with a `GET` request what belongs to its path: it asks the database,
/// looks at the key, the query or the trace, and does not know any other path.
pub proof fn law_bare_server_tells_paths_apart(
    path: Seq<char>,
    query: Option<Seq<char>>,
    fields: Map<Seq<char>, Seq<Seq<u8>>>,
    users: Seq<u8>,
)
    ensures
        ({
            let action = bench::raw_action_of("GET"@, path, query, fields, users);
            &&& action is QueryDatabase <==> path == "/users-db"@
            &&& whole_paths().contains(path) ==> action->Reply_0 == bench::fixed_reply(
                path,
                users,
            )->0
            &&& path == "/secure"@ ==> action->Reply_0 == bench::secure_reply(fields)
            &&& path == "/search"@ ==> action->Reply_0 == bench::search_reply(query)
            &&& path == "/trace"@ ==> action->Reply_0 == bench::trace_reply(fields)
            &&& path != "/users-db"@ && path != "/secure"@ && path != "/search"@ && path
                != "/trace"@ && !whole_paths().contains(path) && !starts_with(
                path,
                "/validation-success/"@,
            ) && !starts_with(path, "/params/"@) && !starts_with(path, "/users/"@) && !starts_with(
                path,
                "/uuid/"@,
            ) ==> replies(action->Reply_0, 404, "Not Found"@)
        }),
{
    lemma_path_texts();
    law_bare_server_knows_its_paths(path, users);
    lemma_start(path, "/validation-success/"@);
    lemma_start(path, "/params/"@);
    lemma_start(path, "/users/"@);
    lemma_start(path, "/uuid/"@);
    let known = whole_paths();
    if known.contains(path) {
        let i = choose|i: int| 0 <= i < known.len() && known[i] == path;
        assert(0 <= i < 8);
    }
}

/// The bare server reads what follows a prefix.
pub proof fn law_bare_server_reads_values(
    value: Seq<char>,
    query: Option<Seq<char>>,
    fields: Map<Seq<char>, Seq<Seq<u8>>>,
    users: Seq<u8>,
)
    ensures
        bench::raw_action_of("GET"@, "/params/"@ + value, query, fields, users)
            == RawActionView::Reply(bench::params_reply(value)),
        bench::raw_action_of("GET"@, "/uuid/"@ + value, query, fields, users)
            == RawActionView::Reply(bench::uuid_reply_view(bench::uuid_number(value))),
{
    lemma_path_texts();
    let params = "/params/"@ + value;
    let uuid = "/uuid/"@ + value;
    reveal_strlit("/params/");
    reveal_strlit("/uuid/");
    reveal_strlit("/users/");
    reveal_strlit("/users");
    reveal_strlit("/users-db");
    reveal_strlit("/users-static");
    assert(params[1] == 'p' && params[2] == 'a');
    assert(uuid[1] == 'u' && uuid[2] == 'u');
    assert("/users/"@[2] == 's' && "/users"@[2] == 's' && "/users-db"@[2] == 's'
        && "/users-static"@[2] == 's');
    lemma_start(params, "/validation-success/"@);
    lemma_start(uuid, "/validation-success/"@);
    lemma_start(uuid, "/params/"@);
    lemma_start(uuid, "/users/"@);
    if starts_with(uuid, "/users/"@) {
        assert("/users/"@[2] == uuid[2]);
    }
    assert(params.take(8) =~= "/params/"@ && params.skip(8) =~= value);
    assert(uuid.take(6) =~= "/uuid/"@ && uuid.skip(6) =~= value);
}

} // verus!
