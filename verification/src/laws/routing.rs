//! What holds of routing: methods, paths, templates, patterns and the allowed methods.

use crate::dispatch;
use crate::method;
use crate::method::Method;
use crate::params::MAX_CAPTURE_PARAMS;
use crate::path;
use crate::percent;
use crate::plan;
use crate::registry;
use crate::router;
use crate::text;
use crate::trie;
use vstd::prelude::*;
use vstd::string::*;
use vstd::utf8::*;

verus! {

/// The names of the methods that routes can have.
pub open spec fn routable() -> Seq<Seq<char>> {
    seq!["DELETE"@, "GET"@, "HEAD"@, "OPTIONS"@, "PATCH"@, "POST"@, "PUT"@]
}

/// The names stand at the places of their slots, are different and hold no comma.
proof fn lemma_routable()
    ensures
        routable().len() == 7,
        forall|i: int| 0 <= i < 7 ==> #[trigger] routable()[i] == method::slot_name(i),
        forall|i: int| 0 <= i < 7 ==> method::method_slot_of(#[trigger] routable()[i]) == Some(i),
        forall|i: int| 0 <= i < 7 ==> (#[trigger] routable()[i]).len() > 0,
        forall|i: int| 0 <= i < 7 ==> !(#[trigger] routable()[i]).contains(','),
        routable().no_duplicates(),
{
    method::lemma_slots();
    reveal_strlit("DELETE");
    reveal_strlit("GET");
    reveal_strlit("HEAD");
    reveal_strlit("OPTIONS");
    reveal_strlit("PATCH");
    reveal_strlit("POST");
    reveal_strlit("PUT");
    let names = routable();
    assert(names[0] == "DELETE"@ && names[1] == "GET"@ && names[2] == "HEAD"@ && names[3]
        == "OPTIONS"@ && names[4] == "PATCH"@ && names[5] == "POST"@ && names[6] == "PUT"@);
    assert forall|i: int| 0 <= i < 7 implies #[trigger] names[i] == method::slot_name(i) by {}
    assert forall|i: int, j: int| 0 <= i < 7 && 0 <= j < 7 && i != j implies names[i]
        != names[j] by {
        assert(method::method_slot_of(method::slot_name(i)) == Some(i));
        assert(method::method_slot_of(method::slot_name(j)) == Some(j));
    }
    assert forall|i: int| 0 <= i < 7 implies !(#[trigger] names[i]).contains(',') by {
        assert(!"DELETE"@.contains(','));
        assert(!"GET"@.contains(','));
        assert(!"HEAD"@.contains(','));
        assert(!"OPTIONS"@.contains(','));
        assert(!"PATCH"@.contains(','));
        assert(!"POST"@.contains(','));
        assert(!"PUT"@.contains(','));
    }
    assert forall|i: int| 0 <= i < 7 implies method::method_slot_of(#[trigger] names[i]) == Some(
        i,
    ) by {
        assert(method::method_slot_of(method::slot_name(i)) == Some(i));
    }
}

/// A method is routable exactly where it is one of the seven, and every one of them has a slot
/// of its own.
pub proof fn law_seven_methods_are_routable(name: Seq<char>, other: Seq<char>)
    ensures
        method::method_slot_of(name) is Some <==> routable().contains(name),
        method::method_slot_of(name) is Some && method::method_slot_of(name)
            == method::method_slot_of(other) ==> name == other,
        Method::DELETE@ == "DELETE"@,
        Method::GET@ == "GET"@,
        Method::HEAD@ == "HEAD"@,
        Method::OPTIONS@ == "OPTIONS"@,
        Method::PATCH@ == "PATCH"@,
        Method::POST@ == "POST"@,
        Method::PUT@ == "PUT"@,
{
    lemma_routable();
    method::lemma_slots();
    if let Some(slot) = method::method_slot_of(name) {
        assert(method::slot_name(slot) == name);
        assert(routable()[slot] == name);
    }
    if routable().contains(name) {
        let i = choose|i: int| 0 <= i < 7 && routable()[i] == name;
        assert(method::method_slot_of(routable()[i]) == Some(i));
    }
}

/// A route that is given to a method is that method's, and those of other methods stay.
pub proof fn law_routes_belong_to_their_methods(
    routes: Map<int, int>,
    name: Seq<char>,
    other: Seq<char>,
    route: int,
)
    requires
        routable().contains(name),
        name != other,
    ensures
        ({
            let slot = method::method_slot_of(name)->0;
            &&& router::route_of(routes.insert(slot, route), name) == Some(route)
            &&& router::route_of(routes.insert(slot, route), other) == router::route_of(
                routes,
                other,
            )
            &&& router::route_of(routes.remove(slot), name) is None
            &&& router::route_of(routes.remove(slot), other) == router::route_of(routes, other)
        }),
        router::route_of(Map::empty(), name) is None,
        !routable().contains(other) ==> router::route_of(routes, other) is None,
{
    law_seven_methods_are_routable(name, other);
    law_seven_methods_are_routable(other, name);
}

/// Names with a comma and a space between them.
pub open spec fn joined(names: Seq<Seq<char>>) -> Seq<char>
    decreases names.len(),
{
    if names.len() == 0 {
        Seq::empty()
    } else if names.len() == 1 {
        names[0]
    } else {
        joined(names.drop_last()) + ", "@ + names.last()
    }
}

/// The routable methods that have a route.
pub open spec fn methods_with_routes(routes: Map<int, int>) -> Seq<Seq<char>> {
    routable().filter(|name: Seq<char>| router::route_of(routes, name) is Some)
}

/// The `Allow` value of a set of routes lists the methods that have a route, separated by a
/// comma and a space: every one of them, once, and no others.
pub proof fn law_allow_lists_the_methods_with_routes(routes: Map<int, int>, name: Seq<char>)
    ensures
        router::allow_header(routes) == joined(methods_with_routes(routes)),
        methods_with_routes(routes).no_duplicates(),
        methods_with_routes(routes).contains(name) <==> routable().contains(name)
            && router::route_of(routes, name) is Some,
        forall|i: int|
            0 <= i < methods_with_routes(routes).len() ==> !(#[trigger] methods_with_routes(
                routes,
            )[i]).contains(','),
{
    let has_route = |name: Seq<char>| router::route_of(routes, name) is Some;
    lemma_routable();
    lemma_allowed(routes, 7);
    assert(routable().take(7) =~= routable());
    lemma_kept(routable(), has_route);
}

/// What a filter keeps is what satisfies it, once each.
proof fn lemma_kept(names: Seq<Seq<char>>, keep: spec_fn(Seq<char>) -> bool)
    requires
        names.no_duplicates(),
        forall|i: int| 0 <= i < names.len() ==> !(#[trigger] names[i]).contains(','),
    ensures
        names.filter(keep).no_duplicates(),
        forall|name: Seq<char>| #[trigger]
            names.filter(keep).contains(name) <==> names.contains(name) && keep(name),
        forall|i: int|
            0 <= i < names.filter(keep).len() ==> !(#[trigger] names.filter(keep)[i]).contains(','),
    decreases names.len(),
{
    reveal(Seq::filter);
    if names.len() > 0 {
        let front = names.drop_last();
        let last = names.last();
        assert forall|i: int| 0 <= i < front.len() implies !(#[trigger] front[i]).contains(',') by {
            assert(names[i] == front[i]);
        }
        lemma_kept(front, keep);
        let kept = names.filter(keep);
        let before = front.filter(keep);
        assert(!front.contains(last)) by {
            if front.contains(last) {
                let i = choose|i: int| 0 <= i < front.len() && front[i] == last;
                assert(names[i] == names[names.len() - 1]);
            }
        }
        assert forall|name: Seq<char>| #[trigger] kept.contains(name) <==> names.contains(name)
            && keep(name) by {
            if kept.contains(name) {
                let i = choose|i: int| 0 <= i < kept.len() && kept[i] == name;
                if i < before.len() {
                    assert(before[i] == name);
                    assert(before.contains(name));
                    let j = choose|j: int| 0 <= j < front.len() && front[j] == name;
                    assert(names[j] == name);
                } else {
                    assert(names[names.len() - 1] == name);
                }
            }
            if names.contains(name) && keep(name) {
                let j = choose|j: int| 0 <= j < names.len() && names[j] == name;
                if j < front.len() {
                    assert(front[j] == name);
                    assert(before.contains(name));
                    let i = choose|i: int| 0 <= i < before.len() && before[i] == name;
                    assert(kept[i] == name);
                } else {
                    assert(kept[kept.len() - 1] == name);
                }
            }
        }
        if keep(last) {
            assert forall|i: int, j: int|
                0 <= i < kept.len() && 0 <= j < kept.len() && i != j implies kept[i]
                != kept[j] by {
                if i == kept.len() - 1 && kept[j] == last {
                    assert(before[j] == last);
                    assert(before.contains(last));
                }
                if j == kept.len() - 1 && kept[i] == last {
                    assert(before[i] == last);
                    assert(before.contains(last));
                }
            }
            assert forall|i: int| 0 <= i < kept.len() implies !(#[trigger] kept[i]).contains(
                ',',
            ) by {
                if i < before.len() {
                    assert(kept[i] == before[i]);
                } else {
                    assert(kept[i] == names[names.len() - 1]);
                }
            }
        }
    }
}

/// The names below a slot are listed up to it.
proof fn lemma_allowed(routes: Map<int, int>, n: int)
    requires
        0 <= n <= 7,
    ensures
        ({
            let kept = routable().take(n).filter(
                |name: Seq<char>| router::route_of(routes, name) is Some,
            );
            &&& router::allowed_text(routes, n) == joined(kept)
            &&& kept.len() == 0 <==> joined(kept).len() == 0
        }),
    decreases n,
{
    let has_route = |name: Seq<char>| router::route_of(routes, name) is Some;
    reveal(Seq::filter);
    lemma_routable();
    let kept = routable().take(n).filter(has_route);
    if n > 0 {
        lemma_allowed(routes, n - 1);
        let before = routable().take(n - 1).filter(has_route);
        let name = routable()[n - 1];
        assert(routable().take(n).drop_last() =~= routable().take(n - 1));
        assert(routable().take(n).last() == name);
        assert(name == method::slot_name(n - 1));
        assert(router::route_of(routes, name) is Some <==> routes.contains_key(n - 1));
        if routes.contains_key(n - 1) {
            assert(kept == before.push(name));
            assert(kept.drop_last() =~= before);
            assert(kept.last() == name);
            assert(name.len() > 0);
            if before.len() == 0 {
                assert(kept[0] == name);
            }
        }
    }
}

/// A method is served by its own route, and by no other but that `HEAD` is served by the route
/// of `GET` where it has none.
pub proof fn law_methods_are_served_by_their_own_routes(routes: Map<int, int>, name: Seq<char>)
    ensures
        name != "HEAD"@ ==> router::serving_route(routes, name) == router::route_of(routes, name),
        router::route_of(routes, "HEAD"@) is Some ==> router::serving_route(routes, "HEAD"@)
            == router::route_of(routes, "HEAD"@),
        router::route_of(routes, "HEAD"@) is None ==> router::serving_route(routes, "HEAD"@)
            == router::route_of(routes, "GET"@),
{
}

/// A request that is matched is one for a path that has a route for its method, or for `GET`
/// where the method is `HEAD`.
pub proof fn law_matched_requests_have_a_route(
    statics: registry::StaticTable,
    dynamics: trie::Table,
    name: Seq<char>,
    path: Seq<char>,
)
    ensures
        match (
            crate::laws::routes_for(statics, dynamics, path),
            dispatch::routing_of(statics, dynamics, name, path),
        ) {
            (None, routing) => routing is NotFound,
            (Some(routes), dispatch::RoutingView::Matched(index, _)) => {
                ||| router::route_of(routes, name) == Some(index)
                ||| name == "HEAD"@ && router::route_of(routes, name) is None && router::route_of(
                    routes,
                    "GET"@,
                ) == Some(index)
            },
            (Some(routes), dispatch::RoutingView::Options(allow)) => {
                &&& name == "OPTIONS"@
                &&& router::route_of(routes, name) is None
                &&& allow == joined(methods_with_routes(routes))
            },
            (Some(routes), dispatch::RoutingView::MethodNotAllowed(allow)) => {
                &&& name != "OPTIONS"@
                &&& router::route_of(routes, name) is None
                &&& name == "HEAD"@ ==> router::route_of(routes, "GET"@) is None
                &&& allow == joined(methods_with_routes(routes))
            },
            (Some(_), dispatch::RoutingView::NotFound) => false,
        },
{
    if let Some(routes) = crate::laws::routes_for(statics, dynamics, path) {
        law_allow_lists_the_methods_with_routes(routes, name);
    }
}

/// The normal form of a request path is the path without its trailing slashes. A path of one
/// character, or of none, is its own normal form.
pub proof fn law_normal_paths_lose_their_trailing_slashes(path: Seq<char>)
    ensures
        ({
            let normal = path::normal_request_path(path);
            &&& path.len() <= 1 ==> normal == path
            &&& path.len() > 1 ==> normal.len() == 0 || normal.last() != '/'
            &&& normal.len() <= path.len()
            &&& forall|i: int| 0 <= i < normal.len() ==> normal[i] == path[i]
            &&& forall|i: int| normal.len() <= i < path.len() ==> path[i] == '/'
        }),
        path::normal_path(path) == if path.len() == 0 {
            seq!['/']
        } else {
            path::normal_request_path(path)
        },
{
    path::lemma_trimmed_prefix(path);
    let trimmed = path::trim_slashes(path);
    assert forall|i: int| 0 <= i < trimmed.len() implies trimmed[i] == path[i] by {
        assert(path.take(trimmed.len() as int)[i] == path[i]);
    }
}

/// Whether a range is a run without slashes between slashes or the ends.
pub open spec fn is_run(bytes: Seq<u8>, part: (int, int)) -> bool {
    &&& 0 <= part.0 < part.1 <= bytes.len()
    &&& part.0 > 0 ==> bytes[part.0 - 1] == '/' as u8
    &&& part.1 < bytes.len() ==> bytes[part.1] == '/' as u8
    &&& forall|k: int| part.0 <= k < part.1 ==> #[trigger] bytes[k] != '/' as u8
}

/// Whether a byte stands in one of the parts.
pub open spec fn in_a_part(parts: Seq<(int, int)>, k: int) -> bool {
    exists|i: int| 0 <= i < parts.len() && (#[trigger] parts[i]).0 <= k < parts[i].1
}

/// The parts of a path are the runs between its slashes: each of them is such a run, every byte
/// that is no slash stands in one of them, and they come in order.
pub proof fn law_parts_are_the_runs_between_slashes(bytes: Seq<u8>)
    ensures
        ({
            let parts = path::parts_from(bytes, 0);
            &&& forall|i: int| 0 <= i < parts.len() ==> is_run(bytes, #[trigger] parts[i])
            &&& forall|i: int, j: int|
                0 <= i < j < parts.len() ==> (#[trigger] parts[i]).1 < (#[trigger] parts[j]).0
            &&& forall|k: int|
                0 <= k < bytes.len() && #[trigger] bytes[k] != '/' as u8 ==> in_a_part(parts, k)
        }),
{
    lemma_runs(bytes, 0);
}

/// The parts from a position on that no part spans.
proof fn lemma_runs(bytes: Seq<u8>, pos: int)
    requires
        0 <= pos <= bytes.len(),
        pos == 0 || pos == bytes.len() || bytes[pos] == '/' as u8,
    ensures
        ({
            let parts = path::parts_from(bytes, pos);
            &&& forall|i: int|
                0 <= i < parts.len() ==> is_run(bytes, #[trigger] parts[i]) && parts[i].0 >= pos
            &&& pos > 0 ==> forall|i: int| 0 <= i < parts.len() ==> (#[trigger] parts[i]).0 > pos
            &&& forall|i: int, j: int|
                0 <= i < j < parts.len() ==> (#[trigger] parts[i]).1 < (#[trigger] parts[j]).0
            &&& forall|k: int|
                pos <= k < bytes.len() && #[trigger] bytes[k] != '/' as u8 ==> in_a_part(parts, k)
        }),
    decreases bytes.len() - pos,
{
    path::lemma_slashes_end(bytes, pos);
    let start = path::slashes_end(bytes, pos);
    let parts = path::parts_from(bytes, pos);
    if start < bytes.len() {
        path::lemma_part_end(bytes, start);
        let end = path::part_end(bytes, start);
        lemma_runs(bytes, end);
        let rest = path::parts_from(bytes, end);
        assert(parts == seq![(start, end)] + rest);
        assert(is_run(bytes, (start, end)));
        assert forall|i: int| 0 <= i < parts.len() implies is_run(bytes, #[trigger] parts[i])
            && parts[i].0 >= pos && (pos > 0 ==> parts[i].0 > pos) by {
            if i > 0 {
                assert(parts[i] == rest[i - 1]);
            }
        }
        assert forall|i: int, j: int| 0 <= i < j < parts.len() implies (#[trigger] parts[i]).1
            < (#[trigger] parts[j]).0 by {
            assert(parts[j] == rest[j - 1]);
            if i > 0 {
                assert(parts[i] == rest[i - 1]);
            }
        }
        assert forall|k: int|
            pos <= k < bytes.len() && #[trigger] bytes[k] != '/' as u8 implies in_a_part(
            parts,
            k,
        ) by {
            if k < end {
                assert(parts[0].0 <= k < parts[0].1);
            } else {
                assert(in_a_part(rest, k));
                let i = choose|i: int| 0 <= i < rest.len() && (#[trigger] rest[i]).0 <= k
                    < rest[i].1;
                assert(parts[i + 1] == rest[i]);
            }
        }
    }
}

/// The texts of the parts of a path are what the parts hold, one for one.
pub proof fn law_parts_hold_their_texts(path: Seq<char>, index: int)
    ensures
        path::path_texts(path).len() == path::parts_from(encode_utf8(path), 0).len(),
        0 <= index < path::path_texts(path).len() ==> {
            let bytes = encode_utf8(path);
            let part = path::parts_from(bytes, 0)[index];
            &&& encode_utf8(path::path_texts(path)[index]) == bytes.subrange(part.0, part.1)
            &&& path::path_texts(path)[index].len() > 0
            &&& !path::path_texts(path)[index].contains('/')
        },
{
    if 0 <= index < path::path_texts(path).len() {
        let bytes = encode_utf8(path);
        let part = path::parts_from(bytes, 0)[index];
        let chars = path::path_texts(path)[index];
        crate::laws::lemma_part_bytes(path, index);
        law_parts_are_the_runs_between_slashes(bytes);
        assert(is_run(bytes, part));
        text::lemma_encode_len(chars);
        text::lemma_ascii_contains(chars, '/');
        if chars.contains('/') {
            let held = bytes.subrange(part.0, part.1);
            let k = choose|k: int| 0 <= k < held.len() && held[k] == '/' as u8;
            assert(bytes[part.0 + k] == '/' as u8);
        }
    }
}

/// A part of a template between braces is a capture with the name that stands there, and every
/// other part is fixed text.
pub proof fn law_braces_make_captures(part: Seq<char>, name: Seq<char>)
    ensures
        path::part_segment(seq!['{'] + name + seq!['}']) == path::SegmentView::Capture(name),
        (forall|inner: Seq<char>| part != #[trigger] (seq!['{'] + inner + seq!['}']))
            ==> path::part_segment(part) == path::SegmentView::Static(part),
        path::valid_part(seq!['{'] + name + seq!['}']) <==> name.len() > 0,
        (forall|inner: Seq<char>| part != #[trigger] (seq!['{'] + inner + seq!['}'])) ==> (
        path::valid_part(part) <==> !part.contains('{') && !part.contains('}')),
{
    let capture = seq!['{'] + name + seq!['}'];
    assert(capture[0] == '{' && capture.last() == '}');
    assert(capture.subrange(1, capture.len() - 1) =~= name);
    if path::is_capture_text(part) {
        assert('{' != '}');
        assert(part.len() >= 2);
        let inner = part.subrange(1, part.len() - 1);
        assert(part =~= seq!['{'] + inner + seq!['}']);
    }
}

/// The segments of a template are those of its parts, one for one, and it is well formed
/// exactly where all of its parts are.
pub proof fn law_templates_are_read_part_by_part(path: Seq<char>, index: int)
    ensures
        path::template_segments(path).len() == path::path_texts(path).len(),
        0 <= index < path::path_texts(path).len() ==> path::template_segments(path)[index]
            == path::part_segment(path::path_texts(path)[index]),
        path::valid_template(path) <==> forall|i: int|
            0 <= i < path::path_texts(path).len() ==> path::valid_part(
                #[trigger] path::path_texts(path)[i],
            ),
{
    if 0 <= index < path::path_texts(path).len() {
        assert(path::template_segments(path)[index] == path::part_segment(
            path::path_texts(path)[index],
        ));
    }
}

/// A template without a part between braces has no captures, and one with such a part has.
pub proof fn law_static_templates_have_no_captures(segments: Seq<path::SegmentView>)
    ensures
        !plan::is_static(segments) <==> exists|i: int|
            0 <= i < segments.len() && (#[trigger] segments[i]) is Capture,
        trie::pattern_of(segments).len() == segments.len(),
        forall|i: int|
            0 <= i < segments.len() ==> #[trigger] trie::pattern_of(segments)[i] == match segments[i] {
                path::SegmentView::Static(value) => trie::PatternPart::Literal(value),
                path::SegmentView::Capture(_) => trie::PatternPart::Capture,
            },
{
}

/// A pattern matches a path that has as many parts as it has steps, each the fixed text of its
/// step, or any part with valid escapes where the step is a capture.
pub proof fn law_patterns_match_step_by_step(
    pattern: Seq<trie::PatternPart>,
    parts: Seq<Seq<char>>,
)
    ensures
        trie::pattern_matches(pattern, parts) <==> pattern.len() == parts.len() && (forall|i: int|
            0 <= i < parts.len() ==> (#[trigger] pattern[i] == trie::PatternPart::Literal(parts[i])
                || pattern[i] is Capture && percent::percent_bytes(encode_utf8(parts[i])) is Some)),
{
    if trie::pattern_matches(pattern, parts) {
        assert forall|i: int| 0 <= i < parts.len() implies (#[trigger] pattern[i]
            == trie::PatternPart::Literal(parts[i]) || pattern[i] is Capture
            && percent::percent_bytes(encode_utf8(parts[i])) is Some) by {
            assert(trie::admits(pattern[i], parts[i]));
        }
    }
}

/// Where a pattern of the table matches the parts of a path, the path is served: by that
/// pattern, or by one that agrees with it up to a step at which it has the fixed text of the
/// path in place of a capture.
pub proof fn law_fixed_text_wins_over_captures(
    table: trie::Table,
    parts: Seq<Seq<char>>,
    pattern: Seq<trie::PatternPart>,
)
    requires
        table.contains_key(pattern),
        trie::pattern_matches(pattern, parts),
        trie::capture_count(pattern) <= MAX_CAPTURE_PARAMS,
    ensures
        trie::lookup(table, Seq::empty(), parts, 0) matches Some(found) && {
            &&& table.contains_key(found)
            &&& found.len() == parts.len()
            &&& found == pattern || exists|step: int|
                0 <= step < parts.len() && #[trigger] found[step] == trie::PatternPart::Literal(
                    parts[step],
                ) && pattern[step] is Capture && (forall|i: int|
                    0 <= i < step ==> #[trigger] found[i] == pattern[i])
        },
{
    trie::law_fixed_segments_take_precedence(table, parts, pattern);
    trie::law_found_pattern_matches(table, parts);
    let found = trie::lookup(table, Seq::empty(), parts, 0)->0;
    law_patterns_match_step_by_step(found, parts);
    if found != pattern {
        let step = choose|step: int| trie::fixed_first_at(found, pattern, step);
        assert(trie::fixed_first_at(found, pattern, step));
        assert(found[step] == trie::PatternPart::Literal(parts[step]));
        assert forall|i: int| 0 <= i < step implies #[trigger] found[i] == pattern[i] by {
            assert(found.take(step)[i] == pattern.take(step)[i]);
        }
    }
}

/// The captures of a path are the ranges of its parts at the capture steps of its pattern, in
/// order and all of them.
pub proof fn law_captures_are_the_parts_at_capture_steps(
    pattern: Seq<trie::PatternPart>,
    ranges: Seq<(int, int)>,
    step: int,
)
    requires
        pattern.len() == ranges.len(),
        0 <= step < pattern.len(),
    ensures
        trie::captured(pattern, ranges).len() == trie::capture_count(pattern),
        pattern[step] is Capture ==> {
            let place = trie::capture_count(pattern.take(step)) as int;
            &&& place < trie::captured(pattern, ranges).len()
            &&& trie::captured(pattern, ranges)[place] == ranges[step]
        },
        trie::capture_count(pattern.take(0)) == 0,
        trie::capture_count(pattern.take(step + 1)) == trie::capture_count(pattern.take(step))
            + if pattern[step] is Capture {
            1nat
        } else {
            0nat
        },
        trie::capture_count(pattern.take(pattern.len() as int)) == trie::capture_count(pattern),
{
    assert(pattern.take(0) =~= Seq::empty());
    assert(pattern.take(pattern.len() as int) =~= pattern);
    let longer = pattern.take(step + 1);
    assert(longer.drop_last() =~= pattern.take(step));
    assert(longer.last() == pattern[step]);
    trie::lemma_capture_count_last(longer);
    trie::lemma_captured_positions(pattern, ranges);
    if pattern[step] is Capture {
        crate::laws::lemma_captured_at(pattern, ranges, step);
    }
}

/// A route serves the method that it was registered for, and `HEAD` where that is `GET`.
pub proof fn law_routes_serve_their_methods(route: plan::RouteView, name: Seq<char>)
    ensures
        registry::serves_method(route, name) <==> route.method == name || route.method == "GET"@
            && name == "HEAD"@,
{
}

} // verus!
