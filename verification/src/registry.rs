//! How the route tables belong to the list of routes.

use crate::dispatch;
use crate::method;
use crate::params;
use crate::path;
use crate::plan;
use crate::trie;
use vstd::prelude::*;

verus! {

/// The routes by template, for templates without captures.
pub type StaticTable = Map<Seq<char>, Map<int, int>>;

/// The routes of a template, none where it is not in the table.
pub open spec fn routes_in(table: StaticTable, template: Seq<char>) -> Map<int, int> {
    if table.contains_key(template) {
        table[template]
    } else {
        Map::empty()
    }
}

/// Whether a route is the one of a template without captures and a method.
pub open spec fn static_home(
    routes: Seq<plan::RouteView>,
    index: int,
    template: Seq<char>,
    slot: int,
) -> bool {
    &&& 0 <= index < routes.len()
    &&& plan::is_static(routes[index].segments)
    &&& routes[index].template == template
    &&& method::method_slot_of(routes[index].method) == Some(slot)
}

/// Whether a route is the one of a pattern with captures and a method.
pub open spec fn dynamic_home(
    routes: Seq<plan::RouteView>,
    index: int,
    pattern: Seq<trie::PatternPart>,
    slot: int,
) -> bool {
    &&& 0 <= index < routes.len()
    &&& !plan::is_static(routes[index].segments)
    &&& trie::pattern_of(routes[index].segments) == pattern
    &&& method::method_slot_of(routes[index].method) == Some(slot)
}

/// The routes that share the place of a route in the tables.
pub open spec fn siblings(
    statics: StaticTable,
    dynamics: trie::Table,
    route: plan::RouteView,
) -> Map<int, int> {
    if plan::is_static(route.segments) {
        routes_in(statics, route.template)
    } else {
        trie::routes_at(dynamics, trie::pattern_of(route.segments))
    }
}

/// The number that the tables give for a route.
pub open spec fn entry_of(
    statics: StaticTable,
    dynamics: trie::Table,
    route: plan::RouteView,
) -> Option<int> {
    match method::method_slot_of(route.method) {
        Some(slot) => if siblings(statics, dynamics, route).contains_key(slot) {
            Some(siblings(statics, dynamics, route)[slot])
        } else {
            None
        },
        None => None,
    }
}

/// Whether a route can stand in the tables: its template is well formed and has no more
/// captures than a route may have.
pub open spec fn route_ok(route: plan::RouteView) -> bool {
    &&& path::valid_template(route.template)
    &&& route.segments == path::template_segments(route.template)
    &&& trie::capture_count(trie::pattern_of(route.segments)) <= params::MAX_CAPTURE_PARAMS
}

/// Whether the tables hold exactly the routes: each route stands in its place, and in each
/// place stands the route that belongs there.
pub open spec fn registry_ok(
    statics: StaticTable,
    dynamics: trie::Table,
    routes: Seq<plan::RouteView>,
) -> bool {
    &&& forall|template: Seq<char>, slot: int| #[trigger]
        routes_in(statics, template).contains_key(slot) ==> static_home(
            routes,
            routes_in(statics, template)[slot],
            template,
            slot,
        )
    &&& forall|pattern: Seq<trie::PatternPart>, slot: int| #[trigger]
        trie::routes_at(dynamics, pattern).contains_key(slot) ==> dynamic_home(
            routes,
            trie::routes_at(dynamics, pattern)[slot],
            pattern,
            slot,
        )
    &&& forall|i: int|
        0 <= i < routes.len() ==> entry_of(statics, dynamics, #[trigger] routes[i]) == Some(i)
    &&& forall|i: int| 0 <= i < routes.len() ==> route_ok(#[trigger] routes[i])
    &&& forall|template: Seq<char>| #[trigger]
        statics.contains_key(template) ==> exists|slot: int|
            routes_in(statics, template).contains_key(slot)
}

/// The table of templates without captures when a route is added.
pub open spec fn statics_with(
    statics: StaticTable,
    route: plan::RouteView,
    index: int,
) -> StaticTable {
    if plan::is_static(route.segments) {
        statics.insert(
            route.template,
            routes_in(statics, route.template).insert(
                method::method_slot_of(route.method)->0,
                index,
            ),
        )
    } else {
        statics
    }
}

/// The table of patterns with captures when a route is added.
pub open spec fn dynamics_with(
    dynamics: trie::Table,
    route: plan::RouteView,
    index: int,
) -> trie::Table {
    let pattern = trie::pattern_of(route.segments);
    if plan::is_static(route.segments) {
        dynamics
    } else {
        dynamics.insert(
            pattern,
            trie::routes_at(dynamics, pattern).insert(
                method::method_slot_of(route.method)->0,
                index,
            ),
        )
    }
}

/// A route whose place is free can be added.
pub proof fn lemma_added(
    statics: StaticTable,
    dynamics: trie::Table,
    routes: Seq<plan::RouteView>,
    route: plan::RouteView,
)
    requires
        registry_ok(statics, dynamics, routes),
        route_ok(route),
        method::method_slot_of(route.method) is Some,
        entry_of(statics, dynamics, route) is None,
    ensures
        registry_ok(
            statics_with(statics, route, routes.len() as int),
            dynamics_with(dynamics, route, routes.len() as int),
            routes.push(route),
        ),
{
    let count = routes.len() as int;
    let slot = method::method_slot_of(route.method)->0;
    let statics2 = statics_with(statics, route, count);
    let dynamics2 = dynamics_with(dynamics, route, count);
    let routes2 = routes.push(route);
    let pattern = trie::pattern_of(route.segments);
    assert forall|template: Seq<char>, s: int| #[trigger]
        routes_in(statics2, template).contains_key(s) implies static_home(
        routes2,
        routes_in(statics2, template)[s],
        template,
        s,
    ) by {
        if plan::is_static(route.segments) && template == route.template && s == slot {
            assert(routes2[count] == route);
        } else {
            assert(routes_in(statics, template).contains_key(s));
            let i = routes_in(statics, template)[s];
            assert(static_home(routes, i, template, s));
            assert(routes2[i] == routes[i]);
        }
    }
    assert forall|p: Seq<trie::PatternPart>, s: int| #[trigger]
        trie::routes_at(dynamics2, p).contains_key(s) implies dynamic_home(
        routes2,
        trie::routes_at(dynamics2, p)[s],
        p,
        s,
    ) by {
        if !plan::is_static(route.segments) && p == pattern && s == slot {
            assert(routes2[count] == route);
        } else {
            assert(trie::routes_at(dynamics, p).contains_key(s));
            let i = trie::routes_at(dynamics, p)[s];
            assert(dynamic_home(routes, i, p, s));
            assert(routes2[i] == routes[i]);
        }
    }
    assert forall|i: int| 0 <= i < routes2.len() implies entry_of(
        statics2,
        dynamics2,
        #[trigger] routes2[i],
    ) == Some(i) by {
        if i < count {
            assert(routes2[i] == routes[i]);
            assert(entry_of(statics, dynamics, routes[i]) == Some(i));
        } else {
            assert(routes2[i] == route);
        }
    }
    assert forall|i: int| 0 <= i < routes2.len() implies route_ok(#[trigger] routes2[i]) by {
        if i < count {
            assert(routes2[i] == routes[i]);
        }
    }
    assert forall|template: Seq<char>| #[trigger] statics2.contains_key(template) implies exists|
        s: int,
    | routes_in(statics2, template).contains_key(s) by {
        if plan::is_static(route.segments) && template == route.template {
            assert(routes_in(statics2, template).contains_key(slot));
        } else {
            assert(statics.contains_key(template));
            let s = choose|s: int| routes_in(statics, template).contains_key(s);
            assert(routes_in(statics2, template).contains_key(s));
        }
    }
}

/// A template without captures that no route has leaves its place free.
pub proof fn lemma_static_free(
    statics: StaticTable,
    dynamics: trie::Table,
    routes: Seq<plan::RouteView>,
    route: plan::RouteView,
)
    requires
        registry_ok(statics, dynamics, routes),
        plan::is_static(route.segments),
        forall|i: int|
            0 <= i < routes.len() ==> (#[trigger] routes[i]).method != route.method
                || routes[i].template != route.template,
    ensures
        entry_of(statics, dynamics, route) is None,
{
    method::lemma_slots();
    if let Some(slot) = method::method_slot_of(route.method) {
        if routes_in(statics, route.template).contains_key(slot) {
            let i = routes_in(statics, route.template)[slot];
            assert(static_home(routes, i, route.template, slot));
            assert(method::slot_name(slot) == routes[i].method);
        }
    }
}

/// Whether two routes have the same place: method, template and segments agree.
pub open spec fn same_place(a: plan::RouteView, b: plan::RouteView) -> bool {
    a.method == b.method && a.template == b.template && a.segments == b.segments
}

/// What is said of routes elsewhere does not matter to the tables.
pub proof fn lemma_same_places(
    statics: StaticTable,
    dynamics: trie::Table,
    routes: Seq<plan::RouteView>,
    others: Seq<plan::RouteView>,
)
    requires
        registry_ok(statics, dynamics, routes),
        routes.len() == others.len(),
        forall|i: int| 0 <= i < routes.len() ==> same_place(#[trigger] routes[i], others[i]),
    ensures
        registry_ok(statics, dynamics, others),
{
    assert forall|template: Seq<char>, slot: int| #[trigger]
        routes_in(statics, template).contains_key(slot) implies static_home(
        others,
        routes_in(statics, template)[slot],
        template,
        slot,
    ) by {
        let i = routes_in(statics, template)[slot];
        assert(static_home(routes, i, template, slot));
        assert(same_place(routes[i], others[i]));
    }
    assert forall|pattern: Seq<trie::PatternPart>, slot: int| #[trigger]
        trie::routes_at(dynamics, pattern).contains_key(slot) implies dynamic_home(
        others,
        trie::routes_at(dynamics, pattern)[slot],
        pattern,
        slot,
    ) by {
        let i = trie::routes_at(dynamics, pattern)[slot];
        assert(dynamic_home(routes, i, pattern, slot));
        assert(same_place(routes[i], others[i]));
    }
    assert forall|i: int| 0 <= i < others.len() implies entry_of(
        statics,
        dynamics,
        #[trigger] others[i],
    ) == Some(i) && route_ok(others[i]) by {
        assert(same_place(routes[i], others[i]));
        assert(entry_of(statics, dynamics, routes[i]) == Some(i));
        assert(route_ok(routes[i]));
    }
}

/// Whether a route serves a method: it is its own, or `GET` for `HEAD`.
pub open spec fn serves_method(route: plan::RouteView, method: Seq<char>) -> bool {
    route.method == method || method == "HEAD"@ && route.method == "GET"@
}

/// A route that is matched is one of the routes, and serves the method. It has no captures
/// and is the path itself, or its pattern is the one that serves the path.
pub proof fn lemma_matched(
    statics: StaticTable,
    dynamics: trie::Table,
    routes: Seq<plan::RouteView>,
    method: Seq<char>,
    path: Seq<char>,
)
    requires
        registry_ok(statics, dynamics, routes),
    ensures
        dispatch::routing_of(statics, dynamics, method, path) matches dispatch::RoutingView::Matched(
            index,
            found,
        ) ==> {
            let normal = path::normal_request_path(path);
            &&& 0 <= index < routes.len()
            &&& serves_method(routes[index], method)
            &&& found is None ==> plan::is_static(routes[index].segments) && routes[index].template
                == normal
            &&& found is Some ==> !plan::is_static(routes[index].segments) && trie::lookup(
                dynamics,
                Seq::empty(),
                path::path_texts(normal),
                0,
            ) == Some(trie::pattern_of(routes[index].segments))
        },
{
    method::lemma_slots();
    let normal = path::normal_request_path(path);
    if let dispatch::RoutingView::Matched(index, found) = dispatch::routing_of(
        statics,
        dynamics,
        method,
        path,
    ) {
        let own = method::method_slot_of(method);
        let get = method::method_slot_of("GET"@);
        if statics.contains_key(normal) {
            let set = routes_in(statics, normal);
            let slot = if own is Some && set.contains_key(own->0) {
                own->0
            } else {
                get->0
            };
            assert(set.contains_key(slot));
            assert(static_home(routes, set[slot], normal, slot));
            assert(method::slot_name(slot) == routes[index].method);
        } else {
            let pattern = trie::lookup(dynamics, Seq::empty(), path::path_texts(normal), 0)->0;
            trie::law_found_pattern_matches(dynamics, path::path_texts(normal));
            let set = trie::routes_at(dynamics, pattern);
            let slot = if own is Some && set.contains_key(own->0) {
                own->0
            } else {
                get->0
            };
            assert(set.contains_key(slot));
            assert(dynamic_home(routes, set[slot], pattern, slot));
            assert(method::slot_name(slot) == routes[index].method);
        }
    }
}

} // verus!
