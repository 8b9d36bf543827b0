//! The routes of one path, by method.

use crate::method;
use crate::method::{method_name, method_slot, Method};
use vstd::prelude::*;
use vstd::string::*;

verus! {

/// The number of a route.
#[derive(Clone, Copy, Debug, PartialEq, Eq, Structural)]
pub struct RouteId(pub u32);

impl RouteId {
    /// The id of the route with the given number.
    pub fn new(index: usize) -> (r: Self)
        requires
            index <= u32::MAX,
        ensures
            r.0 == index,
    {
        RouteId(index as u32)
    }

    /// The number of the route.
    pub fn index(self) -> (r: usize)
        ensures
            r == self.0,
    {
        self.0 as usize
    }
}

/// Whether the bit of a slot is set.
pub open spec fn has_bit(mask: u8, slot: u8) -> bool {
    mask & (1u8 << slot) != 0
}

/// The routes of one path, a slot for each routable method. `u32::MAX` marks a free slot.
#[derive(Clone, Copy)]
pub struct RouteSet {
    pub routes: [RouteId; 7],
    pub method_mask: u8,
}

/// The routes by the slots of their methods.
impl View for RouteSet {
    type V = Map<int, int>;

    open spec fn view(&self) -> Map<int, int> {
        Map::new(
            |slot: int| 0 <= slot < 7 && self.routes@[slot].0 != u32::MAX,
            |slot: int| self.routes@[slot].0 as int,
        )
    }
}

/// The names of the methods with a slot below `n` in the set, in slot order.
pub open spec fn allowed_text(routes: Map<int, int>, n: int) -> Seq<char>
    decreases n,
{
    if n <= 0 {
        Seq::empty()
    } else {
        let before = allowed_text(routes, n - 1);
        if routes.contains_key(n - 1) {
            if before.len() == 0 {
                method::slot_name(n - 1)
            } else {
                before + ", "@ + method::slot_name(n - 1)
            }
        } else {
            before
        }
    }
}

/// The names of the methods depend on nothing but which of them have a route.
pub proof fn lemma_allowed_domain(a: Map<int, int>, b: Map<int, int>, n: int)
    requires
        forall|slot: int| #[trigger] a.contains_key(slot) == b.contains_key(slot),
    ensures
        allowed_text(a, n) == allowed_text(b, n),
    decreases n,
{
    if n > 0 {
        lemma_allowed_domain(a, b, n - 1);
        assert(a.contains_key(n - 1) == b.contains_key(n - 1));
    }
}

/// The value of an `Allow` header.
pub open spec fn allow_header(routes: Map<int, int>) -> Seq<char> {
    allowed_text(routes, 7)
}

/// The route of a method, if the method is routable and has one.
pub open spec fn route_of(routes: Map<int, int>, method: Seq<char>) -> Option<int> {
    match method::method_slot_of(method) {
        Some(slot) => if routes.contains_key(slot) {
            Some(routes[slot])
        } else {
            None
        },
        None => None,
    }
}

impl Default for RouteSet {
    fn default() -> (r: Self)
        ensures
            r.wf(),
            r@ == Map::<int, int>::empty(),
    {
        let free = RouteId(u32::MAX);
        let routes = [free, free, free, free, free, free, free];
        let set = RouteSet { routes, method_mask: 0 };
        assert forall|slot: u8| slot < 7 implies !has_bit(0, slot) by {
            assert(0u8 & (1u8 << slot) == 0) by (bit_vector);
        }
        assert(set@ =~= Map::<int, int>::empty());
        set
    }
}

impl RouteSet {
    /// Whether the mask shows the slots that are taken.
    pub open spec fn wf(&self) -> bool {
        &&& self.method_mask < 128
        &&& forall|slot: u8|
            slot < 7 ==> (#[trigger] has_bit(self.method_mask, slot) <==> self.routes@[slot as int].0
                != u32::MAX)
    }

    /// Gives a route to a routable method that has none yet.
    pub fn insert(&mut self, method: Method, route: usize)
        requires
            old(self).wf(),
            route < u32::MAX,
            method::method_slot_of(method@) is Some,
            route_of(old(self)@, method@) is None,
        ensures
            final(self).wf(),
            final(self)@ == old(self)@.insert(method::method_slot_of(method@)->0, route as int),
    {
        if let Some(slot) = method_slot(&method) {
            let id = RouteId::new(route);
            let mask: u8 = self.method_mask;
            let place: u8 = slot as u8;
            self.routes[slot] = id;
            self.method_mask = mask | (1u8 << place);
            proof {
                assert(self.routes@ =~= old(self).routes@.update(slot as int, id));
                assert(mask < 128 && place < 7 ==> (mask | (1u8 << place)) < 128) by (bit_vector);
                assert forall|s: u8| s < 7 implies #[trigger] has_bit(self.method_mask, s)
                    == (s == place || has_bit(mask, s)) by {
                    assert(((mask | (1u8 << place)) & (1u8 << s) != 0) == (s == place || mask & (1u8
                        << s) != 0)) by (bit_vector)
                        requires
                            s < 7,
                            place < 7,
                    ;
                }
                assert(self@ =~= old(self)@.insert(slot as int, route as int));
            }
        }
    }

    /// The route of a method.
    pub fn route(&self, method: &Method) -> (r: Option<RouteId>)
        ensures
            match r {
                Some(id) => route_of(self@, method@) == Some(id.0 as int) && id.0 != u32::MAX,
                None => route_of(self@, method@) is None,
            },
    {
        match method_slot(method) {
            Some(slot) => if self.routes[slot].0 != u32::MAX {
                Some(self.routes[slot])
            } else {
                None
            },
            None => None,
        }
    }

    /// The names of the methods that have a route, separated by `, `.
    pub fn allowed_methods(&self) -> (r: String)
        requires
            self.wf(),
        ensures
            r@ == allow_header(self@),
    {
        let mut allowed = String::new();
        let mut index: usize = 0;
        while index < 7
            invariant
                self.wf(),
                index <= 7,
                allowed@ == allowed_text(self@, index as int),
            decreases 7 - index,
        {
            let place: u8 = index as u8;
            assert(has_bit(self.method_mask, place) <==> self@.contains_key(index as int));
            if self.method_mask & (1u8 << place) != 0 {
                if !allowed.as_str().is_empty() {
                    allowed.append(", ");
                }
                allowed.append(method_name(index));
                assert(allowed@ =~= allowed_text(self@, index + 1));
            }
            index += 1;
        }
        allowed
    }

    /// Takes the route of a method away.
    pub fn remove(&mut self, method: &Method)
        requires
            old(self).wf(),
        ensures
            final(self).wf(),
            match method::method_slot_of(method@) {
                Some(slot) => final(self)@ == old(self)@.remove(slot),
                None => final(self)@ == old(self)@,
            },
    {
        if let Some(slot) = method_slot(method) {
            let mask: u8 = self.method_mask;
            let place: u8 = slot as u8;
            self.routes[slot] = RouteId(u32::MAX);
            self.method_mask = mask & !(1u8 << place);
            proof {
                assert(self.routes@ =~= old(self).routes@.update(slot as int, RouteId(u32::MAX)));
                assert(mask < 128 ==> (mask & !(1u8 << place)) < 128) by (bit_vector);
                assert forall|s: u8| s < 7 implies #[trigger] has_bit(self.method_mask, s)
                    == (s != place && has_bit(mask, s)) by {
                    assert(((mask & !(1u8 << place)) & (1u8 << s) != 0) == (s != place && mask & (1u8
                        << s) != 0)) by (bit_vector)
                        requires
                            s < 7,
                            place < 7,
                    ;
                }
                assert(self@ =~= old(self)@.remove(slot as int));
            }
        }
    }

    /// Whether no method has a route.
    pub fn is_empty(&self) -> (r: bool)
        requires
            self.wf(),
        ensures
            r == (self@ == Map::<int, int>::empty()),
            r == (forall|slot: int| !self@.contains_key(slot)),
    {
        proof {
            let mask = self.method_mask;
            if mask == 0 {
                assert forall|slot: int| !self@.contains_key(slot) by {
                    if 0 <= slot < 7 {
                        let s = slot as u8;
                        assert(0u8 & (1u8 << s) == 0) by (bit_vector);
                        assert(!has_bit(mask, s));
                    }
                }
                assert(self@ =~= Map::<int, int>::empty());
            } else {
                assert(mask < 128 && mask != 0 ==> mask & 1 != 0 || mask & 2 != 0 || mask & 4 != 0
                    || mask & 8 != 0 || mask & 16 != 0 || mask & 32 != 0 || mask & 64 != 0)
                    by (bit_vector);
                assert(1u8 << 0 == 1 && 1u8 << 1 == 2 && 1u8 << 2 == 4 && 1u8 << 3 == 8 && 1u8 << 4
                    == 16 && 1u8 << 5 == 32 && 1u8 << 6 == 64) by (bit_vector);
                assert(has_bit(mask, 0) || has_bit(mask, 1) || has_bit(mask, 2) || has_bit(mask, 3)
                    || has_bit(mask, 4) || has_bit(mask, 5) || has_bit(mask, 6));
                let s = choose|s: u8| s < 7 && has_bit(mask, s);
                assert(self@.contains_key(s as int));
            }
        }
        self.method_mask == 0
    }
}

/// Why a known path does not serve a method.
#[derive(Debug)]
pub enum RouteFailure {
    Options(String),
    MethodNotAllowed(String),
}

/// The route that serves a method: its own, or for `HEAD` the one of `GET`.
pub open spec fn serving_route(routes: Map<int, int>, method: Seq<char>) -> Option<int> {
    match route_of(routes, method) {
        Some(route) => Some(route),
        None => if method == "HEAD"@ {
            route_of(routes, "GET"@)
        } else {
            None
        },
    }
}

/// The route that serves a method.
pub fn route_index(routes: &RouteSet, method: &Method) -> (r: Option<RouteId>)
    ensures
        match r {
            Some(id) => serving_route(routes@, method@) == Some(id.0 as int) && id.0 != u32::MAX,
            None => serving_route(routes@, method@) is None,
        },
{
    match routes.route(method) {
        Some(id) => Some(id),
        None => if method.same(&Method::HEAD) {
            routes.route(&Method::GET)
        } else {
            None
        },
    }
}

/// The route that serves a method on a known path. Without one, `OPTIONS` is answered with
/// the allowed methods, and every other method is refused with them.
pub fn resolve_route_set(method: &Method, routes: &RouteSet) -> (r: Result<RouteId, RouteFailure>)
    requires
        routes.wf(),
    ensures
        match (r, serving_route(routes@, method@)) {
            (Ok(id), Some(route)) => id.0 == route && id.0 != u32::MAX,
            (Err(RouteFailure::Options(allow)), None) => method@ == "OPTIONS"@ && allow@
                == allow_header(routes@),
            (Err(RouteFailure::MethodNotAllowed(allow)), None) => method@ != "OPTIONS"@ && allow@
                == allow_header(routes@),
            _ => false,
        },
{
    match route_index(routes, method) {
        Some(id) => Ok(id),
        None => if method.same(&Method::OPTIONS) {
            Err(RouteFailure::Options(routes.allowed_methods()))
        } else {
            Err(RouteFailure::MethodNotAllowed(routes.allowed_methods()))
        },
    }
}

} // verus!
