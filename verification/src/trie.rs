//! The trie of route templates with captures.

use crate::method;
use crate::method::Method;
use crate::params;
use crate::params::{CaptureRange, CaptureSet, MAX_CAPTURE_PARAMS};
use crate::path;
use crate::path::{PathParts, Segment};
use crate::percent;
use crate::percent::valid_percent_encoding;
use crate::router;
use crate::router::RouteSet;
use vstd::hash_map::StringHashMap;
use vstd::prelude::*;
use vstd::string::*;
use vstd::utf8::*;

verus! {

/// One step of a route pattern: a fixed text, or any part.
pub enum PatternPart {
    Literal(Seq<char>),
    Capture,
}

/// The step that a template segment asks for. The name of a capture does not matter.
pub open spec fn pattern_part(segment: path::SegmentView) -> PatternPart {
    match segment {
        path::SegmentView::Static(value) => PatternPart::Literal(value),
        path::SegmentView::Capture(_) => PatternPart::Capture,
    }
}

/// The pattern of a template.
pub open spec fn pattern_of(segments: Seq<path::SegmentView>) -> Seq<PatternPart> {
    segments.map_values(|segment: path::SegmentView| pattern_part(segment))
}

/// The routes by pattern.
pub type Table = Map<Seq<PatternPart>, Map<int, int>>;

/// The routes of a pattern, none where it is not in the table.
pub open spec fn routes_at(table: Table, pattern: Seq<PatternPart>) -> Map<int, int> {
    if table.contains_key(pattern) {
        table[pattern]
    } else {
        Map::empty()
    }
}

/// Whether a part of a path can be captured: its percent encoding is valid.
pub open spec fn can_capture(part: Seq<char>) -> bool {
    percent::percent_bytes(encode_utf8(part)) is Some
}

/// The pattern that serves the parts of a path, among those that start with `prefix`. At
/// each part a fixed text comes before a capture; a capture is tried where the fixed text
/// leads nowhere, as long as fewer than the largest number of captures were made.
pub open spec fn lookup(
    table: Table,
    prefix: Seq<PatternPart>,
    parts: Seq<Seq<char>>,
    captures: nat,
) -> Option<Seq<PatternPart>>
    decreases parts.len(),
{
    if parts.len() == 0 {
        if table.contains_key(prefix) {
            Some(prefix)
        } else {
            None
        }
    } else {
        let fixed = lookup(
            table,
            prefix.push(PatternPart::Literal(parts[0])),
            parts.drop_first(),
            captures,
        );
        if fixed is Some {
            fixed
        } else if captures < MAX_CAPTURE_PARAMS && can_capture(parts[0]) {
            lookup(table, prefix.push(PatternPart::Capture), parts.drop_first(), captures + 1)
        } else {
            None
        }
    }
}

/// The positions of the parts that a pattern captures.
pub open spec fn captured(pattern: Seq<PatternPart>, ranges: Seq<(int, int)>) -> Seq<(int, int)>
    decreases pattern.len(),
{
    if pattern.len() == 0 || ranges.len() == 0 {
        Seq::empty()
    } else {
        let rest = captured(pattern.drop_first(), ranges.drop_first());
        if pattern[0] is Capture {
            seq![ranges[0]] + rest
        } else {
            rest
        }
    }
}

/// The number of captures in a pattern.
pub open spec fn capture_count(pattern: Seq<PatternPart>) -> nat
    decreases pattern.len(),
{
    if pattern.len() == 0 {
        0
    } else {
        capture_count(pattern.drop_first()) + if pattern[0] is Capture {
            1nat
        } else {
            0nat
        }
    }
}

/// The last step of a pattern counts like any other.
pub proof fn lemma_capture_count_last(pattern: Seq<PatternPart>)
    requires
        pattern.len() > 0,
    ensures
        capture_count(pattern) == capture_count(pattern.drop_last()) + if pattern.last() is Capture {
            1nat
        } else {
            0nat
        },
    decreases pattern.len(),
{
    if pattern.len() == 1 {
        assert(pattern.drop_first() =~= Seq::empty());
        assert(pattern.drop_last() =~= Seq::empty());
    } else {
        lemma_capture_count_last(pattern.drop_first());
        assert(pattern.drop_first().drop_last() =~= pattern.drop_last().drop_first());
    }
}

/// Whether a step admits a part of a path.
pub open spec fn admits(step: PatternPart, part: Seq<char>) -> bool {
    match step {
        PatternPart::Literal(value) => value == part,
        PatternPart::Capture => can_capture(part),
    }
}

/// Whether a pattern matches the parts of a path.
pub open spec fn pattern_matches(pattern: Seq<PatternPart>, parts: Seq<Seq<char>>) -> bool {
    &&& pattern.len() == parts.len()
    &&& forall|i: int| 0 <= i < parts.len() ==> admits(#[trigger] pattern[i], parts[i])
}

/// Whether two patterns agree up to a step at which the first has a fixed text and the
/// second a capture.
pub open spec fn fixed_first_at(a: Seq<PatternPart>, b: Seq<PatternPart>, step: int) -> bool {
    &&& 0 <= step < a.len()
    &&& step < b.len()
    &&& a.take(step) == b.take(step)
    &&& a[step] is Literal
    &&& b[step] is Capture
}

/// Whether the first pattern comes before the second: at the first step at which they
/// differ, it has a fixed text where the other has a capture.
pub open spec fn comes_before(a: Seq<PatternPart>, b: Seq<PatternPart>) -> bool {
    exists|step: int| fixed_first_at(a, b, step)
}

/// A pattern that is found starts with the prefix, and has a step for each part.
pub proof fn lemma_lookup_shape(
    table: Table,
    prefix: Seq<PatternPart>,
    parts: Seq<Seq<char>>,
    captures: nat,
)
    ensures
        lookup(table, prefix, parts, captures) matches Some(pattern) ==> {
            &&& table.contains_key(pattern)
            &&& pattern.len() == prefix.len() + parts.len()
            &&& pattern.take(prefix.len() as int) == prefix
        },
    decreases parts.len(),
{
    if parts.len() == 0 {
        assert(prefix.take(prefix.len() as int) =~= prefix);
    } else {
        let literal = prefix.push(PatternPart::Literal(parts[0]));
        let capture = prefix.push(PatternPart::Capture);
        lemma_lookup_shape(table, literal, parts.drop_first(), captures);
        lemma_lookup_shape(table, capture, parts.drop_first(), captures + 1);
        if let Some(pattern) = lookup(table, prefix, parts, captures) {
            assert(pattern.take(prefix.len() as int) =~= pattern.take(
                (prefix.len() + 1) as int,
            ).take(prefix.len() as int));
            assert(literal.take(prefix.len() as int) =~= prefix);
            assert(capture.take(prefix.len() as int) =~= prefix);
        }
    }
}

/// What is found behind a prefix matches the parts, with captures for which there is room.
proof fn lemma_found_matches(
    table: Table,
    prefix: Seq<PatternPart>,
    parts: Seq<Seq<char>>,
    captures: nat,
)
    requires
        captures <= MAX_CAPTURE_PARAMS,
    ensures
        lookup(table, prefix, parts, captures) matches Some(pattern) ==> {
            &&& pattern_matches(pattern.skip(prefix.len() as int), parts)
            &&& captures + capture_count(pattern.skip(prefix.len() as int)) <= MAX_CAPTURE_PARAMS
        },
    decreases parts.len(),
{
    lemma_lookup_shape(table, prefix, parts, captures);
    if let Some(pattern) = lookup(table, prefix, parts, captures) {
        let tail = pattern.skip(prefix.len() as int);
        if parts.len() > 0 {
            let next = (prefix.len() + 1) as int;
            let literal = prefix.push(PatternPart::Literal(parts[0]));
            let capture = prefix.push(PatternPart::Capture);
            lemma_lookup_shape(table, literal, parts.drop_first(), captures);
            lemma_lookup_shape(table, capture, parts.drop_first(), captures + 1);
            assert(tail.drop_first() =~= pattern.skip(next));
            assert(pattern.take(next)[prefix.len() as int] == tail[0]);
            if lookup(table, literal, parts.drop_first(), captures) is Some {
                lemma_found_matches(table, literal, parts.drop_first(), captures);
            } else {
                lemma_found_matches(table, capture, parts.drop_first(), captures + 1);
            }
            assert forall|i: int| 0 <= i < parts.len() implies admits(#[trigger] tail[i], parts[i]) by {
                if i > 0 {
                    assert(tail[i] == tail.drop_first()[i - 1]);
                    assert(parts[i] == parts.drop_first()[i - 1]);
                }
            }
        }
    }
}

/// Where a pattern in the table matches, something is found: that pattern or one that
/// comes before it.
proof fn lemma_match_found(
    table: Table,
    prefix: Seq<PatternPart>,
    parts: Seq<Seq<char>>,
    captures: nat,
    pattern: Seq<PatternPart>,
)
    requires
        table.contains_key(pattern),
        pattern.len() == prefix.len() + parts.len(),
        pattern.take(prefix.len() as int) == prefix,
        pattern_matches(pattern.skip(prefix.len() as int), parts),
        captures + capture_count(pattern.skip(prefix.len() as int)) <= MAX_CAPTURE_PARAMS,
    ensures
        lookup(table, prefix, parts, captures) matches Some(found) && (found == pattern
            || comes_before(found, pattern)),
    decreases parts.len(),
{
    let depth = prefix.len() as int;
    let tail = pattern.skip(depth);
    if parts.len() == 0 {
        assert(pattern =~= prefix);
    } else {
        let literal = prefix.push(PatternPart::Literal(parts[0]));
        let later = parts.drop_first();
        assert(tail.drop_first() =~= pattern.skip(depth + 1));
        assert(admits(tail[0], parts[0]));
        assert(pattern.take(depth + 1) =~= prefix.push(pattern[depth]));
        assert forall|i: int| 0 <= i < later.len() implies admits(
            #[trigger] pattern.skip(depth + 1)[i],
            later[i],
        ) by {
            assert(tail[i + 1] == pattern.skip(depth + 1)[i]);
        }
        lemma_lookup_shape(table, literal, later, captures);
        match pattern[depth] {
            PatternPart::Literal(value) => {
                lemma_match_found(table, literal, later, captures, pattern);
            },
            PatternPart::Capture => {
                match lookup(table, literal, later, captures) {
                    Some(found) => {
                        assert(found.take(depth) =~= found.take(depth + 1).take(depth));
                        assert(literal.take(depth) =~= prefix);
                        assert(found.take(depth + 1)[depth] == found[depth]);
                        assert(fixed_first_at(found, pattern, depth));
                    },
                    None => {
                        lemma_match_found(
                            table,
                            prefix.push(PatternPart::Capture),
                            later,
                            captures + 1,
                            pattern,
                        );
                    },
                }
            },
        }
    }
}

/// What serves a path is a pattern in the table that matches its parts, with at most as
/// many captures as a route may have.
pub proof fn law_found_pattern_matches(table: Table, parts: Seq<Seq<char>>)
    ensures
        lookup(table, Seq::empty(), parts, 0) matches Some(pattern) ==> {
            &&& table.contains_key(pattern)
            &&& pattern_matches(pattern, parts)
            &&& capture_count(pattern) <= MAX_CAPTURE_PARAMS
        },
{
    lemma_lookup_shape(table, Seq::empty(), parts, 0);
    lemma_found_matches(table, Seq::empty(), parts, 0);
    if let Some(pattern) = lookup(table, Seq::empty(), parts, 0) {
        assert(pattern.skip(0) =~= pattern);
    }
}

/// Fixed segments take precedence over captures: of the patterns that match the parts of a
/// path, the one that serves it comes before all others, and one serves it wherever one
/// matches.
pub proof fn law_fixed_segments_take_precedence(
    table: Table,
    parts: Seq<Seq<char>>,
    pattern: Seq<PatternPart>,
)
    requires
        table.contains_key(pattern),
        pattern_matches(pattern, parts),
        capture_count(pattern) <= MAX_CAPTURE_PARAMS,
    ensures
        lookup(table, Seq::empty(), parts, 0) matches Some(found) && (found == pattern
            || comes_before(found, pattern)),
{
    assert(pattern.skip(0) =~= pattern);
    assert(pattern.take(0) =~= Seq::empty());
    lemma_match_found(table, Seq::empty(), parts, 0, pattern);
}

/// The positions that a pattern captures are among those of the parts, and as many as the
/// pattern has captures.
pub proof fn lemma_captured_positions(pattern: Seq<PatternPart>, ranges: Seq<(int, int)>)
    requires
        pattern.len() == ranges.len(),
    ensures
        captured(pattern, ranges).len() == capture_count(pattern),
        forall|i: int|
            0 <= i < captured(pattern, ranges).len() ==> ranges.contains(
                #[trigger] captured(pattern, ranges)[i],
            ),
    decreases pattern.len(),
{
    if pattern.len() > 0 {
        let rest = captured(pattern.drop_first(), ranges.drop_first());
        lemma_captured_positions(pattern.drop_first(), ranges.drop_first());
        assert forall|i: int| 0 <= i < captured(pattern, ranges).len() implies ranges.contains(
            #[trigger] captured(pattern, ranges)[i],
        ) by {
            let shift: int = if pattern[0] is Capture {
                1
            } else {
                0
            };
            if i == 0 && shift == 1 {
                assert(ranges[0] == captured(pattern, ranges)[0]);
            } else {
                assert(captured(pattern, ranges)[i] == rest[i - shift]);
                assert(ranges.drop_first().contains(rest[i - shift]));
                let j = choose|j: int|
                    0 <= j < ranges.drop_first().len() && ranges.drop_first()[j] == rest[i - shift];
                assert(ranges[j + 1] == rest[i - shift]);
            }
        }
    }
}

/// The captures of a path that is served lie in it between characters, hold no slash, and
/// are no more than a route may have.
pub proof fn law_captures_lie_in_the_path(table: Table, path: Seq<char>)
    ensures
        lookup(table, Seq::empty(), path::path_texts(path), 0) matches Some(pattern) ==> {
            let bytes = encode_utf8(path);
            let ranges = captured(pattern, path::parts_from(bytes, 0));
            &&& ranges.len() == capture_count(pattern)
            &&& ranges.len() <= MAX_CAPTURE_PARAMS
            &&& params::ranges_fit(ranges, bytes)
            &&& forall|i: int, k: int|
                0 <= i < ranges.len() && (#[trigger] ranges[i]).0 <= k < ranges[i].1
                    ==> #[trigger] bytes[k] != 47
        },
{
    let parts = path::path_texts(path);
    let bytes = encode_utf8(path);
    let all = path::parts_from(bytes, 0);
    law_found_pattern_matches(table, parts);
    encode_utf8_valid_utf8(path);
    is_char_boundary_start_end_of_seq(bytes);
    path::lemma_parts_fit(path, 0);
    if let Some(pattern) = lookup(table, Seq::empty(), parts, 0) {
        let ranges = captured(pattern, all);
        lemma_captured_positions(pattern, all);
        assert forall|i: int| 0 <= i < ranges.len() implies {
            &&& params::range_fits(#[trigger] ranges[i], bytes)
            &&& forall|k: int| ranges[i].0 <= k < ranges[i].1 ==> #[trigger] bytes[k] != 47
        } by {
            let j = choose|j: int| 0 <= j < all.len() && all[j] == ranges[i];
            assert(path::part_fits(all[j], bytes));
        }
    }
}

/// The texts of the parts at the given positions.
pub open spec fn texts_of(bytes: Seq<u8>, ranges: Seq<(int, int)>) -> Seq<Seq<char>> {
    ranges.map_values(|range: (int, int)| path::part_text(bytes, range))
}

/// The captures from one step on are that of the step, if it is one, and those behind it.
proof fn lemma_captured_step(pattern: Seq<PatternPart>, depth: int, ranges: Seq<(int, int)>)
    requires
        0 <= depth < pattern.len(),
        ranges.len() > 0,
    ensures
        captured(pattern.skip(depth), ranges) == if pattern[depth] is Capture {
            seq![ranges[0]] + captured(pattern.skip(depth + 1), ranges.drop_first())
        } else {
            captured(pattern.skip(depth + 1), ranges.drop_first())
        },
{
    assert(pattern.skip(depth).drop_first() =~= pattern.skip(depth + 1));
}

/// The number of a node.
#[derive(Clone, Copy, Debug, PartialEq, Eq, Structural)]
pub struct NodeId(pub u32);

impl NodeId {
    /// The id of the node with the given number.
    pub fn new(index: usize) -> (r: Self)
        requires
            index <= u32::MAX,
        ensures
            r.0 == index,
    {
        NodeId(index as u32)
    }

    /// The number of the node.
    pub fn index(self) -> (r: usize)
        ensures
            r == self.0,
    {
        self.0 as usize
    }
}

/// A node: the ways on by fixed text and by capture, and the routes that end here.
pub struct DynamicRouteNode {
    pub static_children: StringHashMap<NodeId>,
    pub capture_child: Option<NodeId>,
    pub routes: RouteSet,
}

impl Default for DynamicRouteNode {
    /// A node with no way on and no route.
    fn default() -> (r: Self)
        ensures
            r.static_children@ == Map::<Seq<char>, NodeId>::empty(),
            r.capture_child is None,
            r.routes.wf(),
            r.routes@ == Map::<int, int>::empty(),
    {
        DynamicRouteNode {
            static_children: StringHashMap::new(),
            capture_child: None,
            routes: RouteSet::default(),
        }
    }
}

impl DynamicRouteNode {
    /// The node that a step leads to.
    pub open spec fn child(&self, part: PatternPart) -> Option<int> {
        match part {
            PatternPart::Literal(value) => if self.static_children@.contains_key(value) {
                Some(self.static_children@[value].0 as int)
            } else {
                None
            },
            PatternPart::Capture => match self.capture_child {
                Some(id) => Some(id.0 as int),
                None => None,
            },
        }
    }
}

/// Whether steps are the first of a pattern in the table. No steps at all always are.
#[verifier::opaque]
pub open spec fn starts_pattern(table: Table, steps: Seq<PatternPart>) -> bool {
    steps.len() == 0 || exists|pattern: Seq<PatternPart>| #[trigger]
        table.contains_key(pattern) && steps.is_prefix_of(pattern)
}

/// First steps stay first steps when a pattern is added, whose own first steps join them.
proof fn lemma_still_start(
    before: Table,
    after: Table,
    added: Seq<PatternPart>,
    paths: Seq<Seq<PatternPart>>,
)
    requires
        after.contains_key(added),
        forall|pattern: Seq<PatternPart>|
            before.contains_key(pattern) ==> #[trigger] after.contains_key(pattern),
        forall|j: int|
            0 <= j < paths.len() ==> starts_pattern(before, #[trigger] paths[j])
                || paths[j].is_prefix_of(added),
    ensures
        forall|j: int| 0 <= j < paths.len() ==> starts_pattern(after, #[trigger] paths[j]),
{
    reveal(starts_pattern);
    assert forall|j: int| 0 <= j < paths.len() implies starts_pattern(
        after,
        #[trigger] paths[j],
    ) by {
        if paths[j].len() > 0 && !paths[j].is_prefix_of(added) {
            let pattern = choose|pattern: Seq<PatternPart>| #[trigger]
                before.contains_key(pattern) && paths[j].is_prefix_of(pattern);
            assert(after.contains_key(pattern));
        }
    }
}

/// The first steps of the patterns in a table, any number of them.
pub open spec fn prefixes(table: Table) -> Set<Seq<PatternPart>> {
    Set::new(|steps: Seq<PatternPart>| starts_pattern(table, steps))
}

/// What was found for a path: the routes, and where the captures stand in the path.
pub struct DynamicPathMatch<'a> {
    pub routes: &'a RouteSet,
    pub captures: CaptureSet,
}

/// The trie. Node 0 is the root; `paths` holds the pattern that leads to each node.
pub struct DynamicRouteTrie {
    pub nodes: Vec<DynamicRouteNode>,
    pub paths: Ghost<Seq<Seq<PatternPart>>>,
}

/// The routes by pattern, for the patterns that have any.
impl View for DynamicRouteTrie {
    type V = Table;

    open spec fn view(&self) -> Table {
        Map::new(
            |pattern: Seq<PatternPart>|
                self.has_path(pattern) && self.nodes@[self.node_of(pattern)].routes@ != Map::<
                    int,
                    int,
                >::empty(),
            |pattern: Seq<PatternPart>| self.nodes@[self.node_of(pattern)].routes@,
        )
    }
}

impl Default for DynamicRouteTrie {
    /// A trie without routes.
    fn default() -> (r: Self)
        ensures
            r.wf(),
            r@ == Map::<Seq<PatternPart>, Map<int, int>>::empty(),
            r.nodes@.len() == 1,
    {
        let mut nodes: Vec<DynamicRouteNode> = Vec::new();
        nodes.push(DynamicRouteNode::default());
        let ghost root = seq![Seq::<PatternPart>::empty()];
        let trie = DynamicRouteTrie { nodes, paths: Ghost(root) };
        proof {
            reveal(starts_pattern);
            assert(trie.is_at(0, Seq::empty()));
            assert forall|part: PatternPart| !trie.has_path(#[trigger] trie.paths@[0].push(part)) by {
                assert(trie.paths@[0].push(part).len() == 1);
            }
            assert(trie@ =~= Map::<Seq<PatternPart>, Map<int, int>>::empty());
        }
        trie
    }
}

impl DynamicRouteTrie {
    /// Whether a node is the one that a pattern leads to.
    pub open spec fn is_at(&self, node: int, pattern: Seq<PatternPart>) -> bool {
        0 <= node < self.nodes@.len() && self.paths@[node] == pattern
    }

    /// Whether a pattern leads to a node.
    pub open spec fn has_path(&self, pattern: Seq<PatternPart>) -> bool {
        exists|node: int| self.is_at(node, pattern)
    }

    /// The node that a pattern leads to.
    pub open spec fn node_of(&self, pattern: Seq<PatternPart>) -> int {
        choose|node: int| self.is_at(node, pattern)
    }

    /// Whether the nodes form a tree: the root has the empty pattern, each other node has a
    /// parent, each pattern leads to one node, and the ways on of a node are exactly those to
    /// its children.
    pub open spec fn is_tree(&self) -> bool {
        &&& 1 <= self.nodes@.len() <= u32::MAX + 1
        &&& self.paths@.len() == self.nodes@.len()
        &&& self.paths@[0] == Seq::<PatternPart>::empty()
        &&& forall|i: int| 0 <= i < self.nodes@.len() ==> (#[trigger] self.nodes@[i]).routes.wf()
        &&& forall|i: int, j: int|
            0 <= i < self.nodes@.len() && 0 <= j < self.nodes@.len() && #[trigger] self.paths@[i]
                == #[trigger] self.paths@[j] ==> i == j
        &&& forall|j: int|
            0 <= j < self.nodes@.len() && (#[trigger] self.paths@[j]).len() > 0 ==> self.has_path(
                self.paths@[j].drop_last(),
            )
        &&& forall|i: int, part: PatternPart|
            0 <= i < self.nodes@.len() ==> {
                match #[trigger] self.nodes@[i].child(part) {
                    Some(child) => self.is_at(child, self.paths@[i].push(part)),
                    None => !self.has_path(self.paths@[i].push(part)),
                }
            }
    }

    /// Whether the nodes form a tree, and each of them is on the way to a route.
    pub open spec fn wf(&self) -> bool {
        &&& self.is_tree()
        &&& forall|j: int|
            0 <= j < self.nodes@.len() ==> starts_pattern(self@, #[trigger] self.paths@[j])
    }

    /// Whether the nodes that a pattern still lacks can be numbered: it lacks at most one for
    /// each step, and none for the steps that lead to a node.
    pub open spec fn room_for(&self, pattern: Seq<PatternPart>) -> bool {
        ||| self.nodes@.len() + pattern.len() <= u32::MAX + 1
        ||| self.room_behind(pattern)
    }

    /// Whether the nodes behind some steps of a pattern that lead to a node can be numbered.
    pub open spec fn room_behind(&self, pattern: Seq<PatternPart>) -> bool {
        exists|depth: int| #[trigger]
            self.reaches(pattern, depth) && self.nodes@.len() + pattern.len() - depth <= u32::MAX
                + 1
    }

    /// Whether the first steps of a pattern lead to a node.
    pub open spec fn reaches(&self, pattern: Seq<PatternPart>, depth: int) -> bool {
        0 <= depth <= pattern.len() && self.has_path(pattern.take(depth))
    }

    /// What leads to a node leads there alone.
    proof fn lemma_at(&self, node: int)
        requires
            self.is_tree(),
            0 <= node < self.nodes@.len(),
        ensures
            self.is_at(node, self.paths@[node]),
            self.has_path(self.paths@[node]),
            self.node_of(self.paths@[node]) == node,
    {
        assert(self.is_at(node, self.paths@[node]));
        let other = self.node_of(self.paths@[node]);
        assert(self.is_at(other, self.paths@[node]));
    }

    /// The first steps of a pattern that leads to a node lead to a node.
    proof fn lemma_prefix(&self, pattern: Seq<PatternPart>, depth: int)
        requires
            self.is_tree(),
            self.has_path(pattern),
            0 <= depth <= pattern.len(),
        ensures
            self.has_path(pattern.take(depth)),
        decreases pattern.len() - depth,
    {
        if depth == pattern.len() {
            assert(pattern.take(depth) =~= pattern);
        } else {
            let node = self.node_of(pattern);
            assert(self.is_at(node, pattern));
            assert(self.paths@[node].len() > 0);
            self.lemma_prefix(pattern.drop_last(), depth);
            assert(pattern.drop_last().take(depth) =~= pattern.take(depth));
        }
    }

    /// Nothing is found behind a prefix that leads to no node.
    proof fn lemma_nowhere(
        &self,
        prefix: Seq<PatternPart>,
        parts: Seq<Seq<char>>,
        captures: nat,
    )
        requires
            self.is_tree(),
            !self.has_path(prefix),
        ensures
            lookup(self@, prefix, parts, captures) is None,
        decreases parts.len(),
    {
        if parts.len() > 0 {
            let literal = prefix.push(PatternPart::Literal(parts[0]));
            let capture = prefix.push(PatternPart::Capture);
            assert(literal.take(prefix.len() as int) =~= prefix);
            assert(capture.take(prefix.len() as int) =~= prefix);
            if self.has_path(literal) {
                self.lemma_prefix(literal, prefix.len() as int);
            }
            if self.has_path(capture) {
                self.lemma_prefix(capture, prefix.len() as int);
            }
            self.lemma_nowhere(literal, parts.drop_first(), captures);
            self.lemma_nowhere(capture, parts.drop_first(), captures + 1);
        }
    }

    /// A new node below `parent`, reached by a step that led nowhere, changes no route.
    proof fn lemma_extended(&self, before: &Self, parent: int, part: PatternPart)
        requires
            before.is_tree(),
            before.nodes@.len() <= u32::MAX,
            0 <= parent < before.nodes@.len(),
            before.nodes@[parent].child(part) is None,
            self.nodes@.len() == before.nodes@.len() + 1,
            self.paths@ == before.paths@.push(before.paths@[parent].push(part)),
            self.nodes@.last().routes.wf(),
            self.nodes@.last().routes@ == Map::<int, int>::empty(),
            forall|other: PatternPart| self.nodes@.last().child(other) is None,
            forall|i: int|
                0 <= i < before.nodes@.len() ==> (#[trigger] self.nodes@[i]).routes
                    == before.nodes@[i].routes,
            forall|i: int, other: PatternPart|
                0 <= i < before.nodes@.len() ==> #[trigger] self.nodes@[i].child(other) == if i
                    == parent && other == part {
                    Some(before.nodes@.len() as int)
                } else {
                    before.nodes@[i].child(other)
                },
        ensures
            self.is_tree(),
            self@ == before@,
            self.is_at(before.nodes@.len() as int, before.paths@[parent].push(part)),
            forall|pattern: Seq<PatternPart>|
                before.has_path(pattern) ==> #[trigger] self.has_path(pattern),
    {
        let count = before.nodes@.len() as int;
        let fresh = before.paths@[parent].push(part);
        assert(!before.has_path(fresh));
        assert(self.is_at(count, fresh));
        assert forall|pattern: Seq<PatternPart>| before.has_path(pattern) implies {
            &&& #[trigger] self.has_path(pattern)
            &&& before.is_at(before.node_of(pattern), pattern)
            &&& self.is_at(before.node_of(pattern), pattern)
        } by {
            let node = before.node_of(pattern);
            assert(before.is_at(node, pattern));
            assert(self.is_at(node, pattern));
        }
        assert forall|pattern: Seq<PatternPart>| #[trigger] self.has_path(pattern) implies {
            before.has_path(pattern) || pattern == fresh
        } by {
            let node = self.node_of(pattern);
            assert(self.is_at(node, pattern));
            if node < count {
                assert(before.is_at(node, pattern));
            }
        }
        assert forall|i: int, j: int|
            0 <= i < self.nodes@.len() && 0 <= j < self.nodes@.len() && #[trigger] self.paths@[i]
                == #[trigger] self.paths@[j] implies i == j by {
            if i == count && j < count {
                assert(before.is_at(j, fresh));
            }
            if j == count && i < count {
                assert(before.is_at(i, fresh));
            }
        }
        assert forall|j: int|
            0 <= j < self.nodes@.len() && (#[trigger] self.paths@[j]).len() > 0 implies self.has_path(
            self.paths@[j].drop_last(),
        ) by {
            if j < count {
                assert(before.has_path(before.paths@[j].drop_last()));
            } else {
                assert(fresh.drop_last() =~= before.paths@[parent]);
                before.lemma_at(parent);
            }
        }
        assert forall|i: int, other: PatternPart| 0 <= i < self.nodes@.len() implies {
            match #[trigger] self.nodes@[i].child(other) {
                Some(child) => self.is_at(child, self.paths@[i].push(other)),
                None => !self.has_path(self.paths@[i].push(other)),
            }
        } by {
            let next = self.paths@[i].push(other);
            if i < count {
                if i == parent && other == part {
                } else {
                    match before.nodes@[i].child(other) {
                        Some(child) => {
                            assert(before.is_at(child, next));
                        },
                        None => {
                            assert(!before.has_path(next));
                            if next == fresh {
                                assert(next.drop_last() =~= before.paths@[i]);
                                assert(fresh.drop_last() =~= before.paths@[parent]);
                                assert(next.last() == fresh.last());
                            }
                        },
                    }
                }
            } else if self.has_path(next) {
                assert(next.drop_last() =~= fresh);
                assert(next.len() == fresh.len() + 1);
                before.lemma_prefix(next, fresh.len() as int);
                assert(next.take(fresh.len() as int) =~= fresh);
            }
        }
        assert(self.is_tree());
        self.lemma_at(count);
        assert forall|pattern: Seq<PatternPart>| self@.contains_key(pattern)
            == before@.contains_key(pattern) by {
            if before.has_path(pattern) {
                self.lemma_at(before.node_of(pattern));
            }
        }
        assert forall|pattern: Seq<PatternPart>| self@.contains_key(pattern) implies self@[pattern]
            == before@[pattern] by {
            self.lemma_at(before.node_of(pattern));
        }
        assert(self@ =~= before@);
    }

    /// The node that a segment leads to from `parent`, made where it is missing.
    fn step(&mut self, parent: usize, segment: &Segment) -> (r: usize)
        requires
            old(self).is_tree(),
            parent < old(self).nodes@.len(),
            old(self).nodes@[parent as int].child(pattern_part(segment@)) is None
                ==> old(self).nodes@.len() <= u32::MAX,
        ensures
            final(self).is_tree(),
            final(self)@ == old(self)@,
            final(self).is_at(
                r as int,
                old(self).paths@[parent as int].push(pattern_part(segment@)),
            ),
            forall|pattern: Seq<PatternPart>|
                old(self).has_path(pattern) ==> #[trigger] final(self).has_path(pattern),
            final(self).paths@ == if old(self).nodes@[parent as int].child(
                pattern_part(segment@),
            ) is None {
                old(self).paths@.push(
                    old(self).paths@[parent as int].push(pattern_part(segment@)),
                )
            } else {
                old(self).paths@
            },
    {
        let ghost part = pattern_part(segment@);
        let ghost known = self.nodes@[parent as int].child(part);
        let ghost before = *self;
        assert(known matches Some(child) ==> self.is_at(child, self.paths@[parent as int].push(part)));
        let count: usize = self.nodes.len();
        let ghost fresh = self.paths@.push(self.paths@[parent as int].push(part));
        match segment {
            Segment::Static(value) => {
                if let Some(id) = self.nodes[parent].static_children.get(value.as_str()) {
                    return id.index();
                }
                let id = NodeId::new(count);
                self.nodes.push(DynamicRouteNode::default());
                self.paths = Ghost(fresh);
                self.nodes[parent].static_children.insert(value.clone(), id);
                proof {
                    assert(self.nodes@[parent as int].static_children@
                        == before.nodes@[parent as int].static_children@.insert(value@, id));
                    self.lemma_extended(&before, parent as int, part);
                }
                id.index()
            },
            Segment::Capture(_) => {
                if let Some(id) = self.nodes[parent].capture_child {
                    return id.index();
                }
                let id = NodeId::new(count);
                self.nodes.push(DynamicRouteNode::default());
                self.paths = Ghost(fresh);
                self.nodes[parent].capture_child = Some(id);
                proof {
                    self.lemma_extended(&before, parent as int, part);
                }
                id.index()
            },
        }
    }

    /// A step into a missing node keeps room for the rest of the pattern.
    proof fn lemma_room(&self, pattern: Seq<PatternPart>, depth: int)
        requires
            self.is_tree(),
            self.room_behind(pattern),
            0 <= depth < pattern.len(),
            !self.has_path(pattern.take(depth + 1)),
        ensures
            self.nodes@.len() + pattern.len() - depth <= u32::MAX + 1,
    {
        let reached = choose|reached: int| #[trigger]
            self.reaches(pattern, reached) && self.nodes@.len() + pattern.len() - reached
                <= u32::MAX + 1;
        if reached > depth {
            self.lemma_prefix(pattern.take(reached), depth + 1);
            assert(pattern.take(reached).take(depth + 1) =~= pattern.take(depth + 1));
        }
    }

    /// Adds a route to a pattern, for a method that it has no route for yet.
    pub fn insert(&mut self, segments: &[Segment], method: Method, route: usize)
        requires
            old(self).wf(),
            route < u32::MAX,
            method::method_slot_of(method@) is Some,
            old(self).room_for(pattern_of(path::segment_views(segments@))),
            router::route_of(
                routes_at(old(self)@, pattern_of(path::segment_views(segments@))),
                method@,
            ) is None,
        ensures
            final(self).wf(),
            ({
                let pattern = pattern_of(path::segment_views(segments@));
                let slot = method::method_slot_of(method@)->0;
                final(self)@ == old(self)@.insert(
                    pattern,
                    routes_at(old(self)@, pattern).insert(slot, route as int),
                )
            }),
            final(self).nodes@.len() <= old(self).nodes@.len() + segments@.len(),
    {
        let ghost pattern = pattern_of(path::segment_views(segments@));
        let ghost table = self@;
        let mut node: usize = 0;
        let mut i: usize = 0;
        let ghost count = self.nodes@.len();
        proof {
            assert(self.paths@.len() == count);
            assert(pattern.take(0) =~= Seq::empty());
            assert(self.is_at(0, pattern.take(0)));
            assert(self.reaches(pattern, 0));
        }
        while i < segments.len()
            invariant
                self.is_tree(),
                self@ == table,
                i <= segments@.len(),
                pattern == pattern_of(path::segment_views(segments@)),
                self.is_at(node as int, pattern.take(i as int)),
                self.room_behind(pattern),
                self.nodes@.len() <= count + i,
                forall|j: int|
                    0 <= j < self.nodes@.len() ==> starts_pattern(table, #[trigger] self.paths@[j])
                        || self.paths@[j].is_prefix_of(pattern),
            decreases segments@.len() - i,
        {
            let ghost before = *self;
            let ghost part = pattern_part(segments@[i as int]@);
            let ghost next = pattern.take(i + 1);
            proof {
                assert(next =~= pattern.take(i as int).push(part));
                if before.nodes@[node as int].child(part) is None {
                    before.lemma_room(pattern, i as int);
                }
            }
            node = self.step(node, &segments[i]);
            proof {
                assert(self.has_path(next));
                assert(next.is_prefix_of(pattern));
                assert forall|j: int| 0 <= j < self.nodes@.len() implies starts_pattern(
                    table,
                    #[trigger] self.paths@[j],
                ) || self.paths@[j].is_prefix_of(pattern) by {
                    if j < before.nodes@.len() {
                        assert(self.paths@[j] == before.paths@[j]);
                    }
                }
                if self.nodes@.len() > before.nodes@.len() {
                    assert(self.reaches(pattern, i + 1));
                } else {
                    let reached = choose|reached: int| #[trigger]
                        before.reaches(pattern, reached) && before.nodes@.len() + pattern.len()
                            - reached <= u32::MAX + 1;
                    assert(self.reaches(pattern, reached));
                }
            }
            i += 1;
        }
        assert(pattern.take(i as int) =~= pattern);
        proof {
            self.lemma_at(node as int);
        }
        let ghost before = *self;
        assert(self.nodes@[node as int].routes@ == routes_at(table, pattern));
        self.nodes[node].routes.insert(method, route);
        proof {
            let slot = method::method_slot_of(method@)->0;
            let routes = routes_at(table, pattern).insert(slot, route as int);
            assert(self.paths@ == before.paths@);
            assert forall|other: Seq<PatternPart>| #[trigger] self.has_path(other)
                == before.has_path(other) by {
                if before.has_path(other) {
                    assert(before.is_at(before.node_of(other), other));
                    assert(self.is_at(before.node_of(other), other));
                }
                if self.has_path(other) {
                    assert(self.is_at(self.node_of(other), other));
                    assert(before.is_at(self.node_of(other), other));
                }
            }
            assert forall|i: int, part: PatternPart| 0 <= i < self.nodes@.len() implies {
                match #[trigger] self.nodes@[i].child(part) {
                    Some(child) => self.is_at(child, self.paths@[i].push(part)),
                    None => !self.has_path(self.paths@[i].push(part)),
                }
            } by {
                assert(self.nodes@[i].child(part) == before.nodes@[i].child(part));
                match before.nodes@[i].child(part) {
                    Some(child) => {
                        assert(before.is_at(child, before.paths@[i].push(part)));
                    },
                    None => {},
                }
            }
            assert forall|j: int|
                0 <= j < self.nodes@.len() && (#[trigger] self.paths@[j]).len()
                    > 0 implies self.has_path(self.paths@[j].drop_last()) by {
                assert(before.has_path(before.paths@[j].drop_last()));
            }
            assert(self.is_tree());
            self.lemma_at(node as int);
            assert(routes.contains_key(slot));
            assert forall|other: Seq<PatternPart>| #[trigger] self@.contains_key(other)
                == table.insert(pattern, routes).contains_key(other) by {
                if before.has_path(other) {
                    assert(before.is_at(before.node_of(other), other));
                    self.lemma_at(before.node_of(other));
                }
            }
            assert forall|other: Seq<PatternPart>| self@.contains_key(other) implies self@[other]
                == table.insert(pattern, routes)[other] by {
                assert(before.is_at(before.node_of(other), other));
                self.lemma_at(before.node_of(other));
            }
            assert(self@ =~= table.insert(pattern, routes));
            lemma_still_start(table, self@, pattern, self.paths@);
        }
    }

    /// Whether the nodes that a template still lacks can be numbered.
    pub fn has_room(&self, segments: &[Segment]) -> (r: bool)
        requires
            self.wf(),
        ensures
            r == self.room_for(pattern_of(path::segment_views(segments@))),
    {
        let ghost pattern = pattern_of(path::segment_views(segments@));
        let mut node: usize = 0;
        let mut i: usize = 0;
        assert(pattern.take(0) =~= Seq::empty());
        while i < segments.len()
            invariant_except_break
                self.is_at(node as int, pattern.take(i as int)),
            invariant
                self.wf(),
                i <= segments@.len(),
                pattern == pattern_of(path::segment_views(segments@)),
                self.has_path(pattern.take(i as int)),
            ensures
                i == segments@.len() || !self.has_path(pattern.take(i + 1)),
            decreases segments@.len() - i,
        {
            assert(pattern.take(i + 1) =~= pattern.take(i as int).push(
                pattern_part(segments@[i as int]@),
            ));
            match self.child_of(node, &segments[i]) {
                Some(child) => {
                    node = child;
                },
                None => {
                    break;
                },
            }
            i += 1;
        }
        let missing: usize = segments.len() - i;
        let room: usize = u32::MAX as usize - (self.nodes.len() - 1);
        proof {
            assert(self.reaches(pattern, i as int));
            if self.room_behind(pattern) && i < pattern.len() {
                self.lemma_room(pattern, i as int);
            }
        }
        missing <= room
    }

    /// Whether the pattern of a template has a route for a method.
    pub fn has_method(&self, segments: &[Segment], method: &Method) -> (r: bool)
        requires
            self.wf(),
        ensures
            r == router::route_of(
                routes_at(self@, pattern_of(path::segment_views(segments@))),
                method@,
            ) is Some,
    {
        let ghost pattern = pattern_of(path::segment_views(segments@));
        let mut node: usize = 0;
        let mut i: usize = 0;
        assert(pattern.take(0) =~= Seq::empty());
        while i < segments.len()
            invariant
                self.is_at(node as int, pattern.take(i as int)),
                self.wf(),
                i <= segments@.len(),
                pattern == pattern_of(path::segment_views(segments@)),
            decreases segments@.len() - i,
        {
            match self.child_of(node, &segments[i]) {
                Some(child) => {
                    assert(pattern.take(i + 1) =~= pattern.take(i as int).push(
                        pattern_part(segments@[i as int]@),
                    ));
                    node = child;
                },
                None => {
                    proof {
                        assert(pattern.take(i + 1) =~= pattern.take(i as int).push(
                            pattern_part(segments@[i as int]@),
                        ));
                        if self.has_path(pattern) {
                            self.lemma_prefix(pattern, i + 1);
                        }
                    }
                    return false;
                },
            }
            i += 1;
        }
        proof {
            assert(pattern.take(i as int) =~= pattern);
            self.lemma_at(node as int);
        }
        self.nodes[node].routes.route(method).is_some()
    }

    /// The node that a segment leads to.
    fn child_of(&self, node: usize, segment: &Segment) -> (r: Option<usize>)
        requires
            self.wf(),
            node < self.nodes@.len(),
        ensures
            ({
                let next = self.paths@[node as int].push(pattern_part(segment@));
                match r {
                    Some(child) => self.is_at(child as int, next),
                    None => !self.has_path(next),
                }
            }),
    {
        assert(match self.nodes@[node as int].child(pattern_part(segment@)) {
            Some(child) => self.is_at(
                child,
                self.paths@[node as int].push(pattern_part(segment@)),
            ),
            None => !self.has_path(self.paths@[node as int].push(pattern_part(segment@))),
        });
        match segment {
            Segment::Static(value) => match self.nodes[node].static_children.get(value.as_str()) {
                Some(id) => Some(id.index()),
                None => None,
            },
            Segment::Capture(_) => match self.nodes[node].capture_child {
                Some(id) => Some(id.index()),
                None => None,
            },
        }
    }

    /// The node that serves the rest of a path from `node_index` on, and the captures with
    /// those made on the way.
    pub fn find_node(
        &self,
        node_index: usize,
        parts: PathParts<'_>,
        captures: CaptureSet,
    ) -> (r: Option<(usize, CaptureSet)>)
        requires
            self.wf(),
            node_index < self.nodes@.len(),
            parts.wf(),
            parts.path.spec_bytes().len() <= u32::MAX,
            captures.wf(),
        ensures
            ({
                let prefix = self.paths@[node_index as int];
                let found = lookup(
                    self@,
                    prefix,
                    texts_of(parts.path.spec_bytes(), parts.remaining()),
                    captures.count as nat,
                );
                match r {
                    Some((node, set)) => {
                        &&& found == Some(self.paths@[node as int])
                        &&& node < self.nodes@.len()
                        &&& self.nodes@[node as int].routes@ == self@[self.paths@[node as int]]
                        &&& set.wf()
                        &&& set.ranges() == captures.ranges() + captured(
                            self.paths@[node as int].skip(prefix.len() as int),
                            parts.remaining(),
                        )
                    },
                    None => found is None,
                }
            }),
        decreases parts.remaining().len(),
    {
        let mut rest = parts;
        let node = &self.nodes[node_index];
        let ghost prefix = self.paths@[node_index as int];
        let ghost bytes = parts.path.spec_bytes();
        let ghost ranges = parts.remaining();
        let ghost texts = texts_of(bytes, ranges);
        proof {
            self.lemma_at(node_index as int);
        }
        match rest.next() {
            None => {
                proof {
                    assert(texts =~= Seq::empty());
                    assert(captures.ranges() + captured(prefix.skip(prefix.len() as int), ranges)
                        =~= captures.ranges());
                }
                if !node.routes.is_empty() {
                    Some((node_index, captures))
                } else {
                    None
                }
            },
            Some(part) => {
                let ghost later = rest.remaining();
                let ghost literal = prefix.push(PatternPart::Literal(texts[0]));
                let ghost capture = prefix.push(PatternPart::Capture);
                proof {
                    assert(texts.drop_first() =~= texts_of(bytes, later));
                    assert(texts[0] == part.value@);
                    lemma_lookup_shape(self@, literal, texts.drop_first(), captures.count as nat);
                    lemma_lookup_shape(
                        self@,
                        capture,
                        texts.drop_first(),
                        captures.count as nat + 1,
                    );
                }
                let fixed = match node.static_children.get(part.value) {
                    Some(child) => {
                        proof {
                            assert(node.child(PatternPart::Literal(texts[0])) == Some(child.0 as int));
                            assert(self.is_at(child.0 as int, literal));
                        }
                        self.find_node(child.index(), rest, captures)
                    },
                    None => {
                        proof {
                            assert(node.child(PatternPart::Literal(texts[0])) is None);
                            self.lemma_nowhere(
                                literal,
                                texts.drop_first(),
                                captures.count as nat,
                            );
                        }
                        None
                    },
                };
                if let Some((found, set)) = fixed {
                    proof {
                        let pattern = self.paths@[found as int];
                        lemma_captured_step(pattern, prefix.len() as int, ranges);
                        assert(pattern.take((prefix.len() + 1) as int)[prefix.len() as int]
                            == literal[prefix.len() as int]);
                    }
                    return Some((found, set));
                }
                if (captures.count as usize) < MAX_CAPTURE_PARAMS && valid_percent_encoding(
                    part.value,
                ) {
                    if let Some(child) = node.capture_child {
                        let range = CaptureRange { start: part.start, end: part.end };
                        let made = captures.with_capture(captures.count as usize, range);
                        proof {
                            assert(node.child(PatternPart::Capture) == Some(child.0 as int));
                            assert(self.is_at(child.0 as int, capture));
                        }
                        let found = self.find_node(child.index(), rest, made);
                        proof {
                            if let Some((found, set)) = found {
                                let pattern = self.paths@[found as int];
                                lemma_captured_step(pattern, prefix.len() as int, ranges);
                                assert(pattern.take((prefix.len() + 1) as int)[prefix.len() as int]
                                    == capture[prefix.len() as int]);
                                assert(made.ranges() == captures.ranges().push(ranges[0]));
                                assert(made.ranges() + captured(
                                    pattern.skip((prefix.len() + 1) as int),
                                    later,
                                ) =~= captures.ranges() + captured(
                                    pattern.skip(prefix.len() as int),
                                    ranges,
                                ));
                            }
                        }
                        found
                    } else {
                        proof {
                            assert(node.child(PatternPart::Capture) is None);
                            self.lemma_nowhere(
                                capture,
                                texts.drop_first(),
                                captures.count as nat + 1,
                            );
                        }
                        None
                    }
                } else {
                    None
                }
            },
        }
    }

    /// The routes that serve a path, and where its captures stand.
    pub fn find(&self, path: &str) -> (r: Option<DynamicPathMatch<'_>>)
        requires
            self.wf(),
            path.spec_bytes().len() <= u32::MAX,
        ensures
            match (r, lookup(self@, Seq::empty(), path::path_texts(path@), 0)) {
                (Some(found), Some(pattern)) => {
                    &&& found.routes.wf()
                    &&& found.routes@ == self@[pattern]
                    &&& found.captures.wf()
                    &&& found.captures.ranges() == captured(
                        pattern,
                        path::parts_from(path.spec_bytes(), 0),
                    )
                },
                (None, None) => true,
                _ => false,
            },
    {
        let captures = CaptureSet::default();
        let ghost ranges = path::parts_from(path.spec_bytes(), 0);
        proof {
            assert(texts_of(path.spec_bytes(), ranges) =~= path::path_texts(path@));
        }
        match self.find_node(0, PathParts::new(path), captures) {
            Some((node, set)) => {
                proof {
                    let pattern = self.paths@[node as int];
                    assert(pattern.skip(0) =~= pattern);
                    assert(captures.ranges() + captured(pattern, ranges) =~= captured(
                        pattern,
                        ranges,
                    ));
                }
                Some(DynamicPathMatch { routes: &self.nodes[node].routes, captures: set })
            },
            None => None,
        }
    }

    /// There is a node for each sequence of first steps of the patterns in the table, and no
    /// other: patterns with the same first steps share their nodes.
    pub proof fn law_nodes_are_shared(&self)
        requires
            self.wf(),
        ensures
            self.nodes@.len() == prefixes(self@).len(),
            prefixes(self@).finite(),
    {
        reveal(starts_pattern);
        let paths = self.paths@;
        assert forall|steps: Seq<PatternPart>| #[trigger] prefixes(self@).contains(steps)
            == paths.to_set().contains(steps) by {
            if prefixes(self@).contains(steps) {
                if steps.len() == 0 {
                    assert(steps =~= paths[0]);
                    assert(paths.contains(steps));
                } else {
                    let pattern = choose|pattern: Seq<PatternPart>| #[trigger]
                        self@.contains_key(pattern) && steps.is_prefix_of(pattern);
                    self.lemma_prefix(pattern, steps.len() as int);
                    assert(pattern.take(steps.len() as int) =~= steps);
                    let node = self.node_of(steps);
                    assert(self.is_at(node, steps));
                    assert(paths.contains(steps));
                }
            }
        }
        assert(prefixes(self@) =~= paths.to_set());
        paths.unique_seq_to_set();
    }

    /// The number of nodes.
    pub fn node_count(&self) -> (r: usize)
        ensures
            r == self.nodes@.len(),
            self.wf() ==> r == prefixes(self@).len(),
    {
        proof {
            if self.wf() {
                self.law_nodes_are_shared();
            }
        }
        self.nodes.len()
    }
}

} // verus!
