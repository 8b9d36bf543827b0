//! Paths: their parts, their normal form, and route templates.

use crate::text;
use vstd::prelude::*;
use vstd::string::*;
use vstd::utf8::*;

verus! {

/// The first position at or after `pos` that does not hold a slash.
pub open spec fn slashes_end(bytes: Seq<u8>, pos: int) -> int
    decreases bytes.len() - pos,
{
    if 0 <= pos < bytes.len() && bytes[pos] == 47 {
        slashes_end(bytes, pos + 1)
    } else {
        pos
    }
}

/// The first position at or after `pos` that holds a slash, or the end.
pub open spec fn part_end(bytes: Seq<u8>, pos: int) -> int
    decreases bytes.len() - pos,
{
    if 0 <= pos < bytes.len() && bytes[pos] != 47 {
        part_end(bytes, pos + 1)
    } else {
        pos
    }
}

/// Slashes end before the first byte that is none.
pub proof fn lemma_slashes_end(bytes: Seq<u8>, pos: int)
    requires
        0 <= pos <= bytes.len(),
    ensures
        pos <= slashes_end(bytes, pos) <= bytes.len(),
        forall|i: int| pos <= i < slashes_end(bytes, pos) ==> bytes[i] == 47,
        slashes_end(bytes, pos) < bytes.len() ==> bytes[slashes_end(bytes, pos)] != 47,
    decreases bytes.len() - pos,
{
    if pos < bytes.len() && bytes[pos] == 47 {
        lemma_slashes_end(bytes, pos + 1);
    }
}

/// A part ends before the first slash.
pub proof fn lemma_part_end(bytes: Seq<u8>, pos: int)
    requires
        0 <= pos <= bytes.len(),
    ensures
        pos <= part_end(bytes, pos) <= bytes.len(),
        forall|i: int| pos <= i < part_end(bytes, pos) ==> bytes[i] != 47,
        part_end(bytes, pos) < bytes.len() ==> bytes[part_end(bytes, pos)] == 47,
        pos < bytes.len() && bytes[pos] != 47 ==> pos < part_end(bytes, pos),
    decreases bytes.len() - pos,
{
    if pos < bytes.len() && bytes[pos] != 47 {
        lemma_part_end(bytes, pos + 1);
    }
}

/// Where the nonempty parts between slashes stand, from `pos` on: the start of each and
/// the position behind it.
pub open spec fn parts_from(bytes: Seq<u8>, pos: int) -> Seq<(int, int)>
    decreases bytes.len() - pos,
    when 0 <= pos <= bytes.len()
    via parts_from_decreases
{
    let start = slashes_end(bytes, pos);
    if start >= bytes.len() {
        Seq::empty()
    } else {
        let end = part_end(bytes, start);
        seq![(start, end)] + parts_from(bytes, end)
    }
}

#[via_fn]
proof fn parts_from_decreases(bytes: Seq<u8>, pos: int) {
    lemma_slashes_end(bytes, pos);
    let start = slashes_end(bytes, pos);
    if start < bytes.len() {
        lemma_part_end(bytes, start);
    }
}

/// The text of a part.
pub open spec fn part_text(bytes: Seq<u8>, part: (int, int)) -> Seq<char> {
    decode_utf8(bytes.subrange(part.0, part.1))
}

/// The texts of the parts of a path.
pub open spec fn path_texts(path: Seq<char>) -> Seq<Seq<char>> {
    let bytes = encode_utf8(path);
    parts_from(bytes, 0).map_values(|part: (int, int)| part_text(bytes, part))
}

/// One part of a path: its text, and where it stands in the path.
#[derive(Clone, Copy)]
pub struct PathPart<'a> {
    pub value: &'a str,
    pub start: usize,
    pub end: usize,
}

/// The parts of a path, one after the other.
#[derive(Clone, Copy)]
pub struct PathParts<'a> {
    pub path: &'a str,
    pub next: usize,
}

/// What a part says of the path that it belongs to.
pub open spec fn part_of(part: PathPart<'_>, bytes: Seq<u8>) -> bool {
    &&& part.start < part.end <= bytes.len()
    &&& part.value@ == part_text(bytes, (part.start as int, part.end as int))
    &&& part.value.spec_bytes() == bytes.subrange(part.start as int, part.end as int)
}

impl<'a> PathParts<'a> {
    /// The parts that are still to come.
    pub open spec fn remaining(&self) -> Seq<(int, int)> {
        parts_from(self.path.spec_bytes(), self.next as int)
    }

    /// Whether the position lies in the path, between two characters.
    pub open spec fn wf(&self) -> bool {
        &&& self.next <= self.path.spec_bytes().len()
        &&& is_char_boundary(self.path.spec_bytes(), self.next as int)
    }

    /// The parts of a path from its start.
    pub fn new(path: &'a str) -> (r: Self)
        ensures
            r.wf(),
            r.path == path,
            r.next == 0,
            r.remaining() == parts_from(path.spec_bytes(), 0),
    {
        proof {
            encode_utf8_valid_utf8(path@);
            is_char_boundary_start_end_of_seq(path.spec_bytes());
        }
        PathParts { path, next: 0 }
    }

    /// The next part, if there is one.
    pub fn next(&mut self) -> (r: Option<PathPart<'a>>)
        requires
            old(self).wf(),
        ensures
            final(self).wf(),
            final(self).path == old(self).path,
            final(self).next >= old(self).next,
            match r {
                Some(part) => {
                    &&& part_of(part, old(self).path.spec_bytes())
                    &&& old(self).remaining() == seq![(part.start as int, part.end as int)]
                        + final(self).remaining()
                    &&& old(self).remaining().len() == final(self).remaining().len() + 1
                    &&& old(self).remaining()[0] == (part.start as int, part.end as int)
                    &&& old(self).remaining().drop_first() == final(self).remaining()
                    &&& final(self).next > old(self).next
                },
                None => old(self).remaining().len() == 0,
            },
    {
        let path = self.path;
        let bytes = path.as_bytes();
        let length: usize = bytes.len();
        let first: usize = self.next;
        let mut start: usize = first;
        while start < length && bytes[start] == 47
            invariant
                first <= start <= length,
                length == bytes@.len(),
                slashes_end(bytes@, first as int) == slashes_end(bytes@, start as int),
            decreases length - start,
        {
            start += 1;
        }
        proof {
            lemma_part_boundaries(path@, first as int);
        }
        self.next = start;
        if start >= length {
            return None;
        }
        let mut end: usize = start;
        while end < length && bytes[end] != 47
            invariant
                start <= end <= length,
                length == bytes@.len(),
                part_end(bytes@, start as int) == part_end(bytes@, end as int),
            decreases length - end,
        {
            end += 1;
        }
        proof {
            lemma_slashes_end(bytes@, first as int);
            lemma_part_end(bytes@, start as int);
            assert(old(self).remaining() =~= seq![(start as int, end as int)] + parts_from(
                bytes@,
                end as int,
            ));
            assert(old(self).remaining().drop_first() =~= parts_from(bytes@, end as int));
        }
        self.next = end;
        Some(PathPart { value: text::slice_str(path, start, end), start, end })
    }
}

/// A part starts and ends between characters.
proof fn lemma_part_boundaries(path: Seq<char>, pos: int)
    requires
        0 <= pos <= encode_utf8(path).len(),
        is_char_boundary(encode_utf8(path), pos),
    ensures
        ({
            let bytes = encode_utf8(path);
            let start = slashes_end(bytes, pos);
            &&& is_char_boundary(bytes, start)
            &&& start < bytes.len() ==> is_char_boundary(bytes, part_end(bytes, start))
        }),
{
    let bytes = encode_utf8(path);
    let start = slashes_end(bytes, pos);
    encode_utf8_valid_utf8(path);
    is_char_boundary_start_end_of_seq(bytes);
    lemma_slashes_end(bytes, pos);
    if start > pos {
        text::lemma_ascii_split(bytes, start - 1);
    }
    if start < bytes.len() {
        lemma_part_end(bytes, start);
        let end = part_end(bytes, start);
        if end < bytes.len() {
            text::lemma_ascii_split(bytes, end);
        }
    }
}

/// Whether a part stands in the path between characters, is not empty and holds no slash.
pub open spec fn part_fits(part: (int, int), bytes: Seq<u8>) -> bool {
    &&& 0 <= part.0 < part.1 <= bytes.len()
    &&& is_char_boundary(bytes, part.0)
    &&& is_char_boundary(bytes, part.1)
    &&& forall|k: int| part.0 <= k < part.1 ==> #[trigger] bytes[k] != 47
}

/// Every part of a path fits in it.
pub proof fn lemma_parts_fit(path: Seq<char>, pos: int)
    requires
        0 <= pos <= encode_utf8(path).len(),
        is_char_boundary(encode_utf8(path), pos),
    ensures
        forall|i: int|
            0 <= i < parts_from(encode_utf8(path), pos).len() ==> part_fits(
                #[trigger] parts_from(encode_utf8(path), pos)[i],
                encode_utf8(path),
            ),
    decreases encode_utf8(path).len() - pos,
{
    let bytes = encode_utf8(path);
    let start = slashes_end(bytes, pos);
    lemma_slashes_end(bytes, pos);
    lemma_part_boundaries(path, pos);
    if start < bytes.len() {
        let end = part_end(bytes, start);
        lemma_part_end(bytes, start);
        lemma_parts_fit(path, end);
        assert forall|i: int| 0 <= i < parts_from(bytes, pos).len() implies part_fits(
            #[trigger] parts_from(bytes, pos)[i],
            bytes,
        ) by {
            if i == 0 {
                assert(parts_from(bytes, pos)[0] == (start, end));
            } else {
                assert(parts_from(bytes, pos)[i] == parts_from(bytes, end)[i - 1]);
            }
        }
    }
}

/// A path has no more parts than bytes.
pub proof fn lemma_parts_count(bytes: Seq<u8>, pos: int)
    requires
        0 <= pos <= bytes.len(),
    ensures
        parts_from(bytes, pos).len() <= bytes.len() - pos,
    decreases bytes.len() - pos,
{
    let start = slashes_end(bytes, pos);
    lemma_slashes_end(bytes, pos);
    if start < bytes.len() {
        lemma_part_end(bytes, start);
        lemma_parts_count(bytes, part_end(bytes, start));
    }
}

/// The texts of the nonempty parts between the slashes of a path.
pub fn split_path(path: &str) -> (r: Vec<&str>)
    ensures
        r@.map_values(|part: &str| part@) == path_texts(path@),
{
    let ghost bytes = path.spec_bytes();
    let ghost all = parts_from(bytes, 0);
    let mut result: Vec<&str> = Vec::new();
    let mut parts = PathParts::new(path);
    assert(all.skip(0) =~= all);
    loop
        invariant_except_break
            parts.remaining() == all.skip(result@.len() as int),
        invariant
            parts.wf(),
            parts.path == path,
            bytes == path.spec_bytes(),
            all == parts_from(bytes, 0),
            result@.len() <= all.len(),
            forall|i: int| 0 <= i < result@.len() ==> (#[trigger] result@[i])@ == part_text(bytes, all[i]),
        ensures
            result@.len() == all.len(),
        decreases parts.path.spec_bytes().len() - parts.next,
    {
        let ghost before = parts.remaining();
        match parts.next() {
            None => {
                break;
            },
            Some(part) => {
                assert(before[0] == all[result@.len() as int]);
                assert(before.drop_first() =~= all.skip((result@.len() + 1) as int));
                result.push(part.value);
            },
        }
    }
    assert(result@.map_values(|part: &str| part@) =~= path_texts(path@));
    result
}

/// A text without its trailing slashes.
pub open spec fn trim_slashes(s: Seq<char>) -> Seq<char>
    decreases s.len(),
{
    if s.len() > 0 && s.last() == '/' {
        trim_slashes(s.drop_last())
    } else {
        s
    }
}

/// The normal form of a route path: `/` for the empty path, and no trailing slashes on a
/// path of more than one character.
pub open spec fn normal_path(s: Seq<char>) -> Seq<char> {
    if s.len() == 0 {
        seq!['/']
    } else {
        normal_request_path(s)
    }
}

/// The normal form of a request path: no trailing slashes on a path of more than one
/// character.
pub open spec fn normal_request_path(s: Seq<char>) -> Seq<char> {
    if s.len() > 1 {
        trim_slashes(s)
    } else {
        s
    }
}

/// Trimming keeps a text up to its last character that is no slash.
pub proof fn lemma_trimmed_prefix(s: Seq<char>)
    ensures
        trim_slashes(s).len() <= s.len(),
        trim_slashes(s) == s.take(trim_slashes(s).len() as int),
        trim_slashes(s).len() > 0 ==> trim_slashes(s).last() != '/',
        forall|i: int| trim_slashes(s).len() <= i < s.len() ==> s[i] == '/',
    decreases s.len(),
{
    if s.len() > 0 && s.last() == '/' {
        lemma_trimmed_prefix(s.drop_last());
        assert(s.drop_last().take(trim_slashes(s).len() as int) =~= s.take(
            trim_slashes(s).len() as int,
        ));
        assert forall|i: int| trim_slashes(s).len() <= i < s.len() implies s[i] == '/' by {
            if i < s.len() - 1 {
                assert(s.drop_last()[i] == s[i]);
            }
        }
    } else {
        assert(s.take(s.len() as int) =~= s);
    }
}

/// The normal form of a request path is the start of the path, in characters and in bytes.
pub proof fn lemma_normal_prefix(s: Seq<char>)
    ensures
        ({
            let normal = normal_request_path(s);
            &&& normal.len() <= s.len()
            &&& s == normal + s.skip(normal.len() as int)
            &&& encode_utf8(s) == encode_utf8(normal) + encode_utf8(s.skip(normal.len() as int))
        }),
{
    let normal = normal_request_path(s);
    lemma_trimmed_prefix(s);
    assert(s.take(s.len() as int) =~= s);
    assert(s =~= normal + s.skip(normal.len() as int));
    text::lemma_encode_concat(normal, s.skip(normal.len() as int));
}

/// Cuts the trailing slashes off a text.
fn trim_end_slashes(s: &str) -> (r: &str)
    ensures
        r@ == trim_slashes(s@),
{
    let bytes = s.as_bytes();
    let mut end: usize = bytes.len();
    proof {
        encode_utf8_valid_utf8(s@);
        encode_utf8_decode_utf8(s@);
        is_char_boundary_start_end_of_seq(bytes@);
        assert(bytes@.subrange(0, end as int) =~= bytes@);
    }
    while end > 0 && bytes[end - 1] == 47
        invariant
            end <= bytes@.len(),
            bytes@ == s.spec_bytes(),
            valid_utf8(bytes@),
            is_char_boundary(bytes@, end as int),
            valid_utf8(bytes@.subrange(0, end as int)),
            trim_slashes(s@) == trim_slashes(decode_utf8(bytes@.subrange(0, end as int))),
        decreases end,
    {
        proof {
            let head = bytes@.subrange(0, end as int);
            let chars = decode_utf8(head);
            decode_utf8_encode_utf8(head);
            text::lemma_last_ascii(chars, '/');
            text::lemma_ascii_split(bytes@, end - 1);
            let shorter = bytes@.subrange(0, end - 1);
            assert(head.drop_last() =~= shorter);
            assert(encode_utf8(chars.drop_last()) =~= shorter);
            encode_utf8_decode_utf8(chars.drop_last());
        }
        end -= 1;
    }
    proof {
        let head = bytes@.subrange(0, end as int);
        decode_utf8_encode_utf8(head);
        text::lemma_last_ascii(decode_utf8(head), '/');
        is_char_boundary_start_end_of_seq(bytes@);
    }
    text::slice_str(s, 0, end)
}

/// The normal form of a route path.
pub fn normalize_path(path: &str) -> (r: String)
    ensures
        r@ == normal_path(path@),
{
    if path.is_empty() {
        proof {
            reveal_strlit("/");
            assert("/"@ =~= seq!['/']);
        }
        "/".to_owned()
    } else {
        normalize_request_path(path).to_owned()
    }
}

/// The normal form of a request path.
pub fn normalize_request_path(path: &str) -> (r: &str)
    ensures
        r@ == normal_request_path(path@),
{
    proof {
        text::lemma_encode_len(path@);
        if path@.len() == 1 && path@[0] == '/' {
            assert(path@ =~= seq!['/']);
            text::lemma_encode_ascii_char('/');
        }
    }
    if path.as_bytes().len() > 1 {
        trim_end_slashes(path)
    } else {
        path
    }
}

/// One segment of a route template.
pub enum Segment {
    Static(String),
    Capture(String),
}

/// What a [`Segment`] says.
pub enum SegmentView {
    Static(Seq<char>),
    Capture(Seq<char>),
}

impl View for Segment {
    type V = SegmentView;

    open spec fn view(&self) -> SegmentView {
        match self {
            Segment::Static(value) => SegmentView::Static(value@),
            Segment::Capture(name) => SegmentView::Capture(name@),
        }
    }
}

/// The segments of a template, seen through their views.
pub open spec fn segment_views(segments: Seq<Segment>) -> Seq<SegmentView> {
    segments.map_values(|segment: Segment| segment@)
}

/// Whether a template part is written as a capture, between braces.
pub open spec fn is_capture_text(part: Seq<char>) -> bool {
    part.len() > 0 && part[0] == '{' && part.last() == '}'
}

/// Whether a template part is well formed: a capture with a name, or text without braces.
pub open spec fn valid_part(part: Seq<char>) -> bool {
    if is_capture_text(part) {
        part.len() > 2
    } else {
        !part.contains('{') && !part.contains('}')
    }
}

/// Whether every part of a template is well formed.
pub open spec fn valid_template(path: Seq<char>) -> bool {
    forall|i: int| 0 <= i < path_texts(path).len() ==> valid_part(#[trigger] path_texts(path)[i])
}

/// The segment that a template part stands for.
pub open spec fn part_segment(part: Seq<char>) -> SegmentView {
    if is_capture_text(part) {
        SegmentView::Capture(part.subrange(1, part.len() - 1))
    } else {
        SegmentView::Static(part)
    }
}

/// The segments of a template.
pub open spec fn template_segments(path: Seq<char>) -> Seq<SegmentView> {
    path_texts(path).map_values(|part: Seq<char>| part_segment(part))
}

/// Whether a template part is well formed.
fn check_part(part: &str) -> (r: bool)
    ensures
        r == valid_part(part@),
{
    let bytes = part.as_bytes();
    let length: usize = bytes.len();
    proof {
        text::lemma_first_ascii(part@, '{');
        text::lemma_last_ascii(part@, '}');
        text::lemma_ascii_contains(part@, '{');
        text::lemma_ascii_contains(part@, '}');
        text::lemma_encode_len(part@);
        lemma_capture_bytes(part@);
    }
    if length > 0 && bytes[0] == 123 && bytes[length - 1] == 125 {
        length > 2
    } else {
        let open = text::find_byte(bytes, 0, 123).is_some();
        let close = text::find_byte(bytes, 0, 125).is_some();
        !open && !close
    }
}

/// A capture part has more than two bytes exactly when it has more than two characters, and
/// its name stands between the first and the last byte.
proof fn lemma_capture_bytes(part: Seq<char>)
    ensures
        is_capture_text(part) ==> {
            &&& part.len() >= 2
            &&& (part.len() > 2 <==> encode_utf8(part).len() > 2)
            &&& encode_utf8(part) == seq![123u8] + encode_utf8(part.subrange(1, part.len() - 1))
                + seq![125u8]
        },
{
    if is_capture_text(part) {
        assert('{' != '}');
        assert(part.len() >= 2);
        let name = part.subrange(1, part.len() - 1);
        assert(part =~= seq!['{'] + name + seq!['}']);
        text::lemma_encode_concat(seq!['{'] + name, seq!['}']);
        text::lemma_encode_concat(seq!['{'], name);
        text::lemma_encode_ascii_char('{');
        text::lemma_encode_ascii_char('}');
        text::lemma_encode_len(name);
    }
}

/// The segment of a well-formed template part.
fn parse_part(part: &str) -> (r: Segment)
    requires
        valid_part(part@),
    ensures
        r@ == part_segment(part@),
{
    let bytes = part.as_bytes();
    let length: usize = bytes.len();
    proof {
        text::lemma_first_ascii(part@, '{');
        text::lemma_last_ascii(part@, '}');
        lemma_capture_bytes(part@);
        encode_utf8_valid_utf8(part@);
    }
    if length > 0 && bytes[0] == 123 && bytes[length - 1] == 125 {
        let ghost name = part@.subrange(1, part@.len() - 1);
        proof {
            text::lemma_ascii_split(bytes@, 0);
            text::lemma_ascii_split(bytes@, length - 1);
            assert(bytes@.subrange(1, length - 1) =~= encode_utf8(name));
            encode_utf8_decode_utf8(name);
        }
        Segment::Capture(text::slice_str(part, 1, length - 1).to_owned())
    } else {
        Segment::Static(part.to_owned())
    }
}

/// Whether a path can be registered as a route template.
pub fn check_template(path: &str) -> (r: bool)
    ensures
        r == valid_template(path@),
{
    let parts = split_path(path);
    let ghost texts = path_texts(path@);
    assert(parts@.map_values(|part: &str| part@) == texts);
    let mut i: usize = 0;
    while i < parts.len()
        invariant
            i <= parts@.len(),
            texts == path_texts(path@),
            parts@.map_values(|part: &str| part@) == texts,
            forall|j: int| 0 <= j < i ==> valid_part(#[trigger] texts[j]),
        decreases parts@.len() - i,
    {
        assert(texts[i as int] == parts@[i as int]@);
        if !check_part(parts[i]) {
            return false;
        }
        i += 1;
    }
    assert(parts@.len() == texts.len());
    true
}

/// The segments of a route template.
pub fn parse_template(path: &str) -> (r: Vec<Segment>)
    requires
        valid_template(path@),
    ensures
        segment_views(r@) == template_segments(path@),
{
    let parts = split_path(path);
    let ghost texts = path_texts(path@);
    let mut segments: Vec<Segment> = Vec::new();
    let mut i: usize = 0;
    while i < parts.len()
        invariant
            i <= parts@.len(),
            texts == path_texts(path@),
            parts@.map_values(|part: &str| part@) == texts,
            forall|j: int| 0 <= j < texts.len() ==> valid_part(#[trigger] texts[j]),
            segments@.len() == i,
            forall|j: int| 0 <= j < i ==> (#[trigger] segments@[j])@ == part_segment(texts[j]),
        decreases parts@.len() - i,
    {
        assert(texts[i as int] == parts@[i as int]@);
        segments.push(parse_part(parts[i]));
        i += 1;
    }
    assert(parts@.len() == texts.len());
    assert(segment_views(segments@) =~= template_segments(path@));
    segments
}

} // verus!
