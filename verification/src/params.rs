//! Path captures: where they stand in a path, and their decoded values by name.

use crate::error;
use crate::error::ApiError;
use crate::percent;
use crate::percent::percent_decode;
use crate::shared::share;
use crate::text;
use std::sync::Arc;
use vstd::prelude::*;
use vstd::string::*;
use vstd::utf8::*;

verus! {

/// The largest number of captures in a route.
pub const MAX_CAPTURE_PARAMS: usize = 8;

/// The byte positions of a capture in its path.
#[derive(Clone, Copy, Debug)]
pub struct CaptureRange {
    pub start: usize,
    pub end: usize,
}

/// The captures of a matched path, two positions packed into each word.
#[derive(Clone, Copy, Debug)]
pub struct CaptureSet {
    pub packed: [u64; MAX_CAPTURE_PARAMS],
    pub count: u8,
}

/// The two positions in a packed word.
pub open spec fn unpacked(word: u64) -> (int, int) {
    (word as int / 0x1_0000_0000, word as int % 0x1_0000_0000)
}

/// The positions packed into the first `count` words.
pub open spec fn unpacked_ranges(packed: Seq<u64>, count: nat) -> Seq<(int, int)> {
    Seq::new(count, |i: int| unpacked(packed[i]))
}

/// Reads the positions out of a packed word.
fn unpack(word: u64) -> (r: CaptureRange)
    ensures
        (r.start as int, r.end as int) == unpacked(word),
{
    assert(word >> 32 == word / 0x1_0000_0000) by (bit_vector);
    assert(word & 0xffff_ffff == word % 0x1_0000_0000) by (bit_vector);
    let start: u32 = (word >> 32) as u32;
    let end: u32 = (word & 0xffff_ffff) as u32;
    CaptureRange { start: start as usize, end: end as usize }
}

/// Packs two positions into a word.
fn pack(range: CaptureRange) -> (r: u64)
    requires
        range.start <= u32::MAX,
        range.end <= u32::MAX,
    ensures
        unpacked(r) == (range.start as int, range.end as int),
{
    let start: u64 = range.start as u64;
    let end: u64 = range.end as u64;
    let word: u64 = (start << 32) | end;
    assert(word == start * 0x1_0000_0000 + end) by (bit_vector)
        requires
            start <= 0xffff_ffff,
            end <= 0xffff_ffff,
            word == (start << 32) | end,
    ;
    word
}

impl CaptureSet {
    /// Whether the count lies within the storage.
    pub open spec fn wf(&self) -> bool {
        self.count <= MAX_CAPTURE_PARAMS
    }

    /// The positions of the captures, in order.
    pub open spec fn ranges(&self) -> Seq<(int, int)> {
        unpacked_ranges(self.packed@, self.count as nat)
    }

    /// The positions of one capture.
    pub fn range(&self, index: usize) -> (r: Option<CaptureRange>)
        requires
            self.wf(),
        ensures
            match r {
                Some(range) => index < self.count && (range.start as int, range.end as int)
                    == self.ranges()[index as int],
                None => index >= self.count,
            },
    {
        if index < self.count as usize {
            Some(unpack(self.packed[index]))
        } else {
            None
        }
    }

    /// The captures with `range` at `index`, and none behind it.
    pub fn with_capture(self, index: usize, range: CaptureRange) -> (r: Self)
        requires
            index < MAX_CAPTURE_PARAMS,
            range.start <= u32::MAX,
            range.end <= u32::MAX,
        ensures
            r.wf(),
            r.count == index + 1,
            r.ranges() == unpacked_ranges(self.packed@, index as nat).push(
                (range.start as int, range.end as int),
            ),
    {
        let mut set = self;
        let word = pack(range);
        set.packed[index] = word;
        set.count = (index + 1) as u8;
        proof {
            assert(set.packed@ =~= self.packed@.update(index as int, word));
            assert(set.ranges() =~= unpacked_ranges(self.packed@, index as nat).push(
                (range.start as int, range.end as int),
            ));
        }
        set
    }
}

impl Default for CaptureSet {
    /// No captures.
    fn default() -> (r: Self)
        ensures
            r.wf(),
            r.count == 0,
            r.ranges() == Seq::<(int, int)>::empty(),
    {
        let set = CaptureSet { packed: [0;MAX_CAPTURE_PARAMS], count: 0 };
        assert(set.ranges() =~= Seq::<(int, int)>::empty());
        set
    }
}

/// Decoded capture values and the names they go by.
#[derive(Debug)]
pub struct MaterializedParams {
    pub names: Arc<Vec<String>>,
    pub values: Vec<String>,
}

/// The texts of a list of strings.
pub open spec fn string_views(strings: Seq<String>) -> Seq<Seq<char>> {
    strings.map_values(|s: String| s@)
}

/// A path capture collection. Typed extractors use positions in the request path, while
/// the explicit `Params` extractor opts into owned decoded values.
#[derive(Debug)]
pub struct Params {
    pub packed: [u64; MAX_CAPTURE_PARAMS],
    pub count: u8,
    pub owned: Option<Arc<MaterializedParams>>,
}

/// The names and the values that a parameter lookup goes by.
pub struct NamedValues {
    pub names: Seq<Seq<char>>,
    pub values: Seq<Seq<char>>,
}

impl NamedValues {
    /// Whether the entry at `i` is the first with the given name.
    pub open spec fn first_at(self, name: Seq<char>, i: int) -> bool {
        &&& 0 <= i < self.names.len()
        &&& i < self.values.len()
        &&& self.names[i] == name
        &&& forall|j: int| 0 <= j < i ==> self.names[j] != name
    }

    /// The value of the first entry with the given name.
    pub open spec fn lookup(self, name: Seq<char>) -> Option<Seq<char>> {
        if exists|i: int| self.first_at(name, i) {
            Some(self.values[choose|i: int| self.first_at(name, i)])
        } else {
            None
        }
    }
}

/// Whether every captured range lies in the path, between characters.
pub open spec fn ranges_fit(ranges: Seq<(int, int)>, bytes: Seq<u8>) -> bool {
    forall|i: int| 0 <= i < ranges.len() ==> range_fits(#[trigger] ranges[i], bytes)
}

/// Whether a range lies in the path, between characters.
pub open spec fn range_fits(range: (int, int), bytes: Seq<u8>) -> bool {
    &&& 0 <= range.0 <= range.1 <= bytes.len()
    &&& is_char_boundary(bytes, range.0)
    &&& is_char_boundary(bytes, range.1)
}

/// Ranges that fit a text fit every text that starts with it.
pub proof fn lemma_ranges_fit_longer(ranges: Seq<(int, int)>, start: Seq<char>, whole: Seq<char>)
    requires
        ranges_fit(ranges, encode_utf8(start)),
        start.len() <= whole.len(),
        whole == start + whole.skip(start.len() as int),
    ensures
        ranges_fit(ranges, encode_utf8(whole)),
        forall|i: int|
            0 <= i < ranges.len() ==> encode_utf8(whole).subrange(
                (#[trigger] ranges[i]).0,
                ranges[i].1,
            ) == encode_utf8(start).subrange(ranges[i].0, ranges[i].1),
{
    let rest = whole.skip(start.len() as int);
    let short = encode_utf8(start);
    let long = encode_utf8(whole);
    text::lemma_encode_concat(start, rest);
    encode_utf8_valid_utf8(start);
    encode_utf8_valid_utf8(rest);
    encode_utf8_valid_utf8(whole);
    assert forall|i: int| 0 <= i < ranges.len() implies range_fits(#[trigger] ranges[i], long)
        && long.subrange(ranges[i].0, ranges[i].1) == short.subrange(ranges[i].0, ranges[i].1) by {
        assert(range_fits(ranges[i], short));
        lemma_boundary_longer(start, rest, ranges[i].0);
        lemma_boundary_longer(start, rest, ranges[i].1);
        assert(long.subrange(ranges[i].0, ranges[i].1) =~= short.subrange(
            ranges[i].0,
            ranges[i].1,
        ));
    }
}

/// A position between two characters stays one when text follows.
proof fn lemma_boundary_longer(start: Seq<char>, rest: Seq<char>, index: int)
    requires
        0 <= index <= encode_utf8(start).len(),
        is_char_boundary(encode_utf8(start), index),
    ensures
        is_char_boundary(encode_utf8(start + rest), index),
{
    let short = encode_utf8(start);
    let long = encode_utf8(start + rest);
    text::lemma_encode_concat(start, rest);
    encode_utf8_valid_utf8(start);
    encode_utf8_valid_utf8(rest);
    encode_utf8_valid_utf8(start + rest);
    is_char_boundary_start_end_of_seq(long);
    if index < short.len() {
        is_char_boundary_iff_not_is_continuation_byte(short, index);
        assert(long[index] == short[index]);
        is_char_boundary_iff_not_is_continuation_byte(long, index);
    } else if index < long.len() {
        let tail = encode_utf8(rest);
        is_char_boundary_start_end_of_seq(tail);
        is_char_boundary_iff_not_is_continuation_byte(tail, 0);
        assert(long[index] == tail[0]);
        is_char_boundary_iff_not_is_continuation_byte(long, index);
    }
}

/// The decoded texts of the first `n` ranges, or the problem of the first that has none.
pub open spec fn decoded_values(bytes: Seq<u8>, ranges: Seq<(int, int)>, n: nat) -> Result<
    Seq<Seq<char>>,
    error::Problem,
>
    decreases n,
{
    if n == 0 {
        Ok(Seq::empty())
    } else {
        match decoded_values(bytes, ranges, (n - 1) as nat) {
            Err(problem) => Err(problem),
            Ok(values) => match percent::percent_text(
                bytes.subrange(ranges[n - 1].0, ranges[n - 1].1),
            ) {
                Ok(value) => Ok(values.push(value)),
                Err(problem) => Err(problem),
            },
        }
    }
}

impl Params {
    /// Whether the count lies within the storage.
    pub open spec fn wf(&self) -> bool {
        self.count <= MAX_CAPTURE_PARAMS
    }

    /// The positions of the captures, in order.
    pub open spec fn ranges(&self) -> Seq<(int, int)> {
        unpacked_ranges(self.packed@, self.count as nat)
    }

    /// The decoded values and their names, when they were asked for.
    pub open spec fn named(&self) -> Option<NamedValues> {
        match self.owned {
            Some(owned) => Some(
                NamedValues {
                    names: string_views(owned.names@),
                    values: string_views(owned.values@),
                },
            ),
            None => None,
        }
    }

    /// The parameters of a route without captures.
    pub fn empty() -> (r: &'static Self)
        ensures
            r.wf(),
            r.ranges() == Seq::<(int, int)>::empty(),
            r.named() is None,
    {
        let params: &'static Params = &Params {
            packed: [0;MAX_CAPTURE_PARAMS],
            count: 0,
            owned: None,
        };
        assert(params.ranges() =~= Seq::<(int, int)>::empty());
        params
    }

    /// The decoded value of the first capture with the given name.
    pub fn get(&self, name: &str) -> (r: Option<&str>)
        ensures
            match (self.named(), r) {
                (Some(named), Some(value)) => named.lookup(name@) == Some(value@),
                (Some(named), None) => named.lookup(name@) is None,
                (None, r) => r is None,
            },
    {
        match &self.owned {
            None => None,
            Some(owned) => {
                let ghost named = self.named()->0;
                let names = &owned.names;
                let mut i: usize = 0;
                while i < names.len() && i < owned.values.len()
                    invariant
                        i <= owned.names@.len(),
                        i <= owned.values@.len(),
                        named == (NamedValues {
                            names: string_views(owned.names@),
                            values: string_views(owned.values@),
                        }),
                        self.named() == Some(named),
                        names@ == owned.names@,
                        forall|j: int| 0 <= j < i ==> named.names[j] != name@,
                    decreases names@.len() - i,
                {
                    assert(named.names[i as int] == names@[i as int]@);
                    if text::str_equal(names[i].as_str(), name) {
                        proof {
                            assert(named.first_at(name@, i as int));
                            let k = choose|k: int| named.first_at(name@, k);
                            assert(k == i);
                            assert(named.values[i as int] == owned.values@[i as int]@);
                        }
                        return Some(owned.values[i].as_str());
                    }
                    i += 1;
                }
                None
            },
        }
    }

    /// The positions of one capture.
    pub fn range(&self, index: usize) -> (r: Option<CaptureRange>)
        requires
            self.wf(),
        ensures
            match r {
                Some(range) => index < self.count && (range.start as int, range.end as int)
                    == self.ranges()[index as int],
                None => index >= self.count,
            },
    {
        if index < self.count as usize {
            Some(unpack(self.packed[index]))
        } else {
            None
        }
    }

    /// The text of the first capture as it stands in the path.
    pub fn first_raw<'a>(&self, path: &'a str) -> (r: Option<&'a str>)
        requires
            self.wf(),
            self.count > 0 ==> range_fits(self.ranges()[0], path.spec_bytes()),
        ensures
            match r {
                Some(raw) => self.count > 0 && raw.spec_bytes() == path.spec_bytes().subrange(
                    self.ranges()[0].0,
                    self.ranges()[0].1,
                ),
                None => self.count == 0,
            },
    {
        match self.range(0) {
            Some(range) => {
                assert(range_fits(self.ranges()[0], path.spec_bytes()));
                Some(text::slice_str(path, range.start, range.end))
            },
            None => None,
        }
    }

    /// Decodes every capture, in order.
    fn materialized_names(names: Arc<Vec<String>>, captures: &CaptureSet, path: &str) -> (r: Result<
        Arc<MaterializedParams>,
        ApiError,
    >)
        requires
            captures.wf(),
            ranges_fit(captures.ranges(), path.spec_bytes()),
        ensures
            match r {
                Ok(owned) => owned.names == names && decoded_values(
                    path.spec_bytes(),
                    captures.ranges(),
                    captures.count as nat,
                ) == Ok::<_, error::Problem>(string_views(owned.values@)),
                Err(problem) => decoded_values(
                    path.spec_bytes(),
                    captures.ranges(),
                    captures.count as nat,
                ) == Err::<Seq<Seq<char>>, _>(problem@),
            },
    {
        let ghost bytes = path.spec_bytes();
        let ghost ranges = captures.ranges();
        let mut values: Vec<String> = Vec::with_capacity(captures.count as usize);
        let mut index: usize = 0;
        assert(string_views(values@) =~= Seq::<Seq<char>>::empty());
        while index < captures.count as usize
            invariant
                captures.wf(),
                index <= captures.count,
                bytes == path.spec_bytes(),
                ranges == captures.ranges(),
                ranges_fit(ranges, bytes),
                decoded_values(bytes, ranges, index as nat) == Ok::<_, error::Problem>(
                    string_views(values@),
                ),
            decreases captures.count - index,
        {
            match captures.range(index) {
                Some(range) => {
                    assert(range_fits(ranges[index as int], bytes));
                    let raw = text::slice_str(path, range.start, range.end);
                    match percent_decode(raw) {
                        Ok(value) => {
                            let ghost before = string_views(values@);
                            values.push(value);
                            assert(string_views(values@) =~= before.push(value@));
                        },
                        Err(problem) => {
                            proof {
                                lemma_decoded_error(
                                    bytes,
                                    ranges,
                                    (index + 1) as nat,
                                    captures.count as nat,
                                );
                            }
                            return Err(problem);
                        },
                    }
                },
                None => {},
            }
            index += 1;
        }
        Ok(Arc::new(MaterializedParams { names, values }))
    }

    /// The parameters of a match with positions alone, or with decoded values as well.
    pub fn from_match(names: &[String], captures: CaptureSet, path: &str, materialize: bool) -> (r:
        Self)
        requires
            captures.wf(),
            ranges_fit(captures.ranges(), path.spec_bytes()),
            materialize ==> decoded_values(
                path.spec_bytes(),
                captures.ranges(),
                captures.count as nat,
            ) is Ok,
        ensures
            r.wf(),
            r.ranges() == captures.ranges(),
            !materialize ==> r.named() is None,
            materialize ==> r.named() == Some(
                NamedValues {
                    names: string_views(names@),
                    values: decoded_values(
                        path.spec_bytes(),
                        captures.ranges(),
                        captures.count as nat,
                    )->Ok_0,
                },
            ),
    {
        let owned = if materialize {
            match Self::materialized_names(Arc::new(copy_strings(names)), &captures, path) {
                Ok(owned) => Some(owned),
                Err(_) => None,
            }
        } else {
            None
        };
        Params { packed: captures.packed, count: captures.count, owned }
    }

    /// The parameters of a match with decoded values, or the problem of the first capture
    /// that does not decode.
    pub fn from_materialized_names(
        names: Arc<Vec<String>>,
        captures: CaptureSet,
        path: &str,
    ) -> (r: Result<Self, ApiError>)
        requires
            captures.wf(),
            ranges_fit(captures.ranges(), path.spec_bytes()),
        ensures
            match (
                r,
                decoded_values(path.spec_bytes(), captures.ranges(), captures.count as nat),
            ) {
                (Ok(params), Ok(values)) => {
                    &&& params.wf()
                    &&& params.ranges() == captures.ranges()
                    &&& params.named() == Some(
                        NamedValues { names: string_views(names@), values },
                    )
                },
                (Err(error), Err(problem)) => error@ == problem,
                _ => false,
            },
    {
        match Self::materialized_names(names, &captures, path) {
            Ok(owned) => Ok(
                Params { packed: captures.packed, count: captures.count, owned: Some(owned) },
            ),
            Err(problem) => Err(problem),
        }
    }
}

impl Clone for Params {
    fn clone(&self) -> (r: Self)
        ensures
            r == *self,
    {
        let owned = match &self.owned {
            Some(owned) => Some(share(owned)),
            None => None,
        };
        Params { packed: self.packed, count: self.count, owned }
    }
}

impl Default for Params {
    fn default() -> (r: Self)
        ensures
            r.wf(),
            r.ranges() == Seq::<(int, int)>::empty(),
            r.named() is None,
    {
        let params = Params { packed: [0;MAX_CAPTURE_PARAMS], count: 0, owned: None };
        assert(params.ranges() =~= Seq::<(int, int)>::empty());
        params
    }
}

/// Once a range does not decode, no longer run of ranges does.
proof fn lemma_decoded_error(bytes: Seq<u8>, ranges: Seq<(int, int)>, m: nat, n: nat)
    requires
        m <= n,
        decoded_values(bytes, ranges, m) is Err,
    ensures
        decoded_values(bytes, ranges, n) == decoded_values(bytes, ranges, m),
    decreases n,
{
    if m < n {
        lemma_decoded_error(bytes, ranges, m, (n - 1) as nat);
    }
}

/// Copies a list of strings.
pub fn copy_strings(strings: &[String]) -> (r: Vec<String>)
    ensures
        string_views(r@) == string_views(strings@),
{
    let mut copy: Vec<String> = Vec::with_capacity(strings.len());
    let mut i: usize = 0;
    while i < strings.len()
        invariant
            i <= strings@.len(),
            copy@.len() == i,
            forall|j: int| 0 <= j < i ==> (#[trigger] copy@[j])@ == strings@[j]@,
        decreases strings@.len() - i,
    {
        copy.push(strings[i].clone());
        i += 1;
    }
    assert(string_views(copy@) =~= string_views(strings@));
    copy
}

} // verus!
