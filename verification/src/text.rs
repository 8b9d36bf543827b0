//! String operations on UTF-8 text, related to both its characters and its bytes.

use vstd::prelude::*;
use vstd::string::*;
use vstd::utf8::*;

verus! {

/// Encoding distributes over concatenation.
pub proof fn lemma_encode_concat(a: Seq<char>, b: Seq<char>)
    ensures
        encode_utf8(a + b) == encode_utf8(a) + encode_utf8(b),
    decreases a.len(),
{
    if a.len() == 0 {
        assert(a + b =~= b);
        assert(encode_utf8(a) + encode_utf8(b) =~= encode_utf8(b));
    } else {
        lemma_encode_concat(a.drop_first(), b);
        assert((a + b).drop_first() =~= a.drop_first() + b);
        assert(encode_utf8(a + b) =~= encode_utf8(a) + encode_utf8(b));
    }
}

/// Two texts are equal exactly when their encodings are.
pub proof fn lemma_encode_injective(a: Seq<char>, b: Seq<char>)
    ensures
        encode_utf8(a) == encode_utf8(b) ==> a == b,
{
    encode_utf8_decode_utf8(a);
    encode_utf8_decode_utf8(b);
}

/// An ASCII character is encoded as the one byte of its code.
pub proof fn lemma_encode_ascii_char(c: char)
    requires
        (c as u32) < 0x80,
    ensures
        encode_utf8(seq![c]) == seq![c as u8],
{
    let s = seq![c];
    assert(is_ascii_chars(s));
    is_ascii_chars_encode_utf8(s);
    assert(s[0] == c);
    assert(encode_utf8(s) =~= seq![c as u8]);
}

/// The bytes of a text are at least as many as its characters.
pub proof fn lemma_encode_len(s: Seq<char>)
    ensures
        encode_utf8(s).len() >= s.len(),
        s.len() == 0 <==> encode_utf8(s).len() == 0,
    decreases s.len(),
{
    if s.len() > 0 {
        lemma_encode_len(s.drop_first());
    }
}

/// An ASCII byte inside valid UTF-8 is a whole character: the text splits there.
pub proof fn lemma_ascii_split(bytes: Seq<u8>, i: int)
    requires
        valid_utf8(bytes),
        0 <= i < bytes.len(),
        bytes[i] < 0x80,
    ensures
        is_char_boundary(bytes, i),
        is_char_boundary(bytes, i + 1),
        valid_utf8(bytes.subrange(0, i)),
        valid_utf8(bytes.subrange(i + 1, bytes.len() as int)),
        decode_utf8(bytes) == decode_utf8(bytes.subrange(0, i)) + seq![bytes[i] as char]
            + decode_utf8(bytes.subrange(i + 1, bytes.len() as int)),
{
    is_char_boundary_iff_not_is_continuation_byte(bytes, i);
    valid_utf8_split(bytes, i);
    decode_utf8_split(bytes, i);
    let tail = bytes.subrange(i, bytes.len() as int);
    assert(tail[0] == bytes[i]);
    assert(is_leading_byte_width_1(tail[0]));
    let rest = pop_first_scalar(tail);
    assert(rest =~= bytes.subrange(i + 1, bytes.len() as int));
    assert(codepoint_width_1(tail[0]) == tail[0] as u32) by {
        let b = tail[0];
        assert(b < 0x80 ==> (b & 0x7F) as u32 == b as u32) by (bit_vector);
    }
    assert(decode_utf8(tail) =~= seq![bytes[i] as char] + decode_utf8(rest));
    if i + 1 < bytes.len() {
        assert(valid_utf8(rest));
        assert(valid_first_scalar(rest));
        assert(rest[0] == bytes[i + 1]);
        assert(!is_continuation_byte(bytes[i + 1]));
        is_char_boundary_iff_not_is_continuation_byte(bytes, i + 1);
    } else {
        is_char_boundary_start_end_of_seq(bytes);
    }
    assert(decode_utf8(bytes) =~= decode_utf8(bytes.subrange(0, i)) + seq![bytes[i] as char]
        + decode_utf8(bytes.subrange(i + 1, bytes.len() as int)));
}

/// An ASCII character occurs in a text exactly when its byte occurs in the encoding.
pub proof fn lemma_ascii_contains(s: Seq<char>, c: char)
    requires
        (c as u32) < 0x80,
    ensures
        s.contains(c) <==> encode_utf8(s).contains(c as u8),
{
    let bytes = encode_utf8(s);
    encode_utf8_valid_utf8(s);
    encode_utf8_decode_utf8(s);
    if s.contains(c) {
        let k = choose|k: int| 0 <= k < s.len() && s[k] == c;
        let head = s.subrange(0, k);
        let tail = s.subrange(k + 1, s.len() as int);
        assert(s =~= head + seq![c] + tail);
        lemma_encode_concat(head + seq![c], tail);
        lemma_encode_concat(head, seq![c]);
        lemma_encode_ascii_char(c);
        assert(bytes[encode_utf8(head).len() as int] == c as u8);
    }
    if bytes.contains(c as u8) {
        let i = choose|i: int| 0 <= i < bytes.len() && bytes[i] == c as u8;
        lemma_ascii_split(bytes, i);
        let head = decode_utf8(bytes.subrange(0, i));
        assert(s[head.len() as int] == bytes[i] as char);
        assert(bytes[i] as char == c);
    }
}

/// A text starts with an ASCII character exactly when its encoding starts with the byte.
pub proof fn lemma_first_ascii(s: Seq<char>, c: char)
    requires
        (c as u32) < 0x80,
    ensures
        (s.len() > 0 && s[0] == c) <==> (encode_utf8(s).len() > 0 && encode_utf8(s)[0] == c as u8),
        s.len() > 0 && s[0] == c ==> encode_utf8(s) == seq![c as u8] + encode_utf8(s.drop_first()),
{
    let bytes = encode_utf8(s);
    encode_utf8_valid_utf8(s);
    encode_utf8_decode_utf8(s);
    if s.len() > 0 && s[0] == c {
        assert(s =~= seq![c] + s.drop_first());
        lemma_encode_concat(seq![c], s.drop_first());
        lemma_encode_ascii_char(c);
    }
    if bytes.len() > 0 && bytes[0] == c as u8 {
        lemma_ascii_split(bytes, 0);
        assert(bytes.subrange(0, 0) =~= Seq::<u8>::empty());
        assert(s[0] == bytes[0] as char);
    }
}

/// A text ends with an ASCII character exactly when its encoding ends with the byte.
pub proof fn lemma_last_ascii(s: Seq<char>, c: char)
    requires
        (c as u32) < 0x80,
    ensures
        (s.len() > 0 && s.last() == c) <==> (encode_utf8(s).len() > 0 && encode_utf8(s).last()
            == c as u8),
        s.len() > 0 && s.last() == c ==> encode_utf8(s) == encode_utf8(s.drop_last()).push(c as u8),
{
    let bytes = encode_utf8(s);
    encode_utf8_valid_utf8(s);
    encode_utf8_decode_utf8(s);
    if s.len() > 0 && s.last() == c {
        assert(s =~= s.drop_last() + seq![c]);
        lemma_encode_concat(s.drop_last(), seq![c]);
        lemma_encode_ascii_char(c);
        assert(encode_utf8(s) =~= encode_utf8(s.drop_last()).push(c as u8));
    }
    if bytes.len() > 0 && bytes.last() == c as u8 {
        let i = bytes.len() - 1;
        lemma_ascii_split(bytes, i);
        let rest = bytes.subrange(i + 1, bytes.len() as int);
        assert(rest =~= Seq::<u8>::empty());
        assert(decode_utf8(rest) =~= Seq::<char>::empty());
        assert(s.last() == bytes[i] as char);
    }
}

/// `String::from_utf8`: the text that the bytes encode, or nothing when they are not valid UTF-8.
#[verifier::external_body]
pub(crate) fn string_from_utf8(bytes: Vec<u8>) -> (r: Option<String>)
    ensures
        r is Some <==> valid_utf8(bytes@),
        r matches Some(text) ==> text@ == decode_utf8(bytes@),
{
    String::from_utf8(bytes).ok()
}

/// Whether two byte strings are equal.
pub fn bytes_equal(a: &[u8], b: &[u8]) -> (r: bool)
    ensures
        r == (a@ == b@),
{
    if a.len() != b.len() {
        return false;
    }
    let mut i: usize = 0;
    while i < a.len()
        invariant
            i <= a@.len(),
            a@.len() == b@.len(),
            forall|j: int| 0 <= j < i ==> a@[j] == b@[j],
        decreases a@.len() - i,
    {
        if a[i] != b[i] {
            return false;
        }
        i += 1;
    }
    assert(a@ =~= b@);
    true
}

/// Whether two texts are equal.
pub fn str_equal(a: &str, b: &str) -> (r: bool)
    ensures
        r == (a@ == b@),
{
    proof {
        lemma_encode_injective(a@, b@);
    }
    bytes_equal(a.as_bytes(), b.as_bytes())
}

/// The part of a text between two byte positions.
pub fn slice_str<'a>(s: &'a str, start: usize, end: usize) -> (r: &'a str)
    requires
        start <= end <= s.spec_bytes().len(),
        is_char_boundary(s.spec_bytes(), start as int),
        is_char_boundary(s.spec_bytes(), end as int),
    ensures
        r.spec_bytes() == s.spec_bytes().subrange(start as int, end as int),
        r@ == decode_utf8(s.spec_bytes().subrange(start as int, end as int)),
{
    let (head, _) = s.split_at(end);
    proof {
        let bytes = s.spec_bytes();
        encode_utf8_valid_utf8(s@);
        encode_utf8_valid_utf8(head@);
        if start < end {
            is_char_boundary_iff_not_is_continuation_byte(bytes, start as int);
            assert(head.spec_bytes()[start as int] == bytes[start as int]);
            is_char_boundary_iff_not_is_continuation_byte(head.spec_bytes(), start as int);
        } else {
            is_char_boundary_start_end_of_seq(head.spec_bytes());
        }
    }
    let (_, part) = head.split_at(start);
    proof {
        assert(part.spec_bytes() =~= s.spec_bytes().subrange(start as int, end as int));
        encode_utf8_decode_utf8(part@);
    }
    part
}

/// The first position at or after `from` that holds `byte`.
pub fn find_byte(bytes: &[u8], from: usize, byte: u8) -> (r: Option<usize>)
    requires
        from <= bytes@.len(),
    ensures
        match r {
            Some(i) => from <= i < bytes@.len() && bytes@[i as int] == byte && (forall|j: int|
                from <= j < i ==> bytes@[j] != byte),
            None => forall|j: int| from <= j < bytes@.len() ==> bytes@[j] != byte,
        },
{
    let mut i: usize = from;
    while i < bytes.len()
        invariant
            from <= i <= bytes@.len(),
            forall|j: int| from <= j < i ==> bytes@[j] != byte,
        decreases bytes@.len() - i,
    {
        if bytes[i] == byte {
            return Some(i);
        }
        i += 1;
    }
    None
}

/// The text before and the text after the first occurrence of an ASCII separator.
pub fn split_once<'a>(s: &'a str, separator: u8) -> (r: Option<(&'a str, &'a str)>)
    requires
        separator < 0x80,
    ensures
        match r {
            Some((head, tail)) => s@ == head@ + seq![separator as char] + tail@ && !head@.contains(
                separator as char,
            ),
            None => !s@.contains(separator as char),
        },
{
    let bytes = s.as_bytes();
    let length: usize = bytes.len();
    match find_byte(bytes, 0, separator) {
        Some(i) => {
            proof {
                encode_utf8_valid_utf8(s@);
                encode_utf8_decode_utf8(s@);
                lemma_ascii_split(bytes@, i as int);
                is_char_boundary_start_end_of_seq(bytes@);
            }
            let head = slice_str(s, 0, i);
            let tail = slice_str(s, i + 1, length);
            proof {
                lemma_ascii_contains(head@, separator as char);
            }
            Some((head, tail))
        },
        None => {
            proof {
                lemma_ascii_contains(s@, separator as char);
            }
            None
        },
    }
}

/// The position of the first `c` in a text, or its end.
pub open spec fn position(s: Seq<char>, c: char) -> int
    decreases s.len(),
{
    if s.len() == 0 || s[0] == c {
        0
    } else {
        1 + position(s.drop_first(), c)
    }
}

/// A position lies in the text or at its end.
pub proof fn lemma_position_range(s: Seq<char>, c: char)
    ensures
        0 <= position(s, c) <= s.len(),
    decreases s.len(),
{
    if s.len() > 0 {
        lemma_position_range(s.drop_first(), c);
    }
}

/// The position of a character splits a text into what is before it and what is after.
pub proof fn lemma_position(s: Seq<char>, c: char, head: Seq<char>, tail: Seq<char>)
    requires
        s == head + seq![c] + tail,
        !head.contains(c),
    ensures
        position(s, c) == head.len(),
        s.take(head.len() as int) == head,
        s.skip((head.len() + 1) as int) == tail,
    decreases head.len(),
{
    if head.len() > 0 {
        assert(s[0] == head[0]);
        assert(head.contains(head[0]));
        let rest = head.drop_first();
        assert forall|x: char| rest.contains(x) implies head.contains(x) by {
            let i = choose|i: int| 0 <= i < rest.len() && rest[i] == x;
            assert(head[i + 1] == x);
        }
        assert(s.drop_first() =~= rest + seq![c] + tail);
        lemma_position(s.drop_first(), c, rest, tail);
    } else {
        assert(s[0] == c);
    }
    assert(s.take(head.len() as int) =~= head);
    assert(s.skip((head.len() + 1) as int) =~= tail);
}

/// A character that does not occur has its position at the end.
pub proof fn lemma_no_position(s: Seq<char>, c: char)
    requires
        !s.contains(c),
    ensures
        position(s, c) == s.len(),
    decreases s.len(),
{
    if s.len() > 0 {
        assert(s.contains(s[0]));
        let rest = s.drop_first();
        assert forall|x: char| rest.contains(x) implies s.contains(x) by {
            let i = choose|i: int| 0 <= i < rest.len() && rest[i] == x;
            assert(s[i + 1] == x);
        }
        lemma_no_position(rest, c);
    }
}

/// What follows a prefix that ends in an ASCII character, if the text starts with it.
pub fn strip_prefix<'a>(s: &'a str, prefix: &str) -> (r: Option<&'a str>)
    requires
        prefix@.len() > 0,
        is_ascii_chars(prefix@),
    ensures
        match r {
            Some(rest) => s@ == prefix@ + rest@,
            None => forall|rest: Seq<char>| s@ != prefix@ + rest,
        },
{
    let bytes = s.as_bytes();
    let start = prefix.as_bytes();
    let length: usize = bytes.len();
    let count: usize = start.len();
    proof {
        is_ascii_chars_encode_utf8(prefix@);
        assert forall|rest: Seq<char>| s@ == prefix@ + rest implies {
            &&& count <= length
            &&& bytes@.subrange(0, count as int) == start@
        } by {
            lemma_encode_concat(prefix@, rest);
            assert(bytes@.subrange(0, count as int) =~= start@);
        }
    }
    if count > length {
        return None;
    }
    let mut i: usize = 0;
    while i < count
        invariant
            i <= count,
            count <= length,
            length == bytes@.len(),
            count == start@.len(),
            forall|j: int| 0 <= j < i ==> bytes@[j] == start@[j],
            forall|rest: Seq<char>|
                s@ == prefix@ + rest ==> bytes@.subrange(0, count as int) == start@,
        decreases count - i,
    {
        if bytes[i] != start[i] {
            proof {
                assert forall|rest: Seq<char>| s@ != prefix@ + rest by {
                    if s@ == prefix@ + rest {
                        assert(bytes@.subrange(0, count as int)[i as int] == start@[i as int]);
                    }
                }
            }
            return None;
        }
        i += 1;
    }
    proof {
        encode_utf8_valid_utf8(s@);
        encode_utf8_decode_utf8(s@);
        encode_utf8_decode_utf8(prefix@);
        assert(start@[count - 1] == prefix@[count - 1] as u8);
        lemma_ascii_split(bytes@, count - 1);
        is_char_boundary_start_end_of_seq(bytes@);
        assert(bytes@.subrange(0, count as int) =~= start@);
        valid_utf8_split(bytes@, count as int);
        decode_utf8_split(bytes@, count as int);
    }
    Some(slice_str(s, count, length))
}

} // verus!
