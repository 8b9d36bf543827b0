//! Header fields of the `http` crate, and what they hold.

use http::{HeaderMap, HeaderName, HeaderValue};
use vstd::prelude::*;
use vstd::string::*;
use vstd::utf8::*;

verus! {

/// `http::HeaderMap`, seen through [`header_fields`].
#[verifier::external_type_specification]
#[verifier::external_body]
#[verifier::reject_recursive_types(T)]
pub struct ExHeaderMap<T>(http::HeaderMap<T>);

/// `http::HeaderName`, seen through [`header_name_text`].
#[verifier::external_type_specification]
#[verifier::external_body]
pub struct ExHeaderName(http::HeaderName);

/// `http::HeaderValue`, seen through [`header_value_bytes`].
#[verifier::external_type_specification]
#[verifier::external_body]
pub struct ExHeaderValue(http::HeaderValue);

/// What a header map holds: the values of each name, in their order.
pub uninterp spec fn header_fields(map: http::HeaderMap<http::HeaderValue>) -> Map<
    Seq<char>,
    Seq<Seq<u8>>,
>;

/// The fields of an empty header map.
pub open spec fn no_header_fields() -> Map<Seq<char>, Seq<Seq<u8>>> {
    Map::empty()
}

/// The text of a header name.
pub uninterp spec fn header_name_text(name: http::HeaderName) -> Seq<char>;

/// The bytes of a header value.
pub uninterp spec fn header_value_bytes(value: http::HeaderValue) -> Seq<u8>;

/// The number of names up to which a header map takes another name, whatever state its table is
/// in. A table of 2^15 slots is the largest, and one that saw many collisions is doubled while
/// it is a fifth full or more.
pub const MAX_HEADER_NAMES: usize = 6553;

/// The number of names with which a header map is full: three quarters of the largest table.
pub const FULL_HEADER_NAMES: usize = 24576;

/// Whether a header map takes another name, whatever state its table is in.
pub open spec fn takes_header(map: HeaderMap<HeaderValue>) -> bool {
    header_fields(map).dom().finite() && header_fields(map).dom().len() <= MAX_HEADER_NAMES
}

/// Whether a header map is full.
pub open spec fn is_full(map: HeaderMap<HeaderValue>) -> bool {
    header_fields(map).dom().finite() && header_fields(map).dom().len() >= FULL_HEADER_NAMES
}

/// Whether a byte may stand in a header name, which has no upper-case letters.
pub open spec fn is_name_byte(b: u8) -> bool {
    ||| 97 <= b <= 122
    ||| 48 <= b <= 57
    ||| 33 <= b <= 39
    ||| b == 42 || b == 43 || b == 45 || b == 46
    ||| 94 <= b <= 96
    ||| b == 124 || b == 126
}

/// Whether a text is a header name.
pub open spec fn is_header_name(name: Seq<char>) -> bool {
    let bytes = encode_utf8(name);
    &&& 1 <= bytes.len() <= 65535
    &&& forall|i: int| 0 <= i < bytes.len() ==> is_name_byte(#[trigger] bytes[i])
}

/// Whether a byte is a visible ASCII character, a space or a tab.
pub open spec fn is_visible_byte(b: u8) -> bool {
    32 <= b < 127 || b == 9
}

/// Whether every byte is a visible ASCII character, a space or a tab.
pub open spec fn all_visible(bytes: Seq<u8>) -> bool {
    forall|i: int| 0 <= i < bytes.len() ==> is_visible_byte(#[trigger] bytes[i])
}

/// Whether a byte may stand in a header value.
pub open spec fn is_value_byte(b: u8) -> bool {
    32 <= b && b != 127 || b == 9
}

/// Whether every byte may stand in a header value.
pub open spec fn all_value_bytes(bytes: Seq<u8>) -> bool {
    forall|i: int| 0 <= i < bytes.len() ==> is_value_byte(#[trigger] bytes[i])
}

/// `http::HeaderName::from_static`: the name with the given text.
#[verifier::external_body]
pub(crate) fn header_name(name: &'static str) -> (r: HeaderName)
    requires
        is_header_name(name@),
    ensures
        header_name_text(r) == name@,
{
    HeaderName::from_static(name)
}

/// `http::HeaderValue::from_static`: the value with the given text.
#[verifier::external_body]
pub(crate) fn static_header_value(value: &'static str) -> (r: HeaderValue)
    requires
        all_visible(encode_utf8(value@)),
    ensures
        header_value_bytes(r) == encode_utf8(value@),
{
    HeaderValue::from_static(value)
}

/// `http::HeaderValue::from_str`, which accepts every text without control characters other
/// than the tab: the value with the given text.
#[verifier::external_body]
pub(crate) fn header_value(value: &str) -> (r: HeaderValue)
    requires
        all_value_bytes(encode_utf8(value@)),
    ensures
        header_value_bytes(r) == encode_utf8(value@),
{
    HeaderValue::from_str(value).expect("the text is a valid header value")
}

/// `http::HeaderValue::clone`: a value of the same bytes.
#[verifier::external_body]
pub(crate) fn clone_header_value(value: &HeaderValue) -> (r: HeaderValue)
    ensures
        header_value_bytes(r) == header_value_bytes(*value),
{
    value.clone()
}

/// `http::HeaderValue::to_str`: the text of a value whose bytes are all visible ASCII
/// characters, and of no other.
#[verifier::external_body]
pub(crate) fn header_value_str(value: &HeaderValue) -> (r: Option<&str>)
    ensures
        match r {
            Some(text) => all_visible(header_value_bytes(*value)) && encode_utf8(text@)
                == header_value_bytes(*value),
            None => !all_visible(header_value_bytes(*value)),
        },
{
    value.to_str().ok()
}

/// `http::HeaderMap::new`: a map without fields.
#[verifier::external_body]
pub(crate) fn new_headers() -> (r: HeaderMap<HeaderValue>)
    ensures
        header_fields(r) == no_header_fields(),
{
    HeaderMap::new()
}

/// `http::HeaderMap::insert`: makes the value the only one of its name.
#[verifier::external_body]
pub(crate) fn insert_header(map: &mut HeaderMap<HeaderValue>, name: HeaderName, value: HeaderValue)
    requires
        takes_header(*old(map)),
    ensures
        header_fields(*final(map)) == header_fields(*old(map)).insert(
            header_name_text(name),
            seq![header_value_bytes(value)],
        ),
{
    map.insert(name, value);
}

/// `http::HeaderMap::try_insert`: makes the value the only one of its name, or leaves the fields
/// as they are where the table would have to grow over its largest size. A map with up to
/// [`MAX_HEADER_NAMES`] names takes the field, and one with [`FULL_HEADER_NAMES`] does not.
/// Nothing is said of the maps between: there it depends on the collisions that the table saw,
/// which the fields do not show.
#[verifier::external_body]
pub(crate) fn try_insert_header(
    map: &mut HeaderMap<HeaderValue>,
    name: HeaderName,
    value: HeaderValue,
) -> (r: bool)
    ensures
        header_fields(*final(map)) == if r {
            header_fields(*old(map)).insert(
                header_name_text(name),
                seq![header_value_bytes(value)],
            )
        } else {
            header_fields(*old(map))
        },
        takes_header(*old(map)) ==> r,
        is_full(*old(map)) ==> !r,
{
    map.try_insert(name, value).is_ok()
}

/// `http::HeaderMap::get`: the first value of a name that the map holds.
#[verifier::external_body]
pub(crate) fn get_header<'a>(map: &'a HeaderMap<HeaderValue>, name: &HeaderName) -> (r: Option<
    &'a HeaderValue,
>)
    ensures
        match r {
            Some(value) => {
                let fields = header_fields(*map);
                &&& fields.contains_key(header_name_text(*name))
                &&& fields[header_name_text(*name)].len() > 0
                &&& fields[header_name_text(*name)][0] == header_value_bytes(*value)
            },
            None => !header_fields(*map).contains_key(header_name_text(*name)),
        },
{
    map.get(name)
}

/// `http::HeaderMap::contains_key`: whether the map holds a name.
#[verifier::external_body]
pub(crate) fn has_header(map: &HeaderMap<HeaderValue>, name: &HeaderName) -> (r: bool)
    ensures
        r == header_fields(*map).contains_key(header_name_text(*name)),
{
    map.contains_key(name)
}

/// A text of visible ASCII characters makes a header value.
pub proof fn lemma_visible_text(text: Seq<char>)
    requires
        forall|i: int| 0 <= i < text.len() ==> ' ' <= #[trigger] text[i] <= '~',
    ensures
        all_visible(encode_utf8(text)),
        all_value_bytes(encode_utf8(text)),
{
    assert(is_ascii_chars(text));
    is_ascii_chars_encode_utf8(text);
    let bytes = encode_utf8(text);
    assert forall|i: int| 0 <= i < bytes.len() implies is_visible_byte(#[trigger] bytes[i])
        && is_value_byte(bytes[i]) by {
        assert(bytes[i] == text[i] as u8);
    }
}

/// The header names of this library are header names.
pub proof fn lemma_known_names()
    ensures
        is_header_name("content-type"@),
        is_header_name("content-length"@),
        is_header_name("allow"@),
{
    reveal_strlit("content-type");
    reveal_strlit("content-length");
    reveal_strlit("allow");
    lemma_token("content-type"@);
    lemma_token("content-length"@);
    lemma_token("allow"@);
}

/// The header names of the benchmark server are header names.
pub proof fn lemma_bench_names()
    ensures
        is_header_name("x-api-key"@),
        is_header_name("x-trace-id"@),
{
    reveal_strlit("x-api-key");
    reveal_strlit("x-trace-id");
    lemma_token("x-api-key"@);
    lemma_token("x-trace-id"@);
}

/// A short text of lower-case letters and hyphens is a header name.
proof fn lemma_token(name: Seq<char>)
    requires
        1 <= name.len() <= 65535,
        forall|i: int|
            0 <= i < name.len() ==> 'a' <= #[trigger] name[i] <= 'z' || name[i] == '-',
    ensures
        is_header_name(name),
{
    assert(is_ascii_chars(name));
    is_ascii_chars_encode_utf8(name);
    let bytes = encode_utf8(name);
    assert forall|i: int| 0 <= i < bytes.len() implies is_name_byte(#[trigger] bytes[i]) by {
        assert(bytes[i] == name[i] as u8);
    }
}

} // verus!
