//! Percent-decoding of path segments and query components.

use crate::error;
use crate::error::ApiError;
use crate::text;
use std::borrow::Cow;
use vstd::prelude::*;
use vstd::string::*;
use vstd::utf8::*;

verus! {

/// The value of a hexadecimal digit.
pub open spec fn hex_value(b: u8) -> Option<u8> {
    if 48 <= b <= 57 {
        Some((b - 48) as u8)
    } else if 97 <= b <= 102 {
        Some((b - 87) as u8)
    } else if 65 <= b <= 70 {
        Some((b - 55) as u8)
    } else {
        None
    }
}

/// The value of a hexadecimal digit, or `None` for any other byte.
pub fn hex(value: u8) -> (r: Option<u8>)
    ensures
        r == hex_value(value),
        r matches Some(v) ==> v < 16,
{
    if 48 <= value && value <= 57 {
        Some(value - 48)
    } else if 97 <= value && value <= 102 {
        Some(value - 87)
    } else if 65 <= value && value <= 70 {
        Some(value - 55)
    } else {
        None
    }
}

/// The bytes behind percent escapes: `%` and two hexadecimal digits stand for one byte,
/// every other byte stands for itself. A `%` without two digits has no meaning.
pub open spec fn percent_bytes(bytes: Seq<u8>) -> Option<Seq<u8>>
    decreases bytes.len(),
{
    if bytes.len() == 0 {
        Some(Seq::empty())
    } else if bytes[0] == 37 {
        if bytes.len() < 3 {
            None
        } else {
            match (hex_value(bytes[1]), hex_value(bytes[2]), percent_bytes(bytes.skip(3))) {
                (Some(high), Some(low), Some(rest)) => Some(
                    seq![(high * 16 + low) as u8] + rest,
                ),
                _ => None,
            }
        }
    } else {
        match percent_bytes(bytes.skip(1)) {
            Some(rest) => Some(seq![bytes[0]] + rest),
            None => None,
        }
    }
}

/// The text behind percent escapes, or the problem that decoding reports.
pub open spec fn percent_text(bytes: Seq<u8>) -> Result<Seq<char>, error::Problem> {
    match percent_bytes(bytes) {
        None => Err(error::bad_request_problem("invalid percent encoding"@)),
        Some(decoded) => if valid_utf8(decoded) {
            Ok(decode_utf8(decoded))
        } else {
            Err(error::bad_request_problem("invalid UTF-8 in percent encoding"@))
        },
    }
}

/// Decodes percent escapes into text.
pub fn percent_decode(value: &str) -> (r: Result<String, ApiError>)
    ensures
        match r {
            Ok(decoded) => percent_text(value.spec_bytes()) == Ok::<_, error::Problem>(decoded@),
            Err(problem) => percent_text(value.spec_bytes()) == Err::<Seq<char>, _>(problem@),
        },
{
    let bytes = value.as_bytes();
    let length: usize = bytes.len();
    let mut output: Vec<u8> = Vec::with_capacity(length);
    let mut index: usize = 0;
    assert(bytes@.skip(0) =~= bytes@);
    while index < length
        invariant
            index <= length,
            length == bytes@.len(),
            bytes@ == value.spec_bytes(),
            match percent_bytes(bytes@.skip(index as int)) {
                Some(rest) => percent_bytes(bytes@) == Some(output@ + rest),
                None => percent_bytes(bytes@) is None,
            },
        decreases length - index,
    {
        let ghost rest = bytes@.skip(index as int);
        let ghost before = output@;
        if bytes[index] == 37 {
            if length - index < 3 {
                return Err(ApiError::bad_request("invalid percent encoding"));
            }
            assert(rest[1] == bytes@[index + 1] && rest[2] == bytes@[index + 2]);
            assert(rest.skip(3) =~= bytes@.skip(index + 3));
            match (hex(bytes[index + 1]), hex(bytes[index + 2])) {
                (Some(high), Some(low)) => {
                    output.push(high * 16 + low);
                    index += 3;
                    proof {
                        if let Some(tail) = percent_bytes(bytes@.skip(index as int)) {
                            assert(before + (seq![(high * 16 + low) as u8] + tail) =~= output@
                                + tail);
                        }
                    }
                },
                _ => {
                    return Err(ApiError::bad_request("invalid percent encoding"));
                },
            }
        } else {
            assert(rest.skip(1) =~= bytes@.skip(index + 1));
            output.push(bytes[index]);
            index += 1;
            proof {
                if let Some(tail) = percent_bytes(bytes@.skip(index as int)) {
                    assert(before + (seq![rest[0]] + tail) =~= output@ + tail);
                }
            }
        }
    }
    proof {
        assert(bytes@.skip(index as int) =~= Seq::<u8>::empty());
        assert(output@ + Seq::<u8>::empty() =~= output@);
    }
    match text::string_from_utf8(output) {
        Some(decoded) => Ok(decoded),
        None => Err(ApiError::bad_request("invalid UTF-8 in percent encoding")),
    }
}

/// Decodes a query component. Text without `%` is handed back as it is, so a `+`
/// stays a literal plus.
pub fn decode_query_component(value: &str) -> (r: Result<Cow<'_, str>, ApiError>)
    ensures
        match r {
            Ok(decoded) => percent_text(value.spec_bytes()) == Ok::<_, error::Problem>(decoded@),
            Err(problem) => percent_text(value.spec_bytes()) == Err::<Seq<char>, _>(problem@),
        },
        !value@.contains('%') ==> r == Ok::<Cow<'_, str>, ApiError>(Cow::Borrowed(value)),
        value@.contains('%') && r is Ok ==> r->Ok_0 is Owned,
{
    proof {
        text::lemma_ascii_contains(value@, '%');
    }
    match text::find_byte(value.as_bytes(), 0, 37) {
        Some(_) => match percent_decode(value) {
            Ok(decoded) => Ok(Cow::Owned(decoded)),
            Err(problem) => Err(problem),
        },
        None => {
            proof {
                lemma_plain_bytes(value.spec_bytes());
                encode_utf8_valid_utf8(value@);
                encode_utf8_decode_utf8(value@);
            }
            Ok(Cow::Borrowed(value))
        },
    }
}

/// Bytes without `%` stand for themselves.
pub proof fn lemma_plain_bytes(bytes: Seq<u8>)
    requires
        forall|i: int| 0 <= i < bytes.len() ==> bytes[i] != 37,
    ensures
        percent_bytes(bytes) == Some(bytes),
    decreases bytes.len(),
{
    if bytes.len() > 0 {
        lemma_plain_bytes(bytes.skip(1));
        assert(seq![bytes[0]] + bytes.skip(1) =~= bytes);
    }
}

/// Whether every `%` in a text starts an escape of two hexadecimal digits.
pub fn valid_percent_encoding(value: &str) -> (r: bool)
    ensures
        r == percent_bytes(value.spec_bytes()) is Some,
{
    let bytes = value.as_bytes();
    let length: usize = bytes.len();
    let mut index: usize = 0;
    assert(bytes@.skip(0) =~= bytes@);
    while index < length
        invariant
            index <= length,
            length == bytes@.len(),
            bytes@ == value.spec_bytes(),
            percent_bytes(bytes@) is Some <==> percent_bytes(bytes@.skip(index as int)) is Some,
        decreases length - index,
    {
        let ghost rest = bytes@.skip(index as int);
        if bytes[index] == 37 {
            if length - index < 3 {
                return false;
            }
            assert(rest[1] == bytes@[index + 1] && rest[2] == bytes@[index + 2]);
            assert(rest.skip(3) =~= bytes@.skip(index + 3));
            if hex(bytes[index + 1]).is_none() || hex(bytes[index + 2]).is_none() {
                return false;
            }
            index += 3;
        } else {
            assert(rest.skip(1) =~= bytes@.skip(index + 1));
            index += 1;
        }
    }
    assert(bytes@.skip(index as int) =~= Seq::<u8>::empty());
    true
}

} // verus!
