//! Decimal text of integers, written and read.

use crate::text;
use vstd::prelude::*;
use vstd::string::*;
use vstd::utf8::*;

verus! {

/// The character of a decimal digit.
pub open spec fn digit_char(d: nat) -> char {
    (d + 48) as u8 as char
}

/// The decimal text of a number, without leading zeros.
pub open spec fn decimal(n: nat) -> Seq<char>
    decreases n,
{
    if n < 10 {
        seq![digit_char(n)]
    } else {
        decimal(n / 10).push(digit_char(n % 10))
    }
}

/// A decimal text is a nonempty run of ASCII digits.
pub proof fn lemma_decimal_ascii(n: nat)
    ensures
        is_ascii_chars(decimal(n)),
        decimal(n).len() > 0,
        forall|i: int| 0 <= i < decimal(n).len() ==> '0' <= #[trigger] decimal(n)[i] <= '9',
    decreases n,
{
    if n >= 10 {
        lemma_decimal_ascii(n / 10);
    }
}

/// Appends the decimal digits of `n` to a byte string.
fn push_decimal(out: &mut Vec<u8>, n: u64)
    ensures
        final(out)@ == old(out)@ + encode_utf8(decimal(n as nat)),
    decreases n,
{
    if n < 10 {
        out.push(n as u8 + 48);
        proof {
            let c = digit_char(n as nat);
            text::lemma_encode_ascii_char(c);
            assert(out@ =~= old(out)@ + encode_utf8(decimal(n as nat)));
        }
    } else {
        push_decimal(out, n / 10);
        out.push((n % 10) as u8 + 48);
        proof {
            let c = digit_char((n % 10) as nat);
            text::lemma_encode_ascii_char(c);
            text::lemma_encode_concat(decimal((n / 10) as nat), seq![c]);
            assert(decimal(n as nat) =~= decimal((n / 10) as nat) + seq![c]);
            assert(out@ =~= old(out)@ + encode_utf8(decimal(n as nat)));
        }
    }
}

/// The decimal text of a number.
pub fn decimal_string(n: u64) -> (r: String)
    ensures
        r@ == decimal(n as nat),
{
    let mut out: Vec<u8> = Vec::new();
    push_decimal(&mut out, n);
    proof {
        assert(out@ =~= encode_utf8(decimal(n as nat)));
        encode_utf8_valid_utf8(decimal(n as nat));
        encode_utf8_decode_utf8(decimal(n as nat));
    }
    match text::string_from_utf8(out) {
        Some(result) => result,
        None => String::new(),
    }
}

/// Whether a byte is an ASCII decimal digit.
pub open spec fn is_digit(b: u8) -> bool {
    48 <= b <= 57
}

/// Whether a byte string is a nonempty run of decimal digits.
pub open spec fn is_digits(bytes: Seq<u8>) -> bool {
    bytes.len() > 0 && forall|i: int| 0 <= i < bytes.len() ==> is_digit(#[trigger] bytes[i])
}

/// The value that a run of decimal digits denotes.
pub open spec fn digits_value(bytes: Seq<u8>) -> nat
    decreases bytes.len(),
{
    if bytes.len() == 0 {
        0
    } else {
        digits_value(bytes.drop_last()) * 10 + (bytes.last() - 48) as nat
    }
}

/// The integer that a text denotes: digits behind an optional sign, nothing else.
pub open spec fn integer_value(bytes: Seq<u8>) -> Option<int> {
    if is_digits(bytes) {
        Some(digits_value(bytes) as int)
    } else if bytes.len() > 0 && bytes[0] == 43 && is_digits(bytes.drop_first()) {
        Some(digits_value(bytes.drop_first()) as int)
    } else if bytes.len() > 0 && bytes[0] == 45 && is_digits(bytes.drop_first()) {
        Some(-(digits_value(bytes.drop_first()) as int))
    } else {
        None
    }
}

/// The natural number that a text denotes: digits behind an optional `+`, nothing else.
pub open spec fn natural_value(bytes: Seq<u8>) -> Option<nat> {
    if is_digits(bytes) {
        Some(digits_value(bytes))
    } else if bytes.len() > 0 && bytes[0] == 43 && is_digits(bytes.drop_first()) {
        Some(digits_value(bytes.drop_first()))
    } else {
        None
    }
}

proof fn lemma_digits_value_prefix(bytes: Seq<u8>, i: int)
    requires
        0 <= i <= bytes.len(),
    ensures
        digits_value(bytes.subrange(0, i)) <= digits_value(bytes),
    decreases bytes.len(),
{
    if i == bytes.len() {
        assert(bytes.subrange(0, i) =~= bytes);
    } else {
        lemma_digits_value_prefix(bytes.drop_last(), i);
        assert(bytes.drop_last().subrange(0, i) =~= bytes.subrange(0, i));
    }
}

/// Reads a run of digits from `start` to the end, up to the largest `u64`.
fn parse_digits(bytes: &[u8], start: usize) -> (r: Option<u64>)
    requires
        start <= bytes@.len(),
    ensures
        ({
            let run = bytes@.subrange(start as int, bytes@.len() as int);
            match r {
                Some(n) => is_digits(run) && digits_value(run) == n,
                None => !is_digits(run) || digits_value(run) > u64::MAX,
            }
        }),
{
    let ghost run = bytes@.subrange(start as int, bytes@.len() as int);
    if start == bytes.len() {
        return None;
    }
    let mut value: u64 = 0;
    let mut i: usize = start;
    while i < bytes.len()
        invariant
            start <= i <= bytes@.len(),
            run == bytes@.subrange(start as int, bytes@.len() as int),
            forall|j: int| 0 <= j < i - start ==> is_digit(#[trigger] run[j]),
            value == digits_value(run.subrange(0, i - start)),
        decreases bytes@.len() - i,
    {
        let b = bytes[i];
        assert(run[i - start] == b);
        if b < 48 || b > 57 {
            return None;
        }
        proof {
            let next = run.subrange(0, i - start + 1);
            assert(next.drop_last() =~= run.subrange(0, i - start));
            assert(next.last() == b);
            lemma_digits_value_prefix(run, i - start + 1);
        }
        let d: u64 = (b - 48) as u64;
        if value > (u64::MAX - d) / 10 {
            assert(digits_value(run) > u64::MAX);
            return None;
        }
        value = value * 10 + d;
        i += 1;
    }
    assert(run.subrange(0, i - start) =~= run);
    Some(value)
}

/// Reads an unsigned number: an optional `+` and digits, in the range of `u64`.
pub fn parse_u64(s: &str) -> (r: Option<u64>)
    ensures
        match r {
            Some(n) => natural_value(s.spec_bytes()) == Some(n as nat),
            None => match natural_value(s.spec_bytes()) {
                Some(n) => n > u64::MAX,
                None => true,
            },
        },
{
    let bytes = s.as_bytes();
    if bytes.len() > 0 && bytes[0] == 43 {
        assert(bytes@.subrange(1, bytes@.len() as int) =~= bytes@.drop_first());
        assert(!is_digit(bytes@[0]));
        parse_digits(bytes, 1)
    } else {
        assert(bytes@.subrange(0, bytes@.len() as int) =~= bytes@);
        parse_digits(bytes, 0)
    }
}

/// Reads a signed number: an optional sign and digits, in the range of `i64`.
pub fn parse_i64(s: &str) -> (r: Option<i64>)
    ensures
        match r {
            Some(n) => integer_value(s.spec_bytes()) == Some(n as int),
            None => match integer_value(s.spec_bytes()) {
                Some(n) => n < i64::MIN || n > i64::MAX,
                None => true,
            },
        },
{
    let bytes = s.as_bytes();
    assert(bytes@.subrange(0, bytes@.len() as int) =~= bytes@);
    if bytes.len() > 0 {
        assert(bytes@.subrange(1, bytes@.len() as int) =~= bytes@.drop_first());
        if bytes[0] == 45 {
            assert(!is_digit(bytes@[0]));
            return match parse_digits(bytes, 1) {
                Some(n) => if n <= 0x7fff_ffff_ffff_ffff {
                    Some(-(n as i64))
                } else if n == 0x8000_0000_0000_0000 {
                    Some(i64::MIN)
                } else {
                    None
                },
                None => None,
            };
        }
        if bytes[0] == 43 {
            assert(!is_digit(bytes@[0]));
            return match parse_digits(bytes, 1) {
                Some(n) => if n <= 0x7fff_ffff_ffff_ffff {
                    Some(n as i64)
                } else {
                    None
                },
                None => None,
            };
        }
    }
    match parse_digits(bytes, 0) {
        Some(n) => if n <= 0x7fff_ffff_ffff_ffff {
            Some(n as i64)
        } else {
            None
        },
        None => None,
    }
}

/// Reads a number that fits a machine word, written with an optional plus sign.
pub fn parse_usize(s: &str) -> (r: Option<usize>)
    ensures
        match r {
            Some(n) => natural_value(s.spec_bytes()) == Some(n as nat),
            None => match natural_value(s.spec_bytes()) {
                Some(n) => n > usize::MAX,
                None => true,
            },
        },
{
    match parse_u64(s) {
        Some(n) => if n <= usize::MAX as u64 {
            Some(n as usize)
        } else {
            None
        },
        None => None,
    }
}

} // verus!
