//! What holds of the texts that are read: escapes, numbers and queries.

use crate::error;
use crate::number;
use crate::percent;
use crate::query;
use crate::text;
use vstd::arithmetic::power::pow;
use vstd::prelude::*;
use vstd::string::*;
use vstd::utf8::*;

verus! {

/// The hexadecimal digits in the order of their values, in upper or in lower case.
pub open spec fn hex_digits(upper: bool) -> Seq<char> {
    if upper {
        "0123456789ABCDEF"@
    } else {
        "0123456789abcdef"@
    }
}

/// The codes of the hexadecimal digits.
pub proof fn lemma_hex_digits()
    ensures
        hex_digits(true).len() == 16,
        hex_digits(false).len() == 16,
        forall|upper: bool, i: int|
            0 <= i < 10 ==> #[trigger] hex_digits(upper)[i] as int == i + 48,
        forall|i: int| 10 <= i < 16 ==> #[trigger] hex_digits(true)[i] as int == i + 55,
        forall|i: int| 10 <= i < 16 ==> #[trigger] hex_digits(false)[i] as int == i + 87,
{
    reveal_strlit("0123456789ABCDEF");
    reveal_strlit("0123456789abcdef");
    let u = "0123456789ABCDEF"@;
    let l = "0123456789abcdef"@;
    assert(u[0] == '0' && u[1] == '1' && u[2] == '2' && u[3] == '3' && u[4] == '4');
    assert(u[5] == '5' && u[6] == '6' && u[7] == '7' && u[8] == '8' && u[9] == '9');
    assert(u[10] == 'A' && u[11] == 'B' && u[12] == 'C' && u[13] == 'D' && u[14] == 'E');
    assert(u[15] == 'F');
    assert(l[0] == '0' && l[1] == '1' && l[2] == '2' && l[3] == '3' && l[4] == '4');
    assert(l[5] == '5' && l[6] == '6' && l[7] == '7' && l[8] == '8' && l[9] == '9');
    assert(l[10] == 'a' && l[11] == 'b' && l[12] == 'c' && l[13] == 'd' && l[14] == 'e');
    assert(l[15] == 'f');
}

/// Each of the sixteen hexadecimal digits has its place as its value, in upper and in lower
/// case, and no other byte has a value.
pub proof fn law_hexadecimal_digits_have_their_values(b: u8)
    ensures
        forall|upper: bool, i: int|
            0 <= i < 16 ==> percent::hex_value(#[trigger] hex_digits(upper)[i] as u8) == Some(
                i as u8,
            ),
        percent::hex_value(b) is Some <==> hex_digits(true).contains(b as char)
            || hex_digits(false).contains(b as char),
{
    lemma_hex_digits();
    if let Some(v) = percent::hex_value(b) {
        assert(hex_digits(b < 97)[v as int] == b as char);
        assert(0 <= v < 16);
    }
    assert forall|upper: bool, i: int| 0 <= i < 16 implies percent::hex_value(
        #[trigger] hex_digits(upper)[i] as u8,
    ) == Some(i as u8) by {
        if i < 10 {
            assert(hex_digits(upper)[i] as int == i + 48);
        } else if upper {
            assert(hex_digits(true)[i] as int == i + 55);
        } else {
            assert(hex_digits(false)[i] as int == i + 87);
        }
    }
    if hex_digits(true).contains(b as char) {
        let i = choose|i: int| 0 <= i < 16 && hex_digits(true)[i] == b as char;
        assert(hex_digits(true)[i] as u8 == b);
    }
    if hex_digits(false).contains(b as char) {
        let i = choose|i: int| 0 <= i < 16 && hex_digits(false)[i] == b as char;
        assert(hex_digits(false)[i] as u8 == b);
    }
}

/// The escape of a byte, with digits in upper or in lower case.
pub open spec fn escape_of(b: u8, upper_high: bool, upper_low: bool) -> Seq<u8> {
    seq![
        '%' as u8,
        hex_digits(upper_high)[b as int / 16] as u8,
        hex_digits(upper_low)[b as int % 16] as u8,
    ]
}

/// Decoding undoes escaping: the escape of a byte, with digits in either case, stands for that
/// byte, and what follows for what it stands for by itself.
pub proof fn law_escapes_stand_for_their_bytes(
    b: u8,
    upper_high: bool,
    upper_low: bool,
    rest: Seq<u8>,
)
    ensures
        percent::percent_bytes(escape_of(b, upper_high, upper_low) + rest) == match
            percent::percent_bytes(rest) {
            Some(decoded) => Some(seq![b] + decoded),
            None => None,
        },
{
    law_hexadecimal_digits_have_their_values(b);
    let bytes = escape_of(b, upper_high, upper_low) + rest;
    let high = b as int / 16;
    let low = b as int % 16;
    assert(bytes[0] == 37);
    assert(bytes[1] == hex_digits(upper_high)[high] as u8);
    assert(bytes[2] == hex_digits(upper_low)[low] as u8);
    assert(bytes.skip(3) =~= rest);
    assert(percent::hex_value(bytes[1]) == Some(high as u8));
    assert(percent::hex_value(bytes[2]) == Some(low as u8));
    assert((high as u8 * 16 + low as u8) as u8 == b);
}

/// A byte other than `%` stands for itself, and what follows for what it stands for by itself.
pub proof fn law_other_bytes_stand_for_themselves(b: u8, rest: Seq<u8>)
    requires
        b != '%' as u8,
    ensures
        percent::percent_bytes(Seq::empty()) == Some(Seq::<u8>::empty()),
        percent::percent_bytes(seq![b] + rest) == match percent::percent_bytes(rest) {
            Some(decoded) => Some(seq![b] + decoded),
            None => None,
        },
{
    assert((seq![b] + rest).skip(1) =~= rest);
}

/// A `%` that two hexadecimal digits do not follow has no meaning, whatever comes before or
/// after it.
pub proof fn law_broken_escapes_do_not_decode(before: Seq<u8>, after: Seq<u8>)
    requires
        forall|i: int| 0 <= i < before.len() ==> before[i] != '%' as u8,
        after.len() < 2 || percent::hex_value(after[0]) is None || percent::hex_value(
            after[1],
        ) is None,
    ensures
        percent::percent_bytes(before + seq!['%' as u8] + after) is None,
    decreases before.len(),
{
    let bytes = before + seq!['%' as u8] + after;
    if before.len() == 0 {
        assert(bytes[0] == 37);
        if after.len() >= 2 {
            assert(bytes[1] == after[0] && bytes[2] == after[1]);
        }
    } else {
        let rest = before.drop_first();
        assert forall|i: int| 0 <= i < rest.len() implies rest[i] != '%' as u8 by {
            assert(rest[i] == before[i + 1]);
        }
        law_broken_escapes_do_not_decode(rest, after);
        assert(bytes[0] == before[0]);
        assert(bytes.skip(1) =~= rest + seq!['%' as u8] + after);
    }
}

/// Bytes with each of them escaped.
pub open spec fn escaped(bytes: Seq<u8>, upper: bool) -> Seq<u8>
    decreases bytes.len(),
{
    if bytes.len() == 0 {
        Seq::empty()
    } else {
        escape_of(bytes[0], upper, upper) + escaped(bytes.drop_first(), upper)
    }
}

/// Bytes that are all escaped stand for themselves.
pub proof fn lemma_escaped_bytes(bytes: Seq<u8>, upper: bool)
    ensures
        percent::percent_bytes(escaped(bytes, upper)) == Some(bytes),
    decreases bytes.len(),
{
    if bytes.len() > 0 {
        lemma_escaped_bytes(bytes.drop_first(), upper);
        law_escapes_stand_for_their_bytes(
            bytes[0],
            upper,
            upper,
            escaped(bytes.drop_first(), upper),
        );
        assert(seq![bytes[0]] + bytes.drop_first() =~= bytes);
    }
}

/// A text whose bytes are all escaped is read back as it was.
pub proof fn law_escaped_text_is_read_back(chars: Seq<char>, upper: bool)
    ensures
        percent::percent_text(escaped(encode_utf8(chars), upper)) == Ok::<
            Seq<char>,
            error::Problem,
        >(chars),
{
    lemma_escaped_bytes(encode_utf8(chars), upper);
    encode_utf8_valid_utf8(chars);
    encode_utf8_decode_utf8(chars);
}

/// A text is decoded exactly where its bytes stand for the encoding of a text, and that text is
/// the result. Otherwise the request is bad: its escapes are broken, or stand for bytes that
/// encode no text.
pub proof fn law_decoding_gives_the_encoded_text(bytes: Seq<u8>, chars: Seq<char>)
    ensures
        percent::percent_text(bytes) == Ok::<Seq<char>, error::Problem>(chars)
            <==> percent::percent_bytes(bytes) == Some(encode_utf8(chars)),
        percent::percent_text(bytes) matches Err(problem) ==> {
            &&& problem.status == 400
            &&& problem.title == "Bad Request"@
            &&& !problem.missing
            &&& problem.detail == if percent::percent_bytes(bytes) is None {
                "invalid percent encoding"@
            } else {
                "invalid UTF-8 in percent encoding"@
            }
        },
{
    encode_utf8_valid_utf8(chars);
    encode_utf8_decode_utf8(chars);
    if let Some(decoded) = percent::percent_bytes(bytes) {
        if valid_utf8(decoded) {
            decode_utf8_encode_utf8(decoded);
        }
    }
}

/// The number that decimal digits denote, the first of them with the highest weight.
pub open spec fn place_value(digits: Seq<int>) -> int
    decreases digits.len(),
{
    if digits.len() == 0 {
        0
    } else {
        digits[0] * pow(10, (digits.len() - 1) as nat) + place_value(digits.drop_first())
    }
}

/// A digit behind others makes them ten times as much.
proof fn lemma_place_value_push(digits: Seq<int>, last: int)
    ensures
        place_value(digits.push(last)) == place_value(digits) * 10 + last,
    decreases digits.len(),
{
    let longer = digits.push(last);
    if digits.len() == 0 {
        vstd::arithmetic::power::lemma_pow0(10);
        assert(longer.drop_first() =~= Seq::empty());
        assert(longer[0] == last);
        assert(place_value(longer.drop_first()) == 0);
    } else {
        lemma_place_value_push(digits.drop_first(), last);
        assert(longer.drop_first() =~= digits.drop_first().push(last));
        let weight = pow(10, (digits.len() - 1) as nat);
        assert(pow(10, digits.len()) == 10 * weight) by {
            reveal(pow);
        }
        let first = digits[0];
        assert(first * (10 * weight) == (first * weight) * 10) by (nonlinear_arith);
    }
}

/// The values of decimal digits, given as bytes.
pub open spec fn byte_digits(bytes: Seq<u8>) -> Seq<int> {
    bytes.map_values(|b: u8| b as int - '0' as int)
}

/// The values of decimal digits, given as characters.
pub open spec fn char_digits(chars: Seq<char>) -> Seq<int> {
    chars.map_values(|c: char| c as int - '0' as int)
}

/// A nonempty run of decimal digits denotes its value in base ten, and nothing else is such a
/// run.
pub proof fn law_digits_are_read_by_their_places(bytes: Seq<u8>)
    ensures
        number::is_digits(bytes) <==> bytes.len() > 0 && (forall|i: int|
            0 <= i < bytes.len() ==> '0' as u8 <= #[trigger] bytes[i] <= '9' as u8),
        (forall|i: int| 0 <= i < bytes.len() ==> '0' as u8 <= #[trigger] bytes[i] <= '9' as u8)
            ==> number::digits_value(bytes) == place_value(byte_digits(bytes)),
    decreases bytes.len(),
{
    if number::is_digits(bytes) {
        assert forall|i: int| 0 <= i < bytes.len() implies '0' as u8 <= #[trigger] bytes[i]
            <= '9' as u8 by {
            assert(number::is_digit(bytes[i]));
        }
    }
    if forall|i: int| 0 <= i < bytes.len() ==> '0' as u8 <= #[trigger] bytes[i] <= '9' as u8 {
        if bytes.len() > 0 {
            law_digits_are_read_by_their_places(bytes.drop_last());
            let last = bytes.last() as int - '0' as int;
            lemma_place_value_push(byte_digits(bytes.drop_last()), last);
            assert(byte_digits(bytes) =~= byte_digits(bytes.drop_last()).push(last));
            assert(bytes[bytes.len() - 1] == bytes.last());
        }
    }
}

/// The decimal text of a number holds digits alone, does not start with a zero unless the
/// number is zero, and has the number as its value in base ten.
pub proof fn law_decimal_text_has_the_value(n: nat)
    ensures
        number::decimal(n).len() > 0,
        forall|i: int|
            0 <= i < number::decimal(n).len() ==> '0' <= #[trigger] number::decimal(n)[i] <= '9',
        n > 0 ==> number::decimal(n)[0] != '0',
        n == 0 ==> number::decimal(n) == seq!['0'],
        place_value(char_digits(number::decimal(n))) == n,
    decreases n,
{
    number::lemma_decimal_ascii(n);
    let chars = number::decimal(n);
    if n < 10 {
        lemma_place_value_push(Seq::empty(), n as int);
        assert(Seq::<int>::empty().push(n as int) =~= char_digits(chars));
    } else {
        law_decimal_text_has_the_value(n / 10);
        let front = number::decimal(n / 10);
        let last = (n % 10) as int;
        lemma_place_value_push(char_digits(front), last);
        assert(char_digits(chars) =~= char_digits(front).push(last));
        assert(chars[0] == front[0]);
    }
}

/// The bytes of a decimal text are a run of digits that denotes the number.
proof fn lemma_decimal_bytes(n: nat)
    ensures
        number::is_digits(encode_utf8(number::decimal(n))),
        number::digits_value(encode_utf8(number::decimal(n))) == n,
        encode_utf8(number::decimal(n)).len() == number::decimal(n).len(),
{
    let chars = number::decimal(n);
    let bytes = encode_utf8(chars);
    law_decimal_text_has_the_value(n);
    number::lemma_decimal_ascii(n);
    is_ascii_chars_encode_utf8(chars);
    assert forall|i: int| 0 <= i < bytes.len() implies '0' as u8 <= #[trigger] bytes[i]
        <= '9' as u8 by {
        assert('0' <= chars[i] <= '9');
        assert(bytes[i] == chars[i] as u8);
    }
    law_digits_are_read_by_their_places(bytes);
    assert(byte_digits(bytes) =~= char_digits(chars)) by {
        assert forall|i: int| 0 <= i < bytes.len() implies byte_digits(bytes)[i] == char_digits(
            chars,
        )[i] by {
            assert('0' <= chars[i] <= '9');
        }
    }
}

/// The text of an integer: its decimal digits, behind a minus sign where it is negative.
pub open spec fn signed_text(n: int) -> Seq<char> {
    if n < 0 {
        "-"@ + number::decimal((-n) as nat)
    } else {
        number::decimal(n as nat)
    }
}

/// Behind an optional sign a run of digits is read as the number in base ten that it denotes,
/// with that sign.
pub proof fn law_signs_stand_before_digits(run: Seq<u8>)
    requires
        run.len() > 0,
        forall|i: int| 0 <= i < run.len() ==> '0' as u8 <= #[trigger] run[i] <= '9' as u8,
    ensures
        ({
            let value = place_value(byte_digits(run));
            &&& value >= 0
            &&& number::integer_value(run) == Some(value)
            &&& number::integer_value(seq!['+' as u8] + run) == Some(value)
            &&& number::integer_value(seq!['-' as u8] + run) == Some(-value)
            &&& number::natural_value(run) == Some(value as nat)
            &&& number::natural_value(seq!['+' as u8] + run) == Some(value as nat)
            &&& number::natural_value(seq!['-' as u8] + run) is None
        }),
{
    law_digits_are_read_by_their_places(run);
    let plus = seq!['+' as u8] + run;
    let minus = seq!['-' as u8] + run;
    assert(plus.drop_first() =~= run);
    assert(minus.drop_first() =~= run);
    assert(!number::is_digit(plus[0]));
    assert(!number::is_digit(minus[0]));
}

/// Nothing but digits behind an optional sign is read as an integer.
pub proof fn law_only_digits_are_numbers(bytes: Seq<u8>)
    ensures
        number::integer_value(bytes) is Some ==> {
            ||| number::is_digits(bytes)
            ||| bytes.len() > 1 && (bytes[0] == '+' as u8 || bytes[0] == '-' as u8)
                && number::is_digits(bytes.drop_first())
        },
        number::natural_value(bytes) is Some ==> {
            ||| number::is_digits(bytes)
            ||| bytes.len() > 1 && bytes[0] == '+' as u8 && number::is_digits(bytes.drop_first())
        },
{
}

/// The text of every integer is read back as that integer.
pub proof fn law_integers_are_read_back(n: int)
    ensures
        number::integer_value(encode_utf8(signed_text(n))) == Some(n),
        n >= 0 ==> number::natural_value(encode_utf8(signed_text(n))) == Some(n as nat),
{
    if n < 0 {
        let digits = number::decimal((-n) as nat);
        lemma_decimal_bytes((-n) as nat);
        reveal_strlit("-");
        assert("-"@ =~= seq!['-']);
        text::lemma_encode_concat("-"@, digits);
        text::lemma_encode_ascii_char('-');
        let bytes = encode_utf8(signed_text(n));
        assert(bytes =~= seq!['-' as u8] + encode_utf8(digits));
        assert(bytes.drop_first() =~= encode_utf8(digits));
        assert(!number::is_digit(bytes[0]));
    } else {
        lemma_decimal_bytes(n as nat);
    }
}

/// A query value is read as a boolean exactly where it is `true` or `false`, as an integer
/// exactly where it is one of 64 bits, and as its text otherwise.
pub proof fn law_query_values_are_classified(value: Seq<char>)
    ensures
        query::scalar_of("true"@) == query::ScalarView::Bool(true),
        query::scalar_of("false"@) == query::ScalarView::Bool(false),
        query::scalar_of(value) is Bool <==> value == "true"@ || value == "false"@,
        forall|n: int|
            query::scalar_of(value) == query::ScalarView::Integer(n) <==> (
            #[trigger] number::integer_value(encode_utf8(value)) == Some(n)
                && -0x8000_0000_0000_0000 <= n <= 0x7fff_ffff_ffff_ffff),
        query::scalar_of(value) is Text ==> query::scalar_of(value) == query::ScalarView::Text(
            value,
        ),
{
    lemma_words_are_no_numbers();
}

/// The words for the truth values are different, and no numbers.
pub proof fn lemma_words_are_no_numbers()
    ensures
        "true"@ != "false"@,
        number::integer_value(encode_utf8("true"@)) is None,
        number::integer_value(encode_utf8("false"@)) is None,
{
    reveal_strlit("true");
    reveal_strlit("false");
    let yes = "true"@;
    let no = "false"@;
    assert(yes.len() == 4 && no.len() == 5);
    is_ascii_chars_encode_utf8(yes);
    is_ascii_chars_encode_utf8(no);
    assert(encode_utf8(yes)[0] == 't' as u8);
    assert(encode_utf8(no)[0] == 'f' as u8);
    assert(!number::is_digit(encode_utf8(yes)[0]));
    assert(!number::is_digit(encode_utf8(no)[0]));
}

/// The decimal text of every integer of 64 bits is read as that integer.
pub proof fn law_integers_are_query_integers(n: int)
    requires
        -0x8000_0000_0000_0000 <= n <= 0x7fff_ffff_ffff_ffff,
    ensures
        query::scalar_of(signed_text(n)) == query::ScalarView::Integer(n),
{
    law_integers_are_read_back(n);
    law_query_values_are_classified(signed_text(n));
}

/// A key and a value that are written with `=` between them are one pair of a query, and what
/// follows behind `&` is read by itself.
pub proof fn law_pairs_are_read_one_by_one(key: Seq<char>, value: Seq<char>, rest: Seq<char>)
    requires
        !key.contains('='),
        !key.contains('&'),
        !value.contains('&'),
    ensures
        query::pairs_of(key + seq!['='] + value) == seq![(key, value)],
        query::pairs_of(key + seq!['='] + value + seq!['&'] + rest) == seq![(key, value)]
            + query::pairs_of(rest),
{
    let piece = key + seq!['='] + value;
    assert(!piece.contains('&')) by {
        if piece.contains('&') {
            let i = choose|i: int| 0 <= i < piece.len() && piece[i] == '&';
            if i < key.len() {
                assert(key[i] == '&');
            } else if i > key.len() {
                assert(value[i - key.len() - 1] == '&');
            }
        }
    }
    text::lemma_position(piece, '=', key, value);
    lemma_piece(piece, rest);
}

/// A nonempty piece without `=` is a key with an empty value.
pub proof fn law_keys_may_stand_alone(key: Seq<char>, rest: Seq<char>)
    requires
        key.len() > 0,
        !key.contains('='),
        !key.contains('&'),
    ensures
        query::pairs_of(key) == seq![(key, Seq::<char>::empty())],
        query::pairs_of(key + seq!['&'] + rest) == seq![(key, Seq::<char>::empty())]
            + query::pairs_of(rest),
{
    text::lemma_no_position(key, '=');
    lemma_piece(key, rest);
}

/// Nothing between two `&` characters is no pair.
pub proof fn law_empty_pieces_are_no_pairs(rest: Seq<char>)
    ensures
        query::pairs_of(Seq::empty()) == Seq::<(Seq<char>, Seq<char>)>::empty(),
        query::pairs_of(seq!['&'] + rest) == query::pairs_of(rest),
{
    let whole = seq!['&'] + rest;
    assert(whole[0] == '&');
    assert(text::position(whole, '&') == 0);
    assert(whole.skip(1) =~= rest);
    assert(Seq::<(Seq<char>, Seq<char>)>::empty() + query::pairs_of(rest) =~= query::pairs_of(
        rest,
    ));
}

/// A nonempty piece is one pair.
proof fn lemma_piece(piece: Seq<char>, rest: Seq<char>)
    requires
        piece.len() > 0,
        !piece.contains('&'),
    ensures
        query::pairs_of(piece) == seq![query::pair_of(piece)],
        query::pairs_of(piece + seq!['&'] + rest) == seq![query::pair_of(piece)]
            + query::pairs_of(rest),
{
    text::lemma_no_position(piece, '&');
    assert(piece.take(piece.len() as int) =~= piece);
    let whole = piece + seq!['&'] + rest;
    text::lemma_position(whole, '&', piece, rest);
}

/// A query of pairs as it is written.
pub open spec fn written(pairs: Seq<(Seq<char>, Seq<char>)>) -> Seq<char>
    decreases pairs.len(),
{
    if pairs.len() == 0 {
        Seq::empty()
    } else if pairs.len() == 1 {
        pairs[0].0 + seq!['='] + pairs[0].1
    } else {
        pairs[0].0 + seq!['='] + pairs[0].1 + seq!['&'] + written(pairs.drop_first())
    }
}

/// Pairs that are written as a query are read back, all of them and in order.
pub proof fn law_written_pairs_are_read_back(pairs: Seq<(Seq<char>, Seq<char>)>)
    requires
        forall|i: int|
            0 <= i < pairs.len() ==> !(#[trigger] pairs[i]).0.contains('=')
                && !pairs[i].0.contains('&') && !pairs[i].1.contains('&'),
    ensures
        query::pairs_of(written(pairs)) == pairs,
    decreases pairs.len(),
{
    if pairs.len() == 0 {
        law_empty_pieces_are_no_pairs(Seq::empty());
        assert(pairs =~= Seq::empty());
    } else {
        let rest = pairs.drop_first();
        assert forall|i: int| 0 <= i < rest.len() implies !(#[trigger] rest[i]).0.contains('=')
            && !rest[i].0.contains('&') && !rest[i].1.contains('&') by {
            assert(rest[i] == pairs[i + 1]);
        }
        law_written_pairs_are_read_back(rest);
        law_pairs_are_read_one_by_one(pairs[0].0, pairs[0].1, written(rest));
        assert(seq![pairs[0]] + rest =~= pairs);
        if pairs.len() == 1 {
            assert(seq![pairs[0]] =~= pairs);
        }
    }
}

/// The pairs of a query are decoded one for one, each key and each value by itself.
pub proof fn law_pairs_are_decoded_one_by_one(pairs: Seq<(Seq<char>, Seq<char>)>, n: int)
    requires
        0 <= n <= pairs.len(),
    ensures
        match query::decoded_pairs(pairs, n) {
            Ok(decoded) => {
                &&& decoded.len() == pairs.len() - n
                &&& forall|i: int|
                    0 <= i < decoded.len() ==> {
                        &&& percent::percent_text(encode_utf8(pairs[n + i].0)) == Ok::<
                            Seq<char>,
                            error::Problem,
                        >((#[trigger] decoded[i]).0)
                        &&& percent::percent_text(encode_utf8(pairs[n + i].1)) == Ok::<
                            Seq<char>,
                            error::Problem,
                        >(decoded[i].1)
                    }
            },
            Err(problem) => exists|i: int|
                n <= i < pairs.len() && #[trigger] fails_with(pairs[i], problem) && (forall|j: int|
                    n <= j < i ==> decodes(#[trigger] pairs[j])),
        },
    decreases pairs.len() - n,
{
    if n < pairs.len() {
        law_pairs_are_decoded_one_by_one(pairs, n + 1);
        if decodes(pairs[n]) {
            let rest = query::decoded_pairs(pairs, n + 1);
            match query::decoded_pairs(pairs, n) {
                Ok(decoded) => {
                    assert forall|i: int| 0 <= i < decoded.len() implies {
                        &&& percent::percent_text(encode_utf8(pairs[n + i].0)) == Ok::<
                            Seq<char>,
                            error::Problem,
                        >((#[trigger] decoded[i]).0)
                        &&& percent::percent_text(encode_utf8(pairs[n + i].1)) == Ok::<
                            Seq<char>,
                            error::Problem,
                        >(decoded[i].1)
                    } by {
                        if i > 0 {
                            assert(decoded[i] == (rest->Ok_0)[i - 1]);
                        }
                    }
                },
                Err(problem) => {
                    let i = choose|i: int|
                        n + 1 <= i < pairs.len() && #[trigger] fails_with(pairs[i], problem) && (
                        forall|j: int| n + 1 <= j < i ==> decodes(#[trigger] pairs[j]));
                    assert(fails_with(pairs[i], problem));
                },
            }
        } else if let Err(problem) = query::decoded_pairs(pairs, n) {
            assert(fails_with(pairs[n], problem));
        }
    }
}

/// Whether the key and the value of a pair decode.
pub open spec fn decodes(pair: (Seq<char>, Seq<char>)) -> bool {
    percent::percent_text(encode_utf8(pair.0)) is Ok && percent::percent_text(
        encode_utf8(pair.1),
    ) is Ok
}

/// Whether a pair does not decode, with the problem of its key or else of its value.
pub open spec fn fails_with(pair: (Seq<char>, Seq<char>), problem: error::Problem) -> bool {
    let key = percent::percent_text(encode_utf8(pair.0));
    let value = percent::percent_text(encode_utf8(pair.1));
    key == Err::<Seq<char>, _>(problem) || key is Ok && value == Err::<Seq<char>, _>(problem)
}

/// The object of a query has the keys of its pairs and no others.
pub proof fn law_query_objects_have_the_keys_of_their_pairs(
    pairs: Seq<(Seq<char>, crate::json::JsonTree)>,
    key: Seq<char>,
)
    ensures
        query::fields_of(pairs).contains_key(key) <==> exists|i: int|
            0 <= i < pairs.len() && (#[trigger] pairs[i]).0 == key,
    decreases pairs.len(),
{
    if pairs.len() > 0 {
        let front = pairs.drop_last();
        law_query_objects_have_the_keys_of_their_pairs(front, key);
        if query::fields_of(front).contains_key(key) {
            let i = choose|i: int| 0 <= i < front.len() && (#[trigger] front[i]).0 == key;
            assert(pairs[i].0 == key);
        }
        if pairs.last().0 == key {
            assert(pairs[pairs.len() - 1].0 == key);
        }
        if exists|i: int| 0 <= i < pairs.len() && (#[trigger] pairs[i]).0 == key {
            let i = choose|i: int| 0 <= i < pairs.len() && (#[trigger] pairs[i]).0 == key;
            if i < front.len() {
                assert(front[i].0 == key);
            }
        }
    }
}

/// A key names the first field that has it as its name, and no field where none has.
pub proof fn law_keys_name_the_first_such_field(fields: Seq<Seq<char>>, key: Seq<char>)
    ensures
        match query::field_index(fields, key) {
            Some(i) => {
                &&& 0 <= i < fields.len()
                &&& fields[i] == key
                &&& forall|j: int| 0 <= j < i ==> #[trigger] fields[j] != key
            },
            None => forall|j: int| 0 <= j < fields.len() ==> #[trigger] fields[j] != key,
        },
    decreases fields.len(),
{
    if fields.len() > 0 && fields[0] != key {
        let rest = fields.drop_first();
        law_keys_name_the_first_such_field(rest, key);
        let bound = match query::field_index(fields, key) {
            Some(i) => i,
            None => fields.len() as int,
        };
        assert forall|j: int| 0 <= j < bound implies #[trigger] fields[j] != key by {
            if j > 0 {
                assert(rest[j - 1] == fields[j]);
            }
        }
    }
}

/// A character splits a text where it occurs for the first time.
pub proof fn law_positions_are_the_first(chars: Seq<char>, c: char)
    ensures
        0 <= text::position(chars, c) <= chars.len(),
        text::position(chars, c) < chars.len() <==> chars.contains(c),
        text::position(chars, c) < chars.len() ==> chars[text::position(chars, c)] == c,
        forall|i: int| 0 <= i < text::position(chars, c) ==> chars[i] != c,
    decreases chars.len(),
{
    text::lemma_position_range(chars, c);
    if chars.len() > 0 && chars[0] != c {
        let rest = chars.drop_first();
        law_positions_are_the_first(rest, c);
        if chars.contains(c) {
            let i = choose|i: int| 0 <= i < chars.len() && chars[i] == c;
            assert(rest[i - 1] == c);
        }
        if rest.contains(c) {
            let i = choose|i: int| 0 <= i < rest.len() && rest[i] == c;
            assert(chars[i + 1] == c);
        }
        assert forall|i: int| 0 <= i < text::position(chars, c) implies chars[i] != c by {
            if i > 0 {
                assert(rest[i - 1] == chars[i]);
            }
        }
    }
}

} // verus!
