//! What holds of the texts that are written: JSON and header fields.

use crate::headers;
use crate::json;
use crate::laws::reading;
use vstd::prelude::*;
use vstd::string::*;

verus! {

/// The control characters that have an escape of one letter, in the order of these letters.
pub open spec fn lettered() -> Seq<char> {
    seq![8u8 as char, 12u8 as char, '\n', '\r', '\t']
}

/// The letters of the escapes of [`lettered`].
pub open spec fn letters() -> Seq<char> {
    seq!['b', 'f', 'n', 'r', 't']
}

/// A quote or a backslash is written behind a backslash, a control character with a letter by
/// that letter, and another control character by its code of four hexadecimal digits. All other
/// characters stand for themselves.
pub proof fn law_json_escapes_stand_for_their_characters(c: char, i: int)
    ensures
        c == '"' || c == '\\' ==> json::json_escape(c) == seq!['\\', c],
        0 <= i < 5 ==> json::json_escape(lettered()[i]) == seq!['\\', letters()[i]],
        (c as int) < 32 && !lettered().contains(c) ==> json::json_escape(c) == seq![
            '\\',
            'u',
            '0',
            '0',
            reading::hex_digits(false)[c as int / 16],
            reading::hex_digits(false)[c as int % 16],
        ],
        c as int >= 32 && c != '"' && c != '\\' ==> json::json_escape(c) == seq![c],
{
    reading::lemma_hex_digits();
    assert(lettered()[0] == 8u8 as char && lettered()[1] == 12u8 as char && lettered()[2] == '\n'
        && lettered()[3] == '\r' && lettered()[4] == '\t');
    if (c as int) < 32 && !lettered().contains(c) {
        let high = c as int / 16;
        let low = c as int % 16;
        assert(json::hex_digit(high) as int == reading::hex_digits(false)[high] as int);
        assert(json::hex_digit(low) as int == reading::hex_digits(false)[low] as int);
    }
}

/// The text between the quotes of a JSON string is written character by character.
pub proof fn law_json_strings_are_written_in_pieces(a: Seq<char>, b: Seq<char>, c: char)
    ensures
        json::json_escaped(a + b) == json::json_escaped(a) + json::json_escaped(b),
        json::json_escaped(seq![c]) == json::json_escape(c),
        json::json_escaped(Seq::empty()) == Seq::<char>::empty(),
        json::json_quoted(a) == seq!['"'] + json::json_escaped(a) + seq!['"'],
    decreases a.len(),
{
    assert(seq![c].drop_first() =~= Seq::empty());
    assert(json::json_escaped(Seq::<char>::empty()) =~= Seq::empty());
    assert(json::json_escaped(seq![c]) =~= json::json_escape(c));
    if a.len() == 0 {
        assert(a + b =~= b);
        assert(json::json_escaped(a) + json::json_escaped(b) =~= json::json_escaped(b));
    } else {
        law_json_strings_are_written_in_pieces(a.drop_first(), b, c);
        assert((a + b).drop_first() =~= a.drop_first() + b);
        assert(json::json_escaped(a + b) =~= json::json_escaped(a) + json::json_escaped(b));
    }
}

/// The value of a header field is a text where it holds tabs and printable characters alone, and
/// it may hold no other control character.
pub proof fn law_header_values_have_no_control_characters(b: u8)
    ensures
        headers::is_visible_byte(b) <==> b as char == '\t' || ' ' <= b as char && b as char <= '~',
        headers::is_value_byte(b) <==> headers::is_visible_byte(b) || b >= 128,
{
}

/// The characters besides letters and digits that a header name may hold.
pub open spec fn name_signs() -> Seq<char> {
    seq!['!', '"', '#', '$', '%', '&', '\'', '*', '+', '-', '.', '^', '_', '`', '|', '~']
}

/// A header name holds small letters, digits and the listed signs.
pub proof fn law_header_names_hold_letters_digits_and_signs(b: u8)
    ensures
        headers::is_name_byte(b) <==> 'a' <= b as char && b as char <= 'z' || '0' <= b as char
            && b as char <= '9' || name_signs().contains(b as char),
{
    let signs = name_signs();
    assert(signs[0] == '!' && signs[1] == '"' && signs[2] == '#' && signs[3] == '$' && signs[4]
        == '%' && signs[5] == '&' && signs[6] == '\'' && signs[7] == '*');
    assert(signs[8] == '+' && signs[9] == '-' && signs[10] == '.' && signs[11] == '^' && signs[12]
        == '_' && signs[13] == '`' && signs[14] == '|' && signs[15] == '~');
    if signs.contains(b as char) {
        let i = choose|i: int| 0 <= i < signs.len() && signs[i] == b as char;
        assert(0 <= i < 16);
    }
}

} // verus!
