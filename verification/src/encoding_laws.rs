//! What holds of all base64 and UTF-16: which numbers its digits and bytes are.
use vstd::prelude::*;
use vstd::utf8::char_is_scalar;
use vstd::utf8::char_u32_cast;

use crate::base64::decoded;
use crate::base64::digit_count;
use crate::base64::digit_value;
use crate::base64::encoded;
use crate::base64::is_base64;
use crate::base64::sextet;
use crate::base64::stream_byte;
use crate::base64::unpadded_len;
use crate::utf16::char_units;
use crate::utf16::is_high;
use crate::utf16::is_low;
use crate::utf16::le_bytes;
use crate::utf16::le_units;
use crate::utf16::text_of_units;
use crate::utf16::text_of_utf16_bytes;
use crate::utf16::units_of;

verus! {

/// The digits of base64 are the capital letters, the small letters, the decimal
/// digits, `+` and `/`, in this order.
pub proof fn law_base64_digits(byte: u8)
    ensures
        'A' as u8 <= byte <= 'Z' as u8 ==> digit_value(byte) == Some(byte - 'A' as u8),
        'a' as u8 <= byte <= 'z' as u8 ==> digit_value(byte) == Some(26 + byte - 'a' as u8),
        '0' as u8 <= byte <= '9' as u8 ==> digit_value(byte) == Some(52 + byte - '0' as u8),
        byte == '+' as u8 ==> digit_value(byte) == Some(62int),
        byte == '/' as u8 ==> digit_value(byte) == Some(63int),
        digit_value(byte) is Some ==> {
            ||| 'A' as u8 <= byte <= 'Z' as u8
            ||| 'a' as u8 <= byte <= 'z' as u8
            ||| '0' as u8 <= byte <= '9' as u8
            ||| byte == '+' as u8
            ||| byte == '/' as u8
        },
{
}

/// The number that a digit of a token stands for.
pub open spec fn value_at(token: Seq<u8>, i: int) -> int {
    digit_value(token[i])->0
}

/// The number that a digit of a text stands for.
pub open spec fn value_of_char(text: Seq<char>, i: int) -> int {
    digit_value(text[i] as u8)->0
}

/// The digits of base64 text.
proof fn lemma_encoded_value(bytes: Seq<u8>, i: int)
    requires
        0 <= i < digit_count(bytes.len()),
    ensures
        i < encoded(bytes).len(),
        digit_value(encoded(bytes)[i] as u8) == Some(sextet(bytes, i)),
        encoded(bytes)[i] != '=',
        encoded(bytes)[i] as u32 <= 127,
{
    crate::base64::lemma_sextet(bytes, i);
    crate::base64::lemma_digit(sextet(bytes, i));
}

/// Four base64 digits are the number that three bytes are. What is left of the
/// bytes, one or two, fills the digits it needs, with zero bits at the end, and
/// `=` fills the four.
pub proof fn law_base64_text_is_the_number_of_its_bytes(bytes: Seq<u8>, k: int)
    requires
        0 <= k,
        3 * k < bytes.len(),
    ensures
        ({
            let text = encoded(bytes);
            let left = bytes.len() - 3 * k;
            let first = value_of_char(text, 4 * k);
            let second = value_of_char(text, 4 * k + 1);
            let third = value_of_char(text, 4 * k + 2);
            let fourth = value_of_char(text, 4 * k + 3);
            &&& text.len() == (bytes.len() + 2) / 3 * 4
            &&& digit_value(text[4 * k] as u8) is Some && text[4 * k] as u32 <= 127
            &&& digit_value(text[4 * k + 1] as u8) is Some && text[4 * k + 1] as u32 <= 127
            &&& left == 1 ==> {
                &&& first * 64 + second == bytes[3 * k] * 16
                &&& text[4 * k + 2] == '='
                &&& text[4 * k + 3] == '='
            }
            &&& left == 2 ==> {
                &&& digit_value(text[4 * k + 2] as u8) is Some && text[4 * k + 2] as u32 <= 127
                &&& first * 4096 + second * 64 + third == (bytes[3 * k] * 256 + bytes[3 * k + 1])
                    * 4
                &&& text[4 * k + 3] == '='
            }
            &&& left >= 3 ==> {
                &&& digit_value(text[4 * k + 2] as u8) is Some && text[4 * k + 2] as u32 <= 127
                &&& digit_value(text[4 * k + 3] as u8) is Some && text[4 * k + 3] as u32 <= 127
                &&& first * 262144 + second * 4096 + third * 64 + fourth == bytes[3 * k] * 65536
                    + bytes[3 * k + 1] * 256 + bytes[3 * k + 2]
            }
        }),
{
    let left = bytes.len() - 3 * k;
    lemma_encoded_value(bytes, 4 * k);
    lemma_encoded_value(bytes, 4 * k + 1);
    assert((4 * k) / 4 == k && (4 * k) % 4 == 0);
    assert((4 * k + 1) / 4 == k && (4 * k + 1) % 4 == 1);
    assert((4 * k + 2) / 4 == k && (4 * k + 2) % 4 == 2);
    assert((4 * k + 3) / 4 == k && (4 * k + 3) % 4 == 3);
    if left >= 2 {
        lemma_encoded_value(bytes, 4 * k + 2);
    }
    if left >= 3 {
        lemma_encoded_value(bytes, 4 * k + 3);
    }
}

/// Base64 text has four characters for every three bytes begun.
pub proof fn law_base64_length(bytes: Seq<u8>)
    ensures
        encoded(bytes).len() % 4 == 0,
        3 * encoded(bytes).len() >= 4 * bytes.len(),
        3 * encoded(bytes).len() < 4 * (bytes.len() + 3),
{
}

/// Whether a token ends in exactly this many `=`, and has nothing but digits
/// before them.
pub open spec fn has_padding(token: Seq<u8>, padding: int) -> bool {
    &&& 0 <= padding <= token.len()
    &&& forall|i: int|
        0 <= i < token.len() - padding ==> digit_value(#[trigger] token[i]) is Some
    &&& forall|i: int| token.len() - padding <= i < token.len() ==> #[trigger] token[i] == '=' as u8
}

/// The padding of base64 text.
proof fn lemma_padding(token: Seq<u8>, padding: int)
    requires
        has_padding(token, padding),
    ensures
        unpadded_len(token) == token.len() - padding,
{
    let end = (token.len() - padding) as nat;
    if end > 0 {
        assert(digit_value(token[end - 1]) is Some);
    }
    crate::base64::lemma_unpadded_len(token, end);
}

/// Only `=` stands behind the digits.
proof fn lemma_unpadded(token: Seq<u8>)
    ensures
        unpadded_len(token) <= token.len(),
        forall|i: int| unpadded_len(token) <= i < token.len() ==> #[trigger] token[i] == 61,
    decreases token.len(),
{
    if token.len() > 0 && token.last() == 61 {
        let rest = token.drop_last();
        lemma_unpadded(rest);
        assert forall|i: int| unpadded_len(token) <= i < token.len() implies #[trigger] token[i]
            == 61 by {
            if i < rest.len() {
                assert(rest[i] == token[i]);
            }
        }
    }
}

/// A token is base64 text exactly where it is not empty, its length is a multiple
/// of four, and it is digits with at most two `=` behind them.
pub proof fn law_base64_token(token: Seq<u8>)
    ensures
        decoded(token) is Some <==> {
            &&& token.len() > 0
            &&& token.len() % 4 == 0
            &&& exists|padding: int| 0 <= padding <= 2 && #[trigger] has_padding(token, padding)
        },
{
    lemma_unpadded(token);
    if is_base64(token) {
        assert(has_padding(token, token.len() - unpadded_len(token)));
    }
    if exists|padding: int| 0 <= padding <= 2 && #[trigger] has_padding(token, padding) {
        let padding = choose|padding: int|
            0 <= padding <= 2 && #[trigger] has_padding(token, padding);
        lemma_padding(token, padding);
    }
}

/// Three bytes are the number that four base64 digits are; two bytes that of three
/// digits without its lowest two bits, and one byte that of two digits without its
/// lowest four.
pub proof fn law_bytes_are_the_number_of_their_base64(token: Seq<u8>, padding: int, k: int)
    requires
        decoded(token) is Some,
        has_padding(token, padding),
        0 <= k,
        4 * k < token.len(),
    ensures
        ({
            let bytes = decoded(token)->0;
            let digits = token.len() - padding - 4 * k;
            let first = value_at(token, 4 * k);
            let second = value_at(token, 4 * k + 1);
            let third = value_at(token, 4 * k + 2);
            let fourth = value_at(token, 4 * k + 3);
            &&& bytes.len() == token.len() / 4 * 3 - padding
            &&& digits == 2 ==> bytes[3 * k] == (first * 64 + second) / 16
            &&& digits == 3 ==> bytes[3 * k] * 256 + bytes[3 * k + 1] == (first * 4096 + second * 64
                + third) / 4
            &&& digits >= 4 ==> bytes[3 * k] * 65536 + bytes[3 * k + 1] * 256 + bytes[3 * k + 2]
                == first * 262144 + second * 4096 + third * 64 + fourth
            &&& digits >= 2
        }),
{
    lemma_padding(token, padding);
    let digits = token.len() - padding - 4 * k;
    let bytes = decoded(token)->0;
    let n = token.len() / 4;
    assert(token.len() == 4 * n);
    assert(bytes.len() == (token.len() - padding) * 6 / 8);
    assert((3 * k) / 3 == k && (3 * k) % 3 == 0);
    assert((3 * k + 1) / 3 == k && (3 * k + 1) % 3 == 1);
    assert((3 * k + 2) / 3 == k && (3 * k + 2) % 3 == 2);
    assert(digit_value(token[4 * k]) is Some);
    assert(digit_value(token[4 * k + 1]) is Some);
    assert(bytes[3 * k] == stream_byte(token, 3 * k));
    if digits >= 3 {
        assert(digit_value(token[4 * k + 2]) is Some);
        assert(bytes[3 * k + 1] == stream_byte(token, 3 * k + 1));
    }
    if digits >= 4 {
        assert(digit_value(token[4 * k + 3]) is Some);
        assert(bytes[3 * k + 2] == stream_byte(token, 3 * k + 2));
    }
}

/// The code units of two texts, one behind the other.
proof fn lemma_units_join(a: Seq<char>, b: Seq<char>)
    ensures
        units_of(a + b) == units_of(a) + units_of(b),
    decreases a.len(),
{
    if a.len() == 0 {
        assert(a + b =~= b);
        assert(units_of(a) + units_of(b) =~= units_of(b));
    } else {
        lemma_units_join(a.drop_first(), b);
        assert((a + b).drop_first() =~= a.drop_first() + b);
        assert(char_units(a[0]) + (units_of(a.drop_first()) + units_of(b)) =~= char_units(a[0])
            + units_of(a.drop_first()) + units_of(b));
    }
}

/// UTF-16 goes character by character. One below `10000` is its own code unit; any
/// other is a high and a low surrogate, which hold ten bits each of what it is
/// above that.
pub proof fn law_utf16_goes_by_character(before: Seq<char>, c: char, behind: Seq<char>)
    ensures
        units_of(Seq::<char>::empty()) == Seq::<u16>::empty(),
        ({
            let units = units_of(before + seq![c] + behind);
            let at = units_of(before).len() as int;
            if (c as u32) < 0x10000 {
                &&& units == units_of(before) + seq![units[at]] + units_of(behind)
                &&& units[at] == c as u32
            } else {
                &&& units == units_of(before) + seq![units[at], units[at + 1]] + units_of(behind)
                &&& 0xd800 <= units[at] <= 0xdbff
                &&& 0xdc00 <= units[at + 1] <= 0xdfff
                &&& 0x10000 + (units[at] - 0xd800) * 0x400 + (units[at + 1] - 0xdc00) == c as u32
            }
        }),
{
    char_is_scalar(c);
    let whole = before + seq![c] + behind;
    let rest = seq![c] + behind;
    assert(whole =~= before + rest);
    lemma_units_join(before, rest);
    assert(rest.drop_first() =~= behind);
    assert(units_of(rest) == char_units(c) + units_of(behind));
    let units = units_of(whole);
    let at = units_of(before).len() as int;
    assert(units[at] == char_units(c)[0]);
    if (c as u32) < 0x10000 {
        assert(units =~= units_of(before) + seq![units[at]] + units_of(behind));
    } else {
        assert(units[at + 1] == char_units(c)[1]);
        assert(units =~= units_of(before) + seq![units[at], units[at + 1]] + units_of(behind));
    }
}

/// Each code unit is two bytes, the lower one first.
pub proof fn law_code_unit_is_two_bytes(units: Seq<u16>, i: int)
    requires
        0 <= i < units.len(),
    ensures
        le_bytes(units).len() == 2 * units.len(),
        le_bytes(units)[2 * i] + 256 * le_bytes(units)[2 * i + 1] == units[i],
{
    assert((2 * i) / 2 == i && (2 * i) % 2 == 0);
    assert((2 * i + 1) / 2 == i && (2 * i + 1) % 2 == 1);
}

/// Encoding the text that code units spell gives the code units back.
proof fn lemma_units_of_text(units: Seq<u16>)
    ensures
        text_of_units(units) matches Some(text) ==> units_of(text) == units,
    decreases units.len(),
{
    if units.len() > 0 {
        if !is_high(units[0]) && !is_low(units[0]) {
            lemma_units_of_text(units.skip(1));
            match text_of_units(units.skip(1)) {
                Some(rest) => {
                    let c = (units[0] as u32) as char;
                    let text = seq![c] + rest;
                    char_u32_cast(c, units[0] as u32);
                    assert(text.drop_first() =~= rest);
                    assert(char_units(c) =~= seq![units[0]]);
                    assert(units =~= seq![units[0]] + units.skip(1));
                },
                None => {},
            }
        } else if is_high(units[0]) && units.len() > 1 && is_low(units[1]) {
            lemma_units_of_text(units.skip(2));
            match text_of_units(units.skip(2)) {
                Some(rest) => {
                    let code = (0x10000 + (units[0] - 0xd800) * 0x400 + (units[1]
                        - 0xdc00)) as u32;
                    let c = code as char;
                    let text = seq![c] + rest;
                    char_u32_cast(c, code);
                    assert(text.drop_first() =~= rest);
                    assert(c as u32 == code);
                    assert(char_units(c) =~= seq![units[0], units[1]]);
                    assert(units =~= seq![units[0], units[1]] + units.skip(2));
                },
                None => {},
            }
        }
    } else {
        assert(units =~= seq![]);
    }
}

/// Bytes read as a text exactly where they are that text's little-endian UTF-16.
pub proof fn law_bytes_read_as_their_text(bytes: Seq<u8>, text: Seq<char>)
    ensures
        text_of_utf16_bytes(bytes) == Some(text) <==> bytes == le_bytes(units_of(text)),
{
    if text_of_utf16_bytes(bytes) == Some(text) {
        let units = le_units(bytes);
        lemma_units_of_text(units);
        let again = le_bytes(units);
        assert(again.len() == bytes.len());
        assert forall|i: int| 0 <= i < bytes.len() implies again[i] == bytes[i] by {
            let at = i / 2;
            assert(units[at] == bytes[2 * at] + bytes[2 * at + 1] * 256);
            assert(i == 2 * at || i == 2 * at + 1);
        }
        assert(again =~= bytes);
    }
    if bytes == le_bytes(units_of(text)) {
        crate::utf16::law_bytes_read_back(text);
    }
}

} // verus!
