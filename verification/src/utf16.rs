//! UTF-16, and its code units as little-endian bytes.
use vstd::prelude::*;
use vstd::utf8::char_is_scalar;
use vstd::utf8::char_u32_cast;

use crate::text::chars_of;

verus! {

/// `char::from_u32` gives the character with a code point, or `None` for a
/// number that is no character: a surrogate, or one above `10FFFF`.
pub assume_specification[ char::from_u32 ](i: u32) -> (c: Option<char>)
    ensures
        c == (if i < 0xd800 || 0xe000 <= i <= 0x10ffff {
            Some(i as char)
        } else {
            None
        }),
;

/// The code units of one character.
pub open spec fn char_units(c: char) -> Seq<u16> {
    if (c as u32) < 0x10000 {
        seq![(c as u32) as u16]
    } else {
        let above = c as u32 - 0x10000;
        seq![(0xd800 + above / 0x400) as u16, (0xdc00 + above % 0x400) as u16]
    }
}

/// The code units of a text.
pub open spec fn units_of(text: Seq<char>) -> Seq<u16>
    decreases text.len(),
{
    if text.len() == 0 {
        seq![]
    } else {
        char_units(text[0]) + units_of(text.drop_first())
    }
}

/// Whether a code unit is the first half of a surrogate pair.
pub open spec fn is_high(unit: u16) -> bool {
    0xd800 <= unit <= 0xdbff
}

/// Whether a code unit is the second half of a surrogate pair.
pub open spec fn is_low(unit: u16) -> bool {
    0xdc00 <= unit <= 0xdfff
}

/// The text that code units spell; `None` where a surrogate has no partner.
pub open spec fn text_of_units(units: Seq<u16>) -> Option<Seq<char>>
    decreases units.len(),
{
    if units.len() == 0 {
        Some(seq![])
    } else if !is_high(units[0]) && !is_low(units[0]) {
        match text_of_units(units.skip(1)) {
            Some(rest) => Some(seq![(units[0] as u32) as char] + rest),
            None => None,
        }
    } else if is_high(units[0]) && units.len() > 1 && is_low(units[1]) {
        let c = (0x10000 + (units[0] - 0xd800) * 0x400 + (units[1] - 0xdc00)) as u32 as char;
        match text_of_units(units.skip(2)) {
            Some(rest) => Some(seq![c] + rest),
            None => None,
        }
    } else {
        None
    }
}

/// Code units as bytes, the low byte of each first.
pub open spec fn le_bytes(units: Seq<u16>) -> Seq<u8> {
    Seq::new(
        units.len() * 2,
        |i: int|
            if i % 2 == 0 {
                (units[i / 2] % 256) as u8
            } else {
                (units[i / 2] / 256) as u8
            },
    )
}

/// The code units that pairs of bytes stand for.
pub open spec fn le_units(bytes: Seq<u8>) -> Seq<u16> {
    Seq::new(bytes.len() / 2, |i: int| (bytes[2 * i] + bytes[2 * i + 1] * 256) as u16)
}

/// The text that bytes hold as little-endian UTF-16.
pub open spec fn text_of_utf16_bytes(bytes: Seq<u8>) -> Option<Seq<char>> {
    if bytes.len() % 2 == 0 {
        text_of_units(le_units(bytes))
    } else {
        None
    }
}

/// A text as little-endian UTF-16.
pub fn utf16_bytes(text: &str) -> (bytes: Vec<u8>)
    ensures
        bytes@ == le_bytes(units_of(text@)),
{
    let chars = chars_of(text);
    let mut bytes: Vec<u8> = Vec::new();
    let ghost mut done: Seq<u16> = seq![];
    let mut i: usize = 0;
    assert(text@.skip(0) =~= text@);
    assert(done + units_of(text@) =~= units_of(text@));
    while i < chars.len()
        invariant
            chars@ == text@,
            i <= chars@.len(),
            done + units_of(text@.skip(i as int)) == units_of(text@),
            bytes@ == le_bytes(done),
        decreases chars@.len() - i,
    {
        let c = chars[i];
        proof {
            char_is_scalar(c);
        }
        let code: u32 = c as u32;
        let ghost next = done + char_units(c);
        if code < 0x10000 {
            bytes.push((code % 256) as u8);
            bytes.push((code / 256) as u8);
        } else {
            let above: u32 = code - 0x10000;
            let high: u32 = 0xd800 + above / 0x400;
            let low: u32 = 0xdc00 + above % 0x400;
            bytes.push((high % 256) as u8);
            bytes.push((high / 256) as u8);
            bytes.push((low % 256) as u8);
            bytes.push((low / 256) as u8);
        }
        proof {
            assert(bytes@ =~= le_bytes(next));
            assert(text@.skip(i as int).drop_first() =~= text@.skip(i + 1));
            assert(next + units_of(text@.skip(i + 1)) =~= done + units_of(text@.skip(i as int)));
            done = next;
        }
        i += 1;
    }
    proof {
        assert(done + units_of(text@.skip(i as int)) =~= done);
    }
    bytes
}

/// The text that bytes hold as little-endian UTF-16, if they hold one.
pub fn text_from_utf16_bytes(bytes: &Vec<u8>) -> (text: Option<String>)
    ensures
        match text {
            Some(s) => text_of_utf16_bytes(bytes@) == Some(s@),
            None => text_of_utf16_bytes(bytes@) is None,
        },
{
    if bytes.len() % 2 != 0 {
        return None;
    }
    let mut units: Vec<u16> = Vec::new();
    let mut at: usize = 0;
    while at < bytes.len()
        invariant
            bytes@.len() % 2 == 0,
            at % 2 == 0,
            at <= bytes@.len(),
            units@ == le_units(bytes@).take((at / 2) as int),
        decreases bytes@.len() - at,
    {
        units.push(bytes[at] as u16 + bytes[at + 1] as u16 * 256);
        at += 2;
    }
    assert(units@ =~= le_units(bytes@));
    text_from_units(&units)
}

/// The text that code units spell, if they spell one.
fn text_from_units(units: &Vec<u16>) -> (text: Option<String>)
    ensures
        match text {
            Some(s) => text_of_units(units@) == Some(s@),
            None => text_of_units(units@) is None,
        },
{
    let mut text = String::new();
    let mut i: usize = 0;
    assert(units@.skip(0) =~= units@);
    while i < units.len()
        invariant
            i <= units@.len(),
            text_of_units(units@) == (match text_of_units(units@.skip(i as int)) {
                Some(rest) => Some(text@ + rest),
                None => None,
            }),
        decreases units@.len() - i,
    {
        let first: u16 = units[i];
        let ghost before = text@;
        let ghost left = units@.skip(i as int);
        if first < 0xd800 || first > 0xdfff {
            match char::from_u32(first as u32) {
                Some(c) => text.push(c),
                None => return None,
            }
            assert(left.skip(1) =~= units@.skip(i + 1));
            i += 1;
        } else if first <= 0xdbff && units.len() - i > 1 && 0xdc00 <= units[i + 1] && units[i + 1]
            <= 0xdfff {
            let code: u32 = 0x10000 + (first as u32 - 0xd800) * 0x400 + (units[i + 1] as u32
                - 0xdc00);
            match char::from_u32(code) {
                Some(c) => text.push(c),
                None => return None,
            }
            assert(left.skip(2) =~= units@.skip(i + 2));
            i += 2;
        } else {
            return None;
        }
        proof {
            match text_of_units(units@.skip(i as int)) {
                Some(rest) => {
                    assert(before + (seq![text@.last()] + rest) =~= text@ + rest);
                },
                None => {},
            }
        }
    }
    proof {
        assert(units@.skip(i as int) =~= seq![]);
        assert(text@ + seq![] =~= text@);
    }
    Some(text)
}

/// Decoding the code units of a text gives the text back.
pub proof fn law_decode_undoes_encode(text: Seq<char>)
    ensures
        text_of_units(units_of(text)) == Some(text),
    decreases text.len(),
{
    if text.len() == 0 {
        assert(text =~= seq![]);
    } else {
        let rest = text.drop_first();
        char_is_scalar(text[0]);
        law_decode_undoes_encode(rest);
        let units = units_of(text);
        let width = char_units(text[0]).len() as int;
        assert(units.skip(width) =~= units_of(rest));
        assert(units[0] == char_units(text[0])[0]);
        if width == 1 {
            char_u32_cast(text[0], units[0] as u32);
        } else {
            assert(units[1] == char_units(text[0])[1]);
            char_u32_cast(
                text[0],
                (0x10000 + (units[0] - 0xd800) * 0x400 + (units[1] - 0xdc00)) as u32,
            );
        }
        assert(seq![text[0]] + rest =~= text);
    }
}

/// Pairing up the bytes of code units gives the code units back.
proof fn lemma_le_units(units: Seq<u16>)
    ensures
        le_units(le_bytes(units)) == units,
{
    assert forall|i: int| 0 <= i < units.len() implies le_units(le_bytes(units))[i] == units[i] by {
        assert(le_bytes(units)[2 * i] == units[i] % 256);
        assert(le_bytes(units)[2 * i + 1] == units[i] / 256);
    }
    assert(le_units(le_bytes(units)) =~= units);
}

/// Reading a text's little-endian UTF-16 gives the text back.
pub proof fn law_bytes_read_back(text: Seq<char>)
    ensures
        text_of_utf16_bytes(le_bytes(units_of(text))) == Some(text),
{
    lemma_le_units(units_of(text));
    law_decode_undoes_encode(text);
}

} // verus!
