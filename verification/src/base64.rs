//! Standard base64, with `=` padding.
use vstd::prelude::*;
use vstd::string::StringSliceAdditionalSpecFns;
use vstd::utf8::is_ascii_chars;
use vstd::utf8::is_ascii_chars_encode_utf8;

verus! {

/// The six bits that a byte of base64 text stands for, if it is a digit of the
/// alphabet.
pub open spec fn digit_value(byte: u8) -> Option<int> {
    if 65 <= byte <= 90 {
        Some(byte - 65)
    } else if 97 <= byte <= 122 {
        Some(byte - 97 + 26)
    } else if 48 <= byte <= 57 {
        Some(byte - 48 + 52)
    } else if byte == 43 {
        Some(62int)
    } else if byte == 47 {
        Some(63int)
    } else {
        None
    }
}

/// The digit for six bits.
pub open spec fn digit_char(bits: int) -> char {
    if bits < 26 {
        (65 + bits) as char
    } else if bits < 52 {
        (97 + bits - 26) as char
    } else if bits < 62 {
        (48 + bits - 52) as char
    } else if bits == 62 {
        '+'
    } else {
        '/'
    }
}

/// How many bytes of `token` stand before the `=` signs at its end.
pub open spec fn unpadded_len(token: Seq<u8>) -> nat
    decreases token.len(),
{
    if token.len() > 0 && token.last() == 61 {
        unpadded_len(token.drop_last())
    } else {
        token.len()
    }
}

/// Byte `i` of the bit stream that the digits of `token` spell, six bits each
/// and the highest first.
pub open spec fn stream_byte(token: Seq<u8>, i: int) -> int {
    let first = i / 3 * 4 + i % 3;
    let high = digit_value(token[first])->0;
    let low = digit_value(token[first + 1])->0;
    if i % 3 == 0 {
        high * 4 + low / 16
    } else if i % 3 == 1 {
        high % 16 * 16 + low / 4
    } else {
        high % 4 * 64 + low
    }
}

/// Whether the bytes of `token` are base64 text: a multiple of four, not none,
/// and digits of the alphabet up to the padding, which is at most two `=`.
pub open spec fn is_base64(token: Seq<u8>) -> bool {
    &&& token.len() > 0
    &&& token.len() % 4 == 0
    &&& token.len() - unpadded_len(token) <= 2
    &&& forall|i: int|
        0 <= i < unpadded_len(token) ==> digit_value(#[trigger] token[i]) is Some
}

/// The bytes that base64 text stands for: the whole bytes of its bit stream.
pub open spec fn decoded(token: Seq<u8>) -> Option<Seq<u8>> {
    if is_base64(token) {
        Some(
            Seq::new(
                (unpadded_len(token) * 6 / 8) as nat,
                |i: int| stream_byte(token, i) as u8,
            ),
        )
    } else {
        None
    }
}

/// Sextet `i` of `bytes` read as a bit stream, with zero bits behind its end.
pub open spec fn sextet(bytes: Seq<u8>, i: int) -> int {
    let at = i / 4 * 3 + i % 4;
    let here: int = if at < bytes.len() {
        bytes[at] as int
    } else {
        0
    };
    let before: int = if i % 4 > 0 {
        bytes[at - 1] as int
    } else {
        0
    };
    if i % 4 == 0 {
        here / 4
    } else if i % 4 == 1 {
        before % 4 * 16 + here / 16
    } else if i % 4 == 2 {
        before % 16 * 4 + here / 64
    } else {
        before % 64
    }
}

/// The number of digits that hold `len` bytes.
pub open spec fn digit_count(len: nat) -> nat {
    (len * 8 + 5) as nat / 6
}

/// The base64 text of `bytes`: its sextets, then `=` up to a multiple of four.
pub open spec fn encoded(bytes: Seq<u8>) -> Seq<char> {
    Seq::new(
        (bytes.len() + 2) as nat / 3 * 4,
        |i: int|
            if i < digit_count(bytes.len()) {
                digit_char(sextet(bytes, i))
            } else {
                '='
            },
    )
}

/// Digit `i`, where it is not the first of its four, completes the byte that
/// begins in the digit before it.
proof fn lemma_digit_completes_byte(i: int)
    requires
        0 <= i,
    ensures
        i % 4 == 0 ==> (i + 1) * 6 / 8 == i * 6 / 8 && i * 6 % 8 == 0 && (i + 1) * 6 % 8 == 6,
        i % 4 != 0 ==> {
            let byte = i * 6 / 8;
            &&& byte / 3 * 4 + byte % 3 == i - 1
            &&& byte % 3 == i % 4 - 1
            &&& (i + 1) * 6 / 8 == byte + 1
            &&& i * 6 % 8 == 8 - 2 * (i % 4)
            &&& (i + 1) * 6 % 8 == 6 - 2 * (i % 4)
        },
{
    let k = i / 4;
    assert(i == 4 * k + i % 4);
}

/// Decodes one standard base64 token, or returns `None` when it is not one.
#[verifier::spinoff_prover]
pub fn decode_base64(token: &str) -> (output: Option<Vec<u8>>)
    ensures
        match output {
            Some(bytes) => decoded(token.spec_bytes()) == Some(bytes@),
            None => decoded(token.spec_bytes()) is None,
        },
{
    let bytes = token.as_bytes();
    if bytes.len() == 0 || bytes.len() % 4 != 0 {
        return None;
    }
    let mut end: usize = bytes.len();
    assert(bytes@.take(end as int) =~= bytes@);
    while end > 0 && bytes[end - 1] == 61
        invariant
            end <= bytes@.len(),
            unpadded_len(bytes@.take(end as int)) == unpadded_len(bytes@),
        ensures
            end <= bytes@.len(),
            end == unpadded_len(bytes@),
        decreases end,
    {
        assert(bytes@.take(end as int).drop_last() =~= bytes@.take(end - 1));
        end -= 1;
    }
    if bytes.len() - end > 2 {
        return None;
    }
    let mut bits: u32 = 0;
    let mut count: u32 = 0;
    let mut output: Vec<u8> = Vec::new();
    let mut i: usize = 0;
    while i < end
        invariant
            bytes@ == token.spec_bytes(),
            bytes@.len() > 0,
            bytes@.len() % 4 == 0,
            end <= bytes@.len(),
            bytes@.len() - end <= 2,
            end == unpadded_len(bytes@),
            i <= end,
            forall|j: int| 0 <= j < i ==> digit_value(#[trigger] bytes@[j]) is Some,
            output@.len() == i * 6 / 8,
            forall|j: int|
                0 <= j < output@.len() ==> output@[j] == stream_byte(bytes@, j),
            count == i * 6 % 8,
            i % 4 == 0 ==> bits == 0,
            i % 4 == 1 ==> bits == digit_value(bytes@[i - 1])->0,
            i % 4 == 2 ==> bits == digit_value(bytes@[i - 1])->0 % 16,
            i % 4 == 3 ==> bits == digit_value(bytes@[i - 1])->0 % 4,
        decreases end - i,
    {
        proof {
            lemma_digit_completes_byte(i as int);
        }
        let byte: u8 = bytes[i];
        let value: u8 = if 65 <= byte && byte <= 90 {
            byte - 65
        } else if 97 <= byte && byte <= 122 {
            byte - 97 + 26
        } else if 48 <= byte && byte <= 57 {
            byte - 48 + 52
        } else if byte == 43 {
            62
        } else if byte == 47 {
            63
        } else {
            return None;
        };
        let shifted: u32 = (bits << 6) | (value as u32);
        assert(shifted == bits * 64 + value) by (bit_vector)
            requires
                shifted == (bits << 6) | (value as u32),
                bits < 64,
                value < 64,
        ;
        bits = shifted;
        count += 6;
        if count >= 8 {
            count -= 8;
            assert((1u32 << 4) == 16 && (1u32 << 2) == 4 && (1u32 << 0) == 1) by (bit_vector);
            assert(bits >> 4 == bits / 16 && bits & 15 == bits % 16) by (bit_vector);
            assert(bits >> 2 == bits / 4 && bits & 3 == bits % 4) by (bit_vector);
            assert(bits >> 0 == bits && bits & 0 == 0) by (bit_vector);
            assert(count == 6 - 2 * (i % 4));
            let whole: u32 = bits >> count;
            let rest: u32 = bits & ((1u32 << count) - 1);
            assert(whole == stream_byte(bytes@, output@.len() as int) && whole < 256);
            output.push(whole as u8);
            bits = rest;
        }
        i += 1;
    }
    Some(output)
}

/// The digit for six bits.
fn digit(bits: u8) -> (c: char)
    requires
        bits < 64,
    ensures
        c == digit_char(bits as int),
{
    let byte: u8 = if bits < 26 {
        65 + bits
    } else if bits < 52 {
        97 + (bits - 26)
    } else if bits < 62 {
        48 + (bits - 52)
    } else if bits == 62 {
        43
    } else {
        47
    };
    byte as char
}

/// The standard base64 text of `bytes`.
pub fn base64_encode(bytes: &[u8]) -> (text: String)
    ensures
        text@ == encoded(bytes@),
{
    let len: usize = bytes.len();
    let mut text = String::new();
    let mut at: usize = 0;
    while at < len
        invariant
            len == bytes@.len(),
            at <= len,
            at % 3 == 0 || at == len,
            text@ == encoded(bytes@).take((at + 2) / 3 * 4),
        decreases len - at,
    {
        let left: usize = len - at;
        let first: u8 = bytes[at];
        let second: u8 = if left > 1 { bytes[at + 1] } else { 0 };
        let third: u8 = if left > 2 { bytes[at + 2] } else { 0 };
        let ghost before = text@;
        let ghost from = at / 3 * 4;
        text.push(digit(first / 4));
        text.push(digit(first % 4 * 16 + second / 16));
        text.push(if left > 1 { digit(second % 16 * 4 + third / 64) } else { '=' });
        text.push(if left > 2 { digit(third % 64) } else { '=' });
        assert(forall|j: int| from <= j < from + 4 ==> #[trigger] text@[j] == encoded(bytes@)[j]) by {
            assert(text@[from as int] == encoded(bytes@)[from as int]);
            assert(text@[from + 1] == encoded(bytes@)[from + 1]);
            assert(text@[from + 2] == encoded(bytes@)[from + 2]);
            assert(text@[from + 3] == encoded(bytes@)[from + 3]);
        }
        at = if left < 3 { len } else { at + 3 };
        assert(text@ =~= encoded(bytes@).take((at + 2) / 3 * 4));
    }
    assert(encoded(bytes@).take((len + 2) / 3 * 4) =~= encoded(bytes@));
    text
}

/// The digit for six bits is an ASCII character that stands for these bits and
/// is not the padding.
pub(crate) proof fn lemma_digit(bits: int)
    requires
        0 <= bits < 64,
    ensures
        digit_char(bits) as u32 <= 127,
        digit_char(bits) != '=',
        digit_value(digit_char(bits) as u8) == Some(bits),
{
}

/// A sextet is a number of six bits.
pub(crate) proof fn lemma_sextet(bytes: Seq<u8>, i: int)
    requires
        0 <= i < digit_count(bytes.len()),
    ensures
        0 <= sextet(bytes, i) < 64,
{
}

/// Where only `=` stands from `end` on, and no `=` right before it, the text
/// ends its digits at `end`.
pub(crate) proof fn lemma_unpadded_len(token: Seq<u8>, end: nat)
    requires
        end <= token.len(),
        end > 0 ==> token[end - 1] != 61,
        forall|i: int| end <= i < token.len() ==> token[i] == 61,
    ensures
        unpadded_len(token) == end,
    decreases token.len(),
{
    if token.len() > end {
        lemma_unpadded_len(token.drop_last(), end);
    }
}

/// Base64 text is ASCII: as bytes it is the same characters.
pub(crate) proof fn lemma_encoded_bytes(bytes: Seq<u8>)
    ensures
        is_ascii_chars(encoded(bytes)),
        vstd::utf8::encode_utf8(encoded(bytes)) == Seq::new(
            encoded(bytes).len(),
            |i: int| encoded(bytes)[i] as u8,
        ),
{
    assert forall|i: int| 0 <= i < encoded(bytes).len() implies encoded(bytes)[i] as u32 <= 127 by {
        if i < digit_count(bytes.len()) {
            lemma_sextet(bytes, i);
            lemma_digit(sextet(bytes, i));
        }
    }
    is_ascii_chars_encode_utf8(encoded(bytes));
}

/// Decoding the base64 text of some bytes gives these bytes back. (The text of
/// no bytes at all is empty, and no token.)
pub proof fn law_decode_undoes_encode(bytes: Seq<u8>)
    requires
        bytes.len() > 0,
    ensures
        decoded(vstd::utf8::encode_utf8(encoded(bytes))) == Some(bytes),
{
    let token = vstd::utf8::encode_utf8(encoded(bytes));
    let count = digit_count(bytes.len());
    lemma_encoded_bytes(bytes);
    assert forall|i: int| 0 <= i < count implies digit_value(#[trigger] token[i]) == Some(
        sextet(bytes, i),
    ) by {
        lemma_sextet(bytes, i);
        lemma_digit(sextet(bytes, i));
    }
    lemma_unpadded_len(token, count);
    assert(is_base64(token));
    assert(count * 6 / 8 == bytes.len());
    assert forall|i: int| 0 <= i < bytes.len() implies stream_byte(token, i) == bytes[i] by {
        let first = i / 3 * 4 + i % 3;
        assert(0 <= first && first + 1 < count);
        assert(digit_value(token[first]) == Some(sextet(bytes, first)));
        assert(digit_value(token[first + 1]) == Some(sextet(bytes, first + 1)));
    }
    assert(decoded(token)->0 =~= bytes);
}

} // verus!
