use luvus_devin::base64::base64_encode;
use luvus_devin::base64::decode_base64;
use luvus_devin::text::contains;
use luvus_devin::text::is_whitespace;
use luvus_devin::text::replace;
use luvus_devin::text::same_text;
use luvus_devin::text::to_ascii_lower;
use luvus_devin::utf16::text_from_utf16_bytes;
use luvus_devin::utf16::utf16_bytes;

#[test]
fn base64_text_has_the_standard_digits_and_padding() {
    assert_eq!(base64_encode(b""), "");
    assert_eq!(base64_encode(b"f"), "Zg==");
    assert_eq!(base64_encode(b"fo"), "Zm8=");
    assert_eq!(base64_encode(b"foo"), "Zm9v");
    assert_eq!(base64_encode(b"foob"), "Zm9vYg==");
    assert_eq!(base64_encode(b"foobar"), "Zm9vYmFy");
    assert_eq!(base64_encode(&[0xfb, 0xff, 0xbf]), "+/+/");
}

#[test]
fn base64_decoding_undoes_encoding() {
    let mut bytes: Vec<u8> = Vec::new();
    for i in 0..300u32 {
        bytes.push((i * 37 % 256) as u8);
        assert_eq!(decode_base64(&base64_encode(&bytes)), Some(bytes.clone()));
    }
}

#[test]
fn base64_decoding_takes_only_whole_tokens() {
    assert_eq!(decode_base64(""), None);
    assert_eq!(decode_base64("Zm9"), None);
    assert_eq!(decode_base64("Zm9vY"), None);
    assert_eq!(decode_base64("Zm9-"), None);
    assert_eq!(decode_base64("Zm 9"), None);
    assert_eq!(decode_base64("Z=9v"), None);
    assert_eq!(decode_base64("éé"), None);
    // At most two `=` are padding.
    assert_eq!(decode_base64("===="), None);
    assert_eq!(decode_base64("A==="), None);
    assert_eq!(decode_base64("Zm9vA==="), None);
    assert_eq!(decode_base64("Zm9v===="), None);
    assert_eq!(decode_base64("Zg=="), Some(b"f".to_vec()));
    assert_eq!(decode_base64("Zm9v"), Some(b"foo".to_vec()));
    assert_eq!(decode_base64("Zm8="), Some(b"fo".to_vec()));
    // Bits behind the last whole byte do not count.
    assert_eq!(decode_base64("Zm9="), Some(b"fo".to_vec()));
}

#[test]
fn utf16_agrees_with_the_standard_library() {
    for text in ["", "plain", "c'd é", "黑风雷", "a\u{1f600}b\u{10ffff}\u{ffff}"] {
        let expected: Vec<u8> = text.encode_utf16().flat_map(u16::to_le_bytes).collect();
        let bytes = utf16_bytes(text);
        assert_eq!(bytes, expected);
        assert_eq!(text_from_utf16_bytes(&bytes).as_deref(), Some(text));
    }
}

#[test]
fn utf16_refuses_lone_surrogates_and_odd_bytes() {
    let read = |units: &[u16]| {
        let bytes: Vec<u8> = units.iter().flat_map(|unit| unit.to_le_bytes()).collect();
        assert_eq!(text_from_utf16_bytes(&bytes), String::from_utf16(units).ok());
        text_from_utf16_bytes(&bytes)
    };
    assert_eq!(read(&[0xd800]), None);
    assert_eq!(read(&[0xdc00, 0xd800]), None);
    assert_eq!(read(&[0xd800, 0x41]), None);
    assert_eq!(read(&[0xd83d, 0xde00]).as_deref(), Some("\u{1f600}"));
    assert_eq!(read(&[0xd7ff, 0xe000]).as_deref(), Some("\u{d7ff}\u{e000}"));
    assert_eq!(text_from_utf16_bytes(&vec![0x41]), None);
}

#[test]
fn whitespace_agrees_with_the_standard_library() {
    for code in 0..=0x10ffffu32 {
        if let Some(c) = char::from_u32(code) {
            assert_eq!(is_whitespace(c), c.is_whitespace(), "{code:x}");
        }
    }
}

#[test]
fn text_operations_agree_with_the_standard_library() {
    for text in ["", "'", "it's 'quoted'", "Grüße, WELT", "aab", "LUVUS-Agent-HOOK.PS1 Ä"] {
        assert_eq!(replace(text, '\'', "''"), text.replace('\'', "''"));
        assert_eq!(replace(text, 'a', ""), text.replace('a', ""));
        assert_eq!(to_ascii_lower(text), text.to_ascii_lowercase());
        for part in ["", "'", "ab", "ß", "WELT", "xyz", "aab"] {
            assert_eq!(contains(text, part), text.contains(part), "{text} {part}");
            assert_eq!(same_text(text, part), text == part);
        }
    }
}
