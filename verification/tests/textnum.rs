use xpt_reader::decode_text;
use xpt_reader::parse_u16_dec;
use xpt_reader::parse_u64_dec;
use xpt_reader::TextCodec;
use xpt_reader::XPTError;

#[test]
fn parse_plain_decimal() {
    assert_eq!(parse_u16_dec(b"140"), Some(140));
    assert_eq!(parse_u16_dec(b"  0140  "), Some(140));
    assert_eq!(parse_u16_dec(b"+17"), Some(17));
    assert_eq!(parse_u64_dec(b"                             100"), Some(100));
    assert_eq!(parse_u64_dec(b"18446744073709551615"), Some(u64::MAX));
}

#[test]
fn parse_rejects_junk() {
    assert_eq!(parse_u16_dec(b""), None);
    assert_eq!(parse_u16_dec(b"    "), None);
    assert_eq!(parse_u16_dec(b"12a"), None);
    assert_eq!(parse_u16_dec(b"-5"), None);
    assert_eq!(parse_u16_dec(b"65536"), None);
    assert_eq!(parse_u64_dec(b"18446744073709551616"), None);
}

#[test]
fn utf8_decoding_trims() {
    assert_eq!(decode_text(TextCodec::Utf8, b"  AGE   ").unwrap(), "AGE");
    assert_eq!(decode_text(TextCodec::Utf8, b"").unwrap(), "");
}

#[test]
fn utf8_decoding_handles_multibyte_characters() {
    assert_eq!(
        decode_text(TextCodec::Utf8, "caf\u{e9} ".as_bytes()).unwrap(),
        "caf\u{e9}"
    );
}

#[test]
fn utf8_decoding_rejects_invalid_bytes() {
    let r = decode_text(TextCodec::Utf8, &[0xFF, 0xFE]);
    assert!(matches!(r, Err(XPTError::DecodeError(_))));
}

#[test]
fn gbk_decoding_maps_multibyte_characters() {
    // GBK 0xC4 0xE3 followed by an ASCII space that must be trimmed
    let r = decode_text(TextCodec::Gbk, &[0xC4, 0xE3, 0x20]).unwrap();
    assert_eq!(r, "\u{4f60}");
}

#[test]
fn gbk_decoding_keeps_ascii() {
    assert_eq!(decode_text(TextCodec::Gbk, b" LB2 ").unwrap(), "LB2");
}
