//! Hex and decimal codecs: round trips and rejection of malformed text.
use freederation_nostr_backend::hexutil::{bytes_to_hex, hex_to_bytes};
use freederation_nostr_backend::decutil::{parse_dec_u128, parse_dec_u16, parse_dec_u64, u64_to_dec_bytes};
use freederation_nostr_backend::strutil::ascii_to_string;

#[test]
fn hex_encode_known_vector() {
    let bytes = vec![0x00u8, 0x01, 0x0a, 0xff, 0xbe, 0xef];
    assert_eq!(bytes_to_hex(bytes.as_slice()), "00010affbeef");
}

#[test]
fn hex_round_trip() {
    let bytes: Vec<u8> = (0u16..=255).map(|b| b as u8).collect();
    let hexed = bytes_to_hex(bytes.as_slice());
    let back = hex_to_bytes(hexed.as_str()).expect("hex rendering decodes");
    assert_eq!(back, bytes);
}

#[test]
fn hex_accepts_uppercase() {
    let back = hex_to_bytes("BEEF").expect("uppercase hex decodes");
    assert_eq!(back, vec![0xbeu8, 0xef]);
}

#[test]
fn hex_rejects_odd_length_and_bad_digits() {
    assert!(hex_to_bytes("abc").is_none());
    assert!(hex_to_bytes("zz").is_none());
    assert!(hex_to_bytes("0g").is_none());
    assert!(hex_to_bytes("ab\u{00e9}").is_none());
}

#[test]
fn hex_empty_is_empty() {
    assert_eq!(hex_to_bytes("").expect("empty hex decodes"), Vec::<u8>::new());
}

#[test]
fn decimal_render_round_trip() {
    for n in [0u64, 1, 9, 10, 1700000000, u64::MAX] {
        let text = ascii_to_string(u64_to_dec_bytes(n));
        assert_eq!(parse_dec_u64(text.as_str()), Some(n));
    }
    assert_eq!(ascii_to_string(u64_to_dec_bytes(0)), "0");
    assert_eq!(ascii_to_string(u64_to_dec_bytes(1700000000)), "1700000000");
}

#[test]
fn decimal_parse_bounds_and_signs() {
    assert_eq!(parse_dec_u16("65535"), Some(65535));
    assert_eq!(parse_dec_u16("65536"), None);
    assert_eq!(parse_dec_u16("+7"), Some(7));
    assert_eq!(parse_dec_u16(""), None);
    assert_eq!(parse_dec_u16("+"), None);
    assert_eq!(parse_dec_u16("1 2"), None);
    assert_eq!(parse_dec_u16("-1"), None);
    assert_eq!(
        parse_dec_u128("340282366920938463463374607431768211455"),
        Some(u128::MAX)
    );
    assert_eq!(parse_dec_u128("340282366920938463463374607431768211456"), None);
}
