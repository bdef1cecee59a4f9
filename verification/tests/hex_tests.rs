use seam_probe::hex::{decode_hex, hex_lower, hex_nibble, HexError};

#[test]
fn nibble_digits_and_letters() {
    assert_eq!(hex_nibble(b'0'), Some(0));
    assert_eq!(hex_nibble(b'9'), Some(9));
    assert_eq!(hex_nibble(b'a'), Some(10));
    assert_eq!(hex_nibble(b'F'), Some(15));
    assert_eq!(hex_nibble(b'g'), None);
    assert_eq!(hex_nibble(b' '), None);
}

#[test]
fn decode_round_trip() {
    let bytes: Vec<u8> = (0u8..=255).collect();
    let hex = hex_lower(&bytes);
    let text = String::from_utf8(hex).unwrap();
    assert_eq!(decode_hex(&text), Ok(bytes));
}

#[test]
fn decode_errors() {
    assert_eq!(decode_hex("abc"), Err(HexError::OddLength));
    assert_eq!(decode_hex("zz"), Err(HexError::NonHexChars));
    assert_eq!(decode_hex("de ad\tBE\nef"), Ok(vec![0xde, 0xad, 0xbe, 0xef]));
}

#[test]
fn hex_of_chunks_concatenates() {
    let mut joined = hex_lower(&[0x00, 0xab]);
    joined.extend(hex_lower(&[0x7f]));
    assert_eq!(joined, hex_lower(&[0x00, 0xab, 0x7f]));
    assert_eq!(joined, b"00ab7f".to_vec());
}
