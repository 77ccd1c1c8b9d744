use wasm_workers::codec::{decode_utf8_buffer, encode_utf8_buffer, DecodeError};

#[test]
fn bom_is_stripped_unless_kept() {
    let bytes = [0xEF, 0xBB, 0xBF, 0x41];
    assert_eq!(decode_utf8_buffer(&bytes, 0, 4, false, false).unwrap(), "A");
    assert_eq!(decode_utf8_buffer(&bytes, 0, 4, true, false).unwrap(), "A");
    assert_eq!(decode_utf8_buffer(&bytes, 0, 4, false, true).unwrap(), "\u{FEFF}A");
    assert_eq!(decode_utf8_buffer(&bytes, 0, 4, true, true).unwrap(), "\u{FEFF}A");
}

#[test]
fn invalid_bytes_are_replaced_or_refused() {
    let bytes = [0xC0, 0xC1];
    assert_eq!(decode_utf8_buffer(&bytes, 0, 2, false, false).unwrap(), "\u{FFFD}\u{FFFD}");
    assert_eq!(decode_utf8_buffer(&bytes, 0, 2, true, false), Err(DecodeError::InvalidData));
}

#[test]
fn window_is_taken_from_the_offset() {
    let bytes = b"xxhello!";
    assert_eq!(decode_utf8_buffer(bytes, 2, 5, true, false).unwrap(), "hello");
    assert_eq!(decode_utf8_buffer(bytes, 8, 0, true, false).unwrap(), "");
}

#[test]
fn window_outside_buffer_is_refused() {
    let bytes = [0x41u8; 4];
    assert_eq!(decode_utf8_buffer(&bytes, 2, 3, false, false), Err(DecodeError::OutOfRange));
    assert_eq!(decode_utf8_buffer(&bytes, 5, 0, false, false), Err(DecodeError::OutOfRange));
    assert_eq!(
        decode_utf8_buffer(&bytes, u32::MAX, u32::MAX, false, false),
        Err(DecodeError::OutOfRange)
    );
}

#[test]
fn encoding_gives_utf8_bytes() {
    assert_eq!(encode_utf8_buffer("é€"), vec![0xC3, 0xA9, 0xE2, 0x82, 0xAC]);
    assert_eq!(encode_utf8_buffer(""), Vec::<u8>::new());
    let bytes = encode_utf8_buffer("\u{FEFF}round trip");
    let n = bytes.len() as u32;
    assert_eq!(decode_utf8_buffer(&bytes, 0, n, true, true).unwrap(), "\u{FEFF}round trip");
}
