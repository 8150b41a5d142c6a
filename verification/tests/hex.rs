use rosregview::output::hex::hex_dump;

#[test]
fn hex_dump_empty_is_empty() {
    assert_eq!(hex_dump(&[]), "");
}

#[test]
fn hex_dump_single_byte() {
    assert_eq!(hex_dump(&[0xab]), "ab");
}

#[test]
fn hex_dump_multiple_bytes_with_space_separators() {
    assert_eq!(hex_dump(&[0x01, 0x02, 0x03]), "01 02 03");
}

#[test]
fn hex_dump_lowercases_letters() {
    assert_eq!(hex_dump(&[0xff, 0xfe]), "ff fe");
}

#[test]
fn hex_dump_is_three_chars_per_byte_minus_one() {
    let bytes: Vec<u8> = (0u8..=255).collect();
    let s = hex_dump(&bytes);
    assert_eq!(s.len(), 3 * 256 - 1);
    assert!(s.starts_with("00 01 02"));
    assert!(s.ends_with("fd fe ff"));
}
