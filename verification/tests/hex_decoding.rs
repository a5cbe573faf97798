use xtfee_graph::hex::decode_hex;

#[test]
fn decodes_well_formed_hex() {
    assert_eq!(decode_hex(b"0a1fB4"), Some(vec![0x0A, 0x1F, 0xB4]));
    assert_eq!(decode_hex(b"ff00"), Some(vec![255, 0]));
    assert_eq!(decode_hex(b"00"), Some(vec![0]));
}

#[test]
fn decodes_the_empty_string_to_no_bytes() {
    assert_eq!(decode_hex(b""), Some(Vec::new()));
}

#[test]
fn rejects_an_odd_number_of_digits() {
    assert_eq!(decode_hex(b"abc"), None);
    assert_eq!(decode_hex(b"1"), None);
}

#[test]
fn rejects_bytes_that_are_not_hex_digits() {
    assert_eq!(decode_hex(b"0g"), None);
    assert_eq!(decode_hex(b"zz"), None);
    assert_eq!(decode_hex(b"12 4"), None);
}
