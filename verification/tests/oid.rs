use book_lending::oid::ObjectId;

#[test]
fn parses_twenty_four_hex_digits_of_either_case() {
    let id = ObjectId::parse_str("00112233445566778899aAbB").unwrap();
    assert_eq!(id.bytes(), [0x00, 0x11, 0x22, 0x33, 0x44, 0x55, 0x66, 0x77, 0x88, 0x99, 0xaa, 0xbb]);
    let high = ObjectId::parse_str("FFFFFFFFFFFFFFFFFFFFFFFF").unwrap();
    assert_eq!(high.bytes(), [0xff; 12]);
    let mixed = ObjectId::parse_str("0f1e2d3c4b5a69788796a5b4").unwrap();
    assert_eq!(mixed.bytes(), [0x0f, 0x1e, 0x2d, 0x3c, 0x4b, 0x5a, 0x69, 0x78, 0x87, 0x96, 0xa5, 0xb4]);
}

#[test]
fn refuses_what_is_not_twenty_four_hex_digits() {
    assert_eq!(ObjectId::parse_str(""), None);
    assert_eq!(ObjectId::parse_str("00112233445566778899aab"), None);
    assert_eq!(ObjectId::parse_str("00112233445566778899aabbc"), None);
    assert_eq!(ObjectId::parse_str("00112233445566778899aabbcc"), None);
    assert_eq!(ObjectId::parse_str("00112233445566778899aabg"), None);
    assert_eq!(ObjectId::parse_str("00112233445566778899aab "), None);
    assert_eq!(ObjectId::parse_str("0011223344556677889\u{e9}aab"), None);
    assert_eq!(ObjectId::parse_str("\u{e9}\u{e9}\u{e9}\u{e9}\u{e9}\u{e9}\u{e9}\u{e9}\u{e9}\u{e9}\u{e9}\u{e9}"), None);
}

#[test]
fn formats_lower_case_hex_high_nibble_first() {
    let id = ObjectId::from_bytes([0x00, 0x01, 0x0a, 0x10, 0x9f, 0xa0, 0xab, 0xcd, 0xef, 0xf0, 0xfe, 0xff]);
    assert_eq!(id.to_hex(), "00010a109fa0abcdeff0feff");
}

#[test]
fn hex_form_reads_back_to_the_same_identifier() {
    let id = ObjectId::from_bytes([1, 2, 3, 4, 5, 6, 7, 8, 9, 10, 11, 250]);
    assert_eq!(ObjectId::parse_str(&id.to_hex()), Some(id));
    let fresh = ObjectId::new();
    assert_eq!(ObjectId::parse_str(&fresh.to_hex()), Some(fresh));
    assert_eq!(fresh.to_hex().len(), 24);
}

#[test]
fn fresh_identifiers_differ() {
    let a = ObjectId::new();
    let b = ObjectId::new();
    assert_ne!(a, b);
    assert!(!a.same_as(&b));
    assert!(a.same_as(&a));
}

#[test]
fn same_as_compares_every_byte() {
    let a = ObjectId::from_bytes([0; 12]);
    let mut bytes = [0u8; 12];
    bytes[11] = 1;
    let b = ObjectId::from_bytes(bytes);
    let mut bytes = [0u8; 12];
    bytes[0] = 1;
    let c = ObjectId::from_bytes(bytes);
    assert!(!a.same_as(&b));
    assert!(!a.same_as(&c));
    assert!(a.same_as(&ObjectId::from_bytes([0; 12])));
}
