use turso_mini::serial_type::{SerialType, SerialTypeKind};

#[test]
fn serial_type_fixed_codepoints() {
    assert_eq!(SerialType::null().0, 0);
    assert_eq!(SerialType::i8().0, 1);
    assert_eq!(SerialType::i16().0, 2);
    assert_eq!(SerialType::i24().0, 3);
    assert_eq!(SerialType::i32().0, 4);
    assert_eq!(SerialType::i48().0, 5);
    assert_eq!(SerialType::i64().0, 6);
    assert_eq!(SerialType::float64().0, 7);
    assert_eq!(SerialType::const_int0().0, 8);
    assert_eq!(SerialType::const_int1().0, 9);
}

#[test]
fn serial_type_fixed_sizes() {
    let expected: Vec<(u64, usize)> = vec![
        (0, 0),
        (1, 1),
        (2, 2),
        (3, 3),
        (4, 4),
        (5, 6),
        (6, 8),
        (7, 8),
        (8, 0),
        (9, 0),
    ];
    for (tag, size) in expected {
        assert_eq!(SerialType(tag).size(), size);
    }
}

#[test]
fn serial_type_blob_and_text() {
    // a blob of 10 bytes encodes to tag 32, and the size formula inverts it
    let blob = SerialType::blob(10);
    assert_eq!(blob.0, 32);
    assert!(matches!(blob.kind(), SerialTypeKind::Blob));
    assert_eq!(blob.size(), 10);

    // text of 3 bytes encodes to tag 19
    let text = SerialType::text(3);
    assert_eq!(text.0, 19);
    assert!(matches!(text.kind(), SerialTypeKind::Text));
    assert_eq!(text.size(), 3);

    // the kind of any odd tag from 13 up is text
    assert!(matches!(SerialType(13).kind(), SerialTypeKind::Text));
    assert!(matches!(SerialType(9999).kind(), SerialTypeKind::Text));
    assert!(matches!(SerialType(12).kind(), SerialTypeKind::Blob));
    assert!(matches!(SerialType(10000).kind(), SerialTypeKind::Blob));
}

#[test]
fn serial_type_validity() {
    assert!(!SerialType::u64_is_valid_serial_type(10));
    assert!(!SerialType::u64_is_valid_serial_type(11));
    assert!(SerialType::u64_is_valid_serial_type(0));
    assert!(SerialType::u64_is_valid_serial_type(9));
    assert!(SerialType::u64_is_valid_serial_type(12));
    assert!(SerialType::u64_is_valid_serial_type(13));
}
