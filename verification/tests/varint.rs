use turso_mini::varint::{read_varint, varint_len, write_varint};

fn round_trip(v: u64) {
    let mut buf = [0u8; 16];
    let n = write_varint(&mut buf, v);
    assert_eq!(n, varint_len(v));
    let (decoded, consumed) = read_varint(&buf[..n]).expect("a fresh encoding must decode");
    assert_eq!(decoded, v);
    assert_eq!(consumed, n);
}

#[test]
fn varint_round_trips() {
    let samples: Vec<u64> = vec![
        0,
        1,
        0x7f,
        0x80,
        300,
        0x3fff,
        0x4000,
        0x1fffff,
        0x200000,
        0xfffffff,
        0x10000000,
        0x7ffffffff,
        0x800000000,
        0x3ffffffffff,
        0x40000000000,
        0x1ffffffffffff,
        0x2000000000000,
        0xffffffffffffff,
        0x100000000000000,
        0xdeadbeefcafebabe,
        u64::MAX,
    ];
    for v in samples {
        round_trip(v);
    }
}

#[test]
fn varint_length_boundaries() {
    assert_eq!(varint_len(0x7f), 1);
    assert_eq!(varint_len(0x80), 2);
    assert_eq!(varint_len(0x3fff), 2);
    assert_eq!(varint_len(0x4000), 3);
    // any value that uses bits 56 to 63 takes the full nine bytes
    assert_eq!(varint_len(0x0100000000000000), 9);
    assert_eq!(varint_len(0x8000000000000000), 9);
    assert_eq!(varint_len(u64::MAX), 9);
}

#[test]
fn varint_literal_example() {
    let mut buf = [0u8; 2];
    let n = write_varint(&mut buf, 300);
    assert_eq!(n, 2);
    assert_eq!(buf, [0x82, 0x2c]);
    let (v, consumed) = read_varint(&[0x82, 0x2c]).unwrap();
    assert_eq!(v, 300);
    assert_eq!(consumed, 2);
}

#[test]
fn varint_write_leaves_rest_untouched() {
    let mut buf = [0xaau8; 6];
    let n = write_varint(&mut buf, 300);
    assert_eq!(n, 2);
    assert_eq!(&buf[2..], [0xaa, 0xaa, 0xaa, 0xaa]);
}

#[test]
fn varint_decode_rejects_truncated_input() {
    // empty input
    assert!(read_varint(&[]).is_err());
    // every byte continues, and no ninth byte follows
    assert!(read_varint(&[0x80; 3]).is_err());
    assert!(read_varint(&[0xff; 8]).is_err());
}

#[test]
fn varint_decode_rejects_overlong_nine_byte_form() {
    // eight continuation bytes carrying only zeros, then a ninth byte: the
    // value would fit in a shorter form, so this is corrupt data
    let bytes = [0x80, 0x80, 0x80, 0x80, 0x80, 0x80, 0x80, 0x80, 0x01];
    assert!(read_varint(&bytes).is_err());
}

#[test]
fn varint_decode_ignores_trailing_bytes() {
    let bytes = [0x82, 0x2c, 0x99, 0x77];
    let (v, consumed) = read_varint(&bytes).unwrap();
    assert_eq!(v, 300);
    assert_eq!(consumed, 2);
}
