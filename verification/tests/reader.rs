use midi_player::reader::{encode_var_length, BigEndianReader};

#[test]
fn test_read_var_len() {
    let test_vec1: Vec<u8> = vec![0b00000000];
    let test_vec2: Vec<u8> = vec![0b11001000];
    let test_vec3: Vec<u8> = vec![0b10000001, 0b01001000];
    let test_vec4: Vec<u8> = vec![0b11000000, 0b10000000, 0b00000000];

    fn read_int_from_buf_helper(buf: &[u8]) -> Option<u32> {
        let mut reader = BigEndianReader::new(buf);
        reader.read_var_length()
    }

    assert_eq!(read_int_from_buf_helper(&test_vec1), Some(0));
    assert_eq!(read_int_from_buf_helper(&test_vec2), None);
    assert_eq!(read_int_from_buf_helper(&test_vec3), Some(0xC8));
    assert_eq!(read_int_from_buf_helper(&test_vec4), Some(0x100000));
}

#[test]
fn test_read_range() {
    let bytes = vec![0xFFu8, 0xEEu8, 0xDDu8, 0xCCu8, 0xBBu8, 0xAAu8, 0x99u8];
    let mut reader = BigEndianReader::new(&bytes);

    assert_eq!(reader.read_range(3).unwrap(), &[0xFFu8, 0xEEu8, 0xDDu8]);
    assert_eq!(reader.read_range(2).unwrap(), &[0xCCu8, 0xBBu8]);
    assert!(reader.read_range(3).is_none());
    assert_eq!(reader.read_range(1).unwrap(), &[0xAAu8]);
    assert_eq!(reader.read_range(1).unwrap(), &[0x99u8]);
    assert!(reader.read_range(1).is_none());
}

#[test]
fn test_read_u32() {
    let bytes = vec![0xFFu8, 0xEEu8, 0xDDu8, 0xCCu8, 0xBBu8, 0xAAu8, 0x99u8];
    let mut reader = BigEndianReader::new(&bytes);

    assert_eq!(reader.read_u32().unwrap(), 0xFFEEDDCCu32);
    assert!(reader.read_u32().is_none());
    assert_eq!(reader.read_u16().unwrap(), 0xBBAAu16);
    assert!(reader.read_u32().is_none());
    assert!(reader.read_u16().is_none());
    assert_eq!(reader.read_u8().unwrap(), 0x99u8);
    assert!(reader.read_u32().is_none());
    assert!(reader.read_u32().is_none());
}

#[test]
fn test_read_u16() {
    let bytes = vec![0xFFu8, 0xEEu8, 0xDDu8, 0xCCu8, 0xBBu8];
    let mut reader = BigEndianReader::new(&bytes);

    assert_eq!(reader.read_u16().unwrap(), 0xFFEEu16);
    assert_eq!(reader.read_u16().unwrap(), 0xDDCCu16);
    assert!(reader.read_u16().is_none());
    assert_eq!(reader.read_u8().unwrap(), 0xBBu8);
    assert!(reader.read_u16().is_none());
}

#[test]
fn test_read_u8() {
    let bytes = vec![0xFFu8, 0xEEu8, 0xDDu8];
    let mut reader = BigEndianReader::new(&bytes);

    assert_eq!(reader.read_u8().unwrap(), 0xFFu8);
    assert_eq!(reader.read_u8().unwrap(), 0xEEu8);
    assert_eq!(reader.read_u8().unwrap(), 0xDDu8);
    assert!(reader.read_u8().is_none());
}

#[test]
fn test_peek_does_not_advance() {
    let bytes = vec![0x12u8, 0x34u8];
    let mut reader = BigEndianReader::new(&bytes);

    assert_eq!(reader.peek(), Some(0x12));
    assert_eq!(reader.peek(), Some(0x12));
    assert_eq!(reader.read_u8(), Some(0x12));
    assert_eq!(reader.peek(), Some(0x34));
    assert_eq!(reader.read_u8(), Some(0x34));
    assert_eq!(reader.peek(), None);
}

#[test]
fn test_left_bytes() {
    let bytes = vec![1u8, 2u8, 3u8];
    let mut reader = BigEndianReader::new(&bytes);
    assert_eq!(reader.left_bytes(), 3);
    reader.read_u16();
    assert_eq!(reader.left_bytes(), 1);
}

#[test]
fn test_var_length_round_trip() {
    let values: Vec<u32> = vec![
        0,
        1,
        0x40,
        0x7F,
        0x80,
        0xC8,
        0x2000,
        0x3FFF,
        0x4000,
        0x100000,
        0x1FFFFF,
        0x200000,
        0x8000000,
        0x0FFFFFFF,
    ];
    for v in values {
        let encoded = encode_var_length(v);
        let mut reader = BigEndianReader::new(&encoded);
        assert_eq!(reader.read_var_length(), Some(v));
        assert_eq!(reader.left_bytes(), 0);
    }
}

#[test]
fn test_var_length_encoding_lengths() {
    assert_eq!(encode_var_length(0x7F).len(), 1);
    assert_eq!(encode_var_length(0x80).len(), 2);
    assert_eq!(encode_var_length(0x3FFF).len(), 2);
    assert_eq!(encode_var_length(0x4000).len(), 3);
    assert_eq!(encode_var_length(0x1FFFFF).len(), 3);
    assert_eq!(encode_var_length(0x200000).len(), 4);
    assert_eq!(encode_var_length(0x0FFFFFFF), vec![0xFF, 0xFF, 0xFF, 0x7F]);
}

#[test]
fn test_var_length_four_continuation_bytes() {
    // A fourth byte with the continuation bit still set is malformed per
    // the format, but the reader still consumes exactly four bytes and
    // returns the (truncated) accumulated value.
    let bytes = vec![0xC0u8, 0x80u8, 0x80u8, 0x80u8, 0x55u8];
    let mut reader = BigEndianReader::new(&bytes);
    assert_eq!(reader.read_var_length(), Some(0));
    assert_eq!(reader.left_bytes(), 1);
    assert_eq!(reader.read_u8(), Some(0x55));
}
