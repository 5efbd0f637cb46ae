use imagemeta::cursor::ByteCursor;
use imagemeta::error::DecodeError;
use imagemeta::utils::{determine_file_kind, get_nibbles, Endianness, FileKind};

#[test]
fn test_read_integers_big_endian() {
    let data = [0x12u8, 0x34, 0x56, 0x78, 0x9A, 0xBC, 0xDE, 0xF0];
    let mut c = ByteCursor::new(&data);
    assert_eq!(c.read_u16(Endianness::Big).unwrap(), 0x1234);
    assert_eq!(c.position(), 2);
    c.seek(0);
    assert_eq!(c.read_u32(Endianness::Big).unwrap(), 0x12345678);
    c.seek(0);
    assert_eq!(c.read_u64(Endianness::Big).unwrap(), 0x123456789ABCDEF0);
    assert_eq!(c.position(), 8);
}

#[test]
fn test_read_integers_little_endian() {
    let data = [0x12u8, 0x34, 0x56, 0x78];
    let mut c = ByteCursor::new(&data);
    assert_eq!(c.read_u16(Endianness::Little).unwrap(), 0x3412);
    c.seek(0);
    assert_eq!(c.read_u32(Endianness::Little).unwrap(), 0x78563412);
}

#[test]
fn test_read_signed() {
    let data = [0xFFu8, 0xFF, 0xFF, 0xFE];
    let mut c = ByteCursor::new(&data);
    assert_eq!(c.read_i16(Endianness::Big).unwrap(), -1);
    c.seek(0);
    assert_eq!(c.read_i32(Endianness::Big).unwrap(), -2);
    let pos = [0x00u8, 0x2A];
    let mut c2 = ByteCursor::new(&pos);
    assert_eq!(c2.read_i16(Endianness::Big).unwrap(), 42);
}

#[test]
fn test_read_past_end_is_truncated_input() {
    let data = [0x01u8, 0x02];
    let mut c = ByteCursor::new(&data);
    assert_eq!(
        c.read_u32(Endianness::Big),
        Err(DecodeError::TruncatedInput { offset: 0, expected: 4 })
    );
    // a failed read leaves the position alone
    assert_eq!(c.position(), 0);
    assert_eq!(c.read_u16(Endianness::Big).unwrap(), 0x0102);
}

#[test]
fn test_seek_past_end_then_read_fails() {
    let data = [0x01u8, 0x02, 0x03];
    let mut c = ByteCursor::new(&data);
    c.seek(100);
    assert!(matches!(c.read_u8(), Err(DecodeError::TruncatedInput { .. })));
}

#[test]
fn test_get_nibbles() {
    assert_eq!(get_nibbles(0x44), (4, 4));
    assert_eq!(get_nibbles(0x08), (8, 0));
    assert_eq!(get_nibbles(0x80), (0, 8));
    assert_eq!(get_nibbles(0xAB), (0x0B, 0x0A));
}

#[test]
fn test_determine_file_kind() {
    assert_eq!(determine_file_kind(&[0xFF, 0xD8, 0xFF, 0xE0]), Some(FileKind::Jpeg));
    assert_eq!(
        determine_file_kind(&[137, 80, 78, 71, 13, 10, 26, 10]),
        Some(FileKind::Png)
    );
    assert_eq!(
        determine_file_kind(&[0, 0, 0, 16, b'f', b't', b'y', b'p']),
        Some(FileKind::Heif)
    );
    assert_eq!(determine_file_kind(&[0x00, 0x01, 0x02]), None);
    assert_eq!(determine_file_kind(&[]), None);
    assert_eq!(determine_file_kind(&[0xFF, 0xD8]), None);
}
