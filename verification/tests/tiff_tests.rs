use imagemeta::cursor::ByteCursor;
use imagemeta::error::DecodeError;
use imagemeta::tags::{RationalValue, TiffTag};
use imagemeta::tiff::{read_tiff, IFDEntry, IFDEntryValue, TiffError};
use imagemeta::utils::Endianness;

fn le16(v: u16) -> [u8; 2] {
    [(v & 0xFF) as u8, (v >> 8) as u8]
}

fn le32(v: u32) -> [u8; 4] {
    [
        (v & 0xFF) as u8,
        ((v >> 8) & 0xFF) as u8,
        ((v >> 16) & 0xFF) as u8,
        ((v >> 24) & 0xFF) as u8,
    ]
}

struct EntryBytes {
    tag: u16,
    value_type: u16,
    count: u32,
    inline: [u8; 4],
}

/// Builds a little-endian TIFF stream: one main directory, then the
/// extra blobs appended verbatim after it.
fn build_tiff_le(entries: &[EntryBytes], tail: &[u8]) -> Vec<u8> {
    let mut out = vec![b'I', b'I'];
    out.extend_from_slice(&le16(42));
    out.extend_from_slice(&le32(8)); // first directory right after the header
    out.extend_from_slice(&le16(entries.len() as u16));
    for e in entries {
        out.extend_from_slice(&le16(e.tag));
        out.extend_from_slice(&le16(e.value_type));
        out.extend_from_slice(&le32(e.count));
        out.extend_from_slice(&e.inline);
    }
    out.extend_from_slice(&le32(0)); // no further directory
    out.extend_from_slice(tail);
    out
}

fn decode_le(entries: &[EntryBytes], tail: &[u8]) -> Result<imagemeta::tiff::Tiff, TiffError> {
    let data = build_tiff_le(entries, tail);
    let mut cursor = ByteCursor::new(&data);
    read_tiff(&mut cursor)
}

#[test]
fn test_bad_magic_byte_order() {
    let data = [b'X', b'X', 42, 0, 0, 0, 0, 0];
    let mut cursor = ByteCursor::new(&data);
    let r = read_tiff(&mut cursor);
    assert_eq!(r, Err(TiffError(DecodeError::BadMagic)));
    // never reads further than the two byte-order bytes
    assert_eq!(cursor.position(), 2);
}

#[test]
fn test_bad_magic_number() {
    let data = [b'I', b'I', 43, 0, 0, 0, 0, 0];
    let mut cursor = ByteCursor::new(&data);
    assert_eq!(read_tiff(&mut cursor), Err(TiffError(DecodeError::BadMagic)));
    let data2 = [b'M', b'M', 0, 42, 0, 0, 0, 0];
    let mut cursor2 = ByteCursor::new(&data2);
    assert!(read_tiff(&mut cursor2).is_ok());
}

#[test]
fn test_software_string_and_orientation() {
    // Software is 11 ASCII bytes, stored behind an offset; the
    // offset field of a 12-byte entry must not derail the scan of
    // the entry that follows it.
    let software_offset = 8 + 2 + 2 * 12 + 4; // header + count + entries + terminator
    let entries = [
        EntryBytes {
            tag: 305,
            value_type: 2,
            count: 11,
            inline: le32(software_offset as u32),
        },
        EntryBytes { tag: 274, value_type: 3, count: 1, inline: [1, 0, 0, 0] },
    ];
    let tiff = decode_le(&entries, b"GIMP 2.4.5\0").unwrap();
    assert_eq!(tiff.endianness, Endianness::Little);
    assert_eq!(tiff.tags.len(), 2);
    assert_eq!(tiff.tags[0], TiffTag::Software("GIMP 2.4.5".to_string()));
    assert_eq!(tiff.tags[1], TiffTag::Orientation(1));
}

#[test]
fn test_rational_repr_is_exact() {
    let entries = [
        EntryBytes { tag: 41988, value_type: 5, count: 1, inline: le32(26) },
    ];
    let mut tail = Vec::new();
    tail.extend_from_slice(&le32(0));
    tail.extend_from_slice(&le32(100));
    let tiff = decode_le(&entries, &tail).unwrap();
    assert_eq!(tiff.tags[0], TiffTag::DigitalZoomRatio("0/100".to_string()));
}

#[test]
fn test_signed_rational_repr() {
    let entries = [
        EntryBytes { tag: 37380, value_type: 10, count: 1, inline: le32(26) },
    ];
    let mut tail = Vec::new();
    tail.extend_from_slice(&le32((-3i32) as u32));
    tail.extend_from_slice(&le32(2));
    let tiff = decode_le(&entries, &tail).unwrap();
    assert_eq!(tiff.tags[0], TiffTag::ExposureBiasValue("-3/2".to_string()));
}

#[test]
fn test_enumerated_code_strings() {
    let entries = [
        EntryBytes { tag: 41986, value_type: 3, count: 1, inline: [0, 0, 0, 0] },
        EntryBytes { tag: 296, value_type: 3, count: 1, inline: [2, 0, 0, 0] },
        EntryBytes { tag: 259, value_type: 3, count: 1, inline: [5, 0, 0, 0] },
        EntryBytes { tag: 37385, value_type: 3, count: 1, inline: [0x19, 0, 0, 0] },
    ];
    let tiff = decode_le(&entries, &[]).unwrap();
    assert_eq!(tiff.tags[0], TiffTag::ExposureMode("Auto exposure".to_string()));
    assert_eq!(tiff.tags[1], TiffTag::ResolutionUnit("inch".to_string()));
    assert_eq!(tiff.tags[2], TiffTag::Compression("LZW".to_string()));
    assert_eq!(
        tiff.tags[3],
        TiffTag::Flash("Flash fired, auto mode".to_string())
    );
    // an out-of-range code keeps the explicit fallback string
    let bad = [
        EntryBytes { tag: 41987, value_type: 3, count: 1, inline: [9, 0, 0, 0] },
    ];
    let tiff2 = decode_le(&bad, &[]).unwrap();
    assert_eq!(tiff2.tags[0], TiffTag::WhiteBalance("Invalid".to_string()));
}

#[test]
fn test_exif_pointer_appends_subdirectory_tags() {
    // main directory: Software + a pointer to an EXIF sub-directory
    let exif_dir_offset = 8 + 2 + 2 * 12 + 4 + 4; // past main IFD and "ABC\0" blob
    let entries = [
        EntryBytes { tag: 305, value_type: 2, count: 4, inline: [b'A', b'B', b'C', 0] },
        EntryBytes {
            tag: 34665,
            value_type: 4,
            count: 1,
            inline: le32(exif_dir_offset as u32),
        },
    ];
    let mut tail = Vec::new();
    tail.extend_from_slice(b"pad!");
    tail.extend_from_slice(&le16(2)); // the sub-directory: two entries
    tail.extend_from_slice(&le16(40962));
    tail.extend_from_slice(&le16(3));
    tail.extend_from_slice(&le32(1));
    tail.extend_from_slice(&[88, 0, 0, 0]);
    tail.extend_from_slice(&le16(40963));
    tail.extend_from_slice(&le16(4));
    tail.extend_from_slice(&le32(1));
    tail.extend_from_slice(&le32(100));
    let tiff = decode_le(&entries, &tail).unwrap();
    assert_eq!(tiff.tags.len(), 4);
    assert_eq!(tiff.tags[0], TiffTag::Software("ABC".to_string()));
    assert_eq!(tiff.tags[1], TiffTag::ExifIfdPointer(exif_dir_offset as u32));
    assert_eq!(tiff.tags[2], TiffTag::PixelXDimension(88));
    assert_eq!(tiff.tags[3], TiffTag::PixelYDimension(100));
}

#[test]
fn test_unknown_tag_keeps_raw_entry() {
    let entries = [
        EntryBytes { tag: 60000, value_type: 3, count: 1, inline: [7, 0, 0, 0] },
    ];
    let tiff = decode_le(&entries, &[]).unwrap();
    assert_eq!(
        tiff.tags[0],
        TiffTag::Unknown(IFDEntry { tag: 60000, values: vec![IFDEntryValue::SHORT(7)] })
    );
}

#[test]
fn test_unrecognized_value_type() {
    let entries = [
        EntryBytes { tag: 305, value_type: 13, count: 1, inline: [0, 0, 0, 0] },
    ];
    assert_eq!(
        decode_le(&entries, &[]),
        Err(TiffError(DecodeError::UnrecognizedValueType { value_type: 13 }))
    );
}

#[test]
fn test_type_mismatch_and_arity_mismatch() {
    // Software expects ASCII values, not a SHORT
    let entries = [
        EntryBytes { tag: 305, value_type: 3, count: 1, inline: [1, 0, 0, 0] },
    ];
    assert_eq!(decode_le(&entries, &[]), Err(TiffError(DecodeError::TypeMismatch)));
    // Orientation expects exactly one value
    let entries2 = [
        EntryBytes { tag: 274, value_type: 3, count: 2, inline: [1, 0, 2, 0] },
    ];
    assert_eq!(decode_le(&entries2, &[]), Err(TiffError(DecodeError::ArityMismatch)));
}

#[test]
fn test_truncated_directory() {
    let data = [b'I', b'I', 42, 0, 8, 0, 0, 0, 5, 0];
    let mut cursor = ByteCursor::new(&data);
    assert!(matches!(
        read_tiff(&mut cursor),
        Err(TiffError(DecodeError::TruncatedInput { .. }))
    ));
}

#[test]
fn test_cyclic_directory_chain() {
    // an empty directory whose next-offset points back at itself
    let mut data = vec![b'I', b'I', 42, 0];
    data.extend_from_slice(&le32(8));
    data.extend_from_slice(&le16(0)); // directory at 8 with 0 entries
    data.extend_from_slice(&le32(8)); // next-offset: 8 again, forever
    let mut cursor = ByteCursor::new(&data);
    assert_eq!(
        read_tiff(&mut cursor),
        Err(TiffError(DecodeError::CyclicStructure))
    );
}

#[test]
fn test_gps_rationals_kept_exact() {
    let first = 8 + 2 + 2 * 12 + 4;
    let entries = [
        EntryBytes { tag: 2, value_type: 5, count: 3, inline: le32(first as u32) },
        EntryBytes { tag: 6, value_type: 5, count: 1, inline: le32((first + 24) as u32) },
    ];
    let mut tail = Vec::new();
    for (n, d) in [(43u32, 1u32), (28, 1), (176399999, 100000000)] {
        tail.extend_from_slice(&le32(n));
        tail.extend_from_slice(&le32(d));
    }
    tail.extend_from_slice(&le32(3581102173u32));
    tail.extend_from_slice(&le32(3333333));
    let tiff = decode_le(&entries, &tail).unwrap();
    assert_eq!(
        tiff.tags[0],
        TiffTag::GPSLatitude(vec![
            RationalValue::Rational(43, 1),
            RationalValue::Rational(28, 1),
            RationalValue::Rational(176399999, 100000000),
        ])
    );
    assert_eq!(
        tiff.tags[1],
        TiffTag::GPSAltitude(RationalValue::Rational(3581102173, 3333333))
    );
    // the conventional float readings follow from the exact pairs
    match &tiff.tags[1] {
        TiffTag::GPSAltitude(RationalValue::Rational(n, d)) => {
            let altitude = *n as f64 / *d as f64;
            assert!((altitude - 1074.3307593307593f64).abs() < 1e-6);
        }
        other => panic!("unexpected tag {:?}", other),
    }
}

#[test]
fn test_user_comment_skips_encoding_prefix() {
    let first = 8 + 2 + 12 + 4;
    let mut payload = Vec::new();
    payload.extend_from_slice(b"ASCII\0\0\0");
    payload.extend_from_slice(b"hello\0");
    let entries = [
        EntryBytes {
            tag: 37510,
            value_type: 7,
            count: payload.len() as u32,
            inline: le32(first as u32),
        },
    ];
    let tiff = decode_le(&entries, &payload).unwrap();
    assert_eq!(tiff.tags[0], TiffTag::UserComment("hello".to_string()));
}

#[test]
fn test_ascii_string_keeps_interior_nul() {
    // only the trailing NUL terminators are stripped
    let first = 8 + 2 + 12 + 4;
    let entries = [
        EntryBytes { tag: 305, value_type: 2, count: 5, inline: le32(first as u32) },
    ];
    let tiff = decode_le(&entries, b"A\0B\0\0").unwrap();
    assert_eq!(tiff.tags[0], TiffTag::Software("A\u{0}B".to_string()));
}
