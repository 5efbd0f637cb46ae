use imagemeta::error::DecodeError;
use imagemeta::jpeg::{get_jpeg_sections, read_jpeg, Jpeg, JpegError, JpegMarker};
use imagemeta::tags::TiffTag;
use imagemeta::utils::Endianness;

fn be16(v: u16) -> [u8; 2] {
    [(v >> 8) as u8, (v & 0xFF) as u8]
}

fn le16(v: u16) -> [u8; 2] {
    [(v & 0xFF) as u8, (v >> 8) as u8]
}

fn le32(v: u32) -> [u8; 4] {
    [
        (v & 0xFF) as u8,
        ((v >> 8) & 0xFF) as u8,
        ((v >> 16) & 0xFF) as u8,
        ((v >> 24) & 0xFF) as u8,
    ]
}

/// One marker segment: `0xFF`, the marker byte, the self-including
/// length, the payload.
fn segment(marker: u8, payload: &[u8]) -> Vec<u8> {
    let mut out = vec![0xFF, marker];
    out.extend_from_slice(&be16(payload.len() as u16 + 2));
    out.extend_from_slice(payload);
    out
}

fn jpeg_file(segments: &[Vec<u8>]) -> Vec<u8> {
    let mut out = vec![0xFF, 0xD8];
    for s in segments {
        out.extend_from_slice(s);
    }
    out
}

#[test]
fn test_no_exif_only_comment() {
    let text = b"..and henceforth, shall he be named Frank, for he is a pumpkin.";
    let data = jpeg_file(&[segment(0xFE, text)]);
    let jpeg = read_jpeg(&data).unwrap();
    assert!(jpeg.exif.is_none());
    assert!(jpeg.xmp.is_none());
    assert_eq!(
        jpeg.comment,
        Some("..and henceforth, shall he be named Frank, for he is a pumpkin.".to_string())
    );
}

#[test]
fn test_first_comment_wins() {
    let data = jpeg_file(&[segment(0xFE, b"first"), segment(0xFE, b"second")]);
    let jpeg = read_jpeg(&data).unwrap();
    assert_eq!(jpeg.comment, Some("first".to_string()));
}

/// The little-endian TIFF stream of the GIMP sample: `Software`,
/// then an EXIF sub-directory with the pixel dimensions.
fn gimp_tiff_le() -> Vec<u8> {
    let mut t = vec![b'I', b'I'];
    t.extend_from_slice(&le16(42));
    t.extend_from_slice(&le32(8));
    t.extend_from_slice(&le16(2));
    // Software, 11 ASCII bytes behind an offset
    t.extend_from_slice(&le16(305));
    t.extend_from_slice(&le16(2));
    t.extend_from_slice(&le32(11));
    t.extend_from_slice(&le32(38));
    // ExifIfdPointer -> 49
    t.extend_from_slice(&le16(34665));
    t.extend_from_slice(&le16(4));
    t.extend_from_slice(&le32(1));
    t.extend_from_slice(&le32(49));
    t.extend_from_slice(&le32(0));
    t.extend_from_slice(b"GIMP 2.4.5\0");
    // the EXIF sub-directory at 49
    t.extend_from_slice(&le16(2));
    t.extend_from_slice(&le16(40962));
    t.extend_from_slice(&le16(3));
    t.extend_from_slice(&le32(1));
    t.extend_from_slice(&[88, 0, 0, 0]);
    t.extend_from_slice(&le16(40963));
    t.extend_from_slice(&le16(4));
    t.extend_from_slice(&le32(1));
    t.extend_from_slice(&le32(100));
    t
}

fn find_tag<'a>(jpeg: &'a Jpeg, f: impl Fn(&TiffTag) -> bool) -> &'a TiffTag {
    jpeg.exif.as_ref().unwrap().tags.iter().find(|t| f(t)).unwrap()
}

#[test]
fn test_read_painttool_sample() {
    let mut app1 = b"Exif\0\0".to_vec();
    app1.extend_from_slice(&gimp_tiff_le());
    let data = jpeg_file(&[segment(0xE1, &app1)]);
    let jpeg = read_jpeg(&data).unwrap();
    assert!(jpeg.comment.is_none());
    assert_eq!(jpeg.exif.as_ref().unwrap().endianness, Endianness::Little);
    assert_eq!(
        find_tag(&jpeg, |t| matches!(t, TiffTag::Software(_))),
        &TiffTag::Software("GIMP 2.4.5".to_string())
    );
    assert_eq!(
        find_tag(&jpeg, |t| matches!(t, TiffTag::PixelXDimension(_))),
        &TiffTag::PixelXDimension(88)
    );
    assert_eq!(
        find_tag(&jpeg, |t| matches!(t, TiffTag::PixelYDimension(_))),
        &TiffTag::PixelYDimension(100)
    );
}

#[test]
fn test_no_exif_only_xmp() {
    let mut app1 = b"http://ns.adobe.com/xap/1.0/\0<?xpacket".to_vec();
    app1.extend_from_slice(b" ...");
    let data = jpeg_file(&[segment(0xE1, &app1)]);
    let jpeg = read_jpeg(&data).unwrap();
    assert!(jpeg.exif.is_none());
    let xmp = jpeg.xmp.unwrap();
    assert!(xmp.starts_with("http://ns.adobe.com/xap/1.0/\0<?xpacket"));
}

#[test]
fn test_scan_data_absorbs_stuffing_and_restart_markers() {
    // scan header [1, 2], then entropy data holding a stuffed 0xFF,
    // two restart markers, and finally a real marker pair
    let mut data = jpeg_file(&[segment(0xDA, &[1, 2])]);
    data.extend_from_slice(&[0xAA, 0xFF, 0x00, 0xBB, 0xFF, 0xD0, 0xCC, 0xFF, 0xD7, 0xDD]);
    data.extend_from_slice(&[0xFF, 0xD9]); // ends the scan
    data.extend_from_slice(&be16(4));
    data.extend_from_slice(&[7, 8]); // payload of the 0xD9 segment
    let (result, _) = get_jpeg_sections(&data);
    let sections = result.unwrap();
    assert_eq!(sections.len(), 2);
    assert_eq!(sections[0].0, JpegMarker::SOS);
    assert_eq!(
        sections[0].1,
        vec![1, 2, 0xAA, 0xFF, 0x00, 0xBB, 0xFF, 0xD0, 0xCC, 0xFF, 0xD7, 0xDD]
    );
    // the terminating marker is re-read as the next section
    assert_eq!(sections[1].0, JpegMarker::UNKNOWN(0xD9));
    assert_eq!(sections[1].1, vec![7, 8]);
}

#[test]
fn test_scan_data_runs_to_end_of_buffer() {
    let mut data = jpeg_file(&[segment(0xDA, &[9])]);
    data.extend_from_slice(&[0x10, 0xFF, 0x00, 0x20]);
    let (result, _) = get_jpeg_sections(&data);
    let sections = result.unwrap();
    assert_eq!(sections.len(), 1);
    assert_eq!(sections[0].1, vec![9, 0x10, 0xFF, 0x00, 0x20]);
}

#[test]
fn test_unexpected_marker_lead_byte() {
    let data = [0xFF, 0xD8, 0x00, 0xE1, 0x00, 0x04, 1, 2];
    assert_eq!(
        read_jpeg(&data),
        Err(JpegError(DecodeError::UnexpectedMarker { offset: 2, byte: 0 }))
    );
}

#[test]
fn test_malformed_exif_payload_is_a_failure() {
    let mut app1 = b"Exif\0\0".to_vec();
    app1.extend_from_slice(b"XX"); // not a byte-order mark
    app1.extend_from_slice(&[0, 42, 0, 0, 0, 0]);
    let data = jpeg_file(&[segment(0xE1, &app1)]);
    assert_eq!(read_jpeg(&data), Err(JpegError(DecodeError::BadMagic)));
}

#[test]
fn test_marker_classification() {
    assert_eq!(JpegMarker::from(0xC0), JpegMarker::SOF0);
    assert_eq!(JpegMarker::from(0xDA), JpegMarker::SOS);
    assert_eq!(JpegMarker::from(0xE1), JpegMarker::APP1);
    assert_eq!(JpegMarker::from(0xFE), JpegMarker::COM);
    assert_eq!(JpegMarker::from(0x99), JpegMarker::UNKNOWN(0x99));
}

#[test]
fn test_comment_with_invalid_utf8_is_replaced() {
    // lossy decoding must replace the invalid byte, not echo it
    let data = jpeg_file(&[segment(0xFE, &[0x61, 0xFF, 0x62])]);
    let jpeg = read_jpeg(&data).unwrap();
    assert_eq!(jpeg.comment, Some("a\u{FFFD}b".to_string()));
}
