use imagemeta::atom::{read_atom_header, read_sub_atom, read_top_atom, read_version_and_flags,
    AtomParent, AtomVariant};
use imagemeta::atoms::read_sized_uint;
use imagemeta::cursor::ByteCursor;
use imagemeta::error::DecodeError;
use imagemeta::heif::{get_iloc_item_for_item_type, read_heif};
use imagemeta::tags::{RationalValue, TiffTag};
use imagemeta::utils::Endianness;

fn be16(v: u16) -> [u8; 2] {
    [(v >> 8) as u8, (v & 0xFF) as u8]
}

fn be32(v: u32) -> [u8; 4] {
    [(v >> 24) as u8, ((v >> 16) & 0xFF) as u8, ((v >> 8) & 0xFF) as u8, (v & 0xFF) as u8]
}

/// A plain box: 4-byte size (header included), 4-character name,
/// payload.
fn boxed(name: &[u8; 4], body: &[u8]) -> Vec<u8> {
    let mut out = Vec::new();
    out.extend_from_slice(&be32(body.len() as u32 + 8));
    out.extend_from_slice(name);
    out.extend_from_slice(body);
    out
}

/// A full box: version and 24-bit flags precede the payload.
fn full_box(name: &[u8; 4], version: u8, body: &[u8]) -> Vec<u8> {
    let mut inner = vec![version, 0, 0, 0];
    inner.extend_from_slice(body);
    boxed(name, &inner)
}

#[test]
fn test_sized_uint_widths() {
    let data = [0x12u8, 0x34, 0x56, 0x78, 0x9A, 0xBC, 0xDE, 0xF0];
    let mut c = ByteCursor::new(&data);
    // width 0 yields 0 and consumes nothing
    assert_eq!(read_sized_uint(&mut c, 0).unwrap(), 0);
    assert_eq!(c.position(), 0);
    // width 4 consumes exactly 4 bytes, big-endian
    assert_eq!(read_sized_uint(&mut c, 4).unwrap(), 0x12345678);
    assert_eq!(c.position(), 4);
    c.seek(0);
    // width 8 consumes exactly 8 bytes, big-endian
    assert_eq!(read_sized_uint(&mut c, 8).unwrap(), 0x123456789ABCDEF0);
    assert_eq!(c.position(), 8);
    c.seek(0);
    assert_eq!(
        read_sized_uint(&mut c, 3),
        Err(DecodeError::FieldWidthOutOfRange { width: 3 })
    );
    assert_eq!(c.position(), 0);
}

#[test]
fn test_atom_header_plain_and_extended() {
    let mut data = Vec::new();
    data.extend_from_slice(&be32(16));
    data.extend_from_slice(b"ftyp");
    let mut c = ByteCursor::new(&data);
    let (name, size) = read_atom_header(&mut c).unwrap();
    assert_eq!(name, "ftyp");
    assert_eq!(size, 16);
    assert_eq!(c.position(), 8);

    // size 1: the real size follows as a 64-bit integer
    let mut data2 = Vec::new();
    data2.extend_from_slice(&be32(1));
    data2.extend_from_slice(b"mdat");
    data2.extend_from_slice(&[0, 0, 0, 0, 0, 0, 1, 0]);
    let mut c2 = ByteCursor::new(&data2);
    let (name2, size2) = read_atom_header(&mut c2).unwrap();
    assert_eq!(name2, "mdat");
    assert_eq!(size2, 256);
    assert_eq!(c2.position(), 16);

    // size 0: the box extends to the end of the buffer
    let mut data3 = Vec::new();
    data3.extend_from_slice(&be32(0));
    data3.extend_from_slice(b"free");
    data3.extend_from_slice(&[1, 2, 3, 4]);
    let mut c3 = ByteCursor::new(&data3);
    let (name3, size3) = read_atom_header(&mut c3).unwrap();
    assert_eq!(name3, "free");
    assert_eq!(size3, 12);
}

#[test]
fn test_unknown_box_consumes_exactly_its_size() {
    let mut data = boxed(b"abcd", &[9, 9, 9, 9]);
    data.extend_from_slice(&boxed(b"efgh", &[7]));
    let mut c = ByteCursor::new(&data);
    let first = read_top_atom(&mut c).unwrap();
    assert_eq!(c.position(), 12);
    match first {
        AtomVariant::Unknown(u) => assert_eq!(u.name, "abcd"),
        other => panic!("unexpected variant {:?}", other),
    }
    let second = read_top_atom(&mut c).unwrap();
    assert_eq!(c.position(), data.len() as u64);
    match second {
        AtomVariant::Unknown(u) => assert_eq!(u.name, "efgh"),
        other => panic!("unexpected variant {:?}", other),
    }
}

#[test]
fn test_version_and_flags() {
    let data = [3u8, 0x12, 0x34, 0x56];
    let mut c = ByteCursor::new(&data);
    let (version, flags) = read_version_and_flags(&mut c).unwrap();
    assert_eq!(version, 3);
    assert_eq!(flags, 0x123456);
    assert_eq!(c.position(), 4);
}

/// One version-2 item-info entry.
fn infe_v2(item_id: u16, item_type: &[u8; 4], extra: &[u8]) -> Vec<u8> {
    let mut body = Vec::new();
    body.extend_from_slice(&be16(item_id));
    body.extend_from_slice(&be16(0)); // protection index
    body.extend_from_slice(item_type);
    body.push(0); // empty item name
    body.extend_from_slice(extra);
    full_box(b"infe", 2, &body)
}

/// The big-endian TIFF stream of the test image: a GPS pointer in
/// the main directory, and the GPS coordinates as exact rationals.
fn gps_tiff_be() -> Vec<u8> {
    let mut t = vec![b'M', b'M'];
    t.extend_from_slice(&be16(42));
    t.extend_from_slice(&be32(8));
    // main directory at 8: one entry, the GPS pointer to 26
    t.extend_from_slice(&be16(1));
    t.extend_from_slice(&be16(34853));
    t.extend_from_slice(&be16(4));
    t.extend_from_slice(&be32(1));
    t.extend_from_slice(&be32(26));
    t.extend_from_slice(&be32(0));
    // the GPS directory at 26: latitude, longitude, altitude
    t.extend_from_slice(&be16(3));
    t.extend_from_slice(&be16(2)); // GPSLatitude: 3 rationals at 64
    t.extend_from_slice(&be16(5));
    t.extend_from_slice(&be32(3));
    t.extend_from_slice(&be32(64));
    t.extend_from_slice(&be16(4)); // GPSLongitude: 3 rationals at 88
    t.extend_from_slice(&be16(5));
    t.extend_from_slice(&be32(3));
    t.extend_from_slice(&be32(88));
    t.extend_from_slice(&be16(6)); // GPSAltitude: 1 rational at 112
    t.extend_from_slice(&be16(5));
    t.extend_from_slice(&be32(1));
    t.extend_from_slice(&be32(112));
    for (n, d) in [(35u32, 1u32), (39, 1), (4446, 100)] {
        t.extend_from_slice(&be32(n));
        t.extend_from_slice(&be32(d));
    }
    for (n, d) in [(82u32, 1u32), (30, 1), (2156, 100)] {
        t.extend_from_slice(&be32(n));
        t.extend_from_slice(&be32(d));
    }
    t.extend_from_slice(&be32(3581102173));
    t.extend_from_slice(&be32(3333333));
    t
}

/// Builds a HEIC file with `item_count` items: item 1 is the EXIF
/// item, item 2 the XMP packet, the rest dummies; the payloads live
/// in a trailing `mdat` box at the given offsets.
fn build_heic(
    item_count: u16,
    exif_offset: u32,
    exif_len: u32,
    xmp_offset: u32,
    xmp_len: u32,
) -> Vec<u8> {
    let mut infes = Vec::new();
    for id in 1..=item_count {
        let entry = match id {
            1 => infe_v2(1, b"Exif", &[]),
            2 => infe_v2(2, b"mime", b"application/rdf+xml\0"),
            _ => infe_v2(id, b"hvc1", &[]),
        };
        infes.extend_from_slice(&entry);
    }
    let mut iinf_body = be16(item_count).to_vec();
    iinf_body.extend_from_slice(&infes);
    let iinf = full_box(b"iinf", 0, &iinf_body);

    let mut iloc_body = vec![0x44u8, 0x00]; // offsets and lengths 4 bytes, no base, no index
    iloc_body.extend_from_slice(&be16(item_count));
    for id in 1..=item_count {
        iloc_body.extend_from_slice(&be16(id));
        iloc_body.extend_from_slice(&be16(0)); // data-reference index
        iloc_body.extend_from_slice(&be16(1)); // one extent
        let (off, len) = match id {
            1 => (exif_offset, exif_len),
            2 => (xmp_offset, xmp_len),
            _ => (0, 0),
        };
        iloc_body.extend_from_slice(&be32(off));
        iloc_body.extend_from_slice(&be32(len));
    }
    let iloc = full_box(b"iloc", 0, &iloc_body);

    let mut meta_body = iinf;
    meta_body.extend_from_slice(&iloc);
    let meta = full_box(b"meta", 0, &meta_body);

    let mut ftyp_body = b"heic".to_vec();
    ftyp_body.extend_from_slice(&be32(0));
    let ftyp = boxed(b"ftyp", &ftyp_body);

    let mut mdat_body = be32(6).to_vec(); // the EXIF item's length prefix
    mdat_body.extend_from_slice(b"Exif\0\0");
    mdat_body.extend_from_slice(&gps_tiff_be());
    mdat_body.extend_from_slice(b"http://ns.adobe.com/xap/1.0/ packet");
    let mdat = boxed(b"mdat", &mdat_body);

    let mut file = ftyp;
    file.extend_from_slice(&meta);
    file.extend_from_slice(&mdat);
    file
}

#[test]
fn test_read_miata2_iphone() {
    // measure the layout once with zeroed offsets, then rebuild
    let probe = build_heic(53, 0, 0, 0, 0);
    let mdat_payload_start = {
        let tiff_len = gps_tiff_be().len() as u32;
        let xmp_len = b"http://ns.adobe.com/xap/1.0/ packet".len() as u32;
        let mdat_len = 4 + 6 + tiff_len + xmp_len + 8;
        (probe.len() as u32 - mdat_len) + 8
    };
    let exif_offset = mdat_payload_start;
    let exif_len = 4 + 6 + gps_tiff_be().len() as u32;
    let xmp_offset = exif_offset + exif_len;
    let xmp_len = b"http://ns.adobe.com/xap/1.0/ packet".len() as u32;
    let data = build_heic(53, exif_offset, exif_len, xmp_offset, xmp_len);

    let heif = read_heif(data).unwrap();
    assert_eq!(heif.atoms.len(), 3);
    let meta = heif
        .atoms
        .iter()
        .find_map(|a| match a {
            AtomVariant::Meta(m) => Some(m),
            _ => None,
        })
        .unwrap();
    let iinf = meta
        .children
        .iter()
        .find_map(|a| match a {
            AtomVariant::MetaIinf(n) => Some(n),
            _ => None,
        })
        .unwrap();
    let iloc = meta
        .children
        .iter()
        .find_map(|a| match a {
            AtomVariant::MetaIloc(l) => Some(l),
            _ => None,
        })
        .unwrap();
    assert_eq!(iinf.entries.len(), 53);
    assert_eq!(iloc.items.len(), 53);

    let exif = heif.exif.as_ref().unwrap();
    assert_eq!(exif.endianness, Endianness::Big);
    let altitude = exif
        .tags
        .iter()
        .find_map(|t| match t {
            TiffTag::GPSAltitude(v) => Some(v),
            _ => None,
        })
        .unwrap();
    assert_eq!(*altitude, RationalValue::Rational(3581102173, 3333333));
    match altitude {
        RationalValue::Rational(n, d) => {
            let alt = *n as f64 / *d as f64;
            assert!((alt - 1074.3307593307593f64).abs() < 1e-6);
        }
        other => panic!("unexpected value {:?}", other),
    }
    let latitude = exif
        .tags
        .iter()
        .find_map(|t| match t {
            TiffTag::GPSLatitude(v) => Some(v),
            _ => None,
        })
        .unwrap();
    assert_eq!(
        latitude,
        &vec![
            RationalValue::Rational(35, 1),
            RationalValue::Rational(39, 1),
            RationalValue::Rational(4446, 100),
        ]
    );
    let lat_floats: Vec<f64> = latitude
        .iter()
        .map(|r| match r {
            RationalValue::Rational(n, d) => *n as f64 / *d as f64,
            _ => panic!("unexpected shape"),
        })
        .collect();
    assert_eq!(lat_floats, vec![35.0, 39.0, 44.46]);
    let longitude = exif
        .tags
        .iter()
        .find_map(|t| match t {
            TiffTag::GPSLongitude(v) => Some(v),
            _ => None,
        })
        .unwrap();
    let long_floats: Vec<f64> = longitude
        .iter()
        .map(|r| match r {
            RationalValue::Rational(n, d) => *n as f64 / *d as f64,
            _ => panic!("unexpected shape"),
        })
        .collect();
    assert_eq!(long_floats, vec![82.0, 30.0, 21.56]);

    let xmp = heif.xmp.as_ref().unwrap();
    assert!(xmp.starts_with("http://ns.adobe.com/xap/1.0/"));
}

#[test]
fn test_missing_items_are_absence_not_failure() {
    let data = build_heic(0, 0, 0, 0, 0);
    let heif = read_heif(data).unwrap();
    assert!(heif.exif.is_none());
    assert!(heif.xmp.is_none());
}

#[test]
fn test_item_resolver_matches_type_and_id() {
    let probe = build_heic(3, 0, 0, 0, 0);
    let tiff_len = gps_tiff_be().len() as u32;
    let xmp_len = b"http://ns.adobe.com/xap/1.0/ packet".len() as u32;
    let mdat_len = 4 + 6 + tiff_len + xmp_len + 8;
    let exif_offset = (probe.len() as u32 - mdat_len) + 8;
    let exif_len = 4 + 6 + tiff_len;
    let data = build_heic(3, exif_offset, exif_len, exif_offset + exif_len, xmp_len);
    let heif = read_heif(data).unwrap();
    let item = get_iloc_item_for_item_type(&heif.atoms, "Exif").unwrap();
    assert_eq!(item.item_id, 1);
    assert_eq!(item.extents.len(), 1);
    assert_eq!(item.extents[0].extent_offset, exif_offset as u64);
    assert_eq!(item.extents[0].extent_length, exif_len as u64);
    assert!(get_iloc_item_for_item_type(&heif.atoms, "uri ").is_none());
}

#[test]
fn test_sub_atom_hdlr_strips_nul_padding() {
    // a hdlr box: version+flags, predefined, handler type "pict",
    // three reserved words, then a NUL-padded name
    let mut body = vec![0u8, 0, 0, 0];
    body.extend_from_slice(&be32(0));
    body.extend_from_slice(b"pict");
    body.extend_from_slice(&[0; 12]);
    body.extend_from_slice(b"abc\0\0");
    let data = boxed(b"hdlr", &body);
    let mut c = ByteCursor::new(&data);
    let atom = read_sub_atom(AtomParent::Meta, &mut c).unwrap();
    // the whole box, header included, is consumed
    assert_eq!(c.position(), data.len() as u64);
    match atom {
        AtomVariant::MetaHdlr(h) => {
            assert_eq!(h.handler_type, "pict");
            assert_eq!(h.name, "abc");
            assert_eq!(h.reserved, vec![0, 0, 0]);
        }
        other => panic!("unexpected variant {:?}", other),
    }
}

#[test]
fn test_unexpected_child_type() {
    // an iinf that announces one entry but holds a box that is not
    // an infe
    let mut iinf_body = be16(1).to_vec();
    iinf_body.extend_from_slice(&boxed(b"free", &[0, 0, 0, 0]));
    let iinf = full_box(b"iinf", 0, &iinf_body);
    let meta = full_box(b"meta", 0, &iinf);
    let mut ftyp_body = b"heic".to_vec();
    ftyp_body.extend_from_slice(&be32(0));
    let mut file = boxed(b"ftyp", &ftyp_body);
    file.extend_from_slice(&meta);
    assert_eq!(read_heif(file), Err(DecodeError::UnexpectedChildType));
}

#[test]
fn test_hdlr_name_keeps_interior_nul() {
    let mut body = vec![0u8, 0, 0, 0];
    body.extend_from_slice(&be32(0));
    body.extend_from_slice(b"pict");
    body.extend_from_slice(&[0; 12]);
    body.extend_from_slice(b"a\0b\0");
    let data = boxed(b"hdlr", &body);
    let mut c = ByteCursor::new(&data);
    match read_sub_atom(AtomParent::Meta, &mut c).unwrap() {
        AtomVariant::MetaHdlr(h) => assert_eq!(h.name, "a\u{0}b"),
        other => panic!("unexpected variant {:?}", other),
    }
}

#[test]
fn test_iloc_reserved_is_high_twelve_bits() {
    // version 1: the 16-bit word after the item id packs the 12-bit
    // reserved value above the low-order construction-method bits
    let mut body = vec![0x44u8, 0x00];
    body.extend_from_slice(&be16(1)); // one item
    body.extend_from_slice(&be16(7)); // item id
    body.extend_from_slice(&be16(0x1234)); // reserved/construction word
    body.extend_from_slice(&be16(0)); // data-reference index
    body.extend_from_slice(&be16(0)); // no extents
    let data = full_box(b"iloc", 1, &body);
    let mut c = ByteCursor::new(&data);
    match read_sub_atom(AtomParent::Meta, &mut c).unwrap() {
        AtomVariant::MetaIloc(l) => {
            assert_eq!(l.items.len(), 1);
            assert_eq!(l.items[0].item_id, 7);
            assert_eq!(l.items[0].reserved, Some(0x123));
            assert_eq!(l.items[0].construction_method, Some(4));
        }
        other => panic!("unexpected variant {:?}", other),
    }
}

#[test]
fn test_iloc_field_width_out_of_range() {
    // width code 3 is not one of {0, 4, 8}
    let mut body = vec![0x33u8, 0x00];
    body.extend_from_slice(&be16(1)); // one item
    body.extend_from_slice(&be16(1)); // item id
    body.extend_from_slice(&be16(0)); // data-reference index
    body.extend_from_slice(&be16(1)); // one extent
    let data = full_box(b"iloc", 0, &body);
    let mut c = ByteCursor::new(&data);
    assert_eq!(
        read_sub_atom(AtomParent::Meta, &mut c),
        Err(DecodeError::FieldWidthOutOfRange { width: 3 })
    );
}
