//! The JPEG marker-segment scanner: a linear walk over the segments
//! following the start-of-image marker, with byte-stuffing-aware
//! handling of the entropy-coded scan data, and extraction of the
//! `APP1` (EXIF or XMP) and comment payloads.

use vstd::prelude::*;

use crate::cursor::{be_value, ByteCursor};
use crate::error::DecodeError;
use crate::tiff::{read_exif_section, tiff_decodes_to, Tiff};
use crate::utils::{lossy_string, utf8_lossy, Endianness};

verus! {

/// A decode failure inside a JPEG stream.
#[derive(Debug, Clone, Copy, PartialEq, Eq, Structural)]
pub struct JpegError(pub DecodeError);

/// A decoded JPEG file: its first comment, and the EXIF directory or
/// XMP packet carried by the first `APP1` segment, each absent when
/// the file carries none.
#[derive(Debug, PartialEq)]
pub struct Jpeg {
    pub comment: Option<String>,
    pub exif: Option<Tiff>,
    pub xmp: Option<String>,
}

/// The recognized marker codes (an incomplete set; any other second
/// byte is kept as `UNKNOWN`).
#[derive(Debug, Clone, Copy, PartialEq, Eq, Structural)]
pub enum JpegMarker {
    UNKNOWN(u8),
    SOF0,
    SOF1,
    SOF2,
    SOF3,
    DHT,
    RST0,
    RST1,
    RST2,
    RST3,
    APP0,
    APP1,
    APP2,
    SOS,
    DQT,
    DRI,
    COM,
}

/// The marker a second marker byte denotes.
pub open spec fn marker_of(value: u8) -> JpegMarker {
    if value == 0xC0 {
        JpegMarker::SOF0
    } else if value == 0xC1 {
        JpegMarker::SOF1
    } else if value == 0xC2 {
        JpegMarker::SOF2
    } else if value == 0xC3 {
        JpegMarker::SOF3
    } else if value == 0xC4 {
        JpegMarker::DHT
    } else if value == 0xD0 {
        JpegMarker::RST0
    } else if value == 0xD1 {
        JpegMarker::RST1
    } else if value == 0xD2 {
        JpegMarker::RST2
    } else if value == 0xD3 {
        JpegMarker::RST3
    } else if value == 0xE0 {
        JpegMarker::APP0
    } else if value == 0xE1 {
        JpegMarker::APP1
    } else if value == 0xE2 {
        JpegMarker::APP2
    } else if value == 0xDA {
        JpegMarker::SOS
    } else if value == 0xDB {
        JpegMarker::DQT
    } else if value == 0xDD {
        JpegMarker::DRI
    } else if value == 0xFE {
        JpegMarker::COM
    } else {
        JpegMarker::UNKNOWN(value)
    }
}

impl JpegMarker {
    /// Classifies a second marker byte.
    pub fn from(value: u8) -> (m: JpegMarker)
        ensures
            m == marker_of(value),
    {
        match value {
            0xC0 => JpegMarker::SOF0,
            0xC1 => JpegMarker::SOF1,
            0xC2 => JpegMarker::SOF2,
            0xC3 => JpegMarker::SOF3,
            0xC4 => JpegMarker::DHT,
            0xD0 => JpegMarker::RST0,
            0xD1 => JpegMarker::RST1,
            0xD2 => JpegMarker::RST2,
            0xD3 => JpegMarker::RST3,
            0xE0 => JpegMarker::APP0,
            0xE1 => JpegMarker::APP1,
            0xE2 => JpegMarker::APP2,
            0xDA => JpegMarker::SOS,
            0xDB => JpegMarker::DQT,
            0xDD => JpegMarker::DRI,
            0xFE => JpegMarker::COM,
            _ => JpegMarker::UNKNOWN(value),
        }
    }
}

/// Whether a byte following `0xFF` ends the entropy-coded scan data:
/// anything but the stuffing byte `0x00` and the restart markers
/// `0xD0` through `0xD7`.
pub open spec fn ends_scan(x: u8) -> bool {
    x != 0x00 && !(0xD0 <= x && x <= 0xD7)
}

/// The position at which the entropy-coded data that starts at
/// `from` ends: the first `0xFF` followed by a byte that is neither
/// the stuffing byte nor a restart marker, or the end of the buffer.
pub open spec fn entropy_stop(s: Seq<u8>, from: int) -> int
    decreases s.len() - from,
{
    if !(0 <= from) || from + 1 >= s.len() {
        s.len() as int
    } else if s[from] == 0xFF && ends_scan(s[from + 1]) {
        from
    } else {
        entropy_stop(s, from + 1)
    }
}

/// The stop point of an entropy run lies between its start and the
/// end of the buffer.
pub proof fn lemma_entropy_stop_bounds(s: Seq<u8>, from: int)
    requires
        0 <= from <= s.len(),
    ensures
        from <= entropy_stop(s, from) <= s.len(),
    decreases s.len() - from,
{
    if from + 1 < s.len() && !(s[from] == 0xFF && ends_scan(s[from + 1])) {
        lemma_entropy_stop_bounds(s, from + 1);
    }
}

/// Consumes the entropy-coded scan data that follows a start-of-scan
/// header, appending each byte to `sd`: any `0xFF 0x00` or restart
/// marker pair is absorbed, and the first other `0xFF` marker is
/// left unconsumed for the caller to re-read.
fn read_entropy_data(cursor: &mut ByteCursor, sd: &mut Vec<u8>)
    requires
        old(cursor).pos <= old(cursor).data@.len(),
    ensures
        final(cursor).data@ == old(cursor).data@,
        ({
            let s = old(cursor).data@;
            let p = old(cursor).pos as int;
            &&& final(cursor).pos == entropy_stop(s, p)
            &&& final(sd)@ == old(sd)@ + s.subrange(p, entropy_stop(s, p))
        }),
{
    let ghost s = cursor.data@;
    let ghost p = cursor.pos as int;
    let ghost sd0 = sd@;
    let len = cursor.length() as u64;
    loop
        invariant_except_break
            cursor.data@ == s,
            len == s.len(),
            s.len() <= usize::MAX,
            0 <= p <= cursor.pos <= s.len(),
            sd@ == sd0 + s.subrange(p, cursor.pos as int),
            entropy_stop(s, p) == entropy_stop(s, cursor.pos as int),
        ensures
            cursor.data@ == s,
            cursor.pos == entropy_stop(s, p),
            sd@ == sd0 + s.subrange(p, entropy_stop(s, p)),
        decreases s.len() - cursor.pos,
    {
        let q = cursor.position();
        if len - q <= 1 {
            if q < len {
                let b = match cursor.read_u8() {
                    Ok(b) => b,
                    Err(_) => {
                        proof {
                            assert(false);
                        }
                        break ;
                    },
                };
                sd.push(b);
                proof {
                    assert(sd@ =~= sd0 + s.subrange(p, q + 1));
                }
            }
            proof {
                assert(entropy_stop(s, cursor.pos as int) == s.len());
            }
            break ;
        }
        let b = *vstd::slice::slice_index_get(cursor.data, q as usize);
        let nx = *vstd::slice::slice_index_get(cursor.data, (q + 1) as usize);
        if b == 0xFF && (nx != 0x00 && !(0xD0 <= nx && nx <= 0xD7)) {
            proof {
                assert(q + 1 < s.len());
                assert(s[q as int] == b);
                assert(s[q as int + 1] == nx);
                assert(ends_scan(nx));
                assert(entropy_stop(s, q as int) == q);
            }
            break ;
        }
        let consumed = match cursor.read_u8() {
            Ok(x) => x,
            Err(_) => {
                proof {
                    assert(false);
                }
                break ;
            },
        };
        sd.push(consumed);
        proof {
            assert(sd@ =~= sd0 + s.subrange(p, q + 1));
            assert(entropy_stop(s, q as int) == entropy_stop(s, q + 1));
        }
    }
}

/// The stored length field of the segment at `q` (it counts itself).
pub open spec fn seg_len(s: Seq<u8>, q: int) -> nat {
    be_value(s.subrange(q + 2, q + 4))
}

/// Where the segment at `q` ends and the next one starts: past its
/// declared payload and, for a start-of-scan segment, past the
/// entropy-coded data that follows it.
pub open spec fn section_end(s: Seq<u8>, q: int) -> int {
    if s[q + 1] == 0xDA {
        entropy_stop(s, q + 2 + seg_len(s, q))
    } else {
        q + 2 + seg_len(s, q)
    }
}

/// Whether the pair `(marker, payload)` is exactly the decode of the
/// segment at `q`.
pub open spec fn section_ok(s: Seq<u8>, q: int, sec: (JpegMarker, Vec<u8>)) -> bool {
    &&& q + 4 <= s.len()
    &&& s[q] == 0xFF
    &&& sec.0 == marker_of(s[q + 1])
    &&& seg_len(s, q) >= 2
    &&& q + 2 + seg_len(s, q) <= s.len()
    &&& sec.1@ == s.subrange(q + 4, q + 2 + seg_len(s, q)) + (if s[q + 1] == 0xDA {
        s.subrange(q + 2 + seg_len(s, q), entropy_stop(s, q + 2 + seg_len(s, q)))
    } else {
        Seq::<u8>::empty()
    })
}

/// Whether `secs` is exactly the segment list of the stream `s`:
/// segments sit back to back from offset 2, and the scan stops at
/// the first position with no room for another marker.
pub open spec fn jpeg_sections_ok(s: Seq<u8>, ps: Seq<int>, secs: Seq<(JpegMarker, Vec<u8>)>) -> bool {
    &&& secs.len() == ps.len()
    &&& ps.len() > 0 ==> ps[0] == 2
    &&& forall|i: int| 0 <= i < ps.len() ==> section_ok(s, #[trigger] ps[i], secs[i])
    &&& forall|i: int| 0 < i < ps.len() ==> #[trigger] ps[i] == section_end(s, ps[i - 1])
    &&& ({
        let endp = if ps.len() == 0 {
            2
        } else {
            section_end(s, ps.last())
        };
        endp + 2 >= s.len()
    })
}

/// Scans every marker segment of a JPEG stream, starting right after
/// the 2-byte start-of-image marker, absorbing entropy-coded scan
/// data into its start-of-scan segment.
#[verifier::loop_isolation(false)]
#[verifier::rlimit(60)]
pub fn get_jpeg_sections(data: &[u8]) -> (r: (
    Result<Vec<(JpegMarker, Vec<u8>)>, JpegError>,
    Ghost<Seq<int>>,
))
    requires
        data@.len() >= 2,
    ensures
        data@.len() <= 4 ==> (r.0 matches Ok(v) && v@.len() == 0),
        match r.0 {
            Ok(sections) => jpeg_sections_ok(data@, r.1@, sections@),
            Err(e) => {
                &&& (e.0 matches DecodeError::UnexpectedMarker { .. } || e.0 matches
                DecodeError::TruncatedInput { .. })
                &&& match e.0 {
                    DecodeError::UnexpectedMarker { offset, byte } => 2 <= offset < data@.len()
                        && data@[offset as int] == byte && byte != 0xFF,
                    _ => true,
                }
            },
        },
{
    let ghost s = data@;
    let mut cursor = ByteCursor::new(data);
    cursor.seek(2);
    let data_len = cursor.length() as u64;
    let mut sections: Vec<(JpegMarker, Vec<u8>)> = Vec::new();
    let ghost mut ps: Seq<int> = Seq::empty();
    while cursor.position() < data_len - 2
        invariant
            cursor.data@ == s,
            cursor.pos <= s.len(),
            cursor.pos >= 2,
            cursor.pos == if ps.len() == 0 {
                2
            } else {
                section_end(s, ps.last())
            },
            sections@.len() == ps.len(),
            ps.len() > 0 ==> ps[0] == 2,
            forall|i: int| 0 <= i < ps.len() ==> section_ok(s, #[trigger] ps[i], sections@[i]),
            forall|i: int| 0 < i < ps.len() ==> #[trigger] ps[i] == section_end(s, ps[i - 1]),
        decreases s.len() - cursor.pos,
    {
        let ghost q = cursor.pos as int;
        let lead = match cursor.read_u8() {
            Ok(b) => b,
            Err(e) => {
                return (Err(JpegError(e)), Ghost(Seq::empty()));
            },
        };
        if lead != 0xFF {
            return (
                (Err(
                    JpegError(
                        DecodeError::UnexpectedMarker { offset: cursor.position() - 1, byte: lead },
                    ),
                )),
                Ghost(Seq::empty()),
            );
        }
        let marker_byte = match cursor.read_u8() {
            Ok(b) => b,
            Err(e) => {
                return (Err(JpegError(e)), Ghost(Seq::empty()));
            },
        };
        let marker = JpegMarker::from(marker_byte);
        let stored_len = match cursor.read_u16(Endianness::Big) {
            Ok(v) => v,
            Err(e) => {
                return (Err(JpegError(e)), Ghost(Seq::empty()));
            },
        };
        if stored_len < 2 {
            return (
                (Err(
                    JpegError(
                        DecodeError::TruncatedInput { offset: cursor.position(), expected: 2 },
                    ),
                )),
                Ghost(Seq::empty()),
            );
        }
        let mut section_data = match cursor.read_bytes((stored_len - 2) as u64) {
            Ok(v) => v,
            Err(e) => {
                return (Err(JpegError(e)), Ghost(Seq::empty()));
            },
        };
        if marker_byte == 0xDA {
            read_entropy_data(&mut cursor, &mut section_data);
            proof {
                lemma_entropy_stop_bounds(s, q + 2 + stored_len as int);
            }
        } else {
            proof {
                assert(section_data@ =~= s.subrange(q + 4, q + 2 + seg_len(s, q))
                    + Seq::<u8>::empty());
            }
        }
        proof {
            assert(section_ok(s, q, (marker, section_data)));
        }
        sections.push((marker, section_data));
        proof {
            ps = ps.push(q);
        }
    }
    (Ok(sections), Ghost(ps))
}

/// Whether an `APP1` payload opens with the EXIF wrapper `Exif\0\0`.
pub open spec fn starts_with_exif(d: Seq<u8>) -> bool {
    d.len() >= 6 && d[0] == 0x45 && d[1] == 0x78 && d[2] == 0x69 && d[3] == 0x66 && d[4] == 0
        && d[5] == 0
}

/// Whether an `APP1` payload opens with `http`, announcing an XMP
/// packet.
pub open spec fn starts_with_http(d: Seq<u8>) -> bool {
    d.len() >= 4 && d[0] == 0x68 && d[1] == 0x74 && d[2] == 0x74 && d[3] == 0x70
}

/// Whether `c` is the text of the first comment segment (or absent
/// exactly when no comment segment exists).
pub open spec fn comment_selected(secs: Seq<(JpegMarker, Vec<u8>)>, c: Option<String>) -> bool {
    match c {
        Some(text) => exists|i: int|
            0 <= i < secs.len() && (#[trigger] secs[i]).0 == JpegMarker::COM && text@ == utf8_lossy(
                secs[i].1@,
            ) && (forall|k: int| 0 <= k < i ==> (#[trigger] secs[k]).0 != JpegMarker::COM),
        None => forall|i: int| 0 <= i < secs.len() ==> (#[trigger] secs[i]).0 != JpegMarker::COM,
    }
}

/// Whether `i` is the index of the first `APP1` segment.
pub open spec fn first_app1_at(secs: Seq<(JpegMarker, Vec<u8>)>, i: int) -> bool {
    &&& 0 <= i < secs.len()
    &&& secs[i].0 == JpegMarker::APP1
    &&& forall|k: int| 0 <= k < i ==> (#[trigger] secs[k]).0 != JpegMarker::APP1
}

/// How the EXIF directory and XMP packet follow from the first
/// `APP1` segment: an `Exif\0\0`-prefixed payload decodes through
/// the TIFF decoder (offset by the 6-byte wrapper), an
/// `http`-prefixed one is kept as lossy UTF-8 text, and both are
/// absent when no `APP1` segment exists.
pub open spec fn exif_xmp_selected(
    secs: Seq<(JpegMarker, Vec<u8>)>,
    exif: Option<Tiff>,
    xmp: Option<String>,
) -> bool {
    &&& (forall|i: int| 0 <= i < secs.len() ==> (#[trigger] secs[i]).0 != JpegMarker::APP1) ==> (
    exif is None && xmp is None)
    &&& forall|i: int|
        #[trigger] first_app1_at(secs, i) ==> ({
            let d = secs[i].1@;
            &&& (starts_with_exif(d) <==> exif is Some)
            &&& (exif matches Some(t) ==> tiff_decodes_to(d.skip(6), 0, t.endianness, t.tags@))
            &&& (starts_with_http(d) <==> xmp is Some)
            &&& (xmp matches Some(x) ==> x@ == utf8_lossy(d))
        })
}

/// Whether `k` is the error of a failed TIFF decode of the first
/// `APP1` segment's EXIF payload, past its 6-byte wrapper.
pub open spec fn exif_payload_failed(s: Seq<u8>, k: DecodeError) -> bool {
    exists|ps: Seq<int>, secs: Seq<(JpegMarker, Vec<u8>)>|
        #[trigger] jpeg_sections_ok(s, ps, secs) && exists|i: int|
            #[trigger] first_app1_at(secs, i) && starts_with_exif(secs[i].1@)
                && crate::tiff::tiff_error_ok(secs[i].1@.skip(6), 0, crate::tiff::TiffError(k))
}

/// Which errors a failed JPEG decode may report: a bad marker lead
/// byte at its exact offset, a truncated read, or the TIFF failure
/// of a present EXIF payload.
pub open spec fn jpeg_failure_ok(s: Seq<u8>, k: DecodeError) -> bool {
    ||| (match k {
        DecodeError::UnexpectedMarker { offset, byte } => 2 <= offset < s.len() && s[offset as int]
            == byte && byte != 0xFF,
        _ => false,
    })
    ||| k matches DecodeError::TruncatedInput { .. }
    ||| exif_payload_failed(s, k)
}

/// Decodes a JPEG stream: scans all marker segments, then extracts
/// the first comment and the EXIF directory or XMP packet of the
/// first `APP1` segment. A malformed EXIF payload that is present is
/// a failure, not absence; a stream with no room for a segment after
/// the start-of-image marker decodes to an empty result.
#[verifier::loop_isolation(false)]
pub fn read_jpeg(data: &[u8]) -> (r: Result<Jpeg, JpegError>)
    requires
        data@.len() >= 2,
    ensures
        data@.len() <= 4 ==> r is Ok,
        match r {
            Ok(j) => exists|ps: Seq<int>, secs: Seq<(JpegMarker, Vec<u8>)>|
                {
                    &&& #[trigger] jpeg_sections_ok(data@, ps, secs)
                    &&& comment_selected(secs, j.comment)
                    &&& exif_xmp_selected(secs, j.exif, j.xmp)
                },
            Err(e) => jpeg_failure_ok(data@, e.0),
        },
{
    let ghost s = data@;
    let (sections_result, ps_ghost) = get_jpeg_sections(data);
    let sections = match sections_result {
        Ok(v) => v,
        Err(e) => {
            return Err(e);
        },
    };
    let ghost secs = sections@;
    let mut app1_index: Option<usize> = None;
    let mut com_index: Option<usize> = None;
    let mut i: usize = 0;
    while i < sections.len()
        invariant
            i <= secs.len(),
            match app1_index {
                Some(a) => first_app1_at(secs, a as int) && a < i,
                None => forall|k: int| 0 <= k < i ==> (#[trigger] secs[k]).0 != JpegMarker::APP1,
            },
            match com_index {
                Some(c) => 0 <= c < i && secs[c as int].0 == JpegMarker::COM && (forall|k: int|
                    0 <= k < c ==> (#[trigger] secs[k]).0 != JpegMarker::COM),
                None => forall|k: int| 0 <= k < i ==> (#[trigger] secs[k]).0 != JpegMarker::COM,
            },
        decreases secs.len() - i,
    {
        let section_ref = &sections[i];
        if app1_index.is_none() && matches!(section_ref.0, JpegMarker::APP1) {
            app1_index = Some(i);
        }
        if com_index.is_none() && matches!(section_ref.0, JpegMarker::COM) {
            com_index = Some(i);
        }
        i = i + 1;
    }
    let mut exif: Option<Tiff> = None;
    let mut xmp: Option<String> = None;
    match app1_index {
        Some(a) => {
            let d = &sections[a].1;
            let is_exif = d.len() >= 6 && d[0] == 0x45 && d[1] == 0x78 && d[2] == 0x69 && d[3]
                == 0x66 && d[4] == 0 && d[5] == 0;
            let is_http = d.len() >= 4 && d[0] == 0x68 && d[1] == 0x74 && d[2] == 0x74 && d[3]
                == 0x70;
            if is_exif {
                match read_exif_section(d.as_slice()) {
                    Ok(t) => {
                        exif = Some(t);
                    },
                    Err(e) => {
                        proof {
                            assert(first_app1_at(secs, a as int));
                            assert(starts_with_exif(secs[a as int].1@));
                            assert(crate::tiff::tiff_error_ok(
                                secs[a as int].1@.skip(6),
                                0,
                                e,
                            ));
                            assert(jpeg_sections_ok(s, ps_ghost@, secs));
                            assert(exif_payload_failed(s, e.0));
                        }
                        return Err(JpegError(e.0));
                    },
                }
            }
            if is_http {
                xmp = Some(lossy_string(d.as_slice()));
            }
            proof {
                assert(is_exif == starts_with_exif(secs[a as int].1@));
                assert(is_http == starts_with_http(secs[a as int].1@));
            }
        },
        None => {},
    }
    let comment: Option<String> = match com_index {
        Some(c) => Some(lossy_string(sections[c].1.as_slice())),
        None => None,
    };
    proof {
        assert(comment_selected(secs, comment));
        assert(exif_xmp_selected(secs, exif, xmp));
        assert(jpeg_sections_ok(s, ps_ghost@, secs));
    }
    Ok(Jpeg { comment, exif, xmp })
}

} // verus!
