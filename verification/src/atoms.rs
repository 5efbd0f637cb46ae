//! The typed boxes of the ISOBMFF/HEIF container: `ftyp`, the
//! `meta` family, and the opaque fallback for unrecognized names.

use vstd::prelude::*;

use crate::atom::{read_atom_header, read_sub_atom, AtomParent, AtomVariant};
use crate::cursor::{be_value, ByteCursor};
use crate::error::DecodeError;
use crate::utils::{strip_trailing_nul, read_c_string, read_sized_string, utf8_lossy,
    Endianness};

verus! {

/// What a successful decode of an unrecognized box whose header sits
/// at `bp` returns: its name, and no retained payload.
pub open spec fn unknown_decodes_to(s: Seq<u8>, bp: int, a: AtomUnknown) -> bool {
    &&& a.name@ == utf8_lossy(s.subrange(bp + 4, bp + 8))
    &&& a.data@ == Seq::<u8>::empty()
}

/// A box whose name no dispatch table recognizes; its payload is
/// skipped (the length accounting still applies) and not retained.
#[derive(Debug, Clone, PartialEq)]
pub struct AtomUnknown {
    pub name: String,
    pub data: Vec<u8>,
}

impl AtomUnknown {
    /// Skips the `size - 8` payload bytes of an unrecognized box
    /// (clamped to the end of the buffer), keeping only its name.
    pub fn read_from(name: String, size: u64, cursor: &mut ByteCursor) -> (r: Result<
        Self,
        DecodeError,
    >)
        ensures
            final(cursor).data@ == old(cursor).data@,
            ({
                let s = old(cursor).data@;
                let p = old(cursor).pos as int;
                match r {
                    Ok(a) => {
                        &&& size >= 8
                        &&& a.name@ == name@
                        &&& a.data@ == Seq::<u8>::empty()
                        &&& p <= s.len() ==> final(cursor).pos == if p + (size - 8) <= s.len() {
                            p + (size - 8)
                        } else {
                            s.len() as int
                        }
                        &&& p > s.len() ==> final(cursor).pos == p
                    },
                    Err(e) => size < 8 && e matches DecodeError::TruncatedInput { .. },
                }
            }),
    {
        if size < 8 {
            return Err(
                DecodeError::TruncatedInput { offset: cursor.position(), expected: 8 },
            );
        }
        let skip = size - 8;
        let rem = cursor.remaining();
        let n = if skip <= rem {
            skip
        } else {
            rem
        };
        if n > 0 {
            match cursor.read_bytes(n) {
                Ok(_) => {},
                Err(e) => {
                    return Err(e);
                },
            }
        }
        Ok(AtomUnknown { name, data: Vec::new() })
    }
}

/// What a successful `ftyp` decode returns, relative to the box
/// payload at `p` and the declared size.
#[verifier::opaque]
pub open spec fn ftyp_decodes_to(s: Seq<u8>, p: int, size: int, a: AtomFtyp) -> bool {
    &&& size >= 16
    &&& p + 8 + 4 * (size / 4 - 4) <= s.len()
    &&& a.major_brand@ == utf8_lossy(s.subrange(p, p + 4))
    &&& a.minor_version == crate::cursor::as_signed_32(be_value(s.subrange(p + 4, p + 8)))
    &&& a.compatible_brands@.len() == size / 4 - 4
    &&& forall|j: int|
        0 <= j < a.compatible_brands@.len() ==> (#[trigger] a.compatible_brands@[j])@
            == utf8_lossy(s.subrange(p + 8 + 4 * j, p + 12 + 4 * j))
}

/// The `ftyp` box: major brand, minor version, and the list of
/// compatible brands filling the rest of the box.
#[derive(Debug, Clone, PartialEq)]
pub struct AtomFtyp {
    pub major_brand: String,
    pub minor_version: i32,
    pub compatible_brands: Vec<String>,
}

impl AtomFtyp {
    /// Decodes an `ftyp` payload: 4-byte major brand, 4-byte minor
    /// version, then `size / 4 - 4` compatible brands of 4 bytes
    /// each.
    #[verifier::loop_isolation(false)]
    pub fn read_from(_name: String, size: u64, cursor: &mut ByteCursor) -> (r: Result<
        Self,
        DecodeError,
    >)
        ensures
            final(cursor).data@ == old(cursor).data@,
            ({
                let s = old(cursor).data@;
                let p = old(cursor).pos as int;
                &&& (r is Ok <==> size >= 16 && p + 8 + 4 * (size / 4 - 4) <= s.len())
                &&& match r {
                    Ok(a) => {
                        &&& ftyp_decodes_to(s, p, size as int, a)
                        &&& final(cursor).pos == p + 8 + 4 * (size / 4 - 4)
                    },
                    Err(e) => e matches DecodeError::TruncatedInput { .. },
                }
            }),
    {
        proof {
            reveal(ftyp_decodes_to);
        }
        let ghost s = cursor.data@;
        let ghost p = cursor.pos as int;
        if size < 16 {
            return Err(
                DecodeError::TruncatedInput { offset: cursor.position(), expected: 16 },
            );
        }
        let major_bytes = match cursor.read_bytes(4) {
            Ok(v) => v,
            Err(e) => {
                return Err(e);
            },
        };
        let major_brand = crate::utils::lossy_string(major_bytes.as_slice());
        let minor_version = match cursor.read_i32(Endianness::Big) {
            Ok(v) => v,
            Err(e) => {
                return Err(e);
            },
        };
        let brand_count = size / 4 - 4;
        let mut compatible_brands: Vec<String> = Vec::new();
        let mut j: u64 = 0;
        while j < brand_count
            invariant
                s == old(cursor).data@,
                p == old(cursor).pos as int,
                cursor.data@ == s,
                j <= brand_count,
                cursor.pos == p + 8 + 4 * j,
                cursor.pos <= s.len(),
                compatible_brands@.len() == j,
                forall|i: int|
                    0 <= i < j ==> (#[trigger] compatible_brands@[i])@ == utf8_lossy(
                        s.subrange(p + 8 + 4 * i, p + 12 + 4 * i),
                    ),
            decreases brand_count - j,
        {
            let brand_bytes = match cursor.read_bytes(4) {
                Ok(v) => v,
                Err(e) => {
                    proof {
                        assert(p + 8 + 4 * (j as int) + 4 <= p + 8 + 4 * (size / 4 - 4))
                            by (nonlinear_arith)
                            requires
                                j < brand_count && brand_count == size / 4 - 4,
                        ;
                    }
                    return Err(e);
                },
            };
            compatible_brands.push(crate::utils::lossy_string(brand_bytes.as_slice()));
            j = j + 1;
        }
        Ok(AtomFtyp { major_brand, minor_version, compatible_brands })
    }
}

/// What a successful `hdlr` decode returns, relative to the box
/// payload at `p` and the declared size.
#[verifier::opaque]
pub open spec fn hdlr_decodes_to(s: Seq<u8>, p: int, size: int, a: AtomMetaHdlr) -> bool {
    &&& size >= 32
    &&& p + (size - 8) <= s.len()
    &&& a.version == s[p]
    &&& a.flags == be_value(s.subrange(p + 1, p + 4))
    &&& a.predefined == be_value(s.subrange(p + 4, p + 8))
    &&& a.handler_type@ == utf8_lossy(strip_trailing_nul(s.subrange(p + 8, p + 12)))
    &&& a.reserved@.len() == 3
    &&& a.reserved@[0] == be_value(s.subrange(p + 12, p + 16))
    &&& a.reserved@[1] == be_value(s.subrange(p + 16, p + 20))
    &&& a.reserved@[2] == be_value(s.subrange(p + 20, p + 24))
    &&& a.name@ == utf8_lossy(strip_trailing_nul(s.subrange(p + 24, p + size - 8)))
}

/// The `meta.hdlr` box: handler type and name, with the reserved
/// words kept as read.
#[derive(Debug, Clone, PartialEq)]
pub struct AtomMetaHdlr {
    pub version: u8,
    pub flags: u32,
    pub predefined: u32,
    pub handler_type: String,
    pub reserved: Vec<u32>,
    pub name: String,
}

impl AtomMetaHdlr {
    /// Decodes a `hdlr` payload; the trailing name occupies exactly
    /// the `size - 32` bytes left in the box, NUL padding dropped.
    pub fn read_from(_name: String, size: u64, cursor: &mut ByteCursor) -> (r: Result<
        Self,
        DecodeError,
    >)
        ensures
            final(cursor).data@ == old(cursor).data@,
            ({
                let s = old(cursor).data@;
                let p = old(cursor).pos as int;
                &&& (r is Ok <==> size >= 32 && p + (size - 8) <= s.len())
                &&& match r {
                    Ok(a) => {
                        &&& hdlr_decodes_to(s, p, size as int, a)
                        &&& final(cursor).pos == p + (size - 8)
                    },
                    Err(e) => e matches DecodeError::TruncatedInput { .. },
                }
            }),
    {
        proof {
            reveal(hdlr_decodes_to);
        }
        if size < 32 {
            return Err(
                DecodeError::TruncatedInput { offset: cursor.position(), expected: 32 },
            );
        }
        let (version, flags) = match crate::atom::read_version_and_flags(cursor) {
            Ok(vf) => vf,
            Err(e) => {
                return Err(e);
            },
        };
        let predefined = match cursor.read_u32(Endianness::Big) {
            Ok(v) => v,
            Err(e) => {
                return Err(e);
            },
        };
        let handler_type = match read_sized_string(cursor, 4) {
            Ok(v) => v,
            Err(e) => {
                return Err(e);
            },
        };
        let mut reserved: Vec<u32> = Vec::new();
        let r0 = match cursor.read_u32(Endianness::Big) {
            Ok(v) => v,
            Err(e) => {
                return Err(e);
            },
        };
        let r1 = match cursor.read_u32(Endianness::Big) {
            Ok(v) => v,
            Err(e) => {
                return Err(e);
            },
        };
        let r2 = match cursor.read_u32(Endianness::Big) {
            Ok(v) => v,
            Err(e) => {
                return Err(e);
            },
        };
        reserved.push(r0);
        reserved.push(r1);
        reserved.push(r2);
        let name = match read_sized_string(cursor, size - 32) {
            Ok(v) => v,
            Err(e) => {
                return Err(e);
            },
        };
        Ok(AtomMetaHdlr { version, flags, predefined, handler_type, reserved, name })
    }
}

/// What a successful data-reference entry decode returns, relative
/// to the entry's payload at `p` and its declared size (its name
/// comes from the sub-box header).
pub open spec fn dref_entry_decodes_to(s: Seq<u8>, p: int, size: int, a: AtomMetaDinfDrefEntry) -> bool {
    &&& size >= 12
    &&& p + (size - 8) <= s.len()
    &&& a.version == s[p]
    &&& a.flags == be_value(s.subrange(p + 1, p + 4))
    &&& a.string_value@ == utf8_lossy(strip_trailing_nul(s.subrange(p + 4, p + size - 8)))
}

/// One `dref` data-reference entry (`alis`, `rsrc` or `url `).
#[derive(Debug, Clone, PartialEq)]
pub struct AtomMetaDinfDrefEntry {
    pub name: String,
    pub version: u8,
    pub flags: u32,
    pub string_value: String,
}

impl AtomMetaDinfDrefEntry {
    /// Decodes one data-reference entry: version and flags, then a
    /// string filling the `size - 12` bytes left in the box.
    pub fn read_from(name: String, size: u64, cursor: &mut ByteCursor) -> (r: Result<
        Self,
        DecodeError,
    >)
        ensures
            final(cursor).data@ == old(cursor).data@,
            ({
                let s = old(cursor).data@;
                let p = old(cursor).pos as int;
                &&& (r is Ok <==> size >= 12 && p + (size - 8) <= s.len())
                &&& match r {
                    Ok(a) => {
                        &&& dref_entry_decodes_to(s, p, size as int, a)
                        &&& a.name@ == name@
                        &&& final(cursor).pos == p + (size - 8)
                    },
                    Err(e) => e matches DecodeError::TruncatedInput { .. },
                }
            }),
    {
        if size < 12 {
            return Err(
                DecodeError::TruncatedInput { offset: cursor.position(), expected: 12 },
            );
        }
        let (version, flags) = match crate::atom::read_version_and_flags(cursor) {
            Ok(vf) => vf,
            Err(e) => {
                return Err(e);
            },
        };
        let string_value = match read_sized_string(cursor, size - 12) {
            Ok(v) => v,
            Err(e) => {
                return Err(e);
            },
        };
        Ok(AtomMetaDinfDrefEntry { name, version, flags, string_value })
    }
}

/// The `meta.pitm` box: the primary item's id.
#[derive(Debug, Clone, PartialEq)]
pub struct AtomMetaPitm {
    pub version: u8,
    pub flags: u32,
    pub item_id: u32,
}

/// What a successful `pitm` decode returns, relative to the box
/// payload at `p`.
pub open spec fn pitm_decodes_to(s: Seq<u8>, p: int, a: AtomMetaPitm) -> bool {
    &&& a.version == s[p]
    &&& a.flags == be_value(s.subrange(p + 1, p + 4))
    &&& a.item_id == if s[p] == 0 {
        be_value(s.subrange(p + 4, p + 6))
    } else {
        be_value(s.subrange(p + 4, p + 8))
    }
}

/// Whether a `pitm` payload at `p` decodes without error: its whole
/// fixed-width record lies inside the buffer.
pub open spec fn pitm_ok(s: Seq<u8>, p: int) -> bool {
    p + (if s[p] == 0 {
        6int
    } else {
        8int
    }) <= s.len()
}

impl AtomMetaPitm {
    /// Decodes a `pitm` payload: the item id is 16 bits wide in
    /// version 0 and 32 bits wide otherwise. Succeeds exactly when
    /// the record lies inside the buffer.
    pub fn read_from(_name: String, _size: u64, cursor: &mut ByteCursor) -> (r: Result<
        Self,
        DecodeError,
    >)
        ensures
            final(cursor).data@ == old(cursor).data@,
            ({
                let s = old(cursor).data@;
                let p = old(cursor).pos as int;
                &&& (r is Ok <==> pitm_ok(s, p))
                &&& match r {
                    Ok(a) => {
                        &&& pitm_decodes_to(s, p, a)
                        &&& final(cursor).pos == if s[p] == 0 {
                            p + 6
                        } else {
                            p + 8
                        }
                        &&& final(cursor).pos <= s.len()
                    },
                    Err(e) => e matches DecodeError::TruncatedInput { .. },
                }
            }),
    {
        let (version, flags) = match crate::atom::read_version_and_flags(cursor) {
            Ok(vf) => vf,
            Err(e) => {
                return Err(e);
            },
        };
        let item_id: u32 = if version == 0 {
            match cursor.read_u16(Endianness::Big) {
                Ok(v) => v as u32,
                Err(e) => {
                    return Err(e);
                },
            }
        } else {
            match cursor.read_u32(Endianness::Big) {
                Ok(v) => v,
                Err(e) => {
                    return Err(e);
                },
            }
        };
        Ok(AtomMetaPitm { version, flags, item_id })
    }
}

/// The `meta` box: version and flags, then child boxes back to back
/// until the declared payload is consumed.
#[derive(Debug, PartialEq)]
pub struct AtomMeta {
    pub version: u8,
    pub flags: u32,
    pub children: Vec<AtomVariant>,
}

/// Whether `children` is the run of boxes whose headers sit back to
/// back at the positions `qs`, spanning `start` to `endp`: each
/// child is decoded as the `meta` dispatch table directs, each next
/// child starts exactly where the previous one's decode ended, and
/// the kinds with a pinned width end exactly at their declared size.
pub open spec fn meta_children_ok(
    s: Seq<u8>,
    start: int,
    endp: int,
    qs: Seq<int>,
    children: Seq<AtomVariant>,
) -> bool {
    &&& children.len() == qs.len()
    &&& qs.len() > 0 ==> qs[0] == start
    &&& qs.len() == 0 ==> endp == start
    &&& qs.len() > 0 ==> qs.last() < endp
    &&& forall|i: int| 0 < i < qs.len() ==> #[trigger] qs[i] > qs[i - 1]
    &&& forall|i: int|
        0 <= i < qs.len() ==> crate::atom::sub_atom_decoded(
            AtomParent::Meta,
            s,
            #[trigger] qs[i],
            children[i],
        )
    &&& forall|i: int|
        0 <= i < qs.len() ==> crate::atom::child_span_exact(
            s,
            #[trigger] qs[i],
            children[i],
            if i + 1 < qs.len() {
                qs[i + 1]
            } else {
                endp
            },
        )
}

/// What a successful `meta` decode returns, relative to the box
/// payload at `p`: version, flags, and the decoded children laid out
/// back to back from the payload start to the final cursor position
/// `endp`.
#[verifier::opaque]
pub open spec fn meta_decodes_to(s: Seq<u8>, p: int, endp: int, a: AtomMeta) -> bool {
    &&& a.version == s[p]
    &&& a.flags == be_value(s.subrange(p + 1, p + 4))
    &&& exists|qs: Seq<int>| #[trigger] meta_children_ok(s, p + 4, endp, qs, a.children@)
}

impl AtomMeta {
    /// Decodes a `meta` payload: child boxes are read sequentially,
    /// each starting exactly where the previous one ended, and the
    /// descent stops as soon as the declared payload (size less the
    /// 8-byte header and the 4-byte version preamble) is consumed.
    #[verifier::loop_isolation(false)]
    #[verifier::rlimit(100)]
    #[verifier::spinoff_prover]
    pub fn read_from(_name: String, size: u64, cursor: &mut ByteCursor) -> (r: Result<
        Self,
        DecodeError,
    >)
        ensures
            final(cursor).data@ == old(cursor).data@,
            ({
                let s = old(cursor).data@;
                let p = old(cursor).pos as int;
                &&& (size == 12 && p + 4 <= s.len()) ==> r is Ok
                &&& match r {
                    Ok(a) => {
                        &&& size >= 12
                        &&& meta_decodes_to(s, p, final(cursor).pos as int, a)
                        &&& final(cursor).pos >= p + 4 + (size - 12)
                        &&& final(cursor).pos <= s.len()
                        &&& final(cursor).pos > p
                    },
                    Err(e) => crate::atom::box_error_ok(e),
                }
            }),
        decreases old(cursor).data@.len() - old(cursor).pos, 1int,
    {
        let ghost s = cursor.data@;
        let ghost p = cursor.pos as int;
        if size < 12 {
            return Err(
                DecodeError::TruncatedInput { offset: cursor.position(), expected: 12 },
            );
        }
        let (version, flags) = match crate::atom::read_version_and_flags(cursor) {
            Ok(vf) => vf,
            Err(e) => {
                return Err(e);
            },
        };
        let start_position = cursor.position();
        let size_minus_already_read = size - 12;
        let mut children: Vec<AtomVariant> = Vec::new();
        let ghost mut qs: Seq<int> = Seq::empty();
        while cursor.position() - start_position < size_minus_already_read
            invariant
                s == old(cursor).data@,
                p == old(cursor).pos as int,
                cursor.data@ == s,
                p + 4 == start_position,
                cursor.pos >= start_position,
                cursor.pos <= s.len(),
                children@.len() == qs.len(),
                qs.len() == 0 ==> cursor.pos == p + 4,
                qs.len() > 0 ==> qs[0] == p + 4,
                qs.len() > 0 ==> qs.last() < cursor.pos,
                forall|i: int| 0 < i < qs.len() ==> #[trigger] qs[i] > qs[i - 1],
                forall|i: int|
                    0 <= i < qs.len() ==> crate::atom::sub_atom_decoded(
                        AtomParent::Meta,
                        s,
                        #[trigger] qs[i],
                        children@[i],
                    ),
                forall|i: int|
                    0 <= i < qs.len() - 1 ==> crate::atom::child_span_exact(
                        s,
                        #[trigger] qs[i],
                        children@[i],
                        qs[i + 1],
                    ),
                qs.len() > 0 ==> crate::atom::child_span_exact(
                    s,
                    qs.last(),
                    children@.last(),
                    cursor.pos as int,
                ),
            decreases s.len() - cursor.pos,
        {
            let ghost q = cursor.pos as int;
            let child = match read_sub_atom(AtomParent::Meta, cursor) {
                Ok(c) => c,
                Err(e) => {
                    return Err(e);
                },
            };
            children.push(child);
            proof {
                qs = qs.push(q);
            }
        }
        proof {
            let endp = cursor.pos as int;
            assert(meta_children_ok(s, p + 4, endp, qs, children@));
            assert(exists|qs2: Seq<int>|
                #[trigger] meta_children_ok(s, p + 4, endp, qs2, children@));
            let a = AtomMeta { version, flags, children };
            assert(a.children@ == children@);
            reveal(meta_decodes_to);
            assert(meta_decodes_to(s, p, endp, a));
        }
        Ok(AtomMeta { version, flags, children })
    }
}

/// Whether the sub-box headed at `bp` is one data-reference entry of
/// an accepted type (`alis`, `rsrc` or `url `), decoding to `entry`.
pub open spec fn dref_entry_at(s: Seq<u8>, bp: int, entry: AtomMetaDinfDrefEntry) -> bool {
    let q = bp + crate::atom::header_len(s, bp);
    let size = crate::atom::header_size(s, bp);
    &&& (crate::atom::header_name_code(s, bp) == 0x616C6973 || crate::atom::header_name_code(s, bp)
        == 0x72737263 || crate::atom::header_name_code(s, bp) == 0x75726C20)
    &&& entry.name@ == utf8_lossy(s.subrange(bp + 4, bp + 8))
    &&& dref_entry_decodes_to(s, q, size, entry)
}

/// Whether `entries` is a run of data-reference entry boxes whose
/// headers sit at the strictly increasing positions `qs` from
/// `start`.
pub open spec fn dref_entries_ok(
    s: Seq<u8>,
    start: int,
    qs: Seq<int>,
    entries: Seq<AtomMetaDinfDrefEntry>,
) -> bool {
    &&& entries.len() == qs.len()
    &&& qs.len() > 0 ==> qs[0] == start
    &&& forall|i: int| 0 < i < qs.len() ==> #[trigger] qs[i] > qs[i - 1]
    &&& forall|i: int| 0 <= i < qs.len() ==> dref_entry_at(s, #[trigger] qs[i], entries[i])
}

/// What a successful `dref` decode returns, relative to the box
/// payload at `p`: version, flags, the declared entry count, and
/// that many decoded data-reference entries.
#[verifier::opaque]
pub open spec fn dref_decodes_to(s: Seq<u8>, p: int, a: AtomMetaDinfDref) -> bool {
    &&& a.version == s[p]
    &&& a.flags == be_value(s.subrange(p + 1, p + 4))
    &&& a.data_references@.len() == be_value(s.subrange(p + 4, p + 8))
    &&& exists|qs: Seq<int>| #[trigger] dref_entries_ok(s, p + 8, qs, a.data_references@)
}

/// What a successful `dinf` decode returns, relative to the box
/// payload at `p`: its one child is a `dref` box, decoded in place.
pub open spec fn dinf_decodes_to(s: Seq<u8>, p: int, a: AtomMetaDinf) -> bool {
    &&& crate::atom::header_name_code(s, p) == 0x64726566
    &&& dref_decodes_to(s, p + crate::atom::header_len(s, p), a.data_references)
}

/// The `meta.dinf` box, wrapping the data-reference table.
#[derive(Debug, Clone, PartialEq)]
pub struct AtomMetaDinf {
    pub data_references: AtomMetaDinfDref,
}

impl AtomMetaDinf {
    /// Decodes a `dinf` payload: exactly one `dref` child; any other
    /// child is an `UnexpectedChildType`.
    pub fn read_from(_name: String, _size: u64, cursor: &mut ByteCursor) -> (r: Result<
        Self,
        DecodeError,
    >)
        ensures
            final(cursor).data@ == old(cursor).data@,
            ({
                let s = old(cursor).data@;
                let p = old(cursor).pos as int;
                match r {
                    Ok(a) => {
                        &&& dinf_decodes_to(s, p, a)
                        &&& final(cursor).pos > p
                        &&& final(cursor).pos <= s.len()
                    },
                    Err(e) => {
                        &&& crate::atom::box_error_ok(e)
                        &&& e == DecodeError::UnexpectedChildType ==> ((p
                            + crate::atom::header_len(s, p) <= s.len()
                            && crate::atom::header_name_code(s, p) != 0x64726566) || (exists|
                            bp: int,
                        |
                            p + 8 <= bp && bp + crate::atom::header_len(s, bp) <= s.len() && !(
                            #[trigger] crate::atom::header_name_code(s, bp) == 0x616C6973
                                || crate::atom::header_name_code(s, bp) == 0x72737263
                                || crate::atom::header_name_code(s, bp) == 0x75726C20)))
                    },
                }
            }),
        decreases old(cursor).data@.len() - old(cursor).pos, 1int,
    {
        let ghost s = cursor.data@;
        let ghost p = cursor.pos as int;
        let sub_atom = match read_sub_atom(AtomParent::MetaDinf, cursor) {
            Ok(a) => a,
            Err(e) => {
                return Err(e);
            },
        };
        match sub_atom {
            AtomVariant::MetaDinfDref(data_references) => Ok(AtomMetaDinf { data_references }),
            _ => Err(DecodeError::UnexpectedChildType),
        }
    }
}

/// The `meta.dinf.dref` box: a counted list of data-reference
/// entries.
#[derive(Debug, Clone, PartialEq)]
pub struct AtomMetaDinfDref {
    pub version: u8,
    pub flags: u32,
    pub data_references: Vec<AtomMetaDinfDrefEntry>,
}

impl AtomMetaDinfDref {
    /// Decodes a `dref` payload: version and flags, a 32-bit entry
    /// count, then that many `alis`/`rsrc`/`url ` entries; any other
    /// child is an `UnexpectedChildType`.
    #[verifier::loop_isolation(false)]
    pub fn read_from(_name: String, _size: u64, cursor: &mut ByteCursor) -> (r: Result<
        Self,
        DecodeError,
    >)
        ensures
            final(cursor).data@ == old(cursor).data@,
            ({
                let s = old(cursor).data@;
                let p = old(cursor).pos as int;
                &&& (p + 8 <= s.len() && be_value(s.subrange(p + 4, p + 8)) == 0) ==> r is Ok
                &&& match r {
                    Ok(a) => {
                        &&& dref_decodes_to(s, p, a)
                        &&& final(cursor).pos > p
                        &&& final(cursor).pos <= s.len()
                    },
                    Err(e) => {
                        &&& crate::atom::box_error_ok(e)
                        &&& e == DecodeError::UnexpectedChildType ==> exists|bp: int|
                            p + 8 <= bp && bp + crate::atom::header_len(s, bp) <= s.len() && !(
                            #[trigger] crate::atom::header_name_code(s, bp) == 0x616C6973
                                || crate::atom::header_name_code(s, bp) == 0x72737263
                                || crate::atom::header_name_code(s, bp) == 0x75726C20)
                    },
                }
            }),
        decreases old(cursor).data@.len() - old(cursor).pos, 1int,
    {
        let ghost s = cursor.data@;
        let ghost p = cursor.pos as int;
        let (version, flags) = match crate::atom::read_version_and_flags(cursor) {
            Ok(vf) => vf,
            Err(e) => {
                return Err(e);
            },
        };
        let number_of_entries = match cursor.read_u32(Endianness::Big) {
            Ok(v) => v,
            Err(e) => {
                return Err(e);
            },
        };
        let mut entries: Vec<AtomMetaDinfDrefEntry> = Vec::new();
        let ghost mut qs: Seq<int> = Seq::empty();
        let mut i: u32 = 0;
        while i < number_of_entries
            invariant
                s == old(cursor).data@,
                p == old(cursor).pos as int,
                cursor.data@ == s,
                i <= number_of_entries,
                entries@.len() == i,
                qs.len() == i,
                cursor.pos >= p + 8,
                cursor.pos <= s.len(),
                qs.len() == 0 ==> cursor.pos == p + 8,
                qs.len() > 0 ==> qs[0] == p + 8,
                qs.len() > 0 ==> qs.last() < cursor.pos,
                forall|k: int| 0 < k < qs.len() ==> #[trigger] qs[k] > qs[k - 1],
                forall|k: int| 0 <= k < qs.len() ==> dref_entry_at(s, #[trigger] qs[k], entries@[k]),
            decreases number_of_entries - i,
        {
            let ghost q = cursor.pos as int;
            let sub_atom = match read_sub_atom(AtomParent::MetaDinfDref, cursor) {
                Ok(a) => a,
                Err(e) => {
                    return Err(e);
                },
            };
            match sub_atom {
                AtomVariant::MetaDinfDrefEntry(entry) => {
                    proof {
                        assert(dref_entry_at(s, q, entry));
                        qs = qs.push(q);
                    }
                    entries.push(entry);
                },
                _ => {
                    proof {
                        assert(p + 8 <= q);
                        assert(q + crate::atom::header_len(s, q) <= s.len());
                        assert(!(crate::atom::header_name_code(s, q) == 0x616C6973
                            || crate::atom::header_name_code(s, q) == 0x72737263
                            || crate::atom::header_name_code(s, q) == 0x75726C20));
                    }
                    return Err(DecodeError::UnexpectedChildType);
                },
            }
            i = i + 1;
        }
        proof {
            assert(dref_entries_ok(s, p + 8, qs, entries@));
            assert(exists|qs2: Seq<int>| #[trigger] dref_entries_ok(s, p + 8, qs2, entries@));
            let a = AtomMetaDinfDref { version, flags, data_references: entries };
            assert(a.data_references@ == entries@);
            reveal(dref_decodes_to);
            assert(dref_decodes_to(s, p, a));
        }
        Ok(AtomMetaDinfDref { version, flags, data_references: entries })
    }
}

/// The two on-wire shapes of an item-info entry, by version, with a
/// tolerant opaque fallback for version values past 3.
#[derive(Debug, Clone, PartialEq)]
pub enum AtomMetaIinfInfeVariant {
    V0Or1 {
        item_id: u16,
        item_protection_index: u16,
        item_name: String,
        content_type: String,
        content_encoding: Option<String>,
        extension_type: Option<u32>,
        extension: Option<Vec<u8>>,
    },
    V2Or3 {
        item_id: u32,
        item_protection_index: u16,
        item_type: String,
        item_name: String,
        content_type: Option<String>,
        content_encoding: Option<String>,
        item_uri_type: Option<String>,
    },
    Unknown(String),
}

/// The position just past a NUL-terminated string that starts at
/// `from`: one past its NUL, or the end of the buffer.
pub open spec fn after_c_string(s: Seq<u8>, from: int) -> int {
    if crate::utils::first_nul(s, from) < s.len() {
        crate::utils::first_nul(s, from) + 1
    } else {
        s.len() as int
    }
}

/// The characters of the NUL-terminated string that starts at `from`.
pub open spec fn c_string_at(s: Seq<u8>, from: int) -> Seq<char> {
    utf8_lossy(s.subrange(from, crate::utils::first_nul(s, from)))
}

/// Whether the 4 bytes at `tpos` spell the item type `mime`.
pub open spec fn type_is_mime(s: Seq<u8>, tpos: int) -> bool {
    s[tpos] == 0x6D && s[tpos + 1] == 0x69 && s[tpos + 2] == 0x6D && s[tpos + 3] == 0x65
}

/// Whether the 4 bytes at `tpos` spell the item type `uri `.
pub open spec fn type_is_uri(s: Seq<u8>, tpos: int) -> bool {
    s[tpos] == 0x75 && s[tpos + 1] == 0x72 && s[tpos + 2] == 0x69 && s[tpos + 3] == 0x20
}

/// One `iinf.infe` item-info entry.
#[derive(Debug, Clone, PartialEq)]
pub struct AtomMetaIinfInfe {
    pub version: u8,
    pub flags: u32,
    pub value: AtomMetaIinfInfeVariant,
}

/// What a successful decode of the item-info entry at payload `p`
/// (declared box size `size`) returns.
#[verifier::opaque]
pub open spec fn infe_decodes_to(s: Seq<u8>, p: int, size: int, a: AtomMetaIinfInfe) -> bool {
    &&& a.version == s[p]
    &&& a.flags == be_value(s.subrange(p + 1, p + 4))
    &&& (a.value matches AtomMetaIinfInfeVariant::V0Or1 { .. } <==> s[p] == 0 || s[p] == 1)
    &&& (a.value matches AtomMetaIinfInfeVariant::V2Or3 { .. } <==> s[p] == 2 || s[p] == 3)
    &&& (a.value matches AtomMetaIinfInfeVariant::Unknown(_) <==> s[p] > 3)
    &&& (match a.value {
        AtomMetaIinfInfeVariant::V2Or3 {
            item_id,
            item_protection_index,
            item_type,
            item_name,
            content_type,
            content_encoding,
            item_uri_type,
        } => {
            let idw: int = if s[p] == 2 {
                2
            } else {
                4
            };
            let tpos = p + 6 + idw;
            let npos = tpos + 4;
            let after_name = after_c_string(s, npos);
            let after_ct = after_c_string(s, after_name);
            &&& item_id == if s[p] == 2 {
                be_value(s.subrange(p + 4, p + 6))
            } else {
                be_value(s.subrange(p + 4, p + 8))
            }
            &&& item_protection_index == be_value(s.subrange(tpos - 2, tpos))
            &&& item_type@ == utf8_lossy(strip_trailing_nul(s.subrange(tpos, tpos + 4)))
            &&& item_name@ == c_string_at(s, npos)
            &&& type_is_mime(s, tpos) ==> (content_type matches Some(ct) && ct@ == c_string_at(
                s,
                after_name,
            ))
            &&& (type_is_mime(s, tpos) && after_ct - p < size - 8) <==> (content_encoding matches
                Some(_))
            &&& (content_encoding matches Some(ce) ==> ce@ == c_string_at(s, after_ct))
            &&& type_is_uri(s, tpos) ==> (item_uri_type matches Some(u) && u@ == c_string_at(
                s,
                after_name,
            ))
            &&& (!type_is_mime(s, tpos) && !type_is_uri(s, tpos)) ==> (content_type is None
                && item_uri_type is None)
            &&& !type_is_mime(s, tpos) ==> content_encoding is None
            &&& !type_is_uri(s, tpos) ==> item_uri_type is None
        },
        AtomMetaIinfInfeVariant::Unknown(text) => text@ == utf8_lossy(
            s.subrange(p + 4, p + 4 + (size - 12)),
        ),
        _ => true,
    })
}

/// Whether the item-info entry at payload `p` decodes without error:
/// every fixed-width field it reads lies inside the buffer (the
/// NUL-terminated strings tolerate running to the end of the
/// buffer).
#[verifier::opaque]
pub open spec fn infe_ok(s: Seq<u8>, p: int, size: int) -> bool {
    &&& p + 4 <= s.len()
    &&& size >= 12
    &&& if s[p] == 2 {
        p + 12 <= s.len()
    } else if s[p] == 3 {
        p + 14 <= s.len()
    } else if s[p] == 0 || s[p] == 1 {
        &&& p + 8 <= s.len()
        &&& (s[p] == 1 ==> ({
            let after_name = after_c_string(s, p + 8);
            let after_ct = after_c_string(s, after_name);
            let after_ce = if after_ct - p < size - 8 {
                after_c_string(s, after_ct)
            } else {
                after_ct
            };
            after_ce - p <= size - 12 ==> after_ce + 4 <= s.len()
        }))
    } else {
        p + 4 + (size - 12) <= s.len()
    }
}

impl AtomMetaIinfInfe {
    /// Decodes one item-info entry. Versions 0/1 use a 16-bit id and
    /// NUL-terminated name/content-type (the version-1 extension is
    /// kept as raw bytes); versions 2/3 use a 16- or 32-bit id and a
    /// 4-character item type whose value decides which strings
    /// follow; any later version keeps the remaining payload as an
    /// opaque string. Optional trailing strings are read only while
    /// bytes remain before the box boundary.
    pub fn read_from(_name: String, size: u64, cursor: &mut ByteCursor) -> (r: Result<
        Self,
        DecodeError,
    >)
        ensures
            final(cursor).data@ == old(cursor).data@,
            ({
                let s = old(cursor).data@;
                let p = old(cursor).pos as int;
                &&& (r is Ok <==> infe_ok(s, p, size as int))
                &&& match r {
                    Ok(a) => {
                        &&& infe_decodes_to(s, p, size as int, a)
                        &&& final(cursor).pos >= p
                        &&& final(cursor).pos <= s.len()
                    },
                    Err(e) => e matches DecodeError::TruncatedInput { .. },
                }
            }),
    {
        proof {
            reveal(infe_decodes_to);
            reveal(infe_ok);
        }
        let ghost s = cursor.data@;
        let ghost p = cursor.pos as int;
        let atom_start = cursor.position();
        let (version, flags) = match crate::atom::read_version_and_flags(cursor) {
            Ok(vf) => vf,
            Err(e) => {
                return Err(e);
            },
        };
        if size < 12 {
            return Err(
                DecodeError::TruncatedInput { offset: cursor.position(), expected: 12 },
            );
        }
        let box_content_left = size - 12;
        let value: AtomMetaIinfInfeVariant = if version == 2 || version == 3 {
            let item_id: u32 = if version == 2 {
                match cursor.read_u16(Endianness::Big) {
                    Ok(v) => v as u32,
                    Err(e) => {
                        return Err(e);
                    },
                }
            } else {
                match cursor.read_u32(Endianness::Big) {
                    Ok(v) => v,
                    Err(e) => {
                        return Err(e);
                    },
                }
            };
            let item_protection_index = match cursor.read_u16(Endianness::Big) {
                Ok(v) => v,
                Err(e) => {
                    return Err(e);
                },
            };
            let type_bytes = match cursor.read_bytes(4) {
                Ok(v) => v,
                Err(e) => {
                    return Err(e);
                },
            };
            let item_type = crate::utils::padded_string(type_bytes.as_slice());
            let item_name = read_c_string(cursor);
            let mut content_type: Option<String> = None;
            let mut content_encoding: Option<String> = None;
            let mut item_uri_type: Option<String> = None;
            if type_bytes[0] == 0x6D && type_bytes[1] == 0x69 && type_bytes[2] == 0x6D
                && type_bytes[3] == 0x65 {
                content_type = Some(read_c_string(cursor));
                if cursor.position() >= atom_start && cursor.position() - atom_start < size - 8 {
                    content_encoding = Some(read_c_string(cursor));
                }
            } else if type_bytes[0] == 0x75 && type_bytes[1] == 0x72 && type_bytes[2] == 0x69
                && type_bytes[3] == 0x20 {
                item_uri_type = Some(read_c_string(cursor));
            }
            AtomMetaIinfInfeVariant::V2Or3 {
                item_id,
                item_protection_index,
                item_type,
                item_name,
                content_type,
                content_encoding,
                item_uri_type,
            }
        } else if version == 0 || version == 1 {
            let item_id = match cursor.read_u16(Endianness::Big) {
                Ok(v) => v,
                Err(e) => {
                    return Err(e);
                },
            };
            let item_protection_index = match cursor.read_u16(Endianness::Big) {
                Ok(v) => v,
                Err(e) => {
                    return Err(e);
                },
            };
            let item_name = read_c_string(cursor);
            let content_type = read_c_string(cursor);
            let mut content_encoding: Option<String> = None;
            if cursor.position() >= atom_start && cursor.position() - atom_start < size - 8 {
                content_encoding = Some(read_c_string(cursor));
            }
            let mut extension_type: Option<u32> = None;
            let mut extension: Option<Vec<u8>> = None;
            if version == 1 && cursor.position() >= atom_start && cursor.position() - atom_start
                <= size - 12 {
                let et = match cursor.read_u32(Endianness::Big) {
                    Ok(v) => v,
                    Err(e) => {
                        return Err(e);
                    },
                };
                extension_type = Some(et);
                let left = (size - 8) - (cursor.position() - atom_start);
                let rem = cursor.remaining();
                let n = if left <= rem {
                    left
                } else {
                    rem
                };
                if n > 0 {
                    let ext = match cursor.read_bytes(n) {
                        Ok(v) => v,
                        Err(e) => {
                            return Err(e);
                        },
                    };
                    extension = Some(ext);
                } else {
                    extension = Some(Vec::new());
                }
            }
            AtomMetaIinfInfeVariant::V0Or1 {
                item_id,
                item_protection_index,
                item_name,
                content_type,
                content_encoding,
                extension_type,
                extension,
            }
        } else {
            let data = match cursor.read_bytes(box_content_left) {
                Ok(v) => v,
                Err(e) => {
                    return Err(e);
                },
            };
            AtomMetaIinfInfeVariant::Unknown(crate::utils::lossy_string(data.as_slice()))
        };
        Ok(AtomMetaIinfInfe { version, flags, value })
    }
}

/// Whether the sub-box headed at `bp` is one `infe` entry, decoding
/// to `entry`.
pub open spec fn iinf_entry_at(s: Seq<u8>, bp: int, entry: AtomMetaIinfInfe) -> bool {
    &&& crate::atom::header_name_code(s, bp) == 0x696E6665
    &&& infe_decodes_to(
        s,
        bp + crate::atom::header_len(s, bp),
        crate::atom::header_size(s, bp),
        entry,
    )
}

/// Whether `entries` is a run of `infe` boxes whose headers sit at
/// the strictly increasing positions `qs` from `start`.
pub open spec fn iinf_entries_ok(
    s: Seq<u8>,
    start: int,
    qs: Seq<int>,
    entries: Seq<AtomMetaIinfInfe>,
) -> bool {
    &&& entries.len() == qs.len()
    &&& qs.len() > 0 ==> qs[0] == start
    &&& forall|i: int| 0 < i < qs.len() ==> #[trigger] qs[i] > qs[i - 1]
    &&& forall|i: int| 0 <= i < qs.len() ==> iinf_entry_at(s, #[trigger] qs[i], entries[i])
}

/// Where the `infe` children start within an `iinf` payload at `p`.
pub open spec fn iinf_entries_start(v: u8, p: int) -> int {
    if v == 0 {
        p + 6
    } else {
        p + 8
    }
}

/// What a successful `iinf` decode returns, relative to the box
/// payload at `p`: version, flags, the declared entry count, and
/// that many decoded `infe` entries.
#[verifier::opaque]
pub open spec fn iinf_decodes_to(s: Seq<u8>, p: int, a: AtomMetaIinf) -> bool {
    &&& a.version == s[p]
    &&& a.flags == be_value(s.subrange(p + 1, p + 4))
    &&& a.entries@.len() == if s[p] == 0 {
        be_value(s.subrange(p + 4, p + 6))
    } else {
        be_value(s.subrange(p + 4, p + 8))
    }
    &&& exists|qs: Seq<int>|
        #[trigger] iinf_entries_ok(s, iinf_entries_start(s[p], p), qs, a.entries@)
}

/// The `meta.iinf` box: a counted list of item-info entries.
#[derive(Debug, Clone, PartialEq)]
pub struct AtomMetaIinf {
    pub version: u8,
    pub flags: u32,
    pub entries: Vec<AtomMetaIinfInfe>,
}

impl AtomMetaIinf {
    /// Decodes an `iinf` payload: version and flags, an entry count
    /// that is 16 bits wide in version 0 and 32 bits wide otherwise,
    /// then that many `infe` children; any other child is an
    /// `UnexpectedChildType`.
    #[verifier::loop_isolation(false)]
    pub fn read_from(_name: String, _size: u64, cursor: &mut ByteCursor) -> (r: Result<
        Self,
        DecodeError,
    >)
        ensures
            final(cursor).data@ == old(cursor).data@,
            ({
                let s = old(cursor).data@;
                let p = old(cursor).pos as int;
                &&& (iinf_entries_start(s[p], p) <= s.len() && (if s[p] == 0 {
                    be_value(s.subrange(p + 4, p + 6))
                } else {
                    be_value(s.subrange(p + 4, p + 8))
                }) == 0) ==> r is Ok
                &&& match r {
                    Ok(a) => {
                        &&& iinf_decodes_to(s, p, a)
                        &&& final(cursor).pos > p
                        &&& final(cursor).pos <= s.len()
                    },
                    Err(e) => {
                        &&& crate::atom::box_error_ok(e)
                        &&& e == DecodeError::UnexpectedChildType ==> exists|bp: int|
                            p + 6 <= bp && bp + crate::atom::header_len(s, bp) <= s.len() && !(
                            #[trigger] crate::atom::header_name_code(s, bp) == 0x696E6665)
                    },
                }
            }),
        decreases old(cursor).data@.len() - old(cursor).pos, 1int,
    {
        let ghost s = cursor.data@;
        let ghost p = cursor.pos as int;
        let (version, flags) = match crate::atom::read_version_and_flags(cursor) {
            Ok(vf) => vf,
            Err(e) => {
                return Err(e);
            },
        };
        let number_of_entries: u32 = if version == 0 {
            match cursor.read_u16(Endianness::Big) {
                Ok(v) => v as u32,
                Err(e) => {
                    return Err(e);
                },
            }
        } else {
            match cursor.read_u32(Endianness::Big) {
                Ok(v) => v,
                Err(e) => {
                    return Err(e);
                },
            }
        };
        let ghost entries_start = cursor.pos as int;
        let mut entries: Vec<AtomMetaIinfInfe> = Vec::new();
        let ghost mut qs: Seq<int> = Seq::empty();
        let mut i: u32 = 0;
        while i < number_of_entries
            invariant
                s == old(cursor).data@,
                p == old(cursor).pos as int,
                cursor.data@ == s,
                version == s[p],
                entries_start == iinf_entries_start(s[p], p),
                i <= number_of_entries,
                entries@.len() == i,
                qs.len() == i,
                cursor.pos >= entries_start,
                cursor.pos > p,
                cursor.pos <= s.len(),
                qs.len() == 0 ==> cursor.pos == entries_start,
                qs.len() > 0 ==> qs[0] == entries_start,
                qs.len() > 0 ==> qs.last() < cursor.pos,
                forall|k: int| 0 < k < qs.len() ==> #[trigger] qs[k] > qs[k - 1],
                forall|k: int| 0 <= k < qs.len() ==> iinf_entry_at(s, #[trigger] qs[k], entries@[k]),
            decreases number_of_entries - i,
        {
            let ghost q = cursor.pos as int;
            let sub_atom = match read_sub_atom(AtomParent::MetaIinf, cursor) {
                Ok(a) => a,
                Err(e) => {
                    return Err(e);
                },
            };
            match sub_atom {
                AtomVariant::MetaIinfInfe(entry) => {
                    proof {
                        assert(iinf_entry_at(s, q, entry));
                        qs = qs.push(q);
                    }
                    entries.push(entry);
                },
                _ => {
                    proof {
                        assert(p + 6 <= q);
                        assert(q + crate::atom::header_len(s, q) <= s.len());
                        assert(crate::atom::header_name_code(s, q) != 0x696E6665);
                    }
                    return Err(DecodeError::UnexpectedChildType);
                },
            }
            i = i + 1;
        }
        proof {
            assert(iinf_entries_ok(s, iinf_entries_start(s[p], p), qs, entries@));
            assert(exists|qs2: Seq<int>|
                #[trigger] iinf_entries_ok(s, iinf_entries_start(s[p], p), qs2, entries@));
            let a = AtomMetaIinf { version, flags, entries };
            assert(a.entries@ == entries@);
            reveal(iinf_decodes_to);
            assert(iinf_decodes_to(s, p, a));
        }
        Ok(AtomMetaIinf { version, flags, entries })
    }
}

/// One directed item reference: `(reference type, from id, to ids)`.
#[derive(Debug, Clone, PartialEq)]
pub struct AtomMetaIrefReference {
    pub name: String,
    pub from_item_id: u32,
    pub references: Vec<u32>,
}

/// The `meta.iref` box: the item-reference edges.
#[derive(Debug, Clone, PartialEq)]
pub struct AtomMetaIref {
    pub version: u8,
    pub flags: u32,
    pub entries: Vec<AtomMetaIrefReference>,
}

/// The width of the item ids of an `iref` box: 16-bit in version 0,
/// 32-bit in version 1.
pub open spec fn iref_id_width(v: u8) -> int {
    if v == 0 {
        2
    } else {
        4
    }
}

/// Whether the reference record at `q` (a sub-box header naming the
/// reference type, a from-id, a count, and that many to-ids) reads
/// back as `entry`.
pub open spec fn iref_entry_matches(s: Seq<u8>, v: u8, q: int, entry: AtomMetaIrefReference) -> bool {
    let h = q + crate::atom::header_len(s, q);
    let vw = iref_id_width(v);
    &&& entry.name@ == utf8_lossy(s.subrange(q + 4, q + 8))
    &&& entry.from_item_id == be_value(s.subrange(h, h + vw))
    &&& entry.references@.len() == be_value(s.subrange(h + vw, h + vw + 2))
    &&& forall|j: int|
        0 <= j < entry.references@.len() ==> #[trigger] entry.references@[j] == be_value(
            s.subrange(h + vw + 2 + j * vw, h + vw + 2 + j * vw + vw),
        )
}

/// The total width of the reference record at `q`.
pub open spec fn iref_entry_len(s: Seq<u8>, v: u8, q: int) -> int {
    let h = q + crate::atom::header_len(s, q);
    let vw = iref_id_width(v);
    h + vw + 2 + be_value(s.subrange(h + vw, h + vw + 2)) * vw - q
}

/// Whether `entries` is exactly the run of reference records laid
/// out back to back from `start` and ending at `endp`, with `qs`
/// their start positions; the run covers `[start, endp)` in full, so
/// the record count is determined by the span.
pub open spec fn iref_entries_ok(
    s: Seq<u8>,
    v: u8,
    start: int,
    endp: int,
    qs: Seq<int>,
    entries: Seq<AtomMetaIrefReference>,
) -> bool {
    &&& entries.len() == qs.len()
    &&& qs.len() > 0 ==> qs[0] == start
    &&& forall|i: int|
        0 < i < qs.len() ==> #[trigger] qs[i] == qs[i - 1] + iref_entry_len(s, v, qs[i - 1])
    &&& forall|i: int|
        0 <= i < qs.len() ==> iref_entry_matches(s, v, #[trigger] qs[i], entries[i])
    &&& endp == if qs.len() == 0 {
        start
    } else {
        qs.last() + iref_entry_len(s, v, qs.last())
    }
}

/// What a successful `iref` decode returns, relative to the box
/// payload at `p`: version, flags, and the reference records laid
/// back to back from the payload start to the final cursor position
/// `endp`.
#[verifier::opaque]
pub open spec fn iref_decodes_to(s: Seq<u8>, p: int, endp: int, a: AtomMetaIref) -> bool {
    &&& a.version == s[p]
    &&& a.flags == be_value(s.subrange(p + 1, p + 4))
    &&& (s[p] == 0 || s[p] == 1)
    &&& exists|qs: Seq<int>| #[trigger] iref_entries_ok(s, s[p], p + 4, endp, qs, a.entries@)
}

impl AtomMetaIref {
    /// Decodes an `iref` payload: until the declared payload is
    /// exhausted, a sub-box header naming the reference type, a
    /// "from" id (16 bits in version 0, 32 in version 1), a 16-bit
    /// count and that many "to" ids of the same width. Any other
    /// version value is a `TypeMismatch`.
    #[verifier::loop_isolation(false)]
    pub fn read_from(_name: String, size: u64, cursor: &mut ByteCursor) -> (r: Result<
        Self,
        DecodeError,
    >)
        ensures
            final(cursor).data@ == old(cursor).data@,
            ({
                let s = old(cursor).data@;
                let p = old(cursor).pos as int;
                &&& (size >= 12 && p + 4 <= s.len() && s[p] > 1) ==> r == Err::<
                    AtomMetaIref,
                    DecodeError,
                >(DecodeError::TypeMismatch)
                &&& (size == 12 && p + 4 <= s.len() && s[p] <= 1) ==> r is Ok
                &&& match r {
                    Ok(a) => {
                        &&& size >= 12
                        &&& iref_decodes_to(s, p, final(cursor).pos as int, a)
                        &&& final(cursor).pos >= p + 4 + (size - 12)
                        &&& final(cursor).pos <= s.len()
                    },
                    Err(e) => {
                        &&& (e matches DecodeError::TruncatedInput { .. } || e
                            == DecodeError::TypeMismatch)
                        &&& e == DecodeError::TypeMismatch ==> (size >= 12 && p + 4 <= s.len()
                            && s[p] > 1)
                    },
                }
            }),
    {
        let ghost s = cursor.data@;
        let ghost p = cursor.pos as int;
        if size < 12 {
            return Err(
                DecodeError::TruncatedInput { offset: cursor.position(), expected: 12 },
            );
        }
        let (version, flags) = match crate::atom::read_version_and_flags(cursor) {
            Ok(vf) => vf,
            Err(e) => {
                return Err(e);
            },
        };
        if version > 1 {
            return Err(DecodeError::TypeMismatch);
        }
        let start_position = cursor.position();
        let size_minus_already_read = size - 12;
        let mut entries: Vec<AtomMetaIrefReference> = Vec::new();
        let ghost mut qs: Seq<int> = Seq::empty();
        while cursor.position() - start_position < size_minus_already_read
            invariant
                s == old(cursor).data@,
                p == old(cursor).pos as int,
                cursor.data@ == s,
                p + 4 == start_position,
                cursor.pos >= start_position,
                cursor.pos <= s.len(),
                version <= 1,
                version == s[p],
                entries@.len() == qs.len(),
                qs.len() > 0 ==> qs[0] == p + 4,
                cursor.pos == if qs.len() == 0 {
                    p + 4
                } else {
                    qs.last() + iref_entry_len(s, version, qs.last())
                },
                forall|i: int|
                    0 < i < qs.len() ==> #[trigger] qs[i] == qs[i - 1] + iref_entry_len(
                        s,
                        version,
                        qs[i - 1],
                    ),
                forall|i: int|
                    0 <= i < qs.len() ==> iref_entry_matches(
                        s,
                        version,
                        #[trigger] qs[i],
                        entries@[i],
                    ),
            decreases s.len() - cursor.pos,
        {
            let ghost iter_start = cursor.pos as int;
            let (sub_name, _sub_size) = match read_atom_header(cursor) {
                Ok(h) => h,
                Err(e) => {
                    return Err(e);
                },
            };
            let from_item_id: u32 = if version == 0 {
                match cursor.read_u16(Endianness::Big) {
                    Ok(v) => v as u32,
                    Err(e) => {
                        return Err(e);
                    },
                }
            } else {
                match cursor.read_u32(Endianness::Big) {
                    Ok(v) => v,
                    Err(e) => {
                        return Err(e);
                    },
                }
            };
            let reference_count = match cursor.read_u16(Endianness::Big) {
                Ok(v) => v,
                Err(e) => {
                    return Err(e);
                },
            };
            let ghost refs_start = cursor.pos as int;
            let ghost vw = iref_id_width(version);
            let mut references: Vec<u32> = Vec::new();
            let mut j: u16 = 0;
            while j < reference_count
                invariant
                    cursor.data@ == s,
                    j <= reference_count,
                    references@.len() == j,
                    cursor.pos <= s.len(),
                    cursor.pos >= start_position,
                    cursor.pos > iter_start,
                    version <= 1,
                    vw == iref_id_width(version),
                    cursor.pos == refs_start + j * vw,
                    forall|x: int|
                        0 <= x < references@.len() ==> #[trigger] references@[x] == be_value(
                            s.subrange(refs_start + x * vw, refs_start + x * vw + vw),
                        ),
                decreases reference_count - j,
            {
                proof {
                    assert((j + 1) * vw == j * vw + vw) by (nonlinear_arith);
                }
                let to_id: u32 = if version == 0 {
                    match cursor.read_u16(Endianness::Big) {
                        Ok(v) => v as u32,
                        Err(e) => {
                            return Err(e);
                        },
                    }
                } else {
                    match cursor.read_u32(Endianness::Big) {
                        Ok(v) => v,
                        Err(e) => {
                            return Err(e);
                        },
                    }
                };
                references.push(to_id);
                j = j + 1;
            }
            let entry = AtomMetaIrefReference { name: sub_name, from_item_id, references };
            proof {
                assert(iref_entry_matches(s, version, iter_start, entry));
                assert(cursor.pos == iter_start + iref_entry_len(s, version, iter_start));
                qs = qs.push(iter_start);
            }
            entries.push(entry);
        }
        proof {
            let endp = cursor.pos as int;
            assert(iref_entries_ok(s, version, p + 4, endp, qs, entries@));
            assert(version == s[p]);
            assert(iref_entries_ok(s, s[p], p + 4, endp, qs, entries@));
            assert(exists|qs2: Seq<int>|
                #[trigger] iref_entries_ok(s, s[p], p + 4, endp, qs2, entries@));
            assert(flags == be_value(s.subrange(p + 1, p + 4)));
            assert(version == 0 || version == 1);
            let a = AtomMetaIref { version, flags, entries };
            assert(a.entries@ == entries@ && a.version == version && a.flags == flags);
            reveal(iref_decodes_to);
            assert(iref_decodes_to(s, p, endp, a));
        }
        Ok(AtomMetaIref { version, flags, entries })
    }
}

/// One byte extent of an item's data.
#[derive(Debug, Clone, PartialEq)]
pub struct AtomMetaIlocItemExtent {
    pub extent_index: Option<u64>,
    pub extent_offset: u64,
    pub extent_length: u64,
}

/// One item-location record: where an item's bytes live.
#[derive(Debug, Clone, PartialEq)]
pub struct AtomMetaIlocItem {
    pub item_id: u32,
    pub reserved: Option<u16>,
    pub construction_method: Option<u8>,
    pub data_reference_index: u16,
    pub base_offset: u64,
    pub extents: Vec<AtomMetaIlocItemExtent>,
}

/// The `meta.iloc` box: the item-location table.
#[derive(Debug, Clone, PartialEq)]
pub struct AtomMetaIloc {
    pub version: u8,
    pub flags: u32,
    pub items: Vec<AtomMetaIlocItem>,
}

/// Reads a big-endian unsigned integer whose width is an `iloc`
/// field-width code: a width of 0 yields 0 without consuming bytes,
/// widths 4 and 8 consume exactly that many bytes, and any other
/// width is a `FieldWidthOutOfRange`.
pub fn read_sized_uint(cursor: &mut ByteCursor, size: u8) -> (r: Result<u64, DecodeError>)
    ensures
        final(cursor).data@ == old(cursor).data@,
        ({
            let s = old(cursor).data@;
            let p = old(cursor).pos as int;
            match r {
                Ok(v) => {
                    &&& size == 0 || size == 4 || size == 8
                    &&& size == 0 ==> v == 0 && final(cursor).pos == p
                    &&& size == 4 ==> p + 4 <= s.len() && v == be_value(s.subrange(p, p + 4))
                        && final(cursor).pos == p + 4
                    &&& size == 8 ==> p + 8 <= s.len() && v == be_value(s.subrange(p, p + 8))
                        && final(cursor).pos == p + 8
                },
                Err(e) => {
                    &&& (size == 0 || size == 4 || size == 8) ==> (p + size > s.len() && e matches
                        DecodeError::TruncatedInput { .. })
                    &&& !(size == 0 || size == 4 || size == 8) ==> e == (
                    DecodeError::FieldWidthOutOfRange { width: size }) && final(cursor).pos == p
                },
            }
        }),
{
    if size == 0 {
        Ok(0)
    } else if size == 4 {
        match cursor.read_u32(Endianness::Big) {
            Ok(v) => Ok(v as u64),
            Err(e) => Err(e),
        }
    } else if size == 8 {
        match cursor.read_u64(Endianness::Big) {
            Ok(v) => Ok(v),
            Err(e) => Err(e),
        }
    } else {
        Err(DecodeError::FieldWidthOutOfRange { width: size })
    }
}

/// Whether `w` is a legal `iloc` field-width code.
pub open spec fn width_code_ok(w: nat) -> bool {
    w == 0 || w == 4 || w == 8
}

/// The value of a width-coded `iloc` field at `pos`: a width of 0
/// denotes 0 without occupying bytes.
pub open spec fn sized_value(s: Seq<u8>, pos: int, w: nat) -> nat {
    if w == 0 {
        0
    } else {
        be_value(s.subrange(pos, pos + w))
    }
}

/// Whether the extent record at `qe` reads back as `ext`, under the
/// box's width codes (the index field exists only in versions 1/2).
pub open spec fn iloc_extent_matches(
    s: Seq<u8>,
    v: u8,
    iw: nat,
    ow: nat,
    lw: nat,
    qe: int,
    ext: AtomMetaIlocItemExtent,
) -> bool {
    let iw_used: nat = if v == 1 || v == 2 {
        iw
    } else {
        0
    };
    &&& width_code_ok(ow) && width_code_ok(lw) && (v == 1 || v == 2 ==> width_code_ok(iw))
    &&& ext.extent_index == if v == 1 || v == 2 {
        Some(sized_value(s, qe, iw) as u64)
    } else {
        None::<u64>
    }
    &&& ext.extent_offset == sized_value(s, qe + iw_used, ow)
    &&& ext.extent_length == sized_value(s, qe + iw_used + ow, lw)
}

/// The width of one extent record, under the box's width codes.
pub open spec fn iloc_extent_width(v: u8, iw: nat, ow: nat, lw: nat) -> int {
    (if v == 1 || v == 2 {
        iw as int
    } else {
        0
    }) + ow + lw
}

/// Where an item's extent table (its 2-byte extent count) starts.
pub open spec fn iloc_extent_count_pos(v: u8, bw: nat, q: int) -> int {
    let idw: int = if v == 2 {
        4
    } else {
        2
    };
    let cmw: int = if v == 1 || v == 2 {
        2
    } else {
        0
    };
    q + idw + cmw + 2 + bw
}

/// Whether the item record at `q` reads back as `item`, field by
/// field, under the box's version and width codes.
pub open spec fn iloc_item_matches(
    s: Seq<u8>,
    v: u8,
    ow: nat,
    lw: nat,
    bw: nat,
    iw: nat,
    q: int,
    item: AtomMetaIlocItem,
) -> bool {
    let idw: int = if v == 2 {
        4
    } else {
        2
    };
    let cmw: int = if v == 1 || v == 2 {
        2
    } else {
        0
    };
    let ec_pos = iloc_extent_count_pos(v, bw, q);
    let exw = iloc_extent_width(v, iw, ow, lw);
    &&& item.item_id == be_value(s.subrange(q, q + idw))
    &&& if v == 1 || v == 2 {
        item.reserved == Some((be_value(s.subrange(q + idw, q + idw + 2)) / 16) as u16)
            && item.construction_method == Some(
            (be_value(s.subrange(q + idw, q + idw + 2)) % 16) as u8,
        )
    } else {
        item.reserved is None && item.construction_method is None
    }
    &&& width_code_ok(bw)
    &&& item.data_reference_index == be_value(s.subrange(q + idw + cmw, q + idw + cmw + 2))
    &&& item.base_offset == sized_value(s, q + idw + cmw + 2, bw)
    &&& item.extents@.len() == be_value(s.subrange(ec_pos, ec_pos + 2))
    &&& forall|j: int|
        0 <= j < item.extents@.len() ==> iloc_extent_matches(
            s,
            v,
            iw,
            ow,
            lw,
            ec_pos + 2 + j * exw,
            #[trigger] item.extents@[j],
        )
}

/// The total width of the item record at `q`.
pub open spec fn iloc_item_len(s: Seq<u8>, v: u8, ow: nat, lw: nat, bw: nat, iw: nat, q: int) -> int {
    let ec_pos = iloc_extent_count_pos(v, bw, q);
    ec_pos + 2 + be_value(s.subrange(ec_pos, ec_pos + 2)) * iloc_extent_width(v, iw, ow, lw) - q
}

/// Whether `items` is exactly the item table laid out back to back
/// from `start`, with `qs` the item start positions.
pub open spec fn iloc_items_ok(
    s: Seq<u8>,
    v: u8,
    ow: nat,
    lw: nat,
    bw: nat,
    iw: nat,
    start: int,
    qs: Seq<int>,
    items: Seq<AtomMetaIlocItem>,
) -> bool {
    &&& items.len() == qs.len()
    &&& qs.len() > 0 ==> qs[0] == start
    &&& forall|i: int|
        0 < i < qs.len() ==> #[trigger] qs[i] == qs[i - 1] + iloc_item_len(
            s,
            v,
            ow,
            lw,
            bw,
            iw,
            qs[i - 1],
        )
    &&& forall|i: int|
        0 <= i < qs.len() ==> iloc_item_matches(s, v, ow, lw, bw, iw, #[trigger] qs[i], items[i])
}

/// Which errors a failed `iloc` decode may report, relative to the
/// box payload at `p`: truncation, a version past 2 (and then only
/// under that condition), or an out-of-range nibble width taken from
/// the box's own two width bytes.
pub open spec fn iloc_error_ok(s: Seq<u8>, p: int, e: DecodeError) -> bool {
    &&& (e matches DecodeError::TruncatedInput { .. } || e == DecodeError::TypeMismatch || e
        matches DecodeError::FieldWidthOutOfRange { .. })
    &&& e == DecodeError::TypeMismatch ==> (p + 4 <= s.len() && s[p] > 2)
    &&& (match e {
        DecodeError::FieldWidthOutOfRange { width } => !width_code_ok(width as nat) && (width == s[
            p + 4
        ] % 16 || width == s[p + 4] / 16 || width == s[p + 5] % 16 || width == s[p + 5] / 16),
        _ => true,
    })
}

/// What a successful `iloc` decode returns, relative to the box
/// payload at `p`: version, flags, the item count of the declared
/// width, and the full item table under the four nibble-coded field
/// widths.
/// Where the item table starts within an `iloc` payload at `p`.
pub open spec fn iloc_items_start(v: u8, p: int) -> int {
    if v == 2 {
        p + 10
    } else {
        p + 8
    }
}

#[verifier::opaque]
pub open spec fn iloc_decodes_to(s: Seq<u8>, p: int, a: AtomMetaIloc) -> bool {
    &&& a.version == s[p]
    &&& a.flags == be_value(s.subrange(p + 1, p + 4))
    &&& (s[p] == 0 || s[p] == 1 || s[p] == 2)
    &&& a.items@.len() == if s[p] == 2 {
        be_value(s.subrange(p + 6, p + 10))
    } else {
        be_value(s.subrange(p + 6, p + 8))
    }
    &&& exists|qs: Seq<int>|
        #[trigger] iloc_items_ok(
            s,
            s[p],
            (s[p + 4] % 16) as nat,
            (s[p + 4] / 16) as nat,
            (s[p + 5] % 16) as nat,
            (s[p + 5] / 16) as nat,
            iloc_items_start(s[p], p),
            qs,
            a.items@,
        )
}

impl AtomMetaIloc {
    /// Decodes an `iloc` payload: the four nibble-coded field widths
    /// read once, an item count whose width follows the version,
    /// then per item its id, the version-dependent construction
    /// method word, a data-reference index, a base offset and its
    /// extents, every offset/length read with the width its code
    /// declares. Version values past 2 are a `TypeMismatch`.
    #[verifier::loop_isolation(false)]
    #[verifier::rlimit(100)]
    #[verifier::spinoff_prover]
    pub fn read_from(_name: String, _size: u64, cursor: &mut ByteCursor) -> (r: Result<
        Self,
        DecodeError,
    >)
        ensures
            final(cursor).data@ == old(cursor).data@,
            ({
                let s = old(cursor).data@;
                let p = old(cursor).pos as int;
                &&& (p + 4 <= s.len() && s[p] > 2) ==> r == Err::<
                    AtomMetaIloc,
                    DecodeError,
                >(DecodeError::TypeMismatch)
                &&& (p + 4 <= s.len() && s[p] <= 2 && iloc_items_start(s[p], p) <= s.len() && (
                if s[p] == 2 {
                    be_value(s.subrange(p + 6, p + 10))
                } else {
                    be_value(s.subrange(p + 6, p + 8))
                }) == 0) ==> r is Ok
                &&& match r {
                    Ok(a) => {
                        &&& iloc_decodes_to(s, p, a)
                        &&& final(cursor).pos <= s.len()
                        &&& final(cursor).pos >= p + 4
                    },
                    Err(e) => iloc_error_ok(s, p, e),
                }
            }),
    {
        let ghost s = cursor.data@;
        let ghost p = cursor.pos as int;
        let (version, flags) = match crate::atom::read_version_and_flags(cursor) {
            Ok(vf) => vf,
            Err(e) => {
                return Err(e);
            },
        };
        if version > 2 {
            return Err(DecodeError::TypeMismatch);
        }
        let b1 = match cursor.read_u8() {
            Ok(b) => b,
            Err(e) => {
                return Err(e);
            },
        };
        let (offset_size, length_size) = crate::utils::get_nibbles(b1);
        let b2 = match cursor.read_u8() {
            Ok(b) => b,
            Err(e) => {
                return Err(e);
            },
        };
        let (base_offset_size, index_size_or_reserved) = crate::utils::get_nibbles(b2);
        let item_count: u32 = if version == 2 {
            match cursor.read_u32(Endianness::Big) {
                Ok(v) => v,
                Err(e) => {
                    return Err(e);
                },
            }
        } else {
            match cursor.read_u16(Endianness::Big) {
                Ok(v) => v as u32,
                Err(e) => {
                    return Err(e);
                },
            }
        };
        let ghost ow = (offset_size % 16) as nat;
        let ghost lw = (length_size % 16) as nat;
        let ghost bw = (base_offset_size % 16) as nat;
        let ghost iw = (index_size_or_reserved % 16) as nat;
        let ghost items_start = cursor.pos as int;
        let ghost mut qs: Seq<int> = Seq::empty();
        proof {
            assert(ow == s[p + 4] % 16 && lw == s[p + 4] / 16);
            assert(bw == s[p + 5] % 16 && iw == s[p + 5] / 16);
        }
        let mut items: Vec<AtomMetaIlocItem> = Vec::new();
        let mut i: u32 = 0;
        while i < item_count
            invariant
                cursor.data@ == s,
                i <= item_count,
                items@.len() == i,
                cursor.pos <= s.len(),
                cursor.pos >= p + 4,
                version <= 2,
                qs.len() == i,
                qs.len() > 0 ==> qs[0] == items_start,
                cursor.pos == if qs.len() == 0 {
                    items_start
                } else {
                    qs.last() + iloc_item_len(s, version, ow, lw, bw, iw, qs.last())
                },
                forall|k: int|
                    0 < k < qs.len() ==> #[trigger] qs[k] == qs[k - 1] + iloc_item_len(
                        s,
                        version,
                        ow,
                        lw,
                        bw,
                        iw,
                        qs[k - 1],
                    ),
                forall|k: int|
                    0 <= k < qs.len() ==> iloc_item_matches(
                        s,
                        version,
                        ow,
                        lw,
                        bw,
                        iw,
                        #[trigger] qs[k],
                        items@[k],
                    ),
            decreases item_count - i,
        {
            let ghost q = cursor.pos as int;
            let item_id: u32 = if version == 2 {
                match cursor.read_u32(Endianness::Big) {
                    Ok(v) => v,
                    Err(e) => {
                        return Err(e);
                    },
                }
            } else {
                match cursor.read_u16(Endianness::Big) {
                    Ok(v) => v as u32,
                    Err(e) => {
                        return Err(e);
                    },
                }
            };
            let mut reserved: Option<u16> = None;
            let mut construction_method: Option<u8> = None;
            if version == 1 || version == 2 {
                let word = match cursor.read_u16(Endianness::Big) {
                    Ok(v) => v,
                    Err(e) => {
                        return Err(e);
                    },
                };
                reserved = Some(word / 16);
                construction_method = Some((word % 16) as u8);
            }
            let data_reference_index = match cursor.read_u16(Endianness::Big) {
                Ok(v) => v,
                Err(e) => {
                    return Err(e);
                },
            };
            let base_offset = match read_sized_uint(cursor, base_offset_size) {
                Ok(v) => v,
                Err(e) => {
                    return Err(e);
                },
            };
            let extent_count = match cursor.read_u16(Endianness::Big) {
                Ok(v) => v,
                Err(e) => {
                    return Err(e);
                },
            };
            proof {
                assert(cursor.pos == iloc_extent_count_pos(version, bw, q) + 2);
                assert(extent_count == be_value(
                    s.subrange(
                        iloc_extent_count_pos(version, bw, q),
                        iloc_extent_count_pos(version, bw, q) + 2,
                    ),
                ));
            }
            let ghost ec_pos = iloc_extent_count_pos(version, bw, q);
            let ghost exw = iloc_extent_width(version, iw, ow, lw);
            let mut extents: Vec<AtomMetaIlocItemExtent> = Vec::new();
            let mut j: u16 = 0;
            while j < extent_count
                invariant
                    cursor.data@ == s,
                    j <= extent_count,
                    extents@.len() == j,
                    cursor.pos <= s.len(),
                    cursor.pos >= p + 4,
                    cursor.pos == ec_pos + 2 + j * exw,
                    forall|x: int|
                        0 <= x < extents@.len() ==> iloc_extent_matches(
                            s,
                            version,
                            iw,
                            ow,
                            lw,
                            ec_pos + 2 + x * exw,
                            #[trigger] extents@[x],
                        ),
                decreases extent_count - j,
            {
                proof {
                    assert((j + 1) * exw == j * exw + exw) by (nonlinear_arith);
                }
                let mut extent_index: Option<u64> = None;
                if version == 1 || version == 2 {
                    let idx = match read_sized_uint(cursor, index_size_or_reserved) {
                        Ok(v) => v,
                        Err(e) => {
                            return Err(e);
                        },
                    };
                    extent_index = Some(idx);
                }
                let extent_offset = match read_sized_uint(cursor, offset_size) {
                    Ok(v) => v,
                    Err(e) => {
                        return Err(e);
                    },
                };
                let extent_length = match read_sized_uint(cursor, length_size) {
                    Ok(v) => v,
                    Err(e) => {
                        return Err(e);
                    },
                };
                extents.push(AtomMetaIlocItemExtent { extent_index, extent_offset, extent_length });
                j = j + 1;
            }
            let item = AtomMetaIlocItem {
                item_id,
                reserved,
                construction_method,
                data_reference_index,
                base_offset,
                extents,
            };
            proof {
                assert(iloc_item_matches(s, version, ow, lw, bw, iw, q, item));
                assert(cursor.pos == q + iloc_item_len(s, version, ow, lw, bw, iw, q));
                qs = qs.push(q);
            }
            items.push(item);
            i = i + 1;
        }
        proof {
            assert(iloc_items_ok(s, version, ow, lw, bw, iw, items_start, qs, items@));
            assert(version == s[p]);
            assert(ow == (s[p + 4] % 16) as nat && lw == (s[p + 4] / 16) as nat);
            assert(bw == (s[p + 5] % 16) as nat && iw == (s[p + 5] / 16) as nat);
            if version == 2 {
                assert(items_start == p + 10);
            } else {
                assert(items_start == p + 8);
            }
            assert(iloc_items_ok(
                s,
                s[p],
                (s[p + 4] % 16) as nat,
                (s[p + 4] / 16) as nat,
                (s[p + 5] % 16) as nat,
                (s[p + 5] / 16) as nat,
                iloc_items_start(s[p], p),
                qs,
                items@,
            ));
            assert(exists|qs2: Seq<int>|
                #[trigger] iloc_items_ok(
                    s,
                    s[p],
                    (s[p + 4] % 16) as nat,
                    (s[p + 4] / 16) as nat,
                    (s[p + 5] % 16) as nat,
                    (s[p + 5] / 16) as nat,
                    iloc_items_start(s[p], p),
                    qs2,
                    items@,
                ));
            let a = AtomMetaIloc { version, flags, items };
            assert(a.items@ == items@ && a.version == version && a.flags == flags);
            reveal(iloc_decodes_to);
            assert(iloc_decodes_to(s, p, a));
        }
        Ok(AtomMetaIloc { version, flags, items })
    }
}

} // verus!
