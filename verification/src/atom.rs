//! ISOBMFF box (atom) headers and the dispatch that turns a named
//! box into its typed decoder, by parent context and 4-character
//! name.

use vstd::prelude::*;

use crate::atoms::{AtomFtyp, AtomMeta, AtomMetaDinf, AtomMetaDinfDref, AtomMetaDinfDrefEntry,
    AtomMetaHdlr, AtomMetaIinf, AtomMetaIinfInfe, AtomMetaIloc, AtomMetaIref, AtomMetaPitm,
    AtomUnknown};
use crate::cursor::{be_value, ByteCursor};
use crate::error::DecodeError;
use crate::utils::utf8_lossy;

verus! {

/// One decoded box, tagged by its place in the dispatch table.
#[derive(Debug, PartialEq)]
pub enum AtomVariant {
    Unknown(AtomUnknown),
    Ftyp(AtomFtyp),
    Meta(AtomMeta),
    MetaHdlr(AtomMetaHdlr),
    MetaDinf(AtomMetaDinf),
    MetaDinfDref(AtomMetaDinfDref),
    MetaDinfDrefEntry(AtomMetaDinfDrefEntry),
    MetaPitm(AtomMetaPitm),
    MetaIinf(AtomMetaIinf),
    MetaIinfInfe(AtomMetaIinfInfe),
    MetaIref(AtomMetaIref),
    MetaIloc(AtomMetaIloc),
}

/// The nesting context a sub-box is decoded in: the box names that
/// the dispatch table pairs with a child name.
#[derive(Debug, Clone, Copy, PartialEq, Eq, Structural)]
pub enum AtomParent {
    Meta,
    MetaDinf,
    MetaDinfDref,
    MetaIinf,
}

/// The 4-character name of the box at `p`, as a big-endian code.
pub open spec fn header_name_code(s: Seq<u8>, p: int) -> nat {
    be_value(s.subrange(p + 4, p + 8))
}

/// The declared 32-bit size field of the box at `p`.
pub open spec fn header_raw_size(s: Seq<u8>, p: int) -> nat {
    be_value(s.subrange(p, p + 4))
}

/// The effective total size (header included) of the box at `p`: a
/// raw size of 0 extends the box to the end of the buffer, a raw
/// size of 1 defers to the following 64-bit size.
pub open spec fn header_size(s: Seq<u8>, p: int) -> int {
    if header_raw_size(s, p) == 0 {
        s.len() - p
    } else if header_raw_size(s, p) == 1 {
        be_value(s.subrange(p + 8, p + 16)) as int
    } else {
        header_raw_size(s, p) as int
    }
}

/// The length of the box header at `p`: 16 bytes when the 64-bit
/// size extension is present, 8 otherwise.
pub open spec fn header_len(s: Seq<u8>, p: int) -> int {
    if header_raw_size(s, p) == 1 {
        16
    } else {
        8
    }
}

/// The sum of the effective sizes of the boxes headed at `ps`.
pub open spec fn total_box_size(s: Seq<u8>, ps: Seq<int>) -> int
    decreases ps.len(),
{
    if ps.len() == 0 {
        0
    } else {
        total_box_size(s, ps.drop_last()) + header_size(s, ps.last())
    }
}

/// Sibling boxes partition their parent's payload: when each box of
/// a run starts exactly where the previous one ended (offset by its
/// declared size, header included) and the run spans `lo` to `hi`,
/// the declared sizes add up to exactly the span. With the exact
/// per-box consumption stated by the box decoders, this is the
/// length accounting of a well-formed container.
pub proof fn lemma_boxes_partition_span(s: Seq<u8>, ps: Seq<int>, lo: int, hi: int)
    requires
        ps.len() > 0 ==> ps[0] == lo,
        ps.len() == 0 ==> lo == hi,
        forall|i: int|
            0 < i < ps.len() ==> #[trigger] ps[i] == ps[i - 1] + header_size(s, ps[i - 1]),
        ps.len() > 0 ==> hi == ps.last() + header_size(s, ps.last()),
    ensures
        total_box_size(s, ps) == hi - lo,
    decreases ps.len(),
{
    if ps.len() == 1 {
        assert(total_box_size(s, ps.drop_last()) == 0);
    } else if ps.len() > 1 {
        let front = ps.drop_last();
        assert(front[0] == lo);
        assert(forall|i: int|
            0 < i < front.len() ==> #[trigger] front[i] == front[i - 1] + header_size(
                s,
                front[i - 1],
            ));
        assert(ps.last() == front.last() + header_size(s, front.last()));
        lemma_boxes_partition_span(s, front, lo, ps.last());
    }
}

/// Reads one box header, also handing back the raw 4 name bytes for
/// dispatch.
fn read_atom_header_parts(cursor: &mut ByteCursor) -> (r: Result<
    (Vec<u8>, String, u64),
    DecodeError,
>)
    ensures
        final(cursor).data@ == old(cursor).data@,
        ({
            let s = old(cursor).data@;
            let p = old(cursor).pos as int;
            match r {
                Ok((bytes, name, size)) => {
                    &&& p + header_len(s, p) <= s.len()
                    &&& bytes@ == s.subrange(p + 4, p + 8)
                    &&& name@ == utf8_lossy(s.subrange(p + 4, p + 8))
                    &&& size == header_size(s, p)
                    &&& final(cursor).pos == p + header_len(s, p)
                },
                Err(e) => {
                    &&& p + header_len(s, p) > s.len()
                    &&& e matches DecodeError::TruncatedInput { .. }
                },
            }
        }),
{
    let ghost s = cursor.data@;
    let ghost p = cursor.pos as int;
    let raw = match cursor.read_u32(crate::utils::Endianness::Big) {
        Ok(x) => x,
        Err(e) => {
            return Err(e);
        },
    };
    let name_bytes = match cursor.read_bytes(4) {
        Ok(v) => v,
        Err(e) => {
            return Err(e);
        },
    };
    let name = crate::utils::lossy_string(name_bytes.as_slice());
    let size: u64 = if raw == 0 {
        let len = cursor.length() as u64;
        len - (cursor.position() - 8)
    } else if raw == 1 {
        match cursor.read_u64(crate::utils::Endianness::Big) {
            Ok(x) => x,
            Err(e) => {
                return Err(e);
            },
        }
    } else {
        raw as u64
    };
    Ok((name_bytes, name, size))
}

/// Reads one box header: a 4-byte big-endian size and a 4-character
/// name, with the 0-size ("to end of buffer") and 1-size (64-bit
/// size follows) conventions applied. Returns the name as a string
/// and the effective total size, header included.
pub fn read_atom_header(cursor: &mut ByteCursor) -> (r: Result<(String, u64), DecodeError>)
    ensures
        final(cursor).data@ == old(cursor).data@,
        ({
            let s = old(cursor).data@;
            let p = old(cursor).pos as int;
            match r {
                Ok((name, size)) => {
                    &&& p + header_len(s, p) <= s.len()
                    &&& name@ == utf8_lossy(s.subrange(p + 4, p + 8))
                    &&& size == header_size(s, p)
                    &&& final(cursor).pos == p + header_len(s, p)
                },
                Err(e) => {
                    &&& p + header_len(s, p) > s.len()
                    &&& e matches DecodeError::TruncatedInput { .. }
                },
            }
        }),
{
    match read_atom_header_parts(cursor) {
        Ok((_bytes, name, size)) => Ok((name, size)),
        Err(e) => Err(e),
    }
}

/// Which variant the dispatch table assigns to a child with name
/// code `code` under `parent`: known pairs get their typed decoder,
/// everything else is an `Unknown` box.
pub open spec fn sub_dispatch_ok(parent: AtomParent, code: nat, v: AtomVariant) -> bool {
    match parent {
        AtomParent::Meta => match v {
            AtomVariant::MetaHdlr(_) => code == 0x68646C72,
            AtomVariant::MetaDinf(_) => code == 0x64696E66,
            AtomVariant::MetaPitm(_) => code == 0x7069746D,
            AtomVariant::MetaIinf(_) => code == 0x69696E66,
            AtomVariant::MetaIref(_) => code == 0x69726566,
            AtomVariant::MetaIloc(_) => code == 0x696C6F63,
            AtomVariant::Unknown(_) => code != 0x68646C72 && code != 0x64696E66 && code
                != 0x7069746D && code != 0x69696E66 && code != 0x69726566 && code != 0x696C6F63,
            _ => false,
        },
        AtomParent::MetaDinf => match v {
            AtomVariant::MetaDinfDref(_) => code == 0x64726566,
            AtomVariant::Unknown(_) => code != 0x64726566,
            _ => false,
        },
        AtomParent::MetaDinfDref => match v {
            AtomVariant::MetaDinfDrefEntry(_) => code == 0x616C6973 || code == 0x72737263 || code
                == 0x75726C20,
            AtomVariant::Unknown(_) => code != 0x616C6973 && code != 0x72737263 && code
                != 0x75726C20,
            _ => false,
        },
        AtomParent::MetaIinf => match v {
            AtomVariant::MetaIinfInfe(_) => code == 0x696E6665,
            AtomVariant::Unknown(_) => code != 0x696E6665,
            _ => false,
        },
    }
}

/// What a successfully decoded sub-box holds, relative to the stream:
/// the variant the dispatch table assigns to its name, and, per
/// variant, the decoded contents of that box at its payload position.
pub open spec fn sub_atom_decoded(parent: AtomParent, s: Seq<u8>, bp: int, v: AtomVariant) -> bool {
    let q = bp + header_len(s, bp);
    let size = header_size(s, bp);
    &&& sub_dispatch_ok(parent, header_name_code(s, bp), v)
    &&& match v {
        AtomVariant::MetaHdlr(a) => crate::atoms::hdlr_decodes_to(s, q, size, a),
        AtomVariant::MetaDinf(a) => crate::atoms::dinf_decodes_to(s, q, a),
        AtomVariant::MetaDinfDref(a) => crate::atoms::dref_decodes_to(s, q, a),
        AtomVariant::MetaDinfDrefEntry(a) => crate::atoms::dref_entry_decodes_to(s, q, size, a)
            && a.name@ == crate::utils::utf8_lossy(s.subrange(bp + 4, bp + 8)),
        AtomVariant::MetaPitm(a) => crate::atoms::pitm_decodes_to(s, q, a),
        AtomVariant::MetaIinf(a) => crate::atoms::iinf_decodes_to(s, q, a),
        AtomVariant::MetaIinfInfe(a) => crate::atoms::infe_decodes_to(s, q, size, a),
        AtomVariant::MetaIref(a) => exists|endp: int|
            #[trigger] crate::atoms::iref_decodes_to(s, q, endp, a),
        AtomVariant::MetaIloc(a) => crate::atoms::iloc_decodes_to(s, q, a),
        AtomVariant::Unknown(a) => crate::atoms::unknown_decodes_to(s, bp, a),
        _ => false,
    }
}

/// The exact span a decoded child occupies where its kind pins one:
/// fixed-layout boxes end exactly at `start + declared size` (under
/// a plain 8-byte header), and `pitm` ends right after its
/// version-dependent record.
pub open spec fn child_span_exact(s: Seq<u8>, bp: int, v: AtomVariant, end: int) -> bool {
    &&& (header_len(s, bp) == 8 && (v matches AtomVariant::MetaHdlr(_))) ==> end == bp
        + header_size(s, bp)
    &&& (header_len(s, bp) == 8 && (v matches AtomVariant::MetaDinfDrefEntry(_))) ==> end == bp
        + header_size(s, bp)
    &&& (header_len(s, bp) == 8 && (v matches AtomVariant::Unknown(_)) && bp + header_size(s, bp)
        <= s.len()) ==> end == bp + header_size(s, bp)
    &&& (v matches AtomVariant::MetaPitm(_)) ==> end == bp + header_len(s, bp) + (if s[bp
        + header_len(s, bp)] == 0 {
        6int
    } else {
        8
    })
}

/// The error kinds a box decode can report.
pub open spec fn box_error_ok(e: DecodeError) -> bool {
    ||| e matches DecodeError::TruncatedInput { .. }
    ||| e == DecodeError::TypeMismatch
    ||| e matches DecodeError::FieldWidthOutOfRange { .. }
    ||| e == DecodeError::UnexpectedChildType
}

/// Reads one sub-box in context `parent`: its header, then the
/// decoder the dispatch table assigns to `(parent, name)`.
/// Whether a child name falls outside the dispatch table for
/// `parent`, so the box is kept as `Unknown` and merely skipped.
pub open spec fn dispatches_to_unknown(parent: AtomParent, code: nat) -> bool {
    match parent {
        AtomParent::Meta => code != 0x68646C72 && code != 0x64696E66 && code != 0x7069746D && code
            != 0x69696E66 && code != 0x69726566 && code != 0x696C6F63,
        AtomParent::MetaDinf => code != 0x64726566,
        AtomParent::MetaDinfDref => code != 0x616C6973 && code != 0x72737263 && code != 0x75726C20,
        AtomParent::MetaIinf => code != 0x696E6665,
    }
}

/// Dispatches one already-read header under a `meta` parent.
#[verifier::rlimit(100)]
#[verifier::spinoff_prover]
fn dispatch_meta_child(
    Ghost(bp): Ghost<int>,
    name: String,
    size: u64,
    code: u32,
    cursor: &mut ByteCursor,
) -> (r: Result<AtomVariant, DecodeError>)
    requires
        old(cursor).pos == bp + header_len(old(cursor).data@, bp),
        0 <= bp,
        bp + header_len(old(cursor).data@, bp) <= old(cursor).data@.len(),
        code == header_name_code(old(cursor).data@, bp),
        size == header_size(old(cursor).data@, bp),
        name@ == utf8_lossy(old(cursor).data@.subrange(bp + 4, bp + 8)),
    ensures
        final(cursor).data@ == old(cursor).data@,
        ({
            let s = old(cursor).data@;
            &&& (dispatches_to_unknown(AtomParent::Meta, header_name_code(s, bp)) && header_size(
                s,
                bp,
            ) >= 8) ==> r is Ok
            &&& match r {
                Ok(v) => {
                    &&& sub_atom_decoded(AtomParent::Meta, s, bp, v)
                    &&& final(cursor).pos > bp
                    &&& final(cursor).pos <= s.len()
                    &&& child_span_exact(s, bp, v, final(cursor).pos as int)
                },
                Err(e) => box_error_ok(e),
            }
        }),
    decreases old(cursor).data@.len() - old(cursor).pos, 2int,
{
    let ghost s = cursor.data@;
    let ghost p = bp;
    if code == 0x68646C72 {
        match AtomMetaHdlr::read_from(name, size, cursor) {
            Ok(a) => {
                let v = AtomVariant::MetaHdlr(a);
                proof {
                    assert(sub_atom_decoded(AtomParent::Meta, s, p, v));
                }
                Ok(v)
            },
            Err(e) => Err(e),
        }
    } else if code == 0x64696E66 {
        match AtomMetaDinf::read_from(name, size, cursor) {
            Ok(a) => {
                let v = AtomVariant::MetaDinf(a);
                proof {
                    assert(sub_atom_decoded(AtomParent::Meta, s, p, v));
                }
                Ok(v)
            },
            Err(e) => Err(e),
        }
    } else if code == 0x7069746D {
        match AtomMetaPitm::read_from(name, size, cursor) {
            Ok(a) => {
                let v = AtomVariant::MetaPitm(a);
                proof {
                    assert(sub_atom_decoded(AtomParent::Meta, s, p, v));
                }
                Ok(v)
            },
            Err(e) => Err(e),
        }
    } else if code == 0x69696E66 {
        match AtomMetaIinf::read_from(name, size, cursor) {
            Ok(a) => {
                let v = AtomVariant::MetaIinf(a);
                proof {
                    assert(sub_atom_decoded(AtomParent::Meta, s, p, v));
                }
                Ok(v)
            },
            Err(e) => Err(e),
        }
    } else if code == 0x69726566 {
        match AtomMetaIref::read_from(name, size, cursor) {
            Ok(a) => {
                let v = AtomVariant::MetaIref(a);
                proof {
                    let endpos = cursor.pos as int;
                    assert(crate::atoms::iref_decodes_to(s, p + header_len(s, p), endpos, v->MetaIref_0));
                    assert(exists|endp: int|
                        #[trigger] crate::atoms::iref_decodes_to(
                            s,
                            p + header_len(s, p),
                            endp,
                            v->MetaIref_0,
                        ));
                    assert(sub_atom_decoded(AtomParent::Meta, s, p, v));
                }
                Ok(v)
            },
            Err(e) => Err(e),
        }
    } else if code == 0x696C6F63 {
        match AtomMetaIloc::read_from(name, size, cursor) {
            Ok(a) => {
                let v = AtomVariant::MetaIloc(a);
                proof {
                    assert(sub_atom_decoded(AtomParent::Meta, s, p, v));
                }
                Ok(v)
            },
            Err(e) => Err(e),
        }
    } else {
        match AtomUnknown::read_from(name, size, cursor) {
            Ok(a) => {
                let v = AtomVariant::Unknown(a);
                proof {
                    assert(sub_atom_decoded(AtomParent::Meta, s, p, v));
                }
                Ok(v)
            },
            Err(e) => Err(e),
        }
    }
}

/// Reads one sub-box in context `parent`: its header, then the
/// decoder the dispatch table assigns to `(parent, name)`.
#[verifier::rlimit(100)]
#[verifier::spinoff_prover]
pub fn read_sub_atom(parent: AtomParent, cursor: &mut ByteCursor) -> (r: Result<
    AtomVariant,
    DecodeError,
>)
    ensures
        final(cursor).data@ == old(cursor).data@,
        ({
            let s = old(cursor).data@;
            let p = old(cursor).pos as int;
            &&& (p + header_len(s, p) <= s.len() && dispatches_to_unknown(
                parent,
                header_name_code(s, p),
            ) && header_size(s, p) >= 8) ==> r is Ok
            &&& match r {
                Ok(v) => {
                    &&& sub_atom_decoded(parent, s, p, v)
                    &&& p + header_len(s, p) <= s.len()
                    &&& final(cursor).pos > p
                    &&& final(cursor).pos <= s.len()
                    &&& child_span_exact(s, p, v, final(cursor).pos as int)
                },
                Err(e) => {
                    &&& box_error_ok(e)
                    &&& (parent == AtomParent::MetaDinfDref || parent == AtomParent::MetaIinf)
                        ==> (e matches DecodeError::TruncatedInput { .. })
                    &&& (parent == AtomParent::MetaDinf && e == DecodeError::UnexpectedChildType)
                        ==> exists|bp: int|
                        p + 16 <= bp && bp + header_len(s, bp) <= s.len() && !(
                        #[trigger] header_name_code(s, bp) == 0x616C6973 || header_name_code(s, bp)
                            == 0x72737263 || header_name_code(s, bp) == 0x75726C20)
                },
            }
        }),
    decreases old(cursor).data@.len() - old(cursor).pos, 0int,
{
    let ghost s = cursor.data@;
    let ghost p = cursor.pos as int;
    let (bytes, name, size) = match read_atom_header_parts(cursor) {
        Ok(h) => h,
        Err(e) => {
            return Err(e);
        },
    };
    let code = name_code(&bytes);
    match parent {
        AtomParent::Meta => dispatch_meta_child(Ghost(p), name, size, code, cursor),
        AtomParent::MetaDinf => {
            if code == 0x64726566 {
                match AtomMetaDinfDref::read_from(name, size, cursor) {
                    Ok(a) => Ok(AtomVariant::MetaDinfDref(a)),
                    Err(e) => Err(e),
                }
            } else {
                match AtomUnknown::read_from(name, size, cursor) {
                    Ok(a) => Ok(AtomVariant::Unknown(a)),
                    Err(e) => Err(e),
                }
            }
        },
        AtomParent::MetaDinfDref => {
            if code == 0x616C6973 || code == 0x72737263 || code == 0x75726C20 {
                match AtomMetaDinfDrefEntry::read_from(name, size, cursor) {
                    Ok(a) => Ok(AtomVariant::MetaDinfDrefEntry(a)),
                    Err(e) => Err(e),
                }
            } else {
                match AtomUnknown::read_from(name, size, cursor) {
                    Ok(a) => Ok(AtomVariant::Unknown(a)),
                    Err(e) => Err(e),
                }
            }
        },
        AtomParent::MetaIinf => {
            if code == 0x696E6665 {
                match AtomMetaIinfInfe::read_from(name, size, cursor) {
                    Ok(a) => Ok(AtomVariant::MetaIinfInfe(a)),
                    Err(e) => Err(e),
                }
            } else {
                match AtomUnknown::read_from(name, size, cursor) {
                    Ok(a) => Ok(AtomVariant::Unknown(a)),
                    Err(e) => Err(e),
                }
            }
        },
    }
}

/// Which variant the top-level dispatch assigns to a box named with
/// code `code`: `ftyp` and `meta` are typed, the rest are `Unknown`.
pub open spec fn top_dispatch_ok(code: nat, v: AtomVariant) -> bool {
    match v {
        AtomVariant::Ftyp(_) => code == 0x66747970,
        AtomVariant::Meta(_) => code == 0x6D657461,
        AtomVariant::Unknown(_) => code != 0x66747970 && code != 0x6D657461,
        _ => false,
    }
}

/// What a successfully decoded top-level box holds: the variant the
/// top-level dispatch assigns to its name, and its decoded contents.
pub open spec fn top_atom_decoded(s: Seq<u8>, bp: int, v: AtomVariant) -> bool {
    let q = bp + header_len(s, bp);
    let size = header_size(s, bp);
    &&& top_dispatch_ok(header_name_code(s, bp), v)
    &&& match v {
        AtomVariant::Ftyp(a) => crate::atoms::ftyp_decodes_to(s, q, size, a),
        AtomVariant::Meta(a) => exists|endp: int|
            #[trigger] crate::atoms::meta_decodes_to(s, q, endp, a),
        AtomVariant::Unknown(a) => crate::atoms::unknown_decodes_to(s, bp, a),
        _ => false,
    }
}

/// Reads one top-level box: its header, then the `ftyp` or `meta`
/// decoder, or the opaque fallback for any other name.
#[verifier::rlimit(100)]
#[verifier::spinoff_prover]
pub fn read_top_atom(cursor: &mut ByteCursor) -> (r: Result<AtomVariant, DecodeError>)
    ensures
        final(cursor).data@ == old(cursor).data@,
        ({
            let s = old(cursor).data@;
            let p = old(cursor).pos as int;
            &&& (p + header_len(s, p) <= s.len() && header_name_code(s, p) != 0x66747970
                && header_name_code(s, p) != 0x6D657461 && header_size(s, p) >= 8) ==> r is Ok
            &&& match r {
                Ok(v) => {
                    &&& top_atom_decoded(s, p, v)
                    &&& final(cursor).pos > p
                    &&& final(cursor).pos <= s.len()
                    &&& (header_len(s, p) == 8 && (v matches AtomVariant::Unknown(_)) && p
                        + header_size(s, p) <= s.len()) ==> final(cursor).pos == p + header_size(
                        s,
                        p,
                    )
                    &&& (header_len(s, p) == 8 && (v matches AtomVariant::Ftyp(_)) && header_size(
                        s,
                        p,
                    ) % 4 == 0) ==> final(cursor).pos == p + header_size(s, p)
                },
                Err(e) => box_error_ok(e),
            }
        }),
{
    let ghost s = cursor.data@;
    let ghost p = cursor.pos as int;
    let (bytes, name, size) = match read_atom_header_parts(cursor) {
        Ok(h) => h,
        Err(e) => {
            return Err(e);
        },
    };
    let code = name_code(&bytes);
    if code == 0x66747970 {
        match AtomFtyp::read_from(name, size, cursor) {
            Ok(a) => Ok(AtomVariant::Ftyp(a)),
            Err(e) => Err(e),
        }
    } else if code == 0x6D657461 {
        match AtomMeta::read_from(name, size, cursor) {
            Ok(a) => {
                let v = AtomVariant::Meta(a);
                proof {
                    let endpos = cursor.pos as int;
                    assert(crate::atoms::meta_decodes_to(
                        s,
                        p + header_len(s, p),
                        endpos,
                        v->Meta_0,
                    ));
                    assert(exists|endp: int|
                        #[trigger] crate::atoms::meta_decodes_to(
                            s,
                            p + header_len(s, p),
                            endp,
                            v->Meta_0,
                        ));
                    assert(top_atom_decoded(s, p, v));
                }
                Ok(v)
            },
            Err(e) => Err(e),
        }
    } else {
        match AtomUnknown::read_from(name, size, cursor) {
            Ok(a) => Ok(AtomVariant::Unknown(a)),
            Err(e) => Err(e),
        }
    }
}

/// The big-endian code of a 4-byte name.
fn name_code(v: &Vec<u8>) -> (code: u32)
    requires
        v@.len() == 4,
    ensures
        code == be_value(v@),
{
    let code = (v[0] as u32) * 0x100_0000 + (v[1] as u32) * 0x1_0000 + (v[2] as u32) * 0x100 + (
    v[3] as u32);
    proof {
        let s = v@;
        let s01 = s.subrange(0, 2);
        let s23 = s.subrange(2, 4);
        assert(s =~= s01 + s23);
        crate::cursor::lemma_be_value_concat(s01, s23);
        let a = s.subrange(0, 1);
        let b = s.subrange(1, 2);
        assert(s01 =~= a + b);
        crate::cursor::lemma_be_value_concat(a, b);
        crate::cursor::lemma_single_byte_value(a);
        crate::cursor::lemma_single_byte_value(b);
        let c = s.subrange(2, 3);
        let d = s.subrange(3, 4);
        assert(s23 =~= c + d);
        crate::cursor::lemma_be_value_concat(c, d);
        crate::cursor::lemma_single_byte_value(c);
        crate::cursor::lemma_single_byte_value(d);
        assert(crate::cursor::shift256(0) == 1);
        assert(crate::cursor::shift256(1) == 256);
        assert(crate::cursor::shift256(2) == 0x1_0000);
        assert(a[0] == s[0] && b[0] == s[1] && c[0] == s[2] && d[0] == s[3]);
        assert(be_value(s01) == s[0] * 256 + s[1]);
        assert(be_value(s23) == s[2] * 256 + s[3]);
        assert(be_value(s) == be_value(s01) * 0x1_0000 + be_value(s23));
    }
    code
}

/// Reads a version byte and a 24-bit big-endian flags field, the
/// 4-byte preamble of the full-box layout.
pub fn read_version_and_flags(cursor: &mut ByteCursor) -> (r: Result<(u8, u32), DecodeError>)
    ensures
        final(cursor).data@ == old(cursor).data@,
        ({
            let s = old(cursor).data@;
            let p = old(cursor).pos as int;
            match r {
                Ok((version, flags)) => {
                    &&& p + 4 <= s.len()
                    &&& version == s[p]
                    &&& flags == be_value(s.subrange(p + 1, p + 4))
                    &&& final(cursor).pos == p + 4
                },
                Err(e) => {
                    &&& p + 4 > s.len()
                    &&& e matches DecodeError::TruncatedInput { .. }
                },
            }
        }),
{
    let ghost s = cursor.data@;
    let ghost p = cursor.pos as int;
    let version = match cursor.read_u8() {
        Ok(b) => b,
        Err(e) => {
            return Err(e);
        },
    };
    let f1 = match cursor.read_u8() {
        Ok(b) => b,
        Err(e) => {
            return Err(e);
        },
    };
    let f2 = match cursor.read_u8() {
        Ok(b) => b,
        Err(e) => {
            return Err(e);
        },
    };
    let f3 = match cursor.read_u8() {
        Ok(b) => b,
        Err(e) => {
            return Err(e);
        },
    };
    let flags = (f1 as u32) * 0x1_0000 + (f2 as u32) * 0x100 + (f3 as u32);
    proof {
        let t = s.subrange(p + 1, p + 4);
        crate::cursor::lemma_triple_be_value(t);
        assert(t[0] == s[p + 1] && t[1] == s[p + 2] && t[2] == s[p + 3]);
    }
    Ok((version, flags))
}

} // verus!
