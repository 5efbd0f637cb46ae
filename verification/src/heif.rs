//! The HEIF container decoder: the top-level box list, and the item
//! resolver that joins `iinf` and `iloc` to locate the EXIF and XMP
//! payloads embedded as items.

use vstd::prelude::*;

use crate::atom::{read_top_atom, AtomVariant};
use crate::atoms::{AtomMeta, AtomMetaIinf, AtomMetaIinfInfe, AtomMetaIinfInfeVariant,
    AtomMetaIloc, AtomMetaIlocItem};
use crate::cursor::ByteCursor;
use crate::error::DecodeError;
use crate::tiff::{read_exif_section, Tiff};
use crate::utils::{lossy_string, utf8_lossy};

verus! {

/// Whether `atoms` is the complete top-level box list of the buffer:
/// boxes decoded back to back from offset 0, each per the top-level
/// dispatch, with a box for every byte of a non-empty buffer.
pub open spec fn heif_boxes_ok(s: Seq<u8>, qs: Seq<int>, atoms: Seq<AtomVariant>) -> bool {
    &&& atoms.len() == qs.len()
    &&& (qs.len() > 0 <==> s.len() > 0)
    &&& qs.len() > 0 ==> qs[0] == 0
    &&& forall|i: int| 0 < i < qs.len() ==> #[trigger] qs[i] > qs[i - 1]
    &&& forall|i: int|
        0 <= i < qs.len() ==> crate::atom::top_atom_decoded(s, #[trigger] qs[i], atoms[i])
}

/// A decoded HEIF file: its top-level boxes, and the EXIF directory
/// and XMP packet found through the `meta` box's item tables, each
/// independently absent when the file carries none.
#[derive(Debug, PartialEq)]
pub struct Heif {
    pub atoms: Vec<AtomVariant>,
    pub exif: Option<Tiff>,
    pub xmp: Option<String>,
}

/// Whether an item-info entry announces an item of type `t` (only
/// the version-2/3 shape carries an item type).
pub open spec fn infe_matches(entry: AtomMetaIinfInfe, t: Seq<char>) -> bool {
    match entry.value {
        AtomMetaIinfInfeVariant::V2Or3 { item_type, .. } => item_type@ == t,
        _ => false,
    }
}

/// The item id of a version-2/3 item-info entry.
pub open spec fn infe_id(entry: AtomMetaIinfInfe) -> u32 {
    match entry.value {
        AtomMetaIinfInfeVariant::V2Or3 { item_id, .. } => item_id,
        _ => 0,
    }
}

/// The first `meta` box of a box run.
pub open spec fn first_meta(atoms: Seq<AtomVariant>) -> Option<AtomMeta>
    decreases atoms.len(),
{
    if atoms.len() == 0 {
        None
    } else {
        match atoms.first() {
            AtomVariant::Meta(m) => Some(m),
            _ => first_meta(atoms.skip(1)),
        }
    }
}

/// The first `iinf` box of a child run.
pub open spec fn first_iinf(children: Seq<AtomVariant>) -> Option<AtomMetaIinf>
    decreases children.len(),
{
    if children.len() == 0 {
        None
    } else {
        match children.first() {
            AtomVariant::MetaIinf(n) => Some(n),
            _ => first_iinf(children.skip(1)),
        }
    }
}

/// The first `iloc` box of a child run.
pub open spec fn first_iloc(children: Seq<AtomVariant>) -> Option<AtomMetaIloc>
    decreases children.len(),
{
    if children.len() == 0 {
        None
    } else {
        match children.first() {
            AtomVariant::MetaIloc(l) => Some(l),
            _ => first_iloc(children.skip(1)),
        }
    }
}

/// The id of the first item-info entry announcing type `t`.
pub open spec fn first_matching_item_id(entries: Seq<AtomMetaIinfInfe>, t: Seq<char>) -> Option<
    u32,
>
    decreases entries.len(),
{
    if entries.len() == 0 {
        None
    } else if infe_matches(entries.first(), t) {
        Some(infe_id(entries.first()))
    } else {
        first_matching_item_id(entries.skip(1), t)
    }
}

/// The first item-location record carrying `id`.
pub open spec fn first_item_with_id(items: Seq<AtomMetaIlocItem>, id: u32) -> Option<
    AtomMetaIlocItem,
>
    decreases items.len(),
{
    if items.len() == 0 {
        None
    } else if items.first().item_id == id {
        Some(items.first())
    } else {
        first_item_with_id(items.skip(1), id)
    }
}

/// The item-location record the `meta` tables name for the first
/// item of type `t`: the join of the first `iinf` and `iloc` of the
/// first `meta` box.
pub open spec fn resolve_item(atoms: Seq<AtomVariant>, t: Seq<char>) -> Option<AtomMetaIlocItem> {
    match first_meta(atoms) {
        None => None,
        Some(meta) => match first_iinf(meta.children@) {
            None => None,
            Some(iinf) => match first_iloc(meta.children@) {
                None => None,
                Some(iloc) => match first_matching_item_id(iinf.entries@, t) {
                    None => None,
                    Some(id) => first_item_with_id(iloc.items@, id),
                },
            },
        },
    }
}

/// Finds the item-location record for the first item whose item-info
/// entry announces type `item_type`, by joining the `meta` box's
/// `iinf` and `iloc` tables.
#[verifier::loop_isolation(false)]
pub fn get_iloc_item_for_item_type<'a>(atoms: &'a Vec<AtomVariant>, item_type: &str) -> (r:
    Option<&'a AtomMetaIlocItem>)
    ensures
        match r {
            Some(item) => resolve_item(atoms@, item_type@) == Some(*item),
            None => resolve_item(atoms@, item_type@) is None,
        },
{
    let wanted: String = item_type.to_owned();
    proof {
        assert(atoms@.skip(0) =~= atoms@);
    }
    let mut meta_found: Option<&AtomMeta> = None;
    let mut i: usize = 0;
    while i < atoms.len()
        invariant
            i <= atoms@.len(),
            match meta_found {
                Some(m) => first_meta(atoms@) == Some(*m),
                None => first_meta(atoms@) == first_meta(atoms@.skip(i as int)),
            },
        decreases atoms@.len() - i,
    {
        if meta_found.is_none() {
            proof {
                assert(atoms@.skip(i as int).first() == atoms@[i as int]);
                assert(atoms@.skip(i as int).skip(1) =~= atoms@.skip(i + 1));
            }
            match &atoms[i] {
                AtomVariant::Meta(m) => {
                    meta_found = Some(m);
                },
                _ => {},
            }
        }
        i = i + 1;
    }
    let meta = match meta_found {
        Some(m) => m,
        None => {
            proof {
                assert(atoms@.skip(atoms@.len() as int) =~= Seq::<AtomVariant>::empty());
            }
            return None;
        },
    };
    proof {
        assert(meta.children@.skip(0) =~= meta.children@);
    }
    let mut iinf_found: Option<&AtomMetaIinf> = None;
    let mut iloc_found: Option<&AtomMetaIloc> = None;
    let mut j: usize = 0;
    while j < meta.children.len()
        invariant
            j <= meta.children@.len(),
            first_meta(atoms@) == Some(*meta),
            match iinf_found {
                Some(n) => first_iinf(meta.children@) == Some(*n),
                None => first_iinf(meta.children@) == first_iinf(meta.children@.skip(j as int)),
            },
            match iloc_found {
                Some(l) => first_iloc(meta.children@) == Some(*l),
                None => first_iloc(meta.children@) == first_iloc(meta.children@.skip(j as int)),
            },
        decreases meta.children@.len() - j,
    {
        proof {
            assert(meta.children@.skip(j as int).first() == meta.children@[j as int]);
            assert(meta.children@.skip(j as int).skip(1) =~= meta.children@.skip(j + 1));
        }
        match &meta.children[j] {
            AtomVariant::MetaIinf(n) => {
                if iinf_found.is_none() {
                    iinf_found = Some(n);
                }
            },
            AtomVariant::MetaIloc(l) => {
                if iloc_found.is_none() {
                    iloc_found = Some(l);
                }
            },
            _ => {},
        }
        j = j + 1;
    }
    proof {
        assert(meta.children@.skip(meta.children@.len() as int) =~= Seq::<AtomVariant>::empty());
    }
    let iinf = match iinf_found {
        Some(n) => n,
        None => {
            return None;
        },
    };
    let iloc = match iloc_found {
        Some(l) => l,
        None => {
            return None;
        },
    };
    proof {
        assert(iinf.entries@.skip(0) =~= iinf.entries@);
    }
    let mut wanted_id: Option<u32> = None;
    let mut k: usize = 0;
    while k < iinf.entries.len()
        invariant
            k <= iinf.entries@.len(),
            wanted@ == item_type@,
            match wanted_id {
                Some(id) => first_matching_item_id(iinf.entries@, item_type@) == Some(id),
                None => first_matching_item_id(iinf.entries@, item_type@)
                    == first_matching_item_id(iinf.entries@.skip(k as int), item_type@),
            },
        decreases iinf.entries@.len() - k,
    {
        if wanted_id.is_none() {
            let entry_ref = &iinf.entries[k];
            proof {
                assert(*entry_ref == iinf.entries@[k as int]);
                assert(iinf.entries@.skip(k as int).first() == iinf.entries@[k as int]);
                assert(iinf.entries@.skip(k as int).skip(1) =~= iinf.entries@.skip(k + 1));
            }
            match &entry_ref.value {
                AtomMetaIinfInfeVariant::V2Or3 { item_id, item_type: it, .. } => {
                    if it.eq(&wanted) {
                        proof {
                            assert(entry_ref.value is V2Or3);
                            assert(entry_ref.value->V2Or3_item_type == *it);
                            assert(entry_ref.value->V2Or3_item_id == *item_id);
                            assert(infe_matches(iinf.entries@[k as int], item_type@));
                            assert(infe_id(iinf.entries@[k as int]) == *item_id);
                        }
                        wanted_id = Some(*item_id);
                    } else {
                        proof {
                            assert(entry_ref.value->V2Or3_item_type == *it);
                            assert(!infe_matches(iinf.entries@[k as int], item_type@));
                        }
                    }
                },
                _ => {
                    proof {
                        assert(!infe_matches(iinf.entries@[k as int], item_type@));
                    }
                },
            }
        }
        k = k + 1;
    }
    proof {
        assert(iinf.entries@.skip(iinf.entries@.len() as int) =~= Seq::<AtomMetaIinfInfe>::empty());
    }
    let id = match wanted_id {
        Some(id) => id,
        None => {
            return None;
        },
    };
    proof {
        assert(iloc.items@.skip(0) =~= iloc.items@);
    }
    let mut m: usize = 0;
    while m < iloc.items.len()
        invariant
            m <= iloc.items@.len(),
            first_item_with_id(iloc.items@, id) == first_item_with_id(
                iloc.items@.skip(m as int),
                id,
            ),
        decreases iloc.items@.len() - m,
    {
        proof {
            assert(iloc.items@.skip(m as int).first() == iloc.items@[m as int]);
            assert(iloc.items@.skip(m as int).skip(1) =~= iloc.items@.skip(m + 1));
        }
        if iloc.items[m].item_id == id {
            return Some(&iloc.items[m]);
        }
        m = m + 1;
    }
    proof {
        assert(iloc.items@.skip(iloc.items@.len() as int) =~= Seq::<AtomMetaIlocItem>::empty());
    }
    None
}

/// Whether the first extent of `item`, less `skip` leading bytes,
/// lies inside the buffer.
pub open spec fn extent_window_ok(s: Seq<u8>, item: AtomMetaIlocItem, skip: u64) -> bool {
    &&& item.extents@.len() > 0
    &&& item.extents@[0].extent_length >= skip
    &&& item.extents@[0].extent_offset + item.extents@[0].extent_length <= s.len()
}

/// The bytes of the first extent of `item`, less `skip` leading
/// bytes.
pub open spec fn extent_window(s: Seq<u8>, item: AtomMetaIlocItem, skip: u64) -> Seq<u8> {
    s.subrange(
        item.extents@[0].extent_offset + skip,
        item.extents@[0].extent_offset + item.extents@[0].extent_length,
    )
}

/// Slices the first extent of an item out of the buffer, skipping
/// `skip` leading bytes of the extent; succeeds exactly when that
/// window lies inside the buffer.
fn read_item_extent(
    item: &AtomMetaIlocItem,
    skip: u64,
    cursor: &mut ByteCursor,
) -> (r: Result<Vec<u8>, DecodeError>)
    ensures
        final(cursor).data@ == old(cursor).data@,
        r is Ok <==> extent_window_ok(old(cursor).data@, *item, skip),
        match r {
            Ok(v) => v@ == extent_window(old(cursor).data@, *item, skip),
            Err(e) => e matches DecodeError::TruncatedInput { .. },
        },
{
    if item.extents.len() == 0 {
        return Err(DecodeError::TruncatedInput { offset: 0, expected: 1 });
    }
    let start = item.extents[0].extent_offset;
    let length = item.extents[0].extent_length;
    if length < skip {
        return Err(
            DecodeError::TruncatedInput { offset: start, expected: skip },
        );
    }
    let buffer_len = cursor.length() as u64;
    if !(start <= buffer_len && length <= buffer_len - start) {
        return Err(
            DecodeError::TruncatedInput { offset: start, expected: length },
        );
    }
    cursor.seek(start + skip);
    cursor.read_bytes(length - skip)
}

/// Decodes the EXIF item named by the `meta` tables, if one exists:
/// the item's first extent, past its 4-byte length prefix, must hold
/// an `Exif\0\0`-wrapped TIFF stream. A missing item is absence; a
/// present but undecodable one is a failure.
pub fn get_exif(atoms: &Vec<AtomVariant>, cursor: &mut ByteCursor) -> (r: Result<
    Option<Tiff>,
    DecodeError,
>)
    ensures
        final(cursor).data@ == old(cursor).data@,
        (resolve_item(atoms@, "Exif"@) is None) <==> (r matches Ok(o) && o is None),
        ({
            let s = old(cursor).data@;
            match r {
                Ok(Some(t)) => resolve_item(atoms@, "Exif"@) matches Some(item)
                    && extent_window_ok(s, item, 4) && crate::tiff::tiff_decodes_to(
                    extent_window(s, item, 4).skip(6),
                    0,
                    t.endianness,
                    t.tags@,
                ),
                Err(e) => resolve_item(atoms@, "Exif"@) matches Some(item) && (
                (!extent_window_ok(s, item, 4) && e matches DecodeError::TruncatedInput { .. }) || (
                extent_window_ok(s, item, 4) && ((extent_window(s, item, 4).len() < 6 && e matches
                DecodeError::TruncatedInput { .. }) || (extent_window(s, item, 4).len() >= 6
                    && crate::tiff::tiff_error_ok(
                    extent_window(s, item, 4).skip(6),
                    0,
                    crate::tiff::TiffError(e),
                ))))),
                _ => true,
            }
        }),
{
    let item = match get_iloc_item_for_item_type(atoms, "Exif") {
        Some(item) => item,
        None => {
            return Ok(None);
        },
    };
    let data = match read_item_extent(item, 4, cursor) {
        Ok(v) => v,
        Err(e) => {
            return Err(e);
        },
    };
    match read_exif_section(data.as_slice()) {
        Ok(t) => Ok(Some(t)),
        Err(e) => Err(e.0),
    }
}

/// Extracts the XMP packet named by the `meta` tables, if one
/// exists: the first extent of the first `mime` item, decoded as
/// lossy UTF-8 text.
pub fn get_xmp(atoms: &Vec<AtomVariant>, cursor: &mut ByteCursor) -> (r: Result<
    Option<String>,
    DecodeError,
>)
    ensures
        final(cursor).data@ == old(cursor).data@,
        (resolve_item(atoms@, "mime"@) is None) <==> (r matches Ok(o) && o is None),
        ({
            let s = old(cursor).data@;
            match r {
                Ok(Some(x)) => resolve_item(atoms@, "mime"@) matches Some(item)
                    && extent_window_ok(s, item, 0) && x@ == utf8_lossy(extent_window(s, item, 0)),
                Err(e) => resolve_item(atoms@, "mime"@) matches Some(item) && !extent_window_ok(
                    s,
                    item,
                    0,
                ) && (e matches DecodeError::TruncatedInput { .. }),
                _ => true,
            }
        }),
{
    let item = match get_iloc_item_for_item_type(atoms, "mime") {
        Some(item) => item,
        None => {
            return Ok(None);
        },
    };
    let data = match read_item_extent(item, 0, cursor) {
        Ok(v) => v,
        Err(e) => {
            return Err(e);
        },
    };
    let text = lossy_string(data.as_slice());
    Ok(Some(text))
}

/// Decodes a HEIF buffer: every top-level box in order, then the
/// EXIF directory and XMP packet located through the `meta` box's
/// item tables (each absent when no matching item exists; a present
/// but malformed payload is an error).
pub fn read_heif(data: Vec<u8>) -> (r: Result<Heif, DecodeError>)
    ensures
        data@.len() == 0 ==> r is Ok,
        match r {
            Ok(h) => {
                &&& exists|qs: Seq<int>| #[trigger] heif_boxes_ok(data@, qs, h.atoms@)
                &&& data@.len() == 0 ==> h.atoms@.len() == 0
                &&& (h.exif is None) <==> (resolve_item(h.atoms@, "Exif"@) is None)
                &&& (h.xmp is None) <==> (resolve_item(h.atoms@, "mime"@) is None)
                &&& h.exif matches Some(t) ==> (resolve_item(h.atoms@, "Exif"@) matches Some(item)
                    && extent_window_ok(data@, item, 4) && crate::tiff::tiff_decodes_to(
                    extent_window(data@, item, 4).skip(6),
                    0,
                    t.endianness,
                    t.tags@,
                ))
                &&& h.xmp matches Some(x) ==> (resolve_item(h.atoms@, "mime"@) matches Some(item)
                    && extent_window_ok(data@, item, 0) && x@ == utf8_lossy(
                    extent_window(data@, item, 0),
                ))
            },
            Err(e) => !(e matches DecodeError::UnexpectedMarker { .. }),
        },
{
    let mut cursor = ByteCursor::new(data.as_slice());
    let ghost s = data@;
    let mut atoms: Vec<AtomVariant> = Vec::new();
    let ghost mut qs: Seq<int> = Seq::empty();
    let file_size = cursor.length() as u64;
    while cursor.position() < file_size
        invariant
            s == data@,
            cursor.data@ == s,
            file_size == s.len(),
            cursor.pos <= s.len(),
            atoms@.len() == qs.len(),
            qs.len() == 0 ==> cursor.pos == 0,
            s.len() == 0 ==> atoms@.len() == 0,
            qs.len() > 0 ==> qs[0] == 0,
            qs.len() > 0 ==> qs.last() < cursor.pos,
            forall|i: int| 0 < i < qs.len() ==> #[trigger] qs[i] > qs[i - 1],
            forall|i: int|
                0 <= i < qs.len() ==> crate::atom::top_atom_decoded(s, #[trigger] qs[i], atoms@[i]),
        decreases s.len() - cursor.pos,
    {
        let ghost p = cursor.pos as int;
        let atom = match read_top_atom(&mut cursor) {
            Ok(a) => a,
            Err(e) => {
                return Err(e);
            },
        };
        atoms.push(atom);
        proof {
            qs = qs.push(p);
        }
    }
    proof {
        assert(heif_boxes_ok(s, qs, atoms@));
        assert(exists|qs2: Seq<int>| #[trigger] heif_boxes_ok(s, qs2, atoms@));
    }
    proof {
        if s.len() == 0 {
            assert(atoms@ =~= Seq::<AtomVariant>::empty());
            assert(first_meta(atoms@) is None);
            assert(resolve_item(atoms@, "Exif"@) is None);
            assert(resolve_item(atoms@, "mime"@) is None);
        }
    }
    let exif = match get_exif(&atoms, &mut cursor) {
        Ok(x) => x,
        Err(e) => {
            return Err(e);
        },
    };
    let xmp = match get_xmp(&atoms, &mut cursor) {
        Ok(x) => x,
        Err(e) => {
            return Err(e);
        },
    };
    Ok(Heif { atoms, exif, xmp })
}

} // verus!
