//! The TIFF/EXIF directory decoder: byte-order detection, the linked
//! list of image file directories, and typed entry values that are
//! stored inline or behind an absolute offset.

use vstd::prelude::*;

use crate::cursor::{as_signed_8, as_signed_16, as_signed_32, scalar_value, ByteCursor};
use crate::error::DecodeError;
use crate::tags::TiffTag;
use crate::utils::Endianness;

verus! {

/// A decode failure inside a TIFF stream.
#[derive(Debug, Clone, Copy, PartialEq, Eq, Structural)]
pub struct TiffError(pub DecodeError);

/// One typed scalar of an IFD entry.
///
/// The twelve variants mirror the twelve TIFF value types. Rationals
/// keep their exact numerator/denominator pair; `FLOAT` and `DOUBLE`
/// carry the raw IEEE-754 bit patterns (4 and 8 bytes read in the
/// directory's byte order), leaving any lossy interpretation to the
/// caller.
#[derive(Debug, Clone, Copy, PartialEq, Eq, Structural)]
pub enum IFDEntryValue {
    BYTE(u8),
    ASCII(u8),
    SHORT(u16),
    LONG(u32),
    RATIONAL(u32, u32),
    SBYTE(i8),
    UNDEFINED(u8),
    SSHORT(i16),
    SLONG(i32),
    SRATIONAL(i32, i32),
    FLOAT(u32),
    DOUBLE(u64),
}

/// Whether `t` is one of the twelve recognized TIFF value types.
pub open spec fn known_type(t: u16) -> bool {
    1 <= t <= 12
}

/// The fixed byte width of one value of type `t`.
pub open spec fn type_width(t: u16) -> nat {
    if t == 1 || t == 2 || t == 6 || t == 7 {
        1
    } else if t == 3 || t == 8 {
        2
    } else if t == 4 || t == 9 || t == 11 {
        4
    } else if t == 5 || t == 10 || t == 12 {
        8
    } else {
        0
    }
}

/// The byte width of one value of type `value_type`, or
/// `UnrecognizedValueType` for a type id outside 1 through 12.
pub fn get_tiff_value_type_size(value_type: u16) -> (r: Result<u64, TiffError>)
    ensures
        match r {
            Ok(w) => known_type(value_type) && w == type_width(value_type),
            Err(e) => !known_type(value_type) && e == (TiffError(
                DecodeError::UnrecognizedValueType { value_type },
            )),
        },
{
    match value_type {
        1 => Ok(1),
        2 => Ok(1),
        3 => Ok(2),
        4 => Ok(4),
        5 => Ok(8),
        6 => Ok(1),
        7 => Ok(1),
        8 => Ok(2),
        9 => Ok(4),
        10 => Ok(8),
        11 => Ok(4),
        12 => Ok(8),
        _ => Err(TiffError(DecodeError::UnrecognizedValueType { value_type })),
    }
}

/// The value of type `t` denoted by the `type_width(t)` bytes of
/// `chunk`, read in byte order `e`.
pub open spec fn decode_value(t: u16, e: Endianness, chunk: Seq<u8>) -> IFDEntryValue {
    if t == 1 {
        IFDEntryValue::BYTE(chunk[0])
    } else if t == 2 {
        IFDEntryValue::ASCII(chunk[0])
    } else if t == 3 {
        IFDEntryValue::SHORT(scalar_value(chunk, e) as u16)
    } else if t == 4 {
        IFDEntryValue::LONG(scalar_value(chunk, e) as u32)
    } else if t == 5 {
        IFDEntryValue::RATIONAL(
            scalar_value(chunk.subrange(0, 4), e) as u32,
            scalar_value(chunk.subrange(4, 8), e) as u32,
        )
    } else if t == 6 {
        IFDEntryValue::SBYTE(as_signed_8(chunk[0] as nat) as i8)
    } else if t == 7 {
        IFDEntryValue::UNDEFINED(chunk[0])
    } else if t == 8 {
        IFDEntryValue::SSHORT(as_signed_16(scalar_value(chunk, e)) as i16)
    } else if t == 9 {
        IFDEntryValue::SLONG(as_signed_32(scalar_value(chunk, e)) as i32)
    } else if t == 10 {
        IFDEntryValue::SRATIONAL(
            as_signed_32(scalar_value(chunk.subrange(0, 4), e)) as i32,
            as_signed_32(scalar_value(chunk.subrange(4, 8), e)) as i32,
        )
    } else if t == 11 {
        IFDEntryValue::FLOAT(scalar_value(chunk, e) as u32)
    } else if t == 12 {
        IFDEntryValue::DOUBLE(scalar_value(chunk, e) as u64)
    } else {
        IFDEntryValue::BYTE(0)
    }
}

/// The `n` values of type `t` laid out consecutively in `s` starting
/// at position `p`, each `type_width(t)` bytes wide.
pub open spec fn values_at(s: Seq<u8>, p: int, t: u16, n: nat, e: Endianness) -> Seq<
    IFDEntryValue,
>
    decreases n,
{
    if n == 0 {
        Seq::empty()
    } else {
        values_at(s, p, t, (n - 1) as nat, e).push(
            decode_value(
                t,
                e,
                s.subrange(p + (n - 1) * type_width(t), p + n * type_width(t)),
            ),
        )
    }
}

/// One decoded IFD entry: its tag id and its typed values, in
/// storage order.
#[derive(Debug, Clone, PartialEq)]
pub struct IFDEntry {
    pub tag: u16,
    pub values: Vec<IFDEntryValue>,
}

impl IFDEntry {
    /// The entry's one value; an entry holding any other number of
    /// values is an `ArityMismatch`.
    pub fn get_single_value(&self) -> (r: Result<IFDEntryValue, TiffError>)
        ensures
            match r {
                Ok(v) => self.values@.len() == 1 && v == self.values@[0],
                Err(e) => self.values@.len() != 1 && e == (TiffError(DecodeError::ArityMismatch)),
            },
    {
        if self.values.len() == 1 {
            Ok(self.values[0])
        } else {
            Err(TiffError(DecodeError::ArityMismatch))
        }
    }
}

/// Reads `value_count` consecutive values of type `value_type` from
/// the cursor's current position.
#[verifier::rlimit(50)]
fn read_ifd_entry_values(
    value_type: u16,
    value_type_size: u64,
    value_count: u64,
    endianness: Endianness,
    cursor: &mut ByteCursor,
) -> (r: Result<Vec<IFDEntryValue>, TiffError>)
    requires
        known_type(value_type),
        value_type_size == type_width(value_type),
    ensures
        final(cursor).data@ == old(cursor).data@,
        match r {
            Ok(vs) => {
                &&& value_count > 0 ==> old(cursor).pos + value_count * type_width(value_type)
                    <= old(cursor).data@.len()
                &&& vs@ == values_at(
                    old(cursor).data@,
                    old(cursor).pos as int,
                    value_type,
                    value_count as nat,
                    endianness,
                )
                &&& final(cursor).pos == old(cursor).pos + value_count * type_width(value_type)
            },
            Err(err) => {
                &&& old(cursor).pos + value_count * type_width(value_type) > old(
                    cursor,
                ).data@.len()
                &&& err.0 matches DecodeError::TruncatedInput { .. }
            },
        },
{
    let ghost s = cursor.data@;
    let ghost p0 = cursor.pos as int;
    let ghost w = type_width(value_type);
    let mut values: Vec<IFDEntryValue> = Vec::new();
    let mut k: u64 = 0;
    while k < value_count
        invariant
            known_type(value_type),
            value_type_size == type_width(value_type),
            s == old(cursor).data@,
            p0 == old(cursor).pos as int,
            cursor.data@ == s,
            k <= value_count,
            cursor.pos == p0 + k * w,
            k > 0 ==> p0 + k * w <= s.len(),
            w == type_width(value_type),
            values@ == values_at(s, p0, value_type, k as nat, endianness),
        decreases value_count - k,
    {
        let ghost chunk = s.subrange(p0 + k * w, p0 + (k + 1) * w);
        proof {
            assert((k + 1) * w == k * w + w) by (nonlinear_arith);
        }
        let v: IFDEntryValue = match value_type {
            1 => {
                match cursor.read_u8() {
                    Ok(b) => IFDEntryValue::BYTE(b),
                    Err(e) => {
                        proof {
                            value_count_bound(k as nat, value_count as nat, w);
                        }
                        return Err(TiffError(e));
                    },
                }
            },
            2 => {
                match cursor.read_u8() {
                    Ok(b) => IFDEntryValue::ASCII(b),
                    Err(e) => {
                        proof {
                            value_count_bound(k as nat, value_count as nat, w);
                        }
                        return Err(TiffError(e));
                    },
                }
            },
            3 => {
                match cursor.read_u16(endianness) {
                    Ok(x) => IFDEntryValue::SHORT(x),
                    Err(e) => {
                        proof {
                            value_count_bound(k as nat, value_count as nat, w);
                        }
                        return Err(TiffError(e));
                    },
                }
            },
            4 => {
                match cursor.read_u32(endianness) {
                    Ok(x) => IFDEntryValue::LONG(x),
                    Err(e) => {
                        proof {
                            value_count_bound(k as nat, value_count as nat, w);
                        }
                        return Err(TiffError(e));
                    },
                }
            },
            5 => {
                let a = match cursor.read_u32(endianness) {
                    Ok(x) => x,
                    Err(e) => {
                        proof {
                            value_count_bound(k as nat, value_count as nat, w);
                        }
                        return Err(TiffError(e));
                    },
                };
                let b = match cursor.read_u32(endianness) {
                    Ok(x) => x,
                    Err(e) => {
                        proof {
                            value_count_bound(k as nat, value_count as nat, w);
                        }
                        return Err(TiffError(e));
                    },
                };
                proof {
                    assert(chunk.subrange(0, 4) =~= s.subrange(p0 + k * w, p0 + k * w + 4));
                    assert(chunk.subrange(4, 8) =~= s.subrange(p0 + k * w + 4, p0 + k * w + 8));
                }
                IFDEntryValue::RATIONAL(a, b)
            },
            6 => {
                match cursor.read_u8() {
                    Ok(b) => {
                        if b < 0x80 {
                            IFDEntryValue::SBYTE(b as i8)
                        } else {
                            IFDEntryValue::SBYTE((b - 0x80) as i8 + i8::MIN)
                        }
                    },
                    Err(e) => {
                        proof {
                            value_count_bound(k as nat, value_count as nat, w);
                        }
                        return Err(TiffError(e));
                    },
                }
            },
            7 => {
                match cursor.read_u8() {
                    Ok(b) => IFDEntryValue::UNDEFINED(b),
                    Err(e) => {
                        proof {
                            value_count_bound(k as nat, value_count as nat, w);
                        }
                        return Err(TiffError(e));
                    },
                }
            },
            8 => {
                match cursor.read_i16(endianness) {
                    Ok(x) => IFDEntryValue::SSHORT(x),
                    Err(e) => {
                        proof {
                            value_count_bound(k as nat, value_count as nat, w);
                        }
                        return Err(TiffError(e));
                    },
                }
            },
            9 => {
                match cursor.read_i32(endianness) {
                    Ok(x) => IFDEntryValue::SLONG(x),
                    Err(e) => {
                        proof {
                            value_count_bound(k as nat, value_count as nat, w);
                        }
                        return Err(TiffError(e));
                    },
                }
            },
            10 => {
                let a = match cursor.read_i32(endianness) {
                    Ok(x) => x,
                    Err(e) => {
                        proof {
                            value_count_bound(k as nat, value_count as nat, w);
                        }
                        return Err(TiffError(e));
                    },
                };
                let b = match cursor.read_i32(endianness) {
                    Ok(x) => x,
                    Err(e) => {
                        proof {
                            value_count_bound(k as nat, value_count as nat, w);
                        }
                        return Err(TiffError(e));
                    },
                };
                proof {
                    assert(chunk.subrange(0, 4) =~= s.subrange(p0 + k * w, p0 + k * w + 4));
                    assert(chunk.subrange(4, 8) =~= s.subrange(p0 + k * w + 4, p0 + k * w + 8));
                }
                IFDEntryValue::SRATIONAL(a, b)
            },
            11 => {
                match cursor.read_u32(endianness) {
                    Ok(x) => IFDEntryValue::FLOAT(x),
                    Err(e) => {
                        proof {
                            value_count_bound(k as nat, value_count as nat, w);
                        }
                        return Err(TiffError(e));
                    },
                }
            },
            12 => {
                match cursor.read_u64(endianness) {
                    Ok(x) => IFDEntryValue::DOUBLE(x),
                    Err(e) => {
                        proof {
                            value_count_bound(k as nat, value_count as nat, w);
                        }
                        return Err(TiffError(e));
                    },
                }
            },
            _ => {
                return Err(
                    TiffError(DecodeError::UnrecognizedValueType { value_type }),
                );
            },
        };
        proof {
            assert(v == decode_value(value_type, endianness, chunk));
        }
        values.push(v);
        k = k + 1;
        proof {
            assert(values@ == values_at(s, p0, value_type, k as nat, endianness));
        }
    }
    proof {
        assert(k == value_count);
    }
    Ok(values)
}

/// The tag id of the entry that starts at position `q`.
pub open spec fn entry_tag(s: Seq<u8>, q: int, e: Endianness) -> nat {
    scalar_value(s.subrange(q, q + 2), e)
}

/// The value type of the entry that starts at position `q`.
pub open spec fn entry_type(s: Seq<u8>, q: int, e: Endianness) -> u16 {
    scalar_value(s.subrange(q + 2, q + 4), e) as u16
}

/// The value count of the entry that starts at position `q`.
pub open spec fn entry_count(s: Seq<u8>, q: int, e: Endianness) -> nat {
    scalar_value(s.subrange(q + 4, q + 8), e)
}

/// The total encoded size of the entry's values, in bytes.
pub open spec fn entry_size(s: Seq<u8>, q: int, e: Endianness) -> nat {
    entry_count(s, q, e) * type_width(entry_type(s, q, e))
}

/// Where the entry's values live: in the 4 inline bytes when they
/// fit, else at the absolute offset those 4 bytes hold.
pub open spec fn entry_value_pos(s: Seq<u8>, q: int, e: Endianness) -> int {
    if entry_size(s, q, e) <= 4 {
        q + 8
    } else {
        scalar_value(s.subrange(q + 8, q + 12), e) as int
    }
}

/// The decoded values of the entry that starts at position `q`.
pub open spec fn entry_values(s: Seq<u8>, q: int, e: Endianness) -> Seq<IFDEntryValue> {
    values_at(s, entry_value_pos(s, q, e), entry_type(s, q, e), entry_count(s, q, e), e)
}

/// Whether the entry that starts at position `q` decodes without
/// error: its full 12 bytes are present, its type is known, and all
/// its values lie inside the buffer.
pub open spec fn entry_well_formed(s: Seq<u8>, q: int, e: Endianness) -> bool {
    &&& q + 12 <= s.len()
    &&& known_type(entry_type(s, q, e))
    &&& entry_size(s, q, e) > 4 ==> entry_value_pos(s, q, e) + entry_size(s, q, e) <= s.len()
}

/// Reads one 12-byte IFD entry at the cursor's position.
///
/// Whether the values were inline or behind an offset, on success
/// the cursor always ends up exactly 12 bytes past the entry's
/// start, ready for the next entry of the directory.
pub fn read_ifd_entry(cursor: &mut ByteCursor, endianness: Endianness) -> (r: Result<
    IFDEntry,
    TiffError,
>)
    ensures
        final(cursor).data@ == old(cursor).data@,
        ({
            let s = old(cursor).data@;
            let q = old(cursor).pos as int;
            match r {
                Ok(entry) => {
                    &&& entry_well_formed(s, q, endianness)
                    &&& entry.tag == entry_tag(s, q, endianness)
                    &&& entry.values@ == entry_values(s, q, endianness)
                    &&& final(cursor).pos == q + 12
                },
                Err(err) => {
                    &&& !entry_well_formed(s, q, endianness)
                    &&& (q + 8 <= s.len() && !known_type(entry_type(s, q, endianness))) ==> err.0
                        == (DecodeError::UnrecognizedValueType {
                        value_type: entry_type(s, q, endianness),
                    })
                    &&& !(q + 8 <= s.len() && !known_type(entry_type(s, q, endianness)))
                        ==> err.0 matches DecodeError::TruncatedInput { .. }
                },
            }
        }),
{
    let ghost s = cursor.data@;
    let ghost q = cursor.pos as int;
    let tag = match cursor.read_u16(endianness) {
        Ok(x) => x,
        Err(e) => {
            return Err(TiffError(e));
        },
    };
    let value_type = match cursor.read_u16(endianness) {
        Ok(x) => x,
        Err(e) => {
            return Err(TiffError(e));
        },
    };
    let value_count = match cursor.read_u32(endianness) {
        Ok(x) => x,
        Err(e) => {
            return Err(TiffError(e));
        },
    };
    proof {
        assert(s.subrange(q, q + 2) =~= s.subrange(q, q + 2));
        assert(tag == entry_tag(s, q, endianness));
        assert(value_type == entry_type(s, q, endianness));
        assert(value_count == entry_count(s, q, endianness));
    }
    let value_type_size = match get_tiff_value_type_size(value_type) {
        Ok(w) => w,
        Err(e) => {
            return Err(e);
        },
    };
    proof {
        assert(value_count as int * value_type_size as int <= 0xFFFF_FFFFu64 * 8)
            by (nonlinear_arith)
            requires
                value_count <= 0xFFFF_FFFFu64 && value_type_size <= 8,
        ;
    }
    let size_of_all_values: u64 = (value_count as u64) * value_type_size;
    let inline_position = cursor.position();
    let value_offset = match cursor.read_u32(endianness) {
        Ok(x) => x,
        Err(e) => {
            return Err(TiffError(e));
        },
    };
    let next_entry_position = cursor.position();
    if size_of_all_values > 4 {
        cursor.seek(value_offset as u64);
    } else {
        cursor.seek(inline_position);
    }
    let values = match read_ifd_entry_values(
        value_type,
        value_type_size,
        value_count as u64,
        endianness,
        cursor,
    ) {
        Ok(vs) => vs,
        Err(e) => {
            proof {
                assert(entry_size(s, q, endianness) > 4 ==> entry_value_pos(s, q, endianness)
                    + entry_size(s, q, endianness) > s.len());
                assert(entry_size(s, q, endianness) <= 4 ==> entry_size(s, q, endianness)
                    + entry_value_pos(s, q, endianness) <= s.len());
            }
            return Err(e);
        },
    };
    proof {
        assert(entry_type(s, q, endianness) == value_type);
        assert(entry_count(s, q, endianness) == value_count as nat);
        assert(entry_size(s, q, endianness) == value_count * value_type_size);
        if size_of_all_values > 4 {
            assert(value_count > 0) by (nonlinear_arith)
                requires
                    value_count as int * value_type_size as int > 4,
            ;
        }
    }
    cursor.seek(next_entry_position);
    Ok(IFDEntry { tag, values })
}

/// The number of entries of the directory that starts at position `q`.
pub open spec fn ifd_entry_count(s: Seq<u8>, q: int, e: Endianness) -> nat {
    scalar_value(s.subrange(q, q + 2), e)
}

/// Whether the directory that starts at position `q` decodes without
/// error: its count is present and each of its entries is well formed.
pub open spec fn ifd_well_formed(s: Seq<u8>, q: int, e: Endianness) -> bool {
    &&& q + 2 <= s.len()
    &&& forall|i: int|
        0 <= i < ifd_entry_count(s, q, e) ==> #[trigger] entry_well_formed(s, q + 2 + 12 * i, e)
}

/// Reads one image file directory at the cursor's position: a 2-byte
/// entry count followed by that many 12-byte entries.
pub fn read_ifd(cursor: &mut ByteCursor, endianness: Endianness) -> (r: Result<
    Vec<IFDEntry>,
    TiffError,
>)
    ensures
        final(cursor).data@ == old(cursor).data@,
        ({
            let s = old(cursor).data@;
            let q = old(cursor).pos as int;
            match r {
                Ok(entries) => {
                    &&& ifd_well_formed(s, q, endianness)
                    &&& entries@.len() == ifd_entry_count(s, q, endianness)
                    &&& forall|i: int|
                        0 <= i < entries@.len() ==> (#[trigger] entries@[i]).tag == entry_tag(
                            s,
                            q + 2 + 12 * i,
                            endianness,
                        ) && entries@[i].values@ == entry_values(s, q + 2 + 12 * i, endianness)
                    &&& final(cursor).pos == q + 2 + 12 * ifd_entry_count(s, q, endianness)
                },
                Err(err) => {
                    &&& !ifd_well_formed(s, q, endianness)
                    &&& (err.0 matches DecodeError::TruncatedInput { .. } || err.0 matches
                        DecodeError::UnrecognizedValueType { .. })
                },
            }
        }),
{
    let ghost s = cursor.data@;
    let ghost q = cursor.pos as int;
    let ifd_entry_count = match cursor.read_u16(endianness) {
        Ok(x) => x,
        Err(e) => {
            return Err(TiffError(e));
        },
    };
    let mut entries: Vec<IFDEntry> = Vec::new();
    let mut i: u16 = 0;
    while i < ifd_entry_count
        invariant
            s == old(cursor).data@,
            q == old(cursor).pos as int,
            cursor.data@ == s,
            i <= ifd_entry_count,
            ifd_entry_count == crate::tiff::ifd_entry_count(s, q, endianness),
            q + 2 <= s.len(),
            cursor.pos == q + 2 + 12 * i,
            entries@.len() == i,
            forall|j: int| 0 <= j < i ==> #[trigger] entry_well_formed(s, q + 2 + 12 * j, endianness),
            forall|j: int|
                0 <= j < i ==> (#[trigger] entries@[j]).tag == entry_tag(s, q + 2 + 12 * j, endianness)
                    && entries@[j].values@ == entry_values(s, q + 2 + 12 * j, endianness),
        decreases ifd_entry_count - i,
    {
        let entry = match read_ifd_entry(cursor, endianness) {
            Ok(en) => en,
            Err(e) => {
                proof {
                    assert(!entry_well_formed(s, q + 2 + 12 * (i as int), endianness));
                }
                return Err(e);
            },
        };
        entries.push(entry);
        i = i + 1;
    }
    Ok(entries)
}

/// The directory offset stored at position `op`.
pub open spec fn dir_offset(s: Seq<u8>, e: Endianness, op: int) -> int {
    scalar_value(s.subrange(op, op + 4), e) as int
}

/// Where the next directory offset is stored: right after the
/// directory that the offset at `op` points to.
pub open spec fn next_offset_pos(s: Seq<u8>, e: Endianness, op: int) -> int {
    dir_offset(s, e, op) + 2 + 12 * ifd_entry_count(s, dir_offset(s, e, op), e)
}

/// Whether the offset at `op` is present, non-terminal, and points
/// at a well-formed directory.
pub open spec fn chain_link_ok(s: Seq<u8>, e: Endianness, op: int) -> bool {
    &&& op + 4 <= s.len()
    &&& dir_offset(s, e, op) != 0
    &&& ifd_well_formed(s, dir_offset(s, e, op), e)
}

/// Whether `ops` is the complete chain of directory-offset positions
/// that starts at `start`: each link holds a non-zero offset to a
/// well-formed directory, each next link sits right after the
/// previous directory, and the offset after the last directory is 0.
pub open spec fn chain_ok(s: Seq<u8>, e: Endianness, start: int, ops: Seq<int>) -> bool {
    &&& ops.len() > 0 ==> ops[0] == start
    &&& forall|i: int| 0 <= i < ops.len() ==> chain_link_ok(s, e, #[trigger] ops[i])
    &&& forall|i: int| 0 < i < ops.len() ==> #[trigger] ops[i] == next_offset_pos(s, e, ops[i - 1])
    &&& ({
        let endp = if ops.len() == 0 {
            start
        } else {
            next_offset_pos(s, e, ops.last())
        };
        endp + 4 <= s.len() && scalar_value(s.subrange(endp, endp + 4), e) == 0
    })
}

/// The start positions of the entries of the directory at `q`.
pub open spec fn ifd_positions(s: Seq<u8>, e: Endianness, q: int) -> Seq<int> {
    Seq::new(ifd_entry_count(s, q, e), |j: int| q + 2 + 12 * j)
}

/// The entry positions of every directory on the chain `ops`, in
/// chain order.
pub open spec fn chain_positions(s: Seq<u8>, e: Endianness, ops: Seq<int>) -> Seq<int>
    decreases ops.len(),
{
    if ops.len() == 0 {
        Seq::empty()
    } else {
        chain_positions(s, e, ops.drop_last()) + ifd_positions(
            s,
            e,
            dir_offset(s, e, ops.last()),
        )
    }
}

/// The directory offset a semantic tag points at, if it is one of
/// the two sub-directory pointers.
pub open spec fn dir_pointer_of(t: TiffTag) -> Option<u32> {
    match t {
        TiffTag::ExifIfdPointer(p) => Some(p),
        TiffTag::GpsIfdPointer(p) => Some(p),
        _ => None,
    }
}

/// The entry positions of every sub-directory that a pointer tag in
/// `tags` names, in tag order.
pub open spec fn pointer_positions(s: Seq<u8>, e: Endianness, tags: Seq<TiffTag>) -> Seq<int>
    decreases tags.len(),
{
    if tags.len() == 0 {
        Seq::empty()
    } else {
        pointer_positions(s, e, tags.drop_last()) + (match dir_pointer_of(tags.last()) {
            Some(p) => ifd_positions(s, e, p as int),
            None => Seq::empty(),
        })
    }
}

/// Whether every sub-directory that a pointer tag names is well
/// formed.
pub open spec fn pointer_dirs_ok(s: Seq<u8>, e: Endianness, tags: Seq<TiffTag>) -> bool {
    forall|k: int|
        0 <= k < tags.len() ==> match dir_pointer_of(#[trigger] tags[k]) {
            Some(p) => ifd_well_formed(s, p as int, e),
            None => true,
        }
}

/// Whether `tags` is, index by index, the projection of the entries
/// that start at the positions `eps`.
pub open spec fn tags_for(s: Seq<u8>, e: Endianness, eps: Seq<int>, tags: Seq<TiffTag>) -> bool {
    &&& tags.len() == eps.len()
    &&& forall|k: int|
        0 <= k < eps.len() ==> crate::tags::projects_to(
            entry_tag(s, #[trigger] eps[k], e) as u16,
            entry_values(s, eps[k], e),
            Ok(tags[k]),
        )
}

/// The byte order a TIFF stream at `p0` declares: `MM` for
/// big-endian, `II` for little-endian, anything else refused.
pub open spec fn tiff_endianness_of(s: Seq<u8>, p0: int) -> Option<Endianness> {
    if s[p0] == 0x4D && s[p0 + 1] == 0x4D {
        Some(Endianness::Big)
    } else if s[p0] == 0x49 && s[p0 + 1] == 0x49 {
        Some(Endianness::Little)
    } else {
        None
    }
}

/// What a successful TIFF decode of the stream at `p0` returns: the
/// declared byte order, the magic number 42, and the projections of
/// all entries of the directory chain, followed by those of the
/// EXIF/GPS sub-directories that pointer tags name.
pub open spec fn tiff_decodes_to(
    s: Seq<u8>,
    p0: int,
    endianness: Endianness,
    tags: Seq<TiffTag>,
) -> bool {
    &&& p0 + 4 <= s.len()
    &&& tiff_endianness_of(s, p0) == Some(endianness)
    &&& scalar_value(s.subrange(p0 + 2, p0 + 4), endianness) == 42
    &&& exists|ops: Seq<int>, main: Seq<TiffTag>, extra: Seq<TiffTag>|
        {
            &&& chain_ok(s, endianness, p0 + 4, ops)
            &&& #[trigger] tags_for(s, endianness, chain_positions(s, endianness, ops), main)
            &&& pointer_dirs_ok(s, endianness, main)
            &&& #[trigger] tags_for(s, endianness, pointer_positions(s, endianness, main), extra)
            &&& tags == main + extra
        }
}

/// Which error a failed TIFF decode of the stream at `p0` reports:
/// `BadMagic` exactly when the byte-order mark or the magic number
/// is wrong, a typed decode error otherwise.
pub open spec fn tiff_error_ok(s: Seq<u8>, p0: int, err: TiffError) -> bool {
    if p0 + 2 > s.len() {
        err.0 matches DecodeError::TruncatedInput { .. }
    } else if tiff_endianness_of(s, p0) is None {
        err == (TiffError(DecodeError::BadMagic))
    } else {
        let e = tiff_endianness_of(s, p0).unwrap();
        if p0 + 4 > s.len() {
            err.0 matches DecodeError::TruncatedInput { .. }
        } else if scalar_value(s.subrange(p0 + 2, p0 + 4), e) != 42 {
            err == (TiffError(DecodeError::BadMagic))
        } else {
            ||| err.0 matches DecodeError::TruncatedInput { .. }
            ||| err.0 matches DecodeError::UnrecognizedValueType { .. }
            ||| err.0 == DecodeError::TypeMismatch
            ||| err.0 == DecodeError::ArityMismatch
            ||| err.0 == DecodeError::CyclicStructure
        }
    }
}

/// A well-formed TIFF header whose directory chain is empty: the
/// byte-order mark, the magic number 42, and a first directory
/// offset of 0. The simplest stream a decode is owed to accept.
pub open spec fn tiff_empty_chain(s: Seq<u8>, p0: int) -> bool {
    &&& p0 + 8 <= s.len()
    &&& tiff_endianness_of(s, p0) is Some
    &&& scalar_value(s.subrange(p0 + 2, p0 + 4), tiff_endianness_of(s, p0).unwrap()) == 42
    &&& scalar_value(s.subrange(p0 + 4, p0 + 8), tiff_endianness_of(s, p0).unwrap()) == 0
}

/// Two complete chains from the same start are the same chain.
pub proof fn lemma_chain_unique(s: Seq<u8>, e: Endianness, start: int, a: Seq<int>, b: Seq<int>)
    requires
        chain_ok(s, e, start, a),
        chain_ok(s, e, start, b),
    ensures
        a =~= b,
{
    let enda = if a.len() == 0 {
        start
    } else {
        next_offset_pos(s, e, a.last())
    };
    lemma_chain_prefix(s, e, start, b, a, enda);
    if a.len() < b.len() {
        assert(chain_link_ok(s, e, b[a.len() as int]));
        assert(false);
    }
}

/// A raw entry projects deterministically: two projections of the
/// same view agree on whether they succeed.
#[verifier::rlimit(100)]
#[verifier::spinoff_prover]
pub proof fn lemma_projection_deterministic(
    tag: u16,
    vs: Seq<IFDEntryValue>,
    r1: Result<TiffTag, TiffError>,
    r2: Result<TiffTag, TiffError>,
)
    requires
        crate::tags::projects_to(tag, vs, r1),
        crate::tags::projects_to(tag, vs, r2),
    ensures
        r1 is Ok <==> r2 is Ok,
{
}

/// The sub-directory pointer an entry denotes, straight from its raw
/// view: tag id 34665 or 34853 holding a single LONG.
pub open spec fn entry_pointer_of(tag: u16, vs: Seq<IFDEntryValue>) -> Option<u32> {
    if (tag == 34665 || tag == 34853) && vs.len() == 1 && (vs[0] matches IFDEntryValue::LONG(_)) {
        Some(vs[0]->LONG_0)
    } else {
        None
    }
}

/// Projection preserves the pointer reading: the semantic tag points
/// at a sub-directory exactly where its raw entry does.
#[verifier::rlimit(100)]
#[verifier::spinoff_prover]
pub proof fn lemma_projection_pointer(tag: u16, vs: Seq<IFDEntryValue>, t: TiffTag)
    requires
        crate::tags::projects_to(tag, vs, Ok(t)),
    ensures
        dir_pointer_of(t) == entry_pointer_of(tag, vs),
{
}

/// The entry positions of every sub-directory that a pointer entry
/// at a position of `eps` names, in order (the raw-view counterpart
/// of `pointer_positions`).
pub open spec fn entry_pointer_positions(s: Seq<u8>, e: Endianness, eps: Seq<int>) -> Seq<int>
    decreases eps.len(),
{
    if eps.len() == 0 {
        Seq::empty()
    } else {
        entry_pointer_positions(s, e, eps.drop_last()) + (match entry_pointer_of(
            entry_tag(s, eps.last(), e) as u16,
            entry_values(s, eps.last(), e),
        ) {
            Some(p) => ifd_positions(s, e, p as int),
            None => Seq::empty(),
        })
    }
}

/// Tags that project the entries at `eps`, index by index, point at
/// the same sub-directories.
pub proof fn lemma_pointer_positions_match(
    s: Seq<u8>,
    e: Endianness,
    eps: Seq<int>,
    tags: Seq<TiffTag>,
)
    requires
        tags.len() == eps.len(),
        forall|k: int|
            0 <= k < eps.len() ==> crate::tags::projects_to(
                entry_tag(s, #[trigger] eps[k], e) as u16,
                entry_values(s, eps[k], e),
                Ok(tags[k]),
            ),
    ensures
        pointer_positions(s, e, tags) =~= entry_pointer_positions(s, e, eps),
    decreases eps.len(),
{
    if eps.len() > 0 {
        lemma_pointer_positions_match(s, e, eps.drop_last(), tags.drop_last());
        lemma_projection_pointer(
            entry_tag(s, eps.last(), e) as u16,
            entry_values(s, eps.last(), e),
            tags.last(),
        );
    }
}

/// Whether the entry at `q` projects to a semantic tag.
pub open spec fn entry_projectable(s: Seq<u8>, e: Endianness, q: int) -> bool {
    exists|t: TiffTag|
        #[trigger] crate::tags::projects_to(
            entry_tag(s, q, e) as u16,
            entry_values(s, q, e),
            Ok(t),
        )
}

/// Whether every entry of the run at positions `eps` projects to a
/// semantic tag.
pub open spec fn entries_projectable(s: Seq<u8>, e: Endianness, eps: Seq<int>) -> bool {
    forall|k: int| 0 <= k < eps.len() ==> entry_projectable(s, e, #[trigger] eps[k])
}

/// Whether every sub-directory pointed at from the run at `eps` is
/// well formed.
pub open spec fn entry_pointers_ok(s: Seq<u8>, e: Endianness, eps: Seq<int>) -> bool {
    forall|k: int|
        0 <= k < eps.len() ==> match entry_pointer_of(
            entry_tag(s, #[trigger] eps[k], e) as u16,
            entry_values(s, eps[k], e),
        ) {
            Some(p) => ifd_well_formed(s, p as int, e),
            None => true,
        }
}

/// A well-formed TIFF stream that a decode is owed to accept: good
/// header, a complete directory chain, every entry (of the chain and
/// of the pointed sub-directories) projectable, and every pointed
/// sub-directory well formed.
pub open spec fn tiff_success_ok(s: Seq<u8>, p0: int) -> bool {
    &&& p0 + 4 <= s.len()
    &&& tiff_endianness_of(s, p0) is Some
    &&& ({
        let e = tiff_endianness_of(s, p0).unwrap();
        &&& scalar_value(s.subrange(p0 + 2, p0 + 4), e) == 42
        &&& exists|ops2: Seq<int>|
            {
                &&& #[trigger] chain_ok(s, e, p0 + 4, ops2)
                &&& ops2.len() <= s.len()
                &&& entries_projectable(s, e, chain_positions(s, e, ops2))
                &&& entry_pointers_ok(s, e, chain_positions(s, e, ops2))
                &&& entries_projectable(
                    s,
                    e,
                    entry_pointer_positions(s, e, chain_positions(s, e, ops2)),
                )
            }
    })
}

/// Unpacks the owed-success hypothesis: its chain is the one the
/// decode walked, so every decoded entry projects, every pointed
/// directory is well formed, and every pointed entry projects.
proof fn lemma_success_transfers(s: Seq<u8>, e: Endianness, p0: int, ops: Seq<int>)
    requires
        tiff_success_ok(s, p0),
        tiff_endianness_of(s, p0).unwrap() == e,
        chain_ok(s, e, p0 + 4, ops),
    ensures
        entries_projectable(s, e, chain_positions(s, e, ops)),
        entry_pointers_ok(s, e, chain_positions(s, e, ops)),
        entries_projectable(s, e, entry_pointer_positions(s, e, chain_positions(s, e, ops))),
{
    let ops2 = choose|ops2: Seq<int>|
        {
            &&& #[trigger] chain_ok(s, e, p0 + 4, ops2)
            &&& ops2.len() <= s.len()
            &&& entries_projectable(s, e, chain_positions(s, e, ops2))
            &&& entry_pointers_ok(s, e, chain_positions(s, e, ops2))
            &&& entries_projectable(s, e, entry_pointer_positions(s, e, chain_positions(s, e, ops2)))
        };
    lemma_chain_unique(s, e, p0 + 4, ops, ops2);
    assert(chain_positions(s, e, ops) =~= chain_positions(s, e, ops2));
}

/// A decoded TIFF stream: the flat list of semantic tags, in
/// directory-visit order, and the stream's byte order.
#[derive(Debug, PartialEq)]
pub struct Tiff {
    pub tags: Vec<TiffTag>,
    pub endianness: Endianness,
}

/// Projects every raw entry through the semantic tag table; the
/// first projection error aborts.
fn ifd_entries_to_tiff_tags(entries: Vec<IFDEntry>) -> (r: Result<Vec<TiffTag>, TiffError>)
    ensures
        match r {
            Ok(tags) => {
                &&& tags@.len() == entries@.len()
                &&& forall|k: int|
                    0 <= k < entries@.len() ==> crate::tags::projects_to(
                        (#[trigger] entries@[k]).tag,
                        entries@[k].values@,
                        Ok(tags@[k]),
                    )
            },
            Err(err) => exists|k: int|
                0 <= k < entries@.len() && crate::tags::projects_to(
                    (#[trigger] entries@[k]).tag,
                    entries@[k].values@,
                    Err(err),
                ),
        },
{
    let ghost evs = entries@;
    let mut tags: Vec<TiffTag> = Vec::new();
    let mut rest = entries;
    let ghost mut i: int = 0;
    while rest.len() > 0
        invariant
            evs == entries@,
            0 <= i,
            i + rest@.len() == evs.len(),
            rest@ == evs.subrange(i, evs.len() as int),
            tags@.len() == i,
            forall|k: int|
                0 <= k < i ==> crate::tags::projects_to(
                    (#[trigger] evs[k]).tag,
                    evs[k].values@,
                    Ok(tags@[k]),
                ),
        decreases rest@.len(),
    {
        let entry = rest.remove(0);
        proof {
            assert(entry == evs[i]);
            assert(rest@ =~= evs.subrange(i + 1, evs.len() as int));
        }
        let tag = match TiffTag::try_from(entry) {
            Ok(t) => t,
            Err(err) => {
                return Err(err);
            },
        };
        tags.push(tag);
        proof {
            i = i + 1;
        }
    }
    Ok(tags)
}

/// Looks for the sub-directory pointer a tag carries.
fn dir_pointer(t: &TiffTag) -> (r: Option<u32>)
    ensures
        r == dir_pointer_of(*t),
{
    match t {
        TiffTag::ExifIfdPointer(p) => Some(*p),
        TiffTag::GpsIfdPointer(p) => Some(*p),
        _ => None,
    }
}

/// A projection can only fail on the shape of an entry's values:
/// with a type it did not expect, or the wrong number of them.
proof fn lemma_projection_error_kind(tag: u16, vs: Seq<IFDEntryValue>, err: TiffError)
    requires
        crate::tags::projects_to(tag, vs, Err(err)),
    ensures
        err.0 == DecodeError::TypeMismatch || err.0 == DecodeError::ArityMismatch,
{
}

/// Whether `entries` is exactly the entry list of the whole
/// directory chain `ops` starting at `start`.
pub open spec fn chain_entries_ok(
    s: Seq<u8>,
    e: Endianness,
    start: int,
    ops: Seq<int>,
    entries: Seq<IFDEntry>,
) -> bool {
    &&& chain_ok(s, e, start, ops)
    &&& entries.len() == chain_positions(s, e, ops).len()
    &&& forall|k: int|
        0 <= k < entries.len() ==> (#[trigger] entries[k]).tag == entry_tag(
            s,
            chain_positions(s, e, ops)[k],
            e,
        ) && entries[k].values@ == entry_values(s, chain_positions(s, e, ops)[k], e)
}

/// Whether `extra` is exactly the entry list of the sub-directories
/// that the pointer tags of `tags` name.
pub open spec fn pointer_entries_ok(
    s: Seq<u8>,
    e: Endianness,
    tags: Seq<TiffTag>,
    extra: Seq<IFDEntry>,
) -> bool {
    &&& extra.len() == pointer_positions(s, e, tags).len()
    &&& forall|k: int|
        0 <= k < extra.len() ==> (#[trigger] extra[k]).tag == entry_tag(
            s,
            pointer_positions(s, e, tags)[k],
            e,
        ) && extra[k].values@ == entry_values(s, pointer_positions(s, e, tags)[k], e)
}

/// The directory chain is deterministic: any run of links that
/// follows the offset recurrence from `start` (as the decode loop
/// does) is a prefix of any complete chain `ops2`, and on reaching
/// the complete chain's length it stands exactly at the terminal
/// offset position.
#[verifier::rlimit(100)]
#[verifier::spinoff_prover]
pub proof fn lemma_chain_prefix(
    s: Seq<u8>,
    e: Endianness,
    start: int,
    ops2: Seq<int>,
    qs: Seq<int>,
    cur: int,
)
    requires
        chain_ok(s, e, start, ops2),
        qs.len() > 0 ==> qs[0] == start,
        forall|i: int| 0 < i < qs.len() ==> #[trigger] qs[i] == next_offset_pos(s, e, qs[i - 1]),
        forall|i: int| 0 <= i < qs.len() ==> chain_link_ok(s, e, #[trigger] qs[i]),
        cur == if qs.len() == 0 {
            start
        } else {
            next_offset_pos(s, e, qs.last())
        },
    ensures
        qs.len() <= ops2.len(),
        forall|i: int| 0 <= i < qs.len() ==> #[trigger] qs[i] == ops2[i],
        qs.len() < ops2.len() ==> cur == ops2[qs.len() as int],
        qs.len() == ops2.len() ==> (cur + 4 <= s.len() && scalar_value(
            s.subrange(cur, cur + 4),
            e,
        ) == 0),
    decreases qs.len(),
{
    if qs.len() == 0 {
        if ops2.len() == 0 {
            assert(cur + 4 <= s.len() && scalar_value(s.subrange(cur, cur + 4), e) == 0);
        } else {
            assert(ops2[0] == start);
        }
    } else {
        let front = qs.drop_last();
        let prev_cur = if front.len() == 0 {
            start
        } else {
            next_offset_pos(s, e, front.last())
        };
        assert(forall|i: int|
            0 < i < front.len() ==> #[trigger] front[i] == next_offset_pos(s, e, front[i - 1]));
        assert(forall|i: int| 0 <= i < front.len() ==> chain_link_ok(s, e, #[trigger] front[i]));
        lemma_chain_prefix(s, e, start, ops2, front, prev_cur);
        if qs.len() == 1 {
            assert(qs[0] == start);
            assert(qs.last() == prev_cur);
        } else {
            assert(qs[qs.len() - 1] == next_offset_pos(s, e, qs[qs.len() - 2]));
            assert(front.last() == qs[qs.len() - 2]);
            assert(qs.last() == prev_cur);
        }
        if front.len() == ops2.len() {
            // the run would stand past the complete chain: its last
            // link holds a non-zero offset where the chain is terminal
            assert(scalar_value(s.subrange(prev_cur, prev_cur + 4), e) == 0);
            assert(chain_link_ok(s, e, qs[qs.len() - 1]));
            assert(dir_offset(s, e, qs.last()) != 0);
            assert(false);
        } else {
            assert(qs.last() == ops2[front.len() as int]);
            assert(forall|i: int| 0 <= i < qs.len() ==> #[trigger] qs[i] == ops2[i]) by {
                assert(forall|i: int| 0 <= i < front.len() ==> #[trigger] front[i] == ops2[i]);
                assert(forall|i: int| 0 <= i < front.len() ==> #[trigger] qs[i] == front[i]);
            }
            if qs.len() < ops2.len() {
                assert(ops2[qs.len() as int] == next_offset_pos(s, e, ops2[qs.len() - 1]));
                assert(ops2[qs.len() - 1] == qs.last());
            } else {
                assert(ops2.last() == qs.last());
                assert(cur == next_offset_pos(s, e, ops2.last()));
            }
        }
    }
}

/// Walks the linked list of directories whose first offset is at the
/// cursor's position, collecting every entry in chain order.
#[verifier::loop_isolation(false)]
#[verifier::rlimit(100)]
#[verifier::spinoff_prover]
fn read_ifd_chain(cursor: &mut ByteCursor, endianness: Endianness) -> (r: (
    Result<Vec<IFDEntry>, TiffError>,
    Ghost<Seq<int>>,
))
    ensures
        final(cursor).data@ == old(cursor).data@,
        (old(cursor).pos + 4 <= old(cursor).data@.len() && scalar_value(
            old(cursor).data@.subrange(old(cursor).pos as int, old(cursor).pos + 4),
            endianness,
        ) == 0) ==> r.0 is Ok,
        (exists|ops2: Seq<int>|
            #[trigger] chain_ok(old(cursor).data@, endianness, old(cursor).pos as int, ops2)
                && ops2.len() <= old(cursor).data@.len()) ==> r.0 is Ok,
        ({
            let s = old(cursor).data@;
            let start = old(cursor).pos as int;
            match r.0 {
                Ok(entries) => chain_entries_ok(s, endianness, start, r.1@, entries@),
                Err(err) => {
                    ||| err.0 matches DecodeError::TruncatedInput { .. }
                    ||| err.0 matches DecodeError::UnrecognizedValueType { .. }
                    ||| err.0 == DecodeError::CyclicStructure
                },
            }
        }),
{
    let ghost s = cursor.data@;
    let ghost start = cursor.pos as int;
    let mut entries: Vec<IFDEntry> = Vec::new();
    let ghost mut ops: Seq<int> = Seq::empty();
    let bound = cursor.length() as u64;
    let mut steps: u64 = 0;
    let ghost mut cur_op: int = start;
    let mut offset = match cursor.read_u32(endianness) {
        Ok(o) => o,
        Err(e) => {
            proof {
                if exists|ops2: Seq<int>|
                    #[trigger] chain_ok(s, endianness, start, ops2) && ops2.len() <= s.len() {
                    let ops2 = choose|ops2: Seq<int>|
                        #[trigger] chain_ok(s, endianness, start, ops2) && ops2.len() <= s.len();
                    lemma_chain_prefix(s, endianness, start, ops2, Seq::empty(), start);
                    assert(false);
                }
            }
            return (Err(TiffError(e)), Ghost(Seq::empty()));
        },
    };
    while offset != 0
        invariant
            cursor.data@ == s,
            steps == ops.len(),
            steps <= bound,
            cur_op == if ops.len() == 0 {
                start
            } else {
                next_offset_pos(s, endianness, ops.last())
            },
            cur_op + 4 <= s.len(),
            cursor.pos == cur_op + 4,
            offset == dir_offset(s, endianness, cur_op),
            ops.len() > 0 ==> ops[0] == start,
            forall|i: int| 0 <= i < ops.len() ==> chain_link_ok(s, endianness, #[trigger] ops[i]),
            forall|i: int|
                0 < i < ops.len() ==> #[trigger] ops[i] == next_offset_pos(
                    s,
                    endianness,
                    ops[i - 1],
                ),
            entries@.len() == chain_positions(s, endianness, ops).len(),
            forall|k: int|
                0 <= k < entries@.len() ==> (#[trigger] entries@[k]).tag == entry_tag(
                    s,
                    chain_positions(s, endianness, ops)[k],
                    endianness,
                ) && entries@[k].values@ == entry_values(
                    s,
                    chain_positions(s, endianness, ops)[k],
                    endianness,
                ),
        decreases bound - steps,
    {
        let ghost op = cur_op;
        if steps >= bound {
            proof {
                if exists|ops2: Seq<int>|
                    #[trigger] chain_ok(s, endianness, start, ops2) && ops2.len() <= s.len() {
                    let ops2 = choose|ops2: Seq<int>|
                        #[trigger] chain_ok(s, endianness, start, ops2) && ops2.len() <= s.len();
                    lemma_chain_prefix(s, endianness, start, ops2, ops, cur_op);
                    assert(false);
                }
            }
            return (Err(TiffError(DecodeError::CyclicStructure)), Ghost(Seq::empty()));
        }
        cursor.seek(offset as u64);
        let mut chunk = match read_ifd(cursor, endianness) {
            Ok(c) => c,
            Err(err) => {
                proof {
                    if exists|ops2: Seq<int>|
                        #[trigger] chain_ok(s, endianness, start, ops2) && ops2.len() <= s.len() {
                        let ops2 = choose|ops2: Seq<int>|
                            #[trigger] chain_ok(s, endianness, start, ops2) && ops2.len()
                                <= s.len();
                        lemma_chain_prefix(s, endianness, start, ops2, ops, cur_op);
                        assert(chain_link_ok(s, endianness, ops2[ops.len() as int]));
                        assert(false);
                    }
                }
                return (Err(err), Ghost(Seq::empty()));
            },
        };
        let ghost ops0 = ops;
        let ghost entries0 = entries@;
        proof {
            ops = ops0.push(op);
            assert(ops.drop_last() =~= ops0);
            assert(ops.last() == op);
            assert(dir_offset(s, endianness, op) == offset as int);
            assert(chain_positions(s, endianness, ops) == chain_positions(s, endianness, ops0)
                + ifd_positions(s, endianness, offset as int));
        }
        entries.append(&mut chunk);
        steps = steps + 1;
        proof {
            let cp = chain_positions(s, endianness, ops);
            let cp0 = chain_positions(s, endianness, ops0);
            assert forall|k: int| 0 <= k < entries@.len() implies (#[trigger] entries@[k]).tag
                == entry_tag(s, cp[k], endianness) && entries@[k].values@ == entry_values(
                s,
                cp[k],
                endianness,
            ) by {
                if k < entries0.len() {
                    assert(entries@[k] == entries0[k]);
                    assert(cp[k] == cp0[k]);
                } else {
                    assert(cp[k] == ifd_positions(s, endianness, offset as int)[k
                        - entries0.len()]);
                }
            }
            cur_op = next_offset_pos(s, endianness, op);
        }
        offset = match cursor.read_u32(endianness) {
            Ok(o) => o,
            Err(e) => {
                proof {
                    if exists|ops2: Seq<int>|
                        #[trigger] chain_ok(s, endianness, start, ops2) && ops2.len() <= s.len() {
                        let ops2 = choose|ops2: Seq<int>|
                            #[trigger] chain_ok(s, endianness, start, ops2) && ops2.len()
                                <= s.len();
                        lemma_chain_prefix(s, endianness, start, ops2, ops, cur_op);
                        assert(false);
                    }
                }
                return (Err(TiffError(e)), Ghost(Seq::empty()));
            },
        };
    }
    proof {
        assert(chain_ok(s, endianness, start, ops));
        assert(chain_entries_ok(s, endianness, start, ops, entries@));
    }
    (Ok(entries), Ghost(ops))
}

/// Reads the sub-directories that the EXIF and GPS pointer tags of
/// `tags` name, collecting their entries in tag order.
#[verifier::loop_isolation(false)]
#[verifier::rlimit(60)]
fn read_pointer_dirs(cursor: &mut ByteCursor, endianness: Endianness, tags: &Vec<TiffTag>) -> (r:
    Result<Vec<IFDEntry>, TiffError>)
    ensures
        final(cursor).data@ == old(cursor).data@,
        tags@.len() == 0 ==> r is Ok,
        ({
            let s = old(cursor).data@;
            match r {
                Ok(extra) => pointer_dirs_ok(s, endianness, tags@) && pointer_entries_ok(
                    s,
                    endianness,
                    tags@,
                    extra@,
                ),
                Err(err) => {
                    &&& (err.0 matches DecodeError::TruncatedInput { .. } || err.0 matches
                    DecodeError::UnrecognizedValueType { .. })
                    &&& exists|k: int|
                        0 <= k < tags@.len() && ((#[trigger] dir_pointer_of(tags@[k])) matches Some(
                            pp,
                        ) && !ifd_well_formed(old(cursor).data@, pp as int, endianness))
                },
            }
        }),
{
    let ghost s = cursor.data@;
    let mut extra_entries: Vec<IFDEntry> = Vec::new();
    let mut i: usize = 0;
    while i < tags.len()
        invariant
            cursor.data@ == s,
            i <= tags@.len(),
            extra_entries@.len() == pointer_positions(
                s,
                endianness,
                tags@.subrange(0, i as int),
            ).len(),
            forall|k: int|
                0 <= k < extra_entries@.len() ==> (#[trigger] extra_entries@[k]).tag == entry_tag(
                    s,
                    pointer_positions(s, endianness, tags@.subrange(0, i as int))[k],
                    endianness,
                ) && extra_entries@[k].values@ == entry_values(
                    s,
                    pointer_positions(s, endianness, tags@.subrange(0, i as int))[k],
                    endianness,
                ),
            forall|k: int|
                0 <= k < i ==> match dir_pointer_of(#[trigger] tags@[k]) {
                    Some(p) => ifd_well_formed(s, p as int, endianness),
                    None => true,
                },
        decreases tags@.len() - i,
    {
        let ghost prefix0 = tags@.subrange(0, i as int);
        let ghost prefix1 = tags@.subrange(0, i + 1);
        proof {
            assert(prefix1.drop_last() =~= prefix0);
            assert(prefix1.last() == tags@[i as int]);
        }
        let p_opt = dir_pointer(&tags[i]);
        match p_opt {
            Some(p) => {
                cursor.seek(p as u64);
                let mut chunk = match read_ifd(cursor, endianness) {
                    Ok(c) => c,
                    Err(err) => {
                        proof {
                            assert(dir_pointer_of(tags@[i as int]) matches Some(pp)
                                && !ifd_well_formed(s, pp as int, endianness));
                        }
                        return Err(err);
                    },
                };
                let ghost extra0 = extra_entries@;
                proof {
                    assert(pointer_positions(s, endianness, prefix1) == pointer_positions(
                        s,
                        endianness,
                        prefix0,
                    ) + ifd_positions(s, endianness, p as int));
                }
                extra_entries.append(&mut chunk);
                proof {
                    let pp = pointer_positions(s, endianness, prefix1);
                    let pp0 = pointer_positions(s, endianness, prefix0);
                    assert forall|k: int| 0 <= k < extra_entries@.len() implies (
                    #[trigger] extra_entries@[k]).tag == entry_tag(s, pp[k], endianness)
                        && extra_entries@[k].values@ == entry_values(s, pp[k], endianness) by {
                        if k < extra0.len() {
                            assert(extra_entries@[k] == extra0[k]);
                            assert(pp[k] == pp0[k]);
                        } else {
                            assert(pp[k] == ifd_positions(s, endianness, p as int)[k
                                - extra0.len()]);
                        }
                    }
                }
            },
            None => {
                proof {
                    assert(pointer_positions(s, endianness, prefix1) =~= pointer_positions(
                        s,
                        endianness,
                        prefix0,
                    ));
                }
            },
        }
        i = i + 1;
    }
    proof {
        assert(tags@.subrange(0, tags@.len() as int) =~= tags@);
    }
    Ok(extra_entries)
}

/// Decodes a whole TIFF stream at the cursor's position: byte-order
/// mark, magic number 42, every directory on the offset chain, and
/// then the EXIF/GPS sub-directories that pointer tags name, all
/// projected to semantic tags in one flat list.
///
/// A chain of directory offsets that cannot terminate (it revisits a
/// position) is reported as `CyclicStructure` instead of looping
/// forever; the bound of one directory per buffer byte is loose
/// enough never to cut off a terminating chain.
#[verifier::rlimit(100)]
#[verifier::spinoff_prover]
pub fn read_tiff(cursor: &mut ByteCursor) -> (r: Result<Tiff, TiffError>)
    ensures
        final(cursor).data@ == old(cursor).data@,
        tiff_empty_chain(old(cursor).data@, old(cursor).pos as int) ==> r is Ok,
        tiff_success_ok(old(cursor).data@, old(cursor).pos as int) ==> r is Ok,
        ({
            let s = old(cursor).data@;
            let p0 = old(cursor).pos as int;
            match r {
                Ok(t) => tiff_decodes_to(s, p0, t.endianness, t.tags@),
                Err(err) => tiff_error_ok(s, p0, err),
            }
        }),
        (r is Err && old(cursor).pos + 2 <= old(cursor).data@.len() && tiff_endianness_of(
            old(cursor).data@,
            old(cursor).pos as int,
        ) is None) ==> final(cursor).pos == old(cursor).pos + 2,
{
    let ghost s = cursor.data@;
    let ghost p0 = cursor.pos as int;
    let b0 = match cursor.read_u8() {
        Ok(b) => b,
        Err(e) => {
            return Err(TiffError(e));
        },
    };
    let b1 = match cursor.read_u8() {
        Ok(b) => b,
        Err(e) => {
            return Err(TiffError(e));
        },
    };
    let endianness = if b0 == 0x4D && b1 == 0x4D {
        Endianness::Big
    } else if b0 == 0x49 && b1 == 0x49 {
        Endianness::Little
    } else {
        return Err(TiffError(DecodeError::BadMagic));
    };
    let magic = match cursor.read_u16(endianness) {
        Ok(m) => m,
        Err(e) => {
            return Err(TiffError(e));
        },
    };
    if magic != 42 {
        return Err(TiffError(DecodeError::BadMagic));
    }
    proof {
        if tiff_success_ok(s, p0) {
            assert(tiff_endianness_of(s, p0).unwrap() == endianness);
        }
    }
    let (chain_result, ops_ghost) = read_ifd_chain(cursor, endianness);
    let ghost ops = ops_ghost@;
    let entries = match chain_result {
        Ok(en) => en,
        Err(err) => {
            proof {
                if tiff_success_ok(s, p0) {
                    let ops2 = choose|ops2: Seq<int>|
                        {
                            &&& #[trigger] chain_ok(s, endianness, p0 + 4, ops2)
                            &&& ops2.len() <= s.len()
                            &&& entries_projectable(s, endianness, chain_positions(s, endianness, ops2))
                            &&& entry_pointers_ok(s, endianness, chain_positions(s, endianness, ops2))
                            &&& entries_projectable(
                                s,
                                endianness,
                                entry_pointer_positions(
                                    s,
                                    endianness,
                                    chain_positions(s, endianness, ops2),
                                ),
                            )
                        };
                    assert(exists|o: Seq<int>|
                        #[trigger] chain_ok(s, endianness, p0 + 4, o) && o.len() <= s.len());
                    assert(false);
                }
            }
            return Err(err);
        },
    };
    let ghost entry_views = entries@;
    let tags = match ifd_entries_to_tiff_tags(entries) {
        Ok(t) => t,
        Err(err) => {
            proof {
                let k = choose|k: int|
                    0 <= k < entry_views.len() && crate::tags::projects_to(
                        (#[trigger] entry_views[k]).tag,
                        entry_views[k].values@,
                        Err(err),
                    );
                lemma_projection_error_kind(entry_views[k].tag, entry_views[k].values@, err);
                if tiff_success_ok(s, p0) {
                    lemma_success_transfers(s, endianness, p0, ops);
                    let cp = chain_positions(s, endianness, ops);
                    assert(entry_projectable(s, endianness, cp[k]));
                    let t2 = choose|t2: TiffTag|
                        #[trigger] crate::tags::projects_to(
                            entry_tag(s, cp[k], endianness) as u16,
                            entry_values(s, cp[k], endianness),
                            Ok(t2),
                        );
                    lemma_projection_deterministic(
                        entry_views[k].tag,
                        entry_views[k].values@,
                        Ok(t2),
                        Err(err),
                    );
                    assert(false);
                }
            }
            return Err(err);
        },
    };
    let ghost main = tags@;
    proof {
        let cp = chain_positions(s, endianness, ops);
        assert forall|k: int| 0 <= k < cp.len() implies crate::tags::projects_to(
            entry_tag(s, #[trigger] cp[k], endianness) as u16,
            entry_values(s, cp[k], endianness),
            Ok(main[k]),
        ) by {
            assert(entry_views[k].tag == entry_tag(s, cp[k], endianness));
            assert(entry_views[k].values@ == entry_values(s, cp[k], endianness));
            assert(crate::tags::projects_to(entry_views[k].tag, entry_views[k].values@, Ok(
                main[k],
            )));
        }
        assert(tags_for(s, endianness, cp, main));
    }
    let extra_entries = match read_pointer_dirs(cursor, endianness, &tags) {
        Ok(ex) => ex,
        Err(err) => {
            proof {
                if tiff_success_ok(s, p0) {
                    lemma_success_transfers(s, endianness, p0, ops);
                    let cp = chain_positions(s, endianness, ops);
                    let k = choose|k: int|
                        0 <= k < tags@.len() && ((#[trigger] dir_pointer_of(tags@[k])) matches Some(
                            pp,
                        ) && !ifd_well_formed(s, pp as int, endianness));
                    lemma_projection_pointer(
                        entry_tag(s, cp[k], endianness) as u16,
                        entry_values(s, cp[k], endianness),
                        tags@[k],
                    );
                    assert(false);
                }
            }
            return Err(err);
        },
    };
    let ghost extra_views = extra_entries@;
    let extra_tags = match ifd_entries_to_tiff_tags(extra_entries) {
        Ok(t) => t,
        Err(err) => {
            proof {
                let k = choose|k: int|
                    0 <= k < extra_views.len() && crate::tags::projects_to(
                        (#[trigger] extra_views[k]).tag,
                        extra_views[k].values@,
                        Err(err),
                    );
                lemma_projection_error_kind(extra_views[k].tag, extra_views[k].values@, err);
                if tiff_success_ok(s, p0) {
                    lemma_success_transfers(s, endianness, p0, ops);
                    let cp = chain_positions(s, endianness, ops);
                    lemma_pointer_positions_match(s, endianness, cp, main);
                    let pp = pointer_positions(s, endianness, main);
                    assert(entry_projectable(s, endianness, pp[k]));
                    let t2 = choose|t2: TiffTag|
                        #[trigger] crate::tags::projects_to(
                            entry_tag(s, pp[k], endianness) as u16,
                            entry_values(s, pp[k], endianness),
                            Ok(t2),
                        );
                    lemma_projection_deterministic(
                        extra_views[k].tag,
                        extra_views[k].values@,
                        Ok(t2),
                        Err(err),
                    );
                    assert(false);
                }
            }
            return Err(err);
        },
    };
    let ghost extra = extra_tags@;
    proof {
        let pp = pointer_positions(s, endianness, main);
        assert forall|k: int| 0 <= k < pp.len() implies crate::tags::projects_to(
            entry_tag(s, #[trigger] pp[k], endianness) as u16,
            entry_values(s, pp[k], endianness),
            Ok(extra[k]),
        ) by {
            assert(extra_views[k].tag == entry_tag(s, pp[k], endianness));
            assert(extra_views[k].values@ == entry_values(s, pp[k], endianness));
            assert(crate::tags::projects_to(extra_views[k].tag, extra_views[k].values@, Ok(
                extra[k],
            )));
        }
        assert(tags_for(s, endianness, pp, extra));
    }
    let mut all_tags = tags;
    let mut extra_mut = extra_tags;
    all_tags.append(&mut extra_mut);
    proof {
        assert(all_tags@ == main + extra);
        assert(tiff_decodes_to(s, p0, endianness, all_tags@));
    }
    Ok(Tiff { tags: all_tags, endianness })
}


/// Decodes the TIFF stream that follows the 6-byte `Exif\0\0`
/// wrapper of an EXIF payload; directory offsets are taken relative
/// to the start of the TIFF header, right after the wrapper.
pub fn read_exif_section(data: &[u8]) -> (r: Result<Tiff, TiffError>)
    ensures
        (data@.len() >= 6 && tiff_empty_chain(data@.skip(6), 0)) ==> r is Ok,
        (data@.len() >= 6 && tiff_success_ok(data@.skip(6), 0)) ==> r is Ok,
        match r {
            Ok(t) => data@.len() >= 6 && tiff_decodes_to(
                data@.skip(6),
                0,
                t.endianness,
                t.tags@,
            ),
            Err(err) => {
                &&& data@.len() < 6 ==> (err.0 matches DecodeError::TruncatedInput { .. })
                &&& data@.len() >= 6 ==> tiff_error_ok(data@.skip(6), 0, err)
            },
        },
{
    let n = data.len();
    if n < 6 {
        return Err(
            TiffError(DecodeError::TruncatedInput { offset: n as u64, expected: 6 }),
        );
    }
    let tiff_bytes = vstd::slice::slice_subrange(data, 6, n);
    proof {
        assert(tiff_bytes@ =~= data@.skip(6));
    }
    let mut cursor = ByteCursor::new(tiff_bytes);
    read_tiff(&mut cursor)
}

/// When the read of value `k` (of `n`, each `w` wide) crosses the
/// end of the buffer, so does the full run of `n` values.
proof fn value_count_bound(k: nat, n: nat, w: nat)
    requires
        k < n,
    ensures
        (k + 1) * w <= n * w,
{
    assert((k + 1) * w <= n * w) by (nonlinear_arith)
        requires
            k < n,
    ;
}

} // verus!
