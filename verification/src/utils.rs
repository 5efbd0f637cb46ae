//! Byte-order and file-kind enumerations, nibble unpacking, and the
//! string readers shared by the container decoders.

use vstd::prelude::*;

use crate::cursor::ByteCursor;
use crate::error::DecodeError;

verus! {

/// The characters that lossy UTF-8 decoding yields for `bytes`
/// (invalid sequences replaced, never an error).
pub uninterp spec fn utf8_lossy(bytes: Seq<u8>) -> Seq<char>;

/// Relies on `String::from_utf8_lossy`: the result is a function of
/// the bytes alone, and on valid UTF-8 input it is exactly the
/// decoded character sequence.
#[verifier::external_body]
pub(crate) fn lossy_string(b: &[u8]) -> (r: String)
    ensures
        r@ == utf8_lossy(b@),
        vstd::utf8::valid_utf8(b@) ==> r@ == vstd::utf8::decode_utf8(b@),
{
    String::from_utf8_lossy(b).into_owned()
}

/// The byte order of a multi-byte integer field.
#[derive(Debug, Clone, Copy, PartialEq, Eq, Structural)]
pub enum Endianness {
    Little,
    Big,
}

/// The container format recognized from a buffer's leading bytes.
#[derive(Debug, Clone, Copy, PartialEq, Eq, Structural)]
pub enum FileKind {
    Jpeg,
    Png,
    Heif,
}

/// Splits a byte into its low nibble (`r.0`) and high nibble (`r.1`).
pub fn get_nibbles(byte: u8) -> (r: (u8, u8))
    ensures
        r.0 == byte % 16,
        r.1 == byte / 16,
{
    (byte % 16, byte / 16)
}

/// `s` with its trailing run of NUL bytes removed; interior NULs
/// stay in place.
pub open spec fn strip_trailing_nul(s: Seq<u8>) -> Seq<u8>
    decreases s.len(),
{
    if s.len() == 0 {
        Seq::empty()
    } else if s.last() == 0 {
        strip_trailing_nul(s.drop_last())
    } else {
        s
    }
}

/// Stripping the trailing NULs of `s` keeps exactly its prefix up to
/// the last non-NUL byte.
pub proof fn lemma_strip_trailing_nul(s: Seq<u8>, end: int)
    requires
        0 <= end <= s.len(),
        forall|j: int| end <= j < s.len() ==> s[j] == 0,
        end > 0 ==> s[end - 1] != 0,
    ensures
        strip_trailing_nul(s) == s.subrange(0, end),
    decreases s.len(),
{
    if s.len() == end {
        if end == 0 {
            assert(s.subrange(0, 0) =~= s);
        } else {
            assert(s.last() == s[end - 1]);
            assert(s.subrange(0, end) =~= s);
        }
    } else {
        assert(s.last() == 0);
        lemma_strip_trailing_nul(s.drop_last(), end);
        assert(s.drop_last().subrange(0, end) =~= s.subrange(0, end));
    }
}

/// Drops the trailing run of NUL bytes of `v`.
pub(crate) fn drop_trailing_nuls(v: &mut Vec<u8>)
    ensures
        final(v)@ == strip_trailing_nul(old(v)@),
{
    let ghost s = v@;
    let mut end: usize = v.len();
    while end > 0 && v[end - 1] == 0
        invariant
            s == v@,
            end <= s.len(),
            forall|j: int| end <= j < s.len() ==> s[j] == 0,
        decreases end,
    {
        end = end - 1;
    }
    proof {
        lemma_strip_trailing_nul(s, end as int);
    }
    v.truncate(end);
}

/// The index of the first NUL byte of `s` at or after `from`, or
/// `s.len()` when there is none.
pub open spec fn first_nul(s: Seq<u8>, from: int) -> int
    decreases s.len() - from,
{
    if !(0 <= from < s.len()) {
        s.len() as int
    } else if s[from] == 0 {
        from
    } else {
        first_nul(s, from + 1)
    }
}

/// The first NUL at or after `from` lies between `from` and the end
/// of the byte string.
pub proof fn lemma_first_nul_bounds(s: Seq<u8>, from: int)
    requires
        0 <= from <= s.len(),
    ensures
        from <= first_nul(s, from) <= s.len(),
    decreases s.len() - from,
{
    if from < s.len() && s[from] != 0 {
        lemma_first_nul_bounds(s, from + 1);
    }
}

/// Decodes a NUL-padded byte string: the trailing NUL padding is
/// dropped and the rest is decoded as lossy UTF-8.
pub fn padded_string(v: &[u8]) -> (r: String)
    ensures
        r@ == utf8_lossy(strip_trailing_nul(v@)),
{
    let mut kept: Vec<u8> = vstd::slice::slice_to_vec(v);
    drop_trailing_nuls(&mut kept);
    lossy_string(kept.as_slice())
}

/// Reads a NUL-padded string of exactly `size` bytes: the bytes are
/// consumed in full, the trailing NUL padding is dropped, and the
/// rest is decoded as lossy UTF-8.
pub fn read_sized_string(c: &mut ByteCursor, size: u64) -> (r: Result<String, DecodeError>)
    ensures
        final(c).data@ == old(c).data@,
        match r {
            Ok(s) => {
                &&& old(c).pos + size <= old(c).data@.len()
                &&& s@ == utf8_lossy(
                    strip_trailing_nul(
                        old(c).data@.subrange(old(c).pos as int, old(c).pos + size),
                    ),
                )
                &&& final(c).pos == old(c).pos + size
            },
            Err(e) => {
                &&& old(c).pos + size > old(c).data@.len()
                &&& e == (DecodeError::TruncatedInput { offset: old(c).pos, expected: size })
                &&& *final(c) == *old(c)
            },
        },
{
    let mut v = match c.read_bytes(size) {
        Ok(v) => v,
        Err(e) => {
            return Err(e);
        },
    };
    drop_trailing_nuls(&mut v);
    Ok(lossy_string(v.as_slice()))
}

/// Reads bytes up to (and past) the next NUL, or to the end of the
/// buffer, and decodes the bytes before the NUL as lossy UTF-8.
pub fn read_c_string(c: &mut ByteCursor) -> (r: String)
    ensures
        final(c).data@ == old(c).data@,
        final(c).pos >= old(c).pos,
        ({
            let s = old(c).data@;
            let p = old(c).pos as int;
            if p > s.len() {
                r@ == utf8_lossy(Seq::<u8>::empty()) && final(c).pos == old(c).pos
            } else {
                let k = first_nul(s, p);
                r@ == utf8_lossy(s.subrange(p, k)) && final(c).pos == if k < s.len() {
                    k + 1
                } else {
                    s.len() as int
                }
            }
        }),
{
    let len = c.length() as u64;
    let empty: Vec<u8> = Vec::new();
    if c.position() > len {
        return lossy_string(empty.as_slice());
    }
    let ghost s = c.data@;
    let ghost start = c.pos as int;
    let mut bytes: Vec<u8> = Vec::new();
    loop
        invariant_except_break
            c.data@ == s,
            len == s.len(),
            0 <= start <= c.pos <= s.len(),
            bytes@ == s.subrange(start, c.pos as int),
            first_nul(s, start) == first_nul(s, c.pos as int),
            forall|j: int| start <= j < c.pos ==> s[j] != 0,
        ensures
            c.data@ == s,
            bytes@ == s.subrange(start, first_nul(s, start)),
            c.pos == if first_nul(s, start) < s.len() {
                first_nul(s, start) + 1
            } else {
                s.len() as int
            },
        decreases s.len() - c.pos,
    {
        if c.position() >= len {
            proof {
                assert(c.pos == s.len());
                assert(first_nul(s, s.len() as int) == s.len());
            }
            break;
        }
        let ghost before = c.pos as int;
        let b = match c.read_u8() {
            Ok(b) => b,
            Err(_) => {
                proof {
                    assert(false);
                }
                break;
            },
        };
        if b == 0 {
            proof {
                assert(first_nul(s, before) == before);
            }
            break;
        }
        bytes.push(b);
        proof {
            assert(bytes@ =~= s.subrange(start, before + 1));
            assert(first_nul(s, before) == first_nul(s, before + 1));
        }
    }
    proof {
        lemma_first_nul_bounds(s, start);
    }
    lossy_string(bytes.as_slice())
}

/// The decimal digit character for `d` (0 through 9).
pub open spec fn digit_char(d: nat) -> char {
    if d == 0 {
        '0'
    } else if d == 1 {
        '1'
    } else if d == 2 {
        '2'
    } else if d == 3 {
        '3'
    } else if d == 4 {
        '4'
    } else if d == 5 {
        '5'
    } else if d == 6 {
        '6'
    } else if d == 7 {
        '7'
    } else if d == 8 {
        '8'
    } else {
        '9'
    }
}

/// The decimal rendering of `n`, without sign or leading zeros.
pub open spec fn dec_seq(n: nat) -> Seq<char>
    decreases n,
{
    if n < 10 {
        seq![digit_char(n)]
    } else {
        dec_seq(n / 10).push(digit_char(n % 10))
    }
}

/// The decimal rendering of `v`, with a leading minus sign when it
/// is negative.
pub open spec fn dec_seq_signed(v: int) -> Seq<char> {
    if v < 0 {
        seq!['-'] + dec_seq((-v) as nat)
    } else {
        dec_seq(v as nat)
    }
}

/// The one-character string for the decimal digit `d`.
fn digit_str(d: u32) -> (r: &'static str)
    requires
        d < 10,
    ensures
        r@ == seq![digit_char(d as nat)],
{
    proof {
        reveal_strlit("0");
        reveal_strlit("1");
        reveal_strlit("2");
        reveal_strlit("3");
        reveal_strlit("4");
        reveal_strlit("5");
        reveal_strlit("6");
        reveal_strlit("7");
        reveal_strlit("8");
        reveal_strlit("9");
    }
    let r = match d {
        0 => "0",
        1 => "1",
        2 => "2",
        3 => "3",
        4 => "4",
        5 => "5",
        6 => "6",
        7 => "7",
        8 => "8",
        _ => "9",
    };
    proof {
        assert(r@ =~= seq![digit_char(d as nat)]);
    }
    r
}

/// Renders `n` in decimal.
pub fn u32_to_decimal(n: u32) -> (s: String)
    ensures
        s@ == dec_seq(n as nat),
    decreases n,
{
    if n < 10 {
        let s = digit_str(n).to_owned();
        s
    } else {
        let mut s = u32_to_decimal(n / 10);
        s.append(digit_str(n % 10));
        proof {
            assert(dec_seq((n / 10) as nat) + seq![digit_char((n % 10) as nat)] =~= dec_seq(
                (n / 10) as nat,
            ).push(digit_char((n % 10) as nat)));
        }
        s
    }
}

/// Renders `v` in decimal, with a minus sign when negative.
pub fn i32_to_decimal(v: i32) -> (s: String)
    ensures
        s@ == dec_seq_signed(v as int),
{
    if v >= 0 {
        u32_to_decimal(v as u32)
    } else {
        proof {
            reveal_strlit("-");
        }
        let magnitude: u32 = (-(v as i64)) as u32;
        let mut s = "-".to_owned();
        let digits = u32_to_decimal(magnitude);
        s.append(digits.as_str());
        proof {
            assert(("-"@) =~= seq!['-']);
        }
        s
    }
}

/// The file kind that a buffer's leading bytes announce: the JPEG
/// start-of-image marker, the PNG signature, or a leading `ftyp` box
/// (HEIF); anything else is unrecognized.
pub open spec fn spec_file_kind(s: Seq<u8>) -> Option<FileKind> {
    if s.len() >= 3 && s[0] == 0xFF && s[1] == 0xD8 && s[2] == 0xFF {
        Some(FileKind::Jpeg)
    } else if s.len() >= 8 && s[0] == 137 && s[1] == 80 && s[2] == 78 && s[3] == 71 && s[4] == 13
        && s[5] == 10 && s[6] == 26 && s[7] == 10 {
        Some(FileKind::Png)
    } else if s.len() >= 8 && s[4] == 0x66 && s[5] == 0x74 && s[6] == 0x79 && s[7] == 0x70 {
        Some(FileKind::Heif)
    } else {
        None
    }
}

/// Classifies a buffer by its magic prefix: JPEG start-of-image, PNG
/// signature, or an ISOBMFF stream whose first box is named `ftyp`.
pub fn determine_file_kind(data: &[u8]) -> (r: Option<FileKind>)
    ensures
        r == spec_file_kind(data@),
{
    let n = data.len();
    if n >= 3 && *vstd::slice::slice_index_get(data, 0) == 0xFF && *vstd::slice::slice_index_get(
        data,
        1,
    ) == 0xD8 && *vstd::slice::slice_index_get(data, 2) == 0xFF {
        return Some(FileKind::Jpeg);
    }
    if n >= 8 && *vstd::slice::slice_index_get(data, 0) == 137 && *vstd::slice::slice_index_get(
        data,
        1,
    ) == 80 && *vstd::slice::slice_index_get(data, 2) == 78 && *vstd::slice::slice_index_get(
        data,
        3,
    ) == 71 && *vstd::slice::slice_index_get(data, 4) == 13 && *vstd::slice::slice_index_get(
        data,
        5,
    ) == 10 && *vstd::slice::slice_index_get(data, 6) == 26 && *vstd::slice::slice_index_get(
        data,
        7,
    ) == 10 {
        return Some(FileKind::Png);
    }
    if n >= 8 && *vstd::slice::slice_index_get(data, 4) == 0x66 && *vstd::slice::slice_index_get(
        data,
        5,
    ) == 0x74 && *vstd::slice::slice_index_get(data, 6) == 0x79 && *vstd::slice::slice_index_get(
        data,
        7,
    ) == 0x70 {
        return Some(FileKind::Heif);
    }
    None
}

} // verus!
